use ftp_gateway::reply::{parse_pasv_reply, pwd_directory, reply_text, PassiveEndpoint};

fn endpoint(ip: &str, port: u16) -> Option<PassiveEndpoint> {
    Some(PassiveEndpoint { ip: ip.to_string(), port })
}

#[test]
fn reply_text_decodes_what_came_in() {
    assert_eq!(reply_text(Some(b"220 Welcome\r\n")), "220 Welcome\r\n");
    assert_eq!(reply_text(Some("257 \"/Bücher\"".as_bytes())), "257 \"/Bücher\"");
    assert_eq!(reply_text(Some(b"")), "");
}

#[test]
fn reply_text_replaces_invalid_bytes() {
    assert_eq!(reply_text(Some(&[0x32, 0xff, 0x33])), "2\u{fffd}3");
}

#[test]
fn reply_text_after_a_timeout() {
    assert_eq!(reply_text(None), "Timeout");
}

#[test]
fn pasv_reply_gives_host_and_port() {
    assert_eq!(
        parse_pasv_reply("227 Entering Passive Mode (192,168,1,10,195,80).\r\n"),
        endpoint("192.168.1.10", 50000)
    );
    assert_eq!(parse_pasv_reply("227 (127,0,0,1,0,21)"), endpoint("127.0.0.1", 21));
    assert_eq!(parse_pasv_reply("227 (1,2,3,4,255,255)"), endpoint("1.2.3.4", 65535));
}

#[test]
fn pasv_reply_numbers_read_as_u16() {
    assert_eq!(parse_pasv_reply("(+10,020,0,1,+0,21)"), endpoint("10.20.0.1", 21));
    assert_eq!(parse_pasv_reply("(300,2,3,4,0,21)"), endpoint("300.2.3.4", 21));
}

#[test]
fn pasv_reply_extra_numbers_are_read_too() {
    assert_eq!(parse_pasv_reply("(1,2,3,4,5,6,7)"), endpoint("1.2.3.4", 1286));
    assert_eq!(parse_pasv_reply("(1,2,3,4,5,6,x)"), None);
}

#[test]
fn pasv_reply_uses_first_parentheses() {
    assert_eq!(parse_pasv_reply("(1,2,3,4,0,21) (9,9,9,9,9,9)"), endpoint("1.2.3.4", 21));
}

#[test]
fn pasv_reply_malformed() {
    assert_eq!(parse_pasv_reply("227 Entering Passive Mode"), None);
    assert_eq!(parse_pasv_reply("227 (1,2,3,4,0,21"), None);
    assert_eq!(parse_pasv_reply("227 1,2,3,4,0,21)"), None);
    assert_eq!(parse_pasv_reply(") (1,2,3,4,0,21)"), None);
    assert_eq!(parse_pasv_reply("()"), None);
    assert_eq!(parse_pasv_reply("(1,2,3,4,5)"), None);
    assert_eq!(parse_pasv_reply("(1,2,3,4, 5,6)"), None);
    assert_eq!(parse_pasv_reply("(1,2,3,4,,6)"), None);
    assert_eq!(parse_pasv_reply("(1,2,3,4,5,6,)"), None);
    assert_eq!(parse_pasv_reply("(1,2,3,4,256,0)"), None);
    assert_eq!(parse_pasv_reply("(1,2,3,4,255,256)"), None);
    assert_eq!(parse_pasv_reply("(1,2,3,4,0,70000)"), None);
    assert_eq!(parse_pasv_reply("(-1,2,3,4,0,21)"), None);
}

#[test]
fn pwd_reply_names_the_directory() {
    assert_eq!(pwd_directory("257 \"/home/user\" is the current directory\r\n"), "/home/user");
    assert_eq!(pwd_directory("  257\t\"/\"  "), "/");
    assert_eq!(pwd_directory("257 /pub/files"), "/pub/files");
    assert_eq!(pwd_directory("257 \"\"/a b\"\""), "/a");
}

#[test]
fn pwd_reply_without_a_second_word() {
    assert_eq!(pwd_directory("257"), "/");
    assert_eq!(pwd_directory(""), "/");
    assert_eq!(pwd_directory("   \r\n"), "/");
    assert_eq!(pwd_directory("Timeout"), "/");
}

#[test]
fn pwd_reply_of_quotes_only() {
    assert_eq!(pwd_directory("257 \"\"\" x"), "");
    assert_eq!(pwd_directory("257 \"a\"b\""), "a\"b");
}

/// The directory as the handlers of `stor` and `retr` read it from the reply.
fn directory_by_std(reply: &str) -> String {
    reply.trim().split_whitespace().nth(1).unwrap_or("/").trim_matches('"').to_string()
}

#[test]
fn pwd_directory_agrees_with_std_reading() {
    for reply in [
        "257 \"/home/user\" is the current directory\r\n",
        "257 \"/a b\"",
        "257\u{3000}\"/x\"\u{2028}y",
        "\u{a0}257\u{85}/dir\u{a0}",
        "257 \"\"",
        "257 \"\"\"\"",
        "257",
        "",
        "  ",
        "Timeout",
        "257 \"/ü/ß\" ok",
        "\"\"257 \"\"",
    ] {
        assert_eq!(pwd_directory(reply), directory_by_std(reply), "{:?}", reply);
    }
}

/// The endpoint read with std's string functions, each failure as `None`.
fn endpoint_by_std(response: &str) -> Option<(String, u16)> {
    let start = response.find('(')? + 1;
    let end = response.find(')')?;
    if start > end {
        return None;
    }
    let data = &response[start..end];
    let parts: Vec<u16> = data.split(',').map(|s| s.parse().ok()).collect::<Option<Vec<u16>>>()?;
    if parts.len() < 6 {
        return None;
    }
    let ip = format!("{}.{}.{}.{}", parts[0], parts[1], parts[2], parts[3]);
    let port = parts[4].checked_mul(256)?.checked_add(parts[5])?;
    Some((ip, port))
}

#[test]
fn pasv_reply_agrees_with_std_reading() {
    for reply in [
        "227 Entering Passive Mode (192,168,1,10,195,80).\r\n",
        "227 Entering Passive Mode (192,168,1,10,195,80",
        "227 Entering Passive Mode (192,168,1,10,195)",
        "227 ü (1,2,3,4,5,6) ö",
        "227 )(",
        "()",
        "(,,,,,)",
        "(1,2,3,4,255,255)",
        "(1,2,3,4,256,0)",
        "(+1,+2,+3,+4,+5,+6)",
        "(0001,2,3,4,5,6)",
        "(1,2,3,4,5,6,65535)",
        "(1,2,3,4,5,6,65536)",
    ] {
        let ours = parse_pasv_reply(reply).map(|e| (e.ip, e.port));
        assert_eq!(ours, endpoint_by_std(reply), "{:?}", reply);
    }
}

#[test]
fn announced_endpoints_are_read_back() {
    for p in [
        [0u16, 0, 0, 0, 0, 0],
        [255, 255, 255, 255, 255, 255],
        [192, 168, 0, 1, 19, 136],
        [10, 0, 0, 7, 1, 0],
        [1, 2, 3, 4, 0, 65535],
    ] {
        let reply = format!(
            "227 Entering Passive Mode ({},{},{},{},{},{}).\r\n",
            p[0], p[1], p[2], p[3], p[4], p[5]
        );
        let e = parse_pasv_reply(&reply).unwrap();
        assert_eq!(e.ip, format!("{}.{}.{}.{}", p[0], p[1], p[2], p[3]));
        assert_eq!(e.port as u32, p[4] as u32 * 256 + p[5] as u32);
    }
}

#[test]
fn quoted_directories_are_read_back() {
    for (code, dir, tail) in [
        ("257", "/home/anna", " is the current directory\r\n"),
        ("257", "/", ""),
        ("257", "", "\r\n"),
        ("257-", "/srv/ftp/ü", "\tok"),
    ] {
        let reply = format!("{} \"{}\"{}", code, dir, tail);
        assert_eq!(pwd_directory(&reply), dir, "{:?}", reply);
    }
}
