use ftp_gateway::command::{address, frame_line, FtpCommand};

#[test]
fn command_lines() {
    assert_eq!(FtpCommand::User("anna".to_string()).line(), "USER anna");
    assert_eq!(FtpCommand::Pass("pw123".to_string()).line(), "PASS pw123");
    assert_eq!(FtpCommand::TypeImage.line(), "TYPE I");
    assert_eq!(FtpCommand::Pwd.line(), "PWD");
    assert_eq!(FtpCommand::Cwd("/pub dir".to_string()).line(), "CWD /pub dir");
    assert_eq!(FtpCommand::Cdup.line(), "CDUP");
    assert_eq!(FtpCommand::Pasv.line(), "PASV");
    assert_eq!(FtpCommand::List.line(), "LIST");
    assert_eq!(FtpCommand::Mlsd.line(), "MLSD");
    assert_eq!(FtpCommand::Rest(0).line(), "REST 0");
    assert_eq!(FtpCommand::Rest(1048576).line(), "REST 1048576");
    assert_eq!(FtpCommand::Stor("a.txt".to_string()).line(), "STOR a.txt");
    assert_eq!(FtpCommand::Retr("b.bin".to_string()).line(), "RETR b.bin");
}

#[test]
fn command_frames_end_in_crlf() {
    assert_eq!(FtpCommand::User("anna".to_string()).frame(), b"USER anna\r\n".to_vec());
    assert_eq!(FtpCommand::Pwd.frame(), b"PWD\r\n".to_vec());
    assert_eq!(FtpCommand::Cwd("ü".to_string()).frame(), "CWD ü\r\n".as_bytes().to_vec());
    assert_eq!(frame_line("NOOP"), b"NOOP\r\n".to_vec());
    assert_eq!(frame_line(""), b"\r\n".to_vec());
}

#[test]
fn addresses() {
    assert_eq!(address("ftp.example.com", 21), "ftp.example.com:21");
    assert_eq!(address("10.0.0.1", 0), "10.0.0.1:0");
    assert_eq!(address("::1", 65535), "::1:65535");
}
