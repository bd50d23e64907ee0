use ftp_gateway::command::FtpCommand;
use ftp_gateway::flow::listing::{ListingFlow, ListingKind};
use ftp_gateway::flow::login::LoginFlow;
use ftp_gateway::flow::session::{Query, SessionFlow};
use ftp_gateway::flow::transfer::{Direction, TransferFlow, TransferPhase};
use ftp_gateway::flow::{Action, Channel, Event, Failure, Status};
use ftp_gateway::models::sql::SqlValue;

fn reply(s: &str) -> Event {
    Event::Reply(s.to_string())
}

fn assert_response(a: &Action, status: Status, body: &str) {
    match a {
        Action::Respond(r) => {
            assert_eq!(r.status, status);
            assert_eq!(r.body, body);
        }
        other => panic!("expected a response, got {:?}", other),
    }
}

fn record_params(a: &Action) -> (&'static str, &Vec<SqlValue>) {
    match a {
        Action::Record(st) => (st.sql, &st.params),
        other => panic!("expected a statement, got {:?}", other),
    }
}

#[test]
fn login_sends_user_pass_type() {
    let (mut flow, a) =
        LoginFlow::start("ftp.example.com", 2121, "anna".to_string(), "pw123".to_string());
    assert!(matches!(&a, Action::OpenControl(addr) if addr == "ftp.example.com:2121"));
    let a = flow.step(Event::Done);
    assert!(matches!(a, Action::Receive(Channel::Control)));
    let a = flow.step(reply("220 Welcome"));
    assert!(matches!(&a, Action::Exchange(FtpCommand::User(u)) if u == "anna"));
    let a = flow.step(reply("331 Password required"));
    assert!(matches!(&a, Action::Exchange(FtpCommand::Pass(p)) if p == "pw123"));
    let a = flow.step(reply("230 Logged in"));
    assert!(matches!(a, Action::Exchange(FtpCommand::TypeImage)));
    let a = flow.step(reply("200 Type set to I"));
    assert_response(&a, Status::Success, "Successfully connected to the FTP server");
}

#[test]
fn login_ignores_refusals() {
    let (mut flow, _) = LoginFlow::start("h", 21, "u".to_string(), "p".to_string());
    flow.step(Event::Done);
    flow.step(reply("220"));
    flow.step(reply("530 Not logged in"));
    flow.step(reply("530 Not logged in"));
    let a = flow.step(reply("530 Not logged in"));
    assert_response(&a, Status::Success, "Successfully connected to the FTP server");
}

#[test]
fn session_queries() {
    let (mut flow, a) = SessionFlow::start(Query::Pwd, true);
    assert!(matches!(a, Action::Exchange(FtpCommand::Pwd)));
    let a = flow.step(reply("257 \"/\" is current directory"));
    assert_response(&a, Status::Success, "Successfully fetched pwd: 257 \"/\" is current directory");

    let (mut flow, a) = SessionFlow::start(Query::Cwd("/pub".to_string()), true);
    assert!(matches!(&a, Action::Exchange(FtpCommand::Cwd(p)) if p == "/pub"));
    let a = flow.step(reply("250 OK"));
    assert_response(&a, Status::Success, "Successfully changed the working directory: 250 OK");

    let (mut flow, a) = SessionFlow::start(Query::Cdup, true);
    assert!(matches!(a, Action::Exchange(FtpCommand::Cdup)));
    let a = flow.step(reply("Timeout"));
    assert_response(&a, Status::Success, "Successfully changed the working directory: Timeout");
}

#[test]
fn every_handler_refuses_without_connection() {
    let body = "Please connect to the FTP server first";
    assert_response(&SessionFlow::start(Query::Pwd, false).1, Status::BadRequest, body);
    assert_response(&SessionFlow::start(Query::Cdup, false).1, Status::BadRequest, body);
    assert_response(
        &SessionFlow::start(Query::Cwd("x".to_string()), false).1,
        Status::BadRequest,
        body,
    );
    assert_response(&ListingFlow::start(ListingKind::List, false).1, Status::BadRequest, body);
    assert_response(&ListingFlow::start(ListingKind::Mlsd, false).1, Status::BadRequest, body);
    let up = TransferFlow::start_upload(
        "u".to_string(),
        "/a".to_string(),
        "a".to_string(),
        false,
        0,
        false,
    );
    assert_response(&up.1, Status::BadRequest, body);
    let down = TransferFlow::start_download("u".to_string(), "/a".to_string(), "a".to_string(), false);
    assert_response(&down.1, Status::BadRequest, body);
}

#[test]
fn listing_over_data_connection() {
    let (mut flow, a) = ListingFlow::start(ListingKind::List, true);
    assert!(matches!(a, Action::Exchange(FtpCommand::Pasv)));
    let a = flow.step(reply("227 Entering Passive Mode (127,0,0,1,4,1)"));
    assert!(matches!(&a, Action::OpenData(addr) if addr == "127.0.0.1:1025"));
    let a = flow.step(Event::Done);
    assert!(matches!(a, Action::Exchange(FtpCommand::List)));
    let a = flow.step(reply("150 Here comes the listing"));
    assert!(matches!(a, Action::Receive(Channel::Data)));
    let a = flow.step(reply("a.txt\r\nb.txt\r\n"));
    assert!(matches!(a, Action::CloseData));
    let a = flow.step(Event::Done);
    assert!(matches!(a, Action::Receive(Channel::Control)));
    let a = flow.step(reply("226 Done"));
    assert_response(&a, Status::Success, "Successfully fetched list: \na.txt\r\nb.txt\r\n");
}

#[test]
fn mlsd_listing_and_malformed_pasv() {
    let (mut flow, _) = ListingFlow::start(ListingKind::Mlsd, true);
    flow.step(reply("227 (10,0,0,2,0,20)"));
    let a = flow.step(Event::Done);
    assert!(matches!(a, Action::Exchange(FtpCommand::Mlsd)));
    flow.step(reply("150"));
    flow.step(reply("type=file; a"));
    flow.step(Event::Done);
    let a = flow.step(reply("226"));
    assert_response(&a, Status::Success, "Successfully fetched mlsd: \ntype=file; a");

    let (mut flow, _) = ListingFlow::start(ListingKind::Mlsd, true);
    let a = flow.step(reply("500 Unknown command"));
    assert!(matches!(a, Action::Abort(Failure::MalformedPassiveReply)));
}

/// Drives a transfer from its start through the transfer command's reply.
fn to_chunk_loop(flow: &mut TransferFlow, resumed_at: Option<usize>, command: &str, mode: &str) {
    let a = flow.step(Event::Done);
    assert!(matches!(a, Action::Exchange(FtpCommand::Pwd)));
    let a = flow.step(reply("257 \"/home/anna\" is current directory"));
    let (sql, params) = record_params(&a);
    assert!(sql.starts_with("INSERT"));
    assert_own_row(&params[..4], mode);
    assert_eq!(params[4], SqlValue::Text("/home/anna".to_string()));
    assert_eq!(params[5], SqlValue::Text("a.txt".to_string()));
    assert_eq!(params[6], SqlValue::Int(0));
    let a = flow.step(Event::Done);
    assert!(matches!(a, Action::Exchange(FtpCommand::Pasv)));
    let a = flow.step(reply("227 Entering Passive Mode (127,0,0,1,200,10)"));
    assert!(matches!(&a, Action::OpenData(addr) if addr == "127.0.0.1:51210"));
    let mut a = flow.step(Event::Done);
    if let Some(offset) = resumed_at {
        assert!(matches!(a, Action::SeekLocal(o) if o == offset as u64));
        let b = flow.step(Event::Done);
        assert!(matches!(b, Action::Exchange(FtpCommand::Rest(o)) if o == offset));
        a = flow.step(reply("350 Restarting"));
    }
    match &a {
        Action::Exchange(c) => assert_eq!(c.line(), format!("{} a.txt", command)),
        other => panic!("expected the transfer command, got {:?}", other),
    }
    let a = flow.step(reply("150 Ok to send data"));
    assert!(matches!(a, Action::ReadChunk));
    assert_eq!(flow.phase, TransferPhase::Reading);
}

fn assert_own_row(params: &[SqlValue], mode: &str) {
    assert_eq!(
        params,
        &[
            SqlValue::Text(mode.to_string()),
            SqlValue::Text("anna".to_string()),
            SqlValue::Text("/tmp/a.txt".to_string()),
            SqlValue::Text("a.txt".to_string()),
        ][..]
    );
}

/// Passes a chunk of `n` bytes and checks the offset recorded for it.
fn pass_chunk(flow: &mut TransferFlow, n: usize, recorded: i64) {
    let mode = match flow.direction {
        Direction::Upload => "stor",
        Direction::Download => "retr",
    };
    let a = flow.step(Event::Chunk(n));
    assert!(matches!(a, Action::WriteChunk(m) if m == n));
    let a = flow.step(Event::Done);
    let (sql, params) = record_params(&a);
    assert!(sql.starts_with("UPDATE"));
    assert_eq!(params[0], SqlValue::Int(recorded));
    assert_own_row(&params[1..], mode);
    let a = flow.step(Event::Done);
    assert!(matches!(a, Action::ReadChunk));
}

fn finish(flow: &mut TransferFlow, mode: &str, body: &str) {
    let a = flow.step(Event::Chunk(0));
    let (sql, params) = record_params(&a);
    assert!(sql.starts_with("DELETE"));
    assert_own_row(&params[..], mode);
    let a = flow.step(Event::Done);
    assert!(matches!(a, Action::CloseData));
    let a = flow.step(Event::Done);
    assert!(matches!(a, Action::Receive(Channel::Control)));
    let a = flow.step(reply("226 Transfer complete"));
    assert_response(&a, Status::Success, body);
}

#[test]
fn upload_records_offsets_and_removes_its_row() {
    let (mut flow, a) = TransferFlow::start_upload(
        "anna".to_string(),
        "/tmp/a.txt".to_string(),
        "a.txt".to_string(),
        false,
        12345,
        true,
    );
    assert!(matches!(a, Action::OpenLocal));
    to_chunk_loop(&mut flow, None, "STOR", "stor");
    pass_chunk(&mut flow, 32768, 0);
    pass_chunk(&mut flow, 32768, 32768);
    pass_chunk(&mut flow, 100, 65536);
    assert_eq!(flow.offset, 65636);
    finish(&mut flow, "stor", "Successfully stored the file");
}

#[test]
fn resumed_upload_starts_at_its_breakpoint() {
    let (mut flow, _) = TransferFlow::start_upload(
        "anna".to_string(),
        "/tmp/a.txt".to_string(),
        "a.txt".to_string(),
        true,
        4096,
        true,
    );
    to_chunk_loop(&mut flow, Some(4096), "STOR", "stor");
    pass_chunk(&mut flow, 1000, 4096);
    pass_chunk(&mut flow, 24, 5096);
    assert_eq!(flow.offset, 5120);
    finish(&mut flow, "stor", "Successfully stored the file");
}

#[test]
fn resume_at_negative_breakpoint_wraps_like_a_cast() {
    let (mut flow, _) = TransferFlow::start_upload(
        "anna".to_string(),
        "/tmp/a.txt".to_string(),
        "a.txt".to_string(),
        true,
        -1,
        true,
    );
    to_chunk_loop(&mut flow, Some(-1i64 as usize), "STOR", "stor");
    let a = flow.step(Event::Chunk(1));
    assert!(matches!(a, Action::WriteChunk(1)));
    flow.step(Event::Done);
    let a = flow.step(Event::Done);
    assert!(matches!(a, Action::Abort(Failure::OffsetOverflow)));
}

#[test]
fn download_records_offsets_and_removes_its_row() {
    let (mut flow, a) =
        TransferFlow::start_download("anna".to_string(), "/tmp/a.txt".to_string(), "a.txt".to_string(), true);
    assert!(matches!(a, Action::OpenLocal));
    to_chunk_loop(&mut flow, None, "RETR", "retr");
    pass_chunk(&mut flow, 7, 0);
    pass_chunk(&mut flow, 9, 7);
    finish(&mut flow, "retr", "Successfully retrieved the file");
}

#[test]
fn empty_file_transfer() {
    let (mut flow, _) =
        TransferFlow::start_download("anna".to_string(), "/tmp/a.txt".to_string(), "a.txt".to_string(), true);
    to_chunk_loop(&mut flow, None, "RETR", "retr");
    finish(&mut flow, "retr", "Successfully retrieved the file");
}

#[test]
fn transfer_with_malformed_pasv_reply_gives_up() {
    let (mut flow, _) =
        TransferFlow::start_download("anna".to_string(), "/tmp/a.txt".to_string(), "a.txt".to_string(), true);
    flow.step(Event::Done);
    flow.step(reply("257 \"/\""));
    flow.step(Event::Done);
    let a = flow.step(reply("227 Entering Passive Mode"));
    assert!(matches!(a, Action::Abort(Failure::MalformedPassiveReply)));
}

fn describe(a: &Action) -> String {
    match a {
        Action::Exchange(c) => format!("exchange {}", c.line().replace("MLSD", "LIST")),
        Action::Respond(r) => format!(
            "respond {:?} {}",
            r.status,
            r.body.replace("fetched mlsd", "fetched list")
        ),
        other => format!("{:?}", other),
    }
}

#[test]
fn mlsd_runs_as_list() {
    let events = || {
        vec![
            reply("227 (127,0,0,1,4,1)"),
            Event::Done,
            reply("150"),
            reply("a\r\nb\r\n"),
            Event::Done,
            reply("226"),
        ]
    };
    let (mut list, la) = ListingFlow::start(ListingKind::List, true);
    let (mut mlsd, ma) = ListingFlow::start(ListingKind::Mlsd, true);
    assert_eq!(describe(&la), describe(&ma));
    for (e1, e2) in events().into_iter().zip(events()) {
        let la = list.step(e1);
        let ma = mlsd.step(e2);
        assert_eq!(list.phase, mlsd.phase);
        assert_eq!(describe(&la), describe(&ma));
        if let (Action::Exchange(FtpCommand::List), Action::Exchange(c)) = (&la, &ma) {
            assert_eq!(c, &FtpCommand::Mlsd);
        }
    }
}

#[test]
fn one_update_per_chunk_then_one_delete() {
    let (mut flow, _) = TransferFlow::start_upload(
        "anna".to_string(),
        "/tmp/a.txt".to_string(),
        "a.txt".to_string(),
        true,
        100,
        true,
    );
    let mut actions = Vec::new();
    let mut feed = |flow: &mut TransferFlow, e: Event, actions: &mut Vec<Action>| {
        let a = flow.step(e);
        actions.push(a);
    };
    feed(&mut flow, Event::Done, &mut actions);
    feed(&mut flow, reply("257 \"/\""), &mut actions);
    feed(&mut flow, Event::Done, &mut actions);
    feed(&mut flow, reply("227 (1,2,3,4,0,20)"), &mut actions);
    feed(&mut flow, Event::Done, &mut actions);
    feed(&mut flow, Event::Done, &mut actions);
    feed(&mut flow, reply("350"), &mut actions);
    feed(&mut flow, reply("150"), &mut actions);
    for n in [10usize, 20, 5] {
        feed(&mut flow, Event::Chunk(n), &mut actions);
        feed(&mut flow, Event::Done, &mut actions);
        feed(&mut flow, Event::Done, &mut actions);
    }
    feed(&mut flow, Event::Chunk(0), &mut actions);
    feed(&mut flow, Event::Done, &mut actions);
    feed(&mut flow, Event::Done, &mut actions);
    feed(&mut flow, reply("226"), &mut actions);
    assert!(matches!(actions.last(), Some(Action::Respond(r)) if r.status == Status::Success));
    let recorded: Vec<SqlValue> = actions
        .iter()
        .filter_map(|a| match a {
            Action::Record(st) if st.sql.starts_with("UPDATE") => Some(st.params[0].clone_value()),
            _ => None,
        })
        .collect();
    assert_eq!(recorded, vec![SqlValue::Int(100), SqlValue::Int(110), SqlValue::Int(130)]);
    let deletes: Vec<usize> = actions
        .iter()
        .enumerate()
        .filter(|(_, a)| matches!(a, Action::Record(st) if st.sql.starts_with("DELETE")))
        .map(|(i, _)| i)
        .collect();
    assert_eq!(deletes.len(), 1);
    let last_update = actions
        .iter()
        .rposition(|a| matches!(a, Action::Record(st) if st.sql.starts_with("UPDATE")))
        .unwrap();
    assert!(last_update < deletes[0]);
}

trait CloneValue {
    fn clone_value(&self) -> SqlValue;
}

impl CloneValue for SqlValue {
    fn clone_value(&self) -> SqlValue {
        match self {
            SqlValue::Text(s) => SqlValue::Text(s.clone()),
            SqlValue::Int(n) => SqlValue::Int(*n),
        }
    }
}
