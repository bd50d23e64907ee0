//! The handlers of the gateway as state machines. Each handler alternates
//! between outside work (network, files, database) and decisions; a flow
//! makes the decisions: given the outcome of the last piece of work (an
//! `Event`), it moves to its next state and names the next piece of work
//! (an `Action`). The driver performs each action and reports its outcome.
use vstd::prelude::*;
use crate::command::FtpCommand;
use crate::models::sql::Statement;

pub mod listing;
pub mod login;
pub mod session;
pub mod transfer;

verus! {

/// Which connection a message is read from.
#[derive(Debug, PartialEq, Eq)]
pub enum Channel {
    Control,
    Data,
}

/// The HTTP status of a handler's answer.
#[derive(Debug, PartialEq, Eq, Structural)]
pub enum Status {
    Success,
    BadRequest,
}

/// A handler's answer.
#[derive(Debug)]
pub struct Response {
    pub status: Status,
    pub body: String,
}

/// Why a flow gave up; the handler fails.
#[derive(Debug, PartialEq, Eq, Structural)]
pub enum Failure {
    /// The passive-mode reply named no endpoint.
    MalformedPassiveReply,
    /// The transfer offset went past `usize`.
    OffsetOverflow,
}

/// The next piece of outside work.
#[derive(Debug)]
pub enum Action {
    /// Open the control connection to this address. Completes with `Done`.
    OpenControl(String),
    /// Open the local file (created anew for a download). Completes with `Done`.
    OpenLocal,
    /// Send this command on the control connection and read one reply.
    /// Completes with `Reply`.
    Exchange(FtpCommand),
    /// Read one message from this connection. Completes with `Reply`.
    Receive(Channel),
    /// Run this statement on the database. Completes with `Done`.
    Record(Statement),
    /// Open the data connection to this address. Completes with `Done`.
    OpenData(String),
    /// Move to this offset in the local file. Completes with `Done`.
    SeekLocal(u64),
    /// Read one chunk (from the local file for an upload, from the data
    /// connection for a download). Completes with `Chunk`.
    ReadChunk,
    /// Pass on the first this many bytes of the chunk just read (to the data
    /// connection for an upload, to the local file for a download).
    /// Completes with `Done`.
    WriteChunk(usize),
    /// Shut the data connection down. Completes with `Done`.
    CloseData,
    /// Answer the request; the flow is over.
    Respond(Response),
    /// Give up; the flow is over.
    Abort(Failure),
}

/// The outcome of an action.
#[derive(Debug)]
pub enum Event {
    Done,
    Reply(String),
    /// The number of bytes read.
    Chunk(usize),
}

/// The kind of event a flow waits for.
#[derive(Debug, PartialEq, Eq, Structural)]
pub enum Awaiting {
    Done,
    Reply,
    Chunk,
    Nothing,
}

/// The kind of event with which an action completes.
pub open spec fn completion(a: Action) -> Awaiting {
    match a {
        Action::Exchange(_) => Awaiting::Reply,
        Action::Receive(_) => Awaiting::Reply,
        Action::ReadChunk => Awaiting::Chunk,
        Action::Respond(_) => Awaiting::Nothing,
        Action::Abort(_) => Awaiting::Nothing,
        _ => Awaiting::Done,
    }
}

/// `e` is an event of the kind `w`.
pub open spec fn answers(e: Event, w: Awaiting) -> bool {
    match e {
        Event::Done => w == Awaiting::Done,
        Event::Reply(_) => w == Awaiting::Reply,
        Event::Chunk(_) => w == Awaiting::Chunk,
    }
}

/// `a` answers with this status and body.
pub open spec fn is_response(a: Action, status: Status, body: Seq<char>) -> bool {
    a matches Action::Respond(r) && r.status == status && r.body@ == body
}

pub open spec fn not_connected_body() -> Seq<char> {
    "Please connect to the FTP server first"@
}

/// The answer when no control connection is open.
pub fn not_connected() -> (a: Action)
    ensures
        is_response(a, Status::BadRequest, not_connected_body()),
        a is Respond,
        a->Respond_0.status == Status::BadRequest,
        a->Respond_0.body@ == "Please connect to the FTP server first"@,
{
    respond(Status::BadRequest, "Please connect to the FTP server first")
}

/// An answer with this status and body.
pub fn respond(status: Status, body: &str) -> (a: Action)
    ensures
        is_response(a, status, body@),
{
    Action::Respond(Response { status, body: String::from_str(body) })
}

/// A successful answer with `prefix` followed by `text`.
pub fn respond_ok(prefix: &str, text: &str) -> (a: Action)
    ensures
        is_response(a, Status::Success, prefix@ + text@),
{
    let mut body = String::from_str(prefix);
    body.append(text);
    Action::Respond(Response { status: Status::Success, body })
}

} // verus!
