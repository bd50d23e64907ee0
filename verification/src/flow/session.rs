//! `GET /pwd`, `POST /cwd`, `POST /cdup`: one command on the control
//! connection, its reply handed back.
use vstd::prelude::*;
use crate::command::{command_line, FtpCommand};
use crate::flow::{
    answers, completion, is_response, not_connected, not_connected_body, respond_ok, Action,
    Awaiting, Event, Status,
};

verus! {

/// Which command the handler runs.
#[derive(Debug)]
pub enum Query {
    Pwd,
    Cwd(String),
    Cdup,
}

#[derive(Debug, PartialEq, Eq, Structural)]
pub enum SessionPhase {
    Sent,
    Finished,
}

#[derive(Debug)]
pub struct SessionFlow {
    pub query: Query,
    pub phase: SessionPhase,
}

/// The command sent for a query.
pub open spec fn is_query_command(q: Query, c: FtpCommand) -> bool {
    match q {
        Query::Pwd => c == FtpCommand::Pwd,
        Query::Cwd(p) => c matches FtpCommand::Cwd(p2) && p2@ == p@,
        Query::Cdup => c == FtpCommand::Cdup,
    }
}

/// What the answer puts before the reply.
pub open spec fn query_prefix(q: Query) -> Seq<char> {
    match q {
        Query::Pwd => "Successfully fetched pwd: "@,
        _ => "Successfully changed the working directory: "@,
    }
}

impl SessionFlow {
    pub open spec fn awaiting(self) -> Awaiting {
        match self.phase {
            SessionPhase::Sent => Awaiting::Reply,
            SessionPhase::Finished => Awaiting::Nothing,
        }
    }

    /// One step: the reply to the command is answered, after the prefix of
    /// the query.
    pub open spec fn next(pre: Self, event: Event, post: Self, a: Action) -> bool {
        &&& post.query == pre.query
        &&& pre.phase == SessionPhase::Sent
        &&& post.phase == SessionPhase::Finished
        &&& event matches Event::Reply(r) && is_response(
            a,
            Status::Success,
            query_prefix(pre.query) + r@,
        )
    }

    /// What `start` gives: without a control connection the `BadRequest`
    /// answer; otherwise the query's command is sent.
    pub open spec fn started(flow: Self, a: Action, query: Query, connected: bool) -> bool {
        &&& flow.query == query
        &&& !connected ==> flow.phase == SessionPhase::Finished && is_response(
            a,
            Status::BadRequest,
            not_connected_body(),
        )
        &&& connected ==> flow.phase == SessionPhase::Sent
        &&& connected ==> (a matches Action::Exchange(c) && is_query_command(query, c))
    }

    /// Begins a query: without a control connection the answer is
    /// `BadRequest`; otherwise the command is sent.
    pub fn start(query: Query, connected: bool) -> (r: (SessionFlow, Action))
        ensures
            Self::started(r.0, r.1, query, connected),
            connected ==> (query matches Query::Cwd(p) ==> (r.1 matches Action::Exchange(
                FtpCommand::Cwd(p2),
            ) && p2@ == p@)),
            connected ==> (query is Pwd ==> r.1 == Action::Exchange(FtpCommand::Pwd)),
            connected ==> (query is Cdup ==> r.1 == Action::Exchange(FtpCommand::Cdup)),
            r.0.awaiting() == completion(r.1),
    {
        if !connected {
            return (SessionFlow { query, phase: SessionPhase::Finished }, not_connected());
        }
        let command = match &query {
            Query::Pwd => FtpCommand::Pwd,
            Query::Cwd(p) => FtpCommand::Cwd(p.clone()),
            Query::Cdup => FtpCommand::Cdup,
        };
        (SessionFlow { query, phase: SessionPhase::Sent }, Action::Exchange(command))
    }

    /// Takes the outcome of the last action and gives the next one.
    pub fn step(&mut self, event: Event) -> (a: Action)
        requires
            answers(event, old(self).awaiting()),
        ensures
            Self::next(*old(self), event, *final(self), a),
            final(self).awaiting() == completion(a),
    {
        let reply = match event {
            Event::Reply(r) => r,
            _ => String::new(),
        };
        self.phase = SessionPhase::Finished;
        match &self.query {
            Query::Pwd => respond_ok("Successfully fetched pwd: ", reply.as_str()),
            _ => respond_ok("Successfully changed the working directory: ", reply.as_str()),
        }
    }
}

/// A query sends its own command, its path unchanged: `PWD`, `CWD path`,
/// `CDUP`.
pub proof fn law_query_sends_its_command(flow: SessionFlow, a: Action, query: Query)
    requires
        SessionFlow::started(flow, a, query, true),
    ensures
        a matches Action::Exchange(c) && command_line(c) == match query {
            Query::Pwd => "PWD"@,
            Query::Cwd(p) => "CWD "@ + p@,
            Query::Cdup => "CDUP"@,
        },
        query matches Query::Cwd(p) ==> (a matches Action::Exchange(FtpCommand::Cwd(p2)) && p2@
            == p@),
{
}

/// A query answers success with the server's reply unchanged, after
/// "Successfully fetched pwd: " for `PWD` and "Successfully changed the
/// working directory: " for `CWD` and `CDUP`.
pub proof fn law_query_answers_with_reply(
    pre: SessionFlow,
    event: Event,
    post: SessionFlow,
    a: Action,
)
    requires
        SessionFlow::next(pre, event, post, a),
    ensures
        event is Reply,
        a is Respond,
        a->Respond_0.status == Status::Success,
        a->Respond_0.body@ == (if pre.query is Pwd {
            "Successfully fetched pwd: "@
        } else {
            "Successfully changed the working directory: "@
        }) + event->Reply_0@,
{
}

} // verus!
