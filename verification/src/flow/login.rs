//! `POST /connect`: open the control connection and log in.
use vstd::prelude::*;
use crate::command::{address, address_of, FtpCommand};
use crate::flow::{answers, completion, is_response, respond, Action, Awaiting, Channel, Event, Status};

verus! {

#[derive(Debug, PartialEq, Eq, Structural)]
pub enum LoginPhase {
    Connecting,
    Greeting,
    UserSent,
    PassSent,
    TypeSent,
    Finished,
}

#[derive(Debug)]
pub struct LoginFlow {
    pub phase: LoginPhase,
    pub username: String,
    pub password: String,
}

pub open spec fn connected_body() -> Seq<char> {
    "Successfully connected to the FTP server"@
}

impl LoginFlow {
    pub open spec fn awaiting(self) -> Awaiting {
        match self.phase {
            LoginPhase::Connecting => Awaiting::Done,
            LoginPhase::Finished => Awaiting::Nothing,
            _ => Awaiting::Reply,
        }
    }

    /// One step: after the connection is open, read the greeting; then log
    /// in with `USER` and `PASS`, ask for binary transfers with `TYPE I`, and
    /// answer that the gateway is connected. Replies are not inspected.
    pub open spec fn next(pre: Self, event: Event, post: Self, a: Action) -> bool {
        &&& post.username == pre.username
        &&& post.password == pre.password
        &&& match pre.phase {
            LoginPhase::Connecting => post.phase == LoginPhase::Greeting && a == Action::Receive(
                Channel::Control,
            ),
            LoginPhase::Greeting => {
                &&& post.phase == LoginPhase::UserSent
                &&& a matches Action::Exchange(FtpCommand::User(u)) && u@ == pre.username@
            },
            LoginPhase::UserSent => {
                &&& post.phase == LoginPhase::PassSent
                &&& a matches Action::Exchange(FtpCommand::Pass(p)) && p@ == pre.password@
            },
            LoginPhase::PassSent => post.phase == LoginPhase::TypeSent && a == Action::Exchange(
                FtpCommand::TypeImage,
            ),
            LoginPhase::TypeSent => post.phase == LoginPhase::Finished && is_response(
                a,
                Status::Success,
                connected_body(),
            ),
            LoginPhase::Finished => false,
        }
    }

    /// Begins a login to `host:port`: the first action opens the control
    /// connection.
    pub fn start(host: &str, port: u16, username: String, password: String) -> (r: (
        LoginFlow,
        Action,
    ))
        ensures
            r.0.phase == LoginPhase::Connecting,
            r.0.username == username,
            r.0.password == password,
            r.1 matches Action::OpenControl(addr) && addr@ == address_of(host@, port),
            r.0.awaiting() == completion(r.1),
    {
        let flow = LoginFlow { phase: LoginPhase::Connecting, username, password };
        (flow, Action::OpenControl(address(host, port)))
    }

    /// Takes the outcome of the last action and gives the next one.
    pub fn step(&mut self, event: Event) -> (a: Action)
        requires
            answers(event, old(self).awaiting()),
        ensures
            Self::next(*old(self), event, *final(self), a),
            final(self).awaiting() == completion(a),
    {
        match self.phase {
            LoginPhase::Connecting => {
                self.phase = LoginPhase::Greeting;
                Action::Receive(Channel::Control)
            },
            LoginPhase::Greeting => {
                self.phase = LoginPhase::UserSent;
                Action::Exchange(FtpCommand::User(self.username.clone()))
            },
            LoginPhase::UserSent => {
                self.phase = LoginPhase::PassSent;
                Action::Exchange(FtpCommand::Pass(self.password.clone()))
            },
            LoginPhase::PassSent => {
                self.phase = LoginPhase::TypeSent;
                Action::Exchange(FtpCommand::TypeImage)
            },
            LoginPhase::TypeSent => {
                self.phase = LoginPhase::Finished;
                respond(Status::Success, "Successfully connected to the FTP server")
            },
            LoginPhase::Finished => respond(Status::Success, "Successfully connected to the FTP server"),
        }
    }
}

/// The phase of a login after `k` steps.
pub open spec fn login_phase_at(k: int) -> LoginPhase {
    if k <= 0 {
        LoginPhase::Connecting
    } else if k == 1 {
        LoginPhase::Greeting
    } else if k == 2 {
        LoginPhase::UserSent
    } else if k == 3 {
        LoginPhase::PassSent
    } else if k == 4 {
        LoginPhase::TypeSent
    } else {
        LoginPhase::Finished
    }
}

/// `states`, `events`, `actions` are a run of a login flow: each step takes
/// an event of the kind awaited.
pub open spec fn is_login_run(
    states: Seq<LoginFlow>,
    events: Seq<Event>,
    actions: Seq<Action>,
) -> bool {
    &&& states.len() == events.len() + 1
    &&& actions.len() == events.len()
    &&& forall|i: int|
        #![trigger events[i]]
        0 <= i < events.len() ==> answers(events[i], states[i].awaiting()) && LoginFlow::next(
            states[i],
            events[i],
            states[i + 1],
            actions[i],
        )
}

proof fn lemma_login_phases(
    states: Seq<LoginFlow>,
    events: Seq<Event>,
    actions: Seq<Action>,
    k: int,
)
    requires
        is_login_run(states, events, actions),
        states[0].phase == LoginPhase::Connecting,
        0 <= k <= events.len(),
    ensures
        k <= 5,
        states[k].phase == login_phase_at(k),
        states[k].username == states[0].username,
        states[k].password == states[0].password,
    decreases k,
{
    if k > 0 {
        lemma_login_phases(states, events, actions, k - 1);
        assert(LoginFlow::next(states[k - 1], events[k - 1], states[k], actions[k - 1]));
    }
}

/// A login answers after its fourth exchange (`TYPE I`), and always with
/// success and the same text, whatever the user name, the password and the
/// server's replies: the answer does not tell whether the server accepted
/// the login.
pub proof fn law_login_answer_ignores_replies(
    states: Seq<LoginFlow>,
    events: Seq<Event>,
    actions: Seq<Action>,
)
    requires
        is_login_run(states, events, actions),
        states[0].phase == LoginPhase::Connecting,
    ensures
        forall|k: int|
            0 <= k < events.len() ==> ((#[trigger] actions[k] is Respond) <==> k == 4),
        forall|k: int|
            0 <= k < events.len() ==> (#[trigger] actions[k] is Respond ==> is_response(
                actions[k],
                Status::Success,
                connected_body(),
            )),
        forall|k: int|
            0 <= k < events.len() && #[trigger] actions[k] is Respond ==> actions[k]->Respond_0.status
                == Status::Success && actions[k]->Respond_0.body@
                == "Successfully connected to the FTP server"@,
{
    assert forall|k: int| 0 <= k < events.len() implies ((#[trigger] actions[k] is Respond) <==> k
        == 4) && (actions[k] is Respond ==> is_response(
        actions[k],
        Status::Success,
        connected_body(),
    )) by {
        lemma_login_phases(states, events, actions, k);
        assert(LoginFlow::next(states[k], events[k], states[k + 1], actions[k]));
    }
}

/// A login sends the credentials it was given, unchanged and whatever their
/// length: `USER name` at its second step, `PASS password` at its third,
/// then `TYPE I`.
pub proof fn law_login_sends_the_credentials(
    states: Seq<LoginFlow>,
    events: Seq<Event>,
    actions: Seq<Action>,
)
    requires
        is_login_run(states, events, actions),
        states[0].phase == LoginPhase::Connecting,
    ensures
        1 < events.len() ==> (actions[1] matches Action::Exchange(FtpCommand::User(u)) && u@
            == states[0].username@),
        2 < events.len() ==> (actions[2] matches Action::Exchange(FtpCommand::Pass(p)) && p@
            == states[0].password@),
        3 < events.len() ==> actions[3] == Action::Exchange(FtpCommand::TypeImage),
{
    if 1 < events.len() {
        lemma_login_phases(states, events, actions, 1);
        assert(LoginFlow::next(states[1], events[1], states[2], actions[1]));
    }
    if 2 < events.len() {
        lemma_login_phases(states, events, actions, 2);
        assert(LoginFlow::next(states[2], events[2], states[3], actions[2]));
    }
    if 3 < events.len() {
        lemma_login_phases(states, events, actions, 3);
        assert(LoginFlow::next(states[3], events[3], states[4], actions[3]));
    }
}

} // verus!
