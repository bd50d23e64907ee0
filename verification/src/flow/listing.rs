//! `GET /list`, `GET /mlsd`: a directory listing over a passive-mode data
//! connection.
use vstd::prelude::*;
use crate::command::{address, address_of, FtpCommand};
use crate::flow::{
    answers, completion, is_response, not_connected, not_connected_body, respond_ok, Action,
    Awaiting, Channel, Event, Failure, Status,
};
use crate::reply::{parse_pasv_reply, pasv_endpoint};

verus! {

/// Which listing the handler asks for.
#[derive(Debug, PartialEq, Eq, Structural)]
pub enum ListingKind {
    List,
    Mlsd,
}

#[derive(Debug, PartialEq, Eq, Structural)]
pub enum ListingPhase {
    PasvSent,
    DataOpening,
    CommandSent,
    Receiving,
    Closing,
    FinalReply,
    Finished,
}

#[derive(Debug)]
pub struct ListingFlow {
    pub kind: ListingKind,
    pub phase: ListingPhase,
    /// What came in on the data connection.
    pub listing: String,
}

pub open spec fn listing_command(k: ListingKind) -> FtpCommand {
    match k {
        ListingKind::List => FtpCommand::List,
        ListingKind::Mlsd => FtpCommand::Mlsd,
    }
}

pub open spec fn listing_prefix(k: ListingKind) -> Seq<char> {
    match k {
        ListingKind::List => "Successfully fetched list: \n"@,
        ListingKind::Mlsd => "Successfully fetched mlsd: \n"@,
    }
}

impl ListingFlow {
    pub open spec fn awaiting(self) -> Awaiting {
        match self.phase {
            ListingPhase::DataOpening => Awaiting::Done,
            ListingPhase::Closing => Awaiting::Done,
            ListingPhase::Finished => Awaiting::Nothing,
            _ => Awaiting::Reply,
        }
    }

    /// One step: open the data connection at the endpoint of the `PASV`
    /// reply, send the listing command and read its reply, read the listing
    /// from the data connection, shut that down, read the closing reply, and
    /// answer with the listing.
    pub open spec fn next(pre: Self, event: Event, post: Self, a: Action) -> bool {
        &&& post.kind == pre.kind
        &&& match pre.phase {
            ListingPhase::PasvSent => event matches Event::Reply(r) && match pasv_endpoint(r@) {
                Some((ip, port)) => {
                    &&& post.phase == ListingPhase::DataOpening
                    &&& post.listing == pre.listing
                    &&& a matches Action::OpenData(addr) && addr@ == address_of(ip, port)
                },
                None => {
                    &&& post.phase == ListingPhase::Finished
                    &&& post.listing == pre.listing
                    &&& a == Action::Abort(Failure::MalformedPassiveReply)
                },
            },
            ListingPhase::DataOpening => {
                &&& post.phase == ListingPhase::CommandSent
                &&& post.listing == pre.listing
                &&& a == Action::Exchange(listing_command(pre.kind))
            },
            ListingPhase::CommandSent => {
                &&& post.phase == ListingPhase::Receiving
                &&& post.listing == pre.listing
                &&& a == Action::Receive(Channel::Data)
            },
            ListingPhase::Receiving => event matches Event::Reply(r) && {
                &&& post.phase == ListingPhase::Closing
                &&& post.listing@ == r@
                &&& a == Action::CloseData
            },
            ListingPhase::Closing => {
                &&& post.phase == ListingPhase::FinalReply
                &&& post.listing == pre.listing
                &&& a == Action::Receive(Channel::Control)
            },
            ListingPhase::FinalReply => {
                &&& post.phase == ListingPhase::Finished
                &&& post.listing == pre.listing
                &&& is_response(a, Status::Success, listing_prefix(pre.kind) + pre.listing@)
            },
            ListingPhase::Finished => false,
        }
    }

    /// What `start` gives: a flow of this kind with an empty listing; without a
    /// control connection, the `BadRequest` answer; otherwise a `PASV` exchange.
    pub open spec fn started(flow: Self, a: Action, kind: ListingKind, connected: bool) -> bool {
        &&& flow.kind == kind
        &&& flow.listing@ == Seq::<char>::empty()
        &&& !connected ==> flow.phase == ListingPhase::Finished && is_response(
            a,
            Status::BadRequest,
            not_connected_body(),
        )
        &&& connected ==> flow.phase == ListingPhase::PasvSent && a == Action::Exchange(
            FtpCommand::Pasv,
        )
    }

    /// Begins a listing: without a control connection the answer is
    /// `BadRequest`; otherwise passive mode is asked for.
    pub fn start(kind: ListingKind, connected: bool) -> (r: (ListingFlow, Action))
        ensures
            Self::started(r.0, r.1, kind, connected),
            r.0.awaiting() == completion(r.1),
    {
        if !connected {
            return (
                ListingFlow { kind, phase: ListingPhase::Finished, listing: String::new() },
                not_connected(),
            );
        }
        (
            ListingFlow { kind, phase: ListingPhase::PasvSent, listing: String::new() },
            Action::Exchange(FtpCommand::Pasv),
        )
    }

    /// Takes the outcome of the last action and gives the next one.
    pub fn step(&mut self, event: Event) -> (a: Action)
        requires
            answers(event, old(self).awaiting()),
        ensures
            Self::next(*old(self), event, *final(self), a),
            final(self).awaiting() == completion(a),
    {
        match self.phase {
            ListingPhase::PasvSent => {
                let reply = match event {
                    Event::Reply(r) => r,
                    _ => String::new(),
                };
                match parse_pasv_reply(reply.as_str()) {
                    Some(e) => {
                        self.phase = ListingPhase::DataOpening;
                        Action::OpenData(address(e.ip.as_str(), e.port))
                    },
                    None => {
                        self.phase = ListingPhase::Finished;
                        Action::Abort(Failure::MalformedPassiveReply)
                    },
                }
            },
            ListingPhase::DataOpening => {
                self.phase = ListingPhase::CommandSent;
                match self.kind {
                    ListingKind::List => Action::Exchange(FtpCommand::List),
                    ListingKind::Mlsd => Action::Exchange(FtpCommand::Mlsd),
                }
            },
            ListingPhase::CommandSent => {
                self.phase = ListingPhase::Receiving;
                Action::Receive(Channel::Data)
            },
            ListingPhase::Receiving => {
                let reply = match event {
                    Event::Reply(r) => r,
                    _ => String::new(),
                };
                self.listing = reply;
                self.phase = ListingPhase::Closing;
                Action::CloseData
            },
            ListingPhase::Closing => {
                self.phase = ListingPhase::FinalReply;
                Action::Receive(Channel::Control)
            },
            _ => {
                self.phase = ListingPhase::Finished;
                match self.kind {
                    ListingKind::List => respond_ok(
                        "Successfully fetched list: \n",
                        self.listing.as_str(),
                    ),
                    ListingKind::Mlsd => respond_ok(
                        "Successfully fetched mlsd: \n",
                        self.listing.as_str(),
                    ),
                }
            },
        }
    }
}

/// `la`, an action of a `LIST` flow, and `ma`, one of an `MLSD` flow, are
/// the same work but for the listing command and the answer's prefix; both
/// answers carry the listing `text`.
pub open spec fn mirrors(la: Action, ma: Action, text: Seq<char>) -> bool {
    match (la, ma) {
        (Action::Exchange(c), Action::Exchange(d)) => (c == FtpCommand::Pasv && d == FtpCommand::Pasv)
            || (c == FtpCommand::List && d == FtpCommand::Mlsd),
        (Action::OpenData(x), Action::OpenData(y)) => x@ == y@,
        (Action::Receive(x), Action::Receive(y)) => x == y,
        (Action::CloseData, Action::CloseData) => true,
        (Action::Abort(f), Action::Abort(g)) => f == g,
        (Action::Respond(r), Action::Respond(q)) => {
            &&& r.status == q.status
            &&& r.body@ == listing_prefix(ListingKind::List) + text
            &&& q.body@ == listing_prefix(ListingKind::Mlsd) + text
        },
        _ => false,
    }
}

/// Started alike, an `MLSD` flow and a `LIST` flow are in the same phase and
/// name the same first action, the same `BadRequest` answer included.
pub proof fn law_mlsd_starts_as_list(
    l: ListingFlow,
    la: Action,
    m: ListingFlow,
    ma: Action,
    connected: bool,
)
    requires
        ListingFlow::started(l, la, ListingKind::List, connected),
        ListingFlow::started(m, ma, ListingKind::Mlsd, connected),
    ensures
        l.phase == m.phase,
        l.listing@ == m.listing@,
        connected ==> la == ma,
        !connected ==> (la matches Action::Respond(r) && ma matches Action::Respond(q)
            && r.status == q.status && r.body@ == q.body@),
{
}

proof fn lemma_mlsd_step_as_list(
    l0: ListingFlow,
    m0: ListingFlow,
    e: Event,
    l1: ListingFlow,
    la: Action,
    m1: ListingFlow,
    ma: Action,
)
    requires
        l0.kind == ListingKind::List,
        m0.kind == ListingKind::Mlsd,
        l0.phase == m0.phase,
        l0.listing@ == m0.listing@,
        ListingFlow::next(l0, e, l1, la),
        ListingFlow::next(m0, e, m1, ma),
    ensures
        l1.kind == ListingKind::List,
        m1.kind == ListingKind::Mlsd,
        l1.phase == m1.phase,
        l1.listing@ == m1.listing@,
        mirrors(la, ma, l0.listing@),
{
}

/// `states`, `events`, `actions` are a run of a listing flow: each step takes
/// an event of the kind awaited.
pub open spec fn is_listing_run(
    states: Seq<ListingFlow>,
    events: Seq<Event>,
    actions: Seq<Action>,
) -> bool {
    &&& states.len() == events.len() + 1
    &&& actions.len() == events.len()
    &&& forall|i: int|
        #![trigger events[i]]
        0 <= i < events.len() ==> answers(events[i], states[i].awaiting()) && ListingFlow::next(
            states[i],
            events[i],
            states[i + 1],
            actions[i],
        )
}

proof fn lemma_mlsd_run_as_list(
    ls: Seq<ListingFlow>,
    la: Seq<Action>,
    ms: Seq<ListingFlow>,
    ma: Seq<Action>,
    events: Seq<Event>,
    k: int,
)
    requires
        is_listing_run(ls, events, la),
        is_listing_run(ms, events, ma),
        ls[0].kind == ListingKind::List,
        ms[0].kind == ListingKind::Mlsd,
        ls[0].phase == ms[0].phase,
        ls[0].listing@ == ms[0].listing@,
        0 <= k <= events.len(),
    ensures
        ls[k].kind == ListingKind::List,
        ms[k].kind == ListingKind::Mlsd,
        ls[k].phase == ms[k].phase,
        ls[k].listing@ == ms[k].listing@,
        k < events.len() ==> mirrors(la[k], ma[k], ls[k].listing@),
    decreases k,
{
    if k > 0 {
        lemma_mlsd_run_as_list(ls, la, ms, ma, events, k - 1);
        assert(ListingFlow::next(ls[k - 1], events[k - 1], ls[k], la[k - 1]));
        assert(ListingFlow::next(ms[k - 1], events[k - 1], ms[k], ma[k - 1]));
        lemma_mlsd_step_as_list(
            ls[k - 1],
            ms[k - 1],
            events[k - 1],
            ls[k],
            la[k - 1],
            ms[k],
            ma[k - 1],
        );
    }
    if k < events.len() {
        assert(ListingFlow::next(ls[k], events[k], ls[k + 1], la[k]));
        assert(ListingFlow::next(ms[k], events[k], ms[k + 1], ma[k]));
        lemma_mlsd_step_as_list(ls[k], ms[k], events[k], ls[k + 1], la[k], ms[k + 1], ma[k]);
    }
}

/// An `MLSD` listing runs as a `LIST` listing: fed the same replies and
/// data, the two flows go through the same phases and name the same work,
/// but for `MLSD` in place of `LIST` and the answer's prefix; both answer
/// with the same listing text.
pub proof fn law_mlsd_runs_as_list(
    ls: Seq<ListingFlow>,
    la: Seq<Action>,
    ms: Seq<ListingFlow>,
    ma: Seq<Action>,
    events: Seq<Event>,
)
    requires
        is_listing_run(ls, events, la),
        is_listing_run(ms, events, ma),
        ls[0].kind == ListingKind::List,
        ms[0].kind == ListingKind::Mlsd,
        ls[0].phase == ms[0].phase,
        ls[0].listing@ == ms[0].listing@,
    ensures
        forall|k: int|
            0 <= k <= events.len() ==> (#[trigger] ls[k]).phase == ms[k].phase && ls[k].listing@
                == ms[k].listing@,
        forall|k: int|
            0 <= k < events.len() ==> mirrors(#[trigger] la[k], ma[k], ls[k].listing@),
{
    assert forall|k: int| 0 <= k <= events.len() implies (#[trigger] ls[k]).phase == ms[k].phase
        && ls[k].listing@ == ms[k].listing@ by {
        lemma_mlsd_run_as_list(ls, la, ms, ma, events, k);
    }
    assert forall|k: int| 0 <= k < events.len() implies mirrors(
        #[trigger] la[k],
        ma[k],
        ls[k].listing@,
    ) by {
        lemma_mlsd_run_as_list(ls, la, ms, ma, events, k);
    }
}

/// The phase of a listing after `k` steps, when it does not give up.
pub open spec fn listing_phase_at(k: int) -> ListingPhase {
    if k <= 0 {
        ListingPhase::PasvSent
    } else if k == 1 {
        ListingPhase::DataOpening
    } else if k == 2 {
        ListingPhase::CommandSent
    } else if k == 3 {
        ListingPhase::Receiving
    } else if k == 4 {
        ListingPhase::Closing
    } else if k == 5 {
        ListingPhase::FinalReply
    } else {
        ListingPhase::Finished
    }
}

proof fn lemma_listing_run(
    states: Seq<ListingFlow>,
    events: Seq<Event>,
    actions: Seq<Action>,
    k: int,
)
    requires
        is_listing_run(states, events, actions),
        states[0].phase == ListingPhase::PasvSent,
        0 <= k <= events.len(),
    ensures
        states[k].kind == states[0].kind,
        states[k].phase == listing_phase_at(k) || (k == 1 && states[k].phase
            == ListingPhase::Finished),
        k >= 3 && states[k].phase == listing_phase_at(k) ==> actions[2] == Action::Receive(
            Channel::Data,
        ),
        k >= 4 && states[k].phase == listing_phase_at(k) ==> (events[3] is Reply
            && states[k].listing@ == events[3]->Reply_0@),
    decreases k,
{
    if k > 0 {
        lemma_listing_run(states, events, actions, k - 1);
        assert(answers(events[k - 1], states[k - 1].awaiting()) && ListingFlow::next(
            states[k - 1],
            events[k - 1],
            states[k],
            actions[k - 1],
        ));
    }
}

/// A listing answers with its prefix (`Successfully fetched list: ` or
/// `... mlsd: `, then a line break) followed by exactly the text read from
/// the data connection, whatever its length: the reply to the
/// `Receive(Data)` action at step 2.
pub proof fn law_listing_answers_with_data_text(
    states: Seq<ListingFlow>,
    events: Seq<Event>,
    actions: Seq<Action>,
    k: int,
)
    requires
        is_listing_run(states, events, actions),
        states[0].phase == ListingPhase::PasvSent,
        0 <= k < events.len(),
        actions[k] matches Action::Respond(r) && r.status == Status::Success,
    ensures
        k == 5,
        actions[2] == Action::Receive(Channel::Data),
        events[3] is Reply,
        actions[k]->Respond_0.body@ == (if states[0].kind == ListingKind::List {
            "Successfully fetched list: \n"@
        } else {
            "Successfully fetched mlsd: \n"@
        }) + events[3]->Reply_0@,
{
    lemma_listing_run(states, events, actions, k);
    assert(answers(events[k], states[k].awaiting()) && ListingFlow::next(
        states[k],
        events[k],
        states[k + 1],
        actions[k],
    ));
}

} // verus!
