//! `POST /stor` and `POST /retr`: a file transfer over a passive-mode data
//! connection, with its progress kept in the `breakpoint` table so that an
//! interrupted upload can be resumed.
use vstd::prelude::*;
use crate::command::{address, address_of, command_line, FtpCommand};
use crate::flow::{
    answers, completion, is_response, not_connected, not_connected_body, respond, Action,
    Awaiting, Channel, Event, Failure, Status,
};
use crate::models::sql::{
    delete, insert, is_delete, is_insert, is_update, update, SqlValue, StatementKind,
};
use crate::reply::{parse_pasv_reply, pasv_endpoint, pwd_directory, pwd_directory_of};

verus! {

/// Upload (`STOR`, local file to server) or download (`RETR`).
#[derive(Debug, PartialEq, Eq, Structural)]
pub enum Direction {
    Upload,
    Download,
}

#[derive(Debug, PartialEq, Eq, Structural)]
pub enum TransferPhase {
    Opening,
    PwdSent,
    Inserting,
    PasvSent,
    DataOpening,
    Seeking,
    RestSent,
    CommandSent,
    Reading,
    /// Passing on a chunk of this many bytes.
    Writing(usize),
    /// Recording the offset before a chunk of this many bytes.
    Updating(usize),
    Deleting,
    Closing,
    FinalReply,
    Finished,
}

#[derive(Debug)]
pub struct TransferFlow {
    pub direction: Direction,
    pub username: String,
    pub local_filepath: String,
    pub local_filename: String,
    /// The offset to resume an upload at, if it is resumed.
    pub resume: Option<i64>,
    /// Bytes transferred so far, counting from the start of the file.
    pub offset: usize,
    pub phase: TransferPhase,
}

/// The `mode` column of a transfer's row.
pub open spec fn mode_of(d: Direction) -> Seq<char> {
    match d {
        Direction::Upload => "stor"@,
        Direction::Download => "retr"@,
    }
}

fn mode_str(d: &Direction) -> (s: &'static str)
    ensures
        s@ == mode_of(*d),
{
    match d {
        Direction::Upload => "stor",
        Direction::Download => "retr",
    }
}

/// `c` starts the transfer of the remote file `name`.
pub open spec fn is_transfer_command(d: Direction, name: Seq<char>, c: FtpCommand) -> bool {
    match d {
        Direction::Upload => c matches FtpCommand::Stor(f) && f@ == name,
        Direction::Download => c matches FtpCommand::Retr(f) && f@ == name,
    }
}

/// The answer of a completed transfer.
pub open spec fn done_body(d: Direction) -> Seq<char> {
    match d {
        Direction::Upload => "Successfully stored the file"@,
        Direction::Download => "Successfully retrieved the file"@,
    }
}

impl TransferFlow {
    pub open spec fn awaiting(self) -> Awaiting {
        match self.phase {
            TransferPhase::PwdSent => Awaiting::Reply,
            TransferPhase::PasvSent => Awaiting::Reply,
            TransferPhase::RestSent => Awaiting::Reply,
            TransferPhase::CommandSent => Awaiting::Reply,
            TransferPhase::FinalReply => Awaiting::Reply,
            TransferPhase::Reading => Awaiting::Chunk,
            TransferPhase::Finished => Awaiting::Nothing,
            _ => Awaiting::Done,
        }
    }

    /// `post` keeps what names the transfer.
    pub open spec fn same_transfer(pre: Self, post: Self) -> bool {
        &&& post.direction == pre.direction
        &&& post.username == pre.username
        &&& post.local_filepath == pre.local_filepath
        &&& post.local_filename == pre.local_filename
        &&& post.resume == pre.resume
    }

    /// `st` inserts this transfer's row, with the remote directory `dir` and
    /// offset 0.
    pub open spec fn inserts_row(self, st: crate::models::sql::Statement, dir: Seq<char>) -> bool {
        is_insert(
            st,
            mode_of(self.direction),
            self.username@,
            self.local_filepath@,
            self.local_filename@,
            dir,
            self.local_filename@,
            0,
        )
    }

    /// `st` sets the offset of this transfer's row.
    pub open spec fn updates_row(self, st: crate::models::sql::Statement, bytes: i64) -> bool {
        is_update(
            st,
            mode_of(self.direction),
            self.username@,
            self.local_filepath@,
            self.local_filename@,
            bytes,
        )
    }

    /// `st` deletes this transfer's row.
    pub open spec fn deletes_row(self, st: crate::models::sql::Statement) -> bool {
        is_delete(
            st,
            mode_of(self.direction),
            self.username@,
            self.local_filepath@,
            self.local_filename@,
        )
    }

    /// One step. In order: open the local file; ask for the working
    /// directory; insert the transfer's row with offset 0; open the data
    /// connection at the endpoint of the `PASV` reply; for a resumed upload,
    /// move in the local file to the resume offset and send `REST` with it;
    /// send `STOR` or `RETR`; then, chunk by chunk, pass the chunk on, record
    /// the offset it started at, and add its size to the offset; at the empty
    /// chunk, delete the row, shut the data connection down, read the closing
    /// reply and answer.
    pub open spec fn next(pre: Self, event: Event, post: Self, a: Action) -> bool {
        &&& Self::same_transfer(pre, post)
        &&& match pre.phase {
            TransferPhase::Opening => {
                &&& post.phase == TransferPhase::PwdSent
                &&& post.offset == pre.offset
                &&& a == Action::Exchange(FtpCommand::Pwd)
            },
            TransferPhase::PwdSent => event matches Event::Reply(r) && {
                &&& post.phase == TransferPhase::Inserting
                &&& post.offset == pre.offset
                &&& a matches Action::Record(st) && pre.inserts_row(st, pwd_directory_of(r@))
            },
            TransferPhase::Inserting => {
                &&& post.phase == TransferPhase::PasvSent
                &&& post.offset == pre.offset
                &&& a == Action::Exchange(FtpCommand::Pasv)
            },
            TransferPhase::PasvSent => event matches Event::Reply(r) && match pasv_endpoint(r@) {
                Some((ip, port)) => {
                    &&& post.phase == TransferPhase::DataOpening
                    &&& post.offset == pre.offset
                    &&& a matches Action::OpenData(addr) && addr@ == address_of(ip, port)
                },
                None => {
                    &&& post.phase == TransferPhase::Finished
                    &&& post.offset == pre.offset
                    &&& a == Action::Abort(Failure::MalformedPassiveReply)
                },
            },
            TransferPhase::DataOpening => match pre.resume {
                Some(b) => {
                    &&& post.phase == TransferPhase::Seeking
                    &&& post.offset == b as usize
                    &&& a == Action::SeekLocal((b as usize) as u64)
                },
                None => {
                    &&& post.phase == TransferPhase::CommandSent
                    &&& post.offset == pre.offset
                    &&& a matches Action::Exchange(c) && is_transfer_command(
                        pre.direction,
                        pre.local_filename@,
                        c,
                    )
                },
            },
            TransferPhase::Seeking => {
                &&& post.phase == TransferPhase::RestSent
                &&& post.offset == pre.offset
                &&& a == Action::Exchange(FtpCommand::Rest(pre.offset))
            },
            TransferPhase::RestSent => {
                &&& post.phase == TransferPhase::CommandSent
                &&& post.offset == pre.offset
                &&& a matches Action::Exchange(c) && is_transfer_command(
                    pre.direction,
                    pre.local_filename@,
                    c,
                )
            },
            TransferPhase::CommandSent => {
                &&& post.phase == TransferPhase::Reading
                &&& post.offset == pre.offset
                &&& a == Action::ReadChunk
            },
            TransferPhase::Reading => event matches Event::Chunk(n) && {
                &&& post.offset == pre.offset
                &&& if n == 0 {
                    &&& post.phase == TransferPhase::Deleting
                    &&& a matches Action::Record(st) && pre.deletes_row(st)
                } else {
                    &&& post.phase == TransferPhase::Writing(n)
                    &&& a == Action::WriteChunk(n)
                }
            },
            TransferPhase::Writing(n) => {
                &&& post.phase == TransferPhase::Updating(n)
                &&& post.offset == pre.offset
                &&& a matches Action::Record(st) && pre.updates_row(st, pre.offset as i64)
            },
            TransferPhase::Updating(n) => if pre.offset + n <= usize::MAX {
                &&& post.phase == TransferPhase::Reading
                &&& post.offset == pre.offset + n
                &&& a == Action::ReadChunk
            } else {
                &&& post.phase == TransferPhase::Finished
                &&& post.offset == pre.offset
                &&& a == Action::Abort(Failure::OffsetOverflow)
            },
            TransferPhase::Deleting => {
                &&& post.phase == TransferPhase::Closing
                &&& post.offset == pre.offset
                &&& a == Action::CloseData
            },
            TransferPhase::Closing => {
                &&& post.phase == TransferPhase::FinalReply
                &&& post.offset == pre.offset
                &&& a == Action::Receive(Channel::Control)
            },
            TransferPhase::FinalReply => {
                &&& post.phase == TransferPhase::Finished
                &&& post.offset == pre.offset
                &&& is_response(a, Status::Success, done_body(pre.direction))
            },
            TransferPhase::Finished => false,
        }
    }

    fn begin(
        direction: Direction,
        username: String,
        local_filepath: String,
        local_filename: String,
        resume: Option<i64>,
        connected: bool,
    ) -> (r: (TransferFlow, Action))
        ensures
            r.0.direction == direction,
            r.0.username == username,
            r.0.local_filepath == local_filepath,
            r.0.local_filename == local_filename,
            r.0.resume == resume,
            r.0.offset == 0,
            !connected ==> r.0.phase == TransferPhase::Finished && is_response(
                r.1,
                Status::BadRequest,
                not_connected_body(),
            ),
            connected ==> r.0.phase == TransferPhase::Opening && r.1 == Action::OpenLocal,
            r.0.awaiting() == completion(r.1),
    {
        let phase = if connected {
            TransferPhase::Opening
        } else {
            TransferPhase::Finished
        };
        let flow = TransferFlow {
            direction,
            username,
            local_filepath,
            local_filename,
            resume,
            offset: 0,
            phase,
        };
        if connected {
            (flow, Action::OpenLocal)
        } else {
            (flow, not_connected())
        }
    }

    /// Begins an upload of the local file `local_filepath` as `local_filename`
    /// in the server's working directory; with `is_resume`, from offset
    /// `breakpnt` on. Without a control connection the answer is `BadRequest`.
    pub fn start_upload(
        username: String,
        local_filepath: String,
        local_filename: String,
        is_resume: bool,
        breakpnt: i64,
        connected: bool,
    ) -> (r: (TransferFlow, Action))
        ensures
            r.0.direction == Direction::Upload,
            r.0.username == username,
            r.0.local_filepath == local_filepath,
            r.0.local_filename == local_filename,
            r.0.resume == (if is_resume {
                Some(breakpnt)
            } else {
                None
            }),
            r.0.offset == 0,
            !connected ==> r.0.phase == TransferPhase::Finished && is_response(
                r.1,
                Status::BadRequest,
                not_connected_body(),
            ),
            connected ==> r.0.phase == TransferPhase::Opening && r.1 == Action::OpenLocal,
            r.0.awaiting() == completion(r.1),
    {
        let resume = if is_resume {
            Some(breakpnt)
        } else {
            None
        };
        Self::begin(Direction::Upload, username, local_filepath, local_filename, resume, connected)
    }

    /// Begins a download of the remote file `local_filename` into the local
    /// file `local_filepath`. Without a control connection the answer is
    /// `BadRequest`.
    pub fn start_download(
        username: String,
        local_filepath: String,
        local_filename: String,
        connected: bool,
    ) -> (r: (TransferFlow, Action))
        ensures
            r.0.direction == Direction::Download,
            r.0.username == username,
            r.0.local_filepath == local_filepath,
            r.0.local_filename == local_filename,
            r.0.resume is None,
            r.0.offset == 0,
            !connected ==> r.0.phase == TransferPhase::Finished && is_response(
                r.1,
                Status::BadRequest,
                not_connected_body(),
            ),
            connected ==> r.0.phase == TransferPhase::Opening && r.1 == Action::OpenLocal,
            r.0.awaiting() == completion(r.1),
    {
        Self::begin(Direction::Download, username, local_filepath, local_filename, None, connected)
    }

    fn transfer_command(&self) -> (c: FtpCommand)
        ensures
            is_transfer_command(self.direction, self.local_filename@, c),
            self.direction == Direction::Upload ==> (c matches FtpCommand::Stor(f) && f@
                == self.local_filename@),
            self.direction == Direction::Download ==> (c matches FtpCommand::Retr(f) && f@
                == self.local_filename@),
    {
        match self.direction {
            Direction::Upload => FtpCommand::Stor(self.local_filename.clone()),
            Direction::Download => FtpCommand::Retr(self.local_filename.clone()),
        }
    }

    /// Takes the outcome of the last action and gives the next one.
    pub fn step(&mut self, event: Event) -> (a: Action)
        requires
            answers(event, old(self).awaiting()),
        ensures
            Self::next(*old(self), event, *final(self), a),
            final(self).awaiting() == completion(a),
    {
        match self.phase {
            TransferPhase::Opening => {
                self.phase = TransferPhase::PwdSent;
                Action::Exchange(FtpCommand::Pwd)
            },
            TransferPhase::PwdSent => {
                let reply = match event {
                    Event::Reply(r) => r,
                    _ => String::new(),
                };
                let dir = pwd_directory(reply.as_str());
                let st = insert(
                    mode_str(&self.direction),
                    self.username.as_str(),
                    self.local_filepath.as_str(),
                    self.local_filename.as_str(),
                    dir.as_str(),
                    self.local_filename.as_str(),
                    0,
                );
                self.phase = TransferPhase::Inserting;
                Action::Record(st)
            },
            TransferPhase::Inserting => {
                self.phase = TransferPhase::PasvSent;
                Action::Exchange(FtpCommand::Pasv)
            },
            TransferPhase::PasvSent => {
                let reply = match event {
                    Event::Reply(r) => r,
                    _ => String::new(),
                };
                match parse_pasv_reply(reply.as_str()) {
                    Some(e) => {
                        self.phase = TransferPhase::DataOpening;
                        Action::OpenData(address(e.ip.as_str(), e.port))
                    },
                    None => {
                        self.phase = TransferPhase::Finished;
                        Action::Abort(Failure::MalformedPassiveReply)
                    },
                }
            },
            TransferPhase::DataOpening => match self.resume {
                Some(b) => {
                    let offset = b as usize;
                    self.offset = offset;
                    self.phase = TransferPhase::Seeking;
                    Action::SeekLocal(offset as u64)
                },
                None => {
                    self.phase = TransferPhase::CommandSent;
                    Action::Exchange(self.transfer_command())
                },
            },
            TransferPhase::Seeking => {
                self.phase = TransferPhase::RestSent;
                Action::Exchange(FtpCommand::Rest(self.offset))
            },
            TransferPhase::RestSent => {
                self.phase = TransferPhase::CommandSent;
                Action::Exchange(self.transfer_command())
            },
            TransferPhase::CommandSent => {
                self.phase = TransferPhase::Reading;
                Action::ReadChunk
            },
            TransferPhase::Reading => {
                let n = match event {
                    Event::Chunk(n) => n,
                    _ => 0,
                };
                if n == 0 {
                    self.phase = TransferPhase::Deleting;
                    Action::Record(
                        delete(
                            mode_str(&self.direction),
                            self.username.as_str(),
                            self.local_filepath.as_str(),
                            self.local_filename.as_str(),
                        ),
                    )
                } else {
                    self.phase = TransferPhase::Writing(n);
                    Action::WriteChunk(n)
                }
            },
            TransferPhase::Writing(n) => {
                self.phase = TransferPhase::Updating(n);
                Action::Record(
                    update(
                        mode_str(&self.direction),
                        self.username.as_str(),
                        self.local_filepath.as_str(),
                        self.local_filename.as_str(),
                        self.offset as i64,
                    ),
                )
            },
            TransferPhase::Updating(n) => match self.offset.checked_add(n) {
                Some(next) => {
                    self.offset = next;
                    self.phase = TransferPhase::Reading;
                    Action::ReadChunk
                },
                None => {
                    self.phase = TransferPhase::Finished;
                    Action::Abort(Failure::OffsetOverflow)
                },
            },
            TransferPhase::Deleting => {
                self.phase = TransferPhase::Closing;
                Action::CloseData
            },
            TransferPhase::Closing => {
                self.phase = TransferPhase::FinalReply;
                Action::Receive(Channel::Control)
            },
            _ => {
                self.phase = TransferPhase::Finished;
                match self.direction {
                    Direction::Upload => respond(Status::Success, "Successfully stored the file"),
                    Direction::Download => respond(
                        Status::Success,
                        "Successfully retrieved the file",
                    ),
                }
            },
        }
    }
}

/// The sizes of the chunks reported by `events`, added up.
pub open spec fn chunk_total(events: Seq<Event>) -> int
    decreases events.len(),
{
    if events.len() == 0 {
        0
    } else {
        chunk_total(events.drop_last()) + match events.last() {
            Event::Chunk(n) => n as int,
            _ => 0,
        }
    }
}

/// The size of the chunk being passed on, if any.
pub open spec fn pending(p: TransferPhase) -> int {
    match p {
        TransferPhase::Writing(n) => n as int,
        TransferPhase::Updating(n) => n as int,
        _ => 0,
    }
}

/// The phases of the chunk loop.
pub open spec fn streaming(p: TransferPhase) -> bool {
    p is Reading || p is Writing || p is Updating
}

/// `states`, `events`, `actions` are a run of a transfer flow: each step
/// takes an event of the kind awaited.
pub open spec fn is_run(states: Seq<TransferFlow>, events: Seq<Event>, actions: Seq<Action>) -> bool {
    &&& states.len() == events.len() + 1
    &&& actions.len() == events.len()
    &&& forall|i: int|
        #![trigger events[i]]
        0 <= i < events.len() ==> answers(events[i], states[i].awaiting()) && TransferFlow::next(
            states[i],
            events[i],
            states[i + 1],
            actions[i],
        )
}

proof fn lemma_chunk_total_step(events: Seq<Event>, i: int)
    requires
        0 <= i < events.len(),
    ensures
        chunk_total(events.take(i + 1)) == chunk_total(events.take(i)) + match events[i] {
            Event::Chunk(n) => n as int,
            _ => 0,
        },
{
    assert(events.take(i + 1).drop_last() == events.take(i));
    assert(events.take(i + 1).last() == events[i]);
}

proof fn lemma_same_transfer(
    states: Seq<TransferFlow>,
    events: Seq<Event>,
    actions: Seq<Action>,
    k: int,
)
    requires
        is_run(states, events, actions),
        0 <= k <= events.len(),
    ensures
        TransferFlow::same_transfer(states[0], states[k]),
    decreases k,
{
    if k > 0 {
        lemma_same_transfer(states, events, actions, k - 1);
        assert(TransferFlow::next(states[k - 1], events[k - 1], states[k], actions[k - 1]));
    }
}

/// Chunk totals grow along a run.
proof fn lemma_chunk_total_monotone(events: Seq<Event>, a: int, b: int)
    requires
        0 <= a <= b <= events.len(),
    ensures
        chunk_total(events.take(a)) <= chunk_total(events.take(b)),
    decreases b - a,
{
    if a < b {
        lemma_chunk_total_monotone(events, a, b - 1);
        lemma_chunk_total_step(events, b - 1);
    }
}

/// `st` inserts this transfer's row, whatever the remote directory.
pub open spec fn inserts_own_row(flow: TransferFlow, st: crate::models::sql::Statement) -> bool {
    exists|dir: Seq<char>| flow.inserts_row(st, dir)
}

/// The phases after the row was inserted.
pub open spec fn row_inserted(p: TransferPhase) -> bool {
    !(p is Opening) && !(p is PwdSent)
}

/// The phases after the row was deleted.
pub open spec fn row_deleted(p: TransferPhase) -> bool {
    p is Deleting || p is Closing || p is FinalReply
}

proof fn lemma_row_history(
    states: Seq<TransferFlow>,
    events: Seq<Event>,
    actions: Seq<Action>,
    k: int,
) -> (w: (int, int))
    requires
        is_run(states, events, actions),
        states[0].phase == TransferPhase::Opening,
        0 <= k <= events.len(),
    ensures
        row_inserted(states[k].phase) ==> 0 <= w.0 < k && (actions[w.0] matches Action::Record(st)
            && inserts_own_row(states[0], st)),
        row_deleted(states[k].phase) ==> w.0 < w.1 < k && (actions[w.1] matches Action::Record(st)
            && states[0].deletes_row(st)),
    decreases k,
{
    if k == 0 {
        (0, 0)
    } else {
        let i = k - 1;
        let w = lemma_row_history(states, events, actions, i);
        assert(answers(events[i], states[i].awaiting()) && TransferFlow::next(
            states[i],
            events[i],
            states[i + 1],
            actions[i],
        ));
        if states[i].phase is PwdSent {
            lemma_same_transfer(states, events, actions, i);
            let r = events[i]->Reply_0;
            assert(states[i].inserts_row(actions[i]->Record_0, pwd_directory_of(r@)));
            assert(states[0].inserts_row(actions[i]->Record_0, pwd_directory_of(r@)));
            assert(inserts_own_row(states[0], actions[i]->Record_0));
            (i, w.1)
        } else if states[i].phase is Reading && !row_deleted(states[i].phase) && row_deleted(
            states[k].phase,
        ) {
            lemma_same_transfer(states, events, actions, i);
            (w.0, i)
        } else {
            w
        }
    }
}

/// A transfer that answers success inserted its row first and deleted it
/// later: a completed transfer leaves no breakpoint behind.
pub proof fn law_completed_transfer_removes_its_row(
    states: Seq<TransferFlow>,
    events: Seq<Event>,
    actions: Seq<Action>,
    k: int,
)
    requires
        is_run(states, events, actions),
        states[0].phase == TransferPhase::Opening,
        0 <= k < events.len(),
        actions[k] matches Action::Respond(r) && r.status == Status::Success,
    ensures
        exists|i: int, j: int|
            0 <= i < j < k && (#[trigger] actions[i] matches Action::Record(st) && inserts_own_row(
                states[0],
                st,
            )) && (#[trigger] actions[j] matches Action::Record(st) && states[0].deletes_row(st)),
{
    assert(answers(events[k], states[k].awaiting()) && TransferFlow::next(
        states[k],
        events[k],
        states[k + 1],
        actions[k],
    ));
    assert(states[k].phase is FinalReply);
    let w = lemma_row_history(states, events, actions, k);
    assert(actions[w.0] matches Action::Record(st) && inserts_own_row(states[0], st));
    assert(actions[w.1] matches Action::Record(st) && states[0].deletes_row(st));
}

/// A resumed upload moves in the local file and restarts the remote
/// transfer at one offset, the one it was resumed at.
pub proof fn law_resume_offsets_agree(
    s0: TransferFlow,
    e0: Event,
    s1: TransferFlow,
    a0: Action,
    e1: Event,
    s2: TransferFlow,
    a1: Action,
)
    requires
        s0.phase == TransferPhase::DataOpening,
        s0.resume is Some,
        TransferFlow::next(s0, e0, s1, a0),
        TransferFlow::next(s1, e1, s2, a1),
    ensures
        a0 == Action::SeekLocal((s0.resume->0 as usize) as u64),
        a1 == Action::Exchange(FtpCommand::Rest(s0.resume->0 as usize)),
        s2.offset == s0.resume->0 as usize,
{
}

/// `st` is a statement on this transfer's own row.
pub open spec fn on_own_row(flow: TransferFlow, st: crate::models::sql::Statement) -> bool {
    ||| inserts_own_row(flow, st)
    ||| exists|bytes: i64| flow.updates_row(st, bytes)
    ||| flow.deletes_row(st)
}

/// A transfer touches no row of the `breakpoint` table but its own, the
/// one named by its direction, user, local path and file name.
pub proof fn law_transfer_touches_only_its_row(
    states: Seq<TransferFlow>,
    events: Seq<Event>,
    actions: Seq<Action>,
)
    requires
        is_run(states, events, actions),
    ensures
        forall|k: int|
            0 <= k < events.len() ==> (#[trigger] actions[k] matches Action::Record(st)
                ==> on_own_row(states[0], st)),
        forall|k: int|
            #![trigger actions[k]]
            0 <= k < events.len() && actions[k] is Record ==> {
                let st = actions[k]->Record_0;
                let at: int = if st.kind == StatementKind::Update {
                    1
                } else {
                    0
                };
                &&& st.params@.len() >= at + 4
                &&& st.params@[at] is Text
                &&& st.params@[at]->Text_0@ == (if states[0].direction == Direction::Upload {
                    "stor"@
                } else {
                    "retr"@
                })
                &&& st.params@[at + 1] is Text
                &&& st.params@[at + 1]->Text_0@ == states[0].username@
                &&& st.params@[at + 2] is Text
                &&& st.params@[at + 2]->Text_0@ == states[0].local_filepath@
                &&& st.params@[at + 3] is Text
                &&& st.params@[at + 3]->Text_0@ == states[0].local_filename@
            },
{
    assert forall|k: int| 0 <= k < events.len() implies (#[trigger] actions[k] matches Action::Record(
        st,
    ) ==> on_own_row(states[0], st)) by {
        lemma_same_transfer(states, events, actions, k);
        assert(answers(events[k], states[k].awaiting()) && TransferFlow::next(
            states[k],
            events[k],
            states[k + 1],
            actions[k],
        ));
        if let Action::Record(st) = actions[k] {
            if states[k].phase is PwdSent {
                let r = events[k]->Reply_0;
                assert(states[0].inserts_row(st, pwd_directory_of(r@)));
            } else if states[k].phase is Writing {
                assert(states[0].updates_row(st, states[k].offset as i64));
            }
        }
    }
    assert forall|k: int|
        #![trigger actions[k]]
        0 <= k < events.len() && actions[k] is Record implies {
        let st = actions[k]->Record_0;
        let at: int = if st.kind == StatementKind::Update {
            1
        } else {
            0
        };
        &&& st.params@.len() >= at + 4
        &&& st.params@[at] is Text
        &&& st.params@[at]->Text_0@ == (if states[0].direction == Direction::Upload {
            "stor"@
        } else {
            "retr"@
        })
        &&& st.params@[at + 1] is Text
        &&& st.params@[at + 1]->Text_0@ == states[0].username@
        &&& st.params@[at + 2] is Text
        &&& st.params@[at + 2]->Text_0@ == states[0].local_filepath@
        &&& st.params@[at + 3] is Text
        &&& st.params@[at + 3]->Text_0@ == states[0].local_filename@
    } by {
        lemma_same_transfer(states, events, actions, k);
        assert(answers(events[k], states[k].awaiting()) && TransferFlow::next(
            states[k],
            events[k],
            states[k + 1],
            actions[k],
        ));
    }
}

/// The offset a transfer's chunk loop starts at: the resume offset, or 0.
pub open spec fn start_offset(f: TransferFlow) -> usize {
    match f.resume {
        Some(b) => b as usize,
        None => 0,
    }
}

/// The phases before the data connection is open.
pub open spec fn before_data(p: TransferPhase) -> bool {
    p is Opening || p is PwdSent || p is Inserting || p is PasvSent || p is DataOpening
}

/// The phases between opening the data connection and the chunk loop.
pub open spec fn before_loop(p: TransferPhase) -> bool {
    p is Seeking || p is RestSent || p is CommandSent
}

/// The phases after the row was deleted.
pub open spec fn after_delete(p: TransferPhase) -> bool {
    p is Deleting || p is Closing || p is FinalReply || p is Finished
}

/// The order of the phases of a transfer; a run never goes back.
pub open spec fn rank(p: TransferPhase) -> int {
    match p {
        TransferPhase::Opening => 0,
        TransferPhase::PwdSent => 1,
        TransferPhase::Inserting => 2,
        TransferPhase::PasvSent => 3,
        TransferPhase::DataOpening => 4,
        TransferPhase::Seeking => 5,
        TransferPhase::RestSent => 6,
        TransferPhase::CommandSent => 7,
        TransferPhase::Reading => 8,
        TransferPhase::Writing(_) => 8,
        TransferPhase::Updating(_) => 8,
        TransferPhase::Deleting => 9,
        TransferPhase::Closing => 10,
        TransferPhase::FinalReply => 11,
        TransferPhase::Finished => 12,
    }
}

proof fn lemma_rank_monotone(
    states: Seq<TransferFlow>,
    events: Seq<Event>,
    actions: Seq<Action>,
    i: int,
    j: int,
)
    requires
        is_run(states, events, actions),
        0 <= i <= j <= events.len(),
    ensures
        rank(states[i].phase) <= rank(states[j].phase),
    decreases j - i,
{
    if i < j {
        lemma_rank_monotone(states, events, actions, i, j - 1);
        assert(TransferFlow::next(states[j - 1], events[j - 1], states[j], actions[j - 1]));
    }
}

/// `a` runs an update statement.
pub open spec fn is_update_action(a: Action) -> bool {
    a matches Action::Record(st) && st.kind == StatementKind::Update
}

/// `a` runs a delete statement.
pub open spec fn is_delete_action(a: Action) -> bool {
    a matches Action::Record(st) && st.kind == StatementKind::Delete
}

/// `e` reports a chunk that is not empty.
pub open spec fn nonempty_chunk(e: Event) -> bool {
    e matches Event::Chunk(n) && n > 0
}

/// The offset recorded by an update at step `k` of a run from `first`: the
/// resume offset (or 0) plus the sizes of the chunks read before step
/// `k - 1`, the step that read the chunk just passed on.
pub open spec fn recorded_offset(first: TransferFlow, events: Seq<Event>, k: int) -> int {
    start_offset(first) + chunk_total(events.take(k - 1))
}

proof fn lemma_whole_run(
    states: Seq<TransferFlow>,
    events: Seq<Event>,
    actions: Seq<Action>,
    k: int,
)
    requires
        is_run(states, events, actions),
        states[0].phase == TransferPhase::Opening,
        states[0].offset == 0,
        0 <= k <= events.len(),
    ensures
        before_data(states[k].phase) ==> states[k].offset == 0 && chunk_total(events.take(k))
            == 0,
        before_loop(states[k].phase) ==> states[k].offset == start_offset(states[0])
            && chunk_total(events.take(k)) == 0,
        streaming(states[k].phase) ==> states[k].offset + pending(states[k].phase) == start_offset(
            states[0],
        ) + chunk_total(events.take(k)),
        states[k].phase is Writing ==> {
            &&& k > 0
            &&& pending(states[k].phase) > 0
            &&& events[k - 1] == Event::Chunk(pending(states[k].phase) as usize)
            &&& actions[k - 1] == Action::WriteChunk(pending(states[k].phase) as usize)
        },
    decreases k,
{
    if k == 0 {
        assert(events.take(0).len() == 0);
    } else {
        let i = k - 1;
        lemma_whole_run(states, events, actions, i);
        lemma_same_transfer(states, events, actions, i);
        lemma_chunk_total_step(events, i);
        assert(answers(events[i], states[i].awaiting()) && TransferFlow::next(
            states[i],
            events[i],
            states[i + 1],
            actions[i],
        ));
    }
}

proof fn lemma_after_delete(
    states: Seq<TransferFlow>,
    events: Seq<Event>,
    actions: Seq<Action>,
    i: int,
    j: int,
)
    requires
        is_run(states, events, actions),
        0 <= i < j <= events.len(),
        is_delete_action(actions[i]),
    ensures
        after_delete(states[j].phase),
        j < events.len() ==> !(actions[j] is Record),
    decreases j - i,
{
    if j == i + 1 {
        assert(answers(events[i], states[i].awaiting()) && TransferFlow::next(
            states[i],
            events[i],
            states[i + 1],
            actions[i],
        ));
    } else {
        lemma_after_delete(states, events, actions, i, j - 1);
        assert(answers(events[j - 1], states[j - 1].awaiting()) && TransferFlow::next(
            states[j - 1],
            events[j - 1],
            states[j],
            actions[j - 1],
        ));
    }
    if j < events.len() {
        assert(answers(events[j], states[j].awaiting()) && TransferFlow::next(
            states[j],
            events[j],
            states[j + 1],
            actions[j],
        ));
    }
}

proof fn lemma_update_at(
    states: Seq<TransferFlow>,
    events: Seq<Event>,
    actions: Seq<Action>,
    k: int,
)
    requires
        is_run(states, events, actions),
        states[0].phase == TransferPhase::Opening,
        states[0].offset == 0,
        0 <= k < events.len(),
        is_update_action(actions[k]),
    ensures
        k > 0,
        nonempty_chunk(events[k - 1]),
        actions[k - 1] == Action::WriteChunk(events[k - 1]->Chunk_0),
        states[0].updates_row(actions[k]->Record_0, recorded_offset(states[0], events, k) as i64),
        actions[k]->Record_0.params@[0] == SqlValue::Int(
            recorded_offset(states[0], events, k) as i64,
        ),
{
    lemma_whole_run(states, events, actions, k);
    lemma_same_transfer(states, events, actions, k);
    assert(answers(events[k], states[k].awaiting()) && TransferFlow::next(
        states[k],
        events[k],
        states[k + 1],
        actions[k],
    ));
    lemma_chunk_total_step(events, k - 1);
}

/// Over a whole transfer, from its start: while chunks are passed on, the
/// offset is the resume offset (or 0) plus the sizes of the chunks read, less
/// the chunk being passed on. Each update runs right after the action that
/// passed on a non-empty chunk, and records the resume offset plus the sizes
/// of the chunks before that one: where that chunk started, so a recorded
/// offset never claims more than was passed on. Once the row is deleted, no
/// further statement is run.
pub proof fn law_transfer_records_progress(
    states: Seq<TransferFlow>,
    events: Seq<Event>,
    actions: Seq<Action>,
)
    requires
        is_run(states, events, actions),
        states[0].phase == TransferPhase::Opening,
        states[0].offset == 0,
    ensures
        forall|k: int|
            0 <= k <= events.len() && streaming(#[trigger] states[k].phase) ==> states[k].offset
                + pending(states[k].phase) == start_offset(states[0]) + chunk_total(
                events.take(k),
            ),
        forall|k: int|
            #![trigger actions[k]]
            0 <= k < events.len() && is_update_action(actions[k]) ==> {
                &&& k > 0
                &&& nonempty_chunk(events[k - 1])
                &&& actions[k - 1] == Action::WriteChunk(events[k - 1]->Chunk_0)
                &&& states[0].updates_row(
                    actions[k]->Record_0,
                    recorded_offset(states[0], events, k) as i64,
                )
                &&& actions[k]->Record_0.params@[0] == SqlValue::Int(
                    recorded_offset(states[0], events, k) as i64,
                )
            },
        forall|i: int, j: int|
            0 <= i < j < events.len() && is_delete_action(#[trigger] actions[i]) ==> !(
            #[trigger] actions[j] is Record),
{
    assert forall|k: int|
        0 <= k <= events.len() && streaming(#[trigger] states[k].phase) implies states[k].offset
            + pending(states[k].phase) == start_offset(states[0]) + chunk_total(events.take(k)) by {
        lemma_whole_run(states, events, actions, k);
    }
    assert forall|k: int|
        #![trigger actions[k]]
        0 <= k < events.len() && is_update_action(actions[k]) implies {
        &&& k > 0
        &&& nonempty_chunk(events[k - 1])
        &&& actions[k - 1] == Action::WriteChunk(events[k - 1]->Chunk_0)
        &&& states[0].updates_row(actions[k]->Record_0, recorded_offset(states[0], events, k) as i64)
        &&& actions[k]->Record_0.params@[0] == SqlValue::Int(
            recorded_offset(states[0], events, k) as i64,
        )
    } by {
        lemma_update_at(states, events, actions, k);
    }
    assert forall|i: int, j: int|
        0 <= i < j < events.len() && is_delete_action(#[trigger] actions[i]) implies !(
        #[trigger] actions[j] is Record) by {
        lemma_after_delete(states, events, actions, i, j);
    }
}

/// A completed transfer runs exactly one update per non-empty chunk, right
/// after passing that chunk on; the recorded offsets start at the resume
/// offset (or 0), each next one is the last plus the size of the last chunk,
/// so they strictly rise; and exactly one delete follows all of them.
pub proof fn law_one_update_per_chunk_then_one_delete(
    states: Seq<TransferFlow>,
    events: Seq<Event>,
    actions: Seq<Action>,
    done: int,
)
    requires
        is_run(states, events, actions),
        states[0].phase == TransferPhase::Opening,
        states[0].offset == 0,
        0 <= done < events.len(),
        actions[done] matches Action::Respond(r) && r.status == Status::Success,
    ensures
        forall|j: int|
            0 <= j < events.len() ==> (is_update_action(#[trigger] actions[j]) <==> (j >= 1
                && nonempty_chunk(events[j - 1]))),
        forall|i: int|
            0 <= i < events.len() && nonempty_chunk(#[trigger] events[i]) ==> i + 1 < events.len()
                && is_update_action(actions[i + 1]),
        forall|j: int|
            0 <= j < events.len() && is_update_action(#[trigger] actions[j]) ==> states[0].updates_row(
                actions[j]->Record_0,
                recorded_offset(states[0], events, j) as i64,
            ) && actions[j]->Record_0.params@[0] == SqlValue::Int(
                recorded_offset(states[0], events, j) as i64,
            ),
        forall|j1: int, j2: int|
            0 <= j1 < j2 < events.len() && is_update_action(#[trigger] actions[j1])
                && is_update_action(#[trigger] actions[j2]) ==> recorded_offset(
                states[0],
                events,
                j2,
            ) >= recorded_offset(states[0], events, j1) + events[j1 - 1]->Chunk_0 > recorded_offset(
                states[0],
                events,
                j1,
            ),
        exists|d: int|
            0 <= d < done && is_delete_action(#[trigger] actions[d]) && (forall|j: int|
                0 <= j < events.len() && j != d ==> !is_delete_action(#[trigger] actions[j])) && (
            forall|j: int| 0 <= j < events.len() && is_update_action(#[trigger] actions[j]) ==> j < d),
{
    let len = events.len();
    assert(answers(events[done], states[done].awaiting()) && TransferFlow::next(
        states[done],
        events[done],
        states[done + 1],
        actions[done],
    ));
    assert(states[done].phase is FinalReply);
    assert forall|i: int|
        0 <= i < len && nonempty_chunk(#[trigger] events[i]) implies i + 1 < len && is_update_action(
        actions[i + 1],
    ) by {
        assert(answers(events[i], states[i].awaiting()) && TransferFlow::next(
            states[i],
            events[i],
            states[i + 1],
            actions[i],
        ));
        assert(states[i + 1].phase is Writing);
        if i + 1 == len {
            lemma_rank_monotone(states, events, actions, done, i + 1);
        }
        assert(answers(events[i + 1], states[i + 1].awaiting()) && TransferFlow::next(
            states[i + 1],
            events[i + 1],
            states[i + 2],
            actions[i + 1],
        ));
    }
    assert forall|j: int|
        0 <= j < len implies (is_update_action(#[trigger] actions[j]) <==> (j >= 1 && nonempty_chunk(
            events[j - 1],
        ))) by {
        if is_update_action(actions[j]) {
            lemma_update_at(states, events, actions, j);
        }
        if j >= 1 && nonempty_chunk(events[j - 1]) {
            assert(is_update_action(actions[(j - 1) + 1]));
        }
    }
    assert forall|j: int|
        0 <= j < len && is_update_action(#[trigger] actions[j]) implies states[0].updates_row(
        actions[j]->Record_0,
        recorded_offset(states[0], events, j) as i64,
    ) && actions[j]->Record_0.params@[0] == SqlValue::Int(
        recorded_offset(states[0], events, j) as i64,
    ) by {
        lemma_update_at(states, events, actions, j);
    }
    assert forall|j1: int, j2: int|
        0 <= j1 < j2 < len && is_update_action(#[trigger] actions[j1]) && is_update_action(
            #[trigger] actions[j2],
        ) implies recorded_offset(states[0], events, j2) >= recorded_offset(states[0], events, j1)
        + events[j1 - 1]->Chunk_0 > recorded_offset(states[0], events, j1) by {
        lemma_update_at(states, events, actions, j1);
        lemma_update_at(states, events, actions, j2);
        lemma_chunk_total_step(events, j1 - 1);
        lemma_chunk_total_monotone(events, j1, j2 - 1);
    }
    let w = lemma_row_history(states, events, actions, done);
    let d = w.1;
    assert(is_delete_action(actions[d]));
    assert forall|j: int| 0 <= j < len && j != d implies !is_delete_action(#[trigger] actions[j]) by {
        if is_delete_action(actions[j]) {
            if j < d {
                lemma_after_delete(states, events, actions, j, d);
            } else {
                lemma_after_delete(states, events, actions, d, j);
            }
        }
    }
    assert forall|j: int| 0 <= j < len && is_update_action(#[trigger] actions[j]) implies j < d by {
        if j > d {
            lemma_after_delete(states, events, actions, d, j);
        }
    }
}

/// The transfer command names exactly the file asked for: an upload sends
/// `STOR` and a download `RETR`, each followed by the file name unchanged.
pub proof fn law_transfer_command_names_the_file(
    pre: TransferFlow,
    event: Event,
    post: TransferFlow,
    a: Action,
)
    requires
        TransferFlow::next(pre, event, post, a),
        (pre.phase is DataOpening && pre.resume is None) || pre.phase is RestSent,
    ensures
        pre.direction == Direction::Upload ==> (a matches Action::Exchange(FtpCommand::Stor(f))
            && f@ == pre.local_filename@),
        pre.direction == Direction::Download ==> (a matches Action::Exchange(FtpCommand::Retr(f))
            && f@ == pre.local_filename@),
        a matches Action::Exchange(c) && command_line(c) == (if pre.direction
            == Direction::Upload {
            "STOR "@
        } else {
            "RETR "@
        }) + pre.local_filename@,
{
}

/// The row a transfer inserts, right after the working directory's reply:
/// the direction (`stor` or `retr`), the user, the local path and file name,
/// the directory the reply names, the file name again as the remote name,
/// and offset 0.
pub proof fn law_transfer_inserts_its_row(
    pre: TransferFlow,
    event: Event,
    post: TransferFlow,
    a: Action,
)
    requires
        TransferFlow::next(pre, event, post, a),
        pre.phase is PwdSent,
    ensures
        event is Reply,
        a is Record,
        a->Record_0.kind == StatementKind::Insert,
        a->Record_0.params@.len() == 7,
        a->Record_0.params@[0] is Text && a->Record_0.params@[0]->Text_0@ == (if pre.direction
            == Direction::Upload {
            "stor"@
        } else {
            "retr"@
        }),
        a->Record_0.params@[1] is Text && a->Record_0.params@[1]->Text_0@ == pre.username@,
        a->Record_0.params@[2] is Text && a->Record_0.params@[2]->Text_0@ == pre.local_filepath@,
        a->Record_0.params@[3] is Text && a->Record_0.params@[3]->Text_0@ == pre.local_filename@,
        a->Record_0.params@[4] is Text && a->Record_0.params@[4]->Text_0@ == pwd_directory_of(
            event->Reply_0@,
        ),
        a->Record_0.params@[5] is Text && a->Record_0.params@[5]->Text_0@ == pre.local_filename@,
        a->Record_0.params@[6] == SqlValue::Int(0),
{
}

/// A transfer that reaches its closing reply answers success: "Successfully
/// stored the file" for an upload, "Successfully retrieved the file" for a
/// download.
pub proof fn law_transfer_final_answer(pre: TransferFlow, event: Event, post: TransferFlow, a: Action)
    requires
        TransferFlow::next(pre, event, post, a),
        pre.phase is FinalReply,
    ensures
        a is Respond,
        a->Respond_0.status == Status::Success,
        a->Respond_0.body@ == (if pre.direction == Direction::Upload {
            "Successfully stored the file"@
        } else {
            "Successfully retrieved the file"@
        }),
{
}

} // verus!
