//! The server: its sessions, and what it does about each event.
//!
//! The server decides; it performs nothing. Each event gives back the actions to perform, in order.
//! The state is then that of a server whose actions were all performed; where a message cannot be
//! sent, [`Server::send_failed`] says so to the server.
//! `A` is the type of the addresses that datagrams come from.

use crate::endpoint::{Endpoint, EndpointView};
use crate::report::{
    backwards_text, backwards_warning, closed_line, closed_text, created_line, created_text,
    data_line, data_text, duplicate_text, duplicate_warning, goodbye_line, goodbye_text,
    hello_text, hello_warning,
};
use crate::uap::{decoded_message, Command, MessageView, UapMessage};
use crate::util::nth_number;
use std::collections::HashMap;
use vstd::prelude::*;

verus! {

/// Seconds without a message after which a session is closed.
pub const SESSION_TIMEOUT: u64 = 10;

/// Where a session stands.
#[derive(Debug, Clone, Copy, PartialEq, Eq, Structural)]
pub enum Phase {
    Init,
    Receive,
    Done,
}

/// What the server knows of a session.
#[derive(Debug, Clone, Copy)]
pub struct SessionState<A> {
    /// Where the last datagram of the session came from.
    pub addr: A,
    pub phase: Phase,
    /// Last client sequence received.
    pub last_seq: Option<u32>,
}

/// What a message means to its session.
#[derive(Debug, Clone, Copy, PartialEq, Eq, Structural)]
pub enum Verdict {
    /// Its number is below the last: the session is closed.
    Backwards,
    /// It came before: it is discarded.
    Duplicate,
    /// A HELLO within a session: the session is closed.
    UnexpectedHello,
    /// A HELLO that opens the session.
    Opened,
    /// Data, which is acknowledged.
    Received,
    /// A sign of life.
    KeptAlive,
    /// The client takes its leave.
    Left,
}

/// What is to be done.
#[derive(Debug)]
pub enum Action<A> {
    /// Send a message. If that fails, the session is to be given back the phase `unsent`, by
    /// [`Server::send_failed`], and none of the actions that follow is to be performed.
    Send { to: A, message: UapMessage, unsent: Phase },
    /// Print a line.
    Print { line: String },
    /// Print a line to the error output.
    Warn { line: String },
    /// Print a line on each number from `first` up to, but not including, `end`.
    ReportLost { session_id: u32, first: u32, end: u32 },
    /// Cancel the timer of the session, if it has one, and start another.
    ResetTimer { session_id: u32, seconds: u64 },
    /// Cancel the timer of the session, if it has one.
    CancelTimer { session_id: u32 },
}

/// An action as a value.
pub enum ActionView<A> {
    Send { to: A, message: MessageView, unsent: Phase },
    Print { line: Seq<char> },
    Warn { line: Seq<char> },
    ReportLost { session_id: u32, first: u32, end: u32 },
    ResetTimer { session_id: u32, seconds: u64 },
    CancelTimer { session_id: u32 },
}

impl<A> View for Action<A> {
    type V = ActionView<A>;

    open spec fn view(&self) -> ActionView<A> {
        match *self {
            Action::Send { to, message, unsent } => ActionView::Send {
                to,
                message: message@,
                unsent,
            },
            Action::Print { line } => ActionView::Print { line: line@ },
            Action::Warn { line } => ActionView::Warn { line: line@ },
            Action::ReportLost { session_id, first, end } => ActionView::ReportLost {
                session_id,
                first,
                end,
            },
            Action::ResetTimer { session_id, seconds } => ActionView::ResetTimer {
                session_id,
                seconds,
            },
            Action::CancelTimer { session_id } => ActionView::CancelTimer { session_id },
        }
    }
}

/// Actions as values.
pub open spec fn seen<A>(actions: Seq<Action<A>>) -> Seq<ActionView<A>> {
    actions.map_values(|action: Action<A>| action@)
}

impl Verdict {
    /// Whether the session ends.
    pub open spec fn closes(self) -> bool {
        self == Verdict::Backwards || self == Verdict::UnexpectedHello || self == Verdict::Left
    }

    /// Whether the message counts: its number becomes the last of the session.
    pub open spec fn accepts(self) -> bool {
        self != Verdict::Backwards && self != Verdict::Duplicate
    }

    /// Whether the session's time starts anew.
    pub open spec fn prolongs(self) -> bool {
        self == Verdict::Opened || self == Verdict::Received || self == Verdict::KeptAlive
    }

    /// The command that answers the message.
    pub open spec fn reply(self) -> Option<Command> {
        match self {
            Verdict::Backwards | Verdict::UnexpectedHello | Verdict::Left => Some(Command::Goodbye),
            Verdict::Opened => Some(Command::Hello),
            Verdict::Received => Some(Command::Alive),
            Verdict::Duplicate | Verdict::KeptAlive => None,
        }
    }
}

impl<A> SessionState<A> {
    /// A session that no message has been counted in.
    pub open spec fn fresh(addr: A) -> SessionState<A> {
        SessionState { addr, phase: Phase::Init, last_seq: None }
    }

    /// What a message means to the session. Its number is looked at first.
    pub open spec fn verdict(self, command: Command, number: u32) -> Verdict {
        if self.last_seq matches Some(last) && number < last {
            Verdict::Backwards
        } else if self.last_seq == Some(number) {
            Verdict::Duplicate
        } else {
            match command {
                Command::Hello => if self.phase == Phase::Init {
                    Verdict::Opened
                } else {
                    Verdict::UnexpectedHello
                },
                Command::Data => Verdict::Received,
                Command::Alive => Verdict::KeptAlive,
                Command::Goodbye => Verdict::Left,
            }
        }
    }

    /// The session once a message has come from `addr`.
    pub open spec fn after(self, addr: A, command: Command, number: u32) -> SessionState<A> {
        let verdict = self.verdict(command, number);
        SessionState {
            addr,
            phase: if verdict.closes() {
                Phase::Done
            } else if verdict == Verdict::Opened {
                Phase::Receive
            } else {
                self.phase
            },
            last_seq: if verdict.accepts() {
                Some(number)
            } else {
                self.last_seq
            },
        }
    }

    /// Whether numbers are missing between the last message and one with this number.
    pub open spec fn gap(self, number: u32) -> bool {
        self.last_seq matches Some(last) && number > last + 1
    }

    /// The report of the numbers that are missing between the last message and one with this
    /// number.
    pub open spec fn lost(self, session_id: u32, number: u32) -> Seq<ActionView<A>> {
        if self.gap(number) {
            seq![
                ActionView::ReportLost {
                    session_id,
                    first: (self.last_seq->0 + 1) as u32,
                    end: number,
                },
            ]
        } else {
            Seq::empty()
        }
    }

    /// What a message means to the session.
    pub fn judge(&self, command: Command, number: u32) -> (verdict: Verdict)
        ensures
            verdict == self.verdict(command, number),
            verdict == Verdict::Backwards <==> (self.last_seq matches Some(last) && number < last),
            verdict == Verdict::Duplicate <==> self.last_seq == Some(number),
    {
        if let Some(last) = self.last_seq {
            if number < last {
                return Verdict::Backwards;
            }
            if number == last {
                return Verdict::Duplicate;
            }
        }
        match command {
            Command::Hello => {
                // Only valid in Init; otherwise protocol error
                if self.phase != Phase::Init {
                    Verdict::UnexpectedHello
                } else {
                    Verdict::Opened
                }
            },
            Command::Data => Verdict::Received,
            Command::Alive => Verdict::KeptAlive,
            Command::Goodbye => Verdict::Left,
        }
    }
}

/// A server as a value.
pub struct ServerView<A> {
    /// The sessions by identifier.
    pub sessions: Map<u32, SessionState<A>>,
    /// The server's clock and outgoing sequence.
    pub endpoint: EndpointView,
}

impl<A> ServerView<A> {
    /// A server that has heard of no session.
    pub open spec fn fresh() -> ServerView<A> {
        ServerView { sessions: Map::empty(), endpoint: EndpointView::fresh() }
    }

    /// Whether there is such a session and it has not ended.
    pub open spec fn active(self, session_id: u32) -> bool {
        self.sessions.contains_key(session_id) && self.sessions[session_id].phase != Phase::Done
    }

    /// The session that a message from `addr` belongs to; a session not heard of is new.
    pub open spec fn session(self, session_id: u32, addr: A) -> SessionState<A> {
        if self.sessions.contains_key(session_id) {
            self.sessions[session_id]
        } else {
            SessionState::fresh(addr)
        }
    }

    /// What a message means to its session.
    pub open spec fn verdict(self, addr: A, message: MessageView) -> Verdict {
        let header = message.header;
        self.session(header.session_id, addr).verdict(header.command, header.sequence_number)
    }

    /// The server once it has read the logical time of a message.
    pub open spec fn received(self, remote_time: u64) -> ServerView<A> {
        ServerView { endpoint: self.endpoint.received(remote_time), ..self }
    }

    /// The server once it has dealt with a message from `addr`.
    pub open spec fn handled(self, addr: A, message: MessageView) -> ServerView<A> {
        let header = message.header;
        let before = self.session(header.session_id, addr);
        ServerView {
            sessions: self.sessions.insert(
                header.session_id,
                before.after(addr, header.command, header.sequence_number),
            ),
            endpoint: if self.verdict(addr, message).reply() is Some {
                self.endpoint.sent()
            } else {
                self.endpoint
            },
        }
    }

    /// The message of the server that goes to `to` next, if it is such a `command`. If it cannot be
    /// sent, the session keeps its phase.
    pub open spec fn send(
        self,
        to: A,
        command: Command,
        session_id: u32,
        timestamp: u64,
    ) -> ActionView<A> {
        ActionView::Send {
            to,
            message: self.endpoint.bare(command, session_id, timestamp),
            unsent: self.session(session_id, to).phase,
        }
    }

    /// What the server does about a message from `addr`.
    pub open spec fn answer(
        self,
        addr: A,
        message: MessageView,
        timestamp: u64,
    ) -> Seq<ActionView<A>> {
        let id = message.header.session_id;
        let number = message.header.sequence_number;
        let before = self.session(id, addr);
        let lost = before.lost(id, number);
        let goodbye = self.send(addr, Command::Goodbye, id, timestamp);
        let closed = ActionView::Print { line: closed_line(id) };
        let reset = ActionView::ResetTimer { session_id: id, seconds: SESSION_TIMEOUT };
        match self.verdict(addr, message) {
            Verdict::Backwards => seq![
                ActionView::Warn { line: backwards_warning(id, number, before.last_seq->0) },
                goodbye,
                closed,
            ],
            Verdict::Duplicate => seq![ActionView::Warn { line: duplicate_warning(id, number) }],
            Verdict::UnexpectedHello => lost + seq![
                ActionView::Warn { line: hello_warning(id) },
                goodbye,
                closed,
            ],
            Verdict::Opened => lost + seq![
                self.send(addr, Command::Hello, id, timestamp),
                ActionView::Print { line: created_line(id, number) },
                reset,
            ],
            Verdict::Received => lost + (match message.payload {
                Some(p) => seq![ActionView::Print { line: data_line(id, number, p) }],
                None => Seq::empty(),
            }) + seq![self.send(addr, Command::Alive, id, timestamp), reset],
            Verdict::KeptAlive => lost + seq![reset],
            Verdict::Left => lost + seq![
                ActionView::Print { line: goodbye_line(id, number) },
                goodbye,
                ActionView::CancelTimer { session_id: id },
                closed,
            ],
        }
    }

    /// The server once the time of a session has run out.
    pub open spec fn timed_out(self, session_id: u32) -> ServerView<A> {
        if self.active(session_id) {
            ServerView {
                sessions: self.sessions.insert(
                    session_id,
                    SessionState { phase: Phase::Done, ..self.sessions[session_id] },
                ),
                endpoint: self.endpoint.sent(),
            }
        } else {
            self
        }
    }

    /// The server once a message of a session could not be sent, and the session has been given
    /// back the phase `phase`.
    pub open spec fn send_failed(self, session_id: u32, phase: Phase) -> ServerView<A> {
        if self.sessions.contains_key(session_id) {
            ServerView {
                sessions: self.sessions.insert(
                    session_id,
                    SessionState { phase, ..self.sessions[session_id] },
                ),
                ..self
            }
        } else {
            self
        }
    }

    /// The server once it has taken leave of `n` sessions.
    pub open spec fn said_goodbye(self, n: nat) -> ServerView<A>
        decreases n,
    {
        if n == 0 {
            self
        } else {
            let before = self.said_goodbye((n - 1) as nat);
            ServerView { endpoint: before.endpoint.sent(), ..before }
        }
    }

    /// Whether these are the sessions that have not ended, each of them once, and where each is to
    /// be reached.
    pub open spec fn quit_targets(self, targets: Seq<(u32, A)>) -> bool {
        &&& forall|i: int|
            #![trigger targets[i]]
            0 <= i < targets.len() ==> self.active(targets[i].0) && targets[i].1
                == self.sessions[targets[i].0].addr
        &&& forall|id: u32| #[trigger]
            self.active(id) ==> exists|i: int|
                0 <= i < targets.len() && (#[trigger] targets[i]).0 == id
        &&& forall|i: int, j: int|
            0 <= i < j < targets.len() ==> (#[trigger] targets[i]).0 != (#[trigger] targets[j]).0
    }

    /// The GOODBYE to the target at place `i`, when the server takes leave of the targets in order,
    /// each at its time.
    pub open spec fn farewell(
        self,
        targets: Seq<(u32, A)>,
        timestamps: Seq<u64>,
        i: int,
    ) -> MessageView {
        self.said_goodbye(i as nat).endpoint.bare(Command::Goodbye, targets[i].0, timestamps[i])
    }

    /// What the server does when the time of a session has run out.
    pub open spec fn timeout_answer(self, session_id: u32, timestamp: u64) -> Seq<ActionView<A>> {
        if self.active(session_id) {
            seq![
                self.send(
                    self.sessions[session_id].addr,
                    Command::Goodbye,
                    session_id,
                    timestamp,
                ),
                ActionView::Print { line: closed_line(session_id) },
            ]
        } else {
            Seq::empty()
        }
    }
}

/// The server's state.
pub struct Server<A> {
    sessions: HashMap<u32, SessionState<A>>,
    endpoint: Endpoint,
}

impl<A> View for Server<A> {
    type V = ServerView<A>;

    closed spec fn view(&self) -> ServerView<A> {
        ServerView { sessions: self.sessions@, endpoint: self.endpoint@ }
    }
}

impl<A: Copy> Server<A> {
    /// A server that has heard of no session.
    pub fn new() -> (server: Self)
        ensures
            server@ == ServerView::<A>::fresh(),
    {
        Server { sessions: HashMap::new(), endpoint: Endpoint::new() }
    }

    /// Deal with a datagram from `addr`. One that is no message is discarded without a word.
    pub fn on_datagram(&mut self, addr: A, data: &[u8], timestamp: u64) -> (actions: Vec<
        Action<A>,
    >)
        ensures
            match decoded_message(data@) {
                Ok(message) => {
                    let server = old(self)@.received(message.header.logical_clock);
                    &&& final(self)@ == server.handled(addr, message)
                    &&& seen(actions@) == server.answer(addr, message, timestamp)
                },
                Err(_) => {
                    &&& final(self)@ == old(self)@
                    &&& actions@.len() == 0
                },
            },
    {
        match UapMessage::decode(data) {
            Ok(message) => {
                self.endpoint.receive(message.header.logical_clock);
                self.handle_incoming(addr, message, timestamp)
            },
            Err(_) => Vec::new(),
        }
    }

    /// Deal with a message from `addr` whose logical time has been read.
    pub fn handle_incoming(&mut self, addr: A, message: UapMessage, timestamp: u64) -> (actions:
        Vec<Action<A>>)
        ensures
            final(self)@ == old(self)@.handled(addr, message@),
            seen(actions@) == old(self)@.answer(addr, message@, timestamp),
    {
        broadcast use vstd::std_specs::hash::group_hash_axioms;

        let id: u32 = message.header.session_id;
        let command = message.header.command;
        let number: u32 = message.header.sequence_number;
        // A session not heard of is new
        let before: SessionState<A> = match self.sessions.get(&id) {
            Some(session) => *session,
            None => SessionState { addr, phase: Phase::Init, last_seq: None },
        };
        let verdict = before.judge(command, number);
        let mut after: SessionState<A> = before;
        after.addr = addr;
        let mut actions: Vec<Action<A>> = Vec::new();
        match verdict {
            Verdict::Backwards => {
                if let Some(last) = before.last_seq {
                    actions.push(Action::Warn { line: backwards_text(id, number, last) });
                }
            },
            Verdict::Duplicate => {
                actions.push(Action::Warn { line: duplicate_text(id, number) });
            },
            _ => {
                if let Some(last) = before.last_seq {
                    if number > last + 1 {
                        actions.push(
                            Action::ReportLost { session_id: id, first: last + 1, end: number },
                        );
                    }
                }
                after.last_seq = Some(number);
            },
        }
        match verdict {
            Verdict::Backwards => {
                let reply = self.endpoint.send_goodbye(id, timestamp);
                actions.push(Action::Send { to: addr, message: reply, unsent: before.phase });
                after.phase = Phase::Done;
                actions.push(Action::Print { line: closed_text(id) });
            },
            Verdict::Duplicate => {},
            Verdict::UnexpectedHello => {
                actions.push(Action::Warn { line: hello_text(id) });
                let reply = self.endpoint.send_goodbye(id, timestamp);
                actions.push(Action::Send { to: addr, message: reply, unsent: before.phase });
                after.phase = Phase::Done;
                actions.push(Action::Print { line: closed_text(id) });
            },
            Verdict::Opened => {
                let reply = self.endpoint.send_hello(id, timestamp);
                actions.push(Action::Send { to: addr, message: reply, unsent: before.phase });
                after.phase = Phase::Receive;
                actions.push(Action::Print { line: created_text(id, number) });
                actions.push(Action::ResetTimer { session_id: id, seconds: SESSION_TIMEOUT });
            },
            Verdict::Received => {
                // Print payload, send ALIVE, reset timer
                if let Some(payload) = &message.payload {
                    actions.push(Action::Print { line: data_text(id, number, payload) });
                }
                let reply = self.endpoint.send_alive(id, timestamp);
                actions.push(Action::Send { to: addr, message: reply, unsent: before.phase });
                actions.push(Action::ResetTimer { session_id: id, seconds: SESSION_TIMEOUT });
            },
            Verdict::KeptAlive => {
                // Keep-alive, just reset timer
                actions.push(Action::ResetTimer { session_id: id, seconds: SESSION_TIMEOUT });
            },
            Verdict::Left => {
                // Reply GOODBYE and mark done
                actions.push(Action::Print { line: goodbye_text(id, number) });
                let reply = self.endpoint.send_goodbye(id, timestamp);
                actions.push(Action::Send { to: addr, message: reply, unsent: before.phase });
                after.phase = Phase::Done;
                actions.push(Action::CancelTimer { session_id: id });
                actions.push(Action::Print { line: closed_text(id) });
            },
        }
        self.sessions.insert(id, after);
        assert(seen(actions@) =~= old(self)@.answer(addr, message@, timestamp));
        actions
    }

    /// The time of a session has run out: close it, unless it has ended.
    pub fn on_timeout(&mut self, session_id: u32, timestamp: u64) -> (actions: Vec<Action<A>>)
        ensures
            final(self)@ == old(self)@.timed_out(session_id),
            seen(actions@) == old(self)@.timeout_answer(session_id, timestamp),
    {
        broadcast use vstd::std_specs::hash::group_hash_axioms;

        let mut actions: Vec<Action<A>> = Vec::new();
        let mut session: SessionState<A> = match self.sessions.get(&session_id) {
            Some(session) => *session,
            None => return actions,
        };
        if session.phase != Phase::Done {
            // Timeout: send GOODBYE and close
            let message = self.endpoint.send_goodbye(session_id, timestamp);
            actions.push(Action::Send { to: session.addr, message, unsent: session.phase });
            session.phase = Phase::Done;
            actions.push(Action::Print { line: closed_text(session_id) });
            self.sessions.insert(session_id, session);
        }
        assert(seen(actions@) =~= old(self)@.timeout_answer(session_id, timestamp));
        actions
    }

    /// The sessions to take leave of when the server stops, and where each is to be reached: those
    /// that have not ended, each of them once, in no particular order.
    pub fn on_quit(&self) -> (targets: Vec<(u32, A)>)
        ensures
            self@.quit_targets(targets@),
    {
        broadcast use vstd::std_specs::hash::group_hash_axioms;

        let mut targets: Vec<(u32, A)> = Vec::new();
        for entry in walk: self.sessions.iter()
            invariant
                walk.seq().no_duplicates(),
                forall|k: int|
                    #![trigger walk.seq()[k]]
                    0 <= k < walk.seq().len() ==> {
                        &&& self.sessions@.contains_key(*walk.seq()[k].0)
                        &&& self.sessions@[*walk.seq()[k].0] == *walk.seq()[k].1
                    },
                forall|i: int|
                    #![trigger targets@[i]]
                    0 <= i < targets@.len() ==> {
                        &&& self@.active(targets@[i].0)
                        &&& targets@[i].1 == self@.sessions[targets@[i].0].addr
                        &&& exists|k: int|
                            0 <= k < walk.index() && *(#[trigger] walk.seq()[k]).0 == targets@[i].0
                    },
                forall|k: int|
                    #![trigger walk.seq()[k]]
                    0 <= k < walk.index() && self@.active(*walk.seq()[k].0) ==> exists|i: int|
                        0 <= i < targets@.len() && (#[trigger] targets@[i]).0 == *walk.seq()[k].0,
                forall|i: int, j: int|
                    0 <= i < j < targets@.len() ==> (#[trigger] targets@[i]).0 != (
                    #[trigger] targets@[j]).0,
        {
            let ghost before = targets@;
            let id: u32 = *entry.0;
            let session: SessionState<A> = *entry.1;
            proof {
                assert(walk.seq()[walk.index()] == (entry.0, entry.1));
                // A session that was walked past before is another one
                assert forall|k: int| 0 <= k < walk.index() implies *(
                #[trigger] walk.seq()[k]).0 != id by {
                    assert(walk.seq()[k] != walk.seq()[walk.index()]);
                }
            }
            if session.phase != Phase::Done {
                targets.push((id, session.addr));
                assert(targets@[targets@.len() - 1].0 == id);
                assert(forall|i: int| 0 <= i < before.len() ==> targets@[i] == before[i]);
            }
        }
        targets
    }

    /// The GOODBYE to send next, to session `session_id`.
    pub fn goodbye(&mut self, session_id: u32, timestamp: u64) -> (message: UapMessage)
        ensures
            message@ == old(self)@.endpoint.bare(Command::Goodbye, session_id, timestamp),
            final(self)@ == old(self)@.said_goodbye(1),
    {
        reveal_with_fuel(ServerView::said_goodbye, 2);
        self.endpoint.send_goodbye(session_id, timestamp)
    }

    /// A message of a session could not be sent: give the session back the phase that it had.
    pub fn send_failed(&mut self, session_id: u32, phase: Phase)
        ensures
            final(self)@ == old(self)@.send_failed(session_id, phase),
    {
        broadcast use vstd::std_specs::hash::group_hash_axioms;

        let mut session: SessionState<A> = match self.sessions.get(&session_id) {
            Some(session) => *session,
            None => return,
        };
        session.phase = phase;
        self.sessions.insert(session_id, session);
    }
}

impl<A> ServerView<A> {
    /// Whether every session has a last number: a session is known from its first message on, and
    /// a first message always counts.
    pub open spec fn counted(self) -> bool {
        forall|id: u32| #[trigger]
            self.sessions.contains_key(id) ==> self.sessions[id].last_seq is Some
    }
}

/// Whether the action sends a message.
pub open spec fn is_send<A>(action: ActionView<A>) -> bool {
    action is Send
}

/// In every state that a server reaches, every session has a last number.
pub proof fn law_sessions_are_counted<A>(
    server: ServerView<A>,
    addr: A,
    message: MessageView,
    session_id: u32,
    remote_time: u64,
)
    ensures
        ServerView::<A>::fresh().counted(),
        server.counted() ==> server.received(remote_time).counted(),
        server.counted() ==> server.handled(addr, message).counted(),
        server.counted() ==> server.timed_out(session_id).counted(),
{
}

/// A message and a timeout concern one session: every other is as it was.
pub proof fn law_other_sessions_untouched<A>(
    server: ServerView<A>,
    addr: A,
    message: MessageView,
    session_id: u32,
    other: u32,
)
    requires
        other != message.header.session_id,
        other != session_id,
    ensures
        server.handled(addr, message).sessions.contains_key(other)
            == server.sessions.contains_key(other),
        server.handled(addr, message).sessions[other] == server.sessions[other],
        server.timed_out(session_id).sessions.contains_key(other)
            == server.sessions.contains_key(other),
        server.timed_out(session_id).sessions[other] == server.sessions[other],
{
}

/// A session that has ended stays ended, whatever comes.
pub proof fn law_done_is_final<A>(
    server: ServerView<A>,
    id: u32,
    addr: A,
    message: MessageView,
    session_id: u32,
)
    requires
        server.sessions.contains_key(id),
        server.sessions[id].phase == Phase::Done,
    ensures
        server.handled(addr, message).sessions.contains_key(id),
        server.handled(addr, message).sessions[id].phase == Phase::Done,
        server.timed_out(session_id).sessions.contains_key(id),
        server.timed_out(session_id).sessions[id].phase == Phase::Done,
{
}

/// The last number of a session never falls, and grows with every message that counts.
pub proof fn law_numbers_grow<A>(
    session: SessionState<A>,
    addr: A,
    command: Command,
    number: u32,
)
    requires
        session.last_seq is Some,
    ensures
        ({
            let after = session.after(addr, command, number);
            &&& after.last_seq is Some
            &&& after.last_seq->0 >= session.last_seq->0
            &&& session.verdict(command, number).accepts() <==> after.last_seq->0
                > session.last_seq->0
        }),
{
}

/// A message is answered by at most one message: the one that the verdict calls for, sent to where
/// the message came from.
pub proof fn law_one_reply<A>(
    server: ServerView<A>,
    addr: A,
    message: MessageView,
    timestamp: u64,
)
    ensures
        ({
            let answer = server.answer(addr, message, timestamp);
            let reply = server.verdict(addr, message).reply();
            &&& forall|i: int|
                0 <= i < answer.len() && #[trigger] is_send(answer[i]) ==> reply is Some
                    && answer[i] == server.send(
                    addr,
                    reply->0,
                    message.header.session_id,
                    timestamp,
                )
            &&& reply is Some ==> exists|i: int|
                0 <= i < answer.len() && #[trigger] is_send(answer[i])
            &&& forall|i: int, j: int|
                0 <= i < j < answer.len() ==> !(#[trigger] is_send(answer[i]) && #[trigger] is_send(
                    answer[j],
                ))
        }),
{
    let answer = server.answer(addr, message, timestamp);
    let id = message.header.session_id;
    let lost = server.session(id, addr).lost(id, message.header.sequence_number).len() as int;
    match server.verdict(addr, message) {
        Verdict::Backwards => {
            assert(is_send(answer[1]));
        },
        Verdict::UnexpectedHello => {
            assert(is_send(answer[lost + 1]));
        },
        Verdict::Opened => {
            assert(is_send(answer[lost]));
        },
        Verdict::Received => {
            if message.payload is Some {
                assert(is_send(answer[lost + 1]));
            } else {
                assert(is_send(answer[lost]));
            }
        },
        Verdict::Left => {
            assert(is_send(answer[lost + 1]));
        },
        Verdict::Duplicate => {},
        Verdict::KeptAlive => {},
    }
}

/// If the answer to a message cannot be sent, the session keeps the phase that it had, and a new one
/// is as yet unopened. Its address and its last number are those of the message, though a number
/// below the last does not count. The clock and the sequence have advanced, and no other session is
/// touched.
pub proof fn law_failed_reply<A>(
    server: ServerView<A>,
    addr: A,
    message: MessageView,
    timestamp: u64,
    i: int,
)
    requires
        0 <= i < server.answer(addr, message, timestamp).len(),
        is_send(server.answer(addr, message, timestamp)[i]),
    ensures
        ({
            let id = message.header.session_id;
            let number = message.header.sequence_number;
            let before = server.session(id, addr);
            let failed = server.answer(addr, message, timestamp)[i];
            &&& failed->unsent == before.phase
            &&& server.handled(addr, message).send_failed(id, failed->unsent) == ServerView {
                sessions: server.sessions.insert(
                    id,
                    SessionState {
                        addr,
                        phase: before.phase,
                        last_seq: if server.verdict(addr, message) == Verdict::Backwards {
                            before.last_seq
                        } else {
                            Some(number)
                        },
                    },
                ),
                endpoint: server.endpoint.sent(),
            }
        }),
{
    let id = message.header.session_id;
    law_one_reply(server, addr, message, timestamp);
    let before = server.session(id, addr);
    let failed = server.handled(addr, message).send_failed(id, before.phase);
    assert(failed.sessions =~= server.sessions.insert(id, failed.sessions[id]));
}

/// If the GOODBYE to a session whose time has run out cannot be sent, the session is as it was; the
/// clock and the sequence have advanced.
pub proof fn law_failed_timeout<A>(server: ServerView<A>, session_id: u32, timestamp: u64)
    requires
        server.active(session_id),
    ensures
        ({
            let goodbye = server.timeout_answer(session_id, timestamp)[0];
            &&& is_send(goodbye)
            &&& server.timed_out(session_id).send_failed(session_id, goodbye->unsent)
                == ServerView { endpoint: server.endpoint.sent(), ..server }
        }),
{
    let phase = server.sessions[session_id].phase;
    let failed = server.timed_out(session_id).send_failed(session_id, phase);
    assert(failed.sessions =~= server.sessions);
}

/// Timers are touched only once the answer has been sent: before a message among the actions stands
/// none that resets or cancels a timer.
pub proof fn law_timers_follow_reply<A>(
    server: ServerView<A>,
    addr: A,
    message: MessageView,
    timestamp: u64,
    i: int,
    j: int,
)
    requires
        0 <= i < j < server.answer(addr, message, timestamp).len(),
        is_send(server.answer(addr, message, timestamp)[j]),
    ensures
        !(server.answer(addr, message, timestamp)[i] is ResetTimer),
        !(server.answer(addr, message, timestamp)[i] is CancelTimer),
{
}

/// What taking leave changes: the endpoint alone, which counts one message more each time.
proof fn lemma_said_goodbye<A>(server: ServerView<A>, n: nat)
    ensures
        server.said_goodbye(n).sessions == server.sessions,
        server.said_goodbye(n).endpoint.next_number == nth_number(server.endpoint.next_number, n),
        server.endpoint.time + n <= u64::MAX ==> server.said_goodbye(n).endpoint.time
            == server.endpoint.time + n,
    decreases n,
{
    if n > 0 {
        lemma_said_goodbye(server, (n - 1) as nat);
    }
}

/// When the server stops, every session that has not ended gets one GOODBYE, and no other session
/// gets any. The GOODBYEs bear consecutive numbers, and their logical times rise one by one.
pub proof fn law_quit_takes_leave_once<A>(
    server: ServerView<A>,
    targets: Seq<(u32, A)>,
    timestamps: Seq<u64>,
)
    requires
        server.quit_targets(targets),
        timestamps.len() == targets.len(),
    ensures
        forall|id: u32| #[trigger]
            server.active(id) <==> exists|i: int|
                0 <= i < targets.len() && (#[trigger] server.farewell(
                    targets,
                    timestamps,
                    i,
                )).header.session_id == id,
        forall|i: int, j: int|
            0 <= i < j < targets.len() ==> (#[trigger] server.farewell(
                targets,
                timestamps,
                i,
            )).header.session_id != (#[trigger] server.farewell(
                targets,
                timestamps,
                j,
            )).header.session_id,
        forall|i: int|
            0 <= i < targets.len() ==> {
                let header = (#[trigger] server.farewell(targets, timestamps, i)).header;
                &&& header.command == Command::Goodbye
                &&& header.timestamp == timestamps[i]
                &&& header.sequence_number == nth_number(server.endpoint.next_number, i as nat)
                &&& server.endpoint.time + targets.len() <= u64::MAX ==> header.logical_clock
                    == server.endpoint.time + i + 1
            },
{
    assert forall|i: int| 0 <= i < targets.len() implies {
        let header = (#[trigger] server.farewell(targets, timestamps, i)).header;
        &&& header.session_id == targets[i].0
        &&& header.sequence_number == nth_number(server.endpoint.next_number, i as nat)
        &&& server.endpoint.time + targets.len() <= u64::MAX ==> header.logical_clock
            == server.endpoint.time + i + 1
    } by {
        lemma_said_goodbye(server, i as nat);
    }
    assert forall|id: u32| #[trigger] server.active(id) implies exists|i: int|
        0 <= i < targets.len() && (#[trigger] server.farewell(
            targets,
            timestamps,
            i,
        )).header.session_id == id by {
        let i = choose|i: int| 0 <= i < targets.len() && (#[trigger] targets[i]).0 == id;
        assert(server.farewell(targets, timestamps, i).header.session_id == id);
    }
}

/// No session ends without a word: whenever a session that was open or is new ends, by a message
/// or by a timeout, a GOODBYE of that session goes to where its last datagram came from.
pub proof fn law_closing_says_goodbye<A>(
    server: ServerView<A>,
    addr: A,
    message: MessageView,
    session_id: u32,
    timestamp: u64,
)
    ensures
        ({
            let id = message.header.session_id;
            let answer = server.answer(addr, message, timestamp);
            server.session(id, addr).phase != Phase::Done && !server.handled(
                addr,
                message,
            ).active(id) ==> exists|i: int|
                0 <= i < answer.len() && #[trigger] is_send(answer[i]) && answer[i] == server.send(
                    addr,
                    Command::Goodbye,
                    id,
                    timestamp,
                )
        }),
        server.active(session_id) ==> {
            &&& !server.timed_out(session_id).active(session_id)
            &&& server.timeout_answer(session_id, timestamp)[0] == server.send(
                server.sessions[session_id].addr,
                Command::Goodbye,
                session_id,
                timestamp,
            )
        },
{
    law_one_reply(server, addr, message, timestamp);
}

/// A duplicate is discarded: nothing is sent, no timer is touched, and of the session nothing
/// changes but the address that it is reached at.
pub proof fn law_duplicate_is_discarded<A>(
    server: ServerView<A>,
    addr: A,
    message: MessageView,
    timestamp: u64,
)
    requires
        server.sessions.contains_key(message.header.session_id),
        server.sessions[message.header.session_id].last_seq == Some(
            message.header.sequence_number,
        ),
    ensures
        ({
            let id = message.header.session_id;
            &&& server.answer(addr, message, timestamp) == seq![
                ActionView::<A>::Warn {
                    line: duplicate_warning(id, message.header.sequence_number),
                },
            ]
            &&& server.handled(addr, message).sessions[id] == SessionState {
                addr,
                ..server.sessions[id]
            }
            &&& server.handled(addr, message).endpoint == server.endpoint
        }),
{
}

/// A message that has counted is a duplicate when it comes again, from wherever it comes.
pub proof fn law_replay_is_duplicate<A>(
    server: ServerView<A>,
    addr: A,
    message: MessageView,
    other_addr: A,
)
    requires
        server.verdict(addr, message).accepts(),
    ensures
        server.handled(addr, message).verdict(other_addr, message) == Verdict::Duplicate,
{
}

/// A HELLO opens a session that is not known, with a HELLO in return; one more HELLO with a higher
/// number closes it.
pub proof fn law_hello_opens_once<A>(
    server: ServerView<A>,
    addr: A,
    first: MessageView,
    second: MessageView,
)
    requires
        !server.sessions.contains_key(first.header.session_id),
        first.header.command == Command::Hello,
        second.header.command == Command::Hello,
        second.header.session_id == first.header.session_id,
        second.header.sequence_number > first.header.sequence_number,
    ensures
        ({
            let id = first.header.session_id;
            let opened = server.handled(addr, first);
            &&& server.verdict(addr, first).reply() == Some(Command::Hello)
            &&& opened.active(id)
            &&& opened.sessions[id].phase == Phase::Receive
            &&& opened.verdict(addr, second).reply() == Some(Command::Goodbye)
            &&& !opened.handled(addr, second).active(id)
        }),
{
}

/// Whether the actions report this number of the session as lost.
pub open spec fn reports_lost<A>(actions: Seq<ActionView<A>>, id: u32, number: u32) -> bool {
    exists|i: int| #![trigger actions[i]]
        0 <= i < actions.len() && (actions[i] matches ActionView::ReportLost {
            session_id,
            first,
            end,
        } && session_id == id && first <= number < end)
}

/// The numbers reported lost are those between the last number of the session and that of the
/// message, and no others.
pub proof fn law_lost_numbers<A>(
    server: ServerView<A>,
    addr: A,
    message: MessageView,
    timestamp: u64,
    number: u32,
)
    ensures
        ({
            let id = message.header.session_id;
            let last = server.session(id, addr).last_seq;
            reports_lost(server.answer(addr, message, timestamp), id, number) <==> (
            last matches Some(l) && l < number < message.header.sequence_number)
        }),
{
    let id = message.header.session_id;
    let before = server.session(id, addr);
    let answer = server.answer(addr, message, timestamp);
    if before.last_seq matches Some(l) && l < number < message.header.sequence_number {
        assert(answer[0] == before.lost(id, message.header.sequence_number)[0]);
    }
}

/// Whether the actions start the time of the session anew.
pub open spec fn resets_timer<A>(actions: Seq<ActionView<A>>, id: u32) -> bool {
    actions.contains(ActionView::ResetTimer { session_id: id, seconds: SESSION_TIMEOUT })
}

/// The time of a session starts anew with every HELLO that opens it, with all data and with every
/// ALIVE, and with no other message.
pub proof fn law_life_prolongs<A>(
    server: ServerView<A>,
    addr: A,
    message: MessageView,
    timestamp: u64,
)
    ensures
        resets_timer(server.answer(addr, message, timestamp), message.header.session_id)
            <==> server.verdict(addr, message).prolongs(),
{
    let answer = server.answer(addr, message, timestamp);
    let reset = ActionView::<A>::ResetTimer {
        session_id: message.header.session_id,
        seconds: SESSION_TIMEOUT,
    };
    if server.verdict(addr, message).prolongs() {
        assert(answer[answer.len() - 1] == reset);
    }
}

/// Every message that answers a datagram bears a later logical time than the message in it.
pub proof fn law_answer_is_later<A>(
    server: ServerView<A>,
    addr: A,
    message: MessageView,
    timestamp: u64,
    i: int,
)
    requires
        server.endpoint.time < u64::MAX - 1,
        message.header.logical_clock < u64::MAX - 1,
        0 <= i < server.received(message.header.logical_clock).answer(
            addr,
            message,
            timestamp,
        ).len(),
    ensures
        server.received(message.header.logical_clock).answer(addr, message, timestamp)[i] matches
            ActionView::Send { to, message: reply, .. } ==> to == addr && reply.header.session_id
            == message.header.session_id && reply.header.logical_clock
            > message.header.logical_clock,
{
    let received = server.received(message.header.logical_clock);
    law_one_reply(received, addr, message, timestamp);
    assert(is_send(received.answer(addr, message, timestamp)[i]) == (received.answer(
        addr,
        message,
        timestamp,
    )[i] is Send));
}

} // verus!
