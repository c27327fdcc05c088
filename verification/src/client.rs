//! The client: where it stands, and what it does about each event.
//!
//! The client decides; it performs nothing. Each event gives back the actions to perform, in order.

use crate::endpoint::{Endpoint, EndpointView};
use crate::latency::{Latency, LatencyView};
use crate::text::{client_quit, is_client_quit, trimmed, trimmed_line};
use crate::timer::{started, stopped, Timer, TimerKind};
use crate::uap::{decoded_message, Command, MessageView, UapMessage};
use vstd::prelude::*;
use vstd::string::StrSliceExecFns;
use vstd::utf8::encode_utf8;

verus! {

/// Seconds that the client waits for the server's HELLO.
pub const HELLO_TIMEOUT: u64 = 5;

/// Seconds that the client waits for an ALIVE in return for data.
pub const DATA_TIMEOUT: u64 = 5;

/// Seconds that the client waits for the server's GOODBYE.
pub const CLOSING_TIMEOUT: u64 = 3;

/// Where the client stands.
#[derive(Debug, Clone, Copy, PartialEq, Eq, Structural)]
pub enum State {
    HelloWait,
    Ready,
    ReadyTimer,
    Closing,
    Closed,
}

/// What happens to the client.
#[derive(Debug)]
pub enum Event {
    /// A message came.
    Net(UapMessage),
    /// A timer ran out.
    Timeout(TimerKind),
    /// The user typed a line, here without surrounding white space.
    StdinLine(String),
    /// There is no more input, or the user interrupted the program.
    StdinEof,
}

/// What is to be done.
#[derive(Debug)]
pub enum ClientAction {
    /// Send a message to the server.
    Send { message: UapMessage },
    /// Print a line.
    Print { line: &'static str },
    /// Start a timer, in place of any other.
    SetTimer { kind: TimerKind, seconds: u64 },
    /// Cancel the timer, if there is one.
    CancelTimer,
}

/// An action as a value.
pub enum ClientActionView {
    Send { message: MessageView },
    Print { line: Seq<char> },
    SetTimer { kind: TimerKind, seconds: u64 },
    CancelTimer,
}

impl View for ClientAction {
    type V = ClientActionView;

    open spec fn view(&self) -> ClientActionView {
        match *self {
            ClientAction::Send { message } => ClientActionView::Send { message: message@ },
            ClientAction::Print { line } => ClientActionView::Print { line: line@ },
            ClientAction::SetTimer { kind, seconds } => ClientActionView::SetTimer {
                kind,
                seconds,
            },
            ClientAction::CancelTimer => ClientActionView::CancelTimer,
        }
    }
}

/// Actions as values.
pub open spec fn seen(actions: Seq<ClientAction>) -> Seq<ClientActionView> {
    actions.map_values(|action: ClientAction| action@)
}

/// The event of a line that the user typed.
pub fn line_event(line: &str) -> (event: Event)
    ensures
        event matches Event::StdinLine(text) && text@ == trimmed(line@),
{
    Event::StdinLine(trimmed_line(line))
}

/// The event of a datagram. One that is no message is ignored.
pub fn datagram_event(data: &[u8]) -> (event: Option<Event>)
    ensures
        match decoded_message(data@) {
            Ok(message) => event matches Some(Event::Net(m)) && m@ == message,
            Err(_) => event is None,
        },
{
    match UapMessage::decode(data) {
        Ok(message) => Some(Event::Net(message)),
        Err(_) => None,
    }
}

impl Event {
    /// Whether a message with this command came.
    pub open spec fn brings(self, command: Command) -> bool {
        self matches Event::Net(m) && m.header.command == command
    }

    /// Whether the user wants to leave.
    pub open spec fn quits(self) -> bool {
        match self {
            Event::StdinLine(line) => client_quit(line@),
            Event::StdinEof => true,
            _ => false,
        }
    }

    /// Whether the user typed a line to send.
    pub open spec fn speaks(self) -> bool {
        self is StdinLine && !self.quits()
    }
}

impl State {
    /// Whether the client has neither left nor been sent away.
    pub open spec fn open(self) -> bool {
        self != State::Closing && self != State::Closed
    }

    /// The timer that runs in this state.
    pub open spec fn waits_for(self) -> Option<TimerKind> {
        match self {
            State::HelloWait => Some(TimerKind::Hello),
            State::ReadyTimer => Some(TimerKind::DataWait),
            State::Closing => Some(TimerKind::Closing),
            State::Ready | State::Closed => None,
        }
    }

    /// Whether the event is that the timer of this state ran out. That of another state is stale.
    pub open spec fn runs_out(self, event: Event) -> bool {
        event matches Event::Timeout(kind) && self.waits_for() == Some(kind)
    }

    /// Whether the client takes its leave.
    pub open spec fn leaves(self, event: Event) -> bool {
        self.open() && (event.quits() || self.runs_out(event))
    }

    /// Whether the client sends a line. It sends none before the server's HELLO.
    pub open spec fn sends_line(self, event: Event) -> bool {
        (self == State::Ready || self == State::ReadyTimer) && event.speaks()
    }

    /// Whether what the client waits for has come.
    pub open spec fn gets_answer(self, event: Event) -> bool {
        ||| self == State::HelloWait && event.brings(Command::Hello)
        ||| self == State::ReadyTimer && event.brings(Command::Alive)
    }

    /// The state that an event leads to.
    pub open spec fn after(self, event: Event) -> State {
        if self == State::Closed || event.brings(Command::Goodbye) {
            State::Closed
        } else if self == State::Closing && self.runs_out(event) {
            State::Closed
        } else if self.leaves(event) {
            State::Closing
        } else if self.sends_line(event) {
            State::ReadyTimer
        } else if self.gets_answer(event) {
            State::Ready
        } else {
            self
        }
    }

    /// The words with which the client leaves.
    pub open spec fn leaving_words(self, event: Event) -> Seq<ClientActionView> {
        match (self, event) {
            (State::HelloWait, Event::Timeout(_)) => seq![
                ClientActionView::Print { line: "HELLO timeout -> Closing"@ },
            ],
            (State::HelloWait, Event::StdinEof) => seq![
                ClientActionView::Print { line: "EOF during HELLO wait -> Closing"@ },
            ],
            (State::HelloWait, _) => seq![
                ClientActionView::Print { line: "q received -> Closing"@ },
            ],
            (State::ReadyTimer, Event::Timeout(_)) => seq![
                ClientActionView::Print { line: "DATA wait timeout -> Closing"@ },
            ],
            (State::ReadyTimer, _) => seq![ClientActionView::CancelTimer],
            _ => Seq::empty(),
        }
    }
}

/// A client as a value.
pub struct ClientView {
    pub state: State,
    pub session_id: u32,
    /// The client's clock and outgoing sequence.
    pub endpoint: EndpointView,
    /// The latencies of the messages that came.
    pub latency: LatencyView,
}

impl ClientView {
    /// A client that has done nothing yet.
    pub open spec fn fresh(session_id: u32) -> ClientView {
        ClientView {
            state: State::HelloWait,
            session_id,
            endpoint: EndpointView::fresh(),
            latency: LatencyView::none(),
        }
    }

    /// The client once it has dealt with an event at the time `now`.
    pub open spec fn handled(self, event: Event, now: u64) -> ClientView {
        ClientView {
            state: self.state.after(event),
            endpoint: match event {
                Event::Net(message) => self.endpoint.received(message.header.logical_clock),
                _ => if self.state.leaves(event) || self.state.sends_line(event) {
                    self.endpoint.sent()
                } else {
                    self.endpoint
                },
            },
            latency: match event {
                Event::Net(message) => self.latency.recorded(message.header.timestamp, now),
                _ => self.latency,
            },
            ..self
        }
    }

    /// What the client does about an event at the time `now`.
    pub open spec fn answer(self, event: Event, now: u64) -> Seq<ClientActionView> {
        if event.brings(Command::Goodbye) {
            seq![ClientActionView::Print { line: "server sent GOODBYE -> closing"@ }]
        } else if self.state.leaves(event) {
            self.state.leaving_words(event) + seq![
                ClientActionView::Send {
                    message: self.endpoint.bare(Command::Goodbye, self.session_id, now),
                },
                ClientActionView::SetTimer {
                    kind: TimerKind::Closing,
                    seconds: CLOSING_TIMEOUT,
                },
            ]
        } else if self.state.sends_line(event) {
            seq![
                ClientActionView::Send {
                    message: self.endpoint.data(
                        self.session_id,
                        now,
                        encode_utf8(event->StdinLine_0@),
                    ),
                },
                ClientActionView::SetTimer { kind: TimerKind::DataWait, seconds: DATA_TIMEOUT },
            ]
        } else if self.state.gets_answer(event) {
            seq![ClientActionView::CancelTimer]
        } else {
            Seq::empty()
        }
    }
}

/// The client's state.
pub struct Client {
    state: State,
    session_id: u32,
    endpoint: Endpoint,
    latency: Latency,
}

impl View for Client {
    type V = ClientView;

    closed spec fn view(&self) -> ClientView {
        ClientView {
            state: self.state,
            session_id: self.session_id,
            endpoint: self.endpoint@,
            latency: self.latency@,
        }
    }
}

impl Client {
    /// A client of session `session_id` that has done nothing yet.
    pub fn new(session_id: u32) -> (client: Self)
        ensures
            client@ == ClientView::fresh(session_id),
    {
        Client {
            state: State::HelloWait,
            session_id,
            endpoint: Endpoint::new(),
            latency: Latency::new(),
        }
    }

    /// Where the client stands.
    pub fn state(&self) -> (state: State)
        ensures
            state == self@.state,
    {
        self.state
    }

    /// How many messages the mean latency is taken of so far.
    pub fn measured(&self) -> (count: u64)
        ensures
            count == self@.latency.count,
    {
        self.latency.count()
    }

    /// Send the initial HELLO and start to wait for that of the server.
    pub fn start(&mut self, now: u64) -> (actions: Vec<ClientAction>)
        ensures
            final(self)@ == (ClientView { endpoint: old(self)@.endpoint.sent(), ..old(self)@ }),
            seen(actions@) == seq![
                ClientActionView::Send {
                    message: old(self)@.endpoint.bare(Command::Hello, old(self)@.session_id, now),
                },
                ClientActionView::SetTimer { kind: TimerKind::Hello, seconds: HELLO_TIMEOUT },
            ],
    {
        let message = self.endpoint.send_hello(self.session_id, now);
        let mut actions: Vec<ClientAction> = Vec::new();
        actions.push(ClientAction::Send { message });
        actions.push(ClientAction::SetTimer { kind: TimerKind::Hello, seconds: HELLO_TIMEOUT });
        actions
    }

    /// Take leave: say GOODBYE and wait for that of the server.
    fn leave(&mut self, actions: &mut Vec<ClientAction>, now: u64)
        ensures
            final(self)@ == (ClientView {
                state: State::Closing,
                endpoint: old(self)@.endpoint.sent(),
                ..old(self)@
            }),
            seen(final(actions)@) == seen(old(actions)@) + seq![
                ClientActionView::Send {
                    message: old(self)@.endpoint.bare(
                        Command::Goodbye,
                        old(self)@.session_id,
                        now,
                    ),
                },
                ClientActionView::SetTimer {
                    kind: TimerKind::Closing,
                    seconds: CLOSING_TIMEOUT,
                },
            ],
    {
        self.state = State::Closing;
        let message = self.endpoint.send_goodbye(self.session_id, now);
        actions.push(ClientAction::Send { message });
        actions.push(
            ClientAction::SetTimer { kind: TimerKind::Closing, seconds: CLOSING_TIMEOUT },
        );
    }

    /// Send a line and wait for an ALIVE in return.
    fn speak(&mut self, actions: &mut Vec<ClientAction>, line: &String, now: u64)
        ensures
            final(self)@ == (ClientView {
                state: State::ReadyTimer,
                endpoint: old(self)@.endpoint.sent(),
                ..old(self)@
            }),
            seen(final(actions)@) == seen(old(actions)@) + seq![
                ClientActionView::Send {
                    message: old(self)@.endpoint.data(
                        old(self)@.session_id,
                        now,
                        encode_utf8(line@),
                    ),
                },
                ClientActionView::SetTimer { kind: TimerKind::DataWait, seconds: DATA_TIMEOUT },
            ],
    {
        let message = self.endpoint.send_data(
            self.session_id,
            now,
            line.as_str().as_bytes_vec(),
        );
        actions.push(ClientAction::Send { message });
        self.state = State::ReadyTimer;
        actions.push(ClientAction::SetTimer { kind: TimerKind::DataWait, seconds: DATA_TIMEOUT });
    }

    /// Deal with an event at the Unix time `now`, in nanoseconds.
    pub fn on_event(&mut self, event: Event, now: u64) -> (actions: Vec<ClientAction>)
        requires
            (event matches Event::Net(m) && m.header.timestamp <= now) ==> old(self)@.latency.count
                < u64::MAX,
        ensures
            final(self)@ == old(self)@.handled(event, now),
            seen(actions@) == old(self)@.answer(event, now),
    {
        let mut actions: Vec<ClientAction> = Vec::new();
        if let Event::Net(message) = &event {
            // One-way latency, and Lamport on receive
            self.latency.record(message.header.timestamp, now);
            self.endpoint.receive(message.header.logical_clock);
        }
        match &event {
            Event::Net(message) => match (self.state, message.header.command) {
                (_, Command::Goodbye) => {
                    actions.push(ClientAction::Print { line: "server sent GOODBYE -> closing" });
                    self.state = State::Closed;
                },
                (State::HelloWait, Command::Hello) | (State::ReadyTimer, Command::Alive) => {
                    actions.push(ClientAction::CancelTimer);
                    self.state = State::Ready;
                },
                _ => {},
            },
            Event::Timeout(kind) => match (self.state, kind) {
                (State::HelloWait, TimerKind::Hello) => {
                    actions.push(ClientAction::Print { line: "HELLO timeout -> Closing" });
                    self.leave(&mut actions, now);
                },
                (State::ReadyTimer, TimerKind::DataWait) => {
                    actions.push(ClientAction::Print { line: "DATA wait timeout -> Closing" });
                    self.leave(&mut actions, now);
                },
                (State::Closing, TimerKind::Closing) => {
                    self.state = State::Closed;
                },
                _ => {},
            },
            Event::StdinEof => match self.state {
                State::HelloWait => {
                    actions.push(ClientAction::Print { line: "EOF during HELLO wait -> Closing" });
                    self.leave(&mut actions, now);
                },
                State::Ready => {
                    self.leave(&mut actions, now);
                },
                State::ReadyTimer => {
                    actions.push(ClientAction::CancelTimer);
                    self.leave(&mut actions, now);
                },
                State::Closing | State::Closed => {},
            },
            Event::StdinLine(line) => {
                let quit = is_client_quit(line.as_str());
                match self.state {
                    State::HelloWait => {
                        // Before the server's HELLO only a wish to leave is heard
                        if quit {
                            actions.push(ClientAction::Print { line: "q received -> Closing" });
                            self.leave(&mut actions, now);
                        }
                    },
                    State::Ready => {
                        if quit {
                            self.leave(&mut actions, now);
                        } else {
                            self.speak(&mut actions, line, now);
                        }
                    },
                    State::ReadyTimer => {
                        if quit {
                            actions.push(ClientAction::CancelTimer);
                            self.leave(&mut actions, now);
                        } else {
                            self.speak(&mut actions, line, now);
                        }
                    },
                    State::Closing | State::Closed => {},
                }
            },
        }
        assert(seen(actions@) =~= old(self)@.answer(event, now));
        actions
    }

    /// The line on the mean latency, if a message came.
    pub fn summary(&self) -> (line: Option<String>)
        ensures
            match line {
                Some(l) => self@.latency.line() == Some(l@),
                None => self@.latency.line() is None,
            },
    {
        self.latency.summary()
    }
}

/// Once the client has left it never speaks again: it ends, or goes on waiting for the end.
pub proof fn law_leaving_is_final(client: ClientView, event: Event, now: u64)
    requires
        !client.state.open(),
    ensures
        !client.state.after(event).open(),
        client.state == State::Closed ==> client.state.after(event) == State::Closed,
        forall|i: int|
            0 <= i < client.answer(event, now).len() ==> !(#[trigger] client.answer(
                event,
                now,
            )[i] is Send),
{
}

/// A GOODBYE of the server ends the client wherever it stands.
pub proof fn law_server_goodbye_ends(state: State, event: Event)
    requires
        event.brings(Command::Goodbye),
    ensures
        state.after(event) == State::Closed,
{
}

/// The state after a number of events.
pub open spec fn after_all(state: State, events: Seq<Event>) -> State
    decreases events.len(),
{
    if events.len() == 0 {
        state
    } else {
        after_all(state, events.drop_last()).after(events.last())
    }
}

/// How often the client takes its leave in the course of a number of events.
pub open spec fn leaves_in_all(state: State, events: Seq<Event>) -> nat
    decreases events.len(),
{
    if events.len() == 0 {
        0
    } else {
        let before = leaves_in_all(state, events.drop_last());
        if after_all(state, events.drop_last()).leaves(events.last()) {
            before + 1
        } else {
            before
        }
    }
}

/// The number of GOODBYEs among actions.
pub open spec fn goodbyes(actions: Seq<ClientActionView>) -> nat
    decreases actions.len(),
{
    if actions.len() == 0 {
        0
    } else {
        let before = goodbyes(actions.drop_last());
        match actions.last() {
            ClientActionView::Send { message } if message.header.command == Command::Goodbye =>
                before + 1,
            _ => before,
        }
    }
}

/// The client says GOODBYE once when it takes its leave, and at no other event.
pub proof fn law_leaving_says_goodbye(client: ClientView, event: Event, now: u64)
    ensures
        goodbyes(client.answer(event, now)) == (if client.state.leaves(event) {
            1nat
        } else {
            0
        }),
{
    reveal_with_fuel(goodbyes, 4);
    let answer = client.answer(event, now);
    if client.state.leaves(event) {
        let words = client.state.leaving_words(event);
        let rest = answer.drop_last();
        assert(rest.drop_last() =~= words);
        assert(rest.last() is Send);
        assert(words.len() <= 1);
        assert(words.len() == 1 ==> !(words.last() is Send));
        assert(goodbyes(words) == 0);
        assert(goodbyes(rest) == 1);
    } else if client.state.sends_line(event) {
        assert(answer.drop_last().drop_last() =~= Seq::empty());
    }
}

/// Whatever happens, the client takes its leave, and so says GOODBYE, at most once; and it has done
/// so once when it waits for the server's GOODBYE.
pub proof fn law_leaves_at_most_once(state: State, events: Seq<Event>)
    requires
        state.open(),
    ensures
        leaves_in_all(state, events) <= 1,
        after_all(state, events).open() ==> leaves_in_all(state, events) == 0,
        after_all(state, events) == State::Closing ==> leaves_in_all(state, events) == 1,
    decreases events.len(),
{
    if events.len() > 0 {
        law_leaves_at_most_once(state, events.drop_last());
    }
}

/// The timer once the actions have been performed at the time `now`.
pub open spec fn timer_after(
    timer: Option<Timer>,
    actions: Seq<ClientActionView>,
    now: u64,
) -> Option<Timer>
    decreases actions.len(),
{
    if actions.len() == 0 {
        timer
    } else {
        let before = timer_after(timer, actions.drop_last(), now);
        match actions.last() {
            ClientActionView::SetTimer { kind, seconds } => Some(started(kind, now, seconds)),
            ClientActionView::CancelTimer => stopped(before),
            _ => before,
        }
    }
}

/// Whether the timer is the one of the state: while the client waits, the last timer set is of the
/// kind that it waits for, and while it is ready none is active.
pub open spec fn timer_fits(state: State, timer: Option<Timer>) -> bool {
    match state.waits_for() {
        Some(kind) => timer matches Some(t) && t.kind == kind,
        None => state == State::Ready ==> (timer matches Some(t) ==> !t.active),
    }
}

/// Whether the timer runs that the state calls for: while the client waits, one of the kind that it
/// waits for is active, and while it is ready none is.
pub open spec fn timer_runs(state: State, timer: Option<Timer>) -> bool {
    &&& timer_fits(state, timer)
    &&& state.waits_for() is Some ==> timer->0.active
}

/// The client never waits for what no timer bounds: while it waits, a timer of the kind that it
/// waits for is active. It holds from the start, and every event keeps it.
pub proof fn law_waiting_is_timed(
    client: ClientView,
    timer: Option<Timer>,
    event: Event,
    now: u64,
    uptime: u64,
)
    ensures
        timer_runs(State::HelloWait, Some(started(TimerKind::Hello, uptime, HELLO_TIMEOUT))),
        timer_runs(client.state, timer) ==> timer_runs(
            client.state.after(event),
            timer_after(timer, client.answer(event, now), uptime),
        ),
{
    reveal_with_fuel(timer_after, 2);
}

/// When the timer runs out it is no longer active, but still of the kind that the client waits for,
/// and whatever event comes first keeps it so. The event that it ran out leads to a state whose own
/// timer, if it waits at all, is active.
pub proof fn law_timer_runs_out(
    client: ClientView,
    timer: Option<Timer>,
    event: Event,
    now: u64,
    uptime: u64,
)
    requires
        timer_fits(client.state, timer),
    ensures
        timer_fits(client.state, stopped(timer)),
        timer_fits(
            client.state.after(event),
            timer_after(timer, client.answer(event, now), uptime),
        ),
        client.state.runs_out(event) ==> timer_runs(
            client.state.after(event),
            timer_after(timer, client.answer(event, now), uptime),
        ),
{
    reveal_with_fuel(timer_after, 2);
}

} // verus!
