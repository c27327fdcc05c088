//! What holds of the client's answers: what is said, printed and timed for each event, and where the
//! client stands after it.

use crate::client::{
    seen, ClientAction, ClientActionView, ClientView, Event, State, CLOSING_TIMEOUT, DATA_TIMEOUT,
    HELLO_TIMEOUT,
};
use crate::text::client_quit;
use crate::timer::TimerKind;
use crate::uap::{Command, MessageView, UapHeader};
use vstd::prelude::*;
use vstd::utf8::{decode_utf8, encode_utf8_decode_utf8, encode_utf8_valid_utf8, valid_utf8};

verus! {

/// The next message of the client: it bears the client's session and next number, and a time one
/// later than the client's.
pub open spec fn next_message(
    client: ClientView,
    command: Command,
    now: u64,
    payload: Option<Seq<u8>>,
) -> MessageView {
    MessageView {
        header: UapHeader {
            magic: 0xC461,
            version: 1,
            command,
            sequence_number: client.endpoint.next_number,
            session_id: client.session_id,
            logical_clock: ((client.endpoint.time + 1) % 0x1_0000_0000_0000_0000) as u64,
            timestamp: now,
        },
        payload,
    }
}

/// Taking leave: a GOODBYE without payload, and three seconds to wait for that of the server.
pub open spec fn leave_taking(client: ClientView, now: u64) -> Seq<ClientActionView> {
    seq![
        ClientActionView::Send { message: next_message(client, Command::Goodbye, now, None) },
        ClientActionView::SetTimer { kind: TimerKind::Closing, seconds: 3 },
    ]
}

/// A line that is no quit word is sent whole, in Ready and in ReadyTimer alike: one message is sent,
/// which is DATA, and its payload is valid UTF-8 that reads as the line. Five seconds start to run,
/// and the client waits for an ALIVE.
pub proof fn law_line_is_sent_whole(client: ClientView, event: Event, now: u64)
    requires
        client.state == State::Ready || client.state == State::ReadyTimer,
        event is StdinLine,
        !client_quit(event->StdinLine_0@),
    ensures
        ({
            let line = event->StdinLine_0@;
            let answer = client.answer(event, now);
            &&& answer.len() == 2
            &&& answer[0] matches ClientActionView::Send { message }
            &&& message.payload matches Some(payload)
            &&& valid_utf8(payload)
            &&& decode_utf8(payload) == line
            &&& message == next_message(client, Command::Data, now, Some(payload))
            &&& answer[1] == ClientActionView::SetTimer { kind: TimerKind::DataWait, seconds: 5 }
            &&& client.handled(event, now).state == State::ReadyTimer
        }),
{
    encode_utf8_valid_utf8(event->StdinLine_0@);
    encode_utf8_decode_utf8(event->StdinLine_0@);
}

/// Two lines that differ are sent as different payloads.
pub proof fn law_lines_are_told_apart(client: ClientView, one: Event, two: Event, now: u64)
    requires
        client.state == State::Ready || client.state == State::ReadyTimer,
        one is StdinLine,
        two is StdinLine,
        !client_quit(one->StdinLine_0@),
        !client_quit(two->StdinLine_0@),
        client.answer(one, now) == client.answer(two, now),
    ensures
        one->StdinLine_0@ == two->StdinLine_0@,
{
    law_line_is_sent_whole(client, one, now);
    law_line_is_sent_whole(client, two, now);
}

/// A quit word, or the end of the input, makes an open client take its leave: it says GOODBYE and
/// has three seconds to wait for that of the server. Waiting for a HELLO it says why; waiting for an
/// ALIVE it cancels that timer first.
pub proof fn law_quit_takes_leave(client: ClientView, event: Event, now: u64)
    requires
        event is StdinEof || (event is StdinLine && client_quit(event->StdinLine_0@)),
    ensures
        ({
            let answer = client.answer(event, now);
            let after = client.handled(event, now).state;
            match client.state {
                State::HelloWait => after == State::Closing && answer == seq![
                    ClientActionView::Print {
                        line: if event is StdinEof {
                            "EOF during HELLO wait -> Closing"@
                        } else {
                            "q received -> Closing"@
                        },
                    },
                ] + leave_taking(client, now),
                State::Ready => after == State::Closing && answer == leave_taking(client, now),
                State::ReadyTimer => after == State::Closing && answer == seq![
                    ClientActionView::CancelTimer,
                ] + leave_taking(client, now),
                State::Closing | State::Closed => after == client.state && answer.len() == 0,
            }
        }),
{
}

/// A timer that runs out counts in the state that waits for it: for a HELLO or an ALIVE the client
/// waits no longer, says so and takes its leave; for the server's GOODBYE it ends. Any other timer
/// is stale, and nothing comes of it.
pub proof fn law_timeout_ends_waiting(client: ClientView, event: Event, now: u64)
    requires
        event is Timeout,
    ensures
        ({
            let answer = client.answer(event, now);
            let after = client.handled(event, now).state;
            match (client.state, event->Timeout_0) {
                (State::HelloWait, TimerKind::Hello) => after == State::Closing && answer == seq![
                    ClientActionView::Print { line: "HELLO timeout -> Closing"@ },
                ] + leave_taking(client, now),
                (State::ReadyTimer, TimerKind::DataWait) => after == State::Closing && answer
                    == seq![ClientActionView::Print { line: "DATA wait timeout -> Closing"@ }]
                    + leave_taking(client, now),
                (State::Closing, TimerKind::Closing) => after == State::Closed && answer.len() == 0,
                _ => after == client.state && answer.len() == 0,
            }
        }),
{
}

/// A message counts where it is waited for: a HELLO, and after data an ALIVE, stop the timer and
/// make the client ready. A GOODBYE ends the client wherever it stands, and is printed. Of any other
/// message nothing comes. No message is answered by a message.
pub proof fn law_message_moves_client(client: ClientView, event: Event, now: u64)
    requires
        event is Net,
    ensures
        ({
            let answer = client.answer(event, now);
            let after = client.handled(event, now).state;
            match (event->Net_0.header.command, client.state) {
                (Command::Goodbye, _) => after == State::Closed && answer == seq![
                    ClientActionView::Print { line: "server sent GOODBYE -> closing"@ },
                ],
                (Command::Hello, State::HelloWait) | (Command::Alive, State::ReadyTimer) => after
                    == State::Ready && answer == seq![ClientActionView::CancelTimer],
                _ => after == client.state && answer.len() == 0,
            }
        }),
{
}

/// A line that is no quit word is heard only by a ready client: before the server's HELLO and once
/// the client has left nothing comes of it.
pub proof fn law_line_waits_for_hello(client: ClientView, event: Event, now: u64)
    requires
        client.state != State::Ready,
        client.state != State::ReadyTimer,
        event is StdinLine,
        !client_quit(event->StdinLine_0@),
    ensures
        client.answer(event, now).len() == 0,
        client.handled(event, now) == client,
{
}

/// What an event does to the rest of the client. The session never changes. A message sets the clock
/// to one more than the later of the two times, takes no number, and is measured by the time between
/// its timestamp and now, unless that is in the future. Anything else is not measured; it takes one
/// tick and one number if a message is sent, and none if not.
pub proof fn law_event_is_counted(client: ClientView, event: Event, now: u64)
    ensures
        ({
            let after = client.handled(event, now);
            let sends = exists|i: int|
                0 <= i < client.answer(event, now).len() && #[trigger] client.answer(event, now)[i]
                    is Send;
            &&& after.session_id == client.session_id
            &&& event matches Event::Net(m) ==> {
                &&& !sends
                &&& after.endpoint.next_number == client.endpoint.next_number
                &&& after.endpoint.time == (if m.header.logical_clock > client.endpoint.time {
                    m.header.logical_clock + 1
                } else {
                    client.endpoint.time + 1
                }) % 0x1_0000_0000_0000_0000
                &&& m.header.timestamp <= now ==> after.latency.count == client.latency.count + 1
                &&& m.header.timestamp <= now ==> after.latency.sum == client.latency.sum + now
                    - m.header.timestamp
                &&& m.header.timestamp > now ==> after.latency == client.latency
            }
            &&& !(event is Net) ==> after.latency == client.latency
            &&& !(event is Net) && !sends ==> after.endpoint == client.endpoint
            &&& sends ==> after.endpoint.time == (client.endpoint.time + 1)
                % 0x1_0000_0000_0000_0000
            &&& sends ==> after.endpoint.next_number == (client.endpoint.next_number + 1)
                % 0x1_0000_0000
        }),
{
    let answer = client.answer(event, now);
    if client.state.leaves(event) {
        assert(answer[answer.len() - 2] is Send);
    }
    if client.state.sends_line(event) {
        assert(answer[0] is Send);
    }
}

/// The states that wait and for what, and the states in which the client has neither left nor been
/// sent away.
pub proof fn law_states(state: State)
    ensures
        state.open() <==> state is HelloWait || state is Ready || state is ReadyTimer,
        state.waits_for() == Some(TimerKind::Hello) <==> state is HelloWait,
        state.waits_for() == Some(TimerKind::DataWait) <==> state is ReadyTimer,
        state.waits_for() == Some(TimerKind::Closing) <==> state is Closing,
        state.waits_for() is None <==> state is Ready || state is Closed,
{
}

/// Which events bring a command, and which come of a wish to leave or of a line to send.
pub proof fn law_events(event: Event, command: Command)
    ensures
        event.brings(command) <==> event is Net && event->Net_0.header.command == command,
        event.quits() <==> event is StdinEof || (event is StdinLine && client_quit(
            event->StdinLine_0@,
        )),
        event.speaks() <==> event is StdinLine && !client_quit(event->StdinLine_0@),
{
}

/// Where an event leads depends on the state alone. The client takes its leave when it comes to
/// Closing from elsewhere, has sent a line when a line leads to ReadyTimer, has its answer when it
/// becomes ready, and a timer has run out on it when a timeout moves it.
pub proof fn law_parts_agree(client: ClientView, event: Event, now: u64)
    ensures
        client.handled(event, now).state == client.state.after(event),
        client.state.leaves(event) <==> client.state != State::Closing && client.state.after(event)
            == State::Closing,
        client.state.sends_line(event) <==> event is StdinLine && client.state.after(event)
            == State::ReadyTimer,
        client.state.gets_answer(event) <==> client.state != State::Ready && client.state.after(
            event,
        ) == State::Ready,
        client.state.runs_out(event) <==> event is Timeout && client.state.after(event)
            != client.state,
{
}

/// How long the client waits, in seconds, and how it begins.
pub proof fn law_client_begins(session_id: u32)
    ensures
        HELLO_TIMEOUT == 5,
        DATA_TIMEOUT == 5,
        CLOSING_TIMEOUT == 3,
        ({
            let client = ClientView::fresh(session_id);
            &&& client.state == State::HelloWait
            &&& client.session_id == session_id
            &&& client.endpoint.time == 0
            &&& client.endpoint.next_number == 0
            &&& client.latency.count == 0
            &&& client.latency.sum == 0
        }),
{
}

/// The value of actions tells all of each: as many as there are, each with everything in it.
pub proof fn law_actions_are_seen(actions: Seq<ClientAction>, i: int)
    requires
        0 <= i < actions.len(),
    ensures
        seen(actions).len() == actions.len(),
        match (actions[i], seen(actions)[i]) {
            (ClientAction::Send { message: m }, ClientActionView::Send { message: n }) => m.header
                == n.header && match (m.payload, n.payload) {
                (Some(x), Some(y)) => x@ == y,
                (None, None) => true,
                _ => false,
            },
            (ClientAction::Print { line: a }, ClientActionView::Print { line: b }) => a@ == b,
            (
                ClientAction::SetTimer { kind: a, seconds: s },
                ClientActionView::SetTimer { kind: b, seconds: t },
            ) => a == b && s == t,
            (ClientAction::CancelTimer, ClientActionView::CancelTimer) => true,
            _ => false,
        },
{
}

} // verus!
