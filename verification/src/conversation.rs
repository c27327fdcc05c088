//! What client and server make of each other's datagrams.

use crate::client::{Event, State};
use crate::endpoint::{law_sent_messages_decode, EndpointView};
use crate::server::{is_send, law_one_reply, ActionView, ServerView};
use crate::uap::{decoded_message, Command, MessageView, UapError};
use vstd::prelude::*;

verus! {

/// The message with which the server, once it has read the logical time of `message`, answers by
/// this command.
pub open spec fn reply_to<A>(
    server: ServerView<A>,
    message: MessageView,
    command: Command,
    timestamp: u64,
) -> MessageView {
    server.received(message.header.logical_clock).endpoint.bare(
        command,
        message.header.session_id,
        timestamp,
    )
}

/// Whether a server that gets the datagram of `message` from `addr` sends `reply` back, and both
/// datagrams are understood on the other side.
pub open spec fn exchanged<A>(
    server: ServerView<A>,
    addr: A,
    message: MessageView,
    reply: MessageView,
    timestamp: u64,
) -> bool {
    &&& decoded_message(message.bytes()) == Ok::<MessageView, UapError>(message)
    &&& server.received(message.header.logical_clock).answer(addr, message, timestamp).contains(
        ActionView::Send {
            to: addr,
            message: reply,
            unsent: server.session(message.header.session_id, addr).phase,
        },
    )
    &&& decoded_message(reply.bytes()) == Ok::<MessageView, UapError>(reply)
}

/// A HELLO that opens a session is answered by a HELLO, which makes the client ready.
pub proof fn law_handshake<A>(
    server: ServerView<A>,
    addr: A,
    client: EndpointView,
    session_id: u32,
    sent_at: u64,
    timestamp: u64,
    event: Event,
)
    requires
        !server.sessions.contains_key(session_id),
        ({
            let hello = client.bare(Command::Hello, session_id, sent_at);
            event matches Event::Net(m) && m@ == reply_to(server, hello, Command::Hello, timestamp)
        }),
    ensures
        ({
            let hello = client.bare(Command::Hello, session_id, sent_at);
            exchanged(
                server,
                addr,
                hello,
                reply_to(server, hello, Command::Hello, timestamp),
                timestamp,
            )
        }),
        State::HelloWait.after(event) == State::Ready,
{
    let hello = client.bare(Command::Hello, session_id, sent_at);
    law_sent_messages_decode(client, Command::Hello, session_id, sent_at, Seq::empty());
    lemma_exchange(server, addr, hello, Command::Hello, timestamp);
    assert(event->Net_0@.header.command == Command::Hello);
}

/// Data with a number above the last of its session is answered by an ALIVE, which ends the
/// client's waiting.
pub proof fn law_data_is_acknowledged<A>(
    server: ServerView<A>,
    addr: A,
    client: EndpointView,
    session_id: u32,
    sent_at: u64,
    payload: Seq<u8>,
    timestamp: u64,
    event: Event,
)
    requires
        server.session(session_id, addr).last_seq matches Some(last) ==> client.next_number > last,
        ({
            let data = client.data(session_id, sent_at, payload);
            event matches Event::Net(m) && m@ == reply_to(server, data, Command::Alive, timestamp)
        }),
    ensures
        ({
            let data = client.data(session_id, sent_at, payload);
            exchanged(
                server,
                addr,
                data,
                reply_to(server, data, Command::Alive, timestamp),
                timestamp,
            )
        }),
        State::ReadyTimer.after(event) == State::Ready,
{
    let data = client.data(session_id, sent_at, payload);
    law_sent_messages_decode(client, Command::Hello, session_id, sent_at, payload);
    lemma_exchange(server, addr, data, Command::Alive, timestamp);
    assert(event->Net_0@.header.command == Command::Alive);
}

/// A GOODBYE that is no duplicate is answered by a GOODBYE, which ends the client.
pub proof fn law_goodbye_is_returned<A>(
    server: ServerView<A>,
    addr: A,
    client: EndpointView,
    session_id: u32,
    sent_at: u64,
    timestamp: u64,
    state: State,
    event: Event,
)
    requires
        server.session(session_id, addr).last_seq != Some(client.next_number),
        ({
            let goodbye = client.bare(Command::Goodbye, session_id, sent_at);
            event matches Event::Net(m) && m@ == reply_to(
                server,
                goodbye,
                Command::Goodbye,
                timestamp,
            )
        }),
    ensures
        ({
            let goodbye = client.bare(Command::Goodbye, session_id, sent_at);
            exchanged(
                server,
                addr,
                goodbye,
                reply_to(server, goodbye, Command::Goodbye, timestamp),
                timestamp,
            )
        }),
        state.after(event) == State::Closed,
{
    let goodbye = client.bare(Command::Goodbye, session_id, sent_at);
    law_sent_messages_decode(client, Command::Goodbye, session_id, sent_at, Seq::empty());
    lemma_exchange(server, addr, goodbye, Command::Goodbye, timestamp);
    assert(event->Net_0@.header.command == Command::Goodbye);
}

/// The reply that the verdict calls for is sent and is understood.
proof fn lemma_exchange<A>(
    server: ServerView<A>,
    addr: A,
    message: MessageView,
    command: Command,
    timestamp: u64,
)
    requires
        decoded_message(message.bytes()) == Ok::<MessageView, UapError>(message),
        server.verdict(addr, message).reply() == Some(command),
    ensures
        exchanged(server, addr, message, reply_to(server, message, command, timestamp), timestamp),
{
    let received = server.received(message.header.logical_clock);
    assert(received.verdict(addr, message) == server.verdict(addr, message));
    law_one_reply(received, addr, message, timestamp);
    let answer = received.answer(addr, message, timestamp);
    let i = choose|i: int| 0 <= i < answer.len() && #[trigger] is_send(answer[i]);
    assert(answer.contains(answer[i]));
    law_sent_messages_decode(
        received.endpoint,
        command,
        message.header.session_id,
        timestamp,
        Seq::empty(),
    );
}

} // verus!
