//! One side of a conversation: its logical clock and the numbers of the messages that it sends.

use crate::clock::{after, later, LamportClock};
use crate::uap::{
    decoded_message, law_message_roundtrip, Command, MessageView, UapError, UapHeader, UapMessage,
};
use crate::util::{successor, SeqCounter};
use vstd::prelude::*;

verus! {

/// The clock that stamps outgoing messages and the counter that numbers them.
#[derive(Debug)]
pub struct Endpoint {
    clock: LamportClock,
    seq: SeqCounter,
}

/// An endpoint as a value: its logical time, and the number of its next message.
pub struct EndpointView {
    pub time: u64,
    pub next_number: u32,
}

impl EndpointView {
    /// An endpoint that has sent and received nothing.
    pub open spec fn fresh() -> EndpointView {
        EndpointView { time: 0, next_number: 0 }
    }

    /// The endpoint once it has received a message that bears the logical time `remote`.
    pub open spec fn received(self, remote: u64) -> EndpointView {
        EndpointView { time: after(later(self.time, remote)), ..self }
    }

    /// The endpoint once it has sent one message more.
    pub open spec fn sent(self) -> EndpointView {
        EndpointView { time: after(self.time), next_number: successor(self.next_number) }
    }

    /// The header of the next message, if that is a `command` of session `session_id`.
    pub open spec fn header(self, command: Command, session_id: u32, timestamp: u64) -> UapHeader {
        UapHeader::of(command, self.next_number, session_id, after(self.time), timestamp)
    }

    /// The next message, if that is a `command` of session `session_id` without payload.
    pub open spec fn bare(
        self,
        command: Command,
        session_id: u32,
        timestamp: u64,
    ) -> MessageView {
        MessageView { header: self.header(command, session_id, timestamp), payload: None }
    }

    /// The next message, if that is DATA of session `session_id`.
    pub open spec fn data(
        self,
        session_id: u32,
        timestamp: u64,
        payload: Seq<u8>,
    ) -> MessageView {
        MessageView {
            header: self.header(Command::Data, session_id, timestamp),
            payload: Some(payload),
        }
    }
}

impl View for Endpoint {
    type V = EndpointView;

    closed spec fn view(&self) -> EndpointView {
        EndpointView { time: self.clock@, next_number: self.seq@ }
    }
}

impl Endpoint {
    /// An endpoint that has sent and received nothing.
    pub fn new() -> (endpoint: Self)
        ensures
            endpoint@ == EndpointView::fresh(),
    {
        Endpoint { clock: LamportClock::new(), seq: SeqCounter::new() }
    }

    /// Take note of a message that bears the logical time `remote_time`.
    pub fn receive(&mut self, remote_time: u64)
        ensures
            final(self)@ == old(self)@.received(remote_time),
    {
        let _ = self.clock.recv_event(remote_time);
    }

    /// The HELLO to send next.
    pub fn send_hello(&mut self, session_id: u32, timestamp: u64) -> (message: UapMessage)
        ensures
            message@ == old(self)@.bare(Command::Hello, session_id, timestamp),
            final(self)@ == old(self)@.sent(),
    {
        let time: u64 = self.clock.send_event();
        UapMessage::hello(self.seq.next(), session_id, time, timestamp)
    }

    /// The ALIVE to send next.
    pub fn send_alive(&mut self, session_id: u32, timestamp: u64) -> (message: UapMessage)
        ensures
            message@ == old(self)@.bare(Command::Alive, session_id, timestamp),
            final(self)@ == old(self)@.sent(),
    {
        let time: u64 = self.clock.send_event();
        UapMessage::alive(self.seq.next(), session_id, time, timestamp)
    }

    /// The GOODBYE to send next.
    pub fn send_goodbye(&mut self, session_id: u32, timestamp: u64) -> (message: UapMessage)
        ensures
            message@ == old(self)@.bare(Command::Goodbye, session_id, timestamp),
            final(self)@ == old(self)@.sent(),
    {
        let time: u64 = self.clock.send_event();
        UapMessage::goodbye(self.seq.next(), session_id, time, timestamp)
    }

    /// The DATA to send next.
    pub fn send_data(
        &mut self,
        session_id: u32,
        timestamp: u64,
        payload: Vec<u8>,
    ) -> (message: UapMessage)
        ensures
            message@ == old(self)@.data(session_id, timestamp, payload@),
            final(self)@ == old(self)@.sent(),
    {
        let time: u64 = self.clock.send_event();
        UapMessage::data(self.seq.next(), session_id, time, timestamp, payload)
    }
}

/// Whatever an endpoint sends after it has received a message bears a later logical time than that
/// message, and so does all that it sends from then on.
pub proof fn law_answer_is_later(
    endpoint: EndpointView,
    remote: u64,
    command: Command,
    session_id: u32,
    timestamp: u64,
)
    requires
        endpoint.time < u64::MAX - 1,
        remote < u64::MAX - 1,
    ensures
        endpoint.received(remote).header(command, session_id, timestamp).logical_clock > remote,
        endpoint.received(remote).sent().time > remote,
{
}

/// Two messages sent one after the other bear consecutive numbers and growing logical times.
pub proof fn law_messages_are_numbered(
    endpoint: EndpointView,
    first: Command,
    second: Command,
    session_id: u32,
    timestamp: u64,
)
    requires
        endpoint.time < u64::MAX - 1,
    ensures
        ({
            let a = endpoint.header(first, session_id, timestamp);
            let b = endpoint.sent().header(second, session_id, timestamp);
            &&& b.sequence_number == successor(a.sequence_number)
            &&& b.logical_clock > a.logical_clock
        }),
{
}

/// Whatever an endpoint sends, the other side decodes to the very message that was sent.
pub proof fn law_sent_messages_decode(
    endpoint: EndpointView,
    command: Command,
    session_id: u32,
    timestamp: u64,
    payload: Seq<u8>,
)
    requires
        command != Command::Data,
    ensures
        ({
            let bare = endpoint.bare(command, session_id, timestamp);
            let data = endpoint.data(session_id, timestamp, payload);
            &&& decoded_message(bare.bytes()) == Ok::<MessageView, UapError>(bare)
            &&& decoded_message(data.bytes()) == Ok::<MessageView, UapError>(data)
        }),
{
    law_message_roundtrip(endpoint.bare(command, session_id, timestamp));
    law_message_roundtrip(endpoint.data(session_id, timestamp, payload));
}

/// What an endpoint sends bears the next number, a time one later than the endpoint's, and what it
/// was asked to bear; data bears its payload whole. Sending takes one number and one tick of the
/// clock; receiving takes no number, and one tick past the later of the two times.
pub proof fn law_endpoint_steps(
    endpoint: EndpointView,
    command: Command,
    session_id: u32,
    timestamp: u64,
    payload: Seq<u8>,
    remote: u64,
)
    requires
        endpoint.time < u64::MAX,
        remote < u64::MAX,
        endpoint.next_number < u32::MAX,
    ensures
        ({
            let bare = endpoint.bare(command, session_id, timestamp);
            let data = endpoint.data(session_id, timestamp, payload);
            &&& bare.payload is None
            &&& data.payload == Some(payload)
            &&& bare.header == UapHeader {
                magic: 0xC461,
                version: 1,
                command,
                sequence_number: endpoint.next_number,
                session_id,
                logical_clock: (endpoint.time + 1) as u64,
                timestamp,
            }
            &&& data.header == UapHeader { command: Command::Data, ..bare.header }
        }),
        endpoint.sent().time == endpoint.time + 1,
        endpoint.sent().next_number == endpoint.next_number + 1,
        endpoint.received(remote).next_number == endpoint.next_number,
        endpoint.received(remote).time == if endpoint.time < remote {
            remote + 1
        } else {
            endpoint.time + 1
        },
        EndpointView::fresh().time == 0,
        EndpointView::fresh().next_number == 0,
{
}

/// The same where the counts start again at 0.
pub proof fn law_endpoint_wraps(
    endpoint: EndpointView,
    command: Command,
    session_id: u32,
    timestamp: u64,
    payload: Seq<u8>,
    remote: u64,
)
    ensures
        ({
            let bare = endpoint.bare(command, session_id, timestamp);
            let data = endpoint.data(session_id, timestamp, payload);
            &&& bare.payload is None
            &&& data.payload == Some(payload)
            &&& bare.header.magic == 0xC461
            &&& bare.header.version == 1
            &&& bare.header.command == command
            &&& bare.header.sequence_number == endpoint.next_number
            &&& bare.header.session_id == session_id
            &&& bare.header.timestamp == timestamp
            &&& bare.header.logical_clock == endpoint.sent().time
            &&& data.header == UapHeader { command: Command::Data, ..bare.header }
        }),
        endpoint.sent().time == (endpoint.time + 1) % 0x1_0000_0000_0000_0000,
        endpoint.sent().next_number == (endpoint.next_number + 1) % 0x1_0000_0000,
        endpoint.received(remote).next_number == endpoint.next_number,
        endpoint.time == u64::MAX || remote == u64::MAX ==> endpoint.received(remote).time == 0,
{
}

} // verus!
