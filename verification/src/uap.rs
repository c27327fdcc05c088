//! UAP protocol types and binary encoding/decoding (big-endian).

use crate::text::{decimal, decimal_text, hex, hex_text};
use crate::wire::{
    be_bytes, be_value, law_byte_is_digit, law_bytes_of_value, law_value_is_positional,
    law_value_of_bytes, lemma_be_bytes_len, lemma_widths,
};
use crate::wire::{read_be, u16_bytes, u32_bytes, u64_bytes};
use vstd::arithmetic::power::pow;
use vstd::prelude::*;
use vstd::string::StringExecFns;
use vstd::slice::{slice_subrange, slice_to_vec};

verus! {

/// Fixed magic value for all UAP messages.
pub const MAGIC: u16 = 0xC461;

/// Protocol version.
pub const VERSION: u8 = 1;

/// UAP header length in bytes.
pub const HEADER_LEN: usize = 2 + 1 + 1 + 4 + 4 + 8 + 8;

/// UAP message command kind.
#[derive(Copy, Clone, Debug, PartialEq, Eq, Structural)]
pub enum Command {
    Hello,
    Data,
    Alive,
    Goodbye,
}

impl Command {
    /// The byte that stands for the command on the wire.
    pub open spec fn code(self) -> u8 {
        match self {
            Command::Hello => 0,
            Command::Data => 1,
            Command::Alive => 2,
            Command::Goodbye => 3,
        }
    }

    /// The command that the byte `v` stands for, if it stands for one.
    pub fn from_u8(v: u8) -> (command: Result<Self, UapError>)
        ensures
            command == (match command_of(v) {
                Some(c) => Ok::<Command, UapError>(c),
                None => Err(UapError::UnknownCommand(v)),
            }),
    {
        match v {
            0 => Ok(Command::Hello),
            1 => Ok(Command::Data),
            2 => Ok(Command::Alive),
            3 => Ok(Command::Goodbye),
            _ => Err(UapError::UnknownCommand(v)),
        }
    }

    /// The byte that stands for the command on the wire.
    pub fn to_u8(self) -> (v: u8)
        ensures
            v == self.code(),
    {
        match self {
            Command::Hello => 0,
            Command::Data => 1,
            Command::Alive => 2,
            Command::Goodbye => 3,
        }
    }
}

/// Wire header for every UAP message.
#[derive(Copy, Clone, Debug, PartialEq, Eq, Structural)]
pub struct UapHeader {
    pub magic: u16,
    pub version: u8,
    pub command: Command,
    pub sequence_number: u32,
    pub session_id: u32,
    pub logical_clock: u64,
    pub timestamp: u64,
}

impl UapHeader {
    /// The header that [`UapHeader::new`] makes of its arguments.
    pub open spec fn of(
        command: Command,
        sequence_number: u32,
        session_id: u32,
        logical_clock: u64,
        timestamp: u64,
    ) -> UapHeader {
        UapHeader {
            magic: MAGIC,
            version: VERSION,
            command,
            sequence_number,
            session_id,
            logical_clock,
            timestamp,
        }
    }

    /// Whether the header bears the protocol's magic value and version.
    pub open spec fn current(self) -> bool {
        self.magic == MAGIC && self.version == VERSION
    }

    /// The header on the wire: its fields in order, integers big-endian.
    pub open spec fn bytes(self) -> Seq<u8> {
        be_bytes(self.magic as nat, 2)
            + seq![self.version]
            + seq![self.command.code()]
            + be_bytes(self.sequence_number as nat, 4)
            + be_bytes(self.session_id as nat, 4)
            + be_bytes(self.logical_clock as nat, 8)
            + be_bytes(self.timestamp as nat, 8)
    }

    /// Construct a header with the fixed magic and version.
    pub fn new(
        command: Command,
        sequence_number: u32,
        session_id: u32,
        logical_clock: u64,
        timestamp: u64,
    ) -> (header: Self)
        ensures
            header == UapHeader::of(
                command,
                sequence_number,
                session_id,
                logical_clock,
                timestamp,
            ),
    {
        UapHeader {
            magic: MAGIC,
            version: VERSION,
            command,
            sequence_number,
            session_id,
            logical_clock,
            timestamp,
        }
    }

    /// Serialize the header to a 28-byte big-endian buffer.
    pub fn encode(&self) -> (buf: [u8; HEADER_LEN])
        ensures
            buf@ == self.bytes(),
    {
        let m = u16_bytes(self.magic);
        let n = u32_bytes(self.sequence_number);
        let s = u32_bytes(self.session_id);
        let c = u64_bytes(self.logical_clock);
        let t = u64_bytes(self.timestamp);
        let buf: [u8; HEADER_LEN] = [
            m[0], m[1],
            self.version,
            self.command.to_u8(),
            n[0], n[1], n[2], n[3],
            s[0], s[1], s[2], s[3],
            c[0], c[1], c[2], c[3], c[4], c[5], c[6], c[7],
            t[0], t[1], t[2], t[3], t[4], t[5], t[6], t[7],
        ];
        assert(buf@ =~= self.bytes());
        buf
    }

    /// Parse a header from the first 28 bytes of `data`.
    pub fn decode(data: &[u8]) -> (header: Result<Self, UapError>)
        ensures
            header == decoded_header(data@),
    {
        if data.len() < HEADER_LEN {
            return Err(UapError::TruncatedHeader);
        }
        proof {
            lemma_field_bounds(data@);
        }
        let magic: u16 = read_be(data, 0, 2) as u16;
        if magic != MAGIC {
            return Err(UapError::InvalidMagic(magic));
        }
        let version: u8 = data[2];
        if version != VERSION {
            return Err(UapError::UnsupportedVersion(version));
        }
        let command = match Command::from_u8(data[3]) {
            Ok(command) => command,
            Err(e) => return Err(e),
        };
        let sequence_number: u32 = read_be(data, 4, 4) as u32;
        let session_id: u32 = read_be(data, 8, 4) as u32;
        let logical_clock: u64 = read_be(data, 12, 8);
        let timestamp: u64 = read_be(data, 20, 8);
        Ok(
            UapHeader {
                magic,
                version,
                command,
                sequence_number,
                session_id,
                logical_clock,
                timestamp,
            },
        )
    }
}

/// The command that the byte `v` stands for; four bytes stand for one.
pub open spec fn command_of(v: u8) -> Option<Command> {
    if v == 0 {
        Some(Command::Hello)
    } else if v == 1 {
        Some(Command::Data)
    } else if v == 2 {
        Some(Command::Alive)
    } else if v == 3 {
        Some(Command::Goodbye)
    } else {
        None
    }
}

/// What [`UapHeader::decode`] makes of `data`: the fields at their offsets, or the first fault in
/// the order length, magic, version, command.
pub open spec fn decoded_header(data: Seq<u8>) -> Result<UapHeader, UapError> {
    let magic = be_value(data.subrange(0, 2)) as u16;
    if data.len() < HEADER_LEN {
        Err(UapError::TruncatedHeader)
    } else if magic != MAGIC {
        Err(UapError::InvalidMagic(magic))
    } else if data[2] != VERSION {
        Err(UapError::UnsupportedVersion(data[2]))
    } else {
        match command_of(data[3]) {
            None => Err(UapError::UnknownCommand(data[3])),
            Some(command) => Ok(
                UapHeader {
                    magic,
                    version: data[2],
                    command,
                    sequence_number: be_value(data.subrange(4, 8)) as u32,
                    session_id: be_value(data.subrange(8, 12)) as u32,
                    logical_clock: be_value(data.subrange(12, 20)) as u64,
                    timestamp: be_value(data.subrange(20, 28)) as u64,
                },
            ),
        }
    }
}

/// The integer fields of a header fit their types.
proof fn lemma_field_bounds(data: Seq<u8>)
    requires
        data.len() >= HEADER_LEN,
    ensures
        be_value(data.subrange(0, 2)) <= u16::MAX,
        be_value(data.subrange(4, 8)) <= u32::MAX,
        be_value(data.subrange(8, 12)) <= u32::MAX,
        be_value(data.subrange(12, 20)) <= u64::MAX,
        be_value(data.subrange(20, 28)) <= u64::MAX,
{
    lemma_widths();
    law_bytes_of_value(data.subrange(0, 2));
    law_bytes_of_value(data.subrange(4, 8));
    law_bytes_of_value(data.subrange(8, 12));
    law_bytes_of_value(data.subrange(12, 20));
    law_bytes_of_value(data.subrange(20, 28));
}

/// A full UAP message (header + optional data payload).
#[derive(Clone, Debug, PartialEq, Eq)]
pub struct UapMessage {
    pub header: UapHeader,
    /// Only for DATA.
    pub payload: Option<Vec<u8>>,
}

/// A message as a value: its header, and the bytes of its payload.
#[verifier::ext_equal]
pub struct MessageView {
    pub header: UapHeader,
    pub payload: Option<Seq<u8>>,
}

impl View for UapMessage {
    type V = MessageView;

    open spec fn view(&self) -> MessageView {
        MessageView {
            header: self.header,
            payload: match self.payload {
                Some(p) => Some(p@),
                None => None,
            },
        }
    }
}

impl MessageView {
    /// The message on the wire: the header, and behind it the payload of a DATA message.
    pub open spec fn bytes(self) -> Seq<u8> {
        match self.payload {
            Some(p) if self.header.command == Command::Data => self.header.bytes() + p,
            _ => self.header.bytes(),
        }
    }

    /// Whether the message bears the protocol's magic value and version, and a payload if and only
    /// if it is a DATA message.
    pub open spec fn well_formed(self) -> bool {
        &&& self.header.current()
        &&& self.payload is Some <==> self.header.command == Command::Data
    }

    /// The message with these header fields and no payload.
    pub open spec fn bare(
        command: Command,
        sequence_number: u32,
        session_id: u32,
        logical_clock: u64,
        timestamp: u64,
    ) -> MessageView {
        MessageView {
            header: UapHeader::of(
                command,
                sequence_number,
                session_id,
                logical_clock,
                timestamp,
            ),
            payload: None,
        }
    }
}

/// What [`UapMessage::decode`] makes of `data`: the header, and for a DATA message all that
/// follows it. What follows the header of any other message is ignored.
pub open spec fn decoded_message(data: Seq<u8>) -> Result<MessageView, UapError> {
    match decoded_header(data) {
        Err(e) => Err(e),
        Ok(header) => Ok(
            MessageView {
                header,
                payload: if header.command == Command::Data {
                    Some(data.skip(HEADER_LEN as int))
                } else {
                    None
                },
            },
        ),
    }
}

impl UapMessage {
    /// Create a HELLO message (no payload).
    pub fn hello(
        sequence_number: u32,
        session_id: u32,
        logical_clock: u64,
        timestamp: u64,
    ) -> (message: Self)
        ensures
            message@ == MessageView::bare(
                Command::Hello,
                sequence_number,
                session_id,
                logical_clock,
                timestamp,
            ),
    {
        UapMessage {
            header: UapHeader::new(
                Command::Hello,
                sequence_number,
                session_id,
                logical_clock,
                timestamp,
            ),
            payload: None,
        }
    }

    /// Create an ALIVE message (no payload).
    pub fn alive(
        sequence_number: u32,
        session_id: u32,
        logical_clock: u64,
        timestamp: u64,
    ) -> (message: Self)
        ensures
            message@ == MessageView::bare(
                Command::Alive,
                sequence_number,
                session_id,
                logical_clock,
                timestamp,
            ),
    {
        UapMessage {
            header: UapHeader::new(
                Command::Alive,
                sequence_number,
                session_id,
                logical_clock,
                timestamp,
            ),
            payload: None,
        }
    }

    /// Create a GOODBYE message (no payload).
    pub fn goodbye(
        sequence_number: u32,
        session_id: u32,
        logical_clock: u64,
        timestamp: u64,
    ) -> (message: Self)
        ensures
            message@ == MessageView::bare(
                Command::Goodbye,
                sequence_number,
                session_id,
                logical_clock,
                timestamp,
            ),
    {
        UapMessage {
            header: UapHeader::new(
                Command::Goodbye,
                sequence_number,
                session_id,
                logical_clock,
                timestamp,
            ),
            payload: None,
        }
    }

    /// Create a DATA message with payload.
    pub fn data(
        sequence_number: u32,
        session_id: u32,
        logical_clock: u64,
        timestamp: u64,
        payload: Vec<u8>,
    ) -> (message: Self)
        ensures
            message@ == (MessageView {
                header: UapHeader::of(
                    Command::Data,
                    sequence_number,
                    session_id,
                    logical_clock,
                    timestamp,
                ),
                payload: Some(payload@),
            }),
    {
        UapMessage {
            header: UapHeader::new(
                Command::Data,
                sequence_number,
                session_id,
                logical_clock,
                timestamp,
            ),
            payload: Some(payload),
        }
    }

    /// Encode to a single UDP-ready buffer (one message per packet).
    pub fn encode(&self) -> (out: Vec<u8>)
        ensures
            out@ == self@.bytes(),
    {
        let header = self.header.encode();
        let mut out: Vec<u8> = slice_to_vec(&header);
        if self.header.command == Command::Data {
            if let Some(p) = &self.payload {
                out.extend_from_slice(p);
            }
        }
        out
    }

    /// Decode a message from bytes; validates magic/version and command.
    pub fn decode(data: &[u8]) -> (message: Result<Self, UapError>)
        ensures
            match message {
                Ok(m) => decoded_message(data@) == Ok::<MessageView, UapError>(m@),
                Err(e) => decoded_message(data@) == Err::<MessageView, UapError>(e),
            },
    {
        let header = match UapHeader::decode(data) {
            Ok(header) => header,
            Err(e) => return Err(e),
        };
        let payload: Option<Vec<u8>> = match header.command {
            Command::Data => Some(slice_to_vec(slice_subrange(data, HEADER_LEN, data.len()))),
            _ => None,
        };
        Ok(UapMessage { header, payload })
    }
}

/// Errors that can occur while decoding or validating UAP messages.
#[derive(Debug, Clone, PartialEq, Eq, Structural)]
pub enum UapError {
    TruncatedHeader,
    InvalidMagic(u16),
    UnsupportedVersion(u8),
    UnknownCommand(u8),
}

impl UapError {
    /// The error in words.
    pub open spec fn words(self) -> Seq<char> {
        match self {
            UapError::TruncatedHeader => "truncated header: expected "@ + decimal(
                HEADER_LEN as nat,
            ) + " bytes"@,
            UapError::InvalidMagic(m) => "invalid magic: 0x"@ + hex(m as nat, 4, true),
            UapError::UnsupportedVersion(v) => "unsupported version: "@ + decimal(v as nat),
            UapError::UnknownCommand(c) => "unknown command: "@ + decimal(c as nat),
        }
    }

    /// The error in words.
    pub fn to_string(&self) -> (words: String)
        ensures
            words@ == self.words(),
    {
        match self {
            UapError::TruncatedHeader => "truncated header: expected ".to_owned().concat(
                decimal_text(HEADER_LEN as u64).as_str(),
            ).concat(" bytes"),
            UapError::InvalidMagic(m) => "invalid magic: 0x".to_owned().concat(
                hex_text(*m as u64, 4, true).as_str(),
            ),
            UapError::UnsupportedVersion(v) => "unsupported version: ".to_owned().concat(
                decimal_text(*v as u64).as_str(),
            ),
            UapError::UnknownCommand(c) => "unknown command: ".to_owned().concat(
                decimal_text(*c as u64).as_str(),
            ),
        }
    }
}

/// Each field of an encoded header lies at its offset, whatever follows the header.
proof fn lemma_header_layout(h: UapHeader, rest: Seq<u8>)
    ensures
        h.bytes().len() == HEADER_LEN,
        ({
            let data = h.bytes() + rest;
            &&& data.subrange(0, 2) == be_bytes(h.magic as nat, 2)
            &&& data[2] == h.version
            &&& data[3] == h.command.code()
            &&& data.subrange(4, 8) == be_bytes(h.sequence_number as nat, 4)
            &&& data.subrange(8, 12) == be_bytes(h.session_id as nat, 4)
            &&& data.subrange(12, 20) == be_bytes(h.logical_clock as nat, 8)
            &&& data.subrange(20, 28) == be_bytes(h.timestamp as nat, 8)
        }),
{
    broadcast use lemma_be_bytes_len;

    let data = h.bytes() + rest;
    assert(data.subrange(0, 2) =~= be_bytes(h.magic as nat, 2));
    assert(data.subrange(4, 8) =~= be_bytes(h.sequence_number as nat, 4));
    assert(data.subrange(8, 12) =~= be_bytes(h.session_id as nat, 4));
    assert(data.subrange(12, 20) =~= be_bytes(h.logical_clock as nat, 8));
    assert(data.subrange(20, 28) =~= be_bytes(h.timestamp as nat, 8));
}

/// Decoding gives back the header that was encoded, whatever follows it. A header with another
/// magic value or version is refused, and the error names what was found.
pub proof fn law_header_roundtrip(h: UapHeader, rest: Seq<u8>)
    ensures
        decoded_header(h.bytes() + rest) == (if h.magic != MAGIC {
            Err(UapError::InvalidMagic(h.magic))
        } else if h.version != VERSION {
            Err(UapError::UnsupportedVersion(h.version))
        } else {
            Ok::<UapHeader, UapError>(h)
        }),
{
    lemma_header_layout(h, rest);
    lemma_widths();
    law_value_of_bytes(h.magic as nat, 2);
    law_value_of_bytes(h.sequence_number as nat, 4);
    law_value_of_bytes(h.session_id as nat, 4);
    law_value_of_bytes(h.logical_clock as nat, 8);
    law_value_of_bytes(h.timestamp as nat, 8);
}

/// A header that was decoded encodes to the very bytes that it was decoded from, and bears the
/// protocol's magic value and version.
pub proof fn law_decoded_header_encodes_back(data: Seq<u8>)
    requires
        decoded_header(data) is Ok,
    ensures
        decoded_header(data)->Ok_0.current(),
        decoded_header(data)->Ok_0.bytes() == data.take(HEADER_LEN as int),
{
    let h = decoded_header(data)->Ok_0;
    lemma_field_bounds(data);
    lemma_header_layout(h, Seq::empty());
    law_bytes_of_value(data.subrange(0, 2));
    law_bytes_of_value(data.subrange(4, 8));
    law_bytes_of_value(data.subrange(8, 12));
    law_bytes_of_value(data.subrange(12, 20));
    law_bytes_of_value(data.subrange(20, 28));
    assert(data.take(HEADER_LEN as int) =~= data.subrange(0, 2) + seq![data[2]] + seq![data[3]]
        + data.subrange(4, 8) + data.subrange(8, 12) + data.subrange(12, 20) + data.subrange(
        20,
        28,
    ));
}

/// Two headers that differ in any field differ on the wire.
pub proof fn law_header_bytes_distinct(a: UapHeader, b: UapHeader)
    requires
        a.bytes() == b.bytes(),
    ensures
        a == b,
{
    lemma_header_layout(a, Seq::empty());
    lemma_header_layout(b, Seq::empty());
    lemma_widths();
    law_value_of_bytes(a.magic as nat, 2);
    law_value_of_bytes(b.magic as nat, 2);
    law_value_of_bytes(a.sequence_number as nat, 4);
    law_value_of_bytes(b.sequence_number as nat, 4);
    law_value_of_bytes(a.session_id as nat, 4);
    law_value_of_bytes(b.session_id as nat, 4);
    law_value_of_bytes(a.logical_clock as nat, 8);
    law_value_of_bytes(b.logical_clock as nat, 8);
    law_value_of_bytes(a.timestamp as nat, 8);
    law_value_of_bytes(b.timestamp as nat, 8);
}

/// Decoding gives back the well-formed message that was encoded.
pub proof fn law_message_roundtrip(m: MessageView)
    requires
        m.well_formed(),
    ensures
        decoded_message(m.bytes()) == Ok::<MessageView, UapError>(m),
{
    lemma_header_layout(m.header, Seq::empty());
    match m.payload {
        Some(p) => {
            law_header_roundtrip(m.header, p);
            assert(m.bytes().skip(HEADER_LEN as int) =~= p);
        },
        None => {
            law_header_roundtrip(m.header, Seq::empty());
            assert(m.bytes() =~= m.bytes() + Seq::<u8>::empty());
        },
    }
}

/// A message that was decoded is well-formed. It encodes to the bytes that it was decoded from: to
/// all of them if it is a DATA message, else to the header alone.
pub proof fn law_decoded_message_encodes_back(data: Seq<u8>)
    requires
        decoded_message(data) is Ok,
    ensures
        ({
            let m = decoded_message(data)->Ok_0;
            &&& m.well_formed()
            &&& m.bytes() == (if m.header.command == Command::Data {
                data
            } else {
                data.take(HEADER_LEN as int)
            })
        }),
{
    law_decoded_header_encodes_back(data);
    assert(data =~= data.take(HEADER_LEN as int) + data.skip(HEADER_LEN as int));
}

/// Every command is told by its byte, and every byte below four tells a command.
pub proof fn law_command_codes(command: Command, v: u8)
    ensures
        command_of(command.code()) == Some(command),
        match command_of(v) {
            Some(c) => c.code() == v,
            None => v > 3,
        },
        command == Command::Hello <==> command.code() == 0,
        command == Command::Data <==> command.code() == 1,
        command == Command::Alive <==> command.code() == 2,
        command == Command::Goodbye <==> command.code() == 3,
{
}

/// Whether `value` stands in the `width` bytes of `data` from `start` on, its most significant
/// base-256 digit first.
pub open spec fn spells(data: Seq<u8>, start: int, width: nat, value: int) -> bool {
    forall|i: int|
        0 <= i < width ==> #[trigger] data[start + i] as int == (value / pow(
            256,
            (width - 1 - i) as nat,
        )) % 256
}

/// The 28 bytes of a header, one by one: magic, version, command, sequence number, session,
/// logical clock and timestamp, the integers with their most significant byte first.
pub proof fn law_header_bytes(h: UapHeader)
    ensures
        h.bytes().len() == 28,
        spells(h.bytes(), 0, 2, h.magic as int),
        h.bytes()[2] == h.version,
        h.command == Command::Hello ==> h.bytes()[3] == 0,
        h.command == Command::Data ==> h.bytes()[3] == 1,
        h.command == Command::Alive ==> h.bytes()[3] == 2,
        h.command == Command::Goodbye ==> h.bytes()[3] == 3,
        spells(h.bytes(), 4, 4, h.sequence_number as int),
        spells(h.bytes(), 8, 4, h.session_id as int),
        spells(h.bytes(), 12, 8, h.logical_clock as int),
        spells(h.bytes(), 20, 8, h.timestamp as int),
{
    let bytes = h.bytes();
    lemma_header_layout(h, Seq::empty());
    assert(bytes + Seq::<u8>::empty() =~= bytes);
    lemma_spells(bytes, 0, 2, h.magic as nat);
    lemma_spells(bytes, 4, 4, h.sequence_number as nat);
    lemma_spells(bytes, 8, 4, h.session_id as nat);
    lemma_spells(bytes, 12, 8, h.logical_clock as nat);
    lemma_spells(bytes, 20, 8, h.timestamp as nat);
}

/// Written bytes spell what was written.
proof fn lemma_spells(data: Seq<u8>, start: int, width: nat, value: nat)
    requires
        0 <= start,
        start + width <= data.len(),
        data.subrange(start, start + width) == be_bytes(value, width),
    ensures
        spells(data, start, width, value as int),
{
    assert forall|i: int| 0 <= i < width implies #[trigger] data[start + i] as int == (
    value as int / pow(256, (width - 1 - i) as nat)) % 256 by {
        law_byte_is_digit(value, width, i);
        assert(data.subrange(start, start + width)[i] == data[start + i]);
    }
}

/// What decoding makes of a datagram, byte by byte. It succeeds on 28 bytes or more that start with
/// C4 61 01 and a byte below four, and then every field is what its bytes spell, most significant
/// first. Else the error names the first thing amiss.
pub proof fn law_decoding_reads_bytes(data: Seq<u8>)
    ensures
        decoded_header(data) is Ok <==> data.len() >= 28 && data[0] == 0xC4 && data[1] == 0x61
            && data[2] == 1 && data[3] < 4,
        decoded_header(data) matches Ok(h) ==> {
            &&& h.magic == 0xC461
            &&& h.version == 1
            &&& h.command == Command::Hello <==> data[3] == 0
            &&& h.command == Command::Data <==> data[3] == 1
            &&& h.command == Command::Alive <==> data[3] == 2
            &&& h.command == Command::Goodbye <==> data[3] == 3
            &&& spells(data, 4, 4, h.sequence_number as int)
            &&& spells(data, 8, 4, h.session_id as int)
            &&& spells(data, 12, 8, h.logical_clock as int)
            &&& spells(data, 20, 8, h.timestamp as int)
        },
        decoded_header(data) matches Err(e) ==> {
            if data.len() < 28 {
                e == UapError::TruncatedHeader
            } else if data[0] != 0xC4 || data[1] != 0x61 {
                e matches UapError::InvalidMagic(m) && m == data[0] * 256 + data[1]
            } else if data[2] != 1 {
                e matches UapError::UnsupportedVersion(v) && v == data[2]
            } else {
                e matches UapError::UnknownCommand(c) && c == data[3]
            }
        },
{
    if data.len() >= 28 {
        lemma_field_bounds(data);
        let pair = data.subrange(0, 2);
        assert(pair =~= seq![data[0]] + seq![data[1]]);
        law_value_is_positional(seq![data[0]], seq![data[1]], data[0]);
        law_value_is_positional(seq![data[0]], seq![data[1]], data[1]);
        reveal_with_fuel(pow, 2);
        assert(be_value(pair) == data[0] * 256 + data[1]);
        if decoded_header(data) is Ok {
            let h = decoded_header(data)->Ok_0;
            law_bytes_of_value(data.subrange(4, 8));
            law_bytes_of_value(data.subrange(8, 12));
            law_bytes_of_value(data.subrange(12, 20));
            law_bytes_of_value(data.subrange(20, 28));
            lemma_spells(data, 4, 4, h.sequence_number as nat);
            lemma_spells(data, 8, 4, h.session_id as nat);
            lemma_spells(data, 12, 8, h.logical_clock as nat);
            lemma_spells(data, 20, 8, h.timestamp as nat);
        }
    }
}

/// On the wire a DATA message is its header and its payload, whole and unchanged; any other message
/// is its header alone, whatever payload it was given.
pub proof fn law_message_bytes(m: MessageView)
    ensures
        m.header.command == Command::Data && m.payload is Some ==> {
            &&& m.bytes().len() == 28 + m.payload->0.len()
            &&& m.bytes().take(28) == m.header.bytes()
            &&& m.bytes().skip(28) == m.payload->0
        },
        m.header.command != Command::Data || m.payload is None ==> m.bytes() == m.header.bytes(),
{
    law_header_bytes(m.header);
    if m.header.command == Command::Data && m.payload is Some {
        assert(m.bytes().take(28) =~= m.header.bytes());
        assert(m.bytes().skip(28) =~= m.payload->0);
    }
}

/// A decoded message has the decoded header. It has a payload if and only if its command byte is 1,
/// and that is all that follows the first 28 bytes. A datagram without a header gives the header's
/// error.
pub proof fn law_decoding_reads_payload(data: Seq<u8>)
    ensures
        match decoded_message(data) {
            Ok(m) => {
                &&& decoded_header(data) == Ok::<UapHeader, UapError>(m.header)
                &&& m.payload is Some <==> data[3] == 1
                &&& m.payload matches Some(p) ==> p == data.subrange(28, data.len() as int)
            },
            Err(e) => decoded_header(data) == Err::<UapHeader, UapError>(e),
        },
{
    law_decoding_reads_bytes(data);
    if data.len() >= 28 {
        assert(data.skip(28) =~= data.subrange(28, data.len() as int));
    }
}

/// A header that is made bears the magic value C461, version 1, and what it was made of.
pub proof fn law_made_header(
    command: Command,
    sequence_number: u32,
    session_id: u32,
    logical_clock: u64,
    timestamp: u64,
)
    ensures
        ({
            let h = UapHeader::of(command, sequence_number, session_id, logical_clock, timestamp);
            let m = MessageView::bare(
                command,
                sequence_number,
                session_id,
                logical_clock,
                timestamp,
            );
            &&& h.magic == 0xC461
            &&& h.version == 1
            &&& h.command == command
            &&& h.sequence_number == sequence_number
            &&& h.session_id == session_id
            &&& h.logical_clock == logical_clock
            &&& h.timestamp == timestamp
            &&& m.header == h
            &&& m.payload is None
        }),
{
}

/// The value of a message is its header and the bytes of its payload.
pub proof fn law_message_value(m: UapMessage)
    ensures
        m@.header == m.header,
        m@.payload is Some <==> m.payload is Some,
        m.payload matches Some(p) ==> m@.payload == Some(p@),
{
}

/// The words of each error, with what was found in them.
pub proof fn law_error_words(e: UapError)
    ensures
        match e {
            UapError::TruncatedHeader => e.words() == "truncated header: expected "@ + decimal(28)
                + " bytes"@,
            UapError::InvalidMagic(m) => e.words() == "invalid magic: 0x"@ + hex(
                m as nat,
                4,
                true,
            ),
            UapError::UnsupportedVersion(v) => e.words() == "unsupported version: "@ + decimal(
                v as nat,
            ),
            UapError::UnknownCommand(c) => e.words() == "unknown command: "@ + decimal(c as nat),
        },
{
}

} // verus!
