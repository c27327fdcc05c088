//! The lines that the server prints.

use crate::text::{
    decimal, decimal_text, hex, hex_text, law_hex_digits, law_hex_is_distinct, shown, shown_text,
};
use vstd::prelude::*;
use vstd::string::StringExecFns;

verus! {

/// A session as lines begin with it: its identifier in eight hexadecimal digits.
pub open spec fn session_tag(session_id: u32) -> Seq<char> {
    "0x"@ + hex(session_id as nat, 8, false)
}

/// The session and a sequence number, as lines on a message begin with them.
pub open spec fn message_tag(session_id: u32, number: u32) -> Seq<char> {
    session_tag(session_id) + " ["@ + decimal(number as nat) + "] "@
}

/// The line on a session that was closed.
pub open spec fn closed_line(session_id: u32) -> Seq<char> {
    session_tag(session_id) + " Session closed"@
}

/// The line on a message that never came.
pub open spec fn lost_line(session_id: u32, number: u32) -> Seq<char> {
    message_tag(session_id, number) + "Lost packet!"@
}

/// The line on a session that was opened.
pub open spec fn created_line(session_id: u32, number: u32) -> Seq<char> {
    message_tag(session_id, number) + "Session created"@
}

/// The line on data that was received.
pub open spec fn data_line(session_id: u32, number: u32, payload: Seq<u8>) -> Seq<char> {
    message_tag(session_id, number) + shown(payload)
}

/// The line on a client that took its leave.
pub open spec fn goodbye_line(session_id: u32, number: u32) -> Seq<char> {
    message_tag(session_id, number) + "GOODBYE from client."@
}

/// The warning on a sequence number below the last.
pub open spec fn backwards_warning(session_id: u32, number: u32, last: u32) -> Seq<char> {
    "session "@ + decimal(session_id as nat) + ": sequence went backwards (got "@ + decimal(
        number as nat,
    ) + ", last "@ + decimal(last as nat) + ") -> closing"@
}

/// The warning on a sequence number that came twice.
pub open spec fn duplicate_warning(session_id: u32, number: u32) -> Seq<char> {
    "session "@ + decimal(session_id as nat) + ": duplicate packet #"@ + decimal(number as nat)
        + " -> discard"@
}

/// The warning on a HELLO within a session.
pub open spec fn hello_warning(session_id: u32) -> Seq<char> {
    "session "@ + decimal(session_id as nat) + ": unexpected HELLO -> closing"@
}

/// A session as lines begin with it.
fn session_tag_text(session_id: u32) -> (text: String)
    ensures
        text@ == session_tag(session_id),
{
    "0x".to_owned().concat(hex_text(session_id as u64, 8, false).as_str())
}

/// The session and a sequence number, as lines on a message begin with them.
fn message_tag_text(session_id: u32, number: u32) -> (text: String)
    ensures
        text@ == message_tag(session_id, number),
{
    session_tag_text(session_id).concat(" [").concat(
        decimal_text(number as u64).as_str(),
    ).concat("] ")
}

/// The line on a session that was closed.
pub fn closed_text(session_id: u32) -> (line: String)
    ensures
        line@ == closed_line(session_id),
{
    session_tag_text(session_id).concat(" Session closed")
}

/// The line on a message that never came.
pub fn lost_text(session_id: u32, number: u32) -> (line: String)
    ensures
        line@ == lost_line(session_id, number),
{
    message_tag_text(session_id, number).concat("Lost packet!")
}

/// The line on a session that was opened.
pub fn created_text(session_id: u32, number: u32) -> (line: String)
    ensures
        line@ == created_line(session_id, number),
{
    message_tag_text(session_id, number).concat("Session created")
}

/// The line on data that was received.
pub fn data_text(session_id: u32, number: u32, payload: &Vec<u8>) -> (line: String)
    ensures
        line@ == data_line(session_id, number, payload@),
{
    message_tag_text(session_id, number).concat(shown_text(payload).as_str())
}

/// The line on a client that took its leave.
pub fn goodbye_text(session_id: u32, number: u32) -> (line: String)
    ensures
        line@ == goodbye_line(session_id, number),
{
    message_tag_text(session_id, number).concat("GOODBYE from client.")
}

/// The warning on a sequence number below the last.
pub fn backwards_text(session_id: u32, number: u32, last: u32) -> (line: String)
    ensures
        line@ == backwards_warning(session_id, number, last),
{
    "session ".to_owned().concat(decimal_text(session_id as u64).as_str()).concat(
        ": sequence went backwards (got ",
    ).concat(decimal_text(number as u64).as_str()).concat(", last ").concat(
        decimal_text(last as u64).as_str(),
    ).concat(") -> closing")
}

/// The warning on a sequence number that came twice.
pub fn duplicate_text(session_id: u32, number: u32) -> (line: String)
    ensures
        line@ == duplicate_warning(session_id, number),
{
    "session ".to_owned().concat(decimal_text(session_id as u64).as_str()).concat(
        ": duplicate packet #",
    ).concat(decimal_text(number as u64).as_str()).concat(" -> discard")
}

/// The warning on a HELLO within a session.
pub fn hello_text(session_id: u32) -> (line: String)
    ensures
        line@ == hello_warning(session_id),
{
    "session ".to_owned().concat(decimal_text(session_id as u64).as_str()).concat(
        ": unexpected HELLO -> closing",
    )
}

/// The lines on sessions and messages: the session in eight hexadecimal digits behind 0x, for a
/// message its number in brackets, then the words.
pub proof fn law_lines(session_id: u32, number: u32, payload: Seq<u8>)
    ensures
        ({
            let session = "0x"@ + hex(session_id as nat, 8, false);
            let message = session + " ["@ + decimal(number as nat) + "] "@;
            &&& session_tag(session_id) == session
            &&& message_tag(session_id, number) == message
            &&& closed_line(session_id) == session + " Session closed"@
            &&& lost_line(session_id, number) == message + "Lost packet!"@
            &&& created_line(session_id, number) == message + "Session created"@
            &&& data_line(session_id, number, payload) == message + shown(payload)
            &&& goodbye_line(session_id, number) == message + "GOODBYE from client."@
        }),
{
}

/// The warnings: the session and the numbers in decimal, and the words.
pub proof fn law_warnings(session_id: u32, number: u32, last: u32)
    ensures
        ({
            let session = "session "@ + decimal(session_id as nat);
            let found = decimal(number as nat);
            &&& backwards_warning(session_id, number, last) == session
                + ": sequence went backwards (got "@ + found + ", last "@ + decimal(last as nat)
                + ") -> closing"@
            &&& duplicate_warning(session_id, number) == session + ": duplicate packet #"@ + found
                + " -> discard"@
            &&& hello_warning(session_id) == session + ": unexpected HELLO -> closing"@
        }),
{
}

/// Two sessions never share a tag: every line tells the session that it is about.
pub proof fn law_tags_are_distinct(a: u32, b: u32)
    requires
        session_tag(a) == session_tag(b),
    ensures
        a == b,
{
    let digits_a = hex(a as nat, 8, false);
    let digits_b = hex(b as nat, 8, false);
    law_hex_digits(a as nat, 8, false, 0);
    law_hex_digits(b as nat, 8, false, 0);
    assert(session_tag(a).skip("0x"@.len() as int) =~= digits_a);
    assert(session_tag(b).skip("0x"@.len() as int) =~= digits_b);
    law_hex_is_distinct(a as nat, b as nat, 8, false);
}

} // verus!
