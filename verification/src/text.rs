//! Numbers as text, and what the programs make of a line of text.

use vstd::arithmetic::div_mod::lemma_div_denominator;
use vstd::arithmetic::power::{lemma_pow_positive, pow};
use vstd::prelude::*;
use vstd::string::StringExecFns;
use vstd::utf8::{decode_utf8, decode_utf8_encode_utf8, encode_utf8, valid_utf8};

verus! {

/// The character of a digit below 16: lower case past nine, or upper case if `upper`.
pub open spec fn digit(d: nat, upper: bool) -> char {
    if d < 10 {
        (0x30 + d) as char
    } else if upper {
        (0x41 + d - 10) as char
    } else {
        (0x61 + d - 10) as char
    }
}

/// `n` in decimal, without leading zeros.
pub open spec fn decimal(n: nat) -> Seq<char>
    decreases n,
{
    if n < 10 {
        seq![digit(n, false)]
    } else {
        decimal(n / 10).push(digit(n % 10, false))
    }
}

/// The last `width` hexadecimal digits of `n`.
pub open spec fn hex(n: nat, width: nat, upper: bool) -> Seq<char>
    decreases width,
{
    if width == 0 {
        Seq::empty()
    } else {
        hex(n / 16, (width - 1) as nat, upper).push(digit(n % 16, upper))
    }
}

/// The digit `d` as text.
fn digit_text(d: u64, upper: bool) -> (text: &'static str)
    requires
        d < 16,
    ensures
        text@ == seq![digit(d as nat, upper)],
{
    proof {
        reveal_strlit("0");
        reveal_strlit("1");
        reveal_strlit("2");
        reveal_strlit("3");
        reveal_strlit("4");
        reveal_strlit("5");
        reveal_strlit("6");
        reveal_strlit("7");
        reveal_strlit("8");
        reveal_strlit("9");
        reveal_strlit("a");
        reveal_strlit("b");
        reveal_strlit("c");
        reveal_strlit("d");
        reveal_strlit("e");
        reveal_strlit("f");
        reveal_strlit("A");
        reveal_strlit("B");
        reveal_strlit("C");
        reveal_strlit("D");
        reveal_strlit("E");
        reveal_strlit("F");
    }
    let text = match d {
        0 => "0",
        1 => "1",
        2 => "2",
        3 => "3",
        4 => "4",
        5 => "5",
        6 => "6",
        7 => "7",
        8 => "8",
        9 => "9",
        10 => if upper { "A" } else { "a" },
        11 => if upper { "B" } else { "b" },
        12 => if upper { "C" } else { "c" },
        13 => if upper { "D" } else { "d" },
        14 => if upper { "E" } else { "e" },
        _ => if upper { "F" } else { "f" },
    };
    assert(text@ =~= seq![digit(d as nat, upper)]);
    text
}

/// `n` in decimal, without leading zeros.
pub fn decimal_text(n: u64) -> (text: String)
    ensures
        text@ == decimal(n as nat),
    decreases n,
{
    let mut text = if n < 10 {
        String::new()
    } else {
        decimal_text(n / 10)
    };
    text.append(digit_text(n % 10, false));
    assert(text@ =~= decimal(n as nat));
    text
}

/// The last `width` hexadecimal digits of `n`.
pub fn hex_text(n: u64, width: u8, upper: bool) -> (text: String)
    ensures
        text@ == hex(n as nat, width as nat, upper),
    decreases width,
{
    if width == 0 {
        String::new()
    } else {
        let mut text = hex_text(n / 16, width - 1, upper);
        text.append(digit_text(n % 16, upper));
        assert(text@ =~= hex(n as nat, width as nat, upper));
        text
    }
}

/// Whether `c` has the Unicode property White_Space.
pub open spec fn white_space(c: char) -> bool {
    let code = c as u32;
    ||| 0x09 <= code <= 0x0D
    ||| code == 0x20
    ||| code == 0x85
    ||| code == 0xA0
    ||| code == 0x1680
    ||| 0x2000 <= code <= 0x200A
    ||| code == 0x2028
    ||| code == 0x2029
    ||| code == 0x202F
    ||| code == 0x205F
    ||| code == 0x3000
}

/// `s` without the white space that it starts with.
pub open spec fn trimmed_start(s: Seq<char>) -> Seq<char>
    decreases s.len(),
{
    if s.len() > 0 && white_space(s.first()) {
        trimmed_start(s.drop_first())
    } else {
        s
    }
}

/// `s` without the white space that it ends with.
pub open spec fn trimmed_end(s: Seq<char>) -> Seq<char>
    decreases s.len(),
{
    if s.len() > 0 && white_space(s.last()) {
        trimmed_end(s.drop_last())
    } else {
        s
    }
}

/// `s` without the white space that it starts and ends with.
pub open spec fn trimmed(s: Seq<char>) -> Seq<char> {
    trimmed_end(trimmed_start(s))
}

/// `str::trim` removes leading and trailing white space, as Unicode defines it, and nothing else.
pub assume_specification[ str::trim ](s: &str) -> (rest: &str)
    ensures
        rest@ == trimmed(s@),
;

/// `c`, or the lower case of `c` if it is an ASCII capital.
pub open spec fn ascii_lower(c: char) -> char {
    if 'A' <= c <= 'Z' {
        (c as u32 + 0x20) as char
    } else {
        c
    }
}

/// `s` with every ASCII capital in lower case.
pub open spec fn ascii_lowered(s: Seq<char>) -> Seq<char> {
    s.map_values(|c: char| ascii_lower(c))
}

/// `str::eq_ignore_ascii_case` tells whether two strings are the same once the ASCII capitals of
/// both are in lower case.
pub assume_specification[ str::eq_ignore_ascii_case ](s: &str, other: &str) -> (same: bool)
    ensures
        same == (ascii_lowered(s@) == ascii_lowered(other@)),
;

/// `String::from_utf8` turns bytes into the text that they encode; bytes that are not UTF-8 give
/// an error, which is dropped here.
#[verifier::external_body]
fn text_of_utf8(bytes: Vec<u8>) -> (text: Option<String>)
    ensures
        match text {
            Some(t) => valid_utf8(bytes@) && t@ == decode_utf8(bytes@),
            None => !valid_utf8(bytes@),
        },
{
    String::from_utf8(bytes).ok()
}

/// The payload of a DATA message as it is shown: its text if it is UTF-8, else its length.
pub open spec fn shown(payload: Seq<u8>) -> Seq<char> {
    if valid_utf8(payload) {
        decode_utf8(payload)
    } else {
        "<"@ + decimal(payload.len()) + " bytes>"@
    }
}

/// The payload of a DATA message as it is shown: its text if it is UTF-8, else its length.
pub fn shown_text(payload: &Vec<u8>) -> (text: String)
    ensures
        text@ == shown(payload@),
{
    match text_of_utf8(payload.clone()) {
        Some(text) => text,
        None => {
            let mut text = "<".to_owned();
            text.append(decimal_text(payload.len() as u64).as_str());
            text.append(" bytes>");
            text
        },
    }
}

/// `line` without surrounding white space.
pub fn trimmed_line(line: &str) -> (rest: String)
    ensures
        rest@ == trimmed(line@),
{
    line.trim().to_owned()
}

/// Whether a line asks the server to stop: the letter q, in either case.
pub open spec fn server_quit(line: Seq<char>) -> bool {
    ascii_lowered(trimmed(line)) == seq!['q']
}

/// Whether a line asks the server to stop: the letter q, in either case.
pub fn is_server_quit(line: &str) -> (quit: bool)
    ensures
        quit == server_quit(line@),
{
    proof {
        lemma_quit_words();
    }
    line.trim().eq_ignore_ascii_case("q")
}

/// Whether a trimmed line asks the client to stop: the letter q or the word eof, in any case.
pub open spec fn client_quit(line: Seq<char>) -> bool {
    ascii_lowered(line) == seq!['q'] || ascii_lowered(line) == seq!['e', 'o', 'f']
}

/// Whether a trimmed line asks the client to stop: the letter q or the word eof, in any case.
pub fn is_client_quit(line: &str) -> (quit: bool)
    ensures
        quit == client_quit(line@),
{
    proof {
        lemma_quit_words();
    }
    line.eq_ignore_ascii_case("q") || line.eq_ignore_ascii_case("eof")
}

/// The words that stop a program are in lower case already.
proof fn lemma_quit_words()
    ensures
        ascii_lowered("q"@) == seq!['q'],
        ascii_lowered("eof"@) == seq!['e', 'o', 'f'],
{
    reveal_strlit("q");
    reveal_strlit("eof");
    assert(ascii_lowered("q"@) =~= seq!['q']);
    assert(ascii_lowered("eof"@) =~= seq!['e', 'o', 'f']);
}

/// A number in decimal has as many digits as it needs, at least one; the character at each place is
/// the digit of that place, the first the most significant.
pub proof fn law_decimal_digits(n: nat)
    ensures
        ({
            let s = decimal(n);
            &&& s.len() >= 1
            &&& n < pow(10, s.len())
            &&& s.len() > 1 ==> n >= pow(10, (s.len() - 1) as nat)
            &&& forall|i: int|
                0 <= i < s.len() ==> #[trigger] s[i] as int == 0x30 + (n as int / pow(
                    10,
                    (s.len() - 1 - i) as nat,
                )) % 10
        }),
    decreases n,
{
    let s = decimal(n);
    reveal_with_fuel(pow, 2);
    if n >= 10 {
        let t = decimal(n / 10);
        law_decimal_digits(n / 10);
        let len = t.len();
        assert(pow(10, s.len()) == 10 * pow(10, len));
        assert(pow(10, len) == 10 * pow(10, (len - 1) as nat));
        assert(pow(10, 0) == 1);
        assert(n >= pow(10, len));
        assert forall|i: int| 0 <= i < s.len() implies #[trigger] s[i] as int == 0x30 + (n as int
            / pow(10, (s.len() - 1 - i) as nat)) % 10 by {
            if i < len {
                let weight = pow(10, (len - 1 - i) as nat);
                lemma_pow_positive(10, (len - 1 - i) as nat);
                assert(t[i] as int == 0x30 + ((n / 10) as int / weight) % 10);
                assert(pow(10, (s.len() - 1 - i) as nat) == 10 * weight);
                lemma_div_denominator(n as int, 10, weight);
            }
        }
    }
}

/// A number in hexadecimal of a given width has that many characters; the character at each place is
/// the digit of that place, the first the most significant, and digits past nine are the letters
/// from a or from A.
pub proof fn law_hex_digits(n: nat, width: nat, upper: bool, i: int)
    requires
        0 <= i < width,
    ensures
        hex(n, width, upper).len() == width,
        ({
            let d = (n as int / pow(16, (width - 1 - i) as nat)) % 16;
            hex(n, width, upper)[i] as int == if d < 10 {
                0x30 + d
            } else if upper {
                0x41 + d - 10
            } else {
                0x61 + d - 10
            }
        }),
    decreases width,
{
    let shorter = (width - 1) as nat;
    reveal_with_fuel(pow, 2);
    reveal_with_fuel(hex, 2);
    if i == width - 1 {
        if width > 1 {
            law_hex_digits(n / 16, shorter, upper, 0);
        }
        assert(pow(16, 0) == 1);
        assert(hex(n, width, upper)[i] == digit(n % 16, upper));
    } else {
        law_hex_digits(n / 16, shorter, upper, i);
        let weight = pow(16, (shorter - 1 - i) as nat);
        lemma_pow_positive(16, (shorter - 1 - i) as nat);
        assert(pow(16, (width - 1 - i) as nat) == 16 * weight);
        lemma_div_denominator(n as int, 16, weight);
        assert(hex(n, width, upper)[i] == hex(n / 16, shorter, upper)[i]);
    }
}

/// White space is the tab, the line ends, the blank and the other characters to which Unicode gives
/// the property, 25 in all.
pub proof fn law_white_space(c: char)
    ensures
        white_space(c) <==> seq![
            0x09int, 0x0A, 0x0B, 0x0C, 0x0D, 0x20, 0x85, 0xA0, 0x1680, 0x2000, 0x2001, 0x2002,
            0x2003, 0x2004, 0x2005, 0x2006, 0x2007, 0x2008, 0x2009, 0x200A, 0x2028, 0x2029, 0x202F,
            0x205F, 0x3000,
        ].contains(c as int),
{
    let codes = seq![
        0x09int, 0x0A, 0x0B, 0x0C, 0x0D, 0x20, 0x85, 0xA0, 0x1680, 0x2000, 0x2001, 0x2002,
        0x2003, 0x2004, 0x2005, 0x2006, 0x2007, 0x2008, 0x2009, 0x200A, 0x2028, 0x2029, 0x202F,
        0x205F, 0x3000,
    ];
    let code = c as int;
    if white_space(c) {
        if 0x09 <= code <= 0x0D {
            assert(codes[code - 0x09] == code);
        } else if 0x2000 <= code <= 0x200A {
            assert(codes[code - 0x2000 + 9] == code);
        } else {
            assert(codes[5] == 0x20 && codes[6] == 0x85 && codes[7] == 0xA0 && codes[8] == 0x1680
                && codes[20] == 0x2028 && codes[21] == 0x2029 && codes[22] == 0x202F && codes[23]
                == 0x205F && codes[24] == 0x3000);
        }
    }
}

/// Trimming cuts a text out of a line: what is cut off at either end is white space, and what is
/// left neither starts nor ends with any.
pub proof fn law_trimming(s: Seq<char>)
    ensures
        exists|i: int, j: int| #[trigger] cut_to(s, i, j) && trimmed(s) == s.subrange(i, j),
{
    let i = lemma_trimmed_start(s);
    let rest = s.subrange(i, s.len() as int);
    let j = lemma_trimmed_end(rest);
    assert(trimmed(s) =~= s.subrange(i, i + j));
    assert forall|k: int| 0 <= k < i || i + j <= k < s.len() implies white_space(
        #[trigger] s[k],
    ) by {
        if i + j <= k {
            assert(rest[k - i] == s[k]);
        }
    }
    if j > 0 {
        assert(rest[0] == s[i] && rest[j - 1] == s[i + j - 1]);
    }
    assert(cut_to(s, i, i + j));
}

/// Whether white space alone lies outside the places from `i` to `j`, and none at their ends.
pub open spec fn cut_to(s: Seq<char>, i: int, j: int) -> bool {
    &&& 0 <= i <= j <= s.len()
    &&& forall|k: int|
        0 <= k < i || j <= k < s.len() ==> white_space(#[trigger] s[k])
    &&& i < j ==> !white_space(s[i]) && !white_space(s[j - 1])
}

proof fn lemma_trimmed_start(s: Seq<char>) -> (i: int)
    ensures
        0 <= i <= s.len(),
        trimmed_start(s) == s.subrange(i, s.len() as int),
        forall|k: int| 0 <= k < i ==> white_space(#[trigger] s[k]),
        i < s.len() ==> !white_space(s[i]),
    decreases s.len(),
{
    if s.len() > 0 && white_space(s.first()) {
        let rest = s.drop_first();
        let i = lemma_trimmed_start(rest);
        assert(trimmed_start(s) =~= s.subrange(i + 1, s.len() as int));
        assert forall|k: int| 0 <= k < i + 1 implies white_space(#[trigger] s[k]) by {
            if k > 0 {
                assert(rest[k - 1] == s[k]);
            }
        }
        if i + 1 < s.len() {
            assert(rest[i] == s[i + 1]);
        }
        i + 1
    } else {
        assert(s =~= s.subrange(0, s.len() as int));
        0
    }
}

proof fn lemma_trimmed_end(s: Seq<char>) -> (j: int)
    ensures
        0 <= j <= s.len(),
        trimmed_end(s) == s.subrange(0, j),
        forall|k: int| j <= k < s.len() ==> white_space(#[trigger] s[k]),
        0 < j ==> !white_space(s[j - 1]),
    decreases s.len(),
{
    if s.len() > 0 && white_space(s.last()) {
        let rest = s.drop_last();
        let j = lemma_trimmed_end(rest);
        assert(trimmed_end(s) =~= s.subrange(0, j));
        assert forall|k: int| j <= k < s.len() implies white_space(#[trigger] s[k]) by {
            if k < s.len() - 1 {
                assert(rest[k] == s[k]);
            }
        }
        j
    } else {
        assert(s =~= s.subrange(0, s.len() as int));
        s.len() as int
    }
}

/// Only the 26 ASCII capitals change in lower case, each to the letter 32 codes above, and a text
/// changes character by character.
pub proof fn law_lowering(c: char, s: Seq<char>)
    ensures
        ascii_lower(c) as int == if 0x41 <= c as int <= 0x5A {
            c as int + 32
        } else {
            c as int
        },
        ascii_lowered(s).len() == s.len(),
        forall|i: int|
            0 <= i < s.len() ==> #[trigger] ascii_lowered(s)[i] == ascii_lower(s[i]),
{
}

/// The client stops at a line that is q or Q alone, or e, o, f in any mixture of cases, and at no
/// other.
pub proof fn law_client_quit(line: Seq<char>)
    ensures
        client_quit(line) <==> {
            ||| line.len() == 1 && (line[0] == 'q' || line[0] == 'Q')
            ||| line.len() == 3 && (line[0] == 'e' || line[0] == 'E') && (line[1] == 'o' || line[1]
                == 'O') && (line[2] == 'f' || line[2] == 'F')
        },
{
    lemma_lower_letters(line);
    let low = ascii_lowered(line);
    if line.len() == 1 && low[0] == 'q' {
        assert(low =~= seq!['q']);
    }
    if line.len() == 3 && low[0] == 'e' && low[1] == 'o' && low[2] == 'f' {
        assert(low =~= seq!['e', 'o', 'f']);
    }
    if low == seq!['q'] {
        assert(low[0] == 'q');
    }
    if low == seq!['e', 'o', 'f'] {
        assert(low[0] == 'e' && low[1] == 'o' && low[2] == 'f');
    }
}

/// Which characters become the letters of the words that stop a program.
proof fn lemma_lower_letters(s: Seq<char>)
    ensures
        ascii_lowered(s).len() == s.len(),
        forall|i: int|
            #![trigger ascii_lowered(s)[i]]
            #![trigger s[i]]
            0 <= i < s.len() ==> {
                &&& ascii_lowered(s)[i] == 'q' <==> s[i] == 'q' || s[i] == 'Q'
                &&& ascii_lowered(s)[i] == 'e' <==> s[i] == 'e' || s[i] == 'E'
                &&& ascii_lowered(s)[i] == 'o' <==> s[i] == 'o' || s[i] == 'O'
                &&& ascii_lowered(s)[i] == 'f' <==> s[i] == 'f' || s[i] == 'F'
            },
{
}

/// The server stops at a line that holds one q or Q and, around it, nothing but white space, and at
/// no other.
pub proof fn law_server_quit(line: Seq<char>)
    ensures
        server_quit(line) <==> exists|i: int|
            #![trigger line[i]]
            {
                &&& 0 <= i < line.len()
                &&& line[i] == 'q' || line[i] == 'Q'
                &&& forall|k: int|
                    0 <= k < line.len() && k != i ==> white_space(#[trigger] line[k])
            },
{
    law_trimming(line);
    let (i, j) = choose|i: int, j: int| #[trigger] cut_to(line, i, j) && trimmed(line)
        == line.subrange(i, j);
    let word = trimmed(line);
    lemma_lower_letters(word);
    let low = ascii_lowered(word);
    if server_quit(line) {
        assert(low[0] == 'q');
        assert(word.len() == 1 && word[0] == line[i]);
    }
    if exists|m: int|
        #![trigger line[m]]
        {
            &&& 0 <= m < line.len()
            &&& line[m] == 'q' || line[m] == 'Q'
            &&& forall|k: int| 0 <= k < line.len() && k != m ==> white_space(#[trigger] line[k])
        } {
        let m = choose|m: int|
            #![trigger line[m]]
            {
                &&& 0 <= m < line.len()
                &&& line[m] == 'q' || line[m] == 'Q'
                &&& forall|k: int|
                    0 <= k < line.len() && k != m ==> white_space(#[trigger] line[k])
            };
        assert(!white_space(line[m]));
        assert(i <= m < j);
        assert(i == m && j == m + 1);
        assert(word.len() == 1 && word[0] == line[m]);
        assert(low =~= seq!['q']);
    }
}

/// A payload that is UTF-8 is shown as the text that it encodes, all of it; any other by the number
/// of its bytes.
pub proof fn law_shown_payload(payload: Seq<u8>)
    ensures
        valid_utf8(payload) ==> encode_utf8(shown(payload)) == payload,
        !valid_utf8(payload) ==> shown(payload) == seq!['<'] + decimal(payload.len()) + seq![
            ' ',
            'b',
            'y',
            't',
            'e',
            's',
            '>',
        ],
{
    if valid_utf8(payload) {
        decode_utf8_encode_utf8(payload);
    } else {
        reveal_strlit("<");
        reveal_strlit(" bytes>");
        assert("<"@ =~= seq!['<']);
        assert(" bytes>"@ =~= seq![' ', 'b', 'y', 't', 'e', 's', '>']);
    }
}

/// Two numbers with the same last `width` hexadecimal digits are the same modulo `16^width`.
pub proof fn law_hex_is_distinct(a: nat, b: nat, width: nat, upper: bool)
    requires
        hex(a, width, upper) == hex(b, width, upper),
    ensures
        a < pow(16, width) && b < pow(16, width) ==> a == b,
        pow(16, 8) == 0x1_0000_0000,
    decreases width,
{
    reveal_with_fuel(pow, 9);
    if width > 0 {
        let shorter = (width - 1) as nat;
        let (ha, hb) = (hex(a, width, upper), hex(b, width, upper));
        assert(ha.drop_last() =~= hex(a / 16, shorter, upper));
        assert(hb.drop_last() =~= hex(b / 16, shorter, upper));
        assert(ha.last() == digit(a % 16, upper) && hb.last() == digit(b % 16, upper));
        law_hex_is_distinct(a / 16, b / 16, shorter, upper);
        assert(pow(16, width) == 16 * pow(16, shorter));
        lemma_digit_is_distinct(a % 16, b % 16, upper);
    }
}

proof fn lemma_digit_is_distinct(a: nat, b: nat, upper: bool)
    requires
        a < 16,
        b < 16,
        digit(a, upper) == digit(b, upper),
    ensures
        a == b,
{
    assert(digit(a, upper) as int == digit(b, upper) as int);
}

} // verus!
