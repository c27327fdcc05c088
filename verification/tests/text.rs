use uap::report::{
    backwards_text, closed_text, created_text, data_text, duplicate_text, goodbye_text, hello_text,
    lost_text,
};
use uap::text::{
    decimal_text, hex_text, is_client_quit, is_server_quit, shown_text, trimmed_line,
};
use uap::wire::{read_be, u16_bytes, u32_bytes, u64_bytes};

#[test]
fn decimal_numbers() {
    for n in [0u64, 1, 9, 10, 99, 100, 65535, 4294967295, u64::MAX] {
        assert_eq!(decimal_text(n), format!("{n}"));
    }
}

#[test]
fn hexadecimal_numbers() {
    for n in [0u32, 1, 15, 16, 0xABCDEF, 0xDEADBEEF, u32::MAX] {
        assert_eq!(hex_text(n as u64, 8, false), format!("{n:08x}"));
    }
    for n in [0u16, 10, 0xABCD, u16::MAX] {
        assert_eq!(hex_text(n as u64, 4, true), format!("{n:04X}"));
    }
    assert_eq!(hex_text(0x12345, 2, false), "45");
    assert_eq!(hex_text(0x12345, 0, false), "");
}

#[test]
fn big_endian_numbers() {
    assert_eq!(u16_bytes(0xC461), 0xC461u16.to_be_bytes());
    assert_eq!(u32_bytes(0xDEAD_BEEF), 0xDEAD_BEEFu32.to_be_bytes());
    assert_eq!(u64_bytes(0x0123_4567_89AB_CDEF), 0x0123_4567_89AB_CDEFu64.to_be_bytes());
    assert_eq!(u64_bytes(u64::MAX), [255u8; 8]);
    let data = [9u8, 1, 2, 3, 4, 5, 6, 7, 8];
    assert_eq!(read_be(&data, 1, 8), 0x0102_0304_0506_0708);
    assert_eq!(read_be(&data, 0, 2), 0x0901);
    assert_eq!(read_be(&data, 9, 0), 0);
}

#[test]
fn payload_is_shown() {
    assert_eq!(shown_text(&b"hello".to_vec()), "hello");
    assert_eq!(shown_text(&"gr\u{fc}n \u{1F600}".as_bytes().to_vec()), "gr\u{fc}n \u{1F600}");
    assert_eq!(shown_text(&Vec::new()), "");
    assert_eq!(shown_text(&vec![0xFF, 0xFE, 0x41]), "<3 bytes>");
}

#[test]
fn lines_are_trimmed() {
    assert_eq!(trimmed_line("  hello world \t\r\n"), "hello world");
    assert_eq!(trimmed_line("\u{3000}\u{A0}x\u{2003}"), "x");
    assert_eq!(trimmed_line(" \n "), "");
    assert_eq!(trimmed_line("a b"), "a b");
    // a zero-width space is no white space
    assert_eq!(trimmed_line("\u{200B}a"), "\u{200B}a");
}

#[test]
fn white_space_is_that_of_unicode() {
    let spaces: Vec<u32> = (0u32..0x11_0000)
        .filter(|&c| char::from_u32(c).is_some_and(char::is_whitespace))
        .collect();
    let expected: Vec<u32> = (0x09..=0x0D)
        .chain([0x20, 0x85, 0xA0, 0x1680])
        .chain(0x2000..=0x200A)
        .chain([0x2028, 0x2029, 0x202F, 0x205F, 0x3000])
        .collect();
    assert_eq!(spaces, expected);
}

#[test]
fn words_that_stop() {
    for line in ["q", "Q", "eof", "EOF", "eOf"] {
        assert!(is_client_quit(line));
    }
    for line in ["", "quit", "qq", "eo", "q ", "\u{FF51}"] {
        assert!(!is_client_quit(line));
    }
    assert!(is_server_quit(" Q\n"));
    assert!(is_server_quit("q"));
    assert!(!is_server_quit("eof"));
    assert!(!is_server_quit(""));
}

#[test]
fn server_lines() {
    assert_eq!(closed_text(0xAB), "0x000000ab Session closed");
    assert_eq!(lost_text(0xDEADBEEF, 12), "0xdeadbeef [12] Lost packet!");
    assert_eq!(created_text(1, 0), "0x00000001 [0] Session created");
    assert_eq!(data_text(1, 7, &b"hi".to_vec()), "0x00000001 [7] hi");
    assert_eq!(data_text(1, 7, &vec![0xC0]), "0x00000001 [7] <1 bytes>");
    assert_eq!(goodbye_text(1, 9), "0x00000001 [9] GOODBYE from client.");
    assert_eq!(
        backwards_text(10, 3, 5),
        "session 10: sequence went backwards (got 3, last 5) -> closing"
    );
    assert_eq!(duplicate_text(10, 5), "session 10: duplicate packet #5 -> discard");
    assert_eq!(hello_text(10), "session 10: unexpected HELLO -> closing");
}
