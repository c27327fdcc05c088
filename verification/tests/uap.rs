use uap::uap::{Command, UapError, UapHeader, UapMessage, HEADER_LEN, VERSION};

#[test]
fn header_roundtrip() {
    let hdr = UapHeader::new(Command::Data, 42, 0xDEAD_BEEF, 123, 456);
    let bytes = hdr.encode();
    assert_eq!(bytes.len(), HEADER_LEN);
    let parsed = UapHeader::decode(&bytes).unwrap();
    assert_eq!(hdr, parsed);
}

#[test]
fn message_roundtrip_with_payload() {
    let payload = b"hello world".to_vec();
    let msg = UapMessage::data(1, 2, 3, 4, payload.clone());
    let bytes = msg.encode();
    let parsed = UapMessage::decode(&bytes).unwrap();
    assert_eq!(parsed.header.command, Command::Data);
    assert_eq!(parsed.payload.unwrap(), payload);
}

#[test]
fn invalid_magic() {
    let mut bytes = [0u8; HEADER_LEN];
    // wrong magic
    bytes[0..2].copy_from_slice(&0xABCDu16.to_be_bytes());
    bytes[2] = VERSION;
    bytes[3] = Command::Hello as u8;
    assert!(matches!(UapHeader::decode(&bytes), Err(UapError::InvalidMagic(0xABCD))));
}

#[test]
fn header_on_the_wire() {
    let hdr = UapHeader::new(
        Command::Goodbye,
        0x0102_0304,
        0x0506_0708,
        0x1112_1314_1516_1718,
        0x2122_2324_2526_2728,
    );
    assert_eq!(
        hdr.encode(),
        [
            0xC4, 0x61, 1, 3, 1, 2, 3, 4, 5, 6, 7, 8, 0x11, 0x12, 0x13, 0x14, 0x15, 0x16, 0x17,
            0x18, 0x21, 0x22, 0x23, 0x24, 0x25, 0x26, 0x27, 0x28
        ]
    );
}

#[test]
fn commands_and_their_bytes() {
    for (v, c) in
        [(0, Command::Hello), (1, Command::Data), (2, Command::Alive), (3, Command::Goodbye)]
    {
        assert_eq!(Command::from_u8(v), Ok(c));
        assert_eq!(c.to_u8(), v);
        assert_eq!(c as u8, v);
    }
    assert_eq!(Command::from_u8(4), Err(UapError::UnknownCommand(4)));
    assert_eq!(Command::from_u8(255), Err(UapError::UnknownCommand(255)));
}

#[test]
fn refused_headers() {
    let good = UapHeader::new(Command::Hello, 0, 0, 0, 0).encode();
    assert_eq!(UapHeader::decode(&[]), Err(UapError::TruncatedHeader));
    assert_eq!(UapHeader::decode(&good[..27]), Err(UapError::TruncatedHeader));
    let mut version = good;
    version[2] = 2;
    version[3] = 9;
    assert_eq!(UapHeader::decode(&version), Err(UapError::UnsupportedVersion(2)));
    let mut command = good;
    command[3] = 9;
    assert_eq!(UapHeader::decode(&command), Err(UapError::UnknownCommand(9)));
    assert_eq!(UapMessage::decode(&command), Err(UapError::UnknownCommand(9)));
    let foreign = UapHeader { magic: 0x1234, ..UapHeader::new(Command::Hello, 1, 2, 3, 4) };
    assert_eq!(UapHeader::decode(&foreign.encode()), Err(UapError::InvalidMagic(0x1234)));
}

#[test]
fn messages_without_payload() {
    for msg in [
        UapMessage::hello(1, 2, 3, 4),
        UapMessage::alive(1, 2, 3, 4),
        UapMessage::goodbye(u32::MAX, 0xDEAD_BEEF, u64::MAX, u64::MAX),
    ] {
        let mut bytes = msg.encode();
        assert_eq!(bytes.len(), HEADER_LEN);
        assert_eq!(UapMessage::decode(&bytes), Ok(msg.clone()));
        // what follows the header is ignored
        bytes.extend_from_slice(b"trailing");
        assert_eq!(UapMessage::decode(&bytes), Ok(msg));
    }
}

#[test]
fn payload_belongs_to_data_only() {
    let empty = UapMessage::data(1, 2, 3, 4, Vec::new());
    assert_eq!(empty.encode().len(), HEADER_LEN);
    assert_eq!(UapMessage::decode(&empty.encode()), Ok(empty));
    let mut odd = UapMessage::alive(1, 2, 3, 4);
    odd.payload = Some(vec![1, 2, 3]);
    assert_eq!(odd.encode(), UapMessage::alive(1, 2, 3, 4).encode());
}

#[test]
fn decoded_messages_encode_back() {
    let mut bytes = UapMessage::data(5, 6, 7, 8, vec![0, 255, 1]).encode();
    bytes.push(77);
    assert_eq!(UapMessage::decode(&bytes).unwrap().encode(), bytes);
}

#[test]
fn errors_in_words() {
    assert_eq!(UapError::TruncatedHeader.to_string(), "truncated header: expected 28 bytes");
    assert_eq!(UapError::InvalidMagic(0xABCD).to_string(), "invalid magic: 0xABCD");
    assert_eq!(UapError::InvalidMagic(0xF).to_string(), "invalid magic: 0x000F");
    assert_eq!(UapError::UnsupportedVersion(200).to_string(), "unsupported version: 200");
    assert_eq!(UapError::UnknownCommand(7).to_string(), "unknown command: 7");
}
