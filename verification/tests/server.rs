use uap::server::{Action, Phase, Server, SessionState, Verdict, SESSION_TIMEOUT};
use uap::uap::{Command, UapMessage};

const SID: u32 = 0xAB;

/// An action in words.
fn words(action: &Action<u8>) -> String {
    match action {
        Action::Send { to, message, .. } => {
            assert_eq!(message.payload, None);
            let h = message.header;
            format!(
                "send {to} {:?} #{} session {} clock {} at {}",
                h.command, h.sequence_number, h.session_id, h.logical_clock, h.timestamp
            )
        }
        Action::Print { line } => format!("print {line}"),
        Action::Warn { line } => format!("warn {line}"),
        Action::ReportLost { session_id, first, end } => {
            format!("lost {session_id} {first}..{end}")
        }
        Action::ResetTimer { session_id, seconds } => format!("reset {session_id} {seconds}"),
        Action::CancelTimer { session_id } => format!("cancel {session_id}"),
    }
}

fn all(actions: Vec<Action<u8>>) -> Vec<String> {
    actions.iter().map(words).collect()
}

/// What the server does about a message from address 1 at time 100.
fn tell(server: &mut Server<u8>, message: UapMessage) -> Vec<String> {
    all(server.on_datagram(1, &message.encode(), 100))
}

#[test]
fn session_from_hello_to_goodbye() {
    let mut server: Server<u8> = Server::new();
    assert_eq!(
        tell(&mut server, UapMessage::hello(0, SID, 5, 0)),
        [
            "send 1 Hello #0 session 171 clock 7 at 100",
            "print 0x000000ab [0] Session created",
            "reset 171 10",
        ]
    );
    assert_eq!(
        tell(&mut server, UapMessage::data(1, SID, 6, 0, b"hi there".to_vec())),
        [
            "print 0x000000ab [1] hi there",
            "send 1 Alive #1 session 171 clock 9 at 100",
            "reset 171 10",
        ]
    );
    assert_eq!(tell(&mut server, UapMessage::alive(2, SID, 50, 0)), ["reset 171 10"]);
    assert_eq!(
        tell(&mut server, UapMessage::goodbye(3, SID, 51, 0)),
        [
            "print 0x000000ab [3] GOODBYE from client.",
            "send 1 Goodbye #2 session 171 clock 53 at 100",
            "cancel 171",
            "print 0x000000ab Session closed",
        ]
    );
    assert_eq!(SESSION_TIMEOUT, 10);
}

#[test]
fn datagrams_that_are_no_messages_are_discarded() {
    let mut server: Server<u8> = Server::new();
    assert!(server.on_datagram(1, b"", 100).is_empty());
    assert!(server.on_datagram(1, &[0u8; 28], 100).is_empty());
    // neither clock nor sequence has moved
    assert_eq!(
        tell(&mut server, UapMessage::hello(0, SID, 0, 0))[0],
        "send 1 Hello #0 session 171 clock 2 at 100"
    );
}

#[test]
fn duplicates_are_discarded() {
    let mut server: Server<u8> = Server::new();
    tell(&mut server, UapMessage::hello(4, SID, 0, 0));
    assert_eq!(
        tell(&mut server, UapMessage::goodbye(4, SID, 0, 0)),
        ["warn session 171: duplicate packet #4 -> discard"]
    );
    // the session goes on, at the address of the duplicate
    let again = UapMessage::hello(4, SID, 0, 0);
    assert_eq!(all(server.on_datagram(9, &again.encode(), 100)).len(), 1);
    assert_eq!(server.on_quit(), [(SID, 9)]);
}

#[test]
fn going_backwards_closes() {
    let mut server: Server<u8> = Server::new();
    tell(&mut server, UapMessage::hello(5, SID, 0, 0));
    assert_eq!(
        tell(&mut server, UapMessage::alive(3, SID, 0, 0)),
        [
            "warn session 171: sequence went backwards (got 3, last 5) -> closing",
            "send 1 Goodbye #1 session 171 clock 4 at 100",
            "print 0x000000ab Session closed",
        ]
    );
    assert!(server.on_quit().is_empty());
}

#[test]
fn missing_numbers_are_reported() {
    let mut server: Server<u8> = Server::new();
    tell(&mut server, UapMessage::hello(5, SID, 0, 0));
    assert_eq!(
        tell(&mut server, UapMessage::alive(9, SID, 0, 0)),
        ["lost 171 6..9", "reset 171 10"]
    );
    assert_eq!(tell(&mut server, UapMessage::alive(10, SID, 0, 0)), ["reset 171 10"]);
    assert_eq!(
        tell(&mut server, UapMessage::alive(u32::MAX, SID, 0, 0)),
        ["lost 171 11..4294967295", "reset 171 10"]
    );
    assert_eq!(
        tell(&mut server, UapMessage::alive(u32::MAX, SID, 0, 0)),
        ["warn session 171: duplicate packet #4294967295 -> discard"]
    );
}

#[test]
fn second_hello_closes() {
    let mut server: Server<u8> = Server::new();
    tell(&mut server, UapMessage::hello(0, SID, 0, 0));
    assert_eq!(
        tell(&mut server, UapMessage::hello(3, SID, 0, 0)),
        [
            "lost 171 1..3",
            "warn session 171: unexpected HELLO -> closing",
            "send 1 Goodbye #1 session 171 clock 4 at 100",
            "print 0x000000ab Session closed",
        ]
    );
    // ended for good, though data is still acknowledged
    assert_eq!(
        tell(&mut server, UapMessage::data(4, SID, 0, 0, vec![0xFF])),
        [
            "print 0x000000ab [4] <1 bytes>",
            "send 1 Alive #2 session 171 clock 6 at 100",
            "reset 171 10",
        ]
    );
    assert!(server.on_quit().is_empty());
}

#[test]
fn first_message_need_not_be_hello() {
    let mut server: Server<u8> = Server::new();
    assert_eq!(tell(&mut server, UapMessage::data(7, SID, 0, 0, b"x".to_vec())).len(), 3);
    assert_eq!(
        tell(&mut server, UapMessage::hello(8, SID, 0, 0))[1],
        "print 0x000000ab [8] Session created"
    );
}

#[test]
fn timeout_closes_once() {
    let mut server: Server<u8> = Server::new();
    assert!(server.on_timeout(SID, 7).is_empty());
    tell(&mut server, UapMessage::hello(0, SID, 0, 0));
    assert_eq!(
        all(server.on_timeout(SID, 7)),
        ["send 1 Goodbye #1 session 171 clock 3 at 7", "print 0x000000ab Session closed"]
    );
    assert!(server.on_timeout(SID, 8).is_empty());
}

#[test]
fn quitting_takes_leave_of_active_sessions() {
    let mut server: Server<u8> = Server::new();
    for sid in 1..=5u32 {
        let hello = UapMessage::hello(0, sid, 0, 0);
        server.on_datagram(sid as u8, &hello.encode(), 0);
    }
    server.on_timeout(3, 0);
    let mut targets = server.on_quit();
    targets.sort();
    assert_eq!(targets, [(1, 1), (2, 2), (4, 4), (5, 5)]);
    let first = server.goodbye(1, 77);
    let second = server.goodbye(2, 78);
    assert_eq!(first, UapMessage::goodbye(6, 1, 12, 77));
    assert_eq!(second, UapMessage::goodbye(7, 2, 13, 78));
}

#[test]
fn message_without_payload_prints_nothing() {
    let mut server: Server<u8> = Server::new();
    let mut message = UapMessage::data(0, SID, 0, 0, Vec::new());
    message.payload = None;
    assert_eq!(
        all(server.handle_incoming(1, message, 100)),
        ["send 1 Alive #0 session 171 clock 1 at 100", "reset 171 10"]
    );
}

#[test]
fn verdicts() {
    let session = SessionState { addr: 0u8, phase: Phase::Receive, last_seq: Some(5) };
    assert_eq!(session.judge(Command::Data, 4), Verdict::Backwards);
    assert_eq!(session.judge(Command::Data, 5), Verdict::Duplicate);
    assert_eq!(session.judge(Command::Data, 6), Verdict::Received);
    assert_eq!(session.judge(Command::Alive, 60), Verdict::KeptAlive);
    assert_eq!(session.judge(Command::Goodbye, 6), Verdict::Left);
    assert_eq!(session.judge(Command::Hello, 6), Verdict::UnexpectedHello);
    let new = SessionState { addr: 0u8, phase: Phase::Init, last_seq: None };
    assert_eq!(new.judge(Command::Hello, 0), Verdict::Opened);
}

/// The phase that each message among the actions leaves its session in if it cannot be sent.
fn unsent(actions: &[Action<u8>]) -> Vec<Phase> {
    actions
        .iter()
        .filter_map(|action| match action {
            Action::Send { unsent, .. } => Some(*unsent),
            _ => None,
        })
        .collect()
}

#[test]
fn failed_hello_leaves_session_unopened() {
    let mut server: Server<u8> = Server::new();
    let actions = server.on_datagram(1, &UapMessage::hello(0, SID, 0, 0).encode(), 100);
    assert_eq!(unsent(&actions), [Phase::Init]);
    server.send_failed(SID, Phase::Init);
    // the number has counted, and the session can still be opened
    assert_eq!(tell(&mut server, UapMessage::hello(0, SID, 0, 0)).len(), 1);
    assert_eq!(
        tell(&mut server, UapMessage::hello(1, SID, 0, 0)),
        [
            "send 1 Hello #1 session 171 clock 5 at 100",
            "print 0x000000ab [1] Session created",
            "reset 171 10",
        ]
    );
}

#[test]
fn failed_goodbye_leaves_session_open() {
    let mut server: Server<u8> = Server::new();
    tell(&mut server, UapMessage::hello(5, SID, 0, 0));
    // a number below the last, which does not count
    let actions = server.on_datagram(1, &UapMessage::alive(3, SID, 0, 0).encode(), 100);
    assert_eq!(unsent(&actions), [Phase::Receive]);
    assert!(server.on_quit().is_empty());
    server.send_failed(SID, Phase::Receive);
    assert_eq!(server.on_quit(), [(SID, 1)]);
    assert_eq!(tell(&mut server, UapMessage::alive(5, SID, 0, 0)).len(), 1);
    // a timeout
    let actions = server.on_timeout(SID, 100);
    assert_eq!(unsent(&actions), [Phase::Receive]);
    assert!(server.on_quit().is_empty());
    server.send_failed(SID, Phase::Receive);
    assert_eq!(
        all(server.on_timeout(SID, 100)),
        ["send 1 Goodbye #3 session 171 clock 7 at 100", "print 0x000000ab Session closed"]
    );
    // of a session that is not known nothing is kept
    server.send_failed(99, Phase::Receive);
    assert!(server.on_quit().is_empty());
}

#[test]
fn farewells_are_numbered() {
    let mut server: Server<u8> = Server::new();
    for sid in 1..=4u32 {
        server.on_datagram(sid as u8, &UapMessage::hello(0, sid, 0, 0).encode(), 0);
    }
    let mut told = Vec::new();
    for (n, (sid, addr)) in server.on_quit().into_iter().enumerate() {
        assert_eq!(addr as u32, sid);
        let message = server.goodbye(sid, n as u64);
        assert_eq!(message, UapMessage::goodbye(4 + n as u32, sid, 9 + n as u64, n as u64));
        told.push(sid);
    }
    told.sort();
    assert_eq!(told, [1, 2, 3, 4]);
}
