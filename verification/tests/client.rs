use uap::client::{datagram_event, line_event, Client, ClientAction, Event, State};
use uap::endpoint::Endpoint;
use uap::latency::Latency;
use uap::server::{Action, Server};
use uap::timer::{TimerCell, TimerKind};
use uap::uap::UapMessage;

/// An action in words.
fn words(action: &ClientAction) -> String {
    match action {
        ClientAction::Send { message } => {
            let h = message.header;
            let payload = match &message.payload {
                Some(p) => format!(" {p:?}"),
                None => String::new(),
            };
            format!(
                "send {:?} #{} session {} clock {} at {}{payload}",
                h.command, h.sequence_number, h.session_id, h.logical_clock, h.timestamp
            )
        }
        ClientAction::Print { line } => format!("print {line}"),
        ClientAction::SetTimer { kind, seconds } => format!("set {kind:?} {seconds}"),
        ClientAction::CancelTimer => "cancel".to_string(),
    }
}

/// What the client does about an event at time 100.
fn tell(client: &mut Client, event: Event) -> Vec<String> {
    client.on_event(event, 100).iter().map(words).collect()
}

/// A client that has said HELLO.
fn started() -> Client {
    let mut client = Client::new(7);
    let actions: Vec<String> = client.start(100).iter().map(words).collect();
    assert_eq!(actions, ["send Hello #0 session 7 clock 1 at 100", "set Hello 5"]);
    assert_eq!(client.state(), State::HelloWait);
    client
}

/// A client that has been greeted.
fn ready() -> Client {
    let mut client = started();
    assert_eq!(tell(&mut client, Event::Net(UapMessage::hello(0, 7, 3, 90))), ["cancel"]);
    assert_eq!(client.state(), State::Ready);
    client
}

/// A client that waits for an ALIVE.
fn waiting() -> Client {
    let mut client = ready();
    assert_eq!(
        tell(&mut client, line_event("  hi\n")),
        ["send Data #1 session 7 clock 5 at 100 [104, 105]", "set DataWait 5"]
    );
    assert_eq!(client.state(), State::ReadyTimer);
    client
}

#[test]
fn data_is_acknowledged() {
    let mut client = waiting();
    // more data may be sent meanwhile
    assert_eq!(
        tell(&mut client, line_event("\u{e9}")),
        ["send Data #2 session 7 clock 6 at 100 [195, 169]", "set DataWait 5"]
    );
    assert_eq!(client.state(), State::ReadyTimer);
    assert_eq!(tell(&mut client, Event::Net(UapMessage::alive(1, 7, 9, 100))), ["cancel"]);
    assert_eq!(client.state(), State::Ready);
    assert!(tell(&mut client, Event::Net(UapMessage::alive(2, 7, 9, 100))).is_empty());
    assert_eq!(client.state(), State::Ready);
}

#[test]
fn waiting_for_hello() {
    let mut client = started();
    assert!(tell(&mut client, line_event("too early")).is_empty());
    assert!(tell(&mut client, Event::Net(UapMessage::alive(0, 7, 0, 0))).is_empty());
    assert!(tell(&mut client, Event::Timeout(TimerKind::DataWait)).is_empty());
    assert_eq!(client.state(), State::HelloWait);
    assert_eq!(
        tell(&mut client, Event::Timeout(TimerKind::Hello)),
        [
            "print HELLO timeout -> Closing",
            "send Goodbye #1 session 7 clock 3 at 100",
            "set Closing 3",
        ]
    );
    assert_eq!(client.state(), State::Closing);
    let mut client = started();
    assert_eq!(
        tell(&mut client, Event::StdinEof)[0],
        "print EOF during HELLO wait -> Closing"
    );
    let mut client = started();
    assert_eq!(tell(&mut client, line_event(" Q "))[0], "print q received -> Closing");
}

#[test]
fn leaving_when_ready() {
    for event in [line_event("eof"), line_event("q"), Event::StdinEof] {
        let mut client = ready();
        assert_eq!(
            tell(&mut client, event),
            ["send Goodbye #1 session 7 clock 5 at 100", "set Closing 3"]
        );
        assert_eq!(client.state(), State::Closing);
    }
}

#[test]
fn leaving_when_waiting() {
    for event in [line_event("EOF"), line_event("q"), Event::StdinEof] {
        let mut client = waiting();
        assert_eq!(
            tell(&mut client, event),
            ["cancel", "send Goodbye #2 session 7 clock 6 at 100", "set Closing 3"]
        );
        assert_eq!(client.state(), State::Closing);
    }
    let mut client = waiting();
    assert_eq!(
        tell(&mut client, Event::Timeout(TimerKind::DataWait)),
        [
            "print DATA wait timeout -> Closing",
            "send Goodbye #2 session 7 clock 6 at 100",
            "set Closing 3",
        ]
    );
}

#[test]
fn leaving_is_final() {
    let mut client = ready();
    tell(&mut client, Event::StdinEof);
    for event in [
        Event::StdinEof,
        line_event("q"),
        line_event("more"),
        Event::Net(UapMessage::alive(3, 7, 0, 0)),
        Event::Net(UapMessage::hello(4, 7, 0, 0)),
        Event::Timeout(TimerKind::Hello),
    ] {
        assert!(tell(&mut client, event).is_empty());
        assert_eq!(client.state(), State::Closing);
    }
    assert!(tell(&mut client, Event::Timeout(TimerKind::Closing)).is_empty());
    assert_eq!(client.state(), State::Closed);
    assert!(tell(&mut client, line_event("x")).is_empty());
    assert_eq!(client.state(), State::Closed);
}

#[test]
fn goodbye_of_the_server_ends() {
    let mut leaving = ready();
    tell(&mut leaving, Event::StdinEof);
    for mut client in [started(), ready(), waiting(), leaving] {
        assert_eq!(
            tell(&mut client, Event::Net(UapMessage::goodbye(1, 7, 0, 0))),
            ["print server sent GOODBYE -> closing"]
        );
        assert_eq!(client.state(), State::Closed);
    }
}

#[test]
fn latency_summary() {
    let mut client = started();
    assert_eq!(client.summary(), None);
    tell(&mut client, Event::Net(UapMessage::alive(0, 7, 0, 90)));
    tell(&mut client, Event::Net(UapMessage::alive(1, 7, 0, 75)));
    // sent in the future: not counted
    tell(&mut client, Event::Net(UapMessage::alive(2, 7, 0, 101)));
    assert_eq!(client.measured(), 2);
    assert_eq!(
        client.summary().unwrap(),
        "average one-way latency: 17 ns over 2 msgs"
    );
}

#[test]
fn latency_of_extremes() {
    let mut latency = Latency::new();
    assert_eq!(latency.average(), None);
    latency.record(5, 5);
    assert_eq!(latency.average(), Some(0));
    let mut latency = Latency::new();
    latency.record(0, u64::MAX);
    latency.record(0, u64::MAX);
    assert_eq!(latency.average(), Some(u64::MAX));
    assert_eq!(latency.count(), 2);
    latency.record(9, 8);
    assert_eq!(latency.count(), 2);
}

#[test]
fn timer_runs_out_once() {
    let mut cell = TimerCell::new();
    assert_eq!(cell.poll(u64::MAX), None);
    cell.set_timer(TimerKind::Hello, 1_000, 5);
    assert_eq!(cell.poll(5_000_000_999), None);
    assert_eq!(cell.poll(5_000_001_000), Some(TimerKind::Hello));
    assert_eq!(cell.poll(5_000_001_001), None);
}

#[test]
fn cancelled_timer_is_silent() {
    let mut cell = TimerCell::new();
    cell.cancel_timer();
    cell.set_timer(TimerKind::DataWait, 0, 1);
    cell.cancel_timer();
    assert_eq!(cell.poll(u64::MAX), None);
    cell.set_timer(TimerKind::DataWait, 0, 1);
    cell.set_timer(TimerKind::Closing, 1_000_000_000, 3);
    assert_eq!(cell.poll(3_999_999_999), None);
    assert_eq!(cell.poll(4_000_000_000), Some(TimerKind::Closing));
    cell.set_timer(TimerKind::Hello, u64::MAX, u64::MAX);
    assert_eq!(cell.poll(u64::MAX), None);
}

#[test]
fn datagrams_that_are_no_messages_are_ignored() {
    assert!(datagram_event(b"noise").is_none());
    let message = UapMessage::alive(1, 2, 3, 4);
    assert!(matches!(datagram_event(&message.encode()), Some(Event::Net(m)) if m == message));
}

#[test]
fn endpoint_numbers_and_stamps() {
    let mut endpoint = Endpoint::new();
    assert_eq!(endpoint.send_hello(9, 100), UapMessage::hello(0, 9, 1, 100));
    endpoint.receive(40);
    assert_eq!(endpoint.send_alive(9, 101), UapMessage::alive(1, 9, 42, 101));
    assert_eq!(
        endpoint.send_data(9, 102, vec![1]),
        UapMessage::data(2, 9, 43, 102, vec![1])
    );
    assert_eq!(endpoint.send_goodbye(9, 103), UapMessage::goodbye(3, 9, 44, 103));
}

/// Hand the messages among the client's actions to the server, and the server's replies back.
fn converse(client: &mut Client, server: &mut Server<u8>, actions: Vec<ClientAction>) {
    for action in actions {
        if let ClientAction::Send { message } = action {
            for reply in server.on_datagram(1, &message.encode(), 100) {
                if let Action::Send { message, .. } = reply {
                    let event = datagram_event(&message.encode()).unwrap();
                    client.on_event(event, 100);
                }
            }
        }
    }
}

#[test]
fn client_and_server_understand_each_other() {
    let mut client = Client::new(7);
    let mut server: Server<u8> = Server::new();
    let actions = client.start(100);
    converse(&mut client, &mut server, actions);
    assert_eq!(client.state(), State::Ready);
    for line in ["one", "two"] {
        let actions = client.on_event(line_event(line), 100);
        assert_eq!(client.state(), State::ReadyTimer);
        converse(&mut client, &mut server, actions);
        assert_eq!(client.state(), State::Ready);
    }
    assert_eq!(server.on_quit(), [(7, 1)]);
    let actions = client.on_event(Event::StdinEof, 100);
    assert_eq!(client.state(), State::Closing);
    converse(&mut client, &mut server, actions);
    assert_eq!(client.state(), State::Closed);
    assert!(server.on_quit().is_empty());
}

/// Do to the timer what the actions ask.
fn timer_of(actions: &[ClientAction], cell: &mut TimerCell) {
    for action in actions {
        match action {
            ClientAction::SetTimer { kind, seconds } => cell.set_timer(*kind, 0, *seconds),
            ClientAction::CancelTimer => cell.cancel_timer(),
            _ => {}
        }
    }
}

#[test]
fn every_wait_is_timed() {
    let mut client = Client::new(7);
    let mut cell = TimerCell::new();
    timer_of(&client.start(0), &mut cell);
    timer_of(&client.on_event(Event::Net(UapMessage::hello(0, 7, 0, 0)), 0), &mut cell);
    assert_eq!(client.state(), State::Ready);
    assert_eq!(cell.poll(u64::MAX), None);
    timer_of(&client.on_event(line_event("x"), 0), &mut cell);
    assert_eq!(client.state(), State::ReadyTimer);
    let fired = cell.poll(5_000_000_000).unwrap();
    assert_eq!(fired, TimerKind::DataWait);
    timer_of(&client.on_event(Event::Timeout(fired), 0), &mut cell);
    assert_eq!(client.state(), State::Closing);
    let fired = cell.poll(3_000_000_000).unwrap();
    assert_eq!(fired, TimerKind::Closing);
    client.on_event(Event::Timeout(fired), 0);
    assert_eq!(client.state(), State::Closed);
}
