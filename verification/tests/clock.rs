use uap::clock::LamportClock;

#[test]
fn lamport_basic() {
    let mut c = LamportClock::new();
    assert_eq!(c.now(), 0);
    assert_eq!(c.tick(), 1);
    assert_eq!(c.send_event(), 2);
    // receive from remote 5 -> set to 5 then increment -> 6
    assert_eq!(c.recv_event(5), 6);
    assert_eq!(c.now(), 6);
}

#[test]
fn old_message_moves_clock_by_one() {
    let mut c = LamportClock::default();
    assert_eq!(c.recv_event(100), 101);
    assert_eq!(c.recv_event(7), 102);
    assert_eq!(c.recv_event(102), 103);
    assert_eq!(c.now(), 103);
}

#[test]
fn answer_is_later_than_message() {
    let mut sender = LamportClock::new();
    let mut receiver = LamportClock::new();
    for _ in 0..9 {
        sender.tick();
    }
    let sent = sender.send_event();
    assert_eq!(sent, 10);
    let received = receiver.recv_event(sent);
    assert_eq!(received, 11);
    assert_eq!(receiver.send_event(), 12);
}

#[test]
fn clock_wraps_around() {
    let mut c = LamportClock::new();
    assert_eq!(c.recv_event(u64::MAX - 1), u64::MAX);
    assert_eq!(c.tick(), 0);
    assert_eq!(c.recv_event(u64::MAX), 0);
    assert_eq!(c.now(), 0);
}

#[test]
fn time_grows_along_a_chain_of_messages() {
    let mut clocks = [LamportClock::new(), LamportClock::new(), LamportClock::new()];
    clocks[1].recv_event(40);
    let mut message = clocks[0].send_event();
    let mut times = vec![message];
    for hop in [1usize, 2, 0, 2, 1] {
        clocks[hop].recv_event(message);
        clocks[hop].tick();
        clocks[hop].recv_event(3);
        message = clocks[hop].send_event();
        times.push(message);
    }
    assert_eq!(times, [1, 45, 49, 53, 57, 61]);
}
