//! What holds of the server's answers: what is said, printed, reported and timed for each message,
//! and what becomes of its session.

use crate::report::{
    backwards_warning, closed_line, created_line, duplicate_warning, goodbye_line, hello_warning,
    message_tag,
};
use crate::server::{
    seen, Action, ActionView, Phase, ServerView, SessionState, Verdict, SESSION_TIMEOUT,
};
use crate::text::shown;
use crate::uap::{Command, MessageView, UapHeader};
use vstd::prelude::*;

verus! {

/// The last number of a session; one not heard of has none.
pub open spec fn last_number<A>(server: ServerView<A>, id: u32) -> Option<u32> {
    if server.sessions.contains_key(id) {
        server.sessions[id].last_seq
    } else {
        None
    }
}

/// The phase of a session; one not heard of has not begun.
pub open spec fn phase_of<A>(server: ServerView<A>, id: u32) -> Phase {
    if server.sessions.contains_key(id) {
        server.sessions[id].phase
    } else {
        Phase::Init
    }
}

/// Whether the number is above the last, or there is no last.
pub open spec fn is_new(last: Option<u32>, number: u32) -> bool {
    last matches Some(l) ==> number > l
}

/// The numbers between the last and this one, reported as a range if there are any.
pub open spec fn missing<A>(id: u32, last: Option<u32>, number: u32) -> Seq<ActionView<A>> {
    match last {
        Some(l) if number - l >= 2 => seq![
            ActionView::ReportLost { session_id: id, first: (l + 1) as u32, end: number },
        ],
        _ => Seq::empty(),
    }
}

/// The sending of a message without payload that bears the server's next number and a time one
/// later than the server's.
pub open spec fn saying<A>(
    server: ServerView<A>,
    to: A,
    command: Command,
    id: u32,
    timestamp: u64,
) -> ActionView<A> {
    ActionView::Send {
        to,
        message: MessageView {
            header: UapHeader {
                magic: 0xC461,
                version: 1,
                command,
                sequence_number: server.endpoint.next_number,
                session_id: id,
                logical_clock: ((server.endpoint.time + 1) % 0x1_0000_0000_0000_0000) as u64,
                timestamp,
            },
            payload: None,
        },
        unsent: phase_of(server, id),
    }
}

/// Whether exactly one message is sent, and it is this one.
pub open spec fn says_only<A>(answer: Seq<ActionView<A>>, message: ActionView<A>) -> bool {
    answer.filter(|action: ActionView<A>| action is Send) == seq![message]
}

/// Whether nothing is sent.
pub open spec fn says_nothing<A>(answer: Seq<ActionView<A>>) -> bool {
    forall|i: int| 0 <= i < answer.len() ==> !(#[trigger] answer[i] is Send)
}

/// A number decides first: below the last it goes backwards, whatever the command and however far
/// below; equal to the last it is a duplicate. Only above the last does the command decide.
pub proof fn law_number_decides_first<A>(session: SessionState<A>, command: Command, number: u32)
    ensures
        ({
            let verdict = session.verdict(command, number);
            let new = is_new(session.last_seq, number);
            &&& verdict == Verdict::Backwards <==> (session.last_seq matches Some(l) && number < l)
            &&& verdict == Verdict::Duplicate <==> session.last_seq == Some(number)
            &&& verdict == Verdict::Opened <==> new && command == Command::Hello && session.phase
                == Phase::Init
            &&& verdict == Verdict::UnexpectedHello <==> new && command == Command::Hello
                && session.phase != Phase::Init
            &&& verdict == Verdict::Received <==> new && command == Command::Data
            &&& verdict == Verdict::KeptAlive <==> new && command == Command::Alive
            &&& verdict == Verdict::Left <==> new && command == Command::Goodbye
        }),
{
}

/// The larger the number, the better it is received: numbers fall into those that go backwards, the
/// one duplicate, and those that count, in this order.
pub proof fn law_verdicts_are_ordered<A>(
    session: SessionState<A>,
    command: Command,
    other: Command,
    lower: u32,
    higher: u32,
)
    requires
        lower < higher,
    ensures
        session.verdict(command, higher) == Verdict::Backwards ==> session.verdict(other, lower)
            == Verdict::Backwards,
        session.verdict(command, higher) == Verdict::Duplicate ==> session.verdict(other, lower)
            == Verdict::Backwards,
        session.verdict(command, lower) == Verdict::Duplicate ==> session.verdict(
            other,
            higher,
        ).accepts(),
        session.verdict(command, lower).accepts() ==> session.verdict(other, higher).accepts(),
{
}

/// What each verdict entails: what ends the session, what counts, what starts its time anew, and
/// what is said in return.
pub proof fn law_verdict_entails(verdict: Verdict)
    ensures
        verdict.closes() <==> verdict is Backwards || verdict is UnexpectedHello || verdict is Left,
        verdict.accepts() <==> !(verdict is Backwards) && !(verdict is Duplicate),
        verdict.prolongs() <==> verdict is Opened || verdict is Received || verdict is KeptAlive,
        verdict.closes() <==> verdict.reply() == Some(Command::Goodbye),
        verdict is Opened <==> verdict.reply() == Some(Command::Hello),
        verdict is Received <==> verdict.reply() == Some(Command::Alive),
        verdict.reply() is None <==> verdict is Duplicate || verdict is KeptAlive,
{
}

/// What is known of a session before its message: if it was heard of, what was kept; else that it
/// comes from there, has not begun and has no number. A session is active if it was heard of and has
/// not ended.
pub proof fn law_session_before<A>(server: ServerView<A>, id: u32, addr: A)
    ensures
        server.session(id, addr).last_seq == last_number(server, id),
        server.session(id, addr).phase == phase_of(server, id),
        server.sessions.contains_key(id) ==> server.session(id, addr) == server.sessions[id],
        !server.sessions.contains_key(id) ==> server.session(id, addr).addr == addr,
        server.active(id) <==> server.sessions.contains_key(id) && !(server.sessions[id].phase
            is Done),
        SessionState::fresh(addr) == (SessionState {
            addr,
            phase: Phase::Init,
            last_seq: None::<u32>,
        }),
        !ServerView::<A>::fresh().sessions.contains_key(id),
        ServerView::<A>::fresh().endpoint.time == 0,
        ServerView::<A>::fresh().endpoint.next_number == 0,
        SESSION_TIMEOUT == 10,
{
}

/// A number below the last closes the session, whatever the command and however far below: a
/// GOODBYE of the session goes to the sender, and nothing else is said. The session has ended, and
/// its last number stays.
pub proof fn law_late_number_closes<A>(
    server: ServerView<A>,
    addr: A,
    message: MessageView,
    timestamp: u64,
    last: u32,
)
    requires
        server.sessions.contains_key(message.header.session_id),
        server.sessions[message.header.session_id].last_seq == Some(last),
        message.header.sequence_number < last,
    ensures
        ({
            let id = message.header.session_id;
            let answer = server.answer(addr, message, timestamp);
            let after = server.handled(addr, message).sessions;
            let goodbye = saying(server, addr, Command::Goodbye, id, timestamp);
            &&& answer.contains(goodbye)
            &&& says_only(answer, goodbye)
            &&& after.contains_key(id)
            &&& after[id].phase == Phase::Done
            &&& after[id].last_seq == Some(last)
            &&& after[id].addr == addr
            &&& answer == seq![
                ActionView::Warn {
                    line: backwards_warning(id, message.header.sequence_number, last),
                },
                goodbye,
                ActionView::Print { line: closed_line(id) },
            ]
        }),
{
    let answer = server.answer(addr, message, timestamp);
    assert(answer[1] == saying(
        server,
        addr,
        Command::Goodbye,
        message.header.session_id,
        timestamp,
    ));
    lemma_three(answer, |action: ActionView<A>| action is Send);
}

/// Nothing is said in return only to a message whose number is the last of its session, or to an
/// ALIVE with a new number. A message is discarded, its session left as it was, only if its number
/// is the last.
pub proof fn law_silence_means_duplicate_or_alive<A>(
    server: ServerView<A>,
    addr: A,
    message: MessageView,
    timestamp: u64,
)
    ensures
        ({
            let id = message.header.session_id;
            let number = message.header.sequence_number;
            let answer = server.answer(addr, message, timestamp);
            let last = last_number(server, id);
            let duplicate = last == Some(number);
            let after = server.handled(addr, message).sessions[id];
            &&& says_nothing(answer) <==> duplicate || (message.header.command == Command::Alive
                && is_new(last, number))
            &&& duplicate ==> answer == seq![
                ActionView::<A>::Warn { line: duplicate_warning(id, number) },
            ]
            &&& server.verdict(addr, message) == Verdict::Duplicate <==> duplicate
            &&& after.phase == phase_of(server, id) && after.last_seq == last ==> duplicate
                || phase_of(server, id) == Phase::Done
        }),
{
    let answer = server.answer(addr, message, timestamp);
    let id = message.header.session_id;
    let lost = missing::<A>(
        id,
        last_number(server, id),
        message.header.sequence_number,
    ).len() as int;
    match server.verdict(addr, message) {
        Verdict::Backwards => {
            assert(answer[1] is Send);
        },
        Verdict::Opened => {
            assert(answer[lost] is Send);
        },
        Verdict::Received => {
            if message.payload is Some {
                assert(answer[lost + 1] is Send);
            } else {
                assert(answer[lost] is Send);
            }
        },
        Verdict::UnexpectedHello | Verdict::Left => {
            assert(answer[lost + 1] is Send);
        },
        _ => {},
    }
}

/// The elements of a sequence of three that satisfy a condition.
proof fn lemma_three<T>(s: Seq<T>, p: spec_fn(T) -> bool)
    requires
        s.len() == 3,
    ensures
        s.filter(p) == (if p(s[0]) {
            seq![s[0]]
        } else {
            seq![]
        }) + (if p(s[1]) {
            seq![s[1]]
        } else {
            seq![]
        }) + (if p(s[2]) {
            seq![s[2]]
        } else {
            seq![]
        }),
{
    reveal_with_fuel(Seq::filter, 4);
    assert(s.drop_last().drop_last().drop_last() =~= Seq::empty());
}

/// One more element is kept if and only if it satisfies the condition.
proof fn lemma_one_more<T>(s: Seq<T>, x: T, p: spec_fn(T) -> bool)
    ensures
        s.push(x).filter(p) == (if p(x) {
            s.filter(p).push(x)
        } else {
            s.filter(p)
        }),
        Seq::<T>::empty().filter(p) == Seq::<T>::empty(),
{
    reveal(Seq::filter);
    assert(s.push(x).drop_last() =~= s);
}

/// Data with a new number is printed: whenever it brings a payload, exactly one line is printed, the
/// tag of the message followed by the payload as shown, whether or not numbers are missing before
/// it. Data without payload prints nothing.
pub proof fn law_data_is_printed<A>(
    server: ServerView<A>,
    addr: A,
    message: MessageView,
    timestamp: u64,
)
    requires
        message.header.command == Command::Data,
        is_new(
            last_number(server, message.header.session_id),
            message.header.sequence_number,
        ),
    ensures
        ({
            let id = message.header.session_id;
            let number = message.header.sequence_number;
            let answer = server.answer(addr, message, timestamp);
            let printed = answer.filter(|action: ActionView<A>| action is Print);
            match message.payload {
                Some(p) => printed == seq![
                    ActionView::<A>::Print { line: message_tag(id, number) + shown(p) },
                ],
                None => printed.len() == 0,
            }
        }),
{
    let id = message.header.session_id;
    let number = message.header.sequence_number;
    let answer = server.answer(addr, message, timestamp);
    let p = |action: ActionView<A>| action is Print;
    let lost = missing::<A>(id, last_number(server, id), number);
    let reply = saying(server, addr, Command::Alive, id, timestamp);
    let reset = ActionView::<A>::ResetTimer { session_id: id, seconds: 10 };
    if lost.len() > 0 {
        lemma_one_more(Seq::empty(), lost[0], p);
        assert(lost =~= Seq::empty().push(lost[0]));
    } else {
        lemma_one_more(Seq::empty(), reset, p);
        assert(lost =~= Seq::empty());
    }
    assert(lost.filter(p) =~= Seq::empty());
    let shown_part = match message.payload {
        Some(payload) => {
            let line = ActionView::<A>::Print { line: message_tag(id, number) + shown(payload) };
            lemma_one_more(lost, line, p);
            lost.push(line)
        },
        None => lost,
    };
    lemma_one_more(shown_part, reply, p);
    lemma_one_more(shown_part.push(reply), reset, p);
    assert(answer =~= shown_part.push(reply).push(reset));
}

/// Data with a new number is acknowledged: the missing numbers are reported, the payload is printed,
/// an ALIVE of the session goes to the sender, and the session has ten seconds more. Its phase stays
/// and the number is its last.
pub proof fn law_data_is_received<A>(
    server: ServerView<A>,
    addr: A,
    message: MessageView,
    timestamp: u64,
)
    requires
        message.header.command == Command::Data,
        is_new(
            last_number(server, message.header.session_id),
            message.header.sequence_number,
        ),
    ensures
        ({
            let id = message.header.session_id;
            let number = message.header.sequence_number;
            let said = missing::<A>(id, last_number(server, id), number) + match message.payload {
                Some(p) => seq![ActionView::Print { line: message_tag(id, number) + shown(p) }],
                None => Seq::empty(),
            };
            &&& server.answer(addr, message, timestamp) == said + seq![
                saying(server, addr, Command::Alive, id, timestamp),
                ActionView::ResetTimer { session_id: id, seconds: 10 },
            ]
            &&& server.handled(addr, message).sessions[id] == SessionState {
                addr,
                phase: phase_of(server, id),
                last_seq: Some(number),
            }
        }),
{
}

/// A HELLO with a new number in a session that has not begun opens it: a HELLO of the session goes
/// to the sender, the session is created, and it has ten seconds.
pub proof fn law_hello_is_returned<A>(
    server: ServerView<A>,
    addr: A,
    message: MessageView,
    timestamp: u64,
)
    requires
        message.header.command == Command::Hello,
        is_new(
            last_number(server, message.header.session_id),
            message.header.sequence_number,
        ),
        phase_of(server, message.header.session_id) == Phase::Init,
    ensures
        ({
            let id = message.header.session_id;
            let number = message.header.sequence_number;
            &&& server.answer(addr, message, timestamp) == missing::<A>(
                id,
                last_number(server, id),
                number,
            ) + seq![
                saying(server, addr, Command::Hello, id, timestamp),
                ActionView::Print { line: created_line(id, number) },
                ActionView::ResetTimer { session_id: id, seconds: 10 },
            ]
            &&& server.handled(addr, message).sessions[id] == SessionState {
                addr,
                phase: Phase::Receive,
                last_seq: Some(number),
            }
        }),
{
}

/// A HELLO with a new number in a session that has begun or ended ends it, with a GOODBYE of the
/// session to the sender.
pub proof fn law_second_hello_closes<A>(
    server: ServerView<A>,
    addr: A,
    message: MessageView,
    timestamp: u64,
)
    requires
        message.header.command == Command::Hello,
        is_new(
            last_number(server, message.header.session_id),
            message.header.sequence_number,
        ),
        phase_of(server, message.header.session_id) != Phase::Init,
    ensures
        ({
            let id = message.header.session_id;
            let number = message.header.sequence_number;
            &&& server.answer(addr, message, timestamp) == missing::<A>(
                id,
                last_number(server, id),
                number,
            ) + seq![
                ActionView::Warn { line: hello_warning(id) },
                saying(server, addr, Command::Goodbye, id, timestamp),
                ActionView::Print { line: closed_line(id) },
            ]
            &&& server.handled(addr, message).sessions[id] == SessionState {
                addr,
                phase: Phase::Done,
                last_seq: Some(number),
            }
        }),
{
}

/// An ALIVE with a new number is not answered; the session has ten seconds more, and nothing changes
/// but its last number and its address.
pub proof fn law_alive_keeps<A>(
    server: ServerView<A>,
    addr: A,
    message: MessageView,
    timestamp: u64,
)
    requires
        message.header.command == Command::Alive,
        is_new(
            last_number(server, message.header.session_id),
            message.header.sequence_number,
        ),
    ensures
        ({
            let id = message.header.session_id;
            let number = message.header.sequence_number;
            &&& server.answer(addr, message, timestamp) == missing::<A>(
                id,
                last_number(server, id),
                number,
            ) + seq![ActionView::ResetTimer { session_id: id, seconds: 10 }]
            &&& server.handled(addr, message).sessions[id] == SessionState {
                addr,
                phase: phase_of(server, id),
                last_seq: Some(number),
            }
        }),
{
}

/// A GOODBYE with a new number is printed and returned to the sender; the session has ended, and its
/// timer is cancelled.
pub proof fn law_goodbye_ends<A>(
    server: ServerView<A>,
    addr: A,
    message: MessageView,
    timestamp: u64,
)
    requires
        message.header.command == Command::Goodbye,
        is_new(
            last_number(server, message.header.session_id),
            message.header.sequence_number,
        ),
    ensures
        ({
            let id = message.header.session_id;
            let number = message.header.sequence_number;
            &&& server.answer(addr, message, timestamp) == missing::<A>(
                id,
                last_number(server, id),
                number,
            ) + seq![
                ActionView::Print { line: goodbye_line(id, number) },
                saying(server, addr, Command::Goodbye, id, timestamp),
                ActionView::CancelTimer { session_id: id },
                ActionView::Print { line: closed_line(id) },
            ]
            &&& server.handled(addr, message).sessions[id] == SessionState {
                addr,
                phase: Phase::Done,
                last_seq: Some(number),
            }
        }),
{
}

/// A message leaves its session known, reached where the message came from, and every other session
/// as it was. The last number is the larger of the last and the message's. The session has ended
/// only if it had, or if a GOODBYE was said; and the clock and the numbering advance by one if and
/// only if something was said.
pub proof fn law_message_changes_one_session<A>(
    server: ServerView<A>,
    addr: A,
    message: MessageView,
    timestamp: u64,
    other: u32,
)
    ensures
        ({
            let id = message.header.session_id;
            let number = message.header.sequence_number;
            let answer = server.answer(addr, message, timestamp);
            let after = server.handled(addr, message);
            let last = last_number(server, id);
            &&& after.sessions.dom() == server.sessions.dom().insert(id)
            &&& other != id ==> after.sessions[other] == server.sessions[other]
            &&& after.sessions[id].addr == addr
            &&& after.sessions[id].last_seq == Some(
                match last {
                    Some(l) if l > number => l,
                    _ => number,
                },
            )
            &&& after.sessions[id].phase == Phase::Done <==> phase_of(server, id) == Phase::Done
                || answer.contains(saying(server, addr, Command::Goodbye, id, timestamp))
            &&& after.sessions[id].phase == Phase::Receive <==> (phase_of(server, id)
                == Phase::Receive && !answer.contains(
                saying(server, addr, Command::Goodbye, id, timestamp),
            )) || answer.contains(saying(server, addr, Command::Hello, id, timestamp))
            &&& says_nothing(answer) ==> after.endpoint == server.endpoint
            &&& !says_nothing(answer) ==> after.endpoint.time == (server.endpoint.time + 1)
                % 0x1_0000_0000_0000_0000 && after.endpoint.next_number == (
            server.endpoint.next_number + 1) % 0x1_0000_0000
        }),
{
    law_silence_means_duplicate_or_alive(server, addr, message, timestamp);
    let id = message.header.session_id;
    let number = message.header.sequence_number;
    let answer = server.answer(addr, message, timestamp);
    let goodbye = saying(server, addr, Command::Goodbye, id, timestamp);
    let hello = saying(server, addr, Command::Hello, id, timestamp);
    let lost = missing::<A>(id, last_number(server, id), number).len() as int;
    match server.verdict(addr, message) {
        Verdict::Backwards => {
            assert(answer[1] == goodbye);
        },
        Verdict::Opened => {
            assert(answer[lost] == hello);
        },
        Verdict::UnexpectedHello | Verdict::Left => {
            assert(answer[lost + 1] == goodbye);
        },
        _ => {},
    }
}

/// When its time has run out, a session that has begun and not ended is sent a GOODBYE where it was
/// last heard from, and has ended; of any other session nothing is said and nothing changes.
pub proof fn law_time_runs_out<A>(server: ServerView<A>, id: u32, timestamp: u64, other: u32)
    ensures
        ({
            let answer = server.timeout_answer(id, timestamp);
            let after = server.timed_out(id);
            let open = server.sessions.contains_key(id) && server.sessions[id].phase
                != Phase::Done;
            &&& !open ==> answer.len() == 0 && after == server
            &&& open ==> answer == seq![
                saying(server, server.sessions[id].addr, Command::Goodbye, id, timestamp),
                ActionView::Print { line: closed_line(id) },
            ]
            &&& open ==> after.sessions[id] == SessionState {
                addr: server.sessions[id].addr,
                phase: Phase::Done,
                last_seq: server.sessions[id].last_seq,
            }
            &&& open ==> after.endpoint.time == (server.endpoint.time + 1)
                % 0x1_0000_0000_0000_0000
            &&& open ==> after.endpoint.next_number == (server.endpoint.next_number + 1)
                % 0x1_0000_0000
            &&& after.sessions.dom() == server.sessions.dom()
            &&& other != id ==> after.sessions[other] == server.sessions[other]
        }),
{
    assert(server.timed_out(id).sessions.dom() =~= server.sessions.dom());
}

/// A failed sending changes the phase of its session to the one given, if there is such a session,
/// and nothing else.
pub proof fn law_failure_restores_phase<A>(
    server: ServerView<A>,
    id: u32,
    phase: Phase,
    other: u32,
)
    ensures
        ({
            let after = server.send_failed(id, phase);
            &&& after.endpoint == server.endpoint
            &&& after.sessions.dom() == server.sessions.dom()
            &&& other != id ==> after.sessions[other] == server.sessions[other]
            &&& server.sessions.contains_key(id) ==> after.sessions[id] == SessionState {
                addr: server.sessions[id].addr,
                phase,
                last_seq: server.sessions[id].last_seq,
            }
        }),
{
    assert(server.send_failed(id, phase).sessions.dom() =~= server.sessions.dom());
}

/// The logical time of a message is read: the clock shows one more than the later of the two times,
/// and neither the sessions nor the numbering change.
pub proof fn law_time_is_read<A>(server: ServerView<A>, remote: u64)
    ensures
        server.received(remote).sessions == server.sessions,
        server.received(remote).endpoint.next_number == server.endpoint.next_number,
        server.received(remote).endpoint.time == (if remote > server.endpoint.time {
            remote + 1
        } else {
            server.endpoint.time + 1
        }) % 0x1_0000_0000_0000_0000,
{
}

/// When the server stops, the sessions to take leave of are those heard of and not ended, and no
/// others, each once and where it was last heard from.
pub proof fn law_quit_reaches_all<A>(server: ServerView<A>, targets: Seq<(u32, A)>)
    requires
        server.quit_targets(targets),
    ensures
        forall|id: u32| #[trigger]
            server.sessions.contains_key(id) && server.sessions[id].phase != Phase::Done
                ==> exists|i: int| 0 <= i < targets.len() && #[trigger] targets[i].0 == id,
        forall|i: int|
            #![trigger targets[i]]
            0 <= i < targets.len() ==> server.sessions.contains_key(targets[i].0)
                && server.sessions[targets[i].0].phase != Phase::Done && targets[i].1
                == server.sessions[targets[i].0].addr,
        forall|i: int, j: int|
            0 <= i < j < targets.len() ==> #[trigger] targets[i].0 != #[trigger] targets[j].0,
{
    assert forall|id: u32| #[trigger]
        server.sessions.contains_key(id) && server.sessions[id].phase
            != Phase::Done implies exists|i: int|
        0 <= i < targets.len() && #[trigger] targets[i].0 == id by {
        assert(server.active(id));
    }
}

/// Taking leave of sessions changes none of them; each GOODBYE takes one number and one tick of the
/// clock.
pub proof fn law_leave_counts<A>(server: ServerView<A>, n: nat)
    ensures
        server.said_goodbye(n).sessions == server.sessions,
        server.said_goodbye(n).endpoint.time == (server.endpoint.time + n)
            % 0x1_0000_0000_0000_0000,
        server.said_goodbye(n).endpoint.next_number == (server.endpoint.next_number + n)
            % 0x1_0000_0000,
    decreases n,
{
    if n > 0 {
        law_leave_counts(server, (n - 1) as nat);
    }
}

/// The value of actions tells all of each: as many as there are, each with everything in it.
pub proof fn law_actions_are_seen<A>(actions: Seq<Action<A>>, i: int)
    requires
        0 <= i < actions.len(),
    ensures
        seen(actions).len() == actions.len(),
        match (actions[i], seen(actions)[i]) {
            (
                Action::Send { to: a, message: m, unsent: p },
                ActionView::Send { to: b, message: n, unsent: q },
            ) => a == b && p == q && m.header == n.header && match (m.payload, n.payload) {
                (Some(x), Some(y)) => x@ == y,
                (None, None) => true,
                _ => false,
            },
            (Action::Print { line: a }, ActionView::Print { line: b }) => a@ == b,
            (Action::Warn { line: a }, ActionView::Warn { line: b }) => a@ == b,
            (
                Action::ReportLost { session_id: a, first: f, end: e },
                ActionView::ReportLost { session_id: b, first: g, end: h },
            ) => a == b && f == g && e == h,
            (
                Action::ResetTimer { session_id: a, seconds: s },
                ActionView::ResetTimer { session_id: b, seconds: t },
            ) => a == b && s == t,
            (
                Action::CancelTimer { session_id: a },
                ActionView::CancelTimer { session_id: b },
            ) => a == b,
            _ => false,
        },
{
}

} // verus!
