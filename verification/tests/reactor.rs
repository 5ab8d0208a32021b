use linemux::connection::Lifecycle;
use linemux::error::ProtoError;
use linemux::reactor::{
    Action, Completion, Event, Flow, Reactor, ReadOutcome, Ready, SERVER_TOKEN,
};
use linemux::registry::Token;
use linemux::service::{EchoService, Service};

fn reactor(capacity: usize) -> Reactor {
    Reactor::new(capacity, Service::Echo(EchoService))
}

fn readable() -> Ready {
    Ready { readable: true, writable: false, error: false, hup: false }
}

fn bytes(b: &[u8]) -> ReadOutcome {
    ReadOutcome::Bytes(b.to_vec())
}

#[test]
fn server_token_is_the_last_but_one() {
    assert_eq!(SERVER_TOKEN, usize::MAX - 1);
}

#[test]
fn readable_listener_is_accepted_from() {
    let mut r = reactor(4);
    let e = Event { token: Token(SERVER_TOKEN), kind: readable() };
    assert_eq!(r.handle_event(e), Action::Accept);
    assert_eq!(r.registry.len(), 0);
}

#[test]
fn trouble_on_the_listener_ends_the_server() {
    let kinds = [
        Ready { readable: true, writable: false, error: true, hup: false },
        Ready { readable: true, writable: false, error: false, hup: true },
        Ready { readable: false, writable: true, error: false, hup: false },
        Ready { readable: false, writable: false, error: false, hup: false },
    ];
    for kind in kinds {
        let mut r = reactor(4);
        let t = r.accepted().unwrap();
        assert_eq!(r.handle_event(Event { token: Token(SERVER_TOKEN), kind }), Action::Shutdown);
        assert!(r.registry.contains(t));
    }
}

#[test]
fn readable_connection_is_read_from() {
    let mut r = reactor(4);
    let t = r.accepted().unwrap();
    assert_eq!(r.handle_event(Event { token: t, kind: readable() }), Action::Read(t));
    assert!(r.registry.contains(t));
}

#[test]
fn trouble_on_a_connection_removes_it() {
    let kinds = [
        Ready { readable: true, writable: false, error: true, hup: false },
        Ready { readable: true, writable: true, error: false, hup: true },
        Ready { readable: false, writable: true, error: false, hup: false },
    ];
    for kind in kinds {
        let mut r = reactor(4);
        let a = r.accepted().unwrap();
        let b = r.accepted().unwrap();
        assert_eq!(r.handle_event(Event { token: a, kind }), Action::Closed(a));
        assert!(!r.registry.contains(a));
        assert!(r.registry.contains(b));
        assert_eq!(r.handle_event(Event { token: a, kind }), Action::Ignore);
    }
}

#[test]
fn events_for_unknown_identifiers_are_ignored() {
    let mut r = reactor(4);
    assert_eq!(r.handle_event(Event { token: Token(2), kind: readable() }), Action::Ignore);
    assert_eq!(r.received(Token(2), bytes(b"abc")), Flow::Stop);
    assert_eq!(r.finish(Token(2)), None);
    assert!(r.take_output(Token(2)).is_empty());
    assert_eq!(r.next_request(Token(2)), Ok(None));
    assert_eq!(r.registry.len(), 0);
}

#[test]
fn accepted_connections_are_numbered_in_turn() {
    let mut r = reactor(3);
    let a = r.accepted().unwrap();
    let b = r.accepted().unwrap();
    assert_ne!(a, b);
    assert_ne!(a.0, SERVER_TOKEN);
    assert_eq!(r.next_generation, 2);
    assert_eq!(r.registry.get(a).unwrap().io.generation, 0);
    assert_eq!(r.registry.get(b).unwrap().io.generation, 1);
    assert_eq!(r.registry.get(a).unwrap().io.state, Lifecycle::Active);
    assert!(r.registry.get(a).unwrap().io.read_buf.is_empty());
    assert!(r.registry.get(a).unwrap().io.write_buf.is_empty());
}

#[test]
fn accepting_into_a_full_registry_fails() {
    let mut r = reactor(1);
    r.accepted().unwrap();
    assert_eq!(r.accepted(), Err(ProtoError::RegistryFull));
    assert_eq!(r.next_generation, 1);
    assert_eq!(r.registry.len(), 1);
}

#[test]
fn accepting_fails_when_the_numbers_are_used_up() {
    let mut r = reactor(2);
    r.next_generation = u64::MAX;
    assert_eq!(r.accepted(), Err(ProtoError::GenerationsExhausted));
    assert_eq!(r.registry.len(), 0);
}

#[test]
fn echo_end_to_end() {
    let mut r = reactor(4);
    let t = r.accepted().unwrap();
    let sent = [0x00, 0x00, 0x00, 0x07, b'h', b'i', b'\n'];
    assert_eq!(r.received(t, bytes(&sent)), Flow::Continue);
    assert_eq!(r.received(t, ReadOutcome::WouldBlock), Flow::Stop);
    assert_eq!(r.finish(t), None);
    assert_eq!(r.take_output(t), sent.to_vec());
    assert!(r.take_output(t).is_empty());
    assert!(r.registry.contains(t));
}

#[test]
fn frames_split_over_several_reads_are_answered_once_whole() {
    let mut r = reactor(4);
    let t = r.accepted().unwrap();
    assert_eq!(r.received(t, bytes(&[0, 0])), Flow::Continue);
    assert!(r.take_output(t).is_empty());
    assert_eq!(r.received(t, bytes(&[0, 9, b'o'])), Flow::Continue);
    assert!(r.take_output(t).is_empty());
    assert_eq!(r.received(t, bytes(&[b'k', b'\n', 0, 0, 0, 10, b'\n', 1])), Flow::Continue);
    assert_eq!(r.take_output(t), vec![0, 0, 0, 9, b'o', b'k', b'\n', 0, 0, 0, 10, b'\n']);
    assert_eq!(r.registry.get(t).unwrap().io.read_buf, vec![1]);
}

#[test]
fn would_block_changes_nothing() {
    let mut r = reactor(4);
    let t = r.accepted().unwrap();
    r.received(t, bytes(&[0, 0, 0, 1, b'a']));
    assert_eq!(r.received(t, ReadOutcome::WouldBlock), Flow::Stop);
    let conn = r.registry.get(t).unwrap();
    assert_eq!(conn.io.read_buf, vec![0, 0, 0, 1, b'a']);
    assert_eq!(conn.io.state, Lifecycle::Active);
    assert_eq!(r.finish(t), None);
    assert!(r.registry.contains(t));
}

#[test]
fn zero_length_read_tears_the_connection_down() {
    let mut r = reactor(1);
    let t = r.accepted().unwrap();
    assert_eq!(r.accepted(), Err(ProtoError::RegistryFull));
    assert_eq!(r.received(t, bytes(&[])), Flow::Stop);
    assert_eq!(r.registry.get(t).unwrap().io.state, Lifecycle::Closing);
    assert_eq!(r.accepted(), Err(ProtoError::RegistryFull));
    let gone = r.finish(t).unwrap();
    assert_eq!(gone.io.generation, 0);
    assert!(r.registry.get(t).is_none());
    assert!(!r.registry.contains(t));
    let again = r.accepted().unwrap();
    assert_eq!(again, t);
    assert_eq!(r.registry.get(again).unwrap().io.generation, 1);
    assert_eq!(r.registry.get(again).unwrap().io.state, Lifecycle::Active);
}

#[test]
fn read_failure_tears_the_connection_down() {
    let mut r = reactor(2);
    let a = r.accepted().unwrap();
    let b = r.accepted().unwrap();
    assert_eq!(r.received(a, ReadOutcome::Failed), Flow::Stop);
    assert!(r.finish(a).is_some());
    assert!(!r.registry.contains(a));
    assert!(r.registry.contains(b));
    assert_eq!(r.finish(b), None);
}

#[test]
fn invalid_payload_closes_only_its_connection() {
    let mut r = reactor(4);
    let bad = r.accepted().unwrap();
    let good = r.accepted().unwrap();
    assert_eq!(r.received(good, bytes(&[0, 0, 0, 1, b'o', b'n'])), Flow::Continue);
    let before = (
        r.registry.get(good).unwrap().io.read_buf.clone(),
        r.registry.get(good).unwrap().io.write_buf.clone(),
    );
    assert_eq!(r.received(bad, bytes(&[0, 0, 0, 5, 0xFF, b'\n'])), Flow::Stop);
    assert!(r.finish(bad).is_some());
    assert!(r.registry.get(bad).is_none());
    let conn = r.registry.get(good).unwrap();
    assert_eq!(conn.io.state, Lifecycle::Active);
    assert_eq!(conn.io.generation, 1);
    assert_eq!((conn.io.read_buf.clone(), conn.io.write_buf.clone()), before);
    assert_eq!(r.received(good, bytes(&[b'e', b'\n'])), Flow::Continue);
    assert_eq!(r.take_output(good), vec![0, 0, 0, 1, b'o', b'n', b'e', b'\n']);
}

#[test]
fn replies_before_an_invalid_payload_are_still_queued() {
    let mut r = reactor(4);
    let t = r.accepted().unwrap();
    let flow = r.received(t, bytes(&[0, 0, 0, 1, b'a', b'\n', 0, 0, 0, 2, 0x80, b'\n']));
    assert_eq!(flow, Flow::Stop);
    assert_eq!(r.take_output(t), vec![0, 0, 0, 1, b'a', b'\n']);
    assert!(r.finish(t).is_some());
}

#[test]
fn out_of_order_completion_keeps_the_tags() {
    let mut r = reactor(4);
    let t = r.accepted().unwrap();
    r.registry.get_mut(t).unwrap().fill(&[0, 0, 0, 1, b'o', b'n', b'e', b'\n']);
    r.registry.get_mut(t).unwrap().fill(&[0, 0, 0, 2, b't', b'w', b'o', b'\n']);
    let first = r.next_request(t).unwrap().unwrap();
    let second = r.next_request(t).unwrap().unwrap();
    assert_eq!(r.next_request(t), Ok(None));
    assert_eq!(first.request_id, 1);
    assert_eq!(second.request_id, 2);
    assert_eq!(r.complete(second), Completion::Queued);
    assert_eq!(r.complete(first), Completion::Queued);
    assert_eq!(
        r.take_output(t),
        vec![0, 0, 0, 2, b't', b'w', b'o', b'\n', 0, 0, 0, 1, b'o', b'n', b'e', b'\n']
    );
}

#[test]
fn next_request_marks_the_connection_on_an_invalid_payload() {
    let mut r = reactor(4);
    let t = r.accepted().unwrap();
    r.registry.get_mut(t).unwrap().fill(&[0, 0, 0, 1, 0xFF, b'\n']);
    assert_eq!(r.next_request(t), Err(ProtoError::InvalidString));
    assert_eq!(r.registry.get(t).unwrap().io.state, Lifecycle::Closing);
    assert!(r.finish(t).is_some());
}

#[test]
fn completion_for_a_closed_connection_is_dropped() {
    let mut r = reactor(1);
    let t = r.accepted().unwrap();
    r.registry.get_mut(t).unwrap().fill(&[0, 0, 0, 1, b'a', b'\n']);
    let pending = r.next_request(t).unwrap().unwrap();
    r.received(t, bytes(&[]));
    r.finish(t);
    assert_eq!(r.complete(pending), Completion::Stale);
    assert_eq!(r.registry.len(), 0);
}

#[test]
fn completion_does_not_reach_a_later_holder_of_the_identifier() {
    let mut r = reactor(1);
    let t = r.accepted().unwrap();
    r.registry.get_mut(t).unwrap().fill(&[0, 0, 0, 1, b'a', b'\n']);
    let pending = r.next_request(t).unwrap().unwrap();
    r.received(t, ReadOutcome::Failed);
    r.finish(t);
    let later = r.accepted().unwrap();
    assert_eq!(later, t);
    assert_eq!(r.complete(pending), Completion::Stale);
    assert!(r.take_output(later).is_empty());
}
