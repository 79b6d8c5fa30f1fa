use telnet_chat::handshake::{handshake_line, name_length_ok, trim_line, HandshakeResult};
use telnet_chat::messages::{
    chat_frame, depart_notice, greeting, invalid_name_prompt, join_notice, success_message,
};
use telnet_chat::registry::Registry;
use telnet_chat::session::{Session, SessionState};
use telnet_chat::worker::{worker_step, ReadEvent};

fn handshaking_session(name: &str) -> Session {
    let mut s = Session::new();
    s.begin_handshake();
    let ok = s.set_name(name.to_string());
    assert!(ok);
    s
}

fn registry_with(names: &[&str]) -> Registry {
    let mut reg = Registry::new();
    for name in names {
        reg.register(handshaking_session(name));
    }
    // discard the pending greetings so later assertions see only new output
    reg.drain_outputs();
    reg
}

#[test]
fn prompt_texts_are_exact() {
    assert_eq!(
        greeting(),
        "Welcome to the server, what will your username be? "
    );
    assert_eq!(
        invalid_name_prompt(),
        "That is not a valid username. What will your username be? "
    );
    assert_eq!(success_message(), "Username is valid, joining session\n");
}

#[test]
fn frame_texts_are_exact() {
    assert_eq!(chat_frame("alice", "hello"), "alice: hello\n");
    assert_eq!(join_notice("alice"), "alice has joined\n");
    assert_eq!(depart_notice("alice"), "alice has left\n");
}

#[test]
fn trim_line_strips_whitespace() {
    assert_eq!(trim_line("  bobby\r\n"), "bobby");
    assert_eq!(trim_line("bobby"), "bobby");
    assert_eq!(trim_line(" \t \r\n"), "");
    assert_eq!(trim_line(""), "");
    assert_eq!(trim_line("a b\n"), "a b");
}

#[test]
fn name_length_boundaries() {
    assert!(!name_length_ok("abcd")); // exactly 4: rejected
    assert!(name_length_ok("abcde")); // 5: accepted
    assert!(name_length_ok("abcdefghijklmnopqrstuvwx")); // 24: accepted
    assert!(!name_length_ok("abcdefghijklmnopqrstuvwxy")); // exactly 25: rejected
    assert!(!name_length_ok("bob"));
    assert!(!name_length_ok(""));
}

#[test]
fn handshake_rejects_short_name_without_registering() {
    let mut reg = Registry::new();
    let mut s = Session::new();
    s.begin_handshake();
    let r = handshake_line(&mut reg, s, "bob\n");
    match r {
        HandshakeResult::Rejected(s2) => {
            assert_eq!(reg.count(), 0);
            assert!(s2.write_buffer.ends_with(
                "That is not a valid username. What will your username be? "
            ));
            assert_eq!(s2.state, SessionState::Handshaking);
        }
        HandshakeResult::Accepted(_) => panic!("a 3-character name must be rejected"),
    }
}

#[test]
fn handshake_reprompts_then_accepts() {
    let mut reg = Registry::new();
    let mut s = Session::new();
    s.begin_handshake();
    let first = handshake_line(&mut reg, s, "bob\n");
    let s = match first {
        HandshakeResult::Rejected(s2) => s2,
        HandshakeResult::Accepted(_) => panic!("a 3-character name must be rejected"),
    };
    let second = handshake_line(&mut reg, s, "bobby\n");
    match second {
        HandshakeResult::Accepted(id) => {
            assert_eq!(id, 0);
            assert!(reg.has_id(0));
            assert_eq!(reg.count(), 1);
            let out = reg.drain_outputs();
            assert_eq!(out.len(), 1);
            assert_eq!(out[0].0, 0);
            let expected = format!(
                "{}{}{}",
                "Welcome to the server, what will your username be? ",
                "That is not a valid username. What will your username be? ",
                "Username is valid, joining session\n"
            );
            assert_eq!(out[0].1, expected);
        }
        HandshakeResult::Rejected(_) => panic!("a 5-character name must be accepted"),
    }
}

#[test]
fn handshake_boundary_lengths() {
    for (name, accepted) in [
        ("abcd\n", false),
        ("abcde\n", true),
        ("abcdefghijklmnopqrstuvwx\n", true),
        ("abcdefghijklmnopqrstuvwxy\n", false),
    ] {
        let mut reg = Registry::new();
        let mut s = Session::new();
        s.begin_handshake();
        let r = handshake_line(&mut reg, s, name);
        match r {
            HandshakeResult::Accepted(_) => assert!(accepted, "{name:?} must be rejected"),
            HandshakeResult::Rejected(_) => assert!(!accepted, "{name:?} must be accepted"),
        }
        assert_eq!(reg.count(), if accepted { 1 } else { 0 });
    }
}

#[test]
fn handshake_announces_join_to_others() {
    let mut reg = registry_with(&["alice"]);
    let mut s = Session::new();
    s.begin_handshake();
    s.flush_write_buffer(); // the greeting goes out before any line arrives
    let r = handshake_line(&mut reg, s, "bobby\n");
    assert!(matches!(r, HandshakeResult::Accepted(1)));
    let out = reg.drain_outputs();
    assert_eq!(out.len(), 2);
    assert_eq!(out[0].0, 0);
    assert_eq!(out[0].1, "bobby has joined\n");
    assert_eq!(out[1].0, 1);
    assert_eq!(out[1].1, "Username is valid, joining session\n");
}

#[test]
fn registered_ids_stay_unique() {
    let mut reg = Registry::new();
    let a = reg.register(handshaking_session("A"));
    let b = reg.register(handshaking_session("B"));
    let c = reg.register(handshaking_session("C"));
    assert_eq!((a, b, c), (0, 1, 2));
    reg.remove(b);
    let d = reg.register(handshaking_session("D"));
    // the counter never hands an id out twice, even after a removal
    assert_eq!(d, 3);
    assert!(reg.has_id(0) && reg.has_id(2) && reg.has_id(3));
    assert!(!reg.has_id(1));
}

#[test]
fn broadcast_skips_origin() {
    let mut reg = registry_with(&["A", "B"]);
    reg.broadcast("x", 0);
    let out = reg.drain_outputs();
    assert_eq!(out.len(), 2);
    assert_eq!(out[0], (0, String::new()));
    assert_eq!(out[1], (1, "x".to_string()));
}

#[test]
fn remove_is_idempotent() {
    let mut once = registry_with(&["A", "B", "C"]);
    let mut twice = registry_with(&["A", "B", "C"]);
    once.remove(1);
    twice.remove(1);
    twice.remove(1);
    assert_eq!(once.count(), twice.count());
    for id in 0..4 {
        assert_eq!(once.has_id(id), twice.has_id(id));
    }
    assert_eq!(once.drain_outputs(), twice.drain_outputs());
}

#[test]
fn remove_absent_id_is_a_no_op() {
    let mut reg = registry_with(&["A", "B"]);
    reg.remove(77);
    assert_eq!(reg.count(), 2);
    assert!(reg.has_id(0) && reg.has_id(1));
}

#[test]
fn three_sessions_hear_one_speaker() {
    let mut reg = registry_with(&["A", "B", "C"]);
    let alive = worker_step(&mut reg, 0, ReadEvent::Line("hello".to_string()));
    assert!(alive);
    let out = reg.drain_outputs();
    assert_eq!(out.len(), 3);
    assert_eq!(out[0], (0, String::new()));
    assert_eq!(out[1], (1, "A: hello\n".to_string()));
    assert_eq!(out[2], (2, "A: hello\n".to_string()));
}

#[test]
fn disconnect_removes_and_announces() {
    let mut reg = registry_with(&["A", "B", "C"]);
    let alive = worker_step(&mut reg, 1, ReadEvent::Disconnected);
    assert!(!alive);
    assert!(!reg.has_id(1));
    assert_eq!(reg.count(), 2);
    let out = reg.drain_outputs();
    assert_eq!(out.len(), 2);
    assert_eq!(out[0], (0, "B has left\n".to_string()));
    assert_eq!(out[1], (2, "B has left\n".to_string()));
}

#[test]
fn empty_read_changes_nothing() {
    let mut reg = registry_with(&["A", "B"]);
    let alive = worker_step(&mut reg, 0, ReadEvent::Empty);
    assert!(alive);
    assert_eq!(reg.count(), 2);
    let out = reg.drain_outputs();
    assert_eq!(out[0], (0, String::new()));
    assert_eq!(out[1], (1, String::new()));
}

#[test]
fn events_for_unknown_ids_change_nothing() {
    let mut reg = registry_with(&["A"]);
    assert!(!worker_step(&mut reg, 9, ReadEvent::Line("hi".to_string())));
    assert!(!worker_step(&mut reg, 9, ReadEvent::Disconnected));
    assert_eq!(reg.count(), 1);
    let out = reg.drain_outputs();
    assert_eq!(out, vec![(0, String::new())]);
}

#[test]
fn set_name_only_during_handshake() {
    let mut s = Session::new();
    assert_eq!(s.state, SessionState::Connecting);
    assert!(!s.set_name("alice".to_string()));
    assert_eq!(s.name, "");
    s.begin_handshake();
    assert_eq!(s.state, SessionState::Handshaking);
    assert!(s.set_name("alice".to_string()));
    assert_eq!(s.name, "alice");
}

#[test]
fn session_buffers_fill_flush_and_clear() {
    let mut s = Session::new();
    s.fill_write_buffer("one ");
    s.fill_write_buffer("two");
    assert_eq!(s.flush_write_buffer(), "one two");
    assert_eq!(s.write_buffer, "");
    s.store_read_chunk("abc");
    s.store_read_chunk("def");
    assert_eq!(s.read_buffer, "abcdef");
    s.clear_read_buffer();
    assert_eq!(s.read_buffer, "");
    s.fill_write_buffer("x");
    s.store_read_chunk("y");
    s.clear_buffers();
    assert_eq!(s.write_buffer, "");
    assert_eq!(s.read_buffer, "");
    s.mark_closed();
    assert_eq!(s.state, SessionState::Closed);
}

#[test]
fn begin_handshake_queues_the_greeting() {
    let mut s = Session::new();
    s.begin_handshake();
    assert_eq!(
        s.flush_write_buffer(),
        "Welcome to the server, what will your username be? "
    );
}
