use budgetchat::message::Message;
use budgetchat::name::{is_ascii_alnum, is_valid_name};
use budgetchat::registry::{participants_line, PresenceRegistry};
use budgetchat::session::{Session, SessionState};

fn join(id: u32, line: &str, reg: &mut PresenceRegistry) -> (Session, String, Message) {
    let mut s = Session::new(id);
    let adm = s.negotiate(line, reg).expect("name accepted");
    (s, adm.participants, adm.announcement)
}

#[test]
fn message_texts() {
    let j = Message::user_joined(3, "bob".to_string());
    assert_eq!(j.session_id, 3);
    assert_eq!(j.msg, "* bob has entered the room\n");
    let l = Message::user_left(4, "bob".to_string());
    assert_eq!(l.session_id, 4);
    assert_eq!(l.msg, "* bob has left the room\n");
    let c = Message::from_user(5, "bob".to_string(), "hi there".to_string());
    assert_eq!(c.session_id, 5);
    assert_eq!(c.msg, "[bob] hi there\n");
}

#[test]
fn welcome_prompt() {
    assert_eq!(Session::welcome(), "Welcome to budgetchat! What shall I call you?\n");
}

#[test]
fn name_rules() {
    assert!(is_valid_name("alice"));
    assert!(is_valid_name("Bob42"));
    assert!(is_valid_name("7"));
    assert!(!is_valid_name(""));
    assert!(!is_valid_name("al ice"));
    assert!(!is_valid_name("bob!"));
    assert!(!is_valid_name("zoë"));
    assert!(is_ascii_alnum('Z'));
    assert!(!is_ascii_alnum('_'));
}

#[test]
fn participant_lines() {
    assert_eq!(participants_line(&vec![]), "* List of participants: []\n");
    assert_eq!(participants_line(&vec!["a".to_string()]), "* List of participants: [a]\n");
    assert_eq!(
        participants_line(&vec!["a".to_string(), "b".to_string(), "c".to_string()]),
        "* List of participants: [a, b, c]\n"
    );
}

#[test]
fn registry_join_leave() {
    let mut reg = PresenceRegistry::new();
    assert!(reg.join(1, "alice".to_string()));
    assert!(reg.join(2, "bob".to_string()));
    assert!(!reg.join(1, "again".to_string()));
    assert_eq!(reg.snapshot(), vec!["alice".to_string(), "bob".to_string()]);
    reg.leave(1);
    assert!(!reg.contains(1));
    assert!(reg.contains(2));
    assert_eq!(reg.snapshot(), vec!["bob".to_string()]);
    reg.leave(1);
    assert_eq!(reg.snapshot(), vec!["bob".to_string()]);
}

#[test]
fn same_name_twice_is_allowed() {
    let mut reg = PresenceRegistry::new();
    let _ = join(1, "sam", &mut reg);
    let (_, list, _) = join(2, "sam", &mut reg);
    assert_eq!(list, "* List of participants: [sam]\n");
    assert_eq!(reg.snapshot(), vec!["sam".to_string(), "sam".to_string()]);
}

#[test]
fn valid_name_negotiates() {
    let mut reg = PresenceRegistry::new();
    let _ = join(1, "alice", &mut reg);
    let (s, list, ann) = join(2, "bob", &mut reg);
    assert_eq!(s.state, SessionState::Active);
    assert_eq!(s.name, "bob");
    assert_eq!(list, "* List of participants: [alice]\n");
    assert_eq!(ann.session_id, 2);
    assert_eq!(ann.msg, "* bob has entered the room\n");
}

#[test]
fn name_line_is_trimmed() {
    let mut reg = PresenceRegistry::new();
    let (s, _, ann) = join(1, "  alice \r", &mut reg);
    assert_eq!(s.name, "alice");
    assert_eq!(ann.msg, "* alice has entered the room\n");
    assert_eq!(reg.snapshot(), vec!["alice".to_string()]);
}

#[test]
fn invalid_names_close_silently() {
    for bad in ["", "   ", "bad name", "x-y", "héllo"] {
        let mut reg = PresenceRegistry::new();
        let _ = join(9, "carol", &mut reg);
        let mut s = Session::new(1);
        assert!(s.negotiate(bad, &mut reg).is_none());
        assert_eq!(s.state, SessionState::Closed);
        assert_eq!(reg.snapshot(), vec!["carol".to_string()]);
        assert!(s.close(&mut reg).is_none());
        assert_eq!(reg.snapshot(), vec!["carol".to_string()]);
    }
}

#[test]
fn taken_id_is_refused() {
    let mut reg = PresenceRegistry::new();
    let _ = join(1, "alice", &mut reg);
    let mut s = Session::new(1);
    assert!(s.negotiate("other", &mut reg).is_none());
    assert_eq!(s.state, SessionState::Closed);
    assert_eq!(reg.snapshot(), vec!["alice".to_string()]);
}

#[test]
fn no_self_echo() {
    let mut reg = PresenceRegistry::new();
    let (a, _, join_a) = join(1, "alice", &mut reg);
    let (b, _, _) = join(2, "bob", &mut reg);
    assert_eq!(a.deliver(&join_a), None);
    let said = a.chat("hello");
    assert_eq!(a.deliver(&said), None);
    assert_eq!(b.deliver(&said), Some("[alice] hello\n".to_string()));
}

#[test]
fn chat_line_is_trimmed() {
    let mut reg = PresenceRegistry::new();
    let (a, _, _) = join(1, "alice", &mut reg);
    let m = a.chat("  spaced out \r");
    assert_eq!(m.session_id, 1);
    assert_eq!(m.msg, "[alice] spaced out\n");
}

#[test]
fn departure_announced_once() {
    let mut reg = PresenceRegistry::new();
    let (mut a, _, _) = join(1, "alice", &mut reg);
    let (b, _, _) = join(2, "bob", &mut reg);
    let left = a.close(&mut reg).expect("active session announces departure");
    assert_eq!(left.session_id, 1);
    assert_eq!(b.deliver(&left), Some("* alice has left the room\n".to_string()));
    assert!(a.close(&mut reg).is_none());
    assert_eq!(a.state, SessionState::Closed);
    let (_, list, _) = join(3, "carol", &mut reg);
    assert_eq!(list, "* List of participants: [bob]\n");
}

#[test]
fn chat_order_is_kept() {
    let mut reg = PresenceRegistry::new();
    let (a, _, _) = join(1, "alice", &mut reg);
    let (b, _, _) = join(2, "bob", &mut reg);
    let bus = vec![a.chat("hi"), b.chat("me"), a.chat("bye")];
    let seen: Vec<String> = bus.iter().filter_map(|m| b.deliver(m)).collect();
    assert_eq!(seen, vec!["[alice] hi\n".to_string(), "[alice] bye\n".to_string()]);
}

#[test]
fn three_clients_scenario() {
    let mut reg = PresenceRegistry::new();
    let mut bus: Vec<Message> = Vec::new();
    let (alice, l1, j1) = join(1, "alice", &mut reg);
    assert_eq!(l1, "* List of participants: []\n");
    bus.push(j1);
    let (bob, l2, j2) = join(2, "bob", &mut reg);
    assert_eq!(l2, "* List of participants: [alice]\n");
    bus.push(j2);
    let (carol, l3, j3) = join(3, "carol", &mut reg);
    assert_eq!(l3, "* List of participants: [alice, bob]\n");
    bus.push(j3);
    bus.push(bob.chat("hello"));
    // each session sees only what was published after it subscribed
    let alice_sees: Vec<String> = bus[1..].iter().filter_map(|m| alice.deliver(m)).collect();
    let bob_sees: Vec<String> = bus[2..].iter().filter_map(|m| bob.deliver(m)).collect();
    let carol_sees: Vec<String> = bus[3..].iter().filter_map(|m| carol.deliver(m)).collect();
    assert_eq!(
        alice_sees,
        vec![
            "* bob has entered the room\n".to_string(),
            "* carol has entered the room\n".to_string(),
            "[bob] hello\n".to_string()
        ]
    );
    assert_eq!(
        bob_sees,
        vec!["* carol has entered the room\n".to_string()]
    );
    assert_eq!(carol_sees, vec!["[bob] hello\n".to_string()]);
}

#[test]
fn empty_name_scenario() {
    let mut reg = PresenceRegistry::new();
    let (alice, _, _) = join(1, "alice", &mut reg);
    let mut s = Session::new(2);
    assert!(s.negotiate("", &mut reg).is_none());
    assert_eq!(s.state, SessionState::Closed);
    // nothing is published: closing a never-joined session announces nothing
    assert!(s.close(&mut reg).is_none());
    assert_eq!(reg.snapshot(), vec!["alice".to_string()]);
    assert_eq!(alice.state, SessionState::Active);
}
