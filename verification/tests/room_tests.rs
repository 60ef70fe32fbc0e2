use chat_server::room::{
    deliver, ChatMessage, ChatRoom, Delivery, Incoming, ReadOutcome, Session, SessionAction,
};

fn line(s: &str) -> ReadOutcome {
    ReadOutcome::Line(s.to_string())
}

fn stamp() -> String {
    "12:03:11".to_string()
}

#[test]
fn join_announces_arrival_with_count() {
    let mut room = ChatRoom::new();
    let m = room.join(1, "Alice".to_string(), stamp());
    assert_eq!(m.from, "SERVER");
    assert_eq!(m.sender, 1);
    assert_eq!(m.body, "[Alice] 입장 (현재 1명)");
    assert_eq!(m.timestamp, "12:03:11");
    let m = room.join(2, "Bob".to_string(), stamp());
    assert_eq!(m.body, "[Bob] 입장 (현재 2명)");
    assert_eq!(room.online(), 2);
    assert!(room.is_member(1) && room.is_member(2) && !room.is_member(3));
}

#[test]
fn leave_announces_departure_with_count() {
    let mut room = ChatRoom::new();
    room.join(1, "Alice".to_string(), stamp());
    room.join(2, "Bob".to_string(), stamp());
    let m = room.leave(1, "Alice", stamp());
    assert_eq!(m.body, "[Alice] 퇴장 (현재 1명)");
    assert_eq!(m.from, "SERVER");
    assert_eq!(room.online(), 1);
    assert!(!room.is_member(1));
}

#[test]
fn arrival_then_departure_restores_room() {
    let mut room = ChatRoom::new();
    room.join(7, "x".to_string(), stamp());
    let before = room.online();
    room.join(8, "y".to_string(), stamp());
    assert_eq!(room.online(), before + 1);
    room.leave(8, "y", stamp());
    assert_eq!(room.online(), before);
    assert!(room.is_member(7) && !room.is_member(8));
}

#[test]
fn post_trims_and_counts_lines() {
    let mut room = ChatRoom::new();
    assert!(room.post(1, "Alice", "   \r\n", stamp()).is_none());
    assert_eq!(room.posted_count(), 0);
    let m = room.post(1, "Alice", "  안녕하세요!\n", stamp()).unwrap();
    assert_eq!(m.from, "Alice");
    assert_eq!(m.body, "안녕하세요!");
    assert_eq!(m.sender, 1);
    assert_eq!(room.posted_count(), 1);
}

fn msg(sender: u64) -> ChatMessage {
    ChatMessage {
        from: "Alice".to_string(),
        sender,
        body: "hi there".to_string(),
        timestamp: "09:05:01".to_string(),
    }
}

#[test]
fn own_messages_are_not_echoed() {
    assert!(matches!(deliver(Incoming::Message(msg(4)), 4), Delivery::Skip));
}

#[test]
fn other_messages_are_written_as_lines() {
    match deliver(Incoming::Message(msg(4)), 5) {
        Delivery::Write(l) => assert_eq!(l, "[09:05:01] Alice: hi there\n"),
        _ => panic!("expected a line"),
    }
}

#[test]
fn lag_and_close_of_the_channel() {
    assert!(matches!(deliver(Incoming::Lagged(12), 1), Delivery::ReportLag(12)));
    assert!(matches!(deliver(Incoming::Closed, 1), Delivery::Stop));
}

#[test]
fn session_full_lifecycle() {
    let mut room = ChatRoom::new();
    let mut s = Session::new(3);
    assert_eq!(s.connection(), 3);
    assert!(!s.is_chatting());
    match s.step(&mut room, line("  Carol \n"), stamp()) {
        SessionAction::Arrive(m) => assert_eq!(m.body, "[Carol] 입장 (현재 1명)"),
        _ => panic!("expected an arrival"),
    }
    assert!(room.is_member(3));
    assert!(s.is_chatting());
    assert!(matches!(s.step(&mut room, line("\n"), stamp()), SessionAction::Ignore));
    match s.step(&mut room, line("hello\n"), stamp()) {
        SessionAction::Broadcast(m) => {
            assert_eq!(m.from, "Carol");
            assert_eq!(m.body, "hello");
        }
        _ => panic!("expected a chat line"),
    }
    match s.step(&mut room, ReadOutcome::Eof, stamp()) {
        SessionAction::Depart(m) => assert_eq!(m.body, "[Carol] 퇴장 (현재 0명)"),
        _ => panic!("expected a departure"),
    }
    assert!(s.is_finished());
    assert!(!room.is_member(3));
    assert!(matches!(s.step(&mut room, line("late"), stamp()), SessionAction::Close));
    assert_eq!(room.posted_count(), 1);
}

#[test]
fn blank_nickname_closes_without_joining() {
    let mut room = ChatRoom::new();
    let mut s = Session::new(1);
    assert!(matches!(s.step(&mut room, line("   \n"), stamp()), SessionAction::Close));
    assert!(s.is_finished());
    assert_eq!(room.online(), 0);
}

#[test]
fn no_nickname_closes_without_joining() {
    let mut room = ChatRoom::new();
    let mut a = Session::new(1);
    assert!(matches!(a.step(&mut room, ReadOutcome::Eof, stamp()), SessionAction::Close));
    let mut b = Session::new(2);
    assert!(matches!(b.step(&mut room, ReadOutcome::Failed, stamp()), SessionAction::Close));
    assert_eq!(room.online(), 0);
}

#[test]
fn read_error_while_chatting_departs() {
    let mut room = ChatRoom::new();
    let mut s = Session::new(9);
    s.step(&mut room, line("Dan"), stamp());
    assert!(matches!(s.step(&mut room, ReadOutcome::Failed, stamp()), SessionAction::Depart(_)));
    assert_eq!(room.online(), 0);
}

#[test]
fn sessions_do_not_disturb_each_other() {
    let mut room = ChatRoom::new();
    let mut a = Session::new(1);
    let mut b = Session::new(2);
    a.step(&mut room, line("A"), stamp());
    b.step(&mut room, line("B"), stamp());
    b.step(&mut room, ReadOutcome::Eof, stamp());
    assert!(room.is_member(1));
    match a.step(&mut room, ReadOutcome::Eof, stamp()) {
        SessionAction::Depart(m) => assert_eq!(m.body, "[A] 퇴장 (현재 0명)"),
        _ => panic!("expected a departure"),
    }
}
