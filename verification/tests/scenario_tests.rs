use chat_server::monitor::{read_entry, LineKind, Monitor, ServerRead};
use chat_server::room::{deliver, ChatMessage, ChatRoom, Delivery, Incoming, ReadOutcome, Session, SessionAction};
use chat_server::stress::{message_line, nick_line};

fn send(action: SessionAction, out: &mut Vec<ChatMessage>) {
    match action {
        SessionAction::Arrive(m) | SessionAction::Broadcast(m) | SessionAction::Depart(m) => out.push(m),
        SessionAction::Ignore | SessionAction::Close => {}
    }
}

/// 500 clients of 5 messages each, watched by a monitor that joined first:
/// the monitor sees 500 arrivals, 2,500 chat lines and 500 departures.
#[test]
fn monitor_sees_a_whole_load_test() {
    let mut room = ChatRoom::new();
    let mut channel: Vec<ChatMessage> = Vec::new();
    let monitor_id = 10_000;
    let mut watcher = Session::new(monitor_id);
    send(watcher.step(&mut room, ReadOutcome::Line("MONITOR\n".to_string()), "00:00:00".to_string()), &mut channel);
    channel.clear();

    let mut sessions: Vec<Session> = (0..500u64).map(Session::new).collect();
    for (i, s) in sessions.iter_mut().enumerate() {
        send(s.step(&mut room, ReadOutcome::Line(nick_line(i)), "12:00:00".to_string()), &mut channel);
    }
    for j in 0..5 {
        for (i, s) in sessions.iter_mut().enumerate() {
            send(s.step(&mut room, ReadOutcome::Line(message_line(i, j)), "12:00:01".to_string()), &mut channel);
        }
    }
    for s in sessions.iter_mut() {
        send(s.step(&mut room, ReadOutcome::Eof, "12:00:02".to_string()), &mut channel);
    }
    assert_eq!(room.online(), 1);
    assert_eq!(room.posted_count(), 2500);

    let mut monitor = Monitor::new("MONITOR".to_string());
    for m in channel {
        if let Delivery::Write(line) = deliver(Incoming::Message(m), monitor_id) {
            let (entry, go) = read_entry(ServerRead::Line(line));
            assert!(go);
            monitor.receive(entry.unwrap());
        }
    }
    let entries = monitor.entries();
    assert_eq!(entries.len(), 3500);
    assert_eq!(entries.iter().filter(|e| e.kind == LineKind::Server).count(), 1000);
    assert_eq!(entries.iter().filter(|e| e.kind == LineKind::Chat).count(), 2500);
    assert_eq!(entries[0].text, "[12:00:00] SERVER: [client_0000] 입장 (현재 2명)");
    assert_eq!(entries[500].text, "[12:00:01] client_0000: client_0000 메시지 #0");
    assert_eq!(entries[3499].text, "[12:00:02] SERVER: [client_0499] 퇴장 (현재 1명)");
}

/// A client never receives its own lines, but everybody else does.
#[test]
fn nobody_hears_their_own_echo() {
    let mut room = ChatRoom::new();
    let mut a = Session::new(1);
    let mut b = Session::new(2);
    a.step(&mut room, ReadOutcome::Line("A".to_string()), "t".to_string());
    b.step(&mut room, ReadOutcome::Line("B".to_string()), "t".to_string());
    let m = match a.step(&mut room, ReadOutcome::Line("hi".to_string()), "10:00:00".to_string()) {
        SessionAction::Broadcast(m) => m,
        _ => panic!("expected a chat line"),
    };
    assert!(matches!(deliver(Incoming::Message(m.clone()), 1), Delivery::Skip));
    match deliver(Incoming::Message(m), 2) {
        Delivery::Write(l) => assert_eq!(l, "[10:00:00] A: hi\n"),
        _ => panic!("expected delivery"),
    }
}
