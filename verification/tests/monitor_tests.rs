use chat_server::monitor::{
    connected_note, cursor_column, line_style, LineStyle, Shade, log_title, monitor_settings, outgoing_line, read_entry, Key,
    KeyOutcome, KeyPress, LineKind, LogEntry, Monitor, ServerRead, MAX_MESSAGES, TRIM_CHUNK,
};

fn press(key: Key) -> KeyPress {
    KeyPress { key, ctrl: false, pressed: true }
}

fn chat(text: &str) -> LogEntry {
    LogEntry { kind: LineKind::Chat, text: text.to_string() }
}

fn type_text(m: &mut Monitor, s: &str) {
    for c in s.chars() {
        assert!(matches!(m.handle_key(press(Key::Char(c))), KeyOutcome::Continue));
    }
}

#[test]
fn enter_sends_trimmed_input_and_shows_it_locally() {
    let mut m = Monitor::new("MONITOR".to_string());
    type_text(&mut m, "  모두 안녕하세요 ");
    match m.handle_key(press(Key::Enter)) {
        KeyOutcome::Send(s) => assert_eq!(s, "모두 안녕하세요"),
        _ => panic!("expected a line to send"),
    }
    assert_eq!(m.input(), "");
    let e = &m.entries()[0];
    assert_eq!(e.kind, LineKind::SelfMe);
    assert_eq!(e.text, "[나] MONITOR: 모두 안녕하세요");
}

#[test]
fn enter_on_blank_input_sends_nothing() {
    let mut m = Monitor::new("M".to_string());
    type_text(&mut m, "   ");
    assert!(matches!(m.handle_key(press(Key::Enter)), KeyOutcome::Continue));
    assert_eq!(m.input(), "");
    assert!(m.entries().is_empty());
}

#[test]
fn backspace_undoes_typing() {
    let mut m = Monitor::new("M".to_string());
    type_text(&mut m, "ab한");
    m.handle_key(press(Key::Backspace));
    assert_eq!(m.input(), "ab");
    m.handle_key(press(Key::Backspace));
    m.handle_key(press(Key::Backspace));
    m.handle_key(press(Key::Backspace));
    assert_eq!(m.input(), "");
}

#[test]
fn quit_keys() {
    let mut m = Monitor::new("M".to_string());
    assert!(matches!(m.handle_key(press(Key::Esc)), KeyOutcome::Quit));
    let ctrl_c = KeyPress { key: Key::Char('c'), ctrl: true, pressed: true };
    assert!(matches!(m.handle_key(ctrl_c), KeyOutcome::Quit));
    assert!(matches!(m.handle_key(press(Key::Char('c'))), KeyOutcome::Continue));
    assert_eq!(m.input(), "c");
    let ctrl_x = KeyPress { key: Key::Char('x'), ctrl: true, pressed: true };
    m.handle_key(ctrl_x);
    assert_eq!(m.input(), "cx");
}

#[test]
fn releases_are_ignored() {
    let mut m = Monitor::new("M".to_string());
    let release = KeyPress { key: Key::Esc, ctrl: false, pressed: false };
    assert!(matches!(m.handle_key(release), KeyOutcome::Continue));
    let release = KeyPress { key: Key::Char('a'), ctrl: false, pressed: false };
    m.handle_key(release);
    assert_eq!(m.input(), "");
}

#[test]
fn scrolling_is_bounded_by_the_log() {
    let mut m = Monitor::new("M".to_string());
    for i in 0..25 {
        m.receive(chat(&format!("line {i}")));
    }
    m.handle_key(press(Key::PageUp));
    assert_eq!(m.visible_range(5), (10, 15));
    m.handle_key(press(Key::PageUp));
    m.handle_key(press(Key::PageUp));
    assert_eq!(m.visible_range(5), (0, 0));
    assert!(m.header_text().ends_with("스크롤 -25"));
    m.handle_key(press(Key::PageDown));
    assert_eq!(m.visible_range(5), (5, 10));
    m.handle_key(press(Key::End));
    assert_eq!(m.visible_range(5), (20, 25));
    assert!(m.header_text().ends_with("LIVE"));
    m.handle_key(press(Key::PageDown));
    assert_eq!(m.visible_range(100), (0, 25));
}

#[test]
fn page_up_then_down_returns() {
    let mut m = Monitor::new("M".to_string());
    for i in 0..30 {
        m.receive(chat(&format!("{i}")));
    }
    m.handle_key(press(Key::PageUp));
    let before = m.visible_range(7);
    m.handle_key(press(Key::PageUp));
    m.handle_key(press(Key::PageDown));
    assert_eq!(m.visible_range(7), before);
}

#[test]
fn log_is_trimmed_in_chunks() {
    let mut m = Monitor::new("M".to_string());
    for i in 0..MAX_MESSAGES {
        m.receive(chat(&format!("{i}")));
    }
    assert_eq!(m.entries().len(), MAX_MESSAGES);
    m.receive(chat("newest"));
    assert_eq!(m.entries().len(), MAX_MESSAGES + 1 - TRIM_CHUNK);
    assert_eq!(m.entries()[0].text, "1000");
    assert_eq!(m.entries().last().unwrap().text, "newest");
}

#[test]
fn trimming_resets_a_scroll_beyond_the_log() {
    let mut m = Monitor::new("M".to_string());
    for i in 0..MAX_MESSAGES {
        m.receive(chat(&format!("{i}")));
    }
    for _ in 0..450 {
        m.handle_key(press(Key::PageUp));
    }
    assert!(m.header_text().ends_with("스크롤 -4500"));
    m.receive(chat("x"));
    assert!(m.header_text().ends_with("LIVE"));
}

#[test]
fn header_and_title_texts() {
    let mut m = Monitor::new("MONITOR".to_string());
    m.receive(chat("a"));
    m.receive(chat("b"));
    assert_eq!(m.header_text(), " 🖥  서버 모니터  |  닉: MONITOR  |  메시지: 2  |  LIVE");
    assert_eq!(log_title(1197, 1243, 1243), " 채팅 로그 (1198~1243 / 1243) ");
    assert_eq!(log_title(0, 0, 0), " 채팅 로그 (1~0 / 0) ");
}

#[test]
fn cursor_counts_wide_characters_twice() {
    assert_eq!(cursor_column(0, 40, ""), Some(1));
    assert_eq!(cursor_column(0, 40, "ab"), Some(3));
    assert_eq!(cursor_column(2, 40, "한글"), Some(7));
    assert_eq!(cursor_column(0, 6, "abcdefgh"), Some(5));
    assert_eq!(cursor_column(0, 1, "abc"), Some(1));
    assert_eq!(cursor_column(65534, 40, "ab"), None);
    let long: String = std::iter::repeat('한').take(40000).collect();
    assert_eq!(cursor_column(0, 40, &long), None);
    let long: String = std::iter::repeat('a').take(65535).collect();
    assert_eq!(cursor_column(0, 40, &long), Some(39));
}

#[test]
fn server_lines_are_classified() {
    let (e, go) = read_entry(ServerRead::Line("[12:03:11] SERVER: [client_0042] 입장 (현재 412명)\r\n".to_string()));
    let e = e.unwrap();
    assert!(go);
    assert_eq!(e.kind, LineKind::Server);
    assert_eq!(e.text, "[12:03:11] SERVER: [client_0042] 입장 (현재 412명)");
    let (e, go) = read_entry(ServerRead::Line("[12:03:11] client_0042: client_0042 메시지 #0\n".to_string()));
    assert!(go);
    assert_eq!(e.unwrap().kind, LineKind::Chat);
    let (e, go) = read_entry(ServerRead::Line("\r\n".to_string()));
    assert!(e.is_none() && go);
}

#[test]
fn end_of_connection_and_errors_stop_the_reader() {
    let (e, go) = read_entry(ServerRead::Closed);
    assert!(!go);
    let e = e.unwrap();
    assert_eq!(e.kind, LineKind::Sys);
    assert_eq!(e.text, "⚠️  서버 연결이 종료되었습니다.");
    let (e, go) = read_entry(ServerRead::Failed("reset".to_string()));
    assert!(!go);
    assert_eq!(e.unwrap().text, "⚠️  읽기 오류: reset");
}

#[test]
fn connection_note_and_outgoing_lines() {
    let e = connected_note("127.0.0.1:8080", "MONITOR");
    assert_eq!(e.kind, LineKind::Sys);
    assert_eq!(e.text, "✅ 127.0.0.1:8080 에 [MONITOR] 닉네임으로 접속됨");
    assert_eq!(outgoing_line("hi"), "hi\n");
}

#[test]
fn monitor_arguments() {
    let args = vec!["monitor".to_string()];
    assert_eq!(monitor_settings(&args), ("127.0.0.1:8080".to_string(), "MONITOR".to_string()));
    let args = vec!["monitor".to_string(), "10.0.0.1:9000".to_string(), "ADMIN".to_string()];
    assert_eq!(monitor_settings(&args), ("10.0.0.1:9000".to_string(), "ADMIN".to_string()));
}

#[test]
fn sending_into_a_full_log_trims_it_too() {
    let mut m = Monitor::new("M".to_string());
    for i in 0..MAX_MESSAGES {
        m.receive(chat(&format!("{i}")));
    }
    type_text(&mut m, "hello");
    assert!(matches!(m.handle_key(press(Key::Enter)), KeyOutcome::Send(_)));
    assert_eq!(m.entries().len(), MAX_MESSAGES + 1 - TRIM_CHUNK);
    assert_eq!(m.entries()[0].text, "1000");
    assert_eq!(m.entries().last().unwrap().text, "[나] M: hello");
    assert!(m.header_text().ends_with("LIVE"));
}

#[test]
fn log_never_exceeds_its_cap() {
    let mut m = Monitor::new("M".to_string());
    for i in 0..12_000 {
        if i % 3 == 0 {
            type_text(&mut m, "x");
            m.handle_key(press(Key::Enter));
        } else {
            m.receive(chat("y"));
        }
        assert!(m.entries().len() <= MAX_MESSAGES);
    }
}

#[test]
fn line_styles() {
    assert_eq!(line_style(LineKind::Server), LineStyle { color: Shade::Yellow, bold: true });
    assert_eq!(line_style(LineKind::SelfMe), LineStyle { color: Shade::Green, bold: true });
    assert_eq!(line_style(LineKind::Sys), LineStyle { color: Shade::Magenta, bold: false });
    assert_eq!(line_style(LineKind::Chat), LineStyle { color: Shade::White, bold: false });
}
