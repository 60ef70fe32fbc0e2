use chat_server::stress::{
    ends_batch, expected_deliveries, message_line, nick_line, progress_line, settings_from_args,
    stagger_ms, ClientAction, ClientScript, ConnectRetry, ConnectStep, StressProfile,
};

fn args(v: &[&str]) -> Vec<String> {
    v.iter().map(|s| s.to_string()).collect()
}

#[test]
fn profiles_are_valid() {
    assert!(StressProfile::standard().is_valid());
    assert!(StressProfile::extended().is_valid());
    let mut p = StressProfile::standard();
    p.batch_size = 0;
    assert!(!p.is_valid());
}

#[test]
fn arguments_and_defaults() {
    let p = StressProfile::standard();
    let s = settings_from_args(&p, &args(&["stress_test"]));
    assert_eq!((s.clients, s.messages, s.server.as_str()), (500, 5, "127.0.0.1:8080"));
    let s = settings_from_args(&p, &args(&["stress_test", "100", "10"]));
    assert_eq!((s.clients, s.messages), (100, 10));
    let s = settings_from_args(&p, &args(&["t", "1000", "3", "192.168.0.10:8080"]));
    assert_eq!((s.clients, s.messages, s.server.as_str()), (1000, 3, "192.168.0.10:8080"));
    let s = settings_from_args(&p, &args(&["t", "many", "-2"]));
    assert_eq!((s.clients, s.messages), (500, 5));
    let e = StressProfile::extended();
    let s = settings_from_args(&e, &args(&["t"]));
    assert_eq!((s.clients, s.messages), (1000, 5));
}

#[test]
fn client_lines() {
    assert_eq!(nick_line(42), "client_0042\n");
    assert_eq!(nick_line(12345), "client_12345\n");
    assert_eq!(message_line(7, 3), "client_0007 메시지 #3\n");
}

#[test]
fn stagger_and_batches() {
    let p = StressProfile::standard();
    assert_eq!(stagger_ms(&p, 0), 0);
    assert_eq!(stagger_ms(&p, 99), 495);
    assert_eq!(stagger_ms(&p, 100), 0);
    assert_eq!(stagger_ms(&p, 499), 495);
    let e = StressProfile::extended();
    assert_eq!(stagger_ms(&e, 999), 999);
    assert_eq!(stagger_ms(&e, 1000), 0);
    assert!(ends_batch(&p, 49) && !ends_batch(&p, 50) && ends_batch(&p, 99));
    assert!(ends_batch(&e, 99) && !ends_batch(&e, 49));
}

#[test]
fn expected_delivery_formula() {
    assert_eq!(expected_deliveries(2500, 500), 1_247_500);
    assert_eq!(expected_deliveries(10, 1), 0);
    assert_eq!(expected_deliveries(10, 0), 0);
}

#[test]
fn progress_report() {
    assert_eq!(progress_line(50, 500, 0), "  → 50/500 연결 완료 (실패: 0)");
}

#[test]
fn retries_back_off_linearly() {
    let (mut r, first) = ConnectRetry::start(5, 200);
    assert_eq!(first, ConnectStep::Attempt);
    let waits: Vec<ConnectStep> = (0..5).map(|_| r.failed()).collect();
    assert_eq!(
        waits,
        vec![
            ConnectStep::Wait(200),
            ConnectStep::Wait(400),
            ConnectStep::Wait(600),
            ConnectStep::Wait(800),
            ConnectStep::GiveUp
        ]
    );
    assert_eq!(r.failed(), ConnectStep::GiveUp);
    let (_, first) = ConnectRetry::start(0, 200);
    assert_eq!(first, ConnectStep::GiveUp);
    let (mut r, _) = ConnectRetry::start(7, 150);
    assert_eq!(r.failed(), ConnectStep::Wait(150));
    assert_eq!(r.failed(), ConnectStep::Wait(300));
}

fn describe(a: &ClientAction) -> String {
    match a {
        ClientAction::Write(l) => format!("write {l:?}"),
        ClientAction::StartReceiver => "start".to_string(),
        ClientAction::Sleep(ms) => format!("sleep {ms}"),
        ClientAction::CountSent(ms) => format!("sent {ms}"),
        ClientAction::StopReceiver => "stop-recv".to_string(),
        ClientAction::Stop => "stop".to_string(),
    }
}

#[test]
fn client_script_runs_in_order() {
    let p = StressProfile::standard();
    let mut c = ClientScript::new(&p, 3, 2);
    let mut seen = Vec::new();
    for _ in 0..10 {
        seen.push(describe(&c.next(true)));
    }
    assert_eq!(
        seen,
        vec![
            "write \"client_0003\\n\"",
            "start",
            "sleep 15",
            "write \"client_0003 메시지 #0\\n\"",
            "sent 10",
            "write \"client_0003 메시지 #1\\n\"",
            "sent 10",
            "sleep 3000",
            "stop-recv",
            "stop",
        ]
    );
}

#[test]
fn client_script_stops_when_nick_fails() {
    let p = StressProfile::extended();
    let mut c = ClientScript::new(&p, 1, 5);
    assert!(matches!(c.next(true), ClientAction::Write(_)));
    assert!(matches!(c.next(false), ClientAction::Stop));
    assert!(matches!(c.next(true), ClientAction::Stop));
}

#[test]
fn client_script_holds_when_a_message_fails() {
    let p = StressProfile::extended();
    let mut c = ClientScript::new(&p, 1, 5);
    c.next(true);
    c.next(true);
    assert!(matches!(c.next(true), ClientAction::Sleep(1)));
    assert!(matches!(c.next(true), ClientAction::Write(_)));
    assert!(matches!(c.next(false), ClientAction::Sleep(5000)));
    assert!(matches!(c.next(true), ClientAction::StopReceiver));
}

#[test]
fn profile_numbers() {
    let p = StressProfile::standard();
    assert_eq!(
        (p.default_clients, p.default_messages, p.retries, p.backoff_ms, p.batch_size, p.batch_gap_ms),
        (500, 5, 5, 200, 50, 50)
    );
    assert_eq!((p.stagger_period, p.stagger_step_ms, p.message_interval_ms, p.hold_ms), (100, 5, 10, 3000));
    let e = StressProfile::extended();
    assert_eq!(
        (e.default_clients, e.default_messages, e.retries, e.backoff_ms, e.batch_size, e.batch_gap_ms),
        (1000, 5, 7, 150, 100, 80)
    );
    assert_eq!((e.stagger_period, e.stagger_step_ms, e.message_interval_ms, e.hold_ms), (1000, 1, 10, 5000));
}

#[test]
fn standard_retries_wait_two_seconds_in_all() {
    let p = StressProfile::standard();
    let (mut r, mut step) = ConnectRetry::start(p.retries, p.backoff_ms);
    let mut attempts = 0;
    let mut total = 0;
    loop {
        match step {
            ConnectStep::Attempt => {
                attempts += 1;
                step = r.failed();
            }
            ConnectStep::Wait(ms) => {
                total += ms;
                step = ConnectStep::Attempt;
            }
            ConnectStep::GiveUp => break,
        }
    }
    assert_eq!((attempts, total), (5, 2000));
}
