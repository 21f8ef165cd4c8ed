use companion::control::{check_protocol, Control, RefreshInterval};
use companion::json::{read_json_record, write_json_record};
use companion::sampler::{CpuLoad, CpuSample, MemorySample, SystemSample};
use companion::session::{
    CompanionFrame, HostAction, HostFrame, LoopAction, LoopEvent, MessageTarget, Payload,
    SamplerLoop, Session, PROTOCOL_VERSION,
};
use companion::text::decimal;
use serde_json::Value;

const REFUSAL: &str = "refreshInterval must be one of the manifest values: 1s, 2s, or 5s";

fn settings(interval: Value) -> Value {
    let mut map = serde_json::Map::new();
    map.insert("refreshInterval".to_owned(), interval);
    Value::Object(map)
}

fn init(v: u32, interval: &str) -> HostFrame {
    HostFrame::Init { v, device_settings: settings(Value::from(interval)) }
}

fn change(v: u32, interval: &str) -> HostFrame {
    HostFrame::Settings { v, device_settings: settings(Value::from(interval)) }
}

fn assert_refused(action: HostAction, expected_code: &str, expected_message: &str) {
    match action {
        HostAction::Refuse(CompanionFrame::Error { v, message, code }) => {
            assert_eq!(v, 5);
            assert_eq!(code, expected_code);
            assert_eq!(message, expected_message);
        }
        other => panic!("not refused: {other:?}"),
    }
}

fn running() -> Session {
    let mut session = Session::new();
    assert!(matches!(
        session.handle(&init(5, "1s")),
        HostAction::SetInterval(RefreshInterval::OneSecond)
    ));
    assert!(matches!(
        session.interval_applied(Ok(())),
        HostAction::Start(CompanionFrame::Ready { v: 5 })
    ));
    session
}

fn sample() -> SystemSample {
    SystemSample {
        captured_at_unix_ms: 7,
        cpu: CpuSample { load: CpuLoad { busy: 1, total: 2 }, logical_processors: 3 },
        memory: MemorySample { used_bytes: 4, total_bytes: 5 },
        gpu: None,
    }
}

#[test]
fn protocol_must_be_the_known_one() {
    let refused = Err("MYWALLPAPER_PROTOCOL must be process-v2".to_owned());
    assert_eq!(check_protocol(Some("process-v2")), Ok(()));
    assert_eq!(check_protocol(Some("process-v1")), refused);
    assert_eq!(check_protocol(None), refused);
    assert_eq!(PROTOCOL_VERSION, 5);
}

#[test]
fn intervals_are_named_by_the_settings() {
    for (text, interval, seconds) in [
        ("1s", RefreshInterval::OneSecond, 1),
        ("2s", RefreshInterval::TwoSeconds, 2),
        ("5s", RefreshInterval::FiveSeconds, 5),
    ] {
        assert_eq!(RefreshInterval::from_setting(Some(text)), Ok(interval));
        assert_eq!(
            RefreshInterval::from_settings(&settings(Value::from(text))),
            Ok(interval)
        );
        assert_eq!(interval.seconds(), seconds);
    }
    for text in ["", "3s", "1S", " 1s", "1s "] {
        assert_eq!(RefreshInterval::from_setting(Some(text)), Err(REFUSAL.to_owned()));
    }
    assert_eq!(RefreshInterval::from_setting(None), Err(REFUSAL.to_owned()));
}

#[test]
fn settings_travel_unchanged() {
    let sent = settings(Value::from("2s"));
    let mut encoded = Vec::new();
    write_json_record(&mut encoded, &sent).unwrap();
    let received = read_json_record(&mut encoded.as_slice()).unwrap().unwrap();
    assert_eq!(
        RefreshInterval::from_settings(&received),
        Ok(RefreshInterval::TwoSeconds)
    );
}

#[test]
fn interval_is_set_only_by_a_valid_setting() {
    let mut control = Control::new();
    assert_eq!(control, Control { running: true, interval: RefreshInterval::OneSecond });
    assert_eq!(control.set_interval(&settings(Value::from("5s"))), Ok(()));
    assert_eq!(control.interval, RefreshInterval::FiveSeconds);
    for value in [
        settings(Value::from("7s")),
        settings(Value::from(2)),
        settings(Value::Null),
        Value::Object(serde_json::Map::new()),
        Value::from("1s"),
    ] {
        assert_eq!(control.set_interval(&value), Err(REFUSAL.to_owned()));
        assert_eq!(control.interval, RefreshInterval::FiveSeconds);
    }
    control.stop();
    assert_eq!(control, Control { running: false, interval: RefreshInterval::FiveSeconds });
    control.apply(RefreshInterval::TwoSeconds);
    assert_eq!(control, Control { running: false, interval: RefreshInterval::TwoSeconds });
}

#[test]
fn companion_starts_once_asked() {
    let mut session = running();
    assert_eq!(session, Session::Running);
    assert!(matches!(
        session.handle(&change(5, "2s")),
        HostAction::SetInterval(RefreshInterval::TwoSeconds)
    ));
    assert!(matches!(session.interval_applied(Ok(())), HostAction::Continue));
    assert!(matches!(session.handle(&HostFrame::Message { v: 5 }), HostAction::Continue));
    assert_eq!(session, Session::Running);
    assert!(matches!(session.handle(&HostFrame::Shutdown { v: 5 }), HostAction::Stop));
    assert_eq!(session, Session::Closed);
}

#[test]
fn companion_refuses_to_start_twice() {
    let mut session = running();
    assert_refused(
        session.handle(&init(5, "1s")),
        "protocol-state",
        "invalid companion lifecycle frame",
    );
    assert_eq!(session, Session::Closed);
}

#[test]
fn frames_before_the_start_are_refused() {
    for frame in [change(5, "1s"), HostFrame::Message { v: 5 }] {
        let mut session = Session::new();
        assert_refused(
            session.handle(&frame),
            "protocol-state",
            "invalid companion lifecycle frame",
        );
        assert_eq!(session, Session::Closed);
    }
    let mut session = Session::new();
    assert!(matches!(session.handle(&HostFrame::Shutdown { v: 5 }), HostAction::Stop));
}

#[test]
fn other_versions_are_refused() {
    for (v, message) in [
        (0, "unsupported protocol version 0"),
        (4, "unsupported protocol version 4"),
        (u32::MAX, "unsupported protocol version 4294967295"),
    ] {
        for frame in [
            init(v, "1s"),
            change(v, "1s"),
            HostFrame::Message { v },
            HostFrame::Shutdown { v },
        ] {
            assert_eq!(frame.version(), v);
            let mut waiting = Session::new();
            assert_refused(waiting.handle(&frame), "protocol-version", message);
            let mut started = running();
            assert_refused(started.handle(&frame), "protocol-version", message);
            assert_eq!(started, Session::Closed);
        }
    }
}

#[test]
fn invalid_settings_are_refused() {
    let mut session = Session::new();
    assert_refused(session.handle(&init(5, "9s")), "settings-invalid", REFUSAL);
    let mut session = running();
    assert_refused(session.handle(&change(5, "")), "settings-invalid", REFUSAL);
    assert_eq!(session, Session::Closed);
}

#[test]
fn settings_that_cannot_be_applied_are_refused() {
    let mut session = Session::new();
    session.handle(&init(5, "2s"));
    assert_eq!(session, Session::Starting);
    assert_refused(
        session.interval_applied(Err("lock".to_owned())),
        "settings-invalid",
        "lock",
    );
    assert_eq!(session, Session::Closed);
    let mut session = running();
    session.handle(&change(5, "2s"));
    assert_eq!(session, Session::Updating);
    assert_refused(
        session.interval_applied(Err("lock".to_owned())),
        "settings-invalid",
        "lock",
    );
}

#[test]
fn sampling_goes_round() {
    let control = Control { running: true, interval: RefreshInterval::TwoSeconds };
    let mut sampling = SamplerLoop::new();
    match sampling.advance(LoopEvent::Sampled(Ok(sample()))) {
        LoopAction::Send(CompanionFrame::Message {
            v: 5,
            target: MessageTarget::Broadcast,
            payload: Payload::Sample(sent),
        }) => assert_eq!(sent.captured_at_unix_ms, 7),
        other => panic!("not sent: {other:?}"),
    }
    assert!(matches!(sampling.advance(LoopEvent::Sent(Ok(()))), LoopAction::Check));
    assert!(matches!(
        sampling.advance(LoopEvent::Checked(Some(control))),
        LoopAction::Pause(RefreshInterval::TwoSeconds)
    ));
    assert!(matches!(sampling.advance(LoopEvent::Woken(Some(control))), LoopAction::Sample));
    assert_eq!(sampling, SamplerLoop::Sampling);
    match sampling.advance(LoopEvent::Sampled(Err("why".to_owned()))) {
        LoopAction::Send(CompanionFrame::Message {
            payload: Payload::Error { message }, ..
        }) => assert_eq!(message, "why"),
        other => panic!("not sent: {other:?}"),
    }
}

#[test]
fn sampling_ends_with_the_control() {
    let stopped = Control { running: false, interval: RefreshInterval::OneSecond };
    for seen in [Some(stopped), None] {
        let mut sampling = SamplerLoop::Checking;
        assert!(matches!(sampling.advance(LoopEvent::Checked(seen)), LoopAction::Finish));
        assert_eq!(sampling, SamplerLoop::Finished);
        let mut sampling = SamplerLoop::Pausing;
        assert!(matches!(sampling.advance(LoopEvent::Woken(seen)), LoopAction::Finish));
        assert_eq!(sampling, SamplerLoop::Finished);
    }
}

#[test]
fn sampling_ends_when_nothing_can_be_sent() {
    let mut sampling = SamplerLoop::Sending;
    match sampling.advance(LoopEvent::Sent(Err("pipe closed".to_owned()))) {
        LoopAction::Report(message) => {
            assert_eq!(message, "native companion output failed: pipe closed");
        }
        other => panic!("not reported: {other:?}"),
    }
    assert_eq!(sampling, SamplerLoop::Finished);
}

#[test]
fn decimals_have_no_leading_zeros() {
    for number in [0, 7, 10, 99, 100, 1_000_000, u32::MAX] {
        assert_eq!(decimal(number), format!("{number}"));
    }
}
