use aria::zeroclaw::client::next_backoff;
use aria::zeroclaw::client::sanitize_key;
use aria::zeroclaw::client::AgentError;
use aria::zeroclaw::client::AgentEvent;
use aria::zeroclaw::client::AskAction;
use aria::zeroclaw::client::AskEvent;
use aria::zeroclaw::client::Decision;
use aria::zeroclaw::client::GatewayConfig;
use aria::zeroclaw::client::ZeroClaw;
use aria::zeroclaw::client::READY_TIMEOUT_NS;
use aria::zeroclaw::client::STALE_TURN_NS;
use aria::zeroclaw::protocol::approval_frame;
use aria::zeroclaw::protocol::chat_url;
use aria::zeroclaw::protocol::message_frame;
use aria::zeroclaw::protocol::InFrame;

fn gateway(base: &str, alias: &str) -> GatewayConfig {
    GatewayConfig {
        base: base.to_string(),
        token: Some("sekret".to_string()),
        agent_alias: alias.to_string(),
    }
}

fn connected() -> ZeroClaw {
    let mut c = ZeroClaw::new(gateway("ws://h", "voice"));
    assert!(matches!(c.ask("d/1", "hi", 0, AskEvent::Begin, 0), AskAction::Connect));
    c.set_alive("d_1", true);
    c
}

fn begin(c: &mut ZeroClaw, now: u128) -> AskAction {
    c.ask("d/1", "hi", now, AskEvent::Waited, now)
}

fn done(text: &str) -> InFrame {
    InFrame::Done { full_response: text.to_string(), cost_bits: Some(0.01f64.to_bits()) }
}

fn chunk(text: &str) -> InFrame {
    InFrame::Chunk { content: text.to_string() }
}

fn approval() -> InFrame {
    InFrame::ApprovalRequest {
        request_id: "r1".into(),
        tool: "shell".into(),
        arguments_summary: "ls".into(),
        timeout_secs: 120,
    }
}

#[test]
fn sanitize_device_key() {
    assert_eq!(sanitize_key("Echo-A123.abc"), "Echo-A123.abc");
    assert_eq!(sanitize_key("weird/dev id!"), "weird_dev_id_");
}

#[test]
fn decision_wire_values() {
    assert_eq!(Decision::Approve.as_wire(), "approve");
    assert_eq!(Decision::Deny.as_wire(), "deny");
    assert_eq!(Decision::Always.as_wire(), "always");
}

#[test]
fn builds_chat_url() {
    let u = chat_url("ws://127.0.0.1:3000", "voice", "alexa-dev1", Some("sekret")).unwrap();
    assert!(u.starts_with("ws://127.0.0.1:3000/ws/chat?"));
    assert!(u.contains("agent_alias=voice"));
    assert!(u.contains("session_id=alexa-dev1"));
    assert!(u.contains("token=sekret"));
}

#[test]
fn chat_urls_are_completed() {
    assert_eq!(
        chat_url(" host:1// ", "a b", "s/\u{fc}*", Some("")),
        Some("ws://host:1/ws/chat?agent_alias=a+b&session_id=s%2F%C3%BC*".to_string())
    );
    assert_eq!(
        chat_url("wss://h/ws/chat", "a", "s", None),
        Some("wss://h/ws/chat?agent_alias=a&session_id=s".to_string())
    );
    assert_eq!(chat_url(" // ", "a", "s", None), None);
}

#[test]
fn frames_are_json() {
    assert_eq!(
        message_frame("say \"hi\"\\\n\u{1}\u{1f}\u{7f}\u{e9}"),
        "{\"content\":\"say \\\"hi\\\"\\\\\\n\\u0001\\u001f\u{7f}\u{e9}\",\"type\":\"message\"}"
    );
    assert_eq!(
        message_frame("\u{8}\t\u{c}\r"),
        "{\"content\":\"\\b\\t\\f\\r\",\"type\":\"message\"}"
    );
    assert_eq!(
        approval_frame("r1", "deny"),
        "{\"decision\":\"deny\",\"request_id\":\"r1\",\"type\":\"approval_response\"}"
    );
}

#[test]
fn bad_configuration_is_refused() {
    for (base, alias, text) in [
        (" ", "voice", "gateway configuration error: zeroclaw.gateway is empty"),
        ("ws://h", "", "gateway configuration error: zeroclaw.agent_alias is empty"),
    ] {
        let mut c = ZeroClaw::new(gateway(base, alias));
        match c.ask("d", "t", 0, AskEvent::Begin, 0) {
            AskAction::Return(Err(e)) => assert_eq!(e.message(), text),
            _ => panic!("not refused"),
        }
    }
    assert!(gateway("ws://h", "voice").validate().is_ok());
}

#[test]
fn unreachable_gateway_is_reported() {
    let mut c = ZeroClaw::new(gateway("ws://h", "voice"));
    assert!(matches!(c.ask("d", "t", 5, AskEvent::Begin, 5), AskAction::Connect));
    assert!(matches!(c.ask("d", "t", 5, AskEvent::Waited, 6), AskAction::Wait));
    match c.ask("d", "t", 5, AskEvent::Waited, 5 + READY_TIMEOUT_NS) {
        AskAction::Return(Err(e)) => assert_eq!(
            e.message(),
            "gateway connection failed: gateway not reachable at ws://h (agent voice)"
        ),
        _ => panic!("not reported"),
    }
}

#[test]
fn a_turn_completes() {
    let mut c = connected();
    match begin(&mut c, 7) {
        AskAction::Send(f) => assert_eq!(f, message_frame("hi")),
        _ => panic!("not sent"),
    }
    assert!(matches!(c.ask("d/1", "hi", 7, AskEvent::Sent, 7), AskAction::AwaitReply));
    assert!(c.handle_frame("d_1", chunk("Hel")).outcome.is_none());
    assert!(c.handle_frame("d_1", chunk("lo")).outcome.is_none());
    assert!(c.handle_frame("d_1", InFrame::Other).outcome.is_none());
    let e = c.handle_frame("d_1", done("Hello."));
    assert!(e.event.is_none());
    let o = e.outcome.unwrap();
    assert_eq!(o.full, Some("Hello.".to_string()));
    assert_eq!(o.partial, "Hello");
    assert_eq!(o.cost_bits.map(f64::from_bits), Some(0.01));
    assert!(!o.timed_out);
    match c.ask("d/1", "hi", 7, AskEvent::Completed(o), 8) {
        AskAction::Return(Ok(o)) => assert_eq!(o.full, Some("Hello.".to_string())),
        _ => panic!("not returned"),
    }
    assert!(c.handle_frame("d_1", done("again")).outcome.is_none());
}

#[test]
fn turns_are_serialized() {
    let mut c = connected();
    assert!(matches!(begin(&mut c, 7), AskAction::Send(_)));
    match begin(&mut c, 8) {
        AskAction::Return(Err(e)) => {
            assert!(matches!(e, AgentError::Busy));
            assert_eq!(e.message(), "session busy (previous turn still in progress)");
        }
        _ => panic!("not busy"),
    }
    assert!(matches!(begin(&mut c, 6 + STALE_TURN_NS), AskAction::Return(Err(AgentError::Busy))));
    assert!(matches!(begin(&mut c, 7 + STALE_TURN_NS), AskAction::Send(_)));
}

#[test]
fn approval_lets_the_caller_out() {
    let mut c = connected();
    begin(&mut c, 7);
    c.handle_frame("d_1", chunk("Let me see"));
    let e = c.handle_frame("d_1", approval());
    match e.event {
        Some(AgentEvent::ApprovalRequested { device, info }) => {
            assert_eq!((device.as_str(), info.request_id.as_str()), ("d_1", "r1"));
        }
        _ => panic!("not announced"),
    }
    let o = e.outcome.unwrap();
    assert_eq!(o.awaiting_approval.unwrap().summary, "ls");
    assert_eq!((o.full, o.partial.as_str(), o.timed_out), (None, "Let me see", false));
    assert_eq!(
        c.respond_approval("d/1", "r1", Decision::Always).unwrap(),
        approval_frame("r1", "always")
    );
    let late = c.handle_frame("d_1", done("Done it."));
    assert!(late.outcome.is_none());
    match late.event {
        Some(AgentEvent::LateReply { device, text }) => {
            assert_eq!((device.as_str(), text.as_str()), ("d_1", "Done it."));
        }
        _ => panic!("no late reply"),
    }
    assert!(matches!(begin(&mut c, 8), AskAction::Send(_)));
}

#[test]
fn timeout_hands_back_the_partial() {
    let mut c = connected();
    begin(&mut c, 7);
    c.handle_frame("d_1", chunk("So far"));
    match c.ask("d/1", "hi", 7, AskEvent::TimedOut, 9) {
        AskAction::Return(Ok(o)) => {
            assert!(o.timed_out);
            assert_eq!((o.full, o.partial.as_str()), (None, "So far"));
        }
        _ => panic!("not returned"),
    }
    match c.handle_frame("d_1", done("")).event {
        Some(AgentEvent::LateReply { text, .. }) => assert_eq!(text, "So far"),
        _ => panic!("no late reply"),
    }
}

#[test]
fn lost_connection_completes_the_turn() {
    let mut c = connected();
    begin(&mut c, 7);
    c.handle_frame("d_1", chunk("So"));
    let o = c.connection_lost("d_1").unwrap();
    assert!(o.timed_out);
    assert_eq!(o.partial, "So");
    assert!(!c.is_connected("d_1"));
    assert!(c.connection_lost("d_1").is_none());
    assert!(matches!(c.ask("d/1", "hi", 0, AskEvent::Begin, 0), AskAction::Connect));
}

#[test]
fn channel_errors() {
    let mut c = connected();
    match c.ask("d/1", "hi", 0, AskEvent::SendFailed, 0) {
        AskAction::Return(Err(e)) => {
            assert_eq!(e.message(), "gateway disconnected: send channel closed");
            assert_eq!(e.message(), ZeroClaw::send_failed().message());
        }
        _ => panic!("not returned"),
    }
    match c.ask("d/1", "hi", 0, AskEvent::Dropped, 0) {
        AskAction::Return(Err(e)) => {
            assert_eq!(e.message(), "gateway disconnected: turn channel closed");
        }
        _ => panic!("not returned"),
    }
    assert_eq!(
        c.respond_approval("other", "r", Decision::Deny).unwrap_err().message(),
        "gateway disconnected: no session"
    );
    assert!(c.handle_frame("other", done("x")).event.is_none());
}

#[test]
fn session_urls_carry_the_device() {
    let c = connected();
    assert_eq!(
        c.session_url("d_1"),
        Some("ws://h/ws/chat?agent_alias=voice&session_id=alexa-d_1&token=sekret".to_string())
    );
}

#[test]
fn backoff_doubles_up_to_a_cap() {
    assert_eq!(next_backoff(1000), 2000);
    assert_eq!(next_backoff(7500), 15000);
    assert_eq!(next_backoff(8000), 15000);
    assert_eq!(next_backoff(u64::MAX), 15000);
}

#[test]
fn devices_have_sessions_of_their_own() {
    let mut c = connected();
    assert!(matches!(begin(&mut c, 7), AskAction::Send(_)));
    assert!(matches!(c.ask("other", "hi", 7, AskEvent::Begin, 7), AskAction::Connect));
    c.set_alive("other", true);
    assert!(matches!(c.ask("other", "hi", 7, AskEvent::Waited, 8), AskAction::Send(_)));
    assert!(c.handle_frame("other", done("x")).outcome.is_some());
    assert!(c.handle_frame("d_1", done("y")).outcome.is_some());
}

#[test]
fn frames_tell_their_contents() {
    assert_ne!(message_frame("a\"b"), message_frame("a\\\"b"));
    assert_ne!(approval_frame("a", "deny"), approval_frame("b", "deny"));
    assert_ne!(approval_frame("a", "deny"), approval_frame("a", "approve"));
    assert_eq!(sanitize_key(&sanitize_key("a b/c")), "a_b_c");
}
