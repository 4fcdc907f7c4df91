use cairos::clients::{CreateUserCodesResponse, Error as ClientError, GetUserAuthorizedResponse, LoginResponse};
use cairos::device_flow::{DeviceFlowAction, DeviceFlowEvent, DeviceFlowState};

fn codes(expires_in: i64, interval: u64) -> DeviceFlowEvent {
    DeviceFlowEvent::CodesIssued(CreateUserCodesResponse {
        device_code: "dev-123".to_string(),
        user_code: "ABCD-EFGH".to_string(),
        verification_uri: "https://github.com/login/device".to_string(),
        expires_in,
        interval,
    })
}

fn answer(error: &str) -> DeviceFlowEvent {
    DeviceFlowEvent::PollAnswered(Ok(GetUserAuthorizedResponse::Error { error: error.to_string() }))
}

#[test]
fn pending_then_success_logs_in_and_persists() {
    let s = DeviceFlowState::start(0);
    let (s, a) = s.step(10, codes(900, 5));
    assert!(matches!(a, DeviceFlowAction::Present { ref user_code, wait_ms: 5_000, .. } if user_code == "ABCD-EFGH"));
    let (s, a) = s.step(5_010, DeviceFlowEvent::Woke);
    assert!(matches!(a, DeviceFlowAction::Poll { ref device_code } if device_code == "dev-123"));
    let (s, a) = s.step(5_100, answer("authorization_pending"));
    assert!(matches!(a, DeviceFlowAction::Wait { ms: 5_000 }));
    let (s, _) = s.step(10_100, DeviceFlowEvent::Woke);
    let (s, a) = s.step(10_200, DeviceFlowEvent::PollAnswered(Ok(GetUserAuthorizedResponse::Success {
        access_token: "gho_x".to_string(),
    })));
    assert!(matches!(a, DeviceFlowAction::Login { ref access_token } if access_token == "gho_x"));
    assert!(!s.is_done());
    let (s, a) = s.step(10_300, DeviceFlowEvent::LoggedIn(Ok(LoginResponse { token: "session".to_string() })));
    assert!(matches!(a, DeviceFlowAction::PersistToken { ref token } if token == "session"));
    assert!(matches!(s, DeviceFlowState::Authorized { ref token } if token == "session"));
    assert!(s.is_done());
}

#[test]
fn deadline_expires_without_login() {
    let s = DeviceFlowState::start(1_000);
    let (s, _) = s.step(1_000, codes(10, 5));
    let (s, a) = s.step(6_000, DeviceFlowEvent::Woke);
    assert!(matches!(a, DeviceFlowAction::Poll { .. }));
    // A success that arrives after the code lapsed still ends as expired.
    let (s, a) = s.step(11_000, DeviceFlowEvent::PollAnswered(Ok(GetUserAuthorizedResponse::Success {
        access_token: "late".to_string(),
    })));
    assert!(matches!(a, DeviceFlowAction::Stop));
    assert!(matches!(s, DeviceFlowState::Expired));
}

#[test]
fn waits_are_cut_at_the_deadline() {
    let s = DeviceFlowState::start(0);
    let (s, a) = s.step(0, codes(12, 5));
    assert!(matches!(a, DeviceFlowAction::Present { wait_ms: 5_000, .. }));
    let (s, _) = s.step(5_000, DeviceFlowEvent::Woke);
    let (s, _) = s.step(9_500, answer("authorization_pending"));
    let (s, a) = s.step(9_500, DeviceFlowEvent::Woke);
    assert!(matches!(a, DeviceFlowAction::Poll { .. }));
    let (s, a) = s.step(9_600, answer("slow_down"));
    assert!(matches!(a, DeviceFlowAction::Wait { ms: 2_400 }));
    let (s, a) = s.step(12_000, DeviceFlowEvent::Woke);
    assert!(matches!(a, DeviceFlowAction::Stop));
    assert!(matches!(s, DeviceFlowState::Expired));
}

#[test]
fn lapsed_codes_expire_at_once() {
    let s = DeviceFlowState::start(0);
    let (s, a) = s.step(0, codes(-5, 5));
    assert!(matches!(a, DeviceFlowAction::Stop));
    assert!(matches!(s, DeviceFlowState::Expired));
}

#[test]
fn provider_refusal_is_denied() {
    let s = DeviceFlowState::start(0);
    let (s, _) = s.step(0, codes(900, 5));
    let (s, a) = s.step(100, answer("access_denied"));
    assert!(matches!(a, DeviceFlowAction::Stop));
    assert!(matches!(s, DeviceFlowState::Denied { ref error } if error == "access_denied"));
}

#[test]
fn slow_down_lengthens_interval() {
    let s = DeviceFlowState::start(0);
    let (s, _) = s.step(0, codes(900, 5));
    let (s, a) = s.step(100, answer("slow_down"));
    assert!(matches!(a, DeviceFlowAction::Wait { ms: 10_000 }));
    let (_, a) = s.step(200, answer("authorization_pending"));
    assert!(matches!(a, DeviceFlowAction::Wait { ms: 10_000 }));
}

#[test]
fn abort_stops_before_login() {
    let s = DeviceFlowState::start(0);
    let (s, _) = s.step(0, codes(900, 5));
    let (s, a) = s.step(50, DeviceFlowEvent::Abort);
    assert!(matches!(a, DeviceFlowAction::Stop));
    assert!(matches!(s, DeviceFlowState::Aborted));
    let (s, a) = s.step(60, DeviceFlowEvent::Woke);
    assert!(matches!(a, DeviceFlowAction::Stop));
    assert!(matches!(s, DeviceFlowState::Aborted));
}

#[test]
fn failed_poll_and_failed_codes_end_the_flow() {
    let s = DeviceFlowState::start(0);
    let (s, _) = s.step(0, codes(900, 5));
    let (s, _) = s.step(10, DeviceFlowEvent::PollAnswered(Err(ClientError::Deserialization)));
    assert!(matches!(s, DeviceFlowState::Failed));
    let s = DeviceFlowState::start(0);
    let (s, _) = s.step(0, DeviceFlowEvent::CodesFailed(ClientError::Request(None, "offline".to_string())));
    assert!(matches!(s, DeviceFlowState::Failed));
}
