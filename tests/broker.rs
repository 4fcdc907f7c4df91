use cairos::broker::{
    begin_authorization, begin_login, AuthorizationError, complete_login, handle_callback, select_primary_email, AuthTokenPayload,
    GitHubEmail, GitHubUser, LoginAction, LoginFlow, ProviderReply, UpstreamFailure, GITHUB_AUTHORIZE_URL,
};
use cairos::debounce::{CurrentFile, EditorEvent};
use cairos::error::Error;
use cairos::events::{capture, CaptureRequest, EventLog};
use cairos::guard::AuthUser;
use cairos::ledger::CsrfPkceLedger;
use cairos::text::hex_encode;
use cairos::tokens::TokenStore;
use cairos::users::{StorageError, UserId, UserTable};

fn email(address: &str, primary: bool) -> GitHubEmail {
    GitHubEmail { email: address.to_string(), primary }
}

#[test]
fn authorization_url_carries_filed_state() {
    let mut ledger = CsrfPkceLedger::new();
    let auth = begin_authorization(&"client-1".to_string(), &GITHUB_AUTHORIZE_URL.to_string(), &mut ledger).unwrap();
    assert!(!auth.state.is_empty());
    assert!(auth.url.starts_with(GITHUB_AUTHORIZE_URL));
    assert!(auth.url.contains(&format!("state={}", auth.state)));
    assert!(auth.url.contains("client_id=client-1"));
    assert!(auth.url.contains("code_challenge="));
    assert!(auth.url.contains("code_challenge_method=S256"));
    assert!(auth.url.contains("scope=user%3Aemail"));
    assert!(ledger.contains(&auth.state));
    assert_eq!(ledger.len(), 1);
    let again = begin_authorization(&"client-1".to_string(), &GITHUB_AUTHORIZE_URL.to_string(), &mut ledger).unwrap();
    assert_ne!(again.state, auth.state);
    assert_eq!(ledger.len(), 2);
}

#[test]
fn malformed_endpoint_files_nothing() {
    let mut ledger = CsrfPkceLedger::new();
    let r = begin_authorization(&"c".to_string(), &"not a url".to_string(), &mut ledger);
    assert!(matches!(r, Err(AuthorizationError::InvalidEndpoint)));
    assert_eq!(ledger.len(), 0);
}

#[test]
fn replayed_callback_is_invalid_state() {
    let mut ledger = CsrfPkceLedger::new();
    ledger.insert("s1".to_string(), "v1".to_string());
    let (_, first) = handle_callback(&mut ledger, &"s1".to_string(), "code".to_string());
    assert!(matches!(first, LoginAction::ExchangeCode { ref code, ref verifier } if code == "code" && verifier == "v1"));
    let (flow, second) = handle_callback(&mut ledger, &"s1".to_string(), "code".to_string());
    assert!(matches!(second, LoginAction::Fail(Error::InvalidState)));
    assert!(matches!(flow, LoginFlow::Done));
}

#[test]
fn web_login_end_to_end() {
    let mut ledger = CsrfPkceLedger::new();
    let mut users = UserTable::new();
    let mut tokens = TokenStore::new();
    let mut log = EventLog::new();

    let auth = begin_authorization(&"client".to_string(), &GITHUB_AUTHORIZE_URL.to_string(), &mut ledger).unwrap();
    assert!(auth.url.contains(&format!("state={}", auth.state)));
    assert!(ledger.contains(&auth.state));

    let (flow, action) = handle_callback(&mut ledger, &auth.state, "provider-code".to_string());
    assert!(matches!(action, LoginAction::ExchangeCode { .. }));
    let (flow, action) = flow.step(ProviderReply::TokenExchanged(Ok("gho_abc".to_string())));
    assert!(matches!(action, LoginAction::FetchProfile { ref access_token } if access_token == "gho_abc"));
    let (flow, action) = flow.step(ProviderReply::Profile(Ok(GitHubUser { login: "octo".to_string(), email: None })));
    assert!(matches!(action, LoginAction::FetchEmails { ref access_token } if access_token == "gho_abc"));
    let (_, action) = flow.step(ProviderReply::Emails(Ok(vec![email("old@x.io", false), email("me@x.io", true)])));
    let (username, address) = match action {
        LoginAction::Complete { username, email } => (username, email),
        _ => panic!("identity not resolved"),
    };
    assert_eq!(username, "octo");
    assert_eq!(address, "me@x.io");

    let bytes: Vec<u8> = (0u8..32).collect();
    let resp = complete_login(&mut users, &mut tokens, username, address, &bytes, 1_000).unwrap();
    assert_eq!(resp.token.len(), 64);
    let user = AuthUser::from_authorization(&tokens, &resp.token).unwrap();
    assert_eq!(user.id, UserId(1));

    let req = CaptureRequest {
        uri: "file:///a.rs".to_string(),
        is_write: true,
        language: None,
        line_number: None,
        cursor_pos: None,
    };
    assert!(capture(&mut log, user, req, 2_000).success);
    assert_eq!(log.len(), 1);

    let mut cur = CurrentFile::new(0);
    let mut calls = 0;
    for t in [10_000i64, 10_500] {
        let ev = EditorEvent::Changed { uri: "file:///a.rs".to_string(), position: None };
        if cur.send(ev, t).is_some() {
            calls += 1;
        }
    }
    assert_eq!(calls, 1);
}

#[test]
fn device_login_with_profile_email() {
    let mut users = UserTable::new();
    let mut tokens = TokenStore::new();
    let (flow, action) = begin_login(AuthTokenPayload { access_token: "gho_dev".to_string() });
    assert!(matches!(action, LoginAction::FetchProfile { ref access_token } if access_token == "gho_dev"));
    let (_, action) = flow.step(ProviderReply::Profile(Ok(GitHubUser {
        login: "dev".to_string(),
        email: Some("dev@x.io".to_string()),
    })));
    let LoginAction::Complete { username, email } = action else { panic!("expected identity") };
    let resp = complete_login(&mut users, &mut tokens, username, email, &vec![0xab; 16], 5).unwrap();
    assert_eq!(resp.token, "ab".repeat(16));
    assert_eq!(resp.message, "Registered successfully!");
}

#[test]
fn relogin_updates_username_and_adds_token() {
    let mut users = UserTable::new();
    let mut tokens = TokenStore::new();
    let first = complete_login(&mut users, &mut tokens, "old".to_string(), "a@x.io".to_string(), &vec![1; 16], 1).unwrap();
    let second = complete_login(&mut users, &mut tokens, "new".to_string(), "a@x.io".to_string(), &vec![2; 16], 2).unwrap();
    assert_eq!(users.len(), 1);
    assert_eq!(AuthUser::from_authorization(&tokens, &first.token).unwrap().id, UserId(1));
    assert_eq!(AuthUser::from_authorization(&tokens, &second.token).unwrap().id, UserId(1));
    let clash = complete_login(&mut users, &mut tokens, "new".to_string(), "a@x.io".to_string(), &vec![2; 16], 3);
    assert!(matches!(clash, Err(Error::Storage(StorageError::DuplicateKey))));
}

#[test]
fn no_primary_email_fails() {
    let flow = LoginFlow::FetchingEmails { access_token: "t".to_string(), username: "u".to_string() };
    let (_, action) = flow.step(ProviderReply::Emails(Ok(vec![email("a@x.io", false)])));
    assert!(matches!(action, LoginAction::Fail(Error::NoPrimaryEmail)));
    assert_eq!(select_primary_email(&vec![]), None);
    assert_eq!(
        select_primary_email(&vec![email("a", false), email("b", true), email("c", true)]),
        Some("b".to_string())
    );
}

#[test]
fn upstream_failures_map_to_errors() {
    let (_, a) = LoginFlow::Exchanging.step(ProviderReply::TokenExchanged(Err(UpstreamFailure::Unavailable)));
    assert!(matches!(a, LoginAction::Fail(Error::UpstreamUnavailable)));
    let flow = LoginFlow::FetchingProfile { access_token: "t".to_string() };
    let (_, a) = flow.step(ProviderReply::Profile(Err(UpstreamFailure::Malformed)));
    assert!(matches!(a, LoginAction::Fail(Error::UpstreamProtocolError)));
    let (_, a) = LoginFlow::Exchanging.step(ProviderReply::Emails(Ok(vec![])));
    assert!(matches!(a, LoginAction::Fail(Error::UpstreamProtocolError)));
}

#[test]
fn error_status_codes() {
    assert_eq!(Error::Unauthenticated.status_code(), 401);
    assert_eq!(Error::InvalidState.status_code(), 400);
    assert_eq!(Error::NoPrimaryEmail.status_code(), 500);
    assert_eq!(Error::UpstreamUnavailable.status_code(), 502);
    assert_eq!(Error::UpstreamProtocolError.status_code(), 500);
    assert_eq!(Error::Storage(StorageError::IdsExhausted).status_code(), 500);
}

#[test]
fn hex_encoding_is_exact() {
    assert_eq!(hex_encode(&vec![0x00, 0xff, 0x10, 0xab, 0x09]), "00ff10ab09");
    assert_eq!(hex_encode(&vec![]), "");
}
