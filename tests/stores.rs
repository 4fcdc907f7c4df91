use cairos::accounts::Accounts;
use cairos::events::{capture, CaptureRequest, EventLog};
use cairos::error::Error;
use cairos::guard::AuthUser;
use cairos::ledger::CsrfPkceLedger;
use cairos::string_map::StringMap;
use cairos::tokens::TokenStore;
use cairos::users::{CreateParams, StorageError, UserId, UserTable};

fn params(username: &str, email: &str, now: i64) -> CreateParams {
    CreateParams { username: username.to_string(), email: email.to_string(), now }
}

#[test]
fn upsert_twice_keeps_one_row_with_second_username() {
    let mut users = UserTable::new();
    let first = users.create(params("octo", "octo@example.com", 10)).unwrap();
    let second = users.create(params("octocat", "octo@example.com", 20)).unwrap();
    assert_eq!(first, second);
    assert_eq!(users.len(), 1);
    let row = users.get(&"octo@example.com".to_string()).unwrap();
    assert_eq!(row.username, "octocat");
    assert_eq!(row.id, 1);
    assert_eq!(row.created_at, 10);
    assert!(users.get(&"other@example.com".to_string()).is_none());
}

#[test]
fn new_emails_get_increasing_ids() {
    let mut users = UserTable::new();
    let a = users.create(params("a", "a@example.com", 1)).unwrap();
    let b = users.create(params("b", "b@example.com", 2)).unwrap();
    assert_eq!(a, UserId(1));
    assert_eq!(b, UserId(2));
    assert_eq!(b.value(), 2);
    assert_eq!(users.len(), 2);
}

#[test]
fn duplicate_token_is_refused() {
    let mut tokens = TokenStore::new();
    assert_eq!(tokens.create(UserId(1), "abc".to_string(), 5), Ok(()));
    assert_eq!(tokens.create(UserId(2), "abc".to_string(), 6), Err(StorageError::DuplicateKey));
    assert_eq!(tokens.find_user_id_from_token(&"abc".to_string()), Some(UserId(1)));
}

#[test]
fn disabled_token_is_refused_like_unknown() {
    let mut tokens = TokenStore::new();
    tokens.create(UserId(7), "live".to_string(), 1).unwrap();
    tokens.create(UserId(7), "revoked".to_string(), 1).unwrap();
    assert!(tokens.disable(&"revoked".to_string(), 2));
    let revoked = AuthUser::from_authorization(&tokens, &"revoked".to_string());
    let unknown = AuthUser::from_authorization(&tokens, &"never-issued".to_string());
    assert_eq!(revoked, Err(Error::Unauthenticated));
    assert_eq!(revoked, unknown);
    // Issuing more tokens later does not bring it back.
    tokens.create(UserId(8), "later".to_string(), 3).unwrap();
    assert!(tokens.disable(&"revoked".to_string(), 4));
    assert_eq!(AuthUser::from_authorization(&tokens, &"revoked".to_string()), Err(Error::Unauthenticated));
    assert_eq!(AuthUser::from_authorization(&tokens, &"live".to_string()), Ok(AuthUser { id: UserId(7) }));
}

#[test]
fn disabling_unknown_token_reports_not_found() {
    let mut tokens = TokenStore::new();
    assert!(!tokens.disable(&"ghost".to_string(), 1));
}

#[test]
fn missing_bearer_is_unauthenticated() {
    let mut tokens = TokenStore::new();
    tokens.create(UserId(1), "t".to_string(), 1).unwrap();
    assert_eq!(AuthUser::from_bearer(&tokens, None), Err(Error::Unauthenticated));
    let t = "t".to_string();
    assert_eq!(AuthUser::from_bearer(&tokens, Some(&t)), Ok(AuthUser { id: UserId(1) }));
}

#[test]
fn ledger_entry_is_read_once() {
    let mut ledger = CsrfPkceLedger::new();
    ledger.insert("state-1".to_string(), "verifier-1".to_string());
    assert_eq!(ledger.len(), 1);
    assert!(ledger.contains(&"state-1".to_string()));
    assert_eq!(ledger.take(&"state-1".to_string()), Some("verifier-1".to_string()));
    assert_eq!(ledger.take(&"state-1".to_string()), None);
    assert_eq!(ledger.len(), 0);
}

#[test]
fn string_map_replaces_and_removes() {
    let mut m: StringMap<u32> = StringMap::new();
    m.insert("a".to_string(), 1);
    m.insert("b".to_string(), 2);
    m.insert("a".to_string(), 3);
    assert_eq!(m.len(), 2);
    assert_eq!(m.get(&"a".to_string()), Some(&3));
    assert_eq!(m.remove(&"b".to_string()), Some(2));
    assert_eq!(m.get(&"b".to_string()), None);
    assert!(!m.contains_key(&"b".to_string()));
}

#[test]
fn capture_appends_one_row() {
    let mut log = EventLog::new();
    let req = CaptureRequest {
        uri: "file:///a.rs".to_string(),
        is_write: true,
        language: Some("rust".to_string()),
        line_number: Some(3),
        cursor_pos: None,
    };
    let resp = capture(&mut log, AuthUser { id: UserId(4) }, req, 99);
    assert!(resp.success);
    assert_eq!(log.len(), 1);
}

#[test]
fn account_tokens_resolve_to_users_on_file() {
    let mut accounts = Accounts::new();
    let resp = accounts
        .complete_login("octo".to_string(), "octo@example.com".to_string(), &vec![7; 16], 10)
        .unwrap();
    assert_eq!(resp.token, "07".repeat(16));
    assert_eq!(accounts.find_user_id_from_token(&resp.token), Some(UserId(1)));
    assert_eq!(accounts.authenticate(Some(&resp.token)), Ok(AuthUser { id: UserId(1) }));
    assert_eq!(accounts.users().len(), 1);
    assert!(accounts.tokens().find_user_id_from_token(&resp.token).is_some());
    assert!(accounts.disable(&resp.token, 11));
    assert_eq!(accounts.find_user_id_from_token(&resp.token), None);
    assert_eq!(accounts.authenticate(Some(&resp.token)), Err(Error::Unauthenticated));
    assert_eq!(accounts.authenticate(None), Err(Error::Unauthenticated));
}

#[test]
fn account_relogin_keeps_one_user() {
    let mut accounts = Accounts::new();
    accounts.complete_login("a".to_string(), "a@x.io".to_string(), &vec![1; 16], 1).unwrap();
    let second = accounts.complete_login("b".to_string(), "a@x.io".to_string(), &vec![2; 16], 2).unwrap();
    assert_eq!(accounts.users().len(), 1);
    assert_eq!(accounts.users().get(&"a@x.io".to_string()).unwrap().username, "b");
    assert_eq!(accounts.find_user_id_from_token(&second.token), Some(UserId(1)));
    let clash = accounts.complete_login("c".to_string(), "c@x.io".to_string(), &vec![2; 16], 3);
    assert!(matches!(clash, Err(Error::Storage(StorageError::DuplicateKey))));
}
