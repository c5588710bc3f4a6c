use gophkeeper_client::codec::serialize_payload;
use gophkeeper_client::crypto::generate_id;
use gophkeeper_client::errors::VaultError;
use gophkeeper_client::models::{Secret, SecretPayload};
use gophkeeper_client::session::GopherApp;

fn note(title: &str, content: &str) -> SecretPayload {
    SecretPayload::Note { title: title.into(), content: content.into() }
}

/// A syntactically valid bearer token whose payload carries `login`.
fn fake_jwt(login: &str) -> String {
    let engine = base64::engine::general_purpose::URL_SAFE_NO_PAD;
    let header = base64::Engine::encode(&engine, b"{\"alg\":\"HS256\",\"typ\":\"JWT\"}");
    let claims = format!("{{\"login\":\"{}\",\"exp\":4102444800}}", login);
    let payload = base64::Engine::encode(&engine, claims.as_bytes());
    format!("{}.{}.{}", header, payload, "unsigned")
}

#[test]
fn fresh_session_is_anonymous() {
    let app = GopherApp::new();
    assert!(!app.is_logged_in());
    assert!(app.master_password_is_none());
    assert!(app.get_current_user().is_none());
}

#[test]
fn login_authenticates_and_unlocks() {
    let mut app = GopherApp::new();
    app.login("alice".into(), "pw".into(), "token-1".into());
    assert!(app.is_logged_in());
    assert!(!app.master_password_is_none());
    assert_eq!(app.get_current_user().unwrap(), "alice");
}

#[test]
fn auto_login_authenticates_but_stays_locked() {
    let mut app = GopherApp::new();
    app.try_auto_login(fake_jwt("bob")).unwrap();
    assert!(app.is_logged_in());
    assert!(app.master_password_is_none());
    assert_eq!(app.get_current_user().unwrap(), "bob");
}

#[test]
fn auto_login_rejects_garbage_tokens() {
    let mut app = GopherApp::new();
    let err = app.try_auto_login("not-a-token".into()).unwrap_err();
    assert_eq!(err, VaultError::NotAuthenticated);
    assert!(!app.is_logged_in());
}

#[test]
fn sync_without_token_is_not_authenticated() {
    let app = GopherApp::new();
    let err = app.sync_and_decrypt(vec![]).unwrap_err();
    assert_eq!(err, VaultError::NotAuthenticated);
    assert_eq!(app.sync_begin().unwrap_err(), VaultError::NotAuthenticated);
}

#[test]
fn sync_while_locked_is_not_unlocked() {
    let mut app = GopherApp::new();
    app.try_auto_login(fake_jwt("bob")).unwrap();
    let err = app.sync_and_decrypt(vec![]).unwrap_err();
    assert_eq!(err, VaultError::NotUnlocked);
    assert_eq!(app.sync_begin().unwrap_err(), VaultError::NotUnlocked);
}

#[test]
fn add_without_token_is_not_authenticated() {
    let app = GopherApp::new();
    let err = app.add_secret(&note("T", "C")).unwrap_err();
    assert_eq!(err, VaultError::NotAuthenticated);
}

#[test]
fn add_while_locked_is_not_unlocked() {
    let mut app = GopherApp::new();
    app.try_auto_login(fake_jwt("bob")).unwrap();
    let err = app.add_secret(&note("T", "C")).unwrap_err();
    assert_eq!(err, VaultError::NotUnlocked);
}

#[test]
fn unlock_enables_the_vault_calls() {
    let mut app = GopherApp::new();
    app.try_auto_login(fake_jwt("bob")).unwrap();
    app.set_master_password("mp".into());
    assert!(app.sync_begin().is_ok());
    assert!(app.add_secret(&note("T", "C")).is_ok());
}

#[test]
fn logout_clears_all_session_state() {
    let mut app = GopherApp::new();
    app.login("alice".into(), "pw".into(), "token-1".into());
    app.logout();
    assert!(!app.is_logged_in());
    assert!(app.master_password_is_none());
    assert!(app.get_current_user().is_none());
}

#[test]
fn added_record_carries_tag_owner_and_content_id() {
    let mut app = GopherApp::new();
    app.login("alice".into(), "pw".into(), "token-1".into());
    let payload = note("T", "C");
    let (token, secret) = app.add_secret(&payload).unwrap();
    assert_eq!(token, "token-1");
    assert_eq!(secret.secret_type, "note");
    assert_eq!(secret.user_login, "alice");
    assert_eq!(secret.id, generate_id(&serialize_payload(&payload)));
    assert!(secret.created_at.is_none() && secret.updated_at.is_none());
}

#[test]
fn add_then_sync_yields_the_payload_back() {
    let mut app = GopherApp::new();
    app.login("alice".into(), "pw".into(), "token-1".into());
    let mut remote: Vec<Secret> = Vec::new();
    let (_, secret) = app.add_secret(&note("T", "C")).unwrap();
    remote.push(secret);
    let list = app.sync_and_decrypt(remote).unwrap();
    assert_eq!(list.len(), 1);
    assert_eq!(list[0].payload, note("T", "C"));
    assert_eq!(list[0].secret_type, "note");
}

#[test]
fn delete_then_sync_drops_the_record() {
    let mut app = GopherApp::new();
    app.login("alice".into(), "pw".into(), "token-1".into());
    let mut remote: Vec<Secret> = Vec::new();
    for i in 0..3 {
        let (_, secret) = app.add_secret(&note(&format!("t{}", i), "c")).unwrap();
        remote.push(secret);
    }
    let synced = app.sync_and_decrypt(remote.clone()).unwrap();
    assert_eq!(synced.len(), 3);
    let victim = synced[1].id.clone();
    let token = app.delete_secret(&victim).unwrap();
    assert_eq!(token, "token-1");
    remote.retain(|s| s.id != victim);
    let after = app.sync_and_decrypt(remote).unwrap();
    assert_eq!(after.len(), 2);
    assert!(after.iter().all(|s| s.id != victim));
}

#[test]
fn sync_names_the_first_bad_record() {
    let mut app = GopherApp::new();
    app.login("alice".into(), "pw".into(), "token-1".into());
    let (_, good) = app.add_secret(&note("T", "C")).unwrap();
    let bad = Secret {
        id: "x".into(),
        user_login: "alice".into(),
        secret_type: "note".into(),
        data: "garbage".into(),
        created_at: None,
        updated_at: None,
    };
    let err = app.sync_and_decrypt(vec![good, bad]).unwrap_err();
    assert_eq!(err, VaultError::DecryptionFailed { index: 1 });
}

#[test]
fn sync_fails_on_records_of_another_password() {
    let mut alice = GopherApp::new();
    alice.login("alice".into(), "pw-one".into(), "t".into());
    let (_, secret) = alice.add_secret(&note("T", "C")).unwrap();
    let mut eve = GopherApp::new();
    eve.login("eve".into(), "pw-two".into(), "t".into());
    let err = eve.sync_and_decrypt(vec![secret]).unwrap_err();
    assert_eq!(err, VaultError::DecryptionFailed { index: 0 });
}

#[test]
fn delete_without_token_is_not_authenticated() {
    let app = GopherApp::new();
    assert_eq!(app.delete_secret("id").unwrap_err(), VaultError::NotAuthenticated);
}
