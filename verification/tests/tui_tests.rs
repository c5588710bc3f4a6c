use gophkeeper_client::events::{handle_key, Key, KeyInput};
use gophkeeper_client::models::{Secret, SecretPayload};
use gophkeeper_client::session::GopherApp;
use gophkeeper_client::tui::{AddField, AddKind, InputMode, LoginStep, NetRequest, Screen, TuiApp};

const NOW: u64 = 1_000;

fn fresh() -> TuiApp {
    TuiApp::new(GopherApp::new(), false)
}

fn logged_in() -> TuiApp {
    let mut api = GopherApp::new();
    api.login("alice".into(), "pw".into(), "token-1".into());
    let mut app = TuiApp::new(api, false);
    app.screen = Screen::Menu;
    app.input_mode = InputMode::Normal;
    app
}

fn press(app: &mut TuiApp, code: Key) -> Option<NetRequest> {
    handle_key(app, KeyInput { code, ctrl: false }, NOW)
}

fn type_text(app: &mut TuiApp, text: &str) {
    for c in text.chars() {
        press(app, Key::Char(c));
    }
}

#[test]
fn fresh_session_starts_on_login_form() {
    let app = fresh();
    assert_eq!(app.screen, Screen::Login);
    assert_eq!(app.input_mode, InputMode::Editing);
    assert_eq!(app.selected, 0);
    assert!(app.notification.is_none());
}

#[test]
fn auto_login_starts_on_master_password() {
    let app = TuiApp::new(GopherApp::new(), true);
    assert_eq!(app.screen, Screen::MasterPassword);
    assert_eq!(app.input_mode, InputMode::Editing);
}

#[test]
fn quit_combination_works_from_anywhere() {
    let mut app = fresh();
    let r = handle_key(&mut app, KeyInput { code: Key::Char('c'), ctrl: true }, NOW);
    assert!(r.is_none());
    assert!(app.should_quit);
}

#[test]
fn login_flow_emits_credentials_and_settles() {
    let mut app = fresh();
    type_text(&mut app, "alice");
    assert_eq!(app.username, "alice");
    assert!(press(&mut app, Key::Enter).is_none());
    assert_eq!(app.login_step, LoginStep::Password);
    type_text(&mut app, "pw");
    let request = press(&mut app, Key::Enter).unwrap();
    match request {
        NetRequest::Login { login, password } => {
            assert_eq!(login, "alice");
            assert_eq!(password, "pw");
        }
        _ => panic!("expected a login request"),
    }
    app.login(Ok("token-9".into()), NOW);
    assert_eq!(app.screen, Screen::Menu);
    assert_eq!(app.input_mode, InputMode::Normal);
    assert!(app.api.is_logged_in());
    assert!(!app.api.master_password_is_none());
    assert_eq!(app.username, "");
    assert_eq!(app.password, "");
    assert!(app.notification.unwrap().0.starts_with("SUCCESS: "));
}

#[test]
fn failed_login_only_notifies() {
    let mut app = fresh();
    type_text(&mut app, "alice");
    press(&mut app, Key::Enter);
    type_text(&mut app, "pw");
    press(&mut app, Key::Enter);
    app.login(Err("boom".into()), NOW);
    assert_eq!(app.screen, Screen::Login);
    assert!(!app.api.is_logged_in());
    assert_eq!(app.notification.unwrap().0, "ERROR: Login failed: boom");
}

#[test]
fn register_requires_matching_passwords() {
    let mut app = fresh();
    app.screen = Screen::Register;
    type_text(&mut app, "alice");
    press(&mut app, Key::Enter);
    type_text(&mut app, "pw1");
    press(&mut app, Key::Enter);
    assert_eq!(app.login_step, LoginStep::ConfirmPassword);
    type_text(&mut app, "pw2");
    let r = press(&mut app, Key::Enter);
    assert!(r.is_none());
    assert_eq!(app.notification.clone().unwrap().0, "Passwords do not match");
}

#[test]
fn register_with_matching_passwords_emits_request() {
    let mut app = fresh();
    app.screen = Screen::Register;
    type_text(&mut app, "alice");
    press(&mut app, Key::Enter);
    type_text(&mut app, "pw");
    press(&mut app, Key::Enter);
    type_text(&mut app, "pw");
    match press(&mut app, Key::Enter).unwrap() {
        NetRequest::Register { login, password } => {
            assert_eq!(login, "alice");
            assert_eq!(password, "pw");
        }
        _ => panic!("expected a register request"),
    }
    // a settled registration immediately tries to log in
    match app.register(Ok(()), NOW).unwrap() {
        NetRequest::Login { login, password } => {
            assert_eq!(login, "alice");
            assert_eq!(password, "pw");
        }
        _ => panic!("expected a login request"),
    }
}

#[test]
fn empty_master_password_is_rejected() {
    let mut app = TuiApp::new(GopherApp::new(), true);
    app.submit_master_password(NOW);
    assert_eq!(app.screen, Screen::MasterPassword);
    assert_eq!(app.notification.unwrap().0, "ERROR: Master password cannot be empty");
}

#[test]
fn master_password_unlocks_and_returns_to_menu() {
    let mut api = GopherApp::new();
    api.set_current_user("bob".into());
    let mut app = TuiApp::new(api, true);
    type_text(&mut app, "mp");
    press(&mut app, Key::Enter);
    assert_eq!(app.screen, Screen::Menu);
    assert_eq!(app.input_mode, InputMode::Normal);
    assert!(!app.api.master_password_is_none());
    assert_eq!(app.password, "");
}

#[test]
fn field_cycle_for_card_has_length_six() {
    let mut app = logged_in();
    press(&mut app, Key::Char('a'));
    assert_eq!(app.screen, Screen::AddSecret);
    assert_eq!(app.input_mode, InputMode::Editing);
    app.add_kind = AddKind::Card;
    app.add_field = AddField::Kind;
    let mut seen = vec![];
    for _ in 0..6 {
        press(&mut app, Key::Tab);
        seen.push(app.add_field);
    }
    assert_eq!(
        seen,
        vec![
            AddField::Title,
            AddField::Field1,
            AddField::Field2,
            AddField::Field3,
            AddField::Field4,
            AddField::Kind,
        ]
    );
}

#[test]
fn field_cycle_for_note_has_length_three() {
    let mut app = logged_in();
    app.screen = Screen::AddSecret;
    app.add_kind = AddKind::Note;
    app.add_field = AddField::Kind;
    for _ in 0..3 {
        app.toggle_field();
    }
    assert_eq!(app.add_field, AddField::Kind);
}

#[test]
fn navigation_on_empty_list_stays_put() {
    let mut app = logged_in();
    app.screen = Screen::Secrets;
    press(&mut app, Key::Down);
    press(&mut app, Key::Up);
    assert_eq!(app.selected, 0);
}

#[test]
fn navigation_clamps_to_the_list() {
    let mut app = logged_in();
    let records = three_remote_records(&app);
    app.on_secrets_fetched(Ok(records), NOW);
    assert_eq!(app.secrets.len(), 3);
    press(&mut app, Key::Down);
    press(&mut app, Key::Down);
    press(&mut app, Key::Down);
    assert_eq!(app.selected, 2);
    press(&mut app, Key::Up);
    assert_eq!(app.selected, 1);
}

fn three_remote_records(app: &TuiApp) -> Vec<Secret> {
    let mut remote = Vec::new();
    for i in 0..3 {
        let payload = SecretPayload::Note { title: format!("t{}", i), content: "c".into() };
        let (_, secret) = app.api.add_secret(&payload).unwrap();
        remote.push(secret);
    }
    remote
}

#[test]
fn add_flow_emits_upsert_and_settles() {
    let mut app = logged_in();
    press(&mut app, Key::Char('a'));
    assert_eq!(app.input_mode, InputMode::Editing);
    type_text(&mut app, "my note");
    press(&mut app, Key::Tab);
    assert_eq!(app.add_field, AddField::Field1);
    app.add_kind = AddKind::Note;
    type_text(&mut app, "contents");
    match press(&mut app, Key::Enter).unwrap() {
        NetRequest::Upsert { token, secret } => {
            assert_eq!(token, "token-1");
            assert_eq!(secret.secret_type, "note");
            assert_eq!(secret.user_login, "alice");
        }
        _ => panic!("expected an upsert request"),
    }
    app.on_add_result(Ok(()), NOW);
    assert_eq!(app.screen, Screen::Menu);
    assert_eq!(app.notification.unwrap().0, "Secret added");
}

#[test]
fn add_without_title_is_refused() {
    let mut app = logged_in();
    app.screen = Screen::AddSecret;
    let r = app.add_secret(NOW);
    assert!(r.is_none());
    assert_eq!(app.notification.unwrap().0, "Title required");
}

#[test]
fn sync_flow_fetches_and_shows_the_records() {
    let mut app = logged_in();
    let records = three_remote_records(&app);
    match press(&mut app, Key::Char('s')).unwrap() {
        NetRequest::FetchSecrets { token } => assert_eq!(token, "token-1"),
        _ => panic!("expected a fetch request"),
    }
    app.on_secrets_fetched(Ok(records), NOW);
    assert_eq!(app.screen, Screen::Secrets);
    assert_eq!(app.secrets.len(), 3);
    assert_eq!(app.selected, 0);
    assert_eq!(app.notification.clone().unwrap().0, "Secrets synced");
    assert_eq!(
        app.secrets[0].payload,
        SecretPayload::Note { title: "t0".into(), content: "c".into() }
    );
}

#[test]
fn sync_while_anonymous_only_notifies() {
    let mut app = fresh();
    app.input_mode = InputMode::Normal;
    app.screen = Screen::Menu;
    let r = press(&mut app, Key::Char('s'));
    assert!(r.is_none());
    assert_eq!(app.notification.unwrap().0, "Sync failed: Not logged in");
}

#[test]
fn delete_flow_removes_the_selected_record() {
    let mut app = logged_in();
    let records = three_remote_records(&app);
    app.on_secrets_fetched(Ok(records), NOW);
    press(&mut app, Key::Down);
    let victim = app.secrets[1].id.clone();
    match press(&mut app, Key::Char('d')).unwrap() {
        NetRequest::Delete { token, id } => {
            assert_eq!(token, "token-1");
            assert_eq!(id, victim);
        }
        _ => panic!("expected a delete request"),
    }
    app.on_delete_result(true, NOW);
    assert_eq!(app.secrets.len(), 2);
    assert!(app.secrets.iter().all(|s| s.id != victim));
    assert_eq!(app.selected, 0);
    assert_eq!(app.notification.unwrap().0, "Secret deleted");
}

#[test]
fn failed_delete_leaves_the_list_untouched() {
    let mut app = logged_in();
    let records = three_remote_records(&app);
    app.on_secrets_fetched(Ok(records), NOW);
    app.on_delete_result(false, NOW);
    assert_eq!(app.secrets.len(), 3);
}

#[test]
fn logout_clears_state_and_asks_to_drop_the_token() {
    let mut app = logged_in();
    let r = press(&mut app, Key::Char('l'));
    assert!(matches!(r, Some(NetRequest::DeleteToken)));
    assert_eq!(app.screen, Screen::Login);
    assert!(!app.api.is_logged_in());
    assert!(app.api.master_password_is_none());
    assert!(app.secrets.is_empty());
    assert_eq!(app.notification.unwrap().0, "Logged out");
}

#[test]
fn escape_returns_to_the_menu() {
    let mut app = logged_in();
    app.screen = Screen::AddSecret;
    press(&mut app, Key::Esc);
    assert_eq!(app.screen, Screen::Menu);
    assert_eq!(app.input_mode, InputMode::Normal);
}

#[test]
fn backspace_edits_the_active_field() {
    let mut app = fresh();
    type_text(&mut app, "abc");
    press(&mut app, Key::Backspace);
    assert_eq!(app.username, "ab");
    press(&mut app, Key::Backspace);
    press(&mut app, Key::Backspace);
    press(&mut app, Key::Backspace);
    assert_eq!(app.username, "");
}

#[test]
fn notifications_expire_with_the_clock() {
    let mut app = fresh();
    app.notify_info("hello", NOW);
    app.clear_notifications(NOW + 1);
    assert!(app.notification.is_some());
    app.clear_notifications(NOW + 3);
    assert!(app.notification.is_none());
}

#[test]
fn a_new_notification_replaces_the_pending_one() {
    let mut app = fresh();
    app.notify_info("first", NOW);
    app.notify_error("second", NOW);
    assert_eq!(app.notification.unwrap().0, "ERROR: second");
}

#[test]
fn copy_on_empty_list_is_refused() {
    let mut app = logged_in();
    app.screen = Screen::Secrets;
    let r = press(&mut app, Key::Char('c'));
    assert!(r.is_none());
    assert_eq!(app.notification.unwrap().0, "ERROR: No secrets to copy");
}

#[test]
fn copy_takes_the_selected_field_value() {
    let mut app = logged_in();
    let records = three_remote_records(&app);
    app.on_secrets_fetched(Ok(records), NOW);
    match press(&mut app, Key::Char('c')).unwrap() {
        NetRequest::Copy { text } => assert_eq!(text, "t0"),
        _ => panic!("expected a copy request"),
    }
    app.on_copy_result(true, NOW);
    assert_eq!(app.notification.unwrap().0, "SUCCESS: Copied to clipboard");
}

#[test]
fn current_secret_fields_lists_the_payload() {
    let mut app = logged_in();
    let records = three_remote_records(&app);
    app.on_secrets_fetched(Ok(records), NOW);
    let fields = app.current_secret_fields();
    assert_eq!(fields.len(), 2);
    assert_eq!(fields[0], ("Title".to_string(), "t0".to_string()));
    assert_eq!(fields[1], ("Content".to_string(), "c".to_string()));
}

#[test]
fn control_combinations_switch_to_the_forms() {
    let mut app = logged_in();
    handle_key(&mut app, KeyInput { code: Key::Char('r'), ctrl: true }, NOW);
    assert_eq!(app.screen, Screen::Register);
    assert_eq!(app.input_mode, InputMode::Editing);
    handle_key(&mut app, KeyInput { code: Key::Char('l'), ctrl: true }, NOW);
    assert_eq!(app.screen, Screen::Login);
    assert_eq!(app.input_mode, InputMode::Editing);
}
