//! The interactive terminal state machine: screens, input modes, form
//! buffers, list selection and notifications.
//!
//! Everything that needs the outside world (the network, the clipboard, the
//! persisted token) is handed back to the caller as a `NetRequest`; the
//! caller performs it and reports the outcome through the matching `on_*`
//! method. Time enters only as a caller-supplied clock reading.
use vstd::prelude::*;

use crate::codec::payload_json;
use crate::crypto::id_of;
use crate::crypto::sealed_blob;
use crate::crypto::MAX_PLAINTEXT_BYTES;
use crate::crypto::NONCE_SIZE;
use crate::errors::VaultError;
use crate::models::DecryptedSecret;
use crate::models::PayloadView;
use crate::models::Secret;
use crate::models::SecretPayload;
use crate::session::GopherApp;
use crate::session::SessionView;
use crate::strutil::pop_char;
use crate::strutil::push_char;
use vstd::string::StringExecFns;
use vstd::utf8::encode_utf8;

verus! {

/// The screens of the interactive session.
#[derive(Debug, Clone, Copy, PartialEq, Eq, Structural)]
pub enum Screen {
    Login,
    Register,
    MasterPassword,
    Menu,
    Secrets,
    AddSecret,
}

/// Whether keys are commands or text entry.
#[derive(Debug, Clone, Copy, PartialEq, Eq, Structural)]
pub enum InputMode {
    Normal,
    Editing,
}

/// The step of the login or registration form.
#[derive(Debug, Clone, Copy, PartialEq, Eq, Structural)]
pub enum LoginStep {
    Username,
    Password,
    ConfirmPassword,
}

/// The kind of secret being added.
#[derive(Debug, Clone, Copy, PartialEq, Eq, Structural)]
pub enum AddKind {
    Password,
    Note,
    Card,
}

/// The focused field of the add-secret form.
#[derive(Debug, Clone, Copy, PartialEq, Eq, Structural)]
pub enum AddField {
    Kind,
    Title,
    Field1,
    Field2,
    Field3,
    Field4,
}

/// An outside action the interaction loop asks its caller to perform.
pub enum NetRequest {
    Register { login: String, password: String },
    Login { login: String, password: String },
    FetchSecrets { token: String },
    Upsert { token: String, secret: Secret },
    Delete { token: String, id: String },
    DeleteToken,
    Copy { text: String },
}

/// The interactive session state.
pub struct TuiApp {
    pub screen: Screen,
    pub input_mode: InputMode,
    pub api: GopherApp,
    pub secrets: Vec<DecryptedSecret>,
    pub selected: usize,
    pub username: String,
    pub password: String,
    pub confirm_password: String,
    pub login_step: LoginStep,
    pub add_kind: AddKind,
    pub add_field: AddField,
    pub title: String,
    pub field1: String,
    pub field2: String,
    pub field3: String,
    pub field4: String,
    pub detail_selected: usize,
    pub notification: Option<(String, u64)>,
    pub should_quit: bool,
}

/// Which text buffer a typed character lands in, by screen and focus.
pub enum EditTarget {
    Username,
    Password,
    ConfirmPassword,
    Title,
    Field1,
    Field2,
    Field3,
    Field4,
    NoTarget,
}

/// The buffer the active screen edits.
pub open spec fn edit_target(s: &TuiApp) -> EditTarget {
    match s.screen {
        Screen::Login | Screen::Register => match s.login_step {
            LoginStep::Username => EditTarget::Username,
            LoginStep::Password => EditTarget::Password,
            LoginStep::ConfirmPassword => EditTarget::ConfirmPassword,
        },
        Screen::MasterPassword => EditTarget::Password,
        Screen::AddSecret => match s.add_field {
            AddField::Kind => EditTarget::NoTarget,
            AddField::Title => EditTarget::Title,
            AddField::Field1 => EditTarget::Field1,
            AddField::Field2 => EditTarget::Field2,
            AddField::Field3 => EditTarget::Field3,
            AddField::Field4 => EditTarget::Field4,
        },
        _ => EditTarget::NoTarget,
    }
}

/// The field after `f` in the cycle of the add-secret form for `kind`:
/// the kind selector, the title, then the kind's own fields, wrapping around.
/// A field outside the kind's cycle stays put.
pub open spec fn spec_next_field(kind: AddKind, f: AddField) -> AddField {
    match kind {
        AddKind::Password => match f {
            AddField::Kind => AddField::Title,
            AddField::Title => AddField::Field1,
            AddField::Field1 => AddField::Field2,
            AddField::Field2 => AddField::Field3,
            AddField::Field3 => AddField::Kind,
            AddField::Field4 => AddField::Field4,
        },
        AddKind::Note => match f {
            AddField::Kind => AddField::Title,
            AddField::Title => AddField::Field1,
            AddField::Field1 => AddField::Kind,
            _ => f,
        },
        AddKind::Card => match f {
            AddField::Kind => AddField::Title,
            AddField::Title => AddField::Field1,
            AddField::Field1 => AddField::Field2,
            AddField::Field2 => AddField::Field3,
            AddField::Field3 => AddField::Field4,
            AddField::Field4 => AddField::Kind,
        },
    }
}

/// The payload the add-secret form currently describes.
pub open spec fn spec_form_payload(s: &TuiApp) -> PayloadView {
    match s.add_kind {
        AddKind::Password => PayloadView::Password {
            title: s.title@,
            login: s.field1@,
            password: s.field2@,
            url: if s.field3@.len() == 0 {
                None
            } else {
                Some(s.field3@)
            },
        },
        AddKind::Note => PayloadView::Note { title: s.title@, content: s.field1@ },
        AddKind::Card => PayloadView::Card {
            title: s.title@,
            holder: s.field1@,
            number: s.field2@,
            expiry: s.field3@,
            cvv: s.field4@,
        },
    }
}

/// The instant a notification shown at `now` for `secs` seconds expires
/// (clamped at the clock's end).
pub open spec fn expiry_at(now: u64, secs: u64) -> u64 {
    if now + secs <= u64::MAX {
        (now + secs) as u64
    } else {
        u64::MAX
    }
}

/// The labelled plaintext fields a payload shows in the detail pane.
pub open spec fn spec_payload_fields(p: PayloadView) -> Seq<(Seq<char>, Seq<char>)> {
    match p {
        PayloadView::Password { title, login, password, url } => {
            let base = seq![("Title"@, title), ("Login"@, login), ("Password"@, password)];
            match url {
                Some(u) => base.push(("URL"@, u)),
                None => base,
            }
        },
        PayloadView::Note { title, content } => seq![("Title"@, title), ("Content"@, content)],
        PayloadView::Card { title, holder, number, expiry, cvv } => seq![
            ("Title"@, title),
            ("Holder"@, holder),
            ("Number"@, number),
            ("Expiry"@, expiry),
            ("CVV"@, cvv),
        ],
    }
}

impl TuiApp {
    /// A fresh interactive session around an already-initialized session
    /// manager. After a successful auto-login the master password is still
    /// missing, so the session starts on the unlock screen; otherwise on the
    /// login form. Both take text entry, so both start in editing mode.
    pub fn new(api: GopherApp, auto_login: bool) -> (r: Self)
        ensures
            r.screen == (if auto_login {
                Screen::MasterPassword
            } else {
                Screen::Login
            }),
            r.input_mode == InputMode::Editing,
            r.api == api,
            r.secrets@.len() == 0,
            r.selected == 0,
            r.username@.len() == 0,
            r.password@.len() == 0,
            r.confirm_password@.len() == 0,
            r.login_step == LoginStep::Username,
            r.add_kind == AddKind::Password,
            r.add_field == AddField::Title,
            r.title@.len() == 0,
            r.field1@.len() == 0,
            r.field2@.len() == 0,
            r.field3@.len() == 0,
            r.field4@.len() == 0,
            r.detail_selected == 0,
            r.notification is None,
            !r.should_quit,
    {
        TuiApp {
            screen: if auto_login {
                Screen::MasterPassword
            } else {
                Screen::Login
            },
            input_mode: InputMode::Editing,
            api,
            secrets: Vec::new(),
            selected: 0,
            username: String::new(),
            password: String::new(),
            confirm_password: String::new(),
            login_step: LoginStep::Username,
            add_kind: AddKind::Password,
            add_field: AddField::Title,
            title: String::new(),
            field1: String::new(),
            field2: String::new(),
            field3: String::new(),
            field4: String::new(),
            detail_selected: 0,
            notification: None,
            should_quit: false,
        }
    }

    /// Show `text` until `secs` seconds past `now`, replacing any pending
    /// notification. There is no queue.
    fn notify(&mut self, text: String, secs: u64, now: u64)
        ensures
            *final (self) == (TuiApp { notification: final (self).notification, ..*old(self) }),
            final (self).notification matches Some(n) && n.0 == text && n.1 == expiry_at(
                now,
                secs,
            ),
    {
        self.notification = Some((text, now.saturating_add(secs)));
    }

    /// A success notification: `SUCCESS: ` and the message, for 2 seconds.
    pub fn notify_success(&mut self, msg: &str, now: u64)
        ensures
            *final (self) == (TuiApp { notification: final (self).notification, ..*old(self) }),
            final (self).notification matches Some(n) && n.0@ == "SUCCESS: "@ + msg@ && n.1
                == expiry_at(now, 2),
    {
        self.notify(String::from_str("SUCCESS: ").concat(msg), 2, now);
    }

    /// An error notification: `ERROR: ` and the message, for 3 seconds.
    pub fn notify_error(&mut self, msg: &str, now: u64)
        ensures
            *final (self) == (TuiApp { notification: final (self).notification, ..*old(self) }),
            final (self).notification matches Some(n) && n.0@ == "ERROR: "@ + msg@ && n.1
                == expiry_at(now, 3),
    {
        self.notify(String::from_str("ERROR: ").concat(msg), 3, now);
    }

    /// An informational notification: `INFO: ` and the message, for 2 seconds.
    pub fn notify_info(&mut self, msg: &str, now: u64)
        ensures
            *final (self) == (TuiApp { notification: final (self).notification, ..*old(self) }),
            final (self).notification matches Some(n) && n.0@ == "INFO: "@ + msg@ && n.1
                == expiry_at(now, 2),
    {
        self.notify(String::from_str("INFO: ").concat(msg), 2, now);
    }

    /// Drop the pending notification once the clock passes its expiry.
    pub fn clear_notifications(&mut self, now: u64)
        ensures
            *final (self) == (TuiApp { notification: final (self).notification, ..*old(self) }),
            final (self).notification == (match old(self).notification {
                Some(n) => if now > n.1 {
                    None
                } else {
                    Some(n)
                },
                None => None::<(String, u64)>,
            }),
    {
        let clear = match &self.notification {
            Some(n) => now > n.1,
            None => false,
        };
        if clear {
            self.notification = None;
        }
    }
}

} // verus!

verus! {

/// Whether `post` is `pre` with at most the notification replaced.
pub open spec fn only_notified(pre: TuiApp, post: TuiApp) -> bool {
    post == (TuiApp { notification: post.notification, ..pre })
}

impl TuiApp {
    /// Settle a login attempt. Success stores the token, caches the login
    /// password as the master password, remembers the user, moves to the menu
    /// in command mode and clears the form; failure only notifies.
    pub fn login(&mut self, outcome: Result<String, String>, now: u64)
        ensures
            outcome matches Ok(token) ==> {
                &&& *final (self) == (TuiApp {
                    api: final (self).api,
                    screen: Screen::Menu,
                    input_mode: InputMode::Normal,
                    username: final (self).username,
                    password: final (self).password,
                    notification: final (self).notification,
                    ..*old(self)
                })
                &&& final (self).api@.token == Some(token@)
                &&& final (self).api@.master_password == Some(old(self).password@)
                &&& final (self).api@.current_user == Some(old(self).username@)
                &&& final (self).username@.len() == 0
                &&& final (self).password@.len() == 0
                &&& (final (self).notification matches Some(n) && n.0@ == "SUCCESS: "@
                    + "Logged in successfully"@ && n.1 == expiry_at(now, 2))
            },
            outcome matches Err(e) ==> {
                &&& only_notified(*old(self), *final (self))
                &&& (final (self).notification matches Some(n) && n.0@ == "ERROR: "@
                    + "Login failed: "@ + e@ && n.1 == expiry_at(now, 3))
            },
    {
        match outcome {
            Ok(token) => {
                self.api.login(self.username.clone(), self.password.clone(), token);
                self.screen = Screen::Menu;
                self.input_mode = InputMode::Normal;
                self.notify_success("Logged in successfully", now);
                self.username = String::new();
                self.password = String::new();
            },
            Err(e) => {
                let msg = String::from_str("Login failed: ").concat(e.as_str());
                self.notify_error(msg.as_str(), now);
            },
        }
    }

    /// Settle a registration attempt. Success notifies and asks the caller to
    /// log in with the same credentials, as registering does not authenticate
    /// by itself; failure only notifies.
    pub fn register(&mut self, outcome: Result<(), String>, now: u64) -> (r: Option<NetRequest>)
        ensures
            outcome is Ok ==> {
                &&& only_notified(*old(self), *final (self))
                &&& (final (self).notification matches Some(n) && n.0@
                    == "Registered successfully"@ && n.1 == expiry_at(now, 2))
                &&& (r matches Some(q) ==> q matches NetRequest::Login { login, password }
                    && login@ == old(self).username@ && password@ == old(self).password@)
                &&& r is Some
            },
            outcome matches Err(e) ==> {
                &&& r is None
                &&& only_notified(*old(self), *final (self))
                &&& (final (self).notification matches Some(n) && n.0@ == "Register failed: "@
                    + e@ && n.1 == expiry_at(now, 3))
            },
    {
        match outcome {
            Ok(_) => {
                self.notify(String::from_str("Registered successfully"), 2, now);
                Some(
                    NetRequest::Login {
                        login: self.username.clone(),
                        password: self.password.clone(),
                    },
                )
            },
            Err(e) => {
                let msg = String::from_str("Register failed: ").concat(e.as_str());
                self.notify(msg, 3, now);
                None
            },
        }
    }

    /// Log out: clear the whole session and the decrypted list, return to the
    /// login screen, and ask the caller to delete the persisted token. A
    /// failure to delete it does not block the local transition.
    pub fn logout(&mut self, now: u64) -> (r: NetRequest)
        ensures
            *final (self) == (TuiApp {
                api: final (self).api,
                secrets: final (self).secrets,
                screen: Screen::Login,
                notification: final (self).notification,
                ..*old(self)
            }),
            final (self).api@.token is None,
            final (self).api@.master_password is None,
            final (self).api@.current_user is None,
            final (self).secrets@.len() == 0,
            final (self).notification matches Some(n) && n.0@ == "Logged out"@ && n.1
                == expiry_at(now, 2),
            r is DeleteToken,
    {
        self.api.logout();
        self.secrets = Vec::new();
        self.screen = Screen::Login;
        self.notify(String::from_str("Logged out"), 2, now);
        NetRequest::DeleteToken
    }

    /// Start a sync: with a token and a cached master password, ask the
    /// caller to fetch the stored records; otherwise notify why not.
    pub fn sync_secrets(&mut self, now: u64) -> (r: Option<NetRequest>)
        ensures
            sync_started(*old(self), *final (self), r, now),
    {
        match self.api.sync_begin() {
            Ok(token) => Some(NetRequest::FetchSecrets { token }),
            Err(e) => {
                let msg = String::from_str("Sync failed: ").concat(e.message());
                self.notify(msg, 3, now);
                None
            },
        }
    }

    /// Settle a fetch: decrypt the records with the cached master password
    /// and show them, selecting the first; any failure only notifies and
    /// leaves the current list untouched.
    pub fn on_secrets_fetched(&mut self, outcome: Result<Vec<Secret>, String>, now: u64)
        ensures
            outcome matches Err(e) ==> {
                &&& only_notified(*old(self), *final (self))
                &&& (final (self).notification matches Some(n) && n.0@ == "Sync failed: "@ + e@
                    && n.1 == expiry_at(now, 3))
            },
            outcome matches Ok(records) ==> {
                if old(self).api@.token is Some && old(self).api@.master_password is Some && (
                forall|i: int|
                    0 <= i < records@.len() ==> crate::session::sealed_payload(
                        records@[i].data@,
                        old(self).api@.master_password->0,
                    )) {
                    &&& *final (self) == (TuiApp {
                        secrets: final (self).secrets,
                        selected: 0,
                        screen: Screen::Secrets,
                        notification: final (self).notification,
                        ..*old(self)
                    })
                    &&& final (self).secrets@.len() == records@.len()
                    &&& (forall|i: int, p: PayloadView, nonce: Seq<u8>|
                        #![trigger final (self).secrets@[i], crate::crypto::sealed_blob(payload_json(p), old(self).api@.master_password->0, nonce)]
                        0 <= i < records@.len() && nonce.len() == crate::crypto::NONCE_SIZE
                            && records@[i].data@ == crate::crypto::sealed_blob(
                            payload_json(p),
                            old(self).api@.master_password->0,
                            nonce,
                        ) ==> final (self).secrets@[i]@.payload == p)
                    &&& (forall|i: int|
                        0 <= i < records@.len() ==> (#[trigger] final (self).secrets@[i])@.id
                            == records@[i].id@ && final (self).secrets@[i]@.secret_type
                            == records@[i].secret_type@)
                    &&& (final (self).notification matches Some(n) && n.0@ == "Secrets synced"@
                        && n.1 == expiry_at(now, 2))
                } else {
                    &&& only_notified(*old(self), *final (self))
                    &&& (final (self).notification matches Some(n) && n.0@ == "Sync failed: "@ + (
                    if old(self).api@.token is None {
                        VaultError::NotAuthenticated.spec_message()
                    } else if old(self).api@.master_password is None {
                        VaultError::NotUnlocked.spec_message()
                    } else {
                        "Could not decrypt a fetched record"@
                    }) && n.1 == expiry_at(now, 3))
                }
            },
    {
        match outcome {
            Ok(records) => {
                match self.api.sync_and_decrypt(records) {
                    Ok(data) => {
                        self.secrets = data;
                        self.selected = 0;
                        self.screen = Screen::Secrets;
                        self.notify(String::from_str("Secrets synced"), 2, now);
                    },
                    Err(e) => {
                        let msg = String::from_str("Sync failed: ").concat(e.message());
                        self.notify(msg, 3, now);
                    },
                }
            },
            Err(e) => {
                let msg = String::from_str("Sync failed: ").concat(e.as_str());
                self.notify(msg, 3, now);
            },
        }
    }

    /// Ask the caller to delete the selected secret remotely. Nothing happens
    /// on an empty or out-of-range selection, or without a token: an
    /// impossible delete stays silent.
    pub fn delete_selected(&mut self) -> (r: Option<NetRequest>)
        ensures
            delete_requested(*old(self), *final (self), r),
    {
        if self.selected >= self.secrets.len() {
            return None;
        }
        let id = self.secrets[self.selected].id.clone();
        match self.api.delete_secret(id.as_str()) {
            Ok(token) => Some(NetRequest::Delete { token, id }),
            Err(_) => None,
        }
    }

    /// Settle a remote delete: on success remove the record from the shown
    /// list, move the selection one up, and notify; a failed delete leaves
    /// the list untouched.
    pub fn on_delete_result(&mut self, ok: bool, now: u64)
        ensures
            !ok || old(self).selected >= old(self).secrets@.len() ==> *final (self) == *old(self),
            ok && old(self).selected < old(self).secrets@.len() ==> {
                &&& *final (self) == (TuiApp {
                    secrets: final (self).secrets,
                    selected: final (self).selected,
                    notification: final (self).notification,
                    ..*old(self)
                })
                &&& final (self).secrets@ == old(self).secrets@.remove(old(self).selected as int)
                &&& final (self).selected == (if old(self).selected > 0 {
                    old(self).selected - 1
                } else {
                    0
                })
                &&& (final (self).notification matches Some(n) && n.0@ == "Secret deleted"@ && n.1
                    == expiry_at(now, 2))
            },
    {
        if ok && self.selected < self.secrets.len() {
            self.secrets.remove(self.selected);
            if self.selected > 0 {
                self.selected = self.selected - 1;
            }
            self.notify(String::from_str("Secret deleted"), 2, now);
        }
    }

    /// Open the add-secret form with cleared fields, the title focused, in
    /// editing mode: the form takes text entry.
    pub fn enter_add_secret(&mut self)
        ensures
            *final (self) == (TuiApp {
                screen: Screen::AddSecret,
                input_mode: InputMode::Editing,
                add_field: AddField::Title,
                title: final (self).title,
                field1: final (self).field1,
                field2: final (self).field2,
                field3: final (self).field3,
                field4: final (self).field4,
                ..*old(self)
            }),
            final (self).title@.len() == 0,
            final (self).field1@.len() == 0,
            final (self).field2@.len() == 0,
            final (self).field3@.len() == 0,
            final (self).field4@.len() == 0,
    {
        self.screen = Screen::AddSecret;
        self.input_mode = InputMode::Editing;
        self.reset_add_fields();
    }

    /// Clear the add-secret form and focus the title.
    fn reset_add_fields(&mut self)
        ensures
            *final (self) == (TuiApp {
                add_field: AddField::Title,
                title: final (self).title,
                field1: final (self).field1,
                field2: final (self).field2,
                field3: final (self).field3,
                field4: final (self).field4,
                ..*old(self)
            }),
            final (self).title@.len() == 0,
            final (self).field1@.len() == 0,
            final (self).field2@.len() == 0,
            final (self).field3@.len() == 0,
            final (self).field4@.len() == 0,
    {
        self.title = String::new();
        self.field1 = String::new();
        self.field2 = String::new();
        self.field3 = String::new();
        self.field4 = String::new();
        self.add_field = AddField::Title;
    }

    /// Submit the add-secret form: with a title, a token and a master
    /// password, build the encrypted record for the form's payload and ask
    /// the caller to upsert it; otherwise notify why not. The screen changes
    /// only once the caller reports the upsert's outcome.
    pub fn add_secret(&mut self, now: u64) -> (r: Option<NetRequest>)
        ensures
            add_submitted(*old(self), *final (self), r, now),
    {
        if self.title.as_str().is_empty() {
            self.notify(String::from_str("Title required"), 3, now);
            return None;
        }
        let payload = match self.add_kind {
            AddKind::Password => SecretPayload::Password {
                title: self.title.clone(),
                login: self.field1.clone(),
                password: self.field2.clone(),
                url: if self.field3.as_str().is_empty() {
                    None
                } else {
                    Some(self.field3.clone())
                },
            },
            AddKind::Note => SecretPayload::Note {
                title: self.title.clone(),
                content: self.field1.clone(),
            },
            AddKind::Card => SecretPayload::Card {
                title: self.title.clone(),
                holder: self.field1.clone(),
                number: self.field2.clone(),
                expiry: self.field3.clone(),
                cvv: self.field4.clone(),
            },
        };
        proof {
            assert(payload@ == spec_form_payload(old(self)));
        }
        match self.api.add_secret(&payload) {
            Ok((token, secret)) => Some(NetRequest::Upsert { token, secret }),
            Err(e) => {
                let msg = String::from_str("Add failed: ").concat(e.message());
                self.notify(msg, 3, now);
                None
            },
        }
    }

    /// Settle an upsert: success returns to the menu in command mode and
    /// notifies; failure only notifies.
    pub fn on_add_result(&mut self, outcome: Result<(), String>, now: u64)
        ensures
            outcome is Ok ==> {
                &&& *final (self) == (TuiApp {
                    screen: Screen::Menu,
                    input_mode: InputMode::Normal,
                    notification: final (self).notification,
                    ..*old(self)
                })
                &&& (final (self).notification matches Some(n) && n.0@ == "Secret added"@ && n.1
                    == expiry_at(now, 2))
            },
            outcome matches Err(e) ==> {
                &&& only_notified(*old(self), *final (self))
                &&& (final (self).notification matches Some(n) && n.0@ == "Add failed: "@ + e@
                    && n.1 == expiry_at(now, 3))
            },
    {
        match outcome {
            Ok(_) => {
                self.screen = Screen::Menu;
                self.input_mode = InputMode::Normal;
                self.notify(String::from_str("Secret added"), 2, now);
            },
            Err(e) => {
                let msg = String::from_str("Add failed: ").concat(e.as_str());
                self.notify(msg, 3, now);
            },
        }
    }

    /// Move the selection down, clamped to the last entry; on an empty list
    /// nothing moves. Moving resets the detail cursor.
    pub fn next(&mut self)
        ensures
            moved_next(*old(self), *final (self)),
    {
        if !self.secrets.is_empty() {
            let max = self.secrets.len() - 1;
            if self.selected < max {
                self.selected = self.selected + 1;
            } else {
                self.selected = max;
            }
            self.detail_selected = 0;
        }
    }

    /// Move the selection up, stopping at the first entry; on an empty list
    /// nothing moves. Moving resets the detail cursor.
    pub fn prev(&mut self)
        ensures
            moved_prev(*old(self), *final (self)),
    {
        if !self.secrets.is_empty() {
            if self.selected > 0 {
                self.selected = self.selected - 1;
            }
            self.detail_selected = 0;
        }
    }
}

} // verus!

verus! {

impl TuiApp {
    /// Append a typed character to the buffer the active screen edits; on a
    /// screen or focus without one, nothing changes.
    pub fn push_char(&mut self, c: char)
        ensures
            pushed(*old(self), *final (self), c),
    {
        match self.screen {
            Screen::Login | Screen::Register => match self.login_step {
                LoginStep::Username => push_char(&mut self.username, c),
                LoginStep::Password => push_char(&mut self.password, c),
                LoginStep::ConfirmPassword => push_char(&mut self.confirm_password, c),
            },
            Screen::MasterPassword => push_char(&mut self.password, c),
            Screen::AddSecret => match self.add_field {
                AddField::Kind => {},
                AddField::Title => push_char(&mut self.title, c),
                AddField::Field1 => push_char(&mut self.field1, c),
                AddField::Field2 => push_char(&mut self.field2, c),
                AddField::Field3 => push_char(&mut self.field3, c),
                AddField::Field4 => push_char(&mut self.field4, c),
            },
            _ => {},
        }
    }

    /// Delete the last character of the buffer the active screen edits; an
    /// empty buffer, or a screen or focus without one, stays as it is.
    pub fn backspace(&mut self)
        ensures
            backspaced(*old(self), *final (self)),
    {
        match self.screen {
            Screen::Login | Screen::Register => match self.login_step {
                LoginStep::Username => {
                    let _ = pop_char(&mut self.username);
                },
                LoginStep::Password => {
                    let _ = pop_char(&mut self.password);
                },
                LoginStep::ConfirmPassword => {
                    let _ = pop_char(&mut self.confirm_password);
                },
            },
            Screen::MasterPassword => {
                let _ = pop_char(&mut self.password);
            },
            Screen::AddSecret => match self.add_field {
                AddField::Kind => {},
                AddField::Title => {
                    let _ = pop_char(&mut self.title);
                },
                AddField::Field1 => {
                    let _ = pop_char(&mut self.field1);
                },
                AddField::Field2 => {
                    let _ = pop_char(&mut self.field2);
                },
                AddField::Field3 => {
                    let _ = pop_char(&mut self.field3);
                },
                AddField::Field4 => {
                    let _ = pop_char(&mut self.field4);
                },
            },
            _ => {},
        }
    }

    /// Submit the active screen: login and registration forms advance a step
    /// or go out as a request; the registration form first checks that the
    /// two passwords match; the master-password form is applied; the
    /// add-secret form is built and sent.
    pub fn submit(&mut self, now: u64) -> (r: Option<NetRequest>)
        ensures
            submitted(*old(self), *final (self), r, now),
    {
        match self.screen {
            Screen::Login => match self.login_step {
                LoginStep::Username => {
                    self.login_step = LoginStep::Password;
                    None
                },
                LoginStep::Password => Some(
                    NetRequest::Login {
                        login: self.username.clone(),
                        password: self.password.clone(),
                    },
                ),
                LoginStep::ConfirmPassword => None,
            },
            Screen::Register => match self.login_step {
                LoginStep::Username => {
                    self.login_step = LoginStep::Password;
                    None
                },
                LoginStep::Password => {
                    self.login_step = LoginStep::ConfirmPassword;
                    None
                },
                LoginStep::ConfirmPassword => {
                    if self.password.eq(&self.confirm_password) {
                        Some(
                            NetRequest::Register {
                                login: self.username.clone(),
                                password: self.password.clone(),
                            },
                        )
                    } else {
                        self.notify(String::from_str("Passwords do not match"), 3, now);
                        None
                    }
                },
            },
            Screen::MasterPassword => {
                self.submit_master_password(now);
                None
            },
            Screen::AddSecret => self.add_secret(now),
            _ => None,
        }
    }

    /// Cycle focus: on the add-secret form, advance to the next field of the
    /// chosen kind's cycle; on the login and registration forms, step between
    /// the credential fields.
    pub fn toggle_field(&mut self)
        ensures
            toggled(*old(self), *final (self)),
    {
        match self.screen {
            Screen::AddSecret => {
                self.add_field = match self.add_kind {
                    AddKind::Password => match self.add_field {
                        AddField::Kind => AddField::Title,
                        AddField::Title => AddField::Field1,
                        AddField::Field1 => AddField::Field2,
                        AddField::Field2 => AddField::Field3,
                        AddField::Field3 => AddField::Kind,
                        AddField::Field4 => AddField::Field4,
                    },
                    AddKind::Note => match self.add_field {
                        AddField::Kind => AddField::Title,
                        AddField::Title => AddField::Field1,
                        AddField::Field1 => AddField::Kind,
                        other => other,
                    },
                    AddKind::Card => match self.add_field {
                        AddField::Kind => AddField::Title,
                        AddField::Title => AddField::Field1,
                        AddField::Field1 => AddField::Field2,
                        AddField::Field2 => AddField::Field3,
                        AddField::Field3 => AddField::Field4,
                        AddField::Field4 => AddField::Kind,
                    },
                };
            },
            Screen::Login => {
                self.login_step = match self.login_step {
                    LoginStep::Username => LoginStep::Password,
                    LoginStep::Password => LoginStep::Username,
                    LoginStep::ConfirmPassword => LoginStep::Username,
                };
            },
            Screen::Register => {
                self.login_step = match self.login_step {
                    LoginStep::Username => LoginStep::Password,
                    LoginStep::Password => LoginStep::ConfirmPassword,
                    LoginStep::ConfirmPassword => LoginStep::Username,
                };
            },
            _ => {},
        }
    }

    /// Apply the entered master password: a non-empty one unlocks the session
    /// and moves to the menu in command mode; an empty one is rejected with a
    /// notification.
    pub fn submit_master_password(&mut self, now: u64)
        ensures
            master_submitted(*old(self), *final (self), now),
    {
        if self.password.as_str().is_empty() {
            self.notify_error("Master password cannot be empty", now);
            return ;
        }
        self.api.set_master_password(self.password.clone());
        self.password = String::new();
        self.screen = Screen::Menu;
        self.input_mode = InputMode::Normal;
        self.notify_success("Master password set", now);
    }

    /// The labelled plaintext fields of the selected secret, or nothing when
    /// the selection is out of range.
    pub fn current_secret_fields(&self) -> (r: Vec<(String, String)>)
        ensures
            self.selected < self.secrets@.len() ==> {
                let fields = spec_payload_fields(self.secrets@[self.selected as int]@.payload);
                &&& r@.len() == fields.len()
                &&& (forall|i: int|
                    0 <= i < fields.len() ==> (#[trigger] r@[i]).0@ == fields[i].0 && r@[i].1@
                        == fields[i].1)
            },
            self.selected >= self.secrets@.len() ==> r@.len() == 0,
    {
        if self.selected >= self.secrets.len() {
            return Vec::new();
        }
        let secret = &self.secrets[self.selected];
        let mut fields: Vec<(String, String)> = Vec::new();
        match &secret.payload {
            SecretPayload::Password { title, login, password, url } => {
                fields.push((String::from_str("Title"), title.clone()));
                fields.push((String::from_str("Login"), login.clone()));
                fields.push((String::from_str("Password"), password.clone()));
                match url {
                    Some(u) => {
                        fields.push((String::from_str("URL"), u.clone()));
                    },
                    None => {},
                }
            },
            SecretPayload::Note { title, content } => {
                fields.push((String::from_str("Title"), title.clone()));
                fields.push((String::from_str("Content"), content.clone()));
            },
            SecretPayload::Card { title, holder, number, expiry, cvv } => {
                fields.push((String::from_str("Title"), title.clone()));
                fields.push((String::from_str("Holder"), holder.clone()));
                fields.push((String::from_str("Number"), number.clone()));
                fields.push((String::from_str("Expiry"), expiry.clone()));
                fields.push((String::from_str("CVV"), cvv.clone()));
            },
        }
        fields
    }
}

/// The text of `s` without its last character; an empty text stays empty.
pub open spec fn drop_last_or_empty(s: Seq<char>) -> Seq<char> {
    if s.len() == 0 {
        s
    } else {
        s.drop_last()
    }
}

} // verus!

verus! {

impl TuiApp {
    /// Ask the caller to copy the detail-selected field of the selected
    /// secret to the clipboard; with nothing to copy, notify instead.
    pub fn copy_selected(&mut self, now: u64) -> (r: Option<NetRequest>)
        ensures
            copy_requested(*old(self), *final (self), r, now),
    {
        if self.secrets.is_empty() {
            self.notify_error("No secrets to copy", now);
            return None;
        }
        if self.selected >= self.secrets.len() {
            return None;
        }
        let fields = self.current_secret_fields();
        proof {
            let pv = self.secrets@[self.selected as int]@.payload;
            match pv {
                PayloadView::Password { title, login, password, url } => {},
                PayloadView::Note { title, content } => {},
                PayloadView::Card { title, holder, number, expiry, cvv } => {},
            }
            assert(spec_payload_fields(pv).len() >= 2);
        }
        let idx = if self.detail_selected < fields.len() {
            self.detail_selected
        } else {
            0
        };
        let text = fields[idx].1.clone();
        Some(NetRequest::Copy { text })
    }

    /// Settle a clipboard copy with a notification either way.
    pub fn on_copy_result(&mut self, ok: bool, now: u64)
        ensures
            only_notified(*old(self), *final (self)),
            ok ==> (final (self).notification matches Some(n) && n.0@ == "SUCCESS: "@
                + "Copied to clipboard"@ && n.1 == expiry_at(now, 2)),
            !ok ==> (final (self).notification matches Some(n) && n.0@ == "ERROR: "@
                + "Clipboard error"@ && n.1 == expiry_at(now, 3)),
    {
        if ok {
            self.notify_success("Copied to clipboard", now);
        } else {
            self.notify_error("Clipboard error", now);
        }
    }
}

} // verus!

verus! {

/// What typing one character does: it lands in the buffer the active screen
/// edits, or nowhere.
pub open spec fn pushed(pre: TuiApp, post: TuiApp, c: char) -> bool {
    match edit_target(&pre) {
        EditTarget::NoTarget => post == pre,
        EditTarget::Username => post == (TuiApp { username: post.username, ..pre })
            && post.username@ == pre.username@.push(c),
        EditTarget::Password => post == (TuiApp { password: post.password, ..pre })
            && post.password@ == pre.password@.push(c),
        EditTarget::ConfirmPassword => post == (TuiApp {
            confirm_password: post.confirm_password,
            ..pre
        }) && post.confirm_password@ == pre.confirm_password@.push(c),
        EditTarget::Title => post == (TuiApp { title: post.title, ..pre }) && post.title@
            == pre.title@.push(c),
        EditTarget::Field1 => post == (TuiApp { field1: post.field1, ..pre }) && post.field1@
            == pre.field1@.push(c),
        EditTarget::Field2 => post == (TuiApp { field2: post.field2, ..pre }) && post.field2@
            == pre.field2@.push(c),
        EditTarget::Field3 => post == (TuiApp { field3: post.field3, ..pre }) && post.field3@
            == pre.field3@.push(c),
        EditTarget::Field4 => post == (TuiApp { field4: post.field4, ..pre }) && post.field4@
            == pre.field4@.push(c),
    }
}

/// What a backspace does: the active buffer loses its last character.
pub open spec fn backspaced(pre: TuiApp, post: TuiApp) -> bool {
    match edit_target(&pre) {
        EditTarget::NoTarget => post == pre,
        EditTarget::Username => post == (TuiApp { username: post.username, ..pre })
            && post.username@ == drop_last_or_empty(pre.username@),
        EditTarget::Password => post == (TuiApp { password: post.password, ..pre })
            && post.password@ == drop_last_or_empty(pre.password@),
        EditTarget::ConfirmPassword => post == (TuiApp {
            confirm_password: post.confirm_password,
            ..pre
        }) && post.confirm_password@ == drop_last_or_empty(pre.confirm_password@),
        EditTarget::Title => post == (TuiApp { title: post.title, ..pre }) && post.title@
            == drop_last_or_empty(pre.title@),
        EditTarget::Field1 => post == (TuiApp { field1: post.field1, ..pre }) && post.field1@
            == drop_last_or_empty(pre.field1@),
        EditTarget::Field2 => post == (TuiApp { field2: post.field2, ..pre }) && post.field2@
            == drop_last_or_empty(pre.field2@),
        EditTarget::Field3 => post == (TuiApp { field3: post.field3, ..pre }) && post.field3@
            == drop_last_or_empty(pre.field3@),
        EditTarget::Field4 => post == (TuiApp { field4: post.field4, ..pre }) && post.field4@
            == drop_last_or_empty(pre.field4@),
    }
}

/// What a focus cycle does, by screen.
pub open spec fn toggled(pre: TuiApp, post: TuiApp) -> bool {
    match pre.screen {
        Screen::AddSecret => post == (TuiApp {
            add_field: spec_next_field(pre.add_kind, pre.add_field),
            ..pre
        }),
        Screen::Login => post == (TuiApp {
            login_step: (match pre.login_step {
                LoginStep::Username => LoginStep::Password,
                LoginStep::Password => LoginStep::Username,
                LoginStep::ConfirmPassword => LoginStep::Username,
            }),
            ..pre
        }),
        Screen::Register => post == (TuiApp {
            login_step: (match pre.login_step {
                LoginStep::Username => LoginStep::Password,
                LoginStep::Password => LoginStep::ConfirmPassword,
                LoginStep::ConfirmPassword => LoginStep::Username,
            }),
            ..pre
        }),
        _ => post == pre,
    }
}

/// What moving the selection down does: clamped to the end, a no-op on an
/// empty list.
pub open spec fn moved_next(pre: TuiApp, post: TuiApp) -> bool {
    if pre.secrets@.len() == 0 {
        post == pre
    } else {
        post == (TuiApp { selected: post.selected, detail_selected: 0, ..pre }) && post.selected
            as int == (if pre.selected + 1 < pre.secrets@.len() {
            pre.selected + 1
        } else {
            pre.secrets@.len() - 1
        })
    }
}

/// What moving the selection up does: stopped at the start, a no-op on an
/// empty list.
pub open spec fn moved_prev(pre: TuiApp, post: TuiApp) -> bool {
    if pre.secrets@.len() == 0 {
        post == pre
    } else {
        post == (TuiApp { selected: post.selected, detail_selected: 0, ..pre }) && post.selected
            as int == (if pre.selected > 0 {
            pre.selected - 1
        } else {
            0
        })
    }
}

/// What submitting the add-secret form does: with a title and an unlocked
/// session, the form's payload leaves as an encrypted upsert request;
/// otherwise a notification says why not.
pub open spec fn add_submitted(pre: TuiApp, post: TuiApp, r: Option<NetRequest>, now: u64) -> bool {
    &&& (pre.title@.len() == 0 ==> r is None && only_notified(pre, post) && (
    post.notification matches Some(n) && n.0@ == "Title required"@ && n.1 == expiry_at(now, 3)))
    &&& (pre.title@.len() > 0 ==> (if pre.api@.token is Some && pre.api@.master_password is Some
        && encode_utf8(payload_json(spec_form_payload(&pre))).len() <= MAX_PLAINTEXT_BYTES {
        &&& post == pre
        &&& r is Some
        &&& (r matches Some(q) ==> q matches NetRequest::Upsert { token, secret } && {
            &&& Some(token@) == pre.api@.token
            &&& secret.id@ == id_of(payload_json(spec_form_payload(&pre)))
            &&& (exists|nonce: Seq<u8>|
                nonce.len() == NONCE_SIZE && secret.data@ == sealed_blob(
                    payload_json(spec_form_payload(&pre)),
                    pre.api@.master_password->0,
                    nonce,
                ))
        })
    } else {
        &&& r is None
        &&& only_notified(pre, post)
        &&& (post.notification matches Some(n) && n.0@ == "Add failed: "@ + (
        if pre.api@.token is None {
            VaultError::NotAuthenticated.spec_message()
        } else if pre.api@.master_password is None {
            VaultError::NotUnlocked.spec_message()
        } else {
            VaultError::ValidationError.spec_message()
        }) && n.1 == expiry_at(now, 3))
    }))
}

/// What submitting the master-password form does: a non-empty entry unlocks
/// and returns to the menu; an empty one is rejected.
pub open spec fn master_submitted(pre: TuiApp, post: TuiApp, now: u64) -> bool {
    &&& (pre.password@.len() == 0 ==> only_notified(pre, post) && (post.notification matches Some(
        n,
    ) && n.0@ == "ERROR: "@ + "Master password cannot be empty"@ && n.1 == expiry_at(now, 3)))
    &&& (pre.password@.len() > 0 ==> {
        &&& post == (TuiApp {
            api: post.api,
            password: post.password,
            screen: Screen::Menu,
            input_mode: InputMode::Normal,
            notification: post.notification,
            ..pre
        })
        &&& post.api@ == (SessionView { master_password: Some(pre.password@), ..pre.api@ })
        &&& post.password@.len() == 0
        &&& (post.notification matches Some(n) && n.0@ == "SUCCESS: "@ + "Master password set"@
            && n.1 == expiry_at(now, 2))
    })
}

/// What a submit does, by screen: forms advance step by step, credentials
/// leave as requests, the registration form insists the passwords match.
pub open spec fn submitted(pre: TuiApp, post: TuiApp, r: Option<NetRequest>, now: u64) -> bool {
    &&& (pre.screen == Screen::Login && pre.login_step == LoginStep::Username ==> r is None && post
        == (TuiApp { login_step: LoginStep::Password, ..pre }))
    &&& (pre.screen == Screen::Login && pre.login_step == LoginStep::Password ==> post == pre && r
        is Some && (r matches Some(q) ==> q matches NetRequest::Login { login, password } && login@
        == pre.username@ && password@ == pre.password@))
    &&& (pre.screen == Screen::Login && pre.login_step == LoginStep::ConfirmPassword ==> r is None
        && post == pre)
    &&& (pre.screen == Screen::Register && pre.login_step == LoginStep::Username ==> r is None
        && post == (TuiApp { login_step: LoginStep::Password, ..pre }))
    &&& (pre.screen == Screen::Register && pre.login_step == LoginStep::Password ==> r is None
        && post == (TuiApp { login_step: LoginStep::ConfirmPassword, ..pre }))
    &&& (pre.screen == Screen::Register && pre.login_step == LoginStep::ConfirmPassword ==> (
    if pre.password@ == pre.confirm_password@ {
        post == pre && r is Some && (r matches Some(q) ==> q matches NetRequest::Register {
            login,
            password,
        } && login@ == pre.username@ && password@ == pre.password@)
    } else {
        r is None && only_notified(pre, post) && (post.notification matches Some(n) && n.0@
            == "Passwords do not match"@ && n.1 == expiry_at(now, 3))
    }))
    &&& (pre.screen == Screen::MasterPassword ==> r is None && master_submitted(pre, post, now))
    &&& (pre.screen == Screen::AddSecret ==> add_submitted(pre, post, r, now))
    &&& (pre.screen == Screen::Menu || pre.screen == Screen::Secrets ==> r is None && post == pre)
}

} // verus!

verus! {

/// What a logout does: the session and the shown list are cleared, the login
/// screen returns, and the persisted token is asked to be deleted.
pub open spec fn logged_out(pre: TuiApp, post: TuiApp, r: Option<NetRequest>, now: u64) -> bool {
    &&& post == (TuiApp {
        api: post.api,
        secrets: post.secrets,
        screen: Screen::Login,
        notification: post.notification,
        ..pre
    })
    &&& post.api@.token is None
    &&& post.api@.master_password is None
    &&& post.api@.current_user is None
    &&& post.secrets@.len() == 0
    &&& (post.notification matches Some(n) && n.0@ == "Logged out"@ && n.1 == expiry_at(now, 2))
    &&& (r matches Some(q) ==> q is DeleteToken)
    &&& r is Some
}

/// What starting a sync does: an authenticated, unlocked session sends a
/// fetch request; anything less is refused with the reason.
pub open spec fn sync_started(pre: TuiApp, post: TuiApp, r: Option<NetRequest>, now: u64) -> bool {
    &&& (pre.api@.token is Some && pre.api@.master_password is Some ==> post == pre && r is Some
        && (r matches Some(q) ==> q matches NetRequest::FetchSecrets { token } && Some(token@)
        == pre.api@.token))
    &&& (pre.api@.token is None ==> r is None && only_notified(pre, post) && (
    post.notification matches Some(n) && n.0@ == "Sync failed: "@
        + VaultError::NotAuthenticated.spec_message() && n.1 == expiry_at(now, 3)))
    &&& (pre.api@.token is Some && pre.api@.master_password is None ==> r is None && only_notified(
        pre,
        post,
    ) && (post.notification matches Some(n) && n.0@ == "Sync failed: "@
        + VaultError::NotUnlocked.spec_message() && n.1 == expiry_at(now, 3)))
}

/// What asking to delete the selection does: with a selection and a token the
/// record's id leaves as a delete request; otherwise nothing happens.
pub open spec fn delete_requested(pre: TuiApp, post: TuiApp, r: Option<NetRequest>) -> bool {
    &&& post == pre
    &&& (pre.selected < pre.secrets@.len() && pre.api@.token is Some ==> (r matches Some(q)
        && q matches NetRequest::Delete { token, id } && Some(token@) == pre.api@.token && id@
        == pre.secrets@[pre.selected as int].id@))
    &&& (pre.selected >= pre.secrets@.len() || pre.api@.token is None ==> r is None)
}

/// What asking to copy the selection does: the detail-selected field's value
/// leaves for the clipboard; an empty list is refused with a notification.
pub open spec fn copy_requested(pre: TuiApp, post: TuiApp, r: Option<NetRequest>, now: u64) -> bool {
    &&& (pre.secrets@.len() == 0 ==> r is None && only_notified(pre, post) && (
    post.notification matches Some(n) && n.0@ == "ERROR: "@ + "No secrets to copy"@ && n.1
        == expiry_at(now, 3)))
    &&& (pre.secrets@.len() > 0 && pre.selected >= pre.secrets@.len() ==> r is None && post == pre)
    &&& (pre.selected < pre.secrets@.len() ==> {
        let fields = spec_payload_fields(pre.secrets@[pre.selected as int]@.payload);
        let idx = if pre.detail_selected < fields.len() {
            pre.detail_selected as int
        } else {
            0
        };
        &&& post == pre
        &&& r is Some
        &&& (r matches Some(q) ==> q matches NetRequest::Copy { text } && text@ == fields[idx].1)
    })
}

} // verus!
