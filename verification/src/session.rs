//! The session manager: authentication token, cached master password and
//! current-user identity, and the encrypt-then-send / receive-then-decrypt
//! orchestration around them.
//!
//! Network and storage stay outside: callers hand records in and carry
//! requests out, so every decision made here is verified.
use vstd::prelude::*;

use crate::codec::parse_payload;
use crate::codec::payload_json;
use crate::codec::serialize_payload;
use crate::crypto::decrypt_string;
use crate::crypto::encrypt_string;
use crate::crypto::generate_id;
use crate::crypto::id_of;
use crate::crypto::sealed_blob;
use crate::crypto::MAX_PLAINTEXT_BYTES;
use crate::crypto::NONCE_SIZE;
use crate::errors::VaultError;
use crate::models::opt_view;
use crate::models::DecryptedSecret;
use crate::models::PayloadView;
use crate::models::Secret;
use crate::models::SecretPayload;
use vstd::string::StringExecFns;
use vstd::utf8::encode_utf8;

verus! {

/// Whether `data` is the encryption under `master` of some payload's
/// canonical text.
pub open spec fn sealed_payload(data: Seq<char>, master: Seq<char>) -> bool {
    exists|p: PayloadView, nonce: Seq<u8>|
        nonce.len() == NONCE_SIZE && data == sealed_blob(payload_json(p), master, nonce)
}

/// The mathematical value of a session.
pub struct SessionView {
    pub token: Option<Seq<char>>,
    pub master_password: Option<Seq<char>>,
    pub current_user: Option<Seq<char>>,
}

/// The session manager. Created empty; `token` is the sole authorization
/// artifact, `master_password` never leaves process memory.
pub struct GopherApp {
    token: Option<String>,
    master_password: Option<String>,
    current_user: Option<String>,
}

impl View for GopherApp {
    type V = SessionView;

    closed spec fn view(&self) -> SessionView {
        SessionView {
            token: opt_view(self.token),
            master_password: opt_view(self.master_password),
            current_user: opt_view(self.current_user),
        }
    }
}

/// The identity a bearer token embeds: the string `login` member of the
/// token's decoded payload, if the token has three dot-separated segments
/// whose middle one is the base64url of a JSON object with one. A function of
/// the token's characters alone.
pub uninterp spec fn jwt_login_of(token: Seq<char>) -> Option<Seq<char>>;

/// Relies on jsonwebtoken::dangerous::insecure_decode_claims: the token's
/// payload segment decoded without verifying the signature, deterministic in
/// the token alone; serde_json's `Value::get` and `Value::as_str` pick the
/// `login` member out of the decoded object.
#[verifier::external_body]
fn jwt_login(token: &str) -> (r: Option<String>)
    ensures
        r is Some <==> jwt_login_of(token@) is Some,
        r matches Some(s) ==> jwt_login_of(token@) == Some(s@),
{
    let claims = match jsonwebtoken::dangerous::insecure_decode_claims::<serde_json::Value>(
        token,
    ) {
        Ok(v) => v,
        Err(_) => return None,
    };
    match claims.get("login").and_then(|v| v.as_str()) {
        Some(s) => Some(s.to_owned()),
        None => None,
    }
}

impl GopherApp {
    /// A fresh anonymous session: no token, no master password, no user.
    pub fn new() -> (r: Self)
        ensures
            r@.token is None,
            r@.master_password is None,
            r@.current_user is None,
    {
        GopherApp { token: None, master_password: None, current_user: None }
    }

    /// Record a successful login: store the token the service returned, cache
    /// the login password as the master password, and remember the user. The
    /// session is then authenticated and unlocked.
    pub fn login(&mut self, login: String, pass: String, token: String)
        ensures
            final (self)@.token == Some(token@),
            final (self)@.master_password == Some(pass@),
            final (self)@.current_user == Some(login@),
    {
        self.token = Some(token);
        self.master_password = Some(pass);
        self.current_user = Some(login);
    }

    /// Adopt a previously persisted token: decode the user identity embedded
    /// in it without verifying the signature, and become authenticated but
    /// locked. Succeeds exactly when the token embeds a login, adopting that
    /// identity; otherwise nothing changes.
    pub fn try_auto_login(&mut self, token: String) -> (r: Result<(), VaultError>)
        ensures
            r is Ok <==> jwt_login_of(token@) is Some,
            r is Ok ==> final (self)@.token == Some(token@) && final (self)@.current_user
                == Some(jwt_login_of(token@)->0) && final (self)@.master_password == old(
                self,
            )@.master_password,
            r is Err ==> *final (self) == *old(self) && r->Err_0 == VaultError::NotAuthenticated,
    {
        let login = match jwt_login(token.as_str()) {
            Some(s) => s,
            None => {
                return Err(VaultError::NotAuthenticated);
            },
        };
        self.current_user = Some(login);
        self.token = Some(token);
        Ok(())
    }

    /// Clear the whole session: token, master password and user are gone and
    /// the session is anonymous again. The persisted token copy is the
    /// caller's to delete.
    pub fn logout(&mut self)
        ensures
            final (self)@.token is None,
            final (self)@.master_password is None,
            final (self)@.current_user is None,
    {
        self.token = None;
        self.master_password = None;
        self.current_user = None;
    }

    /// Whether a token is held.
    pub fn is_logged_in(&self) -> (r: bool)
        ensures
            r == (self@.token is Some),
    {
        self.token.is_some()
    }

    /// Whether no master password is cached.
    pub fn master_password_is_none(&self) -> (r: bool)
        ensures
            r == (self@.master_password is None),
    {
        self.master_password.is_none()
    }

    /// Cache a master password, unlocking the session.
    pub fn set_master_password(&mut self, pass: String)
        ensures
            final (self)@.master_password == Some(pass@),
            final (self)@.token == old(self)@.token,
            final (self)@.current_user == old(self)@.current_user,
    {
        self.master_password = Some(pass);
    }

    /// The current user, if one is known.
    pub fn get_current_user(&self) -> (r: Option<&String>)
        ensures
            r is Some <==> self@.current_user is Some,
            r matches Some(u) ==> self@.current_user == Some(u@),
    {
        self.current_user.as_ref()
    }

    /// Remember the current user.
    pub fn set_current_user(&mut self, username: String)
        ensures
            final (self)@.current_user == Some(username@),
            final (self)@.token == old(self)@.token,
            final (self)@.master_password == old(self)@.master_password,
    {
        self.current_user = Some(username);
    }

    /// Forget the current user.
    pub fn clear_current_user(&mut self)
        ensures
            final (self)@.current_user is None,
            final (self)@.token == old(self)@.token,
            final (self)@.master_password == old(self)@.master_password,
    {
        self.current_user = None;
    }

    /// The bearer token for a vault call, or `NotAuthenticated` without one.
    pub fn auth_token(&self) -> (r: Result<String, VaultError>)
        ensures
            r is Ok <==> self@.token is Some,
            r matches Ok(t) ==> self@.token == Some(t@),
            r is Err ==> r->Err_0 == VaultError::NotAuthenticated,
    {
        match &self.token {
            Some(t) => Ok(t.clone()),
            None => Err(VaultError::NotAuthenticated),
        }
    }

    /// Gate a sync: it needs a token and a cached master password. Returns
    /// the bearer token to fetch with; fails with `NotAuthenticated` without
    /// a token, else with `NotUnlocked` without a master password.
    pub fn sync_begin(&self) -> (r: Result<String, VaultError>)
        ensures
            r is Ok <==> self@.token is Some && self@.master_password is Some,
            r matches Ok(t) ==> self@.token == Some(t@),
            r == Err::<String, VaultError>(VaultError::NotAuthenticated) <==> self@.token is None,
            r == Err::<String, VaultError>(VaultError::NotUnlocked) <==> self@.token is Some
                && self@.master_password is None,
    {
        let token = match &self.token {
            Some(t) => t.clone(),
            None => {
                return Err(VaultError::NotAuthenticated);
            },
        };
        if self.master_password.is_none() {
            return Err(VaultError::NotUnlocked);
        }
        Ok(token)
    }

    /// Decrypt fetched records with the cached master password and
    /// deserialize each into its payload, in order.
    ///
    /// Succeeds exactly when the session is authenticated and unlocked and
    /// every record's blob is the encryption of some payload's canonical
    /// text under the cached master password; each decrypted record then
    /// carries that payload and the record's other fields unchanged. A bad
    /// record fails the whole call with `DecryptionFailed` naming the first
    /// offending position.
    pub fn sync_and_decrypt(&self, records: Vec<Secret>) -> (r: Result<
        Vec<DecryptedSecret>,
        VaultError,
    >)
        ensures
            r == Err::<Vec<DecryptedSecret>, VaultError>(VaultError::NotAuthenticated) <==> self@.token is None,
            r == Err::<Vec<DecryptedSecret>, VaultError>(VaultError::NotUnlocked) <==> self@.token is Some
                && self@.master_password is None,
            r is Ok <==> self@.token is Some && self@.master_password is Some && (forall|i: int|
                0 <= i < records@.len() ==> sealed_payload(
                    records@[i].data@,
                    self@.master_password->0,
                )),
            r matches Ok(list) ==> {
                &&& list@.len() == records@.len()
                &&& forall|i: int|
                    0 <= i < records@.len() ==> {
                        &&& (#[trigger] list@[i])@.id == records@[i].id@
                        &&& list@[i]@.secret_type == records@[i].secret_type@
                        &&& opt_view(list@[i].created_at) == opt_view(records@[i].created_at)
                        &&& opt_view(list@[i].updated_at) == opt_view(records@[i].updated_at)
                        &&& forall|p: PayloadView, nonce: Seq<u8>|
                            nonce.len() == NONCE_SIZE && records@[i].data@ == sealed_blob(
                                payload_json(p),
                                self@.master_password->0,
                                nonce,
                            ) ==> list@[i]@.payload == p
                    }
            },
            r matches Err(e) ==> (e == VaultError::NotAuthenticated || e == VaultError::NotUnlocked
                || e matches VaultError::DecryptionFailed { index }),
            r matches Err(e) ==> (e matches VaultError::DecryptionFailed { index } ==> index
                < records@.len() && !sealed_payload(
                records@[index as int].data@,
                self@.master_password->0,
            ) && (forall|j: int|
                0 <= j < index ==> sealed_payload(records@[j].data@, self@.master_password->0))),
    {
        if self.token.is_none() {
            return Err(VaultError::NotAuthenticated);
        }
        let master = match &self.master_password {
            Some(m) => m,
            None => {
                return Err(VaultError::NotUnlocked);
            },
        };
        let mut result: Vec<DecryptedSecret> = Vec::new();
        let mut idx: usize = 0;
        while idx < records.len()
            invariant
                idx <= records@.len(),
                self@.token is Some,
                self@.master_password == Some(master@),
                result@.len() == idx,
                forall|j: int| 0 <= j < idx ==> sealed_payload(records@[j].data@, master@),
                forall|i: int|
                    0 <= i < idx ==> {
                        &&& (#[trigger] result@[i])@.id == records@[i].id@
                        &&& result@[i]@.secret_type == records@[i].secret_type@
                        &&& opt_view(result@[i].created_at) == opt_view(records@[i].created_at)
                        &&& opt_view(result@[i].updated_at) == opt_view(records@[i].updated_at)
                        &&& forall|p: PayloadView, nonce: Seq<u8>|
                            nonce.len() == NONCE_SIZE && records@[i].data@ == sealed_blob(
                                payload_json(p),
                                master@,
                                nonce,
                            ) ==> result@[i]@.payload == p
                    },
            decreases records@.len() - idx,
        {
            let sec = &records[idx];
            let decrypted_json = match decrypt_string(sec.data.as_str(), master.as_str()) {
                Ok(text) => text,
                Err(_) => {
                    proof {
                        if sealed_payload(sec.data@, master@) {
                            let (p, nonce) = choose|p: PayloadView, nonce: Seq<u8>|
                                nonce.len() == NONCE_SIZE && sec.data@ == sealed_blob(
                                    payload_json(p),
                                    master@,
                                    nonce,
                                );
                            assert(false);
                        }
                        assert(self@.master_password->0 == master@);
                        assert(!sealed_payload(
                            records@[idx as int].data@,
                            self@.master_password->0,
                        ));
                        assert forall|j: int| 0 <= j < idx implies sealed_payload(
                            records@[j].data@,
                            self@.master_password->0,
                        ) by {
                            assert(sealed_payload(records@[j].data@, master@));
                        }
                    }
                    return Err(VaultError::DecryptionFailed { index: idx });
                },
            };
            let payload = match parse_payload(decrypted_json.as_str()) {
                Ok(p) => p,
                Err(_) => {
                    proof {
                        if sealed_payload(sec.data@, master@) {
                            let (p, nonce) = choose|p: PayloadView, nonce: Seq<u8>|
                                nonce.len() == NONCE_SIZE && sec.data@ == sealed_blob(
                                    payload_json(p),
                                    master@,
                                    nonce,
                                );
                            assert(decrypted_json@ == payload_json(p));
                            assert(false);
                        }
                        assert(self@.master_password->0 == master@);
                        assert(!sealed_payload(
                            records@[idx as int].data@,
                            self@.master_password->0,
                        ));
                        assert forall|j: int| 0 <= j < idx implies sealed_payload(
                            records@[j].data@,
                            self@.master_password->0,
                        ) by {
                            assert(sealed_payload(records@[j].data@, master@));
                        }
                    }
                    return Err(VaultError::DecryptionFailed { index: idx });
                },
            };
            proof {
                assert(sec.data@ == sealed_blob(payload_json(payload@), master@, choose|
                    nonce: Seq<u8>,
                |
                    nonce.len() == NONCE_SIZE && sec.data@ == sealed_blob(
                        payload_json(payload@),
                        master@,
                        nonce,
                    ))) by {
                    let (dd, nn) = choose|dd: Seq<char>, nn: Seq<u8>|
                        nn.len() == NONCE_SIZE && sec.data@ == sealed_blob(dd, master@, nn);
                    assert(decrypted_json@ == dd);
                    assert(sec.data@ == sealed_blob(payload_json(payload@), master@, nn));
                }
                assert(sealed_payload(sec.data@, master@));
            }
            let entry = DecryptedSecret {
                id: sec.id.clone(),
                secret_type: sec.secret_type.clone(),
                payload,
                created_at: sec.created_at.clone(),
                updated_at: sec.updated_at.clone(),
            };
            result.push(entry);
            idx = idx + 1;
        }
        Ok(result)
    }

    /// Build the encrypted record to upsert for a payload: serialize it to
    /// the canonical text, derive the content id, encrypt under the cached
    /// master password, and tag it with the variant name and the current
    /// user.
    ///
    /// Fails with `NotAuthenticated` without a token, then `NotUnlocked`
    /// without a master password; payloads whose canonical text exceeds the
    /// encryption size cap are rejected as `ValidationError`. Otherwise
    /// returns the bearer token and the record.
    pub fn add_secret(&self, payload: &SecretPayload) -> (r: Result<(String, Secret), VaultError>)
        ensures
            r == Err::<(String, Secret), VaultError>(VaultError::NotAuthenticated) <==> self@.token is None,
            r == Err::<(String, Secret), VaultError>(VaultError::NotUnlocked) <==> self@.token is Some
                && self@.master_password is None,
            r is Ok <==> self@.token is Some && self@.master_password is Some && encode_utf8(
                payload_json(payload@),
            ).len() <= MAX_PLAINTEXT_BYTES,
            r matches Ok(t) ==> {
                &&& self@.token == Some(t.0@)
                &&& t.1.id@ == id_of(payload_json(payload@))
                &&& t.1.secret_type@ == payload.spec_type_tag()
                &&& (self@.current_user matches Some(u) ==> t.1.user_login@ == u)
                &&& (self@.current_user is None ==> t.1.user_login@ == Seq::<char>::empty())
                &&& exists|nonce: Seq<u8>|
                    nonce.len() == NONCE_SIZE && t.1.data@ == sealed_blob(
                        payload_json(payload@),
                        self@.master_password->0,
                        nonce,
                    )
                &&& t.1.created_at is None
                &&& t.1.updated_at is None
            },
            r matches Err(e) ==> (e == VaultError::NotAuthenticated || e == VaultError::NotUnlocked
                || e == VaultError::ValidationError),
    {
        let token = match &self.token {
            Some(t) => t.clone(),
            None => {
                return Err(VaultError::NotAuthenticated);
            },
        };
        let master = match &self.master_password {
            Some(m) => m,
            None => {
                return Err(VaultError::NotUnlocked);
            },
        };
        let json = serialize_payload(payload);
        let encrypted = match encrypt_string(json.as_str(), master.as_str()) {
            Ok(blob) => blob,
            Err(e) => {
                return Err(e);
            },
        };
        let id = generate_id(json.as_str());
        let user_login = match &self.current_user {
            Some(u) => u.clone(),
            None => String::new(),
        };
        let secret = Secret {
            id,
            user_login,
            secret_type: String::from_str(payload.type_tag()),
            data: encrypted,
            created_at: None,
            updated_at: None,
        };
        Ok((token, secret))
    }

    /// Gate a remote delete: it needs a token, but not a master password.
    /// Returns the bearer token to delete with.
    pub fn delete_secret(&self, id: &str) -> (r: Result<String, VaultError>)
        ensures
            r is Ok <==> self@.token is Some,
            r matches Ok(t) ==> self@.token == Some(t@),
            r is Err ==> r->Err_0 == VaultError::NotAuthenticated,
    {
        let _ = id;
        match &self.token {
            Some(t) => Ok(t.clone()),
            None => Err(VaultError::NotAuthenticated),
        }
    }
}

} // verus!
