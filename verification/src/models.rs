//! The shared data model: credentials, wire records, and the plaintext
//! payloads the user edits.
use vstd::prelude::*;

verus! {

/// Credentials sent to register or login. Never persisted.
#[derive(Debug, Clone)]
pub struct AuthRequest {
    pub login: String,
    pub password: String,
}

/// The bearer token answer of a successful login.
#[derive(Debug, Clone)]
pub struct Token {
    pub token: String,
}

/// The wire representation of a secret: an encrypted record as the remote
/// store keeps it. `data` is an opaque base64 ciphertext blob.
#[derive(Debug, Clone, PartialEq, Eq)]
pub struct Secret {
    pub id: String,
    pub user_login: String,
    pub secret_type: String,
    pub data: String,
    pub created_at: Option<String>,
    pub updated_at: Option<String>,
}

/// The plaintext domain object the user edits; serialized to the canonical
/// text form before encryption.
#[derive(Debug, Clone, PartialEq, Eq)]
pub enum SecretPayload {
    Password { title: String, login: String, password: String, url: Option<String> },
    Note { title: String, content: String },
    Card { title: String, holder: String, number: String, expiry: String, cvv: String },
}

/// The mathematical value of a `SecretPayload`.
pub enum PayloadView {
    Password { title: Seq<char>, login: Seq<char>, password: Seq<char>, url: Option<Seq<char>> },
    Note { title: Seq<char>, content: Seq<char> },
    Card {
        title: Seq<char>,
        holder: Seq<char>,
        number: Seq<char>,
        expiry: Seq<char>,
        cvv: Seq<char>,
    },
}

pub open spec fn opt_view(o: Option<String>) -> Option<Seq<char>> {
    match o {
        Some(s) => Some(s@),
        None => None,
    }
}

impl View for SecretPayload {
    type V = PayloadView;

    open spec fn view(&self) -> PayloadView {
        match self {
            SecretPayload::Password { title, login, password, url } => PayloadView::Password {
                title: title@,
                login: login@,
                password: password@,
                url: opt_view(*url),
            },
            SecretPayload::Note { title, content } => PayloadView::Note {
                title: title@,
                content: content@,
            },
            SecretPayload::Card { title, holder, number, expiry, cvv } => PayloadView::Card {
                title: title@,
                holder: holder@,
                number: number@,
                expiry: expiry@,
                cvv: cvv@,
            },
        }
    }
}

impl SecretPayload {
    /// The wire type tag of this payload's variant.
    pub open spec fn spec_type_tag(&self) -> Seq<char> {
        match self {
            SecretPayload::Password { .. } => "password"@,
            SecretPayload::Note { .. } => "note"@,
            SecretPayload::Card { .. } => "card"@,
        }
    }

    /// The wire type tag: `password`, `note` or `card`.
    pub fn type_tag(&self) -> (r: &'static str)
        ensures
            r@ == self.spec_type_tag(),
    {
        match self {
            SecretPayload::Password { .. } => "password",
            SecretPayload::Note { .. } => "note",
            SecretPayload::Card { .. } => "card",
        }
    }
}

/// The local, in-memory-only decrypted view of a stored secret.
#[derive(Debug, Clone, PartialEq, Eq)]
pub struct DecryptedSecret {
    pub id: String,
    pub secret_type: String,
    pub payload: SecretPayload,
    pub created_at: Option<String>,
    pub updated_at: Option<String>,
}

/// The mathematical value of a `DecryptedSecret`.
pub struct DecryptedSecretView {
    pub id: Seq<char>,
    pub secret_type: Seq<char>,
    pub payload: PayloadView,
    pub created_at: Option<Seq<char>>,
    pub updated_at: Option<Seq<char>>,
}

impl View for DecryptedSecret {
    type V = DecryptedSecretView;

    open spec fn view(&self) -> DecryptedSecretView {
        DecryptedSecretView {
            id: self.id@,
            secret_type: self.secret_type@,
            payload: self.payload@,
            created_at: opt_view(self.created_at),
            updated_at: opt_view(self.updated_at),
        }
    }
}

/// The body of an upsert call: the records to store.
#[derive(Debug, Clone)]
pub struct SyncRequest {
    pub secrets: Vec<Secret>,
}

/// The identity embedded in a bearer token.
#[derive(Debug, Clone)]
pub struct Claims {
    pub login: String,
    pub exp: usize,
}

} // verus!
