//! The non-interactive command surface: the parsed command-line forms and
//! their translation into payloads. Argument parsing itself is presentation
//! and lives with the binary; these are the plain values it produces.
use vstd::prelude::*;

use crate::models::opt_view;
use crate::models::PayloadView;
use crate::models::SecretPayload;

verus! {

/// The parsed command line: the service address and one command.
#[derive(Debug, Clone)]
pub struct Cli {
    pub address: String,
    pub command: Commands,
}

/// One invocation of the client.
#[derive(Debug, Clone)]
pub enum Commands {
    Register { login: String, pass: String },
    Login { login: String, pass: String },
    Add { secret_type: SecretTypeCommands },
    Sync,
    Delete { id: String },
    Logout,
}

/// The kind of secret an `add` names, with its fields.
#[derive(Debug, Clone)]
pub enum SecretTypeCommands {
    Password(PasswordArgs),
    Note(NoteArgs),
    Card(CardArgs),
}

/// The fields of a stored password.
#[derive(Debug, Clone)]
pub struct PasswordArgs {
    pub title: String,
    pub login: String,
    pub password: String,
    pub url: Option<String>,
}

/// The fields of a stored note.
#[derive(Debug, Clone)]
pub struct NoteArgs {
    pub title: String,
    pub content: String,
}

/// The fields of a stored card.
#[derive(Debug, Clone)]
pub struct CardArgs {
    pub title: String,
    pub holder: String,
    pub number: String,
    pub expiry: String,
    pub cvv: String,
}

/// The payload a parsed `add` command describes.
pub open spec fn spec_payload_of_args(c: SecretTypeCommands) -> PayloadView {
    match c {
        SecretTypeCommands::Password(a) => PayloadView::Password {
            title: a.title@,
            login: a.login@,
            password: a.password@,
            url: opt_view(a.url),
        },
        SecretTypeCommands::Note(a) => PayloadView::Note { title: a.title@, content: a.content@ },
        SecretTypeCommands::Card(a) => PayloadView::Card {
            title: a.title@,
            holder: a.holder@,
            number: a.number@,
            expiry: a.expiry@,
            cvv: a.cvv@,
        },
    }
}

/// Turn a parsed `add` command into the payload to store.
pub fn payload_of_args(secret_type: SecretTypeCommands) -> (r: SecretPayload)
    ensures
        r@ == spec_payload_of_args(secret_type),
{
    match secret_type {
        SecretTypeCommands::Password(args) => SecretPayload::Password {
            title: args.title,
            login: args.login,
            password: args.password,
            url: args.url,
        },
        SecretTypeCommands::Note(args) => SecretPayload::Note {
            title: args.title,
            content: args.content,
        },
        SecretTypeCommands::Card(args) => SecretPayload::Card {
            title: args.title,
            holder: args.holder,
            number: args.number,
            expiry: args.expiry,
            cvv: args.cvv,
        },
    }
}

} // verus!
