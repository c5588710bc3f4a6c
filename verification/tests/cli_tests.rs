use gophkeeper_client::cli::{payload_of_args, CardArgs, NoteArgs, PasswordArgs, SecretTypeCommands};
use gophkeeper_client::errors::VaultError;
use gophkeeper_client::models::SecretPayload;

#[test]
fn password_arguments_become_a_password_payload() {
    let args = SecretTypeCommands::Password(PasswordArgs {
        title: "t".into(),
        login: "l".into(),
        password: "p".into(),
        url: Some("u".into()),
    });
    assert_eq!(
        payload_of_args(args),
        SecretPayload::Password {
            title: "t".into(),
            login: "l".into(),
            password: "p".into(),
            url: Some("u".into()),
        }
    );
}

#[test]
fn note_arguments_become_a_note_payload() {
    let args = SecretTypeCommands::Note(NoteArgs { title: "t".into(), content: "c".into() });
    assert_eq!(
        payload_of_args(args),
        SecretPayload::Note { title: "t".into(), content: "c".into() }
    );
}

#[test]
fn card_arguments_become_a_card_payload() {
    let args = SecretTypeCommands::Card(CardArgs {
        title: "t".into(),
        holder: "h".into(),
        number: "n".into(),
        expiry: "e".into(),
        cvv: "v".into(),
    });
    assert_eq!(
        payload_of_args(args),
        SecretPayload::Card {
            title: "t".into(),
            holder: "h".into(),
            number: "n".into(),
            expiry: "e".into(),
            cvv: "v".into(),
        }
    );
}

#[test]
fn error_messages_name_the_failure() {
    assert_eq!(VaultError::NotAuthenticated.message(), "Not logged in");
    assert_eq!(VaultError::NotUnlocked.message(), "Master password not set");
    assert_eq!(VaultError::AuthenticationFailed.message(), "Decryption failed");
}
