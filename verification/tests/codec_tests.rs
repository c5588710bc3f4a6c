use gophkeeper_client::codec::{parse_payload, serialize_payload};
use gophkeeper_client::errors::VaultError;
use gophkeeper_client::models::SecretPayload;

fn note(title: &str, content: &str) -> SecretPayload {
    SecretPayload::Note { title: title.into(), content: content.into() }
}

#[test]
fn note_renders_canonically() {
    let text = serialize_payload(&note("T", "C"));
    assert_eq!(text, "{\"kind\":\"Note\",\"title\":\"T\",\"content\":\"C\"}");
}

#[test]
fn password_without_url_renders_null() {
    let p = SecretPayload::Password {
        title: "t".into(),
        login: "l".into(),
        password: "p".into(),
        url: None,
    };
    let text = serialize_payload(&p);
    assert_eq!(
        text,
        "{\"kind\":\"Password\",\"title\":\"t\",\"login\":\"l\",\"password\":\"p\",\"url\":null}"
    );
}

#[test]
fn password_with_url_renders_string() {
    let p = SecretPayload::Password {
        title: "t".into(),
        login: "l".into(),
        password: "p".into(),
        url: Some("https://example.org".into()),
    };
    let text = serialize_payload(&p);
    assert_eq!(
        text,
        "{\"kind\":\"Password\",\"title\":\"t\",\"login\":\"l\",\"password\":\"p\",\"url\":\"https://example.org\"}"
    );
}

#[test]
fn card_renders_canonically() {
    let p = SecretPayload::Card {
        title: "c".into(),
        holder: "h".into(),
        number: "4111".into(),
        expiry: "12/30".into(),
        cvv: "000".into(),
    };
    let text = serialize_payload(&p);
    assert_eq!(
        text,
        "{\"kind\":\"Card\",\"title\":\"c\",\"holder\":\"h\",\"number\":\"4111\",\"expiry\":\"12/30\",\"cvv\":\"000\"}"
    );
}

#[test]
fn special_characters_are_escaped() {
    let text = serialize_payload(&note("a\"b\\c", "x\ny\tz\u{1}"));
    assert_eq!(
        text,
        "{\"kind\":\"Note\",\"title\":\"a\\\"b\\\\c\",\"content\":\"x\\ny\\tz\\u0001\"}"
    );
}

#[test]
fn every_variant_round_trips() {
    let samples = vec![
        note("T", "C"),
        note("", ""),
        note("q\"uo\\te", "\r\n\u{8}\u{c}\u{1f}"),
        SecretPayload::Password {
            title: "t".into(),
            login: "l".into(),
            password: "p".into(),
            url: None,
        },
        SecretPayload::Password {
            title: "t".into(),
            login: "l".into(),
            password: "p".into(),
            url: Some("u".into()),
        },
        SecretPayload::Card {
            title: "c".into(),
            holder: "h".into(),
            number: "1".into(),
            expiry: "2".into(),
            cvv: "3".into(),
        },
    ];
    for p in samples {
        let text = serialize_payload(&p);
        let back = parse_payload(&text).unwrap();
        assert_eq!(back, p);
    }
}

#[test]
fn unicode_fields_round_trip() {
    let p = note("\u{43f}\u{430}\u{440}\u{43e}\u{43b}\u{44c}", "\u{1f511}");
    let back = parse_payload(&serialize_payload(&p)).unwrap();
    assert_eq!(back, p);
}

#[test]
fn trailing_data_is_rejected() {
    let err = parse_payload("{\"kind\":\"Note\",\"title\":\"T\",\"content\":\"C\"}x").unwrap_err();
    assert_eq!(err, VaultError::SerializationError);
}

#[test]
fn unknown_kind_is_rejected() {
    let err = parse_payload("{\"kind\":\"Token\",\"title\":\"T\",\"content\":\"C\"}").unwrap_err();
    assert_eq!(err, VaultError::SerializationError);
}

#[test]
fn missing_field_is_rejected() {
    let err = parse_payload("{\"kind\":\"Note\",\"title\":\"T\"}").unwrap_err();
    assert_eq!(err, VaultError::SerializationError);
}

#[test]
fn unterminated_string_is_rejected() {
    let err = parse_payload("{\"kind\":\"Note\",\"title\":\"T").unwrap_err();
    assert_eq!(err, VaultError::SerializationError);
}

#[test]
fn non_canonical_escape_is_rejected() {
    // `A` needs no escape, so its escaped spelling is not canonical
    let err =
        parse_payload("{\"kind\":\"Note\",\"title\":\"\\u0041\",\"content\":\"C\"}").unwrap_err();
    assert_eq!(err, VaultError::SerializationError);
}

#[test]
fn raw_control_character_is_rejected() {
    let err = parse_payload("{\"kind\":\"Note\",\"title\":\"\u{1}\",\"content\":\"C\"}").unwrap_err();
    assert_eq!(err, VaultError::SerializationError);
}

#[test]
fn empty_input_is_rejected() {
    let err = parse_payload("").unwrap_err();
    assert_eq!(err, VaultError::SerializationError);
}
