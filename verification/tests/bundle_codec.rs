use mscript::bundle::LoginInfo;
use mscript::error::Error;

fn sample() -> LoginInfo {
    LoginInfo {
        homeserver: String::from("https://example.org/"),
        user_id: String::from("@u:example.org"),
        device_id: String::from("DEV"),
        access_token: String::from("tok"),
    }
}

#[test]
fn serialize_exact_text() {
    let s = sample().serialize();
    assert_eq!(
        s,
        "{\n  \"homeserver\": \"https://example.org/\",\n  \"user_id\": \"@u:example.org\",\n  \"device_id\": \"DEV\",\n  \"access_token\": \"tok\"\n}\n"
    );
}

#[test]
fn serialize_ends_with_single_newline() {
    let s = sample().serialize();
    assert!(s.ends_with("}\n"));
    assert!(!s.ends_with("\n\n"));
}

#[test]
fn round_trip_identical() {
    let b = sample();
    let s = b.serialize();
    let b2 = LoginInfo::deserialize(&s).unwrap();
    assert_eq!(b2.homeserver, b.homeserver);
    assert_eq!(b2.user_id, b.user_id);
    assert_eq!(b2.device_id, b.device_id);
    assert_eq!(b2.access_token, b.access_token);
}

#[test]
fn round_trip_with_escapes() {
    let b = LoginInfo {
        homeserver: String::from("https://example.org/"),
        user_id: String::from("@odd\"name\\here:example.org"),
        device_id: String::from("D\"E\\V"),
        access_token: String::from("to\\k\"en"),
    };
    let s = b.serialize();
    let b2 = LoginInfo::deserialize(&s).unwrap();
    assert_eq!(b2.user_id, b.user_id);
    assert_eq!(b2.device_id, b.device_id);
    assert_eq!(b2.access_token, b.access_token);
}

#[test]
fn extra_unknown_field_first_rejected() {
    let s = "{\n  \"extra\": \"x\",\n  \"homeserver\": \"https://example.org/\",\n  \"user_id\": \"@u:example.org\",\n  \"device_id\": \"DEV\",\n  \"access_token\": \"tok\"\n}\n";
    let r = LoginInfo::deserialize(s);
    assert!(matches!(r, Err(Error::PersistenceError(_))));
}

#[test]
fn extra_unknown_field_last_rejected() {
    let s = "{\n  \"homeserver\": \"https://example.org/\",\n  \"user_id\": \"@u:example.org\",\n  \"device_id\": \"DEV\",\n  \"access_token\": \"tok\",\n  \"refresh_token\": \"r\"\n}\n";
    let r = LoginInfo::deserialize(s);
    assert!(matches!(r, Err(Error::PersistenceError(_))));
}

#[test]
fn missing_field_rejected() {
    let s = "{\n  \"homeserver\": \"https://example.org/\",\n  \"user_id\": \"@u:example.org\",\n  \"device_id\": \"DEV\"\n}\n";
    assert!(matches!(LoginInfo::deserialize(s), Err(Error::PersistenceError(_))));
}

#[test]
fn reordered_fields_rejected() {
    let s = "{\n  \"user_id\": \"@u:example.org\",\n  \"homeserver\": \"https://example.org/\",\n  \"device_id\": \"DEV\",\n  \"access_token\": \"tok\"\n}\n";
    assert!(matches!(LoginInfo::deserialize(s), Err(Error::PersistenceError(_))));
}

#[test]
fn trailing_text_rejected() {
    let mut s = sample().serialize();
    s.push_str("x");
    assert!(matches!(LoginInfo::deserialize(&s), Err(Error::PersistenceError(_))));
}

#[test]
fn empty_input_rejected() {
    assert!(matches!(LoginInfo::deserialize(""), Err(Error::PersistenceError(_))));
}

#[test]
fn deserialize_is_repeatable() {
    // the restore path never mutates its input: parsing the same text twice
    // gives the same bundle
    let s = sample().serialize();
    let b1 = LoginInfo::deserialize(&s).unwrap();
    let b2 = LoginInfo::deserialize(&s).unwrap();
    assert_eq!(b1.homeserver, b2.homeserver);
    assert_eq!(b1.user_id, b2.user_id);
    assert_eq!(b1.device_id, b2.device_id);
    assert_eq!(b1.access_token, b2.access_token);
}

#[test]
fn second_login_overwrites_first() {
    // a login writes the whole file; after two logins the file holds only
    // the second bundle
    let b1 = sample();
    let b2 = LoginInfo {
        homeserver: String::from("https://other.example/"),
        user_id: String::from("@w:other.example"),
        device_id: String::from("DEV2"),
        access_token: String::from("tok2"),
    };
    let mut file = b1.serialize();
    assert_eq!(LoginInfo::deserialize(&file).unwrap().user_id, b1.user_id);
    file = b2.serialize();
    let read = LoginInfo::deserialize(&file).unwrap();
    assert_eq!(read.homeserver, b2.homeserver);
    assert_eq!(read.user_id, b2.user_id);
    assert_eq!(read.device_id, b2.device_id);
    assert_eq!(read.access_token, b2.access_token);
}

#[test]
fn accepted_text_is_canonical() {
    // anything the parser accepts re-serializes to the identical text
    let s = sample().serialize();
    let b = LoginInfo::deserialize(&s).unwrap();
    assert_eq!(b.serialize(), s);
}

#[test]
fn altered_whitespace_rejected() {
    let s = "{ \"homeserver\": \"https://example.org/\", \"user_id\": \"@u:example.org\", \"device_id\": \"DEV\", \"access_token\": \"tok\" }\n";
    assert!(matches!(LoginInfo::deserialize(s), Err(Error::PersistenceError(_))));
}

#[test]
fn unterminated_value_rejected() {
    let s = "{\n  \"homeserver\": \"https://example.org/";
    assert!(matches!(LoginInfo::deserialize(s), Err(Error::PersistenceError(_))));
}

#[test]
fn empty_fields_round_trip() {
    let b = LoginInfo {
        homeserver: String::new(),
        user_id: String::new(),
        device_id: String::new(),
        access_token: String::new(),
    };
    let s = b.serialize();
    let b2 = LoginInfo::deserialize(&s).unwrap();
    assert_eq!(b2.homeserver, "");
    assert_eq!(b2.user_id, "");
    assert_eq!(b2.device_id, "");
    assert_eq!(b2.access_token, "");
}
