use mscript::identity::UserIdent;
use mscript::room::ShowRoom;
use mscript::telegram::{is_telegram, is_telegram_str};

#[test]
fn classify_raw_strings() {
    assert!(is_telegram_str("@telegram_42:nichi.co"));
    assert!(!is_telegram_str("@tg_42:nichi.co"));
    assert!(is_telegram_str("@tg_42:tether.kimiblock.top"));
}

#[test]
fn classify_other_bridge_servers() {
    assert!(is_telegram_str("@telegram_1:t2bot.io"));
    assert!(is_telegram_str("@telegram_1:elv.sh"));
    assert!(is_telegram_str("@telegram_1:moe.cat"));
    assert!(is_telegram_str("@telegram_1:neo.angry.im"));
    assert!(!is_telegram_str("@telegram_1:example.org"));
    assert!(!is_telegram_str("@someone:nichi.co"));
}

#[test]
fn classify_without_colon_is_false() {
    assert!(!is_telegram_str("telegram_42"));
    assert!(!is_telegram_str(""));
}

#[test]
fn classify_splits_at_last_colon() {
    // an identifier whose server part carries a port splits after the port,
    // so the list lookup sees "8448" and misses
    assert!(!is_telegram_str("@telegram_42:nichi.co:8448"));
}

#[test]
fn classify_parsed_identifier() {
    let yes = UserIdent {
        localpart: String::from("telegram_42"),
        server_name: String::from("nichi.co"),
    };
    assert!(is_telegram(&yes));
    let wrong_prefix = UserIdent {
        localpart: String::from("tg_42"),
        server_name: String::from("nichi.co"),
    };
    assert!(!is_telegram(&wrong_prefix));
    let second_list = UserIdent {
        localpart: String::from("tg_42"),
        server_name: String::from("tether.kimiblock.top"),
    };
    assert!(is_telegram(&second_list));
}

#[test]
fn display_prefers_canonical_alias() {
    let room = ShowRoom {
        canonical_alias: Some(String::from("#general:example.org")),
        room_id: String::from("!abc123:example.org"),
    };
    assert_eq!(room.display(), "#general:example.org");
}

#[test]
fn display_falls_back_to_room_id() {
    let room = ShowRoom { canonical_alias: None, room_id: String::from("!abc123:example.org") };
    assert_eq!(room.display(), "!abc123:example.org");
}
