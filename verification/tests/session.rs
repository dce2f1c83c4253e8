use mscript::bundle::LoginInfo;
use mscript::client::{build_client_config, BackupDownloadStrategy, Endpoint};
use mscript::error::Error;
use mscript::identity::UserIdent;
use mscript::login::{
    choose_secret_backend, initial_device_display_name, password_prompt_description,
    password_prompt_title, password_required_message, restore_session, route_for_server,
    secret_outcome, sso_redirect_url, sso_visit_message, trim_token, user_entry_step, LoginRoute,
    SecretBackend, UserEntryEvent, UserEntryOutcome,
};
use mscript::sync::{sync_settings_for, PresenceState};

#[test]
fn route_allow_listed_server_is_sso() {
    assert!(matches!(route_for_server("mozilla.org"), LoginRoute::Sso));
}

#[test]
fn route_other_server_is_password() {
    assert!(matches!(route_for_server("example.org"), LoginRoute::Password));
    assert!(matches!(route_for_server("nichi.co"), LoginRoute::Password));
    assert!(matches!(route_for_server(""), LoginRoute::Password));
}

#[test]
fn parse_user_id_splits_at_first_colon() {
    let u = UserIdent::parse("@carl:example.com").unwrap();
    assert_eq!(u.localpart, "carl");
    assert_eq!(u.server_name, "example.com");
}

#[test]
fn parse_user_id_keeps_port_in_server_name() {
    let u = UserIdent::parse("@a:b.c:8448").unwrap();
    assert_eq!(u.localpart, "a");
    assert_eq!(u.server_name, "b.c:8448");
}

#[test]
fn parse_user_id_rejects_missing_sigil() {
    assert!(matches!(UserIdent::parse("carl:example.com"), Err(Error::IdentityError(_))));
}

#[test]
fn parse_user_id_rejects_hostless_server() {
    assert!(matches!(UserIdent::parse("@alice::8448"), Err(Error::IdentityError(_))));
}

#[test]
fn restore_session_carries_bundle_verbatim() {
    let b = LoginInfo {
        homeserver: String::from("https://example.org/"),
        user_id: String::from("@u:example.org"),
        device_id: String::from("DEV"),
        access_token: String::from("tok"),
    };
    let s = restore_session(&b).unwrap();
    assert_eq!(s.user_id, "@u:example.org");
    assert_eq!(s.device_id, "DEV");
    assert_eq!(s.access_token, "tok");
    assert!(s.refresh_token.is_none());
}

#[test]
fn restore_session_rejects_bad_stored_identifier() {
    let b = LoginInfo {
        homeserver: String::from("https://example.org/"),
        user_id: String::from("not-a-user-id"),
        device_id: String::from("DEV"),
        access_token: String::from("tok"),
    };
    assert!(matches!(restore_session(&b), Err(Error::IdentityError(_))));
}

#[test]
fn sync_first_call_is_full_sync() {
    let s = sync_settings_for(None);
    assert!(s.token.is_none());
    assert_eq!(s.timeout_secs, 600);
    assert!(matches!(s.presence, PresenceState::Unavailable));
}

#[test]
fn sync_second_call_reuses_cursor_verbatim() {
    let s = sync_settings_for(Some(String::from("s72594_4483_1934")));
    assert_eq!(s.token.as_deref(), Some("s72594_4483_1934"));
    assert_eq!(s.timeout_secs, 600);
    assert!(matches!(s.presence, PresenceState::Unavailable));
}

#[test]
fn client_config_fixed_wiring() {
    let c = build_client_config(Some("example.org"), None);
    assert_eq!(c.store_path, "states");
    assert!(c.encryption.auto_enable_cross_signing);
    assert!(c.encryption.auto_enable_backups);
    assert!(matches!(
        c.encryption.backup_download_strategy,
        BackupDownloadStrategy::AfterDecryptionFailure
    ));
    match c.endpoint {
        Some(Endpoint::ServerName(n)) => assert_eq!(n, "example.org"),
        _ => panic!("expected a server-name endpoint"),
    }
}

#[test]
fn client_config_prefers_url_over_server_name() {
    let c = build_client_config(Some("example.org"), Some("https://other.example/"));
    match c.endpoint {
        Some(Endpoint::HomeserverUrl(u)) => assert_eq!(u, "https://other.example/"),
        _ => panic!("expected a homeserver-url endpoint"),
    }
}

#[test]
fn client_config_without_endpoint() {
    let c = build_client_config(None, None);
    assert!(c.endpoint.is_none());
}

#[test]
fn sso_constants() {
    assert_eq!(sso_redirect_url(), "http://localhost:8088/login");
    assert_eq!(initial_device_display_name(), "mscript");
    assert_eq!(
        sso_visit_message("https://sso.example/x"),
        "Visit https://sso.example/x to login."
    );
}

#[test]
fn prompt_texts() {
    assert_eq!(password_prompt_title(), "Input Password");
    assert_eq!(
        password_prompt_description("@u:example.org"),
        "Enter password for account: @u:example.org"
    );
    assert_eq!(password_required_message(), "password can't be empty");
}

#[test]
fn trim_token_strips_line_end() {
    assert_eq!(trim_token("abcd\n"), "abcd");
    assert_eq!(trim_token("abcd\r\n"), "abcd");
    assert_eq!(trim_token("abcd  \t\n"), "abcd");
    assert_eq!(trim_token("a b\nc\n"), "a b\nc");
    assert_eq!(trim_token(""), "");
    assert_eq!(trim_token("\n"), "");
}

#[test]
fn trim_token_strips_all_trailing_unicode_whitespace() {
    // the same set str::trim_end strips
    assert_eq!(trim_token("token\u{000C}\n"), "token\u{000C}\n".trim_end());
    assert_eq!(trim_token("token\u{000C}\n"), "token");
    assert_eq!(trim_token("token\u{00A0}"), "token");
    assert_eq!(trim_token("token\u{000B}"), "token");
    assert_eq!(trim_token("token\u{0085}\u{2028}\u{2029}"), "token");
    assert_eq!(trim_token("token\u{2000}\u{200A}\u{202F}\u{205F}\u{3000}\u{1680}"), "token");
    // zero-width space is not White_Space and must stay
    assert_eq!(trim_token("token\u{200B}"), "token\u{200B}");
    assert_eq!(trim_token("token\u{200B}"), "token\u{200B}".trim_end());
}

#[test]
fn user_entry_accepts_valid_identifier() {
    match user_entry_step(UserEntryEvent::Line(String::from("@carl:example.com"))) {
        UserEntryOutcome::Accept(u) => {
            assert_eq!(u.localpart, "carl");
            assert_eq!(u.server_name, "example.com");
        }
        _ => panic!("expected the identifier to be accepted"),
    }
}

#[test]
fn user_entry_retries_invalid_identifier() {
    match user_entry_step(UserEntryEvent::Line(String::from("not-a-user-id"))) {
        UserEntryOutcome::RetryInvalid(e) => {
            assert!(matches!(e, Error::IdentityError(_)));
        }
        _ => panic!("expected a retry on an invalid identifier"),
    }
}

#[test]
fn user_entry_aborts_on_stream_failure() {
    match user_entry_step(UserEntryEvent::StreamFailed(String::from("stream closed"))) {
        UserEntryOutcome::Abort(e) => {
            assert!(matches!(e, Error::IoError(_)));
            assert_eq!(e.message(), "stream closed");
        }
        _ => panic!("expected an abort on a stream failure"),
    }
}

#[test]
fn secret_backend_fallback_rule() {
    assert!(matches!(choose_secret_backend(true), SecretBackend::Secure));
    assert!(matches!(choose_secret_backend(false), SecretBackend::Plain));
}

#[test]
fn secret_outcome_rule() {
    assert_eq!(secret_outcome(Some(String::from("pw"))).unwrap(), "pw");
    assert!(matches!(secret_outcome(None), Err(Error::CredentialError(_))));
}

#[test]
fn error_message_is_kept() {
    let e = Error::AuthError(String::from("rejected"));
    assert_eq!(e.message(), "rejected");
}
