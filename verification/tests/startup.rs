use signaling_relay::address::{bind_address, decimal_text};
use signaling_relay::fallback::{
    on_request, Answer, NOT_FOUND_BODY, NOT_FOUND_REASON, NOT_FOUND_STATUS,
};
use signaling_relay::handshake::parse_requested_name;
use signaling_relay::run_websocket_signaling_server;
use signaling_relay::server::{run, Startup, TlsFiles, TlsSetupError};
use signaling_relay::text::same_text;

fn name(target: &str) -> Option<String> {
    parse_requested_name(target)
}

#[test]
fn the_target_names_the_user() {
    assert_eq!(name("/?user=alice"), Some("alice".to_string()));
    assert_eq!(name("/ws?user=bob"), Some("bob".to_string()));
    assert_eq!(name("?user=carol"), Some("carol".to_string()));
}

#[test]
fn the_path_before_the_arguments_is_ignored() {
    assert_eq!(name("/behind/a/proxy/?user=alice"), Some("alice".to_string()));
    assert_eq!(name("user?user=alice"), Some("alice".to_string()));
}

#[test]
fn the_name_ends_at_the_next_separator() {
    assert_eq!(name("/?user=alice&room=7"), Some("alice".to_string()));
    assert_eq!(name("/?user=alice=x"), Some("alice".to_string()));
    assert_eq!(name("/?user=alice?x"), Some("alice".to_string()));
}

#[test]
fn any_separator_separates() {
    assert_eq!(name("/=user?alice"), Some("alice".to_string()));
    assert_eq!(name("/&user&alice&"), Some("alice".to_string()));
}

#[test]
fn only_the_first_pair_counts() {
    assert_eq!(name("/?room=7&user=alice"), None);
    assert_eq!(name("/??user=alice"), None);
    assert_eq!(name("/?&user=alice"), None);
}

#[test]
fn the_key_is_user_exactly() {
    assert_eq!(name("/?User=alice"), None);
    assert_eq!(name("/?users=alice"), None);
    assert_eq!(name("/?use=alice"), None);
    assert_eq!(name("/?name=alice"), None);
    assert_eq!(name("/? user=alice"), None);
}

#[test]
fn a_target_without_a_value_names_nobody() {
    assert_eq!(name(""), None);
    assert_eq!(name("/"), None);
    assert_eq!(name("/ws"), None);
    assert_eq!(name("/?"), None);
    assert_eq!(name("/?user"), None);
    assert_eq!(name("user=alice"), None);
}

#[test]
fn an_empty_value_is_read_as_the_empty_name() {
    assert_eq!(name("/?user="), Some(String::new()));
    assert_eq!(name("/?user=&x=alice"), Some(String::new()));
}

#[test]
fn names_may_hold_any_other_character() {
    assert_eq!(name("/?user=zoë ✓/#%20"), Some("zoë ✓/#%20".to_string()));
    assert_eq!(name("/päth?user=ü&x"), Some("ü".to_string()));
}

#[test]
fn same_text_compares_characters() {
    assert!(same_text("", ""));
    assert!(same_text("user", "user"));
    assert!(same_text("zoë", "zoë"));
    assert!(!same_text("user", "use"));
    assert!(!same_text("user", "usex"));
    assert!(!same_text("user", "User"));
    assert!(!same_text("zoë", "zoe"));
    assert!(!same_text("", " "));
}

#[test]
fn numbers_in_decimal() {
    assert_eq!(decimal_text(0), "0");
    assert_eq!(decimal_text(7), "7");
    assert_eq!(decimal_text(9), "9");
    assert_eq!(decimal_text(10), "10");
    assert_eq!(decimal_text(3478), "3478");
    assert_eq!(decimal_text(10203), "10203");
    assert_eq!(decimal_text(65535), "65535");
    for n in 0..=u16::MAX {
        assert_eq!(decimal_text(n), n.to_string());
    }
}

#[test]
fn the_relay_listens_on_every_interface() {
    assert_eq!(bind_address(3478), "0.0.0.0:3478");
    assert_eq!(bind_address(3479), "0.0.0.0:3479");
    assert_eq!(bind_address(3480), "0.0.0.0:3480");
    assert_eq!(bind_address(0), "0.0.0.0:0");
    assert_eq!(bind_address(65535), "0.0.0.0:65535");
}

#[test]
fn startup_without_tls() {
    assert_eq!(
        run(3478, false, None, None),
        Ok(Startup { address: "0.0.0.0:3478".to_string(), tls: None })
    );
    assert_eq!(
        run(80, false, Some("cert.pem".to_string()), Some("key.pem".to_string())),
        Ok(Startup { address: "0.0.0.0:80".to_string(), tls: None })
    );
}

#[test]
fn startup_with_tls() {
    assert_eq!(
        run(443, true, Some("cert.pem".to_string()), Some("key.pem".to_string())),
        Ok(Startup {
            address: "0.0.0.0:443".to_string(),
            tls: Some(TlsFiles {
                certificate: "cert.pem".to_string(),
                private_key: "key.pem".to_string(),
            }),
        })
    );
}

#[test]
fn tls_without_its_files_does_not_start() {
    assert_eq!(
        run(443, true, Some("cert.pem".to_string()), None),
        Err(TlsSetupError::MissingPrivateKey)
    );
    assert_eq!(
        run(443, true, None, Some("key.pem".to_string())),
        Err(TlsSetupError::MissingCertificate)
    );
    assert_eq!(run(443, true, None, None), Err(TlsSetupError::MissingPrivateKey));
}

#[test]
fn the_signaling_server_starts_as_run_plans() {
    assert_eq!(
        run_websocket_signaling_server(3478, false, None, None),
        Ok(Startup { address: "0.0.0.0:3478".to_string(), tls: None })
    );
    assert_eq!(
        run_websocket_signaling_server(3478, true, None, Some("key.pem".to_string())),
        Err(TlsSetupError::MissingCertificate)
    );
    assert_eq!(
        run_websocket_signaling_server(
            8443,
            true,
            Some("c".to_string()),
            Some("k".to_string())
        ),
        run(8443, true, Some("c".to_string()), Some("k".to_string()))
    );
}

#[test]
fn plain_requests() {
    assert_eq!(on_request("/ws"), Answer::Upgrade);
    assert_eq!(on_request("/"), Answer::Page);
    assert_eq!(on_request(""), Answer::NotFound);
    assert_eq!(on_request("/ws/"), Answer::NotFound);
    assert_eq!(on_request("/ws?user=alice"), Answer::NotFound);
    assert_eq!(on_request("/index.html"), Answer::NotFound);
    assert_eq!(NOT_FOUND_STATUS, 404);
    assert_eq!(NOT_FOUND_REASON, "Not Found");
    assert_eq!(NOT_FOUND_BODY, "404 - Not Found");
}
