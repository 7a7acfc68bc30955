use signaling_relay::envelope::Envelope;
use signaling_relay::node::ConnectionHandle;
use signaling_relay::server::{
    Delivery, Server, INVALID_PROTOCOL, NO_ENDPOINT, ONE_TO_ALL, ONE_TO_ONE, ONE_TO_SELF,
    UNKNOWN_ENDPOINT, USERNAME_TAKEN,
};

fn to(handle: ConnectionHandle, text: &str) -> Delivery {
    Delivery { to: handle, text: text.to_string() }
}

const USAGE: &str = "Invalid protocol, valid protocols include:
                            'one-to-one'
                            'one-to-self'
                            'one-to-all'";

#[test]
fn the_texts_are_the_documented_ones() {
    assert_eq!(ONE_TO_ALL, "one-to-all");
    assert_eq!(ONE_TO_SELF, "one-to-self");
    assert_eq!(ONE_TO_ONE, "one-to-one");
    assert_eq!(USERNAME_TAKEN, "The username is taken");
    assert_eq!(NO_ENDPOINT, "No field 'endpoint' provided");
    assert_eq!(UNKNOWN_ENDPOINT, "Could not find a node with the name ");
    assert_eq!(INVALID_PROTOCOL, USAGE);
}

#[test]
fn broadcast_reaches_every_open_connection() {
    let mut server = Server::new();
    let (alice, _) = server.on_open("/?user=alice");
    let (bob, _) = server.on_open("/?user=bob");
    let (guest, _) = server.on_open("/");
    let text = r#"{"protocol":"one-to-all","text":"hi"}"#;
    let sent = server.on_message(bob, text);
    assert_eq!(sent, vec![to(alice, text), to(bob, text), to(guest, text)]);
}

#[test]
fn broadcast_skips_closed_connections() {
    let mut server = Server::new();
    let (alice, _) = server.on_open("/?user=alice");
    let (bob, _) = server.on_open("/?user=bob");
    let (carol, _) = server.on_open("/?user=carol");
    server.on_close(bob, 1000);
    let text = r#"{"protocol":"one-to-all"}"#;
    assert_eq!(server.on_message(alice, text), vec![to(alice, text), to(carol, text)]);
}

#[test]
fn broadcast_from_the_only_connection_comes_back() {
    let mut server = Server::new();
    let (only, _) = server.on_open("/");
    let text = r#"{"protocol":"one-to-all"}"#;
    assert_eq!(server.on_message(only, text), vec![to(only, text)]);
}

#[test]
fn self_echo_reaches_the_sender_alone() {
    let mut server = Server::new();
    let (alice, _) = server.on_open("/?user=alice");
    let (_bob, _) = server.on_open("/?user=bob");
    let text = r#"{"protocol":"one-to-self","n":1}"#;
    assert_eq!(server.on_message(alice, text), vec![to(alice, text)]);
}

#[test]
fn an_unnamed_connection_can_echo_and_broadcast() {
    let mut server = Server::new();
    let (guest, greeting) = server.on_open("/ws");
    assert!(greeting.is_empty());
    let (alice, _) = server.on_open("/ws?user=alice");
    let echo = r#"{"protocol":"one-to-self"}"#;
    assert_eq!(server.on_message(guest, echo), vec![to(guest, echo)]);
    let all = r#"{"protocol":"one-to-all"}"#;
    assert_eq!(server.on_message(guest, all), vec![to(guest, all), to(alice, all)]);
}

#[test]
fn directed_delivery() {
    let mut server = Server::new();
    let (alice, _) = server.on_open("/?user=alice");
    let (bob, _) = server.on_open("/?user=bob");
    let (_carol, _) = server.on_open("/?user=carol");
    let text = r#"{"protocol":"one-to-one","endpoint":"bob","text":"hi"}"#;
    assert_eq!(server.on_message(alice, text), vec![to(bob, text)]);
}

#[test]
fn directed_delivery_to_oneself() {
    let mut server = Server::new();
    let (alice, _) = server.on_open("/?user=alice");
    let text = r#"{"protocol":"one-to-one","endpoint":"alice"}"#;
    assert_eq!(server.on_message(alice, text), vec![to(alice, text)]);
}

#[test]
fn directed_miss() {
    let mut server = Server::new();
    let (alice, _) = server.on_open("/?user=alice");
    let (bob, _) = server.on_open("/?user=bob");
    server.on_close(bob, 1001);
    let text = r#"{"protocol":"one-to-one","endpoint":"bob","text":"hi"}"#;
    assert_eq!(
        server.on_message(alice, text),
        vec![to(alice, "Could not find a node with the name bob")]
    );
}

#[test]
fn directed_miss_for_a_name_never_registered() {
    let mut server = Server::new();
    let (alice, _) = server.on_open("/?user=alice");
    let text = r#"{"protocol":"one-to-one","endpoint":""}"#;
    assert_eq!(
        server.on_message(alice, text),
        vec![to(alice, "Could not find a node with the name ")]
    );
}

#[test]
fn an_unnamed_connection_is_no_target() {
    let mut server = Server::new();
    let (alice, _) = server.on_open("/?user=alice");
    let (_guest, _) = server.on_open("/?name=guest");
    let text = r#"{"protocol":"one-to-one","endpoint":"guest"}"#;
    assert_eq!(
        server.on_message(alice, text),
        vec![to(alice, "Could not find a node with the name guest")]
    );
}

#[test]
fn missing_endpoint() {
    let mut server = Server::new();
    let (alice, _) = server.on_open("/?user=alice");
    let text = r#"{"protocol":"one-to-one"}"#;
    assert_eq!(server.on_message(alice, text), vec![to(alice, "No field 'endpoint' provided")]);
}

#[test]
fn an_endpoint_that_is_no_string_is_missing() {
    let mut server = Server::new();
    let (alice, _) = server.on_open("/?user=alice");
    let text = r#"{"protocol":"one-to-one","endpoint":7}"#;
    assert_eq!(server.on_message(alice, text), vec![to(alice, "No field 'endpoint' provided")]);
}

#[test]
fn unrecognized_protocol() {
    let mut server = Server::new();
    let (alice, _) = server.on_open("/?user=alice");
    let (_bob, _) = server.on_open("/?user=bob");
    assert_eq!(server.on_message(alice, r#"{"protocol":"bogus"}"#), vec![to(alice, USAGE)]);
}

#[test]
fn text_without_an_envelope_is_an_unrecognized_protocol() {
    let mut server = Server::new();
    let (alice, _) = server.on_open("/?user=alice");
    for text in [
        "",
        "hello",
        "{",
        r#"{"protocol":"one-to-all""#,
        r#"{"endpoint":"alice"}"#,
        r#"{"protocol":1}"#,
        r#"{"protocol":null}"#,
        r#"{"protocol":["one-to-all"]}"#,
        r#"{"Protocol":"one-to-all"}"#,
        r#"{"protocol":"one-to-all "}"#,
        r#""one-to-all""#,
        r#"["one-to-all"]"#,
        "null",
        r#"{"protocol":"one-to-all"} trailing"#,
    ] {
        assert_eq!(server.on_message(alice, text), vec![to(alice, USAGE)], "{text}");
    }
}

#[test]
fn the_text_is_forwarded_as_it_came() {
    let mut server = Server::new();
    let (alice, _) = server.on_open("/?user=alice");
    let (bob, _) = server.on_open("/?user=bob");
    let text = "  {\n \"extra\" : [1, 2.50, {\"k\": null}],\t\"endpoint\":\"bob\" , \"protocol\" : \"one\\u002dto-one\" }  ";
    assert_eq!(server.on_message(alice, text), vec![to(bob, text)]);
}

#[test]
fn the_last_of_two_protocol_fields_counts() {
    let mut server = Server::new();
    let (alice, _) = server.on_open("/?user=alice");
    let (bob, _) = server.on_open("/?user=bob");
    let text = r#"{"protocol":"one-to-self","protocol":"one-to-all"}"#;
    assert_eq!(server.on_message(alice, text), vec![to(alice, text), to(bob, text)]);
}

#[test]
fn a_message_from_a_closed_connection_goes_nowhere() {
    let mut server = Server::new();
    let (alice, _) = server.on_open("/?user=alice");
    let (bob, _) = server.on_open("/?user=bob");
    server.on_close(alice, 1006);
    assert!(!server.is_open(alice));
    assert!(server.is_open(bob));
    for text in [
        r#"{"protocol":"one-to-all"}"#,
        r#"{"protocol":"one-to-self"}"#,
        r#"{"protocol":"one-to-one","endpoint":"bob"}"#,
        "bogus",
    ] {
        assert_eq!(server.on_message(alice, text), vec![]);
    }
}

#[test]
fn a_message_from_a_handle_never_issued_goes_nowhere() {
    let mut other = Server::new();
    other.on_open("/");
    let (stranger, _) = other.on_open("/");
    let mut server = Server::new();
    let (_alice, _) = server.on_open("/?user=alice");
    assert!(!server.is_open(stranger));
    assert_eq!(server.on_message(stranger, r#"{"protocol":"one-to-all"}"#), vec![]);
}

#[test]
fn routing_changes_nothing() {
    let mut server = Server::new();
    let (alice, _) = server.on_open("/?user=alice");
    let (bob, _) = server.on_open("/?user=bob");
    server.on_message(alice, r#"{"protocol":"one-to-all"}"#);
    server.on_message(alice, r#"{"protocol":"one-to-one","endpoint":"nobody"}"#);
    assert_eq!(server.size(), 2);
    assert_eq!(server.network().lookup("alice"), Some(alice));
    assert_eq!(server.network().lookup("bob"), Some(bob));
}

#[test]
fn dispatch_routes_by_the_envelope_given() {
    let mut server = Server::new();
    let (alice, _) = server.on_open("/?user=alice");
    let (bob, _) = server.on_open("/?user=bob");
    let directed =
        Envelope { protocol: Some("one-to-one".to_string()), endpoint: Some("bob".to_string()) };
    assert_eq!(server.dispatch(alice, "payload", &directed), vec![to(bob, "payload")]);
    let everyone = Envelope { protocol: Some("one-to-all".to_string()), endpoint: None };
    assert_eq!(
        server.dispatch(bob, "payload", &everyone),
        vec![to(alice, "payload"), to(bob, "payload")]
    );
    let nothing = Envelope { protocol: None, endpoint: Some("bob".to_string()) };
    assert_eq!(server.dispatch(alice, "payload", &nothing), vec![to(alice, USAGE)]);
    let unknown =
        Envelope { protocol: Some("one-to-one".to_string()), endpoint: Some("zoë".to_string()) };
    assert_eq!(
        server.dispatch(alice, "payload", &unknown),
        vec![to(alice, "Could not find a node with the name zoë")]
    );
}

#[test]
fn envelope_of_a_message() {
    assert_eq!(
        Envelope::parse(r#"{"protocol":"one-to-one","endpoint":"bob","text":"hi"}"#),
        Envelope { protocol: Some("one-to-one".to_string()), endpoint: Some("bob".to_string()) }
    );
    assert_eq!(
        Envelope::parse(r#"{"endpoint":"böb \"x\""}"#),
        Envelope { protocol: None, endpoint: Some("böb \"x\"".to_string()) }
    );
    assert_eq!(
        Envelope::parse(r#"{"protocol":true,"endpoint":{"endpoint":"bob"}}"#),
        Envelope { protocol: None, endpoint: None }
    );
    assert_eq!(Envelope::parse("protocol"), Envelope { protocol: None, endpoint: None });
    assert_eq!(Envelope::parse(r#"["protocol"]"#), Envelope { protocol: None, endpoint: None });
    assert_eq!(
        Envelope::parse(r#"{"protocol":""}"#),
        Envelope { protocol: Some(String::new()), endpoint: None }
    );
}
