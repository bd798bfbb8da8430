use hmac::{Hmac, Mac};
use webhook_server::auth::validate_token;
use webhook_server::cache::{EventsCache, TimestampedEvent};
use webhook_server::config::{parse_unsigned_bytes, server_config};
use webhook_server::github::{
    accept_signed_payload, check_github_signature, check_github_webhook, event_label, github_broadcast, github_accepted_message, github_event_type,
    health_message, webhook_accepted_message, Rejection,
};
use webhook_server::headers::{header_is_text, header_text};
use webhook_server::metrics::update_metrics;
use webhook_server::session::{handle_client_message, ClientMessage, CloseReason, SessionAction};
use webhook_server::sessions::WebSocketServer;
use webhook_server::signature::{signature_is_valid, signature_matches_tag, verify_github_signature};

// RFC 4231, test case 2: HMAC-SHA256 with key "Jefe".
const JEFE_BODY: &[u8] = b"what do ya want for nothing?";
const JEFE_SIGNATURE: &str =
    "sha256=5bdcc146bf60754e6a042426089575c75a003f089d2739839dec58b964ec3843";

fn payload(text: &str) -> serde_json::Value {
    serde_json::from_str(text).unwrap()
}

#[test]
fn signature_of_known_hmac_is_accepted() {
    assert!(verify_github_signature(JEFE_SIGNATURE, JEFE_BODY, "Jefe"));
}

#[test]
fn signature_with_other_secret_or_body_is_rejected() {
    assert!(!verify_github_signature(JEFE_SIGNATURE, JEFE_BODY, "jefe"));
    assert!(!verify_github_signature(JEFE_SIGNATURE, b"what do ya want for nothing!", "Jefe"));
}

#[test]
fn signature_must_be_lowercase_and_prefixed() {
    let upper = "sha256=5BDCC146BF60754E6A042426089575C75A003F089D2739839DEC58B964EC3843";
    assert!(!verify_github_signature(upper, JEFE_BODY, "Jefe"));
    let bare = "5bdcc146bf60754e6a042426089575c75a003f089d2739839dec58b964ec3843";
    assert!(!verify_github_signature(bare, JEFE_BODY, "Jefe"));
    let sha1 = "sha1=5bdcc146bf60754e6a042426089575c75a003f089d2739839dec58b964ec3843";
    assert!(!verify_github_signature(sha1, JEFE_BODY, "Jefe"));
    assert!(!verify_github_signature("", JEFE_BODY, "Jefe"));
    let longer = format!("{}0", JEFE_SIGNATURE);
    assert!(!verify_github_signature(&longer, JEFE_BODY, "Jefe"));
}

#[test]
fn signature_bytes_check_matches_str_check() {
    assert!(signature_is_valid(JEFE_SIGNATURE.as_bytes(), JEFE_BODY, b"Jefe"));
    assert!(!signature_is_valid(b"sha256=", JEFE_BODY, b"Jefe"));
}

#[test]
fn signature_text_is_hex_of_tag() {
    assert!(signature_matches_tag(b"sha256=00ff10ab", &[0x00, 0xff, 0x10, 0xab]));
    assert!(!signature_matches_tag(b"sha256=00FF10AB", &[0x00, 0xff, 0x10, 0xab]));
    assert!(signature_matches_tag(b"sha256=", &[]));
    assert!(!signature_matches_tag(b"sha256=00", &[]));
}

#[test]
fn token_not_configured_lets_everyone_in() {
    assert!(validate_token(None, None));
    assert!(validate_token(None, Some(b"Bearer anything")));
}

#[test]
fn empty_token_skips_validation() {
    assert!(validate_token(Some(""), None));
    assert!(validate_token(Some(""), Some(b"garbage")));
}

#[test]
fn bearer_token_must_match() {
    let secret = Some("s3cret");
    assert!(validate_token(secret, Some(b"Bearer s3cret")));
    assert!(!validate_token(secret, Some(b"Bearer wrong")));
    assert!(!validate_token(secret, None));
    assert!(!validate_token(secret, Some(b"s3cret")));
    assert!(!validate_token(secret, Some(b"bearer s3cret")));
    assert!(!validate_token(secret, Some(b"Bearer s3cre")));
    assert!(!validate_token(secret, Some(b"Bearer s3crett")));
}

#[test]
fn bearer_token_is_trimmed_and_repeated_prefixes_dropped() {
    let secret = Some("s3cret");
    assert!(validate_token(secret, Some(b"Bearer   s3cret  ")));
    assert!(validate_token(secret, Some(b"Bearer \ts3cret\t")));
    assert!(validate_token(secret, Some(b"Bearer Bearer s3cret")));
    assert!(!validate_token(Some("Bearer x"), Some(b"Bearer Bearer x")));
}

#[test]
fn authorization_header_must_be_text() {
    assert!(!validate_token(Some("s3cret"), Some(b"Bearer s3cret\n")));
    assert!(!validate_token(Some("s3cret"), Some(&[66, 101, 97, 114, 101, 114, 32, 0xc3, 0xa9])));
}

#[test]
fn header_text_accepts_visible_ascii_and_tab() {
    assert!(header_is_text(b"push"));
    assert!(header_is_text(b"a\tb ~"));
    assert!(!header_is_text(b"a\r\n"));
    assert!(!header_is_text(&[0x7f]));
    assert!(!header_is_text(&[0xe2, 0x82, 0xac]));
    assert_eq!(header_text(b"pull_request"), Some("pull_request".to_string()));
    assert_eq!(header_text(&[0xff]), None);
    assert_eq!(header_text(b""), Some(String::new()));
}

const JEFE_JSON_BODY: &[u8] = b"{\"zen\":\"Design for failure.\"}";

fn jefe_json_signature() -> String {
    // Computed independently of the library.
    let mut mac = <Hmac<sha2::Sha256> as Mac>::new_from_slice(b"Jefe").unwrap();
    mac.update(JEFE_JSON_BODY);
    format!("sha256={}", hex::encode(mac.finalize().into_bytes()))
}

fn rejection_of(r: Result<(serde_json::Value, Option<String>), Rejection>) -> Option<Rejection> {
    match r {
        Ok(_) => None,
        Err(e) => Some(e),
    }
}

#[test]
fn github_missing_signature_header() {
    let r = check_github_webhook(None, Some("Jefe"), Some(b"push"), JEFE_JSON_BODY);
    assert_eq!(rejection_of(r), Some(Rejection::MissingSignatureHeader));
}

#[test]
fn github_secret_not_configured() {
    let sig = jefe_json_signature();
    let r = check_github_webhook(Some(sig.as_bytes()), None, Some(b"push"), JEFE_JSON_BODY);
    assert_eq!(rejection_of(r), Some(Rejection::SecretNotConfigured));
}

#[test]
fn github_unreadable_signature_header() {
    let r = check_github_webhook(Some(&[0xff, 0x00]), Some("Jefe"), None, JEFE_JSON_BODY);
    assert_eq!(rejection_of(r), Some(Rejection::InvalidSignatureHeader));
}

#[test]
fn github_invalid_signature() {
    let r = check_github_webhook(Some(b"sha256=00"), Some("Jefe"), None, JEFE_JSON_BODY);
    assert_eq!(rejection_of(r), Some(Rejection::InvalidSignature));
}

#[test]
fn github_signature_checked_before_json() {
    let r = check_github_webhook(Some(b"sha256=00"), Some("s"), None, b"not json");
    assert_eq!(rejection_of(r), Some(Rejection::InvalidSignature));
}

#[test]
fn github_signed_body_that_is_not_json() {
    let r = check_github_webhook(Some(JEFE_SIGNATURE.as_bytes()), Some("Jefe"), Some(b"push"), JEFE_BODY);
    assert_eq!(rejection_of(r), Some(Rejection::InvalidJsonPayload));
}

#[test]
fn github_accepted_with_event_type() {
    let sig = jefe_json_signature();
    match check_github_webhook(Some(sig.as_bytes()), Some("Jefe"), Some(b"push"), JEFE_JSON_BODY) {
        Ok((p, event)) => {
            assert_eq!(p, payload("{\"zen\":\"Design for failure.\"}"));
            assert_eq!(event, Some("push".to_string()));
        }
        Err(e) => panic!("rejected: {:?}", e),
    }
    match check_github_webhook(Some(sig.as_bytes()), Some("Jefe"), Some(&[0xff]), JEFE_JSON_BODY) {
        Ok((_, event)) => assert_eq!(event, None),
        Err(e) => panic!("rejected: {:?}", e),
    }
}

#[test]
fn github_signature_step_alone() {
    let r = check_github_signature(Some(JEFE_SIGNATURE.as_bytes()), Some("Jefe"), Some(b"push"), JEFE_BODY);
    assert_eq!(r, Ok(Some("push".to_string())));
    let r = check_github_signature(Some(JEFE_SIGNATURE.as_bytes()), Some("Jefe"), None, JEFE_BODY);
    assert_eq!(r, Ok(None));
    let r = check_github_signature(None, None, None, JEFE_BODY);
    assert_eq!(r, Err(Rejection::MissingSignatureHeader));
}

#[test]
fn signed_payload_step() {
    match accept_signed_payload(Some(payload("[1]")), Some("ping".to_string())) {
        Ok((p, e)) => {
            assert_eq!(p, payload("[1]"));
            assert_eq!(e, Some("ping".to_string()));
        }
        Err(e) => panic!("rejected: {:?}", e),
    }
    assert_eq!(rejection_of(accept_signed_payload(None, None)), Some(Rejection::InvalidJsonPayload));
}

// The example delivery from GitHub's documentation on validating webhooks.
#[test]
fn github_documentation_example() {
    let secret = "It's a Secret to Everybody";
    let body = b"Hello, World!";
    let full = "sha256=757107ea0eb2509fc211221cce984b8a37570b6d7586c22c46f4379c8b043e17";
    assert!(verify_github_signature(full, body, secret));
    assert!(!verify_github_signature("sha256=757107", body, secret));
    assert!(!verify_github_signature("sha256=", body, secret));
    assert!(!verify_github_signature(&full[..70], body, secret));
}

#[test]
fn github_event_type_from_header() {
    assert_eq!(github_event_type(Some(b"issues")), Some("issues".to_string()));
    assert_eq!(github_event_type(Some(b"bad\x01")), None);
    assert_eq!(github_event_type(None), None);
}

#[test]
fn rejection_responses() {
    assert_eq!(Rejection::MissingSignatureHeader.status(), 400);
    assert_eq!(Rejection::MissingSignatureHeader.message(), "Missing x-hub-signature-256 header\n");
    assert_eq!(Rejection::SecretNotConfigured.status(), 500);
    assert_eq!(Rejection::SecretNotConfigured.message(), "Webhook secret not configured\n");
    assert_eq!(Rejection::InvalidSignatureHeader.status(), 400);
    assert_eq!(Rejection::InvalidSignatureHeader.message(), "Invalid signature header\n");
    assert_eq!(Rejection::InvalidSignature.status(), 401);
    assert_eq!(Rejection::InvalidSignature.message(), "Invalid webhook signature\n");
    assert_eq!(Rejection::InvalidJsonPayload.status(), 400);
    assert_eq!(Rejection::InvalidJsonPayload.message(), "Invalid JSON payload\n");
    assert_eq!(Rejection::InvalidToken.status(), 401);
    assert_eq!(Rejection::InvalidToken.message(), "Invalid or missing authorization token");
}

#[test]
fn success_responses() {
    assert_eq!(github_accepted_message(), "GitHub webhook received successfully\n");
    assert_eq!(webhook_accepted_message(), "Webhook received successfully\n");
    assert_eq!(health_message(), "Server is running\n");
}

#[test]
fn event_label_defaults_to_unknown() {
    assert_eq!(event_label(&None), "unknown");
    assert_eq!(event_label(&Some("push".to_string())), "push");
}

#[test]
fn cache_keeps_newest_events_in_order() {
    let mut cache = EventsCache::new(2);
    assert_eq!(cache.max_size(), 2);
    cache.add(1, payload("{\"n\":1}"), None);
    cache.add(2, payload("{\"n\":2}"), Some("push".to_string()));
    assert_eq!(cache.len(), 2);
    cache.add(3, payload("{\"n\":3}"), None);
    assert_eq!(cache.len(), 2);
    let events = cache.get_events();
    assert_eq!(events.len(), 2);
    assert_eq!(events[0].timestamp, 2);
    assert_eq!(events[0].payload, payload("{\"n\":2}"));
    assert_eq!(events[0].event_type, Some("push".to_string()));
    assert_eq!(events[1].timestamp, 3);
    assert_eq!(events[1].payload, payload("{\"n\":3}"));
    assert_eq!(events[1].event_type, None);
}

#[test]
fn cache_with_no_room_stays_empty() {
    let mut cache = EventsCache::new(0);
    cache.add(1, payload("[1,2]"), None);
    assert_eq!(cache.len(), 0);
    assert!(cache.get_events().is_empty());
}

#[test]
fn cache_get_events_leaves_cache_unchanged() {
    let mut cache = EventsCache::new(5);
    assert!(cache.get_events().is_empty());
    cache.add(7, payload("\"x\""), None);
    let first = cache.get_events();
    let second = cache.get_events();
    assert_eq!(first.len(), 1);
    assert_eq!(second.len(), 1);
    assert_eq!(first[0].payload, second[0].payload);
    assert_eq!(cache.len(), 1);
}

#[test]
fn timestamped_event_clone_is_equal() {
    let e = TimestampedEvent { timestamp: 9, payload: payload("{\"a\":[1,2.5,null]}"), event_type: Some("ping".to_string()) };
    let c = e.clone();
    assert_eq!(c.timestamp, 9);
    assert_eq!(c.payload, e.payload);
    assert_eq!(c.event_type, e.event_type);
}

#[test]
fn session_ids_are_handed_out_in_order() {
    let mut server: WebSocketServer<&str> = WebSocketServer::new();
    assert_eq!(server.next_id(), 0);
    assert_eq!(server.get_next_id(), 0);
    assert_eq!(server.get_next_id(), 1);
    assert_eq!(server.next_id(), 2);
}

#[test]
fn sessions_connect_and_disconnect() {
    let mut server: WebSocketServer<&str> = WebSocketServer::default();
    assert_eq!(server.connect(0, "a"), 1);
    assert_eq!(server.connect(1, "b"), 2);
    assert_eq!(server.connect(1, "c"), 2);
    let mut r: Vec<(usize, &str)> = server.entries().into_iter().map(|(id, x)| (id, *x)).collect();
    r.sort();
    assert_eq!(r, vec![(0, "a"), (1, "c")]);
    assert_eq!(server.disconnect(0), 1);
    assert_eq!(server.disconnect(0), 1);
    assert_eq!(server.len(), 1);
    assert_eq!(server.disconnect(1), 0);
    assert!(server.entries().is_empty());
}

#[test]
fn client_messages_are_answered() {
    match handle_client_message(ClientMessage::Ping(vec![1, 2])) {
        SessionAction::Pong(b) => assert_eq!(b, vec![1, 2]),
        _ => panic!("expected pong"),
    }
    match handle_client_message(ClientMessage::Text("hi".to_string())) {
        SessionAction::Text(t) => assert_eq!(t, "hi"),
        _ => panic!("expected echo"),
    }
    let reason = CloseReason { code: 1000, description: Some("bye".to_string()) };
    match handle_client_message(ClientMessage::Close(Some(reason))) {
        SessionAction::Close(Some(r)) => {
            assert_eq!(r.code, 1000);
            assert_eq!(r.description, Some("bye".to_string()));
        }
        _ => panic!("expected close"),
    }
    assert!(matches!(handle_client_message(ClientMessage::Close(None)), SessionAction::Close(None)));
    assert!(matches!(handle_client_message(ClientMessage::Binary(vec![0])), SessionAction::Nothing));
    assert!(matches!(handle_client_message(ClientMessage::Pong(vec![])), SessionAction::Nothing));
    assert!(matches!(handle_client_message(ClientMessage::Continuation), SessionAction::Nothing));
    assert!(matches!(handle_client_message(ClientMessage::Nop), SessionAction::Nothing));
    assert!(matches!(handle_client_message(ClientMessage::ProtocolError), SessionAction::Nothing));
}

#[test]
fn config_defaults() {
    let c = server_config(None, None);
    assert_eq!(c.port, 8080);
    assert_eq!(c.max_cached_events, 100);
}

#[test]
fn config_reads_valid_numbers() {
    let c = server_config(Some("9000"), Some("200"));
    assert_eq!(c.port, 9000);
    assert_eq!(c.max_cached_events, 200);
    let c = server_config(Some("+80"), Some("007"));
    assert_eq!(c.port, 80);
    assert_eq!(c.max_cached_events, 7);
    let c = server_config(Some("65535"), Some("0"));
    assert_eq!(c.port, 65535);
    assert_eq!(c.max_cached_events, 0);
}

#[test]
fn config_falls_back_on_invalid_numbers() {
    for bad in ["", "+", "-1", "65536", " 80", "80 ", "8o", "++80", "-0"] {
        assert_eq!(server_config(Some(bad), None).port, 8080, "{:?}", bad);
    }
    assert_eq!(server_config(None, Some("99999999999999999999999")).max_cached_events, 100);
    assert_eq!(server_config(None, Some("abc")).max_cached_events, 100);
}

#[test]
fn parse_matches_std_parse() {
    for s in ["0", "1", "42", "+42", "255", "256", "", "+", "-", "1_000", "18446744073709551615", "18446744073709551616"] {
        assert_eq!(parse_unsigned_bytes(s.as_bytes(), u64::MAX), s.parse::<u64>().ok(), "{:?}", s);
        assert_eq!(parse_unsigned_bytes(s.as_bytes(), 255), s.parse::<u8>().ok().map(u64::from), "{:?}", s);
    }
}

#[test]
fn uptime_is_elapsed_time() {
    assert_eq!(update_metrics(1_000, 3_500), Some(2_500));
    assert_eq!(update_metrics(7, 7), Some(0));
    assert_eq!(update_metrics(10, 9), None);
}

fn serde_envelope(payload: &serde_json::Value, event: Option<&str>) -> String {
    let mut m = serde_json::Map::new();
    m.insert("payload".to_string(), payload.clone());
    if let Some(e) = event {
        m.insert("event_type".to_string(), serde_json::Value::String(e.to_string()));
    }
    serde_json::to_string(&serde_json::Value::Object(m)).unwrap()
}

#[test]
fn github_broadcast_with_event_type() {
    let p = payload("{\"zen\":\"Keep it simple\",\"hook_id\":7}");
    let text = serde_json::to_string(&p).unwrap();
    let event = serde_json::to_string("push").unwrap();
    let framed = github_broadcast(text.as_bytes(), Some(event.as_bytes()));
    assert_eq!(framed, b"{\"event_type\":\"push\",\"payload\":{\"hook_id\":7,\"zen\":\"Keep it simple\"}}".to_vec());
    assert_eq!(String::from_utf8(framed).unwrap(), serde_envelope(&p, Some("push")));
}

#[test]
fn github_broadcast_without_event_type() {
    let p = payload("[1,true,null]");
    let text = serde_json::to_string(&p).unwrap();
    let framed = github_broadcast(text.as_bytes(), None);
    assert_eq!(framed, b"{\"payload\":[1,true,null]}".to_vec());
    assert_eq!(String::from_utf8(framed).unwrap(), serde_envelope(&p, None));
}

