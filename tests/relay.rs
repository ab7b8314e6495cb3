use signal_relay::{parse_frame, Relay};

fn two_peers() -> Relay<u32> {
    let mut relay: Relay<u32> = Relay::new();
    assert_eq!(relay.on_connect("a1".to_string(), 1), "a1");
    assert_eq!(relay.on_connect("b2".to_string(), 2), "b2");
    relay
}

fn delivered_to(relay: &Relay<u32>, sender: &str, text: &str) -> Option<u32> {
    relay.on_message(sender, text).map(|d| {
        assert_eq!(d.frame, text);
        *d.to
    })
}

#[test]
fn negotiation_between_two_peers() {
    let mut relay = two_peers();
    let offer = "OFFER a1 b2 {sdp...}";
    let d = relay.on_message("a1", offer).unwrap();
    assert_eq!(*d.to, 2);
    assert_eq!(d.frame, "OFFER a1 b2 {sdp...}");
    assert_eq!(delivered_to(&relay, "b2", "ANSWER b2 a1 {sdp...}"), Some(1));
    assert_eq!(delivered_to(&relay, "a1", "ICE a1 b2 {candidate...}"), Some(2));
    relay.on_close("a1");
    assert_eq!(delivered_to(&relay, "b2", "ICE b2 a1 {candidate...}"), None);
    assert_eq!(delivered_to(&relay, "b2", "PING b2 a1 hello"), None);
}

#[test]
fn unrouted_verb_is_ignored() {
    let relay = two_peers();
    assert_eq!(delivered_to(&relay, "a1", "PING a1 b2 hello"), None);
    assert_eq!(delivered_to(&relay, "a1", "offer a1 b2 hello"), None);
}

#[test]
fn greeting_is_the_registered_identity() {
    let mut relay: Relay<u32> = Relay::new();
    let id = relay.connect(7);
    assert_eq!(id.len(), 32);
    assert!(id.chars().all(|c| c.is_ascii_digit() || ('a'..='f').contains(&c)));
    assert!(relay.is_connected(&id));
    assert_eq!(relay.len(), 1);
    let other = relay.connect(8);
    assert_ne!(id, other);
    let text = format!("OFFER {} {} v=0", other, id);
    assert_eq!(delivered_to(&relay, &other, &text), Some(7));
}

#[test]
fn absent_target_is_dropped() {
    let relay = two_peers();
    assert_eq!(delivered_to(&relay, "a1", "OFFER a1 zz {sdp...}"), None);
}

#[test]
fn spoofed_source_is_dropped() {
    let relay = two_peers();
    assert_eq!(delivered_to(&relay, "a1", "OFFER b2 b2 {sdp...}"), None);
    assert_eq!(delivered_to(&relay, "a1", "OFFER b2 a1 {sdp...}"), None);
    assert_eq!(delivered_to(&relay, "zz", "ICE a1 b2 x"), None);
}

#[test]
fn closed_session_stays_unreachable_after_others_join() {
    let mut relay = two_peers();
    relay.on_close("b2");
    relay.on_connect("c3".to_string(), 3);
    assert_eq!(delivered_to(&relay, "a1", "OFFER a1 b2 {sdp...}"), None);
    assert_eq!(delivered_to(&relay, "a1", "OFFER a1 c3 {sdp...}"), Some(3));
}

#[test]
fn closing_twice_is_closing_once() {
    let mut relay = two_peers();
    relay.on_close("a1");
    assert!(!relay.is_connected("a1"));
    assert_eq!(relay.len(), 1);
    relay.on_close("a1");
    assert!(!relay.is_connected("a1"));
    assert!(relay.is_connected("b2"));
    assert_eq!(relay.len(), 1);
    relay.on_close("never");
    assert_eq!(relay.len(), 1);
}

#[test]
fn reconnect_under_same_identity_replaces_session() {
    let mut relay = two_peers();
    relay.on_connect("b2".to_string(), 9);
    assert_eq!(relay.len(), 2);
    assert_eq!(delivered_to(&relay, "a1", "ICE a1 b2 c"), Some(9));
}

#[test]
fn malformed_frames_are_dropped() {
    let relay = two_peers();
    for text in ["", "OFFER", "OFFER a1", "OFFER a1 b2", "OFFER a1 b2 ", "OFFER\ta1\tb2\tx"] {
        assert_eq!(delivered_to(&relay, "a1", text), None, "{:?}", text);
    }
}

#[test]
fn payload_keeps_its_spaces() {
    let relay = two_peers();
    let text = "ICE a1 b2 candidate:1 1 udp 2122260223 10.0.0.1 54321 typ host";
    let d = relay.on_message("a1", text).unwrap();
    assert_eq!(*d.to, 2);
    assert_eq!(d.frame, text);
}

#[test]
fn parse_splits_four_fields() {
    let f = parse_frame("ANSWER b2 a1 v=0 o=- 1 2 IN IP4 127.0.0.1").unwrap();
    assert_eq!(f.verb, "ANSWER");
    assert_eq!(f.source, "b2");
    assert_eq!(f.target, "a1");
    assert_eq!(f.payload, "v=0 o=- 1 2 IN IP4 127.0.0.1");
}

#[test]
fn parse_keeps_empty_inner_fields_and_unicode() {
    let f = parse_frame("OFFER  b2 é ü").unwrap();
    assert_eq!(f.verb, "OFFER");
    assert_eq!(f.source, "");
    assert_eq!(f.target, "b2");
    assert_eq!(f.payload, "é ü");
    let g = parse_frame("ÉCHO ä ö x").unwrap();
    assert_eq!(g.verb, "ÉCHO");
    assert_eq!(g.target, "ö");
}

#[test]
fn parse_rejects_short_frames() {
    assert!(parse_frame("").is_none());
    assert!(parse_frame("OFFER a1 b2").is_none());
    assert!(parse_frame("OFFER a1 b2 ").is_none());
    assert!(parse_frame("   ").is_none());
    assert!(parse_frame("    ").is_some());
}
