use tempo_bot::mqtt::{Handshake, MQTTHandler, QoS, SessionEvent, SessionStatus};
use tempo_bot::tempo::{TempoDay, TempoDayState};

fn delivery(topic: &str) -> SessionEvent {
    SessionEvent::Delivery { topic: topic.to_string() }
}

#[test]
fn new_keeps_the_connection_parameters() {
    let h = MQTTHandler::new("10.0.0.2", 1883, "user", "secret", "home/tempo", Some("me"));
    assert_eq!(h.topic(), "home/tempo");
    let o = h.options();
    assert_eq!(o.client_id, "me");
    assert_eq!(o.host, "10.0.0.2");
    assert_eq!(o.port, 1883);
    assert_eq!(o.username, "user");
    assert_eq!(o.password, "secret");
    assert_eq!(o.keep_alive_secs, 5);
}

#[test]
fn new_without_identity_uses_the_default_name() {
    let h = MQTTHandler::new("broker", 8883, "u", "p", "t", None);
    assert_eq!(h.options().client_id, "bot_tempo_rs");
}

#[test]
fn send_msg_subscribes_then_publishes_on_the_topic() {
    let h = MQTTHandler::new("broker", 1883, "u", "p", "home/tempo", None);
    let s = h.send_msg("hello");
    assert_eq!(s.options.host, "broker");
    assert_eq!(s.options.port, 1883);
    assert_eq!(s.options.username, "u");
    assert_eq!(s.options.password, "p");
    assert_eq!(s.options.client_id, "bot_tempo_rs");
    assert_eq!(s.options.keep_alive_secs, 5);
    assert_eq!(s.topic, "home/tempo");
    assert_eq!(s.payload, "hello");
    assert_eq!(s.subscribe_qos, QoS::AtMostOnce);
    assert_eq!(s.publish_qos, QoS::AtLeastOnce);
    assert!(!s.retain);
    assert_eq!(s.wait_secs, 5);
}

#[test]
fn handle_day_publishes_the_encoded_day() {
    let h = MQTTHandler::new("broker", 1883, "u", "p", "home/tempo", None);
    let d = TempoDay::new("2024-12-25", TempoDayState::Rouge);
    let s = h.handle_day(&d);
    assert_eq!(s.topic, "home/tempo");
    assert_eq!(s.payload, "{'day' : '2024-12-25' , 'state' : 'ROUGE'}");
    assert_eq!(s.publish_qos, QoS::AtLeastOnce);
}

#[test]
fn handshake_starts_waiting() {
    let h = Handshake::new("t");
    assert_eq!(h.status(), SessionStatus::Waiting);
    assert!(!h.seen_delivery());
    assert!(!h.seen_ack());
    let session = MQTTHandler::new("b", 1, "u", "p", "t", None).send_msg("m");
    assert_eq!(session.handshake().status(), SessionStatus::Waiting);
}

#[test]
fn delivery_then_acknowledgment_round_trips() {
    let mut h = Handshake::new("t");
    assert_eq!(h.on_event(&delivery("t")), SessionStatus::Waiting);
    assert!(h.seen_delivery());
    assert!(!h.seen_ack());
    assert_eq!(h.on_event(&SessionEvent::Acknowledged), SessionStatus::RoundTripped);
    assert!(h.seen_ack());
    assert_eq!(h.status(), SessionStatus::RoundTripped);
}

#[test]
fn acknowledgment_before_delivery_does_not_count() {
    let mut h = Handshake::new("t");
    assert_eq!(h.on_event(&SessionEvent::Acknowledged), SessionStatus::Waiting);
    assert!(!h.seen_ack());
    assert_eq!(h.on_event(&delivery("t")), SessionStatus::Waiting);
    assert_eq!(h.status(), SessionStatus::Waiting);
    assert_eq!(h.on_event(&SessionEvent::Acknowledged), SessionStatus::RoundTripped);
}

#[test]
fn delivery_on_another_topic_does_not_count() {
    let mut h = Handshake::new("home/tempo");
    assert_eq!(h.on_event(&delivery("home/other")), SessionStatus::Waiting);
    assert!(!h.seen_delivery());
    assert_eq!(h.on_event(&SessionEvent::Acknowledged), SessionStatus::Waiting);
    assert!(!h.seen_ack());
}

#[test]
fn other_events_change_nothing() {
    let mut h = Handshake::new("t");
    assert_eq!(h.on_event(&SessionEvent::Other), SessionStatus::Waiting);
    assert_eq!(h.on_event(&delivery("t")), SessionStatus::Waiting);
    assert_eq!(h.on_event(&SessionEvent::Other), SessionStatus::Waiting);
    assert!(h.seen_delivery());
    assert_eq!(h.on_event(&delivery("t")), SessionStatus::Waiting);
    assert_eq!(h.on_event(&SessionEvent::Acknowledged), SessionStatus::RoundTripped);
}

#[test]
fn timeout_ends_a_waiting_session() {
    let mut h = Handshake::new("t");
    assert_eq!(h.on_event(&delivery("t")), SessionStatus::Waiting);
    assert_eq!(h.on_event(&SessionEvent::TimedOut), SessionStatus::Unavailable);
    assert_eq!(h.on_event(&SessionEvent::Acknowledged), SessionStatus::Unavailable);
    assert!(!h.seen_ack());
}

#[test]
fn lost_connection_ends_a_waiting_session() {
    let mut h = Handshake::new("t");
    assert_eq!(h.on_event(&SessionEvent::Lost), SessionStatus::Unavailable);
    assert_eq!(h.on_event(&delivery("t")), SessionStatus::Unavailable);
    assert_eq!(h.on_event(&SessionEvent::Acknowledged), SessionStatus::Unavailable);
}

#[test]
fn a_session_that_round_tripped_stays_so() {
    let mut h = Handshake::new("t");
    h.on_event(&delivery("t"));
    h.on_event(&SessionEvent::Acknowledged);
    assert_eq!(h.on_event(&SessionEvent::TimedOut), SessionStatus::RoundTripped);
    assert_eq!(h.on_event(&SessionEvent::Lost), SessionStatus::RoundTripped);
    assert_eq!(h.status(), SessionStatus::RoundTripped);
}
