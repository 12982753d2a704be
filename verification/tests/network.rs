use brewtech::network::{
    ack_type_str, connection_decision, parse_ipv4, should_publish_temperature,
    strongest_access_point, AccessPoint, ConnectDecision, MIN_CONNECT_RSSI,
};

#[test]
fn ack_names() {
    assert_eq!(ack_type_str(0), "none");
    assert_eq!(ack_type_str(1), "calibrating");
    assert_eq!(ack_type_str(2), "ok");
    assert_eq!(ack_type_str(3), "error");
    assert_eq!(ack_type_str(4), "none");
    assert_eq!(ack_type_str(u32::MAX), "none");
}

#[test]
fn temperature_rate_limit() {
    assert!(should_publish_temperature(None, 0, 30_000));
    assert!(!should_publish_temperature(Some(1_000), 1_000, 30_000));
    assert!(!should_publish_temperature(Some(1_000), 30_999, 30_000));
    assert!(should_publish_temperature(Some(1_000), 31_000, 30_000));
    assert!(should_publish_temperature(Some(5), 5, 0));
}

#[test]
fn parse_ipv4_accepts_dotted_quads() {
    assert_eq!(parse_ipv4("192.168.1.100"), Ok([192, 168, 1, 100]));
    assert_eq!(parse_ipv4("0.0.0.0"), Ok([0, 0, 0, 0]));
    assert_eq!(parse_ipv4("255.255.255.255"), Ok([255, 255, 255, 255]));
    // u8::from_str accepts a '+' sign and leading zeros
    assert_eq!(parse_ipv4("+1.02.003.0000"), Ok([1, 2, 3, 0]));
}

#[test]
fn parse_ipv4_rejects_malformed() {
    for s in [
        "", "1.2.3", "1.2.3.4.5", "1.2.3.4.", ".1.2.3", "1..2.3", "256.0.0.1", "1.2.3.-4",
        " 1.2.3.4", "1.2.3.4 ", "a.b.c.d", "1.2.+.4", "1.2.3.1000", "1,2,3,4",
    ] {
        assert_eq!(parse_ipv4(s), Err(()), "{s:?}");
    }
}

fn ap(ssid: &str, last: u8, rssi: i8) -> AccessPoint {
    AccessPoint { ssid: ssid.to_string(), bssid: [0, 0, 0, 0, 0, last], channel: last, signal_strength: rssi }
}

#[test]
fn strongest_access_point_prefers_last_of_equals() {
    let aps = vec![ap("other", 1, -20), ap("home", 2, -60), ap("home", 3, -80), ap("home", 4, -60)];
    assert_eq!(strongest_access_point(&aps, "home"), Some(3));
    assert_eq!(strongest_access_point(&aps, "other"), Some(0));
    assert_eq!(strongest_access_point(&aps, "none"), None);
    assert_eq!(strongest_access_point(&vec![], "home"), None);
}

#[test]
fn connection_decisions() {
    let aps = vec![ap("other", 1, -20), ap("home", 2, -65), ap("home", 3, -80)];
    assert!(matches!(
        connection_decision(&aps, "home"),
        ConnectDecision::Connect { bssid: [0, 0, 0, 0, 0, 2], channel: 2, rssi: -65 }
    ));
    assert!(matches!(connection_decision(&aps, "away"), ConnectDecision::SsidNotFound));
    let weak = vec![ap("home", 1, -71)];
    assert!(matches!(connection_decision(&weak, "home"), ConnectDecision::SignalTooWeak { rssi: -71 }));
    let edge = vec![ap("home", 1, MIN_CONNECT_RSSI)];
    assert!(matches!(connection_decision(&edge, "home"), ConnectDecision::Connect { rssi: -70, .. }));
}
