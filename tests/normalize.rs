use amqp_trigger::decimal::{parse_decimal, to_decimal};
use amqp_trigger::metadata::{normalize_metadata, ContentFormat, Envelope, Properties};

fn pairs(v: &[(&str, &str)]) -> Vec<(String, String)> {
    v.iter().map(|(k, x)| (k.to_string(), x.to_string())).collect()
}

#[test]
fn decimal_rendering() {
    assert_eq!(to_decimal(0), "0");
    assert_eq!(to_decimal(7), "7");
    assert_eq!(to_decimal(10), "10");
    assert_eq!(to_decimal(1234), "1234");
    assert_eq!(to_decimal(u64::MAX), "18446744073709551615");
}

#[test]
fn decimal_parsing() {
    assert_eq!(parse_decimal("42", 65535), Some(42));
    assert_eq!(parse_decimal("+7", 65535), Some(7));
    assert_eq!(parse_decimal("007", 65535), Some(7));
    assert_eq!(parse_decimal("65535", 65535), Some(65535));
    assert_eq!(parse_decimal("65536", 65535), None);
    assert_eq!(parse_decimal("99999999999999999999", 65535), None);
    assert_eq!(parse_decimal("", 65535), None);
    assert_eq!(parse_decimal("+", 65535), None);
    assert_eq!(parse_decimal("-1", 65535), None);
    assert_eq!(parse_decimal("12a", 65535), None);
    assert_eq!(parse_decimal(" 12", 65535), None);
}

#[test]
fn content_type_and_priority_in_scan_order() {
    let p = Properties {
        priority: Some(5),
        content_type: Some("text/plain".to_string()),
        ..Default::default()
    };
    assert_eq!(
        normalize_metadata(&p),
        Some(pairs(&[("content_type", "text/plain"), ("priority", "5")]))
    );
}

#[test]
fn no_properties_gives_absent_metadata() {
    assert_eq!(normalize_metadata(&Properties::default()), None);
}

#[test]
fn every_property_once_in_scan_order() {
    let p = Properties {
        content_type: Some("application/json".to_string()),
        content_encoding: Some("gzip".to_string()),
        delivery_mode: Some(2),
        priority: Some(0),
        correlation_id: Some("c-1".to_string()),
        reply_to: Some("replies".to_string()),
        expiration: Some("60000".to_string()),
        message_id: Some("m-1".to_string()),
        timestamp: Some(1700000000),
        kind: Some("order".to_string()),
        user_id: Some("guest".to_string()),
        app_id: Some("shop".to_string()),
        cluster_id: Some("c".to_string()),
    };
    assert_eq!(
        normalize_metadata(&p),
        Some(pairs(&[
            ("content_type", "application/json"),
            ("content_encoding", "gzip"),
            ("delivery_mode", "2"),
            ("priority", "0"),
            ("correlation_id", "c-1"),
            ("reply_to", "replies"),
            ("expiration", "60000"),
            ("message_id", "m-1"),
            ("timestamp", "1700000000"),
            ("type", "order"),
            ("user_id", "guest"),
            ("app_id", "shop"),
            ("cluster_id", "c"),
        ]))
    );
}

#[test]
fn empty_text_property_is_still_present() {
    let p = Properties { reply_to: Some(String::new()), ..Default::default() };
    assert_eq!(normalize_metadata(&p), Some(pairs(&[("reply_to", "")])));
}

#[test]
fn envelope_keeps_payload() {
    let p = Properties { timestamp: Some(12), ..Default::default() };
    let e = Envelope::from_delivery(vec![0, 255, 7], &p);
    assert_eq!(e.payload, vec![0, 255, 7]);
    assert_eq!(e.format, ContentFormat::Amqp);
    assert_eq!(e.metadata, Some(pairs(&[("timestamp", "12")])));
    let s = Envelope::synthetic();
    assert_eq!(s.payload, b"hello".to_vec());
    assert_eq!(s.metadata, None);
}
