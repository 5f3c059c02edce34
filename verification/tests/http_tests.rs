use chrono::{Datelike, Timelike};
use homepage_backend::http_api::{
    example_response, health_response, metrics_content_type, root_banner,
};
use homepage_backend::timestamp::CivilDateTime;

#[test]
fn root_serves_the_static_banner() {
    assert_eq!(root_banner(), "Homepage Backend API");
}

#[test]
fn healthy_database_gives_200_and_the_healthy_body() {
    let r = health_response(true);
    assert_eq!(r.status, 200);
    assert_eq!(r.body, "{\"status\":\"healthy\",\"database\":\"connected\"}");
}

#[test]
fn unreachable_database_gives_503_and_the_unhealthy_body() {
    let r = health_response(false);
    assert_eq!(r.status, 503);
    assert_eq!(r.body, "{\"status\":\"unhealthy\",\"database\":\"disconnected\"}");
}

#[test]
fn health_bodies_are_valid_json_with_the_expected_fields() {
    let ok: serde_json::Value = serde_json::from_str(&health_response(true).body).unwrap();
    assert_eq!(ok["status"].as_str(), Some("healthy"));
    assert_eq!(ok["database"].as_str(), Some("connected"));
    let bad: serde_json::Value = serde_json::from_str(&health_response(false).body).unwrap();
    assert_eq!(bad["status"].as_str(), Some("unhealthy"));
    assert_eq!(bad["database"].as_str(), Some("disconnected"));
}

#[test]
fn metrics_are_served_as_text_exposition() {
    assert_eq!(metrics_content_type(), "text/plain; version=0.0.4");
}

#[test]
fn example_body_carries_the_message_and_the_moment() {
    let now = CivilDateTime { year: 2024, month: 7, day: 1, hour: 12, minute: 0, second: 30 };
    assert_eq!(
        example_response(&now),
        "{\"message\":\"Hello from Axum backend!\",\"timestamp\":\"2024-07-01T12:00:30Z\"}"
    );
}

#[test]
fn example_timestamp_parses_as_a_valid_timestamp() {
    let now = CivilDateTime { year: 2025, month: 2, day: 28, hour: 23, minute: 59, second: 59 };
    let v: serde_json::Value = serde_json::from_str(&example_response(&now)).unwrap();
    assert_eq!(v["message"].as_str(), Some("Hello from Axum backend!"));
    let ts = v["timestamp"].as_str().unwrap();
    let parsed = chrono::DateTime::parse_from_rfc3339(ts).unwrap();
    assert_eq!(parsed.year(), 2025);
    assert_eq!(parsed.month(), 2);
    assert_eq!(parsed.day(), 28);
    assert_eq!(parsed.hour(), 23);
    assert_eq!(parsed.minute(), 59);
    assert_eq!(parsed.second(), 59);
}
