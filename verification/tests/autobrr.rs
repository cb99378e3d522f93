use configuratarr::autobrr::download_client_auth::DownloadClientAuth;
use configuratarr::autobrr::external_filter::ExternalFilter;
use configuratarr::json::{Json, JsonNumber};

fn text(s: &str) -> Json {
    Json::String(s.to_string())
}

fn number(i: u64) -> Json {
    Json::Number(JsonNumber::PosInt(i))
}

#[test]
fn auth_type_maps_to_wire_type() {
    let cfg = DownloadClientAuth {
        enabled: Some(true),
        auth_type: Some("DIGEST_AUTH".to_string()),
        username: Some("u".to_string()),
        password: None,
    };
    let wire = cfg.to_wire();
    assert_eq!(wire.get("type"), Some(&text("DIGEST_AUTH")));
    assert_eq!(wire.get("auth_type"), None, "config key must not leak to wire");
    assert_eq!(wire.get("enabled"), Some(&Json::Bool(true)));
    assert_eq!(wire.get("username"), Some(&text("u")));
}

#[test]
fn external_filter_new_fields_encode_to_wire() {
    let cfg = ExternalFilter {
        id: None,
        name: Some("size-check".to_string()),
        index: None,
        external_type: Some("WEBHOOK".to_string()),
        enabled: Some(true),
        webhook_host: Some("http://localhost:9000/check".to_string()),
        webhook_method: Some("POST".to_string()),
        webhook_data: None,
        webhook_headers: Some("X-Api-Key=abc,Accept=application/json".to_string()),
        webhook_expect_status: Some(200),
        webhook_retry_status: Some("500,502,503".to_string()),
        webhook_retry_attempts: Some(3),
        webhook_retry_delay_seconds: Some(5),
        exec_cmd: None,
        exec_args: None,
        exec_expect_status: None,
        on_error: Some("REJECT".to_string()),
    };
    let wire = cfg.to_wire();
    assert_eq!(wire.get("type"), Some(&text("WEBHOOK")));
    assert_eq!(wire.get("webhook_headers"), Some(&text("X-Api-Key=abc,Accept=application/json")));
    assert_eq!(wire.get("webhook_retry_status"), Some(&text("500,502,503")));
    assert_eq!(wire.get("webhook_retry_attempts"), Some(&number(3)));
    assert_eq!(wire.get("webhook_retry_delay_seconds"), Some(&number(5)));
    assert_eq!(wire.get("on_error"), Some(&text("REJECT")));
    assert_eq!(wire.get("webhook_expect_status"), Some(&number(200)));
    assert_eq!(wire.get("exec_cmd"), None);
}

#[test]
fn external_filter_negative_integers_encode_signed() {
    let mut cfg = ExternalFilter {
        id: Some(-1),
        name: None,
        index: None,
        external_type: None,
        enabled: None,
        webhook_host: None,
        webhook_method: None,
        webhook_data: None,
        webhook_headers: None,
        webhook_expect_status: None,
        webhook_retry_status: None,
        webhook_retry_attempts: None,
        webhook_retry_delay_seconds: None,
        exec_cmd: None,
        exec_args: None,
        exec_expect_status: None,
        on_error: None,
    };
    assert_eq!(cfg.to_wire(), Json::Object(vec![("id".to_string(), Json::Number(JsonNumber::NegInt(-1)))]));
    cfg.id = None;
    assert_eq!(cfg.to_wire(), Json::Object(vec![]));
}
