use meeting_room_display::server::{
    accepts_log_content_type, extract_device_id, log_entry, validate_headers, AppError, Config,
    DisplayResponse, SetupResponse,
};

fn config() -> Config {
    Config {
        server_host: "127.0.0.1".to_string(),
        server_port: 8080,
        database_path: "devices.db".to_string(),
        access_token: "secret".to_string(),
        font_path: "assets/fonts/BlockKie.ttf".to_string(),
        refresh_rate: 200,
    }
}

#[test]
fn error_statuses_and_messages() {
    let auth = AppError::Auth("Missing ID header".to_string());
    assert_eq!(auth.status_code(), 401);
    assert_eq!(auth.message(), "Authentication failed: Missing ID header");
    assert_eq!(AppError::Config("x".to_string()).status_code(), 500);
    assert_eq!(AppError::Config("x".to_string()).message(), "Configuration error: x");
    assert_eq!(AppError::BadRequest("y".to_string()).status_code(), 400);
    assert_eq!(AppError::BadRequest("y".to_string()).message(), "Bad request: y");
    let other = AppError::Anyhow("disk full".to_string());
    let response = other.to_response();
    assert_eq!((response.error.as_str(), response.code), ("disk full", 500));
}

#[test]
fn access_token_is_checked() {
    let c = config();
    assert!(validate_headers(Some("secret"), &c).is_ok());
    match validate_headers(Some("invalid-token"), &c) {
        Err(AppError::Auth(m)) => assert_eq!(m, "Invalid Access-Token"),
        other => panic!("unexpected {:?}", other),
    }
    match validate_headers(None, &c) {
        Err(AppError::Auth(m)) => assert_eq!(m, "Missing Access-Token header"),
        other => panic!("unexpected {:?}", other),
    }
}

#[test]
fn device_id_is_required() {
    assert_eq!(extract_device_id(Some("00:11:22:33:44:55")).ok(), Some("00:11:22:33:44:55".to_string()));
    assert!(matches!(extract_device_id(None), Err(AppError::Auth(_))));
}

#[test]
fn log_requests_accept_json_and_text_only() {
    assert!(accepts_log_content_type("application/json"));
    assert!(accepts_log_content_type("text/plain"));
    assert!(!accepts_log_content_type("text/html"));
    assert!(!accepts_log_content_type("unknown"));
    assert_eq!(log_entry("dev1", "hello"), "[dev1] hello\n");
}

#[test]
fn responses_carry_their_fields() {
    let mut c = config();
    c.server_host = "display.example".to_string();
    c.server_port = 7;
    let setup = SetupResponse::registered(&c);
    assert_eq!(setup.status, 200);
    assert_eq!(setup.api_key, "my-api-key");
    assert_eq!(setup.friendly_id, "TRMNL001");
    assert_eq!(setup.image_url, "http://display.example:7/static/setup-logo.bmp");
    let display = DisplayResponse::for_image(&vec![1, 2, 3, 4], 200);
    assert_eq!(display.filename, "demo.bmp");
    assert_eq!(display.image_url, "data:image/bmp;base64,AQIDBA==");
    assert_eq!((display.image_url_timeout, display.refresh_rate), (0, 200));
}

#[test]
fn test_setup_endpoint_returns_full_url() {
    let setup = SetupResponse::registered(&config());
    assert_eq!(setup.status, 200);
    assert_eq!(setup.image_url, "http://127.0.0.1:8080/static/setup-logo.bmp");
    assert!(setup.image_url.starts_with("http://"));
}

#[test]
fn setup_url_port_digits() {
    let mut c = config();
    c.server_port = 0;
    assert_eq!(SetupResponse::registered(&c).image_url, "http://127.0.0.1:0/static/setup-logo.bmp");
    c.server_port = 65535;
    assert_eq!(SetupResponse::registered(&c).image_url, "http://127.0.0.1:65535/static/setup-logo.bmp");
}

#[test]
fn display_url_pads_base64() {
    let url = |b: Vec<u8>| DisplayResponse::for_image(&b, 1).image_url;
    assert_eq!(url(vec![]), "data:image/bmp;base64,");
    assert_eq!(url(vec![0xff]), "data:image/bmp;base64,/w==");
    assert_eq!(url(vec![0xfb, 0xff]), "data:image/bmp;base64,+/8=");
    assert_eq!(url(b"Man".to_vec()), "data:image/bmp;base64,TWFu");
    assert_eq!(url(b"hello".to_vec()), "data:image/bmp;base64,aGVsbG8=");
}
