use component_service::command::{ComponentTypeArg, UpdatedComponentTypeArg};
use component_service::middleware::{Cors, HttpMiddleware};
use component_service::model::ComponentType;

fn cors(credentials: Option<bool>, expose: Option<&str>) -> Cors {
    Cors::new("https://example.com".to_string(), credentials, expose.map(|s| s.to_string()))
}

#[test]
fn cors_headers_are_set() {
    let middleware = HttpMiddleware::cors(cors(Some(true), Some("x-request-id, x-trace")));
    let mut headers = http::HeaderMap::new();
    headers.insert("content-type", http::HeaderValue::from_static("text/plain"));
    assert!(middleware.transform_response(&mut headers));
    assert_eq!(headers.len(), 4);
    assert_eq!(headers.get("access-control-allow-origin").unwrap(), "https://example.com");
    assert_eq!(headers.get("access-control-allow-credentials").unwrap(), "true");
    assert_eq!(headers.get("access-control-expose-headers").unwrap(), "x-request-id, x-trace");
    assert_eq!(headers.get("content-type").unwrap(), "text/plain");
}

#[test]
fn absent_settings_set_no_header() {
    let middleware = HttpMiddleware::cors(cors(None, None));
    let mut headers = http::HeaderMap::new();
    assert!(middleware.transform_response(&mut headers));
    assert_eq!(headers.len(), 1);
    assert_eq!(headers.get("access-control-allow-origin").unwrap(), "https://example.com");
    let middleware = HttpMiddleware::cors(cors(Some(false), None));
    let mut headers = http::HeaderMap::new();
    assert!(middleware.transform_response(&mut headers));
    assert_eq!(headers.len(), 2);
    assert_eq!(headers.get("access-control-allow-credentials").unwrap(), "false");
}

#[test]
fn earlier_values_are_replaced() {
    let middleware = HttpMiddleware::cors(cors(None, None));
    let mut headers = http::HeaderMap::new();
    headers.append("access-control-allow-origin", http::HeaderValue::from_static("a"));
    headers.append("access-control-allow-origin", http::HeaderValue::from_static("b"));
    assert!(middleware.transform_response(&mut headers));
    let values: Vec<_> = headers.get_all("access-control-allow-origin").iter().collect();
    assert_eq!(values, vec!["https://example.com"]);
}

#[test]
fn invalid_value_stops_the_headers() {
    let middleware = HttpMiddleware::cors(cors(Some(true), Some("bad\nvalue")));
    let mut headers = http::HeaderMap::new();
    assert!(!middleware.transform_response(&mut headers));
    assert_eq!(headers.len(), 2);
    assert!(headers.get("access-control-expose-headers").is_none());
    let middleware = HttpMiddleware::cors(Cors::new("bad\u{7f}".to_string(), Some(true), None));
    let mut headers = http::HeaderMap::new();
    assert!(!middleware.transform_response(&mut headers));
    assert!(headers.is_empty());
}

#[test]
fn settings_are_read_back() {
    let settings = cors(Some(true), Some("x"));
    assert_eq!(settings.get_allow_origin(), "https://example.com");
    assert_eq!(settings.get_allow_credentials(), Some(true));
    assert_eq!(settings.get_expose_headers(), &Some("x".to_string()));
    assert_eq!(HttpMiddleware::cors(settings.clone()), HttpMiddleware::Cors(settings));
}

#[test]
fn component_type_flags() {
    assert_eq!(ComponentTypeArg::new(false, false).component_type(), ComponentType::Durable);
    assert_eq!(ComponentTypeArg::new(false, true).component_type(), ComponentType::Durable);
    assert_eq!(ComponentTypeArg::new(true, false).component_type(), ComponentType::Ephemeral);
    assert_eq!(ComponentTypeArg::new(true, true).component_type(), ComponentType::Ephemeral);
    assert_eq!(UpdatedComponentTypeArg::new(false, false).optional_component_type(), None);
    assert_eq!(
        UpdatedComponentTypeArg::new(false, true).optional_component_type(),
        Some(ComponentType::Durable)
    );
    assert_eq!(
        UpdatedComponentTypeArg::new(true, false).optional_component_type(),
        Some(ComponentType::Ephemeral)
    );
    assert_eq!(
        UpdatedComponentTypeArg::new(true, true).optional_component_type(),
        Some(ComponentType::Ephemeral)
    );
}
