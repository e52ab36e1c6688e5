use bcurl::{parse_header, plan_request, CurlResponse, HttpMethod, RequestConfig};

#[test]
fn test_request_config_default() {
    let config = RequestConfig::default();
    assert!(config.url.is_empty());
    assert_eq!(config.method, HttpMethod::Get);
    assert!(config.headers.is_empty());
    assert!(config.data.is_none());
    assert!(config.follow_redirects);
    assert!(!config.verbose);
}

#[test]
fn test_request_config_builder() {
    let config = RequestConfig::new("https://example.com")
        .method(HttpMethod::Post)
        .header("Content-Type", "application/json")
        .data(r#"{"key": "value"}"#)
        .verbose(true)
        .follow_redirects(false);

    assert_eq!(config.url, "https://example.com");
    assert_eq!(config.method, HttpMethod::Post);
    assert_eq!(config.headers.len(), 1);
    assert_eq!(config.headers[0].0, "Content-Type");
    assert_eq!(config.headers[0].1, "application/json");
    assert_eq!(config.data, Some(r#"{"key": "value"}"#.to_string()));
    assert!(config.verbose);
    assert!(!config.follow_redirects);
}

#[test]
fn test_http_method_display() {
    assert_eq!(HttpMethod::Get.as_str(), "GET");
    assert_eq!(HttpMethod::Post.as_str(), "POST");
    assert_eq!(HttpMethod::Put.as_str(), "PUT");
    assert_eq!(HttpMethod::Delete.as_str(), "DELETE");
    assert_eq!(HttpMethod::Head.as_str(), "HEAD");
    assert_eq!(HttpMethod::Patch.as_str(), "PATCH");
}

#[test]
fn test_parse_header_valid() {
    let (key, value) = parse_header("Content-Type: application/json").unwrap();
    assert_eq!(key, "Content-Type");
    assert_eq!(value, "application/json");
}

#[test]
fn test_parse_header_with_spaces() {
    let (key, value) = parse_header("  Accept  :  text/html  ").unwrap();
    assert_eq!(key, "Accept");
    assert_eq!(value, "text/html");
}

#[test]
fn test_parse_header_invalid() {
    let result = parse_header("InvalidHeader");
    assert!(result.is_err());
}

#[test]
fn test_curl_response_is_success() {
    let response = CurlResponse {
        status: 200,
        status_text: "OK".to_string(),
        headers: Vec::new(),
        body: String::new(),
    };
    assert!(response.is_success());

    let response = CurlResponse {
        status: 404,
        status_text: "Not Found".to_string(),
        headers: Vec::new(),
        body: String::new(),
    };
    assert!(!response.is_success());
}

#[test]
fn test_curl_response_get_header() {
    let headers = vec![("content-type".to_string(), "application/json".to_string())];

    let response = CurlResponse {
        status: 200,
        status_text: "OK".to_string(),
        headers,
        body: String::new(),
    };

    assert_eq!(
        response.get_header("content-type"),
        Some(&"application/json".to_string())
    );
    assert_eq!(response.get_header("nonexistent"), None);
}

#[test]
fn test_minimal_curl_empty_url() {
    let config = RequestConfig::default();
    let result = plan_request(&config);
    assert!(result.is_err());
}
