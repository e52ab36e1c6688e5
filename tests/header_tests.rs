use bcurl::header::{is_valid_name, is_valid_value};
use bcurl::{parse_header, parse_header_list, CurlError, CurlResponse};

fn pairs(raw: &[(&str, &str)]) -> Vec<(String, String)> {
    raw.iter().map(|(k, v)| (k.to_string(), v.to_string())).collect()
}

#[test]
fn parse_header_trims_any_whitespace() {
    let (key, value) = parse_header("\t X-Trace \u{a0}:\n  abc def \r\n").unwrap();
    assert_eq!(key, "X-Trace");
    assert_eq!(value, "abc def");
}

#[test]
fn parse_header_splits_at_first_colon() {
    let (key, value) = parse_header("Location: http://example.com:8080/x").unwrap();
    assert_eq!(key, "Location");
    assert_eq!(value, "http://example.com:8080/x");
}

#[test]
fn parse_header_empty_parts() {
    let (key, value) = parse_header(":").unwrap();
    assert_eq!(key, "");
    assert_eq!(value, "");
}

#[test]
fn parse_header_without_colon_names_the_line() {
    match parse_header("NoColonHere") {
        Err(CurlError::InvalidHeader(m)) => {
            assert_eq!(m, "Header must be in format 'Key: Value', got: NoColonHere")
        }
        other => panic!("unexpected {:?}", other),
    }
    assert!(parse_header("").is_err());
}

#[test]
fn parse_header_list_stops_at_first_bad_line() {
    let lines = vec!["A: 1".to_string(), "B 2".to_string(), "C".to_string()];
    match parse_header_list(&lines) {
        Err(CurlError::InvalidHeader(m)) => {
            assert_eq!(m, "Header must be in format 'Key: Value', got: B 2")
        }
        other => panic!("unexpected {:?}", other),
    }
    let good = vec!["A: 1".to_string(), " B :2 ".to_string()];
    assert_eq!(parse_header_list(&good).unwrap(), pairs(&[("A", "1"), ("B", "2")]));
}

#[test]
fn header_lookup_ignores_case() {
    let raw = pairs(&[("Content-Type", "text/html")]);
    let response = CurlResponse::new(200, "OK", &raw, "");
    assert_eq!(response.get_header("content-type"), Some(&"text/html".to_string()));
    assert_eq!(response.get_header("CONTENT-TYPE"), Some(&"text/html".to_string()));
    assert_eq!(response.headers, pairs(&[("content-type", "text/html")]));
}

#[test]
fn last_header_of_a_name_wins() {
    let raw = pairs(&[
        ("Content-Type", "text/html"),
        ("X-A", "1"),
        ("content-type", "application/json"),
    ]);
    let response = CurlResponse::new(200, "OK", &raw, "");
    assert_eq!(
        response.headers,
        pairs(&[("content-type", "application/json"), ("x-a", "1")])
    );
    assert_eq!(response.get_header("Content-Type"), Some(&"application/json".to_string()));
}

#[test]
fn is_success_boundaries() {
    for (status, expected) in [(199u16, false), (200, true), (299, true), (300, false), (404, false)] {
        let response = CurlResponse::new(status, "", &Vec::new(), "");
        assert_eq!(response.is_success(), expected, "status {}", status);
    }
}

#[test]
fn header_syntax_rules() {
    assert!(is_valid_name("X-Custom_Header.1~"));
    assert!(!is_valid_name(""));
    assert!(!is_valid_name("Bad Name"));
    assert!(!is_valid_name("Bad:Name"));
    assert!(is_valid_value("Bearer token123"));
    assert!(is_valid_value(""));
    assert!(is_valid_value("a\tb"));
    assert!(!is_valid_value("a\r\nb"));
    assert!(!is_valid_value("caf\u{e9}"));
}
