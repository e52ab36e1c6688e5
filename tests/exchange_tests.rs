use bcurl::{
    complete_exchange, header_text, plan_request, saved_output, CurlError, CurlResponse,
    HttpMethod, RequestConfig,
};

fn pairs(raw: &[(&str, &str)]) -> Vec<(String, String)> {
    raw.iter().map(|(k, v)| (k.to_string(), v.to_string())).collect()
}

#[test]
fn empty_url_is_rejected_before_sending() {
    match plan_request(&RequestConfig::new("")) {
        Err(e) => {
            assert!(matches!(e, CurlError::InvalidUrl(_)));
            assert_eq!(e.message(), "Invalid URL: URL cannot be empty");
        }
        Ok(_) => panic!("an empty URL was planned"),
    }
}

#[test]
fn first_bad_header_is_rejected() {
    let config = RequestConfig::new("http://h/")
        .header("Good", "1")
        .header("Bad Name", "v")
        .header("Other", "line\nbreak");
    match plan_request(&config) {
        Err(CurlError::InvalidHeader(m)) => assert_eq!(m, "invalid header 'Bad Name: v'"),
        other => panic!("unexpected {:?}", other.is_ok()),
    }
    let config = RequestConfig::new("http://h/").header("Other", "line\nbreak");
    match plan_request(&config) {
        Err(CurlError::InvalidHeader(m)) => assert_eq!(m, "invalid header 'Other: line\nbreak'"),
        other => panic!("unexpected {:?}", other.is_ok()),
    }
}

#[test]
fn plan_carries_the_request() {
    let config = RequestConfig::new("http://h/api")
        .method(HttpMethod::Post)
        .header("X-Test", "value")
        .data("test data")
        .timeout(5000)
        .follow_redirects(false);
    let plan = plan_request(&config).unwrap();
    assert_eq!(plan.method, HttpMethod::Post);
    assert_eq!(plan.url, "http://h/api");
    assert_eq!(plan.headers, pairs(&[("X-Test", "value")]));
    assert_eq!(plan.body, Some("test data".to_string()));
    assert_eq!(plan.timeout_ms, Some(5000));
    assert_eq!(plan.max_redirects, 0);
    assert!(plan.read_body);
    assert!(plan.echo.is_none());
}

#[test]
fn plan_for_head_reads_no_body_and_follows_redirects() {
    let plan = plan_request(&RequestConfig::new("http://h/").method(HttpMethod::Head)).unwrap();
    assert!(!plan.read_body);
    assert_eq!(plan.max_redirects, 10);
    assert_eq!(plan.timeout_ms, Some(30000));
}

#[test]
fn compression_off_accepts_identity_only() {
    let plan = plan_request(&RequestConfig::new("http://h/").compression(false)).unwrap();
    assert_eq!(plan.headers, pairs(&[("Accept-Encoding", "identity")]));
    let plan = plan_request(
        &RequestConfig::new("http://h/").compression(false).header("ACCEPT-ENCODING", "br"),
    )
    .unwrap();
    assert_eq!(plan.headers, pairs(&[("ACCEPT-ENCODING", "br")]));
    let plan = plan_request(&RequestConfig::new("http://h/")).unwrap();
    assert!(plan.headers.is_empty());
}

#[test]
fn verbose_echoes_request_and_response() {
    let config = RequestConfig::new("http://h/x").header("A", "1").verbose(true);
    let plan = plan_request(&config).unwrap();
    assert_eq!(plan.echo, Some("> GET http://h/x\n> A: 1\n>\n".to_string()));
    let raw = pairs(&[("Server", "t")]);
    let done = complete_exchange(&config, 200, "OK", &raw, "hi");
    assert_eq!(done.echo, Some("< HTTP/1.1 200 OK\n< server: t\n<\n".to_string()));
    assert!(done.saved.is_none());
}

#[test]
fn head_body_is_always_empty() {
    let config = RequestConfig::new("http://h/").method(HttpMethod::Head);
    let raw = pairs(&[("Content-Length", "1234")]);
    let done = complete_exchange(&config, 200, "OK", &raw, "not empty");
    assert_eq!(done.response.status, 200);
    assert!(done.response.body.is_empty());
    assert_eq!(done.response.get_header("content-length"), Some(&"1234".to_string()));
}

#[test]
fn get_scenario_hello_world() {
    let config = RequestConfig::new("http://h/");
    let raw = pairs(&[("content-type", "text/plain")]);
    let done = complete_exchange(&config, 200, "OK", &raw, "Hello, World!");
    assert_eq!(done.response.status, 200);
    assert!(done.response.is_success());
    assert_eq!(done.response.body, "Hello, World!");
    assert_eq!(done.response.get_header("Content-Type"), Some(&"text/plain".to_string()));
}

#[test]
fn saved_file_with_headers() {
    let config = RequestConfig::new("http://h/").output_file("out.txt").include_headers(true);
    let raw = pairs(&[("Content-Type", "text/plain"), ("X-Id", "7")]);
    let done = complete_exchange(&config, 200, "OK", &raw, "File content here");
    assert_eq!(
        done.saved,
        Some("HTTP/1.1 200 OK\ncontent-type: text/plain\nx-id: 7\n\nFile content here".to_string())
    );
}

#[test]
fn saved_file_body_only() {
    let config = RequestConfig::new("http://h/").output_file("out.txt");
    let raw = pairs(&[("Content-Type", "text/plain")]);
    let done = complete_exchange(&config, 404, "Not Found", &raw, "File content here");
    assert_eq!(done.saved, Some("File content here".to_string()));
    assert!(!done.response.is_success());
}

#[test]
fn header_block_and_saved_output() {
    let raw = pairs(&[("A", "1")]);
    let response = CurlResponse::new(201, "Created", &raw, "body");
    assert_eq!(header_text(&response), "HTTP/1.1 201 Created\na: 1\n\n");
    assert_eq!(saved_output(&response, true), "HTTP/1.1 201 Created\na: 1\n\nbody");
    assert_eq!(saved_output(&response, false), "body");
}

#[test]
fn error_messages() {
    let cases = [
        (CurlError::RequestError("timed out".to_string()), "HTTP request failed: timed out"),
        (CurlError::InvalidHeader("x".to_string()), "Invalid header format: x"),
        (CurlError::IoError("denied".to_string()), "IO error: denied"),
        (CurlError::InvalidUrl("empty".to_string()), "Invalid URL: empty"),
        (CurlError::WorkerFailed("panic".to_string()), "Worker failed: panic"),
    ];
    for (e, m) in cases {
        assert_eq!(e.message(), m);
    }
}
