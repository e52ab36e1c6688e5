use bcurl::{
    all_succeeded, batch_urls, config_for_url, exit_status, order_outcomes, parallel_report,
    parse_method, plan_request, resolve_method, runs_in_parallel, sequential_report,
    total_time_line, BatchOptions, CurlError, CurlResponse, HttpMethod, Outcome, SequentialRun,
};

fn options() -> BatchOptions {
    BatchOptions {
        method: HttpMethod::Get,
        headers: Vec::new(),
        data: None,
        timeout_secs: 30,
        follow_redirects: true,
        compression: true,
        verbose: false,
        include_headers: false,
        head_only: false,
        output: None,
        silent: false,
        timing: false,
    }
}

fn ok(status: u16, text: &str, body: &str) -> Result<CurlResponse, CurlError> {
    Ok(CurlResponse::new(status, text, &Vec::new(), body))
}

fn outcome(index: usize, url: &str, body: &str) -> Outcome {
    Outcome { index, url: url.to_string(), result: ok(200, "OK", body), elapsed_us: 0 }
}

#[test]
fn sequential_failure_does_not_stop_the_batch() {
    let urls = vec!["A".to_string(), "B".to_string()];
    let mut run = SequentialRun::new(options(), urls);
    let mut out = String::new();
    let mut err = String::new();

    let first = run.next_request().unwrap();
    assert_eq!(first.url, "A");
    let failed: Result<CurlResponse, CurlError> =
        Err(CurlError::RequestError("connection refused".to_string()));
    let report = run.record(&failed, 10);
    out.push_str(&report.out);
    err.push_str(&report.err);
    assert!(!run.all_success());
    assert!(!run.is_finished());

    let second = run.next_request().unwrap();
    assert_eq!(second.url, "B");
    let report = run.record(&ok(200, "OK", "from B"), 10);
    out.push_str(&report.out);
    err.push_str(&report.err);

    assert!(run.is_finished());
    assert!(run.next_request().is_none());
    assert!(!run.all_success());
    assert_eq!(out, "=== B ===\nfrom B\n");
    assert_eq!(err, "Error fetching A: HTTP request failed: connection refused\n");
    assert_eq!(exit_status(run.all_success()), 22);
}

#[test]
fn sequential_output_in_input_order() {
    let urls = vec!["A".to_string(), "B".to_string()];
    let mut opts = options();
    opts.include_headers = true;
    let mut run = SequentialRun::new(opts, urls);
    let mut out = String::new();
    while let Some(config) = run.next_request() {
        let body = format!("body of {}", config.url);
        out.push_str(&run.record(&ok(200, "OK", &body), 0).out);
    }
    assert!(run.all_success());
    assert_eq!(
        out,
        "=== A ===\nHTTP/1.1 200 OK\n\nbody of A\n=== B ===\nHTTP/1.1 200 OK\n\nbody of B\n"
    );
    assert_eq!(exit_status(run.all_success()), 0);
}

#[test]
fn post_single_url_batch_succeeds() {
    let mut opts = options();
    opts.method = HttpMethod::Post;
    opts.data = Some(r#"{"name": "test"}"#.to_string());
    let mut run = SequentialRun::new(opts, vec!["http://h/api/data".to_string()]);
    let config = run.next_request().unwrap();
    let plan = plan_request(&config).unwrap();
    assert_eq!(plan.method, HttpMethod::Post);
    assert_eq!(plan.body, Some(r#"{"name": "test"}"#.to_string()));
    let report = run.record(&ok(201, "Created", r#"{"id": 1, "name": "test"}"#), 0);
    assert_eq!(report.out, r#"{"id": 1, "name": "test"}"#);
    assert!(run.all_success());
    assert_eq!(exit_status(run.all_success()), 0);
}

#[test]
fn single_url_output_file_keeps_body_off_stdout() {
    let mut opts = options();
    opts.output = Some("out.txt".to_string());
    let report = sequential_report(&opts, 1, 0, "http://h/", &ok(200, "OK", "saved body"), 0);
    assert_eq!(report.out, "");

    opts.include_headers = true;
    let report = sequential_report(&opts, 1, 0, "http://h/", &ok(200, "OK", "saved body"), 0);
    assert_eq!(report.out, "");

    let mut opts = options();
    opts.output = Some("out.txt".to_string());
    opts.head_only = true;
    let report = sequential_report(&opts, 1, 0, "http://h/", &ok(200, "OK", ""), 0);
    assert_eq!(report.out, "HTTP/1.1 200 OK\n\n");
}

#[test]
fn several_urls_ignore_output_file_and_print_bodies() {
    let mut opts = options();
    opts.output = Some("out.txt".to_string());
    assert_eq!(config_for_url(&opts, "http://h/", 2).output_file, None);
    let report = sequential_report(&opts, 2, 0, "http://h/", &ok(200, "OK", "x"), 0);
    assert_eq!(report.out, "=== http://h/ ===\nx\n");
}

#[test]
fn timing_line_rounds_to_hundredths() {
    let mut opts = options();
    opts.timing = true;
    let report = sequential_report(&opts, 1, 0, "http://h/", &ok(200, "OK", "b"), 12345);
    assert_eq!(report.out, "b");
    assert_eq!(report.err, "[1] http://h/ - 200 OK - 12.35ms\n");
    let report = sequential_report(&opts, 1, 4, "u", &ok(503, "Service Unavailable", ""), 4);
    assert_eq!(report.err, "[5] u - 503 Service Unavailable - 0.00ms\n");
    assert_eq!(total_time_line(1_000_000), "\nTotal time: 1000.00ms (parallel execution)\n");
}

#[test]
fn silent_keeps_errors_quiet() {
    let mut opts = options();
    opts.silent = true;
    let failed: Result<CurlResponse, CurlError> = Err(CurlError::InvalidUrl("x".to_string()));
    let report = sequential_report(&opts, 1, 0, "", &failed, 0);
    assert_eq!(report.out, "");
    assert_eq!(report.err, "");
}

#[test]
fn parallel_results_follow_input_order() {
    let finished = vec![outcome(2, "C", "c"), outcome(0, "A", "a"), outcome(1, "B", "b")];
    let ordered = order_outcomes(finished);
    let urls: Vec<&str> = ordered.iter().map(|o| o.url.as_str()).collect();
    assert_eq!(urls, vec!["A", "B", "C"]);
    let opts = options();
    let out: String = ordered.iter().map(|o| parallel_report(&opts, o).out).collect();
    assert_eq!(out, "=== A ===\na\n=== B ===\nb\n=== C ===\nc\n");
    assert!(all_succeeded(&ordered));
}

#[test]
fn parallel_failure_is_reported_for_its_url() {
    let mut finished = vec![outcome(1, "B", "b"), outcome(0, "A", "a")];
    finished.push(Outcome {
        index: 2,
        url: "C".to_string(),
        result: Err(CurlError::WorkerFailed("worker panicked".to_string())),
        elapsed_us: 0,
    });
    let ordered = order_outcomes(finished);
    assert!(!all_succeeded(&ordered));
    let report = parallel_report(&options(), &ordered[2]);
    assert_eq!(report.out, "");
    assert_eq!(report.err, "Error fetching C: Worker failed: worker panicked\n");
    let mut opts = options();
    opts.head_only = true;
    let report = parallel_report(&opts, &ordered[0]);
    assert_eq!(report.out, "=== A ===\nHTTP/1.1 200 OK\n\n");
}

#[test]
fn non_2xx_fails_the_aggregate() {
    let outcomes = vec![
        outcome(0, "A", "a"),
        Outcome { index: 1, url: "B".to_string(), result: ok(404, "Not Found", ""), elapsed_us: 0 },
    ];
    assert!(!all_succeeded(&outcomes));
    assert!(all_succeeded(&Vec::new()));
}

#[test]
fn per_url_config_shares_settings() {
    let mut opts = options();
    opts.headers = vec![("X-A".to_string(), "1".to_string())];
    opts.output = Some("out.txt".to_string());
    opts.include_headers = true;
    opts.compression = false;
    let one = config_for_url(&opts, "http://h/1", 1);
    assert_eq!(one.url, "http://h/1");
    assert_eq!(one.headers, opts.headers);
    assert_eq!(one.output_file, Some("out.txt".to_string()));
    assert_eq!(one.timeout_ms, Some(30000));
    assert!(one.include_headers);
    assert!(!one.compression);
    let many = config_for_url(&opts, "http://h/2", 3);
    assert_eq!(many.output_file, None);
    opts.timeout_secs = u64::MAX;
    assert_eq!(config_for_url(&opts, "u", 1).timeout_ms, Some(u64::MAX));
}

#[test]
fn batch_file_lines() {
    let lines: Vec<String> = ["  http://a  ", "", "# comment", "   # indented", "\thttp://b", "   "]
        .iter()
        .map(|s| s.to_string())
        .collect();
    assert_eq!(batch_urls(&lines), vec!["http://a".to_string(), "http://b".to_string()]);
}

#[test]
fn method_names() {
    assert_eq!(parse_method("patch"), Ok(HttpMethod::Patch));
    assert_eq!(parse_method("Delete"), Ok(HttpMethod::Delete));
    assert_eq!(parse_method("GET"), Ok(HttpMethod::Get));
    assert_eq!(parse_method("fetch"), Err("Unknown HTTP method: fetch".to_string()));
    assert_eq!(resolve_method(true, "POST"), Ok(HttpMethod::Head));
    assert_eq!(resolve_method(false, "post"), Ok(HttpMethod::Post));
}

#[test]
fn parallel_only_for_several_urls() {
    assert!(runs_in_parallel(true, 2));
    assert!(!runs_in_parallel(true, 1));
    assert!(!runs_in_parallel(false, 5));
}
