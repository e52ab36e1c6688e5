//! The description of one request, built step by step.
use vstd::prelude::*;
use crate::header::HeaderSeq;
use crate::method::HttpMethod;

verus! {

/// The timeout of a request unless another is set: thirty seconds.
pub const DEFAULT_TIMEOUT_MS: u64 = 30000;

/// Everything needed to send one request.
#[derive(Debug, Clone)]
pub struct RequestConfig {
    /// Where the request goes; it must not be empty when it is sent.
    pub url: String,
    pub method: HttpMethod,
    /// Headers to send, in order; a name may repeat.
    pub headers: Vec<(String, String)>,
    /// The body, sent when present.
    pub data: Option<String>,
    /// The limit on the whole round trip, in milliseconds.
    pub timeout_ms: Option<u64>,
    pub follow_redirects: bool,
    /// Whether compressed transfer is requested and accepted.
    pub compression: bool,
    /// Whether the exchange is echoed on the diagnostic stream.
    pub verbose: bool,
    /// Where to save the response, if anywhere.
    pub output_file: Option<String>,
    /// Whether the saved response starts with its status line and headers.
    pub include_headers: bool,
}

/// A request description with its text as characters.
pub struct ConfigView {
    pub url: Seq<char>,
    pub method: HttpMethod,
    pub headers: HeaderSeq,
    pub data: Option<Seq<char>>,
    pub timeout_ms: Option<u64>,
    pub follow_redirects: bool,
    pub compression: bool,
    pub verbose: bool,
    pub output_file: Option<Seq<char>>,
    pub include_headers: bool,
}

impl View for RequestConfig {
    type V = ConfigView;

    open spec fn view(&self) -> ConfigView {
        ConfigView {
            url: self.url@,
            method: self.method,
            headers: self.headers.deep_view(),
            data: self.data.deep_view(),
            timeout_ms: self.timeout_ms,
            follow_redirects: self.follow_redirects,
            compression: self.compression,
            verbose: self.verbose,
            output_file: self.output_file.deep_view(),
            include_headers: self.include_headers,
        }
    }
}

/// The defaults: no URL, GET, no headers or body, thirty seconds,
/// redirects followed, compression on, every other flag off.
pub open spec fn default_config() -> ConfigView {
    ConfigView {
        url: Seq::empty(),
        method: HttpMethod::Get,
        headers: Seq::empty(),
        data: None,
        timeout_ms: Some(DEFAULT_TIMEOUT_MS),
        follow_redirects: true,
        compression: true,
        verbose: false,
        output_file: None,
        include_headers: false,
    }
}

impl Default for RequestConfig {
    fn default() -> (r: Self)
        ensures
            r@ == default_config(),
    {
        let r = RequestConfig {
            url: String::new(),
            method: HttpMethod::Get,
            headers: Vec::new(),
            data: None,
            timeout_ms: Some(DEFAULT_TIMEOUT_MS),
            follow_redirects: true,
            compression: true,
            verbose: false,
            output_file: None,
            include_headers: false,
        };
        assert(r.headers.deep_view() =~= Seq::empty());
        r
    }
}

impl RequestConfig {
    /// The defaults, for `url`.
    pub fn new(url: &str) -> (r: Self)
        ensures
            r@ == (ConfigView { url: url@, ..default_config() }),
    {
        let mut r = RequestConfig::default();
        r.url = String::from_str(url);
        r
    }

    /// Sets the method.
    pub fn method(self, method: HttpMethod) -> (r: Self)
        ensures
            r@ == (ConfigView { method, ..self@ }),
    {
        let mut r = self;
        r.method = method;
        r
    }

    /// Adds a header after those already there.
    pub fn header(self, key: &str, value: &str) -> (r: Self)
        ensures
            r@ == (ConfigView { headers: self@.headers.push((key@, value@)), ..self@ }),
    {
        let mut r = self;
        r.headers.push((String::from_str(key), String::from_str(value)));
        assert(r.headers.deep_view() =~= self@.headers.push((key@, value@)));
        r
    }

    /// Sets the body.
    pub fn data(self, data: &str) -> (r: Self)
        ensures
            r@ == (ConfigView { data: Some(data@), ..self@ }),
    {
        let mut r = self;
        r.data = Some(String::from_str(data));
        r
    }

    /// Sets the timeout, in milliseconds.
    pub fn timeout(self, timeout_ms: u64) -> (r: Self)
        ensures
            r@ == (ConfigView { timeout_ms: Some(timeout_ms), ..self@ }),
    {
        let mut r = self;
        r.timeout_ms = Some(timeout_ms);
        r
    }

    /// Sets whether redirects are followed.
    pub fn follow_redirects(self, follow: bool) -> (r: Self)
        ensures
            r@ == (ConfigView { follow_redirects: follow, ..self@ }),
    {
        let mut r = self;
        r.follow_redirects = follow;
        r
    }

    /// Sets whether compressed transfer is requested.
    pub fn compression(self, compression: bool) -> (r: Self)
        ensures
            r@ == (ConfigView { compression, ..self@ }),
    {
        let mut r = self;
        r.compression = compression;
        r
    }

    /// Sets whether the exchange is echoed.
    pub fn verbose(self, verbose: bool) -> (r: Self)
        ensures
            r@ == (ConfigView { verbose, ..self@ }),
    {
        let mut r = self;
        r.verbose = verbose;
        r
    }

    /// Sets the file the response is saved to.
    pub fn output_file(self, path: &str) -> (r: Self)
        ensures
            r@ == (ConfigView { output_file: Some(path@), ..self@ }),
    {
        let mut r = self;
        r.output_file = Some(String::from_str(path));
        r
    }

    /// Sets whether the saved response starts with its status line and
    /// headers.
    pub fn include_headers(self, enabled: bool) -> (r: Self)
        ensures
            r@ == (ConfigView { include_headers: enabled, ..self@ }),
    {
        let mut r = self;
        r.include_headers = enabled;
        r
    }
}

} // verus!
