//! The errors a request can end in.
use vstd::prelude::*;
use crate::text::push_text;

verus! {

/// Why a request produced no response.
#[derive(Debug)]
pub enum CurlError {
    /// The transport failed: DNS, connect, TLS, timeout or protocol.
    RequestError(String),
    /// A header is malformed, in its text or in its name or value.
    InvalidHeader(String),
    /// The output file could not be written.
    IoError(String),
    /// The URL is missing.
    InvalidUrl(String),
    /// The worker that ran the request stopped before it reported.
    WorkerFailed(String),
}

/// The one-line message that describes an error.
pub open spec fn error_message(e: CurlError) -> Seq<char> {
    match e {
        CurlError::RequestError(m) => "HTTP request failed: "@ + m@,
        CurlError::InvalidHeader(m) => "Invalid header format: "@ + m@,
        CurlError::IoError(m) => "IO error: "@ + m@,
        CurlError::InvalidUrl(m) => "Invalid URL: "@ + m@,
        CurlError::WorkerFailed(m) => "Worker failed: "@ + m@,
    }
}

impl CurlError {
    /// The message that describes this error.
    pub fn message(&self) -> (r: String)
        ensures
            r@ == error_message(*self),
    {
        let (prefix, detail) = match self {
            CurlError::RequestError(m) => ("HTTP request failed: ", m),
            CurlError::InvalidHeader(m) => ("Invalid header format: ", m),
            CurlError::IoError(m) => ("IO error: ", m),
            CurlError::InvalidUrl(m) => ("Invalid URL: ", m),
            CurlError::WorkerFailed(m) => ("Worker failed: ", m),
        };
        let mut r = String::from_str(prefix);
        push_text(&mut r, detail.as_str());
        r
    }
}

} // verus!
