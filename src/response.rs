//! A received response.
use vstd::prelude::*;
use crate::header::{
    find_header, is_table_of, lemma_normalized_is_table, lookup, normalize_headers, normalized,
};
use crate::text::{lower_of, to_lower};

verus! {

/// What a server sent back.
#[derive(Debug)]
pub struct CurlResponse {
    pub status: u16,
    pub status_text: String,
    /// Lowercase names, each once, with the last value received under it
    /// (`is_table_of` the received headers when built by `new`).
    pub headers: Vec<(String, String)>,
    pub body: String,
}

impl CurlResponse {
    /// A response from what was received; header names are lowercased and
    /// the last value received under a name wins.
    pub fn new(status: u16, status_text: &str, raw_headers: &Vec<(String, String)>, body: &str) -> (r:
        Self)
        ensures
            r.status == status,
            r.status_text@ == status_text@,
            r.headers.deep_view() == normalized(raw_headers.deep_view()),
            is_table_of(r.headers.deep_view(), raw_headers.deep_view()),
            r.body@ == body@,
    {
        proof {
            lemma_normalized_is_table(raw_headers.deep_view());
        }
        CurlResponse {
            status,
            status_text: String::from_str(status_text),
            headers: normalize_headers(raw_headers),
            body: String::from_str(body),
        }
    }

    /// Whether the status is in the 2xx range.
    pub fn is_success(&self) -> (r: bool)
        ensures
            r == (200 <= self.status < 300),
    {
        200 <= self.status && self.status < 300
    }

    /// The value of a header, whatever the letter case of `name`.
    pub fn get_header(&self, name: &str) -> (r: Option<&String>)
        ensures
            match r {
                Some(v) => lookup(self.headers.deep_view(), lower_of(name@)) == Some(v@),
                None => lookup(self.headers.deep_view(), lower_of(name@)) is None,
            },
    {
        let key = to_lower(name);
        match find_header(&self.headers, key.as_str()) {
            Some(j) => {
                proof {
                    crate::header::lemma_lookup_at(self.headers.deep_view(), key@, j as int);
                }
                Some(&self.headers[j].1)
            },
            None => {
                proof {
                    crate::header::lemma_lookup_absent(self.headers.deep_view(), key@);
                }
                None
            },
        }
    }
}

} // verus!
