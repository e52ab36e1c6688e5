//! HTTP methods and their names.
use vstd::prelude::*;
use crate::text::{push_text, same_text, to_upper, upper_of};

verus! {

/// The HTTP methods this client can send.
#[derive(Debug, Clone, Copy, PartialEq, Eq, Structural)]
pub enum HttpMethod {
    Get,
    Post,
    Put,
    Delete,
    Head,
    Patch,
}

/// The request-line name of a method.
pub open spec fn method_name(m: HttpMethod) -> Seq<char> {
    match m {
        HttpMethod::Get => "GET"@,
        HttpMethod::Post => "POST"@,
        HttpMethod::Put => "PUT"@,
        HttpMethod::Delete => "DELETE"@,
        HttpMethod::Head => "HEAD"@,
        HttpMethod::Patch => "PATCH"@,
    }
}

impl HttpMethod {
    /// The name of the method as it appears on the request line.
    pub fn as_str(&self) -> (r: &'static str)
        ensures
            r@ == method_name(*self),
    {
        match self {
            HttpMethod::Get => "GET",
            HttpMethod::Post => "POST",
            HttpMethod::Put => "PUT",
            HttpMethod::Delete => "DELETE",
            HttpMethod::Head => "HEAD",
            HttpMethod::Patch => "PATCH",
        }
    }
}

} // verus!

verus! {

/// The method whose name is `s`, if any.
pub open spec fn method_named(s: Seq<char>) -> Option<HttpMethod> {
    if s == "GET"@ {
        Some(HttpMethod::Get)
    } else if s == "POST"@ {
        Some(HttpMethod::Post)
    } else if s == "PUT"@ {
        Some(HttpMethod::Put)
    } else if s == "DELETE"@ {
        Some(HttpMethod::Delete)
    } else if s == "HEAD"@ {
        Some(HttpMethod::Head)
    } else if s == "PATCH"@ {
        Some(HttpMethod::Patch)
    } else {
        None
    }
}

/// The message for a method name that is not known.
pub open spec fn unknown_method_message(s: Seq<char>) -> Seq<char> {
    "Unknown HTTP method: "@ + s
}

/// Reads a method name in any letter case.
pub fn parse_method(method: &str) -> (r: Result<HttpMethod, String>)
    ensures
        match method_named(upper_of(method@)) {
            Some(m) => r == Ok::<HttpMethod, String>(m),
            None => r matches Err(e) && e@ == unknown_method_message(method@),
        },
{
    let upper = to_upper(method);
    let name = upper.as_str();
    if same_text(name, "GET") {
        Ok(HttpMethod::Get)
    } else if same_text(name, "POST") {
        Ok(HttpMethod::Post)
    } else if same_text(name, "PUT") {
        Ok(HttpMethod::Put)
    } else if same_text(name, "DELETE") {
        Ok(HttpMethod::Delete)
    } else if same_text(name, "HEAD") {
        Ok(HttpMethod::Head)
    } else if same_text(name, "PATCH") {
        Ok(HttpMethod::Patch)
    } else {
        let mut e = String::from_str("Unknown HTTP method: ");
        push_text(&mut e, method);
        Err(e)
    }
}

} // verus!

verus! {

/// The method of a batch: HEAD when only headers are asked for, else the
/// named method.
pub fn resolve_method(head_only: bool, name: &str) -> (r: Result<HttpMethod, String>)
    ensures
        head_only ==> r == Ok::<HttpMethod, String>(HttpMethod::Head),
        !head_only ==> match method_named(upper_of(name@)) {
            Some(m) => r == Ok::<HttpMethod, String>(m),
            None => r matches Err(e) && e@ == unknown_method_message(name@),
        },
{
    if head_only {
        Ok(HttpMethod::Head)
    } else {
        parse_method(name)
    }
}

} // verus!
