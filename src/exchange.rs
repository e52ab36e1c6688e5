//! One exchange with a server: what is checked and decided before the
//! round trip, and what is made of the answer after it.
use vstd::prelude::*;
use crate::config::{ConfigView, RequestConfig};
use crate::error::CurlError;
use crate::header::{
    is_table_of, is_valid_name, is_valid_value, normalized, valid_name, valid_value, HeaderSeq,
};
use crate::method::{method_name, HttpMethod};
use crate::response::CurlResponse;
use crate::text::{decimal, lower_of, push_decimal, push_text, same_text, to_lower};

verus! {

/// How many redirects are followed when following is on.
pub const MAX_REDIRECTS: u32 = 10;

/// A header that may be sent as it is.
pub open spec fn header_ok(p: (Seq<char>, Seq<char>)) -> bool {
    valid_name(p.0) && valid_value(p.1)
}

/// `j` is the first header of `h` that may not be sent.
pub open spec fn first_invalid(h: HeaderSeq, j: int) -> bool {
    0 <= j < h.len() && !header_ok(h[j]) && forall|k: int| 0 <= k < j ==> header_ok(h[k])
}

/// The detail of the error for a header that may not be sent.
pub open spec fn invalid_header_detail(p: (Seq<char>, Seq<char>)) -> Seq<char> {
    "invalid header '"@ + p.0 + ": "@ + p.1 + "'"@
}

/// One of the headers names the encodings the client accepts.
pub open spec fn names_encoding(h: HeaderSeq) -> bool {
    exists|i: int| 0 <= i < h.len() && lower_of(#[trigger] h[i].0) == "accept-encoding"@
}

/// The headers sent: those configured and, when compression is off and
/// none of them names the accepted encodings, one that accepts none.
pub open spec fn sent_headers(h: HeaderSeq, compression: bool) -> HeaderSeq {
    if !compression && !names_encoding(h) {
        h.push(("Accept-Encoding"@, "identity"@))
    } else {
        h
    }
}

/// Header lines `prefix name: value`, one per entry, in order.
pub open spec fn header_lines(prefix: Seq<char>, h: HeaderSeq) -> Seq<char>
    decreases h.len(),
{
    if h.len() == 0 {
        Seq::empty()
    } else {
        header_lines(prefix, h.drop_last()) + prefix + h.last().0 + ": "@ + h.last().1 + "\n"@
    }
}

/// The echo of a request on the diagnostic stream.
pub open spec fn request_echo(c: ConfigView) -> Seq<char> {
    "> "@ + method_name(c.method) + " "@ + c.url + "\n"@ + header_lines("> "@, c.headers) + ">\n"@
}

/// `HTTP/1.1 <code> <text>`.
pub open spec fn status_line(status: u16, text: Seq<char>) -> Seq<char> {
    "HTTP/1.1 "@ + decimal(status as nat) + " "@ + text
}

/// The echo of a response on the diagnostic stream.
pub open spec fn response_echo(status: u16, text: Seq<char>, table: HeaderSeq) -> Seq<char> {
    "< "@ + status_line(status, text) + "\n"@ + header_lines("< "@, table) + "<\n"@
}

/// The status line, one line per header, and a blank line.
pub open spec fn header_block(status: u16, text: Seq<char>, table: HeaderSeq) -> Seq<char> {
    status_line(status, text) + "\n"@ + header_lines(Seq::empty(), table) + "\n"@
}

/// What is saved of a response: its body, after its header block when
/// headers are asked for.
pub open spec fn saved_text(
    status: u16,
    text: Seq<char>,
    table: HeaderSeq,
    body: Seq<char>,
    with_headers: bool,
) -> Seq<char> {
    if with_headers {
        header_block(status, text, table) + body
    } else {
        body
    }
}

/// What the transport is asked to do for one request.
pub struct RequestPlan {
    pub method: HttpMethod,
    pub url: String,
    /// The headers to send, in order.
    pub headers: Vec<(String, String)>,
    pub body: Option<String>,
    pub timeout_ms: Option<u64>,
    pub max_redirects: u32,
    /// Whether the response body is read; it is not for HEAD.
    pub read_body: bool,
    /// The text to echo before sending, when verbose.
    pub echo: Option<String>,
}

/// `p` is the plan for a request described by `c`.
pub open spec fn plans(p: RequestPlan, c: ConfigView) -> bool {
    &&& p.method == c.method
    &&& p.url@ == c.url
    &&& p.headers.deep_view() == sent_headers(c.headers, c.compression)
    &&& p.body.deep_view() == c.data
    &&& p.timeout_ms == c.timeout_ms
    &&& p.max_redirects == if c.follow_redirects {
        MAX_REDIRECTS
    } else {
        0
    }
    &&& p.read_body == (c.method != HttpMethod::Head)
    &&& p.echo.deep_view() == if c.verbose {
        Some(request_echo(c))
    } else {
        None
    }
}

/// Appends one line `prefix name: value` per entry of `table`.
fn push_header_lines(out: &mut String, prefix: &str, table: &Vec<(String, String)>)
    ensures
        final(out)@ == old(out)@ + header_lines(prefix@, table.deep_view()),
{
    let ghost h = table.deep_view();
    let mut i: usize = 0;
    assert(h.subrange(0, 0) =~= Seq::<(Seq<char>, Seq<char>)>::empty());
    assert(out@ =~= old(out)@ + header_lines(prefix@, h.subrange(0, 0)));
    while i < table.len()
        invariant
            i <= table@.len(),
            h == table.deep_view(),
            out@ == old(out)@ + header_lines(prefix@, h.subrange(0, i as int)),
        decreases table@.len() - i,
    {
        let ghost before = out@;
        push_text(out, prefix);
        push_text(out, table[i].0.as_str());
        push_text(out, ": ");
        push_text(out, table[i].1.as_str());
        push_text(out, "\n");
        assert(h.subrange(0, i + 1).drop_last() =~= h.subrange(0, i as int));
        assert(out@ =~= before + prefix@ + h[i as int].0 + ": "@ + h[i as int].1 + "\n"@);
        i += 1;
    }
    assert(h.subrange(0, table@.len() as int) =~= h);
}

/// Appends `HTTP/1.1 <code> <text>`.
fn push_status_line(out: &mut String, status: u16, text: &str)
    ensures
        final(out)@ == old(out)@ + status_line(status, text@),
{
    let ghost before = out@;
    push_text(out, "HTTP/1.1 ");
    push_decimal(out, status as u128);
    push_text(out, " ");
    push_text(out, text);
    assert(out@ =~= before + status_line(status, text@));
}

/// The echo of a request.
fn echo_request(config: &RequestConfig) -> (r: String)
    ensures
        r@ == request_echo(config@),
{
    let mut r = String::from_str("> ");
    push_text(&mut r, config.method.as_str());
    push_text(&mut r, " ");
    push_text(&mut r, config.url.as_str());
    push_text(&mut r, "\n");
    push_header_lines(&mut r, "> ", &config.headers);
    push_text(&mut r, ">\n");
    assert(r@ =~= request_echo(config@));
    r
}

/// Whether one of `headers` names the accepted encodings.
fn has_encoding_header(headers: &Vec<(String, String)>) -> (r: bool)
    ensures
        r == names_encoding(headers.deep_view()),
{
    let mut i: usize = 0;
    while i < headers.len()
        invariant
            i <= headers@.len(),
            forall|k: int|
                0 <= k < i ==> lower_of(#[trigger] headers.deep_view()[k].0)
                    != "accept-encoding"@,
        decreases headers@.len() - i,
    {
        let name = to_lower(headers[i].0.as_str());
        if same_text(name.as_str(), "accept-encoding") {
            assert(lower_of(headers.deep_view()[i as int].0) == "accept-encoding"@);
            return true;
        }
        i += 1;
    }
    false
}

/// A copy of a header list.
pub(crate) fn copy_headers(headers: &Vec<(String, String)>) -> (r: Vec<(String, String)>)
    ensures
        r.deep_view() == headers.deep_view(),
{
    let mut r: Vec<(String, String)> = Vec::new();
    let mut i: usize = 0;
    while i < headers.len()
        invariant
            i <= headers@.len(),
            r.deep_view() == headers.deep_view().subrange(0, i as int),
        decreases headers@.len() - i,
    {
        let name = headers[i].0.clone();
        let value = headers[i].1.clone();
        let ghost before = r.deep_view();
        r.push((name, value));
        assert(r.deep_view() =~= before.push(headers.deep_view()[i as int]));
        assert(headers.deep_view().subrange(0, i + 1) =~= headers.deep_view().subrange(
            0,
            i as int,
        ).push(headers.deep_view()[i as int]));
        i += 1;
    }
    assert(headers.deep_view().subrange(0, headers@.len() as int) =~= headers.deep_view());
    r
}

/// Checks a request before anything is sent and decides how it is sent.
/// An empty URL, then the first header that may not be sent, is an error.
pub fn plan_request(config: &RequestConfig) -> (r: Result<RequestPlan, CurlError>)
    ensures
        config@.url.len() == 0 ==> (r matches Err(CurlError::InvalidUrl(m)) && m@
            == "URL cannot be empty"@),
        config@.url.len() > 0 ==> forall|j: int|
            first_invalid(config@.headers, j) ==> (r matches Err(CurlError::InvalidHeader(m))
                && m@ == invalid_header_detail(config@.headers[j])),
        r is Ok <==> config@.url.len() > 0 && forall|j: int|
            0 <= j < config@.headers.len() ==> header_ok(#[trigger] config@.headers[j]),
        r matches Ok(p) ==> plans(p, config@),
{
    if config.url.as_str().unicode_len() == 0 {
        return Err(CurlError::InvalidUrl(String::from_str("URL cannot be empty")));
    }
    let ghost h = config@.headers;
    let mut i: usize = 0;
    while i < config.headers.len()
        invariant
            config@.url.len() > 0,
            i <= config.headers@.len(),
            h == config@.headers,
            forall|k: int| 0 <= k < i ==> header_ok(#[trigger] h[k]),
        decreases config.headers@.len() - i,
    {
        let name = config.headers[i].0.as_str();
        let value = config.headers[i].1.as_str();
        if !(is_valid_name(name) && is_valid_value(value)) {
            assert(first_invalid(h, i as int));
            assert forall|j: int| first_invalid(h, j) implies j == i by {
                if j < i {
                    assert(header_ok(h[j]));
                } else if j > i {
                    assert(header_ok(h[i as int]));
                }
            }
            let mut detail = String::from_str("invalid header '");
            push_text(&mut detail, name);
            push_text(&mut detail, ": ");
            push_text(&mut detail, value);
            push_text(&mut detail, "'");
            assert(detail@ =~= invalid_header_detail(h[i as int]));
            return Err(CurlError::InvalidHeader(detail));
        }
        i += 1;
    }
    assert(forall|j: int| !first_invalid(h, j));
    let mut headers = copy_headers(&config.headers);
    if !config.compression && !has_encoding_header(&config.headers) {
        headers.push((String::from_str("Accept-Encoding"), String::from_str("identity")));
        assert(headers.deep_view() =~= h.push(("Accept-Encoding"@, "identity"@)));
    }
    let body = match &config.data {
        Some(d) => Some(d.clone()),
        None => None,
    };
    let echo = if config.verbose {
        Some(echo_request(config))
    } else {
        None
    };
    Ok(
        RequestPlan {
            method: config.method,
            url: config.url.clone(),
            headers,
            body,
            timeout_ms: config.timeout_ms,
            max_redirects: if config.follow_redirects {
                MAX_REDIRECTS
            } else {
                0
            },
            read_body: config.method != HttpMethod::Head,
            echo,
        },
    )
}

/// The status line and headers of a response, then a blank line.
pub fn header_text(response: &CurlResponse) -> (r: String)
    ensures
        r@ == header_block(response.status, response.status_text@, response.headers.deep_view()),
{
    proof {
        reveal_strlit("");
        assert(""@ =~= Seq::<char>::empty());
    }
    let mut r = String::new();
    push_status_line(&mut r, response.status, response.status_text.as_str());
    push_text(&mut r, "\n");
    push_header_lines(&mut r, "", &response.headers);
    push_text(&mut r, "\n");
    assert(r@ =~= header_block(response.status, response.status_text@, response.headers.deep_view()));
    r
}

/// What is saved of a response: its body, after its header block when
/// `with_headers` is set.
pub fn saved_output(response: &CurlResponse, with_headers: bool) -> (r: String)
    ensures
        r@ == saved_text(
            response.status,
            response.status_text@,
            response.headers.deep_view(),
            response.body@,
            with_headers,
        ),
{
    if with_headers {
        let mut r = header_text(response);
        push_text(&mut r, response.body.as_str());
        r
    } else {
        String::from_str(response.body.as_str())
    }
}

/// What comes of an answered request: the response, the echo to show
/// when verbose, and the text to save when an output file is set.
pub struct Exchange {
    pub response: CurlResponse,
    pub echo: Option<String>,
    pub saved: Option<String>,
}

/// Makes the response of a request described by `config` from what the
/// server sent. The body of a HEAD response is always empty.
pub fn complete_exchange(
    config: &RequestConfig,
    status: u16,
    status_text: &str,
    raw_headers: &Vec<(String, String)>,
    body: &str,
) -> (r: Exchange)
    ensures
        r.response.status == status,
        r.response.status_text@ == status_text@,
        r.response.headers.deep_view() == normalized(raw_headers.deep_view()),
        is_table_of(r.response.headers.deep_view(), raw_headers.deep_view()),
        r.response.body@ == if config.method == HttpMethod::Head {
            Seq::<char>::empty()
        } else {
            body@
        },
        r.echo.deep_view() == if config.verbose {
            Some(response_echo(status, status_text@, r.response.headers.deep_view()))
        } else {
            None
        },
        r.saved.deep_view() == if config.output_file is Some {
            Some(
                saved_text(
                    status,
                    status_text@,
                    r.response.headers.deep_view(),
                    r.response.body@,
                    config.include_headers,
                ),
            )
        } else {
            None
        },
{
    let kept = if config.method == HttpMethod::Head {
        ""
    } else {
        body
    };
    proof {
        reveal_strlit("");
    }
    let response = CurlResponse::new(status, status_text, raw_headers, kept);
    let echo = if config.verbose {
        let mut e = String::from_str("< ");
        push_status_line(&mut e, status, status_text);
        push_text(&mut e, "\n");
        push_header_lines(&mut e, "< ", &response.headers);
        push_text(&mut e, "<\n");
        assert(e@ =~= response_echo(status, status_text@, response.headers.deep_view()));
        Some(e)
    } else {
        None
    };
    let saved = match &config.output_file {
        Some(_) => Some(saved_output(&response, config.include_headers)),
        None => None,
    };
    Exchange { response, echo, saved }
}

} // verus!
