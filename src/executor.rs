//! Running a batch of URLs: the request made for each URL, what is
//! reported of each outcome, the order of the reports, and whether the
//! batch as a whole succeeded.
use vstd::prelude::*;
use vstd::multiset::Multiset;
use crate::config::{ConfigView, RequestConfig};
use crate::error::{error_message, CurlError};
use crate::exchange::{copy_headers, header_block, header_text};
use crate::method::HttpMethod;
use crate::response::CurlResponse;
use crate::text::{decimal, digit_char, digit_text, push_decimal, push_text};

verus! {

/// The settings every URL of a batch shares.
pub struct BatchOptions {
    pub method: HttpMethod,
    pub headers: Vec<(String, String)>,
    pub data: Option<String>,
    /// The limit on each request, in seconds.
    pub timeout_secs: u64,
    pub follow_redirects: bool,
    pub compression: bool,
    pub verbose: bool,
    /// Whether the status line and headers are shown (and saved).
    pub include_headers: bool,
    /// Whether only the status line and headers are shown.
    pub head_only: bool,
    /// Where a single URL's response is saved.
    pub output: Option<String>,
    /// Whether error messages are kept quiet.
    pub silent: bool,
    /// Whether each request's time is reported.
    pub timing: bool,
}

/// A number of seconds in milliseconds, at most `u64::MAX`.
pub open spec fn millis_of_secs(secs: u64) -> u64 {
    if secs <= u64::MAX / 1000 {
        (secs * 1000) as u64
    } else {
        u64::MAX
    }
}

/// The request for `url`, one of `count` URLs of a batch. Only a batch of
/// one URL saves to the output file: with more, each would overwrite it.
pub open spec fn url_config(opts: BatchOptions, url: Seq<char>, count: int) -> ConfigView {
    ConfigView {
        url,
        method: opts.method,
        headers: opts.headers.deep_view(),
        data: opts.data.deep_view(),
        timeout_ms: Some(millis_of_secs(opts.timeout_secs)),
        follow_redirects: opts.follow_redirects,
        compression: opts.compression,
        verbose: opts.verbose,
        output_file: if count == 1 {
            opts.output.deep_view()
        } else {
            None
        },
        include_headers: opts.include_headers,
    }
}

fn copy_text(s: &Option<String>) -> (r: Option<String>)
    ensures
        r.deep_view() == s.deep_view(),
{
    match s {
        Some(t) => Some(t.clone()),
        None => None,
    }
}

/// The request for `url`, one of `count` URLs of a batch.
pub fn config_for_url(opts: &BatchOptions, url: &str, count: usize) -> (r: RequestConfig)
    ensures
        r@ == url_config(*opts, url@, count as int),
{
    let timeout_ms = if opts.timeout_secs <= u64::MAX / 1000 {
        opts.timeout_secs * 1000
    } else {
        u64::MAX
    };
    RequestConfig {
        url: String::from_str(url),
        method: opts.method,
        headers: copy_headers(&opts.headers),
        data: copy_text(&opts.data),
        timeout_ms: Some(timeout_ms),
        follow_redirects: opts.follow_redirects,
        compression: opts.compression,
        verbose: opts.verbose,
        output_file: if count == 1 {
            copy_text(&opts.output)
        } else {
            None
        },
        include_headers: opts.include_headers,
    }
}

/// How one URL of a batch ended.
pub struct Outcome {
    /// The position of the URL in the batch.
    pub index: usize,
    pub url: String,
    pub result: Result<CurlResponse, CurlError>,
    /// How long the request took, in microseconds.
    pub elapsed_us: u64,
}

/// A request succeeded: a response came back, with a 2xx status.
pub open spec fn outcome_ok(result: Result<CurlResponse, CurlError>) -> bool {
    result matches Ok(resp) && 200 <= resp.status < 300
}

/// Whether a request succeeded.
pub fn succeeded(result: &Result<CurlResponse, CurlError>) -> (r: bool)
    ensures
        r == outcome_ok(*result),
{
    match result {
        Ok(resp) => resp.is_success(),
        Err(_) => false,
    }
}

/// What is written for one outcome, to standard output and to the
/// diagnostic stream.
pub struct Report {
    pub out: String,
    pub err: String,
}

/// `t` when `b` holds, else nothing.
pub open spec fn when(b: bool, t: Seq<char>) -> Seq<char> {
    if b {
        t
    } else {
        Seq::empty()
    }
}

/// The line that labels a URL's section.
pub open spec fn banner(url: Seq<char>) -> Seq<char> {
    "=== "@ + url + " ===\n"@
}

/// A duration in microseconds, rounded to hundredths of a millisecond.
pub open spec fn hundredths(us: u64) -> nat {
    (us / 10 + if us % 10 >= 5 {
        1int
    } else {
        0int
    }) as nat
}

/// A duration in milliseconds with two decimals.
pub open spec fn millis_text(us: u64) -> Seq<char> {
    decimal(hundredths(us) / 100) + "."@ + seq![
        digit_char((hundredths(us) % 100) / 10),
        digit_char(hundredths(us) % 10),
    ]
}

/// The timing line of a response: `[n] url - code text - t.ttms`.
pub open spec fn timing_line(index: int, url: Seq<char>, resp: CurlResponse, us: u64) -> Seq<char> {
    "["@ + decimal((index + 1) as nat) + "] "@ + url + " - "@ + decimal(resp.status as nat) + " "@
        + resp.status_text@ + " - "@ + millis_text(us) + "ms\n"@
}

/// The line that reports a failed request.
pub open spec fn failure_line(url: Seq<char>, e: CurlError) -> Seq<char> {
    "Error fetching "@ + url + ": "@ + error_message(e) + "\n"@
}

/// What goes to the diagnostic stream for an outcome: the timing line of
/// a response when timing is on, the failure line of an error unless
/// silent.
pub open spec fn outcome_err(
    opts: BatchOptions,
    index: int,
    url: Seq<char>,
    result: Result<CurlResponse, CurlError>,
    us: u64,
) -> Seq<char> {
    match result {
        Ok(resp) => when(opts.timing, timing_line(index, url, resp, us)),
        Err(e) => when(!opts.silent, failure_line(url, e)),
    }
}

/// The header block of a response.
pub open spec fn block_of(resp: CurlResponse) -> Seq<char> {
    header_block(resp.status, resp.status_text@, resp.headers.deep_view())
}

/// A batch of `count` URLs saves its one response to the output file.
pub open spec fn saves_to_file(opts: BatchOptions, count: int) -> bool {
    count == 1 && opts.output is Some
}

/// What a sequential batch of `count` URLs prints for a response: the
/// header block when asked for, then the body unless only headers are
/// shown. What goes to the output file is not printed: the body, and the
/// header block when headers are included. Sections are labelled, and
/// bodies end with a line break, only when there are several URLs.
pub open spec fn sequential_out(opts: BatchOptions, count: int, url: Seq<char>, result: Result<
    CurlResponse,
    CurlError,
>) -> Seq<char> {
    match result {
        Ok(resp) => when(
            (opts.include_headers || opts.head_only) && !(saves_to_file(opts, count)
                && opts.include_headers),
            when(count > 1, banner(url)) + block_of(resp),
        ) + when(
            !opts.head_only && !saves_to_file(opts, count),
            when(count > 1 && !opts.include_headers, banner(url)) + resp.body@ + when(
                count > 1,
                "\n"@,
            ),
        ),
        Err(_) => Seq::empty(),
    }
}

/// What a parallel batch prints for a response: as a sequential batch of
/// several URLs does, but every section is labelled and the output file is
/// not used.
pub open spec fn parallel_out(opts: BatchOptions, url: Seq<char>, result: Result<
    CurlResponse,
    CurlError,
>) -> Seq<char> {
    match result {
        Ok(resp) => when(opts.include_headers || opts.head_only, banner(url) + block_of(resp))
            + when(
            !opts.head_only,
            when(!opts.include_headers, banner(url)) + resp.body@ + "\n"@,
        ),
        Err(_) => Seq::empty(),
    }
}

/// Appends a duration in milliseconds with two decimals.
fn push_millis(out: &mut String, us: u64)
    ensures
        final(out)@ == old(out)@ + millis_text(us),
{
    let ghost before = out@;
    let h: u64 = us / 10 + if us % 10 >= 5 {
        1
    } else {
        0
    };
    assert(h == hundredths(us));
    push_decimal(out, (h / 100) as u128);
    push_text(out, ".");
    push_text(out, digit_text(((h % 100) / 10) as u128));
    push_text(out, digit_text((h % 10) as u128));
    assert(out@ =~= before + millis_text(us));
}

/// What goes to the diagnostic stream for an outcome.
fn report_err(
    opts: &BatchOptions,
    index: usize,
    url: &str,
    result: &Result<CurlResponse, CurlError>,
    us: u64,
) -> (r: String)
    ensures
        r@ == outcome_err(*opts, index as int, url@, *result, us),
{
    let mut r = String::new();
    match result {
        Ok(resp) => {
            if opts.timing {
                push_text(&mut r, "[");
                push_decimal(&mut r, index as u128 + 1);
                push_text(&mut r, "] ");
                push_text(&mut r, url);
                push_text(&mut r, " - ");
                push_decimal(&mut r, resp.status as u128);
                push_text(&mut r, " ");
                push_text(&mut r, resp.status_text.as_str());
                push_text(&mut r, " - ");
                push_millis(&mut r, us);
                push_text(&mut r, "ms\n");
                assert(r@ =~= timing_line(index as int, url@, *resp, us));
            }
        },
        Err(e) => {
            if !opts.silent {
                push_text(&mut r, "Error fetching ");
                push_text(&mut r, url);
                push_text(&mut r, ": ");
                let m = e.message();
                push_text(&mut r, m.as_str());
                push_text(&mut r, "\n");
                assert(r@ =~= failure_line(url@, *e));
            }
        },
    }
    r
}

/// Appends the label of a URL's section.
fn push_banner(out: &mut String, url: &str)
    ensures
        final(out)@ == old(out)@ + banner(url@),
{
    let ghost before = out@;
    push_text(out, "=== ");
    push_text(out, url);
    push_text(out, " ===\n");
    assert(out@ =~= before + banner(url@));
}

/// The report of one outcome of a sequential batch of `count` URLs.
pub fn sequential_report(
    opts: &BatchOptions,
    count: usize,
    index: usize,
    url: &str,
    result: &Result<CurlResponse, CurlError>,
    us: u64,
) -> (r: Report)
    ensures
        r.out@ == sequential_out(*opts, count as int, url@, *result),
        r.err@ == outcome_err(*opts, index as int, url@, *result, us),
{
    let mut out = String::new();
    if let Ok(resp) = result {
        let saved = count == 1 && opts.output.is_some();
        if (opts.include_headers || opts.head_only) && !(saved && opts.include_headers) {
            if count > 1 {
                push_banner(&mut out, url);
            }
            let block = header_text(resp);
            push_text(&mut out, block.as_str());
        }
        let ghost mid = out@;
        if !opts.head_only && !saved {
            if count > 1 && !opts.include_headers {
                push_banner(&mut out, url);
            }
            push_text(&mut out, resp.body.as_str());
            if count > 1 {
                push_text(&mut out, "\n");
            }
        }
        assert(mid =~= when(
            (opts.include_headers || opts.head_only) && !(saves_to_file(*opts, count as int)
                && opts.include_headers),
            when(count > 1, banner(url@)) + block_of(*resp),
        ));
        assert(out@ =~= sequential_out(*opts, count as int, url@, *result));
    }
    Report { out, err: report_err(opts, index, url, result, us) }
}

/// The report of one outcome of a parallel batch.
pub fn parallel_report(opts: &BatchOptions, outcome: &Outcome) -> (r: Report)
    ensures
        r.out@ == parallel_out(*opts, outcome.url@, outcome.result),
        r.err@ == outcome_err(
            *opts,
            outcome.index as int,
            outcome.url@,
            outcome.result,
            outcome.elapsed_us,
        ),
{
    let url = outcome.url.as_str();
    let mut out = String::new();
    if let Ok(resp) = &outcome.result {
        if opts.include_headers || opts.head_only {
            push_banner(&mut out, url);
            let block = header_text(resp);
            push_text(&mut out, block.as_str());
        }
        let ghost mid = out@;
        if !opts.head_only {
            if !opts.include_headers {
                push_banner(&mut out, url);
            }
            push_text(&mut out, resp.body.as_str());
            push_text(&mut out, "\n");
        }
        assert(mid =~= when(opts.include_headers || opts.head_only, banner(url@) + block_of(*resp)));
        assert(out@ =~= parallel_out(*opts, url@, outcome.result));
    }
    Report {
        out,
        err: report_err(opts, outcome.index, url, &outcome.result, outcome.elapsed_us),
    }
}

} // verus!

verus! {

/// How far a sequential batch has got.
struct Progress {
    next: usize,
    all_success: bool,
    seen: Ghost<Seq<bool>>,
}

/// A batch of URLs run one after another over one client, so that
/// connections are reused. Each URL is requested and reported before the
/// next begins; a failure does not stop the rest.
pub struct SequentialRun {
    options: BatchOptions,
    urls: Vec<String>,
    progress: Progress,
}

impl SequentialRun {
    #[verifier::type_invariant]
    spec fn inv(&self) -> bool {
        &&& self.progress.next <= self.urls@.len()
        &&& self.progress.seen@.len() == self.progress.next
        &&& self.progress.all_success == forall|i: int|
            0 <= i < self.progress.seen@.len() ==> self.progress.seen@[i]
    }

    /// The shared settings.
    pub closed spec fn options(&self) -> BatchOptions {
        self.options
    }

    /// The URLs, in order.
    pub closed spec fn urls(&self) -> Seq<Seq<char>> {
        self.urls.deep_view()
    }

    /// Whether each URL reported so far succeeded, in order.
    pub closed spec fn outcomes(&self) -> Seq<bool> {
        self.progress.seen@
    }

    /// A run over `urls` that has not started.
    pub fn new(options: BatchOptions, urls: Vec<String>) -> (r: Self)
        ensures
            r.options() == options,
            r.urls() == urls.deep_view(),
            r.outcomes() == Seq::<bool>::empty(),
    {
        SequentialRun {
            options,
            urls,
            progress: Progress { next: 0, all_success: true, seen: Ghost(Seq::empty()) },
        }
    }

    /// The request for the next URL, or none when every URL is reported.
    pub fn next_request(&self) -> (r: Option<RequestConfig>)
        ensures
            self.outcomes().len() <= self.urls().len(),
            self.outcomes().len() < self.urls().len() ==> (r matches Some(c) && c@ == url_config(
                self.options(),
                self.urls()[self.outcomes().len() as int],
                self.urls().len() as int,
            )),
            self.outcomes().len() == self.urls().len() ==> r is None,
    {
        proof {
            use_type_invariant(self);
        }
        let i = self.progress.next;
        if i < self.urls.len() {
            Some(config_for_url(&self.options, self.urls[i].as_str(), self.urls.len()))
        } else {
            None
        }
    }

    /// Records how the next URL's request ended and returns what to write
    /// for it.
    pub fn record(&mut self, result: &Result<CurlResponse, CurlError>, elapsed_us: u64) -> (r:
        Report)
        requires
            old(self).outcomes().len() < old(self).urls().len(),
        ensures
            final(self).options() == old(self).options(),
            final(self).urls() == old(self).urls(),
            final(self).outcomes() == old(self).outcomes().push(outcome_ok(*result)),
            r.out@ == sequential_out(
                old(self).options(),
                old(self).urls().len() as int,
                old(self).urls()[old(self).outcomes().len() as int],
                *result,
            ),
            r.err@ == outcome_err(
                old(self).options(),
                old(self).outcomes().len() as int,
                old(self).urls()[old(self).outcomes().len() as int],
                *result,
                elapsed_us,
            ),
    {
        proof {
            use_type_invariant(&*self);
        }
        let i = self.progress.next;
        let report = sequential_report(
            &self.options,
            self.urls.len(),
            i,
            self.urls[i].as_str(),
            result,
            elapsed_us,
        );
        let ok = succeeded(result);
        let ghost seen = self.progress.seen@.push(ok);
        assert((self.progress.all_success && ok) == forall|k: int|
            0 <= k < seen.len() ==> seen[k]) by {
            if self.progress.all_success && ok {
                assert forall|k: int| 0 <= k < seen.len() implies seen[k] by {
                    if k < i {
                        assert(seen[k] == self.progress.seen@[k]);
                    }
                }
            } else if !ok {
                assert(!seen[i as int]);
            } else {
                let k = choose|k: int|
                    0 <= k < self.progress.seen@.len() && !self.progress.seen@[k];
                assert(!seen[k]);
            }
        }
        self.progress = Progress {
            next: i + 1,
            all_success: self.progress.all_success && ok,
            seen: Ghost(seen),
        };
        report
    }

    /// Whether every URL reported so far succeeded.
    pub fn all_success(&self) -> (r: bool)
        ensures
            r == forall|i: int| 0 <= i < self.outcomes().len() ==> self.outcomes()[i],
    {
        proof {
            use_type_invariant(self);
        }
        assert(self.outcomes() == self.progress.seen@);
        self.progress.all_success
    }

    /// Whether every URL has been reported.
    pub fn is_finished(&self) -> (r: bool)
        ensures
            r == (self.outcomes().len() == self.urls().len()),
    {
        proof {
            use_type_invariant(self);
        }
        self.progress.next == self.urls.len()
    }
}

/// The outcomes are in the order of their URLs' positions.
pub open spec fn in_index_order(s: Seq<Outcome>) -> bool {
    forall|i: int, j: int| 0 <= i < j < s.len() ==> s[i].index <= s[j].index
}

/// Puts the outcomes of a parallel batch, which come in the order the
/// requests finished, back in the order of the URLs.
pub fn order_outcomes(outcomes: Vec<Outcome>) -> (r: Vec<Outcome>)
    ensures
        in_index_order(r@),
        r@.to_multiset() == outcomes@.to_multiset(),
{
    let ghost all = outcomes@.to_multiset();
    let mut rest = outcomes;
    let mut sorted: Vec<Outcome> = Vec::new();
    proof {
        vstd::seq_lib::to_multiset_len(sorted@);
        vstd::multiset::lemma_multiset_empty_len(sorted@.to_multiset());
        assert(sorted@.to_multiset().add(rest@.to_multiset()) =~= all);
    }
    while rest.len() > 0
        invariant
            in_index_order(sorted@),
            sorted@.to_multiset().add(rest@.to_multiset()) == all,
        decreases rest@.len(),
    {
        let ghost before = rest@;
        let x = match rest.pop() {
            Some(x) => x,
            None => {
                return sorted;
            },
        };
        assert(before =~= rest@.push(x));
        let mut p: usize = 0;
        while p < sorted.len() && sorted[p].index < x.index
            invariant
                p <= sorted@.len(),
                forall|k: int| 0 <= k < p ==> sorted@[k].index < x.index,
            decreases sorted@.len() - p,
        {
            p += 1;
        }
        let ghost old_sorted = sorted@;
        sorted.insert(p, x);
        proof {
            vstd::seq_lib::to_multiset_insert(old_sorted, p as int, x);
            vstd::seq_lib::to_multiset_build(rest@, x);
        }
        assert(sorted@ == old_sorted.insert(p as int, x));
        assert(sorted@.to_multiset().add(rest@.to_multiset()) =~= all);
        assert forall|i: int, j: int| 0 <= i < j < sorted@.len() implies sorted@[i].index
            <= sorted@[j].index by {
            if j < p {
            } else if j == p {
            } else if i < p {
                assert(sorted@[j] == old_sorted[j - 1]);
            } else if i == p {
                assert(sorted@[j] == old_sorted[j - 1]);
                assert(old_sorted[p as int].index >= x.index);
            } else {
                assert(sorted@[i] == old_sorted[i - 1]);
                assert(sorted@[j] == old_sorted[j - 1]);
            }
        }
    }
    proof {
        vstd::seq_lib::to_multiset_len(rest@);
        vstd::multiset::lemma_multiset_empty_len(rest@.to_multiset());
    }
    assert(rest@.to_multiset() =~= Multiset::empty());
    assert(sorted@.to_multiset() =~= all);
    sorted
}

/// Every outcome succeeded.
pub open spec fn all_ok(s: Seq<Outcome>) -> bool {
    forall|i: int| 0 <= i < s.len() ==> outcome_ok(#[trigger] s[i].result)
}

/// Whether every request of a batch succeeded: each got a response, each
/// with a 2xx status.
pub fn all_succeeded(outcomes: &Vec<Outcome>) -> (r: bool)
    ensures
        r == all_ok(outcomes@),
{
    let mut i: usize = 0;
    while i < outcomes.len()
        invariant
            i <= outcomes@.len(),
            forall|k: int| 0 <= k < i ==> outcome_ok(#[trigger] outcomes@[k].result),
        decreases outcomes@.len() - i,
    {
        if !succeeded(&outcomes[i].result) {
            return false;
        }
        i += 1;
    }
    true
}

} // verus!

verus! {

/// The exit status a curl-style tool gives when a request failed.
pub const HTTP_ERROR_EXIT: u8 = 22;

/// The process exit status: zero when every request succeeded.
pub fn exit_status(all_success: bool) -> (r: u8)
    ensures
        r == if all_success {
            0
        } else {
            HTTP_ERROR_EXIT
        },
{
    if all_success {
        0
    } else {
        HTTP_ERROR_EXIT
    }
}

/// Whether a batch runs in parallel: when asked to, and there is more than
/// one URL.
pub fn runs_in_parallel(parallel: bool, count: usize) -> (r: bool)
    ensures
        r == (parallel && count > 1),
{
    parallel && count > 1
}

/// The closing line of a timed parallel batch.
pub open spec fn total_time_text(us: u64) -> Seq<char> {
    "\nTotal time: "@ + millis_text(us) + "ms (parallel execution)\n"@
}

/// The closing line of a timed parallel batch.
pub fn total_time_line(us: u64) -> (r: String)
    ensures
        r@ == total_time_text(us),
{
    let mut r = String::from_str("\nTotal time: ");
    push_millis(&mut r, us);
    push_text(&mut r, "ms (parallel execution)\n");
    r
}

} // verus!

verus! {

/// Strictly increasing positions below `s.len()` that start at zero or
/// above are exactly `0, 1, 2, ...`.
proof fn lemma_increasing_positions(s: Seq<Outcome>)
    requires
        forall|i: int| 0 <= i < s.len() ==> #[trigger] s[i].index < s.len(),
        forall|i: int, j: int| 0 <= i < j < s.len() ==> s[i].index < s[j].index,
    ensures
        forall|i: int| 0 <= i < s.len() ==> #[trigger] s[i].index == i,
{
    assert forall|i: int| 0 <= i < s.len() implies #[trigger] s[i].index >= i by {
        lemma_position_at_least(s, i);
    }
    assert forall|i: int| 0 <= i < s.len() implies #[trigger] s[i].index <= i by {
        lemma_position_at_most(s, i);
    }
}

proof fn lemma_position_at_least(s: Seq<Outcome>, i: int)
    requires
        0 <= i < s.len(),
        forall|a: int, b: int| 0 <= a < b < s.len() ==> s[a].index < s[b].index,
    ensures
        s[i].index >= i,
    decreases i,
{
    if i > 0 {
        lemma_position_at_least(s, i - 1);
    }
}

proof fn lemma_position_at_most(s: Seq<Outcome>, i: int)
    requires
        0 <= i < s.len(),
        forall|k: int| 0 <= k < s.len() ==> #[trigger] s[k].index < s.len(),
        forall|a: int, b: int| 0 <= a < b < s.len() ==> s[a].index < s[b].index,
    ensures
        s[i].index <= i,
    decreases s.len() - i,
{
    if i < s.len() - 1 {
        lemma_position_at_most(s, i + 1);
    } else {
        assert(s[i].index < s.len());
    }
}

/// Reports come out in the order of the URLs, whatever order the requests
/// finished in: when the outcomes carry each position below their number
/// once, the ordered outcomes (in index order, holding the same outcomes)
/// carry them as `0, 1, 2, ...`.
pub proof fn lemma_order_restores_positions(s: Seq<Outcome>, r: Seq<Outcome>)
    requires
        forall|i: int| 0 <= i < s.len() ==> #[trigger] s[i].index < s.len(),
        forall|i: int, j: int| 0 <= i < j < s.len() ==> s[i].index != s[j].index,
        in_index_order(r),
        r.to_multiset() == s.to_multiset(),
    ensures
        r.len() == s.len(),
        forall|i: int| 0 <= i < r.len() ==> #[trigger] r[i].index == i,
{
    broadcast use vstd::seq_lib::group_to_multiset_ensures;

    assert(s.no_duplicates()) by {
        assert forall|i: int, j: int| 0 <= i < s.len() && 0 <= j < s.len() && i != j implies s[i]
            != s[j] by {
            if i < j {
                assert(s[i].index != s[j].index);
            } else {
                assert(s[j].index != s[i].index);
            }
        }
    }
    s.lemma_multiset_has_no_duplicates();
    r.lemma_multiset_has_no_duplicates_conv();
    vstd::seq_lib::to_multiset_len(r);
    vstd::seq_lib::to_multiset_len(s);
    assert(r.len() == s.len());
    assert forall|i: int| 0 <= i < r.len() implies s.contains(#[trigger] r[i]) by {
        assert(r.contains(r[i]));
        assert(r.to_multiset().count(r[i]) > 0);
        assert(s.contains(r[i]));
    }
    assert forall|i: int| 0 <= i < r.len() implies #[trigger] r[i].index < r.len() by {
        let p = choose|p: int| 0 <= p < s.len() && s[p] == r[i];
        assert(s[p].index < s.len());
    }
    assert forall|i: int, j: int| 0 <= i < j < r.len() implies r[i].index < r[j].index by {
        let p = choose|p: int| 0 <= p < s.len() && s[p] == r[i];
        let q = choose|q: int| 0 <= q < s.len() && s[q] == r[j];
        assert(r[i] != r[j]);
        assert(p != q);
        if p < q {
            assert(s[p].index != s[q].index);
        } else {
            assert(s[q].index != s[p].index);
        }
    }
    lemma_increasing_positions(r);
}

} // verus!
