//! Header lines: parsing `Name: Value` text, the syntax a header must have
//! to be sent, and the case-insensitive table kept for a response.
use vstd::prelude::*;
use crate::error::CurlError;
use crate::text::{
    all_space, is_space, lemma_trimmed_padding, lower_of, push_text, same_text, to_lower, trim,
    trimmed,
};

verus! {

/// Header names and values, as characters, in order.
pub type HeaderSeq = Seq<(Seq<char>, Seq<char>)>;

/// `i` is the position of the first colon in `s`.
pub open spec fn is_first_colon(s: Seq<char>, i: int) -> bool {
    0 <= i < s.len() && s[i] == ':' && forall|k: int| 0 <= k < i ==> s[k] != ':'
}

/// The name and value of a `Name: Value` line: the text before the first
/// colon and the text after it, each trimmed; none if there is no colon.
pub open spec fn header_parts(s: Seq<char>) -> Option<(Seq<char>, Seq<char>)> {
    if exists|i: int| is_first_colon(s, i) {
        let i = choose|i: int| is_first_colon(s, i);
        Some((trimmed(s.subrange(0, i)), trimmed(s.subrange(i + 1, s.len() as int))))
    } else {
        None
    }
}

/// The detail of the error for a line without a colon.
pub open spec fn missing_colon_detail(s: Seq<char>) -> Seq<char> {
    "Header must be in format 'Key: Value', got: "@ + s
}

/// Parses a `Name: Value` line into its trimmed name and value. Only the
/// first colon separates them; a line without one is rejected.
pub fn parse_header(header: &str) -> (r: Result<(String, String), CurlError>)
    ensures
        match r {
            Ok((k, v)) => header_parts(header@) == Some((k@, v@)),
            Err(e) => header_parts(header@) is None && (e matches CurlError::InvalidHeader(m)
                && m@ == missing_colon_detail(header@)),
        },
{
    let n = header.unicode_len();
    let mut i: usize = 0;
    while i < n && header.get_char(i) != ':'
        invariant
            n == header@.len(),
            i <= n,
            forall|k: int| 0 <= k < i ==> header@[k] != ':',
        decreases n - i,
    {
        i += 1;
    }
    if i == n {
        assert(!exists|j: int| is_first_colon(header@, j));
        let mut m = String::from_str("Header must be in format 'Key: Value', got: ");
        push_text(&mut m, header);
        return Err(CurlError::InvalidHeader(m));
    }
    assert(is_first_colon(header@, i as int));
    assert(forall|j: int| is_first_colon(header@, j) ==> j == i);
    let key = trim(header.substring_char(0, i));
    let value = trim(header.substring_char(i + 1, n));
    Ok((key, value))
}

/// A colon is not whitespace.
proof fn lemma_colon_not_space()
    ensures
        !is_space(':'),
{
}

/// A line made of a name and a value that carry no surrounding whitespace
/// of their own, with any whitespace around each of them and a colon
/// between, parses to exactly that name and value.
pub proof fn lemma_parse_header_trims(
    a: Seq<char>,
    name: Seq<char>,
    b: Seq<char>,
    c: Seq<char>,
    value: Seq<char>,
    d: Seq<char>,
)
    requires
        all_space(a),
        all_space(b),
        all_space(c),
        all_space(d),
        trimmed(name) == name,
        trimmed(value) == value,
        !name.contains(':'),
    ensures
        header_parts(a + name + b + seq![':'] + c + value + d) == Some((name, value)),
{
    let s = a + name + b + seq![':'] + c + value + d;
    let i = (a.len() + name.len() + b.len()) as int;
    lemma_colon_not_space();
    assert(s[i] == ':');
    assert forall|k: int| 0 <= k < i implies s[k] != ':' by {
        if k < a.len() {
            assert(s[k] == a[k]);
        } else if k < a.len() + name.len() {
            assert(s[k] == name[k - a.len()]);
        } else {
            assert(s[k] == b[k - a.len() - name.len()]);
        }
    }
    assert(is_first_colon(s, i));
    assert(forall|j: int| is_first_colon(s, j) ==> j == i);
    assert(s.subrange(0, i) =~= a + name + b);
    assert(s.subrange(i + 1, s.len() as int) =~= c + value + d);
    lemma_trimmed_padding(a, name, b);
    lemma_trimmed_padding(c, value, d);
}

/// A line without a colon does not parse.
pub proof fn lemma_parse_header_needs_colon(s: Seq<char>)
    requires
        !s.contains(':'),
    ensures
        header_parts(s) is None,
{
    if exists|j: int| is_first_colon(s, j) {
        let j = choose|j: int| is_first_colon(s, j);
        assert(s.contains(':')) by {
            assert(s[j] == ':');
        }
    }
}

/// A character allowed in a header name (an RFC 7230 `tchar`).
pub open spec fn is_token_char(c: char) -> bool {
    c == '!' || c == '#' || c == '$' || c == '%' || c == '&' || c == '\'' || c == '*' || c == '+'
        || c == '-' || c == '.' || c == '^' || c == '_' || c == '`' || c == '|' || c == '~' || (
    '0' <= c && c <= '9') || ('a' <= c && c <= 'z') || ('A' <= c && c <= 'Z')
}

/// A header name that may be sent: a non-empty token.
pub open spec fn valid_name(s: Seq<char>) -> bool {
    s.len() > 0 && forall|i: int| 0 <= i < s.len() ==> is_token_char(#[trigger] s[i])
}

/// A character allowed in a header value: a visible ASCII character, a
/// space or a tab. Control characters, line breaks among them, are not.
pub open spec fn is_value_char(c: char) -> bool {
    c == ' ' || c == '\t' || ('!' <= c && c <= '~')
}

/// A header value that may be sent.
pub open spec fn valid_value(s: Seq<char>) -> bool {
    forall|i: int| 0 <= i < s.len() ==> is_value_char(#[trigger] s[i])
}

fn is_token_char_exec(c: char) -> (r: bool)
    ensures
        r == is_token_char(c),
{
    c == '!' || c == '#' || c == '$' || c == '%' || c == '&' || c == '\'' || c == '*' || c == '+'
        || c == '-' || c == '.' || c == '^' || c == '_' || c == '`' || c == '|' || c == '~' || (
    '0' <= c && c <= '9') || ('a' <= c && c <= 'z') || ('A' <= c && c <= 'Z')
}

/// Whether `name` may be sent as a header name.
pub fn is_valid_name(name: &str) -> (r: bool)
    ensures
        r == valid_name(name@),
{
    let n = name.unicode_len();
    if n == 0 {
        return false;
    }
    let mut i: usize = 0;
    while i < n
        invariant
            n == name@.len(),
            i <= n,
            forall|k: int| 0 <= k < i ==> is_token_char(#[trigger] name@[k]),
        decreases n - i,
    {
        if !is_token_char_exec(name.get_char(i)) {
            return false;
        }
        i += 1;
    }
    true
}

/// Whether `value` may be sent as a header value.
pub fn is_valid_value(value: &str) -> (r: bool)
    ensures
        r == valid_value(value@),
{
    let n = value.unicode_len();
    let mut i: usize = 0;
    while i < n
        invariant
            n == value@.len(),
            i <= n,
            forall|k: int| 0 <= k < i ==> is_value_char(#[trigger] value@[k]),
        decreases n - i,
    {
        let c = value.get_char(i);
        if !(c == ' ' || c == '\t' || ('!' <= c && c <= '~')) {
            return false;
        }
        i += 1;
    }
    true
}

} // verus!

verus! {

/// The value stored under `key` in a table: that of its first entry with
/// this name.
pub open spec fn lookup(t: HeaderSeq, key: Seq<char>) -> Option<Seq<char>>
    decreases t.len(),
{
    if t.len() == 0 {
        None
    } else if t[0].0 == key {
        Some(t[0].1)
    } else {
        lookup(t.drop_first(), key)
    }
}

/// The table `t` with `value` stored under `key`: the first entry with that
/// name gets the new value in place, else the pair goes at the end.
pub open spec fn store(t: HeaderSeq, key: Seq<char>, value: Seq<char>) -> HeaderSeq
    decreases t.len(),
{
    if t.len() == 0 {
        seq![(key, value)]
    } else if t[0].0 == key {
        t.update(0, (key, value))
    } else {
        seq![t[0]] + store(t.drop_first(), key, value)
    }
}

/// The table of received headers: each is stored in turn under the
/// lowercase form of its name, so that the last of a name wins.
pub open spec fn normalized(raw: HeaderSeq) -> HeaderSeq
    decreases raw.len(),
{
    if raw.len() == 0 {
        Seq::empty()
    } else {
        store(normalized(raw.drop_last()), lower_of(raw.last().0), raw.last().1)
    }
}

/// The value of the last received header whose name has the lowercase
/// form `key`.
pub open spec fn last_value(raw: HeaderSeq, key: Seq<char>) -> Option<Seq<char>>
    decreases raw.len(),
{
    if raw.len() == 0 {
        None
    } else if lower_of(raw.last().0) == key {
        Some(raw.last().1)
    } else {
        last_value(raw.drop_last(), key)
    }
}

/// `j` is the first entry of `t` named `key`.
pub open spec fn first_named(t: HeaderSeq, key: Seq<char>, j: int) -> bool {
    0 <= j < t.len() && t[j].0 == key && forall|k: int| 0 <= k < j ==> t[k].0 != key
}

pub(crate) proof fn lemma_lookup_at(t: HeaderSeq, key: Seq<char>, j: int)
    requires
        first_named(t, key, j),
    ensures
        lookup(t, key) == Some(t[j].1),
    decreases j,
{
    if j > 0 {
        assert(t[0].0 != key);
        lemma_lookup_at(t.drop_first(), key, j - 1);
    }
}

pub(crate) proof fn lemma_lookup_absent(t: HeaderSeq, key: Seq<char>)
    requires
        forall|k: int| 0 <= k < t.len() ==> t[k].0 != key,
    ensures
        lookup(t, key) is None,
    decreases t.len(),
{
    if t.len() > 0 {
        assert(t[0].0 != key);
        lemma_lookup_absent(t.drop_first(), key);
    }
}

proof fn lemma_store_at(t: HeaderSeq, key: Seq<char>, value: Seq<char>, j: int)
    requires
        first_named(t, key, j),
    ensures
        store(t, key, value) == t.update(j, (key, value)),
    decreases j,
{
    if j > 0 {
        assert(t[0].0 != key);
        lemma_store_at(t.drop_first(), key, value, j - 1);
        assert(seq![t[0]] + t.drop_first().update(j - 1, (key, value)) =~= t.update(
            j,
            (key, value),
        ));
    }
}

proof fn lemma_store_absent(t: HeaderSeq, key: Seq<char>, value: Seq<char>)
    requires
        forall|k: int| 0 <= k < t.len() ==> t[k].0 != key,
    ensures
        store(t, key, value) == t.push((key, value)),
    decreases t.len(),
{
    if t.len() > 0 {
        assert(t[0].0 != key);
        lemma_store_absent(t.drop_first(), key, value);
        assert(seq![t[0]] + t.drop_first().push((key, value)) =~= t.push((key, value)));
    } else {
        assert(seq![(key, value)] =~= t.push((key, value)));
    }
}

proof fn lemma_lookup_store(t: HeaderSeq, k: Seq<char>, v: Seq<char>, key: Seq<char>)
    ensures
        lookup(store(t, k, v), key) == if key == k {
            Some(v)
        } else {
            lookup(t, key)
        },
    decreases t.len(),
{
    let s = store(t, k, v);
    if t.len() == 0 {
        assert(s.drop_first() =~= Seq::<(Seq<char>, Seq<char>)>::empty());
        assert(lookup(s.drop_first(), key) is None);
    } else if t[0].0 == k {
        assert(s.drop_first() =~= t.drop_first());
    } else {
        lemma_lookup_store(t.drop_first(), k, v, key);
        assert(s.drop_first() =~= store(t.drop_first(), k, v));
    }
}

/// Header lookup ignores case: in the table built from the received
/// headers `raw`, the value under the lowercase form of any name is the
/// value of the last received header whose name lowercases the same way.
pub proof fn lemma_lookup_is_last_value(raw: HeaderSeq, key: Seq<char>)
    ensures
        lookup(normalized(raw), key) == last_value(raw, key),
    decreases raw.len(),
{
    if raw.len() > 0 {
        lemma_lookup_is_last_value(raw.drop_last(), key);
        lemma_lookup_store(normalized(raw.drop_last()), lower_of(raw.last().0), raw.last().1, key);
    }
}

/// A header received last under `name` is found under any `query` whose
/// lowercase form is that of `name`: storing `Content-Type` and looking up
/// `content-type` yields the stored value.
pub proof fn lemma_lookup_ignores_case(
    raw: HeaderSeq,
    name: Seq<char>,
    value: Seq<char>,
    query: Seq<char>,
)
    requires
        lower_of(query) == lower_of(name),
    ensures
        lookup(normalized(raw.push((name, value))), lower_of(query)) == Some(value),
{
    lemma_lookup_is_last_value(raw.push((name, value)), lower_of(query));
}

/// The first entry of `table` named `key`, if any.
pub fn find_header(table: &Vec<(String, String)>, key: &str) -> (r: Option<usize>)
    ensures
        match r {
            Some(j) => first_named(table.deep_view(), key@, j as int),
            None => forall|k: int| 0 <= k < table@.len() ==> table.deep_view()[k].0 != key@,
        },
{
    let mut i: usize = 0;
    while i < table.len()
        invariant
            i <= table@.len(),
            forall|k: int| 0 <= k < i ==> table.deep_view()[k].0 != key@,
        decreases table@.len() - i,
    {
        if same_text(table[i].0.as_str(), key) {
            return Some(i);
        }
        i += 1;
    }
    None
}

/// The table of `raw`: names lowercased, one entry per name in the order
/// names first appear, each with the last value received under it.
pub fn normalize_headers(raw: &Vec<(String, String)>) -> (r: Vec<(String, String)>)
    ensures
        r.deep_view() == normalized(raw.deep_view()),
{
    let mut table: Vec<(String, String)> = Vec::new();
    let mut i: usize = 0;
    assert(table.deep_view() =~= normalized(raw.deep_view().subrange(0, 0)));
    while i < raw.len()
        invariant
            i <= raw@.len(),
            table.deep_view() == normalized(raw.deep_view().subrange(0, i as int)),
        decreases raw@.len() - i,
    {
        let key = to_lower(raw[i].0.as_str());
        let value = raw[i].1.clone();
        let ghost before = table.deep_view();
        let ghost entry = (key@, value@);
        match find_header(&table, key.as_str()) {
            Some(j) => {
                proof {
                    lemma_store_at(before, key@, value@, j as int);
                }
                table.remove(j);
                table.insert(j, (key, value));
                assert(table.deep_view() =~= before.update(j as int, entry));
            },
            None => {
                proof {
                    lemma_store_absent(before, key@, value@);
                }
                table.push((key, value));
                assert(table.deep_view() =~= before.push(entry));
            },
        }
        assert(raw.deep_view().subrange(0, i + 1).drop_last() =~= raw.deep_view().subrange(
            0,
            i as int,
        ));
        i += 1;
    }
    assert(raw.deep_view().subrange(0, raw@.len() as int) =~= raw.deep_view());
    table
}

} // verus!

verus! {

/// Parses each `Name: Value` line in turn; the first line without a colon
/// is the error.
pub fn parse_header_list(lines: &Vec<String>) -> (r: Result<Vec<(String, String)>, CurlError>)
    ensures
        match r {
            Ok(v) => v.deep_view().len() == lines@.len() && forall|i: int|
                0 <= i < lines@.len() ==> header_parts(#[trigger] lines.deep_view()[i]) == Some(
                    v.deep_view()[i],
                ),
            Err(e) => exists|j: int|
                0 <= j < lines@.len() && header_parts(#[trigger] lines.deep_view()[j]) is None
                    && (forall|k: int|
                    0 <= k < j ==> header_parts(#[trigger] lines.deep_view()[k]) is Some) && (e matches CurlError::InvalidHeader(m)
                    && m@ == missing_colon_detail(lines.deep_view()[j])),
        },
{
    let mut parsed: Vec<(String, String)> = Vec::new();
    let mut i: usize = 0;
    while i < lines.len()
        invariant
            i <= lines@.len(),
            parsed.deep_view().len() == i,
            forall|k: int|
                0 <= k < i ==> header_parts(#[trigger] lines.deep_view()[k]) == Some(
                    parsed.deep_view()[k],
                ),
        decreases lines@.len() - i,
    {
        match parse_header(lines[i].as_str()) {
            Ok(pair) => {
                let ghost before = parsed.deep_view();
                parsed.push(pair);
                assert(parsed.deep_view() =~= before.push((pair.0@, pair.1@)));
            },
            Err(e) => {
                assert(header_parts(lines.deep_view()[i as int]) is None);
                return Err(e);
            },
        }
        i += 1;
    }
    Ok(parsed)
}

} // verus!

verus! {

/// No two entries of `t` have the same name.
pub open spec fn distinct_names(t: HeaderSeq) -> bool {
    forall|i: int, j: int| 0 <= i < j < t.len() ==> t[i].0 != t[j].0
}

/// Some entry of `t` is named `key`.
pub open spec fn has_name(t: HeaderSeq, key: Seq<char>) -> bool {
    exists|i: int| 0 <= i < t.len() && #[trigger] t[i].0 == key
}

/// `t` is a header table of the received headers `raw`: each name appears
/// once, and each is the lowercase form of a received name.
pub open spec fn is_table_of(t: HeaderSeq, raw: HeaderSeq) -> bool {
    &&& distinct_names(t)
    &&& forall|i: int|
        0 <= i < t.len() ==> exists|j: int|
            0 <= j < raw.len() && #[trigger] t[i].0 == lower_of(#[trigger] raw[j].0)
}

proof fn lemma_store_names(t: HeaderSeq, k: Seq<char>, v: Seq<char>)
    requires
        distinct_names(t),
    ensures
        distinct_names(store(t, k, v)),
        forall|i: int|
            0 <= i < store(t, k, v).len() ==> #[trigger] store(t, k, v)[i].0 == k || has_name(
                t,
                store(t, k, v)[i].0,
            ),
    decreases t.len(),
{
    let s = store(t, k, v);
    if t.len() == 0 {
    } else if t[0].0 == k {
        assert forall|i: int| 0 <= i < s.len() implies #[trigger] s[i].0 == t[i].0 by {}
        assert forall|i: int| 0 <= i < s.len() implies #[trigger] s[i].0 == k || has_name(
            t,
            s[i].0,
        ) by {
            assert(t[i].0 == s[i].0);
        }
    } else {
        let rest = t.drop_first();
        lemma_store_names(rest, k, v);
        let sr = store(rest, k, v);
        assert(s == seq![t[0]] + sr);
        assert forall|i: int| 0 <= i < s.len() implies #[trigger] s[i].0 == k || has_name(
            t,
            s[i].0,
        ) by {
            if i == 0 {
                assert(t[0].0 == s[0].0);
            } else {
                assert(s[i] == sr[i - 1]);
                if sr[i - 1].0 != k {
                    let m = choose|m: int| 0 <= m < rest.len() && #[trigger] rest[m].0 == sr[i
                        - 1].0;
                    assert(t[m + 1].0 == s[i].0);
                }
            }
        }
        assert forall|i: int, j: int| 0 <= i < j < s.len() implies s[i].0 != s[j].0 by {
            if i == 0 {
                assert(s[j] == sr[j - 1]);
                if sr[j - 1].0 != k {
                    let m = choose|m: int| 0 <= m < rest.len() && #[trigger] rest[m].0 == sr[j
                        - 1].0;
                    assert(t[m + 1].0 == s[j].0);
                }
            } else {
                assert(s[i] == sr[i - 1]);
                assert(s[j] == sr[j - 1]);
            }
        }
    }
}

/// The table built from received headers names each header once, by the
/// lowercase form of a received name.
pub proof fn lemma_normalized_is_table(raw: HeaderSeq)
    ensures
        is_table_of(normalized(raw), raw),
    decreases raw.len(),
{
    if raw.len() > 0 {
        let p = raw.drop_last();
        lemma_normalized_is_table(p);
        let t = normalized(p);
        let key = lower_of(raw.last().0);
        lemma_store_names(t, key, raw.last().1);
        let n = normalized(raw);
        assert forall|i: int| 0 <= i < n.len() implies exists|j: int|
            0 <= j < raw.len() && #[trigger] n[i].0 == lower_of(#[trigger] raw[j].0) by {
            if n[i].0 == key {
                assert(raw[raw.len() - 1] == raw.last());
            } else {
                let m = choose|m: int| 0 <= m < t.len() && #[trigger] t[m].0 == n[i].0;
                let j = choose|j: int| 0 <= j < p.len() && #[trigger] t[m].0 == lower_of(
                    #[trigger] p[j].0,
                );
                assert(raw[j] == p[j]);
            }
        }
    }
}

} // verus!
