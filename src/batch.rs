//! The lines of a batch file.
use vstd::prelude::*;
use crate::text::{trim, trimmed};

verus! {

/// A trimmed line that names a URL: it is not blank and not a comment.
pub open spec fn is_url_line(t: Seq<char>) -> bool {
    t.len() > 0 && t[0] != '#'
}

/// The URLs of a batch file, one per line, in order: each line trimmed,
/// blank lines and lines starting with `#` left out.
pub open spec fn batch_entries(lines: Seq<Seq<char>>) -> Seq<Seq<char>>
    decreases lines.len(),
{
    if lines.len() == 0 {
        Seq::empty()
    } else {
        let rest = batch_entries(lines.drop_last());
        let t = trimmed(lines.last());
        if is_url_line(t) {
            rest.push(t)
        } else {
            rest
        }
    }
}

/// The URLs named by the lines of a batch file.
pub fn batch_urls(lines: &Vec<String>) -> (r: Vec<String>)
    ensures
        r.deep_view() == batch_entries(lines.deep_view()),
{
    let ghost all = lines.deep_view();
    let mut urls: Vec<String> = Vec::new();
    let mut i: usize = 0;
    assert(all.subrange(0, 0) =~= Seq::<Seq<char>>::empty());
    assert(urls.deep_view() =~= Seq::<Seq<char>>::empty());
    while i < lines.len()
        invariant
            i <= lines@.len(),
            all == lines.deep_view(),
            urls.deep_view() == batch_entries(all.subrange(0, i as int)),
        decreases lines@.len() - i,
    {
        let t = trim(lines[i].as_str());
        assert(all.subrange(0, i + 1).drop_last() =~= all.subrange(0, i as int));
        assert(all.subrange(0, i + 1).last() == all[i as int]);
        let s = t.as_str();
        if s.unicode_len() > 0 && s.get_char(0) != '#' {
            let ghost before = urls.deep_view();
            urls.push(t);
            assert(urls.deep_view() =~= before.push(trimmed(all[i as int])));
        }
        i += 1;
    }
    assert(all.subrange(0, lines@.len() as int) =~= all);
    urls
}

} // verus!
