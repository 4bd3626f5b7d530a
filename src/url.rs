//! Parsing of pull-request and issue links into (organisation, repository, number).

use vstd::prelude::*;
use crate::text::{index_of, trim_end, split_on, pieces, find_char, has_prefix, range_equals, split_bounds};

verus! {

/// An (organisation, repository, number) reference as character sequences.
pub type RefView = (Seq<char>, Seq<char>, Seq<char>);

/// The link with its query string and trailing slashes removed.
pub open spec fn clean_url(u: Seq<char>) -> Seq<char> {
    trim_end(u.take(index_of(u, '?') as int), '/')
}

/// What follows `p` in `s`, when `s` starts with `p`.
pub open spec fn after_prefix(s: Seq<char>, p: Seq<char>) -> Option<Seq<char>> {
    if p.len() <= s.len() && s.take(p.len() as int) == p {
        Some(s.skip(p.len() as int))
    } else {
        None
    }
}

/// `https://github.com/{org}/{repo}/{kind}/{n}[/...]`.
pub open spec fn github_reference(u: Seq<char>, kind: Seq<char>) -> Option<RefView> {
    match after_prefix(clean_url(u), "https://github.com/"@) {
        Some(rest) => {
            let parts = split_on(rest, '/');
            if parts.len() >= 4 && parts[2] == kind {
                Some((parts[0], parts[1], parts[3]))
            } else {
                None
            }
        },
        None => None,
    }
}

/// `{domain}{org}/{repo}/{n}[/...]` on a cleaned link.
pub open spec fn graphite_reference(clean: Seq<char>, domain: Seq<char>) -> Option<RefView> {
    match after_prefix(clean, domain) {
        Some(rest) => {
            let parts = split_on(rest, '/');
            if parts.len() >= 3 {
                Some((parts[0], parts[1], parts[2]))
            } else {
                None
            }
        },
        None => None,
    }
}

/// The reference a pull-request link denotes, if it has one of the accepted shapes.
pub open spec fn pr_reference(u: Seq<char>) -> Option<RefView> {
    match github_reference(u, "pull"@) {
        Some(r) => Some(r),
        None => match graphite_reference(clean_url(u), "https://app.graphite.dev/github/pr/"@) {
            Some(r) => Some(r),
            None => graphite_reference(clean_url(u), "https://app.graphite.com/github/pr/"@),
        },
    }
}

/// The reference an issue link denotes, if it has the accepted shape.
pub open spec fn issue_reference(u: Seq<char>) -> Option<RefView> {
    github_reference(u, "issues"@)
}

/// The view of a parsed reference.
pub open spec fn ref_view(r: Option<(String, String, String)>) -> Option<RefView> {
    match r {
        Some((a, b, c)) => Some((a@, b@, c@)),
        None => None,
    }
}

/// Length of the cleaned link: `url[0..r]` is `clean_url(url)`.
fn clean_end(url: &str) -> (r: usize)
    ensures
        r <= url@.len(),
        url@.subrange(0, r as int) == clean_url(url@),
{
    let n = url.unicode_len();
    let q = find_char(url, 0, n, '?');
    assert(url@.subrange(0, n as int) =~= url@);
    let mut e = q;
    while e > 0 && url.get_char(e - 1) == '/'
        invariant
            e <= q <= n == url@.len(),
            q == index_of(url@, '?'),
            trim_end(url@.take(q as int), '/') == trim_end(url@.take(e as int), '/'),
        decreases e,
    {
        assert(url@.take(e - 1) =~= url@.take(e as int).drop_last());
        e = e - 1;
    }
    assert(url@.subrange(0, e as int) =~= url@.take(e as int));
    e
}

fn piece_string(url: &str, b: (usize, usize)) -> (r: String)
    requires
        b.0 <= b.1 <= url@.len(),
    ensures
        r@ == url@.subrange(b.0 as int, b.1 as int),
{
    url.substring_char(b.0, b.1).to_owned()
}

/// The pieces of `clean` after `prefix`, when the cleaned link starts with it.
fn parts_after(url: &str, end: usize, prefix: &str) -> (r: Option<Vec<(usize, usize)>>)
    requires
        end <= url@.len(),
    ensures
        match r {
            Some(b) => after_prefix(url@.subrange(0, end as int), prefix@) matches Some(rest)
                && pieces(url@, b@) == split_on(rest, '/')
                && forall|i: int| 0 <= i < b@.len() ==> #[trigger] b@[i].0 <= b@[i].1 <= end,
            None => after_prefix(url@.subrange(0, end as int), prefix@) is None,
        },
{
    if !has_prefix(url, end, prefix) {
        return None;
    }
    let plen = prefix.unicode_len();
    let b = split_bounds(url, plen, end, '/');
    assert(url@.subrange(0, end as int).skip(plen as int) =~= url@.subrange(plen as int, end as int));
    Some(b)
}

fn github_parts(url: &str, kind: &str) -> (r: Option<(String, String, String)>)
    ensures
        ref_view(r) == github_reference(url@, kind@),
{
    let e = clean_end(url);
    match parts_after(url, e, "https://github.com/") {
        None => None,
        Some(b) => {
            let ghost parts = pieces(url@, b@);
            if b.len() >= 4 && range_equals(url, b[2].0, b[2].1, kind) {
                assert(parts[0] == url@.subrange(b@[0].0 as int, b@[0].1 as int));
                assert(parts[1] == url@.subrange(b@[1].0 as int, b@[1].1 as int));
                assert(parts[3] == url@.subrange(b@[3].0 as int, b@[3].1 as int));
                Some((piece_string(url, b[0]), piece_string(url, b[1]), piece_string(url, b[3])))
            } else {
                proof {
                    if b@.len() >= 4 {
                        assert(parts[2] == url@.subrange(b@[2].0 as int, b@[2].1 as int));
                    }
                }
                None
            }
        },
    }
}

fn graphite_parts(url: &str, end: usize, domain: &str) -> (r: Option<(String, String, String)>)
    requires
        end <= url@.len(),
    ensures
        ref_view(r) == graphite_reference(url@.subrange(0, end as int), domain@),
{
    match parts_after(url, end, domain) {
        None => None,
        Some(b) => {
            let ghost parts = pieces(url@, b@);
            if b.len() >= 3 {
                assert(parts[0] == url@.subrange(b@[0].0 as int, b@[0].1 as int));
                assert(parts[1] == url@.subrange(b@[1].0 as int, b@[1].1 as int));
                assert(parts[2] == url@.subrange(b@[2].0 as int, b@[2].1 as int));
                Some((piece_string(url, b[0]), piece_string(url, b[1]), piece_string(url, b[2])))
            } else {
                None
            }
        },
    }
}

/// Parses a pull-request link (GitHub or Graphite) into (organisation, repository, number).
pub fn parse_pr_url(url: &str) -> (r: Option<(String, String, String)>)
    ensures
        ref_view(r) == pr_reference(url@),
{
    if let Some(found) = github_parts(url, "pull") {
        return Some(found);
    }
    let e = clean_end(url);
    if let Some(found) = graphite_parts(url, e, "https://app.graphite.dev/github/pr/") {
        return Some(found);
    }
    graphite_parts(url, e, "https://app.graphite.com/github/pr/")
}

/// Parses a GitHub issue link into (organisation, repository, number).
pub fn parse_issue_url(url: &str) -> (r: Option<(String, String, String)>)
    ensures
        ref_view(r) == issue_reference(url@),
{
    github_parts(url, "issues")
}

} // verus!
