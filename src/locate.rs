//! Where the review-hosting command-line tool is found.

use vstd::prelude::*;
use crate::reviews::strings_view;

verus! {

/// The install locations checked, in order, before searching `PATH`.
pub open spec fn gh_locations() -> Seq<Seq<char>> {
    seq![
        "/opt/homebrew/bin/gh"@,
        "/usr/local/bin/gh"@,
        "/usr/bin/gh"@,
        "/home/linuxbrew/.linuxbrew/bin/gh"@,
    ]
}

/// The install locations checked, in order, before searching `PATH`.
pub fn gh_candidate_paths() -> (r: Vec<String>)
    ensures
        strings_view(r@) == gh_locations(),
{
    let r = vec![
        "/opt/homebrew/bin/gh".to_owned(),
        "/usr/local/bin/gh".to_owned(),
        "/usr/bin/gh".to_owned(),
        "/home/linuxbrew/.linuxbrew/bin/gh".to_owned(),
    ];
    assert(strings_view(r@) =~= gh_locations());
    r
}

/// A character with the Unicode White_Space property.
pub open spec fn is_white_space(c: char) -> bool {
    ('\t' <= c <= '\r') || c == ' ' || c == '\u{85}' || c == '\u{a0}' || c == '\u{1680}' || (
    '\u{2000}' <= c <= '\u{200a}') || c == '\u{2028}' || c == '\u{2029}' || c == '\u{202f}' || c
        == '\u{205f}' || c == '\u{3000}'
}

/// `s` without its leading white space.
pub open spec fn trim_start_ws(s: Seq<char>) -> Seq<char>
    decreases s.len(),
{
    if s.len() > 0 && is_white_space(s[0]) {
        trim_start_ws(s.drop_first())
    } else {
        s
    }
}

/// `s` without its trailing white space.
pub open spec fn trim_end_ws(s: Seq<char>) -> Seq<char>
    decreases s.len(),
{
    if s.len() > 0 && is_white_space(s.last()) {
        trim_end_ws(s.drop_last())
    } else {
        s
    }
}

/// A text with the white space at both of its ends removed.
pub open spec fn trimmed(s: Seq<char>) -> Seq<char> {
    trim_end_ws(trim_start_ws(s))
}

/// Relies on str::trim: leading and trailing characters with the Unicode
/// White_Space property removed.
#[verifier::external_body]
fn trim_text(s: &str) -> (r: String)
    ensures
        r@ == trimmed(s@),
{
    s.trim().to_owned()
}

/// The index of the first location that exists, if any.
pub open spec fn first_existing(exists: Seq<bool>) -> Option<int>
    decreases exists.len(),
{
    if exists.len() == 0 {
        None
    } else {
        match first_existing(exists.drop_last()) {
            Some(i) => Some(i),
            None => if exists.last() {
                Some(exists.len() - 1)
            } else {
                None
            },
        }
    }
}

/// The tool's path: the first install location that exists, else the path a
/// `PATH` search printed (trimmed, and only when not blank).
pub open spec fn gh_path_choice(exists: Seq<bool>, which_output: Option<Seq<char>>) -> Option<Seq<char>> {
    match first_existing(exists) {
        Some(i) => Some(gh_locations()[i]),
        None => match which_output {
            Some(out) => if trimmed(out).len() > 0 {
                Some(trimmed(out))
            } else {
                None
            },
            None => None,
        },
    }
}

pub open spec fn opt_view(o: Option<String>) -> Option<Seq<char>> {
    match o {
        Some(s) => Some(s@),
        None => None,
    }
}

/// Picks the tool's path from which install locations exist (one flag per
/// location of `gh_candidate_paths`, in order) and from what a `PATH` search
/// printed when it succeeded.
pub fn find_gh_path(exists: &Vec<bool>, which_output: Option<String>) -> (r: Option<String>)
    requires
        exists@.len() == gh_locations().len(),
    ensures
        opt_view(r) == gh_path_choice(exists@, opt_view(which_output)),
{
    let paths = gh_candidate_paths();
    assert(paths@.len() == strings_view(paths@).len());
    let mut i: usize = 0;
    while i < exists.len()
        invariant
            i <= exists@.len() == 4,
            strings_view(paths@) == gh_locations(),
            paths@.len() == 4,
            first_existing(exists@.take(i as int)) is None,
        decreases exists@.len() - i,
    {
        assert(exists@.take(i + 1).drop_last() =~= exists@.take(i as int));
        if exists[i] {
            proof { lemma_first_existing_prefix(exists@, i as int + 1); }
            assert(strings_view(paths@)[i as int] == paths@[i as int]@);
            return Some(paths[i].clone());
        }
        i = i + 1;
    }
    assert(exists@.take(i as int) =~= exists@);
    match which_output {
        Some(out) => {
            let t = trim_text(out.as_str());
            if t.unicode_len() > 0 {
                Some(t)
            } else {
                None
            }
        },
        None => None,
    }
}

/// The first existing location is the same in any prefix that reaches it.
pub proof fn lemma_first_existing_prefix(exists: Seq<bool>, k: int)
    requires
        0 < k <= exists.len(),
        first_existing(exists.take(k)) == Some(k - 1),
    ensures
        first_existing(exists) == Some(k - 1),
    decreases exists.len(),
{
    if k < exists.len() {
        assert(exists.drop_last().take(k) =~= exists.take(k));
        lemma_first_existing_prefix(exists.drop_last(), k);
    } else {
        assert(exists.take(k) =~= exists);
    }
}

/// The tool's path, or the error that tells the user to install it.
pub fn get_gh_path(located: &Option<String>) -> (r: Result<String, String>)
    ensures
        located matches Some(p) ==> (r matches Ok(q) && q@ == p@),
        located is None ==> (r matches Err(e) && e@
            == "GitHub CLI (gh) not found. Please install it: https://cli.github.com/"@),
{
    match located {
        Some(p) => Ok(p.clone()),
        None => Err("GitHub CLI (gh) not found. Please install it: https://cli.github.com/".to_owned()),
    }
}

} // verus!
