//! Names and places of the stored files: the data file, images, and the
//! dated backups.

use vstd::prelude::*;
use crate::stats::{Date, valid_date, ymd_text};
use crate::reviews::strings_view;
use crate::text::{lex_le, lemma_lex_total, text_le, range_equals};

verus! {

/// The directory under the user's data directory that holds everything.
pub const APP_DIR_NAME: &'static str = "atulify";

pub const DATA_FILE: &'static str = "data.json";

pub const IMAGES_DIR: &'static str = "images";

pub const BACKUPS_DIR: &'static str = "backups";

/// How long a backup is kept, in days.
pub const BACKUP_RETENTION_DAYS: i64 = 7;

/// A single relative path component: letters, digits, `.`, `_` and `-`, and
/// not made of dots alone (so neither `.` nor `..`).
pub open spec fn plain_name(s: Seq<char>) -> bool {
    &&& s.len() > 0
    &&& forall|i: int|
        0 <= i < s.len() ==> ('a' <= #[trigger] s[i] <= 'z') || ('A' <= s[i] <= 'Z') || ('0' <= s[i]
            <= '9') || s[i] == '.' || s[i] == '_' || s[i] == '-'
    &&& exists|i: int| 0 <= i < s.len() && #[trigger] s[i] != '.'
}

/// A directory a name can be joined to: empty, or neither starting with `\`
/// (which leaves out verbatim and device prefixes) nor ending with `:` (which
/// leaves out a bare drive).
pub open spec fn plain_base(s: Seq<char>) -> bool {
    s.len() == 0 || (s[0] != '\\' && s.last() != ':')
}

/// How joining a relative one-component `name` to `base` reads: the name
/// alone after an empty base; no separator after a base that ends with `/`;
/// otherwise one separator, which is the platform's (`/` or `\`), where the
/// base does not already end with one.
pub open spec fn joined(r: Seq<char>, base: Seq<char>, name: Seq<char>) -> bool {
    &&& base.len() == 0 ==> r == name
    &&& base.len() > 0 && base.last() == '/' ==> r == base + name
    &&& base.len() > 0 && base.last() == '\\' ==> (r == base + name || r == base + seq!['/'] + name)
    &&& base.len() > 0 && base.last() != '/' && base.last() != '\\' ==> (r == base + seq!['/'] + name
        || r == base + seq!['\\'] + name)
}

/// Relies on std::path::Path::join with a relative one-component name: the
/// base, then the platform's separator unless the base is empty or already
/// ends with a separator, then the name.
#[verifier::external_body]
fn join_path(base: &str, name: &str) -> (r: String)
    requires
        plain_name(name@),
        plain_base(base@),
    ensures
        joined(r@, base@, name@),
{
    std::path::Path::new(base).join(name).to_string_lossy().into_owned()
}

proof fn lemma_names()
    ensures
        plain_name(APP_DIR_NAME@),
        plain_name(DATA_FILE@),
        plain_name(IMAGES_DIR@),
        plain_name(BACKUPS_DIR@),
{
    reveal_strlit("atulify");
    reveal_strlit("data.json");
    reveal_strlit("images");
    reveal_strlit("backups");
    assert(APP_DIR_NAME@[0] != '.');
    assert(DATA_FILE@[0] != '.');
    assert(IMAGES_DIR@[0] != '.');
    assert(BACKUPS_DIR@[0] != '.');
}

/// Joining a plain name to a plain base gives a plain base again.
proof fn lemma_joined_plain(r: Seq<char>, base: Seq<char>, name: Seq<char>)
    requires
        plain_base(base),
        plain_name(name),
        joined(r, base, name),
    ensures
        plain_base(r),
        r.len() > 0,
{
    assert(r.last() == name.last());
    if base.len() == 0 {
        assert(r[0] == name[0]);
    } else {
        assert(r[0] == base[0]);
    }
}

/// Whether a directory can have names joined to it.
pub fn is_plain_base(s: &str) -> (r: bool)
    ensures
        r == plain_base(s@),
{
    let n = s.unicode_len();
    n == 0 || (s.get_char(0) != '\\' && s.get_char(n - 1) != ':')
}

/// The application's directory inside the user's data directory.
pub fn get_app_dir(data_dir: &str) -> (r: String)
    requires
        plain_base(data_dir@),
    ensures
        joined(r@, data_dir@, APP_DIR_NAME@),
        plain_base(r@),
{
    proof { lemma_names(); }
    let r = join_path(data_dir, APP_DIR_NAME);
    proof { lemma_joined_plain(r@, data_dir@, APP_DIR_NAME@); }
    r
}

/// The data file's path inside the application's directory.
pub fn get_data_path(app_dir: &str) -> (r: String)
    requires
        plain_base(app_dir@),
    ensures
        joined(r@, app_dir@, DATA_FILE@),
{
    proof { lemma_names(); }
    join_path(app_dir, DATA_FILE)
}

/// The images directory's path inside the application's directory.
pub fn get_images_dir(app_dir: &str) -> (r: String)
    requires
        plain_base(app_dir@),
    ensures
        joined(r@, app_dir@, IMAGES_DIR@),
{
    proof { lemma_names(); }
    join_path(app_dir, IMAGES_DIR)
}

/// The backups directory's path inside the application's directory.
pub fn get_backups_dir(app_dir: &str) -> (r: String)
    requires
        plain_base(app_dir@),
    ensures
        joined(r@, app_dir@, BACKUPS_DIR@),
{
    proof { lemma_names(); }
    join_path(app_dir, BACKUPS_DIR)
}

/// The name of the backup made on `date`: `data-YYYY-MM-DD.json`.
pub fn backup_file_name(date: Date) -> (r: String)
    requires
        valid_date(date),
    ensures
        r@ == "data-"@ + ymd_text(date) + ".json"@,
{
    let text = crate::stats::format_date(date);
    "data-".to_owned().concat(text.as_str()).concat(".json")
}

/// Whether a file in the backups directory is a backup.
pub open spec fn is_backup_name(s: Seq<char>) -> bool {
    s.len() >= 5 && s.take(5) == "data-"@ && s.skip(s.len() - 5) == ".json"@
}

/// The backups among the names, in the given order.
pub open spec fn backup_names(names: Seq<Seq<char>>) -> Seq<Seq<char>>
    decreases names.len(),
{
    if names.len() == 0 {
        seq![]
    } else {
        let rest = backup_names(names.drop_last());
        if is_backup_name(names.last()) {
            rest.push(names.last())
        } else {
            rest
        }
    }
}

/// Names in descending order, newest date first.
pub open spec fn sorted_desc(s: Seq<Seq<char>>) -> bool {
    forall|i: int| 0 <= i < s.len() - 1 ==> lex_le(s[i + 1], #[trigger] s[i])
}

fn is_backup(name: &str) -> (r: bool)
    ensures
        r == is_backup_name(name@),
{
    proof {
        reveal_strlit("data-");
        reveal_strlit(".json");
    }
    let n = name.unicode_len();
    if n < 5 {
        return false;
    }
    let starts = range_equals(name, 0, 5, "data-");
    let ends = range_equals(name, n - 5, n, ".json");
    assert(name@.take(5) =~= name@.subrange(0, 5));
    assert(name@.skip(n - 5) =~= name@.subrange(n - 5, n as int));
    starts && ends
}

/// Puts `x` into the descending list `v` after every name that sorts no earlier.
fn insert_desc(v: &mut Vec<String>, x: String)
    requires
        sorted_desc(strings_view(old(v)@)),
    ensures
        sorted_desc(strings_view(final(v)@)),
        strings_view(final(v)@).to_multiset() == strings_view(old(v)@).to_multiset().insert(x@),
{
    let ghost s = strings_view(v@);
    let mut k = v.len();
    while k > 0 && !text_le(x.as_str(), v[k - 1].as_str())
        invariant
            k <= v@.len(),
            s == strings_view(v@),
            k < v@.len() ==> !lex_le(x@, s[k as int]),
        decreases k,
    {
        k = k - 1;
    }
    let ghost xv = x@;
    v.insert(k, x);
    proof {
        let t = strings_view(v@);
        assert(t =~= s.insert(k as int, xv));
        if k < s.len() {
            lemma_lex_total(xv, s[k as int]);
        }
        assert forall|i: int| 0 <= i < t.len() - 1 implies lex_le(t[i + 1], #[trigger] t[i]) by {
            if i < k - 1 {
                assert(t[i] == s[i] && t[i + 1] == s[i + 1]);
            } else if i == k - 1 {
            } else if i == k {
            } else {
                assert(t[i] == s[i - 1] && t[i + 1] == s[i]);
            }
        }
        crate::classify::lemma_insert_multiset(s, k as int, xv);
    }
}

/// The backups among the file names of the backups directory, newest first.
pub fn select_backups(names: Vec<String>) -> (r: Vec<String>)
    ensures
        sorted_desc(strings_view(r@)),
        strings_view(r@).to_multiset() == backup_names(strings_view(names@)).to_multiset(),
{
    let mut r: Vec<String> = Vec::new();
    let mut i: usize = 0;
    assert(strings_view(r@) =~= backup_names(strings_view(names@.take(0))));
    while i < names.len()
        invariant
            i <= names@.len(),
            sorted_desc(strings_view(r@)),
            strings_view(r@).to_multiset() == backup_names(strings_view(names@.take(i as int))).to_multiset(),
        decreases names@.len() - i,
    {
        broadcast use vstd::seq_lib::group_to_multiset_ensures;
        assert(strings_view(names@.take(i + 1)).drop_last() =~= strings_view(names@.take(i as int)));
        assert(strings_view(names@.take(i + 1)).last() == names@[i as int]@);
        if is_backup(names[i].as_str()) {
            insert_desc(&mut r, names[i].clone());
        }
        i = i + 1;
    }
    assert(names@.take(i as int) =~= names@);
    r
}

/// Whether a backup last modified at `modified` (seconds) is past the
/// retention period at `now` (seconds).
pub fn is_backup_expired(modified: i64, now: i64) -> (r: bool)
    ensures
        r == ((modified as int) < (now as int) - BACKUP_RETENTION_DAYS * 86400),
{
    (modified as i128) < (now as i128) - (BACKUP_RETENTION_DAYS as i128) * 86400
}

} // verus!
