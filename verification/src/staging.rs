//! Staging selection: which status files are added to the index and which
//! are excluded by the caller's glob patterns.
//!
//! Pattern matching itself is done by the `glob` crate; its verdict for a
//! pattern and a path is named by `glob_matches`, a pure function of the
//! two strings. Everything around the verdict — which files stay, in what
//! order, and the counts — is verified.

use vstd::prelude::*;

use crate::text::views_of;

verus! {

/// Whether the glob pattern `pattern` matches the path `path`, as the
/// `glob` crate decides it; a string that is not a valid glob pattern
/// matches nothing. The verdict depends on the two strings alone.
pub uninterp spec fn glob_matches(pattern: Seq<char>, path: Seq<char>) -> bool;

/// Relies on `glob::Pattern::new` and `glob::Pattern::matches`: whether
/// `path` matches the glob `pattern`; an invalid pattern matches nothing.
/// Both are pure functions of their string arguments.
#[verifier::external_body]
fn glob_match(pattern: &str, path: &str) -> (r: bool)
    ensures
        r == glob_matches(pattern@, path@),
{
    match glob::Pattern::new(pattern) {
        Ok(p) => p.matches(path),
        Err(_) => false,
    }
}

/// Whether any pattern in the list matches the path.
pub open spec fn excluded_spec(patterns: Seq<Seq<char>>, path: Seq<char>) -> bool {
    exists|k: int| 0 <= k < patterns.len() && glob_matches(#[trigger] patterns[k], path)
}

/// Whether any of `patterns` matches `path`.
pub fn matches_any(patterns: &Vec<String>, path: &String) -> (r: bool)
    ensures
        r == excluded_spec(views_of(patterns@), path@),
{
    let n = patterns.len();
    let mut i: usize = 0;
    loop
        invariant
            i <= n,
            n == patterns@.len(),
            forall|k: int| 0 <= k < i ==> !glob_matches(#[trigger] patterns@[k]@, path@),
        decreases n - i,
    {
        if i >= n {
            proof {
                assert forall|k: int|
                    0 <= k < views_of(patterns@).len() implies !glob_matches(
                    #[trigger] views_of(patterns@)[k],
                    path@,
                ) by {
                    assert(views_of(patterns@)[k] == patterns@[k]@);
                }
            }
            return false;
        }
        if glob_match(patterns[i].as_str(), path.as_str()) {
            assert(views_of(patterns@)[i as int] == patterns@[i as int]@);
            return true;
        }
        i = i + 1;
    }
}

/// The files of `files` that no pattern excludes, in order.
pub open spec fn kept_files_spec(files: Seq<Seq<char>>, patterns: Seq<Seq<char>>) -> Seq<
    Seq<char>,
>
    decreases files.len(),
{
    if files.len() == 0 {
        Seq::empty()
    } else {
        let prev = kept_files_spec(files.drop_last(), patterns);
        if excluded_spec(patterns, files.last()) {
            prev
        } else {
            prev.push(files.last())
        }
    }
}

/// Splits the staging candidates by the exclusion patterns: the files to
/// add, in their given order, and the number excluded.
pub fn select_files_to_add(files: &Vec<String>, patterns: &Vec<String>) -> (r: (Vec<String>, usize))
    ensures
        views_of(r.0@) == kept_files_spec(views_of(files@), views_of(patterns@)),
        r.0@.len() + r.1 == files@.len(),
{
    let n = files.len();
    let mut kept: Vec<String> = Vec::new();
    let mut excluded: usize = 0;
    let mut i: usize = 0;
    while i < n
        invariant
            i <= n,
            n == files@.len(),
            kept@.len() + excluded == i,
            views_of(kept@) == kept_files_spec(
                views_of(files@.subrange(0, i as int)),
                views_of(patterns@),
            ),
        decreases n - i,
    {
        let f = &files[i];
        if matches_any(patterns, f) {
            excluded = excluded + 1;
        } else {
            let ghost k0 = kept@;
            kept.push(f.clone());
            assert(views_of(kept@) =~= views_of(k0).push(files@[i as int]@));
        }
        proof {
            let cur = views_of(files@.subrange(0, (i + 1) as int));
            assert(cur =~= views_of(files@.subrange(0, i as int)).push(files@[i as int]@));
            assert(cur.drop_last() =~= views_of(files@.subrange(0, i as int)));
            assert(cur.last() == files@[i as int]@);
        }
        i = i + 1;
    }
    assert(files@.subrange(0, n as int) =~= files@);
    (kept, excluded)
}

} // verus!
