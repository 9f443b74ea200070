//! The template tag grammar.
//!
//! A template holds three surface forms:
//! - opening conditional tags `{?name}`,
//! - closing conditional tags `{/name}`,
//! - plain placeholders `{name}`.
//!
//! Tag names consist of one or more word characters (ASCII letters, digits,
//! underscore). Placeholder names in the substitution pass are any non-empty
//! run of characters other than `}`; in the validation pass a placeholder
//! name is a non-empty run of characters other than `}`, `?` and `/`.
//!
//! This module defines the grammar as spec functions over `Seq<char>` and
//! provides executable scanners proved against them.

use vstd::prelude::*;

use crate::text::first_occurrence_from;

verus! {

/// The characters that may appear in a conditional tag name.
pub open spec fn is_word_char(c: char) -> bool {
    ('a' <= c && c <= 'z') || ('A' <= c && c <= 'Z') || ('0' <= c && c <= '9') || c == '_'
}

/// Whether `c` is a word character.
pub fn word_char(c: char) -> (r: bool)
    ensures
        r == is_word_char(c),
{
    ('a' <= c && c <= 'z') || ('A' <= c && c <= 'Z') || ('0' <= c && c <= '9') || c == '_'
}

/// The index of the first non-word character at or after `i`.
pub open spec fn word_end(t: Seq<char>, i: int) -> int
    decreases t.len() - i,
{
    if 0 <= i && i < t.len() && is_word_char(t[i]) {
        word_end(t, i + 1)
    } else {
        i
    }
}

pub proof fn lemma_word_end_bounds(t: Seq<char>, i: int)
    requires
        0 <= i <= t.len(),
    ensures
        i <= word_end(t, i) <= t.len(),
    decreases t.len() - i,
{
    if i < t.len() && is_word_char(t[i]) {
        lemma_word_end_bounds(t, i + 1);
    }
}

/// Computes `word_end` on a character vector.
pub fn word_end_exec(t: &Vec<char>, i: usize) -> (r: usize)
    requires
        i <= t@.len(),
    ensures
        r == word_end(t@, i as int),
        i <= r <= t@.len(),
{
    let mut j: usize = i;
    loop
        invariant
            i <= j <= t@.len(),
            j <= t.len(),
            word_end(t@, i as int) == word_end(t@, j as int),
        decreases t@.len() - j,
    {
        if j >= t.len() {
            return j;
        }
        if !word_char(t[j]) {
            return j;
        }
        j = j + 1;
    }
}

/// Whether a conditional tag with mark character `mark` (`?` for openers,
/// `/` for closers) begins at index `i` of `t`.
pub open spec fn tag_at(t: Seq<char>, i: int, mark: char) -> bool {
    &&& 0 <= i
    &&& i + 1 < t.len()
    &&& t[i] == '{'
    &&& t[i + 1] == mark
    &&& word_end(t, i + 2) > i + 2
    &&& word_end(t, i + 2) < t.len()
    &&& t[word_end(t, i + 2)] == '}'
}

/// The name of the tag that begins at `i`.
pub open spec fn tag_name(t: Seq<char>, i: int) -> Seq<char> {
    t.subrange(i + 2, word_end(t, i + 2))
}

/// The index one past the tag that begins at `i`.
pub open spec fn tag_end(t: Seq<char>, i: int) -> int {
    word_end(t, i + 2) + 1
}

/// Whether an opening conditional tag `{?name}` begins at `i`.
pub open spec fn opener_at(t: Seq<char>, i: int) -> bool {
    tag_at(t, i, '?')
}

/// Whether a closing conditional tag `{/name}` begins at `i`.
pub open spec fn closer_at(t: Seq<char>, i: int) -> bool {
    tag_at(t, i, '/')
}

pub proof fn lemma_tag_bounds(t: Seq<char>, i: int, mark: char)
    requires
        tag_at(t, i, mark),
    ensures
        i + 4 <= tag_end(t, i) <= t.len(),
        tag_name(t, i).len() >= 1,
{
    lemma_word_end_bounds(t, i + 2);
}

/// Inside a tag, every character after the opening brace is the mark, a word
/// character, or the closing brace; in particular no `{` occurs there.
pub proof fn lemma_no_brace_inside_tag(t: Seq<char>, i: int, mark: char, k: int)
    requires
        tag_at(t, i, mark),
        mark == '?' || mark == '/',
        i < k < tag_end(t, i),
    ensures
        t[k] != '{',
    decreases k,
{
    if k == i + 1 {
        // the mark character
    } else if k == word_end(t, i + 2) {
        // the closing brace
    } else {
        // a word character: show word_end has not been reached before k
        lemma_word_run(t, i + 2, k);
    }
}

/// Every index before the word-run end holds a word character.
pub proof fn lemma_word_run(t: Seq<char>, i: int, k: int)
    requires
        0 <= i <= k < word_end(t, i),
    ensures
        is_word_char(t[k]),
    decreases k - i,
{
    if i < k {
        lemma_word_run(t, i + 1, k);
    }
}

/// Checks whether a tag with the given mark begins at `i`.
pub fn tag_at_exec(t: &Vec<char>, i: usize, mark: char) -> (r: bool)
    requires
        i <= t@.len(),
    ensures
        r == tag_at(t@, i as int, mark),
{
    if i >= t.len() {
        return false;
    }
    if i + 1 >= t.len() {
        return false;
    }
    if t[i] != '{' || t[i + 1] != mark {
        return false;
    }
    let e = word_end_exec(t, i + 2);
    e > i + 2 && e < t.len() && t[e] == '}'
}

/// The first opening tag at or after `i`.
pub open spec fn first_opener_from(t: Seq<char>, i: int) -> Option<int>
    decreases t.len() - i,
{
    if i >= t.len() {
        None
    } else if opener_at(t, i) {
        Some(i)
    } else {
        first_opener_from(t, i + 1)
    }
}

pub proof fn lemma_first_opener_bounds(t: Seq<char>, i: int)
    ensures
        match first_opener_from(t, i) {
            Some(p) => i <= p && opener_at(t, p) && forall|k: int|
                i <= k < p ==> !opener_at(t, k),
            None => forall|k: int| i <= k ==> !opener_at(t, k),
        },
    decreases t.len() - i,
{
    if i >= t.len() {
        assert forall|k: int| i <= k implies !opener_at(t, k) by {
            if opener_at(t, k) {
                lemma_tag_bounds(t, k, '?');
            }
        }
    } else if opener_at(t, i) {
    } else {
        lemma_first_opener_bounds(t, i + 1);
    }
}

/// Finds the first opening tag at or after `i`.
pub fn find_opener_from(t: &Vec<char>, i: usize) -> (r: Option<usize>)
    requires
        i <= t@.len(),
    ensures
        match r {
            Some(p) => first_opener_from(t@, i as int) == Some(p as int) && i <= p && p
                <= t@.len(),
            None => first_opener_from(t@, i as int) is None,
        },
{
    let mut j: usize = i;
    loop
        invariant
            i <= j,
            j <= t@.len(),
            j <= t.len(),
            first_opener_from(t@, i as int) == first_opener_from(t@, j as int),
        decreases t@.len() - j,
    {
        if j >= t.len() {
            return None;
        }
        if tag_at_exec(t, j, '?') {
            return Some(j);
        }
        j = j + 1;
    }
}

/// The first closing tag at or after `i`.
pub open spec fn first_closer_from(t: Seq<char>, i: int) -> Option<int>
    decreases t.len() - i,
{
    if i >= t.len() {
        None
    } else if closer_at(t, i) {
        Some(i)
    } else {
        first_closer_from(t, i + 1)
    }
}

pub proof fn lemma_first_closer_bounds(t: Seq<char>, i: int)
    ensures
        match first_closer_from(t, i) {
            Some(p) => i <= p && closer_at(t, p) && forall|k: int|
                i <= k < p ==> !closer_at(t, k),
            None => forall|k: int| i <= k ==> !closer_at(t, k),
        },
    decreases t.len() - i,
{
    if i >= t.len() {
        assert forall|k: int| i <= k implies !closer_at(t, k) by {
            if closer_at(t, k) {
                lemma_tag_bounds(t, k, '/');
            }
        }
    } else if closer_at(t, i) {
    } else {
        lemma_first_closer_bounds(t, i + 1);
    }
}

/// Finds the first closing tag at or after `i`.
pub fn find_closer_from(t: &Vec<char>, i: usize) -> (r: Option<usize>)
    requires
        i <= t@.len(),
    ensures
        match r {
            Some(p) => first_closer_from(t@, i as int) == Some(p as int) && i <= p && p
                <= t@.len(),
            None => first_closer_from(t@, i as int) is None,
        },
{
    let mut j: usize = i;
    loop
        invariant
            i <= j,
            j <= t@.len(),
            j <= t.len(),
            first_closer_from(t@, i as int) == first_closer_from(t@, j as int),
        decreases t@.len() - j,
    {
        if j >= t.len() {
            return None;
        }
        if tag_at_exec(t, j, '/') {
            return Some(j);
        }
        j = j + 1;
    }
}

/// The first closing tag named `name` at or after `i`.
pub open spec fn first_closer_named_from(t: Seq<char>, i: int, name: Seq<char>) -> Option<int>
    decreases t.len() - i,
{
    if i >= t.len() {
        None
    } else if closer_at(t, i) && tag_name(t, i) == name {
        Some(i)
    } else {
        first_closer_named_from(t, i + 1, name)
    }
}

pub proof fn lemma_first_closer_named_bounds(t: Seq<char>, i: int, name: Seq<char>)
    ensures
        match first_closer_named_from(t, i, name) {
            Some(p) => i <= p && closer_at(t, p) && tag_name(t, p) == name,
            None => forall|k: int| i <= k ==> !(closer_at(t, k) && tag_name(t, k) == name),
        },
    decreases t.len() - i,
{
    if i >= t.len() {
        assert forall|k: int| i <= k implies !(closer_at(t, k) && tag_name(t, k) == name) by {
            if closer_at(t, k) {
                lemma_tag_bounds(t, k, '/');
            }
        }
    } else if closer_at(t, i) && tag_name(t, i) == name {
    } else {
        lemma_first_closer_named_bounds(t, i + 1, name);
    }
}

/// If some closing tag named `name` stands at or after `i`, the search for
/// the first one succeeds.
pub proof fn lemma_closer_named_exists(t: Seq<char>, i: int, name: Seq<char>, q: int)
    requires
        i <= q,
        closer_at(t, q),
        tag_name(t, q) == name,
    ensures
        first_closer_named_from(t, i, name) is Some,
    decreases q - i,
{
    lemma_tag_bounds(t, q, '/');
    if i < q && !(closer_at(t, i) && tag_name(t, i) == name) {
        lemma_closer_named_exists(t, i + 1, name, q);
    }
}

/// Finds the first closing tag named `name` at or after `i`.
pub fn find_closer_named_from(t: &Vec<char>, i: usize, name: &Vec<char>) -> (r: Option<usize>)
    requires
        i <= t@.len(),
    ensures
        match r {
            Some(p) => first_closer_named_from(t@, i as int, name@) == Some(p as int) && i <= p
                && p <= t@.len(),
            None => first_closer_named_from(t@, i as int, name@) is None,
        },
{
    let mut j: usize = i;
    loop
        invariant
            i <= j,
            j <= t@.len(),
            j <= t.len(),
            first_closer_named_from(t@, i as int, name@) == first_closer_named_from(
                t@,
                j as int,
                name@,
            ),
        decreases t@.len() - j,
    {
        if j >= t.len() {
            return None;
        }
        if tag_at_exec(t, j, '/') {
            proof {
                lemma_tag_bounds(t@, j as int, '/');
            }
            let e = word_end_exec(t, j + 2);
            let nm = crate::text::copy_range(t, j + 2, e);
            if crate::text::chars_eq(&nm, name) {
                return Some(j);
            }
        }
        j = j + 1;
    }
}

/// Whether a substitution-pass placeholder `{name}` begins at `i`: an opening
/// brace with a closing brace at least two characters later and no closing
/// brace between.
pub open spec fn placeholder_at(t: Seq<char>, i: int) -> bool {
    &&& 0 <= i
    &&& i < t.len()
    &&& t[i] == '{'
    &&& match first_occurrence_from(t, i + 1, seq!['}']) {
        Some(j) => j > i + 1,
        None => false,
    }
}

/// The index of the closing brace of the placeholder that begins at `i`.
pub open spec fn placeholder_close(t: Seq<char>, i: int) -> int {
    first_occurrence_from(t, i + 1, seq!['}'])->Some_0
}

/// The name of the placeholder that begins at `i`.
pub open spec fn placeholder_name(t: Seq<char>, i: int) -> Seq<char> {
    t.subrange(i + 1, placeholder_close(t, i))
}

/// The first substitution-pass placeholder at or after `i`.
pub open spec fn first_placeholder_from(t: Seq<char>, i: int) -> Option<int>
    decreases t.len() - i,
{
    if i >= t.len() {
        None
    } else if placeholder_at(t, i) {
        Some(i)
    } else {
        first_placeholder_from(t, i + 1)
    }
}

pub proof fn lemma_first_occurrence_props(s: Seq<char>, i: int, pat: Seq<char>)
    requires
        0 <= i,
    ensures
        match first_occurrence_from(s, i, pat) {
            Some(p) => i <= p && p + pat.len() <= s.len() && s.subrange(p, p + pat.len()) == pat
                && forall|k: int|
                i <= k < p ==> #[trigger] s.subrange(k, k + pat.len()) != pat,
            None => forall|k: int|
                i <= k && k + pat.len() <= s.len() ==> #[trigger] s.subrange(k, k + pat.len())
                    != pat,
        },
    decreases s.len() - i,
{
    if i > s.len() {
    } else if crate::text::occurs_at(s, i, pat) {
    } else if i >= s.len() {
    } else {
        lemma_first_occurrence_props(s, i + 1, pat);
    }
}

pub proof fn lemma_placeholder_bounds(t: Seq<char>, i: int)
    requires
        placeholder_at(t, i),
    ensures
        i + 1 < placeholder_close(t, i) < t.len(),
        t[placeholder_close(t, i)] == '}',
        placeholder_name(t, i).len() >= 1,
{
    lemma_first_occurrence_props(t, i + 1, seq!['}']);
    let j = placeholder_close(t, i);
    assert(t.subrange(j, j + 1) == seq!['}']);
    assert(t.subrange(j, j + 1)[0] == t[j]);
}

pub proof fn lemma_first_placeholder_bounds(t: Seq<char>, i: int)
    ensures
        match first_placeholder_from(t, i) {
            Some(p) => i <= p && placeholder_at(t, p),
            None => forall|k: int| i <= k ==> !placeholder_at(t, k),
        },
    decreases t.len() - i,
{
    if i >= t.len() {
        assert forall|k: int| i <= k implies !placeholder_at(t, k) by {}
    } else if placeholder_at(t, i) {
    } else {
        lemma_first_placeholder_bounds(t, i + 1);
    }
}

/// Finds the first right brace at or after `i`.
fn find_rbrace_from(t: &Vec<char>, i: usize) -> (r: Option<usize>)
    requires
        i <= t@.len(),
    ensures
        match r {
            Some(p) => first_occurrence_from(t@, i as int, seq!['}']) == Some(p as int) && i <= p
                && p < t@.len() && t@[p as int] == '}',
            None => first_occurrence_from(t@, i as int, seq!['}']) is None,
        },
{
    let pat: Vec<char> = vec!['}'];
    assert(pat@ =~= seq!['}']);
    let r = crate::text::find_occurrence_from(t, i, &pat);
    proof {
        lemma_first_occurrence_props(t@, i as int, seq!['}']);
        if r is Some {
            let p = r->Some_0 as int;
            assert(t@.subrange(p, p + 1) == seq!['}']);
            assert(t@.subrange(p, p + 1)[0] == t@[p]);
        }
    }
    r
}

/// Checks whether a substitution-pass placeholder begins at `i`, returning
/// the index of its closing brace.
pub fn placeholder_at_exec(t: &Vec<char>, i: usize) -> (r: Option<usize>)
    requires
        i < t@.len(),
    ensures
        match r {
            Some(j) => placeholder_at(t@, i as int) && j == placeholder_close(t@, i as int) && i
                + 1 < j < t@.len(),
            None => !placeholder_at(t@, i as int),
        },
{
    let n = t.len();
    if t[i] != '{' {
        return None;
    }
    assert(i < n);
    match find_rbrace_from(t, i + 1) {
        None => None,
        Some(j) => {
            if j > i + 1 {
                Some(j)
            } else {
                None
            }
        },
    }
}

/// Finds the first substitution-pass placeholder at or after `i`.
pub fn find_placeholder_from(t: &Vec<char>, i: usize) -> (r: Option<(usize, usize)>)
    requires
        i <= t@.len(),
    ensures
        match r {
            Some(pj) => first_placeholder_from(t@, i as int) == Some(pj.0 as int) && i <= pj.0
                && pj.1 == placeholder_close(t@, pj.0 as int) && pj.0 + 1 < pj.1 < t@.len(),
            None => first_placeholder_from(t@, i as int) is None,
        },
{
    let mut j: usize = i;
    loop
        invariant
            i <= j,
            j <= t@.len(),
            j <= t.len(),
            first_placeholder_from(t@, i as int) == first_placeholder_from(t@, j as int),
        decreases t@.len() - j,
    {
        if j >= t.len() {
            return None;
        }
        match placeholder_at_exec(t, j) {
            Some(c) => {
                return Some((j, c));
            },
            None => {},
        }
        j = j + 1;
    }
}

} // verus!
