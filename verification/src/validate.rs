//! Template validation.
//!
//! Validation is purely syntactic: it needs no variable set. In order,
//! - every opening conditional tag, taken left to right, is paired with the
//!   first not-yet-consumed closing tag of the same name after it; an
//!   opener with none fails with `UnclosedConditionalBlock`;
//! - a closing tag left over after all pairing fails with
//!   `UnmatchedClosingTag`, naming the first such tag;
//! - a paired conditional whose name is outside the legal vocabulary fails
//!   with `UnknownConditionalVariable`;
//! - a plain placeholder whose name is outside the legal vocabulary fails
//!   with `UnknownVariable`. In this pass a placeholder name is a non-empty
//!   run of characters other than `}`, `?` and `/`, so conditional tags are
//!   not read as placeholders.

use vstd::prelude::*;

use crate::errors::TemplateError;
use crate::tags::closer_at;
use crate::tags::find_closer_from;
use crate::tags::find_opener_from;
use crate::tags::first_closer_from;
use crate::tags::first_closer_named_from;
use crate::tags::first_opener_from;
use crate::tags::lemma_first_closer_bounds;
use crate::tags::lemma_first_opener_bounds;
use crate::tags::lemma_closer_named_exists;
use crate::tags::lemma_first_closer_named_bounds;
use crate::tags::lemma_no_brace_inside_tag;
use crate::tags::lemma_tag_bounds;
use crate::tags::opener_at;
use crate::tags::tag_end;
use crate::tags::tag_name;
use crate::tags::word_end_exec;
use crate::template::is_legal_name;
use crate::template::legal_name_chars;
use crate::text::chars_eq;
use crate::text::copy_range;
use crate::text::string_from_chars;

verus! {

/// A validation finding, over character sequences.
pub enum TemplateIssue {
    Unclosed(Seq<char>),
    Unmatched(Seq<char>),
    UnknownCond(Seq<char>),
    UnknownVar(Seq<char>),
}

/// The conditional tags of `t` from position `i` on, scanned left to right,
/// each as its position and name; scanning resumes after each tag found.
pub open spec fn openers_from(t: Seq<char>, i: int) -> Seq<(int, Seq<char>)>
    decreases t.len() - i,
    via openers_from_decreases
{
    match first_opener_from(t, i) {
        None => Seq::empty(),
        Some(p) => seq![(p, tag_name(t, p))] + openers_from(t, tag_end(t, p)),
    }
}

#[via_fn]
proof fn openers_from_decreases(t: Seq<char>, i: int) {
    match first_opener_from(t, i) {
        Some(p) => {
            lemma_first_opener_bounds(t, i);
            lemma_tag_bounds(t, p, '?');
        },
        None => {},
    }
}

/// The closing tags of `t` from position `i` on, as positions and names.
pub open spec fn closers_from(t: Seq<char>, i: int) -> Seq<(int, Seq<char>)>
    decreases t.len() - i,
    via closers_from_decreases
{
    match first_closer_from(t, i) {
        None => Seq::empty(),
        Some(p) => seq![(p, tag_name(t, p))] + closers_from(t, tag_end(t, p)),
    }
}

#[via_fn]
proof fn closers_from_decreases(t: Seq<char>, i: int) {
    match first_closer_from(t, i) {
        Some(p) => {
            lemma_first_closer_bounds(t, i);
            lemma_tag_bounds(t, p, '/');
        },
        None => {},
    }
}

/// The first entry of `cls` at index `k` or later that stands strictly
/// after `pos` and carries `name`.
pub open spec fn first_match_from(
    cls: Seq<(int, Seq<char>)>,
    k: int,
    pos: int,
    name: Seq<char>,
) -> Option<int>
    decreases cls.len() - k,
{
    if k < 0 || k >= cls.len() {
        None
    } else if cls[k].0 > pos && cls[k].1 == name {
        Some(k)
    } else {
        first_match_from(cls, k + 1, pos, name)
    }
}

/// Pairs each opener, in order, with the first unconsumed closer of the
/// same name after it. Returns the unconsumed closers on success, or the
/// name of the first opener that has no match.
pub open spec fn pair_all(ops: Seq<(int, Seq<char>)>, cls: Seq<(int, Seq<char>)>) -> Result<
    Seq<(int, Seq<char>)>,
    Seq<char>,
>
    decreases ops.len(),
    via pair_all_decreases
{
    if ops.len() == 0 {
        Ok(cls)
    } else {
        match first_match_from(cls, 0, ops[0].0, ops[0].1) {
            None => Err(ops[0].1),
            Some(k) => pair_all(ops.subrange(1, ops.len() as int), cls.remove(k)),
        }
    }
}

#[via_fn]
proof fn pair_all_decreases(ops: Seq<(int, Seq<char>)>, cls: Seq<(int, Seq<char>)>) {
    if ops.len() > 0 {
        if first_match_from(cls, 0, ops[0].0, ops[0].1) is Some {
            lemma_first_match_bounds(cls, 0, ops[0].0, ops[0].1);
        }
    }
}

pub proof fn lemma_first_match_bounds(
    cls: Seq<(int, Seq<char>)>,
    k: int,
    pos: int,
    name: Seq<char>,
)
    ensures
        match first_match_from(cls, k, pos, name) {
            Some(m) => k <= m < cls.len() && cls[m].0 > pos && cls[m].1 == name,
            None => true,
        },
    decreases cls.len() - k,
{
    if 0 <= k < cls.len() && !(cls[k].0 > pos && cls[k].1 == name) {
        lemma_first_match_bounds(cls, k + 1, pos, name);
    }
}

/// The name of the first conditional in `ops`, from index `k` on, that is
/// outside the legal vocabulary.
pub open spec fn first_illegal_cond_from(ops: Seq<(int, Seq<char>)>, k: int) -> Option<Seq<char>>
    decreases ops.len() - k,
{
    if k < 0 || k >= ops.len() {
        None
    } else if !is_legal_name(ops[k].1) {
        Some(ops[k].1)
    } else {
        first_illegal_cond_from(ops, k + 1)
    }
}

/// The characters allowed inside a validation-pass placeholder name.
pub open spec fn vname_char(c: char) -> bool {
    c != '}' && c != '?' && c != '/'
}

/// The end of the run of validation-name characters starting at `i`.
pub open spec fn vrun_end(t: Seq<char>, i: int) -> int
    decreases t.len() - i,
{
    if 0 <= i && i < t.len() && vname_char(t[i]) {
        vrun_end(t, i + 1)
    } else {
        i
    }
}

pub proof fn lemma_vrun_end_bounds(t: Seq<char>, i: int)
    requires
        0 <= i <= t.len(),
    ensures
        i <= vrun_end(t, i) <= t.len(),
    decreases t.len() - i,
{
    if i < t.len() && vname_char(t[i]) {
        lemma_vrun_end_bounds(t, i + 1);
    }
}

/// Whether a validation-pass placeholder begins at `i`: an opening brace,
/// a non-empty run of characters other than `}`, `?`, `/`, and a closing
/// brace.
pub open spec fn vplaceholder_at(t: Seq<char>, i: int) -> bool {
    &&& 0 <= i
    &&& i < t.len()
    &&& t[i] == '{'
    &&& vrun_end(t, i + 1) > i + 1
    &&& vrun_end(t, i + 1) < t.len()
    &&& t[vrun_end(t, i + 1)] == '}'
}

/// The name of the validation-pass placeholder at `i`.
pub open spec fn vplaceholder_name(t: Seq<char>, i: int) -> Seq<char> {
    t.subrange(i + 1, vrun_end(t, i + 1))
}

/// The index one past the validation-pass placeholder at `i`.
pub open spec fn vplaceholder_end(t: Seq<char>, i: int) -> int {
    vrun_end(t, i + 1) + 1
}

/// The first validation-pass placeholder at or after `i`.
pub open spec fn first_vplaceholder_from(t: Seq<char>, i: int) -> Option<int>
    decreases t.len() - i,
{
    if i >= t.len() {
        None
    } else if vplaceholder_at(t, i) {
        Some(i)
    } else {
        first_vplaceholder_from(t, i + 1)
    }
}

pub proof fn lemma_first_vplaceholder_bounds(t: Seq<char>, i: int)
    ensures
        match first_vplaceholder_from(t, i) {
            Some(p) => i <= p && vplaceholder_at(t, p),
            None => true,
        },
    decreases t.len() - i,
{
    if i < t.len() && !vplaceholder_at(t, i) {
        lemma_first_vplaceholder_bounds(t, i + 1);
    }
}

/// The name of the first placeholder at or after `i` that is outside the
/// legal vocabulary, scanning past each placeholder found.
pub open spec fn first_illegal_placeholder_from(t: Seq<char>, i: int) -> Option<Seq<char>>
    decreases t.len() - i,
    via first_illegal_placeholder_decreases
{
    match first_vplaceholder_from(t, i) {
        None => None,
        Some(p) => {
            if !is_legal_name(vplaceholder_name(t, p)) {
                Some(vplaceholder_name(t, p))
            } else {
                first_illegal_placeholder_from(t, vplaceholder_end(t, p))
            }
        },
    }
}

#[via_fn]
proof fn first_illegal_placeholder_decreases(t: Seq<char>, i: int) {
    match first_vplaceholder_from(t, i) {
        Some(p) => {
            lemma_first_vplaceholder_bounds(t, i);
            lemma_vrun_end_bounds(t, p + 1);
        },
        None => {},
    }
}

/// The validation outcome for a template: `None` when it is valid, the
/// first finding otherwise, in the order unclosed opener, unmatched
/// closer, unknown conditional name, unknown placeholder name.
pub open spec fn validate_spec(t: Seq<char>) -> Option<TemplateIssue> {
    let ops = openers_from(t, 0);
    let cls = closers_from(t, 0);
    match pair_all(ops, cls) {
        Err(n) => Some(TemplateIssue::Unclosed(n)),
        Ok(rem) => if rem.len() > 0 {
            Some(TemplateIssue::Unmatched(rem[0].1))
        } else {
            match first_illegal_cond_from(ops, 0) {
                Some(n) => Some(TemplateIssue::UnknownCond(n)),
                None => match first_illegal_placeholder_from(t, 0) {
                    Some(n) => Some(TemplateIssue::UnknownVar(n)),
                    None => None,
                },
            }
        },
    }
}

/// Whether a returned error carries the same finding as the spec-level
/// issue.
pub open spec fn issue_corresponds(e: TemplateError, issue: TemplateIssue) -> bool {
    match issue {
        TemplateIssue::Unclosed(n) => e matches TemplateError::UnclosedConditionalBlock(s) && s@
            == n,
        TemplateIssue::Unmatched(n) => e matches TemplateError::UnmatchedClosingTag(s) && s@ == n,
        TemplateIssue::UnknownCond(n) => e matches TemplateError::UnknownConditionalVariable(s)
            && s@ == n,
        TemplateIssue::UnknownVar(n) => e matches TemplateError::UnknownVariable(s) && s@ == n,
    }
}

/// The view of collected tags: each position as an integer, each name as a
/// character sequence.
pub open spec fn tags_view(s: Seq<(usize, Vec<char>)>) -> Seq<(int, Seq<char>)> {
    s.map_values(|p: (usize, Vec<char>)| (p.0 as int, p.1@))
}

/// Collects the opening conditional tags of `t`, in order.
fn collect_openers(t: &Vec<char>) -> (r: Vec<(usize, Vec<char>)>)
    ensures
        tags_view(r@) == openers_from(t@, 0),
{
    let n = t.len();
    let mut r: Vec<(usize, Vec<char>)> = Vec::new();
    let mut i: usize = 0;
    loop
        invariant
            i <= n,
            n == t@.len(),
            openers_from(t@, 0) == tags_view(r@) + openers_from(t@, i as int),
        decreases t@.len() - i,
    {
        match find_opener_from(t, i) {
            None => {
                assert(openers_from(t@, i as int) =~= Seq::<(int, Seq<char>)>::empty());
                assert(tags_view(r@) =~= tags_view(r@) + openers_from(t@, i as int));
                return r;
            },
            Some(p) => {
                proof {
                    lemma_first_opener_bounds(t@, i as int);
                    lemma_tag_bounds(t@, p as int, '?');
                }
                let ghost r0 = r@;
                let ghost i0 = i as int;
                let e = word_end_exec(t, p + 2);
                let name = copy_range(t, p + 2, e);
                assert(name@ == tag_name(t@, p as int));
                r.push((p, name));
                i = e + 1;
                proof {
                    assert(i as int == tag_end(t@, p as int));
                    assert(openers_from(t@, i0) == seq![(p as int, tag_name(t@, p as int))]
                        + openers_from(t@, i as int));
                    assert(tags_view(r@) =~= tags_view(r0) + seq![
                        (p as int, tag_name(t@, p as int)),
                    ]);
                    assert(tags_view(r0) + openers_from(t@, i0) =~= tags_view(r@) + openers_from(
                        t@,
                        i as int,
                    ));
                }
            },
        }
    }
}

/// Collects the closing conditional tags of `t`, in order.
fn collect_closers(t: &Vec<char>) -> (r: Vec<(usize, Vec<char>)>)
    ensures
        tags_view(r@) == closers_from(t@, 0),
{
    let n = t.len();
    let mut r: Vec<(usize, Vec<char>)> = Vec::new();
    let mut i: usize = 0;
    loop
        invariant
            i <= n,
            n == t@.len(),
            closers_from(t@, 0) == tags_view(r@) + closers_from(t@, i as int),
        decreases t@.len() - i,
    {
        match find_closer_from(t, i) {
            None => {
                assert(closers_from(t@, i as int) =~= Seq::<(int, Seq<char>)>::empty());
                assert(tags_view(r@) =~= tags_view(r@) + closers_from(t@, i as int));
                return r;
            },
            Some(p) => {
                proof {
                    lemma_first_closer_bounds(t@, i as int);
                    lemma_tag_bounds(t@, p as int, '/');
                }
                let ghost r0 = r@;
                let ghost i0 = i as int;
                let e = word_end_exec(t, p + 2);
                let name = copy_range(t, p + 2, e);
                assert(name@ == tag_name(t@, p as int));
                r.push((p, name));
                i = e + 1;
                proof {
                    assert(i as int == tag_end(t@, p as int));
                    assert(closers_from(t@, i0) == seq![(p as int, tag_name(t@, p as int))]
                        + closers_from(t@, i as int));
                    assert(tags_view(r@) =~= tags_view(r0) + seq![
                        (p as int, tag_name(t@, p as int)),
                    ]);
                    assert(tags_view(r0) + closers_from(t@, i0) =~= tags_view(r@) + closers_from(
                        t@,
                        i as int,
                    ));
                }
            },
        }
    }
}

/// Finds the first collected closer after `pos` carrying `name`.
fn find_match(cls: &Vec<(usize, Vec<char>)>, pos: usize, name: &Vec<char>) -> (r: Option<usize>)
    ensures
        match r {
            Some(k) => first_match_from(tags_view(cls@), 0, pos as int, name@) == Some(k as int)
                && k < cls@.len(),
            None => first_match_from(tags_view(cls@), 0, pos as int, name@) is None,
        },
{
    let n = cls.len();
    let mut k: usize = 0;
    loop
        invariant
            k <= n,
            n == cls@.len(),
            first_match_from(tags_view(cls@), 0, pos as int, name@) == first_match_from(
                tags_view(cls@),
                k as int,
                pos as int,
                name@,
            ),
        decreases n - k,
    {
        if k >= n {
            return None;
        }
        let hit = cls[k].0 > pos && chars_eq(&cls[k].1, name);
        proof {
            assert(tags_view(cls@)[k as int] == (cls@[k as int].0 as int, cls@[k as int].1@));
        }
        if hit {
            return Some(k);
        }
        k = k + 1;
    }
}

proof fn lemma_tags_view_remove(s: Seq<(usize, Vec<char>)>, k: int)
    requires
        0 <= k < s.len(),
    ensures
        tags_view(s.remove(k)) == tags_view(s).remove(k),
{
    assert(tags_view(s.remove(k)) =~= tags_view(s).remove(k));
}

/// Pairs collected openers against collected closers; returns the
/// unconsumed closers, or the name of the first unclosed opener.
#[verifier::loop_isolation(false)]
fn pair_tags(ops: &Vec<(usize, Vec<char>)>, cls_in: Vec<(usize, Vec<char>)>) -> (r: Result<
    Vec<(usize, Vec<char>)>,
    String,
>)
    ensures
        match r {
            Ok(rem) => pair_all(tags_view(ops@), tags_view(cls_in@)) == Ok::<
                Seq<(int, Seq<char>)>,
                Seq<char>,
            >(tags_view(rem@)),
            Err(nm) => pair_all(tags_view(ops@), tags_view(cls_in@)) == Err::<
                Seq<(int, Seq<char>)>,
                Seq<char>,
            >(nm@),
        },
{
    let mut cls = cls_in;
    let ghost cls0 = cls@;
    let n = ops.len();
    let mut oi: usize = 0;
    assert(tags_view(ops@).subrange(0, n as int) =~= tags_view(ops@));
    loop
        invariant
            oi <= n,
            n == ops@.len(),
            pair_all(tags_view(ops@), tags_view(cls0)) == pair_all(
                tags_view(ops@).subrange(oi as int, n as int),
                tags_view(cls@),
            ),
        decreases n - oi,
    {
        if oi >= n {
            assert(tags_view(ops@).subrange(oi as int, n as int) =~= Seq::<
                (int, Seq<char>),
            >::empty());
            return Ok(cls);
        }
        let ghost rem_ops = tags_view(ops@).subrange(oi as int, n as int);
        proof {
            assert(rem_ops[0] == tags_view(ops@)[oi as int]);
            assert(tags_view(ops@)[oi as int] == (ops@[oi as int].0 as int, ops@[oi as int].1@));
        }
        let pos = ops[oi].0;
        let name_ref = &ops[oi].1;
        match find_match(&cls, pos, name_ref) {
            None => {
                let nm = string_from_chars(name_ref);
                proof {
                    assert(pair_all(rem_ops, tags_view(cls@)) == Err::<
                        Seq<(int, Seq<char>)>,
                        Seq<char>,
                    >(rem_ops[0].1));
                }
                return Err(nm);
            },
            Some(k) => {
                let ghost cls_before = cls@;
                cls.remove(k);
                proof {
                    lemma_tags_view_remove(cls_before, k as int);
                    assert(pair_all(rem_ops, tags_view(cls_before)) == pair_all(
                        rem_ops.subrange(1, rem_ops.len() as int),
                        tags_view(cls_before).remove(k as int),
                    ));
                    assert(rem_ops.subrange(1, rem_ops.len() as int) =~= tags_view(
                        ops@,
                    ).subrange(oi + 1 as int, n as int));
                }
                oi = oi + 1;
            },
        }
    }
}

/// Finds the first collected conditional whose name is outside the legal
/// vocabulary.
fn find_illegal_cond(ops: &Vec<(usize, Vec<char>)>) -> (r: Option<String>)
    ensures
        match r {
            Some(nm) => first_illegal_cond_from(tags_view(ops@), 0) == Some(nm@),
            None => first_illegal_cond_from(tags_view(ops@), 0) is None,
        },
{
    let n = ops.len();
    let mut k: usize = 0;
    loop
        invariant
            k <= n,
            n == ops@.len(),
            first_illegal_cond_from(tags_view(ops@), 0) == first_illegal_cond_from(
                tags_view(ops@),
                k as int,
            ),
        decreases n - k,
    {
        if k >= n {
            return None;
        }
        proof {
            assert(tags_view(ops@)[k as int] == (ops@[k as int].0 as int, ops@[k as int].1@));
        }
        if !legal_name_chars(&ops[k].1) {
            return Some(string_from_chars(&ops[k].1));
        }
        k = k + 1;
    }
}

/// Computes `vrun_end` on a character vector.
fn vrun_end_exec(t: &Vec<char>, i: usize) -> (r: usize)
    requires
        i <= t@.len(),
    ensures
        r == vrun_end(t@, i as int),
        i <= r <= t@.len(),
{
    let mut j: usize = i;
    loop
        invariant
            i <= j <= t@.len(),
            j <= t.len(),
            vrun_end(t@, i as int) == vrun_end(t@, j as int),
        decreases t@.len() - j,
    {
        if j >= t.len() {
            return j;
        }
        let c = t[j];
        if c == '}' || c == '?' || c == '/' {
            return j;
        }
        j = j + 1;
    }
}

/// Finds the first validation-pass placeholder with an illegal name.
fn find_illegal_placeholder(t: &Vec<char>) -> (r: Option<String>)
    ensures
        match r {
            Some(nm) => first_illegal_placeholder_from(t@, 0) == Some(nm@),
            None => first_illegal_placeholder_from(t@, 0) is None,
        },
{
    let n = t.len();
    let mut i: usize = 0;
    loop
        invariant
            i <= n,
            n == t@.len(),
            first_illegal_placeholder_from(t@, 0) == first_illegal_placeholder_from(t@, i as int),
        decreases n - i,
    {
        if i >= n {
            return None;
        }
        if t[i] == '{' {
            let e = vrun_end_exec(t, i + 1);
            if e > i + 1 && e < n && t[e] == '}' {
                assert(vplaceholder_at(t@, i as int));
                assert(first_vplaceholder_from(t@, i as int) == Some(i as int));
                let name = copy_range(t, i + 1, e);
                assert(name@ == vplaceholder_name(t@, i as int));
                if !legal_name_chars(&name) {
                    return Some(string_from_chars(&name));
                }
                i = e + 1;
                continue;
            }
        }
        assert(!vplaceholder_at(t@, i as int));
        i = i + 1;
    }
}

/// Validates a template against the tag grammar and the legal variable
/// vocabulary. Returns `Ok` exactly when the template is valid; otherwise
/// the first finding, in the order unclosed opener, unmatched closer,
/// unknown conditional name, unknown placeholder name.
pub fn validate_template(template: &str) -> (r: Result<(), TemplateError>)
    ensures
        r is Ok <==> validate_spec(template@) is None,
        match r {
            Ok(_) => validate_spec(template@) is None,
            Err(e) => validate_spec(template@) matches Some(issue) && issue_corresponds(e, issue),
        },
{
    let t = crate::text::chars_of(template);
    let ops = collect_openers(&t);
    let cls = collect_closers(&t);
    match pair_tags(&ops, cls) {
        Err(name) => Err(TemplateError::UnclosedConditionalBlock(name)),
        Ok(rem) => {
            if rem.len() > 0 {
                proof {
                    assert(tags_view(rem@)[0] == (rem@[0].0 as int, rem@[0].1@));
                }
                let nm = string_from_chars(&rem[0].1);
                return Err(TemplateError::UnmatchedClosingTag(nm));
            }
            assert(tags_view(rem@) =~= Seq::<(int, Seq<char>)>::empty());
            match find_illegal_cond(&ops) {
                Some(nm) => Err(TemplateError::UnknownConditionalVariable(nm)),
                None => {
                    match find_illegal_placeholder(&t) {
                        Some(nm) => Err(TemplateError::UnknownVariable(nm)),
                        None => Ok(()),
                    }
                },
            }
        },
    }
}

/// Whether some closing tag named like the opener at `p` stands after `p`.
pub open spec fn closed_after(t: Seq<char>, p: int) -> bool {
    exists|q: int| q > p && #[trigger] closer_at(t, q) && tag_name(t, q) == tag_name(t, p)
}

/// Whether every opening tag of `t` has a closing tag of the same name
/// somewhere after it.
pub open spec fn every_opener_closed(t: Seq<char>) -> bool {
    forall|p: int| #[trigger] opener_at(t, p) ==> closed_after(t, p)
}

/// Whether `cls` holds an entry after `op`'s position carrying `op`'s name.
pub open spec fn has_closer_entry(cls: Seq<(int, Seq<char>)>, op: (int, Seq<char>)) -> bool {
    exists|k: int| 0 <= k < cls.len() && (#[trigger] cls[k]).0 > op.0 && cls[k].1 == op.1
}

/// Every opening tag at or after `i` appears in the collected opener list.
proof fn lemma_openers_complete(t: Seq<char>, i: int, p: int)
    requires
        opener_at(t, p),
        i <= p,
    ensures
        exists|oi: int|
            0 <= oi < openers_from(t, i).len() && #[trigger] openers_from(t, i)[oi] == (
                p,
                tag_name(t, p),
            ),
    decreases t.len() - i,
{
    lemma_first_opener_bounds(t, i);
    lemma_tag_bounds(t, p, '?');
    match first_opener_from(t, i) {
        None => {
            assert(!opener_at(t, p));
        },
        Some(p0) => {
            lemma_tag_bounds(t, p0, '?');
            if p0 == p {
                assert(openers_from(t, i)[0] == (p, tag_name(t, p)));
            } else {
                assert(p0 < p);
                if p < tag_end(t, p0) {
                    lemma_no_brace_inside_tag(t, p0, '?', p);
                    assert(false);
                }
                lemma_openers_complete(t, tag_end(t, p0), p);
                let oi = choose|oi: int|
                    0 <= oi < openers_from(t, tag_end(t, p0)).len() && #[trigger] openers_from(
                        t,
                        tag_end(t, p0),
                    )[oi] == (p, tag_name(t, p));
                assert(openers_from(t, i)[oi + 1] == (p, tag_name(t, p)));
            }
        },
    }
}

/// Every entry of the collected closer list is a closing tag with its name.
proof fn lemma_closers_sound(t: Seq<char>, i: int)
    ensures
        forall|k: int|
            0 <= k < closers_from(t, i).len() ==> closer_at(
                t,
                (#[trigger] closers_from(t, i)[k]).0,
            ) && closers_from(t, i)[k].1 == tag_name(t, closers_from(t, i)[k].0),
    decreases t.len() - i,
{
    lemma_first_closer_bounds(t, i);
    match first_closer_from(t, i) {
        None => {},
        Some(p) => {
            lemma_tag_bounds(t, p, '/');
            lemma_closers_sound(t, tag_end(t, p));
            assert forall|k: int| 0 <= k < closers_from(t, i).len() implies closer_at(
                t,
                (#[trigger] closers_from(t, i)[k]).0,
            ) && closers_from(t, i)[k].1 == tag_name(t, closers_from(t, i)[k].0) by {
                if k > 0 {
                    assert(closers_from(t, i)[k] == closers_from(t, tag_end(t, p))[k - 1]);
                }
            }
        },
    }
}

/// When pairing succeeds, every opener entry has a matching closer entry.
proof fn lemma_pair_all_closed(ops: Seq<(int, Seq<char>)>, cls: Seq<(int, Seq<char>)>)
    requires
        pair_all(ops, cls) is Ok,
    ensures
        forall|oi: int| 0 <= oi < ops.len() ==> has_closer_entry(cls, #[trigger] ops[oi]),
    decreases ops.len(),
{
    if ops.len() > 0 {
        let k0 = first_match_from(cls, 0, ops[0].0, ops[0].1)->Some_0;
        lemma_first_match_bounds(cls, 0, ops[0].0, ops[0].1);
        assert(has_closer_entry(cls, ops[0])) by {
            assert(cls[k0].0 > ops[0].0 && cls[k0].1 == ops[0].1);
        }
        let tail = ops.subrange(1, ops.len() as int);
        let rest = cls.remove(k0);
        lemma_pair_all_closed(tail, rest);
        assert forall|oi: int| 1 <= oi < ops.len() implies has_closer_entry(
            cls,
            #[trigger] ops[oi],
        ) by {
            assert(tail[oi - 1] == ops[oi]);
            assert(has_closer_entry(rest, tail[oi - 1]));
            let k = choose|k: int|
                0 <= k < rest.len() && (#[trigger] rest[k]).0 > tail[oi - 1].0 && rest[k].1
                    == tail[oi - 1].1;
            if k < k0 {
                assert(rest[k] == cls[k]);
            } else {
                assert(rest[k] == cls[k + 1]);
            }
        }
    }
}

/// When pairing the collected tags succeeds, every opening tag of the
/// template has a closing tag of the same name after it.
proof fn lemma_every_opener_closed(t: Seq<char>)
    requires
        pair_all(openers_from(t, 0), closers_from(t, 0)) is Ok,
    ensures
        every_opener_closed(t),
{
    let ops = openers_from(t, 0);
    let cls = closers_from(t, 0);
    lemma_pair_all_closed(ops, cls);
    lemma_closers_sound(t, 0);
    assert forall|p: int| #[trigger] opener_at(t, p) implies closed_after(t, p) by {
        lemma_openers_complete(t, 0, p);
        let oi = choose|oi: int|
            0 <= oi < ops.len() && #[trigger] ops[oi] == (p, tag_name(t, p));
        assert(has_closer_entry(cls, ops[oi]));
        let k = choose|k: int|
            0 <= k < cls.len() && (#[trigger] cls[k]).0 > ops[oi].0 && cls[k].1 == ops[oi].1;
        let q = cls[k].0;
        assert(closer_at(t, q) && tag_name(t, q) == tag_name(t, p) && q > p);
    }
}

/// When every opening tag has a matching closing tag after it, the
/// conditional pass cannot fail.
proof fn lemma_resolve_ok(t: Seq<char>, i: int, v: crate::template::TemplateVariables)
    requires
        every_opener_closed(t),
        0 <= i,
    ensures
        crate::render::resolve_conds_from(t, i, v) is Ok,
    decreases t.len() - i,
{
    match first_opener_from(t, i) {
        None => {},
        Some(p) => {
            lemma_first_opener_bounds(t, i);
            lemma_tag_bounds(t, p, '?');
            assert(closed_after(t, p));
            let q = choose|q: int|
                q > p && #[trigger] closer_at(t, q) && tag_name(t, q) == tag_name(t, p);
            if q < tag_end(t, p) {
                lemma_no_brace_inside_tag(t, p, '?', q);
                assert(false);
            }
            lemma_closer_named_exists(t, tag_end(t, p), tag_name(t, p), q);
            let c = first_closer_named_from(t, tag_end(t, p), tag_name(t, p))->Some_0;
            lemma_first_closer_named_bounds(t, tag_end(t, p), tag_name(t, p));
            lemma_tag_bounds(t, c, '/');
            lemma_resolve_ok(t, tag_end(t, c), v);
        },
    }
}

/// Validation and rendering agree: a template that validates renders
/// without error, for every variable set. No template validates
/// successfully yet raises an unclosed-block error at render time.
pub proof fn lemma_validate_render_agree(t: Seq<char>, v: crate::template::TemplateVariables)
    requires
        validate_spec(t) is None,
    ensures
        crate::render::render_spec(t, v) is Ok,
{
    assert(pair_all(openers_from(t, 0), closers_from(t, 0)) is Ok);
    lemma_every_opener_closed(t);
    lemma_resolve_ok(t, 0, v);
}

} // verus!
