//! Template rendering: the two-pass evaluation of a template against a
//! variable set.
//!
//! The first pass resolves conditional blocks `{?X}...{/X}`: the first
//! remaining opening tag is paired with the first closing tag of the same
//! name after it; the block is replaced by its content when `X` maps to a
//! non-empty value and by nothing otherwise, and scanning resumes after the
//! closing tag. An opening tag with no matching closer is an error. The
//! second pass replaces every placeholder `{name}` by the variable's mapped
//! value (the empty string for unknown names), in one left-to-right pass
//! that never re-scans substituted values.

use vstd::prelude::*;

use crate::errors::TemplateError;
use crate::tags::first_closer_named_from;
use crate::tags::find_closer_named_from;
use crate::tags::find_opener_from;
use crate::tags::find_placeholder_from;
use crate::tags::first_opener_from;
use crate::tags::first_placeholder_from;
use crate::tags::lemma_first_closer_named_bounds;
use crate::tags::lemma_first_opener_bounds;
use crate::tags::lemma_first_placeholder_bounds;
use crate::tags::lemma_placeholder_bounds;
use crate::tags::lemma_tag_bounds;
use crate::tags::placeholder_close;
use crate::tags::placeholder_name;
use crate::tags::tag_end;
use crate::tags::tag_name;
use crate::tags::word_end_exec;
use crate::template::var_value;
use crate::template::TemplateVariables;
use crate::text::chars_of;
use crate::text::copy_range;
use crate::text::push_chars;
use crate::text::string_from_chars;

verus! {

/// The conditional pass, from position `i` of the template: the resolved
/// text on success, the name of the first unclosed opening tag on failure.
pub open spec fn resolve_conds_from(t: Seq<char>, i: int, v: TemplateVariables) -> Result<
    Seq<char>,
    Seq<char>,
>
    decreases t.len() - i,
    via resolve_conds_decreases
{
    match first_opener_from(t, i) {
        None => Ok(t.subrange(i, t.len() as int)),
        Some(p) => {
            match first_closer_named_from(t, tag_end(t, p), tag_name(t, p)) {
                None => Err(tag_name(t, p)),
                Some(c) => {
                    match resolve_conds_from(t, tag_end(t, c), v) {
                        Ok(rest) => Ok(
                            t.subrange(i, p) + (if var_value(v, tag_name(t, p)).len() > 0 {
                                t.subrange(tag_end(t, p), c)
                            } else {
                                Seq::empty()
                            }) + rest,
                        ),
                        Err(e) => Err(e),
                    }
                },
            }
        },
    }
}

#[via_fn]
proof fn resolve_conds_decreases(t: Seq<char>, i: int, v: TemplateVariables) {
    match first_opener_from(t, i) {
        Some(p) => {
            lemma_first_opener_bounds(t, i);
            lemma_tag_bounds(t, p, '?');
            match first_closer_named_from(t, tag_end(t, p), tag_name(t, p)) {
                Some(c) => {
                    lemma_first_closer_named_bounds(t, tag_end(t, p), tag_name(t, p));
                    lemma_tag_bounds(t, c, '/');
                },
                None => {},
            }
        },
        None => {},
    }
}

/// The substitution pass, from position `i`: every placeholder is replaced
/// by its variable's value; the value is emitted verbatim and scanning
/// resumes after the placeholder's closing brace.
pub open spec fn substitute_from(t: Seq<char>, i: int, v: TemplateVariables) -> Seq<char>
    decreases t.len() - i,
    via substitute_decreases
{
    match first_placeholder_from(t, i) {
        None => t.subrange(i, t.len() as int),
        Some(p) => t.subrange(i, p) + var_value(v, placeholder_name(t, p)) + substitute_from(
            t,
            placeholder_close(t, p) + 1,
            v,
        ),
    }
}

#[via_fn]
proof fn substitute_decreases(t: Seq<char>, i: int, v: TemplateVariables) {
    match first_placeholder_from(t, i) {
        Some(p) => {
            lemma_first_placeholder_bounds(t, i);
            lemma_placeholder_bounds(t, p);
        },
        None => {},
    }
}

/// The full rendering of a template: the conditional pass followed by the
/// substitution pass. On failure, the name of the first unclosed opening
/// tag.
pub open spec fn render_spec(t: Seq<char>, v: TemplateVariables) -> Result<Seq<char>, Seq<char>> {
    match resolve_conds_from(t, 0, v) {
        Ok(u) => Ok(substitute_from(u, 0, v)),
        Err(n) => Err(n),
    }
}

/// Runs the conditional pass over a character vector.
fn resolve_conditionals(t: &Vec<char>, vars: &TemplateVariables) -> (r: Result<Vec<char>, String>)
    ensures
        match r {
            Ok(out) => resolve_conds_from(t@, 0, *vars) == Ok::<Seq<char>, Seq<char>>(out@),
            Err(name) => resolve_conds_from(t@, 0, *vars) == Err::<Seq<char>, Seq<char>>(name@),
        },
{
    let n = t.len();
    let mut out: Vec<char> = Vec::new();
    let mut i: usize = 0;
    loop
        invariant
            i <= n,
            n == t@.len(),
            match resolve_conds_from(t@, i as int, *vars) {
                Ok(rest) => resolve_conds_from(t@, 0, *vars) == Ok::<Seq<char>, Seq<char>>(
                    out@ + rest,
                ),
                Err(e) => resolve_conds_from(t@, 0, *vars) == Err::<Seq<char>, Seq<char>>(e),
            },
        decreases n - i,
    {
        match find_opener_from(t, i) {
            None => {
                let tail = copy_range(t, i, n);
                push_chars(&mut out, &tail);
                proof {
                    assert(resolve_conds_from(t@, i as int, *vars) == Ok::<Seq<char>, Seq<char>>(
                        t@.subrange(i as int, n as int),
                    ));
                }
                return Ok(out);
            },
            Some(p) => {
                proof {
                    lemma_first_opener_bounds(t@, i as int);
                    lemma_tag_bounds(t@, p as int, '?');
                }
                let e = word_end_exec(t, p + 2);
                let name = copy_range(t, p + 2, e);
                assert(name@ == tag_name(t@, p as int));
                let oe = e + 1;
                assert(oe == tag_end(t@, p as int));
                match find_closer_named_from(t, oe, &name) {
                    None => {
                        proof {
                            assert(resolve_conds_from(t@, i as int, *vars) == Err::<
                                Seq<char>,
                                Seq<char>,
                            >(name@));
                        }
                        return Err(string_from_chars(&name));
                    },
                    Some(c) => {
                        proof {
                            lemma_first_closer_named_bounds(t@, oe as int, name@);
                            lemma_tag_bounds(t@, c as int, '/');
                        }
                        let ghost i0 = i as int;
                        let ghost out0 = out@;
                        let cw = word_end_exec(t, c + 2);
                        let ce = cw + 1;
                        assert(ce == tag_end(t@, c as int));
                        let prefix = copy_range(t, i, p);
                        push_chars(&mut out, &prefix);
                        let keep = vars.has_value_chars(&name);
                        if keep {
                            let content = copy_range(t, oe, c);
                            push_chars(&mut out, &content);
                        }
                        proof {
                            let inserted = if var_value(*vars, name@).len() > 0 {
                                t@.subrange(oe as int, c as int)
                            } else {
                                Seq::<char>::empty()
                            };
                            assert(out@ =~= out0 + (t@.subrange(i0, p as int) + inserted));
                            match resolve_conds_from(t@, ce as int, *vars) {
                                Ok(rest) => {
                                    assert(resolve_conds_from(t@, i0, *vars) == Ok::<
                                        Seq<char>,
                                        Seq<char>,
                                    >(t@.subrange(i0, p as int) + inserted + rest));
                                    assert(out0 + (t@.subrange(i0, p as int) + inserted + rest)
                                        =~= out@ + rest);
                                },
                                Err(err) => {
                                    assert(resolve_conds_from(t@, i0, *vars) == Err::<
                                        Seq<char>,
                                        Seq<char>,
                                    >(err));
                                },
                            }
                        }
                        i = ce;
                    },
                }
            },
        }
    }
}

/// Runs the substitution pass over a character vector.
fn substitute_all(t: &Vec<char>, vars: &TemplateVariables) -> (r: Vec<char>)
    ensures
        r@ == substitute_from(t@, 0, *vars),
{
    let n = t.len();
    let mut out: Vec<char> = Vec::new();
    let mut i: usize = 0;
    loop
        invariant
            i <= n,
            n == t@.len(),
            substitute_from(t@, 0, *vars) == out@ + substitute_from(t@, i as int, *vars),
        decreases n - i,
    {
        match find_placeholder_from(t, i) {
            None => {
                let tail = copy_range(t, i, n);
                push_chars(&mut out, &tail);
                assert(out@ =~= substitute_from(t@, 0, *vars));
                return out;
            },
            Some((p, j)) => {
                let ghost i0 = i as int;
                let ghost out0 = out@;
                let prefix = copy_range(t, i, p);
                push_chars(&mut out, &prefix);
                let name = copy_range(t, p + 1, j);
                assert(name@ == placeholder_name(t@, p as int));
                let val = vars.value_of_chars(&name);
                let vchars = chars_of(val.as_str());
                push_chars(&mut out, &vchars);
                proof {
                    assert(substitute_from(t@, i0, *vars) == t@.subrange(i0, p as int) + var_value(
                        *vars,
                        name@,
                    ) + substitute_from(t@, j + 1 as int, *vars));
                    assert(out0 + (t@.subrange(i0, p as int) + var_value(*vars, name@)
                        + substitute_from(t@, j + 1 as int, *vars)) =~= out@ + substitute_from(
                        t@,
                        j + 1 as int,
                        *vars,
                    ));
                }
                i = j + 1;
            },
        }
    }
}

/// Renders a template against a variable set.
///
/// The conditional pass resolves every `{?X}...{/X}` block by the presence
/// of a non-empty value for `X`; the substitution pass then replaces each
/// remaining `{name}` placeholder by its value, unknown names by the empty
/// string. Returns `UnclosedConditionalBlock` exactly when an opening tag
/// has no matching closing tag after it.
pub fn process_template(template: &str, variables: &TemplateVariables) -> (r: Result<
    String,
    TemplateError,
>)
    ensures
        match r {
            Ok(s) => render_spec(template@, *variables) == Ok::<Seq<char>, Seq<char>>(s@),
            Err(e) => {
                &&& render_spec(template@, *variables) is Err
                &&& e matches TemplateError::UnclosedConditionalBlock(n) && n@ == render_spec(
                    template@,
                    *variables,
                )->Err_0
            },
        },
{
    let t = chars_of(template);
    match resolve_conditionals(&t, variables) {
        Err(name) => Err(TemplateError::UnclosedConditionalBlock(name)),
        Ok(resolved) => {
            let substituted = substitute_all(&resolved, variables);
            Ok(string_from_chars(&substituted))
        },
    }
}

/// Rendering is deterministic: the result is a function of the template
/// and the variable set alone, so equal inputs give byte-identical output.
pub proof fn lemma_render_deterministic(
    t1: Seq<char>,
    v1: TemplateVariables,
    t2: Seq<char>,
    v2: TemplateVariables,
)
    requires
        t1 == t2,
        v1 == v2,
    ensures
        render_spec(t1, v1) == render_spec(t2, v2),
{
}

/// A template with no conditional tags renders, without error, to the
/// plain find-and-replace of each placeholder by its mapped value.
pub proof fn lemma_render_without_conditionals(t: Seq<char>, v: TemplateVariables)
    requires
        first_opener_from(t, 0) is None,
    ensures
        render_spec(t, v) == Ok::<Seq<char>, Seq<char>>(substitute_from(t, 0, v)),
{
    assert(t.subrange(0, t.len() as int) =~= t);
    assert(resolve_conds_from(t, 0, v) == Ok::<Seq<char>, Seq<char>>(t));
}

/// A string without placeholders passes through the substitution pass
/// unchanged, whatever the variables hold.
pub proof fn lemma_substitute_literal(t: Seq<char>, v: TemplateVariables)
    requires
        first_placeholder_from(t, 0) is None,
    ensures
        substitute_from(t, 0, v) == t,
{
    assert(t.subrange(0, t.len() as int) =~= t);
}

/// Substitution is a single left-to-right pass: the first placeholder's
/// value is emitted verbatim, and scanning resumes after the placeholder's
/// closing brace in the template — never inside the substituted value.
pub proof fn lemma_substitution_single_pass(t: Seq<char>, i: int, v: TemplateVariables)
    requires
        first_placeholder_from(t, i) is Some,
    ensures
        ({
            let p = first_placeholder_from(t, i)->Some_0;
            substitute_from(t, i, v) == t.subrange(i, p) + var_value(v, placeholder_name(t, p))
                + substitute_from(t, placeholder_close(t, p) + 1, v)
        }),
{
}

/// The conditional presence law, for a template that is exactly one block
/// `{?X}C{/X}`: when `X` maps to a non-empty value the template renders to
/// `C` with its placeholders substituted; when `X` maps to the empty value
/// (in particular, an absent commit number) it renders to the empty string,
/// leaving no tag characters behind.
pub proof fn lemma_conditional_presence(t: Seq<char>, v: TemplateVariables)
    requires
        first_opener_from(t, 0) == Some(0int),
        first_closer_named_from(t, tag_end(t, 0), tag_name(t, 0)) is Some,
        tag_end(t, first_closer_named_from(t, tag_end(t, 0), tag_name(t, 0))->Some_0) == t.len(),
    ensures
        ({
            let c = first_closer_named_from(t, tag_end(t, 0), tag_name(t, 0))->Some_0;
            let content = t.subrange(tag_end(t, 0), c);
            render_spec(t, v) == Ok::<Seq<char>, Seq<char>>(
                if var_value(v, tag_name(t, 0)).len() > 0 {
                    substitute_from(content, 0, v)
                } else {
                    Seq::<char>::empty()
                },
            )
        }),
{
    let c = first_closer_named_from(t, tag_end(t, 0), tag_name(t, 0))->Some_0;
    let content = t.subrange(tag_end(t, 0), c);
    lemma_first_opener_bounds(t, 0);
    lemma_tag_bounds(t, 0, '?');
    lemma_first_closer_named_bounds(t, tag_end(t, 0), tag_name(t, 0));
    lemma_tag_bounds(t, c, '/');
    assert(first_opener_from(t, t.len() as int) is None);
    assert(resolve_conds_from(t, t.len() as int, v) == Ok::<Seq<char>, Seq<char>>(
        t.subrange(t.len() as int, t.len() as int),
    ));
    assert(t.subrange(t.len() as int, t.len() as int) =~= Seq::<char>::empty());
    if var_value(v, tag_name(t, 0)).len() > 0 {
        assert(resolve_conds_from(t, 0, v) == Ok::<Seq<char>, Seq<char>>(
            t.subrange(0, 0) + content + Seq::<char>::empty(),
        ));
        assert(t.subrange(0, 0) + content + Seq::<char>::empty() =~= content);
        assert(render_spec(t, v) == Ok::<Seq<char>, Seq<char>>(substitute_from(content, 0, v)));
    } else {
        assert(resolve_conds_from(t, 0, v) == Ok::<Seq<char>, Seq<char>>(
            t.subrange(0, 0) + Seq::<char>::empty() + Seq::<char>::empty(),
        ));
        assert(t.subrange(0, 0) + Seq::<char>::empty() + Seq::<char>::empty() =~= Seq::<
            char,
        >::empty());
        assert(first_placeholder_from(Seq::<char>::empty(), 0) is None);
        lemma_substitute_literal(Seq::<char>::empty(), v);
        assert(Seq::<char>::empty().subrange(0, 0) =~= Seq::<char>::empty());
    }
}

} // verus!
