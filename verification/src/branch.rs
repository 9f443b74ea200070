//! Branch names: prefix stripping and resolution of the current branch
//! name from a snapshot of the repository head.

use vstd::prelude::*;
use vstd::slice::slice_index_get;
use vstd::string::*;

use crate::errors::BranchError;
use crate::text::chars_of;
use crate::text::contains_chars;
use crate::text::contains_seq;
use crate::text::remove_all;
use crate::text::remove_all_chars;
use crate::text::string_from_chars;

verus! {

/// The views of a list of string slices.
pub open spec fn strs_view(s: Seq<&str>) -> Seq<Seq<char>> {
    s.map_values(|x: &str| x@)
}

/// The branch name after stripping commit-type prefixes: for each type in
/// order, if the type occurs anywhere in the name, every occurrence of
/// `type/` is removed.
pub open spec fn strip_type_prefixes(types: Seq<Seq<char>>, branch: Seq<char>) -> Seq<char>
    decreases types.len(),
{
    if types.len() == 0 {
        branch
    } else {
        let stripped = if contains_seq(branch, types[0]) {
            remove_all(branch, types[0] + seq!['/'])
        } else {
            branch
        };
        strip_type_prefixes(types.subrange(1, types.len() as int), stripped)
    }
}

/// Formats a branch name by removing commit-type prefixes such as `feat/`,
/// leaving the descriptive part.
pub fn format_branch_name(commit_types: &[&str], branch: &str) -> (r: String)
    ensures
        r@ == strip_type_prefixes(strs_view(commit_types@), branch@),
{
    let n = commit_types.len();
    let mut b = chars_of(branch);
    let mut i: usize = 0;
    assert(strs_view(commit_types@).subrange(0, n as int) =~= strs_view(commit_types@));
    while i < n
        invariant
            i <= n,
            n == commit_types@.len(),
            strip_type_prefixes(strs_view(commit_types@), branch@) == strip_type_prefixes(
                strs_view(commit_types@).subrange(i as int, n as int),
                b@,
            ),
        decreases n - i,
    {
        let ty: &&str = slice_index_get(commit_types, i);
        let mut tyc = chars_of(*ty);
        let ghost tyv = tyc@;
        let ghost rem = strs_view(commit_types@).subrange(i as int, n as int);
        proof {
            assert(rem[0] == strs_view(commit_types@)[i as int]);
            assert(strs_view(commit_types@)[i as int] == commit_types@[i as int]@);
        }
        if contains_chars(&b, &tyc) {
            tyc.push('/');
            assert(tyc@ =~= tyv + seq!['/']);
            b = remove_all_chars(&b, &tyc);
        }
        proof {
            assert(rem.subrange(1, rem.len() as int) =~= strs_view(commit_types@).subrange(
                (i + 1) as int,
                n as int,
            ));
        }
        i = i + 1;
    }
    proof {
        assert(strs_view(commit_types@).subrange(n as int, n as int) =~= Seq::<Seq<char>>::empty());
    }
    string_from_chars(&b)
}

/// A snapshot of the repository head, as the branch resolver reads it.
#[derive(Debug, Clone)]
pub enum HeadState {
    /// The head points at a branch; the short name when it is available.
    OnBranch(Option<String>),
    /// The head is detached.
    Detached,
    /// No head reference exists, as in a repository without commits.
    Missing,
}

/// The configured default branch name, or `main` when none is configured.
pub fn default_branch_or_main(configured: Option<String>) -> (r: String)
    ensures
        match configured {
            Some(b) => r@ == b@,
            None => r@ == "main"@,
        },
{
    match configured {
        Some(b) => b,
        None => String::from_str("main"),
    }
}

/// Resolves the current branch name from a head snapshot.
///
/// On a branch, the short name is the answer; a missing short name is an
/// error. A detached head resolves to `HEAD`. When the head reference is
/// missing, a repository known to hold commits is an error; otherwise the
/// default branch name stands in (the configured one, or `main`).
pub fn resolve_current_branch(
    head: HeadState,
    commit_count: Option<u32>,
    configured_default: Option<String>,
) -> (r: Result<String, BranchError>)
    ensures
        match head {
            HeadState::OnBranch(Some(name)) => r matches Ok(b) && b@ == name@,
            HeadState::OnBranch(None) => r == Err::<String, BranchError>(BranchError::NoShorthand),
            HeadState::Detached => r matches Ok(b) && b@ == "HEAD"@,
            HeadState::Missing => match commit_count {
                Some(count) => if count == 0 {
                    r matches Ok(b) && b@ == (match configured_default {
                        Some(d) => d@,
                        None => "main"@,
                    })
                } else {
                    r == Err::<String, BranchError>(BranchError::HeadUnresolved)
                },
                None => r matches Ok(b) && b@ == (match configured_default {
                    Some(d) => d@,
                    None => "main"@,
                }),
            },
        },
{
    match head {
        HeadState::OnBranch(name) => {
            match name {
                Some(n) => Ok(n),
                None => Err(BranchError::NoShorthand),
            }
        },
        HeadState::Detached => Ok(String::from_str("HEAD")),
        HeadState::Missing => {
            match commit_count {
                Some(count) => {
                    if count == 0 {
                        Ok(default_branch_or_main(configured_default))
                    } else {
                        Err(BranchError::HeadUnresolved)
                    }
                },
                None => Ok(default_branch_or_main(configured_default)),
            }
        },
    }
}

} // verus!
