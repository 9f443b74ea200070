//! Message formatting and path utilities.

use vstd::prelude::*;
use vstd::string::*;

use crate::errors::PathError;
use crate::text::chars_of;
use crate::text::occurs_at;
use crate::text::starts_with_spec;
use crate::text::views_of;

use std::io::Write;

verus! {

/// The error message format: the error prefix, the title, a blank line,
/// the details.
pub open spec fn error_message_spec(title: Seq<char>, details: Seq<char>) -> Seq<char> {
    "🚨 ERROR: "@ + title + "\n\n"@ + details
}

/// The error message format with a trailing suggestion after a blank line.
pub open spec fn error_message_with_suggestion_spec(
    title: Seq<char>,
    details: Seq<char>,
    suggestion: Seq<char>,
) -> Seq<char> {
    error_message_spec(title, details) + "\n\n"@ + suggestion
}

/// Formats an error message without a suggestion.
pub fn format_message(title: &str, details: &str) -> (r: String)
    ensures
        r@ == error_message_spec(title@, details@),
{
    let mut s = String::new();
    s.append("🚨 ERROR: ");
    s.append(title);
    s.append("\n\n");
    s.append(details);
    proof {
        assert(s@ =~= error_message_spec(title@, details@));
    }
    s
}

/// Formats an error message with a suggestion.
pub fn format_message_with_suggestion(title: &str, details: &str, suggestion: &str) -> (r: String)
    ensures
        r@ == error_message_with_suggestion_spec(title@, details@, suggestion@),
{
    let mut s = format_message(title, details);
    s.append("\n\n");
    s.append(suggestion);
    proof {
        assert(s@ =~= error_message_with_suggestion_spec(title@, details@, suggestion@));
    }
    s
}

/// Relies on std's `writeln!` to standard error: prints the text followed
/// by a newline on the standard error stream.
#[verifier::external_body]
fn write_stderr_line(s: &str) {
    let _ = writeln!(std::io::stderr(), "{}", s);
}

/// Prints an error message, with its suggestion, to standard error.
pub fn print_error(title: &str, details: &str, suggestion: &str) {
    let message = format_message_with_suggestion(title, details, suggestion);
    write_stderr_line(message.as_str());
}

/// The list format: each item on its own line behind a dash.
pub open spec fn format_list_spec(items: Seq<Seq<char>>) -> Seq<char>
    decreases items.len(),
{
    if items.len() == 0 {
        Seq::empty()
    } else if items.len() == 1 {
        "  - "@ + items[0]
    } else {
        format_list_spec(items.drop_last()) + "\n"@ + "  - "@ + items.last()
    }
}

/// Formats a list of items, one per line, each behind a dash.
pub fn format_list(items: &Vec<String>) -> (r: String)
    ensures
        r@ == format_list_spec(views_of(items@)),
{
    let n = items.len();
    let mut s = String::new();
    let mut i: usize = 0;
    while i < n
        invariant
            i <= n,
            n == items@.len(),
            s@ == format_list_spec(views_of(items@.subrange(0, i as int))),
        decreases n - i,
    {
        if i > 0 {
            s.append("\n");
        }
        s.append("  - ");
        s.append(items[i].as_str());
        proof {
            let cur = views_of(items@.subrange(0, (i + 1) as int));
            assert(cur.drop_last() =~= views_of(items@.subrange(0, i as int)));
            assert(cur.last() == items@[i as int]@);
            if i == 0 {
                assert(s@ =~= format_list_spec(cur));
            } else {
                assert(s@ =~= format_list_spec(cur));
            }
        }
        i = i + 1;
    }
    assert(items@.subrange(0, n as int) =~= items@);
    s
}

/// The index of the last separator in a path, scanning backwards from `j`.
pub open spec fn last_slash_before(s: Seq<char>, j: int) -> Option<int>
    decreases j,
{
    if j <= 0 || j > s.len() {
        None
    } else if s[j - 1] == '/' {
        Some(j - 1)
    } else {
        last_slash_before(s, j - 1)
    }
}

/// The parent of a path: everything before its last separator, the empty
/// string when it has none. Paths are taken as plain strings with `/` as
/// the separator.
pub open spec fn parent_of(s: Seq<char>) -> Seq<char> {
    match last_slash_before(s, s.len() as int) {
        Some(j) => s.subrange(0, j),
        None => Seq::empty(),
    }
}

/// Whether path `s` starts with path `pre`, component-wise: `pre` is empty,
/// or is a string prefix that ends exactly at a component boundary.
pub open spec fn path_starts_with(s: Seq<char>, pre: Seq<char>) -> bool {
    ||| pre.len() == 0
    ||| (starts_with_spec(s, pre) && (s.len() == pre.len() || s[pre.len() as int] == '/'))
}

/// Checks whether the file at `file_path` lies in `folder_path`: whether
/// the file's parent directory starts with the folder, component-wise.
/// An empty file path or folder path is an error.
#[verifier::loop_isolation(false)]
pub fn check_for_file_in_folder(file_path: &str, folder_path: &str) -> (r: Result<bool, PathError>)
    ensures
        file_path@.len() == 0 ==> r == Err::<bool, PathError>(PathError::EmptyFilePath),
        file_path@.len() > 0 && folder_path@.len() == 0 ==> r == Err::<bool, PathError>(
            PathError::EmptyFolderPath,
        ),
        file_path@.len() > 0 && folder_path@.len() > 0 ==> r == Ok::<bool, PathError>(
            path_starts_with(parent_of(file_path@), folder_path@),
        ),
{
    let f = chars_of(file_path);
    if f.len() == 0 {
        return Err(PathError::EmptyFilePath);
    }
    let d = chars_of(folder_path);
    if d.len() == 0 {
        return Err(PathError::EmptyFolderPath);
    }
    let j = find_last_slash(&f);
    let parent = if j == 0 {
        Vec::new()
    } else {
        crate::text::copy_range(&f, 0, j - 1)
    };
    proof {
        if j == 0 {
            assert(parent@ =~= parent_of(f@));
        } else {
            assert(parent@ =~= parent_of(f@));
        }
    }
    let m = d.len();
    if m > parent.len() {
        assert(!occurs_at(parent@, 0, d@));
        return Ok(false);
    }
    let mut k: usize = 0;
    while k < m
        invariant
            k <= m,
            m == d@.len(),
            m <= parent@.len(),
            forall|q: int| 0 <= q < k ==> parent@[q] == d@[q],
        decreases m - k,
    {
        if parent[k] != d[k] {
            proof {
                assert(parent@.subrange(0, m as int)[k as int] != d@[k as int]);
                assert(!starts_with_spec(parent@, d@));
            }
            return Ok(false);
        }
        k = k + 1;
    }
    proof {
        assert(parent@.subrange(0, m as int) =~= d@);
        assert(starts_with_spec(parent@, d@));
    }
    if parent.len() == m {
        return Ok(true);
    }
    Ok(parent[m] == '/')
}

/// Finds the position one past the last separator of `f`, or zero when it
/// has none.
fn find_last_slash(f: &Vec<char>) -> (r: usize)
    ensures
        match last_slash_before(f@, f@.len() as int) {
            Some(p) => r == p + 1 && 0 < r <= f@.len(),
            None => r == 0,
        },
{
    let n = f.len();
    let mut j: usize = n;
    loop
        invariant
            j <= n,
            n == f@.len(),
            last_slash_before(f@, n as int) == last_slash_before(f@, j as int),
        decreases j,
    {
        if j == 0 {
            return 0;
        }
        if f[j - 1] == '/' {
            assert(last_slash_before(f@, j as int) == Some((j - 1) as int));
            return j;
        }
        j = j - 1;
    }
}

} // verus!
