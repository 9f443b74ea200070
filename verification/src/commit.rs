//! Commit-message generation: the header line, the file listing, the
//! ignore check, the filtering of commit arguments, and the signing
//! decision.

use vstd::prelude::*;
use vstd::string::*;

use crate::errors::PathError;
use crate::text::dec_str;
use crate::text::starts_with_spec;
use crate::text::str_starts_with;
use crate::text::u32_string;
use crate::text::views_of;
use crate::utils::parent_of;
use crate::utils::path_starts_with;
use crate::utils::check_for_file_in_folder;

verus! {

/// The name of the commit-message file at the repository root.
pub const COMMIT_MESSAGE_FILE_PATH: &'static str = "commit_message.md";

/// The commit types whose prefixes are stripped from branch names.
pub const COMMIT_TYPES: [&'static str; 4] = ["chore", "feat", "fix", "test"];

/// The commit-message header: the bracketed commit number when numbering
/// is on, the commit type and the branch name, followed by two blank
/// lines.
pub open spec fn commit_header_spec(
    commit_type: Seq<char>,
    branch_name: Seq<char>,
    commit_number: Option<u32>,
) -> Seq<char> {
    let tail = "("@ + commit_type + " on "@ + branch_name + ")\n\n\n"@;
    match commit_number {
        Some(n) => "["@ + dec_str(n as nat) + "] "@ + tail,
        None => tail,
    }
}

/// Formats the commit-message header.
pub fn commit_header(commit_type: &str, branch_name: &str, commit_number: Option<u32>) -> (r:
    String)
    ensures
        r@ == commit_header_spec(commit_type@, branch_name@, commit_number),
{
    let mut s = String::new();
    match commit_number {
        Some(n) => {
            s.append("[");
            let num = u32_string(n);
            s.append(num.as_str());
            s.append("] ");
        },
        None => {},
    }
    s.append("(");
    s.append(commit_type);
    s.append(" on ");
    s.append(branch_name);
    s.append(")\n\n\n");
    proof {
        assert(s@ =~= commit_header_spec(commit_type@, branch_name@, commit_number));
    }
    s
}

/// The ignore verdict for one file against one pattern: an error for an
/// empty file or pattern, otherwise whether the file's parent lies in the
/// pattern taken as a folder.
pub open spec fn folder_check_from(
    file: Seq<char>,
    patterns: Seq<Seq<char>>,
    k: int,
) -> Result<bool, PathError>
    decreases patterns.len() - k,
{
    if k < 0 || k >= patterns.len() {
        Ok(false)
    } else if file.len() == 0 {
        Err(PathError::EmptyFilePath)
    } else if patterns[k].len() == 0 {
        Err(PathError::EmptyFolderPath)
    } else if path_starts_with(parent_of(file), patterns[k]) {
        Ok(true)
    } else {
        folder_check_from(file, patterns, k + 1)
    }
}

/// Whether a file is ignored: it appears in the pattern list itself, or
/// lies in a folder the list names. Empty paths are errors.
pub open spec fn should_ignore_spec(file: Seq<char>, patterns: Seq<Seq<char>>) -> Result<
    bool,
    PathError,
> {
    if patterns.contains(file) {
        Ok(true)
    } else {
        folder_check_from(file, patterns, 0)
    }
}

/// Checks whether a file should be left out of the commit-message listing,
/// by the ignore patterns.
#[verifier::loop_isolation(false)]
pub fn should_ignore_file(file: &str, ignore_patterns: &Vec<String>) -> (r: Result<
    bool,
    PathError,
>)
    ensures
        r == should_ignore_spec(file@, views_of(ignore_patterns@)),
{
    let n = ignore_patterns.len();
    let ghost pats = views_of(ignore_patterns@);
    let mut i: usize = 0;
    while i < n
        invariant
            i <= n,
            forall|k: int| 0 <= k < i ==> pats[k] != file@,
        decreases n - i,
    {
        if crate::text::str_eq(ignore_patterns[i].as_str(), file) {
            assert(pats[i as int] == file@);
            return Ok(true);
        }
        assert(pats[i as int] != file@);
        i = i + 1;
    }
    proof {
        assert forall|k: int| 0 <= k < pats.len() implies pats[k] != file@ by {}
        assert(!pats.contains(file@));
    }
    let mut k: usize = 0;
    while k < n
        invariant
            k <= n,
            folder_check_from(file@, pats, 0) == folder_check_from(file@, pats, k as int),
        decreases n - k,
    {
        assert(pats[k as int] == ignore_patterns@[k as int]@);
        match check_for_file_in_folder(file, ignore_patterns[k].as_str()) {
            Err(e) => {
                return Err(e);
            },
            Ok(true) => {
                return Ok(true);
            },
            Ok(false) => {},
        }
        k = k + 1;
    }
    Ok(false)
}

/// The commit-message section for the modified files: one bullet with an
/// empty note for each file the ignore patterns do not cover, or the first
/// ignore error.
pub open spec fn modified_section_spec(
    files: Seq<Seq<char>>,
    patterns: Seq<Seq<char>>,
) -> Result<Seq<char>, PathError>
    decreases files.len(),
{
    if files.len() == 0 {
        Ok(Seq::empty())
    } else {
        match modified_section_spec(files.drop_last(), patterns) {
            Err(e) => Err(e),
            Ok(prev) => match should_ignore_spec(files.last(), patterns) {
                Err(e) => Err(e),
                Ok(true) => Ok(prev),
                Ok(false) => Ok(prev + "- `"@ + files.last() + "`:\n\n\t\n\n"@),
            },
        }
    }
}

/// The commit-message section for the staged deletions: one bullet noting
/// each deleted file.
pub open spec fn deleted_section_spec(files: Seq<Seq<char>>) -> Seq<char>
    decreases files.len(),
{
    if files.len() == 0 {
        Seq::empty()
    } else {
        deleted_section_spec(files.drop_last()) + "- `"@ + files.last() + "`: deleted\n\n"@
    }
}

/// The full generated commit message: the header, the modified files not
/// covered by the ignore patterns, then the staged deletions.
pub open spec fn commit_message_spec(
    commit_type: Seq<char>,
    branch_name: Seq<char>,
    commit_number: Option<u32>,
    modified: Seq<Seq<char>>,
    deleted: Seq<Seq<char>>,
    patterns: Seq<Seq<char>>,
) -> Result<Seq<char>, PathError> {
    match modified_section_spec(modified, patterns) {
        Err(e) => Err(e),
        Ok(mid) => Ok(
            commit_header_spec(commit_type, branch_name, commit_number) + mid
                + deleted_section_spec(deleted),
        ),
    }
}

/// Generates the commit-message file content: the header for the commit
/// type, branch and optional commit number, a bullet for each modified
/// file not covered by the ignore patterns, and a bullet for each staged
/// deletion.
pub fn generate_commit_message(
    commit_type: &str,
    branch_name: &str,
    commit_number: Option<u32>,
    modified_files: &Vec<String>,
    deleted_files: &Vec<String>,
    ignore_patterns: &Vec<String>,
) -> (r: Result<String, PathError>)
    ensures
        match r {
            Ok(s) => commit_message_spec(
                commit_type@,
                branch_name@,
                commit_number,
                views_of(modified_files@),
                views_of(deleted_files@),
                views_of(ignore_patterns@),
            ) == Ok::<Seq<char>, PathError>(s@),
            Err(e) => commit_message_spec(
                commit_type@,
                branch_name@,
                commit_number,
                views_of(modified_files@),
                views_of(deleted_files@),
                views_of(ignore_patterns@),
            ) == Err::<Seq<char>, PathError>(e),
        },
{
    let ghost pats = views_of(ignore_patterns@);
    let mut s = commit_header(commit_type, branch_name, commit_number);
    let n = modified_files.len();
    let mut i: usize = 0;
    while i < n
        invariant
            i <= n,
            n == modified_files@.len(),
            pats == views_of(ignore_patterns@),
            modified_section_spec(views_of(modified_files@.subrange(0, i as int)), pats)
                matches Ok(mid) && s@ == commit_header_spec(
                commit_type@,
                branch_name@,
                commit_number,
            ) + mid,
        decreases n - i,
    {
        let f = &modified_files[i];
        match should_ignore_file(f.as_str(), ignore_patterns) {
            Err(e) => {
                proof {
                    let cur = views_of(modified_files@.subrange(0, (i + 1) as int));
                    assert(cur.drop_last() =~= views_of(modified_files@.subrange(0, i as int)));
                    assert(cur.last() == modified_files@[i as int]@);
                    assert(modified_section_spec(cur, pats) == Err::<Seq<char>, PathError>(e));
                    lemma_modified_section_err(views_of(modified_files@), cur, pats, e);
                }
                return Err(e);
            },
            Ok(ignored) => {
                if !ignored {
                    s.append("- `");
                    s.append(f.as_str());
                    s.append("`:\n\n\t\n\n");
                }
                proof {
                    let cur = views_of(modified_files@.subrange(0, (i + 1) as int));
                    assert(cur.drop_last() =~= views_of(modified_files@.subrange(0, i as int)));
                    assert(cur.last() == modified_files@[i as int]@);
                    if !ignored {
                        assert(s@ =~= commit_header_spec(commit_type@, branch_name@, commit_number)
                            + (modified_section_spec(cur, pats)->Ok_0));
                    }
                }
            },
        }
        i = i + 1;
    }
    assert(modified_files@.subrange(0, n as int) =~= modified_files@);
    let m = deleted_files.len();
    let ghost mid_final = modified_section_spec(views_of(modified_files@), pats)->Ok_0;
    let mut j: usize = 0;
    while j < m
        invariant
            j <= m,
            m == deleted_files@.len(),
            pats == views_of(ignore_patterns@),
            modified_section_spec(views_of(modified_files@), pats) is Ok,
            mid_final == modified_section_spec(views_of(modified_files@), pats)->Ok_0,
            s@ == commit_header_spec(commit_type@, branch_name@, commit_number) + mid_final
                + deleted_section_spec(views_of(deleted_files@.subrange(0, j as int))),
        decreases m - j,
    {
        let f = &deleted_files[j];
        s.append("- `");
        s.append(f.as_str());
        s.append("`: deleted\n\n");
        proof {
            let cur = views_of(deleted_files@.subrange(0, (j + 1) as int));
            assert(cur.drop_last() =~= views_of(deleted_files@.subrange(0, j as int)));
            assert(cur.last() == deleted_files@[j as int]@);
            assert(s@ =~= commit_header_spec(commit_type@, branch_name@, commit_number) + mid_final
                + deleted_section_spec(cur));
        }
        j = j + 1;
    }
    assert(deleted_files@.subrange(0, m as int) =~= deleted_files@);
    Ok(s)
}

/// An ignore error in a prefix makes the whole section an error.
proof fn lemma_modified_section_err(
    files: Seq<Seq<char>>,
    prefix: Seq<Seq<char>>,
    patterns: Seq<Seq<char>>,
    e: PathError,
)
    requires
        prefix.len() <= files.len(),
        prefix =~= files.subrange(0, prefix.len() as int),
        modified_section_spec(prefix, patterns) == Err::<Seq<char>, PathError>(e),
    ensures
        modified_section_spec(files, patterns) == Err::<Seq<char>, PathError>(e),
    decreases files.len(),
{
    if files.len() > prefix.len() {
        assert(files.drop_last().subrange(0, prefix.len() as int) =~= files.subrange(
            0,
            prefix.len() as int,
        ));
        lemma_modified_section_err(files.drop_last(), prefix, patterns, e);
    } else {
        assert(prefix =~= files);
    }
}

/// The commit arguments that are handed on to the underlying tool: those
/// not beginning with `-c` or `--commit`.
pub open spec fn kept_args_spec(args: Seq<Seq<char>>) -> Seq<Seq<char>>
    decreases args.len(),
{
    if args.len() == 0 {
        Seq::empty()
    } else {
        let prev = kept_args_spec(args.drop_last());
        if starts_with_spec(args.last(), "-c"@) || starts_with_spec(args.last(), "--commit"@) {
            prev
        } else {
            prev.push(args.last())
        }
    }
}

/// Filters out the arguments that would conflict with the generated commit
/// message: those beginning with `-c` or `--commit`.
pub fn filter_commit_args(args: &Vec<String>) -> (r: Vec<String>)
    ensures
        views_of(r@) == kept_args_spec(views_of(args@)),
{
    let n = args.len();
    let mut r: Vec<String> = Vec::new();
    let mut i: usize = 0;
    while i < n
        invariant
            i <= n,
            n == args@.len(),
            views_of(r@) == kept_args_spec(views_of(args@.subrange(0, i as int))),
        decreases n - i,
    {
        let a = &args[i];
        if !str_starts_with(a.as_str(), "-c") && !str_starts_with(a.as_str(), "--commit") {
            let ghost r0 = r@;
            r.push(a.clone());
            assert(views_of(r@) =~= views_of(r0).push(args@[i as int]@));
        }
        proof {
            let cur = views_of(args@.subrange(0, (i + 1) as int));
            assert(cur.drop_last() =~= views_of(args@.subrange(0, i as int)));
            assert(cur.last() == args@[i as int]@);
        }
        i = i + 1;
    }
    assert(args@.subrange(0, n as int) =~= args@);
    r
}

/// The signing decision: sign only when a signing key is configured and
/// some GPG probe succeeded — the key listing, the configured GPG program
/// (when its probe ran), or the default GPG binary.
pub open spec fn gpg_decision_spec(
    signing_key: Option<Seq<char>>,
    key_listing_ok: bool,
    gpg_program: Option<Seq<char>>,
    program_check: Option<bool>,
    default_gpg_ok: bool,
) -> bool {
    match signing_key {
        None => false,
        Some(key) => if key.len() == 0 {
            false
        } else if key_listing_ok {
            true
        } else {
            match gpg_program {
                Some(prog) => if prog.len() > 0 {
                    match program_check {
                        Some(ok) => ok,
                        None => default_gpg_ok,
                    }
                } else {
                    default_gpg_ok
                },
                None => default_gpg_ok,
            }
        },
    }
}

/// Decides whether a commit can be signed, from the configured signing
/// key, the outcome of listing that key, the configured GPG program and
/// its probe (absent when the probe could not run), and the default GPG
/// probe.
pub fn gpg_signing_decision(
    signing_key: &Option<String>,
    key_listing_ok: bool,
    gpg_program: &Option<String>,
    program_check: Option<bool>,
    default_gpg_ok: bool,
) -> (r: bool)
    ensures
        r == gpg_decision_spec(
            match signing_key {
                Some(k) => Some(k@),
                None => None::<Seq<char>>,
            },
            key_listing_ok,
            match gpg_program {
                Some(p) => Some(p@),
                None => None::<Seq<char>>,
            },
            program_check,
            default_gpg_ok,
        ),
{
    match signing_key {
        None => false,
        Some(key) => {
            if key.as_str().unicode_len() == 0 {
                false
            } else if key_listing_ok {
                true
            } else {
                match gpg_program {
                    Some(prog) => {
                        if prog.as_str().unicode_len() > 0 {
                            match program_check {
                                Some(ok) => ok,
                                None => default_gpg_ok,
                            }
                        } else {
                            default_gpg_ok
                        }
                    },
                    None => default_gpg_ok,
                }
            }
        },
    }
}

} // verus!
