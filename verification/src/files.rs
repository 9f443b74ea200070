//! Ignore files and the repository exclude file: reading pattern lines
//! out of ignore-file text, and computing what to append to the exclude
//! file.

use vstd::prelude::*;
use vstd::string::*;

use crate::text::chars_of;
use crate::text::contains_chars;
use crate::text::contains_seq;
use crate::text::is_space_char;
use crate::text::push_chars;
use crate::text::split_lines;
use crate::text::split_lines_chars;
use crate::text::string_from_chars;
use crate::text::trim_chars;
use crate::text::trim_spec;
use crate::text::views_of;

verus! {

/// Whether a line of an ignore file names a file: it is non-empty, does
/// not begin a comment, and holds no whitespace after its first
/// character.
pub open spec fn filename_line(l: Seq<char>) -> bool {
    &&& l.len() >= 1
    &&& l[0] != '#'
    &&& forall|k: int| 1 <= k < l.len() ==> !is_space_char(#[trigger] l[k])
}

/// The lines of a list that name files, in order.
pub open spec fn filename_lines_spec(lines: Seq<Seq<char>>) -> Seq<Seq<char>>
    decreases lines.len(),
{
    if lines.len() == 0 {
        Seq::empty()
    } else {
        let prev = filename_lines_spec(lines.drop_last());
        if filename_line(lines.last()) {
            prev.push(lines.last())
        } else {
            prev
        }
    }
}

/// Checks whether one line names a file.
fn filename_line_exec(l: &Vec<char>) -> (r: bool)
    ensures
        r == filename_line(l@),
{
    let n = l.len();
    if n == 0 {
        return false;
    }
    if l[0] == '#' {
        return false;
    }
    let mut k: usize = 1;
    while k < n
        invariant
            1 <= k <= n,
            n == l@.len(),
            forall|q: int| 1 <= q < k ==> !is_space_char(#[trigger] l@[q]),
        decreases n - k,
    {
        if crate::text::space_char(l[k]) {
            return false;
        }
        k = k + 1;
    }
    true
}

/// Extracts the file names from ignore-file text: the lines that are
/// non-empty, do not begin a comment, and hold no whitespace after their
/// first character.
pub fn extract_filenames(message: &str) -> (r: Vec<String>)
    ensures
        views_of(r@) == filename_lines_spec(split_lines(message@)),
{
    let chars = chars_of(message);
    let lines = split_lines_chars(&chars);
    let ghost lv = lines@.map_values(|l: Vec<char>| l@);
    let n = lines.len();
    let mut r: Vec<String> = Vec::new();
    let mut i: usize = 0;
    while i < n
        invariant
            i <= n,
            n == lines@.len(),
            lv == lines@.map_values(|l: Vec<char>| l@),
            lv == split_lines(message@),
            views_of(r@) == filename_lines_spec(lv.subrange(0, i as int)),
        decreases n - i,
    {
        proof {
            assert(lv[i as int] == lines@[i as int]@);
        }
        if filename_line_exec(&lines[i]) {
            let ghost r0 = r@;
            let item = string_from_chars(&lines[i]);
            r.push(item);
            assert(views_of(r@) =~= views_of(r0).push(lv[i as int]));
        }
        proof {
            assert(lv.subrange(0, (i + 1) as int).drop_last() =~= lv.subrange(0, i as int));
            assert(lv.subrange(0, (i + 1) as int).last() == lv[i as int]);
        }
        i = i + 1;
    }
    assert(lv.subrange(0, n as int) =~= lv);
    r
}

/// The ignore patterns for commit-message generation: nothing unless a
/// commit-ignore file is present; with one, the file names read out of the
/// git-ignore text, listed twice over.
pub fn get_ignore_patterns(has_commitignore: bool, gitignore_contents: &str) -> (r: Vec<String>)
    ensures
        !has_commitignore ==> r@.len() == 0,
        has_commitignore ==> views_of(r@) == filename_lines_spec(
            split_lines(gitignore_contents@),
        ) + filename_lines_spec(split_lines(gitignore_contents@)),
{
    if !has_commitignore {
        return Vec::new();
    }
    let mut r = extract_filenames(gitignore_contents);
    let more = extract_filenames(gitignore_contents);
    let ghost r0 = r@;
    let n = more.len();
    let mut i: usize = 0;
    while i < n
        invariant
            i <= n,
            n == more@.len(),
            r@ == r0 + more@.subrange(0, i as int),
        decreases n - i,
    {
        let item = more[i].clone();
        assert(item@ == more@[i as int]@);
        r.push(item);
        proof {
            assert(r@ =~= r0 + more@.subrange(0, (i + 1) as int));
        }
        i = i + 1;
    }
    proof {
        assert(more@.subrange(0, n as int) =~= more@);
        assert forall|k: int| 0 <= k < views_of(r@).len() implies views_of(r@)[k] == (views_of(r0)
            + views_of(more@))[k] by {
            assert(views_of(r@)[k] == r@[k]@);
            if k < r0.len() {
                assert(r@[k] == r0[k]);
            } else {
                assert(r@[k] == more@[k - r0.len()]);
            }
        }
        assert(views_of(r@) =~= views_of(r0) + views_of(more@));
    }
    r
}

/// The marker line this tool writes above its entries in the repository
/// exclude file.
pub open spec fn exclude_marker() -> Seq<char> {
    "# Added by git-commit-rust"@
}

/// Whether an exclude-file line records a path: it does not begin a
/// comment and is not blank.
pub open spec fn recorded_line(l: Seq<char>) -> bool {
    &&& !(l.len() > 0 && l[0] == '#')
    &&& trim_spec(l).len() > 0
}

/// Whether the exclude file already records `path` on a line of its own.
pub open spec fn already_recorded(content: Seq<char>, path: Seq<char>) -> bool {
    exists|k: int|
        0 <= k < split_lines(content).len() && recorded_line(#[trigger] split_lines(content)[k])
            && split_lines(content)[k] == path
}

/// The paths of `paths` that the exclude file does not record yet, in
/// order.
pub open spec fn paths_to_add_spec(content: Seq<char>, paths: Seq<Seq<char>>) -> Seq<Seq<char>>
    decreases paths.len(),
{
    if paths.len() == 0 {
        Seq::empty()
    } else {
        let prev = paths_to_add_spec(content, paths.drop_last());
        if already_recorded(content, paths.last()) {
            prev
        } else {
            prev.push(paths.last())
        }
    }
}

/// Each path on a line of its own.
pub open spec fn path_lines_spec(paths: Seq<Seq<char>>) -> Seq<char>
    decreases paths.len(),
{
    if paths.len() == 0 {
        Seq::empty()
    } else {
        path_lines_spec(paths.drop_last()) + paths.last() + "\n"@
    }
}

/// The text to append to the repository exclude file: nothing when every
/// path is already recorded; otherwise the marker (unless the file already
/// holds it, preceded by a blank separator unless the file is empty) and
/// the missing paths, one per line.
pub open spec fn exclude_additions_spec(content: Seq<char>, paths: Seq<Seq<char>>) -> Seq<char> {
    let adds = paths_to_add_spec(content, paths);
    if adds.len() == 0 {
        Seq::empty()
    } else {
        let marker = if contains_seq(content, exclude_marker()) {
            Seq::<char>::empty()
        } else {
            (if content.len() > 0 {
                "\n"@
            } else {
                Seq::<char>::empty()
            }) + exclude_marker() + "\n"@
        };
        marker + path_lines_spec(adds)
    }
}

/// Checks whether the exclude file already records `path`.
fn line_recorded(lines: &Vec<Vec<char>>, path: &Vec<char>, Ghost(content): Ghost<Seq<char>>) -> (r:
    bool)
    requires
        lines@.map_values(|l: Vec<char>| l@) == split_lines(content),
    ensures
        r == already_recorded(content, path@),
{
    let ghost lv = lines@.map_values(|l: Vec<char>| l@);
    let n = lines.len();
    let mut i: usize = 0;
    while i < n
        invariant
            i <= n,
            n == lines@.len(),
            lv == lines@.map_values(|l: Vec<char>| l@),
            lv == split_lines(content),
            forall|k: int|
                0 <= k < i ==> !(recorded_line(#[trigger] lv[k]) && lv[k] == path@),
        decreases n - i,
    {
        proof {
            assert(lv[i as int] == lines@[i as int]@);
        }
        let l = &lines[i];
        let mut recorded = true;
        if l.len() > 0 && l[0] == '#' {
            recorded = false;
        } else {
            let t = trim_chars(l);
            if t.len() == 0 {
                recorded = false;
            }
        }
        if recorded && crate::text::chars_eq(l, path) {
            assert(recorded_line(lv[i as int]) && lv[i as int] == path@);
            return true;
        }
        i = i + 1;
    }
    proof {
        assert forall|k: int|
            0 <= k < split_lines(content).len() implies !(recorded_line(
            #[trigger] split_lines(content)[k],
        ) && split_lines(content)[k] == path@) by {
            assert(split_lines(content)[k] == lv[k]);
        }
    }
    false
}

/// Computes the text to append to the repository exclude file for the
/// given paths: the paths not yet recorded, one per line, under the
/// marker when the file does not hold it yet; the empty string when
/// nothing is missing.
#[verifier::loop_isolation(false)]
pub fn exclude_additions(content: &str, paths: &Vec<String>) -> (r: String)
    ensures
        r@ == exclude_additions_spec(content@, views_of(paths@)),
{
    let cv = chars_of(content);
    let lines = split_lines_chars(&cv);
    let n = paths.len();
    let mut adds: Vec<Vec<char>> = Vec::new();
    let ghost pv = views_of(paths@);
    let mut i: usize = 0;
    while i < n
        invariant
            i <= n,
            adds@.map_values(|l: Vec<char>| l@) == paths_to_add_spec(
                content@,
                pv.subrange(0, i as int),
            ),
        decreases n - i,
    {
        let p = chars_of(paths[i].as_str());
        assert(p@ == pv[i as int]);
        if !line_recorded(&lines, &p, Ghost(content@)) {
            let ghost a0 = adds@;
            adds.push(p);
            proof {
                assert(adds@.map_values(|l: Vec<char>| l@) =~= a0.map_values(
                    |l: Vec<char>| l@,
                ).push(pv[i as int]));
            }
        }
        proof {
            assert(pv.subrange(0, (i + 1) as int).drop_last() =~= pv.subrange(0, i as int));
            assert(pv.subrange(0, (i + 1) as int).last() == pv[i as int]);
        }
        i = i + 1;
    }
    assert(pv.subrange(0, n as int) =~= pv);
    let ghost addsv = adds@.map_values(|l: Vec<char>| l@);
    if adds.len() == 0 {
        return String::new();
    }
    proof {
        reveal_strlit("\n");
        assert("\n"@ =~= seq!['\n']);
    }
    let mut out: Vec<char> = Vec::new();
    let marker = chars_of("# Added by git-commit-rust");
    if !contains_chars(&cv, &marker) {
        if cv.len() > 0 {
            out.push('\n');
        }
        push_chars(&mut out, &marker);
        out.push('\n');
    }
    let ghost head = out@;
    let m = adds.len();
    let mut j: usize = 0;
    while j < m
        invariant
            j <= m,
            out@ == head + path_lines_spec(addsv.subrange(0, j as int)),
        decreases m - j,
    {
        proof {
            assert(addsv[j as int] == adds@[j as int]@);
        }
        push_chars(&mut out, &adds[j]);
        out.push('\n');
        proof {
            assert(addsv.subrange(0, (j + 1) as int).drop_last() =~= addsv.subrange(0, j as int));
            assert(addsv.subrange(0, (j + 1) as int).last() == addsv[j as int]);
            assert(out@ =~= head + path_lines_spec(addsv.subrange(0, (j + 1) as int)));
        }
        j = j + 1;
    }
    proof {
        assert(addsv.subrange(0, m as int) =~= addsv);
        assert(out@ =~= exclude_additions_spec(content@, pv));
    }
    string_from_chars(&out)
}

} // verus!
