//! Character-level text utilities: conversions between `&str`, `Vec<char>`
//! and `String`, decimal rendering of integers, whitespace trimming,
//! substring search and removal, and line splitting.
//!
//! The executable functions work over `Vec<char>` or `&str`; every contract
//! is stated over the `Seq<char>` views.

use vstd::prelude::*;
use vstd::string::*;

verus! {

/// Collects the characters of a string slice into a vector.
pub fn chars_of(s: &str) -> (r: Vec<char>)
    ensures
        r@ == s@,
{
    let n: usize = s.unicode_len();
    let mut r: Vec<char> = Vec::new();
    let mut i: usize = 0;
    while i < n
        invariant
            n == s@.len(),
            i <= n,
            r@ == s@.subrange(0, i as int),
        decreases n - i,
    {
        r.push(s.get_char(i));
        assert(r@ =~= s@.subrange(0, (i + 1) as int));
        i = i + 1;
    }
    assert(r@ =~= s@);
    r
}

/// Relies on std's `FromIterator` implementation for `String`: collecting
/// an iterator of characters yields the string of exactly those characters
/// in order.
#[verifier::external_body]
pub fn string_from_chars(v: &Vec<char>) -> (r: String)
    ensures
        r@ == v@,
{
    v.iter().collect()
}

/// Compares two character vectors for equality of their contents.
pub fn chars_eq(a: &Vec<char>, b: &Vec<char>) -> (r: bool)
    ensures
        r == (a@ == b@),
{
    if a.len() != b.len() {
        assert(a@ != b@);
        return false;
    }
    let n = a.len();
    let mut i: usize = 0;
    while i < n
        invariant
            n == a@.len(),
            n == b@.len(),
            i <= n,
            forall|k: int| 0 <= k < i ==> a@[k] == b@[k],
        decreases n - i,
    {
        if a[i] != b[i] {
            return false;
        }
        i = i + 1;
    }
    assert(a@ =~= b@);
    true
}

/// Compares a character vector against a string slice.
pub fn chars_eq_str(a: &Vec<char>, s: &str) -> (r: bool)
    ensures
        r == (a@ == s@),
{
    if a.len() != s.unicode_len() {
        assert(a@ != s@);
        return false;
    }
    let n = a.len();
    let mut i: usize = 0;
    while i < n
        invariant
            n == a@.len(),
            n == s@.len(),
            i <= n,
            forall|k: int| 0 <= k < i ==> a@[k] == s@[k],
        decreases n - i,
    {
        if a[i] != s.get_char(i) {
            return false;
        }
        i = i + 1;
    }
    assert(a@ =~= s@);
    true
}

/// The decimal digit character for a value below ten.
pub open spec fn dec_digit(n: nat) -> char {
    if n == 0 {
        '0'
    } else if n == 1 {
        '1'
    } else if n == 2 {
        '2'
    } else if n == 3 {
        '3'
    } else if n == 4 {
        '4'
    } else if n == 5 {
        '5'
    } else if n == 6 {
        '6'
    } else if n == 7 {
        '7'
    } else if n == 8 {
        '8'
    } else {
        '9'
    }
}

/// The decimal rendering of a natural number, without leading zeros
/// (except for zero itself).
pub open spec fn dec_str(n: nat) -> Seq<char>
    decreases n,
{
    if n < 10 {
        seq![dec_digit(n)]
    } else {
        dec_str(n / 10).push(dec_digit(n % 10))
    }
}

fn digit_char(n: u32) -> (c: char)
    requires
        n < 10,
    ensures
        c == dec_digit(n as nat),
{
    if n == 0 {
        '0'
    } else if n == 1 {
        '1'
    } else if n == 2 {
        '2'
    } else if n == 3 {
        '3'
    } else if n == 4 {
        '4'
    } else if n == 5 {
        '5'
    } else if n == 6 {
        '6'
    } else if n == 7 {
        '7'
    } else if n == 8 {
        '8'
    } else {
        '9'
    }
}

/// Appends the decimal rendering of `n` to `out`.
pub fn push_decimal(n: u32, out: &mut Vec<char>)
    ensures
        final(out)@ == old(out)@ + dec_str(n as nat),
    decreases n,
{
    if n < 10 {
        out.push(digit_char(n));
        assert(out@ =~= old(out)@ + dec_str(n as nat));
    } else {
        push_decimal(n / 10, out);
        out.push(digit_char(n % 10));
        assert(out@ =~= old(out)@ + dec_str(n as nat));
    }
}

/// The decimal rendering of `n` as a `String`.
pub fn u32_string(n: u32) -> (r: String)
    ensures
        r@ == dec_str(n as nat),
{
    let mut v: Vec<char> = Vec::new();
    push_decimal(n, &mut v);
    assert(v@ =~= dec_str(n as nat));
    string_from_chars(&v)
}

/// ASCII whitespace, as this library understands it: space, tab, carriage
/// return, line feed, vertical tab and form feed.
pub open spec fn is_space_char(c: char) -> bool {
    c == ' ' || c == '\t' || c == '\r' || c == '\n' || c == '\u{b}' || c == '\u{c}'
}

/// Whether `c` is ASCII whitespace.
pub fn space_char(c: char) -> (r: bool)
    ensures
        r == is_space_char(c),
{
    c == ' ' || c == '\t' || c == '\r' || c == '\n' || c == '\u{b}' || c == '\u{c}'
}

/// The index of the first non-whitespace character at or after `i`,
/// or the length of `s` if all remaining characters are whitespace.
pub open spec fn skip_spaces_from(s: Seq<char>, i: int) -> int
    decreases s.len() - i,
{
    if 0 <= i && i < s.len() && is_space_char(s[i]) {
        skip_spaces_from(s, i + 1)
    } else {
        i
    }
}

/// The index one past the last non-whitespace character strictly before `j`,
/// or `j` itself when nothing before it is whitespace, scanning backwards.
pub open spec fn rskip_spaces_to(s: Seq<char>, j: int) -> int
    decreases j,
{
    if 0 < j && j <= s.len() && is_space_char(s[j - 1]) {
        rskip_spaces_to(s, j - 1)
    } else {
        j
    }
}

/// The string with leading and trailing ASCII whitespace removed.
pub open spec fn trim_spec(s: Seq<char>) -> Seq<char> {
    let a = skip_spaces_from(s, 0);
    let b = rskip_spaces_to(s, s.len() as int);
    if a <= b {
        s.subrange(a, b)
    } else {
        Seq::empty()
    }
}

/// Finds the first non-whitespace position at or after `start`.
fn skip_spaces_exec(v: &Vec<char>, start: usize) -> (r: usize)
    requires
        start <= v@.len(),
    ensures
        r == skip_spaces_from(v@, start as int),
        start <= r <= v@.len(),
{
    let mut i: usize = start;
    loop
        invariant
            start <= i <= v@.len(),
            skip_spaces_from(v@, start as int) == skip_spaces_from(v@, i as int),
        decreases v@.len() - i,
    {
        if i >= v.len() {
            return i;
        }
        if !space_char(v[i]) {
            return i;
        }
        i = i + 1;
    }
}

/// Finds the position one past the last non-whitespace character before `end`,
/// scanning backwards.
fn rskip_spaces_exec(v: &Vec<char>, end: usize) -> (r: usize)
    requires
        end <= v@.len(),
    ensures
        r == rskip_spaces_to(v@, end as int),
        r <= end,
{
    let mut j: usize = end;
    loop
        invariant
            j <= end <= v@.len(),
            rskip_spaces_to(v@, end as int) == rskip_spaces_to(v@, j as int),
        decreases j,
    {
        if j == 0 {
            return j;
        }
        if !space_char(v[j - 1]) {
            return j;
        }
        j = j - 1;
    }
}

/// Removes leading and trailing ASCII whitespace from a character vector.
pub fn trim_chars(v: &Vec<char>) -> (r: Vec<char>)
    ensures
        r@ == trim_spec(v@),
{
    let a = skip_spaces_exec(v, 0);
    let b = rskip_spaces_exec(v, v.len());
    let lo: usize = a;
    let hi: usize = if b >= a {
        b
    } else {
        a
    };
    let mut r: Vec<char> = Vec::new();
    let mut i: usize = lo;
    while i < hi
        invariant
            lo <= i <= hi <= v@.len(),
            r@ == v@.subrange(lo as int, i as int),
        decreases hi - i,
    {
        r.push(v[i]);
        assert(r@ =~= v@.subrange(lo as int, (i + 1) as int));
        i = i + 1;
    }
    if b >= a {
        assert(r@ =~= trim_spec(v@));
    } else {
        assert(r@ =~= trim_spec(v@));
    }
    r
}

/// Removes leading and trailing ASCII whitespace from a string.
pub fn trimmed(s: &str) -> (r: String)
    ensures
        r@ == trim_spec(s@),
{
    let v = chars_of(s);
    let t = trim_chars(&v);
    string_from_chars(&t)
}

/// Whether the pattern `pat` occurs in `s` starting at index `i`.
pub open spec fn occurs_at(s: Seq<char>, i: int, pat: Seq<char>) -> bool {
    0 <= i && i + pat.len() <= s.len() && s.subrange(i, i + pat.len()) == pat
}

/// The first index at or after `i` where `pat` occurs in `s`.
pub open spec fn first_occurrence_from(s: Seq<char>, i: int, pat: Seq<char>) -> Option<int>
    decreases s.len() - i,
{
    if i > s.len() {
        None
    } else if occurs_at(s, i, pat) {
        Some(i)
    } else if i >= s.len() {
        None
    } else {
        first_occurrence_from(s, i + 1, pat)
    }
}

/// Whether `pat` occurs anywhere in `s`.
pub open spec fn contains_seq(s: Seq<char>, pat: Seq<char>) -> bool {
    first_occurrence_from(s, 0, pat) is Some
}

/// Whether `pre` is a prefix of `s`.
pub open spec fn starts_with_spec(s: Seq<char>, pre: Seq<char>) -> bool {
    occurs_at(s, 0, pre)
}

/// Whether `pat` occurs in `v` at index `i`.
fn occurs_at_exec(v: &Vec<char>, i: usize, pat: &Vec<char>) -> (r: bool)
    requires
        i <= v@.len(),
    ensures
        r == occurs_at(v@, i as int, pat@),
{
    let m = pat.len();
    let n = v.len();
    if m > n - i {
        assert(!occurs_at(v@, i as int, pat@));
        return false;
    }
    let mut k: usize = 0;
    while k < m
        invariant
            i + m <= n,
            n == v@.len(),
            m == pat@.len(),
            k <= m,
            forall|t: int| 0 <= t < k ==> v@[i + t] == pat@[t],
        decreases m - k,
    {
        if v[i + k] != pat[k] {
            assert(v@.subrange(i as int, i + m as int)[k as int] != pat@[k as int]);
            return false;
        }
        k = k + 1;
    }
    assert(v@.subrange(i as int, i + m as int) =~= pat@);
    true
}

/// The first occurrence of `pat` in `v` at or after `i`.
pub fn find_occurrence_from(v: &Vec<char>, i: usize, pat: &Vec<char>) -> (r: Option<usize>)
    requires
        i <= v@.len(),
    ensures
        match r {
            Some(p) => first_occurrence_from(v@, i as int, pat@) == Some(p as int),
            None => first_occurrence_from(v@, i as int, pat@) is None,
        },
{
    let n = v.len();
    let mut j: usize = i;
    loop
        invariant
            i <= j <= n,
            n == v@.len(),
            first_occurrence_from(v@, i as int, pat@) == first_occurrence_from(v@, j as int, pat@),
        decreases n - j,
    {
        if occurs_at_exec(v, j, pat) {
            return Some(j);
        }
        if j == n {
            return None;
        }
        j = j + 1;
    }
}

/// Whether `pat` occurs anywhere in `v`.
pub fn contains_chars(v: &Vec<char>, pat: &Vec<char>) -> (r: bool)
    ensures
        r == contains_seq(v@, pat@),
{
    match find_occurrence_from(v, 0, pat) {
        Some(_) => true,
        None => false,
    }
}

/// Whether the string `s` starts with `pre`.
pub fn str_starts_with(s: &str, pre: &str) -> (r: bool)
    ensures
        r == starts_with_spec(s@, pre@),
{
    let v = chars_of(s);
    let p = chars_of(pre);
    if v.len() < p.len() {
        assert(!occurs_at(v@, 0, p@));
        return false;
    }
    occurs_at_exec(&v, 0, &p)
}

/// `s` with every non-overlapping occurrence of `pat` removed, scanning
/// left to right. The empty pattern removes nothing.
pub open spec fn remove_all(s: Seq<char>, pat: Seq<char>) -> Seq<char>
    decreases s.len(),
    via remove_all_decreases
{
    if pat.len() == 0 {
        s
    } else {
        match first_occurrence_from(s, 0, pat) {
            Some(p) => s.subrange(0, p) + remove_all(
                s.subrange(p + pat.len(), s.len() as int),
                pat,
            ),
            None => s,
        }
    }
}

#[via_fn]
proof fn remove_all_decreases(s: Seq<char>, pat: Seq<char>) {
    if pat.len() > 0 {
        if first_occurrence_from(s, 0, pat) is Some {
            lemma_first_occurrence_bounds(s, 0, pat);
        }
    }
}

proof fn lemma_first_occurrence_bounds(s: Seq<char>, i: int, pat: Seq<char>)
    requires
        0 <= i,
    ensures
        match first_occurrence_from(s, i, pat) {
            Some(p) => i <= p && p + pat.len() <= s.len(),
            None => true,
        },
    decreases s.len() - i,
{
    if i > s.len() {
    } else if occurs_at(s, i, pat) {
    } else if i < s.len() {
        lemma_first_occurrence_bounds(s, i + 1, pat);
    }
}

/// Removes every non-overlapping occurrence of `pat` from `v`.
pub fn remove_all_chars(v: &Vec<char>, pat: &Vec<char>) -> (r: Vec<char>)
    ensures
        r@ == remove_all(v@, pat@),
    decreases v@.len(),
{
    if pat.len() == 0 {
        return v.clone();
    }
    match find_occurrence_from(v, 0, pat) {
        None => v.clone(),
        Some(p) => {
            proof {
                lemma_first_occurrence_bounds(v@, 0, pat@);
            }
            let mut prefix: Vec<char> = Vec::new();
            let mut i: usize = 0;
            while i < p
                invariant
                    p <= v@.len(),
                    i <= p,
                    prefix@ == v@.subrange(0, i as int),
                decreases p - i,
            {
                prefix.push(v[i]);
                assert(prefix@ =~= v@.subrange(0, (i + 1) as int));
                i = i + 1;
            }
            let mut suffix: Vec<char> = Vec::new();
            assert(p + pat@.len() <= v.len());
            let mut j: usize = p + pat.len();
            let ghost start = j as int;
            while j < v.len()
                invariant
                    0 <= start <= j <= v@.len(),
                    suffix@ == v@.subrange(start, j as int),
                decreases v@.len() - j,
            {
                suffix.push(v[j]);
                assert(suffix@ =~= v@.subrange(start, (j + 1) as int));
                j = j + 1;
            }
            assert(suffix@ =~= v@.subrange(p + pat@.len(), v@.len() as int));
            let rest = remove_all_chars(&suffix, pat);
            let mut r = prefix;
            let mut k: usize = 0;
            let ghost base = r@;
            while k < rest.len()
                invariant
                    k <= rest@.len(),
                    r@ == base + rest@.subrange(0, k as int),
                decreases rest@.len() - k,
            {
                r.push(rest[k]);
                assert(r@ =~= base + rest@.subrange(0, (k + 1) as int));
                k = k + 1;
            }
            assert(rest@.subrange(0, rest@.len() as int) =~= rest@);
            assert(r@ =~= remove_all(v@, pat@));
            r
        },
    }
}

/// Appends the characters of `src` to `dst`.
pub fn push_chars(dst: &mut Vec<char>, src: &Vec<char>)
    ensures
        final(dst)@ == old(dst)@ + src@,
{
    let mut k: usize = 0;
    while k < src.len()
        invariant
            k <= src@.len(),
            dst@ == old(dst)@ + src@.subrange(0, k as int),
        decreases src@.len() - k,
    {
        dst.push(src[k]);
        assert(dst@ =~= old(dst)@ + src@.subrange(0, (k + 1) as int));
        k = k + 1;
    }
    assert(dst@ =~= old(dst)@ + src@);
}

/// The lines of `s`, split at line feeds; a carriage return immediately
/// before a line feed is dropped, and a trailing line terminator yields
/// no final empty line.
pub open spec fn split_lines(s: Seq<char>) -> Seq<Seq<char>>
    decreases s.len(),
    via split_lines_decreases
{
    if s.len() == 0 {
        Seq::empty()
    } else {
        match first_occurrence_from(s, 0, seq!['\n']) {
            Some(j) => {
                let line = if j > 0 && s[j - 1] == '\r' {
                    s.subrange(0, j - 1)
                } else {
                    s.subrange(0, j)
                };
                seq![line] + split_lines(s.subrange(j + 1, s.len() as int))
            },
            None => seq![s],
        }
    }
}

#[via_fn]
proof fn split_lines_decreases(s: Seq<char>) {
    if s.len() > 0 {
        if first_occurrence_from(s, 0, seq!['\n']) is Some {
            lemma_first_occurrence_bounds(s, 0, seq!['\n']);
        }
    }
}

/// Splits a character vector into its lines.
pub fn split_lines_chars(v: &Vec<char>) -> (r: Vec<Vec<char>>)
    ensures
        r@.map_values(|l: Vec<char>| l@) == split_lines(v@),
    decreases v@.len(),
{
    if v.len() == 0 {
        let r: Vec<Vec<char>> = Vec::new();
        assert(r@.map_values(|l: Vec<char>| l@) =~= split_lines(v@));
        return r;
    }
    let nl: Vec<char> = vec!['\n'];
    assert(nl@ =~= seq!['\n']);
    match find_occurrence_from(v, 0, &nl) {
        None => {
            let mut r: Vec<Vec<char>> = Vec::new();
            r.push(v.clone());
            assert(r@.map_values(|l: Vec<char>| l@) =~= split_lines(v@));
            r
        },
        Some(j) => {
            proof {
                lemma_first_occurrence_bounds(v@, 0, nl@);
            }
            let cut: usize = if j > 0 && v[j - 1] == '\r' {
                j - 1
            } else {
                j
            };
            let mut line: Vec<char> = Vec::new();
            let mut i: usize = 0;
            while i < cut
                invariant
                    cut <= v@.len(),
                    i <= cut,
                    line@ == v@.subrange(0, i as int),
                decreases cut - i,
            {
                line.push(v[i]);
                assert(line@ =~= v@.subrange(0, (i + 1) as int));
                i = i + 1;
            }
            let mut rest: Vec<char> = Vec::new();
            let mut k: usize = j + 1;
            let ghost start = k as int;
            while k < v.len()
                invariant
                    0 <= start <= k <= v@.len(),
                    rest@ == v@.subrange(start, k as int),
                decreases v@.len() - k,
            {
                rest.push(v[k]);
                assert(rest@ =~= v@.subrange(start, (k + 1) as int));
                k = k + 1;
            }
            assert(rest@ =~= v@.subrange((j + 1) as int, v@.len() as int));
            let tail = split_lines_chars(&rest);
            let mut r: Vec<Vec<char>> = Vec::new();
            r.push(line);
            let mut t: usize = 0;
            while t < tail.len()
                invariant
                    t <= tail@.len(),
                    r@.len() == 1 + t,
                    r@[0]@ == if j > 0 && v@[j - 1] == '\r' {
                        v@.subrange(0, j - 1)
                    } else {
                        v@.subrange(0, j as int)
                    },
                    forall|q: int| 0 <= q < t ==> r@[1 + q]@ == tail@[q]@,
                decreases tail@.len() - t,
            {
                let item = tail[t].clone();
                assert(item@ == tail@[t as int]@);
                r.push(item);
                t = t + 1;
            }
            assert(r@.map_values(|l: Vec<char>| l@) =~= split_lines(v@)) by {
                let lhs = r@.map_values(|l: Vec<char>| l@);
                let tl = tail@.map_values(|l: Vec<char>| l@);
                assert(tl == split_lines(v@.subrange((j + 1) as int, v@.len() as int)));
                assert(lhs.len() == 1 + tl.len());
                assert forall|q: int| 0 <= q < tl.len() implies lhs[1 + q] == tl[q] by {
                    assert(r@[1 + q]@ == tail@[q]@);
                }
            }
            r
        },
    }
}

/// Compares two string slices for equality of their characters.
pub fn str_eq(a: &str, b: &str) -> (r: bool)
    ensures
        r == (a@ == b@),
{
    let va = chars_of(a);
    chars_eq_str(&va, b)
}

/// The views of a list of strings.
pub open spec fn views_of(s: Seq<String>) -> Seq<Seq<char>> {
    s.map_values(|x: String| x@)
}

/// Copies the characters of `v` in the range `[a, b)` into a new vector.
pub fn copy_range(v: &Vec<char>, a: usize, b: usize) -> (r: Vec<char>)
    requires
        a <= b <= v@.len(),
    ensures
        r@ == v@.subrange(a as int, b as int),
{
    let mut r: Vec<char> = Vec::new();
    let mut i: usize = a;
    while i < b
        invariant
            a <= i <= b <= v@.len(),
            r@ == v@.subrange(a as int, i as int),
        decreases b - i,
    {
        r.push(v[i]);
        assert(r@ =~= v@.subrange(a as int, (i + 1) as int));
        i = i + 1;
    }
    r
}

} // verus!
