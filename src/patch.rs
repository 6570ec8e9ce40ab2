//! Rewriting the value of one key in a line-oriented `key=value` text.
//!
//! A line ends at a line feed; a carriage return right before that line feed
//! belongs to the line terminator, not to the line. A line defines a key when,
//! after its leading whitespace, it starts with the key followed by `=`. Only
//! the first such line is rewritten; everything else is kept as it was.

use vstd::prelude::*;
use crate::text::{chars_of, is_space, is_space_char};

verus! {

broadcast use vstd::string::group_string_axioms;

/// Index of the first line feed of `t` at or after `i`, or `t.len()` when there is none.
pub open spec fn line_end(t: Seq<char>, i: int) -> int
    decreases t.len() - i,
{
    if i >= t.len() {
        t.len() as int
    } else if t[i] == '\n' {
        i
    } else {
        line_end(t, i + 1)
    }
}

/// End of the content of the line starting at `i`: its line feed, or the
/// carriage return right before that line feed.
pub open spec fn body_end(t: Seq<char>, i: int) -> int {
    let e = line_end(t, i);
    if e < t.len() && e > i && t[e - 1] == '\r' {
        e - 1
    } else {
        e
    }
}

/// First index in `[i, b)` that holds no whitespace, or `b`.
pub open spec fn skip_space(t: Seq<char>, i: int, b: int) -> int
    decreases b - i,
{
    if i >= b {
        b
    } else if is_space(t[i]) {
        skip_space(t, i + 1, b)
    } else {
        i
    }
}

/// Whether a line starts at index `j` of `t`.
pub open spec fn is_line_start(t: Seq<char>, j: int) -> bool {
    0 <= j < t.len() && (j == 0 || t[j - 1] == '\n')
}

/// Index right after the `=` of `key=` in the line starting at `i`, when that
/// line defines `key`.
pub open spec fn value_start(t: Seq<char>, key: Seq<char>, i: int) -> int {
    skip_space(t, i, body_end(t, i)) + key.len() + 1
}

/// Whether the line starting at `i` defines `key`: past its leading
/// whitespace it starts with `key=`.
pub open spec fn defines(t: Seq<char>, key: Seq<char>, i: int) -> bool {
    let p = skip_space(t, i, body_end(t, i));
    &&& p + key.len() + 1 <= body_end(t, i)
    &&& t.subrange(p, p + key.len()) == key
    &&& t[p + key.len()] == '='
}

/// Start of the first line at or after the line start `i` that defines `key`.
pub open spec fn first_def(t: Seq<char>, key: Seq<char>, i: int) -> Option<int>
    decreases t.len() + 1 - i
    via first_def_decreases
{
    if i < 0 || i >= t.len() {
        None
    } else if defines(t, key, i) {
        Some(i)
    } else {
        first_def(t, key, line_end(t, i) + 1)
    }
}

#[via_fn]
proof fn first_def_decreases(t: Seq<char>, key: Seq<char>, i: int) {
    if 0 <= i < t.len() {
        lemma_line_end_bounds(t, i);
    }
}

/// The text with the value of the first line that defines `key` replaced by
/// `value`, or `None` when no line defines `key`.
pub open spec fn patched(t: Seq<char>, key: Seq<char>, value: Seq<char>) -> Option<Seq<char>> {
    match first_def(t, key, 0) {
        Some(i) => Some(
            t.subrange(0, value_start(t, key, i)) + value + t.subrange(body_end(t, i), t.len() as int),
        ),
        None => None,
    }
}

proof fn lemma_line_end_bounds(t: Seq<char>, i: int)
    requires
        0 <= i <= t.len(),
    ensures
        i <= line_end(t, i) <= t.len(),
        line_end(t, i) < t.len() ==> t[line_end(t, i)] == '\n',
        forall|k: int| i <= k < line_end(t, i) ==> t[k] != '\n',
    decreases t.len() - i,
{
    if i < t.len() && t[i] != '\n' {
        lemma_line_end_bounds(t, i + 1);
    }
}

/// What the search for a defining line finds is a line start at or after
/// `s` that defines the key.
pub proof fn lemma_first_def_found(t: Seq<char>, key: Seq<char>, s: int)
    requires
        s == 0 || is_line_start(t, s) || s >= t.len(),
    ensures
        first_def(t, key, s) matches Some(f) ==> s <= f && is_line_start(t, f) && defines(t, key, f),
    decreases t.len() + 1 - s,
{
    if 0 <= s < t.len() && !defines(t, key, s) {
        lemma_line_end_bounds(t, s);
        lemma_first_def_found(t, key, line_end(t, s) + 1);
    }
}

/// A line feed at `k >= i` bounds the end of the line that contains `i`.
proof fn lemma_line_end_before(t: Seq<char>, i: int, k: int)
    requires
        0 <= i <= k < t.len(),
        t[k] == '\n',
    ensures
        line_end(t, i) <= k,
{
    lemma_line_end_bounds(t, i);
}

/// When the line starting at `i` defines `key`, the search from any earlier
/// line start finds a defining line no later than `i`.
proof fn lemma_first_def_reaches(t: Seq<char>, key: Seq<char>, s: int, i: int)
    requires
        s == 0 || is_line_start(t, s),
        0 <= s <= i,
        is_line_start(t, i),
        defines(t, key, i),
    ensures
        first_def(t, key, s) matches Some(f) && s <= f <= i,
    decreases t.len() + 1 - s,
{
    if s < i && !defines(t, key, s) {
        lemma_line_end_before(t, s, i - 1);
        lemma_line_end_bounds(t, s);
        lemma_first_def_reaches(t, key, line_end(t, s) + 1, i);
    }
}

/// Only the first line that defines a key is rewritten. Of two lines, starting
/// at `i < j`, that both define `key`, the rewritten one starts no later than
/// `i`, and the patched text ends with the text from `j` on, unchanged: the
/// later definition survives as it was.
pub proof fn lemma_first_match_wins(t: Seq<char>, key: Seq<char>, value: Seq<char>, i: int, j: int)
    requires
        is_line_start(t, i),
        is_line_start(t, j),
        i < j,
        defines(t, key, i),
        defines(t, key, j),
    ensures
        first_def(t, key, 0) matches Some(f) && f <= i,
        patched(t, key, value) matches Some(r) && r.len() >= t.len() - j && r.subrange(
            r.len() - (t.len() - j),
            r.len() as int,
        ) == t.subrange(j, t.len() as int),
{
    lemma_first_def_reaches(t, key, 0, i);
    let f = first_def(t, key, 0)->0;
    lemma_first_def_found(t, key, 0);
    lemma_line_end_before(t, f, j - 1);
    lemma_body_end_bounds(t, f);
    let b = body_end(t, f);
    let v = value_start(t, key, f);
    lemma_skip_space_bounds(t, f, b);
    let r = patched(t, key, value)->0;
    assert(r == t.subrange(0, v) + value + t.subrange(b, t.len() as int));
    assert(r.subrange(r.len() - (t.len() - j), r.len() as int) =~= t.subrange(j, t.len() as int));
}

/// Patching finds nothing to rewrite exactly when no line defines the key; the
/// text is then left as it is.
pub proof fn lemma_missing_key(t: Seq<char>, key: Seq<char>, value: Seq<char>)
    ensures
        patched(t, key, value) is None <==> forall|j: int|
            is_line_start(t, j) ==> !#[trigger] defines(t, key, j),
{
    lemma_first_def_found(t, key, 0);
    if exists|j: int| is_line_start(t, j) && #[trigger] defines(t, key, j) {
        let j = choose|j: int| is_line_start(t, j) && #[trigger] defines(t, key, j);
        lemma_first_def_reaches(t, key, 0, j);
    }
}

proof fn lemma_skip_space_bounds(t: Seq<char>, i: int, b: int)
    requires
        i <= b,
    ensures
        i <= skip_space(t, i, b) <= b,
    decreases b - i,
{
    if i < b && is_space(t[i]) {
        lemma_skip_space_bounds(t, i + 1, b);
    }
}

proof fn lemma_body_end_bounds(t: Seq<char>, i: int)
    requires
        0 <= i <= t.len(),
    ensures
        i <= body_end(t, i) <= line_end(t, i) <= t.len(),
{
    lemma_line_end_bounds(t, i);
}

fn line_end_at(t: &Vec<char>, i: usize) -> (r: usize)
    requires
        i <= t@.len(),
    ensures
        r == line_end(t@, i as int),
{
    let mut k = i;
    while k < t.len() && t[k] != '\n'
        invariant
            i <= k <= t@.len(),
            line_end(t@, k as int) == line_end(t@, i as int),
        decreases t@.len() - k,
    {
        k = k + 1;
    }
    k
}

fn body_end_at(t: &Vec<char>, i: usize) -> (r: usize)
    requires
        i <= t@.len(),
    ensures
        r == body_end(t@, i as int),
{
    let e = line_end_at(t, i);
    proof {
        lemma_line_end_bounds(t@, i as int);
    }
    if e < t.len() && e > i && t[e - 1] == '\r' {
        e - 1
    } else {
        e
    }
}

fn skip_space_at(t: &Vec<char>, i: usize, b: usize) -> (r: usize)
    requires
        i <= b <= t@.len(),
    ensures
        r == skip_space(t@, i as int, b as int),
{
    let mut k = i;
    while k < b && is_space_char(t[k])
        invariant
            i <= k <= b <= t@.len(),
            skip_space(t@, k as int, b as int) == skip_space(t@, i as int, b as int),
        decreases b - k,
    {
        k = k + 1;
    }
    k
}

fn defines_at(t: &Vec<char>, key: &Vec<char>, i: usize) -> (r: bool)
    requires
        i <= t@.len(),
    ensures
        r == defines(t@, key@, i as int),
{
    let b = body_end_at(t, i);
    proof {
        lemma_body_end_bounds(t@, i as int);
    }
    let p = skip_space_at(t, i, b);
    proof {
        lemma_skip_space_bounds(t@, i as int, b as int);
    }
    if key.len() >= b - p {
        return false;
    }
    let mut k: usize = 0;
    while k < key.len()
        invariant
            b == body_end(t@, i as int),
            p == skip_space(t@, i as int, b as int),
            p + key@.len() < b <= t@.len(),
            k <= key@.len(),
            forall|m: int| 0 <= m < k ==> t@[p + m] == key@[m],
        decreases key@.len() - k,
    {
        if t[p + k] != key[k] {
            assert(t@.subrange(p as int, p + key@.len())[k as int] != key@[k as int]);
            assert(t@.subrange(p as int, p + key@.len()) != key@);
            return false;
        }
        k = k + 1;
    }
    assert(t@.subrange(p as int, p + key@.len()) =~= key@);
    t[p + key.len()] == '='
}

fn find_key_line(t: &Vec<char>, key: &Vec<char>) -> (r: Option<usize>)
    ensures
        r matches Some(i) ==> first_def(t@, key@, 0) == Some(i as int),
        r is None ==> first_def(t@, key@, 0) is None,
{
    let n = t.len();
    let mut i: usize = 0;
    while i < n
        invariant
            n == t@.len(),
            i <= n,
            first_def(t@, key@, i as int) == first_def(t@, key@, 0),
        decreases n - i,
    {
        if defines_at(t, key, i) {
            return Some(i);
        }
        let e = line_end_at(t, i);
        proof {
            lemma_line_end_bounds(t@, i as int);
        }
        if e >= n {
            assert(first_def(t@, key@, e + 1) is None);
            return None;
        }
        i = e + 1;
    }
    None
}

/// Rewrites the value of the first line of `text` that defines `key`; `None`
/// when no line defines it.
pub fn patch_text(text: &str, key: &str, value: &str) -> (r: Option<String>)
    ensures
        r matches Some(s) ==> patched(text@, key@, value@) == Some(s@),
        r is None <==> patched(text@, key@, value@) is None,
{
    let t = chars_of(text);
    let k = chars_of(key);
    match find_key_line(&t, &k) {
        None => None,
        Some(i) => {
            proof {
                lemma_first_def_found(t@, k@, 0);
                lemma_body_end_bounds(t@, i as int);
            }
            let b = body_end_at(&t, i);
            let p = skip_space_at(&t, i, b);
            proof {
                lemma_skip_space_bounds(t@, i as int, b as int);
                assert(defines(t@, k@, i as int));
            }
            let v = p + k.len() + 1;
            let mut out = String::from_str(text.substring_char(0, v));
            out.append(value);
            out.append(text.substring_char(b, t.len()));
            Some(out)
        }
    }
}

} // verus!
