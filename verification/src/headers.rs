//! The header shifter: every ATX heading of level one to five is demoted by
//! one level; all other text is kept as it is.

use crate::text::{push_range, to_chars, to_string};
use vstd::prelude::*;

verus! {

/// The deepest heading level that is still demoted.
pub const MAX_SHIFTED_LEVEL: usize = 5;

/// The length of the first line of `t`: the number of characters before its
/// first line feed, or all of them if it has none.
pub open spec fn line_len(t: Seq<char>) -> nat
    decreases t.len(),
{
    if t.len() == 0 || t[0] == '\n' {
        0
    } else {
        1 + line_len(t.drop_first())
    }
}

/// The number of `#` characters that `t` begins with.
pub open spec fn hash_run(t: Seq<char>) -> nat
    decreases t.len(),
{
    if t.len() > 0 && t[0] == '#' {
        1 + hash_run(t.drop_first())
    } else {
        0
    }
}

/// A line is a heading to demote when it begins with one to five `#`.
pub open spec fn is_heading(line: Seq<char>) -> bool {
    1 <= hash_run(line) <= MAX_SHIFTED_LEVEL
}

/// One line, demoted if it is a heading.
pub open spec fn shift_line(line: Seq<char>) -> Seq<char> {
    if is_heading(line) {
        seq!['#'] + line
    } else {
        line
    }
}

/// The text with each of its lines passed through `shift_line`. Lines end at
/// a line feed, which is kept.
pub open spec fn shift_headers(t: Seq<char>) -> Seq<char>
    decreases t.len(),
{
    let n = line_len(t) as int;
    if n >= t.len() {
        shift_line(t)
    } else {
        shift_line(t.take(n)) + seq!['\n'] + shift_headers(t.skip(n + 1))
    }
}

/// `line_len` is the index of the first line feed.
pub proof fn lemma_line_len(t: Seq<char>)
    ensures
        line_len(t) <= t.len(),
        forall|k: int| 0 <= k < line_len(t) ==> t[k] != '\n',
        line_len(t) < t.len() ==> t[line_len(t) as int] == '\n',
    decreases t.len(),
{
    if t.len() == 0 || t[0] == '\n' {
    } else {
        lemma_line_len(t.drop_first());
        assert forall|k: int| 0 <= k < line_len(t) implies t[k] != '\n' by {
            if k > 0 {
                assert(t[k] == t.drop_first()[k - 1]);
            }
        }
    }
}

/// A stretch without a line feed that ends at a line feed, or at the end of
/// the text, is the first line.
pub proof fn lemma_line_len_is(t: Seq<char>, n: int)
    requires
        0 <= n <= t.len(),
        forall|k: int| 0 <= k < n ==> t[k] != '\n',
        n < t.len() ==> t[n] == '\n',
    ensures
        line_len(t) == n,
    decreases n,
{
    if n > 0 {
        let rest = t.drop_first();
        assert forall|k: int| 0 <= k < n - 1 implies rest[k] != '\n' by {
            assert(rest[k] == t[k + 1]);
        }
        lemma_line_len_is(rest, n - 1);
    }
}

/// `hash_run` counts the `#` characters before the first other character.
pub proof fn lemma_hash_run_is(t: Seq<char>, n: int)
    requires
        0 <= n <= t.len(),
        forall|k: int| 0 <= k < n ==> t[k] == '#',
        n < t.len() ==> t[n] != '#',
    ensures
        hash_run(t) == n,
    decreases n,
{
    if n > 0 {
        let rest = t.drop_first();
        assert forall|k: int| 0 <= k < n - 1 implies rest[k] == '#' by {
            assert(rest[k] == t[k + 1]);
        }
        lemma_hash_run_is(rest, n - 1);
    }
}

/// A text that begins with `n` characters `#` has a run of at least `n`.
pub proof fn lemma_hash_run_at_least(t: Seq<char>, n: int)
    requires
        0 <= n <= t.len(),
        forall|k: int| 0 <= k < n ==> t[k] == '#',
    ensures
        hash_run(t) >= n,
    decreases n,
{
    if n > 0 {
        let rest = t.drop_first();
        assert forall|k: int| 0 <= k < n - 1 implies rest[k] == '#' by {
            assert(rest[k] == t[k + 1]);
        }
        lemma_hash_run_at_least(rest, n - 1);
    }
}

/// A text that holds no line feed.
pub open spec fn is_line(t: Seq<char>) -> bool {
    forall|i: int| 0 <= i < t.len() ==> t[i] != '\n'
}

/// The number of lines of `t` that are headings to demote.
pub open spec fn heading_count(t: Seq<char>) -> nat
    decreases t.len(),
{
    let n = line_len(t) as int;
    if n >= t.len() {
        if is_heading(t) {
            1
        } else {
            0
        }
    } else {
        (if is_heading(t.take(n)) {
            1nat
        } else {
            0nat
        }) + heading_count(t.skip(n + 1))
    }
}

/// A text of one line is shifted as that line.
pub proof fn lemma_shift_one_line(line: Seq<char>)
    requires
        is_line(line),
    ensures
        shift_headers(line) == shift_line(line),
{
    lemma_line_len_is(line, line.len() as int);
}

/// Lines are shifted one by one: what follows a line feed has no part in
/// what becomes of the line before it, and the line feed is kept.
pub proof fn lemma_shift_by_lines(first: Seq<char>, rest: Seq<char>)
    requires
        is_line(first),
    ensures
        shift_headers(first + seq!['\n'] + rest) == shift_line(first) + seq!['\n'] + shift_headers(
            rest,
        ),
{
    let t = first + seq!['\n'] + rest;
    let n = first.len() as int;
    assert(t[n] == '\n');
    assert forall|k: int| 0 <= k < n implies t[k] != '\n' by {
        assert(t[k] == first[k]);
    }
    lemma_line_len_is(t, n);
    assert(t.take(n) =~= first);
    assert(t.skip(n + 1) =~= rest);
}

/// One shift demotes a heading by exactly one level: one `#` more in
/// front, and the line after it as it was.
pub proof fn lemma_shift_adds_one_level(line: Seq<char>)
    requires
        is_heading(line),
    ensures
        shift_line(line) == seq!['#'] + line,
        hash_run(shift_line(line)) == hash_run(line) + 1,
        shift_line(line) != line,
{
    let out = seq!['#'] + line;
    assert(out.drop_first() =~= line);
    assert(out.len() == line.len() + 1);
}

/// A line that is no heading of level one to five is a fixed point.
pub proof fn lemma_shift_keeps_other_lines(line: Seq<char>)
    requires
        !is_heading(line),
    ensures
        shift_line(line) == line,
{
}

/// Shifting is not idempotent: a second shift of a heading of level one to
/// four demotes it once more, so that it has two `#` more than at first.
pub proof fn lemma_shift_twice(line: Seq<char>)
    requires
        1 <= hash_run(line) <= MAX_SHIFTED_LEVEL - 1,
    ensures
        shift_line(shift_line(line)) == seq!['#', '#'] + line,
        hash_run(shift_line(shift_line(line))) == hash_run(line) + 2,
{
    lemma_shift_adds_one_level(line);
    lemma_shift_adds_one_level(shift_line(line));
    assert(seq!['#'] + (seq!['#'] + line) =~= seq!['#', '#'] + line);
}

/// A heading of level five is demoted to level six, and there it stays.
pub proof fn lemma_shift_stops_at_six(line: Seq<char>)
    requires
        hash_run(line) == MAX_SHIFTED_LEVEL,
    ensures
        hash_run(shift_line(line)) == MAX_SHIFTED_LEVEL + 1,
        shift_line(shift_line(line)) == shift_line(line),
{
    lemma_shift_adds_one_level(line);
}

/// The text with each of its lines passed through `shift_line` twice.
pub open spec fn shift_lines_twice(t: Seq<char>) -> Seq<char>
    decreases t.len(),
{
    let n = line_len(t) as int;
    if n >= t.len() {
        shift_line(shift_line(t))
    } else {
        shift_line(shift_line(t.take(n))) + seq!['\n'] + shift_lines_twice(t.skip(n + 1))
    }
}

/// A second shift of a whole text shifts each of its lines a second time:
/// with `lemma_shift_twice`, every heading of level one to four then has
/// two `#` more than at first.
pub proof fn lemma_shift_text_twice(t: Seq<char>)
    ensures
        shift_headers(shift_headers(t)) == shift_lines_twice(t),
    decreases t.len(),
{
    let n = line_len(t) as int;
    lemma_line_len(t);
    if n >= t.len() {
        assert(is_line(shift_line(t)));
        lemma_shift_one_line(shift_line(t));
    } else {
        let first = t.take(n);
        let rest = t.skip(n + 1);
        assert(is_line(shift_line(first)));
        lemma_shift_text_twice(rest);
        lemma_shift_by_lines(shift_line(first), shift_headers(rest));
    }
}

/// Shifting adds one character for each heading that it demotes, so a text
/// with such a heading is no fixed point.
pub proof fn lemma_shift_len(t: Seq<char>)
    ensures
        shift_headers(t).len() == t.len() + heading_count(t),
        heading_count(t) > 0 ==> shift_headers(t) != t,
    decreases t.len(),
{
    let n = line_len(t) as int;
    lemma_line_len(t);
    if n < t.len() {
        lemma_shift_len(t.skip(n + 1));
    }
}

/// The index at which the line that begins at `from` ends.
fn line_end(text: &Vec<char>, from: usize) -> (end: usize)
    requires
        from <= text.len(),
    ensures
        from <= end <= text.len(),
        end - from == line_len(text@.skip(from as int)),
{
    let mut j: usize = from;
    while j < text.len() && text[j] != '\n'
        invariant
            from <= j <= text.len(),
            forall|k: int| from <= k < j ==> text@[k] != '\n',
        decreases text.len() - j,
    {
        j += 1;
    }
    proof {
        lemma_line_len_is(text@.skip(from as int), j - from);
    }
    j
}

/// Whether the line `text[from..end]` is a heading to demote.
fn heading_at(text: &Vec<char>, from: usize, end: usize) -> (r: bool)
    requires
        from <= end <= text.len(),
    ensures
        r == is_heading(text@.subrange(from as int, end as int)),
{
    let ghost line = text@.subrange(from as int, end as int);
    let mut k: usize = 0;
    while k <= MAX_SHIFTED_LEVEL && k < end - from && text[from + k] == '#'
        invariant
            from <= end <= text.len(),
            k <= MAX_SHIFTED_LEVEL + 1,
            k <= end - from,
            line == text@.subrange(from as int, end as int),
            forall|m: int| 0 <= m < k ==> line[m] == '#',
        decreases end - from - k,
    {
        k += 1;
    }
    proof {
        if k > MAX_SHIFTED_LEVEL {
            lemma_hash_run_at_least(line, k as int);
        } else {
            lemma_hash_run_is(line, k as int);
        }
    }
    1 <= k && k <= MAX_SHIFTED_LEVEL
}

/// Demotes every heading of level one to five in `text` by one level.
pub fn shift(text: &Vec<char>) -> (out: Vec<char>)
    ensures
        out@ == shift_headers(text@),
{
    let mut out: Vec<char> = Vec::new();
    let mut from: usize = 0;
    assert(text@.skip(0) =~= text@);
    assert(out@ + shift_headers(text@) =~= shift_headers(text@));
    loop
        invariant_except_break
            from <= text.len(),
            shift_headers(text@) == out@ + shift_headers(text@.skip(from as int)),
        ensures
            out@ == shift_headers(text@),
        decreases text.len() - from,
    {
        let ghost rest = text@.skip(from as int);
        let ghost before = out@;
        let end = line_end(text, from);
        let ghost line = text@.subrange(from as int, end as int);
        assert(line =~= rest.take(end - from));
        if heading_at(text, from, end) {
            out.push('#');
        }
        push_range(&mut out, text, from, end);
        assert(out@ =~= before + shift_line(line));
        if end == text.len() {
            assert(line =~= rest);
            break;
        }
        out.push('\n');
        assert(rest.skip(end - from + 1) =~= text@.skip(end + 1));
        assert(out@ =~= before + (shift_line(line) + seq!['\n']));
        from = end + 1;
    }
    out
}

/// Demotes every heading of level one to five in `text` by one level.
pub fn shift_text(text: &str) -> (out: String)
    ensures
        out@ == shift_headers(text@),
{
    to_string(&shift(&to_chars(text)))
}

} // verus!
