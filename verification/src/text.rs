//! Text as a sequence of characters: the conversions between `str`, `String`
//! and `Vec<char>`, copying of ranges, and the search for a literal.

use vstd::prelude::*;

verus! {

/// The text of each string of `v`, in order.
pub open spec fn texts(v: Seq<String>) -> Seq<Seq<char>> {
    v.map_values(|s: String| s@)
}

/// The characters of `s`, in order.
pub fn to_chars(s: &str) -> (v: Vec<char>)
    ensures
        v@ == s@,
{
    let mut v: Vec<char> = Vec::new();
    for c in it: s.chars()
        invariant
            v@ == it.seq().take(it.index() as int),
            it.seq() == s@,
    {
        v.push(c);
    }
    v
}

/// The string made of the characters of `v`, in order.
pub fn to_string(v: &Vec<char>) -> (s: String)
    ensures
        s@ == v@,
{
    let mut s = String::new();
    let mut i: usize = 0;
    while i < v.len()
        invariant
            i <= v.len(),
            s@ == v@.take(i as int),
        decreases v.len() - i,
    {
        s.push(v[i]);
        i += 1;
    }
    s
}

/// Appends `text[from..to]` to `out`.
pub(crate) fn push_range(out: &mut Vec<char>, text: &Vec<char>, from: usize, to: usize)
    requires
        from <= to <= text.len(),
    ensures
        final(out)@ == old(out)@ + text@.subrange(from as int, to as int),
{
    let mut i: usize = from;
    while i < to
        invariant
            from <= i <= to <= text.len(),
            out@ == old(out)@ + text@.subrange(from as int, i as int),
        decreases to - i,
    {
        out.push(text[i]);
        i += 1;
    }
}

/// The parts one after another, with `sep` between each two neighbours.
pub open spec fn joined(parts: Seq<Seq<char>>, sep: Seq<char>) -> Seq<char>
    decreases parts.len(),
{
    if parts.len() == 0 {
        Seq::empty()
    } else if parts.len() == 1 {
        parts[0]
    } else {
        parts[0] + sep + joined(parts.drop_first(), sep)
    }
}

/// Joining with an empty separator is plain concatenation.
pub proof fn lemma_joined_empty_sep(parts: Seq<Seq<char>>)
    ensures
        joined(parts, Seq::empty()) == parts.flatten(),
    decreases parts.len(),
{
    if parts.len() == 0 {
    } else if parts.len() == 1 {
        assert(parts.drop_first().flatten() =~= Seq::<char>::empty());
        assert(parts.flatten() =~= parts[0]);
    } else {
        lemma_joined_empty_sep(parts.drop_first());
        assert(parts[0] + Seq::<char>::empty() =~= parts[0]);
    }
}

/// `pat` stands in `t` at index `i`.
pub open spec fn occurs_at(t: Seq<char>, pat: Seq<char>, i: int) -> bool {
    0 <= i && i + pat.len() <= t.len() && t.subrange(i, i + pat.len()) == pat
}

/// The least index at which `pat` stands in `t`, if it stands anywhere.
pub open spec fn find(t: Seq<char>, pat: Seq<char>) -> Option<int>
    decreases t.len(),
{
    if occurs_at(t, pat, 0) {
        Some(0)
    } else if t.len() == 0 {
        None
    } else {
        match find(t.drop_first(), pat) {
            Some(i) => Some(i + 1),
            None => None,
        }
    }
}

/// An occurrence in `t` after its first character is an occurrence in the
/// rest of `t`, one index earlier.
pub proof fn lemma_occurs_drop_first(t: Seq<char>, pat: Seq<char>, i: int)
    requires
        t.len() > 0,
        0 <= i,
    ensures
        occurs_at(t.drop_first(), pat, i) == occurs_at(t, pat, i + 1),
{
    if i + 1 + pat.len() <= t.len() {
        assert(t.drop_first().subrange(i, i + pat.len()) =~= t.subrange(i + 1, i + 1 + pat.len()));
    }
}

/// `find` returns an index exactly when `pat` stands there and nowhere
/// before, and `None` exactly when `pat` stands nowhere in `t`.
pub proof fn lemma_find(t: Seq<char>, pat: Seq<char>)
    ensures
        match find(t, pat) {
            Some(i) => occurs_at(t, pat, i) && forall|j: int| 0 <= j < i ==> !occurs_at(t, pat, j),
            None => forall|j: int| !occurs_at(t, pat, j),
        },
    decreases t.len(),
{
    if occurs_at(t, pat, 0) {
    } else if t.len() == 0 {
    } else {
        lemma_find(t.drop_first(), pat);
        assert forall|j: int| 0 <= j implies occurs_at(t.drop_first(), pat, j) == occurs_at(
            t,
            pat,
            j + 1,
        ) by {
            lemma_occurs_drop_first(t, pat, j);
        }
        match find(t.drop_first(), pat) {
            Some(i) => {
                assert forall|j: int| 0 <= j < i + 1 implies !occurs_at(t, pat, j) by {
                    if j > 0 {
                        assert(!occurs_at(t.drop_first(), pat, j - 1));
                    }
                }
            },
            None => {
                assert forall|j: int| !occurs_at(t, pat, j) by {
                    if j > 0 {
                        assert(!occurs_at(t.drop_first(), pat, j - 1));
                    }
                }
            },
        }
    }
}

/// The first occurrence is the only index with an occurrence and none before it.
pub proof fn lemma_find_is(t: Seq<char>, pat: Seq<char>, i: int)
    requires
        occurs_at(t, pat, i),
        forall|j: int| 0 <= j < i ==> !occurs_at(t, pat, j),
    ensures
        find(t, pat) == Some(i),
{
    lemma_find(t, pat);
    match find(t, pat) {
        Some(k) => {
            if k < i {
                assert(!occurs_at(t, pat, k));
            }
            if i < k {
                assert(!occurs_at(t, pat, i));
            }
        },
        None => {
            assert(!occurs_at(t, pat, i));
        },
    }
}

/// A literal that stands nowhere in a text stands nowhere in its tails.
pub proof fn lemma_find_none_in_tail(t: Seq<char>, pat: Seq<char>, k: int)
    requires
        0 <= k <= t.len(),
        find(t, pat) is None,
    ensures
        find(t.skip(k), pat) is None,
{
    lemma_find(t, pat);
    lemma_find(t.skip(k), pat);
    if find(t.skip(k), pat) is Some {
        let i = find(t.skip(k), pat).unwrap();
        assert(t.skip(k).subrange(i, i + pat.len()) =~= t.subrange(k + i, k + i + pat.len()));
        assert(occurs_at(t, pat, k + i));
    }
}

/// Where a literal follows a text that does not hold it, and the first
/// character of the literal stands nowhere else in it, the first occurrence
/// is the one that was put there: none reaches over from the text before.
pub proof fn lemma_find_after(before: Seq<char>, pat: Seq<char>, after: Seq<char>)
    requires
        find(before, pat) is None,
        pat.len() > 0,
        forall|d: int| 1 <= d < pat.len() ==> #[trigger] pat[d] != pat[0],
    ensures
        find(before + pat + after, pat) == Some(before.len() as int),
{
    let t = before + pat + after;
    let n = before.len() as int;
    lemma_find(before, pat);
    assert(t.subrange(n, n + pat.len()) =~= pat);
    assert forall|j: int| 0 <= j < n implies !occurs_at(t, pat, j) by {
        if occurs_at(t, pat, j) {
            let at = t.subrange(j, j + pat.len());
            if j + pat.len() <= n {
                assert(before.subrange(j, j + pat.len()) =~= at);
                assert(occurs_at(before, pat, j));
            } else {
                let d = n - j;
                assert(at[d] == t[n]);
                assert(t[n] == pat[0]);
            }
        }
    }
    lemma_find_is(t, pat, n);
}

/// Whether `pat` stands in `text` at index `at`.
pub fn matches_at(text: &Vec<char>, pat: &Vec<char>, at: usize) -> (r: bool)
    ensures
        r == occurs_at(text@, pat@, at as int),
{
    if pat.len() > text.len() || at > text.len() - pat.len() {
        return false;
    }
    let mut k: usize = 0;
    while k < pat.len()
        invariant
            k <= pat.len(),
            at + pat.len() <= text.len(),
            forall|m: int| 0 <= m < k ==> text@[at + m] == pat@[m],
        decreases pat.len() - k,
    {
        if text[at + k] != pat[k] {
            proof {
                let sub = text@.subrange(at as int, at + pat.len());
                assert(sub[k as int] == text@[at + k]);
            }
            return false;
        }
        k += 1;
    }
    assert(text@.subrange(at as int, at + pat.len()) =~= pat@);
    true
}

/// The first index at or after `from` at which `pat` stands in `text`;
/// none, if `from` lies behind the end of the text.
pub fn find_from(text: &Vec<char>, pat: &Vec<char>, from: usize) -> (r: Option<usize>)
    ensures
        match r {
            Some(i) => from <= i && i + pat.len() <= text.len() && find(
                text@.skip(from as int),
                pat@,
            ) == Some(i - from),
            None => from > text.len() || find(text@.skip(from as int), pat@) is None,
        },
{
    if from > text.len() {
        return None;
    }
    let ghost rest = text@.skip(from as int);
    let mut i: usize = from;
    loop
        invariant
            from <= i <= text.len(),
            rest == text@.skip(from as int),
            forall|j: int| 0 <= j < i - from ==> !occurs_at(rest, pat@, j),
        decreases text.len() - i,
    {
        let hit = matches_at(text, pat, i);
        proof {
            if i + pat.len() <= text.len() {
                assert(rest.subrange(i - from, i - from + pat.len()) =~= text@.subrange(
                    i as int,
                    i + pat.len(),
                ));
            }
        }
        if hit {
            proof {
                lemma_find_is(rest, pat@, i - from);
            }
            return Some(i);
        }
        if i == text.len() {
            proof {
                lemma_find(rest, pat@);
                if find(rest, pat@) is Some {
                    assert(occurs_at(rest, pat@, find(rest, pat@).unwrap()));
                }
            }
            return None;
        }
        i += 1;
    }
}

} // verus!
