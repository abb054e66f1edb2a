//! Splicing: a text cut into the stretches between its tags, and put
//! together again with a replacement in place of each tag.

use crate::outside::{find_all, regex_accepts, regex_gaps, regex_groups};
use crate::text::texts;
use vstd::prelude::*;
use vstd::string::StringExecFns;

verus! {

/// A text cut at its tags: `gaps` holds what stands before, between and
/// after the tags, `matches` holds for each tag what its groups matched.
/// Group 0 of a tag is the tag as written.
pub struct Scan {
    pub gaps: Vec<String>,
    pub matches: Vec<Vec<Option<String>>>,
}

/// The text of each group of one tag.
pub open spec fn group_views(groups: Seq<Option<String>>) -> Seq<Option<Seq<char>>> {
    groups.map_values(
        |group: Option<String>|
            match group {
                Some(s) => Some(s@),
                None => None,
            },
    )
}

/// The text of each group of each tag.
pub open spec fn match_views(matches: Seq<Vec<Option<String>>>) -> Seq<Seq<Option<Seq<char>>>> {
    matches.map_values(|groups: Vec<Option<String>>| group_views(groups@))
}

/// What group `i` of a tag matched; nothing, if the tag has no such group
/// or the group took no part in the match.
pub open spec fn group_text(groups: Seq<Option<Seq<char>>>, i: int) -> Seq<char> {
    if 0 <= i < groups.len() && groups[i] is Some {
        groups[i].unwrap()
    } else {
        Seq::empty()
    }
}

/// The tags as written, in order.
pub open spec fn wholes(tags: Seq<Seq<Option<Seq<char>>>>) -> Seq<Seq<char>> {
    tags.map_values(|groups: Seq<Option<Seq<char>>>| group_text(groups, 0))
}

/// The gaps and the fills in turn, beginning with a gap: `gaps[0]`,
/// `fills[0]`, `gaps[1]`, and so on up to the gap after the last fill.
pub open spec fn weave(gaps: Seq<Seq<char>>, fills: Seq<Seq<char>>) -> Seq<char>
    decreases gaps.len(),
{
    if gaps.len() == 0 {
        Seq::empty()
    } else if fills.len() == 0 {
        gaps[0]
    } else {
        gaps[0] + fills[0] + weave(gaps.drop_first(), fills.drop_first())
    }
}

/// The gaps and the tags are a cut of `text`: a gap on each side of every
/// tag, and all of them in turn give the text.
pub open spec fn tiles(text: Seq<char>, gaps: Seq<Seq<char>>, tags: Seq<Seq<char>>) -> bool {
    gaps.len() == tags.len() + 1 && weave(gaps, tags) == text
}

/// A text without tags is one gap, and with nothing to fill it stays as
/// it is.
pub proof fn lemma_no_tags(text: Seq<char>, gaps: Seq<Seq<char>>)
    requires
        tiles(text, gaps, Seq::empty()),
    ensures
        gaps == seq![text],
        weave(gaps, Seq::empty()) == text,
{
    assert(gaps =~= seq![text]);
}

/// Each fill stands on its own, between what the tags before it gave and
/// what the tags after it give: the text up to fill `k` is made of the
/// first `k + 1` gaps and the first `k` fills alone, the text after it of
/// the gaps and fills that follow, in the order of the tags.
pub proof fn lemma_weave_split(gaps: Seq<Seq<char>>, fills: Seq<Seq<char>>, k: int)
    requires
        gaps.len() == fills.len() + 1,
        0 <= k < fills.len(),
    ensures
        weave(gaps, fills) == weave(gaps.take(k + 1), fills.take(k)) + fills[k] + weave(
            gaps.skip(k + 1),
            fills.skip(k + 1),
        ),
    decreases k,
{
    let g = gaps.drop_first();
    let f = fills.drop_first();
    if k == 0 {
        assert(gaps.take(1)[0] == gaps[0]);
        assert(fills.take(0).len() == 0);
        assert(gaps.skip(1) =~= g);
        assert(fills.skip(1) =~= f);
    } else {
        lemma_weave_split(g, f, k - 1);
        assert(gaps.take(k + 1).drop_first() =~= g.take(k));
        assert(fills.take(k).drop_first() =~= f.take(k - 1));
        assert(g.skip(k) =~= gaps.skip(k + 1));
        assert(f.skip(k) =~= fills.skip(k + 1));
        assert(gaps.take(k + 1)[0] == gaps[0]);
        assert(fills.take(k)[0] == fills[0]);
        assert(f[k - 1] == fills[k]);
        let head = gaps[0] + fills[0];
        let left = weave(g.take(k), f.take(k - 1));
        let right = weave(g.skip(k), f.skip(k));
        assert(head + (left + fills[k] + right) =~= (head + left) + fills[k] + right);
    }
}

/// Another fill for tag `k` changes the result at the place of that tag
/// and nowhere else: what stands before it and after it is the same.
pub proof fn lemma_fill_is_local(
    gaps: Seq<Seq<char>>,
    fills: Seq<Seq<char>>,
    k: int,
    other: Seq<char>,
)
    requires
        gaps.len() == fills.len() + 1,
        0 <= k < fills.len(),
    ensures
        weave(gaps, fills) == weave(gaps.take(k + 1), fills.take(k)) + fills[k] + weave(
            gaps.skip(k + 1),
            fills.skip(k + 1),
        ),
        weave(gaps, fills.update(k, other)) == weave(gaps.take(k + 1), fills.take(k)) + other
            + weave(gaps.skip(k + 1), fills.skip(k + 1)),
{
    let changed = fills.update(k, other);
    lemma_weave_split(gaps, fills, k);
    lemma_weave_split(gaps, changed, k);
    assert(changed.take(k) =~= fills.take(k));
    assert(changed.skip(k + 1) =~= fills.skip(k + 1));
}

/// Why a text could not be resolved.
#[derive(Clone, Copy, Debug, PartialEq, Eq, Structural)]
pub enum PreprocessError {
    /// The pattern of the tags was not accepted.
    Pattern,
    /// As many fragments are needed as there are tags to fill from them.
    FragmentCount { expected: usize, given: usize },
}

/// Cuts `text` at the matches of `pattern`.
pub fn scan(pattern: &str, text: &str) -> (r: Result<Scan, PreprocessError>)
    ensures
        r is Ok == regex_accepts(pattern@),
        r is Err ==> r == Err::<Scan, PreprocessError>(PreprocessError::Pattern),
        r matches Ok(found) ==> {
            &&& found.gap_texts() == regex_gaps(pattern@, text@)
            &&& found.tags() == regex_groups(pattern@, text@)
            &&& found.cuts(text@)
        },
{
    match find_all(pattern, text) {
        Ok(found) => Ok(found),
        Err(_) => Err(PreprocessError::Pattern),
    }
}

impl Scan {
    /// The text between the tags.
    pub open spec fn gap_texts(&self) -> Seq<Seq<char>> {
        texts(self.gaps@)
    }

    /// The groups of each tag.
    pub open spec fn tags(&self) -> Seq<Seq<Option<Seq<char>>>> {
        match_views(self.matches@)
    }

    /// What group `i` of tag `k` matched; nothing, if there is no such tag,
    /// the tag has no such group, or the group took no part in the match.
    pub fn group(&self, k: usize, i: usize) -> (r: &str)
        ensures
            r@ == if k < self.tags().len() {
                group_text(self.tags()[k as int], i as int)
            } else {
                Seq::empty()
            },
    {
        proof {
            reveal_strlit("");
        }
        if k >= self.matches.len() {
            return "";
        }
        let groups = &self.matches[k];
        if i < groups.len() {
            match &groups[i] {
                Some(s) => s.as_str(),
                None => "",
            }
        } else {
            ""
        }
    }

    /// This scan is a cut of `text`.
    pub open spec fn cuts(&self, text: Seq<char>) -> bool {
        tiles(text, self.gap_texts(), wholes(self.tags()))
    }

    /// The text with `fills[i]` in place of the tag `i`.
    pub fn splice(&self, fills: &Vec<String>) -> (out: String)
        ensures
            out@ == weave(self.gap_texts(), texts(fills@)),
    {
        let ghost g = self.gap_texts();
        let ghost f = texts(fills@);
        let mut out = String::new();
        let mut i: usize = 0;
        assert(g.skip(0) =~= g && f.skip(0) =~= f);
        assert(out@ + weave(g, f) =~= weave(g, f));
        loop
            invariant_except_break
                i <= self.gaps.len(),
                i <= fills.len(),
                g == self.gap_texts(),
                f == texts(fills@),
                weave(g, f) == out@ + weave(g.skip(i as int), f.skip(i as int)),
            ensures
                out@ == weave(g, f),
            decreases self.gaps.len() - i,
        {
            let ghost before = out@;
            let ghost gs = g.skip(i as int);
            let ghost fs = f.skip(i as int);
            if i >= self.gaps.len() {
                assert(out@ + Seq::<char>::empty() =~= out@);
                break;
            }
            out.append(self.gaps[i].as_str());
            assert(gs[0] == self.gaps[i as int]@);
            if i >= fills.len() {
                break;
            }
            out.append(fills[i].as_str());
            assert(fs[0] == fills[i as int]@);
            assert(gs.drop_first() =~= g.skip(i + 1));
            assert(fs.drop_first() =~= f.skip(i + 1));
            assert(out@ =~= before + (gs[0] + fs[0]));
            assert(before + (gs[0] + fs[0] + weave(gs.drop_first(), fs.drop_first())) =~= before
                + (gs[0] + fs[0]) + weave(gs.drop_first(), fs.drop_first()));
            i += 1;
        }
        out
    }
}

} // verus!
