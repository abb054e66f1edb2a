//! The fragment extractor: the text that a fragment marks for inclusion
//! between a start marker and the first end marker after it.

use crate::headers::{shift, shift_headers};
use crate::outside::join;
use crate::text::{
    find, find_from, lemma_find, lemma_find_after, lemma_find_none_in_tail,
    lemma_joined_empty_sep, push_range, texts, to_chars, to_string,
};
use vstd::prelude::*;

verus! {

/// The marker before a region.
pub const START_MARKER: &'static str = "<!-- START -->";

/// The marker after a region.
pub const END_MARKER: &'static str = "<!-- END -->";

/// The characters of the start marker.
pub open spec fn start_marker() -> Seq<char> {
    START_MARKER@
}

/// The characters of the end marker.
pub open spec fn end_marker() -> Seq<char> {
    END_MARKER@
}

/// `t` without the line feed that it begins with, if it begins with one.
pub open spec fn strip_newline(t: Seq<char>) -> Seq<char> {
    if t.len() > 0 && t[0] == '\n' {
        t.drop_first()
    } else {
        t
    }
}

/// What follows the start marker that stands at `s`, less one line feed
/// directly after the marker.
pub open spec fn body_after(t: Seq<char>, s: int) -> Seq<char> {
    strip_newline(t.skip(s + start_marker().len()))
}

/// The marked regions of `t`, in order. A region begins after the first
/// start marker (and one line feed, if one follows it directly) and ends
/// before the first end marker after that; the search for the next region
/// goes on behind that end marker. A start marker with no end marker after
/// it marks nothing.
pub open spec fn regions(t: Seq<char>) -> Seq<Seq<char>>
    decreases t.len(),
{
    match find(t, start_marker()) {
        None => Seq::empty(),
        Some(s) => {
            let body = body_after(t, s);
            match find(body, end_marker()) {
                None => Seq::empty(),
                Some(e) => {
                    proof {
                        lemma_find(t, start_marker());
                        lemma_find(body, end_marker());
                        reveal_strlit("<!-- END -->");
                    }
                    seq![body.take(e)] + regions(body.skip(e + end_marker().len()))
                },
            }
        },
    }
}

/// Each region with its headings demoted by one level.
pub open spec fn shifted(regions: Seq<Seq<char>>) -> Seq<Seq<char>> {
    regions.map_values(|r: Seq<char>| shift_headers(r))
}

/// What a fragment gives when it is included: its marked regions, each with
/// its headings demoted by one level, one after another.
pub open spec fn extraction(t: Seq<char>) -> Seq<char> {
    shifted(regions(t)).flatten()
}

/// Each marker begins with `<` and holds no other `<`.
pub proof fn lemma_marker_shapes()
    ensures
        start_marker().len() == 14,
        end_marker().len() == 12,
        start_marker()[0] == '<',
        end_marker()[0] == '<',
        forall|d: int| 1 <= d < 14 ==> start_marker()[d] != '<',
        forall|d: int| 1 <= d < 12 ==> end_marker()[d] != '<',
{
    reveal_strlit("<!-- START -->");
    reveal_strlit("<!-- END -->");
}

/// A fragment without a start marker marks nothing, and so does one
/// without an end marker.
pub proof fn lemma_unmarked(t: Seq<char>)
    requires
        find(t, start_marker()) is None || find(t, end_marker()) is None,
    ensures
        regions(t) == Seq::<Seq<char>>::empty(),
        extraction(t) == Seq::<char>::empty(),
{
    lemma_marker_shapes();
    if find(t, start_marker()) is Some {
        let s = find(t, start_marker()).unwrap();
        lemma_find(t, start_marker());
        let tail = t.skip(s + start_marker().len());
        lemma_find_none_in_tail(t, end_marker(), s + start_marker().len());
        if tail.len() > 0 && tail[0] == '\n' {
            lemma_find_none_in_tail(tail, end_marker(), 1);
        }
    }
    assert(shifted(Seq::<Seq<char>>::empty()) =~= Seq::<Seq<char>>::empty());
}

/// The first region of a fragment is what stands between its first start
/// marker and the first end marker after it, less one line feed directly
/// after the start marker; the regions that follow are those of the text
/// behind that end marker.
pub proof fn lemma_first_region(before: Seq<char>, body: Seq<char>, after: Seq<char>)
    requires
        find(before, start_marker()) is None,
        find(body, end_marker()) is None,
    ensures
        regions(before + start_marker() + body + end_marker() + after) == seq![
            strip_newline(body),
        ] + regions(after),
{
    lemma_marker_shapes();
    let t = before + start_marker() + body + end_marker() + after;
    let s = before.len() as int;
    let inner = strip_newline(body);
    assert(t =~= before + start_marker() + (body + end_marker() + after));
    lemma_find_after(before, start_marker(), body + end_marker() + after);
    let tail = t.skip(s + start_marker().len());
    assert(tail =~= body + end_marker() + after);
    assert(strip_newline(tail) =~= inner + end_marker() + after) by {
        if body.len() == 0 {
            assert(tail[0] == end_marker()[0]);
        } else {
            assert(tail[0] == body[0]);
        }
    }
    assert(find(inner, end_marker()) is None) by {
        if body.len() > 0 && body[0] == '\n' {
            lemma_find_none_in_tail(body, end_marker(), 1);
        }
    }
    lemma_find_after(inner, end_marker(), after);
    let found = body_after(t, s);
    let e = inner.len() as int;
    assert(found.take(e) =~= inner);
    assert(found.skip(e + end_marker().len()) =~= after);
}

/// A fragment with exactly one pair of markers gives the text between
/// them, less one line feed directly after the start marker, with its
/// headings demoted by one level. What stands before the start marker and
/// after the end marker is left out.
pub proof fn lemma_one_region(before: Seq<char>, body: Seq<char>, after: Seq<char>)
    requires
        find(before, start_marker()) is None,
        find(body, end_marker()) is None,
        find(after, start_marker()) is None,
    ensures
        regions(before + start_marker() + body + end_marker() + after) == seq![
            strip_newline(body),
        ],
        extraction(before + start_marker() + body + end_marker() + after) == shift_headers(
            strip_newline(body),
        ),
{
    let inner = strip_newline(body);
    lemma_first_region(before, body, after);
    lemma_unmarked(after);
    assert(seq![inner] + Seq::<Seq<char>>::empty() =~= seq![inner]);
    let one = shifted(seq![inner]);
    assert(one =~= seq![shift_headers(inner)]);
    assert(one.drop_first() =~= Seq::<Seq<char>>::empty());
    assert(one.drop_first().flatten() =~= Seq::<char>::empty());
    assert(one.flatten() =~= shift_headers(inner));
}

/// What the regions of a fragment give is what its first region gives,
/// followed by what the text behind that region gives.
pub proof fn lemma_extraction_in_order(before: Seq<char>, body: Seq<char>, after: Seq<char>)
    requires
        find(before, start_marker()) is None,
        find(body, end_marker()) is None,
    ensures
        extraction(before + start_marker() + body + end_marker() + after) == shift_headers(
            strip_newline(body),
        ) + extraction(after),
{
    let inner = strip_newline(body);
    lemma_first_region(before, body, after);
    let all = shifted(seq![inner] + regions(after));
    assert(all.first() == shift_headers(inner));
    assert(all.drop_first() =~= shifted(regions(after)));
}

/// The marked text of a fragment, with its headings demoted by one level.
pub fn extract(fragment: &str) -> (out: String)
    ensures
        out@ == extraction(fragment@),
{
    let text = to_chars(fragment);
    let start = to_chars(START_MARKER);
    let end = to_chars(END_MARKER);
    let mut parts: Vec<String> = Vec::new();
    let mut pos: usize = 0;
    let ghost mut done: Seq<Seq<char>> = Seq::empty();
    assert(text@.skip(0) =~= text@);
    assert(done + regions(text@) =~= regions(text@));
    assert(texts(parts@) =~= shifted(done));
    loop
        invariant_except_break
            pos <= text.len(),
            regions(text@) == done + regions(text@.skip(pos as int)),
        invariant
            start@ == start_marker(),
            end@ == end_marker(),
            done.len() == parts.len(),
            texts(parts@) == shifted(done),
        ensures
            regions(text@) == done,
        decreases text.len() - pos,
    {
        let ghost rest = text@.skip(pos as int);
        proof {
            reveal_strlit("<!-- END -->");
        }
        let Some(s) = find_from(&text, &start, pos) else {
            assert(done + Seq::<Seq<char>>::empty() =~= done);
            break ;
        };
        let mut b: usize = s + start.len();
        assert(rest.skip(s - pos + start@.len()) =~= text@.skip(b as int));
        if b < text.len() && text[b] == '\n' {
            assert(text@.skip(b as int).drop_first() =~= text@.skip(b + 1));
            b += 1;
        }
        let ghost body = body_after(rest, s - pos);
        assert(body == text@.skip(b as int));
        let Some(e) = find_from(&text, &end, b) else {
            assert(done + Seq::<Seq<char>>::empty() =~= done);
            break ;
        };
        let ghost region = body.take(e - b);
        assert(region =~= text@.subrange(b as int, e as int));
        assert(body.skip(e - b + end@.len()) =~= text@.skip(e + end@.len()));
        let mut raw: Vec<char> = Vec::new();
        push_range(&mut raw, &text, b, e);
        assert(raw@ =~= region);
        let ghost before = parts@;
        parts.push(to_string(&shift(&raw)));
        proof {
            assert forall|i: int| 0 <= i < parts@.len() implies texts(parts@)[i] == shifted(
                done + seq![region],
            )[i] by {
                if i < before.len() {
                    assert(texts(parts@)[i] == texts(before)[i]);
                    assert(shifted(done)[i] == shift_headers(done[i]));
                }
            }
            assert(texts(parts@) =~= shifted(done + seq![region]));
            assert(done + (seq![region] + regions(text@.skip(e + end@.len()))) =~= (done
                + seq![region]) + regions(text@.skip(e + end@.len())));
            done = done + seq![region];
        }
        pos = e + end.len();
    }
    proof {
        lemma_joined_empty_sep(texts(parts@));
        reveal_strlit("");
        assert(""@ =~= Seq::<char>::empty());
    }
    join(&parts, "")
}

} // verus!
