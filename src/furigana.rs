//! Furigana: kanji spans annotated with their kana reading, as ruby markup or
//! as `KANJI[READING]` plain text.

use vstd::prelude::*;
use crate::align::{align_chars, char_diff, right_text, runs_view, AlignmentRun, RunKind};

verus! {

/// A piece of furigana text: literal text, or a kanji span with its reading.
pub enum FuriganaSegment {
    Plain(Seq<char>),
    Ruby(Seq<char>, Seq<char>),
}

/// The segments of an alignment of a kanji form against its reading: kept text
/// is literal, a removed run followed by an inserted run is a kanji span with
/// its reading, and any other run stands as its own text.
pub open spec fn furigana_segments(runs: Seq<(RunKind, Seq<char>)>) -> Seq<FuriganaSegment>
    decreases runs.len(),
{
    if runs.len() == 0 {
        Seq::empty()
    } else if runs[0].0 == RunKind::Removed && runs.len() > 1 && runs[1].0 == RunKind::Inserted {
        seq![FuriganaSegment::Ruby(runs[0].1, runs[1].1)] + furigana_segments(runs.skip(2))
    } else {
        seq![FuriganaSegment::Plain(runs[0].1)] + furigana_segments(runs.skip(1))
    }
}

/// The text of one segment, as ruby markup or as plain text.
pub open spec fn render_segment(seg: FuriganaSegment, plain_text: bool) -> Seq<char> {
    match seg {
        FuriganaSegment::Plain(t) => t,
        FuriganaSegment::Ruby(k, y) => if plain_text {
            k + "["@ + y + "]"@
        } else {
            "<ruby><rb>"@ + k + "<rt>"@ + y + "</ruby>"@
        },
    }
}

/// The text of a sequence of segments.
pub open spec fn render(segs: Seq<FuriganaSegment>, plain_text: bool) -> Seq<char>
    decreases segs.len(),
{
    if segs.len() == 0 {
        Seq::empty()
    } else {
        render_segment(segs[0], plain_text) + render(segs.skip(1), plain_text)
    }
}

/// What the segments read as once the markup is taken away: literal text as it
/// is, and the reading of each kanji span.
pub open spec fn reading_of(segs: Seq<FuriganaSegment>) -> Seq<char>
    decreases segs.len(),
{
    if segs.len() == 0 {
        Seq::empty()
    } else {
        (match segs[0] {
            FuriganaSegment::Plain(t) => t,
            FuriganaSegment::Ruby(k, y) => y,
        }) + reading_of(segs.skip(1))
    }
}

/// Every removed run is followed by an inserted run.
pub open spec fn removals_paired(runs: Seq<(RunKind, Seq<char>)>) -> bool
    decreases runs.len(),
{
    if runs.len() == 0 {
        true
    } else if runs[0].0 == RunKind::Removed {
        runs.len() > 1 && runs[1].0 == RunKind::Inserted && removals_paired(runs.skip(2))
    } else {
        removals_paired(runs.skip(1))
    }
}

/// The furigana of an alignment reads as the right side of the alignment, when
/// every removed run is paired with an inserted one.
pub proof fn lemma_furigana_reading(runs: Seq<(RunKind, Seq<char>)>)
    requires
        removals_paired(runs),
    ensures
        reading_of(furigana_segments(runs)) == right_text(runs),
    decreases runs.len(),
{
    if runs.len() > 0 {
        let segs = furigana_segments(runs);
        if runs[0].0 == RunKind::Removed {
            let rest = runs.skip(2);
            lemma_furigana_reading(rest);
            assert(segs.skip(1) =~= furigana_segments(rest));
            assert(runs.skip(1).skip(1) =~= rest);
            assert(right_text(runs.skip(1)) == runs[1].1 + right_text(rest));
            assert(right_text(runs) =~= runs[1].1 + right_text(rest));
        } else {
            let rest = runs.skip(1);
            lemma_furigana_reading(rest);
            assert(segs.skip(1) =~= furigana_segments(rest));
        }
    }
}

/// Unfolds `render` on a sequence that starts with a known segment.
proof fn lemma_render_cons(seg: FuriganaSegment, rest: Seq<FuriganaSegment>, plain_text: bool)
    ensures
        render(seq![seg] + rest, plain_text) == render_segment(seg, plain_text) + render(
            rest,
            plain_text,
        ),
{
    let segs = seq![seg] + rest;
    assert(segs[0] == seg);
    assert(segs.skip(1) =~= rest);
}

/// The furigana text of an alignment of a kanji form against its reading.
pub fn furigana_from_runs(runs: &Vec<AlignmentRun>, plain_text: bool) -> (r: String)
    ensures
        r@ == render(furigana_segments(runs_view(runs@)), plain_text),
{
    let ghost rv = runs_view(runs@);
    let n = runs.len();
    let mut out = String::new();
    let mut i: usize = 0;
    assert(rv.skip(0) =~= rv);
    while i < n
        invariant
            rv == runs_view(runs@),
            n == runs@.len(),
            i <= n,
            out@ + render(furigana_segments(rv.skip(i as int)), plain_text) == render(
                furigana_segments(rv),
                plain_text,
            ),
        decreases n - i,
    {
        let ghost rest = rv.skip(i as int);
        let ghost before = out@;
        assert(rest[0] == runs@[i as int]@);
        if runs[i].kind == RunKind::Removed && i + 1 < n && runs[i + 1].kind == RunKind::Inserted {
            assert(rest[1] == runs@[i + 1]@);
            let kanji = runs[i].text.as_str();
            let reading = runs[i + 1].text.as_str();
            if plain_text {
                out.append(kanji);
                out.append("[");
                out.append(reading);
                out.append("]");
            } else {
                out.append("<ruby><rb>");
                out.append(kanji);
                out.append("<rt>");
                out.append(reading);
                out.append("</ruby>");
            }
            proof {
                let seg = FuriganaSegment::Ruby(rest[0].1, rest[1].1);
                assert(rest.skip(2) =~= rv.skip(i + 2));
                lemma_render_cons(seg, furigana_segments(rv.skip(i + 2)), plain_text);
                assert(out@ =~= before + render_segment(seg, plain_text));
            }
            i = i + 2;
        } else {
            out.append(runs[i].text.as_str());
            proof {
                let seg = FuriganaSegment::Plain(rest[0].1);
                assert(rest.skip(1) =~= rv.skip(i + 1));
                lemma_render_cons(seg, furigana_segments(rv.skip(i + 1)), plain_text);
            }
            i = i + 1;
        }
    }
    proof {
        assert(rv.skip(n as int) =~= Seq::<(RunKind, Seq<char>)>::empty());
        assert(out@ + Seq::<char>::empty() =~= out@);
    }
    out
}

/// The furigana text of `kanji` read as `yomi`: the two are aligned character
/// by character and each differing kanji span is annotated with the kana that
/// stand in its place.
pub fn get_furigana_reading(kanji: &str, yomi: &str, plain_text: bool) -> (r: String)
    ensures
        r@ == render(furigana_segments(char_diff(kanji@, yomi@)), plain_text),
        removals_paired(char_diff(kanji@, yomi@)) ==> reading_of(
            furigana_segments(char_diff(kanji@, yomi@)),
        ) == yomi@,
{
    let runs = align_chars(kanji, yomi);
    proof {
        if removals_paired(char_diff(kanji@, yomi@)) {
            lemma_furigana_reading(char_diff(kanji@, yomi@));
        }
    }
    furigana_from_runs(&runs, plain_text)
}

} // verus!
