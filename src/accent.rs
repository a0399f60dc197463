//! Pitch-accent digit strings: one digit per character of a reading, `0` for
//! low, `1` for high, `2` for the high mora after which the pitch drops.

use vstd::prelude::*;
use crate::error::AnnotationError;
use crate::mora::{
    is_normal_hiragana, lemma_mora_units, mora_count, mora_units, split_chars_to_mora,
    well_formed_reading, concat_units,
};
use crate::text::{chars_of, char_views, push_chars};

verus! {

/// `n` copies of the digit `d`.
pub open spec fn repeated(n: nat, d: char) -> Seq<char> {
    Seq::new(n, |i: int| d)
}

/// The digits of the accent-core mora of width `w`: high up to its last
/// character, then the drop.
pub open spec fn peak(w: nat) -> Seq<char> {
    if w <= 1 {
        seq!['2']
    } else {
        repeated((w - 1) as nat, '1').push('2')
    }
}

/// The digits of the mora at 1-based position `pos`, of width `w`, in a word of
/// `n` morae with accent class `p` (0 heiban, 1 atamadaka, `n` odaka, otherwise
/// nakadaka with the core at mora `p`). Every mora gets one digit per
/// character, so a mora fused with a small kana is low or high on both of its
/// characters, and as the accent core reads `12`.
pub open spec fn mora_accent(w: nat, pos: int, p: int, n: int) -> Seq<char> {
    if p == 1 {
        if pos == 1 {
            peak(w)
        } else {
            repeated(w, '0')
        }
    } else if p == 0 {
        if pos == 1 {
            repeated(w, '0')
        } else {
            repeated(w, '1')
        }
    } else if p == n {
        if pos == 1 {
            repeated(w, '0')
        } else if pos < p {
            repeated(w, '1')
        } else {
            peak(w)
        }
    } else {
        if pos == 1 || pos > p {
            repeated(w, '0')
        } else if pos < p {
            repeated(w, '1')
        } else {
            peak(w)
        }
    }
}

/// The digits of a sequence of mora units, each unit placed at its 1-based
/// position, in a word of `n` morae with accent class `p`.
pub open spec fn units_accent(units: Seq<Seq<char>>, p: int, n: int) -> Seq<char>
    decreases units.len(),
{
    if units.len() == 0 {
        Seq::empty()
    } else {
        units_accent(units.drop_last(), p, n) + mora_accent(
            units.last().len(),
            units.len() as int,
            p,
            n,
        )
    }
}

/// The accent pattern of the reading `s` for accent class `p`.
pub open spec fn pitch_pattern(s: Seq<char>, p: int) -> Seq<char> {
    units_accent(mora_units(s), p, mora_count(s) as int)
}

/// Appends `count` copies of `d` to `out`.
fn push_repeated(out: &mut String, d: char, count: usize)
    ensures
        final(out)@ == old(out)@ + repeated(count as nat, d),
{
    let mut i: usize = 0;
    while i < count
        invariant
            i <= count,
            out@ == old(out)@ + repeated(i as nat, d),
        decreases count - i,
    {
        out.push(d);
        i = i + 1;
        assert(out@ =~= old(out)@ + repeated(i as nat, d));
    }
}

/// Appends the digits of an accent-core mora of width `width` to `out`.
fn push_peak(out: &mut String, width: usize)
    ensures
        final(out)@ == old(out)@ + peak(width as nat),
{
    if width > 1 {
        push_repeated(out, '1', width - 1);
    }
    out.push('2');
    assert(out@ =~= old(out)@ + peak(width as nat));
}

/// Appends the digits of one mora to `out` (see `mora_accent`).
fn push_mora_accent(out: &mut String, width: usize, pos: usize, p: usize, n: usize)
    ensures
        final(out)@ == old(out)@ + mora_accent(width as nat, pos as int, p as int, n as int),
{
    if p == 1 {
        if pos == 1 {
            push_peak(out, width);
        } else {
            push_repeated(out, '0', width);
        }
    } else if p == 0 {
        if pos == 1 {
            push_repeated(out, '0', width);
        } else {
            push_repeated(out, '1', width);
        }
    } else if p == n {
        if pos == 1 {
            push_repeated(out, '0', width);
        } else if pos < p {
            push_repeated(out, '1', width);
        } else {
            push_peak(out, width);
        }
    } else {
        if pos == 1 || pos > p {
            push_repeated(out, '0', width);
        } else if pos < p {
            push_repeated(out, '1', width);
        } else {
            push_peak(out, width);
        }
    }
}

/// The digits of one mora: `hiragana` is the mora, `mora_pos` its 1-based
/// position, `pitch_number` the accent class and `num_mora` the word's mora
/// count.
pub fn make_single_accent(hiragana: &str, mora_pos: u8, pitch_number: u8, num_mora: u8) -> (r:
    String)
    ensures
        r@ == mora_accent(
            hiragana@.len(),
            mora_pos as int,
            pitch_number as int,
            num_mora as int,
        ),
{
    let mut out = String::new();
    push_mora_accent(
        &mut out,
        hiragana.unicode_len(),
        mora_pos as usize,
        pitch_number as usize,
        num_mora as usize,
    );
    out
}

/// The accent pattern of a well-formed reading given as characters.
pub fn pattern_of_chars(v: &Vec<char>, p: usize) -> (r: String)
    requires
        well_formed_reading(v@),
    ensures
        r@ == pitch_pattern(v@, p as int),
{
    let units = split_chars_to_mora(v);
    proof {
        lemma_mora_units(v@);
    }
    let n = units.len();
    let mut out = String::new();
    let mut i: usize = 0;
    while i < n
        invariant
            n == units@.len(),
            char_views(units@) == mora_units(v@),
            n == mora_count(v@),
            i <= n,
            out@ == units_accent(char_views(units@).subrange(0, i as int), p as int, n as int),
        decreases n - i,
    {
        let ghost prefix = char_views(units@).subrange(0, i + 1);
        assert(prefix.drop_last() =~= char_views(units@).subrange(0, i as int));
        assert(prefix.last() == units@[i as int]@);
        push_mora_accent(&mut out, units[i].len(), i + 1, p, n);
        i = i + 1;
    }
    assert(char_views(units@).subrange(0, n as int) =~= char_views(units@));
    out
}

/// The accent pattern of `hiragana_word` for accent class `pitch_number`; a
/// reading that starts with a small kana is refused.
pub fn generate_nhk_accent_from_pitch_number(hiragana_word: &str, pitch_number: u8) -> (r: Result<
    String,
    AnnotationError,
>)
    ensures
        match r {
            Ok(pattern) => well_formed_reading(hiragana_word@) && pattern@ == pitch_pattern(
                hiragana_word@,
                pitch_number as int,
            ) && pattern@.len() == hiragana_word@.len(),
            Err(e) => !well_formed_reading(hiragana_word@) && e == AnnotationError::MalformedReading,
        },
{
    let v = chars_of(hiragana_word);
    if v.len() > 0 && !is_normal_hiragana(&v[0]) {
        return Err(AnnotationError::MalformedReading);
    }
    proof {
        lemma_pattern_len(v@, pitch_number as int);
    }
    Ok(pattern_of_chars(&v, pitch_number as usize))
}

/// Each mora contributes as many digits as it has characters, when no unit is
/// empty.
proof fn lemma_units_accent_len(units: Seq<Seq<char>>, p: int, n: int)
    requires
        forall|i: int| 0 <= i < units.len() ==> #[trigger] units[i].len() > 0,
    ensures
        units_accent(units, p, n).len() == concat_units(units).len(),
    decreases units.len(),
{
    if units.len() > 0 {
        let prefix = units.drop_last();
        assert forall|i: int| 0 <= i < prefix.len() implies #[trigger] prefix[i].len() > 0 by {
            assert(prefix[i] == units[i]);
        }
        lemma_units_accent_len(prefix, p, n);
        assert(units[units.len() - 1].len() > 0);
    }
}

/// For every well-formed reading and every accent class, the pattern has one
/// digit per character of the reading.
pub proof fn lemma_pattern_len(s: Seq<char>, p: int)
    requires
        well_formed_reading(s),
    ensures
        pitch_pattern(s, p).len() == s.len(),
{
    lemma_mora_units(s);
    lemma_units_accent_len(mora_units(s), p, mora_count(s) as int);
}

/// Completes a partial accent pattern to the length of its reading by putting
/// zeros in front of it; a pattern longer than the reading is refused.
pub fn get_full_nhk_accent(hiragana_word: &str, raw_nhk_accent: &str) -> (r: Result<
    String,
    AnnotationError,
>)
    ensures
        match r {
            Ok(full) => raw_nhk_accent@.len() <= hiragana_word@.len() && full@ == repeated(
                (hiragana_word@.len() - raw_nhk_accent@.len()) as nat,
                '0',
            ) + raw_nhk_accent@ && full@.len() == hiragana_word@.len(),
            Err(e) => raw_nhk_accent@.len() > hiragana_word@.len() && e
                == AnnotationError::PaddingUnderflow,
        },
{
    let word_len = hiragana_word.unicode_len();
    let raw = chars_of(raw_nhk_accent);
    if raw.len() > word_len {
        return Err(AnnotationError::PaddingUnderflow);
    }
    let mut out = String::new();
    push_repeated(&mut out, '0', word_len - raw.len());
    push_chars(&mut out, &raw);
    Ok(out)
}

} // verus!
