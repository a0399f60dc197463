//! Per-token rules applied to morphological-analyzer output: the dictionary
//! form used to look a token up, the furigana of a token inside its sentence,
//! and the number of selected words per sentence.

use vstd::prelude::*;
use crate::furigana::get_furigana_reading;
use crate::stem::furigana_text;
use crate::text::{chars_eq, chars_of, string_of_range};

verus! {

/// The code points that `kanji::is_kanji` accepts: the CJK unified ideographs
/// (standard set and extensions A to G) and the CJK compatibility ideographs.
pub open spec fn is_kanji_char(c: char) -> bool {
    ('\u{4e00}' <= c <= '\u{9ffc}') || ('\u{f900}' <= c <= '\u{faff}') || ('\u{3400}' <= c
        <= '\u{4dbf}') || ('\u{20000}' <= c <= '\u{2a6dd}') || ('\u{2a700}' <= c <= '\u{2b734}')
        || ('\u{2b740}' <= c <= '\u{2b81d}') || ('\u{2b820}' <= c <= '\u{2cea1}') || ('\u{2ceb0}'
        <= c <= '\u{2ebe0}') || ('\u{30000}' <= c <= '\u{3134a}')
}

/// Relies on `kanji::is_kanji`, which tests `c` against the fixed code-point
/// ranges of `is_kanji_char`.
pub assume_specification[ kanji::is_kanji ](c: char) -> (r: bool)
    ensures
        r == is_kanji_char(c),
;

/// Whether `s` holds at least one kanji.
pub open spec fn has_kanji(s: Seq<char>) -> bool {
    exists|i: int| 0 <= i < s.len() && is_kanji_char(#[trigger] s[i])
}

/// Whether `s` holds at least one kanji.
pub fn contains_kanji(s: &str) -> (r: bool)
    ensures
        r == has_kanji(s@),
{
    let v = chars_of(s);
    let mut i: usize = 0;
    while i < v.len()
        invariant
            v@ == s@,
            i <= v@.len(),
            forall|k: int| 0 <= k < i ==> !is_kanji_char(#[trigger] v@[k]),
        decreases v@.len() - i,
    {
        if kanji::is_kanji(v[i]) {
            return true;
        }
        i = i + 1;
    }
    false
}

/// The text a token contributes to the furigana of its sentence: its furigana
/// when it holds a kanji, else the token as written.
pub fn sentence_furigana_piece(surface: &str, reading: &str) -> (r: String)
    ensures
        r@ == if has_kanji(surface@) {
            furigana_text(surface@, reading@)
        } else {
            surface@
        },
{
    if contains_kanji(surface) {
        get_furigana_reading(surface, reading, false)
    } else {
        String::from_str(surface)
    }
}

/// Whether the part of speech is an adjective or an auxiliary verb, whose
/// dictionary form ends in an inflection.
pub open spec fn has_inflected_ending(pos: Seq<char>) -> bool {
    pos == "形容詞"@ || pos == "助動詞"@
}

/// The dictionary form used to look a token up: without its last character for
/// adjectives and auxiliary verbs.
pub fn sanitized_dictionary_form(dictionary_form: &str, pos: &str) -> (r: String)
    ensures
        r@ == if has_inflected_ending(pos@) && dictionary_form@.len() > 0 {
            dictionary_form@.drop_last()
        } else {
            dictionary_form@
        },
{
    let p = chars_of(pos);
    let inflected = chars_eq(&p, &chars_of("形容詞")) || chars_eq(&p, &chars_of("助動詞"));
    let d = chars_of(dictionary_form);
    if inflected && d.len() > 0 {
        assert(d@.subrange(0, d@.len() - 1) =~= d@.drop_last());
        string_of_range(&d, 0, d.len() - 1)
    } else {
        String::from_str(dictionary_form)
    }
}

/// Walks a list of sentence numbers: a number equal to the current sentence
/// counts one more word for it; any other number closes the current sentence
/// (recorded with its count) and moves on to the next one. Gives the closed
/// sentences, the current sentence and its count.
pub open spec fn counter_state(nums: Seq<i64>) -> (Seq<(int, int)>, int, int)
    decreases nums.len(),
{
    if nums.len() == 0 {
        (Seq::empty(), 0, 0)
    } else {
        let (closed, cur, count) = counter_state(nums.drop_last());
        if nums.last() == cur {
            (closed, cur, count + 1)
        } else {
            (closed.push((cur, count)), cur + 1, 0)
        }
    }
}

/// The sentence/count pairs of a list of sentence numbers (see
/// `counter_state`), the current sentence last.
pub open spec fn sentence_counts(nums: Seq<i64>) -> Seq<(int, int)> {
    let (closed, cur, count) = counter_state(nums);
    closed.push((cur, count))
}

proof fn lemma_counter_bounds(nums: Seq<i64>)
    ensures
        0 <= counter_state(nums).1 <= nums.len(),
        0 <= counter_state(nums).2 <= nums.len(),
    decreases nums.len(),
{
    if nums.len() > 0 {
        lemma_counter_bounds(nums.drop_last());
    }
}

/// The number of words per sentence in a list of sentence numbers (see
/// `sentence_counts`).
pub fn sentence_word_counts(numbers: &Vec<i64>) -> (r: Vec<(u64, u64)>)
    ensures
        r@.len() == sentence_counts(numbers@).len(),
        forall|i: int|
            0 <= i < r@.len() ==> (#[trigger] r@[i]).0 as int == sentence_counts(numbers@)[i].0
                && r@[i].1 as int == sentence_counts(numbers@)[i].1,
{
    let mut out: Vec<(u64, u64)> = Vec::new();
    let mut cur: u64 = 0;
    let mut count: u64 = 0;
    let mut i: usize = 0;
    assert(numbers@.take(0) =~= Seq::<i64>::empty());
    while i < numbers.len()
        invariant
            i <= numbers@.len(),
            counter_state(numbers@.take(i as int)).1 == cur as int,
            counter_state(numbers@.take(i as int)).2 == count as int,
            out@.len() == counter_state(numbers@.take(i as int)).0.len(),
            forall|k: int|
                0 <= k < out@.len() ==> (#[trigger] out@[k]).0 as int == counter_state(
                    numbers@.take(i as int),
                ).0[k].0 && out@[k].1 as int == counter_state(numbers@.take(i as int)).0[k].1,
        decreases numbers@.len() - i,
    {
        let ghost pre = numbers@.take(i + 1);
        assert(pre.drop_last() =~= numbers@.take(i as int));
        assert(pre.last() == numbers@[i as int]);
        proof {
            lemma_counter_bounds(numbers@.take(i as int));
        }
        let n = numbers[i];
        if n >= 0 && n as u64 == cur {
            count = count + 1;
        } else {
            out.push((cur, count));
            cur = cur + 1;
            count = 0;
        }
        i = i + 1;
    }
    assert(numbers@.take(numbers@.len() as int) =~= numbers@);
    out.push((cur, count));
    out
}

} // verus!
