//! Mora segmentation of hiragana readings.

use vstd::prelude::*;
use crate::error::AnnotationError;
use crate::text::{chars_of, string_of, views, char_views};

verus! {

/// The small kana that fuse with the preceding character into one mora.
pub open spec fn is_small_kana(c: char) -> bool {
    c == 'ゃ' || c == 'ゅ' || c == 'ょ' || c == 'ぁ' || c == 'ぃ' || c == 'ぅ' || c == 'ぇ'
        || c == 'ぉ'
}

/// Number of characters of `s` that are not small kana.
pub open spec fn mora_count(s: Seq<char>) -> nat
    decreases s.len(),
{
    if s.len() == 0 {
        0
    } else {
        mora_count(s.drop_last()) + if is_small_kana(s.last()) { 0nat } else { 1nat }
    }
}

/// A reading is well formed when it does not start with a small kana.
pub open spec fn well_formed_reading(s: Seq<char>) -> bool {
    s.len() == 0 || !is_small_kana(s[0])
}

/// The mora units of `s`: each character that is not small kana opens a unit,
/// each small kana joins the unit before it.
pub open spec fn mora_units(s: Seq<char>) -> Seq<Seq<char>>
    decreases s.len(),
{
    if s.len() == 0 {
        Seq::empty()
    } else {
        let prev = mora_units(s.drop_last());
        let c = s.last();
        if !is_small_kana(c) || prev.len() == 0 {
            prev.push(seq![c])
        } else {
            prev.update(prev.len() - 1, prev.last().push(c))
        }
    }
}

/// The concatenation of a sequence of units.
pub open spec fn concat_units(units: Seq<Seq<char>>) -> Seq<char>
    decreases units.len(),
{
    if units.len() == 0 {
        Seq::empty()
    } else {
        concat_units(units.drop_last()) + units.last()
    }
}

/// Whether `c` is an ordinary hiragana, i.e. not one of the small kana.
pub fn is_normal_hiragana(c: &char) -> (r: bool)
    ensures
        r == !is_small_kana(*c),
{
    let c = *c;
    !(c == 'ゃ' || c == 'ゅ' || c == 'ょ' || c == 'ぁ' || c == 'ぃ' || c == 'ぅ' || c == 'ぇ'
        || c == 'ぉ')
}

/// Number of morae of a hiragana word: its characters that are not small kana.
pub fn mora_len(hiragana_word: &str) -> (r: usize)
    ensures
        r == mora_count(hiragana_word@),
{
    let v = chars_of(hiragana_word);
    let mut n: usize = 0;
    let mut i: usize = 0;
    while i < v.len()
        invariant
            v@ == hiragana_word@,
            i <= v@.len(),
            n == mora_count(v@.subrange(0, i as int)),
            n <= i,
        decreases v@.len() - i,
    {
        assert(v@.subrange(0, i + 1).drop_last() =~= v@.subrange(0, i as int));
        if is_normal_hiragana(&v[i]) {
            n = n + 1;
        }
        i = i + 1;
    }
    assert(v@.subrange(0, v@.len() as int) =~= v@);
    n
}

/// Number of characters of a hiragana word.
pub fn hiragana_count_char(hiragana: &str) -> (r: usize)
    ensures
        r == hiragana@.len(),
{
    hiragana.unicode_len()
}

/// The mora units of `v`, as character vectors.
pub fn split_chars_to_mora(v: &Vec<char>) -> (r: Vec<Vec<char>>)
    requires
        well_formed_reading(v@),
    ensures
        char_views(r@) == mora_units(v@),
{
    let mut done: Vec<Vec<char>> = Vec::new();
    let mut cur: Vec<char> = Vec::new();
    let mut i: usize = 0;
    while i < v.len()
        invariant
            well_formed_reading(v@),
            i <= v@.len(),
            i == 0 ==> done@.len() == 0 && cur@.len() == 0,
            i > 0 ==> mora_units(v@.subrange(0, i as int)) == char_views(done@).push(cur@),
        decreases v@.len() - i,
    {
        let c = v[i];
        assert(v@.subrange(0, i + 1).drop_last() =~= v@.subrange(0, i as int));
        if is_normal_hiragana(&c) {
            if i > 0 {
                let ghost before = char_views(done@);
                done.push(cur);
                assert(char_views(done@) =~= before.push(cur@));
            }
            cur = Vec::new();
            cur.push(c);
            proof {
                if i > 0 {
                    assert(mora_units(v@.subrange(0, i + 1)) =~= char_views(done@).push(cur@));
                } else {
                    assert(v@.subrange(0, 0) =~= Seq::<char>::empty());
                    assert(char_views(done@) =~= Seq::<Seq<char>>::empty());
                    assert(cur@ =~= seq![c]);
                    let s1 = v@.subrange(0, 1);
                    assert(s1.drop_last() =~= Seq::<char>::empty());
                    assert(mora_units(s1.drop_last()) =~= Seq::<Seq<char>>::empty());
                    assert(mora_units(v@.subrange(0, 1)) =~= char_views(done@).push(cur@));
                }
            }
        } else {
            cur.push(c);
            proof {
                assert(mora_units(v@.subrange(0, i + 1)) =~= char_views(done@).push(cur@));
            }
        }
        i = i + 1;
    }
    assert(v@.subrange(0, v@.len() as int) =~= v@);
    if i > 0 {
        let ghost before = char_views(done@);
        done.push(cur);
        assert(char_views(done@) =~= before.push(cur@));
    } else {
        assert(char_views(done@) =~= mora_units(v@));
    }
    done
}

/// The mora units of a hiragana word, in order. A small kana joins the unit
/// before it; a word that starts with one is refused.
pub fn split_to_mora(hiragana_word: &str) -> (r: Result<Vec<String>, AnnotationError>)
    ensures
        match r {
            Ok(units) => well_formed_reading(hiragana_word@) && views(units@) == mora_units(
                hiragana_word@,
            ) && units@.len() == mora_count(hiragana_word@) && concat_units(views(units@))
                == hiragana_word@,
            Err(e) => !well_formed_reading(hiragana_word@) && e == AnnotationError::MalformedReading,
        },
{
    let v = chars_of(hiragana_word);
    if v.len() > 0 && !is_normal_hiragana(&v[0]) {
        return Err(AnnotationError::MalformedReading);
    }
    let units = split_chars_to_mora(&v);
    let mut out: Vec<String> = Vec::new();
    let mut i: usize = 0;
    while i < units.len()
        invariant
            i <= units@.len(),
            views(out@) == char_views(units@).subrange(0, i as int),
        decreases units@.len() - i,
    {
        let s = string_of(&units[i]);
        let ghost before = out@;
        out.push(s);
        assert(before.len() == views(before).len());
        assert(out@[i as int]@ == units@[i as int]@);
        assert forall|k: int| 0 <= k < i + 1 implies #[trigger] views(out@)[k] == char_views(
            units@,
        )[k] by {
            if k < i {
                assert(views(before)[k] == char_views(units@).subrange(0, i as int)[k]);
            }
        }
        assert(views(out@) =~= char_views(units@).subrange(0, i + 1));
        i = i + 1;
    }
    assert(char_views(units@).subrange(0, units@.len() as int) =~= char_views(units@));
    proof {
        lemma_mora_units(hiragana_word@);
    }
    Ok(out)
}

/// Segmenting a well-formed reading gives one unit per mora, each unit
/// non-empty, and the units put back together give the reading again.
pub proof fn lemma_mora_units(s: Seq<char>)
    requires
        well_formed_reading(s),
    ensures
        mora_units(s).len() == mora_count(s),
        concat_units(mora_units(s)) == s,
        forall|i: int| 0 <= i < mora_units(s).len() ==> #[trigger] mora_units(s)[i].len() > 0,
        s.len() > 0 ==> mora_units(s).len() > 0,
    decreases s.len(),
{
    if s.len() > 0 {
        let p = s.drop_last();
        assert(well_formed_reading(p));
        lemma_mora_units(p);
        let prev = mora_units(p);
        let c = s.last();
        let units = mora_units(s);
        if !is_small_kana(c) || prev.len() == 0 {
            if prev.len() == 0 {
                assert(p.len() == 0);
            }
            assert(units.drop_last() =~= prev);
            assert(concat_units(units) =~= s);
        } else {
            assert(units.drop_last() =~= prev.drop_last());
            assert(units.last() =~= prev.last().push(c));
            assert(concat_units(prev) == concat_units(prev.drop_last()) + prev.last());
            assert(concat_units(units) == concat_units(units.drop_last()) + units.last());
            assert(concat_units(prev) == p);
            assert(concat_units(units) =~= concat_units(prev).push(c));
            assert(s =~= p.push(c));
        }
    }
}

} // verus!
