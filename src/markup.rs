//! Annotated pronunciations: hiragana interleaved with bracketed markers, split
//! into accent units at `[Akz]`, each unit paired with an accent number.

use vstd::prelude::*;
use crate::accent::{lemma_pattern_len, pattern_of_chars, pitch_pattern};
use crate::error::AnnotationError;
use crate::mora::{concat_units, is_normal_hiragana, well_formed_reading};
use crate::text::{chars_eq, chars_of, char_views, extend_chars, string_of};

verus! {

/// Whether `c` lies in the hiragana block `ぁ` ..= `ん`.
pub open spec fn is_hiragana(c: char) -> bool {
    'ぁ' <= c <= 'ん'
}

/// Whether the accent-unit boundary `[Akz]` starts at index `i` of `s`.
pub open spec fn marker_at(s: Seq<char>, i: int) -> bool {
    0 <= i && i + 5 <= s.len() && s[i] == '[' && s[i + 1] == 'A' && s[i + 2] == 'k' && s[i + 3]
        == 'z' && s[i + 4] == ']'
}

/// The accent units of an annotated pronunciation: only hiragana and the
/// boundary marker are kept, and the kept text is split at each marker.
pub open spec fn pronunciation_words(s: Seq<char>) -> Seq<Seq<char>>
    decreases s.len(),
{
    if s.len() == 0 {
        seq![Seq::empty()]
    } else if marker_at(s, 0) {
        seq![Seq::<char>::empty()] + pronunciation_words(s.skip(5))
    } else {
        let rest = pronunciation_words(s.skip(1));
        if is_hiragana(s[0]) {
            rest.update(0, seq![s[0]] + rest[0])
        } else {
            rest
        }
    }
}

/// The pieces of `s` between the `-` separators.
pub open spec fn dash_tokens(s: Seq<char>) -> Seq<Seq<char>>
    decreases s.len(),
{
    if s.len() == 0 {
        seq![Seq::empty()]
    } else if s[0] == '-' {
        seq![Seq::<char>::empty()] + dash_tokens(s.skip(1))
    } else {
        let rest = dash_tokens(s.skip(1));
        rest.update(0, seq![s[0]] + rest[0])
    }
}

/// Whether `c` is an ASCII decimal digit.
pub open spec fn is_digit(c: char) -> bool {
    '0' <= c <= '9'
}

/// The value of a string of decimal digits.
pub open spec fn decimal_value(t: Seq<char>) -> int
    decreases t.len(),
{
    if t.len() == 0 {
        0
    } else {
        decimal_value(t.drop_last()) * 10 + ((t.last() as u32) - 0x30)
    }
}

/// The digits of a token, after an optional leading `+`.
pub open spec fn token_digits(t: Seq<char>) -> Seq<char> {
    if t.len() > 0 && t[0] == '+' {
        t.skip(1)
    } else {
        t
    }
}

/// The token read as an unsigned 8-bit number: an optional `+`, then at least
/// one decimal digit, with a value of at most 255.
pub open spec fn u8_token(t: Seq<char>) -> Option<u8> {
    let d = token_digits(t);
    if d.len() > 0 && (forall|k: int| 0 <= k < d.len() ==> is_digit(#[trigger] d[k]))
        && decimal_value(d) <= 255 {
        Some(decimal_value(d) as u8)
    } else {
        None
    }
}

/// The numbers of a `-`-separated list, when every token is one.
pub open spec fn pitch_numbers(s: Seq<char>) -> Option<Seq<u8>> {
    let tokens = dash_tokens(s);
    if forall|i: int| 0 <= i < tokens.len() ==> (#[trigger] u8_token(tokens[i])) is Some {
        Some(Seq::new(tokens.len(), |i: int| u8_token(tokens[i])->0))
    } else {
        None
    }
}

/// The accent patterns of the first `k` units, each with its number, in order.
pub open spec fn joined_patterns(words: Seq<Seq<char>>, nums: Seq<u8>, k: int) -> Seq<char>
    decreases k,
{
    if k <= 0 {
        Seq::empty()
    } else {
        joined_patterns(words, nums, k - 1) + pitch_pattern(words[k - 1], nums[k - 1] as int)
    }
}

/// A reading together with its accent pattern.
#[derive(Debug, PartialEq, Eq)]
pub struct HiraNhkPitch {
    pub hiragana: String,
    pub nhk_accent: String,
}

proof fn lemma_words_nonempty(s: Seq<char>)
    ensures
        pronunciation_words(s).len() >= 1,
    decreases s.len(),
{
    if s.len() > 0 {
        if marker_at(s, 0) {
            lemma_words_nonempty(s.skip(5));
        } else {
            lemma_words_nonempty(s.skip(1));
        }
    }
}

proof fn lemma_tokens_nonempty(s: Seq<char>)
    ensures
        dash_tokens(s).len() >= 1,
    decreases s.len(),
{
    if s.len() > 0 {
        lemma_tokens_nonempty(s.skip(1));
    }
}

/// The accent units of an annotated pronunciation given as characters.
fn split_pronunciation(v: &Vec<char>) -> (r: Vec<Vec<char>>)
    ensures
        char_views(r@) == pronunciation_words(v@),
{
    let n = v.len();
    let mut done: Vec<Vec<char>> = Vec::new();
    let mut cur: Vec<char> = Vec::new();
    let mut i: usize = 0;
    proof {
        lemma_words_nonempty(v@);
        assert(v@.skip(0) =~= v@);
        let w = pronunciation_words(v@);
        assert(char_views(done@) =~= Seq::<Seq<char>>::empty());
        assert(w =~= char_views(done@) + seq![cur@ + w[0]] + w.skip(1));
    }
    while i < n
        invariant
            n == v@.len(),
            i <= n,
            pronunciation_words(v@) == char_views(done@) + seq![
                cur@ + pronunciation_words(v@.skip(i as int))[0],
            ] + pronunciation_words(v@.skip(i as int)).skip(1),
        decreases n - i,
    {
        let ghost w = pronunciation_words(v@.skip(i as int));
        let ghost rest = v@.skip(i as int);
        if n - i >= 5 && v[i] == '[' && v[i + 1] == 'A' && v[i + 2] == 'k' && v[i + 3] == 'z'
            && v[i + 4] == ']' {
            proof {
                assert(marker_at(rest, 0));
                assert(rest.skip(5) =~= v@.skip(i + 5));
                lemma_words_nonempty(v@.skip(i + 5));
            }
            let ghost before = char_views(done@);
            let ghost old_cur = cur@;
            done.push(cur);
            cur = Vec::new();
            proof {
                assert(char_views(done@) =~= before.push(old_cur));
                let w2 = pronunciation_words(v@.skip(i + 5));
                assert(w =~= seq![Seq::<char>::empty()] + w2);
                assert(pronunciation_words(v@) =~= char_views(done@) + seq![cur@ + w2[0]]
                    + w2.skip(1));
            }
            i = i + 5;
        } else {
            let c = v[i];
            proof {
                assert(!marker_at(rest, 0));
                assert(rest.skip(1) =~= v@.skip(i + 1));
                lemma_words_nonempty(v@.skip(i + 1));
            }
            if 'ぁ' <= c && c <= 'ん' {
                let ghost old_cur = cur@;
                cur.push(c);
                proof {
                    let w2 = pronunciation_words(v@.skip(i + 1));
                    assert(w == w2.update(0, seq![c] + w2[0]));
                    assert(w.skip(1) =~= w2.skip(1));
                    assert(cur@ + w2[0] =~= old_cur + w[0]);
                }
            }
            i = i + 1;
        }
    }
    proof {
        assert(v@.skip(n as int) =~= Seq::<char>::empty());
        let w = pronunciation_words(v@.skip(n as int));
        assert(w =~= seq![Seq::<char>::empty()]);
        assert(cur@ + w[0] =~= cur@);
        assert(w.skip(1) =~= Seq::<Seq<char>>::empty());
    }
    let ghost before = char_views(done@);
    let ghost last = cur@;
    done.push(cur);
    proof {
        assert(char_views(done@) =~= before.push(last));
        assert(pronunciation_words(v@) =~= char_views(done@));
    }
    done
}

/// The pieces of `v` between the `-` separators.
fn split_dashes(v: &Vec<char>) -> (r: Vec<Vec<char>>)
    ensures
        char_views(r@) == dash_tokens(v@),
{
    let n = v.len();
    let mut done: Vec<Vec<char>> = Vec::new();
    let mut cur: Vec<char> = Vec::new();
    let mut i: usize = 0;
    proof {
        lemma_tokens_nonempty(v@);
        assert(v@.skip(0) =~= v@);
        let w = dash_tokens(v@);
        assert(char_views(done@) =~= Seq::<Seq<char>>::empty());
        assert(w =~= char_views(done@) + seq![cur@ + w[0]] + w.skip(1));
    }
    while i < n
        invariant
            n == v@.len(),
            i <= n,
            dash_tokens(v@) == char_views(done@) + seq![cur@ + dash_tokens(v@.skip(i as int))[0]]
                + dash_tokens(v@.skip(i as int)).skip(1),
        decreases n - i,
    {
        let ghost w = dash_tokens(v@.skip(i as int));
        let ghost rest = v@.skip(i as int);
        let c = v[i];
        proof {
            assert(rest.skip(1) =~= v@.skip(i + 1));
            lemma_tokens_nonempty(v@.skip(i + 1));
        }
        let ghost w2 = dash_tokens(v@.skip(i + 1));
        if c == '-' {
            let ghost before = char_views(done@);
            let ghost old_cur = cur@;
            done.push(cur);
            cur = Vec::new();
            proof {
                assert(char_views(done@) =~= before.push(old_cur));
                assert(w =~= seq![Seq::<char>::empty()] + w2);
                assert(dash_tokens(v@) =~= char_views(done@) + seq![cur@ + w2[0]] + w2.skip(1));
            }
        } else {
            let ghost old_cur = cur@;
            cur.push(c);
            proof {
                assert(w == w2.update(0, seq![c] + w2[0]));
                assert(w.skip(1) =~= w2.skip(1));
                assert(cur@ + w2[0] =~= old_cur + w[0]);
            }
        }
        i = i + 1;
    }
    proof {
        assert(v@.skip(n as int) =~= Seq::<char>::empty());
        let w = dash_tokens(v@.skip(n as int));
        assert(w =~= seq![Seq::<char>::empty()]);
        assert(cur@ + w[0] =~= cur@);
        assert(w.skip(1) =~= Seq::<Seq<char>>::empty());
    }
    let ghost before = char_views(done@);
    let ghost last = cur@;
    done.push(cur);
    proof {
        assert(char_views(done@) =~= before.push(last));
        assert(dash_tokens(v@) =~= char_views(done@));
    }
    done
}

/// One token of an accent-number list read as an unsigned 8-bit number.
fn parse_u8_token(t: &Vec<char>) -> (r: Option<u8>)
    ensures
        r == u8_token(t@),
{
    let n = t.len();
    let start: usize = if n > 0 && t[0] == '+' {
        1
    } else {
        0
    };
    proof {
        assert(token_digits(t@) =~= t@.subrange(start as int, n as int));
    }
    if start == n {
        return None;
    }
    let mut val: u32 = 0;
    let mut j: usize = start;
    while j < n
        invariant
            n == t@.len(),
            start <= j <= n,
            token_digits(t@) == t@.subrange(start as int, n as int),
            forall|k: int| start <= k < j ==> is_digit(#[trigger] t@[k]),
            decimal_value(t@.subrange(start as int, j as int)) >= 0,
            decimal_value(t@.subrange(start as int, j as int)) <= 255 ==> val == decimal_value(
                t@.subrange(start as int, j as int),
            ),
            decimal_value(t@.subrange(start as int, j as int)) > 255 ==> val == 256,
        decreases n - j,
    {
        let c = t[j];
        if !('0' <= c && c <= '9') {
            proof {
                let d = token_digits(t@);
                assert(d[j - start] == c);
                assert(!is_digit(d[j - start]));
            }
            return None;
        }
        proof {
            assert(t@.subrange(start as int, j + 1).drop_last() =~= t@.subrange(
                start as int,
                j as int,
            ));
        }
        let digit = (c as u32) - 48;
        let next = val * 10 + digit;
        val = if next > 256 {
            256
        } else {
            next
        };
        j = j + 1;
    }
    let ghost d = token_digits(t@);
    assert(d =~= t@.subrange(start as int, n as int));
    assert forall|k: int| 0 <= k < d.len() implies is_digit(#[trigger] d[k]) by {
        assert(d[k] == t@[start + k]);
    }
    if val > 255 {
        None
    } else {
        Some(val as u8)
    }
}

/// The numbers of a `-`-separated accent-number list, or `None` when a token
/// is not an unsigned 8-bit number.
pub fn parse_pitch_numbers(pitch_string: &str) -> (r: Option<Vec<u8>>)
    ensures
        match r {
            Some(ns) => pitch_numbers(pitch_string@) == Some(ns@),
            None => pitch_numbers(pitch_string@) is None,
        },
{
    let v = chars_of(pitch_string);
    let tokens = split_dashes(&v);
    let ghost tv = dash_tokens(v@);
    let mut out: Vec<u8> = Vec::new();
    let mut i: usize = 0;
    while i < tokens.len()
        invariant
            char_views(tokens@) == tv,
            tv == dash_tokens(pitch_string@),
            i <= tokens@.len(),
            out@.len() == i,
            forall|k: int| 0 <= k < i ==> u8_token(tv[k]) == Some(#[trigger] out@[k]),
        decreases tokens@.len() - i,
    {
        assert(tv[i as int] == tokens@[i as int]@);
        match parse_u8_token(&tokens[i]) {
            Some(x) => {
                out.push(x);
            },
            None => {
                assert(u8_token(tv[i as int]) is None);
                return None;
            },
        }
        i = i + 1;
    }
    assert(tv.len() == out@.len());
    assert forall|k: int| 0 <= k < tv.len() implies (#[trigger] u8_token(tv[k])) is Some by {
        assert(u8_token(tv[k]) == Some(out@[k]));
    }
    assert(out@ =~= Seq::new(tv.len(), |k: int| u8_token(tv[k])->0));
    Some(out)
}

/// Whether every accent unit is a well-formed reading.
pub open spec fn units_well_formed(words: Seq<Seq<char>>) -> bool {
    forall|i: int| 0 <= i < words.len() ==> well_formed_reading(#[trigger] words[i])
}

/// The joined patterns have one digit per character of the joined units.
proof fn lemma_joined_len(words: Seq<Seq<char>>, nums: Seq<u8>, k: int)
    requires
        0 <= k <= words.len(),
        k <= nums.len(),
        forall|i: int| 0 <= i < k ==> well_formed_reading(#[trigger] words[i]),
    ensures
        joined_patterns(words, nums, k).len() == concat_units(words.take(k)).len(),
    decreases k,
{
    if k > 0 {
        lemma_joined_len(words, nums, k - 1);
        assert(words.take(k).drop_last() =~= words.take(k - 1));
        assert(well_formed_reading(words[k - 1]));
        lemma_pattern_len(words[k - 1], nums[k - 1] as int);
    }
}

/// Reads an annotated pronunciation and its accent-number list, and returns the
/// reading with its accent pattern. All accent units together must rebuild
/// `hiragana` exactly, and the list must hold one number per unit.
pub fn generate_nhk_accent_from_pitch_number_string(
    hiragana: &str,
    pitch_string: &str,
    hatsuon: &str,
) -> (r: Result<HiraNhkPitch, AnnotationError>)
    ensures
        match pitch_numbers(pitch_string@) {
            None => r == Err::<HiraNhkPitch, AnnotationError>(AnnotationError::PitchNumberFormat),
            Some(nums) => {
                let words = pronunciation_words(hatsuon@);
                let rebuilt = concat_units(words);
                if rebuilt != hiragana@ {
                    match r {
                        Err(AnnotationError::ReadingMismatch { expected, found }) => expected@
                            == hiragana@ && found@ == rebuilt,
                        _ => false,
                    }
                } else if nums.len() != words.len() {
                    r == Err::<HiraNhkPitch, AnnotationError>(AnnotationError::PitchNumberFormat)
                } else if !units_well_formed(words) {
                    r == Err::<HiraNhkPitch, AnnotationError>(AnnotationError::MalformedReading)
                } else {
                    match r {
                        Ok(res) => res.hiragana@ == hiragana@ && res.nhk_accent@ == joined_patterns(
                            words,
                            nums,
                            words.len() as int,
                        ) && res.nhk_accent@.len() == hiragana@.len(),
                        _ => false,
                    }
                }
            },
        },
        pitch_numbers(pitch_string@) is Some && concat_units(pronunciation_words(hatsuon@))
            != hiragana@ ==> r matches Err(AnnotationError::ReadingMismatch { .. }),
        pitch_numbers(pitch_string@) is Some && pitch_numbers(pitch_string@)->0.len()
            == pronunciation_words(hatsuon@).len() && units_well_formed(
            pronunciation_words(hatsuon@),
        ) ==> (r is Ok <==> concat_units(pronunciation_words(hatsuon@)) == hiragana@),
{
    let nums = match parse_pitch_numbers(pitch_string) {
        None => {
            return Err(AnnotationError::PitchNumberFormat);
        },
        Some(ns) => ns,
    };
    let hv = chars_of(hatsuon);
    let words = split_pronunciation(&hv);
    let ghost wv = char_views(words@);
    let k = words.len();
    let mut rebuilt: Vec<char> = Vec::new();
    let mut j: usize = 0;
    assert(wv.take(0) =~= Seq::<Seq<char>>::empty());
    while j < k
        invariant
            wv == char_views(words@),
            k == words@.len(),
            j <= k,
            rebuilt@ == concat_units(wv.take(j as int)),
        decreases k - j,
    {
        extend_chars(&mut rebuilt, &words[j]);
        assert(wv.take(j + 1).drop_last() =~= wv.take(j as int));
        assert(wv.take(j + 1).last() == words@[j as int]@);
        j = j + 1;
    }
    assert(wv.take(k as int) =~= wv);
    let expected = chars_of(hiragana);
    if !chars_eq(&rebuilt, &expected) {
        return Err(
            AnnotationError::ReadingMismatch {
                expected: String::from_str(hiragana),
                found: string_of(&rebuilt),
            },
        );
    }
    if nums.len() != k {
        return Err(AnnotationError::PitchNumberFormat);
    }
    let mut out = String::new();
    let mut j: usize = 0;
    while j < k
        invariant
            wv == char_views(words@),
            wv == pronunciation_words(hatsuon@),
            pitch_numbers(pitch_string@) == Some(nums@),
            concat_units(wv) == hiragana@,
            rebuilt@ == hiragana@,
            k == words@.len(),
            k == nums@.len(),
            j <= k,
            forall|i: int| 0 <= i < j ==> well_formed_reading(#[trigger] wv[i]),
            out@ == joined_patterns(wv, nums@, j as int),
        decreases k - j,
    {
        let w = &words[j];
        assert(wv[j as int] == w@);
        if w.len() > 0 && !is_normal_hiragana(&w[0]) {
            assert(!well_formed_reading(wv[j as int]));
            assert(!units_well_formed(wv));
            return Err(AnnotationError::MalformedReading);
        }
        let pattern = pattern_of_chars(w, nums[j] as usize);
        out.append(pattern.as_str());
        j = j + 1;
    }
    proof {
        lemma_joined_len(wv, nums@, k as int);
        assert(wv.take(k as int) =~= wv);
    }
    Ok(HiraNhkPitch { hiragana: string_of(&rebuilt), nhk_accent: out })
}

} // verus!
