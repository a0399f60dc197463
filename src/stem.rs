//! Decomposition of an inflected word into stem, conjugation ending and
//! okurigana, and the dictionary-form reading built from it.

use vstd::prelude::*;
use crate::align::{align_chars, char_diff, runs_view, AlignmentRun, RunKind};
use crate::furigana::{furigana_segments, get_furigana_reading, render};
use crate::text::{chars_eq, chars_of, reverse_chars, reversed, string_of, string_of_range};

verus! {

/// The text of the last run of the given kind, or nothing when there is none.
pub open spec fn last_text(runs: Seq<(RunKind, Seq<char>)>, kind: RunKind) -> Seq<char>
    decreases runs.len(),
{
    if runs.len() == 0 {
        Seq::empty()
    } else if runs.last().0 == kind {
        runs.last().1
    } else {
        last_text(runs.drop_last(), kind)
    }
}

/// The stem, conjugation part and okurigana of `original` against its
/// dictionary form: the whole word when the two are equal, else the last kept,
/// removed and inserted runs of their alignment.
pub open spec fn decomposition(original: Seq<char>, dictionary_form: Seq<char>) -> (
    Seq<char>,
    Seq<char>,
    Seq<char>,
) {
    if original == dictionary_form {
        (original, Seq::empty(), Seq::empty())
    } else {
        let runs = char_diff(original, dictionary_form);
        (
            last_text(runs, RunKind::Kept),
            last_text(runs, RunKind::Removed),
            last_text(runs, RunKind::Inserted),
        )
    }
}

/// A word split into its stem, the ending that conjugation put on it, and the
/// okurigana of its dictionary form.
#[derive(Debug, PartialEq, Eq)]
pub struct StemOkurigana {
    pub stem: String,
    pub conjugation_part: String,
    pub okurigana: String,
}

/// The stem, conjugation part and okurigana read off an alignment of a word
/// against its dictionary form.
pub fn stem_parts(runs: &Vec<AlignmentRun>) -> (r: StemOkurigana)
    ensures
        r.stem@ == last_text(runs_view(runs@), RunKind::Kept),
        r.conjugation_part@ == last_text(runs_view(runs@), RunKind::Removed),
        r.okurigana@ == last_text(runs_view(runs@), RunKind::Inserted),
{
    let ghost rv = runs_view(runs@);
    let mut stem = String::new();
    let mut conjugation_part = String::new();
    let mut okurigana = String::new();
    let mut i: usize = 0;
    assert(rv.take(0) =~= Seq::<(RunKind, Seq<char>)>::empty());
    while i < runs.len()
        invariant
            rv == runs_view(runs@),
            i <= runs@.len(),
            stem@ == last_text(rv.take(i as int), RunKind::Kept),
            conjugation_part@ == last_text(rv.take(i as int), RunKind::Removed),
            okurigana@ == last_text(rv.take(i as int), RunKind::Inserted),
        decreases runs@.len() - i,
    {
        let ghost pre = rv.take(i + 1);
        assert(pre.drop_last() =~= rv.take(i as int));
        assert(pre.last() == runs@[i as int]@);
        let run = &runs[i];
        match run.kind {
            RunKind::Kept => {
                stem = run.text.clone();
            },
            RunKind::Removed => {
                conjugation_part = run.text.clone();
            },
            RunKind::Inserted => {
                okurigana = run.text.clone();
            },
        }
        i = i + 1;
    }
    assert(rv.take(runs@.len() as int) =~= rv);
    StemOkurigana { stem, conjugation_part, okurigana }
}

/// Splits `original` against its dictionary form into stem, conjugation part
/// and okurigana (see `decomposition`).
pub fn get_stem_okurigana(original: &str, dictionary_form: &str) -> (r: StemOkurigana)
    ensures
        (r.stem@, r.conjugation_part@, r.okurigana@) == decomposition(
            original@,
            dictionary_form@,
        ),
{
    let o = chars_of(original);
    let d = chars_of(dictionary_form);
    if chars_eq(&o, &d) {
        return StemOkurigana {
            stem: String::from_str(original),
            conjugation_part: String::new(),
            okurigana: String::new(),
        };
    }
    let runs = align_chars(original, dictionary_form);
    stem_parts(&runs)
}

/// Whether `pat` occurs in `text` at index `i`.
pub open spec fn occurs_at(text: Seq<char>, pat: Seq<char>, i: int) -> bool {
    0 <= i && i + pat.len() <= text.len() && text.subrange(i, i + pat.len()) == pat
}

/// The first index from `i` on at which `pat` occurs in `text`, or -1.
pub open spec fn first_occurrence_from(text: Seq<char>, pat: Seq<char>, i: int) -> int
    decreases text.len() + 1 - i,
{
    if i < 0 || i + pat.len() > text.len() {
        -1
    } else if occurs_at(text, pat, i) {
        i
    } else {
        first_occurrence_from(text, pat, i + 1)
    }
}

/// `text` with the first occurrence of `pat` taken out; `text` itself when
/// `pat` does not occur.
pub open spec fn without_first(text: Seq<char>, pat: Seq<char>) -> Seq<char> {
    let i = first_occurrence_from(text, pat, 0);
    if i < 0 {
        text
    } else {
        text.subrange(0, i) + text.subrange(i + pat.len(), text.len() as int)
    }
}

/// Patterns of at most this many characters stay far below the regex
/// engine's size limit once escaped.
pub const MAX_LITERAL_CHARS: usize = 1000;

/// Relies on `regex::escape`, `regex::Regex::new` and `regex::Regex::replace`:
/// the escaped pattern matches exactly the characters of `pat`; `Regex::new`
/// refuses an escaped literal only when its compiled form exceeds the default
/// 10 MiB size limit, which a literal of `MAX_LITERAL_CHARS` characters is far
/// from; `replace` with an empty replacement deletes the leftmost match, here
/// the first occurrence of `pat`.
#[verifier::external_body]
fn delete_first_literal(text: &str, pat: &str) -> (r: Option<String>)
    ensures
        pat@.len() <= MAX_LITERAL_CHARS ==> r is Some,
        r matches Some(s) ==> s@ == without_first(text@, pat@),
{
    match regex::Regex::new(&regex::escape(pat)) {
        Ok(re) => Some(re.replace(text, "").into_owned()),
        Err(_) => None,
    }
}

/// The part-of-speech tag of adjectives (and adjectival nouns).
pub open spec fn is_adjective_pos(pos: Seq<char>) -> bool {
    pos == "形容詞"@
}

/// The okurigana kept on the headword: the copula `だ` of an adjectival word is
/// not part of it.
pub open spec fn headword_okurigana(okurigana: Seq<char>, pos: Seq<char>) -> Seq<char> {
    if okurigana == "だ"@ && is_adjective_pos(pos) {
        Seq::empty()
    } else {
        okurigana
    }
}

/// The ruby-markup furigana of `kanji` read as `yomi`.
pub open spec fn furigana_text(kanji: Seq<char>, yomi: Seq<char>) -> Seq<char> {
    render(furigana_segments(char_diff(kanji, yomi)), false)
}

/// The reading of a conjugated word without the kana of its conjugation part:
/// the last occurrence of that part is taken out of the reading (by matching
/// the reversed part against the reversed reading).
pub open spec fn conjugated_kana_stem(yomi: Seq<char>, conjugation_part: Seq<char>) -> Seq<char> {
    reversed(without_first(reversed(yomi), reversed(conjugation_part)))
}

/// The kana of the reading that the reversed alignment of the reading against
/// the written word leaves unmatched (its last such run).
pub open spec fn reverse_aligned_kana(yomi: Seq<char>, original: Seq<char>) -> Seq<char> {
    reversed(last_text(char_diff(reversed(yomi), reversed(original)), RunKind::Removed))
}

/// The stem without a final copula `だ` when the word is adjectival.
pub open spec fn without_copula(stem: Seq<char>, pos: Seq<char>) -> Seq<char> {
    if stem.len() > 0 && stem.last() == 'だ' && is_adjective_pos(pos) {
        stem.drop_last()
    } else {
        stem
    }
}

/// The headword, its furigana and its kana for a word as written (`original`),
/// its reading, its dictionary form and its part of speech. When `stripped` is
/// false the conjugated case keeps the whole reading as its kana stem (the
/// conjugation part could not be matched).
pub open spec fn reading_stem(
    original: Seq<char>,
    yomi: Seq<char>,
    dictionary_form: Seq<char>,
    pos: Seq<char>,
    stripped: bool,
) -> (Seq<char>, Seq<char>, Seq<char>) {
    if original == dictionary_form {
        (original, furigana_text(original, yomi), yomi)
    } else {
        let (stem, conj, okuri) = decomposition(original, dictionary_form);
        if conj.len() == 0 && okuri.len() > 0 {
            let ok = headword_okurigana(okuri, pos);
            (original + ok, furigana_text(original, yomi) + ok, yomi + ok)
        } else if conj.len() > 0 && okuri.len() > 0 {
            let ok = headword_okurigana(okuri, pos);
            let kana_stem = if stripped {
                conjugated_kana_stem(yomi, conj)
            } else {
                yomi
            };
            (stem + ok, furigana_text(stem, kana_stem) + ok, kana_stem + ok)
        } else {
            let kana_stem = reverse_aligned_kana(yomi, original);
            let dict = without_copula(stem, pos);
            (dict + okuri, furigana_text(dict, kana_stem) + okuri, kana_stem + okuri)
        }
    }
}

/// The dictionary-form headword of a word with its furigana and kana.
#[derive(Debug, PartialEq, Eq)]
pub struct AnkiReading {
    pub word: String,
    pub furigana: String,
    pub kana: String,
}

/// `a` followed by `b`.
fn joined(a: &str, b: &str) -> (r: String)
    ensures
        r@ == a@ + b@,
{
    let mut r = String::from_str(a);
    r.append(b);
    r
}

/// The characters of `s` in reverse order, as a string.
fn reversed_string(s: &str) -> (r: String)
    ensures
        r@ == reversed(s@),
{
    let v = chars_of(s);
    string_of(&reverse_chars(&v))
}

/// The okurigana to keep on the headword (see `headword_okurigana`).
fn keep_okurigana(okurigana: &str, adjective: bool, pos: Ghost<Seq<char>>) -> (r: String)
    requires
        adjective == is_adjective_pos(pos@),
    ensures
        r@ == headword_okurigana(okurigana@, pos@),
{
    let copula = chars_of("だ");
    if adjective && chars_eq(&chars_of(okurigana), &copula) {
        String::new()
    } else {
        String::from_str(okurigana)
    }
}

/// The headword, furigana and kana of a word given as written, with its
/// reading, dictionary form and part of speech (see `reading_stem`). A
/// conjugation part longer than `MAX_LITERAL_CHARS` may be left in the kana
/// stem when the regex engine refuses it.
pub fn get_reading_stem(
    original: &str,
    yomi_original: &str,
    dictionary_form: &str,
    word_pos: &str,
) -> (r: AnkiReading)
    ensures
        decomposition(original@, dictionary_form@).1.len() <= MAX_LITERAL_CHARS ==> (
            r.word@,
            r.furigana@,
            r.kana@,
        ) == reading_stem(original@, yomi_original@, dictionary_form@, word_pos@, true),
        (r.word@, r.furigana@, r.kana@) == reading_stem(
            original@,
            yomi_original@,
            dictionary_form@,
            word_pos@,
            true,
        ) || (r.word@, r.furigana@, r.kana@) == reading_stem(
            original@,
            yomi_original@,
            dictionary_form@,
            word_pos@,
            false,
        ),
{
    let o = chars_of(original);
    let d = chars_of(dictionary_form);
    if chars_eq(&o, &d) {
        return AnkiReading {
            word: String::from_str(original),
            furigana: get_furigana_reading(original, yomi_original, false),
            kana: String::from_str(yomi_original),
        };
    }
    let parts = get_stem_okurigana(original, dictionary_form);
    let adjective = chars_eq(&chars_of(word_pos), &chars_of("形容詞"));
    let conj_len = parts.conjugation_part.as_str().unicode_len();
    let okuri_len = parts.okurigana.as_str().unicode_len();
    if conj_len == 0 && okuri_len > 0 {
        let ok = keep_okurigana(parts.okurigana.as_str(), adjective, Ghost(word_pos@));
        let furigana = get_furigana_reading(original, yomi_original, false);
        AnkiReading {
            word: joined(original, ok.as_str()),
            furigana: joined(furigana.as_str(), ok.as_str()),
            kana: joined(yomi_original, ok.as_str()),
        }
    } else if conj_len > 0 && okuri_len > 0 {
        let yomi_rev = reversed_string(yomi_original);
        let conj_rev = reversed_string(parts.conjugation_part.as_str());
        let kana_stem = match delete_first_literal(yomi_rev.as_str(), conj_rev.as_str()) {
            Some(stripped) => reversed_string(stripped.as_str()),
            None => String::from_str(yomi_original),
        };
        let ok = keep_okurigana(parts.okurigana.as_str(), adjective, Ghost(word_pos@));
        let furigana = get_furigana_reading(parts.stem.as_str(), kana_stem.as_str(), false);
        AnkiReading {
            word: joined(parts.stem.as_str(), ok.as_str()),
            furigana: joined(furigana.as_str(), ok.as_str()),
            kana: joined(kana_stem.as_str(), ok.as_str()),
        }
    } else {
        let yomi_rev = reversed_string(yomi_original);
        let orig_rev = reversed_string(original);
        let runs = align_chars(yomi_rev.as_str(), orig_rev.as_str());
        let rev_parts = stem_parts(&runs);
        let kana_stem = reversed_string(rev_parts.conjugation_part.as_str());
        let sv = chars_of(parts.stem.as_str());
        let n = sv.len();
        let dict = if n > 0 && sv[n - 1] == 'だ' && adjective {
            string_of_range(&sv, 0, n - 1)
        } else {
            String::from_str(parts.stem.as_str())
        };
        proof {
            if n > 0 {
                assert(sv@.subrange(0, n - 1) =~= sv@.drop_last());
            }
        }
        let furigana = get_furigana_reading(dict.as_str(), kana_stem.as_str(), false);
        AnkiReading {
            word: joined(dict.as_str(), parts.okurigana.as_str()),
            furigana: joined(furigana.as_str(), parts.okurigana.as_str()),
            kana: joined(kana_stem.as_str(), parts.okurigana.as_str()),
        }
    }
}

} // verus!
