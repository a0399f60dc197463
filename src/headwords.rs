//! Headword lists exported from a dictionary application: long entries are
//! example sentences, short ones the vocabulary picked from the sentence before
//! them.

use vstd::prelude::*;
use crate::text::views;

verus! {

/// Headwords longer than this many characters are sentences.
pub const MAX_VOCAB_CHARS: usize = 7;

/// The sentences of a headword list, in order, and its vocabulary entries, each
/// with the 0-based number of the last sentence before it (-1 when none).
pub open spec fn headword_split(hs: Seq<Seq<char>>) -> (Seq<Seq<char>>, Seq<(int, Seq<char>)>)
    decreases hs.len(),
{
    if hs.len() == 0 {
        (Seq::empty(), Seq::empty())
    } else {
        let (sentences, vocabs) = headword_split(hs.drop_last());
        let h = hs.last();
        if h.len() > MAX_VOCAB_CHARS {
            (sentences.push(h), vocabs)
        } else {
            (sentences, vocabs.push((sentences.len() - 1, h)))
        }
    }
}

proof fn lemma_split_len(hs: Seq<Seq<char>>)
    ensures
        headword_split(hs).0.len() <= hs.len(),
    decreases hs.len(),
{
    if hs.len() > 0 {
        lemma_split_len(hs.drop_last());
    }
}

/// A vocabulary entry with the number of the sentence it belongs to.
#[derive(Debug, PartialEq, Eq)]
pub struct VocabEntry {
    pub sentence: i64,
    pub word: String,
}

/// Splits a headword list into its sentences and its vocabulary entries (see
/// `headword_split`).
pub fn split_headwords(headwords: &Vec<String>) -> (r: (Vec<String>, Vec<VocabEntry>))
    requires
        headwords@.len() < i64::MAX,
    ensures
        views(r.0@) == headword_split(views(headwords@)).0,
        r.1@.len() == headword_split(views(headwords@)).1.len(),
        forall|i: int|
            0 <= i < r.1@.len() ==> (#[trigger] r.1@[i]).sentence as int == headword_split(
                views(headwords@),
            ).1[i].0 && r.1@[i].word@ == headword_split(views(headwords@)).1[i].1,
{
    let ghost hv = views(headwords@);
    let mut sentences: Vec<String> = Vec::new();
    let mut vocabs: Vec<VocabEntry> = Vec::new();
    let mut i: usize = 0;
    assert(hv.take(0) =~= Seq::<Seq<char>>::empty());
    assert(views(sentences@) =~= Seq::<Seq<char>>::empty());
    while i < headwords.len()
        invariant
            hv == views(headwords@),
            headwords@.len() < i64::MAX,
            i <= headwords@.len(),
            views(sentences@) == headword_split(hv.take(i as int)).0,
            vocabs@.len() == headword_split(hv.take(i as int)).1.len(),
            forall|k: int|
                0 <= k < vocabs@.len() ==> (#[trigger] vocabs@[k]).sentence as int
                    == headword_split(hv.take(i as int)).1[k].0 && vocabs@[k].word@
                    == headword_split(hv.take(i as int)).1[k].1,
        decreases headwords@.len() - i,
    {
        let ghost pre = hv.take(i + 1);
        assert(pre.drop_last() =~= hv.take(i as int));
        assert(pre.last() == headwords@[i as int]@);
        proof {
            lemma_split_len(hv.take(i as int));
        }
        let h = &headwords[i];
        let n = h.as_str().unicode_len();
        if n > MAX_VOCAB_CHARS {
            let ghost before = sentences@;
            sentences.push(h.clone());
            assert(views(sentences@) =~= views(before).push(h@));
        } else {
            let number = sentences.len() as i64 - 1;
            vocabs.push(VocabEntry { sentence: number, word: h.clone() });
        }
        i = i + 1;
    }
    assert(hv.take(headwords@.len() as int) =~= hv);
    (sentences, vocabs)
}

} // verus!
