//! Character-level alignment of two strings into kept, removed and inserted
//! runs.

use vstd::prelude::*;

verus! {

/// Which side of an alignment a run belongs to.
#[derive(Debug, Clone, Copy, PartialEq, Eq, Structural)]
pub enum RunKind {
    /// Text present in both strings.
    Kept,
    /// Text present only in the left string.
    Removed,
    /// Text present only in the right string.
    Inserted,
}

/// One run of an alignment.
#[derive(Debug, PartialEq, Eq)]
pub struct AlignmentRun {
    pub kind: RunKind,
    pub text: String,
}

impl View for AlignmentRun {
    type V = (RunKind, Seq<char>);

    open spec fn view(&self) -> (RunKind, Seq<char>) {
        (self.kind, self.text@)
    }
}

/// The runs of a sequence of alignment runs, as plain values.
pub open spec fn runs_view(runs: Seq<AlignmentRun>) -> Seq<(RunKind, Seq<char>)> {
    Seq::new(runs.len(), |i: int| runs[i]@)
}

/// The alignment that the character-level diff gives for `left` and `right`.
pub uninterp spec fn char_diff(left: Seq<char>, right: Seq<char>) -> Seq<(RunKind, Seq<char>)>;

/// The right string of an alignment: its kept and inserted runs, in order.
pub open spec fn right_text(runs: Seq<(RunKind, Seq<char>)>) -> Seq<char>
    decreases runs.len(),
{
    if runs.len() == 0 {
        Seq::empty()
    } else {
        (if runs[0].0 == RunKind::Removed {
            Seq::empty()
        } else {
            runs[0].1
        }) + right_text(runs.skip(1))
    }
}

/// Relies on `difference::Changeset::new` with an empty separator, which
/// compares the strings character by character (a longest common subsequence)
/// and returns `Same`, `Rem` and `Add` runs: `merge` walks both strings against
/// the common subsequence, so the `Same` and `Add` runs, in order, give back
/// `right`.
#[verifier::external_body]
pub(crate) fn align_chars(left: &str, right: &str) -> (r: Vec<AlignmentRun>)
    ensures
        runs_view(r@) == char_diff(left@, right@),
        right_text(runs_view(r@)) == right@,
{
    let changeset = difference::Changeset::new(left, right, "");
    let mut out = Vec::new();
    for diff in changeset.diffs {
        out.push(match diff {
            difference::Difference::Same(text) => AlignmentRun { kind: RunKind::Kept, text },
            difference::Difference::Rem(text) => AlignmentRun { kind: RunKind::Removed, text },
            difference::Difference::Add(text) => AlignmentRun { kind: RunKind::Inserted, text },
        });
    }
    out
}

} // verus!
