//! Applying the decoder to an ordered collection of phrases, and restoring
//! input order over index-tagged outcomes that arrive in any order.

use vstd::prelude::*;

use crate::decode::{DecodeError, Diagnostic};
use crate::process::{decode_and_render_in, spec_batch_item, Outcome, SpecOutcome};
use crate::wordlist::Wordlist;
use crate::{Format, Mode};

verus! {

/// Decodes every phrase of `phrases` in `mode`, renders entropy under
/// `format`, and returns the outcome of phrase `i` at position `i`.
pub fn run_batch(phrases: &Vec<String>, mode: Mode, format: Format) -> (r: Vec<Outcome>)
    ensures
        r@.len() == phrases@.len(),
        forall|i: int|
            0 <= i < phrases@.len() ==> (#[trigger] r@[i])@ == spec_batch_item(
                phrases@[i]@,
                mode,
                format,
            ),
{
    let wl = Wordlist::english();
    let mut r: Vec<Outcome> = Vec::new();
    let n = phrases.len();
    let mut i: usize = 0;
    while i < n
        invariant
            wl.wf(),
            n == phrases@.len(),
            i <= n,
            r@.len() == i,
            forall|k: int|
                0 <= k < i ==> (#[trigger] r@[k])@ == spec_batch_item(phrases@[k]@, mode, format),
        decreases n - i,
    {
        let o = decode_and_render_in(&wl, phrases[i].as_str(), mode, format);
        r.push(o);
        i = i + 1;
    }
    r
}

/// Clones a vector of strings, keeping its contents.
fn clone_words(v: &Vec<String>) -> (r: Vec<String>)
    ensures
        r@ == v@,
{
    let r = v.clone();
    proof {
        assert forall|i: int| 0 <= i < v@.len() implies r@[i] == v@[i] by {
            assert(cloned::<String>(v@[i], r@[i]));
        }
        assert(r@ =~= v@);
    }
    r
}

/// Clones a diagnostic, keeping its view.
fn clone_diagnostic(d: &Diagnostic) -> (r: Diagnostic)
    ensures
        r@ == d@,
{
    match d {
        Diagnostic::UnknownWords(ws) => Diagnostic::UnknownWords(clone_words(ws)),
        Diagnostic::WrongWordCount(n) => Diagnostic::WrongWordCount(*n),
        Diagnostic::ChecksumLike => Diagnostic::ChecksumLike,
    }
}

/// Clones a decoding failure, keeping its view.
fn clone_error(e: &DecodeError) -> (r: DecodeError)
    ensures
        r@ == e@,
{
    match e {
        DecodeError::UnknownWord(w) => DecodeError::UnknownWord(w.clone()),
        DecodeError::InvalidWordCount(n) => DecodeError::InvalidWordCount(*n),
        DecodeError::ChecksumMismatch => DecodeError::ChecksumMismatch,
        DecodeError::Diagnostic(d) => DecodeError::Diagnostic(clone_diagnostic(d)),
    }
}

/// Clones an outcome, keeping its view.
pub fn clone_outcome(o: &Outcome) -> (r: Outcome)
    ensures
        r@ == o@,
{
    match o {
        Outcome::Success(s) => Outcome::Success(s.clone()),
        Outcome::Failure { phrase, error } => Outcome::Failure {
            phrase: phrase.clone(),
            error: clone_error(error),
        },
    }
}

/// `tagged` holds the tag `k` at some position.
pub open spec fn has_tag(tagged: Seq<(usize, Outcome)>, k: int) -> bool {
    exists|j: int| 0 <= j < tagged.len() && (#[trigger] tagged[j].0) == k
}

/// Returns a position of `tagged` holding the tag `k`.
fn find_tag(tagged: &Vec<(usize, Outcome)>, k: usize) -> (j: usize)
    requires
        has_tag(tagged@, k as int),
    ensures
        j < tagged@.len(),
        tagged@[j as int].0 == k,
{
    let n = tagged.len();
    let mut j: usize = 0;
    while j < n
        invariant
            n == tagged@.len(),
            j <= n,
            forall|jj: int| 0 <= jj < j ==> (#[trigger] tagged@[jj].0) != k,
            has_tag(tagged@, k as int),
        decreases n - j,
    {
        if tagged[j].0 == k {
            return j;
        }
        j = j + 1;
    }
    proof {
        assert(false);
    }
    0
}

/// Some entry of `tagged` carries the tag `i` and the outcome view `out`.
pub open spec fn placed(tagged: Seq<(usize, Outcome)>, out: SpecOutcome, i: int) -> bool {
    exists|j: int| 0 <= j < tagged.len() && (#[trigger] tagged[j].0) == i && tagged[j].1@ == out
}

/// Restores input order: given one outcome per input position, tagged with
/// that position and arriving in any order, returns the outcomes so that the
/// one tagged `i` stands at position `i`.
pub fn restore_order(tagged: &Vec<(usize, Outcome)>) -> (r: Vec<Outcome>)
    requires
        forall|j: int| 0 <= j < tagged@.len() ==> (#[trigger] tagged@[j].0) < tagged@.len(),
        forall|j1: int, j2: int|
            0 <= j1 < j2 < tagged@.len() ==> tagged@[j1].0 != tagged@[j2].0,
        forall|k: int| 0 <= k < tagged@.len() ==> #[trigger] has_tag(tagged@, k),
    ensures
        r@.len() == tagged@.len(),
        forall|j: int| 0 <= j < tagged@.len() ==> (#[trigger] r@[tagged@[j].0 as int])@ == tagged@[j].1@,
{
    let n = tagged.len();
    let mut r: Vec<Outcome> = Vec::new();
    let mut k: usize = 0;
    while k < n
        invariant
            n == tagged@.len(),
            k <= n,
            r@.len() == k,
            forall|j1: int, j2: int|
                0 <= j1 < j2 < tagged@.len() ==> tagged@[j1].0 != tagged@[j2].0,
            forall|i: int| 0 <= i < n ==> #[trigger] has_tag(tagged@, i),
            forall|i: int| 0 <= i < k ==> #[trigger] placed(tagged@, r@[i]@, i),
        decreases n - k,
    {
        let j = find_tag(tagged, k);
        let o = clone_outcome(&tagged[j].1);
        r.push(o);
        k = k + 1;
    }
    proof {
        assert forall|j: int| 0 <= j < tagged@.len() implies (#[trigger] r@[tagged@[j].0 as int])@
            == tagged@[j].1@ by {
            let i = tagged@[j].0 as int;
            assert(placed(tagged@, r@[i]@, i));
            let j2 = choose|j2: int|
                0 <= j2 < tagged@.len() && (#[trigger] tagged@[j2].0) == i && tagged@[j2].1@
                    == r@[i]@;
            if j2 != j {
                if j2 < j {
                    assert(tagged@[j2].0 != tagged@[j].0);
                } else {
                    assert(tagged@[j].0 != tagged@[j2].0);
                }
            }
        }
    }
    r
}

} // verus!
