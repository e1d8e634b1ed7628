//! Per-phrase decoding: word resolution, strict checksum-validated decoding,
//! lenient checksum-ignoring decoding, and diagnostic classification.

use vstd::prelude::*;

use crate::bits::{bits_to_bytes, pack_bits, packed_bytes, phrase_bits};
use crate::tokens::{tokenize, tokens_of, views_of};
use crate::wordlist::{
    is_known_word, is_lower_alpha, lemma_word_index_some, word_index, Wordlist,
};
use crate::{valid_word_count, Mode};

verus! {

/// The mathematical form of a diagnostic classification.
pub enum SpecDiagnostic {
    UnknownWords(Seq<Seq<char>>),
    WrongWordCount(nat),
    ChecksumLike,
}

/// The mathematical form of a decoding failure.
pub enum SpecError {
    UnknownWord(Seq<char>),
    InvalidWordCount(nat),
    ChecksumMismatch,
    Diagnostic(SpecDiagnostic),
}

/// A human-oriented classification of why a phrase is not a valid mnemonic:
/// unknown words take priority, then a bad word count, and otherwise the
/// phrase can only have failed its checksum.
#[derive(Debug, Clone, PartialEq, Eq)]
pub enum Diagnostic {
    /// The offending words, capped at the first three.
    UnknownWords(Vec<String>),
    /// The number of words found, outside the accepted set.
    WrongWordCount(usize),
    /// Words and count are fine, so only the checksum can be wrong.
    ChecksumLike,
}

impl View for Diagnostic {
    type V = SpecDiagnostic;

    open spec fn view(&self) -> SpecDiagnostic {
        match self {
            Diagnostic::UnknownWords(ws) => SpecDiagnostic::UnknownWords(views_of(ws@)),
            Diagnostic::WrongWordCount(n) => SpecDiagnostic::WrongWordCount(*n as nat),
            Diagnostic::ChecksumLike => SpecDiagnostic::ChecksumLike,
        }
    }
}

/// A decoding failure.
#[derive(Debug, Clone, PartialEq, Eq)]
pub enum DecodeError {
    /// Strict decoding met a word that is not in the vocabulary.
    UnknownWord(String),
    /// The number of words is not one of the accepted counts.
    InvalidWordCount(usize),
    /// Words and count are valid but the checksum bits do not match.
    ChecksumMismatch,
    /// Lenient-path failure, classified for a human reader.
    Diagnostic(Diagnostic),
}

impl View for DecodeError {
    type V = SpecError;

    open spec fn view(&self) -> SpecError {
        match self {
            DecodeError::UnknownWord(w) => SpecError::UnknownWord(w@),
            DecodeError::InvalidWordCount(n) => SpecError::InvalidWordCount(*n as nat),
            DecodeError::ChecksumMismatch => SpecError::ChecksumMismatch,
            DecodeError::Diagnostic(d) => SpecError::Diagnostic(d@),
        }
    }
}

/// The subsequence of `toks` made of the words that are not in the
/// vocabulary, in order.
pub open spec fn unknown_words(toks: Seq<Seq<char>>) -> Seq<Seq<char>>
    decreases toks.len(),
{
    if toks.len() == 0 {
        Seq::empty()
    } else {
        let rest = unknown_words(toks.drop_last());
        if is_known_word(toks.last()) {
            rest
        } else {
            rest.push(toks.last())
        }
    }
}

/// Whether every word of `toks` is in the vocabulary.
pub open spec fn all_words_known(toks: Seq<Seq<char>>) -> bool {
    unknown_words(toks).len() == 0
}

/// The vocabulary ranks of `toks`, meaningful when all words are known.
pub open spec fn indices_of(toks: Seq<Seq<char>>) -> Seq<u16> {
    toks.map_values(|t: Seq<char>| word_index(t)->Some_0)
}

/// At most the first three entries of `ws`.
pub open spec fn capped(ws: Seq<Seq<char>>) -> Seq<Seq<char>> {
    if ws.len() <= 3 {
        ws
    } else {
        ws.take(3)
    }
}

/// The diagnostic classification of `phrase`: unknown words first, then an
/// invalid word count, else a checksum-style mismatch.
pub open spec fn spec_diagnose(phrase: Seq<char>) -> SpecDiagnostic {
    let toks = tokens_of(phrase);
    if !all_words_known(toks) {
        SpecDiagnostic::UnknownWords(capped(unknown_words(toks)))
    } else if !valid_word_count(toks.len()) {
        SpecDiagnostic::WrongWordCount(toks.len())
    } else {
        SpecDiagnostic::ChecksumLike
    }
}

/// What strict decoding returns for a given word sequence: the entropy when
/// the words form a checksum-valid mnemonic, `None` otherwise.
pub uninterp spec fn strict_entropy(words: Seq<Seq<char>>) -> Option<Seq<u8>>;

/// The outcome of decoding `phrase` in `mode`: unknown words are rejected
/// first, then an invalid word count; a well-formed phrase yields its
/// checksum-validated entropy in strict mode and its full packed bit string
/// in lenient mode.
pub open spec fn spec_decode(phrase: Seq<char>, mode: Mode) -> Result<Seq<u8>, SpecError> {
    let toks = tokens_of(phrase);
    if !all_words_known(toks) {
        match mode {
            Mode::Strict => Err(SpecError::UnknownWord(unknown_words(toks)[0])),
            Mode::Lenient => Err(SpecError::Diagnostic(spec_diagnose(phrase))),
        }
    } else if !valid_word_count(toks.len()) {
        match mode {
            Mode::Strict => Err(SpecError::InvalidWordCount(toks.len())),
            Mode::Lenient => Err(SpecError::Diagnostic(spec_diagnose(phrase))),
        }
    } else {
        match mode {
            Mode::Strict => match strict_entropy(toks) {
                Some(e) => Ok(e),
                None => Err(SpecError::ChecksumMismatch),
            },
            Mode::Lenient => Ok(packed_bytes(phrase_bits(indices_of(toks)))),
        }
    }
}

/// The view of a decoding outcome.
pub open spec fn outcome_view(r: Result<Vec<u8>, DecodeError>) -> Result<Seq<u8>, SpecError> {
    match r {
        Ok(v) => Ok(v@),
        Err(e) => Err(e@),
    }
}

/// Relies on bip39::Mnemonic::from_str and Mnemonic::to_entropy: for a fixed
/// sequence of lowercase ASCII words, joined by single spaces, the strict
/// parse outcome and the recovered entropy are functions of the words alone,
/// and the entropy holds four bytes for every three words.
#[verifier::external_body]
fn strict_decode(words: &Vec<String>) -> (r: Option<Vec<u8>>)
    requires
        forall|i: int|
            0 <= i < words@.len() ==> words@[i]@.len() >= 1 && (forall|j: int|
                0 <= j < words@[i]@.len() ==> is_lower_alpha(#[trigger] words@[i]@[j])),
    ensures
        r matches Some(v) ==> strict_entropy(views_of(words@)) == Some(v@) && 3 * v@.len() == 4
            * words@.len(),
        r is None ==> strict_entropy(views_of(words@)) is None,
{
    let phrase = words.join(" ");
    match <bip39::Mnemonic as core::str::FromStr>::from_str(&phrase) {
        Ok(m) => Some(m.to_entropy()),
        Err(_) => None,
    }
}

/// Resolves every word of `toks` in the vocabulary: the ranks of the words
/// found so far and the words that were not found, in order.
fn resolve_words(wl: &Wordlist, toks: &Vec<String>) -> (res: (Vec<u16>, Vec<String>))
    requires
        wl.wf(),
    ensures
        views_of(res.1@) == unknown_words(views_of(toks@)),
        res.1@.len() == 0 ==> res.0@ == indices_of(views_of(toks@)),
{
    let ghost gtoks = views_of(toks@);
    let mut indices: Vec<u16> = Vec::new();
    let mut unknown: Vec<String> = Vec::new();
    let n = toks.len();
    let mut k: usize = 0;
    while k < n
        invariant
            wl.wf(),
            n == toks@.len(),
            gtoks == views_of(toks@),
            k <= n,
            views_of(unknown@) =~~= unknown_words(gtoks.take(k as int)),
            unknown@.len() == 0 ==> indices@ =~= indices_of(gtoks.take(k as int)),
        decreases n - k,
    {
        proof {
            assert(gtoks.take(k as int + 1).drop_last() =~~= gtoks.take(k as int));
            assert(gtoks.take(k as int + 1).last() == gtoks[k as int]);
            assert(gtoks[k as int] == toks@[k as int]@);
        }
        match wl.lookup(toks[k].as_str()) {
            Some(idx) => {
                indices.push(idx);
                proof {
                    assert(indices_of(gtoks.take(k as int + 1)) =~= indices_of(
                        gtoks.take(k as int),
                    ).push(word_index(gtoks[k as int])->Some_0));
                }
            },
            None => {
                let w: String = toks[k].clone();
                proof {
                    assert(views_of(unknown@.push(w)) =~~= views_of(unknown@).push(w@));
                }
                unknown.push(w);
            },
        }
        k = k + 1;
    }
    proof {
        assert(gtoks.take(n as int) =~~= gtoks);
    }
    (indices, unknown)
}

/// Clones at most the first three entries of `ws`.
fn first_three(ws: &Vec<String>) -> (r: Vec<String>)
    ensures
        views_of(r@) == capped(views_of(ws@)),
{
    let lim = if ws.len() < 3 {
        ws.len()
    } else {
        3
    };
    let mut r: Vec<String> = Vec::new();
    let mut k: usize = 0;
    while k < lim
        invariant
            lim <= ws@.len(),
            k <= lim,
            r@.len() == k,
            forall|j: int| 0 <= j < k ==> r@[j]@ == ws@[j]@,
        decreases lim - k,
    {
        let w: String = ws[k].clone();
        r.push(w);
        k = k + 1;
    }
    proof {
        assert(views_of(r@) =~~= capped(views_of(ws@)));
    }
    r
}

/// Decodes `phrase` in `mode` against an already-built vocabulary table.
pub fn decode_in(wl: &Wordlist, phrase: &str, mode: Mode) -> (r: Result<Vec<u8>, DecodeError>)
    requires
        wl.wf(),
    ensures
        outcome_view(r) == spec_decode(phrase@, mode),
        mode is Strict ==> (r matches Ok(v) ==> 3 * v@.len() == 4 * tokens_of(phrase@).len()),
{
    let toks = tokenize(phrase);
    let ghost gtoks = tokens_of(phrase@);
    let (indices, unknown) = resolve_words(wl, &toks);
    if unknown.len() > 0 {
        match mode {
            Mode::Strict => {
                let w: String = unknown[0].clone();
                proof {
                    assert(w@ == views_of(unknown@)[0]);
                }
                Err(DecodeError::UnknownWord(w))
            },
            Mode::Lenient => Err(DecodeError::Diagnostic(Diagnostic::UnknownWords(first_three(&unknown)))),
        }
    } else if !crate::is_valid_word_count(toks.len()) {
        match mode {
            Mode::Strict => Err(DecodeError::InvalidWordCount(toks.len())),
            Mode::Lenient => Err(DecodeError::Diagnostic(Diagnostic::WrongWordCount(toks.len()))),
        }
    } else {
        match mode {
            Mode::Strict => {
                proof {
                    wl.lemma_wf_facts();
                    assert forall|i: int| 0 <= i < toks@.len() implies toks@[i]@.len() >= 1 && (
                    forall|j: int|
                        0 <= j < toks@[i]@.len() ==> is_lower_alpha(#[trigger] toks@[i]@[j])) by {
                        assert(is_known_word(gtoks[i])) by {
                            lemma_unknown_words_empty(gtoks, i);
                        }
                        let idx = word_index(gtoks[i])->Some_0;
                        lemma_word_index_some(gtoks[i], idx);
                        assert(toks@[i]@ == gtoks[i]);
                    }
                }
                match strict_decode(&toks) {
                    Some(v) => Ok(v),
                    None => Err(DecodeError::ChecksumMismatch),
                }
            },
            Mode::Lenient => {
                let bits = pack_bits(&indices);
                let bytes = bits_to_bytes(&bits);
                Ok(bytes)
            },
        }
    }
}

/// When no word of `toks` is unknown, each word is known.
proof fn lemma_unknown_words_empty(toks: Seq<Seq<char>>, i: int)
    requires
        unknown_words(toks).len() == 0,
        0 <= i < toks.len(),
    ensures
        is_known_word(toks[i]),
    decreases toks.len(),
{
    if i == toks.len() - 1 {
        assert(unknown_words(toks.drop_last()).len() <= unknown_words(toks).len());
    } else {
        assert(unknown_words(toks.drop_last()).len() <= unknown_words(toks).len());
        lemma_unknown_words_empty(toks.drop_last(), i);
        assert(toks.drop_last()[i] == toks[i]);
    }
}

/// Decodes `phrase` in `mode`.
pub fn decode(phrase: &str, mode: Mode) -> (r: Result<Vec<u8>, DecodeError>)
    ensures
        outcome_view(r) == spec_decode(phrase@, mode),
        mode is Strict ==> (r matches Ok(v) ==> 3 * v@.len() == 4 * tokens_of(phrase@).len()),
{
    let wl = Wordlist::english();
    decode_in(&wl, phrase, mode)
}

/// Classifies why `phrase` is not a valid mnemonic, against an
/// already-built vocabulary table.
pub fn diagnose_in(wl: &Wordlist, phrase: &str) -> (d: Diagnostic)
    requires
        wl.wf(),
    ensures
        d@ == spec_diagnose(phrase@),
{
    let toks = tokenize(phrase);
    let (_indices, unknown) = resolve_words(wl, &toks);
    if unknown.len() > 0 {
        Diagnostic::UnknownWords(first_three(&unknown))
    } else if !crate::is_valid_word_count(toks.len()) {
        Diagnostic::WrongWordCount(toks.len())
    } else {
        Diagnostic::ChecksumLike
    }
}

/// Classifies why `phrase` is not a valid mnemonic.
pub fn diagnose(phrase: &str) -> (d: Diagnostic)
    ensures
        d@ == spec_diagnose(phrase@),
{
    let wl = Wordlist::english();
    diagnose_in(&wl, phrase)
}

/// Decoding is deterministic: two decodes of one phrase in one mode return
/// the same outcome.
pub proof fn lemma_decode_idempotent(
    r1: Result<Vec<u8>, DecodeError>,
    r2: Result<Vec<u8>, DecodeError>,
    phrase: Seq<char>,
    mode: Mode,
)
    requires
        outcome_view(r1) == spec_decode(phrase, mode),
        outcome_view(r2) == spec_decode(phrase, mode),
    ensures
        outcome_view(r1) == outcome_view(r2),
{
}

/// Lenient decoding never inspects the checksum: it succeeds on any phrase
/// whose words are all known and whose word count is valid, and returns the
/// full bit string packed into bytes, `ceil(word_count * 11 / 8)` of them.
pub proof fn lemma_lenient_ignores_checksum(phrase: Seq<char>)
    requires
        all_words_known(tokens_of(phrase)),
        valid_word_count(tokens_of(phrase).len()),
    ensures
        spec_decode(phrase, Mode::Lenient) matches Ok(e) && e == packed_bytes(
            phrase_bits(indices_of(tokens_of(phrase))),
        ) && e.len() == (tokens_of(phrase).len() * 11 + 7) / 8,
{
}

/// Strict and lenient decoding agree on which phrases are well formed:
/// lenient decoding succeeds exactly where strict decoding either succeeds
/// or fails only the checksum.
pub proof fn lemma_modes_agree_on_form(phrase: Seq<char>)
    ensures
        (spec_decode(phrase, Mode::Lenient) is Ok) <==> (spec_decode(phrase, Mode::Strict) is Ok
            || spec_decode(phrase, Mode::Strict) == Err::<Seq<u8>, SpecError>(
            SpecError::ChecksumMismatch,
        )),
{
}

} // verus!
