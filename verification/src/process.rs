//! Per-phrase processing: decoding, rendering, and the explicit
//! strict-then-lenient fallback policy.

use vstd::prelude::*;

use crate::decode::{
    decode_in, diagnose_in, spec_decode, spec_diagnose, DecodeError, Diagnostic, SpecError,
};
use crate::render::{render, spec_render};
use crate::wordlist::Wordlist;
use crate::{Format, Mode, Options};

verus! {

/// The mathematical form of one processed phrase.
pub enum SpecOutcome {
    Success(Seq<char>),
    Failure(Seq<char>, SpecError),
}

/// One processed phrase: the rendered entropy, or the classified failure
/// together with the offending phrase.
#[derive(Debug, Clone, PartialEq, Eq)]
pub enum Outcome {
    /// The recovered entropy, rendered under the chosen format.
    Success(String),
    /// The phrase that failed, with why it failed.
    Failure { phrase: String, error: DecodeError },
}

impl View for Outcome {
    type V = SpecOutcome;

    open spec fn view(&self) -> SpecOutcome {
        match self {
            Outcome::Success(s) => SpecOutcome::Success(s@),
            Outcome::Failure { phrase, error } => SpecOutcome::Failure(phrase@, error@),
        }
    }
}

impl Outcome {
    /// Returns whether this outcome is a success.
    pub fn is_success(&self) -> (b: bool)
        ensures
            b == (self@ is Success),
    {
        matches!(self, Outcome::Success(_))
    }
}

/// Decoding `phrase` in `mode` and rendering the entropy under `format`:
/// the outcome of one batch entry.
pub open spec fn spec_batch_item(phrase: Seq<char>, mode: Mode, format: Format) -> SpecOutcome {
    match spec_decode(phrase, mode) {
        Ok(e) => SpecOutcome::Success(spec_render(e, format)),
        Err(er) => SpecOutcome::Failure(phrase, er),
    }
}

/// The outcome of the explicit two-step policy on one phrase: strict
/// decoding first; on failure, lenient decoding when the caller opted in;
/// otherwise a classified diagnostic.
pub open spec fn spec_process(phrase: Seq<char>, opts: Options) -> SpecOutcome {
    match spec_decode(phrase, Mode::Strict) {
        Ok(e) => SpecOutcome::Success(spec_render(e, opts.format)),
        Err(_) => if opts.lenient_fallback {
            match spec_decode(phrase, Mode::Lenient) {
                Ok(e) => SpecOutcome::Success(spec_render(e, opts.format)),
                Err(_) => SpecOutcome::Failure(
                    phrase,
                    SpecError::Diagnostic(spec_diagnose(phrase)),
                ),
            }
        } else {
            SpecOutcome::Failure(phrase, SpecError::Diagnostic(spec_diagnose(phrase)))
        },
    }
}

/// Decodes `phrase` in `mode` and renders the entropy under `format`,
/// against an already-built vocabulary table.
pub fn decode_and_render_in(wl: &Wordlist, phrase: &str, mode: Mode, format: Format) -> (o:
    Outcome)
    requires
        wl.wf(),
    ensures
        o@ == spec_batch_item(phrase@, mode, format),
{
    match decode_in(wl, phrase, mode) {
        Ok(e) => Outcome::Success(render(&e, format)),
        Err(err) => Outcome::Failure { phrase: phrase.to_owned(), error: err },
    }
}

/// Processes `phrase` under `opts` against an already-built vocabulary
/// table: strict decoding first, then the lenient fallback when opted in,
/// else the classified diagnostic.
pub fn process_phrase_in(wl: &Wordlist, phrase: &str, opts: Options) -> (o: Outcome)
    requires
        wl.wf(),
    ensures
        o@ == spec_process(phrase@, opts),
{
    match decode_in(wl, phrase, Mode::Strict) {
        Ok(e) => Outcome::Success(render(&e, opts.format)),
        Err(_) => {
            if opts.lenient_fallback {
                match decode_in(wl, phrase, Mode::Lenient) {
                    Ok(e) => Outcome::Success(render(&e, opts.format)),
                    Err(err) => {
                        proof {
                            assert(err@ == SpecError::Diagnostic(spec_diagnose(phrase@)));
                        }
                        Outcome::Failure { phrase: phrase.to_owned(), error: err }
                    },
                }
            } else {
                let d = diagnose_in(wl, phrase);
                Outcome::Failure { phrase: phrase.to_owned(), error: DecodeError::Diagnostic(d) }
            }
        },
    }
}

/// Processes `phrase` under `opts`.
pub fn process_phrase(phrase: &str, opts: Options) -> (o: Outcome)
    ensures
        o@ == spec_process(phrase@, opts),
{
    let wl = Wordlist::english();
    process_phrase_in(&wl, phrase, opts)
}

} // verus!
