//! Recovery of the entropy bytes behind a BIP39 mnemonic phrase.
//!
//! The decoder works in two modes: strict decoding validates the embedded
//! checksum and rejects malformed phrases; lenient decoding packs every bit
//! of the phrase's word indices into bytes, checksum included, so entropy
//! can be recovered from word lists that were never checksum-consistent.

use vstd::prelude::*;

pub mod batch;
pub mod bits;
pub mod decode;
pub mod process;
pub mod render;
pub mod report;
pub mod tokens;
pub mod wordlist;

verus! {

/// Decoding mode: strict validates the embedded checksum, lenient returns
/// every packed bit as entropy without inspecting the checksum.
#[derive(Clone, Copy, PartialEq, Eq, Structural, Debug)]
pub enum Mode {
    Strict,
    Lenient,
}

/// How recovered entropy is rendered: lowercase hexadecimal or a literal
/// byte-list representation.
#[derive(Clone, Copy, PartialEq, Eq, Structural, Debug)]
pub enum Format {
    Hex,
    ByteList,
}

/// The immutable configuration threaded through phrase processing.
#[derive(Clone, Copy, PartialEq, Eq, Structural, Debug)]
pub struct Options {
    /// How entropy is rendered.
    pub format: Format,
    /// Whether a phrase that fails strict decoding is retried leniently.
    pub lenient_fallback: bool,
    /// Whether failed phrases are tolerated when deciding the exit status.
    pub skip_invalid: bool,
}

/// Word counts accepted by the decoder.
pub open spec fn valid_word_count(n: nat) -> bool {
    n == 12 || n == 15 || n == 18 || n == 21 || n == 24
}

/// Returns whether `n` is a word count the decoder accepts.
pub fn is_valid_word_count(n: usize) -> (r: bool)
    ensures
        r == valid_word_count(n as nat),
{
    n == 12 || n == 15 || n == 18 || n == 21 || n == 24
}

} // verus!
