use mnemonic_entropy::batch::{restore_order, run_batch};
use mnemonic_entropy::decode::{DecodeError, Diagnostic};
use mnemonic_entropy::process::{process_phrase, Outcome};
use mnemonic_entropy::report::report;
use mnemonic_entropy::{Format, Mode, Options};

const ZERO_PHRASE: &str = "abandon abandon abandon abandon abandon abandon abandon abandon abandon abandon abandon about";

const FLIPPED_PHRASE: &str = "abandon abandon abandon abandon abandon abandon abandon abandon abandon abandon abandon able";

fn opts(lenient_fallback: bool, skip_invalid: bool) -> Options {
    Options { format: Format::Hex, lenient_fallback, skip_invalid }
}

#[test]
fn batch_preserves_input_order() {
    let phrases = vec![
        ZERO_PHRASE.to_string(),
        "zzzzz".to_string(),
        ZERO_PHRASE.to_string(),
        "abandon abandon".to_string(),
    ];
    let outcomes = run_batch(&phrases, Mode::Strict, Format::Hex);
    assert_eq!(outcomes.len(), 4);
    assert_eq!(
        outcomes[0],
        Outcome::Success("00000000000000000000000000000000".to_string())
    );
    assert_eq!(
        outcomes[1],
        Outcome::Failure {
            phrase: "zzzzz".to_string(),
            error: DecodeError::UnknownWord("zzzzz".to_string()),
        }
    );
    assert_eq!(
        outcomes[2],
        Outcome::Success("00000000000000000000000000000000".to_string())
    );
    assert_eq!(
        outcomes[3],
        Outcome::Failure {
            phrase: "abandon abandon".to_string(),
            error: DecodeError::InvalidWordCount(2),
        }
    );
}

#[test]
fn restore_order_reorders_tagged_outcomes() {
    let o = |s: &str| Outcome::Success(s.to_string());
    let tagged = vec![
        (2usize, o("two")),
        (0usize, o("zero")),
        (3usize, o("three")),
        (1usize, o("one")),
    ];
    let restored = restore_order(&tagged);
    assert_eq!(restored, vec![o("zero"), o("one"), o("two"), o("three")]);
}

#[test]
fn process_phrase_strict_only() {
    let out = process_phrase(FLIPPED_PHRASE, opts(false, false));
    assert_eq!(
        out,
        Outcome::Failure {
            phrase: FLIPPED_PHRASE.to_string(),
            error: DecodeError::Diagnostic(Diagnostic::ChecksumLike),
        }
    );
}

#[test]
fn process_phrase_lenient_fallback() {
    // The corrupted phrase recovers all 132 bits, checksum included.
    let out = process_phrase(FLIPPED_PHRASE, opts(true, false));
    assert_eq!(
        out,
        Outcome::Success("0000000000000000000000000000000020".to_string())
    );
    // A checksum-valid phrase is still decoded strictly, even with the
    // fallback enabled: 16 bytes, not 17.
    let out = process_phrase(ZERO_PHRASE, opts(true, false));
    assert_eq!(
        out,
        Outcome::Success("00000000000000000000000000000000".to_string())
    );
}

#[test]
fn process_phrase_fallback_keeps_word_errors() {
    let out = process_phrase("abandon zzzzz", opts(true, false));
    assert_eq!(
        out,
        Outcome::Failure {
            phrase: "abandon zzzzz".to_string(),
            error: DecodeError::Diagnostic(Diagnostic::UnknownWords(vec!["zzzzz".to_string()])),
        }
    );
}

#[test]
fn bulk_three_valid_two_invalid_exits_success() {
    let phrases = vec![
        ZERO_PHRASE.to_string(),
        "zzzzz one two".to_string(),
        ZERO_PHRASE.to_string(),
        "qqqq".to_string(),
        ZERO_PHRASE.to_string(),
    ];
    let outcomes: Vec<Outcome> =
        phrases.iter().map(|p| process_phrase(p, opts(false, false))).collect();
    let rep = report(&outcomes, opts(false, false));
    assert_eq!(rep.total, 5);
    assert_eq!(rep.successes, 3);
    assert_eq!(rep.failures, 2);
    assert!(!rep.exit_failure);
    assert!(!rep.advisory);
}

#[test]
fn report_total_failure_exits_failure_unless_skipped() {
    let phrases = vec!["zzzzz".to_string(), "qqqq".to_string()];
    let outcomes: Vec<Outcome> =
        phrases.iter().map(|p| process_phrase(p, opts(false, false))).collect();
    let rep = report(&outcomes, opts(false, false));
    assert_eq!(rep.successes, 0);
    assert_eq!(rep.failures, 2);
    assert!(rep.exit_failure);
    assert!(rep.advisory);
    let rep_skip = report(&outcomes, opts(false, true));
    assert!(!rep_skip.exit_failure);
}

#[test]
fn report_advisory_over_half_failures() {
    let phrases = vec![
        "zzzzz".to_string(),
        "qqqq".to_string(),
        "wwww".to_string(),
        ZERO_PHRASE.to_string(),
    ];
    let outcomes: Vec<Outcome> =
        phrases.iter().map(|p| process_phrase(p, opts(false, false))).collect();
    let rep = report(&outcomes, opts(false, false));
    assert_eq!(rep.successes, 1);
    assert_eq!(rep.failures, 3);
    assert!(rep.advisory);
    assert!(!rep.exit_failure);
}

#[test]
fn report_empty_batch() {
    let outcomes: Vec<Outcome> = vec![];
    let rep = report(&outcomes, opts(false, false));
    assert_eq!(rep.total, 0);
    assert!(!rep.exit_failure);
    assert!(!rep.advisory);
}
