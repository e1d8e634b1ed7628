use mnemonic_entropy::decode::{decode, diagnose, DecodeError, Diagnostic};
use mnemonic_entropy::render::render;
use mnemonic_entropy::wordlist::Wordlist;
use mnemonic_entropy::{Format, Mode};

const ZERO_PHRASE: &str = "abandon abandon abandon abandon abandon abandon abandon abandon abandon abandon abandon about";

// Same words, last checksum bit flipped: "able" is rank 2 where "about" is rank 3.
const FLIPPED_PHRASE: &str = "abandon abandon abandon abandon abandon abandon abandon abandon abandon abandon abandon able";

#[test]
fn zero_entropy_phrase_strict() {
    let r = decode(ZERO_PHRASE, Mode::Strict);
    assert_eq!(r, Ok(vec![0u8; 16]));
}

#[test]
fn zero_entropy_phrase_hex() {
    let e = decode(ZERO_PHRASE, Mode::Strict).unwrap();
    assert_eq!(render(&e, Format::Hex), "00000000000000000000000000000000");
}

#[test]
fn round_trip_all_entropy_lengths() {
    for &len in &[16usize, 20, 24, 28, 32] {
        let entropy: Vec<u8> = (0..len).map(|i| (i * 7 + 3) as u8).collect();
        let m = bip39::Mnemonic::from_entropy(&entropy).unwrap();
        let phrase = m.to_string();
        let r = decode(&phrase, Mode::Strict);
        assert_eq!(r, Ok(entropy));
    }
}

#[test]
fn decoding_is_idempotent() {
    for mode in [Mode::Strict, Mode::Lenient] {
        let r1 = decode(FLIPPED_PHRASE, mode);
        let r2 = decode(FLIPPED_PHRASE, mode);
        assert_eq!(r1, r2);
    }
    let r1 = decode("zzzzz", Mode::Strict);
    let r2 = decode("zzzzz", Mode::Strict);
    assert_eq!(r1, r2);
}

#[test]
fn checksum_flip_strict_fails_lenient_succeeds() {
    assert_eq!(decode(FLIPPED_PHRASE, Mode::Strict), Err(DecodeError::ChecksumMismatch));
    // 12 words * 11 bits = 132 bits -> 17 bytes; the last word "able" (rank 2)
    // leaves a single one-bit at position 130, i.e. 0x20 in the final byte.
    let mut expected = vec![0u8; 16];
    expected.push(0x20);
    assert_eq!(decode(FLIPPED_PHRASE, Mode::Lenient), Ok(expected));
}

#[test]
fn boundary_twelve_words() {
    let strict = decode(ZERO_PHRASE, Mode::Strict).unwrap();
    assert_eq!(strict.len(), 16);
    let lenient = decode(ZERO_PHRASE, Mode::Lenient).unwrap();
    assert_eq!(lenient.len(), 17);
    // The checksum bits of the valid phrase are kept as data: rank 3 of
    // "about" leaves 0x30 in the final byte.
    let mut expected = vec![0u8; 16];
    expected.push(0x30);
    assert_eq!(lenient, expected);
}

#[test]
fn unknown_word_strict() {
    let phrase = "abandon zzzzz abandon qqqq abandon abandon abandon abandon abandon abandon abandon about";
    match decode(phrase, Mode::Strict) {
        Err(DecodeError::UnknownWord(w)) => assert_eq!(w, "zzzzz"),
        other => panic!("expected an unknown-word failure, got {:?}", other),
    }
}

#[test]
fn unknown_word_lenient_diagnostic() {
    let phrase = "abandon zzzzz abandon qqqq abandon abandon abandon abandon abandon abandon abandon about";
    match decode(phrase, Mode::Lenient) {
        Err(DecodeError::Diagnostic(Diagnostic::UnknownWords(ws))) => {
            assert!(ws.iter().any(|w| w == "zzzzz"));
            assert_eq!(ws, vec!["zzzzz".to_string(), "qqqq".to_string()]);
        },
        other => panic!("expected an unknown-words diagnostic, got {:?}", other),
    }
}

#[test]
fn unknown_words_diagnostic_caps_at_three() {
    let phrase = "aaaa bbbb cccc dddd eeee";
    match decode(phrase, Mode::Lenient) {
        Err(DecodeError::Diagnostic(Diagnostic::UnknownWords(ws))) => {
            assert_eq!(ws, vec!["aaaa".to_string(), "bbbb".to_string(), "cccc".to_string()]);
        },
        other => panic!("expected an unknown-words diagnostic, got {:?}", other),
    }
}

#[test]
fn invalid_word_count() {
    let phrase = "abandon abandon abandon";
    assert_eq!(decode(phrase, Mode::Strict), Err(DecodeError::InvalidWordCount(3)));
    assert_eq!(
        decode(phrase, Mode::Lenient),
        Err(DecodeError::Diagnostic(Diagnostic::WrongWordCount(3)))
    );
}

#[test]
fn empty_phrase_rejected() {
    assert_eq!(decode("", Mode::Strict), Err(DecodeError::InvalidWordCount(0)));
    assert_eq!(decode("   ", Mode::Strict), Err(DecodeError::InvalidWordCount(0)));
}

#[test]
fn extra_whitespace_is_ignored() {
    let spaced = "  abandon\tabandon abandon  abandon abandon abandon abandon abandon abandon abandon abandon   about \n";
    assert_eq!(decode(spaced, Mode::Strict), Ok(vec![0u8; 16]));
}

#[test]
fn diagnose_classifies_by_priority() {
    assert_eq!(
        diagnose("zzzzz abandon abandon"),
        Diagnostic::UnknownWords(vec!["zzzzz".to_string()])
    );
    assert_eq!(diagnose("abandon abandon abandon"), Diagnostic::WrongWordCount(3));
    assert_eq!(diagnose(FLIPPED_PHRASE), Diagnostic::ChecksumLike);
}

#[test]
fn wordlist_lookup() {
    let wl = Wordlist::english();
    assert_eq!(wl.word_count(), 2048);
    assert_eq!(wl.lookup("abandon"), Some(0));
    assert_eq!(wl.lookup("about"), Some(3));
    assert_eq!(wl.lookup("zoo"), Some(2047));
    assert_eq!(wl.lookup("zzzzz"), None);
    assert_eq!(wl.lookup(""), None);
}

#[test]
fn render_hex() {
    assert_eq!(render(&vec![0xab, 0x01, 0xff], Format::Hex), "ab01ff");
    assert_eq!(render(&vec![], Format::Hex), "");
    assert_eq!(render(&vec![0x00, 0x10], Format::Hex), "0010");
}

#[test]
fn render_byte_list() {
    assert_eq!(render(&vec![0, 16, 255], Format::ByteList), "[0, 16, 255]");
    assert_eq!(render(&vec![], Format::ByteList), "[]");
    assert_eq!(render(&vec![7], Format::ByteList), "[7]");
    assert_eq!(render(&vec![100, 10, 1], Format::ByteList), "[100, 10, 1]");
}

#[test]
fn tokenize_splits_on_ascii_whitespace() {
    let toks = mnemonic_entropy::tokens::tokenize("  a\tbb \n cc ");
    assert_eq!(toks, vec!["a".to_string(), "bb".to_string(), "cc".to_string()]);
    assert_eq!(mnemonic_entropy::tokens::tokenize(""), Vec::<String>::new());
    assert_eq!(mnemonic_entropy::tokens::tokenize(" \t\n"), Vec::<String>::new());
}

#[test]
fn bit_packing_known_vector() {
    // Rank 3 is the 11 bits 00000000011; packed into bytes it leaves
    // 0x00 and then 011 followed by five zero padding bits: 0x60.
    let bits = mnemonic_entropy::bits::pack_bits(&vec![3u16]);
    assert_eq!(bits.len(), 11);
    let mut expected = vec![false; 9];
    expected.push(true);
    expected.push(true);
    assert_eq!(bits, expected);
    let bytes = mnemonic_entropy::bits::bits_to_bytes(&bits);
    assert_eq!(bytes, vec![0x00, 0x60]);
}
