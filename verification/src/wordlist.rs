//! The fixed 2048-word English vocabulary and the word-to-index lookup.

use vstd::prelude::*;

verus! {

/// Entry `i` of the fixed 2048-word English vocabulary, as the outside
/// wordlist function hands it out.
pub uninterp spec fn english_word(i: int) -> Seq<char>;

/// Whether `c` is a lowercase ASCII letter.
pub open spec fn is_lower_alpha(c: char) -> bool {
    97 <= c as u32 <= 122
}

/// Every vocabulary entry is a nonempty word of lowercase ASCII letters.
pub open spec fn wordlist_facts() -> bool {
    forall|i: int|
        0 <= i < 2048 ==> english_word(i).len() >= 1 && (forall|j: int|
            0 <= j < english_word(i).len() ==> is_lower_alpha(#[trigger] english_word(i)[j]))
}

/// Relies on bip39::Language::word_list for English: a fixed array of 2048
/// words, each a nonempty string of lowercase ASCII letters.
#[verifier::external_body]
fn english_wordlist() -> (r: Vec<String>)
    ensures
        r@.len() == 2048,
        forall|i: int| 0 <= i < 2048 ==> #[trigger] r@[i]@ == english_word(i),
        forall|i: int|
            0 <= i < 2048 ==> r@[i]@.len() >= 1 && (forall|j: int|
                0 <= j < r@[i]@.len() ==> is_lower_alpha(#[trigger] r@[i]@[j])),
{
    bip39::Language::English.word_list().iter().map(|w| w.to_string()).collect()
}

/// The least vocabulary index at or after `i` whose entry equals `w`, if any.
pub open spec fn first_index_from(w: Seq<char>, i: int) -> Option<u16>
    decreases 2048 - i when 0 <= i <= 2048
{
    if i >= 2048 {
        None
    } else if english_word(i) == w {
        Some(i as u16)
    } else {
        first_index_from(w, i + 1)
    }
}

/// The 11-bit rank of `w` in the vocabulary, or `None` when `w` is not a
/// vocabulary word.
pub open spec fn word_index(w: Seq<char>) -> Option<u16> {
    first_index_from(w, 0)
}

/// Whether `w` is a word of the vocabulary.
pub open spec fn is_known_word(w: Seq<char>) -> bool {
    word_index(w) is Some
}

proof fn lemma_first_index_skip(w: Seq<char>, i: int)
    requires
        0 <= i <= 2048,
        forall|k: int| 0 <= k < i ==> english_word(k) != w,
    ensures
        word_index(w) == first_index_from(w, i),
    decreases i,
{
    if i > 0 {
        lemma_first_index_skip(w, i - 1);
    }
}

/// A found index names the word looked up.
pub proof fn lemma_word_index_some(w: Seq<char>, i: u16)
    requires
        word_index(w) == Some(i),
    ensures
        i < 2048,
        english_word(i as int) == w,
{
    lemma_index_from_some(w, 0, i);
}

proof fn lemma_index_from_some(w: Seq<char>, start: int, i: u16)
    requires
        0 <= start <= 2048,
        first_index_from(w, start) == Some(i),
    ensures
        start <= i < 2048,
        english_word(i as int) == w,
    decreases 2048 - start,
{
    if start < 2048 && english_word(start) != w {
        lemma_index_from_some(w, start + 1, i);
    }
}

/// The immutable English vocabulary, exposing rank lookup.
pub struct Wordlist {
    words: Vec<String>,
}

impl Wordlist {
    /// The table holds exactly the 2048 vocabulary entries, in rank order.
    pub closed spec fn wf(&self) -> bool {
        &&& self.words@.len() == 2048
        &&& forall|i: int| 0 <= i < 2048 ==> #[trigger] self.words@[i]@ == english_word(i)
        &&& wordlist_facts()
    }

    /// A well-formed table carries the vocabulary facts.
    pub proof fn lemma_wf_facts(&self)
        requires
            self.wf(),
        ensures
            wordlist_facts(),
    {
    }

    /// Builds the English vocabulary table.
    pub fn english() -> (r: Wordlist)
        ensures
            r.wf(),
    {
        let words = english_wordlist();
        proof {
            assert forall|i: int| 0 <= i < 2048 implies english_word(i).len() >= 1 && (forall|j: int|
                0 <= j < english_word(i).len() ==> is_lower_alpha(#[trigger] english_word(i)[j])) by {
                assert(words@[i]@ == english_word(i));
            }
        }
        Wordlist { words }
    }

    /// The number of vocabulary entries.
    pub fn word_count(&self) -> (n: usize)
        requires
            self.wf(),
        ensures
            n == 2048,
    {
        self.words.len()
    }

    /// Returns the rank of `w` in the vocabulary, or `None` when `w` is not
    /// a vocabulary word.
    pub fn lookup(&self, w: &str) -> (r: Option<u16>)
        requires
            self.wf(),
        ensures
            r == word_index(w@),
    {
        let sought: String = w.to_owned();
        let mut i: usize = 0;
        while i < 2048
            invariant
                self.wf(),
                sought@ == w@,
                i <= 2048,
                forall|k: int| 0 <= k < i ==> english_word(k) != w@,
            decreases 2048 - i,
        {
            if self.words[i] == sought {
                proof {
                    lemma_first_index_skip(w@, i as int);
                }
                return Some(i as u16);
            }
            i = i + 1;
        }
        proof {
            lemma_first_index_skip(w@, 2048);
        }
        None
    }
}

} // verus!
