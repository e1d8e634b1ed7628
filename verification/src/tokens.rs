//! Splitting a phrase into whitespace-delimited word tokens.

use vstd::prelude::*;

verus! {

/// Whether `c` is an ASCII whitespace character.
pub open spec fn is_space_char(c: char) -> bool {
    c == ' ' || c == '\t' || c == '\n' || c == '\r' || c == '\u{b}' || c == '\u{c}'
}

/// The maximal runs of non-whitespace characters of `s`, in order.
pub open spec fn tokens_of(s: Seq<char>) -> Seq<Seq<char>>
    decreases s.len(),
{
    if s.len() == 0 {
        Seq::empty()
    } else {
        let prev = tokens_of(s.drop_last());
        let c = s.last();
        if is_space_char(c) {
            prev
        } else if s.len() >= 2 && !is_space_char(s[s.len() - 2]) {
            prev.update(prev.len() - 1, prev.last().push(c))
        } else {
            prev.push(seq![c])
        }
    }
}

/// The views of a sequence of owned strings.
pub open spec fn views_of(v: Seq<String>) -> Seq<Seq<char>> {
    v.map_values(|t: String| t@)
}

/// Returns whether `c` is an ASCII whitespace character.
fn is_space(c: char) -> (r: bool)
    ensures
        r == is_space_char(c),
{
    c == ' ' || c == '\t' || c == '\n' || c == '\r' || c == '\u{b}' || c == '\u{c}'
}

/// Splits `s` into its maximal runs of non-whitespace characters, in order.
pub fn tokenize(s: &str) -> (r: Vec<String>)
    ensures
        views_of(r@) == tokens_of(s@),
{
    let n = s.unicode_len();
    let mut toks: Vec<String> = Vec::new();
    let mut start: usize = 0;
    let mut in_tok: bool = false;
    let mut i: usize = 0;
    while i < n
        invariant
            n == s@.len(),
            i <= n,
            in_tok ==> start < i,
            in_tok == (i > 0 && !is_space_char(s@[i as int - 1])),
            in_tok ==> tokens_of(s@.take(i as int)) =~~= views_of(toks@).push(
                s@.subrange(start as int, i as int),
            ),
            !in_tok ==> tokens_of(s@.take(i as int)) =~~= views_of(toks@),
        decreases n - i,
    {
        let c = s.get_char(i);
        proof {
            assert(s@.take(i as int + 1).drop_last() =~= s@.take(i as int));
            assert(s@.take(i as int + 1).last() == s@[i as int]);
        }
        if is_space(c) {
            if in_tok {
                let tok: String = s.substring_char(start, i).to_owned();
                proof {
                    assert(views_of(toks@.push(tok)) =~~= views_of(toks@).push(tok@));
                }
                toks.push(tok);
                in_tok = false;
            }
        } else {
            if in_tok {
                proof {
                    let whole = s@.take(i as int + 1);
                    let prev = tokens_of(s@.take(i as int));
                    assert(whole.len() >= 2 && !is_space_char(whole[whole.len() - 2]));
                    assert(tokens_of(whole) == prev.update(prev.len() - 1, prev.last().push(c)));
                    assert(s@.subrange(start as int, i as int).push(c) =~= s@.subrange(
                        start as int,
                        i as int + 1,
                    ));
                    assert(tokens_of(whole) =~~= views_of(toks@).push(
                        s@.subrange(start as int, i as int + 1),
                    ));
                }
            } else {
                proof {
                    assert(seq![c] =~= s@.subrange(i as int, i as int + 1));
                    assert(tokens_of(s@.take(i as int + 1)) =~~= views_of(toks@).push(
                        s@.subrange(i as int, i as int + 1),
                    ));
                }
                start = i;
                in_tok = true;
            }
        }
        i = i + 1;
    }
    if in_tok {
        let tok: String = s.substring_char(start, n).to_owned();
        proof {
            assert(views_of(toks@.push(tok)) =~~= views_of(toks@).push(tok@));
        }
        toks.push(tok);
    }
    proof {
        assert(s@.take(n as int) =~= s@);
        assert(views_of(toks@) =~~= tokens_of(s@));
    }
    toks
}

} // verus!
