//! Rendering recovered entropy as lowercase hexadecimal or as a literal
//! byte-list representation.

use vstd::prelude::*;

use crate::Format;

verus! {

/// The lowercase hexadecimal digit of `v`, for `v` in `0..16`.
pub open spec fn hex_digit(v: int) -> char {
    if v == 0 {
        '0'
    } else if v == 1 {
        '1'
    } else if v == 2 {
        '2'
    } else if v == 3 {
        '3'
    } else if v == 4 {
        '4'
    } else if v == 5 {
        '5'
    } else if v == 6 {
        '6'
    } else if v == 7 {
        '7'
    } else if v == 8 {
        '8'
    } else if v == 9 {
        '9'
    } else if v == 10 {
        'a'
    } else if v == 11 {
        'b'
    } else if v == 12 {
        'c'
    } else if v == 13 {
        'd'
    } else if v == 14 {
        'e'
    } else {
        'f'
    }
}

/// The lowercase hexadecimal rendering of `bytes`: two digits per byte, in
/// order, high nibble first.
pub open spec fn hex_of(bytes: Seq<u8>) -> Seq<char> {
    Seq::new(
        bytes.len() * 2,
        |k: int|
            if k % 2 == 0 {
                hex_digit((bytes[k / 2] >> 4u8) as int)
            } else {
                hex_digit((bytes[k / 2] & 0xfu8) as int)
            },
    )
}

/// The decimal digit of `v`, for `v` in `0..10`.
pub open spec fn dec_digit(v: int) -> char {
    hex_digit(if v < 10 {
        v
    } else {
        0
    })
}

/// The decimal rendering of `n`, without sign or padding.
pub open spec fn dec_of(n: int) -> Seq<char>
    decreases n when n >= 0
{
    if n < 10 {
        seq![dec_digit(n)]
    } else {
        dec_of(n / 10).push(dec_digit(n % 10))
    }
}

/// The comma-separated decimal renderings of `bytes`.
pub open spec fn byte_list_body(bytes: Seq<u8>) -> Seq<char>
    decreases bytes.len(),
{
    if bytes.len() == 0 {
        Seq::empty()
    } else if bytes.len() == 1 {
        dec_of(bytes[0] as int)
    } else {
        byte_list_body(bytes.drop_last()) + seq![',', ' '] + dec_of(bytes.last() as int)
    }
}

/// The literal byte-list rendering of `bytes`: decimal values, separated by
/// a comma and a space, between square brackets.
pub open spec fn byte_list_of(bytes: Seq<u8>) -> Seq<char> {
    seq!['['] + byte_list_body(bytes) + seq![']']
}

/// The rendering of entropy `e` under `f`.
pub open spec fn spec_render(e: Seq<u8>, f: Format) -> Seq<char> {
    match f {
        Format::Hex => hex_of(e),
        Format::ByteList => byte_list_of(e),
    }
}

/// Relies on hex::encode: two lowercase hexadecimal digits per byte, in
/// order, high nibble first.
#[verifier::external_body]
fn hex_encode(bytes: &Vec<u8>) -> (r: String)
    ensures
        r@ == hex_of(bytes@),
{
    hex::encode(bytes.as_slice())
}

/// Returns the one-character string of the decimal digit `d`.
fn digit_str(d: u8) -> (r: &'static str)
    requires
        d < 10,
    ensures
        r@ == seq![dec_digit(d as int)],
{
    proof {
        reveal_strlit("0");
        reveal_strlit("1");
        reveal_strlit("2");
        reveal_strlit("3");
        reveal_strlit("4");
        reveal_strlit("5");
        reveal_strlit("6");
        reveal_strlit("7");
        reveal_strlit("8");
        reveal_strlit("9");
    }
    if d == 0 {
        "0"
    } else if d == 1 {
        "1"
    } else if d == 2 {
        "2"
    } else if d == 3 {
        "3"
    } else if d == 4 {
        "4"
    } else if d == 5 {
        "5"
    } else if d == 6 {
        "6"
    } else if d == 7 {
        "7"
    } else if d == 8 {
        "8"
    } else {
        "9"
    }
}

/// Appends the decimal rendering of `n` to `out`.
fn push_dec(out: &mut String, n: u8)
    ensures
        final(out)@ == old(out)@ + dec_of(n as int),
{
    if n >= 100 {
        out.append(digit_str(n / 100));
    }
    if n >= 10 {
        out.append(digit_str((n / 10) % 10));
    }
    out.append(digit_str(n % 10));
    proof {
        if n >= 100 {
            assert(dec_of(n as int / 10) == dec_of(n as int / 100).push(
                dec_digit((n as int / 10) % 10),
            ));
            assert(dec_of(n as int) =~= seq![dec_digit(n as int / 100)].push(
                dec_digit((n as int / 10) % 10),
            ).push(dec_digit(n as int % 10)));
        } else if n >= 10 {
            assert(dec_of(n as int / 10) == seq![dec_digit(n as int / 10)]);
            assert(dec_of(n as int) =~= seq![dec_digit(n as int / 10)].push(
                dec_digit(n as int % 10),
            ));
            assert((n as int / 10) % 10 == n as int / 10);
        }
        assert(final(out)@ =~= old(out)@ + dec_of(n as int));
    }
}

/// Renders `bytes` as a literal byte list, decimal values between square
/// brackets, separated by a comma and a space.
pub fn render_byte_list(bytes: &Vec<u8>) -> (r: String)
    ensures
        r@ == byte_list_of(bytes@),
{
    proof {
        reveal_strlit("[");
        reveal_strlit("]");
        reveal_strlit(", ");
    }
    let mut out: String = String::from_str("[");
    let n = bytes.len();
    let mut i: usize = 0;
    while i < n
        invariant
            n == bytes@.len(),
            i <= n,
            out@ =~= seq!['['] + byte_list_body(bytes@.take(i as int)),
        decreases n - i,
    {
        proof {
            reveal_strlit(", ");
            assert(bytes@.take(i as int + 1).drop_last() =~= bytes@.take(i as int));
            assert(bytes@.take(i as int + 1).last() == bytes@[i as int]);
        }
        if i > 0 {
            out.append(", ");
        }
        push_dec(&mut out, bytes[i]);
        i = i + 1;
    }
    proof {
        reveal_strlit("]");
        assert(bytes@.take(n as int) =~= bytes@);
    }
    out.append("]");
    proof {
        assert(out@ =~= byte_list_of(bytes@));
    }
    out
}

/// Renders `entropy` under `format`.
pub fn render(entropy: &Vec<u8>, format: Format) -> (r: String)
    ensures
        r@ == spec_render(entropy@, format),
{
    match format {
        Format::Hex => hex_encode(entropy),
        Format::ByteList => render_byte_list(entropy),
    }
}

} // verus!
