//! Packing of 11-bit word indices into a bit string and of bit strings into
//! bytes, most-significant bit first, with the trailing partial byte padded
//! with zero bits on its least-significant end.

use vstd::prelude::*;

verus! {

/// Bit `j` (0 = most significant of the 11) of the word index `idx`.
pub open spec fn index_bit(idx: u16, j: int) -> bool {
    idx >> ((10 - j) as u16) & 1u16 == 1u16
}

/// The concatenation of the 11-bit big-endian encodings of `indices`.
pub open spec fn phrase_bits(indices: Seq<u16>) -> Seq<bool> {
    Seq::new(indices.len() * 11, |k: int| index_bit(indices[k / 11], k % 11))
}

/// Bit `k` of `bits`, reading positions past the end as zero padding.
pub open spec fn bit_at(bits: Seq<bool>, k: int) -> bool {
    0 <= k < bits.len() && bits[k]
}

/// The value of byte `i` of the packed form of `bits`: eight bits starting
/// at position `8*i`, most significant first.
pub open spec fn byte_val(bits: Seq<bool>, i: int) -> int {
    (if bit_at(bits, 8 * i) { 128int } else { 0int }) + (if bit_at(bits, 8 * i + 1) { 64int } else { 0int })
        + (if bit_at(bits, 8 * i + 2) { 32int } else { 0int }) + (if bit_at(bits, 8 * i + 3) { 16int } else { 0int })
        + (if bit_at(bits, 8 * i + 4) { 8int } else { 0int }) + (if bit_at(bits, 8 * i + 5) { 4int } else { 0int })
        + (if bit_at(bits, 8 * i + 6) { 2int } else { 0int }) + (if bit_at(bits, 8 * i + 7) { 1int } else { 0int })
}

/// `bits` packed into bytes by ceiling division: `ceil(len/8)` bytes, the
/// last one zero-padded on the right.
pub open spec fn packed_bytes(bits: Seq<bool>) -> Seq<u8> {
    Seq::new((bits.len() + 7) / 8, |i: int| byte_val(bits, i) as u8)
}

/// Returns bit `k` of `bits`, with positions past the end read as zero.
fn bit_get(bits: &Vec<bool>, k: usize) -> (r: bool)
    ensures
        r == bit_at(bits@, k as int),
{
    k < bits.len() && bits[k]
}

/// Concatenates the 11-bit big-endian encodings of `indices` into one bit string.
pub fn pack_bits(indices: &Vec<u16>) -> (bits: Vec<bool>)
    requires
        indices@.len() * 11 <= usize::MAX,
    ensures
        bits@ == phrase_bits(indices@),
{
    let mut bits: Vec<bool> = Vec::new();
    let n = indices.len();
    let mut i: usize = 0;
    while i < n
        invariant
            n == indices@.len(),
            n * 11 <= usize::MAX,
            i <= n,
            bits@.len() == i * 11,
            forall|k: int| 0 <= k < i * 11 ==> bits@[k] == index_bit(indices@[k / 11], k % 11),
        decreases n - i,
    {
        let idx = indices[i];
        let mut j: usize = 0;
        while j < 11
            invariant
                n == indices@.len(),
                n * 11 <= usize::MAX,
                i < n,
                j <= 11,
                idx == indices@[i as int],
                bits@.len() == i * 11 + j,
                forall|k: int| 0 <= k < i * 11 + j ==> bits@[k] == index_bit(indices@[k / 11], k % 11),
            decreases 11 - j,
        {
            let b = (idx >> ((10 - j) as u16)) & 1u16 == 1u16;
            bits.push(b);
            proof {
                let k = i * 11 + j;
                assert(k / 11 == i as int && k % 11 == j as int) by (nonlinear_arith)
                    requires 0 <= j < 11 && k == i * 11 + j && 0 <= i;
            }
            j = j + 1;
        }
        i = i + 1;
    }
    proof {
        assert(bits@ =~= phrase_bits(indices@));
    }
    bits
}

/// Packs `bits` into bytes, eight bits per byte, most significant first,
/// padding the final partial byte with zero bits.
pub fn bits_to_bytes(bits: &Vec<bool>) -> (r: Vec<u8>)
    requires
        bits@.len() + 7 <= usize::MAX,
    ensures
        r@ == packed_bytes(bits@),
{
    let n_bytes = (bits.len() + 7) / 8;
    let mut r: Vec<u8> = Vec::new();
    let mut i: usize = 0;
    while i < n_bytes
        invariant
            bits@.len() + 7 <= usize::MAX,
            n_bytes == (bits@.len() + 7) / 8,
            i <= n_bytes,
            r@.len() == i,
            forall|k: int| 0 <= k < i ==> r@[k] == packed_bytes(bits@)[k],
        decreases n_bytes - i,
    {
        let mut b: u8 = 0;
        if bit_get(bits, 8 * i) {
            b = b + 128;
        }
        if bit_get(bits, 8 * i + 1) {
            b = b + 64;
        }
        if bit_get(bits, 8 * i + 2) {
            b = b + 32;
        }
        if bit_get(bits, 8 * i + 3) {
            b = b + 16;
        }
        if bit_get(bits, 8 * i + 4) {
            b = b + 8;
        }
        if bit_get(bits, 8 * i + 5) {
            b = b + 4;
        }
        if bit_get(bits, 8 * i + 6) {
            b = b + 2;
        }
        if bit_get(bits, 8 * i + 7) {
            b = b + 1;
        }
        assert(b == byte_val(bits@, i as int));
        r.push(b);
        i = i + 1;
    }
    proof {
        assert(r@ =~= packed_bytes(bits@));
    }
    r
}

} // verus!
