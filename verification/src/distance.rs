//! Hamming distance between perceptual hashes, as a mathematical function on
//! byte sequences, and the executable distance that `img_hash` computes.

use vstd::prelude::*;

verus! {

/// The longest hash, in bytes, whose number of bits still fits in a `u32`.
pub const MAX_HASH_BYTES: usize = 0x1FFF_FFFF;

/// Number of 1-bits of a byte.
pub open spec fn ones(x: u8) -> nat {
    ((x & 1) + ((x >> 1) & 1) + ((x >> 2) & 1) + ((x >> 3) & 1) + ((x >> 4) & 1) + ((x >> 5) & 1)
        + ((x >> 6) & 1) + ((x >> 7) & 1)) as nat
}

/// Number of bit positions in which the first `n` bytes of `a` and of `b` differ.
pub open spec fn differing_bits(a: Seq<u8>, b: Seq<u8>, n: nat) -> nat
    decreases n,
{
    if n == 0 {
        0
    } else {
        differing_bits(a, b, (n - 1) as nat) + ones(a[n - 1] ^ b[n - 1])
    }
}

/// Length of the part that two hashes are compared over.
pub open spec fn common_len(a: Seq<u8>, b: Seq<u8>) -> nat {
    if a.len() <= b.len() {
        a.len()
    } else {
        b.len()
    }
}

/// Hamming distance of two hashes: the number of 1-bits of their XOR, taken
/// byte by byte over the length of the shorter one.
pub open spec fn hamming(a: Seq<u8>, b: Seq<u8>) -> nat {
    differing_bits(a, b, common_len(a, b))
}

/// A byte has between zero and eight 1-bits, and none only if it is zero.
pub proof fn lemma_ones(x: u8)
    ensures
        ones(x) <= 8,
        ones(x) == 0 <==> x == 0,
{
    assert((x & 1) <= 1 && ((x >> 1) & 1) <= 1 && ((x >> 2) & 1) <= 1 && ((x >> 3) & 1) <= 1 && ((x
        >> 4) & 1) <= 1 && ((x >> 5) & 1) <= 1 && ((x >> 6) & 1) <= 1 && ((x >> 7) & 1) <= 1)
        by (bit_vector);
    assert(x == 0 <==> ((x & 1) == 0 && ((x >> 1) & 1) == 0 && ((x >> 2) & 1) == 0 && ((x >> 3) & 1)
        == 0 && ((x >> 4) & 1) == 0 && ((x >> 5) & 1) == 0 && ((x >> 6) & 1) == 0 && ((x >> 7) & 1)
        == 0)) by (bit_vector);
}

/// Two bytes differ in no bit exactly when they are equal, and XOR commutes.
pub proof fn lemma_xor(x: u8, y: u8)
    ensures
        x ^ y == y ^ x,
        x ^ y == 0 <==> x == y,
{
    assert(x ^ y == y ^ x) by (bit_vector);
    assert(x ^ y == 0 <==> x == y) by (bit_vector);
}

/// The first `n` bytes differ in at most `8 * n` bits.
pub proof fn lemma_differing_bits_bound(a: Seq<u8>, b: Seq<u8>, n: nat)
    ensures
        differing_bits(a, b, n) <= 8 * n,
    decreases n,
{
    if n > 0 {
        lemma_differing_bits_bound(a, b, (n - 1) as nat);
        lemma_ones(a[n - 1] ^ b[n - 1]);
    }
}

/// The count of differing bits does not depend on the order of the two hashes.
pub proof fn lemma_differing_bits_symmetric(a: Seq<u8>, b: Seq<u8>, n: nat)
    ensures
        differing_bits(a, b, n) == differing_bits(b, a, n),
    decreases n,
{
    if n > 0 {
        lemma_differing_bits_symmetric(a, b, (n - 1) as nat);
        lemma_xor(a[n - 1], b[n - 1]);
    }
}

/// The first `n` bytes differ in no bit exactly when they are the same bytes.
pub proof fn lemma_differing_bits_zero(a: Seq<u8>, b: Seq<u8>, n: nat)
    requires
        n <= a.len(),
        n <= b.len(),
    ensures
        differing_bits(a, b, n) == 0 <==> (forall|i: int| 0 <= i < n ==> a[i] == b[i]),
    decreases n,
{
    if n > 0 {
        lemma_differing_bits_zero(a, b, (n - 1) as nat);
        lemma_ones(a[n - 1] ^ b[n - 1]);
        lemma_xor(a[n - 1], b[n - 1]);
        if differing_bits(a, b, n) == 0 {
            assert forall|i: int| 0 <= i < n implies a[i] == b[i] by {
                if i < n - 1 {
                } else {
                    assert(a[n - 1] == b[n - 1]);
                }
            }
        }
    }
}

/// The distance is at most eight times the length of the shorter hash.
pub proof fn lemma_hamming_bound(a: Seq<u8>, b: Seq<u8>)
    ensures
        hamming(a, b) <= 8 * common_len(a, b),
{
    lemma_differing_bits_bound(a, b, common_len(a, b));
}

/// The distance is symmetric.
pub proof fn lemma_hamming_symmetric(a: Seq<u8>, b: Seq<u8>)
    ensures
        hamming(a, b) == hamming(b, a),
{
    lemma_differing_bits_symmetric(a, b, common_len(a, b));
}

/// Every hash is at distance zero from itself.
pub proof fn lemma_hamming_self(a: Seq<u8>)
    ensures
        hamming(a, a) == 0,
{
    lemma_differing_bits_zero(a, a, a.len());
}

/// Two hashes of the same length are at distance zero exactly when they are
/// bit-identical.
pub proof fn lemma_hamming_zero_iff_equal(a: Seq<u8>, b: Seq<u8>)
    requires
        a.len() == b.len(),
    ensures
        hamming(a, b) == 0 <==> a == b,
{
    lemma_differing_bits_zero(a, b, a.len());
    if hamming(a, b) == 0 {
        assert(a =~= b);
    }
}

/// Trusted: `img_hash::ImageHash::dist` on two hashes rebuilt from their bytes
/// with `ImageHash::from_bytes`. The crate XORs the two byte slices pairwise,
/// up to the end of the shorter one, and sums the 1-bits of each byte as a
/// `u32`; the bound on the lengths keeps that sum, and the bit count that
/// `from_bytes` forms, from overflowing.
#[verifier::external_body]
pub(crate) fn hash_dist(a: &Vec<u8>, b: &Vec<u8>) -> (d: u32)
    requires
        a@.len() <= MAX_HASH_BYTES,
        b@.len() <= MAX_HASH_BYTES,
    ensures
        d == hamming(a@, b@),
{
    let left: img_hash::ImageHash = img_hash::ImageHash::from_bytes(a).unwrap();
    let right: img_hash::ImageHash = img_hash::ImageHash::from_bytes(b).unwrap();
    left.dist(&right)
}

} // verus!
