//! Generation of fresh sync identifiers: sixteen lowercase hexadecimal
//! digits drawn from a random 64-bit value.

use vstd::prelude::*;

verus! {

/// Relies on rand::random: draws one random 64-bit value from the
/// thread-local generator through the `Standard` distribution. The
/// value is random, so nothing is promised of it.
#[verifier::external_body]
fn random_u64() -> u64 {
    rand::random::<u64>()
}

/// An ASCII lowercase hexadecimal digit.
pub open spec fn is_hex_digit(b: u8) -> bool {
    (48 <= b <= 57) || (97 <= b <= 102)
}

/// The digit for one value below sixteen: `0`..`9` then `a`..`f`.
pub open spec fn hex_digit(d: u8) -> u8
    recommends
        d < 16,
{
    if d < 10 {
        (48 + d) as u8
    } else {
        (87 + d) as u8
    }
}

/// The nibble of `n` that the digit at position `i` shows, most
/// significant first.
pub open spec fn nibble(n: u64, i: int) -> u8
    recommends
        0 <= i < 16,
{
    ((n >> (((15 - i) * 4) as u64)) & 0xf) as u8
}

/// Sixteen hexadecimal digits spelling `n`, most significant first.
pub open spec fn spec_hex16(n: u64) -> Seq<u8> {
    Seq::new(16, |i: int| hex_digit(nibble(n, i)))
}

/// Spells `n` as sixteen lowercase hexadecimal digits.
pub fn hex16(n: u64) -> (r: Vec<u8>)
    ensures
        r@ == spec_hex16(n),
        r@.len() == 16,
        forall|i: int| 0 <= i < r@.len() ==> is_hex_digit(#[trigger] r@[i]),
{
    let mut r: Vec<u8> = Vec::new();
    let mut k: usize = 0;
    while k < 16
        invariant
            k <= 16,
            r@.len() == k,
            forall|i: int| 0 <= i < k ==> r@[i] == spec_hex16(n)[i],
        decreases 16 - k,
    {
        let sh: u64 = ((15 - k) * 4) as u64;
        let d: u8 = ((n >> sh) & 0xf) as u8;
        proof {
            assert((n >> sh) & 0xf < 16) by (bit_vector);
        }
        let c: u8 = if d < 10 {
            48 + d
        } else {
            87 + d
        };
        proof {
            assert(sh == ((15 - k as int) * 4) as u64);
            assert(d == nibble(n, k as int));
            assert(c == hex_digit(d));
        }
        r.push(c);
        k = k + 1;
    }
    proof {
        assert(r@ =~= spec_hex16(n));
        lemma_spec_hex16_digits(n);
    }
    r
}

/// Every digit `spec_hex16` produces is a hexadecimal digit.
pub proof fn lemma_spec_hex16_digits(n: u64)
    ensures
        forall|i: int| 0 <= i < 16 ==> is_hex_digit(#[trigger] spec_hex16(n)[i]),
{
    assert forall|i: int| 0 <= i < 16 implies is_hex_digit(#[trigger] spec_hex16(n)[i]) by {
        let s = (((15 - i) * 4) as u64);
        assert((n >> s) & 0xf < 16) by (bit_vector);
        assert(nibble(n, i) < 16);
    }
}

/// A fresh identifier: sixteen lowercase hexadecimal digits of a random
/// 64-bit value.
pub fn random_guid() -> (r: Vec<u8>)
    ensures
        r@.len() == 16,
        forall|i: int| 0 <= i < r@.len() ==> is_hex_digit(#[trigger] r@[i]),
{
    let n: u64 = random_u64();
    hex16(n)
}

} // verus!
