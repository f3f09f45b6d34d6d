//! Packing of a 32-bit word into four bytes.
use crate::bits::{bits_value, lemma_bits_value_bound};
use vstd::arithmetic::power2::{lemma2_to64, lemma_pow2_strictly_increases, pow2};
use vstd::prelude::*;

verus! {

/// Byte `i` of a bit vector: the value of its bits `8i` to `8i + 7`, the
/// first of them most significant.
pub open spec fn byte_of(bits: Seq<bool>, i: int) -> nat {
    bits_value(bits.subrange(8 * i, 8 * i + 8))
}

/// The four bytes of a 32-bit word given bit 31 first: byte `i` holds the
/// bits `8i` to `8i + 7` of the array, the first of them as its bit 7.
pub fn convert_bit_array_to_byte_array(bit_array: [bool; 32]) -> (r: [u8; 4])
    ensures
        forall|i: int| 0 <= i < 4 ==> r[i] as nat == #[trigger] byte_of(bit_array@, i),
{
    let mut output: [u8; 4] = [0; 4];
    let ghost bits = bit_array@;
    let mut i: usize = 0;
    proof {
        lemma2_to64();
    }
    while i < 4
        invariant
            bits == bit_array@,
            bits.len() == 32,
            i <= 4,
            pow2(7) == 128,
            forall|j: int| 0 <= j < i ==> output[j] as nat == #[trigger] byte_of(bits, j),
        decreases 4 - i,
    {
        let mut acc: u8 = 0;
        let mut k: usize = 0;
        while k < 8
            invariant
                bits == bit_array@,
                bits.len() == 32,
                i < 4,
                k <= 8,
                pow2(7) == 128,
                acc as nat == bits_value(bits.subrange(8 * i, 8 * i + k)),
            decreases 8 - k,
        {
            let ghost before = bits.subrange(8 * i, 8 * i + k);
            proof {
                lemma_bits_value_bound(before);
                if k < 7 {
                    lemma_pow2_strictly_increases(k as nat, 7);
                }
            }
            let bit: u8 = if bit_array[8 * i + k] {
                1
            } else {
                0
            };
            acc = acc * 2 + bit;
            assert(bits.subrange(8 * i, 8 * i + k + 1).drop_last() =~= before);
            k += 1;
        }
        output[i] = acc;
        i += 1;
    }
    output
}

} // verus!
