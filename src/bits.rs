//! Fixed-width bit vectors, most significant bit first, and their values.
use vstd::arithmetic::div_mod::lemma_div_denominator;
use vstd::arithmetic::power2::{lemma_pow2_pos, lemma_pow2_unfold, pow2};
use vstd::prelude::*;

verus! {

/// The unsigned value of a bit vector whose first element is its most
/// significant bit.
pub open spec fn bits_value(s: Seq<bool>) -> nat
    decreases s.len(),
{
    if s.len() == 0 {
        0
    } else {
        2 * bits_value(s.drop_last()) + if s.last() {
            1nat
        } else {
            0nat
        }
    }
}

/// The `width` lowest bits of `v`, most significant first.
pub open spec fn bits_of(v: nat, width: nat) -> Seq<bool>
    decreases width,
{
    if width == 0 {
        Seq::empty()
    } else {
        bits_of(v / 2, (width - 1) as nat).push(v % 2 == 1)
    }
}

/// The bits `hi` down to `lo` of a most-significant-first bit vector `v`,
/// where bit 0 is the last element of `v` (written `v[hi:lo]`).
pub open spec fn bit_range(v: Seq<bool>, hi: int, lo: int) -> Seq<bool> {
    v.subrange(v.len() - 1 - hi, v.len() - lo)
}

/// A value below `2^width` is read back from its `width` bits.
pub proof fn lemma_bits_of_value(v: nat, width: nat)
    requires
        v < pow2(width),
    ensures
        bits_of(v, width).len() == width,
        bits_value(bits_of(v, width)) == v,
    decreases width,
{
    if width == 0 {
        assert(pow2(0) == 1) by {
            vstd::arithmetic::power2::lemma2_to64();
        }
    } else {
        lemma_pow2_unfold(width);
        let w1 = (width - 1) as nat;
        lemma_bits_of_value(v / 2, w1);
        assert(bits_of(v, width).drop_last() =~= bits_of(v / 2, w1));
    }
}

/// Bit `width - 1 - j` of `v` is element `j` of its `width`-bit vector.
pub proof fn lemma_bits_of_index(v: nat, width: nat, j: int)
    requires
        0 <= j < width,
    ensures
        bits_of(v, width).len() == width,
        bits_of(v, width)[j] == ((v / pow2((width - 1 - j) as nat)) % 2 == 1),
    decreases width,
{
    let w1 = (width - 1) as nat;
    lemma_bits_of_len(v, width);
    if j == w1 {
        assert(pow2(0) == 1) by {
            vstd::arithmetic::power2::lemma2_to64();
        }
        assert(v / 1 == v);
        assert(bits_of(v, width)[j] == (v % 2 == 1));
    } else {
        let e = (w1 - 1 - j) as nat;
        lemma_bits_of_index(v / 2, w1, j);
        assert(bits_of(v, width)[j] == bits_of(v / 2, w1)[j]);
        lemma_pow2_pos(e);
        lemma_pow2_unfold(e + 1);
        lemma_div_denominator(v as int, 2, pow2(e) as int);
        assert(v / 2 / pow2(e) == v / pow2(e + 1));
        assert((width - 1 - j) as nat == e + 1);
    }
}

/// The vector of `width` bits has `width` elements.
pub proof fn lemma_bits_of_len(v: nat, width: nat)
    ensures
        bits_of(v, width).len() == width,
    decreases width,
{
    if width > 0 {
        lemma_bits_of_len(v / 2, (width - 1) as nat);
    }
}

/// A vector of `n` bits holds a value below `2^n`.
pub proof fn lemma_bits_value_bound(s: Seq<bool>)
    ensures
        bits_value(s) < pow2(s.len()),
    decreases s.len(),
{
    if s.len() == 0 {
        assert(pow2(0) == 1) by {
            vstd::arithmetic::power2::lemma2_to64();
        }
    } else {
        lemma_bits_value_bound(s.drop_last());
        lemma_pow2_unfold(s.len());
    }
}

} // verus!
