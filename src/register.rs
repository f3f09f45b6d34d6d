//! Registers: the 32 general-purpose integer registers as 5-bit fields.
use crate::bits::{bits_of, bits_value, lemma_bits_of_index, lemma_bits_of_value};
use vstd::arithmetic::div_mod::lemma_div_denominator;
use vstd::arithmetic::power2::{lemma2_to64, lemma_pow2_pos, lemma_pow2_unfold, pow2};
use vstd::prelude::*;

verus! {

/// The number of general-purpose registers.
pub const REGISTER_COUNT: u32 = 32;

/// A register index or name that does not denote one of the 32 registers.
#[derive(Debug, Clone, Copy, PartialEq, Eq, Structural)]
pub struct InvalidRegister;

/// A register operand: the register index as 5 bits, most significant first.
#[derive(Debug, Clone, Copy, PartialEq, Eq)]
pub struct Register(pub [bool; 5]);

/// Whether `c` is a decimal digit.
pub open spec fn is_digit(c: char) -> bool {
    '0' <= c && c <= '9'
}

/// The value of a string of decimal digits, most significant first.
pub open spec fn digits_value(s: Seq<char>) -> nat
    decreases s.len(),
{
    if s.len() == 0 {
        0
    } else {
        10 * digits_value(s.drop_last()) + (s.last() as nat - '0' as nat) as nat
    }
}

/// Whether `s` has the form `x` followed by one or more decimal digits.
pub open spec fn is_register_name(s: Seq<char>) -> bool {
    &&& s.len() >= 2
    &&& s[0] == 'x'
    &&& forall|k: int| 1 <= k < s.len() ==> is_digit(#[trigger] s[k])
}

/// The index that a name of the form `x<digits>` spells.
pub open spec fn name_index(s: Seq<char>) -> nat {
    digits_value(s.subrange(1, s.len() as int))
}

/// Whether `s` names one of the 32 registers.
pub open spec fn names_register(s: Seq<char>) -> bool {
    is_register_name(s) && name_index(s) < 32
}

impl Register {
    /// The register index that the 5 bits spell.
    pub open spec fn index(self) -> nat {
        bits_value(self.0@)
    }

    /// The register with index `i`, or `InvalidRegister` unless `0 <= i <= 31`.
    pub fn from_index(i: i64) -> (r: Result<Register, InvalidRegister>)
        ensures
            r is Ok <==> 0 <= i < 32,
            r matches Ok(reg) ==> reg.0@ == bits_of(i as nat, 5),
    {
        if i < 0 || i >= REGISTER_COUNT as i64 {
            return Err(InvalidRegister);
        }
        Ok(Register::of_index(i as u8))
    }

    /// The register named `name`, which must be `x` followed by the decimal
    /// index 0 to 31; any other name gives `InvalidRegister`.
    pub fn new(name: &str) -> (r: Result<Register, InvalidRegister>)
        ensures
            r is Ok <==> names_register(name@),
            r matches Ok(reg) ==> reg.0@ == bits_of(name_index(name@), 5),
    {
        let len = name.unicode_len();
        if len < 2 || name.get_char(0) != 'x' {
            return Err(InvalidRegister);
        }
        let ghost s = name@;
        // `value` is the index read so far, or 32 once it exceeds 31.
        let mut value: u32 = 0;
        let mut k: usize = 1;
        while k < len
            invariant
                len == s.len(),
                s == name@,
                1 <= k <= len,
                s[0] == 'x',
                forall|j: int| 1 <= j < k ==> is_digit(#[trigger] s[j]),
                digits_value(s.subrange(1, k as int)) < 32 ==> value as nat == digits_value(
                    s.subrange(1, k as int),
                ),
                digits_value(s.subrange(1, k as int)) >= 32 ==> value == 32,
            decreases len - k,
        {
            let c = name.get_char(k);
            if c < '0' || c > '9' {
                assert(!is_register_name(s)) by {
                    assert(!is_digit(s[k as int]));
                }
                return Err(InvalidRegister);
            }
            let d = (c as u32) - ('0' as u32);
            assert(s.subrange(1, k + 1).drop_last() =~= s.subrange(1, k as int));
            if value < REGISTER_COUNT {
                value = value * 10 + d;
                if value > REGISTER_COUNT {
                    value = REGISTER_COUNT;
                }
            }
            k += 1;
        }
        assert(s.subrange(1, s.len() as int) == s.subrange(1, k as int));
        if value >= REGISTER_COUNT {
            return Err(InvalidRegister);
        }
        Ok(Register::of_index(value as u8))
    }

    /// The register with index `x`: its bits are produced from the least
    /// significant end.
    fn of_index(x: u8) -> (r: Register)
        requires
            x < 32,
        ensures
            r.0@ == bits_of(x as nat, 5),
    {
        let mut out = [false; 5];
        let mut rest: u8 = x;
        let mut k: usize = 5;
        proof {
            lemma2_to64();
            crate::bits::lemma_bits_of_len(x as nat, 5);
            assert(x as nat / pow2(0) == x);
        }
        while k > 0
            invariant
                k <= 5,
                bits_of(x as nat, 5).len() == 5,
                rest as nat == x as nat / pow2((5 - k) as nat),
                forall|j: int| k <= j < 5 ==> out[j] == #[trigger] bits_of(x as nat, 5)[j],
            decreases k,
        {
            k -= 1;
            proof {
                lemma_bits_of_index(x as nat, 5, k as int);
                let e = (4 - k) as nat;
                lemma_pow2_pos(e);
                lemma_pow2_unfold(e + 1);
                lemma_div_denominator(x as int, pow2(e) as int, 2);
            }
            out[k] = rest % 2 == 1;
            rest = rest / 2;
        }
        assert(out@ =~= bits_of(x as nat, 5));
        Register(out)
    }
}

/// Reading the 5 bits of the register with index `i` as an unsigned number
/// gives `i` back.
pub proof fn lemma_register_round_trip(i: nat, reg: Register)
    requires
        i < 32,
        reg.0@ == bits_of(i, 5),
    ensures
        reg.index() == i,
{
    assert(pow2(5) == 32) by {
        lemma2_to64();
    }
    lemma_bits_of_value(i, 5);
}

} // verus!
