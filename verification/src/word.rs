//! 256-bit unsigned integers for token identifiers and balances.

use crate::table::Key;
use vstd::prelude::*;

verus! {

/// Two to the power 128: the weight of the high half of a [`U256`].
pub open spec fn pow2_128() -> nat {
    0x1_0000_0000_0000_0000_0000_0000_0000_0000nat
}

/// Two to the power 64.
pub open spec fn pow2_64() -> nat {
    0x1_0000_0000_0000_0000
}

/// A 256-bit unsigned integer, held as its high and low 128 bits.
#[derive(Clone, Copy, Debug, PartialEq, Eq, Structural, Hash)]
pub struct U256 {
    pub hi: u128,
    pub lo: u128,
}

impl View for U256 {
    type V = nat;

    /// The number that the two halves stand for.
    open spec fn view(&self) -> nat {
        self.hi as nat * pow2_128() + self.lo as nat
    }
}

impl U256 {
    /// The largest value that a [`U256`] holds.
    pub open spec fn max_value() -> nat {
        (pow2_128() * pow2_128() - 1) as nat
    }

    /// The value that stands for the number `n`, taken modulo two to the
    /// power 256.
    pub open spec fn from_nat(n: nat) -> U256 {
        U256 { hi: ((n / pow2_128()) % pow2_128()) as u128, lo: (n % pow2_128()) as u128 }
    }

    /// The value made of the given halves.
    pub fn new(hi: u128, lo: u128) -> (w: U256)
        ensures
            w == (U256 { hi, lo }),
    {
        U256 { hi, lo }
    }

    /// Zero.
    pub fn zero() -> (w: U256)
        ensures
            w@ == 0,
            w == (U256 { hi: 0, lo: 0 }),
    {
        U256 { hi: 0, lo: 0 }
    }

    /// The value of a 64-bit number.
    pub fn from_u64(value: u64) -> (w: U256)
        ensures
            w@ == value as nat,
            w == (U256 { hi: 0, lo: value as u128 }),
    {
        U256 { hi: 0, lo: value as u128 }
    }

    /// Whether the value is zero.
    pub fn is_zero(&self) -> (b: bool)
        ensures
            b == (self@ == 0),
    {
        self.hi == 0 && self.lo == 0
    }

    /// The value plus one, or `None` at the largest value.
    pub fn checked_succ(&self) -> (r: Option<U256>)
        ensures
            match r {
                Some(w) => w@ == self@ + 1,
                None => self@ == U256::max_value(),
            },
    {
        if self.lo < u128::MAX {
            Some(U256 { hi: self.hi, lo: self.lo + 1 })
        } else if self.hi < u128::MAX {
            Some(U256 { hi: self.hi + 1, lo: 0 })
        } else {
            None
        }
    }

    /// The value minus one, or `None` at zero.
    pub fn checked_pred(&self) -> (r: Option<U256>)
        ensures
            match r {
                Some(w) => w@ + 1 == self@,
                None => self@ == 0,
            },
    {
        if self.lo > 0 {
            Some(U256 { hi: self.hi, lo: self.lo - 1 })
        } else if self.hi > 0 {
            Some(U256 { hi: self.hi - 1, lo: u128::MAX })
        } else {
            None
        }
    }

    /// The low 64 bits: the value reduced modulo two to the power 64.
    pub fn wrapping_to_u64(&self) -> (low: u64)
        ensures
            low as nat == self@ % pow2_64(),
    {
        let low: u64 = (self.lo & 0xffff_ffff_ffff_ffff) as u64;
        proof {
            let lo = self.lo;
            assert((lo & 0xffff_ffff_ffff_ffff) == lo % 0x1_0000_0000_0000_0000) by (bit_vector);
            lemma_low_bits(self.hi as nat, self.lo as nat);
        }
        low
    }
}

/// The decimal digit `d`, below ten, as an ASCII byte.
pub open spec fn digit_byte(d: nat) -> u8 {
    (48 + d) as u8
}

/// The decimal digits of `n` as ASCII bytes, most significant first and
/// without leading zeros; no digit at all for zero.
pub open spec fn digits(n: nat) -> Seq<u8>
    decreases n,
{
    if n == 0 {
        Seq::empty()
    } else {
        digits(n / 10).push(digit_byte(n % 10))
    }
}

/// The number `n` written in decimal, as ASCII bytes: `"0"` for zero.
pub open spec fn decimal(n: nat) -> Seq<u8> {
    if n == 0 {
        seq![digit_byte(0)]
    } else {
        digits(n)
    }
}

impl U256 {
    /// The quotient and the remainder of the division by ten.
    pub fn div_rem_10(&self) -> (result: (U256, u8))
        ensures
            result.0@ == self@ / 10,
            result.1 as nat == self@ % 10,
    {
        let high_quotient: u128 = self.hi / 10;
        let high_rest: u128 = self.hi % 10;
        let upper: u128 = self.lo / 0x1_0000_0000_0000_0000;
        let lower: u128 = self.lo % 0x1_0000_0000_0000_0000;
        let first: u128 = high_rest * 0x1_0000_0000_0000_0000 + upper;
        let first_quotient: u128 = first / 10;
        let first_rest: u128 = first % 10;
        let second: u128 = first_rest * 0x1_0000_0000_0000_0000 + lower;
        let second_quotient: u128 = second / 10;
        let second_rest: u128 = second % 10;
        let quotient = U256 {
            hi: high_quotient,
            lo: first_quotient * 0x1_0000_0000_0000_0000 + second_quotient,
        };
        proof {
            assert(self@ == 10 * quotient@ + second_rest);
            vstd::arithmetic::div_mod::lemma_fundamental_div_mod_converse(
                self@ as int,
                10,
                quotient@ as int,
                second_rest as int,
            );
        }
        (quotient, second_rest as u8)
    }

    /// The value written in decimal, as ASCII bytes.
    pub fn to_decimal(&self) -> (text: Vec<u8>)
        ensures
            text@ == decimal(self@),
    {
        if self.is_zero() {
            let mut text: Vec<u8> = Vec::new();
            text.push(48u8);
            assert(text@ =~= decimal(self@));
            return text;
        }
        let mut reversed: Vec<u8> = Vec::new();
        let mut rest = *self;
        while !rest.is_zero()
            invariant
                digits(self@) == digits(rest@) + reversed@.reverse(),
            decreases rest@,
        {
            let (quotient, last) = rest.div_rem_10();
            proof {
                let before = reversed@;
                assert(before.push(digit_byte(last as nat)).reverse() =~= seq![
                    digit_byte(last as nat),
                ] + before.reverse());
                assert(digits(rest@) == digits(quotient@).push(digit_byte(last as nat)));
                assert(digits(quotient@).push(digit_byte(last as nat)) + before.reverse()
                    =~= digits(quotient@) + (seq![digit_byte(last as nat)] + before.reverse()));
            }
            reversed.push(48u8 + last);
            rest = quotient;
        }
        assert(digits(self@) =~= reversed@.reverse());
        let mut text: Vec<u8> = Vec::new();
        let mut i: usize = reversed.len();
        while i > 0
            invariant
                i <= reversed@.len(),
                text@.len() == reversed@.len() - i,
                forall|j: int| 0 <= j < text@.len() ==> text@[j] == reversed@[reversed@.len() - 1 - j],
            decreases i,
        {
            i -= 1;
            text.push(reversed[i]);
        }
        assert(text@ =~= reversed@.reverse());
        text
    }
}

impl Key for U256 {
    fn same(&self, other: &Self) -> (b: bool) {
        self.hi == other.hi && self.lo == other.lo
    }
}

/// Distinct halves give distinct numbers, so equal numbers mean equal values.
pub proof fn lemma_view_injective(a: U256, b: U256)
    requires
        a@ == b@,
    ensures
        a == b,
{
    let p = pow2_128() as int;
    let (ah, al, bh, bl) = (a.hi as int, a.lo as int, b.hi as int, b.lo as int);
    assert(ah * p + al == bh * p + bl);
    if ah < bh {
        assert((bh - ah) * p >= p) by (nonlinear_arith)
            requires
                bh - ah >= 1,
                p > 0,
        ;
        assert((bh - ah) * p == bh * p - ah * p) by (nonlinear_arith);
    } else if bh < ah {
        assert((ah - bh) * p >= p) by (nonlinear_arith)
            requires
                ah - bh >= 1,
                p > 0,
        ;
        assert((ah - bh) * p == ah * p - bh * p) by (nonlinear_arith);
    }
}

/// A value is the one that stands for its number.
pub proof fn lemma_from_nat_of_view(a: U256)
    ensures
        U256::from_nat(a@) == a,
{
    lemma_from_nat_view(a@);
    lemma_view_bound(a);
    lemma_view_injective(U256::from_nat(a@), a);
}

/// A number that a [`U256`] can hold is the number of the value that stands
/// for it.
pub proof fn lemma_from_nat_view(n: nat)
    requires
        n <= U256::max_value(),
    ensures
        U256::from_nat(n)@ == n,
{
    let p = pow2_128() as int;
    let q = n as int / p;
    assert(n == p * q + n as int % p);
    assert(q < p) by (nonlinear_arith)
        requires
            n == p * q + n as int % p,
            n < p * p,
            0 <= n as int % p,
            p > 0,
    ;
    assert(q * p == p * q) by (nonlinear_arith);
}

/// Every value lies at or below [`U256::max_value`].
pub proof fn lemma_view_bound(a: U256)
    ensures
        a@ <= U256::max_value(),
{
    let p = pow2_128() as int;
    let ah = a.hi as int;
    assert(ah * p <= (p - 1) * p) by (nonlinear_arith)
        requires
            ah <= p - 1,
            p > 0,
    ;
    assert((p - 1) * p == p * p - p) by (nonlinear_arith);
}

proof fn lemma_low_bits(hi: nat, lo: nat)
    ensures
        (hi * pow2_128() + lo) % pow2_64() == lo % pow2_64(),
{
    let q = pow2_64() as int;
    assert(pow2_128() == pow2_64() * pow2_64()) by (nonlinear_arith);
    assert(hi * pow2_128() == (hi * q) * q) by (nonlinear_arith)
        requires
            pow2_128() == q * q,
    ;
    vstd::arithmetic::div_mod::lemma_mod_multiples_vanish((hi * q) as int, lo as int, q);
    assert((hi * q) * q + lo == q * (hi * q) + lo) by (nonlinear_arith);
}

} // verus!
