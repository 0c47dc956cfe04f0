//! Unsigned 256-bit machine words, held as four 64-bit limbs.

use ethers_core::types::U256;
use vstd::arithmetic::power2::{lemma2_to64, lemma_pow2, lemma_pow2_adds, pow2};
use vstd::arithmetic::power::pow;
use vstd::prelude::*;

verus! {

/// Two to the power 256: one more than the largest `Word`.
pub open spec fn word_limit() -> nat {
    0x1_0000_0000_0000_0000_0000_0000_0000_0000_0000_0000_0000_0000_0000_0000_0000_0000nat
}

/// The number that four little-endian limbs stand for.
pub open spec fn limbs_value(l0: u64, l1: u64, l2: u64, l3: u64) -> nat {
    (l0 as nat) + (l1 as nat) * 0x1_0000_0000_0000_0000nat + (l2 as nat)
        * 0x1_0000_0000_0000_0000_0000_0000_0000_0000nat + (l3 as nat)
        * 0x1_0000_0000_0000_0000_0000_0000_0000_0000_0000_0000_0000_0000nat
}

/// Whether every character is a decimal digit.
pub open spec fn is_decimal(text: Seq<char>) -> bool {
    forall|i: int| 0 <= i < text.len() ==> '0' <= #[trigger] text[i] <= '9'
}

/// The number that a string of decimal digits stands for; the empty string stands for zero.
pub open spec fn decimal_value(text: Seq<char>) -> nat
    decreases text.len(),
{
    if text.len() == 0 {
        0
    } else {
        decimal_value(text.drop_last()) * 10 + ((text.last() as u32 - '0' as u32) as nat)
    }
}

/// The character of one decimal digit.
pub open spec fn digit_char(d: nat) -> char {
    if d == 0 {
        '0'
    } else if d == 1 {
        '1'
    } else if d == 2 {
        '2'
    } else if d == 3 {
        '3'
    } else if d == 4 {
        '4'
    } else if d == 5 {
        '5'
    } else if d == 6 {
        '6'
    } else if d == 7 {
        '7'
    } else if d == 8 {
        '8'
    } else {
        '9'
    }
}

/// The decimal rendering of a number, without leading zeros.
pub open spec fn decimal_digits(n: nat) -> Seq<char>
    decreases n,
{
    if n < 10 {
        seq![digit_char(n)]
    } else {
        decimal_digits(n / 10).push(digit_char(n % 10))
    }
}

/// An unsigned 256-bit integer. `limbs[0]` is the least significant limb.
#[derive(Debug, Clone, Copy, PartialEq, Eq)]
pub struct Word {
    pub limbs: [u64; 4],
}

impl View for Word {
    type V = nat;

    open spec fn view(&self) -> nat {
        limbs_value(self.limbs[0], self.limbs[1], self.limbs[2], self.limbs[3])
    }
}

/// Calls `U256::from_dec_str`. The call succeeds exactly when every character is a
/// decimal digit and the number fits 256 bits, and then yields that number.
#[verifier::external_body]
fn dec_str_to_word(text: &str) -> (r: Option<Word>)
    ensures
        r.is_some() <==> (is_decimal(text@) && decimal_value(text@) < word_limit()),
        r.is_some() ==> r.unwrap()@ == decimal_value(text@),
{
    match U256::from_dec_str(text) {
        Ok(v) => Some(Word { limbs: v.0 }),
        Err(_) => None,
    }
}

/// Calls `U256::checked_pow`. The call yields the power exactly when it fits 256 bits.
#[verifier::external_body]
fn word_checked_pow(base: Word, exponent: Word) -> (r: Option<Word>)
    ensures
        r.is_some() <==> pow(base@ as int, exponent@) < word_limit(),
        r.is_some() ==> r.unwrap()@ == pow(base@ as int, exponent@),
{
    match U256(base.limbs).checked_pow(U256(exponent.limbs)) {
        Some(v) => Some(Word { limbs: v.0 }),
        None => None,
    }
}

/// Calls `U256::overflowing_add`: the sum modulo two to the 256, and whether it wrapped.
#[verifier::external_body]
fn word_overflowing_add(a: Word, b: Word) -> (r: (Word, bool))
    ensures
        r.1 == (a@ + b@ >= word_limit()),
        r.0@ == (a@ + b@) % word_limit(),
{
    let (v, wrapped) = U256(a.limbs).overflowing_add(U256(b.limbs));
    (Word { limbs: v.0 }, wrapped)
}

/// Calls `U256::overflowing_sub`: the difference modulo two to the 256, and whether it wrapped.
#[verifier::external_body]
fn word_overflowing_sub(a: Word, b: Word) -> (r: (Word, bool))
    ensures
        r.1 == (a@ < b@),
        r.0@ == (a@ - b@) % (word_limit() as int),
{
    let (v, wrapped) = U256(a.limbs).overflowing_sub(U256(b.limbs));
    (Word { limbs: v.0 }, wrapped)
}

/// Calls `U256::overflowing_mul`: the product modulo two to the 256, and whether it wrapped.
#[verifier::external_body]
fn word_overflowing_mul(a: Word, b: Word) -> (r: (Word, bool))
    ensures
        r.1 == (a@ * b@ >= word_limit()),
        r.0@ == (a@ * b@) % word_limit(),
{
    let (v, wrapped) = U256(a.limbs).overflowing_mul(U256(b.limbs));
    (Word { limbs: v.0 }, wrapped)
}

/// Calls `U256::checked_div`: the quotient rounded down, or nothing for a zero divisor.
#[verifier::external_body]
fn word_checked_div(a: Word, b: Word) -> (r: Option<Word>)
    ensures
        r.is_some() <==> b@ != 0,
        r.is_some() ==> r.unwrap()@ == a@ / b@,
{
    match U256(a.limbs).checked_div(U256(b.limbs)) {
        Some(v) => Some(Word { limbs: v.0 }),
        None => None,
    }
}

/// Calls `U256::checked_rem`: the remainder, or nothing for a zero divisor.
#[verifier::external_body]
fn word_checked_rem(a: Word, b: Word) -> (r: Option<Word>)
    ensures
        r.is_some() <==> b@ != 0,
        r.is_some() ==> r.unwrap()@ == a@ % b@,
{
    match U256(a.limbs).checked_rem(U256(b.limbs)) {
        Some(v) => Some(Word { limbs: v.0 }),
        None => None,
    }
}

/// Formats a `U256` with its `Display` impl: decimal digits without leading zeros.
#[verifier::external_body]
fn word_to_decimal(w: Word) -> (s: String)
    ensures
        s@ == decimal_digits(w@),
{
    U256(w.limbs).to_string()
}

/// The powers of two at the limb boundaries, as numbers.
pub proof fn lemma_limb_powers()
    ensures
        pow2(64) == 0x1_0000_0000_0000_0000nat,
        pow2(128) == 0x1_0000_0000_0000_0000_0000_0000_0000_0000nat,
        pow2(192) == 0x1_0000_0000_0000_0000_0000_0000_0000_0000_0000_0000_0000_0000nat,
        pow2(256) == word_limit(),
{
    lemma2_to64();
    lemma_pow2_adds(64, 64);
    lemma_pow2_adds(128, 64);
    lemma_pow2_adds(192, 64);
    assert(pow2(128) == 0x1_0000_0000_0000_0000_0000_0000_0000_0000nat) by (nonlinear_arith)
        requires
            pow2(128) == pow2(64) * pow2(64),
            pow2(64) == 0x1_0000_0000_0000_0000nat,
    ;
    assert(pow2(192) == 0x1_0000_0000_0000_0000_0000_0000_0000_0000_0000_0000_0000_0000nat)
        by (nonlinear_arith)
        requires
            pow2(192) == pow2(128) * pow2(64),
            pow2(64) == 0x1_0000_0000_0000_0000nat,
            pow2(128) == 0x1_0000_0000_0000_0000_0000_0000_0000_0000nat,
    ;
    assert(pow2(256) == word_limit()) by (nonlinear_arith)
        requires
            pow2(256) == pow2(192) * pow2(64),
            pow2(64) == 0x1_0000_0000_0000_0000nat,
            pow2(192) == 0x1_0000_0000_0000_0000_0000_0000_0000_0000_0000_0000_0000_0000nat,
    ;
}

/// Limbs that stand for the same number are the same limbs.
pub proof fn lemma_limbs_injective(
    a0: u64,
    a1: u64,
    a2: u64,
    a3: u64,
    b0: u64,
    b1: u64,
    b2: u64,
    b3: u64,
)
    requires
        limbs_value(a0, a1, a2, a3) == limbs_value(b0, b1, b2, b3),
    ensures
        a0 == b0,
        a1 == b1,
        a2 == b2,
        a3 == b3,
{
    let base: int = 0x1_0000_0000_0000_0000;
    let la: int = a0 + a1 * base;
    let lb: int = b0 + b1 * base;
    let ha: int = a2 + a3 * base;
    let hb: int = b2 + b3 * base;
    assert(0 <= la < base * base && 0 <= lb < base * base) by (nonlinear_arith)
        requires
            base == 0x1_0000_0000_0000_0000,
            la == a0 + a1 * base,
            lb == b0 + b1 * base,
            0 <= a0 < base,
            0 <= a1 < base,
            0 <= b0 < base,
            0 <= b1 < base,
    ;
    assert(base * base == 0x1_0000_0000_0000_0000_0000_0000_0000_0000) by (nonlinear_arith)
        requires
            base == 0x1_0000_0000_0000_0000,
    ;
    assert(limbs_value(a0, a1, a2, a3) == la + ha * (base * base)) by (nonlinear_arith)
        requires
            base == 0x1_0000_0000_0000_0000,
            la == a0 + a1 * base,
            ha == a2 + a3 * base,
            limbs_value(a0, a1, a2, a3) == a0 + a1 * 0x1_0000_0000_0000_0000 + a2
                * 0x1_0000_0000_0000_0000_0000_0000_0000_0000 + a3
                * 0x1_0000_0000_0000_0000_0000_0000_0000_0000_0000_0000_0000_0000,
    ;
    assert(limbs_value(b0, b1, b2, b3) == lb + hb * (base * base)) by (nonlinear_arith)
        requires
            base == 0x1_0000_0000_0000_0000,
            lb == b0 + b1 * base,
            hb == b2 + b3 * base,
            limbs_value(b0, b1, b2, b3) == b0 + b1 * 0x1_0000_0000_0000_0000 + b2
                * 0x1_0000_0000_0000_0000_0000_0000_0000_0000 + b3
                * 0x1_0000_0000_0000_0000_0000_0000_0000_0000_0000_0000_0000_0000,
    ;
    lemma_pair_injective(la, ha, lb, hb, base * base);
    lemma_pair_injective(a0 as int, a1 as int, b0 as int, b1 as int, base);
    lemma_pair_injective(a2 as int, a3 as int, b2 as int, b3 as int, base);
}

/// A number below `m` plus a multiple of `m` determines both parts.
proof fn lemma_pair_injective(x: int, p: int, y: int, q: int, m: int)
    requires
        0 <= x < m,
        0 <= y < m,
        x + p * m == y + q * m,
    ensures
        x == y,
        p == q,
{
    assert(p == q) by (nonlinear_arith)
        requires
            0 <= x < m,
            0 <= y < m,
            x + p * m == y + q * m,
    {
        if p < q {
            assert((q - p) * m >= m);
        } else if p > q {
            assert((p - q) * m >= m);
        }
    }
}

/// The word that stands for a number below two to the 256.
pub open spec fn word_of(v: nat) -> Word {
    choose|w: Word| w@ == v
}

/// Every word is the word of its number.
pub proof fn lemma_word_of(w: Word)
    ensures
        word_of(w@) == w,
{
    let chosen = word_of(w@);
    assert(chosen@ == w@);
    chosen.lemma_value_injective(w);
}

/// Every number below two to the 256 is the number of a word.
pub proof fn lemma_word_exists(v: nat)
    requires
        v < word_limit(),
    ensures
        word_of(v)@ == v,
{
    let base: nat = 0x1_0000_0000_0000_0000;
    let l0 = (v % base) as u64;
    let r1 = v / base;
    let l1 = (r1 % base) as u64;
    let r2 = r1 / base;
    let l2 = (r2 % base) as u64;
    let r3 = r2 / base;
    assert(r3 < base) by (nonlinear_arith)
        requires
            v < word_limit(),
            base == 0x1_0000_0000_0000_0000nat,
            r1 == v / base,
            r2 == r1 / base,
            r3 == r2 / base,
    ;
    let l3 = r3 as u64;
    let w = Word { limbs: [l0, l1, l2, l3] };
    assert(w@ == v) by (nonlinear_arith)
        requires
            base == 0x1_0000_0000_0000_0000nat,
            l0 == v % base,
            r1 == v / base,
            l1 == r1 % base,
            r2 == r1 / base,
            l2 == r2 % base,
            r3 == r2 / base,
            l3 == r3,
            w@ == l0 + l1 * 0x1_0000_0000_0000_0000nat + l2
                * 0x1_0000_0000_0000_0000_0000_0000_0000_0000nat + l3
                * 0x1_0000_0000_0000_0000_0000_0000_0000_0000_0000_0000_0000_0000nat,
    ;
}

impl Word {
    /// Two words with the same value are the same word.
    pub proof fn lemma_value_injective(self, other: Word)
        requires
            self@ == other@,
        ensures
            self == other,
    {
        lemma_limbs_injective(
            self.limbs[0],
            self.limbs[1],
            self.limbs[2],
            self.limbs[3],
            other.limbs[0],
            other.limbs[1],
            other.limbs[2],
            other.limbs[3],
        );
        assert(self.limbs =~= other.limbs);
    }

    /// The word of a 64-bit number.
    pub fn from_u64(v: u64) -> (w: Word)
        ensures
            w@ == v,
    {
        Word { limbs: [v, 0, 0, 0] }
    }

    /// The word 0.
    pub fn zero() -> (w: Word)
        ensures
            w@ == 0,
    {
        Word { limbs: [0, 0, 0, 0] }
    }

    /// The word 1.
    pub fn one() -> (w: Word)
        ensures
            w@ == 1,
    {
        Word { limbs: [1, 0, 0, 0] }
    }

    /// The largest word, two to the 256 less one.
    pub fn max() -> (w: Word)
        ensures
            w@ == word_limit() - 1,
    {
        Word {
            limbs: [
                0xffff_ffff_ffff_ffff,
                0xffff_ffff_ffff_ffff,
                0xffff_ffff_ffff_ffff,
                0xffff_ffff_ffff_ffff,
            ],
        }
    }

    /// Whether the word is 0.
    pub fn is_zero(&self) -> (b: bool)
        ensures
            b == (self@ == 0),
    {
        self.limbs[0] == 0 && self.limbs[1] == 0 && self.limbs[2] == 0 && self.limbs[3] == 0
    }

    /// Whether the two words are the same number.
    pub fn same(&self, other: &Word) -> (b: bool)
        ensures
            b == (self@ == other@),
            b == (*self == *other),
    {
        let b = self.limbs[0] == other.limbs[0] && self.limbs[1] == other.limbs[1]
            && self.limbs[2] == other.limbs[2] && self.limbs[3] == other.limbs[3];
        proof {
            if self@ == other@ {
                self.lemma_value_injective(*other);
            }
            if b {
                assert(self.limbs =~= other.limbs);
            }
        }
        b
    }

    /// Whether `self` is the smaller number.
    pub fn lt(&self, other: &Word) -> (b: bool)
        ensures
            b == (self@ < other@),
    {
        if self.limbs[3] != other.limbs[3] {
            self.limbs[3] < other.limbs[3]
        } else if self.limbs[2] != other.limbs[2] {
            self.limbs[2] < other.limbs[2]
        } else if self.limbs[1] != other.limbs[1] {
            self.limbs[1] < other.limbs[1]
        } else {
            self.limbs[0] < other.limbs[0]
        }
    }

    /// Whether `self` is not the larger number.
    pub fn le(&self, other: &Word) -> (b: bool)
        ensures
            b == (self@ <= other@),
    {
        !other.lt(self)
    }

    /// Reads a word from decimal digits. Text with any other character, or a number that
    /// does not fit 256 bits, gives nothing; the empty text gives zero.
    pub fn from_dec_str(text: &str) -> (r: Option<Word>)
        ensures
            r.is_some() <==> (is_decimal(text@) && decimal_value(text@) < word_limit()),
            r.is_some() ==> r.unwrap()@ == decimal_value(text@),
    {
        dec_str_to_word(text)
    }

    /// `self` to the power `exponent`, where that fits 256 bits.
    pub fn checked_pow(self, exponent: Word) -> (r: Option<Word>)
        ensures
            r.is_some() <==> pow(self@ as int, exponent@) < word_limit(),
            r.is_some() ==> r.unwrap()@ == pow(self@ as int, exponent@),
    {
        word_checked_pow(self, exponent)
    }

    /// The sum, where it fits 256 bits.
    pub fn checked_add(self, other: Word) -> (r: Option<Word>)
        ensures
            r.is_some() <==> self@ + other@ < word_limit(),
            r.is_some() ==> r.unwrap()@ == self@ + other@,
    {
        let (sum, wrapped) = word_overflowing_add(self, other);
        if wrapped {
            None
        } else {
            assert((self@ + other@) % word_limit() == self@ + other@);
            Some(sum)
        }
    }

    /// The difference, where it is not negative.
    pub fn checked_sub(self, other: Word) -> (r: Option<Word>)
        ensures
            r.is_some() <==> self@ >= other@,
            r.is_some() ==> r.unwrap()@ == self@ - other@,
    {
        let (diff, wrapped) = word_overflowing_sub(self, other);
        if wrapped {
            None
        } else {
            assert((self@ - other@) % (word_limit() as int) == self@ - other@);
            Some(diff)
        }
    }

    /// The product, where it fits 256 bits.
    pub fn checked_mul(self, other: Word) -> (r: Option<Word>)
        ensures
            r.is_some() <==> self@ * other@ < word_limit(),
            r.is_some() ==> r.unwrap()@ == self@ * other@,
    {
        let (product, wrapped) = word_overflowing_mul(self, other);
        if wrapped {
            None
        } else {
            assert((self@ * other@) % word_limit() == self@ * other@) by {
                vstd::arithmetic::div_mod::lemma_small_mod(self@ * other@, word_limit());
            }
            Some(product)
        }
    }

    /// The quotient rounded down, where the divisor is not zero.
    pub fn checked_div(self, other: Word) -> (r: Option<Word>)
        ensures
            r.is_some() <==> other@ != 0,
            r.is_some() ==> r.unwrap()@ == self@ / other@,
    {
        word_checked_div(self, other)
    }

    /// The remainder, where the divisor is not zero.
    pub fn checked_rem(self, other: Word) -> (r: Option<Word>)
        ensures
            r.is_some() <==> other@ != 0,
            r.is_some() ==> r.unwrap()@ == self@ % other@,
    {
        word_checked_rem(self, other)
    }

    /// Two to the power `bits`.
    pub fn power_of_two(bits: u16) -> (w: Word)
        requires
            bits < 256,
        ensures
            w@ == pow2(bits as nat),
    {
        proof {
            lemma_limb_powers();
            lemma_pow2(bits as nat);
            lemma_pow2(256);
            vstd::arithmetic::power::lemma_pow_strictly_increases(2, bits as nat, 256);
        }
        let r = word_checked_pow(Word::from_u64(2), Word::from_u64(bits as u64));
        r.unwrap()
    }

    /// The largest number of `bits` bits: two to the power `bits`, less one.
    pub fn max_of_bits(bits: u16) -> (w: Word)
        requires
            bits <= 256,
        ensures
            w@ == pow2(bits as nat) - 1,
    {
        if bits == 256 {
            proof {
                lemma_limb_powers();
            }
            Word::max()
        } else {
            let p = Word::power_of_two(bits);
            proof {
                vstd::arithmetic::power2::lemma_pow2_pos(bits as nat);
            }
            p.checked_sub(Word::one()).unwrap()
        }
    }

    /// The decimal digits of the word, without leading zeros.
    pub fn to_decimal(&self) -> (s: String)
        ensures
            s@ == decimal_digits(self@),
    {
        word_to_decimal(*self)
    }
}

} // verus!
