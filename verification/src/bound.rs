//! Signed numbers as a sign and a 256-bit magnitude, and exact arithmetic on them.

use crate::word::{word_limit, Word};
use vstd::prelude::*;

verus! {

/// A number between minus and plus two to the 256, both excluded. Zero is written
/// without a sign by everything that makes a bound here.
#[derive(Debug, Clone, Copy, PartialEq, Eq)]
pub struct Bound {
    pub negative: bool,
    pub magnitude: Word,
}

impl View for Bound {
    type V = int;

    open spec fn view(&self) -> int {
        if self.negative {
            -(self.magnitude@ as int)
        } else {
            self.magnitude@ as int
        }
    }
}

/// The five arithmetic operators.
#[derive(Debug, Clone, Copy, PartialEq, Eq, Structural)]
pub enum ArithOp {
    Add,
    Sub,
    Mul,
    Div,
    Rem,
}

/// What an operation on two bounds comes to.
#[derive(Debug, Clone, Copy, PartialEq, Eq)]
pub enum Wide {
    /// The result, which a bound can hold.
    Exact(Bound),
    /// The result is two to the 256 or more.
    Above,
    /// The result is minus two to the 256 or less.
    Below,
    /// Division or remainder by zero.
    Undefined,
}

/// The absolute value.
pub open spec fn abs(x: int) -> nat {
    if x < 0 {
        (-x) as nat
    } else {
        x as nat
    }
}

/// Division that rounds toward zero. The divisor is not zero.
pub open spec fn trunc_div(x: int, y: int) -> int {
    if (x < 0) != (y < 0) {
        -((abs(x) / abs(y)) as int)
    } else {
        (abs(x) / abs(y)) as int
    }
}

/// The remainder of the division that rounds toward zero; it has the sign of the dividend.
pub open spec fn trunc_rem(x: int, y: int) -> int {
    if x < 0 {
        -((abs(x) % abs(y)) as int)
    } else {
        (abs(x) % abs(y)) as int
    }
}

/// The mathematical result of an operation, or nothing where the divisor is zero.
pub open spec fn arith(op: ArithOp, x: int, y: int) -> Option<int> {
    match op {
        ArithOp::Add => Some(x + y),
        ArithOp::Sub => Some(x - y),
        ArithOp::Mul => Some(x * y),
        ArithOp::Div => if y == 0 {
            None
        } else {
            Some(trunc_div(x, y))
        },
        ArithOp::Rem => if y == 0 {
            None
        } else {
            Some(trunc_rem(x, y))
        },
    }
}

/// Whether the result, where it is a bound, writes zero without a sign.
pub open spec fn wide_canonical(w: Wide) -> bool {
    match w {
        Wide::Exact(b) => b.canonical(),
        _ => true,
    }
}

/// How a `Wide` stands for a mathematical result: exactly where a bound can hold it,
/// else by the side on which it lies.
pub open spec fn wide_is(w: Wide, result: Option<int>) -> bool {
    match result {
        None => w == Wide::Undefined,
        Some(v) => if v >= word_limit() {
            w == Wide::Above
        } else if v <= -(word_limit() as int) {
            w == Wide::Below
        } else {
            match w {
                Wide::Exact(b) => b@ == v,
                _ => false,
            }
        },
    }
}

/// `x` moved into the closed interval from `lo` to `hi`.
pub open spec fn clamp(x: int, lo: int, hi: int) -> int {
    if x < lo {
        lo
    } else if x > hi {
        hi
    } else {
        x
    }
}

/// One less, unless that leaves the numbers a bound can hold.
pub open spec fn step_down(x: int) -> int {
    if x - 1 <= -(word_limit() as int) {
        x
    } else {
        x - 1
    }
}

/// One more, unless that leaves the numbers a bound can hold.
pub open spec fn step_up(x: int) -> int {
    if x + 1 >= word_limit() {
        x
    } else {
        x + 1
    }
}

impl Bound {
    /// Whether zero is written without a sign.
    #[verifier::opaque]
    pub open spec fn canonical(&self) -> bool {
        self.negative ==> self.magnitude@ != 0
    }

    /// Two bounds that write zero without a sign and stand for the same number are the
    /// same bound.
    pub proof fn lemma_canonical_equal(self, other: Bound)
        requires
            self.canonical(),
            other.canonical(),
            self@ == other@,
        ensures
            self == other,
    {
        reveal(Bound::canonical);
        self.magnitude.lemma_value_injective(other.magnitude);
    }

    /// The number of the given sign and magnitude; zero has no sign.
    pub fn signed(negative: bool, magnitude: Word) -> (b: Bound)
        ensures
            b.magnitude == magnitude,
            b.negative == (negative && magnitude@ != 0),
            b.canonical(),
            b@ == (Bound { negative, magnitude })@,
    {
        reveal(Bound::canonical);
        Bound { negative: negative && !magnitude.is_zero(), magnitude }
    }

    /// The number that a word stands for.
    pub fn from_word(magnitude: Word) -> (b: Bound)
        ensures
            b@ == magnitude@,
            b == (Bound { negative: false, magnitude }),
    {
        Bound { negative: false, magnitude }
    }

    /// The number `v`.
    pub fn from_u64(v: u64) -> (b: Bound)
        ensures
            b@ == v,
            b.canonical(),
    {
        reveal(Bound::canonical);
        Bound { negative: false, magnitude: Word::from_u64(v) }
    }

    /// The number 0.
    pub fn zero() -> (b: Bound)
        ensures
            b@ == 0,
            b.canonical(),
    {
        Bound::from_u64(0)
    }

    /// The number 1.
    pub fn one() -> (b: Bound)
        ensures
            b@ == 1,
            b.canonical(),
    {
        Bound::from_u64(1)
    }

    /// The number with the opposite sign.
    pub fn negated(self) -> (b: Bound)
        ensures
            b@ == -self@,
            b.canonical(),
    {
        Bound::signed(!self.negative, self.magnitude)
    }

    /// Whether the number is below zero.
    pub fn is_negative(&self) -> (b: bool)
        ensures
            b == (self@ < 0),
    {
        self.negative && !self.magnitude.is_zero()
    }

    /// Whether `self` is the smaller number.
    pub fn lt(&self, other: &Bound) -> (b: bool)
        ensures
            b == (self@ < other@),
    {
        if self.negative {
            if other.negative {
                other.magnitude.lt(&self.magnitude)
            } else {
                !(self.magnitude.is_zero() && other.magnitude.is_zero())
            }
        } else {
            if other.negative {
                false
            } else {
                self.magnitude.lt(&other.magnitude)
            }
        }
    }

    /// Whether `self` is not the larger number.
    pub fn le(&self, other: &Bound) -> (b: bool)
        ensures
            b == (self@ <= other@),
    {
        !other.lt(self)
    }

    /// Whether the two are the same number.
    pub fn same(&self, other: &Bound) -> (b: bool)
        ensures
            b == (self@ == other@),
    {
        !self.lt(other) && !other.lt(self)
    }

    /// The smaller of two numbers.
    pub fn min_of(a: Bound, b: Bound) -> (m: Bound)
        ensures
            m@ == if a@ <= b@ { a@ } else { b@ },
            a.canonical() && b.canonical() ==> m.canonical(),
    {
        if a.le(&b) {
            a
        } else {
            b
        }
    }

    /// The larger of two numbers.
    pub fn max_of(a: Bound, b: Bound) -> (m: Bound)
        ensures
            m@ == if a@ >= b@ { a@ } else { b@ },
            a.canonical() && b.canonical() ==> m.canonical(),
    {
        if b.le(&a) {
            a
        } else {
            b
        }
    }

    /// The sum of the two numbers.
    pub fn plus(self, other: Bound) -> (w: Wide)
        ensures
            wide_is(w, Some(self@ + other@)),
            wide_canonical(w),
    {
        if self.negative == other.negative {
            match self.magnitude.checked_add(other.magnitude) {
                Some(m) => Wide::Exact(Bound::signed(self.negative, m)),
                None => if self.negative {
                    Wide::Below
                } else {
                    Wide::Above
                },
            }
        } else if other.magnitude.le(&self.magnitude) {
            let m = self.magnitude.checked_sub(other.magnitude).unwrap();
            Wide::Exact(Bound::signed(self.negative, m))
        } else {
            let m = other.magnitude.checked_sub(self.magnitude).unwrap();
            Wide::Exact(Bound::signed(other.negative, m))
        }
    }

    /// The difference of the two numbers.
    pub fn minus(self, other: Bound) -> (w: Wide)
        ensures
            wide_is(w, Some(self@ - other@)),
            wide_canonical(w),
    {
        self.plus(other.negated())
    }

    /// The product of the two numbers.
    pub fn times(self, other: Bound) -> (w: Wide)
        ensures
            wide_is(w, Some(self@ * other@)),
            wide_canonical(w),
    {
        let ghost a = self.magnitude@ as int;
        let ghost b = other.magnitude@ as int;
        proof {
            assert((-a) * b == -(a * b)) by (nonlinear_arith);
            assert(a * (-b) == -(a * b)) by (nonlinear_arith);
            assert((-a) * (-b) == a * b) by (nonlinear_arith);
            assert(a * b >= 0) by (nonlinear_arith)
                requires
                    a >= 0,
                    b >= 0,
            ;
        }
        match self.magnitude.checked_mul(other.magnitude) {
            Some(m) => Wide::Exact(Bound::signed(self.negative != other.negative, m)),
            None => if self.negative != other.negative {
                Wide::Below
            } else {
                Wide::Above
            },
        }
    }

    /// The quotient, rounded toward zero.
    pub fn divided_by(self, other: Bound) -> (w: Wide)
        ensures
            wide_is(w, arith(ArithOp::Div, self@, other@)),
            wide_canonical(w),
    {
        match self.magnitude.checked_div(other.magnitude) {
            Some(q) => {
                proof {
                    let a = self.magnitude@;
                    let b = other.magnitude@;
                    vstd::arithmetic::div_mod::lemma_div_pos_is_pos(a as int, b as int);
                    vstd::arithmetic::div_mod::lemma_div_is_ordered_by_denominator(
                        a as int,
                        1,
                        b as int,
                    );
                    vstd::arithmetic::div_mod::lemma_div_basics(a as int);
                }
                let negative = (self.negative && !self.magnitude.is_zero()) != other.negative;
                Wide::Exact(Bound::signed(negative, q))
            },
            None => Wide::Undefined,
        }
    }

    /// The remainder of the division that rounds toward zero.
    pub fn remainder(self, other: Bound) -> (w: Wide)
        ensures
            wide_is(w, arith(ArithOp::Rem, self@, other@)),
            wide_canonical(w),
    {
        match self.magnitude.checked_rem(other.magnitude) {
            Some(r) => {
                proof {
                    let a = self.magnitude@;
                    let b = other.magnitude@;
                    vstd::arithmetic::div_mod::lemma_mod_bound(a as int, b as int);
                    if a == 0 {
                        vstd::arithmetic::div_mod::lemma_small_mod(0, b);
                    }
                }
                Wide::Exact(Bound::signed(self.negative, r))
            },
            None => Wide::Undefined,
        }
    }

    /// The result of one arithmetic operation.
    pub fn apply(op: ArithOp, x: Bound, y: Bound) -> (w: Wide)
        ensures
            wide_is(w, arith(op, x@, y@)),
            wide_canonical(w),
    {
        match op {
            ArithOp::Add => x.plus(y),
            ArithOp::Sub => x.minus(y),
            ArithOp::Mul => x.times(y),
            ArithOp::Div => x.divided_by(y),
            ArithOp::Rem => x.remainder(y),
        }
    }

    /// One less, unless that leaves the numbers a bound can hold.
    pub fn stepped_down(self) -> (b: Bound)
        ensures
            b@ == step_down(self@),
            b.canonical(),
    {
        match self.minus(Bound::one()) {
            Wide::Exact(b) => b,
            _ => Bound::signed(self.negative, self.magnitude),
        }
    }

    /// One more, unless that leaves the numbers a bound can hold.
    pub fn stepped_up(self) -> (b: Bound)
        ensures
            b@ == step_up(self@),
            b.canonical(),
    {
        match self.plus(Bound::one()) {
            Wide::Exact(b) => b,
            _ => Bound::signed(self.negative, self.magnitude),
        }
    }
}

} // verus!
