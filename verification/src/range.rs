//! Value ranges: symbolic range expressions and their evaluation to closed intervals.

use crate::bound::{
    arith, clamp, step_down, step_up, wide_canonical, wide_is, ArithOp, Bound, Wide,
};
use crate::word::{word_limit, Word};
use vstd::arithmetic::power2::{lemma_pow2_pos, pow2};
use vstd::prelude::*;

verus! {

/// The numbers of an integer type: its signedness and its width in bits.
#[derive(Debug, Clone, Copy, PartialEq, Eq, Structural)]
pub struct Domain {
    pub signed: bool,
    pub bits: u16,
}

impl Domain {
    /// The width that counts: `bits`, or the nearest of 1 and 256 where `bits` is outside.
    pub open spec fn width(&self) -> nat {
        if self.bits < 1 {
            1
        } else if self.bits > 256 {
            256
        } else {
            self.bits as nat
        }
    }

    /// The smallest number of the type.
    pub open spec fn low(&self) -> int {
        if self.signed {
            -(pow2((self.width() - 1) as nat) as int)
        } else {
            0
        }
    }

    /// The largest number of the type.
    pub open spec fn high(&self) -> int {
        if self.signed {
            pow2((self.width() - 1) as nat) - 1
        } else {
            pow2(self.width()) - 1
        }
    }

    /// Whether the type holds the number.
    pub open spec fn holds(&self, x: int) -> bool {
        self.low() <= x <= self.high()
    }

    /// The type is not empty.
    pub proof fn lemma_low_below_high(self)
        ensures
            self.low() <= 0 <= self.high(),
    {
        lemma_pow2_pos(self.width());
        lemma_pow2_pos((self.width() - 1) as nat);
    }

    /// The type of the given signedness and width, where the width is from 1 to 256.
    pub fn new(signed: bool, bits: u16) -> (d: Option<Domain>)
        ensures
            d.is_some() <==> 1 <= bits <= 256,
            d.is_some() ==> d.unwrap() == (Domain { signed, bits }),
    {
        if 1 <= bits && bits <= 256 {
            Some(Domain { signed, bits })
        } else {
            None
        }
    }

    /// The width that counts.
    pub fn bits_used(&self) -> (w: u16)
        ensures
            w == self.width(),
    {
        if self.bits < 1 {
            1
        } else if self.bits > 256 {
            256
        } else {
            self.bits
        }
    }

    /// The smallest number of the type.
    pub fn lowest(&self) -> (b: Bound)
        ensures
            b@ == self.low(),
            b.canonical(),
    {
        if self.signed {
            Bound::signed(true, Word::power_of_two(self.bits_used() - 1))
        } else {
            Bound::zero()
        }
    }

    /// The largest number of the type.
    pub fn highest(&self) -> (b: Bound)
        ensures
            b@ == self.high(),
            b.canonical(),
    {
        if self.signed {
            Bound::signed(false, Word::max_of_bits(self.bits_used() - 1))
        } else {
            Bound::signed(false, Word::max_of_bits(self.bits_used()))
        }
    }
}

/// The six comparisons.
#[derive(Debug, Clone, Copy, PartialEq, Eq, Structural)]
pub enum Relation {
    Lt,
    Le,
    Gt,
    Ge,
    Eq,
    Ne,
}

impl Relation {
    /// Whether `x` stands in the relation to `y`.
    pub open spec fn holds(self, x: int, y: int) -> bool {
        match self {
            Relation::Lt => x < y,
            Relation::Le => x <= y,
            Relation::Gt => x > y,
            Relation::Ge => x >= y,
            Relation::Eq => x == y,
            Relation::Ne => x != y,
        }
    }

    /// The relation that holds exactly where `self` does not.
    pub open spec fn negation(self) -> Relation {
        match self {
            Relation::Lt => Relation::Ge,
            Relation::Le => Relation::Gt,
            Relation::Gt => Relation::Le,
            Relation::Ge => Relation::Lt,
            Relation::Eq => Relation::Ne,
            Relation::Ne => Relation::Eq,
        }
    }

    /// The relation seen from the right operand.
    pub open spec fn mirror(self) -> Relation {
        match self {
            Relation::Lt => Relation::Gt,
            Relation::Le => Relation::Ge,
            Relation::Gt => Relation::Lt,
            Relation::Ge => Relation::Le,
            Relation::Eq => Relation::Eq,
            Relation::Ne => Relation::Ne,
        }
    }

    /// The relation that holds exactly where `self` does not.
    pub fn negated(self) -> (r: Relation)
        ensures
            r == self.negation(),
    {
        match self {
            Relation::Lt => Relation::Ge,
            Relation::Le => Relation::Gt,
            Relation::Gt => Relation::Le,
            Relation::Ge => Relation::Lt,
            Relation::Eq => Relation::Ne,
            Relation::Ne => Relation::Eq,
        }
    }

    /// The relation seen from the right operand.
    pub fn flipped(self) -> (r: Relation)
        ensures
            r == self.mirror(),
    {
        match self {
            Relation::Lt => Relation::Gt,
            Relation::Le => Relation::Ge,
            Relation::Gt => Relation::Lt,
            Relation::Ge => Relation::Le,
            Relation::Eq => Relation::Eq,
            Relation::Ne => Relation::Ne,
        }
    }

    /// Of a relation and its negation, every pair of numbers satisfies exactly one.
    pub proof fn lemma_negation_excludes(self, x: int, y: int)
        ensures
            self.negation().holds(x, y) == !self.holds(x, y),
            self.negation().negation() == self,
    {
    }

    /// The mirrored relation holds of the swapped operands exactly where `self` holds.
    pub proof fn lemma_mirror_swaps(self, x: int, y: int)
        ensures
            self.mirror().holds(y, x) == self.holds(x, y),
    {
    }
}

/// A closed interval of numbers, with a mark for arithmetic that left its type.
/// An interval whose `min` is above its `max` is empty.
pub struct Span {
    pub min: int,
    pub max: int,
    pub flagged: bool,
}

impl Span {
    /// Whether the number lies in the interval.
    pub open spec fn contains(self, x: int) -> bool {
        self.min <= x <= self.max
    }
}

/// An evaluated range: a closed interval and the overflow mark.
#[derive(Debug, Clone, Copy, PartialEq, Eq)]
pub struct Interval {
    pub min: Bound,
    pub max: Bound,
    pub flagged: bool,
}

impl View for Interval {
    type V = Span;

    open spec fn view(&self) -> Span {
        Span { min: self.min@, max: self.max@, flagged: self.flagged }
    }
}

impl Interval {
    /// Whether both ends write zero without a sign.
    pub open spec fn canonical(&self) -> bool {
        self.min.canonical() && self.max.canonical()
    }

    /// Two intervals whose ends write zero without a sign and which stand for the same
    /// numbers are the same interval.
    pub proof fn lemma_canonical_equal(self, other: Interval)
        requires
            self.canonical(),
            other.canonical(),
            self@ == other@,
        ensures
            self == other,
    {
        self.min.lemma_canonical_equal(other.min);
        self.max.lemma_canonical_equal(other.max);
    }
}

/// The range of a value, as it was derived.
#[derive(Debug, PartialEq, Eq)]
pub enum Range {
    /// Every number of the type.
    Top(Domain),
    /// One number.
    Exact(Bound),
    /// The result of an operator on two ranges, held in the given type.
    Arith(ArithOp, Domain, Box<Range>, Box<Range>),
    /// What either of two ranges allows.
    Union(Box<Range>, Box<Range>),
    /// The first range, restricted to what stands in the relation to the second.
    Narrow(Box<Range>, Relation, Box<Range>),
}

/// The smaller of two numbers.
pub open spec fn min2(a: int, b: int) -> int {
    if a <= b {
        a
    } else {
        b
    }
}

/// The larger of two numbers.
pub open spec fn max2(a: int, b: int) -> int {
    if a >= b {
        a
    } else {
        b
    }
}

/// The interval of an operator applied to two intervals: the operator is applied to the
/// four pairs of end points; each result is brought into the type; the interval runs from
/// the least to the greatest of them. It is flagged where an operand is, or where a result
/// lay outside the type. A zero divisor among the end points gives the whole type, flagged.
pub open spec fn arith_span(op: ArithOp, d: Domain, l: Span, r: Span) -> Span {
    let c0 = arith(op, l.min, r.min);
    let c1 = arith(op, l.min, r.max);
    let c2 = arith(op, l.max, r.min);
    let c3 = arith(op, l.max, r.max);
    if c0.is_none() || c1.is_none() || c2.is_none() || c3.is_none() {
        Span { min: d.low(), max: d.high(), flagged: true }
    } else {
        hull_span(d, c0.unwrap(), c1.unwrap(), c2.unwrap(), c3.unwrap(), l.flagged || r.flagged)
    }
}

/// The interval from the least to the greatest of four results, each brought into the
/// type; flagged where `flagged` is set or a result lay outside the type.
pub open spec fn hull_span(d: Domain, v0: int, v1: int, v2: int, v3: int, flagged: bool) -> Span {
    let lo = d.low();
    let hi = d.high();
    Span {
        min: min2(
            min2(clamp(v0, lo, hi), clamp(v1, lo, hi)),
            min2(clamp(v2, lo, hi), clamp(v3, lo, hi)),
        ),
        max: max2(
            max2(clamp(v0, lo, hi), clamp(v1, lo, hi)),
            max2(clamp(v2, lo, hi), clamp(v3, lo, hi)),
        ),
        flagged: flagged || !d.holds(v0) || !d.holds(v1) || !d.holds(v2) || !d.holds(v3),
    }
}

/// The smallest interval that covers both.
pub open spec fn union_span(l: Span, r: Span) -> Span {
    Span { min: min2(l.min, r.min), max: max2(l.max, r.max), flagged: l.flagged || r.flagged }
}

/// The part of `b` whose numbers can stand in the relation to a number of `o`.
pub open spec fn narrow_span(b: Span, rel: Relation, o: Span) -> Span {
    let flagged = b.flagged || o.flagged;
    match rel {
        Relation::Lt => Span { min: b.min, max: min2(b.max, step_down(o.max)), flagged },
        Relation::Le => Span { min: b.min, max: min2(b.max, o.max), flagged },
        Relation::Gt => Span { min: max2(b.min, step_up(o.min)), max: b.max, flagged },
        Relation::Ge => Span { min: max2(b.min, o.min), max: b.max, flagged },
        Relation::Eq => Span { min: max2(b.min, o.min), max: min2(b.max, o.max), flagged },
        Relation::Ne => if o.min == o.max && b.min == o.min {
            Span { min: step_up(b.min), max: b.max, flagged }
        } else if o.min == o.max && b.max == o.min {
            Span { min: b.min, max: step_down(b.max), flagged }
        } else {
            Span { min: b.min, max: b.max, flagged }
        },
    }
}

/// A result brought into the interval from `lo` to `hi`, and whether it lay outside.
fn clamp_wide(w: Wide, lo: Bound, hi: Bound, Ghost(v): Ghost<int>) -> (r: (Bound, bool))
    requires
        wide_is(w, Some(v)),
        wide_canonical(w),
        lo.canonical(),
        hi.canonical(),
        lo@ <= hi@,
    ensures
        r.0@ == clamp(v, lo@, hi@),
        r.1 == !(lo@ <= v <= hi@),
        r.0.canonical(),
{
    match w {
        Wide::Exact(b) => {
            if b.lt(&lo) {
                (lo, true)
            } else if hi.lt(&b) {
                (hi, true)
            } else {
                (b, false)
            }
        },
        Wide::Above => (hi, true),
        Wide::Below => (lo, true),
        Wide::Undefined => (lo, true),
    }
}

/// The interval from the least to the greatest of four results, each brought into the type.
fn hull(
    d: Domain,
    lo: Bound,
    hi: Bound,
    w: [Wide; 4],
    Ghost(v): Ghost<(int, int, int, int)>,
    flagged: bool,
) -> (i: Interval)
    requires
        lo@ == d.low(),
        hi@ == d.high(),
        lo@ <= hi@,
        lo.canonical(),
        hi.canonical(),
        wide_is(w[0], Some(v.0)),
        wide_is(w[1], Some(v.1)),
        wide_is(w[2], Some(v.2)),
        wide_is(w[3], Some(v.3)),
        wide_canonical(w[0]),
        wide_canonical(w[1]),
        wide_canonical(w[2]),
        wide_canonical(w[3]),
    ensures
        i@ == hull_span(d, v.0, v.1, v.2, v.3, flagged),
        i.canonical(),
{
    let (b0, f0) = clamp_wide(w[0], lo, hi, Ghost(v.0));
    let (b1, f1) = clamp_wide(w[1], lo, hi, Ghost(v.1));
    let (b2, f2) = clamp_wide(w[2], lo, hi, Ghost(v.2));
    let (b3, f3) = clamp_wide(w[3], lo, hi, Ghost(v.3));
    let low01 = Bound::min_of(b0, b1);
    let low23 = Bound::min_of(b2, b3);
    let high01 = Bound::max_of(b0, b1);
    let high23 = Bound::max_of(b2, b3);
    let min = Bound::min_of(low01, low23);
    let max = Bound::max_of(high01, high23);
    assert(min.canonical() && max.canonical());
    Interval { min, max, flagged: flagged || f0 || f1 || f2 || f3 }
}

impl Interval {
    /// The interval of one number.
    pub fn exact(b: Bound) -> (i: Interval)
        ensures
            i@ == (Span { min: b@, max: b@, flagged: false }),
            i.canonical(),
    {
        let end = Bound::signed(b.negative, b.magnitude);
        Interval { min: end, max: end, flagged: false }
    }

    /// The whole type.
    pub fn top(d: Domain) -> (i: Interval)
        ensures
            i@ == (Span { min: d.low(), max: d.high(), flagged: false }),
            i.canonical(),
    {
        Interval { min: d.lowest(), max: d.highest(), flagged: false }
    }

    /// Whether the interval holds no number.
    pub fn is_empty(&self) -> (b: bool)
        ensures
            b == (self@.min > self@.max),
    {
        self.max.lt(&self.min)
    }

    /// The interval of an operator applied to two intervals.
    pub fn arith(op: ArithOp, d: Domain, l: Interval, r: Interval) -> (i: Interval)
        ensures
            i@ == arith_span(op, d, l@, r@),
            i.canonical(),
    {
        proof {
            d.lemma_low_below_high();
        }
        let lo = d.lowest();
        let hi = d.highest();
        let w0 = Bound::apply(op, l.min, r.min);
        let w1 = Bound::apply(op, l.min, r.max);
        let w2 = Bound::apply(op, l.max, r.min);
        let w3 = Bound::apply(op, l.max, r.max);
        let undefined = match (w0, w1, w2, w3) {
            (Wide::Undefined, _, _, _) => true,
            (_, Wide::Undefined, _, _) => true,
            (_, _, Wide::Undefined, _) => true,
            (_, _, _, Wide::Undefined) => true,
            _ => false,
        };
        let ghost c0 = arith(op, l.min@, r.min@);
        let ghost c1 = arith(op, l.min@, r.max@);
        let ghost c2 = arith(op, l.max@, r.min@);
        let ghost c3 = arith(op, l.max@, r.max@);
        assert(undefined == (c0.is_none() || c1.is_none() || c2.is_none() || c3.is_none()));
        if undefined {
            Interval { min: lo, max: hi, flagged: true }
        } else {
            hull(
                d,
                lo,
                hi,
                [w0, w1, w2, w3],
                Ghost((c0.unwrap(), c1.unwrap(), c2.unwrap(), c3.unwrap())),
                l.flagged || r.flagged,
            )
        }
    }

    /// The smallest interval that covers both.
    pub fn union(l: Interval, r: Interval) -> (i: Interval)
        ensures
            i@ == union_span(l@, r@),
            l.canonical() && r.canonical() ==> i.canonical(),
    {
        Interval {
            min: Bound::min_of(l.min, r.min),
            max: Bound::max_of(l.max, r.max),
            flagged: l.flagged || r.flagged,
        }
    }

    /// The part of `b` whose numbers can stand in the relation to a number of `o`.
    pub fn narrow(b: Interval, rel: Relation, o: Interval) -> (i: Interval)
        ensures
            i@ == narrow_span(b@, rel, o@),
            b.canonical() && o.canonical() ==> i.canonical(),
    {
        let flagged = b.flagged || o.flagged;
        match rel {
            Relation::Lt => Interval {
                min: b.min,
                max: Bound::min_of(b.max, o.max.stepped_down()),
                flagged,
            },
            Relation::Le => Interval { min: b.min, max: Bound::min_of(b.max, o.max), flagged },
            Relation::Gt => Interval {
                min: Bound::max_of(b.min, o.min.stepped_up()),
                max: b.max,
                flagged,
            },
            Relation::Ge => Interval { min: Bound::max_of(b.min, o.min), max: b.max, flagged },
            Relation::Eq => Interval {
                min: Bound::max_of(b.min, o.min),
                max: Bound::min_of(b.max, o.max),
                flagged,
            },
            Relation::Ne => {
                if o.min.same(&o.max) && b.min.same(&o.min) {
                    Interval { min: b.min.stepped_up(), max: b.max, flagged }
                } else if o.min.same(&o.max) && b.max.same(&o.min) {
                    Interval { min: b.min, max: b.max.stepped_down(), flagged }
                } else {
                    Interval { min: b.min, max: b.max, flagged }
                }
            },
        }
    }
}

impl Clone for Range {
    fn clone(&self) -> (r: Range)
        ensures
            r == *self,
    {
        self.copy()
    }
}

impl Range {
    /// The interval that the range comes to.
    pub open spec fn span(&self) -> Span
        decreases self,
    {
        match self {
            Range::Top(d) => Span { min: d.low(), max: d.high(), flagged: false },
            Range::Exact(b) => Span { min: b@, max: b@, flagged: false },
            Range::Arith(op, d, l, r) => arith_span(*op, *d, l.span(), r.span()),
            Range::Union(l, r) => union_span(l.span(), r.span()),
            Range::Narrow(b, rel, o) => narrow_span(b.span(), *rel, o.span()),
        }
    }

    /// Whether the range is one literal number.
    pub open spec fn is_exact(&self) -> bool {
        self is Exact
    }

    /// Evaluates the range to its interval.
    pub fn eval(&self) -> (i: Interval)
        ensures
            i@ == self.span(),
            i.canonical(),
        decreases self,
    {
        match self {
            Range::Top(d) => Interval::top(*d),
            Range::Exact(b) => Interval::exact(*b),
            Range::Arith(op, d, l, r) => Interval::arith(*op, *d, l.eval(), r.eval()),
            Range::Union(l, r) => Interval::union(l.eval(), r.eval()),
            Range::Narrow(b, rel, o) => Interval::narrow(b.eval(), *rel, o.eval()),
        }
    }

    /// The range without the restrictions on top of it: what it was before any narrowing.
    pub open spec fn unnarrowed(self) -> Range
        decreases self,
    {
        match self {
            Range::Narrow(b, _, _) => b.unnarrowed(),
            _ => self,
        }
    }

    /// A copy of the range without the restrictions on top of it.
    pub fn base(&self) -> (r: Range)
        ensures
            r == self.unnarrowed(),
        decreases self,
    {
        match self {
            Range::Narrow(b, _, _) => b.base(),
            _ => self.copy(),
        }
    }

    /// A copy of the range.
    pub fn copy(&self) -> (r: Range)
        ensures
            r == *self,
        decreases self,
    {
        match self {
            Range::Top(d) => Range::Top(*d),
            Range::Exact(b) => Range::Exact(*b),
            Range::Arith(op, d, l, r) => Range::Arith(
                *op,
                *d,
                Box::new(l.copy()),
                Box::new(r.copy()),
            ),
            Range::Union(l, r) => Range::Union(Box::new(l.copy()), Box::new(r.copy())),
            Range::Narrow(b, rel, o) => Range::Narrow(
                Box::new(b.copy()),
                *rel,
                Box::new(o.copy()),
            ),
        }
    }

    /// Whether the range is one literal number.
    pub fn exact(&self) -> (b: bool)
        ensures
            b == self.is_exact(),
    {
        match self {
            Range::Exact(_) => true,
            _ => false,
        }
    }
}

/// An addition of two unflagged intervals is flagged exactly where a sum of two of their
/// ends lies outside the type.
pub proof fn lemma_addition_flag(d: Domain, l: Span, r: Span)
    requires
        !l.flagged,
        !r.flagged,
    ensures
        arith_span(ArithOp::Add, d, l, r).flagged <==> !(d.holds(l.min + r.min) && d.holds(
            l.min + r.max,
        ) && d.holds(l.max + r.min) && d.holds(l.max + r.max)),
{
}

/// An addition of two unflagged intervals, neither empty and with a sum of lower ends that
/// is not below the type, is flagged exactly where the sum of the upper ends is above the
/// largest number of the type; where it is not flagged, the sum runs from the sum of the
/// lower ends to the sum of the upper ends.
pub proof fn lemma_addition_overflow(d: Domain, l: Span, r: Span)
    requires
        !l.flagged,
        !r.flagged,
        l.min <= l.max,
        r.min <= r.max,
        d.low() <= l.min + r.min,
    ensures
        arith_span(ArithOp::Add, d, l, r).flagged <==> l.max + r.max > d.high(),
        !arith_span(ArithOp::Add, d, l, r).flagged ==> arith_span(ArithOp::Add, d, l, r).min
            == l.min + r.min && arith_span(ArithOp::Add, d, l, r).max == l.max + r.max,
{
}

/// Addition, subtraction and multiplication lose no value: whatever numbers the operands
/// take in their intervals, the result is in the computed interval, unless that is flagged.
pub proof fn lemma_arith_sound(op: ArithOp, d: Domain, l: Span, r: Span, x: int, y: int)
    requires
        op == ArithOp::Add || op == ArithOp::Sub || op == ArithOp::Mul,
        l.contains(x),
        r.contains(y),
        !arith_span(op, d, l, r).flagged,
    ensures
        arith_span(op, d, l, r).contains(arith(op, x, y).unwrap()),
{
    if op == ArithOp::Mul {
        assert(min2(min2(l.min * r.min, l.min * r.max), min2(l.max * r.min, l.max * r.max)) <= x
            * y <= max2(max2(l.min * r.min, l.min * r.max), max2(l.max * r.min, l.max * r.max)))
            by (nonlinear_arith)
            requires
                l.min <= x <= l.max,
                r.min <= y <= r.max,
        ;
    }
}

/// Narrowing only restricts: the narrowed interval lies within the interval it started from.
pub proof fn lemma_narrow_restricts(b: Span, rel: Relation, o: Span)
    ensures
        narrow_span(b, rel, o).min >= b.min,
        narrow_span(b, rel, o).max <= b.max,
{
}

/// Narrowing loses no value: a number of the interval that stands in the relation to a
/// number of the other interval is in the narrowed interval.
pub proof fn lemma_narrow_sound(b: Span, rel: Relation, o: Span, x: int, y: int)
    requires
        b.contains(x),
        o.contains(y),
        rel.holds(x, y),
    ensures
        narrow_span(b, rel, o).contains(x),
{
}

/// A union loses no value: a number of either interval is in their union.
pub proof fn lemma_union_sound(l: Span, r: Span, x: int)
    requires
        l.contains(x) || r.contains(x),
    ensures
        union_span(l, r).contains(x),
{
}

/// The two arms of a fork on an order relation to one number part the interval: every
/// number of the interval is in the interval narrowed by the relation or in the interval
/// narrowed by its negation, and in one of them only.
pub proof fn lemma_narrow_parts(b: Span, rel: Relation, k: int, v: int)
    requires
        rel == Relation::Lt || rel == Relation::Le || rel == Relation::Gt || rel == Relation::Ge,
        -(word_limit() as int) + 1 < k < word_limit() - 1,
        b.contains(v),
    ensures
        narrow_span(b, rel, Span { min: k, max: k, flagged: false }).contains(v) == rel.holds(
            v,
            k,
        ),
        narrow_span(b, rel.negation(), Span { min: k, max: k, flagged: false }).contains(v)
            == !rel.holds(v, k),
{
}

/// An addition whose upper ends sum to more than the largest number of the type is
/// flagged, and its upper end is that largest number: it is never wrapped.
pub proof fn lemma_addition_saturates(d: Domain, l: Span, r: Span)
    requires
        l.max + r.max > d.high(),
    ensures
        arith_span(ArithOp::Add, d, l, r).flagged,
        arith_span(ArithOp::Add, d, l, r).max == d.high(),
{
    d.lemma_low_below_high();
}

/// What holds of the interval of a sum of two intervals in a type: where the upper ends
/// sum to more than the largest number of the type, the sum is flagged and ends at that
/// number; where they do not, and the operands are unflagged, not empty and their lower
/// ends sum to no less than the smallest number of the type, the sum is not flagged and
/// runs exactly from the sum of the lower ends to the sum of the upper ends.
pub open spec fn sum_judged(d: Domain, l: Span, r: Span) -> bool {
    let sum = arith_span(ArithOp::Add, d, l, r);
    &&& l.max + r.max > d.high() ==> sum.flagged && sum.max == d.high()
    &&& l.max + r.max <= d.high() && !l.flagged && !r.flagged && l.min <= l.max && r.min
        <= r.max && d.low() <= l.min + r.min ==> !sum.flagged && sum.min == l.min + r.min
        && sum.max == l.max + r.max
}

/// Every sum is judged so.
pub proof fn lemma_sum_judged(d: Domain, l: Span, r: Span)
    ensures
        sum_judged(d, l, r),
{
    if l.max + r.max > d.high() {
        lemma_addition_saturates(d, l, r);
    }
}

impl Range {
    /// Whether the range, where it is a sum, is judged as `sum_judged` says.
    pub open spec fn sum_is_judged(self) -> bool {
        match self {
            Range::Arith(op, d, l, r) => op == ArithOp::Add ==> self.span() == arith_span(
                ArithOp::Add,
                d,
                l.span(),
                r.span(),
            ) && sum_judged(d, l.span(), r.span()),
            _ => true,
        }
    }

    /// Every range that is a sum is judged so.
    pub proof fn lemma_sum_is_judged(self)
        ensures
            self.sum_is_judged(),
    {
        match self {
            Range::Arith(op, d, l, r) => {
                lemma_sum_judged(d, l.span(), r.span());
            },
            _ => {},
        }
    }
}

} // verus!
