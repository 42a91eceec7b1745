//! The interval abstract domain: non-empty ranges of integers with
//! possibly infinite end-points, ordered by inclusion, with join, meet,
//! widening and narrowing, and sound interval arithmetic.

use vstd::prelude::*;

verus! {

/// An end-point of an interval.
#[derive(Clone, Copy, PartialEq, Eq, Structural, Debug)]
pub enum Bound {
    NegInf,
    Fin(i64),
    PosInf,
}

/// The total order on end-points: negative infinity below every finite
/// value, positive infinity above.
pub open spec fn bound_le(a: Bound, b: Bound) -> bool {
    match (a, b) {
        (Bound::NegInf, _) => true,
        (_, Bound::PosInf) => true,
        (Bound::Fin(x), Bound::Fin(y)) => x <= y,
        _ => false,
    }
}

/// Whether the lower end-point `b` admits the integer `i`.
pub open spec fn lo_admits(b: Bound, i: int) -> bool {
    match b {
        Bound::NegInf => true,
        Bound::Fin(v) => v <= i,
        Bound::PosInf => false,
    }
}

/// Whether the upper end-point `b` admits the integer `i`.
pub open spec fn hi_admits(b: Bound, i: int) -> bool {
    match b {
        Bound::NegInf => false,
        Bound::Fin(v) => i <= v,
        Bound::PosInf => true,
    }
}

/// Compare two end-points.
pub fn bound_le_exec(a: Bound, b: Bound) -> (r: bool)
    ensures
        r == bound_le(a, b),
{
    match (a, b) {
        (Bound::NegInf, _) => true,
        (_, Bound::PosInf) => true,
        (Bound::Fin(x), Bound::Fin(y)) => x <= y,
        _ => false,
    }
}

/// A non-empty range of integers.  Emptiness is expressed one level up,
/// by the environment's bottom flag, so an interval always denotes at
/// least one integer.
#[derive(Clone, Copy, PartialEq, Eq, Structural, Debug)]
pub struct Interval {
    pub lo: Bound,
    pub hi: Bound,
}

impl Interval {
    /// Well-formed: the end-points are ordered and the range is
    /// non-empty.
    pub open spec fn wf(self) -> bool {
        &&& bound_le(self.lo, self.hi)
        &&& self.lo != Bound::PosInf
        &&& self.hi != Bound::NegInf
    }

    /// The set of integers this interval denotes.
    pub open spec fn contains(self, i: int) -> bool {
        lo_admits(self.lo, i) && hi_admits(self.hi, i)
    }

    /// Inclusion, decided on the end-points.
    pub open spec fn spec_le(self, o: Interval) -> bool {
        bound_le(o.lo, self.lo) && bound_le(self.hi, o.hi)
    }

    /// The number of finite end-points; widening strictly lowers it
    /// whenever it moves an end-point, which bounds every ascending
    /// chain the iterator can produce.
    pub open spec fn rank(self) -> int {
        (if self.lo is Fin { 1int } else { 0int }) + (if self.hi is Fin { 1int } else { 0int })
    }

    /// The full range of integers.
    pub fn top() -> (r: Interval)
        ensures
            r.wf(),
            forall|i: int| r.contains(i),
            r == (Interval { lo: Bound::NegInf, hi: Bound::PosInf }),
    {
        Interval { lo: Bound::NegInf, hi: Bound::PosInf }
    }

    /// The range holding exactly `v`.
    pub fn singleton(v: i64) -> (r: Interval)
        ensures
            r.wf(),
            forall|i: int| r.contains(i) <==> i == v,
            r == (Interval { lo: Bound::Fin(v), hi: Bound::Fin(v) }),
    {
        Interval { lo: Bound::Fin(v), hi: Bound::Fin(v) }
    }

    /// Decide inclusion.
    pub fn le(&self, o: &Interval) -> (r: bool)
        ensures
            r == self.spec_le(*o),
    {
        bound_le_exec(o.lo, self.lo) && bound_le_exec(self.hi, o.hi)
    }

    /// What `join` returns: the smaller lower and the larger upper
    /// end-point.
    pub open spec fn spec_join(self, o: Interval) -> Interval {
        Interval {
            lo: if bound_le(self.lo, o.lo) {
                self.lo
            } else {
                o.lo
            },
            hi: if bound_le(self.hi, o.hi) {
                o.hi
            } else {
                self.hi
            },
        }
    }

    /// The least range that includes both arguments.
    pub fn join(&self, o: &Interval) -> (r: Interval)
        requires
            self.wf(),
            o.wf(),
        ensures
            r == self.spec_join(*o),
            r.wf(),
            self.spec_le(r),
            o.spec_le(r),
            forall|c: Interval| self.spec_le(c) && o.spec_le(c) ==> r.spec_le(c),
    {
        let lo = if bound_le_exec(self.lo, o.lo) { self.lo } else { o.lo };
        let hi = if bound_le_exec(self.hi, o.hi) { o.hi } else { self.hi };
        Interval { lo, hi }
    }

    /// The greatest range included in both arguments, or nothing when
    /// they are disjoint.
    pub fn meet(&self, o: &Interval) -> (r: Option<Interval>)
        requires
            self.wf(),
            o.wf(),
        ensures
            match r {
                Some(m) => {
                    &&& m.wf()
                    &&& forall|i: int| m.contains(i) <==> self.contains(i) && o.contains(i)
                },
                None => forall|i: int| !(self.contains(i) && o.contains(i)),
            },
            r == self.spec_meet(*o),
    {
        let lo = if bound_le_exec(self.lo, o.lo) { o.lo } else { self.lo };
        let hi = if bound_le_exec(self.hi, o.hi) { self.hi } else { o.hi };
        if bound_le_exec(lo, hi) {
            Some(Interval { lo, hi })
        } else {
            None
        }
    }

    /// What `meet` returns.
    pub open spec fn spec_meet(self, o: Interval) -> Option<Interval> {
        let lo = if bound_le(self.lo, o.lo) {
            o.lo
        } else {
            self.lo
        };
        let hi = if bound_le(self.hi, o.hi) {
            self.hi
        } else {
            o.hi
        };
        if bound_le(lo, hi) {
            Some(Interval { lo, hi })
        } else {
            None
        }
    }

    /// What `widen` returns: an end-point the new range pushes outward
    /// becomes infinite, the others are kept.
    pub open spec fn spec_widen(self, new: Interval) -> Interval {
        Interval {
            lo: if bound_le(self.lo, new.lo) {
                self.lo
            } else {
                Bound::NegInf
            },
            hi: if bound_le(new.hi, self.hi) {
                self.hi
            } else {
                Bound::PosInf
            },
        }
    }

    /// Widening: an end-point that still moves outward is pushed to
    /// infinity, so at most two widenings can change any interval.
    pub fn widen(&self, new: &Interval) -> (r: Interval)
        requires
            self.wf(),
            new.wf(),
        ensures
            r == self.spec_widen(*new),
            r.wf(),
            self.spec_le(r),
            new.spec_le(r),
            r.rank() <= self.rank(),
            !new.spec_le(*self) ==> r.rank() < self.rank(),
    {
        let lo = if bound_le_exec(self.lo, new.lo) { self.lo } else { Bound::NegInf };
        let hi = if bound_le_exec(new.hi, self.hi) { self.hi } else { Bound::PosInf };
        Interval { lo, hi }
    }

    /// What `narrow` returns: an infinite end-point is pulled back to
    /// the newly computed one, a finite end-point is kept.
    pub open spec fn spec_narrow(self, new: Interval) -> Interval {
        Interval {
            lo: if self.lo is NegInf {
                new.lo
            } else {
                self.lo
            },
            hi: if self.hi is PosInf {
                new.hi
            } else {
                self.hi
            },
        }
    }

    /// Narrowing: an infinite end-point is pulled back to the newly
    /// computed one; a finite end-point is kept.
    pub fn narrow(&self, new: &Interval) -> (r: Interval)
        requires
            self.wf(),
            new.wf(),
            new.spec_le(*self),
        ensures
            r == self.spec_narrow(*new),
            r.wf(),
            new.spec_le(r),
            r.spec_le(*self),
    {
        let lo = if matches!(self.lo, Bound::NegInf) { new.lo } else { self.lo };
        let hi = if matches!(self.hi, Bound::PosInf) { new.hi } else { self.hi };
        Interval { lo, hi }
    }

    /// Sound range of the sum: every pair of admitted values sums into
    /// the result.  End-point arithmetic saturates, which only widens.
    pub fn add(&self, o: &Interval) -> (r: Interval)
        requires
            self.wf(),
            o.wf(),
        ensures
            r.wf(),
            forall|x: int, y: int| self.contains(x) && o.contains(y) ==> r.contains(x + y),
            forall|a2: Interval, b2: Interval| self.spec_le(a2) && o.spec_le(b2)
                && a2.wf() && b2.wf() ==> r.spec_le(#[trigger] a2.spec_add(b2)),
            r == self.spec_add(*o),
    {
        Interval { lo: lo_add(self.lo, o.lo), hi: hi_add(self.hi, o.hi) }
    }

    /// What `add` returns: end-point sums, saturated.
    pub open spec fn spec_add(self, o: Interval) -> Interval {
        Interval { lo: spec_lo_add(self.lo, o.lo), hi: spec_hi_add(self.hi, o.hi) }
    }

    /// Sound range of the difference.
    pub fn sub(&self, o: &Interval) -> (r: Interval)
        requires
            self.wf(),
            o.wf(),
        ensures
            r.wf(),
            forall|x: int, y: int| self.contains(x) && o.contains(y) ==> r.contains(x - y),
            forall|a2: Interval, b2: Interval| self.spec_le(a2) && o.spec_le(b2)
                && a2.wf() && b2.wf() ==> r.spec_le(#[trigger] a2.spec_sub(b2)),
            r == self.spec_sub(*o),
    {
        Interval { lo: lo_sub(self.lo, o.hi), hi: hi_sub(self.hi, o.lo) }
    }

    /// What `sub` returns.
    pub open spec fn spec_sub(self, o: Interval) -> Interval {
        Interval { lo: spec_lo_sub(self.lo, o.hi), hi: spec_hi_sub(self.hi, o.lo) }
    }

    /// Sound range of the negation.
    pub fn neg(&self) -> (r: Interval)
        requires
            self.wf(),
        ensures
            r.wf(),
            forall|x: int| self.contains(x) ==> r.contains(-x),
            forall|a2: Interval| self.spec_le(a2) && a2.wf() ==> r.spec_le(#[trigger] a2.spec_neg()),
            r == self.spec_neg(),
    {
        Interval { lo: neg_lo(self.hi), hi: neg_hi(self.lo) }
    }

    /// What `neg` returns.
    pub open spec fn spec_neg(self) -> Interval {
        Interval { lo: spec_neg_hi(self.hi), hi: spec_neg_lo(self.lo) }
    }
}

/// What the meet denotes: the intersection of the two ranges, or
/// nothing when they are disjoint.
pub proof fn lemma_meet_char(a: Interval, b: Interval)
    requires
        a.wf(),
        b.wf(),
    ensures
        match a.spec_meet(b) {
            Some(m) => {
                &&& m.wf()
                &&& forall|i: int| m.contains(i) <==> a.contains(i) && b.contains(i)
            },
            None => forall|i: int| !(a.contains(i) && b.contains(i)),
        },
{
}

/// Inclusion of end-points is reflexive and transitive.
pub proof fn lemma_bound_le_total_order(a: Bound, b: Bound, c: Bound)
    ensures
        bound_le(a, a),
        bound_le(a, b) && bound_le(b, c) ==> bound_le(a, c),
        bound_le(a, b) || bound_le(b, a),
        bound_le(a, b) && bound_le(b, a) ==> a == b,
{
}

/// Inclusion of intervals implies inclusion of the denoted sets.
pub proof fn lemma_le_subset(a: Interval, b: Interval)
    requires
        a.spec_le(b),
    ensures
        forall|i: int| a.contains(i) ==> b.contains(i),
{
}

/// A well-formed interval denotes at least one integer.
pub proof fn lemma_wf_nonempty(a: Interval)
    requires
        a.wf(),
    ensures
        exists|i: int| a.contains(i),
{
    match (a.lo, a.hi) {
        (Bound::Fin(v), _) => assert(a.contains(v as int)),
        (_, Bound::Fin(v)) => assert(a.contains(v as int)),
        _ => assert(a.contains(0)),
    }
}

/// On well-formed intervals, inclusion of the denoted sets also implies
/// inclusion decided on the end-points, so `spec_le` is exactly subset.
pub proof fn lemma_subset_le(a: Interval, b: Interval)
    requires
        a.wf(),
        b.wf(),
        forall|i: int| a.contains(i) ==> b.contains(i),
    ensures
        a.spec_le(b),
{
    if !bound_le(b.lo, a.lo) {
        match (a.lo, b.lo) {
            (Bound::NegInf, Bound::Fin(w)) => {
                let witness: int = if hi_admits(a.hi, w - 1) { w - 1 } else {
                    match a.hi { Bound::Fin(h) => h as int, _ => w - 1 }
                };
                assert(a.contains(witness) && !b.contains(witness));
            },
            (Bound::Fin(v), Bound::Fin(w)) => {
                assert(a.contains(v as int) && !b.contains(v as int));
            },
            (Bound::NegInf, Bound::PosInf) | (Bound::Fin(_), Bound::PosInf) => {
                lemma_wf_nonempty(a);
                let i = choose|i: int| a.contains(i);
                assert(!b.contains(i));
            },
            _ => {},
        }
    }
    if !bound_le(a.hi, b.hi) {
        match (a.hi, b.hi) {
            (Bound::PosInf, Bound::Fin(w)) => {
                let witness: int = if lo_admits(a.lo, w + 1) { w + 1 } else {
                    match a.lo { Bound::Fin(l) => l as int, _ => w + 1 }
                };
                assert(a.contains(witness) && !b.contains(witness));
            },
            (Bound::Fin(v), Bound::Fin(w)) => {
                assert(a.contains(v as int) && !b.contains(v as int));
            },
            (Bound::PosInf, Bound::NegInf) | (Bound::Fin(_), Bound::NegInf) => {
                lemma_wf_nonempty(a);
                let i = choose|i: int| a.contains(i);
                assert(!b.contains(i));
            },
            _ => {},
        }
    }
}

/// The sum of two lower end-points, rounded down out of the finite
/// range where it does not fit.
pub open spec fn spec_lo_add(a: Bound, b: Bound) -> Bound {
    match (a, b) {
        (Bound::NegInf, _) => Bound::NegInf,
        (_, Bound::NegInf) => Bound::NegInf,
        (Bound::Fin(x), Bound::Fin(y)) => clamp_lo(x + y),
        _ => Bound::PosInf,
    }
}

/// The sum of two upper end-points, rounded up out of the finite range
/// where it does not fit.
pub open spec fn spec_hi_add(a: Bound, b: Bound) -> Bound {
    match (a, b) {
        (Bound::PosInf, _) => Bound::PosInf,
        (_, Bound::PosInf) => Bound::PosInf,
        (Bound::Fin(x), Bound::Fin(y)) => clamp_hi(x + y),
        _ => Bound::NegInf,
    }
}

/// The difference of a lower and an upper end-point, rounded down.
pub open spec fn spec_lo_sub(a: Bound, b: Bound) -> Bound {
    match (a, b) {
        (Bound::NegInf, _) => Bound::NegInf,
        (_, Bound::PosInf) => Bound::NegInf,
        (Bound::Fin(x), Bound::Fin(y)) => clamp_lo(x - y),
        _ => Bound::PosInf,
    }
}

/// The difference of an upper and a lower end-point, rounded up.
pub open spec fn spec_hi_sub(a: Bound, b: Bound) -> Bound {
    match (a, b) {
        (Bound::PosInf, _) => Bound::PosInf,
        (_, Bound::NegInf) => Bound::PosInf,
        (Bound::Fin(x), Bound::Fin(y)) => clamp_hi(x - y),
        _ => Bound::NegInf,
    }
}

/// The mirror image of a lower end-point (an upper one), rounded up.
pub open spec fn spec_neg_lo(b: Bound) -> Bound {
    match b {
        Bound::NegInf => Bound::PosInf,
        Bound::PosInf => Bound::NegInf,
        Bound::Fin(v) => clamp_hi(-v),
    }
}

/// The mirror image of an upper end-point (a lower one), rounded down.
pub open spec fn spec_neg_hi(b: Bound) -> Bound {
    match b {
        Bound::NegInf => Bound::PosInf,
        Bound::PosInf => Bound::NegInf,
        Bound::Fin(v) => clamp_lo(-v),
    }
}

/// Round a mathematical integer down into an end-point.
pub open spec fn clamp_lo(v: int) -> Bound {
    if v < i64::MIN { Bound::NegInf } else if v > i64::MAX { Bound::Fin(i64::MAX) } else {
        Bound::Fin(v as i64)
    }
}

/// Round a mathematical integer up into an end-point.
pub open spec fn clamp_hi(v: int) -> Bound {
    if v > i64::MAX { Bound::PosInf } else if v < i64::MIN { Bound::Fin(i64::MIN) } else {
        Bound::Fin(v as i64)
    }
}

/// Round down, executably.
fn clamp_lo_exec(v: i128) -> (r: Bound)
    ensures
        r == clamp_lo(v as int),
{
    if v < i64::MIN as i128 {
        Bound::NegInf
    } else if v > i64::MAX as i128 {
        Bound::Fin(i64::MAX)
    } else {
        Bound::Fin(v as i64)
    }
}

/// Round up, executably.
fn clamp_hi_exec(v: i128) -> (r: Bound)
    ensures
        r == clamp_hi(v as int),
{
    if v > i64::MAX as i128 {
        Bound::PosInf
    } else if v < i64::MIN as i128 {
        Bound::Fin(i64::MIN)
    } else {
        Bound::Fin(v as i64)
    }
}

fn lo_add(a: Bound, b: Bound) -> (r: Bound)
    ensures
        r == spec_lo_add(a, b),
{
    match (a, b) {
        (Bound::NegInf, _) => Bound::NegInf,
        (_, Bound::NegInf) => Bound::NegInf,
        (Bound::Fin(x), Bound::Fin(y)) => clamp_lo_exec(x as i128 + y as i128),
        _ => Bound::PosInf,
    }
}

fn hi_add(a: Bound, b: Bound) -> (r: Bound)
    ensures
        r == spec_hi_add(a, b),
{
    match (a, b) {
        (Bound::PosInf, _) => Bound::PosInf,
        (_, Bound::PosInf) => Bound::PosInf,
        (Bound::Fin(x), Bound::Fin(y)) => clamp_hi_exec(x as i128 + y as i128),
        _ => Bound::NegInf,
    }
}

fn lo_sub(a: Bound, b: Bound) -> (r: Bound)
    ensures
        r == spec_lo_sub(a, b),
{
    match (a, b) {
        (Bound::NegInf, _) => Bound::NegInf,
        (_, Bound::PosInf) => Bound::NegInf,
        (Bound::Fin(x), Bound::Fin(y)) => clamp_lo_exec(x as i128 - y as i128),
        _ => Bound::PosInf,
    }
}

fn hi_sub(a: Bound, b: Bound) -> (r: Bound)
    ensures
        r == spec_hi_sub(a, b),
{
    match (a, b) {
        (Bound::PosInf, _) => Bound::PosInf,
        (_, Bound::NegInf) => Bound::PosInf,
        (Bound::Fin(x), Bound::Fin(y)) => clamp_hi_exec(x as i128 - y as i128),
        _ => Bound::NegInf,
    }
}

fn neg_lo(b: Bound) -> (r: Bound)
    ensures
        r == spec_neg_hi(b),
{
    match b {
        Bound::NegInf => Bound::PosInf,
        Bound::PosInf => Bound::NegInf,
        Bound::Fin(v) => clamp_lo_exec(-(v as i128)),
    }
}

fn neg_hi(b: Bound) -> (r: Bound)
    ensures
        r == spec_neg_lo(b),
{
    match b {
        Bound::NegInf => Bound::PosInf,
        Bound::PosInf => Bound::NegInf,
        Bound::Fin(v) => clamp_hi_exec(-(v as i128)),
    }
}

} // verus!
