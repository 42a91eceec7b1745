//! The abstract environment: one interval per local, a symbolic
//! expression for the locals whose value is known in symbolic form, a
//! set of predicates assumed true or false on the current program path,
//! and a bottom flag for unreachable states.

use vstd::prelude::*;
use crate::expression::Expression;
use crate::interval::Interval;

verus! {

/// An element of the abstract domain backing the analysis of one
/// function with a fixed number of locals.
#[derive(Debug)]
pub struct AbstractEnvironment {
    /// The numeric range of each local.
    pub intervals: Vec<Interval>,
    /// The symbolic value of a local, where one is tracked.
    pub exprs: Vec<Option<Expression>>,
    /// Predicates known to hold (`true`) or to be violated (`false`)
    /// on every concrete path reaching this point.
    pub facts: Vec<(Expression, bool)>,
    /// Whether this state is unreachable.
    pub bottom: bool,
}

/// The mathematical model of an environment.
pub ghost struct EnvModel {
    pub intervals: Seq<Interval>,
    pub exprs: Seq<Option<Expression>>,
    pub facts: Seq<(Expression, bool)>,
    pub bottom: bool,
}

impl View for AbstractEnvironment {
    type V = EnvModel;

    open spec fn view(&self) -> EnvModel {
        EnvModel {
            intervals: self.intervals@,
            exprs: self.exprs@,
            facts: self.facts@,
            bottom: self.bottom,
        }
    }
}

impl EnvModel {
    /// Well-formed over `n` locals.
    pub open spec fn wf(self, n: int) -> bool {
        &&& self.intervals.len() == n
        &&& self.exprs.len() == n
        &&& forall|i: int| 0 <= i < n ==> (#[trigger] self.intervals[i]).wf()
    }

    /// The partial order of the domain: smaller means more precise.
    /// Bottom is below everything; otherwise every interval must be
    /// included, and every symbolic entry and fact of the larger
    /// environment must be present in the smaller one.
    pub open spec fn le(self, o: EnvModel) -> bool {
        self.bottom || (!o.bottom && self.intervals.len() == o.intervals.len()
            && self.exprs.len() == o.exprs.len() && (forall|i: int|
            0 <= i < self.intervals.len() ==> (#[trigger] self.intervals[i]).spec_le(
                o.intervals[i],
            )) && (forall|i: int|
            0 <= i < self.exprs.len() && (#[trigger] o.exprs[i]) is Some ==> self.exprs[i]
                == o.exprs[i]) && (forall|f: (Expression, bool)|
            o.facts.contains(f) ==> #[trigger] self.facts.contains(f)))
    }
}

/// The order on models is reflexive and transitive.
pub proof fn lemma_env_le_order(a: EnvModel, b: EnvModel, c: EnvModel)
    ensures
        a.le(a),
        a.le(b) && b.le(c) ==> a.le(c),
{
}

/// What the pointwise intersection of symbolic entries returns.
pub open spec fn spec_exprs_common(
    a: Seq<Option<Expression>>,
    b: Seq<Option<Expression>>,
) -> Seq<Option<Expression>> {
    Seq::new(
        a.len(),
        |i: int| if a[i] is Some && a[i] == b[i] {
            a[i]
        } else {
            None
        },
    )
}

/// What the fact intersection returns: the first list's entries, in
/// their order, kept where the second list holds them too.
pub open spec fn spec_facts_common(
    a: Seq<(Expression, bool)>,
    b: Seq<(Expression, bool)>,
) -> Seq<(Expression, bool)>
    decreases a.len(),
{
    if a.len() == 0 {
        Seq::empty()
    } else {
        let rest = spec_facts_common(a.drop_last(), b);
        if b.contains(a.last()) {
            rest.push(a.last())
        } else {
            rest
        }
    }
}

/// What the join returns: a bottom side yields the other; otherwise
/// intervals join pointwise and symbolic entries and facts are the
/// common ones.
pub open spec fn spec_env_join(m1: EnvModel, m2: EnvModel) -> EnvModel {
    if m1.bottom {
        m2
    } else if m2.bottom {
        m1
    } else {
        EnvModel {
            intervals: Seq::new(
                m1.intervals.len(),
                |i: int| m1.intervals[i].spec_join(m2.intervals[i]),
            ),
            exprs: spec_exprs_common(m1.exprs, m2.exprs),
            facts: spec_facts_common(m1.facts, m2.facts),
            bottom: false,
        }
    }
}

/// What the widening returns: as the join, with intervals widened
/// pointwise instead.
pub open spec fn spec_env_widen(m1: EnvModel, m2: EnvModel) -> EnvModel {
    if m1.bottom {
        m2
    } else if m2.bottom {
        m1
    } else {
        EnvModel {
            intervals: Seq::new(
                m1.intervals.len(),
                |i: int| m1.intervals[i].spec_widen(m2.intervals[i]),
            ),
            exprs: spec_exprs_common(m1.exprs, m2.exprs),
            facts: spec_facts_common(m1.facts, m2.facts),
            bottom: false,
        }
    }
}

/// What the narrowing returns: an unreachable refinement stays; else
/// the intervals are narrowed pointwise and the symbolic entries and
/// facts are the refinement's.
pub open spec fn spec_env_narrow(old: EnvModel, new: EnvModel) -> EnvModel {
    if new.bottom {
        new
    } else {
        EnvModel {
            intervals: Seq::new(
                old.intervals.len(),
                |i: int| old.intervals[i].spec_narrow(new.intervals[i]),
            ),
            exprs: new.exprs,
            facts: new.facts,
            bottom: false,
        }
    }
}

impl Clone for AbstractEnvironment {
    /// A structural copy, with the same model.
    fn clone(&self) -> (r: AbstractEnvironment)
        ensures
            r@ == self@,
    {
        AbstractEnvironment {
            intervals: copy_vec(&self.intervals),
            exprs: copy_vec(&self.exprs),
            facts: copy_vec(&self.facts),
            bottom: self.bottom,
        }
    }
}

/// An element-wise copy of a vector of plain values.
pub fn copy_vec<T: Copy>(v: &Vec<T>) -> (r: Vec<T>)
    ensures
        r@ == v@,
{
    let mut r: Vec<T> = Vec::new();
    let mut i: usize = 0;
    while i < v.len()
        invariant
            0 <= i <= v@.len(),
            r@ == v@.take(i as int),
        decreases v@.len() - i,
    {
        r.push(v[i]);
        proof {
            assert(v@.take(i + 1 as int) =~= v@.take(i as int).push(v@[i as int]));
        }
        i = i + 1;
    }
    proof {
        assert(v@.take(v@.len() as int) =~= v@);
    }
    r
}

impl AbstractEnvironment {
    /// Well-formed over `n` locals.
    pub open spec fn wf(self, n: int) -> bool {
        self@.wf(n)
    }

    /// The partial order, on the models.
    pub open spec fn spec_le(self, o: AbstractEnvironment) -> bool {
        self@.le(o@)
    }

    /// Decide the partial order.
    pub fn le(&self, o: &AbstractEnvironment) -> (r: bool)
        requires
            self.wf(self.intervals@.len() as int),
            o.wf(o.intervals@.len() as int),
        ensures
            r == self.spec_le(*o),
    {
        if self.bottom {
            return true;
        }
        if o.bottom {
            return false;
        }
        if self.intervals.len() != o.intervals.len() || self.exprs.len() != o.exprs.len() {
            return false;
        }
        let n = self.intervals.len();
        let mut i: usize = 0;
        while i < n
            invariant
                0 <= i <= n,
                !self.bottom,
                !o.bottom,
                n == self.intervals@.len(),
                n == o.intervals@.len(),
                n == self.exprs@.len(),
                n == o.exprs@.len(),
                forall|j: int| 0 <= j < i ==> (#[trigger] self.intervals@[j]).spec_le(
                    o.intervals@[j],
                ),
            decreases n - i,
        {
            if !self.intervals[i].le(&o.intervals[i]) {
                assert(!(self@.intervals[i as int]).spec_le(o@.intervals[i as int]));
                return false;
            }
            i = i + 1;
        }
        let mut i: usize = 0;
        while i < n
            invariant
                0 <= i <= n,
                !self.bottom,
                !o.bottom,
                n == self.intervals@.len(),
                n == o.intervals@.len(),
                n == self.exprs@.len(),
                n == o.exprs@.len(),
                forall|j: int| 0 <= j < n ==> (#[trigger] self.intervals@[j]).spec_le(
                    o.intervals@[j],
                ),
                forall|j: int| 0 <= j < i && (#[trigger] o.exprs@[j]) is Some ==> self.exprs@[j]
                    == o.exprs@[j],
            decreases n - i,
        {
            match (&self.exprs[i], &o.exprs[i]) {
                (_, Option::None) => {},
                (Option::Some(a), Option::Some(b)) => {
                    if a != b {
                        assert(o@.exprs[i as int] is Some && self@.exprs[i as int]
                            != o@.exprs[i as int]);
                        return false;
                    }
                },
                (Option::None, Option::Some(_)) => {
                    assert(o@.exprs[i as int] is Some && self@.exprs[i as int]
                        != o@.exprs[i as int]);
                    return false;
                },
            }
            i = i + 1;
        }
        let m = o.facts.len();
        let mut i: usize = 0;
        while i < m
            invariant
                0 <= i <= m,
                !self.bottom,
                !o.bottom,
                m == o.facts@.len(),
                n == self.intervals@.len(),
                n == o.intervals@.len(),
                n == self.exprs@.len(),
                n == o.exprs@.len(),
                forall|j: int| 0 <= j < n ==> (#[trigger] self.intervals@[j]).spec_le(
                    o.intervals@[j],
                ),
                forall|j: int| 0 <= j < n && (#[trigger] o.exprs@[j]) is Some ==> self.exprs@[j]
                    == o.exprs@[j],
                forall|j: int| 0 <= j < i ==> self.facts@.contains(#[trigger] o.facts@[j]),
            decreases m - i,
        {
            if !contains_fact(&self.facts, &o.facts[i]) {
                assert(o@.facts.contains(o.facts@[i as int]) && !self@.facts.contains(
                    o.facts@[i as int],
                ));
                return false;
            }
            i = i + 1;
        }
        assert forall|f: (Expression, bool)| o@.facts.contains(f) implies #[trigger] self
            @.facts.contains(f) by {
            let j = choose|j: int| 0 <= j < o.facts@.len() && o.facts@[j] == f;
            assert(self.facts@.contains(o.facts@[j]));
        }
        true
    }

    /// The state in which nothing is known: every local ranges over the
    /// machine range of its static type.
    pub fn top_env(types: &Vec<crate::expression::ExpressionType>) -> (r: AbstractEnvironment)
        ensures
            r.wf(types@.len() as int),
            !r.bottom,
            r@ == top_model(types@),
            r@.facts == Seq::<(Expression, bool)>::empty(),
            forall|i: int| 0 <= i < types@.len() ==> r@.exprs[i] is None,
            forall|i: int| 0 <= i < types@.len() ==> r@.intervals[i]
                == crate::expression::spec_type_range(types@[i]),
    {
        let n = types.len();
        let mut intervals: Vec<Interval> = Vec::new();
        let mut exprs: Vec<Option<Expression>> = Vec::new();
        let mut i: usize = 0;
        while i < n
            invariant
                0 <= i <= n,
                n == types@.len(),
                intervals@.len() == i,
                exprs@.len() == i,
                forall|j: int| 0 <= j < i ==> (#[trigger] intervals@[j]).wf(),
                forall|j: int| 0 <= j < i ==> intervals@[j] == crate::expression::spec_type_range(
                    types@[j],
                ),
                forall|j: int| 0 <= j < i ==> exprs@[j] is None,
            decreases n - i,
        {
            intervals.push(crate::expression::type_range(&types[i]));
            exprs.push(Option::None);
            i = i + 1;
        }
        let r = AbstractEnvironment { intervals, exprs, facts: Vec::new(), bottom: false };
        proof {
            assert(r@.intervals =~= top_model(types@).intervals);
            assert(r@.exprs =~= top_model(types@).exprs);
            assert(r@.facts =~= top_model(types@).facts);
        }
        r
    }

    /// The unreachable state over the same locals.
    pub fn bottom_env(types: &Vec<crate::expression::ExpressionType>) -> (r: AbstractEnvironment)
        ensures
            r@ == (EnvModel { bottom: true, ..top_model(types@) }),
            r.wf(types@.len() as int),
            r.bottom,
    {
        let mut e = AbstractEnvironment::top_env(types);
        e.bottom = true;
        e
    }

    /// A copy of this state marked unreachable.
    pub fn to_bottom(&self) -> (r: AbstractEnvironment)
        requires
            self.wf(self.intervals@.len() as int),
        ensures
            r.wf(self.intervals@.len() as int),
            r.bottom,
            r@ == (EnvModel { bottom: true, ..self@ }),
            forall|o: AbstractEnvironment| r.spec_le(o),
    {
        AbstractEnvironment {
            intervals: copy_vec(&self.intervals),
            exprs: copy_vec(&self.exprs),
            facts: copy_vec(&self.facts),
            bottom: true,
        }
    }

    /// The join: the least state above both arguments.  Intervals join
    /// pointwise; a symbolic entry or a fact survives only where both
    /// sides agree on it.
    pub fn join(&self, o: &AbstractEnvironment) -> (r: AbstractEnvironment)
        requires
            self.wf(self.intervals@.len() as int),
            o.wf(o.intervals@.len() as int),
            self.intervals@.len() == o.intervals@.len(),
        ensures
            r@ == spec_env_join(self@, o@),
            r.wf(self.intervals@.len() as int),
            self.spec_le(r),
            o.spec_le(r),
            forall|c: AbstractEnvironment| self.spec_le(c) && o.spec_le(c) ==> r.spec_le(c),
    {
        if self.bottom {
            let r = o.clone();
            assert forall|c: AbstractEnvironment| self.spec_le(c) && o.spec_le(c) implies r
                .spec_le(c) by {}
            return r;
        }
        if o.bottom {
            return self.clone();
        }
        let n = self.intervals.len();
        let mut intervals: Vec<Interval> = Vec::new();
        let mut i: usize = 0;
        while i < n
            invariant
                0 <= i <= n,
                n == self.intervals@.len(),
                n == o.intervals@.len(),
                self.wf(n as int),
                o.wf(n as int),
                intervals@.len() == i,
                forall|j: int| 0 <= j < i ==> (#[trigger] intervals@[j]).wf(),
                forall|j: int| 0 <= j < i ==> (#[trigger] self.intervals@[j]).spec_le(
                    intervals@[j],
                ),
                forall|j: int| 0 <= j < i ==> (#[trigger] o.intervals@[j]).spec_le(intervals@[j]),
                forall|j: int| 0 <= j < i ==> (#[trigger] intervals@[j])
                    == self.intervals@[j].spec_join(o.intervals@[j]),
                forall|j: int, c: Interval| 0 <= j < i && #[trigger] self.intervals@[j].spec_le(c)
                    && #[trigger] o.intervals@[j].spec_le(c) ==> intervals@[j].spec_le(c),
            decreases n - i,
        {
            intervals.push(self.intervals[i].join(&o.intervals[i]));
            i = i + 1;
        }
        let exprs = exprs_common(&self.exprs, &o.exprs);
        let facts = facts_common(&self.facts, &o.facts);
        let r = AbstractEnvironment { intervals, exprs, facts, bottom: false };
        proof {
            assert(r@.intervals =~= spec_env_join(self@, o@).intervals);
            assert(r@ == spec_env_join(self@, o@));
        }
        assert forall|c: AbstractEnvironment| self.spec_le(c) && o.spec_le(c) implies r.spec_le(
            c,
        ) by {
            assert(!c@.bottom);
            assert(c@.intervals.len() == n && c@.exprs.len() == n);
            assert forall|j: int| 0 <= j < n implies (#[trigger] r@.intervals[j]).spec_le(
                c@.intervals[j],
            ) by {
                assert(self@.intervals[j].spec_le(c@.intervals[j]));
                assert(o@.intervals[j].spec_le(c@.intervals[j]));
            }
            assert forall|j: int| 0 <= j < n && (#[trigger] c@.exprs[j]) is Some implies r
                @.exprs[j] == c@.exprs[j] by {
                assert(self@.exprs[j] == c@.exprs[j]);
                assert(o@.exprs[j] == c@.exprs[j]);
            }
            assert forall|f: (Expression, bool)| c@.facts.contains(f) implies #[trigger] r
                @.facts.contains(f) by {
                assert(self@.facts.contains(f));
                assert(o@.facts.contains(f));
                assert(self.facts@.contains(f) && o.facts@.contains(f));
            }
        }
        r
    }

    /// Widening at a loop head: intervals widen pointwise, symbolic
    /// entries and facts are kept only where both sides agree, so the
    /// result is above both arguments.
    pub fn widen_with(&self, new: &AbstractEnvironment) -> (r: AbstractEnvironment)
        requires
            self.wf(self.intervals@.len() as int),
            new.wf(new.intervals@.len() as int),
            self.intervals@.len() == new.intervals@.len(),
        ensures
            r@ == spec_env_widen(self@, new@),
            r.wf(self.intervals@.len() as int),
            self.spec_le(r),
            new.spec_le(r),
    {
        if self.bottom {
            return new.clone();
        }
        if new.bottom {
            return self.clone();
        }
        let n = self.intervals.len();
        let mut intervals: Vec<Interval> = Vec::new();
        let mut i: usize = 0;
        while i < n
            invariant
                0 <= i <= n,
                n == self.intervals@.len(),
                n == new.intervals@.len(),
                self.wf(n as int),
                new.wf(n as int),
                intervals@.len() == i,
                forall|j: int| 0 <= j < i ==> (#[trigger] intervals@[j]).wf(),
                forall|j: int| 0 <= j < i ==> (#[trigger] self.intervals@[j]).spec_le(
                    intervals@[j],
                ),
                forall|j: int| 0 <= j < i ==> (#[trigger] new.intervals@[j]).spec_le(
                    intervals@[j],
                ),
                forall|j: int| 0 <= j < i ==> (#[trigger] intervals@[j])
                    == self.intervals@[j].spec_widen(new.intervals@[j]),
            decreases n - i,
        {
            intervals.push(self.intervals[i].widen(&new.intervals[i]));
            i = i + 1;
        }
        let exprs = exprs_common(&self.exprs, &new.exprs);
        let facts = facts_common(&self.facts, &new.facts);
        let r = AbstractEnvironment { intervals, exprs, facts, bottom: false };
        proof {
            assert(r@.intervals =~= spec_env_widen(self@, new@).intervals);
            assert(r@ == spec_env_widen(self@, new@));
        }
        r
    }

    /// Narrowing after stabilization: an interval end-point the widening
    /// pushed to infinity is pulled back to the newly computed one.  The
    /// result lies between the two arguments.
    pub fn narrow_with(&self, new: &AbstractEnvironment) -> (r: AbstractEnvironment)
        requires
            self.wf(self.intervals@.len() as int),
            new.wf(new.intervals@.len() as int),
            new.spec_le(*self),
        ensures
            r@ == spec_env_narrow(self@, new@),
            new.spec_le(r),
            r.spec_le(*self),
            !new.bottom ==> r.wf(self.intervals@.len() as int),
            new.bottom ==> r.wf(new.intervals@.len() as int),
    {
        if new.bottom {
            let r = new.clone();
            assert(r@.bottom);
            return r;
        }
        let n = self.intervals.len();
        let mut intervals: Vec<Interval> = Vec::new();
        let mut i: usize = 0;
        while i < n
            invariant
                0 <= i <= n,
                n == self.intervals@.len(),
                n == new.intervals@.len(),
                !new.bottom,
                !self.bottom,
                self.wf(n as int),
                new.wf(n as int),
                forall|j: int| 0 <= j < n ==> (#[trigger] new.intervals@[j]).spec_le(
                    self.intervals@[j],
                ),
                intervals@.len() == i,
                forall|j: int| 0 <= j < i ==> (#[trigger] intervals@[j]).wf(),
                forall|j: int| 0 <= j < i ==> (#[trigger] new.intervals@[j]).spec_le(
                    intervals@[j],
                ),
                forall|j: int| 0 <= j < i ==> (#[trigger] intervals@[j]).spec_le(
                    self.intervals@[j],
                ),
                forall|j: int| 0 <= j < i ==> (#[trigger] intervals@[j])
                    == self.intervals@[j].spec_narrow(new.intervals@[j]),
            decreases n - i,
        {
            intervals.push(self.intervals[i].narrow(&new.intervals[i]));
            i = i + 1;
        }
        let r = AbstractEnvironment {
            intervals,
            exprs: copy_vec(&new.exprs),
            facts: copy_vec(&new.facts),
            bottom: false,
        };
        proof {
            assert(r@.intervals =~= spec_env_narrow(self@, new@).intervals);
            assert(r@ == spec_env_narrow(self@, new@));
        }
        assert(r@.facts == new@.facts);
        assert forall|f: (Expression, bool)| self@.facts.contains(f) implies r@.facts.contains(
            f,
        ) by {
            assert(new@.le(self@));
            assert(new@.facts.contains(f));
        }
        r
    }
}

/// What a comparison against a constant pins down for the compared
/// local.
#[derive(Clone, Copy, PartialEq, Eq, Structural, Debug)]
pub enum Refinement {
    /// The predicate constrains the local in no interval-expressible way,
    /// or its range has no representable end-point.
    NoRefine,
    /// The local lies in this range.
    Range(Interval),
}

/// The range a comparison with the constant `k` confines the compared
/// value to, when the comparison comes out as `truth`.
pub open spec fn spec_constraint(op: crate::mir::BinOp, k: i64, truth: bool) -> Refinement {
    match op {
        crate::mir::BinOp::Eq => if truth {
            Refinement::Range(Interval { lo: crate::interval::Bound::Fin(k), hi: crate::interval::Bound::Fin(k) })
        } else {
            Refinement::NoRefine
        },
        crate::mir::BinOp::Ne => if truth {
            Refinement::NoRefine
        } else {
            Refinement::Range(Interval { lo: crate::interval::Bound::Fin(k), hi: crate::interval::Bound::Fin(k) })
        },
        crate::mir::BinOp::Lt => if truth {
            if k == i64::MIN {
                Refinement::NoRefine
            } else {
                Refinement::Range(Interval { lo: crate::interval::Bound::NegInf, hi: crate::interval::Bound::Fin((k - 1) as i64) })
            }
        } else {
            Refinement::Range(Interval { lo: crate::interval::Bound::Fin(k), hi: crate::interval::Bound::PosInf })
        },
        crate::mir::BinOp::Le => if truth {
            Refinement::Range(Interval { lo: crate::interval::Bound::NegInf, hi: crate::interval::Bound::Fin(k) })
        } else {
            if k == i64::MAX {
                Refinement::NoRefine
            } else {
                Refinement::Range(Interval { lo: crate::interval::Bound::Fin((k + 1) as i64), hi: crate::interval::Bound::PosInf })
            }
        },
        crate::mir::BinOp::Gt => if truth {
            if k == i64::MAX {
                Refinement::NoRefine
            } else {
                Refinement::Range(Interval { lo: crate::interval::Bound::Fin((k + 1) as i64), hi: crate::interval::Bound::PosInf })
            }
        } else {
            Refinement::Range(Interval { lo: crate::interval::Bound::NegInf, hi: crate::interval::Bound::Fin(k) })
        },
        crate::mir::BinOp::Ge => if truth {
            Refinement::Range(Interval { lo: crate::interval::Bound::Fin(k), hi: crate::interval::Bound::PosInf })
        } else {
            if k == i64::MIN {
                Refinement::NoRefine
            } else {
                Refinement::Range(Interval { lo: crate::interval::Bound::NegInf, hi: crate::interval::Bound::Fin((k - 1) as i64) })
            }
        },
        _ => Refinement::NoRefine,
    }
}

/// The refinement is sound: every value on which the comparison comes
/// out as claimed lies in the refined range, and an `Empty` refinement
/// admits no value at all; the range is also well-formed.
pub proof fn lemma_constraint_sound(op: crate::mir::BinOp, k: i64, truth: bool, x: int)
    ensures
        cmp_int(op, x, k as int) == truth ==> match spec_constraint(op, k, truth) {
            Refinement::NoRefine => true,
            Refinement::Range(c) => c.contains(x),
        },
        spec_constraint(op, k, truth) matches Refinement::Range(c) ==> c.wf(),
{
}

/// Decide the refinement.
pub fn constraint(op: crate::mir::BinOp, k: i64, truth: bool) -> (r: Refinement)
    ensures
        r == spec_constraint(op, k, truth),
{
    match op {
        crate::mir::BinOp::Eq => if truth {
            Refinement::Range(Interval { lo: crate::interval::Bound::Fin(k), hi: crate::interval::Bound::Fin(k) })
        } else {
            Refinement::NoRefine
        },
        crate::mir::BinOp::Ne => if truth {
            Refinement::NoRefine
        } else {
            Refinement::Range(Interval { lo: crate::interval::Bound::Fin(k), hi: crate::interval::Bound::Fin(k) })
        },
        crate::mir::BinOp::Lt => if truth {
            if k == i64::MIN {
                Refinement::NoRefine
            } else {
                Refinement::Range(Interval { lo: crate::interval::Bound::NegInf, hi: crate::interval::Bound::Fin(k - 1) })
            }
        } else {
            Refinement::Range(Interval { lo: crate::interval::Bound::Fin(k), hi: crate::interval::Bound::PosInf })
        },
        crate::mir::BinOp::Le => if truth {
            Refinement::Range(Interval { lo: crate::interval::Bound::NegInf, hi: crate::interval::Bound::Fin(k) })
        } else {
            if k == i64::MAX {
                Refinement::NoRefine
            } else {
                Refinement::Range(Interval { lo: crate::interval::Bound::Fin(k + 1), hi: crate::interval::Bound::PosInf })
            }
        },
        crate::mir::BinOp::Gt => if truth {
            if k == i64::MAX {
                Refinement::NoRefine
            } else {
                Refinement::Range(Interval { lo: crate::interval::Bound::Fin(k + 1), hi: crate::interval::Bound::PosInf })
            }
        } else {
            Refinement::Range(Interval { lo: crate::interval::Bound::NegInf, hi: crate::interval::Bound::Fin(k) })
        },
        crate::mir::BinOp::Ge => if truth {
            Refinement::Range(Interval { lo: crate::interval::Bound::Fin(k), hi: crate::interval::Bound::PosInf })
        } else {
            if k == i64::MIN {
                Refinement::NoRefine
            } else {
                Refinement::Range(Interval { lo: crate::interval::Bound::NegInf, hi: crate::interval::Bound::Fin(k - 1) })
            }
        },
        _ => Refinement::NoRefine,
    }
}

/// A concrete machine state the abstract environment stands for: a
/// value for every local, and a length for the slice a local may hold.
pub ghost struct CState {
    pub vals: Seq<int>,
    pub lens: Seq<int>,
}

/// The truth of a comparison operator on two integers.  Operators that
/// are not comparisons denote no predicate.
pub open spec fn cmp_int(op: crate::mir::BinOp, x: int, y: int) -> bool {
    match op {
        crate::mir::BinOp::Eq => x == y,
        crate::mir::BinOp::Ne => x != y,
        crate::mir::BinOp::Lt => x < y,
        crate::mir::BinOp::Le => x <= y,
        crate::mir::BinOp::Gt => x > y,
        crate::mir::BinOp::Ge => x >= y,
        _ => false,
    }
}

/// The truth of a symbolic predicate in a concrete state.
pub open spec fn holds_pred(s: CState, e: Expression) -> bool {
    match e {
        Expression::CmpConst(op, l, k) => cmp_int(op, s.vals[l as int], k as int),
        Expression::CmpLocals(op, a, b) => cmp_int(op, s.vals[a as int], s.vals[b as int]),
        Expression::CmpLen(op, a, v) => cmp_int(op, s.vals[a as int], s.lens[v as int]),
        Expression::Len(_) => false,
    }
}

/// What a symbolic entry for local `l` says of a concrete state.
pub open spec fn expr_binds(s: CState, l: int, e: Expression) -> bool {
    match e {
        Expression::Len(v) => s.vals[l] == s.lens[v as int],
        _ => s.vals[l] == if holds_pred(s, e) {
            1int
        } else {
            0int
        },
    }
}

/// The concretization: whether the concrete state is admitted by the
/// abstract one.
pub open spec fn sat(s: CState, m: EnvModel) -> bool {
    &&& !m.bottom
    &&& s.vals.len() == m.intervals.len()
    &&& forall|i: int| 0 <= i < m.intervals.len() ==> (#[trigger] m.intervals[i]).contains(
        s.vals[i],
    )
    &&& forall|i: int| 0 <= i < m.exprs.len() ==> ((#[trigger] m.exprs[i]) matches Some(e)
        ==> expr_binds(s, i, e))
    &&& forall|f: (Expression, bool)| #[trigger] m.facts.contains(f) ==> holds_pred(s, f.0)
        == f.1
}

/// What `assume_pred` returns: the predicate joins the fact set, and a
/// comparison of a local with a constant also narrows that local's
/// range; an unsatisfiable predicate makes the state unreachable.
pub open spec fn spec_assume(m: EnvModel, pred: Expression, truth: bool) -> EnvModel {
    if m.bottom {
        m
    } else {
        let refined = match pred {
            Expression::CmpConst(op, l, k) => if l < m.intervals.len() {
                match spec_constraint(op, k, truth) {
                    Refinement::NoRefine => m,
                    Refinement::Range(c) => match m.intervals[l as int].spec_meet(c) {
                        Some(mi) => EnvModel { intervals: m.intervals.update(l as int, mi), ..m },
                        None => EnvModel { bottom: true, ..m },
                    },
                }
            } else {
                m
            },
            _ => m,
        };
        if refined.bottom {
            refined
        } else if refined.facts.contains((pred, truth)) {
            refined
        } else {
            EnvModel { facts: refined.facts.push((pred, truth)), ..refined }
        }
    }
}

/// The model of the entry state: every local ranges over its type's
/// machine range and nothing else is known.
pub open spec fn top_model(types: Seq<crate::expression::ExpressionType>) -> EnvModel {
    EnvModel {
        intervals: Seq::new(types.len(), |i: int| crate::expression::spec_type_range(types[i])),
        exprs: Seq::new(types.len(), |i: int| None),
        facts: Seq::empty(),
        bottom: false,
    }
}

impl AbstractEnvironment {
    /// Restrict this state by a predicate known to come out as `truth`:
    /// record the fact and narrow the compared local's range.
    pub fn assume_pred(&self, pred: Expression, truth: bool) -> (r: AbstractEnvironment)
        requires
            self.wf(self.intervals@.len() as int),
        ensures
            r@ == spec_assume(self@, pred, truth),
            r.wf(self.intervals@.len() as int),
    {
        if self.bottom {
            return self.clone();
        }
        let mut r = self.clone();
        match pred {
            Expression::CmpConst(op, l, k) => {
                if l < r.intervals.len() {
                    match constraint(op, k, truth) {
                        Refinement::NoRefine => {},
                        Refinement::Range(c) => {
                            proof {
                                lemma_constraint_sound(op, k, truth, 0);
                            }
                            match r.intervals[l].meet(&c) {
                                Option::Some(mi) => {
                                    r.intervals.set(l, mi);
                                },
                                Option::None => {
                                    r.bottom = true;
                                },
                            }
                        },
                    }
                }
            },
            _ => {},
        }
        if r.bottom {
            return r;
        }
        if !contains_fact(&r.facts, &(pred, truth)) {
            r.facts.push((pred, truth));
        }
        r
    }
}

/// Restricting a state by a predicate yields a state below the given
/// one, and it keeps every concrete state the given one admits on
/// which the predicate comes out as claimed: the concretization of the
/// restriction includes the intersection of the concretization with
/// the predicate's meaning.
pub proof fn lemma_assume_sound(m: EnvModel, pred: Expression, truth: bool, s: CState)
    requires
        m.wf(m.intervals.len() as int),
    ensures
        spec_assume(m, pred, truth).le(m),
        sat(s, m) && holds_pred(s, pred) == truth ==> sat(s, spec_assume(m, pred, truth)),
{
    let r = spec_assume(m, pred, truth);
    if m.bottom {
        return;
    }
    let refined = match pred {
        Expression::CmpConst(op, l, k) => if l < m.intervals.len() {
            match spec_constraint(op, k, truth) {
                Refinement::NoRefine => m,
                Refinement::Range(c) => match m.intervals[l as int].spec_meet(c) {
                    Some(mi) => EnvModel { intervals: m.intervals.update(l as int, mi), ..m },
                    None => EnvModel { bottom: true, ..m },
                },
            }
        } else {
            m
        },
        _ => m,
    };
    match pred {
        Expression::CmpConst(op, l, k) => {
            if l < m.intervals.len() {
                lemma_constraint_sound(op, k, truth, s.vals[l as int]);
                match spec_constraint(op, k, truth) {
                    Refinement::Range(c) => {
                        lemma_meet_char_env(m.intervals[l as int], c);
                    },
                    _ => {},
                }
            }
        },
        _ => {},
    }
    assert(refined.le(m));
    assert forall|f: (Expression, bool)| refined.facts.contains(f) implies #[trigger] r
        .facts.contains(f) by {
        if !refined.bottom && !refined.facts.contains((pred, truth)) {
            let j = choose|j: int| 0 <= j < refined.facts.len() && refined.facts[j] == f;
            assert(r.facts[j] == f);
        }
    }
    assert(r.le(refined));
    lemma_env_le_order(r, refined, m);
    if sat(s, m) && holds_pred(s, pred) == truth {
        assert(sat(s, refined));
        if !refined.facts.contains((pred, truth)) {
            assert forall|f: (Expression, bool)| #[trigger] r.facts.contains(f) implies holds_pred(
                s,
                f.0,
            ) == f.1 by {
                let j = choose|j: int| 0 <= j < r.facts.len() && r.facts[j] == f;
                if j < refined.facts.len() {
                    assert(refined.facts.contains(f));
                } else {
                    assert(f == (pred, truth));
                }
            }
        }
        assert(sat(s, r));
    }
}

/// The meet of two well-formed intervals denotes their intersection.
proof fn lemma_meet_char_env(a: Interval, b: Interval)
    requires
        a.wf(),
        b.wf(),
    ensures
        match a.spec_meet(b) {
            Some(mi) => {
                &&& mi.wf()
                &&& forall|i: int| mi.contains(i) <==> a.contains(i) && b.contains(i)
            },
            None => forall|i: int| !(a.contains(i) && b.contains(i)),
        },
{
    crate::interval::lemma_meet_char(a, b);
}

/// Pointwise intersection of symbolic entries: an entry survives only
/// where both sides hold the same one.
pub fn exprs_common(a: &Vec<Option<Expression>>, b: &Vec<Option<Expression>>) -> (r: Vec<
    Option<Expression>,
>)
    requires
        a@.len() == b@.len(),
    ensures
        r@ == spec_exprs_common(a@, b@),
        r@.len() == a@.len(),
        forall|i: int| 0 <= i < a@.len() ==> r@[i] == (if a@[i] is Some && a@[i] == b@[i] {
            a@[i]
        } else {
            Option::<Expression>::None
        }),
{
    let n = a.len();
    let mut r: Vec<Option<Expression>> = Vec::new();
    let mut i: usize = 0;
    while i < n
        invariant
            0 <= i <= n,
            n == a@.len(),
            n == b@.len(),
            r@.len() == i,
            forall|j: int| 0 <= j < i ==> r@[j] == (if a@[j] is Some && a@[j] == b@[j] {
                a@[j]
            } else {
                Option::<Expression>::None
            }),
        decreases n - i,
    {
        match (&a[i], &b[i]) {
            (Option::Some(x), Option::Some(y)) => {
                if x == y {
                    r.push(Option::Some(*x));
                } else {
                    r.push(Option::None);
                }
            },
            _ => {
                r.push(Option::None);
            },
        }
        i = i + 1;
    }
    proof {
        assert(r@ =~= spec_exprs_common(a@, b@));
    }
    r
}

/// The facts common to both lists.
pub fn facts_common(a: &Vec<(Expression, bool)>, b: &Vec<(Expression, bool)>) -> (r: Vec<
    (Expression, bool),
>)
    ensures
        r@ == spec_facts_common(a@, b@),
        forall|f: (Expression, bool)| #[trigger] r@.contains(f) ==> a@.contains(f) && b@.contains(
            f,
        ),
        forall|f: (Expression, bool)| a@.contains(f) && #[trigger] b@.contains(f)
            ==> r@.contains(f),
{
    let n = a.len();
    let mut r: Vec<(Expression, bool)> = Vec::new();
    let mut i: usize = 0;
    while i < n
        invariant
            0 <= i <= n,
            n == a@.len(),
            r@ == spec_facts_common(a@.take(i as int), b@),
            forall|f: (Expression, bool)| #[trigger] r@.contains(f) ==> a@.contains(f)
                && b@.contains(f),
            forall|j: int| 0 <= j < i && b@.contains(#[trigger] a@[j]) ==> r@.contains(a@[j]),
        decreases n - i,
    {
        proof {
            assert(a@.take(i + 1 as int).drop_last() =~= a@.take(i as int));
            assert(a@.take(i + 1 as int).last() == a@[i as int]);
        }
        let ghost prev = r@;
        if contains_fact(b, &a[i]) {
            r.push(a[i]);
            proof {
                assert(a@.contains(a@[i as int]));
                assert forall|f: (Expression, bool)| #[trigger] r@.contains(f) implies a@.contains(
                    f,
                ) && b@.contains(f) by {
                    let j = choose|j: int| 0 <= j < r@.len() && r@[j] == f;
                    if j < prev.len() {
                        assert(prev[j] == f);
                        assert(prev.contains(f));
                    } else {
                        assert(f == a@[i as int]);
                    }
                }
                assert forall|j: int| 0 <= j < i + 1 && b@.contains(#[trigger] a@[j]) implies r
                    @.contains(a@[j]) by {
                    if j < i {
                        assert(prev.contains(a@[j]));
                        let k = choose|k: int| 0 <= k < prev.len() && prev[k] == a@[j];
                        assert(r@[k] == a@[j]);
                        assert(r@.contains(a@[j]));
                    } else {
                        assert(r@[r@.len() - 1] == a@[i as int]);
                        assert(r@.contains(a@[i as int]));
                    }
                }
            }
        } else {
            proof {
                assert forall|j: int| 0 <= j < i + 1 && b@.contains(#[trigger] a@[j]) implies r
                    @.contains(a@[j]) by {
                    if j < i {
                        assert(r@.contains(a@[j]));
                    } else {
                        assert(!b@.contains(a@[i as int]));
                    }
                }
            }
        }
        i = i + 1;
    }
    assert forall|f: (Expression, bool)| a@.contains(f) && #[trigger] b@.contains(f) implies r
        @.contains(f) by {
        let j = choose|j: int| 0 <= j < a@.len() && a@[j] == f;
        assert(b@.contains(a@[j]));
    }
    proof {
        assert(a@.take(n as int) =~= a@);
    }
    r
}

/// Whether the fact list holds the given entry.
pub fn contains_fact(facts: &Vec<(Expression, bool)>, f: &(Expression, bool)) -> (r: bool)
    ensures
        r == facts@.contains(*f),
{
    let mut i: usize = 0;
    while i < facts.len()
        invariant
            0 <= i <= facts@.len(),
            forall|j: int| 0 <= j < i ==> facts@[j] != *f,
        decreases facts@.len() - i,
    {
        if facts[i].0 == f.0 && facts[i].1 == f.1 {
            assert(facts@[i as int] == *f);
            return true;
        }
        i = i + 1;
    }
    false
}

} // verus!
