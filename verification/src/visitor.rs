//! The transfer function: how one statement or terminator of the
//! intermediate representation transforms an abstract environment.
//! Every executable step is pinned to a specification twin, so the
//! fixed-point iterator's guarantees can be stated over the models.

use vstd::prelude::*;
use crate::environment::{AbstractEnvironment, EnvModel, spec_assume};
use crate::expression::{Expression, ExpressionType, spec_type_range};
use crate::interval::{Bound, Interval};
use crate::mir::{BinOp, Operand, Rvalue, Statement};

verus! {

/// The range of every integer.
pub open spec fn spec_full_top() -> Interval {
    Interval { lo: Bound::NegInf, hi: Bound::PosInf }
}

/// Whether the operator is a comparison.
pub open spec fn spec_is_cmp(op: BinOp) -> bool {
    match op {
        BinOp::Eq | BinOp::Ne | BinOp::Lt | BinOp::Le | BinOp::Gt | BinOp::Ge => true,
        _ => false,
    }
}

/// Decide whether the operator is a comparison.
pub fn is_cmp(op: BinOp) -> (r: bool)
    ensures
        r == spec_is_cmp(op),
{
    match op {
        BinOp::Eq | BinOp::Ne | BinOp::Lt | BinOp::Le | BinOp::Gt | BinOp::Ge => true,
        _ => false,
    }
}

/// The range of an operand: a constant denotes itself, a local its
/// tracked range.
pub open spec fn spec_eval_operand(m: EnvModel, op: Operand) -> Interval {
    match op {
        Operand::Constant(k, _) => Interval { lo: Bound::Fin(k), hi: Bound::Fin(k) },
        Operand::Copy(l) => if l < m.intervals.len() {
            m.intervals[l as int]
        } else {
            spec_full_top()
        },
        Operand::Move(l) => if l < m.intervals.len() {
            m.intervals[l as int]
        } else {
            spec_full_top()
        },
    }
}

/// Evaluate an operand's range.
pub fn eval_operand(env: &AbstractEnvironment, op: &Operand) -> (r: Interval)
    requires
        env.wf(env.intervals@.len() as int),
    ensures
        r == spec_eval_operand(env@, *op),
        r.wf(),
{
    match op {
        Operand::Constant(k, _) => Interval { lo: Bound::Fin(*k), hi: Bound::Fin(*k) },
        Operand::Copy(l) => if *l < env.intervals.len() {
            env.intervals[*l]
        } else {
            Interval { lo: Bound::NegInf, hi: Bound::PosInf }
        },
        Operand::Move(l) => if *l < env.intervals.len() {
            env.intervals[*l]
        } else {
            Interval { lo: Bound::NegInf, hi: Bound::PosInf }
        },
    }
}

/// The range of a right-hand side: sums and differences are computed
/// by interval arithmetic; comparisons denote a truth value; the other
/// operators are approximated by the full range, which is sound.
pub open spec fn spec_eval_rvalue(m: EnvModel, rv: Rvalue) -> Interval {
    match rv {
        Rvalue::Use(op) => spec_eval_operand(m, op),
        Rvalue::BinaryOp(op, a, b) => match op {
            BinOp::Add => spec_eval_operand(m, a).spec_add(spec_eval_operand(m, b)),
            BinOp::Sub => spec_eval_operand(m, a).spec_sub(spec_eval_operand(m, b)),
            _ => if spec_is_cmp(op) {
                Interval { lo: Bound::Fin(0), hi: Bound::Fin(1) }
            } else {
                spec_full_top()
            },
        },
        Rvalue::Neg(op) => spec_eval_operand(m, op).spec_neg(),
        Rvalue::Len(_) => Interval { lo: Bound::Fin(0), hi: Bound::PosInf },
        Rvalue::IndexRead(_, _) => spec_full_top(),
    }
}

/// Evaluate a right-hand side's range.
pub fn eval_rvalue(env: &AbstractEnvironment, rv: &Rvalue) -> (r: Interval)
    requires
        env.wf(env.intervals@.len() as int),
    ensures
        r == spec_eval_rvalue(env@, *rv),
        r.wf(),
{
    match rv {
        Rvalue::Use(op) => eval_operand(env, op),
        Rvalue::BinaryOp(op, a, b) => match op {
            BinOp::Add => eval_operand(env, a).add(&eval_operand(env, b)),
            BinOp::Sub => eval_operand(env, a).sub(&eval_operand(env, b)),
            _ => if is_cmp(*op) {
                Interval { lo: Bound::Fin(0), hi: Bound::Fin(1) }
            } else {
                Interval { lo: Bound::NegInf, hi: Bound::PosInf }
            },
        },
        Rvalue::Neg(op) => eval_operand(env, op).neg(),
        Rvalue::Len(_) => Interval { lo: Bound::Fin(0), hi: Bound::PosInf },
        Rvalue::IndexRead(_, _) => Interval { lo: Bound::NegInf, hi: Bound::PosInf },
    }
}

/// The symbolic value recorded for the destination `l`: comparisons
/// and lengths are kept in symbolic form, as long as they do not
/// mention the destination itself.
pub open spec fn spec_expr_of_rvalue(rv: Rvalue, l: usize) -> Option<Expression> {
    match rv {
        Rvalue::BinaryOp(op, a, b) => if spec_is_cmp(op) {
            match (a, b) {
                (Operand::Copy(x), Operand::Constant(k, _)) => if x != l {
                    Some(Expression::CmpConst(op, x, k))
                } else {
                    None
                },
                (Operand::Move(x), Operand::Constant(k, _)) => if x != l {
                    Some(Expression::CmpConst(op, x, k))
                } else {
                    None
                },
                (Operand::Copy(x), Operand::Copy(y)) => if x != l && y != l {
                    Some(Expression::CmpLocals(op, x, y))
                } else {
                    None
                },
                (Operand::Copy(x), Operand::Move(y)) => if x != l && y != l {
                    Some(Expression::CmpLocals(op, x, y))
                } else {
                    None
                },
                (Operand::Move(x), Operand::Copy(y)) => if x != l && y != l {
                    Some(Expression::CmpLocals(op, x, y))
                } else {
                    None
                },
                (Operand::Move(x), Operand::Move(y)) => if x != l && y != l {
                    Some(Expression::CmpLocals(op, x, y))
                } else {
                    None
                },
                _ => None,
            }
        } else {
            None
        },
        Rvalue::Len(v) => if v != l {
            Some(Expression::Len(v))
        } else {
            None
        },
        _ => None,
    }
}

/// Record the symbolic value of an assignment.
pub fn expr_of_rvalue(rv: &Rvalue, l: usize) -> (r: Option<Expression>)
    ensures
        r == spec_expr_of_rvalue(*rv, l),
{
    match rv {
        Rvalue::BinaryOp(op, a, b) => if is_cmp(*op) {
            match (a, b) {
                (Operand::Copy(x), Operand::Constant(k, _)) => if *x != l {
                    Some(Expression::CmpConst(*op, *x, *k))
                } else {
                    None
                },
                (Operand::Move(x), Operand::Constant(k, _)) => if *x != l {
                    Some(Expression::CmpConst(*op, *x, *k))
                } else {
                    None
                },
                (Operand::Copy(x), Operand::Copy(y)) => if *x != l && *y != l {
                    Some(Expression::CmpLocals(*op, *x, *y))
                } else {
                    None
                },
                (Operand::Copy(x), Operand::Move(y)) => if *x != l && *y != l {
                    Some(Expression::CmpLocals(*op, *x, *y))
                } else {
                    None
                },
                (Operand::Move(x), Operand::Copy(y)) => if *x != l && *y != l {
                    Some(Expression::CmpLocals(*op, *x, *y))
                } else {
                    None
                },
                (Operand::Move(x), Operand::Move(y)) => if *x != l && *y != l {
                    Some(Expression::CmpLocals(*op, *x, *y))
                } else {
                    None
                },
                _ => None,
            }
        } else {
            None
        },
        Rvalue::Len(v) => if *v != l {
            Some(Expression::Len(*v))
        } else {
            None
        },
        _ => None,
    }
}

/// Whether the symbolic expression mentions the local.
pub open spec fn spec_mentions(e: Expression, l: usize) -> bool {
    match e {
        Expression::CmpConst(_, a, _) => a == l,
        Expression::CmpLocals(_, a, b) => a == l || b == l,
        Expression::CmpLen(_, a, v) => a == l || v == l,
        Expression::Len(v) => v == l,
    }
}

/// Decide whether the expression mentions the local.
pub fn mentions(e: &Expression, l: usize) -> (r: bool)
    ensures
        r == spec_mentions(*e, l),
{
    match e {
        Expression::CmpConst(_, a, _) => *a == l,
        Expression::CmpLocals(_, a, b) => *a == l || *b == l,
        Expression::CmpLen(_, a, v) => *a == l || *v == l,
        Expression::Len(v) => *v == l,
    }
}

/// The facts that survive a write to local `l`: those not mentioning
/// it.
pub open spec fn spec_drop_facts(s: Seq<(Expression, bool)>, l: usize) -> Seq<(Expression, bool)>
    decreases s.len(),
{
    if s.len() == 0 {
        Seq::empty()
    } else {
        let rest = spec_drop_facts(s.drop_last(), l);
        if spec_mentions(s.last().0, l) {
            rest
        } else {
            rest.push(s.last())
        }
    }
}

/// Drop the facts mentioning the overwritten local.
pub fn drop_facts(facts: &Vec<(Expression, bool)>, l: usize) -> (r: Vec<(Expression, bool)>)
    ensures
        r@ == spec_drop_facts(facts@, l),
{
    let n = facts.len();
    let mut r: Vec<(Expression, bool)> = Vec::new();
    let mut i: usize = 0;
    while i < n
        invariant
            0 <= i <= n,
            n == facts@.len(),
            r@ == spec_drop_facts(facts@.take(i as int), l),
        decreases n - i,
    {
        proof {
            assert(facts@.take(i + 1 as int).drop_last() =~= facts@.take(i as int));
            assert(facts@.take(i + 1 as int).last() == facts@[i as int]);
        }
        if !mentions(&facts[i].0, l) {
            r.push(facts[i]);
        }
        i = i + 1;
    }
    proof {
        assert(facts@.take(n as int) =~= facts@);
    }
    r
}

/// The symbolic entries that survive a write to local `l`: the entry
/// for `l` itself is replaced by `new_entry`, and every other entry
/// mentioning `l` is dropped.
pub open spec fn spec_update_exprs(
    s: Seq<Option<Expression>>,
    l: usize,
    new_entry: Option<Expression>,
) -> Seq<Option<Expression>> {
    Seq::new(
        s.len(),
        |i: int| if i == l as int {
            new_entry
        } else {
            match s[i] {
                Some(e) => if spec_mentions(e, l) {
                    None
                } else {
                    Some(e)
                },
                None => None,
            }
        },
    )
}

/// Update the symbolic entries for a write to `l`.
pub fn update_exprs(exprs: &Vec<Option<Expression>>, l: usize, new_entry: Option<Expression>) -> (r:
    Vec<Option<Expression>>)
    ensures
        r@ == spec_update_exprs(exprs@, l, new_entry),
{
    let n = exprs.len();
    let mut r: Vec<Option<Expression>> = Vec::new();
    let mut i: usize = 0;
    while i < n
        invariant
            0 <= i <= n,
            n == exprs@.len(),
            r@.len() == i,
            forall|j: int| 0 <= j < i ==> r@[j] == spec_update_exprs(exprs@, l, new_entry)[j],
        decreases n - i,
    {
        if i == l {
            r.push(new_entry);
        } else {
            match &exprs[i] {
                Option::Some(e) => {
                    if mentions(e, l) {
                        r.push(Option::None);
                    } else {
                        r.push(Option::Some(*e));
                    }
                },
                Option::None => {
                    r.push(Option::None);
                },
            }
        }
        i = i + 1;
    }
    proof {
        assert(r@ =~= spec_update_exprs(exprs@, l, new_entry));
    }
    r
}

/// What an assignment does to the model: the destination's range is
/// the right-hand side's, its symbolic entry is the recorded one, and
/// everything that mentioned the old value is dropped.
pub open spec fn spec_assign(m: EnvModel, l: usize, rv: Rvalue) -> EnvModel {
    EnvModel {
        intervals: m.intervals.update(l as int, spec_eval_rvalue(m, rv)),
        exprs: spec_update_exprs(m.exprs, l, spec_expr_of_rvalue(rv, l)),
        facts: spec_drop_facts(m.facts, l),
        bottom: m.bottom,
    }
}

/// What forgetting a local does to the model: its range becomes the
/// full range and everything mentioning it is dropped.
pub open spec fn spec_forget(m: EnvModel, l: usize) -> EnvModel {
    EnvModel {
        intervals: m.intervals.update(l as int, spec_full_top()),
        exprs: spec_update_exprs(m.exprs, l, None),
        facts: spec_drop_facts(m.facts, l),
        bottom: m.bottom,
    }
}

/// What one statement does to the model.
pub open spec fn spec_transfer_stmt(m: EnvModel, s: Statement) -> EnvModel {
    if m.bottom {
        m
    } else {
        match s {
            Statement::Assign(l, rv) => if l < m.intervals.len() {
                spec_assign(m, l, rv)
            } else {
                m
            },
            Statement::IndexWrite(_, _, _) => m,
            Statement::StorageLive(_) => m,
            Statement::StorageDead(l) => if l < m.intervals.len() {
                spec_forget(m, l)
            } else {
                m
            },
            Statement::Nop => m,
        }
    }
}

/// Apply one statement.
pub fn transfer_stmt(env: &AbstractEnvironment, s: &Statement) -> (r: AbstractEnvironment)
    requires
        env.wf(env.intervals@.len() as int),
    ensures
        r@ == spec_transfer_stmt(env@, *s),
        r.wf(env.intervals@.len() as int),
{
    if env.bottom {
        return env.clone();
    }
    match s {
        Statement::Assign(l, rv) => {
            if *l < env.intervals.len() {
                let iv = eval_rvalue(env, rv);
                let entry = expr_of_rvalue(rv, *l);
                let mut intervals = crate::environment::copy_vec(&env.intervals);
                intervals.set(*l, iv);
                AbstractEnvironment {
                    intervals,
                    exprs: update_exprs(&env.exprs, *l, entry),
                    facts: drop_facts(&env.facts, *l),
                    bottom: env.bottom,
                }
            } else {
                env.clone()
            }
        },
        Statement::IndexWrite(_, _, _) => env.clone(),
        Statement::StorageLive(_) => env.clone(),
        Statement::StorageDead(l) => {
            if *l < env.intervals.len() {
                forget_local(env, *l)
            } else {
                env.clone()
            }
        },
        Statement::Nop => env.clone(),
    }
}

/// Forget everything about one local.
fn forget_local(env: &AbstractEnvironment, l: usize) -> (r: AbstractEnvironment)
    requires
        env.wf(env.intervals@.len() as int),
        l < env.intervals@.len(),
    ensures
        r@ == spec_forget(env@, l),
        r.wf(env.intervals@.len() as int),
{
    let mut intervals = crate::environment::copy_vec(&env.intervals);
    intervals.set(l, Interval { lo: Bound::NegInf, hi: Bound::PosInf });
    AbstractEnvironment {
        intervals,
        exprs: update_exprs(&env.exprs, l, Option::None),
        facts: drop_facts(&env.facts, l),
        bottom: env.bottom,
    }
}

/// What a block's statement list does to the model, first to last.
pub open spec fn spec_transfer_stmts(m: EnvModel, stmts: Seq<Statement>) -> EnvModel
    decreases stmts.len(),
{
    if stmts.len() == 0 {
        m
    } else {
        spec_transfer_stmt(spec_transfer_stmts(m, stmts.drop_last()), stmts.last())
    }
}

/// Apply a block's statements in order.
pub fn transfer_stmts(env: &AbstractEnvironment, stmts: &Vec<Statement>) -> (r:
    AbstractEnvironment)
    requires
        env.wf(env.intervals@.len() as int),
    ensures
        r@ == spec_transfer_stmts(env@, stmts@),
        r.wf(env.intervals@.len() as int),
{
    let n = stmts.len();
    let ghost n_locals = env.intervals@.len() as int;
    let mut cur = env.clone();
    let mut i: usize = 0;
    while i < n
        invariant
            0 <= i <= n,
            n == stmts@.len(),
            cur@ == spec_transfer_stmts(env@, stmts@.take(i as int)),
            cur.wf(n_locals),
            n_locals == env.intervals@.len() as int,
            env.wf(n_locals),
        decreases n - i,
    {
        proof {
            assert(stmts@.take(i + 1 as int).drop_last() =~= stmts@.take(i as int));
            assert(stmts@.take(i + 1 as int).last() == stmts@[i as int]);
        }
        cur = transfer_stmt(&cur, &stmts[i]);
        i = i + 1;
    }
    proof {
        assert(stmts@.take(n as int) =~= stmts@);
    }
    cur
}

/// The branch assumptions a switch on local `l` justifies when the
/// branch fixes the local's truth value: the tracked comparison is
/// assumed with that truth, and when it compares against a tracked
/// length, the length form of the fact is recorded as well.
pub open spec fn spec_assume_truth(m: EnvModel, l: usize, truth: bool) -> EnvModel {
    if l < m.exprs.len() {
        match m.exprs[l as int] {
            Some(e) => match e {
                Expression::Len(_) => m,
                Expression::CmpLocals(op, a, b) => {
                    let m1 = spec_assume(m, e, truth);
                    if b < m.exprs.len() {
                        match m.exprs[b as int] {
                            Some(be) => match be {
                                Expression::Len(v) => spec_assume(
                                    m1,
                                    Expression::CmpLen(op, a, v),
                                    truth,
                                ),
                                _ => m1,
                            },
                            None => m1,
                        }
                    } else {
                        m1
                    }
                },
                _ => spec_assume(m, e, truth),
            },
            None => m,
        }
    } else {
        m
    }
}

/// Assume the truth of the comparison a branch fixes.
pub fn assume_truth(env: &AbstractEnvironment, l: usize, truth: bool) -> (r: AbstractEnvironment)
    requires
        env.wf(env.intervals@.len() as int),
        env.exprs@.len() == env.intervals@.len(),
    ensures
        r@ == spec_assume_truth(env@, l, truth),
        r.wf(env.intervals@.len() as int),
{
    if l < env.exprs.len() {
        match &env.exprs[l] {
            Option::Some(e) => match e {
                Expression::Len(_) => env.clone(),
                Expression::CmpLocals(op, a, b) => {
                    let m1 = env.assume_pred(Expression::CmpLocals(*op, *a, *b), truth);
                    if *b < env.exprs.len() {
                        match &env.exprs[*b] {
                            Option::Some(be) => match be {
                                Expression::Len(v) => m1.assume_pred(
                                    Expression::CmpLen(*op, *a, *v),
                                    truth,
                                ),
                                _ => m1,
                            },
                            Option::None => m1,
                        }
                    } else {
                        m1
                    }
                },
                _ => env.assume_pred(*e, truth),
            },
            Option::None => env.clone(),
        }
    } else {
        env.clone()
    }
}

/// How an asserted check comes out in an abstract state.
#[derive(Clone, Copy, PartialEq, Eq, Structural, Debug)]
pub enum CheckOutcome {
    /// The check definitely passes.
    Passes,
    /// The check definitely fails.
    Fails,
    /// The abstract state decides neither way.
    Undecided,
}

/// The static type of an operand.
pub open spec fn spec_type_of_operand(types: Seq<ExpressionType>, op: Operand) -> ExpressionType {
    match op {
        Operand::Constant(_, t) => t,
        Operand::Copy(l) => if l < types.len() {
            types[l as int]
        } else {
            ExpressionType::NonPrimitive
        },
        Operand::Move(l) => if l < types.len() {
            types[l as int]
        } else {
            ExpressionType::NonPrimitive
        },
    }
}

/// The static type of an operand.
pub fn type_of_operand(types: &Vec<ExpressionType>, op: &Operand) -> (r: ExpressionType)
    ensures
        r == spec_type_of_operand(types@, *op),
{
    match op {
        Operand::Constant(_, t) => *t,
        Operand::Copy(l) => if *l < types.len() {
            types[*l]
        } else {
            ExpressionType::NonPrimitive
        },
        Operand::Move(l) => if *l < types.len() {
            types[*l]
        } else {
            ExpressionType::NonPrimitive
        },
    }
}

/// Whether the range lies within the type's machine range: the check
/// passes when it does, fails when the two are disjoint.
pub open spec fn spec_range_check(iv: Interval, range: Interval) -> CheckOutcome {
    if iv.spec_le(range) {
        CheckOutcome::Passes
    } else if iv.spec_meet(range) is None {
        CheckOutcome::Fails
    } else {
        CheckOutcome::Undecided
    }
}

/// How an asserted check comes out: a check against the machine range
/// is decided by interval arithmetic; a zero-divisor or bounds check is
/// also discharged by a fact recorded on this path.
pub open spec fn spec_assert_ok(m: EnvModel, types: Seq<ExpressionType>, kind: crate::mir::AssertKind) -> CheckOutcome {
    match kind {
        crate::mir::AssertKind::Overflow(op, a, b) => {
            let iv = spec_eval_rvalue(m, Rvalue::BinaryOp(op, a, b));
            spec_range_check(iv, spec_type_range(spec_type_of_operand(types, a)))
        },
        crate::mir::AssertKind::OverflowNeg(a) => {
            let iv = spec_eval_rvalue(m, Rvalue::Neg(a));
            spec_range_check(iv, spec_type_range(spec_type_of_operand(types, a)))
        },
        crate::mir::AssertKind::DivisionByZero(a) => spec_nonzero_check(m, a),
        crate::mir::AssertKind::RemainderByZero(a) => spec_nonzero_check(m, a),
        crate::mir::AssertKind::BoundsCheck { len, index } => spec_bounds_check(m, len, index),
        crate::mir::AssertKind::Panic => CheckOutcome::Fails,
    }
}

/// Whether the divisor is certainly nonzero, certainly zero, or
/// unknown.
pub open spec fn spec_nonzero_check(m: EnvModel, a: Operand) -> CheckOutcome {
    let iv = spec_eval_operand(m, a);
    if !iv.contains(0) {
        CheckOutcome::Passes
    } else if iv == (Interval { lo: Bound::Fin(0i64), hi: Bound::Fin(0i64) }) {
        CheckOutcome::Fails
    } else {
        match a {
            Operand::Copy(l) => spec_nonzero_by_fact(m, l),
            Operand::Move(l) => spec_nonzero_by_fact(m, l),
            _ => CheckOutcome::Undecided,
        }
    }
}

/// A recorded fact that the local differs from zero discharges the
/// check.
pub open spec fn spec_nonzero_by_fact(m: EnvModel, l: usize) -> CheckOutcome {
    if m.facts.contains((Expression::CmpConst(BinOp::Eq, l, 0i64), false)) || m.facts.contains(
        (Expression::CmpConst(BinOp::Ne, l, 0i64), true),
    ) {
        CheckOutcome::Passes
    } else {
        CheckOutcome::Undecided
    }
}

/// Whether the index certainly stays below the length, certainly does
/// not, or neither: decided by the ranges, or by a recorded fact that
/// the index is below the tracked length the length operand holds.
pub open spec fn spec_bounds_check(m: EnvModel, len: Operand, index: Operand) -> CheckOutcome {
    let li = spec_eval_operand(m, len);
    let ii = spec_eval_operand(m, index);
    if match (ii.hi, li.lo) {
        (Bound::Fin(ih), Bound::Fin(ll)) => ih < ll,
        _ => false,
    } {
        CheckOutcome::Passes
    } else if match (ii.lo, li.hi) {
        (Bound::Fin(il), Bound::Fin(lh)) => il >= lh,
        _ => false,
    } {
        CheckOutcome::Fails
    } else {
        match (index, len) {
            (Operand::Copy(i), Operand::Copy(ll)) => spec_bounds_by_fact(m, i, ll),
            (Operand::Copy(i), Operand::Move(ll)) => spec_bounds_by_fact(m, i, ll),
            (Operand::Move(i), Operand::Copy(ll)) => spec_bounds_by_fact(m, i, ll),
            (Operand::Move(i), Operand::Move(ll)) => spec_bounds_by_fact(m, i, ll),
            _ => CheckOutcome::Undecided,
        }
    }
}

/// A recorded fact that the index is below the slice's length, where
/// the length operand is tracked as that slice's length, discharges
/// the check.
pub open spec fn spec_bounds_by_fact(m: EnvModel, i: usize, ll: usize) -> CheckOutcome {
    if ll < m.exprs.len() {
        match m.exprs[ll as int] {
            Some(e) => match e {
                Expression::Len(v) => if m.facts.contains(
                    (Expression::CmpLen(BinOp::Lt, i, v), true),
                ) {
                    CheckOutcome::Passes
                } else {
                    CheckOutcome::Undecided
                },
                _ => CheckOutcome::Undecided,
            },
            None => CheckOutcome::Undecided,
        }
    } else {
        CheckOutcome::Undecided
    }
}

/// Decide how an asserted check comes out.
pub fn assert_ok(env: &AbstractEnvironment, types: &Vec<ExpressionType>, kind: &crate::mir::AssertKind) -> (r: CheckOutcome)
    requires
        env.wf(env.intervals@.len() as int),
    ensures
        r == spec_assert_ok(env@, types@, *kind),
{
    match kind {
        crate::mir::AssertKind::Overflow(op, a, b) => {
            let iv = eval_rvalue(env, &Rvalue::BinaryOp(*op, *a, *b));
            range_check(iv, crate::expression::type_range(&type_of_operand(types, a)))
        },
        crate::mir::AssertKind::OverflowNeg(a) => {
            let iv = eval_rvalue(env, &Rvalue::Neg(*a));
            range_check(iv, crate::expression::type_range(&type_of_operand(types, a)))
        },
        crate::mir::AssertKind::DivisionByZero(a) => nonzero_check(env, a),
        crate::mir::AssertKind::RemainderByZero(a) => nonzero_check(env, a),
        crate::mir::AssertKind::BoundsCheck { len, index } => bounds_check(env, len, index),
        crate::mir::AssertKind::Panic => CheckOutcome::Fails,
    }
}

/// Decide a check of a range against a type's machine range.
fn range_check(iv: Interval, range: Interval) -> (r: CheckOutcome)
    requires
        iv.wf(),
        range.wf(),
    ensures
        r == spec_range_check(iv, range),
{
    if iv.le(&range) {
        CheckOutcome::Passes
    } else if iv.meet(&range).is_none() {
        CheckOutcome::Fails
    } else {
        CheckOutcome::Undecided
    }
}

/// Decide whether the divisor is nonzero.
fn nonzero_check(env: &AbstractEnvironment, a: &Operand) -> (r: CheckOutcome)
    requires
        env.wf(env.intervals@.len() as int),
    ensures
        r == spec_nonzero_check(env@, *a),
{
    let iv = eval_operand(env, a);
    let zero = Interval { lo: Bound::Fin(0), hi: Bound::Fin(0) };
    if !(crate::interval::bound_le_exec(iv.lo, Bound::Fin(0)) && crate::interval::bound_le_exec(
        Bound::Fin(0),
        iv.hi,
    )) {
        assert(!iv.contains(0));
        CheckOutcome::Passes
    } else if iv.lo == Bound::Fin(0) && iv.hi == Bound::Fin(0) {
        CheckOutcome::Fails
    } else {
        assert(iv.contains(0));
        match a {
            Operand::Copy(l) => nonzero_by_fact(env, *l),
            Operand::Move(l) => nonzero_by_fact(env, *l),
            _ => CheckOutcome::Undecided,
        }
    }
}

/// Look for a recorded fact that the local differs from zero.
fn nonzero_by_fact(env: &AbstractEnvironment, l: usize) -> (r: CheckOutcome)
    ensures
        r == spec_nonzero_by_fact(env@, l),
{
    if crate::environment::contains_fact(&env.facts, &(Expression::CmpConst(BinOp::Eq, l, 0), false))
        || crate::environment::contains_fact(
        &env.facts,
        &(Expression::CmpConst(BinOp::Ne, l, 0), true),
    ) {
        CheckOutcome::Passes
    } else {
        CheckOutcome::Undecided
    }
}

/// Decide whether the index stays below the length.
fn bounds_check(env: &AbstractEnvironment, len: &Operand, index: &Operand) -> (r: CheckOutcome)
    requires
        env.wf(env.intervals@.len() as int),
    ensures
        r == spec_bounds_check(env@, *len, *index),
{
    let li = eval_operand(env, len);
    let ii = eval_operand(env, index);
    let passes = match (ii.hi, li.lo) {
        (Bound::Fin(ih), Bound::Fin(ll)) => ih < ll,
        _ => false,
    };
    if passes {
        return CheckOutcome::Passes;
    }
    let fails = match (ii.lo, li.hi) {
        (Bound::Fin(il), Bound::Fin(lh)) => il >= lh,
        _ => false,
    };
    if fails {
        return CheckOutcome::Fails;
    }
    match (index, len) {
        (Operand::Copy(i), Operand::Copy(ll)) => bounds_by_fact(env, *i, *ll),
        (Operand::Copy(i), Operand::Move(ll)) => bounds_by_fact(env, *i, *ll),
        (Operand::Move(i), Operand::Copy(ll)) => bounds_by_fact(env, *i, *ll),
        (Operand::Move(i), Operand::Move(ll)) => bounds_by_fact(env, *i, *ll),
        _ => CheckOutcome::Undecided,
    }
}

/// Look for a recorded fact discharging the bounds check.
fn bounds_by_fact(env: &AbstractEnvironment, i: usize, ll: usize) -> (r: CheckOutcome)
    ensures
        r == spec_bounds_by_fact(env@, i, ll),
{
    if ll < env.exprs.len() {
        match &env.exprs[ll] {
            Option::Some(e) => match e {
                Expression::Len(v) => {
                    if crate::environment::contains_fact(
                        &env.facts,
                        &(Expression::CmpLen(BinOp::Lt, i, *v), true),
                    ) {
                        CheckOutcome::Passes
                    } else {
                        CheckOutcome::Undecided
                    }
                },
                _ => CheckOutcome::Undecided,
            },
            Option::None => CheckOutcome::Undecided,
        }
    } else {
        CheckOutcome::Undecided
    }
}

/// The state with the passed check assumed, used on the fall-through
/// edge of an undecided assertion.
pub open spec fn spec_assert_assume(m: EnvModel, kind: crate::mir::AssertKind) -> EnvModel {
    match kind {
        crate::mir::AssertKind::DivisionByZero(a) => match a {
            Operand::Copy(l) => spec_assume(m, Expression::CmpConst(BinOp::Eq, l, 0i64), false),
            Operand::Move(l) => spec_assume(m, Expression::CmpConst(BinOp::Eq, l, 0i64), false),
            _ => m,
        },
        crate::mir::AssertKind::RemainderByZero(a) => match a {
            Operand::Copy(l) => spec_assume(m, Expression::CmpConst(BinOp::Eq, l, 0i64), false),
            Operand::Move(l) => spec_assume(m, Expression::CmpConst(BinOp::Eq, l, 0i64), false),
            _ => m,
        },
        crate::mir::AssertKind::BoundsCheck { len, index } => match (index, len) {
            (Operand::Copy(i), Operand::Constant(n, _)) => spec_assume(
                m,
                Expression::CmpConst(BinOp::Lt, i, n),
                true,
            ),
            (Operand::Move(i), Operand::Constant(n, _)) => spec_assume(
                m,
                Expression::CmpConst(BinOp::Lt, i, n),
                true,
            ),
            _ => m,
        },
        _ => m,
    }
}

/// The state flowing into the switch target that fixes the
/// discriminant to `val`: the discriminant's value is assumed, and a
/// tracked comparison it holds is assumed with the matching truth.
pub open spec fn spec_switch_target_env(m: EnvModel, disc: Operand, val: i64) -> EnvModel {
    match disc {
        Operand::Constant(k, _) => if k == val {
            m
        } else {
            EnvModel { bottom: true, ..m }
        },
        Operand::Copy(l) => spec_switch_local_env(m, l, val),
        Operand::Move(l) => spec_switch_local_env(m, l, val),
    }
}

/// The branch state for a switch on a local.
pub open spec fn spec_switch_local_env(m: EnvModel, l: usize, val: i64) -> EnvModel {
    let m1 = spec_assume(m, Expression::CmpConst(BinOp::Eq, l, val), true);
    if val == 0 {
        spec_assume_truth(m1, l, false)
    } else if val == 1 {
        spec_assume_truth(m1, l, true)
    } else {
        m1
    }
}

/// The state flowing into the `otherwise` block: when the listed
/// targets are exactly the zero value, the discriminant is a truth
/// value known to be nonzero there.
pub open spec fn spec_switch_otherwise_env(
    m: EnvModel,
    disc: Operand,
    targets: Seq<(i64, usize)>,
) -> EnvModel {
    match disc {
        Operand::Constant(k, _) => if exists|i: int| 0 <= i < targets.len() && (#[trigger] targets[i]).0 == k {
            EnvModel { bottom: true, ..m }
        } else {
            m
        },
        Operand::Copy(l) => spec_switch_otherwise_local(m, l, targets),
        Operand::Move(l) => spec_switch_otherwise_local(m, l, targets),
    }
}

/// The `otherwise` state for a switch on a local.
pub open spec fn spec_switch_otherwise_local(
    m: EnvModel,
    l: usize,
    targets: Seq<(i64, usize)>,
) -> EnvModel {
    if targets.len() == 1 && targets[0].0 == 0i64 {
        spec_assume_truth(spec_assume(m, Expression::CmpConst(BinOp::Ne, l, 0i64), true), l, true)
    } else {
        m
    }
}

/// Compute the branch state of one switch target.
pub fn switch_target_env(env: &AbstractEnvironment, disc: &Operand, val: i64) -> (r:
    AbstractEnvironment)
    requires
        env.wf(env.intervals@.len() as int),
    ensures
        r@ == spec_switch_target_env(env@, *disc, val),
        r.wf(env.intervals@.len() as int),
{
    match disc {
        Operand::Constant(k, _) => if *k == val {
            env.clone()
        } else {
            env.to_bottom()
        },
        Operand::Copy(l) => switch_local_env(env, *l, val),
        Operand::Move(l) => switch_local_env(env, *l, val),
    }
}

/// Compute the branch state of a switch on a local.
fn switch_local_env(env: &AbstractEnvironment, l: usize, val: i64) -> (r: AbstractEnvironment)
    requires
        env.wf(env.intervals@.len() as int),
    ensures
        r@ == spec_switch_local_env(env@, l, val),
        r.wf(env.intervals@.len() as int),
{
    let m1 = env.assume_pred(Expression::CmpConst(BinOp::Eq, l, val), true);
    proof {
        assert(m1@.exprs == env@.exprs);
    }
    if val == 0 {
        assume_truth(&m1, l, false)
    } else if val == 1 {
        assume_truth(&m1, l, true)
    } else {
        m1
    }
}

/// Compute the `otherwise` state of a switch.
pub fn switch_otherwise_env(
    env: &AbstractEnvironment,
    disc: &Operand,
    targets: &Vec<(i64, usize)>,
) -> (r: AbstractEnvironment)
    requires
        env.wf(env.intervals@.len() as int),
    ensures
        r@ == spec_switch_otherwise_env(env@, *disc, targets@),
        r.wf(env.intervals@.len() as int),
{
    match disc {
        Operand::Constant(k, _) => {
            let mut hit = false;
            let mut i: usize = 0;
            while i < targets.len()
                invariant
                    0 <= i <= targets@.len(),
                    hit == exists|j: int| 0 <= j < i && (#[trigger] targets@[j]).0 == *k,
                decreases targets@.len() - i,
            {
                if targets[i].0 == *k {
                    hit = true;
                }
                i = i + 1;
            }
            if hit {
                env.to_bottom()
            } else {
                env.clone()
            }
        },
        Operand::Copy(l) => switch_otherwise_local(env, *l, targets),
        Operand::Move(l) => switch_otherwise_local(env, *l, targets),
    }
}

/// Compute the `otherwise` state of a switch on a local.
fn switch_otherwise_local(
    env: &AbstractEnvironment,
    l: usize,
    targets: &Vec<(i64, usize)>,
) -> (r: AbstractEnvironment)
    requires
        env.wf(env.intervals@.len() as int),
    ensures
        r@ == spec_switch_otherwise_local(env@, l, targets@),
        r.wf(env.intervals@.len() as int),
{
    if targets.len() == 1 && targets[0].0 == 0 {
        let m1 = env.assume_pred(Expression::CmpConst(BinOp::Ne, l, 0), true);
        proof {
            assert(m1@.exprs == env@.exprs);
        }
        assume_truth(&m1, l, true)
    } else {
        env.clone()
    }
}

/// Assume the passed check.
pub fn assert_assume(env: &AbstractEnvironment, kind: &crate::mir::AssertKind) -> (r:
    AbstractEnvironment)
    requires
        env.wf(env.intervals@.len() as int),
    ensures
        r@ == spec_assert_assume(env@, *kind),
        r.wf(env.intervals@.len() as int),
{
    match kind {
        crate::mir::AssertKind::DivisionByZero(a) => match a {
            Operand::Copy(l) => env.assume_pred(Expression::CmpConst(BinOp::Eq, *l, 0), false),
            Operand::Move(l) => env.assume_pred(Expression::CmpConst(BinOp::Eq, *l, 0), false),
            _ => env.clone(),
        },
        crate::mir::AssertKind::RemainderByZero(a) => match a {
            Operand::Copy(l) => env.assume_pred(Expression::CmpConst(BinOp::Eq, *l, 0), false),
            Operand::Move(l) => env.assume_pred(Expression::CmpConst(BinOp::Eq, *l, 0), false),
            _ => env.clone(),
        },
        crate::mir::AssertKind::BoundsCheck { len, index } => match (index, len) {
            (Operand::Copy(i), Operand::Constant(n, _)) => env.assume_pred(
                Expression::CmpConst(BinOp::Lt, *i, *n),
                true,
            ),
            (Operand::Move(i), Operand::Constant(n, _)) => env.assume_pred(
                Expression::CmpConst(BinOp::Lt, *i, *n),
                true,
            ),
            _ => env.clone(),
        },
        _ => env.clone(),
    }
}

/// Restricting by a predicate never changes how many locals the model
/// speaks of.
pub proof fn lemma_assume_len(m: EnvModel, pred: Expression, truth: bool)
    ensures
        spec_assume(m, pred, truth).intervals.len() == m.intervals.len(),
        spec_assume(m, pred, truth).exprs.len() == m.exprs.len(),
{
}

/// Branch assumptions never change how many locals the model speaks
/// of.
pub proof fn lemma_assume_truth_len(m: EnvModel, l: usize, truth: bool)
    ensures
        spec_assume_truth(m, l, truth).intervals.len() == m.intervals.len(),
        spec_assume_truth(m, l, truth).exprs.len() == m.exprs.len(),
{
    if l < m.exprs.len() {
        match m.exprs[l as int] {
            Some(e) => match e {
                Expression::CmpLocals(op, a, b) => {
                    let m1 = spec_assume(m, e, truth);
                    lemma_assume_len(m, e, truth);
                    if b < m.exprs.len() {
                        match m.exprs[b as int] {
                            Some(be) => match be {
                                Expression::Len(v) => {
                                    lemma_assume_len(m1, Expression::CmpLen(op, a, v), truth);
                                },
                                _ => {},
                            },
                            None => {},
                        }
                    }
                },
                _ => {
                    lemma_assume_len(m, e, truth);
                },
            },
            None => {},
        }
    }
}

/// A statement never changes how many locals the model speaks of.
pub proof fn lemma_transfer_stmt_len(m: EnvModel, s: Statement)
    ensures
        spec_transfer_stmt(m, s).intervals.len() == m.intervals.len(),
        spec_transfer_stmt(m, s).exprs.len() == m.exprs.len(),
{
}

/// A statement list never changes how many locals the model speaks of.
pub proof fn lemma_transfer_stmts_len(m: EnvModel, stmts: Seq<Statement>)
    ensures
        spec_transfer_stmts(m, stmts).intervals.len() == m.intervals.len(),
        spec_transfer_stmts(m, stmts).exprs.len() == m.exprs.len(),
    decreases stmts.len(),
{
    if stmts.len() > 0 {
        lemma_transfer_stmts_len(m, stmts.drop_last());
        lemma_transfer_stmt_len(spec_transfer_stmts(m, stmts.drop_last()), stmts.last());
    }
}

/// How many successor edges a terminator has.
pub open spec fn spec_num_edges(t: crate::mir::Terminator) -> int {
    match t {
        crate::mir::Terminator::Goto(_) => 1int,
        crate::mir::Terminator::SwitchInt { disc: _, targets, otherwise: _ } => targets@.len()
            as int + 1,
        crate::mir::Terminator::Assert { .. } => 1int,
        _ => 0int,
    }
}

/// The block the `k`-th edge leads to.
pub open spec fn spec_edge_target(t: crate::mir::Terminator, k: int) -> int {
    match t {
        crate::mir::Terminator::Goto(b) => b as int,
        crate::mir::Terminator::SwitchInt { disc: _, targets, otherwise } => if k
            < targets@.len() {
            targets@[k].1 as int
        } else {
            otherwise as int
        },
        crate::mir::Terminator::Assert { kind: _, span: _, target } => target as int,
        _ => 0,
    }
}

/// The state the `k`-th edge carries.
pub open spec fn spec_edge_env(
    m: EnvModel,
    t: crate::mir::Terminator,
    types: Seq<ExpressionType>,
    k: int,
) -> EnvModel {
    match t {
        crate::mir::Terminator::Goto(_) => m,
        crate::mir::Terminator::SwitchInt { disc, targets, otherwise: _ } => if k
            < targets@.len() {
            spec_switch_target_env(m, disc, targets@[k].0)
        } else {
            spec_switch_otherwise_env(m, disc, targets@)
        },
        crate::mir::Terminator::Assert { kind, span: _, target: _ } => match spec_assert_ok(
            m,
            types,
            kind,
        ) {
            CheckOutcome::Passes => m,
            CheckOutcome::Undecided => spec_assert_assume(m, kind),
            CheckOutcome::Fails => EnvModel { bottom: true, ..m },
        },
        _ => m,
    }
}

/// Compute the successor edges of a terminator: for each one, the
/// block it leads to and the state that flows along it.
pub fn terminator_edges(
    env: &AbstractEnvironment,
    t: &crate::mir::Terminator,
    types: &Vec<ExpressionType>,
) -> (r: Vec<(usize, AbstractEnvironment)>)
    requires
        env.wf(env.intervals@.len() as int),
    ensures
        r@.len() == spec_num_edges(*t),
        forall|k: int| 0 <= k < r@.len() ==> (#[trigger] r@[k]).0 == spec_edge_target(*t, k),
        forall|k: int| 0 <= k < r@.len() ==> ((#[trigger] r@[k]).1)@ == spec_edge_env(
            env@,
            *t,
            types@,
            k,
        ),
        forall|k: int| 0 <= k < r@.len() ==> (#[trigger] r@[k]).1.wf(
            env.intervals@.len() as int,
        ),
{
    let mut r: Vec<(usize, AbstractEnvironment)> = Vec::new();
    match t {
        crate::mir::Terminator::Goto(b) => {
            r.push((*b, env.clone()));
        },
        crate::mir::Terminator::SwitchInt { disc, targets, otherwise } => {
            let mut i: usize = 0;
            while i < targets.len()
                invariant
                    0 <= i <= targets@.len(),
                    env.wf(env.intervals@.len() as int),
                    r@.len() == i,
                    forall|k: int| 0 <= k < i ==> (#[trigger] r@[k]).0 == targets@[k].1,
                    forall|k: int| 0 <= k < i ==> ((#[trigger] r@[k]).1)@
                        == spec_switch_target_env(env@, *disc, targets@[k].0),
                    forall|k: int| 0 <= k < i ==> (#[trigger] r@[k]).1.wf(
                        env.intervals@.len() as int,
                    ),
                decreases targets@.len() - i,
            {
                let e = switch_target_env(env, disc, targets[i].0);
                r.push((targets[i].1, e));
                i = i + 1;
            }
            r.push((*otherwise, switch_otherwise_env(env, disc, targets)));
        },
        crate::mir::Terminator::Assert { kind, span: _, target } => {
            match assert_ok(env, types, kind) {
                CheckOutcome::Passes => {
                    r.push((*target, env.clone()));
                },
                CheckOutcome::Undecided => {
                    r.push((*target, assert_assume(env, kind)));
                },
                CheckOutcome::Fails => {
                    r.push((*target, env.to_bottom()));
                },
            }
        },
        _ => {},
    }
    r
}

/// An edge state never changes how many locals the model speaks of.
pub proof fn lemma_edge_env_len(
    m: EnvModel,
    t: crate::mir::Terminator,
    types: Seq<ExpressionType>,
    k: int,
)
    ensures
        spec_edge_env(m, t, types, k).intervals.len() == m.intervals.len(),
        spec_edge_env(m, t, types, k).exprs.len() == m.exprs.len(),
{
    match t {
        crate::mir::Terminator::SwitchInt { disc, targets, otherwise: _ } => {
            let val: i64 = if k < targets@.len() {
                targets@[k].0
            } else {
                0i64
            };
            match disc {
                Operand::Copy(l) | Operand::Move(l) => {
                    lemma_assume_len(m, Expression::CmpConst(BinOp::Eq, l, val), true);
                    lemma_assume_len(m, Expression::CmpConst(BinOp::Ne, l, 0i64), true);
                    lemma_assume_truth_len(
                        spec_assume(m, Expression::CmpConst(BinOp::Eq, l, val), true),
                        l,
                        false,
                    );
                    lemma_assume_truth_len(
                        spec_assume(m, Expression::CmpConst(BinOp::Eq, l, val), true),
                        l,
                        true,
                    );
                    lemma_assume_truth_len(
                        spec_assume(m, Expression::CmpConst(BinOp::Ne, l, 0i64), true),
                        l,
                        true,
                    );
                },
                _ => {},
            }
        },
        crate::mir::Terminator::Assert { kind, span: _, target: _ } => {
            match kind {
                crate::mir::AssertKind::DivisionByZero(a)
                | crate::mir::AssertKind::RemainderByZero(a) => match a {
                    Operand::Copy(l) | Operand::Move(l) => {
                        lemma_assume_len(m, Expression::CmpConst(BinOp::Eq, l, 0i64), false);
                    },
                    _ => {},
                },
                crate::mir::AssertKind::BoundsCheck { len, index } => match (index, len) {
                    (Operand::Copy(i), Operand::Constant(n, _))
                    | (Operand::Move(i), Operand::Constant(n, _)) => {
                        lemma_assume_len(m, Expression::CmpConst(BinOp::Lt, i, n), true);
                    },
                    _ => {},
                },
                _ => {},
            }
        },
        _ => {},
    }
}

/// Whether the cause counts as a memory-safety finding.
pub open spec fn spec_is_memory_cause(c: crate::diagnostics::DiagnosticCause) -> bool {
    match c {
        crate::diagnostics::DiagnosticCause::Memory => true,
        crate::diagnostics::DiagnosticCause::Index => true,
        crate::diagnostics::DiagnosticCause::Panic => true,
        _ => false,
    }
}

/// Decide whether the cause counts as a memory-safety finding.
pub fn is_memory_cause(c: &crate::diagnostics::DiagnosticCause) -> (r: bool)
    ensures
        r == spec_is_memory_cause(*c),
{
    match c {
        crate::diagnostics::DiagnosticCause::Memory => true,
        crate::diagnostics::DiagnosticCause::Index => true,
        crate::diagnostics::DiagnosticCause::Panic => true,
        _ => false,
    }
}

/// The finding a terminator yields in the given state: an assertion
/// that definitely fails or cannot be decided is reported, as is a
/// reachable panic site; an unreachable terminator reports nothing.
pub open spec fn spec_term_diag(
    m: EnvModel,
    t: crate::mir::Terminator,
    types: Seq<ExpressionType>,
) -> Option<crate::diagnostics::Diagnostic> {
    if m.bottom {
        None
    } else {
        match t {
            crate::mir::Terminator::Assert { kind, span, target: _ } => {
                let cause = crate::diagnostics::spec_cause_of(kind);
                match spec_assert_ok(m, types, kind) {
                    CheckOutcome::Passes => None,
                    CheckOutcome::Fails => Some(
                        crate::diagnostics::Diagnostic {
                            severity: crate::diagnostics::Severity::Warning,
                            span,
                            is_memory_safety: spec_is_memory_cause(cause),
                            cause,
                            certainty: crate::diagnostics::Certainty::Definite,
                        },
                    ),
                    CheckOutcome::Undecided => Some(
                        crate::diagnostics::Diagnostic {
                            severity: crate::diagnostics::Severity::Warning,
                            span,
                            is_memory_safety: spec_is_memory_cause(cause),
                            cause,
                            certainty: crate::diagnostics::Certainty::Possible,
                        },
                    ),
                }
            },
            crate::mir::Terminator::Panic { span } => Some(
                crate::diagnostics::Diagnostic {
                    severity: crate::diagnostics::Severity::Warning,
                    span,
                    is_memory_safety: true,
                    cause: crate::diagnostics::DiagnosticCause::Panic,
                    certainty: crate::diagnostics::Certainty::Possible,
                },
            ),
            _ => None,
        }
    }
}

/// Extract the finding a terminator yields.
pub fn term_diag(
    env: &AbstractEnvironment,
    t: &crate::mir::Terminator,
    types: &Vec<ExpressionType>,
) -> (r: Option<crate::diagnostics::Diagnostic>)
    requires
        env.wf(env.intervals@.len() as int),
    ensures
        r == spec_term_diag(env@, *t, types@),
{
    if env.bottom {
        return Option::None;
    }
    match t {
        crate::mir::Terminator::Assert { kind, span, target: _ } => {
            let cause = crate::diagnostics::DiagnosticCause::from(kind);
            match assert_ok(env, types, kind) {
                CheckOutcome::Passes => Option::None,
                CheckOutcome::Fails => Option::Some(
                    crate::diagnostics::Diagnostic {
                        severity: crate::diagnostics::Severity::Warning,
                        span: *span,
                        is_memory_safety: is_memory_cause(&cause),
                        cause,
                        certainty: crate::diagnostics::Certainty::Definite,
                    },
                ),
                CheckOutcome::Undecided => Option::Some(
                    crate::diagnostics::Diagnostic {
                        severity: crate::diagnostics::Severity::Warning,
                        span: *span,
                        is_memory_safety: is_memory_cause(&cause),
                        cause,
                        certainty: crate::diagnostics::Certainty::Possible,
                    },
                ),
            }
        },
        crate::mir::Terminator::Panic { span } => Option::Some(
            crate::diagnostics::Diagnostic {
                severity: crate::diagnostics::Severity::Warning,
                span: *span,
                is_memory_safety: true,
                cause: crate::diagnostics::DiagnosticCause::Panic,
                certainty: crate::diagnostics::Certainty::Possible,
            },
        ),
        _ => Option::None,
    }
}

} // verus!
