//! Monotonicity of the transfer function: applied to a more precise
//! state, a statement yields a more precise state.  This is what makes
//! the fixed-point iteration meaningful: refining an input can only
//! refine the analysis' answer.

use vstd::prelude::*;
use crate::environment::{spec_assume, EnvModel};
use crate::expression::Expression;
use crate::interval::Interval;
use crate::mir::{Operand, Rvalue, Statement};
use crate::visitor::{
    spec_drop_facts, spec_eval_operand, spec_eval_rvalue, spec_mentions, spec_transfer_stmt,
    spec_transfer_stmts,
};

verus! {

/// Interval addition is monotone in both arguments.
pub proof fn lemma_add_monotone(a1: Interval, b1: Interval, a2: Interval, b2: Interval)
    requires
        a1.spec_le(a2),
        b1.spec_le(b2),
    ensures
        a1.spec_add(b1).spec_le(a2.spec_add(b2)),
{
}

/// Interval subtraction is monotone in both arguments.
pub proof fn lemma_sub_monotone(a1: Interval, b1: Interval, a2: Interval, b2: Interval)
    requires
        a1.spec_le(a2),
        b1.spec_le(b2),
    ensures
        a1.spec_sub(b1).spec_le(a2.spec_sub(b2)),
{
}

/// Interval negation is monotone.
pub proof fn lemma_neg_monotone(a1: Interval, a2: Interval)
    requires
        a1.spec_le(a2),
    ensures
        a1.spec_neg().spec_le(a2.spec_neg()),
{
}

/// The meet is monotone: meeting two included ranges with the same
/// constraint keeps inclusion, and an empty meet stays empty below.
pub proof fn lemma_meet_monotone(a1: Interval, a2: Interval, c: Interval)
    requires
        a1.spec_le(a2),
    ensures
        a2.spec_meet(c) is Some && a1.spec_meet(c) is Some ==> a1.spec_meet(
            c,
        )->Some_0.spec_le(a2.spec_meet(c)->Some_0),
        a2.spec_meet(c) is None ==> a1.spec_meet(c) is None,
{
}

/// Evaluating an operand is monotone on non-bottom states of equal
/// shape.
pub proof fn lemma_eval_operand_monotone(m1: EnvModel, m2: EnvModel, op: Operand)
    requires
        !m1.bottom,
        m1.le(m2),
    ensures
        spec_eval_operand(m1, op).spec_le(spec_eval_operand(m2, op)),
{
}

/// Evaluating a right-hand side is monotone on non-bottom states.
pub proof fn lemma_eval_rvalue_monotone(m1: EnvModel, m2: EnvModel, rv: Rvalue)
    requires
        !m1.bottom,
        m1.le(m2),
    ensures
        spec_eval_rvalue(m1, rv).spec_le(spec_eval_rvalue(m2, rv)),
{
    match rv {
        Rvalue::Use(op) => {
            lemma_eval_operand_monotone(m1, m2, op);
        },
        Rvalue::BinaryOp(op, a, b) => {
            lemma_eval_operand_monotone(m1, m2, a);
            lemma_eval_operand_monotone(m1, m2, b);
            lemma_add_monotone(
                spec_eval_operand(m1, a),
                spec_eval_operand(m1, b),
                spec_eval_operand(m2, a),
                spec_eval_operand(m2, b),
            );
            lemma_sub_monotone(
                spec_eval_operand(m1, a),
                spec_eval_operand(m1, b),
                spec_eval_operand(m2, a),
                spec_eval_operand(m2, b),
            );
        },
        Rvalue::Neg(op) => {
            lemma_eval_operand_monotone(m1, m2, op);
            lemma_neg_monotone(spec_eval_operand(m1, op), spec_eval_operand(m2, op));
        },
        _ => {},
    }
}

/// Dropping the facts that mention a local keeps exactly the other
/// facts.
pub proof fn lemma_drop_facts_contains(s: Seq<(Expression, bool)>, l: usize, f: (Expression, bool))
    ensures
        spec_drop_facts(s, l).contains(f) <==> s.contains(f) && !spec_mentions(f.0, l),
    decreases s.len(),
{
    if s.len() == 0 {
    } else {
        lemma_drop_facts_contains(s.drop_last(), l, f);
        let rest = spec_drop_facts(s.drop_last(), l);
        if spec_mentions(s.last().0, l) {
            if s.contains(f) && !spec_mentions(f.0, l) {
                let j = choose|j: int| 0 <= j < s.len() && s[j] == f;
                assert(j < s.len() - 1);
                assert(s.drop_last()[j] == f);
                assert(s.drop_last().contains(f));
            }
        } else {
            if rest.push(s.last()).contains(f) {
                let j = choose|j: int| 0 <= j < rest.push(s.last()).len() && rest.push(
                    s.last(),
                )[j] == f;
                if j < rest.len() {
                    assert(rest[j] == f);
                    assert(rest.contains(f));
                } else {
                    assert(f == s.last());
                    assert(s.contains(s.last()));
                }
            }
            if s.contains(f) && !spec_mentions(f.0, l) {
                let j = choose|j: int| 0 <= j < s.len() && s[j] == f;
                if j < s.len() - 1 {
                    assert(s.drop_last()[j] == f);
                    assert(s.drop_last().contains(f));
                    assert(rest.contains(f));
                    let k = choose|k: int| 0 <= k < rest.len() && rest[k] == f;
                    assert(rest.push(s.last())[k] == f);
                } else {
                    assert(f == s.last());
                    assert(rest.push(s.last())[rest.len() as int] == f);
                }
                assert(rest.push(s.last()).contains(f));
            }
        }
    }
}

/// One statement's transfer is monotone: a more precise state flows to
/// a more precise state.
pub proof fn lemma_transfer_stmt_monotone(m1: EnvModel, m2: EnvModel, s: Statement)
    requires
        m1.le(m2),
    ensures
        spec_transfer_stmt(m1, s).le(spec_transfer_stmt(m2, s)),
{
    if m1.bottom {
        assert(spec_transfer_stmt(m1, s) == m1);
        assert(spec_transfer_stmt(m1, s).le(spec_transfer_stmt(m2, s)));
        return ;
    }
    let r1 = spec_transfer_stmt(m1, s);
    let r2 = spec_transfer_stmt(m2, s);
    match s {
        Statement::Assign(l, rv) => {
            if l < m1.intervals.len() {
                lemma_eval_rvalue_monotone(m1, m2, rv);
                assert forall|f: (Expression, bool)| r2.facts.contains(f) implies #[trigger] r1
                    .facts.contains(f) by {
                    lemma_drop_facts_contains(m2.facts, l, f);
                    lemma_drop_facts_contains(m1.facts, l, f);
                }
                assert(r1.le(r2));
            }
        },
        Statement::StorageDead(l) => {
            if l < m1.intervals.len() {
                assert forall|f: (Expression, bool)| r2.facts.contains(f) implies #[trigger] r1
                    .facts.contains(f) by {
                    lemma_drop_facts_contains(m2.facts, l, f);
                    lemma_drop_facts_contains(m1.facts, l, f);
                }
                assert(r1.le(r2));
            }
        },
        _ => {},
    }
}

/// A whole statement list's transfer is monotone.
pub proof fn lemma_transfer_stmts_monotone(m1: EnvModel, m2: EnvModel, stmts: Seq<Statement>)
    requires
        m1.le(m2),
    ensures
        spec_transfer_stmts(m1, stmts).le(spec_transfer_stmts(m2, stmts)),
    decreases stmts.len(),
{
    if stmts.len() > 0 {
        lemma_transfer_stmts_monotone(m1, m2, stmts.drop_last());
        lemma_transfer_stmt_monotone(
            spec_transfer_stmts(m1, stmts.drop_last()),
            spec_transfer_stmts(m2, stmts.drop_last()),
            stmts.last(),
        );
    }
}

/// Restricting two ordered states by the same predicate keeps the
/// order: the branch refinement is monotone as well.
pub proof fn lemma_assume_monotone(m1: EnvModel, m2: EnvModel, pred: Expression, truth: bool)
    requires
        m1.wf(m1.intervals.len() as int),
        m2.wf(m2.intervals.len() as int),
        m1.le(m2),
    ensures
        spec_assume(m1, pred, truth).le(spec_assume(m2, pred, truth)),
{
    if m1.bottom {
        return ;
    }
    let r1 = spec_assume(m1, pred, truth);
    let r2 = spec_assume(m2, pred, truth);
    match pred {
        Expression::CmpConst(op, l, k) => {
            if l < m1.intervals.len() {
                match crate::environment::spec_constraint(op, k, truth) {
                    crate::environment::Refinement::Range(c) => {
                        lemma_meet_monotone(m1.intervals[l as int], m2.intervals[l as int], c);
                    },
                    _ => {},
                }
            }
        },
        _ => {},
    }
    if r1.bottom {
        assert(r1.le(r2));
        return ;
    }
    assert forall|f: (Expression, bool)| r2.facts.contains(f) implies #[trigger] r1
        .facts.contains(f) by {
        lemma_facts_after_assume(m1, pred, truth, f);
        lemma_facts_after_assume(m2, pred, truth, f);
    }
    assert(r1.le(r2));
}

/// Restricting a state preserves its shape and the well-formedness of
/// its ranges.
pub proof fn lemma_assume_wf(m: EnvModel, pred: Expression, truth: bool)
    requires
        m.wf(m.intervals.len() as int),
    ensures
        spec_assume(m, pred, truth).wf(m.intervals.len() as int),
{
    match pred {
        Expression::CmpConst(op, l, k) => {
            if !m.bottom && l < m.intervals.len() {
                match crate::environment::spec_constraint(op, k, truth) {
                    crate::environment::Refinement::Range(c) => {
                        crate::environment::lemma_constraint_sound(op, k, truth, 0);
                        crate::interval::lemma_meet_char(m.intervals[l as int], c);
                    },
                    _ => {},
                }
            }
        },
        _ => {},
    }
}

/// The branch assumptions a switch justifies are monotone as well: on
/// two ordered states, fixing the same discriminant's truth keeps the
/// order.
pub proof fn lemma_assume_truth_monotone(m1: EnvModel, m2: EnvModel, l: usize, truth: bool)
    requires
        m1.wf(m1.intervals.len() as int),
        m2.wf(m2.intervals.len() as int),
        m1.le(m2),
    ensures
        crate::visitor::spec_assume_truth(m1, l, truth).le(
            crate::visitor::spec_assume_truth(m2, l, truth),
        ),
{
    if m1.bottom {
        lemma_assume_truth_bottom(m1, l, truth);
        return ;
    }
    if l >= m1.exprs.len() {
        return ;
    }
    let r1 = crate::visitor::spec_assume_truth(m1, l, truth);
    let r2 = crate::visitor::spec_assume_truth(m2, l, truth);
    match m2.exprs[l as int] {
        Some(e) => {
            assert(m1.exprs[l as int] == Some(e));
            match e {
                Expression::Len(_) => {},
                Expression::CmpLocals(op, a, b) => {
                    lemma_assume_monotone(m1, m2, e, truth);
                    lemma_assume_wf(m1, e, truth);
                    lemma_assume_wf(m2, e, truth);
                    let n1 = spec_assume(m1, e, truth);
                    let n2 = spec_assume(m2, e, truth);
                    if b < m1.exprs.len() {
                        match m2.exprs[b as int] {
                            Some(be) => {
                                assert(m1.exprs[b as int] == Some(be));
                                match be {
                                    Expression::Len(v) => {
                                        lemma_assume_monotone(
                                            n1,
                                            n2,
                                            Expression::CmpLen(op, a, v),
                                            truth,
                                        );
                                    },
                                    _ => {},
                                }
                            },
                            None => {
                                match m1.exprs[b as int] {
                                    Some(be1) => {
                                        match be1 {
                                            Expression::Len(v) => {
                                                crate::environment::lemma_assume_sound(
                                                    n1,
                                                    Expression::CmpLen(op, a, v),
                                                    truth,
                                                    arbitrary_state(),
                                                );
                                                crate::environment::lemma_env_le_order(
                                                    spec_assume(
                                                        n1,
                                                        Expression::CmpLen(op, a, v),
                                                        truth,
                                                    ),
                                                    n1,
                                                    n2,
                                                );
                                            },
                                            _ => {},
                                        }
                                    },
                                    None => {},
                                }
                            },
                        }
                    }
                },
                _ => {
                    lemma_assume_monotone(m1, m2, e, truth);
                },
            }
        },
        None => {
            match m1.exprs[l as int] {
                Some(e1) => {
                    match e1 {
                        Expression::Len(_) => {},
                        Expression::CmpLocals(op, a, b) => {
                            crate::environment::lemma_assume_sound(
                                m1,
                                e1,
                                truth,
                                arbitrary_state(),
                            );
                            lemma_assume_wf(m1, e1, truth);
                            let n1 = spec_assume(m1, e1, truth);
                            if b < m1.exprs.len() && m1.exprs[b as int] matches Some(
                                Expression::Len(v),
                            ) {
                                let v = m1.exprs[b as int]->Some_0->Len_0;
                                crate::environment::lemma_assume_sound(
                                    n1,
                                    Expression::CmpLen(op, a, v),
                                    truth,
                                    arbitrary_state(),
                                );
                                crate::environment::lemma_env_le_order(
                                    spec_assume(n1, Expression::CmpLen(op, a, v), truth),
                                    n1,
                                    m1,
                                );
                                crate::environment::lemma_env_le_order(
                                    spec_assume(n1, Expression::CmpLen(op, a, v), truth),
                                    m1,
                                    m2,
                                );
                            } else {
                                crate::environment::lemma_env_le_order(n1, m1, m2);
                            }
                        },
                        _ => {
                            crate::environment::lemma_assume_sound(
                                m1,
                                e1,
                                truth,
                                arbitrary_state(),
                            );
                            crate::environment::lemma_env_le_order(
                                spec_assume(m1, e1, truth),
                                m1,
                                m2,
                            );
                        },
                    }
                },
                None => {},
            }
        },
    }
}

/// A concrete state for the lemmas that take one; the conclusions
/// used here depend only on their order part.
spec fn arbitrary_state() -> crate::environment::CState {
    crate::environment::CState { vals: Seq::empty(), lens: Seq::empty() }
}

/// Fixing a truth in an unreachable state leaves it unreachable, below
/// everything.
proof fn lemma_assume_truth_bottom(m: EnvModel, l: usize, truth: bool)
    requires
        m.bottom,
    ensures
        crate::visitor::spec_assume_truth(m, l, truth).bottom,
{
    if l < m.exprs.len() {
        match m.exprs[l as int] {
            Some(e) => {
                match e {
                    Expression::CmpLocals(op, a, b) => {
                        assert(spec_assume(m, e, truth) == m);
                    },
                    _ => {},
                }
            },
            None => {},
        }
    }
}

/// What the fact set holds after a restriction: the old facts and the
/// assumed one.
proof fn lemma_facts_after_assume(m: EnvModel, pred: Expression, truth: bool, f: (
    Expression,
    bool,
))
    requires
        !m.bottom,
    ensures
        spec_assume(m, pred, truth).facts.contains(f) ==> m.facts.contains(f) || f == (
            pred,
            truth,
        ),
        !spec_assume(m, pred, truth).bottom && (m.facts.contains(f) || f == (pred, truth))
            ==> spec_assume(m, pred, truth).facts.contains(f),
{
    let r = spec_assume(m, pred, truth);
    assert(r.facts == m.facts || r.facts == m.facts.push((pred, truth)));
    if r.facts == m.facts {
        if !r.bottom {
            assert(m.facts.contains((pred, truth)));
        }
        if m.facts.contains(f) {
            assert(r.facts.contains(f));
        }
    } else {
        if m.facts.contains(f) {
            let j = choose|j: int| 0 <= j < m.facts.len() && m.facts[j] == f;
            assert(r.facts[j] == f);
            assert(r.facts.contains(f));
        }
        if f == (pred, truth) {
            assert(r.facts[m.facts.len() as int] == f);
            assert(r.facts.contains(f));
        }
        if r.facts.contains(f) {
            let j = choose|j: int| 0 <= j < r.facts.len() && r.facts[j] == f;
            if j < m.facts.len() {
                assert(m.facts[j] == f);
                assert(m.facts.contains(f));
            }
        }
    }
}

} // verus!
