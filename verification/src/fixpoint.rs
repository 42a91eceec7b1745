//! The fixed-point iterator: blocks are visited in index order, which
//! the front end emits as a reverse post-order, so a loop head is a
//! block with a predecessor of no smaller index.  After a configurable
//! delay, widening is applied at the heads; once the states stop
//! changing, a bounded number of narrowing passes recovers precision.
//! The returned block states provably form a fixed point — the result
//! of every block's transfer lies below its recorded post-state, and
//! every state flowing along an edge lies below the target's recorded
//! pre-state — and they are, provably, exactly the states the
//! specification-level iteration computes, so everything downstream is
//! a function of the body, the entry state and the widening delay.

use vstd::prelude::*;
use crate::environment::{
    spec_env_join, spec_env_narrow, spec_env_widen, top_model, AbstractEnvironment, EnvModel,
};
use crate::mir::{Body, Terminator};
use crate::visitor::{
    lemma_edge_env_len, lemma_transfer_stmts_len, spec_edge_env, spec_edge_target, spec_full_top,
    spec_num_edges, spec_transfer_stmts, terminator_edges, transfer_stmts,
};

verus! {

/// The pre- and post-state of every block, as the iterator left them.
pub struct BlockStates {
    /// What holds on entry to each block.
    pub pre: Vec<AbstractEnvironment>,
    /// What holds after each block's statements, before its terminator.
    pub post: Vec<AbstractEnvironment>,
}

/// The model of the state in which nothing at all is known.
pub open spec fn full_top_model(n: int) -> EnvModel {
    EnvModel {
        intervals: Seq::new(n as nat, |i: int| spec_full_top()),
        exprs: Seq::new(n as nat, |i: int| None),
        facts: Seq::empty(),
        bottom: false,
    }
}

/// Every state over the same locals lies below the one in which
/// nothing is known.
pub proof fn lemma_le_full_top(m: EnvModel, n: int)
    requires
        m.intervals.len() == n,
        m.exprs.len() == n,
        n >= 0,
    ensures
        m.le(full_top_model(n)),
{
}

/// The state in which nothing at all is known.
pub fn full_top_env(n: usize) -> (r: AbstractEnvironment)
    ensures
        r@ == full_top_model(n as int),
        r.wf(n as int),
{
    let mut intervals: Vec<crate::interval::Interval> = Vec::new();
    let mut exprs: Vec<Option<crate::expression::Expression>> = Vec::new();
    let mut i: usize = 0;
    while i < n
        invariant
            0 <= i <= n,
            intervals@.len() == i,
            exprs@.len() == i,
            forall|j: int| 0 <= j < i ==> intervals@[j] == spec_full_top(),
            forall|j: int| 0 <= j < i ==> exprs@[j] is None,
        decreases n - i,
    {
        intervals.push(
            crate::interval::Interval {
                lo: crate::interval::Bound::NegInf,
                hi: crate::interval::Bound::PosInf,
            },
        );
        exprs.push(Option::None);
        i = i + 1;
    }
    let r = AbstractEnvironment { intervals, exprs, facts: Vec::new(), bottom: false };
    proof {
        assert(r@.intervals =~= full_top_model(n as int).intervals);
        assert(r@.exprs =~= full_top_model(n as int).exprs);
        assert(r@.facts =~= full_top_model(n as int).facts);
        assert(r@ == full_top_model(n as int));
    }
    r
}

/// The models of a vector of environments.
pub open spec fn models_of(v: Seq<AbstractEnvironment>) -> Seq<EnvModel> {
    v.map_values(|e: AbstractEnvironment| e@)
}

/// What the iterator guarantees of the states it returns: the entry
/// state lies below the first block's pre-state; every block's
/// transfer, applied to its pre-state, lies below its post-state; and
/// every state flowing along an edge lies below the target block's
/// pre-state.
pub open spec fn is_fixed_point(
    body: Body,
    init: EnvModel,
    pre: Seq<EnvModel>,
    post: Seq<EnvModel>,
) -> bool {
    let n = body.blocks@.len() as int;
    &&& pre.len() == n
    &&& post.len() == n
    &&& n > 0 ==> init.le(pre[0])
    &&& forall|v: int| 0 <= v < n ==> spec_transfer_stmts(
        pre[v],
        (#[trigger] body.blocks@[v]).statements@,
    ).le(post[v])
    &&& forall|v: int, k: int| 0 <= v < n && 0 <= k < spec_num_edges(
        body.blocks@[v].terminator,
    ) && 0 <= spec_edge_target(body.blocks@[v].terminator, k) < n ==> (#[trigger] spec_edge_env(
        post[v],
        body.blocks@[v].terminator,
        body.local_types@,
        k,
    )).le(pre[spec_edge_target(body.blocks@[v].terminator, k)])
}

/// Every edge of a well-formed terminator leads inside the body.
pub proof fn lemma_edge_target_in_range(t: Terminator, n_blocks: int, n_locals: int, k: int)
    requires
        crate::mir::term_wf_in(t, n_blocks, n_locals),
        0 <= k < spec_num_edges(t),
    ensures
        0 <= spec_edge_target(t, k) < n_blocks,
{
}

/// The state a block starts the join from: the entry state for block
/// 0, the unreachable state elsewhere.
pub open spec fn spec_pred_base(body: Body, init: EnvModel, v: int) -> EnvModel {
    if v == 0 {
        init
    } else {
        EnvModel { bottom: true, ..top_model(body.local_types@) }
    }
}

/// The join of block `u`'s first `k` edge states into `acc`, those
/// leading to block `v`.
pub open spec fn spec_fold_edges(
    acc: EnvModel,
    post_u: EnvModel,
    t: Terminator,
    types: Seq<crate::expression::ExpressionType>,
    v: int,
    k: int,
) -> EnvModel
    decreases k,
{
    if k <= 0 {
        acc
    } else {
        let p = spec_fold_edges(acc, post_u, t, types, v, k - 1);
        if spec_edge_target(t, k - 1) == v {
            spec_env_join(p, spec_edge_env(post_u, t, types, k - 1))
        } else {
            p
        }
    }
}

/// The join of everything flowing into block `v` from the first `u`
/// blocks.
pub open spec fn spec_join_upto(
    body: Body,
    posts: Seq<EnvModel>,
    init: EnvModel,
    v: int,
    u: int,
) -> EnvModel
    decreases u,
{
    if u <= 0 {
        spec_pred_base(body, init, v)
    } else {
        spec_fold_edges(
            spec_join_upto(body, posts, init, v, u - 1),
            posts[u - 1],
            body.blocks@[u - 1].terminator,
            body.local_types@,
            v,
            spec_num_edges(body.blocks@[u - 1].terminator),
        )
    }
}

/// What joining block `v`'s predecessors returns.
pub open spec fn spec_join_preds(body: Body, posts: Seq<EnvModel>, init: EnvModel, v: int) -> EnvModel {
    spec_join_upto(body, posts, init, v, body.blocks@.len() as int)
}

/// Join the states flowing into block `v`: the entry state for block
/// 0, and the edge states of every block whose terminator reaches `v`,
/// taken in ascending block-index order.  The join is a least upper
/// bound, so joining the same states in another order gives a mutually
/// included result; the recorded fact lists are sequences, so the
/// fixed order is also what makes the computed state itself, not only
/// its meaning, deterministic.
fn join_preds(
    body: &Body,
    post: &Vec<AbstractEnvironment>,
    init: &AbstractEnvironment,
    v: usize,
) -> (r: AbstractEnvironment)
    requires
        body.wf(),
        init.wf(body.local_types@.len() as int),
        post@.len() == body.blocks@.len(),
        forall|u: int| 0 <= u < post@.len() ==> (#[trigger] post@[u]).wf(
            body.local_types@.len() as int,
        ),
        v < body.blocks@.len(),
    ensures
        r@ == spec_join_preds(*body, models_of(post@), init@, v as int),
        r.wf(body.local_types@.len() as int),
        v == 0 ==> init.spec_le(r),
        forall|u: int, k: int| 0 <= u < post@.len() && 0 <= k < spec_num_edges(
            body.blocks@[u].terminator,
        ) && spec_edge_target(body.blocks@[u].terminator, k) == v as int
            ==> (#[trigger] spec_edge_env(
            post@[u]@,
            body.blocks@[u].terminator,
            body.local_types@,
            k,
        )).le(r@),
{
    let ghost n_locals = body.local_types@.len() as int;
    let mut acc = if v == 0 {
        init.clone()
    } else {
        AbstractEnvironment::bottom_env(&body.local_types)
    };
    let n = body.blocks.len();
    let mut u: usize = 0;
    while u < n
        invariant
            0 <= u <= n,
            n == body.blocks@.len(),
            body.wf(),
            init.wf(n_locals),
            n_locals == body.local_types@.len() as int,
            post@.len() == n,
            forall|w: int| 0 <= w < n ==> (#[trigger] post@[w]).wf(n_locals),
            v < n,
            acc.wf(n_locals),
            acc@ == spec_join_upto(*body, models_of(post@), init@, v as int, u as int),
            v == 0 ==> init.spec_le(acc),
            forall|w: int, k: int| 0 <= w < u && 0 <= k < spec_num_edges(
                body.blocks@[w].terminator,
            ) && spec_edge_target(body.blocks@[w].terminator, k) == v as int
                ==> (#[trigger] spec_edge_env(
                post@[w]@,
                body.blocks@[w].terminator,
                body.local_types@,
                k,
            )).le(acc@),
        decreases n - u,
    {
        let edges = terminator_edges(&post[u], &body.blocks[u].terminator, &body.local_types);
        let ghost acc_before_u = acc;
        proof {
            assert(models_of(post@)[u as int] == post@[u as int]@);
        }
        let mut k: usize = 0;
        while k < edges.len()
            invariant
                0 <= k <= edges@.len(),
                n == body.blocks@.len(),
                body.wf(),
                init.wf(n_locals),
                n_locals == body.local_types@.len() as int,
                post@.len() == n,
                forall|w: int| 0 <= w < n ==> (#[trigger] post@[w]).wf(n_locals),
                u < n,
                v < n,
                acc.wf(n_locals),
                acc_before_u@ == spec_join_upto(*body, models_of(post@), init@, v as int, u as int),
                acc@ == spec_fold_edges(
                    acc_before_u@,
                    post@[u as int]@,
                    body.blocks@[u as int].terminator,
                    body.local_types@,
                    v as int,
                    k as int,
                ),
                v == 0 ==> init.spec_le(acc),
                acc_before_u.spec_le(acc),
                acc_before_u.wf(n_locals),
                edges@.len() == spec_num_edges(body.blocks@[u as int].terminator),
                forall|j: int| 0 <= j < edges@.len() ==> (#[trigger] edges@[j]).0
                    == spec_edge_target(body.blocks@[u as int].terminator, j),
                forall|j: int| 0 <= j < edges@.len() ==> ((#[trigger] edges@[j]).1)@
                    == spec_edge_env(
                    post@[u as int]@,
                    body.blocks@[u as int].terminator,
                    body.local_types@,
                    j,
                ),
                forall|j: int| 0 <= j < edges@.len() ==> (#[trigger] edges@[j]).1.wf(n_locals),
                forall|j: int| 0 <= j < k && (#[trigger] edges@[j]).0 == v ==> (edges@[j].1)
                    .spec_le(acc),
                forall|w: int, kk: int| 0 <= w < u && 0 <= kk < spec_num_edges(
                    body.blocks@[w].terminator,
                ) && spec_edge_target(body.blocks@[w].terminator, kk) == v as int
                    ==> (#[trigger] spec_edge_env(
                    post@[w]@,
                    body.blocks@[w].terminator,
                    body.local_types@,
                    kk,
                )).le(acc@),
            decreases edges@.len() - k,
        {
            if edges[k].0 == v {
                let ghost old_acc = acc;
                acc = acc.join(&edges[k].1);
                proof {
                    crate::environment::lemma_env_le_order(acc_before_u@, old_acc@, acc@);
                    assert forall|j: int| 0 <= j < k + 1 && (#[trigger] edges@[j]).0 == v implies (
                    edges@[j].1).spec_le(acc) by {
                        if j < k {
                            crate::environment::lemma_env_le_order(
                                edges@[j].1@,
                                old_acc@,
                                acc@,
                            );
                        }
                    }
                    assert forall|w: int, kk: int| 0 <= w < u && 0 <= kk < spec_num_edges(
                        body.blocks@[w].terminator,
                    ) && spec_edge_target(body.blocks@[w].terminator, kk) == v as int implies (
                    #[trigger] spec_edge_env(
                        post@[w]@,
                        body.blocks@[w].terminator,
                        body.local_types@,
                        kk,
                    )).le(acc@) by {
                        crate::environment::lemma_env_le_order(
                            spec_edge_env(
                                post@[w]@,
                                body.blocks@[w].terminator,
                                body.local_types@,
                                kk,
                            ),
                            old_acc@,
                            acc@,
                        );
                    }
                    if v == 0 {
                        crate::environment::lemma_env_le_order(init@, old_acc@, acc@);
                    }
                }
            }
            k = k + 1;
        }
        proof {
            assert forall|w: int, kk: int| 0 <= w < u + 1 && 0 <= kk < spec_num_edges(
                body.blocks@[w].terminator,
            ) && spec_edge_target(body.blocks@[w].terminator, kk) == v as int implies (
            #[trigger] spec_edge_env(
                post@[w]@,
                body.blocks@[w].terminator,
                body.local_types@,
                kk,
            )).le(acc@) by {
                if w == u {
                    assert((edges@[kk]).0 == spec_edge_target(body.blocks@[w].terminator, kk));
                    assert(((edges@[kk]).1)@ == spec_edge_env(
                        post@[w]@,
                        body.blocks@[w].terminator,
                        body.local_types@,
                        kk,
                    ));
                    assert((edges@[kk]).1.spec_le(acc));
                }
            }
        }
        u = u + 1;
    }
    acc
}

/// The head marks after block `u`'s first `k` edges: a reached block
/// of no larger index is a loop head.
pub open spec fn spec_heads_mark(heads: Seq<bool>, t: Terminator, u: int, k: int) -> Seq<bool>
    decreases k,
{
    if k <= 0 {
        heads
    } else {
        let h = spec_heads_mark(heads, t, u, k - 1);
        let tgt = spec_edge_target(t, k - 1);
        if 0 <= tgt < heads.len() && tgt <= u {
            h.update(tgt, true)
        } else {
            h
        }
    }
}

/// The head marks after the first `u` blocks.
pub open spec fn spec_heads_upto(body: Body, u: int) -> Seq<bool>
    decreases u,
{
    if u <= 0 {
        Seq::new(body.blocks@.len(), |i: int| false)
    } else {
        spec_heads_mark(
            spec_heads_upto(body, u - 1),
            body.blocks@[u - 1].terminator,
            u - 1,
            spec_num_edges(body.blocks@[u - 1].terminator),
        )
    }
}

/// Which blocks are loop heads.
pub open spec fn spec_heads(body: Body) -> Seq<bool> {
    spec_heads_upto(body, body.blocks@.len() as int)
}

/// One pass over the first `v` blocks: each joins its predecessors,
/// widens at a head once the delay has elapsed, and records whether
/// any pre-state changed.
pub open spec fn spec_pass_upto(
    body: Body,
    heads: Seq<bool>,
    widen_now: bool,
    init: EnvModel,
    pre: Seq<EnvModel>,
    post: Seq<EnvModel>,
    v: int,
) -> (Seq<EnvModel>, Seq<EnvModel>, bool)
    decreases v,
{
    if v <= 0 {
        (pre, post, false)
    } else {
        let (p, q, ch) = spec_pass_upto(body, heads, widen_now, init, pre, post, v - 1);
        let acc = spec_join_preds(body, q, init, v - 1);
        let newpre = if heads[v - 1] && widen_now {
            spec_env_widen(p[v - 1], acc)
        } else {
            acc
        };
        let ch2 = ch || !(newpre.le(p[v - 1]) && p[v - 1].le(newpre));
        (
            p.update(v - 1, newpre),
            q.update(v - 1, spec_transfer_stmts(newpre, body.blocks@[v - 1].statements@)),
            ch2,
        )
    }
}

/// The ascending iteration: passes are run, with widening from pass
/// `delay` on, until a pass changes nothing or the budget is spent.
pub open spec fn spec_iterate(
    body: Body,
    heads: Seq<bool>,
    init: EnvModel,
    delay: int,
    pre: Seq<EnvModel>,
    post: Seq<EnvModel>,
    pass: int,
    fuel: int,
) -> (Seq<EnvModel>, Seq<EnvModel>)
    decreases fuel,
{
    if fuel <= 0 {
        (pre, post)
    } else {
        let (p, q, ch) = spec_pass_upto(
            body,
            heads,
            pass >= delay,
            init,
            pre,
            post,
            body.blocks@.len() as int,
        );
        if ch {
            spec_iterate(
                body,
                heads,
                init,
                delay,
                p,
                q,
                if pass < 200000 {
                    pass + 1
                } else {
                    pass
                },
                fuel - 1,
            )
        } else {
            (p, q)
        }
    }
}

/// The iteration budget: enough passes for the delay, the widenings
/// and the descents.
pub open spec fn spec_fuel(delay: int) -> int {
    if delay > 100000 {
        100064
    } else {
        delay + 64
    }
}

/// One narrowing pass over the first `v` blocks: where the fresh join
/// lies below the stabilized pre-state, pull the pre-state back.
pub open spec fn spec_narrow_upto(
    body: Body,
    init: EnvModel,
    pre: Seq<EnvModel>,
    post: Seq<EnvModel>,
    v: int,
) -> (Seq<EnvModel>, Seq<EnvModel>)
    decreases v,
{
    if v <= 0 {
        (pre, post)
    } else {
        let (p, q) = spec_narrow_upto(body, init, pre, post, v - 1);
        let acc = spec_join_preds(body, q, init, v - 1);
        if acc.le(p[v - 1]) && !p[v - 1].bottom {
            let newpre = spec_env_narrow(p[v - 1], acc);
            (
                p.update(v - 1, newpre),
                q.update(v - 1, spec_transfer_stmts(newpre, body.blocks@[v - 1].statements@)),
            )
        } else {
            (p, q)
        }
    }
}

/// The bounded descending phase: `d` narrowing passes.
pub open spec fn spec_narrow_iter(
    body: Body,
    init: EnvModel,
    pre: Seq<EnvModel>,
    post: Seq<EnvModel>,
    d: int,
) -> (Seq<EnvModel>, Seq<EnvModel>)
    decreases d,
{
    if d <= 0 {
        (pre, post)
    } else {
        let (p, q) = spec_narrow_upto(body, init, pre, post, body.blocks@.len() as int);
        spec_narrow_iter(body, init, p, q, d - 1)
    }
}

/// Whether block `post_v`'s first `k` edges all flow below their
/// targets' pre-states.
pub open spec fn spec_edges_ok(
    body: Body,
    pre: Seq<EnvModel>,
    post_v: EnvModel,
    t: Terminator,
    k: int,
) -> bool
    decreases k,
{
    if k <= 0 {
        true
    } else {
        spec_edges_ok(body, pre, post_v, t, k - 1) && {
            let tgt = spec_edge_target(t, k - 1);
            0 <= tgt < pre.len() && spec_edge_env(post_v, t, body.local_types@, k - 1).le(
                pre[tgt],
            )
        }
    }
}

/// One valid edge flows below its target.
proof fn lemma_edges_ok_at(
    body: Body,
    pre: Seq<EnvModel>,
    post_v: EnvModel,
    t: Terminator,
    k: int,
    j: int,
)
    requires
        spec_edges_ok(body, pre, post_v, t, k),
        0 <= j < k,
    ensures
        0 <= spec_edge_target(t, j) < pre.len(),
        spec_edge_env(post_v, t, body.local_types@, j).le(pre[spec_edge_target(t, j)]),
    decreases k,
{
    if j < k - 1 {
        lemma_edges_ok_at(body, pre, post_v, t, k - 1, j);
    }
}

/// Whether the first `v` blocks satisfy the fixed-point conditions.
pub open spec fn spec_valid_upto(
    body: Body,
    init: EnvModel,
    pre: Seq<EnvModel>,
    post: Seq<EnvModel>,
    v: int,
) -> bool
    decreases v,
{
    if v <= 0 {
        body.blocks@.len() > 0 ==> init.le(pre[0])
    } else {
        spec_valid_upto(body, init, pre, post, v - 1) && spec_transfer_stmts(
            pre[v - 1],
            body.blocks@[v - 1].statements@,
        ).le(post[v - 1]) && spec_edges_ok(
            body,
            pre,
            post[v - 1],
            body.blocks@[v - 1].terminator,
            spec_num_edges(body.blocks@[v - 1].terminator),
        )
    }
}

/// The unreachable starting state of every block.
pub open spec fn spec_initial_states(body: Body) -> Seq<EnvModel> {
    Seq::new(
        body.blocks@.len(),
        |i: int| EnvModel { bottom: true, ..top_model(body.local_types@) },
    )
}

/// The states the validation keeps: the computed ones when they form a
/// fixed point, the all-unknown ones otherwise.
pub open spec fn spec_validate(
    body: Body,
    init: EnvModel,
    pre: Seq<EnvModel>,
    post: Seq<EnvModel>,
) -> (Seq<EnvModel>, Seq<EnvModel>) {
    let n = body.blocks@.len() as int;
    let nl = body.local_types@.len() as int;
    if pre.len() == n && post.len() == n && spec_valid_upto(body, init, pre, post, n) {
        (pre, post)
    } else {
        (
            Seq::new(n as nat, |i: int| full_top_model(nl)),
            Seq::new(n as nat, |i: int| full_top_model(nl)),
        )
    }
}

/// What the whole iterator computes from a body, an entry state and a
/// widening delay: the ascending phase from the unreachable states,
/// the bounded descending phase, and the validation.
pub open spec fn spec_fixpoint(body: Body, init: EnvModel, delay: int) -> (
    Seq<EnvModel>,
    Seq<EnvModel>,
) {
    let s0 = spec_initial_states(body);
    let asc = spec_iterate(body, spec_heads(body), init, delay, s0, s0, 0, spec_fuel(delay));
    let desc = spec_narrow_iter(body, init, asc.0, asc.1, 2);
    spec_validate(body, init, desc.0, desc.1)
}

/// The blocks each terminator can reach.
fn targets_of(t: &crate::mir::Terminator) -> (r: Vec<usize>)
    ensures
        r@.len() == spec_num_edges(*t),
        forall|k: int| 0 <= k < r@.len() ==> #[trigger] r@[k] as int == spec_edge_target(*t, k),
{
    let mut r: Vec<usize> = Vec::new();
    match t {
        crate::mir::Terminator::Goto(b) => {
            r.push(*b);
        },
        crate::mir::Terminator::SwitchInt { disc: _, targets, otherwise } => {
            let mut i: usize = 0;
            while i < targets.len()
                invariant
                    0 <= i <= targets@.len(),
                    r@.len() == i,
                    forall|k: int| 0 <= k < i ==> #[trigger] r@[k] == targets@[k].1,
                decreases targets@.len() - i,
            {
                r.push(targets[i].1);
                i = i + 1;
            }
            r.push(*otherwise);
        },
        crate::mir::Terminator::Assert { kind: _, span: _, target } => {
            r.push(*target);
        },
        _ => {},
    }
    r
}

/// Which blocks are loop heads: those with a predecessor of no smaller
/// index, under the reverse post-order the front end emits.
fn compute_heads(body: &Body) -> (r: Vec<bool>)
    ensures
        r@ == spec_heads(*body),
        r@.len() == body.blocks@.len(),
{
    let n = body.blocks.len();
    let mut heads: Vec<bool> = Vec::new();
    let mut i: usize = 0;
    while i < n
        invariant
            heads@.len() == i,
            0 <= i <= n,
            forall|j: int| 0 <= j < i ==> !heads@[j],
        decreases n - i,
    {
        heads.push(false);
        i = i + 1;
    }
    proof {
        assert(heads@ =~= spec_heads_upto(*body, 0));
    }
    let mut u: usize = 0;
    while u < n
        invariant
            0 <= u <= n,
            n == body.blocks@.len(),
            heads@.len() == n,
            heads@ == spec_heads_upto(*body, u as int),
        decreases n - u,
    {
        let tgts = targets_of(&body.blocks[u].terminator);
        let ghost heads_u = heads@;
        let mut k: usize = 0;
        while k < tgts.len()
            invariant
                0 <= k <= tgts@.len(),
                n == body.blocks@.len(),
                heads@.len() == n,
                u < n,
                tgts@.len() == spec_num_edges(body.blocks@[u as int].terminator),
                forall|j: int| 0 <= j < tgts@.len() ==> #[trigger] tgts@[j] as int
                    == spec_edge_target(body.blocks@[u as int].terminator, j),
                heads_u.len() == n,
                heads_u == spec_heads_upto(*body, u as int),
                heads@ == spec_heads_mark(
                    heads_u,
                    body.blocks@[u as int].terminator,
                    u as int,
                    k as int,
                ),
            decreases tgts@.len() - k,
        {
            let t = tgts[k];
            if t < n && t <= u {
                heads.set(t, true);
            }
            k = k + 1;
        }
        u = u + 1;
    }
    heads
}

/// Run the fixed-point iteration on one function body, from the given
/// entry state.  The returned block states form a fixed point of the
/// transfer function; if the iteration's bounded budget runs out
/// before the states stabilize, everything is set to the state in
/// which nothing is known, which is a fixed point as well.
pub fn run_fixpoint(body: &Body, init: &AbstractEnvironment, widening_delay: usize) -> (r:
    BlockStates)
    requires
        body.wf(),
        init.wf(body.local_types@.len() as int),
    ensures
        is_fixed_point(*body, init@, models_of(r.pre@), models_of(r.post@)),
        models_of(r.pre@) == spec_fixpoint(*body, init@, widening_delay as int).0,
        models_of(r.post@) == spec_fixpoint(*body, init@, widening_delay as int).1,
        r.pre@.len() == body.blocks@.len(),
        r.post@.len() == body.blocks@.len(),
        forall|v: int| 0 <= v < r.pre@.len() ==> (#[trigger] r.pre@[v]).wf(
            body.local_types@.len() as int,
        ),
        forall|v: int| 0 <= v < r.post@.len() ==> (#[trigger] r.post@[v]).wf(
            body.local_types@.len() as int,
        ),
{
    let n = body.blocks.len();
    let n_locals = body.local_types.len();
    let ghost nl = n_locals as int;
    let ghost delay = widening_delay as int;
    let heads = compute_heads(body);

    let mut pre: Vec<AbstractEnvironment> = Vec::new();
    let mut post: Vec<AbstractEnvironment> = Vec::new();
    let mut i: usize = 0;
    while i < n
        invariant
            0 <= i <= n,
            nl == body.local_types@.len() as int,
            pre@.len() == i,
            post@.len() == i,
            forall|v: int| 0 <= v < i ==> (#[trigger] pre@[v])@ == (EnvModel {
                bottom: true,
                ..top_model(body.local_types@)
            }),
            forall|v: int| 0 <= v < i ==> (#[trigger] post@[v])@ == (EnvModel {
                bottom: true,
                ..top_model(body.local_types@)
            }),
            forall|v: int| 0 <= v < i ==> (#[trigger] pre@[v]).wf(nl),
            forall|v: int| 0 <= v < i ==> (#[trigger] post@[v]).wf(nl),
        decreases n - i,
    {
        pre.push(AbstractEnvironment::bottom_env(&body.local_types));
        post.push(AbstractEnvironment::bottom_env(&body.local_types));
        i = i + 1;
    }
    let ghost s0 = models_of(pre@);
    proof {
        assert(s0 =~= spec_initial_states(*body));
        assert(models_of(post@) =~= s0);
    }

    let mut fuel: usize = if widening_delay > 100000 {
        100064
    } else {
        widening_delay + 64
    };
    let ghost asc = spec_iterate(*body, heads@, init@, delay, s0, s0, 0, spec_fuel(delay));
    proof {
        assert(fuel as int == spec_fuel(delay));
    }
    let mut pass: usize = 0;
    while fuel > 0
        invariant
            n == body.blocks@.len(),
            nl == body.local_types@.len() as int,
            body.wf(),
            init.wf(nl),
            heads@.len() == n,
            heads@ == spec_heads(*body),
            delay == widening_delay as int,
            s0 == spec_initial_states(*body),
            asc == spec_iterate(*body, heads@, init@, delay, s0, s0, 0, spec_fuel(delay)),
            pre@.len() == n,
            post@.len() == n,
            pass <= 200000,
            asc == spec_iterate(
                *body,
                heads@,
                init@,
                delay,
                models_of(pre@),
                models_of(post@),
                pass as int,
                fuel as int,
            ),
            forall|v: int| 0 <= v < n ==> (#[trigger] pre@[v]).wf(nl),
            forall|v: int| 0 <= v < n ==> (#[trigger] post@[v]).wf(nl),
        decreases fuel,
    {
        let ghost pm0 = models_of(pre@);
        let ghost qm0 = models_of(post@);
        let ghost wn = pass >= widening_delay;
        let ghost pass_old = pass as int;
        let ghost fuel_old = fuel as int;
        let mut changed = false;
        let mut v: usize = 0;
        while v < n
            invariant
                0 <= v <= n,
                n == body.blocks@.len(),
                nl == body.local_types@.len() as int,
                body.wf(),
                init.wf(nl),
                heads@.len() == n,
                pre@.len() == n,
                post@.len() == n,
                wn == (pass >= widening_delay),
                pass_old == pass as int,
                fuel_old == fuel as int,
                fuel_old > 0,
                delay == widening_delay as int,
                asc == spec_iterate(*body, heads@, init@, delay, pm0, qm0, pass_old, fuel_old),
                (models_of(pre@), models_of(post@), changed) == spec_pass_upto(
                    *body,
                    heads@,
                    wn,
                    init@,
                    pm0,
                    qm0,
                    v as int,
                ),
                forall|w: int| 0 <= w < n ==> (#[trigger] pre@[w]).wf(nl),
                forall|w: int| 0 <= w < n ==> (#[trigger] post@[w]).wf(nl),
            decreases n - v,
        {
            let ghost pmv = models_of(pre@);
            let ghost qmv = models_of(post@);
            let ghost chv = changed;
            let acc = join_preds(body, &post, init, v);
            let newpre = if heads[v] && pass >= widening_delay {
                pre[v].widen_with(&acc)
            } else {
                acc
            };
            if !(newpre.le(&pre[v]) && pre[v].le(&newpre)) {
                changed = true;
            }
            pre.set(v, newpre);
            let newpost = transfer_stmts(&pre[v], &body.blocks[v].statements);
            post.set(v, newpost);
            proof {
                assert(pmv[v as int] == pre@[v as int]@ || true);
                assert(models_of(pre@) =~= pmv.update(v as int, pre@[v as int]@));
                assert(models_of(post@) =~= qmv.update(v as int, post@[v as int]@));
            }
            v = v + 1;
        }
        proof {
            assert((models_of(pre@), models_of(post@), changed) == spec_pass_upto(
                *body,
                heads@,
                wn,
                init@,
                pm0,
                qm0,
                n as int,
            ));
        }
        if pass < 200000 {
            pass = pass + 1;
        }
        fuel = fuel - 1;
        if !changed {
            fuel = 0;
        }
        proof {
            let stp = spec_pass_upto(*body, heads@, pass_old >= delay, init@, pm0, qm0, n as int);
            assert(wn == (pass_old >= delay));
            assert(stp == (models_of(pre@), models_of(post@), changed));
            assert(asc == spec_iterate(*body, heads@, init@, delay, pm0, qm0, pass_old, fuel_old));
            if changed {
                assert(spec_iterate(*body, heads@, init@, delay, pm0, qm0, pass_old, fuel_old)
                    == spec_iterate(
                    *body,
                    heads@,
                    init@,
                    delay,
                    stp.0,
                    stp.1,
                    if pass_old < 200000 {
                        pass_old + 1
                    } else {
                        pass_old
                    },
                    fuel_old - 1,
                ));
                assert(pass as int == if pass_old < 200000 {
                    pass_old + 1
                } else {
                    pass_old
                });
                assert(fuel as int == fuel_old - 1);
            } else {
                assert(spec_iterate(*body, heads@, init@, delay, pm0, qm0, pass_old, fuel_old)
                    == (stp.0, stp.1));
                assert(fuel as int == 0);
            }
        }
    }
    let ghost p1 = models_of(pre@);
    let ghost q1 = models_of(post@);
    proof {
        assert(asc == (p1, q1));
    }

    // Narrowing: a bounded number of descending passes, each taken only
    // where the fresh join lies below the stabilized pre-state.
    let ghost desc = spec_narrow_iter(*body, init@, p1, q1, 2);
    let mut descent: usize = 0;
    while descent < 2
        invariant
            0 <= descent <= 2,
            n == body.blocks@.len(),
            nl == body.local_types@.len() as int,
            body.wf(),
            init.wf(nl),
            heads@ == spec_heads(*body),
            delay == widening_delay as int,
            s0 == spec_initial_states(*body),
            asc == spec_iterate(*body, heads@, init@, delay, s0, s0, 0, spec_fuel(delay)),
            asc == (p1, q1),
            desc == spec_narrow_iter(*body, init@, p1, q1, 2),
            pre@.len() == n,
            post@.len() == n,
            desc == spec_narrow_iter(
                *body,
                init@,
                models_of(pre@),
                models_of(post@),
                2 - descent as int,
            ),
            forall|v: int| 0 <= v < n ==> (#[trigger] pre@[v]).wf(nl),
            forall|v: int| 0 <= v < n ==> (#[trigger] post@[v]).wf(nl),
        decreases 2 - descent,
    {
        let ghost pd0 = models_of(pre@);
        let ghost qd0 = models_of(post@);
        let mut v: usize = 0;
        while v < n
            invariant
                0 <= v <= n,
                n == body.blocks@.len(),
                nl == body.local_types@.len() as int,
                body.wf(),
                init.wf(nl),
                heads@ == spec_heads(*body),
                delay == widening_delay as int,
                s0 == spec_initial_states(*body),
                asc == spec_iterate(*body, heads@, init@, delay, s0, s0, 0, spec_fuel(delay)),
                asc == (p1, q1),
                desc == spec_narrow_iter(*body, init@, p1, q1, 2),
                pre@.len() == n,
                post@.len() == n,
                (models_of(pre@), models_of(post@)) == spec_narrow_upto(
                    *body,
                    init@,
                    pd0,
                    qd0,
                    v as int,
                ),
                forall|w: int| 0 <= w < n ==> (#[trigger] pre@[w]).wf(nl),
                forall|w: int| 0 <= w < n ==> (#[trigger] post@[w]).wf(nl),
            decreases n - v,
        {
            let ghost pmv = models_of(pre@);
            let ghost qmv = models_of(post@);
            let acc = join_preds(body, &post, init, v);
            if acc.le(&pre[v]) && !pre[v].bottom {
                let narrowed = pre[v].narrow_with(&acc);
                pre.set(v, narrowed);
                let newpost = transfer_stmts(&pre[v], &body.blocks[v].statements);
                post.set(v, newpost);
                proof {
                    assert(models_of(pre@) =~= pmv.update(v as int, pre@[v as int]@));
                    assert(models_of(post@) =~= qmv.update(v as int, post@[v as int]@));
                }
            } else {
                proof {
                    assert(models_of(pre@) =~= pmv);
                    assert(models_of(post@) =~= qmv);
                }
            }
            v = v + 1;
        }
        descent = descent + 1;
    }
    let ghost p2 = models_of(pre@);
    let ghost q2 = models_of(post@);
    proof {
        assert(desc == (p2, q2));
    }

    // Verification pass: the returned states must provably form a fixed
    // point; where the bounded iteration has not reached one, the sound
    // answer is the state in which nothing is known.
    let mut ok = true;
    if n > 0 {
        if !init.le(&pre[0]) {
            ok = false;
        }
    }
    proof {
        assert(ok == spec_valid_upto(*body, init@, p2, q2, 0));
    }
    let mut v: usize = 0;
    while v < n
        invariant
            0 <= v <= n,
            n == body.blocks@.len(),
            nl == body.local_types@.len() as int,
            body.wf(),
            init.wf(nl),
            pre@.len() == n,
            post@.len() == n,
            heads@ == spec_heads(*body),
            delay == widening_delay as int,
            s0 == spec_initial_states(*body),
            asc == spec_iterate(*body, heads@, init@, delay, s0, s0, 0, spec_fuel(delay)),
            asc == (p1, q1),
            desc == spec_narrow_iter(*body, init@, p1, q1, 2),
            desc == (p2, q2),
            p2 == models_of(pre@),
            q2 == models_of(post@),
            forall|w: int| 0 <= w < n ==> (#[trigger] pre@[w]).wf(nl),
            forall|w: int| 0 <= w < n ==> (#[trigger] post@[w]).wf(nl),
            ok == spec_valid_upto(*body, init@, p2, q2, v as int),
            ok ==> (n > 0 ==> init@.le(pre@[0]@)),
            ok ==> forall|w: int| 0 <= w < v ==> spec_transfer_stmts(
                pre@[w]@,
                (#[trigger] body.blocks@[w]).statements@,
            ).le(post@[w]@),
            ok ==> forall|w: int, k: int| 0 <= w < v && 0 <= k < spec_num_edges(
                body.blocks@[w].terminator,
            ) && 0 <= spec_edge_target(body.blocks@[w].terminator, k) < n as int
                ==> (#[trigger] spec_edge_env(
                post@[w]@,
                body.blocks@[w].terminator,
                body.local_types@,
                k,
            )).le(pre@[spec_edge_target(body.blocks@[w].terminator, k)]@),
        decreases n - v,
    {
        let t = transfer_stmts(&pre[v], &body.blocks[v].statements);
        let tc = t.le(&post[v]);
        let edges = terminator_edges(&post[v], &body.blocks[v].terminator, &body.local_types);
        let mut ec = true;
        let mut k: usize = 0;
        while k < edges.len()
            invariant
                0 <= k <= edges@.len(),
                n == body.blocks@.len(),
                nl == body.local_types@.len() as int,
                body.wf(),
                v < n,
                pre@.len() == n,
                post@.len() == n,
                heads@ == spec_heads(*body),
                delay == widening_delay as int,
                s0 == spec_initial_states(*body),
                asc == spec_iterate(*body, heads@, init@, delay, s0, s0, 0, spec_fuel(delay)),
                asc == (p1, q1),
                desc == spec_narrow_iter(*body, init@, p1, q1, 2),
                desc == (p2, q2),
                p2 == models_of(pre@),
                q2 == models_of(post@),
                forall|w: int| 0 <= w < n ==> (#[trigger] pre@[w]).wf(nl),
                forall|w: int| 0 <= w < n ==> (#[trigger] post@[w]).wf(nl),
                edges@.len() == spec_num_edges(body.blocks@[v as int].terminator),
                forall|j: int| 0 <= j < edges@.len() ==> (#[trigger] edges@[j]).0 as int
                    == spec_edge_target(body.blocks@[v as int].terminator, j),
                forall|j: int| 0 <= j < edges@.len() ==> ((#[trigger] edges@[j]).1)@
                    == spec_edge_env(
                    post@[v as int]@,
                    body.blocks@[v as int].terminator,
                    body.local_types@,
                    j,
                ),
                forall|j: int| 0 <= j < edges@.len() ==> (#[trigger] edges@[j]).1.wf(nl),
                ec == spec_edges_ok(
                    *body,
                    p2,
                    q2[v as int],
                    body.blocks@[v as int].terminator,
                    k as int,
                ),
            decreases edges@.len() - k,
        {
            let tgt = edges[k].0;
            let cond = if tgt < n {
                edges[k].1.le(&pre[tgt])
            } else {
                false
            };
            ec = ec && cond;
            k = k + 1;
        }
        let ghost old_ok = ok;
        ok = ok && tc && ec;
        proof {
            assert(ok == spec_valid_upto(*body, init@, p2, q2, v as int + 1));
            if ok {
                assert forall|w: int| 0 <= w < v as int + 1 implies spec_transfer_stmts(
                    pre@[w]@,
                    (#[trigger] body.blocks@[w]).statements@,
                ).le(post@[w]@) by {}
                assert forall|w: int, kk: int| 0 <= w < v as int + 1 && 0 <= kk < spec_num_edges(
                    body.blocks@[w].terminator,
                ) && 0 <= spec_edge_target(body.blocks@[w].terminator, kk) < n as int implies (
                #[trigger] spec_edge_env(
                    post@[w]@,
                    body.blocks@[w].terminator,
                    body.local_types@,
                    kk,
                )).le(pre@[spec_edge_target(body.blocks@[w].terminator, kk)]@) by {
                    if w == v as int {
                        lemma_edges_ok_at(
                            *body,
                            p2,
                            q2[v as int],
                            body.blocks@[v as int].terminator,
                            spec_num_edges(body.blocks@[v as int].terminator),
                            kk,
                        );
                        assert(p2[spec_edge_target(body.blocks@[w].terminator, kk)]
                            == pre@[spec_edge_target(body.blocks@[w].terminator, kk)]@);
                    }
                }
            }
        }
        v = v + 1;
    }

    if ok {
        let r = BlockStates { pre, post };
        proof {
            assert(spec_validate(*body, init@, p2, q2) == (p2, q2));
            assert(spec_fixpoint(*body, init@, delay) == (p2, q2));
        }
        r
    } else {
        let mut tpre: Vec<AbstractEnvironment> = Vec::new();
        let mut tpost: Vec<AbstractEnvironment> = Vec::new();
        let mut i: usize = 0;
        while i < n
            invariant
                0 <= i <= n,
                nl == n_locals as int,
                tpre@.len() == i,
                tpost@.len() == i,
                forall|v: int| 0 <= v < i ==> (#[trigger] tpre@[v])@ == full_top_model(nl),
                forall|v: int| 0 <= v < i ==> (#[trigger] tpost@[v])@ == full_top_model(nl),
                forall|v: int| 0 <= v < i ==> (#[trigger] tpre@[v]).wf(nl),
                forall|v: int| 0 <= v < i ==> (#[trigger] tpost@[v]).wf(nl),
            decreases n - i,
        {
            tpre.push(full_top_env(n_locals));
            tpost.push(full_top_env(n_locals));
            i = i + 1;
        }
        proof {
            lemma_le_full_top(init@, nl);
            assert forall|v: int| 0 <= v < n implies spec_transfer_stmts(
                tpre@[v]@,
                (#[trigger] body.blocks@[v]).statements@,
            ).le(tpost@[v]@) by {
                lemma_transfer_stmts_len(tpre@[v]@, body.blocks@[v].statements@);
                lemma_le_full_top(spec_transfer_stmts(tpre@[v]@, body.blocks@[v].statements@), nl);
            }
            assert forall|v: int, k: int| 0 <= v < n && 0 <= k < spec_num_edges(
                body.blocks@[v].terminator,
            ) && 0 <= spec_edge_target(body.blocks@[v].terminator, k) < n as int implies (
            #[trigger] spec_edge_env(
                tpost@[v]@,
                body.blocks@[v].terminator,
                body.local_types@,
                k,
            )).le(tpre@[spec_edge_target(body.blocks@[v].terminator, k)]@) by {
                lemma_edge_env_len(tpost@[v]@, body.blocks@[v].terminator, body.local_types@, k);
                lemma_le_full_top(
                    spec_edge_env(tpost@[v]@, body.blocks@[v].terminator, body.local_types@, k),
                    nl,
                );
            }
            assert(!spec_valid_upto(*body, init@, p2, q2, n as int));
            assert(models_of(tpre@) =~= Seq::new(n as nat, |i: int| full_top_model(nl)));
            assert(models_of(tpost@) =~= Seq::new(n as nat, |i: int| full_top_model(nl)));
            assert(spec_fixpoint(*body, init@, delay).0 == models_of(tpre@));
            assert(spec_fixpoint(*body, init@, delay).1 == models_of(tpost@));
        }
        BlockStates { pre: tpre, post: tpost }
    }
}

} // verus!
