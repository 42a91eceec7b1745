//! The checker: after the fixed point is reached, walk the blocks once
//! more and, at every asserted check and panic site, classify the
//! guard in the state the fixed point assigns to it, buffering a
//! diagnostic for everything that cannot be shown to pass.

use vstd::prelude::*;
use crate::diagnostics::Diagnostic;
use crate::environment::EnvModel;
use crate::fixpoint::{models_of, BlockStates};
use crate::mir::Body;
use crate::visitor::{spec_term_diag, term_diag};

verus! {

/// The findings of the checker on the first `v` blocks, in block
/// order: each terminator contributes its classification in the state
/// holding before it.
pub open spec fn spec_checker_diags(body: Body, posts: Seq<EnvModel>, v: int) -> Seq<Diagnostic>
    decreases v,
{
    if v <= 0 {
        Seq::empty()
    } else {
        let rest = spec_checker_diags(body, posts, v - 1);
        match spec_term_diag(posts[v - 1], body.blocks@[v - 1].terminator, body.local_types@) {
            Some(d) => rest.push(d),
            None => rest,
        }
    }
}

/// Walk the blocks and collect one diagnostic for every check the
/// fixed-point states cannot discharge.  The output is a function of
/// the body and the states alone, in block order.
pub fn run_checker(body: &Body, states: &BlockStates) -> (r: Vec<Diagnostic>)
    requires
        states.post@.len() == body.blocks@.len(),
        forall|v: int| 0 <= v < states.post@.len() ==> (#[trigger] states.post@[v]).wf(
            body.local_types@.len() as int,
        ),
    ensures
        r@ == spec_checker_diags(*body, models_of(states.post@), body.blocks@.len() as int),
{
    let n = body.blocks.len();
    let mut r: Vec<Diagnostic> = Vec::new();
    let mut v: usize = 0;
    while v < n
        invariant
            0 <= v <= n,
            n == body.blocks@.len(),
            states.post@.len() == n,
            forall|w: int| 0 <= w < n ==> (#[trigger] states.post@[w]).wf(
                body.local_types@.len() as int,
            ),
            r@ == spec_checker_diags(*body, models_of(states.post@), v as int),
        decreases n - v,
    {
        match term_diag(&states.post[v], &body.blocks[v].terminator, &body.local_types) {
            Option::Some(d) => {
                r.push(d);
            },
            Option::None => {},
        }
        v = v + 1;
    }
    r
}

} // verus!
