//! A model of the host compiler's three-address intermediate
//! representation: basic blocks of statements closed by a terminator,
//! over locals named by ordinals.  Local 0 is the function's result;
//! locals 1..=arg_count are its parameters.

use vstd::prelude::*;
use crate::expression::ExpressionType;

verus! {

/// Binary operators of the intermediate representation.
#[derive(Clone, Copy, PartialEq, Eq, Structural, Debug)]
pub enum BinOp {
    Add,
    Sub,
    Mul,
    Div,
    Rem,
    Shl,
    Shr,
    BitXor,
    BitAnd,
    BitOr,
    Eq,
    Lt,
    Le,
    Ne,
    Ge,
    Gt,
    Offset,
}

/// An operand of a statement: a constant of a primitive type, or a use
/// of a local.
#[derive(Clone, Copy, PartialEq, Eq, Structural, Debug)]
pub enum Operand {
    Constant(i64, ExpressionType),
    Copy(usize),
    Move(usize),
}

/// The kinds of run-time checks a lowered program asserts, with the
/// operands the check speaks of.
#[derive(Clone, Copy, PartialEq, Eq, Structural, Debug)]
pub enum AssertKind {
    /// The index must stay below the length.
    BoundsCheck { len: Operand, index: Operand },
    /// The named operation on the operands must not overflow their type.
    Overflow(BinOp, Operand, Operand),
    /// Negating the operand must not overflow (the minimum of a signed
    /// type).
    OverflowNeg(Operand),
    DivisionByZero(Operand),
    RemainderByZero(Operand),
    /// An explicit panic site.
    Panic,
}

/// A right-hand side of an assignment.
#[derive(Clone, Copy, PartialEq, Eq, Structural, Debug)]
pub enum Rvalue {
    Use(Operand),
    BinaryOp(BinOp, Operand, Operand),
    /// Arithmetic negation.
    Neg(Operand),
    /// The length of the slice held by the given local.
    Len(usize),
    /// A read of an element of the slice held by the first local, at the
    /// index given by the operand.
    IndexRead(usize, Operand),
}

/// One statement of a basic block.
#[derive(Clone, Copy, PartialEq, Eq, Structural, Debug)]
pub enum Statement {
    /// Evaluate the right-hand side and strong-update the local.
    Assign(usize, Rvalue),
    /// A write to an element of the slice held by the first local; the
    /// analysis does not track slice contents, so the store is preserved.
    IndexWrite(usize, Operand, Operand),
    StorageLive(usize),
    /// The local is dead: its abstract value is dropped.
    StorageDead(usize),
    Nop,
}

/// The terminator of a basic block.
#[derive(PartialEq, Eq, Debug)]
pub enum Terminator {
    Goto(usize),
    /// Branch on an operand: each target pairs a constant with a block;
    /// the `otherwise` block receives the complement.
    SwitchInt { disc: Operand, targets: Vec<(i64, usize)>, otherwise: usize },
    /// A run-time check: when it passes control flows to `target`, else
    /// the program panics with the given kind.
    Assert { kind: AssertKind, span: crate::diagnostics::Span, target: usize },
    Return,
    /// An explicit panic site.
    Panic { span: crate::diagnostics::Span },
    Unreachable,
    Abort,
}

/// A basic block: straight-line statements closed by a terminator.
#[derive(PartialEq, Eq, Debug)]
pub struct BasicBlock {
    pub statements: Vec<Statement>,
    pub terminator: Terminator,
}

/// The body of one function: its blocks, entered at block 0, and the
/// static types of its locals.
#[derive(PartialEq, Eq, Debug)]
pub struct Body {
    pub blocks: Vec<BasicBlock>,
    pub local_types: Vec<ExpressionType>,
    pub arg_count: usize,
    pub span: crate::diagnostics::Span,
}

impl Body {
    /// Every block index a terminator mentions stays inside the body, and
    /// the result and parameter locals exist.
    pub open spec fn wf(self) -> bool {
        &&& self.arg_count < self.local_types@.len()
        &&& forall|b: int| 0 <= b < self.blocks@.len() ==> (#[trigger] self.blocks@[b]).wf_in(
            self.blocks@.len() as int,
            self.local_types@.len() as int,
        )
    }
}

impl BasicBlock {
    /// Block and local references stay inside the enclosing body.
    pub open spec fn wf_in(self, n_blocks: int, n_locals: int) -> bool {
        &&& forall|s: int| 0 <= s < self.statements@.len() ==> stmt_wf_in(
            #[trigger] self.statements@[s],
            n_locals,
        )
        &&& term_wf_in(self.terminator, n_blocks, n_locals)
    }
}

/// Locals an operand mentions stay inside the body.
pub open spec fn operand_wf_in(op: Operand, n_locals: int) -> bool {
    match op {
        Operand::Constant(_, _) => true,
        Operand::Copy(l) => l < n_locals,
        Operand::Move(l) => l < n_locals,
    }
}

/// Locals a right-hand side mentions stay inside the body.
pub open spec fn rvalue_wf_in(rv: Rvalue, n_locals: int) -> bool {
    match rv {
        Rvalue::Use(op) => operand_wf_in(op, n_locals),
        Rvalue::BinaryOp(_, a, b) => operand_wf_in(a, n_locals) && operand_wf_in(b, n_locals),
        Rvalue::Neg(op) => operand_wf_in(op, n_locals),
        Rvalue::Len(l) => l < n_locals,
        Rvalue::IndexRead(l, op) => l < n_locals && operand_wf_in(op, n_locals),
    }
}

/// Locals a statement mentions stay inside the body.
pub open spec fn stmt_wf_in(s: Statement, n_locals: int) -> bool {
    match s {
        Statement::Assign(l, rv) => l < n_locals && rvalue_wf_in(rv, n_locals),
        Statement::IndexWrite(l, idx, val) => l < n_locals && operand_wf_in(idx, n_locals)
            && operand_wf_in(val, n_locals),
        Statement::StorageLive(l) => l < n_locals,
        Statement::StorageDead(l) => l < n_locals,
        Statement::Nop => true,
    }
}

/// Locals an assertion's operands mention stay inside the body.
pub open spec fn assert_kind_wf_in(k: AssertKind, n_locals: int) -> bool {
    match k {
        AssertKind::BoundsCheck { len, index } => operand_wf_in(len, n_locals) && operand_wf_in(
            index,
            n_locals,
        ),
        AssertKind::Overflow(_, a, b) => operand_wf_in(a, n_locals) && operand_wf_in(b, n_locals),
        AssertKind::OverflowNeg(a) => operand_wf_in(a, n_locals),
        AssertKind::DivisionByZero(a) => operand_wf_in(a, n_locals),
        AssertKind::RemainderByZero(a) => operand_wf_in(a, n_locals),
        AssertKind::Panic => true,
    }
}

/// Decide whether an operand stays inside the body.
pub fn check_operand_wf(op: &Operand, n_locals: usize) -> (r: bool)
    ensures
        r == operand_wf_in(*op, n_locals as int),
{
    match op {
        Operand::Constant(_, _) => true,
        Operand::Copy(l) => *l < n_locals,
        Operand::Move(l) => *l < n_locals,
    }
}

/// Decide whether a right-hand side stays inside the body.
pub fn check_rvalue_wf(rv: &Rvalue, n_locals: usize) -> (r: bool)
    ensures
        r == rvalue_wf_in(*rv, n_locals as int),
{
    match rv {
        Rvalue::Use(op) => check_operand_wf(op, n_locals),
        Rvalue::BinaryOp(_, a, b) => check_operand_wf(a, n_locals) && check_operand_wf(
            b,
            n_locals,
        ),
        Rvalue::Neg(op) => check_operand_wf(op, n_locals),
        Rvalue::Len(l) => *l < n_locals,
        Rvalue::IndexRead(l, op) => *l < n_locals && check_operand_wf(op, n_locals),
    }
}

/// Decide whether a statement stays inside the body.
pub fn check_stmt_wf(s: &Statement, n_locals: usize) -> (r: bool)
    ensures
        r == stmt_wf_in(*s, n_locals as int),
{
    match s {
        Statement::Assign(l, rv) => *l < n_locals && check_rvalue_wf(rv, n_locals),
        Statement::IndexWrite(l, idx, val) => *l < n_locals && check_operand_wf(idx, n_locals)
            && check_operand_wf(val, n_locals),
        Statement::StorageLive(l) => *l < n_locals,
        Statement::StorageDead(l) => *l < n_locals,
        Statement::Nop => true,
    }
}

/// Decide whether an assertion's operands stay inside the body.
pub fn check_assert_kind_wf(k: &AssertKind, n_locals: usize) -> (r: bool)
    ensures
        r == assert_kind_wf_in(*k, n_locals as int),
{
    match k {
        AssertKind::BoundsCheck { len, index } => check_operand_wf(len, n_locals)
            && check_operand_wf(index, n_locals),
        AssertKind::Overflow(_, a, b) => check_operand_wf(a, n_locals) && check_operand_wf(
            b,
            n_locals,
        ),
        AssertKind::OverflowNeg(a) => check_operand_wf(a, n_locals),
        AssertKind::DivisionByZero(a) => check_operand_wf(a, n_locals),
        AssertKind::RemainderByZero(a) => check_operand_wf(a, n_locals),
        AssertKind::Panic => true,
    }
}

/// Decide whether a terminator stays inside the body.
pub fn check_term_wf(t: &Terminator, n_blocks: usize, n_locals: usize) -> (r: bool)
    ensures
        r == term_wf_in(*t, n_blocks as int, n_locals as int),
{
    match t {
        Terminator::Goto(b) => *b < n_blocks,
        Terminator::SwitchInt { disc, targets, otherwise } => {
            let mut ok = check_operand_wf(disc, n_locals) && *otherwise < n_blocks;
            let mut i: usize = 0;
            while i < targets.len()
                invariant
                    0 <= i <= targets@.len(),
                    ok ==> operand_wf_in(*disc, n_locals as int) && *otherwise < n_blocks,
                    ok ==> forall|j: int| 0 <= j < i ==> (#[trigger] targets@[j]).1 < n_blocks,
                    !ok ==> !(operand_wf_in(*disc, n_locals as int) && *otherwise < n_blocks
                        && forall|j: int| 0 <= j < targets@.len()
                        ==> (#[trigger] targets@[j]).1 < n_blocks),
                decreases targets@.len() - i,
            {
                if !(targets[i].1 < n_blocks) {
                    ok = false;
                    assert(targets@[i as int].1 >= n_blocks);
                }
                i = i + 1;
            }
            ok
        },
        Terminator::Assert { kind, span: _, target } => check_assert_kind_wf(kind, n_locals)
            && *target < n_blocks,
        Terminator::Return => true,
        Terminator::Panic { span: _ } => true,
        Terminator::Unreachable => true,
        Terminator::Abort => true,
    }
}

impl Body {
    /// Decide whether the body is well-formed, so that the host's input
    /// can be validated before the analysis trusts its indices.
    pub fn check_wf(&self) -> (r: bool)
        ensures
            r == self.wf(),
    {
        let n_blocks = self.blocks.len();
        let n_locals = self.local_types.len();
        if !(self.arg_count < n_locals) {
            return false;
        }
        let mut ok = true;
        let mut b: usize = 0;
        while b < n_blocks
            invariant
                0 <= b <= n_blocks,
                n_blocks == self.blocks@.len(),
                n_locals == self.local_types@.len(),
                self.arg_count < n_locals,
                ok ==> forall|j: int| 0 <= j < b ==> (#[trigger] self.blocks@[j]).wf_in(
                    n_blocks as int,
                    n_locals as int,
                ),
                !ok ==> !self.wf(),
            decreases n_blocks - b,
        {
            let blk = &self.blocks[b];
            let mut s: usize = 0;
            while s < blk.statements.len()
                invariant
                    0 <= s <= blk.statements@.len(),
                    b < n_blocks,
                    n_blocks == self.blocks@.len(),
                    n_locals == self.local_types@.len(),
                    blk == &self.blocks@[b as int],
                    ok ==> forall|j: int| 0 <= j < b ==> (#[trigger] self.blocks@[j]).wf_in(
                        n_blocks as int,
                        n_locals as int,
                    ),
                    ok ==> forall|j: int| 0 <= j < s ==> stmt_wf_in(
                        #[trigger] blk.statements@[j],
                        n_locals as int,
                    ),
                    !ok ==> !self.wf(),
                decreases blk.statements@.len() - s,
            {
                if !check_stmt_wf(&blk.statements[s], n_locals) {
                    assert(!stmt_wf_in(blk.statements@[s as int], n_locals as int));
                    assert(!self.blocks@[b as int].wf_in(n_blocks as int, n_locals as int));
                    ok = false;
                }
                s = s + 1;
            }
            if !check_term_wf(&blk.terminator, n_blocks, n_locals) {
                assert(!self.blocks@[b as int].wf_in(n_blocks as int, n_locals as int));
                ok = false;
            }
            proof {
                if ok {
                    assert(self.blocks@[b as int].wf_in(n_blocks as int, n_locals as int));
                    assert forall|j: int| 0 <= j < b as int + 1 implies (
                    #[trigger] self.blocks@[j]).wf_in(n_blocks as int, n_locals as int) by {}
                }
            }
            b = b + 1;
        }
        ok
    }
}

/// Blocks and locals a terminator mentions stay inside the body.
pub open spec fn term_wf_in(t: Terminator, n_blocks: int, n_locals: int) -> bool {
    match t {
        Terminator::Goto(b) => b < n_blocks,
        Terminator::SwitchInt { disc, targets, otherwise } => {
            &&& operand_wf_in(disc, n_locals)
            &&& otherwise < n_blocks
            &&& forall|i: int| 0 <= i < targets@.len() ==> (#[trigger] targets@[i]).1 < n_blocks
        },
        Terminator::Assert { kind, span: _, target } => {
            &&& assert_kind_wf_in(kind, n_locals)
            &&& target < n_blocks
        },
        Terminator::Return => true,
        Terminator::Panic { span: _ } => true,
        Terminator::Unreachable => true,
        Terminator::Abort => true,
    }
}

} // verus!
