//! The expression algebra: the primitive kinds values can have, and the
//! symbolic value trees the environment stores for the places it tracks.

use vstd::prelude::*;
use crate::mir::BinOp;

verus! {

/// The primitive kind of an abstract value.  Floating kinds are
/// carried opaquely: no float value ever enters the analysis.
#[derive(Clone, Copy, PartialEq, Eq, Structural, Debug)]
pub enum ExpressionType {
    Bool,
    Char,
    I8,
    I16,
    I32,
    I64,
    I128,
    U8,
    U16,
    U32,
    U64,
    U128,
    Isize,
    Usize,
    /// A single-precision floating value, opaque to the numeric
    /// analysis: float precision is out of the analyzer's scope, so
    /// the kind is carried but never given a range.
    F32,
    /// A double-precision floating value, opaque as well.
    F64,
    Reference,
    NonPrimitive,
    Unit,
}

impl ExpressionType {
    /// Integer kinds have a machine range the checker holds values to.
    pub open spec fn spec_is_integer(self) -> bool {
        match self {
            ExpressionType::I8 | ExpressionType::I16 | ExpressionType::I32 | ExpressionType::I64
                | ExpressionType::I128 | ExpressionType::U8 | ExpressionType::U16
                | ExpressionType::U32 | ExpressionType::U64 | ExpressionType::U128
                | ExpressionType::Isize | ExpressionType::Usize => true,
            _ => false,
        }
    }

    /// Whether this kind is an integer kind.
    pub fn is_integer(&self) -> (r: bool)
        ensures
            r == self.spec_is_integer(),
    {
        match self {
            ExpressionType::I8 | ExpressionType::I16 | ExpressionType::I32 | ExpressionType::I64
                | ExpressionType::I128 | ExpressionType::U8 | ExpressionType::U16
                | ExpressionType::U32 | ExpressionType::U64 | ExpressionType::U128
                | ExpressionType::Isize | ExpressionType::Usize => true,
            _ => false,
        }
    }
}

/// The machine range of an integer kind, as an interval; kinds whose
/// extremes do not fit a finite end-point get an infinite one, which
/// only widens the analysis.
pub open spec fn spec_type_range(t: ExpressionType) -> crate::interval::Interval {
    match t {
        ExpressionType::Bool => interval_of(0, 1),
        ExpressionType::Char => interval_of(0, 0x10FFFF),
        ExpressionType::I8 => interval_of(-128, 127),
        ExpressionType::I16 => interval_of(-32768, 32767),
        ExpressionType::I32 => interval_of(-2147483648, 2147483647),
        ExpressionType::I64 => crate::interval::Interval {
            lo: crate::interval::Bound::Fin(i64::MIN),
            hi: crate::interval::Bound::Fin(i64::MAX),
        },
        ExpressionType::I128 => crate::interval::Interval {
            lo: crate::interval::Bound::NegInf,
            hi: crate::interval::Bound::PosInf,
        },
        ExpressionType::U8 => interval_of(0, 255),
        ExpressionType::U16 => interval_of(0, 65535),
        ExpressionType::U32 => interval_of(0, 4294967295),
        ExpressionType::U64 => crate::interval::Interval {
            lo: crate::interval::Bound::Fin(0),
            hi: crate::interval::Bound::PosInf,
        },
        ExpressionType::U128 => crate::interval::Interval {
            lo: crate::interval::Bound::Fin(0),
            hi: crate::interval::Bound::PosInf,
        },
        ExpressionType::Isize => crate::interval::Interval {
            lo: crate::interval::Bound::Fin(i64::MIN),
            hi: crate::interval::Bound::Fin(i64::MAX),
        },
        ExpressionType::Usize => crate::interval::Interval {
            lo: crate::interval::Bound::Fin(0),
            hi: crate::interval::Bound::PosInf,
        },
        _ => crate::interval::Interval {
            lo: crate::interval::Bound::NegInf,
            hi: crate::interval::Bound::PosInf,
        },
    }
}

/// A finite interval, in spec form.
pub open spec fn interval_of(lo: int, hi: int) -> crate::interval::Interval {
    crate::interval::Interval {
        lo: crate::interval::Bound::Fin(lo as i64),
        hi: crate::interval::Bound::Fin(hi as i64),
    }
}

/// The machine range of a kind.
pub fn type_range(t: &ExpressionType) -> (r: crate::interval::Interval)
    ensures
        r == spec_type_range(*t),
        r.wf(),
{
    match t {
        ExpressionType::Bool => crate::interval::Interval {
            lo: crate::interval::Bound::Fin(0),
            hi: crate::interval::Bound::Fin(1),
        },
        ExpressionType::Char => crate::interval::Interval {
            lo: crate::interval::Bound::Fin(0),
            hi: crate::interval::Bound::Fin(0x10FFFF),
        },
        ExpressionType::I8 => crate::interval::Interval {
            lo: crate::interval::Bound::Fin(-128),
            hi: crate::interval::Bound::Fin(127),
        },
        ExpressionType::I16 => crate::interval::Interval {
            lo: crate::interval::Bound::Fin(-32768),
            hi: crate::interval::Bound::Fin(32767),
        },
        ExpressionType::I32 => crate::interval::Interval {
            lo: crate::interval::Bound::Fin(-2147483648),
            hi: crate::interval::Bound::Fin(2147483647),
        },
        ExpressionType::I64 => crate::interval::Interval {
            lo: crate::interval::Bound::Fin(i64::MIN),
            hi: crate::interval::Bound::Fin(i64::MAX),
        },
        ExpressionType::I128 => crate::interval::Interval {
            lo: crate::interval::Bound::NegInf,
            hi: crate::interval::Bound::PosInf,
        },
        ExpressionType::U8 => crate::interval::Interval {
            lo: crate::interval::Bound::Fin(0),
            hi: crate::interval::Bound::Fin(255),
        },
        ExpressionType::U16 => crate::interval::Interval {
            lo: crate::interval::Bound::Fin(0),
            hi: crate::interval::Bound::Fin(65535),
        },
        ExpressionType::U32 => crate::interval::Interval {
            lo: crate::interval::Bound::Fin(0),
            hi: crate::interval::Bound::Fin(4294967295),
        },
        ExpressionType::U64 => crate::interval::Interval {
            lo: crate::interval::Bound::Fin(0),
            hi: crate::interval::Bound::PosInf,
        },
        ExpressionType::U128 => crate::interval::Interval {
            lo: crate::interval::Bound::Fin(0),
            hi: crate::interval::Bound::PosInf,
        },
        ExpressionType::Isize => crate::interval::Interval {
            lo: crate::interval::Bound::Fin(i64::MIN),
            hi: crate::interval::Bound::Fin(i64::MAX),
        },
        ExpressionType::Usize => crate::interval::Interval {
            lo: crate::interval::Bound::Fin(0),
            hi: crate::interval::Bound::PosInf,
        },
        _ => crate::interval::Interval {
            lo: crate::interval::Bound::NegInf,
            hi: crate::interval::Bound::PosInf,
        },
    }
}

/// A symbolic value: what the environment knows a place to hold beyond
/// its numeric bounds.  Comparisons are kept symbolically so that a
/// branch on a comparison can refine its operands, and so that a bounds
/// check can be discharged against an identical checked comparison.
#[derive(Clone, Copy, PartialEq, Eq, Structural, Debug)]
pub enum Expression {
    /// A comparison of a local with a constant.
    CmpConst(BinOp, usize, i64),
    /// A comparison of two locals.
    CmpLocals(BinOp, usize, usize),
    /// A comparison of a local with the length of the slice in a local.
    CmpLen(BinOp, usize, usize),
    /// The length of the slice held by a local.
    Len(usize),
}

} // verus!
