//! A model of the host compiler's static types and definition paths:
//! what the type visitor and the summary keys read of them, as plain
//! recursive data.  Lists are built as chains, so that equality and
//! copying stay structural all the way down.

use vstd::prelude::*;

verus! {

/// Signed integer widths.
#[derive(Clone, Copy, PartialEq, Eq, Structural, Debug)]
pub enum IntTy {
    Isize,
    I8,
    I16,
    I32,
    I64,
    I128,
}

/// Unsigned integer widths.
#[derive(Clone, Copy, PartialEq, Eq, Structural, Debug)]
pub enum UintTy {
    Usize,
    U8,
    U16,
    U32,
    U64,
    U128,
}

/// Floating-point widths, carried opaquely: no float value appears in
/// the analysis, only the kind.
#[derive(Clone, Copy, PartialEq, Eq, Structural, Debug)]
pub enum FloatTy {
    F32,
    F64,
}

/// Whether a pointer or reference permits writing.
#[derive(Clone, Copy, PartialEq, Eq, Structural, Debug)]
pub enum Mutability {
    Not,
    Mut,
}

/// One namespace component of a definition path.
#[derive(PartialEq, Eq, Debug)]
pub enum DefPathData {
    TypeNs(String),
    ValueNs(String),
    MacroNs(String),
    LifetimeNs(String),
    CrateRoot,
    Impl,
    ForeignMod,
    Use,
    GlobalAsm,
    Closure,
    Ctor,
    AnonConst,
    OpaqueTy,
    AnonAdt,
}

/// One step of a definition path, with its disambiguator.
#[derive(PartialEq, Eq, Debug)]
pub struct DefPathComponent {
    pub data: DefPathData,
    pub disambiguator: u32,
}

/// The steps of a definition path, first to last.
#[derive(PartialEq, Eq, Debug)]
pub enum ComponentList {
    Nil,
    Cons(DefPathComponent, Box<ComponentList>),
}

/// Where a definition lives: its crate's name and the path of
/// namespace components leading to it.
#[derive(PartialEq, Eq, Debug)]
pub struct DefPath {
    pub krate: String,
    pub components: ComponentList,
}

/// A generic argument: a type, or something the visitor does not read
/// (a lifetime or a constant).
#[derive(PartialEq, Eq, Debug)]
pub enum GenericArg {
    Type(Box<Ty>),
    Other,
}

/// A generic-argument list.
#[derive(PartialEq, Eq, Debug)]
pub enum ArgList {
    Nil,
    Cons(GenericArg, Box<ArgList>),
}

/// A type list.
#[derive(PartialEq, Eq, Debug)]
pub enum TyList {
    Nil,
    Cons(Box<Ty>, Box<TyList>),
}

/// The variants of a named type, each with its field types.
#[derive(PartialEq, Eq, Debug)]
pub enum VariantList {
    Nil,
    Cons(TyList, Box<VariantList>),
}

/// The static types the visitor distinguishes.
#[derive(PartialEq, Eq, Debug)]
pub enum Ty {
    Bool,
    Char,
    Int(IntTy),
    Uint(UintTy),
    Float(FloatTy),
    Str,
    Unit,
    Never,
    /// A named type with its variants' field types and generic
    /// arguments.
    Adt { path: DefPath, is_union: bool, variants: VariantList, substs: ArgList },
    /// A closure with its captured environment's types.
    Closure { path: DefPath, upvars: TyList },
    /// A trait object, by its principal trait if it has one.
    Dynamic { principal: Option<(DefPath, ArgList)> },
    Foreign { path: DefPath },
    FnDef { path: DefPath, substs: ArgList },
    FnPtr { inputs: TyList, output: Box<Ty> },
    Array(Box<Ty>),
    Slice(Box<Ty>),
    RawPtr(Box<Ty>, Mutability),
    Ref(Box<Ty>, Mutability),
    Tuple(TyList),
    /// A type parameter, by name.
    Param(String),
    /// A still-bound, inference or error type: never concrete.
    Bound,
    Infer,
    Error,
}

impl TyList {
    /// How many types the list holds.
    pub open spec fn spec_len(self) -> nat
        decreases self,
    {
        match self {
            TyList::Nil => 0,
            TyList::Cons(_, rest) => 1 + rest.spec_len(),
        }
    }

    /// The first type, if any.
    pub open spec fn spec_first(self) -> Option<Ty> {
        match self {
            TyList::Nil => None,
            TyList::Cons(t, _) => Some(*t),
        }
    }

    /// The type at the given position.
    pub open spec fn spec_index(self, i: int) -> Option<Ty>
        decreases self,
    {
        match self {
            TyList::Nil => None,
            TyList::Cons(t, rest) => if i == 0 {
                Some(*t)
            } else {
                rest.spec_index(i - 1)
            },
        }
    }
}

impl ArgList {
    /// How many arguments the list holds.
    pub open spec fn spec_len(self) -> nat
        decreases self,
    {
        match self {
            ArgList::Nil => 0,
            ArgList::Cons(_, rest) => 1 + rest.spec_len(),
        }
    }

    /// The argument at the given position.
    pub open spec fn spec_index(self, i: int) -> Option<GenericArg>
        decreases self,
    {
        match self {
            ArgList::Nil => None,
            ArgList::Cons(a, rest) => if i == 0 {
                Some(a)
            } else {
                rest.spec_index(i - 1)
            },
        }
    }
}

impl Clone for DefPathData {
    /// A structural copy.
    fn clone(&self) -> (r: DefPathData)
        ensures
            r == *self,
    {
        match self {
            DefPathData::TypeNs(n) => DefPathData::TypeNs(n.clone()),
            DefPathData::ValueNs(n) => DefPathData::ValueNs(n.clone()),
            DefPathData::MacroNs(n) => DefPathData::MacroNs(n.clone()),
            DefPathData::LifetimeNs(n) => DefPathData::LifetimeNs(n.clone()),
            DefPathData::CrateRoot => DefPathData::CrateRoot,
            DefPathData::Impl => DefPathData::Impl,
            DefPathData::ForeignMod => DefPathData::ForeignMod,
            DefPathData::Use => DefPathData::Use,
            DefPathData::GlobalAsm => DefPathData::GlobalAsm,
            DefPathData::Closure => DefPathData::Closure,
            DefPathData::Ctor => DefPathData::Ctor,
            DefPathData::AnonConst => DefPathData::AnonConst,
            DefPathData::OpaqueTy => DefPathData::OpaqueTy,
            DefPathData::AnonAdt => DefPathData::AnonAdt,
        }
    }
}

impl Clone for DefPathComponent {
    /// A structural copy.
    fn clone(&self) -> (r: DefPathComponent)
        ensures
            r == *self,
    {
        DefPathComponent { data: self.data.clone(), disambiguator: self.disambiguator }
    }
}

impl Clone for ComponentList {
    /// A structural copy.
    fn clone(&self) -> (r: ComponentList)
        ensures
            r == *self,
        decreases self,
    {
        match self {
            ComponentList::Nil => ComponentList::Nil,
            ComponentList::Cons(c, rest) => ComponentList::Cons(
                c.clone(),
                Box::new((**rest).clone()),
            ),
        }
    }
}

impl Clone for DefPath {
    /// A structural copy.
    fn clone(&self) -> (r: DefPath)
        ensures
            r == *self,
    {
        DefPath { krate: self.krate.clone(), components: self.components.clone() }
    }
}

impl Clone for GenericArg {
    /// A structural copy.
    fn clone(&self) -> (r: GenericArg)
        ensures
            r == *self,
        decreases self,
    {
        match self {
            GenericArg::Type(t) => GenericArg::Type(Box::new((**t).clone())),
            GenericArg::Other => GenericArg::Other,
        }
    }
}

impl Clone for ArgList {
    /// A structural copy.
    fn clone(&self) -> (r: ArgList)
        ensures
            r == *self,
        decreases self,
    {
        match self {
            ArgList::Nil => ArgList::Nil,
            ArgList::Cons(a, rest) => ArgList::Cons(a.clone(), Box::new((**rest).clone())),
        }
    }
}

impl Clone for TyList {
    /// A structural copy.
    fn clone(&self) -> (r: TyList)
        ensures
            r == *self,
        decreases self,
    {
        match self {
            TyList::Nil => TyList::Nil,
            TyList::Cons(t, rest) => TyList::Cons(
                Box::new((**t).clone()),
                Box::new((**rest).clone()),
            ),
        }
    }
}

impl Clone for VariantList {
    /// A structural copy.
    fn clone(&self) -> (r: VariantList)
        ensures
            r == *self,
        decreases self,
    {
        match self {
            VariantList::Nil => VariantList::Nil,
            VariantList::Cons(v, rest) => VariantList::Cons(
                v.clone(),
                Box::new((**rest).clone()),
            ),
        }
    }
}

impl Clone for Ty {
    /// A structural copy.
    fn clone(&self) -> (r: Ty)
        ensures
            r == *self,
        decreases self,
    {
        match self {
            Ty::Bool => Ty::Bool,
            Ty::Char => Ty::Char,
            Ty::Int(it) => Ty::Int(*it),
            Ty::Uint(ut) => Ty::Uint(*ut),
            Ty::Float(ft) => Ty::Float(*ft),
            Ty::Str => Ty::Str,
            Ty::Unit => Ty::Unit,
            Ty::Never => Ty::Never,
            Ty::Adt { path, is_union, variants, substs } => Ty::Adt {
                path: path.clone(),
                is_union: *is_union,
                variants: variants.clone(),
                substs: substs.clone(),
            },
            Ty::Closure { path, upvars } => Ty::Closure {
                path: path.clone(),
                upvars: upvars.clone(),
            },
            Ty::Dynamic { principal } => Ty::Dynamic {
                principal: match principal {
                    Option::Some(p) => Option::Some((p.0.clone(), p.1.clone())),
                    Option::None => Option::None,
                },
            },
            Ty::Foreign { path } => Ty::Foreign { path: path.clone() },
            Ty::FnDef { path, substs } => Ty::FnDef { path: path.clone(), substs: substs.clone() },
            Ty::FnPtr { inputs, output } => Ty::FnPtr {
                inputs: inputs.clone(),
                output: Box::new((**output).clone()),
            },
            Ty::Array(elem) => Ty::Array(Box::new((**elem).clone())),
            Ty::Slice(elem) => Ty::Slice(Box::new((**elem).clone())),
            Ty::RawPtr(elem, m) => Ty::RawPtr(Box::new((**elem).clone()), *m),
            Ty::Ref(elem, m) => Ty::Ref(Box::new((**elem).clone()), *m),
            Ty::Tuple(elems) => Ty::Tuple(elems.clone()),
            Ty::Param(name) => Ty::Param(name.clone()),
            Ty::Bound => Ty::Bound,
            Ty::Infer => Ty::Infer,
            Ty::Error => Ty::Error,
        }
    }
}

/// One projection step of a place, with the projected type where the
/// host records it.
#[derive(PartialEq, Eq, Debug)]
pub enum ProjectionElem {
    Deref,
    Field(usize, Ty),
    Index,
    ConstantIndex,
    Subslice,
    Downcast,
    OpaqueCast,
    Subtype,
}

/// The projection steps of a place, first to last.
#[derive(PartialEq, Eq, Debug)]
pub enum ProjList {
    Nil,
    Cons(ProjectionElem, Box<ProjList>),
}

/// A place in memory: a local and the projections applied to it.
#[derive(PartialEq, Eq, Debug)]
pub struct Place {
    pub local: usize,
    pub projection: ProjList,
}

} // verus!
