//! The path algebra: symbolic addresses for every place a function can
//! reach — locals, parameters, the result, statics, and qualified
//! sub-paths reached through a selector.

use vstd::prelude::*;

verus! {

/// A selector qualifying a path: one step from a place to one of its
/// parts.
#[derive(PartialEq, Eq, Debug)]
pub enum Selector {
    /// A field, by its ordinal in canonical form.
    Field(usize),
    /// An element, at an index known only as another path.
    Index(Box<Path>),
    /// An element at a constant offset, possibly from the end.
    ConstantIndex { offset: u64, from_end: bool },
    /// A slice of the qualifier.
    Slice { from: u64, to: u64 },
    /// A subslice of the qualifier.
    Subslice { from: u64, to: u64 },
    /// The place behind a reference.
    Deref,
    /// The discriminant of an enumeration.
    Discriminant,
    /// A downcast to the variant with the given ordinal.
    Downcast(usize),
}

/// A symbolic address.  Qualifiers are built bottom-up and immutable,
/// so paths are acyclic by construction.
#[derive(PartialEq, Eq, Debug)]
pub enum Path {
    Local { ordinal: usize },
    Parameter { ordinal: usize },
    Result,
    StaticVariable { id: u64 },
    Constant,
    PromotedConstant { ordinal: usize },
    Offset { ordinal: usize },
    PhantomData,
    Qualified { qualifier: Box<Path>, selector: Box<Selector> },
}

/// How two paths may refer to the same memory.
#[derive(Clone, Copy, PartialEq, Eq, Structural, Debug)]
pub enum PathRelation {
    /// The two paths denote the same place.
    Equal,
    /// The first path is a proper prefix of the second.
    Prefix,
    /// The first path properly extends the second.
    Extension,
    /// Neither path is a prefix of the other.
    Disjoint,
}

impl Path {
    /// Whether this path is a qualified sub-path.
    pub open spec fn spec_is_qualified(self) -> bool {
        self is Qualified
    }

    /// The root of the qualifier chain: the path itself when it is not
    /// qualified.
    pub open spec fn spec_root(self) -> Path
        decreases self,
    {
        match self {
            Path::Qualified { qualifier, selector: _ } => qualifier.spec_root(),
            _ => self,
        }
    }

    /// Qualify this path by one selector.  A dereference of a freshly
    /// taken reference, or a field of a known tuple value, could be
    /// simplified away; deciding either needs the symbolic value the
    /// environment stores for the qualifier, and the expression forms
    /// here carry no reference or tuple values, so there is nothing to
    /// cancel and the qualified path is built as written.
    pub fn qualify(self, selector: Selector) -> (r: Path)
        ensures
            r == (Path::Qualified { qualifier: Box::new(self), selector: Box::new(selector) }),
    {
        Path::Qualified { qualifier: Box::new(self), selector: Box::new(selector) }
    }

    /// Decide structural equality.
    pub fn eq_path(&self, o: &Path) -> (r: bool)
        ensures
            r == (self == o),
        decreases self,
    {
        match (self, o) {
            (Path::Local { ordinal: a }, Path::Local { ordinal: b }) => a == b,
            (Path::Parameter { ordinal: a }, Path::Parameter { ordinal: b }) => a == b,
            (Path::Result, Path::Result) => true,
            (Path::StaticVariable { id: a }, Path::StaticVariable { id: b }) => a == b,
            (Path::Constant, Path::Constant) => true,
            (Path::PromotedConstant { ordinal: a }, Path::PromotedConstant { ordinal: b }) => a
                == b,
            (Path::Offset { ordinal: a }, Path::Offset { ordinal: b }) => a == b,
            (Path::PhantomData, Path::PhantomData) => true,
            (
                Path::Qualified { qualifier: qa, selector: sa },
                Path::Qualified { qualifier: qb, selector: sb },
            ) => qa.eq_path(qb) && sa.eq_selector(sb),
            _ => false,
        }
    }

    /// The root of the qualifier chain.
    pub fn root(&self) -> (r: &Path)
        ensures
            *r == self.spec_root(),
        decreases self,
    {
        match self {
            Path::Qualified { qualifier, selector: _ } => qualifier.root(),
            _ => self,
        }
    }

    /// Whether `self` is a prefix of `o` (equality included): `o` is
    /// reached from `self` through zero or more selectors.
    pub open spec fn spec_is_prefix_of(self, o: Path) -> bool
        decreases o,
    {
        self == o || match o {
            Path::Qualified { qualifier, selector: _ } => self.spec_is_prefix_of(*qualifier),
            _ => false,
        }
    }

    /// Decide whether `self` is a prefix of `o`, equality included.
    pub fn is_prefix_of(&self, o: &Path) -> (r: bool)
        ensures
            r == self.spec_is_prefix_of(*o),
        decreases o,
    {
        if self.eq_path(o) {
            true
        } else {
            match o {
                Path::Qualified { qualifier, selector: _ } => self.is_prefix_of(qualifier),
                _ => false,
            }
        }
    }

    /// The length of the qualifier chain.
    pub open spec fn spec_depth(self) -> nat
        decreases self,
    {
        match self {
            Path::Qualified { qualifier, selector: _ } => qualifier.spec_depth() + 1,
            _ => 0,
        }
    }

    /// How this path relates to another: used by the environment to
    /// decide which entries an aliased write must drop.
    pub fn refers_to(&self, o: &Path) -> (r: PathRelation)
        ensures
            r == PathRelation::Equal <==> self == o,
            r == PathRelation::Prefix <==> self != o && self.spec_is_prefix_of(*o),
            r == PathRelation::Extension <==> self != o && o.spec_is_prefix_of(*self),
            r == PathRelation::Disjoint <==> !self.spec_is_prefix_of(*o)
                && !o.spec_is_prefix_of(*self),
    {
        proof {
            lemma_prefix_depth(*self, *o);
            lemma_prefix_depth(*o, *self);
        }
        if self.eq_path(o) {
            PathRelation::Equal
        } else if self.is_prefix_of(o) {
            PathRelation::Prefix
        } else if o.is_prefix_of(self) {
            PathRelation::Extension
        } else {
            PathRelation::Disjoint
        }
    }

    /// What `rename` returns: the root of the qualifier chain replaced
    /// when it equals `old`.
    pub open spec fn spec_rename(self, old: Path, new: Path) -> Path
        decreases self,
    {
        match self {
            Path::Qualified { qualifier, selector } => Path::Qualified {
                qualifier: Box::new(qualifier.spec_rename(old, new)),
                selector,
            },
            _ => if self == old {
                new
            } else {
                self
            },
        }
    }

    /// Substitute the qualifier chain's root: when the root equals
    /// `old` it becomes `new`.  Used when a callee is inlined and its
    /// parameters are rebound to the caller's argument places.
    pub fn rename(&self, old: &Path, new: &Path) -> (r: Path)
        ensures
            r == self.spec_rename(*old, *new),
        decreases self,
    {
        match self {
            Path::Qualified { qualifier, selector } => Path::Qualified {
                qualifier: Box::new(qualifier.rename(old, new)),
                selector: Box::new((**selector).clone()),
            },
            _ => if self.eq_path(old) {
                new.clone()
            } else {
                self.clone()
            },
        }
    }
}

impl Clone for Path {
    /// A structural copy.
    fn clone(&self) -> (r: Path)
        ensures
            r == *self,
        decreases self,
    {
        match self {
            Path::Local { ordinal } => Path::Local { ordinal: *ordinal },
            Path::Parameter { ordinal } => Path::Parameter { ordinal: *ordinal },
            Path::Result => Path::Result,
            Path::StaticVariable { id } => Path::StaticVariable { id: *id },
            Path::Constant => Path::Constant,
            Path::PromotedConstant { ordinal } => Path::PromotedConstant { ordinal: *ordinal },
            Path::Offset { ordinal } => Path::Offset { ordinal: *ordinal },
            Path::PhantomData => Path::PhantomData,
            Path::Qualified { qualifier, selector } => Path::Qualified {
                qualifier: Box::new((**qualifier).clone()),
                selector: Box::new((**selector).clone()),
            },
        }
    }
}

impl Clone for Selector {
    /// A structural copy.
    fn clone(&self) -> (r: Selector)
        ensures
            r == *self,
        decreases self,
    {
        match self {
            Selector::Field(a) => Selector::Field(*a),
            Selector::Index(p) => Selector::Index(Box::new((**p).clone())),
            Selector::ConstantIndex { offset, from_end } => Selector::ConstantIndex {
                offset: *offset,
                from_end: *from_end,
            },
            Selector::Slice { from, to } => Selector::Slice { from: *from, to: *to },
            Selector::Subslice { from, to } => Selector::Subslice { from: *from, to: *to },
            Selector::Deref => Selector::Deref,
            Selector::Discriminant => Selector::Discriminant,
            Selector::Downcast(a) => Selector::Downcast(*a),
        }
    }
}

impl Selector {
    /// Decide structural equality.
    pub fn eq_selector(&self, o: &Selector) -> (r: bool)
        ensures
            r == (self == o),
        decreases self,
    {
        match (self, o) {
            (Selector::Field(a), Selector::Field(b)) => a == b,
            (Selector::Index(a), Selector::Index(b)) => a.eq_path(b),
            (
                Selector::ConstantIndex { offset: oa, from_end: fa },
                Selector::ConstantIndex { offset: ob, from_end: fb },
            ) => oa == ob && fa == fb,
            (Selector::Slice { from: fa, to: ta }, Selector::Slice { from: fb, to: tb }) => fa
                == fb && ta == tb,
            (Selector::Subslice { from: fa, to: ta }, Selector::Subslice { from: fb, to: tb }) =>
                fa == fb && ta == tb,
            (Selector::Deref, Selector::Deref) => true,
            (Selector::Discriminant, Selector::Discriminant) => true,
            (Selector::Downcast(a), Selector::Downcast(b)) => a == b,
            _ => false,
        }
    }
}

/// A prefix never has the longer qualifier chain, and a proper prefix
/// has a strictly shorter one.
pub proof fn lemma_prefix_depth(a: Path, b: Path)
    ensures
        a.spec_is_prefix_of(b) ==> a.spec_depth() <= b.spec_depth(),
        a.spec_is_prefix_of(b) && a != b ==> a.spec_depth() < b.spec_depth(),
    decreases b,
{
    if a.spec_is_prefix_of(b) && a != b {
        match b {
            Path::Qualified { qualifier, selector: _ } => {
                lemma_prefix_depth(a, *qualifier);
            },
            _ => {},
        }
    }
}

/// Renaming a root there and back returns the original path: for roots
/// `a` and `b`, `rename(rename(p, a, b), b, a) == p`, as long as `b`
/// was not already the root of `p` while `a` was not (renaming such a
/// `p` backward would capture its root: take `p` a local, `a` a
/// parameter and `b` that same local).
pub proof fn lemma_rename_round_trip(p: Path, a: Path, b: Path)
    requires
        !b.spec_is_qualified(),
        p.spec_root() == a || p.spec_root() != b,
    ensures
        p.spec_rename(a, b).spec_rename(b, a) == p,
    decreases p,
{
    match p {
        Path::Qualified { qualifier, selector } => {
            assert(p.spec_root() == qualifier.spec_root());
            lemma_rename_round_trip(*qualifier, a, b);
        },
        _ => {
            assert(p.spec_root() == p);
            if p == a {
                assert(p.spec_rename(a, b) == b);
                assert(!b.spec_is_qualified());
                assert(b.spec_rename(b, a) == a);
            } else {
                assert(p.spec_rename(a, b) == p);
                assert(p != b);
            }
        },
    }
}

} // verus!
