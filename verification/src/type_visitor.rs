//! The type visitor: given a symbolic path and the current function's
//! local types and generic substitution, reconstruct the static type
//! of the place the path names.

use vstd::prelude::*;
use crate::path::{Path, Selector};
use crate::types::{ArgList, FloatTy, GenericArg, IntTy, Place, ProjList, ProjectionElem, Ty, TyList, UintTy};
use crate::expression::ExpressionType;

verus! {

/// A substitution map from type-parameter names to types.
#[derive(PartialEq, Eq, Debug)]
pub enum TyMap {
    Nil,
    Cons(String, Box<Ty>, Box<TyMap>),
}

impl TyMap {
    /// The type bound to the given name, if any; earlier entries win.
    pub open spec fn spec_lookup(self, name: Seq<char>) -> Option<Ty>
        decreases self,
    {
        match self {
            TyMap::Nil => None,
            TyMap::Cons(k, t, rest) => if k@ == name {
                Some(*t)
            } else {
                rest.spec_lookup(name)
            },
        }
    }

    /// Look a name up.
    pub fn lookup(&self, name: &String) -> (r: Option<&Ty>)
        ensures
            match r {
                Some(t) => self.spec_lookup(name@) == Some(*t),
                None => self.spec_lookup(name@) is None,
            },
        decreases self,
    {
        match self {
            TyMap::Nil => Option::None,
            TyMap::Cons(k, t, rest) => if k.eq(name) {
                Option::Some(t)
            } else {
                rest.lookup(name)
            },
        }
    }
}

impl Clone for TyMap {
    /// A structural copy.
    fn clone(&self) -> (r: TyMap)
        ensures
            r == *self,
        decreases self,
    {
        match self {
            TyMap::Nil => TyMap::Nil,
            TyMap::Cons(k, t, rest) => TyMap::Cons(
                k.clone(),
                Box::new((**t).clone()),
                Box::new((**rest).clone()),
            ),
        }
    }
}

/// The type at the given position of a list.
pub fn ty_list_get(ts: &TyList, i: usize) -> (r: Option<&Ty>)
    ensures
        match r {
            Some(t) => ts.spec_index(i as int) == Some(*t),
            None => ts.spec_index(i as int) is None,
        },
    decreases *ts,
{
    match ts {
        TyList::Nil => Option::None,
        TyList::Cons(t, rest) => if i == 0 {
            Option::Some(t)
        } else {
            ty_list_get(rest, i - 1)
        },
    }
}

/// Reconstructs the static type of any path under the current generic
/// substitution.
#[derive(PartialEq, Eq, Debug)]
pub struct TypeVisitor {
    /// The types of the arguments the current call site passes.
    pub actual_argument_types: TyList,
    /// The analyzed function's definition id.
    pub def_id: u64,
    /// The substitution from type-parameter names to types.
    pub generic_argument_map: Option<TyMap>,
    /// The static types of the function's locals, result first.
    pub local_types: TyList,
}

/// The target type of a reference type; any other type is its own.
pub open spec fn spec_dereferenced(t: Ty) -> Ty {
    match t {
        Ty::Ref(inner, _) => *inner,
        _ => t,
    }
}

/// The unit type, which stands in for everything the visitor cannot
/// resolve.
pub open spec fn spec_unit() -> Ty {
    Ty::Unit
}

/// What the visitor answers for a path: locals and parameters read
/// their declared or actual type, the result local 0's, and a
/// qualified path resolves its selector against its qualifier's type.
pub open spec fn spec_path_type(v: TypeVisitor, p: Path) -> Ty
    decreases p,
{
    match p {
        Path::Local { ordinal } => if 0 < ordinal {
            match v.local_types.spec_index(ordinal as int) {
                Some(t) => t,
                None => spec_unit(),
            }
        } else {
            spec_unit()
        },
        Path::Parameter { ordinal } => if 1 <= ordinal {
            match v.actual_argument_types.spec_index(ordinal as int - 1) {
                Some(t) => t,
                None => match v.local_types.spec_index(ordinal as int) {
                    Some(t) => t,
                    None => spec_unit(),
                },
            }
        } else {
            spec_unit()
        },
        Path::Result => match v.local_types.spec_index(0) {
            Some(t) => t,
            None => spec_unit(),
        },
        Path::Qualified { qualifier, selector } => spec_selected(
            v,
            spec_path_type(v, *qualifier),
            *selector,
        ),
        _ => spec_unit(),
    }
}

/// The type a selector picks out of its qualifier's type.
pub open spec fn spec_selected(v: TypeVisitor, t: Ty, s: Selector) -> Ty {
    match s {
        Selector::Slice { from: _, to: _ } => t,
        Selector::Field(ordinal) => spec_field_type(spec_dereferenced(t), ordinal),
        Selector::Deref => spec_dereferenced(t),
        Selector::Discriminant => Ty::Int(IntTy::I32),
        Selector::Index(_) => match t {
            Ty::Array(elem) => *elem,
            Ty::Slice(elem) => *elem,
            _ => spec_unit(),
        },
        _ => spec_unit(),
    }
}

/// The type of a field: in a non-union named type the field of the
/// last variant, in a closure the captured value, in a tuple the
/// element.
pub open spec fn spec_field_type(bt: Ty, ordinal: usize) -> Ty {
    match bt {
        Ty::Adt { path: _, is_union, variants, substs: _ } => if !is_union {
            match spec_last_variant(variants) {
                Some(fields) => match fields.spec_index(ordinal as int) {
                    Some(ft) => ft,
                    None => spec_unit(),
                },
                None => spec_unit(),
            }
        } else {
            spec_unit()
        },
        Ty::Closure { path: _, upvars } => match upvars.spec_index(ordinal as int) {
            Some(ft) => ft,
            None => spec_unit(),
        },
        Ty::Tuple(elems) => match elems.spec_index(ordinal as int) {
            Some(ft) => ft,
            None => spec_unit(),
        },
        _ => spec_unit(),
    }
}

/// The field types of the last variant, if there is one.
pub open spec fn spec_last_variant(vs: crate::types::VariantList) -> Option<TyList>
    decreases vs,
{
    match vs {
        crate::types::VariantList::Nil => None,
        crate::types::VariantList::Cons(fields, rest) => match spec_last_variant(*rest) {
            Some(f) => Some(f),
            None => Some(fields),
        },
    }
}

/// The field types of the last variant.
fn last_variant(vs: &crate::types::VariantList) -> (r: Option<&TyList>)
    ensures
        match r {
            Some(f) => spec_last_variant(*vs) == Some(*f),
            None => spec_last_variant(*vs) is None,
        },
    decreases *vs,
{
    match vs {
        crate::types::VariantList::Nil => Option::None,
        crate::types::VariantList::Cons(fields, rest) => match last_variant(rest) {
            Option::Some(f) => Option::Some(f),
            Option::None => Option::Some(fields),
        },
    }
}

impl TypeVisitor {
    /// A visitor for one function, before any call-site information is
    /// known.
    pub fn new(def_id: u64, local_types: TyList) -> (r: TypeVisitor)
        ensures
            r.actual_argument_types == TyList::Nil,
            r.def_id == def_id,
            r.generic_argument_map is None,
            r.local_types == local_types,
    {
        TypeVisitor {
            actual_argument_types: TyList::Nil,
            def_id,
            generic_argument_map: Option::None,
            local_types,
        }
    }

    /// Resolve the static type of a path.
    pub fn get_path_rustc_type(&self, path: &Path) -> (r: Ty)
        ensures
            r == spec_path_type(*self, *path),
        decreases *path,
    {
        match path {
            Path::Local { ordinal } => {
                if *ordinal > 0 {
                    match ty_list_get(&self.local_types, *ordinal) {
                        Option::Some(t) => t.clone(),
                        Option::None => Ty::Unit,
                    }
                } else {
                    Ty::Unit
                }
            },
            Path::Parameter { ordinal } => {
                if *ordinal >= 1 {
                    match ty_list_get(&self.actual_argument_types, *ordinal - 1) {
                        Option::Some(t) => t.clone(),
                        Option::None => {
                            if *ordinal > 0 {
                                match ty_list_get(&self.local_types, *ordinal) {
                                    Option::Some(t) => t.clone(),
                                    Option::None => Ty::Unit,
                                }
                            } else {
                                Ty::Unit
                            }
                        },
                    }
                } else {
                    Ty::Unit
                }
            },
            Path::Result => {
                match ty_list_get(&self.local_types, 0) {
                    Option::Some(t) => t.clone(),
                    Option::None => Ty::Unit,
                }
            },
            Path::Qualified { qualifier, selector } => {
                let t = self.get_path_rustc_type(qualifier);
                self.select(t, selector)
            },
            _ => Ty::Unit,
        }
    }

    /// Apply one selector to a resolved type.
    fn select(&self, t: Ty, s: &Selector) -> (r: Ty)
        ensures
            r == spec_selected(*self, t, *s),
    {
        match s {
            Selector::Slice { from: _, to: _ } => t,
            Selector::Field(ordinal) => {
                let bt = get_dereferenced_type(t);
                match &bt {
                    Ty::Adt { path: _, is_union, variants, substs: _ } => {
                        if !*is_union {
                            match last_variant(variants) {
                                Option::Some(fields) => match ty_list_get(fields, *ordinal) {
                                    Option::Some(ft) => ft.clone(),
                                    Option::None => Ty::Unit,
                                },
                                Option::None => Ty::Unit,
                            }
                        } else {
                            Ty::Unit
                        }
                    },
                    Ty::Closure { path: _, upvars } => match ty_list_get(upvars, *ordinal) {
                        Option::Some(ft) => ft.clone(),
                        Option::None => Ty::Unit,
                    },
                    Ty::Tuple(elems) => match ty_list_get(elems, *ordinal) {
                        Option::Some(ft) => ft.clone(),
                        Option::None => Ty::Unit,
                    },
                    _ => Ty::Unit,
                }
            },
            Selector::Deref => get_dereferenced_type(t),
            Selector::Discriminant => Ty::Int(IntTy::I32),
            Selector::Index(_) => match t {
                Ty::Array(elem) => *elem,
                Ty::Slice(elem) => *elem,
                _ => Ty::Unit,
            },
            _ => Ty::Unit,
        }
    }
}

/// What specializing a type under a substitution map yields: every
/// type parameter whose name the map binds is replaced, recursively
/// through the type's structure; with no map the type stands.
pub open spec fn spec_specialize(t: Ty, map: Option<TyMap>) -> Ty
    decreases t,
{
    match map {
        None => t,
        Some(m) => match t {
            Ty::Array(elem) => Ty::Array(Box::new(spec_specialize(*elem, map))),
            Ty::Slice(elem) => Ty::Slice(Box::new(spec_specialize(*elem, map))),
            Ty::RawPtr(elem, mt) => Ty::RawPtr(Box::new(spec_specialize(*elem, map)), mt),
            Ty::Ref(elem, mt) => Ty::Ref(Box::new(spec_specialize(*elem, map)), mt),
            Ty::FnDef { path, substs } => Ty::FnDef {
                path,
                substs: spec_specialize_args(substs, map),
            },
            Ty::FnPtr { inputs, output } => Ty::FnPtr {
                inputs: spec_specialize_list(inputs, map),
                output: Box::new(spec_specialize(*output, map)),
            },
            Ty::Dynamic { principal } => Ty::Dynamic {
                principal: match principal {
                    Some(p) => Some((p.0, spec_specialize_args(p.1, map))),
                    None => None,
                },
            },
            Ty::Tuple(elems) => Ty::Tuple(spec_specialize_list(elems, map)),
            Ty::Param(name) => match m.spec_lookup(name@) {
                Some(bound) => bound,
                None => Ty::Param(name),
            },
            _ => t,
        },
    }
}

/// Specialize every type argument of a generic-argument list.
pub open spec fn spec_specialize_args(args: ArgList, map: Option<TyMap>) -> ArgList
    decreases args,
{
    match args {
        ArgList::Nil => ArgList::Nil,
        ArgList::Cons(a, rest) => ArgList::Cons(
            match a {
                GenericArg::Type(t) => GenericArg::Type(Box::new(spec_specialize(*t, map))),
                GenericArg::Other => GenericArg::Other,
            },
            Box::new(spec_specialize_args(*rest, map)),
        ),
    }
}

/// Specialize every type of a list.
pub open spec fn spec_specialize_list(ts: TyList, map: Option<TyMap>) -> TyList
    decreases ts,
{
    match ts {
        TyList::Nil => TyList::Nil,
        TyList::Cons(t, rest) => TyList::Cons(
            Box::new(spec_specialize(*t, map)),
            Box::new(spec_specialize_list(*rest, map)),
        ),
    }
}

impl TypeVisitor {
    /// Specialize a generic argument's type under the substitution
    /// map.
    pub fn specialize_generic_argument_type(&self, gen_arg_type: &Ty, map: &Option<TyMap>) -> (r:
        Ty)
        ensures
            r == spec_specialize(*gen_arg_type, *map),
        decreases *gen_arg_type,
    {
        match map {
            Option::None => gen_arg_type.clone(),
            Option::Some(m) => {
                match gen_arg_type {
                    Ty::Array(elem) => Ty::Array(
                        Box::new(self.specialize_generic_argument_type(elem, map)),
                    ),
                    Ty::Slice(elem) => Ty::Slice(
                        Box::new(self.specialize_generic_argument_type(elem, map)),
                    ),
                    Ty::RawPtr(elem, mt) => Ty::RawPtr(
                        Box::new(self.specialize_generic_argument_type(elem, map)),
                        *mt,
                    ),
                    Ty::Ref(elem, mt) => Ty::Ref(
                        Box::new(self.specialize_generic_argument_type(elem, map)),
                        *mt,
                    ),
                    Ty::FnDef { path, substs } => Ty::FnDef {
                        path: path.clone(),
                        substs: self.specialize_substs(substs, map),
                    },
                    Ty::FnPtr { inputs, output } => Ty::FnPtr {
                        inputs: self.specialize_list(inputs, map),
                        output: Box::new(self.specialize_generic_argument_type(output, map)),
                    },
                    Ty::Dynamic { principal } => Ty::Dynamic {
                        principal: match principal {
                            Option::Some(p) => Option::Some(
                                (p.0.clone(), self.specialize_substs(&p.1, map)),
                            ),
                            Option::None => Option::None,
                        },
                    },
                    Ty::Tuple(elems) => Ty::Tuple(self.specialize_list(elems, map)),
                    Ty::Param(name) => match m.lookup(name) {
                        Option::Some(bound) => bound.clone(),
                        Option::None => Ty::Param(name.clone()),
                    },
                    _ => gen_arg_type.clone(),
                }
            },
        }
    }

    /// Specialize one generic argument.
    pub fn specialize_generic_argument(&self, gen_arg: &GenericArg, map: &Option<TyMap>) -> (r:
        GenericArg)
        ensures
            r == (match *gen_arg {
                GenericArg::Type(t) => GenericArg::Type(Box::new(spec_specialize(*t, *map))),
                GenericArg::Other => GenericArg::Other,
            }),
        decreases *gen_arg,
    {
        match gen_arg {
            GenericArg::Type(t) => GenericArg::Type(
                Box::new(self.specialize_generic_argument_type(t, map)),
            ),
            GenericArg::Other => GenericArg::Other,
        }
    }

    /// Specialize a whole generic-argument list.
    pub fn specialize_substs(&self, substs: &ArgList, map: &Option<TyMap>) -> (r: ArgList)
        ensures
            r == spec_specialize_args(*substs, *map),
        decreases *substs,
    {
        match substs {
            ArgList::Nil => ArgList::Nil,
            ArgList::Cons(a, rest) => ArgList::Cons(
                self.specialize_generic_argument(a, map),
                Box::new(self.specialize_substs(rest, map)),
            ),
        }
    }

    /// Specialize a type list.
    fn specialize_list(&self, ts: &TyList, map: &Option<TyMap>) -> (r: TyList)
        ensures
            r == spec_specialize_list(*ts, *map),
        decreases *ts,
    {
        match ts {
            TyList::Nil => TyList::Nil,
            TyList::Cons(t, rest) => TyList::Cons(
                Box::new(self.specialize_generic_argument_type(t, map)),
                Box::new(self.specialize_list(rest, map)),
            ),
        }
    }
}

/// A list of type-parameter names.
#[derive(PartialEq, Eq, Debug)]
pub enum NameList {
    Nil,
    Cons(String, Box<NameList>),
}

/// The substitution a call instruction induces: the callee's
/// parameter names bound, in order, to the call's specialized type
/// arguments.
pub open spec fn spec_arguments_map(
    v: TypeVisitor,
    names: NameList,
    args: ArgList,
) -> TyMap
    decreases names,
{
    match names {
        NameList::Nil => TyMap::Nil,
        NameList::Cons(name, rest_names) => match args {
            ArgList::Nil => TyMap::Nil,
            ArgList::Cons(a, rest_args) => match a {
                GenericArg::Type(t) => TyMap::Cons(
                    name,
                    Box::new(spec_specialize(*t, v.generic_argument_map)),
                    Box::new(spec_arguments_map(v, *rest_names, *rest_args)),
                ),
                GenericArg::Other => spec_arguments_map(v, *rest_names, *rest_args),
            },
        },
    }
}

/// What a name resolves to once the receiver is bound: an explicit
/// binding wins; otherwise the receiver's dereferenced type answers
/// for its name.
pub open spec fn spec_call_lookup(
    v: TypeVisitor,
    names: NameList,
    args: ArgList,
    actual_argument_types: TyList,
    n: Seq<char>,
) -> Option<Ty> {
    match spec_arguments_map(v, names, args).spec_lookup(n) {
        Some(t) => Some(t),
        None => if n == "Self"@ {
            match actual_argument_types.spec_first() {
                Some(self_ty) => Some(spec_dereferenced(self_ty)),
                None => None,
            }
        } else {
            None
        },
    }
}

impl TypeVisitor {
    /// Build the substitution map a call instruction induces: the
    /// callee's type-parameter names bound to the call's specialized
    /// type arguments, and the receiver's dereferenced type bound to
    /// its name; with nothing to bind there is no map.
    pub fn get_generic_arguments_map(
        &self,
        def_id: u64,
        names: &NameList,
        generic_args: &ArgList,
        actual_argument_types: &TyList,
    ) -> (r: Option<TyMap>)
        ensures
            match r {
                Some(m) => forall|n: Seq<char>| m.spec_lookup(n) == spec_call_lookup(
                    *self,
                    *names,
                    *generic_args,
                    *actual_argument_types,
                    n,
                ),
                None => spec_arguments_map(*self, *names, *generic_args) is Nil
                    && actual_argument_types.spec_first() is None,
            },
    {
        let _ = def_id;
        let base = self.build_arguments_map(names, generic_args);
        match ty_list_first(actual_argument_types) {
            Option::Some(self_ty) => {
                let self_key = String::from_str("Self");
                let bound = get_dereferenced_type(self_ty.clone());
                let m = map_append(base, self_key, bound);
                Option::Some(m)
            },
            Option::None => {
                match base {
                    TyMap::Nil => Option::None,
                    other => {
                        let m = other;
                        assert forall|n: Seq<char>| m.spec_lookup(n) == spec_call_lookup(
                            *self,
                            *names,
                            *generic_args,
                            *actual_argument_types,
                            n,
                        ) by {}
                        Option::Some(m)
                    },
                }
            },
        }
    }

    /// Build the name-to-argument bindings.
    fn build_arguments_map(&self, names: &NameList, args: &ArgList) -> (r: TyMap)
        ensures
            r == spec_arguments_map(*self, *names, *args),
        decreases *names,
    {
        match names {
            NameList::Nil => TyMap::Nil,
            NameList::Cons(name, rest_names) => match args {
                ArgList::Nil => TyMap::Nil,
                ArgList::Cons(a, rest_args) => match a {
                    GenericArg::Type(t) => TyMap::Cons(
                        name.clone(),
                        Box::new(
                            self.specialize_generic_argument_type(t, &self.generic_argument_map),
                        ),
                        Box::new(self.build_arguments_map(rest_names, rest_args)),
                    ),
                    GenericArg::Other => self.build_arguments_map(rest_names, rest_args),
                },
            },
        }
    }
}

/// The first type of a list.
fn ty_list_first(ts: &TyList) -> (r: Option<&Ty>)
    ensures
        match r {
            Some(t) => ts.spec_first() == Some(*t),
            None => ts.spec_first() is None,
        },
{
    match ts {
        TyList::Nil => Option::None,
        TyList::Cons(t, _) => Option::Some(t),
    }
}

/// Append one binding at the end of the map, where it answers only
/// for names no earlier entry binds.
fn map_append(m: TyMap, key: String, ty: Ty) -> (r: TyMap)
    ensures
        forall|n: Seq<char>| r.spec_lookup(n) == (match m.spec_lookup(n) {
            Some(t) => Some(t),
            None => if n == key@ {
                Some(ty)
            } else {
                None
            },
        }),
    decreases m,
{
    match m {
        TyMap::Nil => {
            let r = TyMap::Cons(key, Box::new(ty), Box::new(TyMap::Nil));
            assert forall|n: Seq<char>| r.spec_lookup(n) == (match TyMap::Nil.spec_lookup(n) {
                Some(t) => Some(t),
                None => if n == key@ {
                    Some(ty)
                } else {
                    None
                },
            }) by {}
            r
        },
        TyMap::Cons(k, t, rest) => {
            let ghost m0 = m;
            let appended = map_append(*rest, key, ty);
            let ghost appended0 = appended;
            let r = TyMap::Cons(k, t, Box::new(appended));
            assert forall|n: Seq<char>| r.spec_lookup(n) == (match m0.spec_lookup(n) {
                Some(t2) => Some(t2),
                None => if n == key@ {
                    Some(ty)
                } else {
                    None
                },
            }) by {
                assert(appended0.spec_lookup(n) == (match m0->Cons_2.spec_lookup(n) {
                    Some(t2) => Some(t2),
                    None => if n == key@ {
                        Some(ty)
                    } else {
                        None
                    },
                }));
            }
            r
        },
    }
}

/// The type a projection chain selects, folded left over the base
/// type; the opaque-cast and subtype steps are identity on the
/// underlying type.
pub open spec fn spec_projection_type(base: Ty, ps: ProjList) -> Ty
    decreases ps,
{
    match ps {
        ProjList::Nil => base,
        ProjList::Cons(p, rest) => spec_projection_type(spec_projection_step(base, p), *rest),
    }
}

/// One projection step on a type.
pub open spec fn spec_projection_step(base: Ty, p: ProjectionElem) -> Ty {
    match p {
        ProjectionElem::Deref => match base {
            Ty::Adt { .. } => base,
            Ty::RawPtr(inner, _) => *inner,
            Ty::Ref(inner, _) => *inner,
            _ => spec_unit(),
        },
        ProjectionElem::Field(_, ft) => ft,
        ProjectionElem::Index | ProjectionElem::ConstantIndex | ProjectionElem::Subslice => match base {
            Ty::Adt { .. } => base,
            Ty::Array(e) => *e,
            Ty::Ref(inner, _) => spec_element_type(*inner),
            Ty::Slice(e) => *e,
            _ => spec_unit(),
        },
        ProjectionElem::Downcast => base,
        ProjectionElem::OpaqueCast => base,
        ProjectionElem::Subtype => base,
    }
}

/// What the place's type is after the generic substitution: a
/// remaining type parameter is answered by the substitution map, and
/// the receiver's name by the first actual argument, also behind one
/// reference.
pub open spec fn spec_place_type(v: TypeVisitor, place: Place) -> Ty {
    let base = match v.local_types.spec_index(place.local as int) {
        Some(t) => t,
        None => spec_unit(),
    };
    let result = spec_projection_type(base, place.projection);
    match result {
        Ty::Param(name) => match spec_param_subst(v, name@) {
            Some(t) => t,
            None => result,
        },
        Ty::Ref(inner, m) => match *inner {
            Ty::Param(name) => if name@ == "Self"@ {
                match v.actual_argument_types.spec_first() {
                    Some(st) => Ty::Ref(Box::new(st), m),
                    None => result,
                }
            } else {
                result
            },
            _ => result,
        },
        _ => result,
    }
}

/// What a remaining parameter resolves to: the substitution map's
/// binding, or the first actual argument for the receiver's name.
pub open spec fn spec_param_subst(v: TypeVisitor, name: Seq<char>) -> Option<Ty> {
    match v.generic_argument_map {
        Some(m) => match m.spec_lookup(name) {
            Some(t) => Some(t),
            None => if name == "Self"@ {
                v.actual_argument_types.spec_first()
            } else {
                None
            },
        },
        None => if name == "Self"@ {
            v.actual_argument_types.spec_first()
        } else {
            None
        },
    }
}

impl TypeVisitor {
    /// The primitive kind of the place's type.
    pub fn get_place_type(&self, place: &Place) -> (r: ExpressionType)
        ensures
            r == spec_expr_kind(spec_place_type(*self, *place)),
    {
        expr_kind_of(&self.get_rustc_place_type(place))
    }

    /// The static type of the given place in memory.
    pub fn get_rustc_place_type(&self, place: &Place) -> (r: Ty)
        ensures
            r == spec_place_type(*self, *place),
    {
        let base = match ty_list_get(&self.local_types, place.local) {
            Option::Some(t) => t.clone(),
            Option::None => Ty::Unit,
        };
        let result = self.get_type_for_projection_element(base, &place.projection);
        match &result {
            Ty::Param(name) => {
                match self.param_subst(name) {
                    Option::Some(t) => t,
                    Option::None => result,
                }
            },
            Ty::Ref(inner, m) => {
                match &**inner {
                    Ty::Param(name) => {
                        let self_key = String::from_str("Self");
                        if name.eq(&self_key) {
                            match ty_list_first(&self.actual_argument_types) {
                                Option::Some(st) => Ty::Ref(Box::new(st.clone()), *m),
                                Option::None => result,
                            }
                        } else {
                            result
                        }
                    },
                    _ => result,
                }
            },
            _ => result,
        }
    }

    /// Resolve a remaining type parameter.
    fn param_subst(&self, name: &String) -> (r: Option<Ty>)
        ensures
            r == spec_param_subst(*self, name@),
    {
        let self_key = String::from_str("Self");
        match &self.generic_argument_map {
            Option::Some(m) => match m.lookup(name) {
                Option::Some(t) => Option::Some(t.clone()),
                Option::None => {
                    if name.eq(&self_key) {
                        match ty_list_first(&self.actual_argument_types) {
                            Option::Some(st) => Option::Some(st.clone()),
                            Option::None => Option::None,
                        }
                    } else {
                        Option::None
                    }
                },
            },
            Option::None => {
                if name.eq(&self_key) {
                    match ty_list_first(&self.actual_argument_types) {
                        Option::Some(st) => Option::Some(st.clone()),
                        Option::None => Option::None,
                    }
                } else {
                    Option::None
                }
            },
        }
    }

    /// The type selected by a projection chain.
    pub fn get_type_for_projection_element(&self, base_ty: Ty, ps: &ProjList) -> (r: Ty)
        ensures
            r == spec_projection_type(base_ty, *ps),
        decreases *ps,
    {
        match ps {
            ProjList::Nil => base_ty,
            ProjList::Cons(p, rest) => {
                let stepped = projection_step(base_ty, p);
                self.get_type_for_projection_element(stepped, rest)
            },
        }
    }

    /// The size in bytes of an instance of the given type: the scalar
    /// widths the analysis knows; every other layout is answered with
    /// zero, as an unknown.
    pub fn get_type_size(&self, ty: &Ty) -> (r: u64)
        ensures
            r == spec_type_size(*ty),
    {
        type_size(ty)
    }

    /// The size in bytes of an element of the given collection type,
    /// or one when the type is no collection.
    pub fn get_elem_type_size(&self, ty: &Ty) -> (r: u64)
        ensures
            r == (match *ty {
                Ty::Array(e) => spec_type_size(*e),
                Ty::Slice(e) => spec_type_size(*e),
                Ty::RawPtr(e, _) => spec_type_size(*e),
                _ => 1u64,
            }),
    {
        match ty {
            Ty::Array(e) => type_size(e),
            Ty::Slice(e) => type_size(e),
            Ty::RawPtr(e, _) => type_size(e),
            _ => 1,
        }
    }

    /// Whether the type begins, through its first fields, with a wide
    /// pointer to a slice.
    pub fn starts_with_slice_pointer(&self, ty: &Ty) -> (r: bool)
        ensures
            r == spec_starts_with_slice_pointer(*ty),
        decreases *ty,
    {
        match ty {
            Ty::RawPtr(inner, _) => matches!(&**inner, Ty::Slice(_)),
            Ty::Ref(inner, _) => matches!(&**inner, Ty::Slice(_)),
            Ty::Adt { path: _, is_union: _, variants, substs: _ } => self
                .variants_start_with_slice_pointer(variants),
            Ty::Tuple(elems) => match elems {
                TyList::Nil => false,
                TyList::Cons(first, _) => self.starts_with_slice_pointer(first),
            },
            _ => false,
        }
    }

    /// Whether any variant's first field starts with a slice pointer.
    fn variants_start_with_slice_pointer(&self, vs: &crate::types::VariantList) -> (r: bool)
        ensures
            r == spec_variants_start_with_slice_pointer(*vs),
        decreases *vs,
    {
        match vs {
            crate::types::VariantList::Nil => false,
            crate::types::VariantList::Cons(fields, rest) => {
                let head = match fields {
                    TyList::Nil => false,
                    TyList::Cons(first, _) => self.starts_with_slice_pointer(first),
                };
                head || self.variants_start_with_slice_pointer(rest)
            },
        }
    }
}

/// One projection step on a type.
fn projection_step(base: Ty, p: &ProjectionElem) -> (r: Ty)
    ensures
        r == spec_projection_step(base, *p),
{
    match p {
        ProjectionElem::Deref => match base {
            Ty::Adt { .. } => base,
            Ty::RawPtr(inner, _) => *inner,
            Ty::Ref(inner, _) => *inner,
            _ => Ty::Unit,
        },
        ProjectionElem::Field(_, ft) => ft.clone(),
        ProjectionElem::Index | ProjectionElem::ConstantIndex | ProjectionElem::Subslice => match base {
            Ty::Adt { .. } => base,
            Ty::Array(e) => *e,
            Ty::Ref(inner, _) => get_element_type(*inner),
            Ty::Slice(e) => *e,
            _ => Ty::Unit,
        },
        ProjectionElem::Downcast => base,
        ProjectionElem::OpaqueCast => base,
        ProjectionElem::Subtype => base,
    }
}

/// Whether the type begins with a wide pointer to a slice.
pub open spec fn spec_starts_with_slice_pointer(t: Ty) -> bool
    decreases t,
{
    match t {
        Ty::RawPtr(inner, _) => (*inner) is Slice,
        Ty::Ref(inner, _) => (*inner) is Slice,
        Ty::Adt { path: _, is_union: _, variants, substs: _ } =>
            spec_variants_start_with_slice_pointer(variants),
        Ty::Tuple(elems) => match elems {
            TyList::Nil => false,
            TyList::Cons(first, _) => spec_starts_with_slice_pointer(*first),
        },
        _ => false,
    }
}

/// Whether any variant's first field starts with a slice pointer.
pub open spec fn spec_variants_start_with_slice_pointer(vs: crate::types::VariantList) -> bool
    decreases vs,
{
    match vs {
        crate::types::VariantList::Nil => false,
        crate::types::VariantList::Cons(fields, rest) => (match fields {
            TyList::Nil => false,
            TyList::Cons(first, _) => spec_starts_with_slice_pointer(*first),
        }) || spec_variants_start_with_slice_pointer(*rest),
    }
}

/// The primitive kind a static type corresponds to.
pub open spec fn spec_expr_kind(t: Ty) -> ExpressionType {
    match t {
        Ty::Bool => ExpressionType::Bool,
        Ty::Char => ExpressionType::Char,
        Ty::Int(it) => match it {
            IntTy::Isize => ExpressionType::Isize,
            IntTy::I8 => ExpressionType::I8,
            IntTy::I16 => ExpressionType::I16,
            IntTy::I32 => ExpressionType::I32,
            IntTy::I64 => ExpressionType::I64,
            IntTy::I128 => ExpressionType::I128,
        },
        Ty::Uint(ut) => match ut {
            UintTy::Usize => ExpressionType::Usize,
            UintTy::U8 => ExpressionType::U8,
            UintTy::U16 => ExpressionType::U16,
            UintTy::U32 => ExpressionType::U32,
            UintTy::U64 => ExpressionType::U64,
            UintTy::U128 => ExpressionType::U128,
        },
        Ty::Float(ft) => match ft {
            FloatTy::F32 => ExpressionType::F32,
            FloatTy::F64 => ExpressionType::F64,
        },
        Ty::Ref(_, _) => ExpressionType::Reference,
        Ty::RawPtr(_, _) => ExpressionType::Reference,
        Ty::Unit => ExpressionType::Unit,
        _ => ExpressionType::NonPrimitive,
    }
}

/// The primitive kind of a static type.
pub fn expr_kind_of(t: &Ty) -> (r: ExpressionType)
    ensures
        r == spec_expr_kind(*t),
{
    match t {
        Ty::Bool => ExpressionType::Bool,
        Ty::Char => ExpressionType::Char,
        Ty::Int(it) => match it {
            IntTy::Isize => ExpressionType::Isize,
            IntTy::I8 => ExpressionType::I8,
            IntTy::I16 => ExpressionType::I16,
            IntTy::I32 => ExpressionType::I32,
            IntTy::I64 => ExpressionType::I64,
            IntTy::I128 => ExpressionType::I128,
        },
        Ty::Uint(ut) => match ut {
            UintTy::Usize => ExpressionType::Usize,
            UintTy::U8 => ExpressionType::U8,
            UintTy::U16 => ExpressionType::U16,
            UintTy::U32 => ExpressionType::U32,
            UintTy::U64 => ExpressionType::U64,
            UintTy::U128 => ExpressionType::U128,
        },
        Ty::Float(ft) => match ft {
            FloatTy::F32 => ExpressionType::F32,
            FloatTy::F64 => ExpressionType::F64,
        },
        Ty::Ref(_, _) => ExpressionType::Reference,
        Ty::RawPtr(_, _) => ExpressionType::Reference,
        Ty::Unit => ExpressionType::Unit,
        _ => ExpressionType::NonPrimitive,
    }
}

/// The size in bytes of a scalar type; zero for an unknown layout.
pub open spec fn spec_type_size(t: Ty) -> u64 {
    match t {
        Ty::Bool => 1u64,
        Ty::Char => 4u64,
        Ty::Int(it) => match it {
            IntTy::Isize => 8u64,
            IntTy::I8 => 1u64,
            IntTy::I16 => 2u64,
            IntTy::I32 => 4u64,
            IntTy::I64 => 8u64,
            IntTy::I128 => 16u64,
        },
        Ty::Uint(ut) => match ut {
            UintTy::Usize => 8u64,
            UintTy::U8 => 1u64,
            UintTy::U16 => 2u64,
            UintTy::U32 => 4u64,
            UintTy::U64 => 8u64,
            UintTy::U128 => 16u64,
        },
        Ty::Float(ft) => match ft {
            FloatTy::F32 => 4u64,
            FloatTy::F64 => 8u64,
        },
        Ty::Unit => 0u64,
        _ => 0u64,
    }
}

/// The size in bytes of a scalar type.
fn type_size(t: &Ty) -> (r: u64)
    ensures
        r == spec_type_size(*t),
{
    match t {
        Ty::Bool => 1,
        Ty::Char => 4,
        Ty::Int(it) => match it {
            IntTy::Isize => 8,
            IntTy::I8 => 1,
            IntTy::I16 => 2,
            IntTy::I32 => 4,
            IntTy::I64 => 8,
            IntTy::I128 => 16,
        },
        Ty::Uint(ut) => match ut {
            UintTy::Usize => 8,
            UintTy::U8 => 1,
            UintTy::U16 => 2,
            UintTy::U32 => 4,
            UintTy::U64 => 8,
            UintTy::U128 => 16,
        },
        Ty::Float(ft) => match ft {
            FloatTy::F32 => 4,
            FloatTy::F64 => 8,
        },
        Ty::Unit => 0,
        _ => 0,
    }
}

/// The target type of a reference type.
pub fn get_dereferenced_type(ty: Ty) -> (r: Ty)
    ensures
        r == spec_dereferenced(ty),
{
    match ty {
        Ty::Ref(inner, _) => *inner,
        other => other,
    }
}

/// Returns the element type of an array or slice type, looking through
/// one reference.
pub open spec fn spec_element_type(t: Ty) -> Ty {
    match t {
        Ty::Array(e) => *e,
        Ty::Slice(e) => *e,
        Ty::Ref(inner, _) => match *inner {
            Ty::Array(e) => *e,
            Ty::Slice(e) => *e,
            other => other,
        },
        _ => t,
    }
}

/// The element type of an array or slice type.
pub fn get_element_type(ty: Ty) -> (r: Ty)
    ensures
        r == spec_element_type(ty),
{
    match ty {
        Ty::Array(e) => *e,
        Ty::Slice(e) => *e,
        Ty::Ref(inner, _) => match *inner {
            Ty::Array(e) => *e,
            Ty::Slice(e) => *e,
            other => other,
        },
        other => other,
    }
}

/// Whether the type is a union.
pub open spec fn spec_is_union(t: Ty) -> bool {
    match t {
        Ty::Adt { path: _, is_union, variants: _, substs: _ } => is_union,
        _ => false,
    }
}

/// Returns true if the type is a union.
pub fn is_union(ty: &Ty) -> (r: bool)
    ensures
        r == spec_is_union(*ty),
{
    match ty {
        Ty::Adt { path: _, is_union, variants: _, substs: _ } => *is_union,
        _ => false,
    }
}

/// The type behind a pointer or reference; any other type is its own.
pub open spec fn spec_target_type(t: Ty) -> Ty {
    match t {
        Ty::RawPtr(inner, _) => *inner,
        Ty::Ref(inner, _) => *inner,
        _ => t,
    }
}

/// The type a pointer or reference points at.
pub fn get_target_type(ty: Ty) -> (r: Ty)
    ensures
        r == spec_target_type(ty),
{
    match ty {
        Ty::RawPtr(inner, _) => *inner,
        Ty::Ref(inner, _) => *inner,
        other => other,
    }
}

/// Whether the type is a pointer to a slice or to text, which is a
/// wide pointer.
pub open spec fn spec_is_slice_pointer(t: Ty) -> bool {
    match t {
        Ty::RawPtr(inner, _) => (*inner) is Slice || (*inner) is Str,
        Ty::Ref(inner, _) => (*inner) is Slice || (*inner) is Str,
        _ => false,
    }
}

/// Returns true for pointers to slices or text.
pub fn is_slice_pointer(ty: &Ty) -> (r: bool)
    ensures
        r == spec_is_slice_pointer(*ty),
{
    match ty {
        Ty::RawPtr(inner, _) => matches!(&**inner, Ty::Slice(_)) || matches!(&**inner, Ty::Str),
        Ty::Ref(inner, _) => matches!(&**inner, Ty::Slice(_)) || matches!(&**inner, Ty::Str),
        _ => false,
    }
}

} // verus!
