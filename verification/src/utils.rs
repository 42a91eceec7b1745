//! Names for definitions and types: the mangled form that can stand
//! inside an identifier, and the dotted summary-key form that names a
//! definition across runs.

use vstd::prelude::*;
use crate::types::{ArgList, ComponentList, DefPath, DefPathComponent, DefPathData, FloatTy, GenericArg, IntTy, Mutability, Ty, TyList, UintTy};

verus! {

/// One decimal digit, as text.
pub open spec fn spec_digit(d: u32) -> Seq<char> {
    if d == 0 {
        "0"@
    } else if d == 1 {
        "1"@
    } else if d == 2 {
        "2"@
    } else if d == 3 {
        "3"@
    } else if d == 4 {
        "4"@
    } else if d == 5 {
        "5"@
    } else if d == 6 {
        "6"@
    } else if d == 7 {
        "7"@
    } else if d == 8 {
        "8"@
    } else {
        "9"@
    }
}

/// A number in decimal, most significant digit first.
pub open spec fn spec_decimal(n: u32) -> Seq<char>
    decreases n,
{
    if n < 10 {
        spec_digit(n)
    } else {
        spec_decimal(n / 10) + spec_digit(n % 10)
    }
}

/// Append one decimal digit.
fn append_digit(s: &mut String, d: u32)
    requires
        d < 10,
    ensures
        final(s)@ == old(s)@ + spec_digit(d),
{
    if d == 0 {
        s.append("0");
    } else if d == 1 {
        s.append("1");
    } else if d == 2 {
        s.append("2");
    } else if d == 3 {
        s.append("3");
    } else if d == 4 {
        s.append("4");
    } else if d == 5 {
        s.append("5");
    } else if d == 6 {
        s.append("6");
    } else if d == 7 {
        s.append("7");
    } else if d == 8 {
        s.append("8");
    } else {
        s.append("9");
    }
}

/// Append a number in decimal.
pub fn append_decimal(s: &mut String, n: u32)
    ensures
        final(s)@ == old(s)@ + spec_decimal(n),
    decreases n,
{
    if n < 10 {
        append_digit(s, n);
    } else {
        append_decimal(s, n / 10);
        append_digit(s, n % 10);
        proof {
            assert(old(s)@ + spec_decimal(n / 10) + spec_digit(n % 10) =~= old(s)@ + (spec_decimal(
                n / 10,
            ) + spec_digit(n % 10)));
        }
    }
}

/// The text of one path component: named components give their name,
/// the rest a fixed marker.
pub open spec fn spec_component_name(data: DefPathData) -> Seq<char> {
    match data {
        DefPathData::TypeNs(name) => name@,
        DefPathData::ValueNs(name) => name@,
        DefPathData::MacroNs(name) => name@,
        DefPathData::LifetimeNs(name) => name@,
        DefPathData::CrateRoot => "crate_root"@,
        DefPathData::Impl => "implement"@,
        DefPathData::ForeignMod => "foreign_mod"@,
        DefPathData::Use => "use"@,
        DefPathData::GlobalAsm => "global_asm"@,
        DefPathData::Closure => "closure"@,
        DefPathData::Ctor => "ctor"@,
        DefPathData::AnonConst => "constant"@,
        DefPathData::OpaqueTy => "opaque_type"@,
        DefPathData::AnonAdt => "anonymous_type"@,
    }
}

/// Append the text of one path component.
pub fn push_component_name(component_data: &DefPathData, target: &mut String)
    ensures
        final(target)@ == old(target)@ + spec_component_name(*component_data),
{
    match component_data {
        DefPathData::TypeNs(name) => target.append(name.as_str()),
        DefPathData::ValueNs(name) => target.append(name.as_str()),
        DefPathData::MacroNs(name) => target.append(name.as_str()),
        DefPathData::LifetimeNs(name) => target.append(name.as_str()),
        DefPathData::CrateRoot => target.append("crate_root"),
        DefPathData::Impl => target.append("implement"),
        DefPathData::ForeignMod => target.append("foreign_mod"),
        DefPathData::Use => target.append("use"),
        DefPathData::GlobalAsm => target.append("global_asm"),
        DefPathData::Closure => target.append("closure"),
        DefPathData::Ctor => target.append("ctor"),
        DefPathData::AnonConst => target.append("constant"),
        DefPathData::OpaqueTy => target.append("opaque_type"),
        DefPathData::AnonAdt => target.append("anonymous_type"),
    }
}

/// The name of the crate a definition lives in.
pub fn crate_name(path: &DefPath) -> (r: String)
    ensures
        r@ == path.krate@,
{
    path.krate.clone()
}

/// The underscore-joined name of one path component: its text, and its
/// disambiguator where one is present.
pub open spec fn spec_qualified_component(c: DefPathComponent) -> Seq<char> {
    "_"@ + spec_component_name(c.data) + if c.disambiguator != 0 {
        "_"@ + spec_decimal(c.disambiguator)
    } else {
        Seq::empty()
    }
}

/// The underscore-joined form of a whole component list.
pub open spec fn spec_qualified_components(cs: ComponentList) -> Seq<char>
    decreases cs,
{
    match cs {
        ComponentList::Nil => Seq::empty(),
        ComponentList::Cons(c, rest) => spec_qualified_component(c) + spec_qualified_components(
            *rest,
        ),
    }
}

/// The identifier-safe name of a definition: its crate's name and its
/// path components, joined by underscores.
pub open spec fn spec_qualified_type_name(path: DefPath) -> Seq<char> {
    path.krate@ + spec_qualified_components(path.components)
}

/// Append the underscore-joined form of a component list.
fn append_qualified_components(name: &mut String, cs: &ComponentList)
    ensures
        final(name)@ == old(name)@ + spec_qualified_components(*cs),
    decreases *cs,
{
    match cs {
        ComponentList::Nil => {},
        ComponentList::Cons(c, rest) => {
            name.append("_");
            push_component_name(&c.data, name);
            if c.disambiguator != 0 {
                name.append("_");
                append_decimal(name, c.disambiguator);
            }
            append_qualified_components(name, rest);
            proof {
                assert(name@ =~= old(name)@ + spec_qualified_components(*cs));
            }
        },
    }
}

/// Build the identifier-safe name of a definition, underscores between
/// the components and after each nonzero disambiguator.
pub fn qualified_type_name(path: &DefPath) -> (r: String)
    ensures
        r@ == spec_qualified_type_name(*path),
{
    let mut name = crate_name(path);
    append_qualified_components(&mut name, &path.components);
    name
}

/// The name of an integer width.
pub open spec fn spec_int_name(t: IntTy) -> Seq<char> {
    match t {
        IntTy::Isize => "isize"@,
        IntTy::I8 => "i8"@,
        IntTy::I16 => "i16"@,
        IntTy::I32 => "i32"@,
        IntTy::I64 => "i64"@,
        IntTy::I128 => "i128"@,
    }
}

/// The name of an unsigned width.
pub open spec fn spec_uint_name(t: UintTy) -> Seq<char> {
    match t {
        UintTy::Usize => "usize"@,
        UintTy::U8 => "u8"@,
        UintTy::U16 => "u16"@,
        UintTy::U32 => "u32"@,
        UintTy::U64 => "u64"@,
        UintTy::U128 => "u128"@,
    }
}

/// The name of a floating width.
pub open spec fn spec_float_name(t: FloatTy) -> Seq<char> {
    match t {
        FloatTy::F32 => "f32"@,
        FloatTy::F64 => "f64"@,
    }
}

/// The mangled name of a type: a text that identifies the type and is
/// a valid identifier, so that contracts can be named for specialized
/// generic methods.
pub open spec fn spec_mangled(t: Ty) -> Seq<char>
    decreases t,
{
    match t {
        Ty::Bool => "bool"@,
        Ty::Char => "char"@,
        Ty::Int(it) => spec_int_name(it),
        Ty::Uint(ut) => spec_uint_name(ut),
        Ty::Float(ft) => spec_float_name(ft),
        Ty::Str => "str"@,
        Ty::Unit => "tuple_0"@,
        Ty::Never => "_"@,
        Ty::Adt { path, is_union: _, variants: _, substs } => spec_qualified_type_name(path)
            + spec_mangled_args(substs),
        Ty::Closure { path, upvars } => "closure_"@ + spec_qualified_type_name(path)
            + spec_mangled_list(upvars),
        Ty::Dynamic { principal } => "trait_"@ + match principal {
            Some(p) => spec_qualified_type_name(p.0) + spec_mangled_args(p.1),
            None => Seq::empty(),
        },
        Ty::Foreign { path } => "extern_type_"@ + spec_qualified_type_name(path),
        Ty::FnDef { path, substs } => "fn_"@ + spec_qualified_type_name(path) + spec_mangled_args(
            substs,
        ),
        Ty::FnPtr { inputs, output } => "fn_ptr_"@ + spec_mangled_inputs(inputs) + spec_mangled(
            *output,
        ),
        Ty::Array(elem) => "array_"@ + spec_mangled(*elem),
        Ty::Slice(elem) => "slice_"@ + spec_mangled(*elem),
        Ty::RawPtr(elem, m) => "pointer_"@ + (match m {
            Mutability::Mut => "mut_"@,
            Mutability::Not => "const_"@,
        }) + spec_mangled(*elem),
        Ty::Ref(elem, m) => "ref_"@ + (match m {
            Mutability::Mut => "mut_"@,
            Mutability::Not => Seq::empty(),
        }) + spec_mangled(*elem),
        Ty::Tuple(elems) => "tuple_"@ + spec_decimal(spec_ty_list_len_u32(elems))
            + spec_mangled_list(elems),
        Ty::Param(name) => "generic_par_"@ + name@,
        Ty::Bound => "unsupported_type"@,
        Ty::Infer => "unsupported_type"@,
        Ty::Error => "unsupported_type"@,
    }
}

/// The mangled names of the type arguments in a generic-argument list,
/// each after an underscore.
pub open spec fn spec_mangled_args(args: ArgList) -> Seq<char>
    decreases args,
{
    match args {
        ArgList::Nil => Seq::empty(),
        ArgList::Cons(a, rest) => (match a {
            GenericArg::Type(t) => "_"@ + spec_mangled(*t),
            GenericArg::Other => Seq::empty(),
        }) + spec_mangled_args(*rest),
    }
}

/// The mangled names of a type list, each after an underscore.
pub open spec fn spec_mangled_list(ts: TyList) -> Seq<char>
    decreases ts,
{
    match ts {
        TyList::Nil => Seq::empty(),
        TyList::Cons(t, rest) => "_"@ + spec_mangled(*t) + spec_mangled_list(*rest),
    }
}

/// The mangled names of a function pointer's inputs, each before an
/// underscore.
pub open spec fn spec_mangled_inputs(ts: TyList) -> Seq<char>
    decreases ts,
{
    match ts {
        TyList::Nil => Seq::empty(),
        TyList::Cons(t, rest) => spec_mangled(*t) + "_"@ + spec_mangled_inputs(*rest),
    }
}

/// Append the mangled name of a type, so that the result uniquely
/// identifies the type and stays a valid identifier.
pub fn append_mangled_type(s: &mut String, ty: &Ty)
    ensures
        final(s)@ == old(s)@ + spec_mangled(*ty),
    decreases *ty,
{
    match ty {
        Ty::Bool => s.append("bool"),
        Ty::Char => s.append("char"),
        Ty::Int(it) => {
            match it {
                IntTy::Isize => s.append("isize"),
                IntTy::I8 => s.append("i8"),
                IntTy::I16 => s.append("i16"),
                IntTy::I32 => s.append("i32"),
                IntTy::I64 => s.append("i64"),
                IntTy::I128 => s.append("i128"),
            }
        },
        Ty::Uint(ut) => {
            match ut {
                UintTy::Usize => s.append("usize"),
                UintTy::U8 => s.append("u8"),
                UintTy::U16 => s.append("u16"),
                UintTy::U32 => s.append("u32"),
                UintTy::U64 => s.append("u64"),
                UintTy::U128 => s.append("u128"),
            }
        },
        Ty::Float(ft) => {
            match ft {
                FloatTy::F32 => s.append("f32"),
                FloatTy::F64 => s.append("f64"),
            }
        },
        Ty::Str => s.append("str"),
        Ty::Unit => s.append("tuple_0"),
        Ty::Never => s.append("_"),
        Ty::Adt { path, is_union: _, variants: _, substs } => {
            let q = qualified_type_name(path);
            s.append(q.as_str());
            append_mangled_args(s, substs);
            proof {
                assert(s@ =~= old(s)@ + spec_mangled(*ty));
            }
        },
        Ty::Closure { path, upvars } => {
            s.append("closure_");
            let q = qualified_type_name(path);
            s.append(q.as_str());
            append_mangled_list(s, upvars);
            proof {
                assert(s@ =~= old(s)@ + spec_mangled(*ty));
            }
        },
        Ty::Dynamic { principal } => {
            s.append("trait_");
            match principal {
                Option::Some(p) => {
                    let q = qualified_type_name(&p.0);
                    s.append(q.as_str());
                    append_mangled_args(s, &p.1);
                },
                Option::None => {},
            }
            proof {
                assert(s@ =~= old(s)@ + spec_mangled(*ty));
            }
        },
        Ty::Foreign { path } => {
            s.append("extern_type_");
            let q = qualified_type_name(path);
            s.append(q.as_str());
            proof {
                assert(s@ =~= old(s)@ + spec_mangled(*ty));
            }
        },
        Ty::FnDef { path, substs } => {
            s.append("fn_");
            let q = qualified_type_name(path);
            s.append(q.as_str());
            append_mangled_args(s, substs);
            proof {
                assert(s@ =~= old(s)@ + spec_mangled(*ty));
            }
        },
        Ty::FnPtr { inputs, output } => {
            s.append("fn_ptr_");
            append_mangled_inputs(s, inputs);
            append_mangled_type(s, output);
            proof {
                assert(s@ =~= old(s)@ + spec_mangled(*ty));
            }
        },
        Ty::Array(elem) => {
            s.append("array_");
            append_mangled_type(s, elem);
            proof {
                assert(s@ =~= old(s)@ + spec_mangled(*ty));
            }
        },
        Ty::Slice(elem) => {
            s.append("slice_");
            append_mangled_type(s, elem);
            proof {
                assert(s@ =~= old(s)@ + spec_mangled(*ty));
            }
        },
        Ty::RawPtr(elem, m) => {
            s.append("pointer_");
            match m {
                Mutability::Mut => s.append("mut_"),
                Mutability::Not => s.append("const_"),
            }
            append_mangled_type(s, elem);
            proof {
                assert(s@ =~= old(s)@ + spec_mangled(*ty));
            }
        },
        Ty::Ref(elem, m) => {
            s.append("ref_");
            match m {
                Mutability::Mut => s.append("mut_"),
                Mutability::Not => {},
            }
            append_mangled_type(s, elem);
            proof {
                assert(s@ =~= old(s)@ + spec_mangled(*ty));
            }
        },
        Ty::Tuple(elems) => {
            s.append("tuple_");
            append_decimal(s, ty_list_len(elems));
            append_mangled_list(s, elems);
            proof {
                assert(s@ =~= old(s)@ + spec_mangled(*ty));
            }
        },
        Ty::Param(name) => {
            s.append("generic_par_");
            s.append(name.as_str());
            proof {
                assert(s@ =~= old(s)@ + spec_mangled(*ty));
            }
        },
        Ty::Bound => s.append("unsupported_type"),
        Ty::Infer => s.append("unsupported_type"),
        Ty::Error => s.append("unsupported_type"),
    }
}

/// The length of a type list, saturated into the width the mangler
/// prints.
pub open spec fn spec_ty_list_len_u32(ts: TyList) -> u32 {
    if ts.spec_len() > u32::MAX {
        u32::MAX
    } else {
        ts.spec_len() as u32
    }
}

/// Count a type list's length, saturating at the printable width.
pub fn ty_list_len(ts: &TyList) -> (r: u32)
    ensures
        r == spec_ty_list_len_u32(*ts),
    decreases *ts,
{
    match ts {
        TyList::Nil => 0,
        TyList::Cons(_, rest) => {
            let n = ty_list_len(rest);
            if n == u32::MAX {
                u32::MAX
            } else {
                n + 1
            }
        },
    }
}

/// Append the type arguments of a generic-argument list.
fn append_mangled_args(s: &mut String, args: &ArgList)
    ensures
        final(s)@ == old(s)@ + spec_mangled_args(*args),
    decreases *args,
{
    match args {
        ArgList::Nil => {},
        ArgList::Cons(a, rest) => {
            match a {
                GenericArg::Type(t) => {
                    s.append("_");
                    append_mangled_type(s, t);
                },
                GenericArg::Other => {},
            }
            append_mangled_args(s, rest);
            proof {
                assert(s@ =~= old(s)@ + spec_mangled_args(*args));
            }
        },
    }
}

/// Append a list of types, each after an underscore.
fn append_mangled_list(s: &mut String, ts: &TyList)
    ensures
        final(s)@ == old(s)@ + spec_mangled_list(*ts),
    decreases *ts,
{
    match ts {
        TyList::Nil => {},
        TyList::Cons(t, rest) => {
            s.append("_");
            append_mangled_type(s, t);
            append_mangled_list(s, rest);
            proof {
                assert(s@ =~= old(s)@ + spec_mangled_list(*ts));
            }
        },
    }
}

/// Append a function pointer's input types, each before an underscore.
fn append_mangled_inputs(s: &mut String, ts: &TyList)
    ensures
        final(s)@ == old(s)@ + spec_mangled_inputs(*ts),
    decreases *ts,
{
    match ts {
        TyList::Nil => {},
        TyList::Cons(t, rest) => {
            append_mangled_type(s, t);
            s.append("_");
            append_mangled_inputs(s, rest);
            proof {
                assert(s@ =~= old(s)@ + spec_mangled_inputs(*ts));
            }
        },
    }
}

/// Whether the text ends with the name of the special contracts
/// module, which lets a module define functions that appear to be
/// from other crates.
pub open spec fn spec_ends_with_fc(s: Seq<char>) -> bool {
    s.len() >= "foreign_contracts"@.len() && s.subrange(
        s.len() - "foreign_contracts"@.len(),
        s.len() as int,
    ) == "foreign_contracts"@
}

/// Decide whether the text ends with the contracts-module name.
fn ends_with_fc(name: &str) -> (r: bool)
    ensures
        r == spec_ends_with_fc(name@),
{
    let fc: &str = "foreign_contracts";
    proof {
        reveal_strlit("foreign_contracts");
    }
    let m = fc.unicode_len();
    let n = name.unicode_len();
    if n < m {
        return false;
    }
    let mut k: usize = 0;
    while k < m
        invariant
            0 <= k <= m,
            n == name@.len(),
            m == "foreign_contracts"@.len(),
            fc@ == "foreign_contracts"@,
            n >= m,
            forall|j: int| 0 <= j < k ==> name@[n - m + j] == "foreign_contracts"@[j],
        decreases m - k,
    {
        if name.get_char(n - m + k) != fc.get_char(k) {
            proof {
                assert(name@.subrange(n as int - m, n as int)[k as int] == name@[n - m + k]);
                assert(!spec_ends_with_fc(name@));
            }
            return false;
        }
        k = k + 1;
    }
    proof {
        assert(name@.subrange(n as int - m, n as int) =~= "foreign_contracts"@);
    }
    true
}

/// The summary-key builder's state: the name so far, the last type
/// namespace seen, and whether the name ends with the special prefix
/// that makes a module speak for another crate.
pub open spec fn spec_summary_step(
    st: (Seq<char>, Option<Seq<char>>, bool),
    c: DefPathComponent,
) -> (Seq<char>, Option<Seq<char>>, bool) {
    let name0 = if st.2 {
        Seq::<char>::empty()
    } else {
        st.0 + "."@
    };
    let name1 = name0 + spec_component_name(c.data);
    let tns = match c.data {
        DefPathData::TypeNs(sym) => Some(sym@),
        _ => st.1,
    };
    let full = if c.disambiguator != 0 {
        if c.data is Impl && tns is Some {
            name1 + "_"@ + tns->Some_0
        } else {
            name1 + "_"@ + spec_decimal(c.disambiguator)
        }
    } else {
        name1
    };
    (full, tns, spec_ends_with_fc(full))
}

/// The key built from the given state onward.
pub open spec fn spec_summary_from(
    st: (Seq<char>, Option<Seq<char>>, bool),
    cs: ComponentList,
) -> Seq<char>
    decreases cs,
{
    match cs {
        ComponentList::Nil => st.0,
        ComponentList::Cons(c, rest) => spec_summary_from(spec_summary_step(st, c), *rest),
    }
}

/// The dotted name that identifies a definition across runs.
pub open spec fn spec_summary_key(path: DefPath) -> Seq<char> {
    spec_summary_from(
        (path.krate@, None, spec_ends_with_fc(path.krate@)),
        path.components,
    )
}

/// Build the key from the given state onward.
fn summary_go(name: String, type_ns: Option<String>, fc_flag: bool, cs: &ComponentList) -> (r:
    String)
    ensures
        r@ == spec_summary_from(
            (name@, match type_ns {
                Some(t) => Some(t@),
                None => None,
            }, fc_flag),
            *cs,
        ),
    decreases *cs,
{
    match cs {
        ComponentList::Nil => name,
        ComponentList::Cons(c, rest) => {
            let mut name = name;
            let mut type_ns = type_ns;
            if fc_flag {
                name = String::new();
            } else {
                name.append(".");
            }
            push_component_name(&c.data, &mut name);
            match &c.data {
                DefPathData::TypeNs(sym) => {
                    type_ns = Option::Some(sym.clone());
                },
                _ => {},
            }
            if c.disambiguator != 0 {
                let use_type_ns = match (&c.data, &type_ns) {
                    (DefPathData::Impl, Option::Some(_)) => true,
                    _ => false,
                };
                name.append("_");
                if use_type_ns {
                    match &type_ns {
                        Option::Some(t) => {
                            name.append(t.as_str());
                        },
                        Option::None => {},
                    }
                } else {
                    append_decimal(&mut name, c.disambiguator);
                }
            }
            let next_flag = ends_with_fc(name.as_str());
            summary_go(name, type_ns, next_flag, rest)
        },
    }
}

/// Build the key that identifies a definition across runs: dots
/// between the namespace components, underscores before disambiguators,
/// and the surrounding type's name for a disambiguated `impl` block.
/// The key stays the same as long as the definition keeps its name and
/// place, so it can carry information from one run to the next.  A
/// name that ends with the special contracts-module name clears the
/// prefix, letting that module define functions that appear to be from
/// other crates.  A disambiguated `impl` of a core-library numeric
/// type would take the mangled self type instead of the namespace
/// name; resolving that self type needs the host's type-of query, and
/// the definition path modelled here carries no self type, so every
/// disambiguated `impl` takes the namespace name.
pub fn summary_key_str(path: &DefPath) -> (r: String)
    ensures
        r@ == spec_summary_key(*path),
{
    let name = crate_name(path);
    let fc_flag = ends_with_fc(name.as_str());
    summary_go(name, Option::None, fc_flag, &path.components)
}

/// Whether a type is fully concrete: no type parameter, bound type,
/// inference type or error type remains anywhere in it.
pub open spec fn spec_is_concrete(t: Ty) -> bool
    decreases t,
{
    match t {
        Ty::Bound => false,
        Ty::Param(_) => false,
        Ty::Infer => false,
        Ty::Error => false,
        Ty::Adt { path: _, is_union: _, variants: _, substs } => spec_are_concrete(substs),
        Ty::FnDef { path: _, substs } => spec_are_concrete(substs),
        Ty::Closure { path: _, upvars } => spec_list_concrete(upvars),
        Ty::Tuple(elems) => spec_list_concrete(elems),
        Ty::Ref(elem, _) => spec_is_concrete(*elem),
        _ => true,
    }
}

/// Whether none of the type arguments is itself generic.
pub open spec fn spec_are_concrete(args: ArgList) -> bool
    decreases args,
{
    match args {
        ArgList::Nil => true,
        ArgList::Cons(a, rest) => (match a {
            GenericArg::Type(t) => spec_is_concrete(*t),
            GenericArg::Other => true,
        }) && spec_are_concrete(*rest),
    }
}

/// Whether every type of the list is concrete.
pub open spec fn spec_list_concrete(ts: TyList) -> bool
    decreases ts,
{
    match ts {
        TyList::Nil => true,
        TyList::Cons(t, rest) => spec_is_concrete(*t) && spec_list_concrete(*rest),
    }
}

/// Decide whether none of the generic arguments is itself generic.
pub fn are_concrete(gen_args: &ArgList) -> (r: bool)
    ensures
        r == spec_are_concrete(*gen_args),
    decreases *gen_args,
{
    match gen_args {
        ArgList::Nil => true,
        ArgList::Cons(a, rest) => {
            let head_ok = match a {
                GenericArg::Type(t) => is_concrete(t),
                GenericArg::Other => true,
            };
            head_ok && are_concrete(rest)
        },
    }
}

/// Decide whether every type of the list is concrete.
pub fn list_concrete(ts: &TyList) -> (r: bool)
    ensures
        r == spec_list_concrete(*ts),
    decreases *ts,
{
    match ts {
        TyList::Nil => true,
        TyList::Cons(t, rest) => is_concrete(t) && list_concrete(rest),
    }
}

/// Decide whether the given type is fully concrete.
pub fn is_concrete(ty: &Ty) -> (r: bool)
    ensures
        r == spec_is_concrete(*ty),
    decreases *ty,
{
    match ty {
        Ty::Bound => false,
        Ty::Param(_) => false,
        Ty::Infer => false,
        Ty::Error => false,
        Ty::Adt { path: _, is_union: _, variants: _, substs } => are_concrete(substs),
        Ty::FnDef { path: _, substs } => are_concrete(substs),
        Ty::Closure { path: _, upvars } => list_concrete(upvars),
        Ty::Tuple(elems) => list_concrete(elems),
        Ty::Ref(elem, _) => is_concrete(elem),
        _ => true,
    }
}

} // verus!
