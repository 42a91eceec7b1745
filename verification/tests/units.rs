use mir_checker::callback::{should_skip_source, MirCheckerCallbacks};
use mir_checker::diagnostics::DiagnosticsForDefId;
use mir_checker::config::AnalysisOption;
use mir_checker::diagnostics::{
    sort_by_span, Certainty, Diagnostic, DiagnosticCause, Severity, Span,
};
use mir_checker::interval::{Bound, Interval};
use mir_checker::mir::{AssertKind, BinOp, Operand};
use mir_checker::expression::ExpressionType;
use mir_checker::path::{Path, PathRelation, Selector};
use mir_checker::types::{
    ArgList, ComponentList, DefPath, DefPathComponent, DefPathData, GenericArg, Ty, TyList,
};
use mir_checker::type_visitor::{ty_list_get, TypeVisitor};
use mir_checker::utils::{is_concrete, qualified_type_name, summary_key_str};
use std::cmp::Ordering;

fn diag(lo: u64, cause: DiagnosticCause) -> Diagnostic {
    Diagnostic {
        severity: Severity::Warning,
        span: Span { lo, hi: lo + 1 },
        is_memory_safety: false,
        cause,
        certainty: Certainty::Possible,
    }
}

#[test]
fn integer_kinds_are_recognized() {
    assert!(ExpressionType::U8.is_integer());
    assert!(ExpressionType::Isize.is_integer());
    assert!(!ExpressionType::Bool.is_integer());
    assert!(!ExpressionType::Reference.is_integer());
}

#[test]
fn interval_join_and_meet() {
    let a = Interval { lo: Bound::Fin(0), hi: Bound::Fin(5) };
    let b = Interval { lo: Bound::Fin(3), hi: Bound::Fin(9) };
    assert_eq!(a.join(&b), Interval { lo: Bound::Fin(0), hi: Bound::Fin(9) });
    assert_eq!(a.meet(&b), Some(Interval { lo: Bound::Fin(3), hi: Bound::Fin(5) }));
    let c = Interval { lo: Bound::Fin(7), hi: Bound::Fin(9) };
    assert_eq!(a.meet(&c), None);
}

#[test]
fn interval_widen_pushes_moving_bounds_out() {
    let old = Interval { lo: Bound::Fin(0), hi: Bound::Fin(1) };
    let new = Interval { lo: Bound::Fin(0), hi: Bound::Fin(2) };
    assert_eq!(old.widen(&new), Interval { lo: Bound::Fin(0), hi: Bound::PosInf });
    let shrink = Interval { lo: Bound::Fin(0), hi: Bound::Fin(1) };
    assert_eq!(old.widen(&shrink), old);
}

#[test]
fn interval_arithmetic_is_exact_on_finite_bounds() {
    let a = Interval { lo: Bound::Fin(1), hi: Bound::Fin(2) };
    let b = Interval { lo: Bound::Fin(10), hi: Bound::Fin(20) };
    assert_eq!(a.add(&b), Interval { lo: Bound::Fin(11), hi: Bound::Fin(22) });
    assert_eq!(b.sub(&a), Interval { lo: Bound::Fin(8), hi: Bound::Fin(19) });
    assert_eq!(a.neg(), Interval { lo: Bound::Fin(-2), hi: Bound::Fin(-1) });
}

#[test]
fn path_rename_round_trip_on_a_qualified_path() {
    let p = Path::Parameter { ordinal: 1 }.qualify(Selector::Field(2)).qualify(Selector::Deref);
    let a = Path::Parameter { ordinal: 1 };
    let b = Path::Local { ordinal: 7 };
    let renamed = p.rename(&a, &b);
    assert_eq!(
        renamed,
        Path::Local { ordinal: 7 }.qualify(Selector::Field(2)).qualify(Selector::Deref)
    );
    assert_eq!(renamed.rename(&b, &a), p);
}

#[test]
fn path_relations() {
    let root = Path::Local { ordinal: 1 };
    let field = root.clone().qualify(Selector::Field(0));
    assert_eq!(root.refers_to(&root), PathRelation::Equal);
    assert_eq!(root.refers_to(&field), PathRelation::Prefix);
    assert_eq!(field.refers_to(&root), PathRelation::Extension);
    assert_eq!(field.refers_to(&Path::Local { ordinal: 2 }), PathRelation::Disjoint);
}

#[test]
fn cause_of_assert_kinds() {
    let one = Operand::Constant(1, ExpressionType::I32);
    assert_eq!(
        DiagnosticCause::from(&AssertKind::Overflow(BinOp::Add, one, one)),
        DiagnosticCause::Arithmetic
    );
    assert_eq!(
        DiagnosticCause::from(&AssertKind::Overflow(BinOp::Shl, one, one)),
        DiagnosticCause::Bitwise
    );
    assert_eq!(
        DiagnosticCause::from(&AssertKind::Overflow(BinOp::Eq, one, one)),
        DiagnosticCause::Comparison
    );
    assert_eq!(
        DiagnosticCause::from(&AssertKind::BoundsCheck { len: one, index: one }),
        DiagnosticCause::Index
    );
    assert_eq!(
        DiagnosticCause::from(&AssertKind::DivisionByZero(one)),
        DiagnosticCause::DivZero
    );
    assert_eq!(DiagnosticCause::from(&AssertKind::Panic), DiagnosticCause::Panic);
}

#[test]
fn diagnostics_sort_by_span_keeps_first_come_order_of_ties() {
    let d3 = diag(3, DiagnosticCause::Arithmetic);
    let d1a = diag(1, DiagnosticCause::DivZero);
    let d1b = diag(1, DiagnosticCause::Index);
    let sorted = sort_by_span(vec![d3, d1a, d1b]);
    assert_eq!(sorted, vec![d1a, d1b, d3]);
}

#[test]
fn compare_orders_by_span() {
    let a = diag(1, DiagnosticCause::Other);
    let b = diag(2, DiagnosticCause::Other);
    assert_eq!(Diagnostic::compare(&a, &b), Ordering::Less);
    assert_eq!(Diagnostic::compare(&b, &a), Ordering::Greater);
    assert_eq!(Diagnostic::compare(&a, &a), Ordering::Equal);
}

#[test]
fn skip_list_matches_runtime_crates() {
    assert!(should_skip_source("/rustc/x/libcore/lib.rs"));
    assert!(should_skip_source("/x/compiler_builtins/src/lib.rs"));
    assert!(should_skip_source("/x/liballoc/lib.rs"));
    assert!(should_skip_source("/x/macro/expansion.rs"));
    assert!(should_skip_source("/x/libc/lib.rs"));
    assert!(!should_skip_source("/home/user/project/src/main.rs"));
}

#[test]
fn callbacks_remember_the_source_name() {
    let mut cb = MirCheckerCallbacks::new(AnalysisOption::new());
    assert_eq!(cb.source_name, "");
    cb.config(String::from("/home/user/project/src/main.rs"));
    assert_eq!(cb.source_name, "/home/user/project/src/main.rs");
}

fn def_path(krate: &str, names: &[(&str, u32)]) -> DefPath {
    let mut components = ComponentList::Nil;
    for (name, dis) in names.iter().rev() {
        components = ComponentList::Cons(
            DefPathComponent {
                data: DefPathData::TypeNs(String::from(*name)),
                disambiguator: *dis,
            },
            Box::new(components),
        );
    }
    DefPath { krate: String::from(krate), components }
}

#[test]
fn store_insert_replaces_the_entry_under_an_existing_id() {
    let mut store = DiagnosticsForDefId { map: Vec::new() };
    store.insert(1, vec![diag(1, DiagnosticCause::Arithmetic)]);
    store.insert(2, vec![diag(2, DiagnosticCause::Index)]);
    store.insert(1, vec![diag(3, DiagnosticCause::DivZero)]);
    assert_eq!(store.map.len(), 2);
    assert_eq!(store.map[0].0, 1);
    assert_eq!(store.map[0].1, vec![diag(3, DiagnosticCause::DivZero)]);
    assert_eq!(store.map[1].0, 2);
}

#[test]
fn summary_key_clears_after_a_contracts_module_suffix() {
    // The crate name merely ends with the contracts-module name: the
    // prefix is cleared all the same, and the next component stands
    // alone.
    let p = def_path("mocks_foreign_contracts", &[("helper", 0)]);
    assert_eq!(summary_key_str(&p), "helper");
    // An exact match clears too.
    let q = def_path("foreign_contracts", &[("core", 0), ("min", 0)]);
    assert_eq!(summary_key_str(&q), "core.min");
}

#[test]
fn summary_key_joins_components_with_dots() {
    let p = def_path("demo", &[("outer", 0), ("inner", 0)]);
    assert_eq!(summary_key_str(&p), "demo.outer.inner");
}

#[test]
fn summary_key_appends_disambiguators() {
    let p = def_path("demo", &[("item", 12)]);
    assert_eq!(summary_key_str(&p), "demo.item_12");
}

#[test]
fn summary_key_for_disambiguated_impl_uses_the_type_namespace() {
    let components = ComponentList::Cons(
        DefPathComponent { data: DefPathData::TypeNs(String::from("Thing")), disambiguator: 0 },
        Box::new(ComponentList::Cons(
            DefPathComponent { data: DefPathData::Impl, disambiguator: 2 },
            Box::new(ComponentList::Nil),
        )),
    );
    let p = DefPath { krate: String::from("demo"), components };
    assert_eq!(summary_key_str(&p), "demo.Thing.implement_Thing");
}

#[test]
fn qualified_name_joins_with_underscores() {
    let p = def_path("demo", &[("outer", 0), ("Thing", 3)]);
    assert_eq!(qualified_type_name(&p), "demo_outer_Thing_3");
}

#[test]
fn mangled_type_names() {
    let p = def_path("demo", &[("Thing", 0)]);
    let adt = Ty::Adt {
        path: p,
        is_union: false,
        variants: mir_checker::types::VariantList::Nil,
        substs: ArgList::Cons(
            GenericArg::Type(Box::new(Ty::Uint(mir_checker::types::UintTy::U8))),
            Box::new(ArgList::Nil),
        ),
    };
    let mut s = String::new();
    mir_checker::utils::append_mangled_type(&mut s, &adt);
    assert_eq!(s, "demo_Thing_u8");
    let mut s2 = String::new();
    mir_checker::utils::append_mangled_type(
        &mut s2,
        &Ty::Ref(Box::new(Ty::Slice(Box::new(Ty::Bool))), mir_checker::types::Mutability::Not),
    );
    assert_eq!(s2, "ref_slice_bool");
}

#[test]
fn float_kinds_are_carried_opaquely() {
    let mut s = String::new();
    mir_checker::utils::append_mangled_type(
        &mut s,
        &Ty::Float(mir_checker::types::FloatTy::F32),
    );
    assert_eq!(s, "f32");
    let mut s2 = String::new();
    mir_checker::utils::append_mangled_type(
        &mut s2,
        &Ty::Float(mir_checker::types::FloatTy::F64),
    );
    assert_eq!(s2, "f64");
    assert!(!ExpressionType::F32.is_integer());
    assert!(is_concrete(&Ty::Float(mir_checker::types::FloatTy::F64)));
}

#[test]
fn concreteness_of_types() {
    assert!(is_concrete(&Ty::Bool));
    assert!(!is_concrete(&Ty::Param(String::from("T"))));
    assert!(!is_concrete(&Ty::Ref(
        Box::new(Ty::Param(String::from("T"))),
        mir_checker::types::Mutability::Not,
    )));
    let tuple = Ty::Tuple(TyList::Cons(
        Box::new(Ty::Char),
        Box::new(TyList::Cons(Box::new(Ty::Str), Box::new(TyList::Nil))),
    ));
    assert!(is_concrete(&tuple));
}

#[test]
fn type_visitor_resolves_locals_fields_and_indexing() {
    let locals = TyList::Cons(
        Box::new(Ty::Uint(mir_checker::types::UintTy::U32)),
        Box::new(TyList::Cons(
            Box::new(Ty::Tuple(TyList::Cons(
                Box::new(Ty::Bool),
                Box::new(TyList::Cons(Box::new(Ty::Char), Box::new(TyList::Nil))),
            ))),
            Box::new(TyList::Cons(
                Box::new(Ty::Slice(Box::new(Ty::Uint(mir_checker::types::UintTy::U8)))),
                Box::new(TyList::Nil),
            )),
        )),
    );
    let v = TypeVisitor::new(1, locals);
    let tuple_local = Path::Local { ordinal: 1 };
    assert_eq!(
        v.get_path_rustc_type(&tuple_local.clone().qualify(Selector::Field(1))),
        Ty::Char
    );
    let slice_local = Path::Local { ordinal: 2 };
    let idx = Path::Local { ordinal: 1 };
    assert_eq!(
        v.get_path_rustc_type(&slice_local.qualify(Selector::Index(Box::new(idx)))),
        Ty::Uint(mir_checker::types::UintTy::U8)
    );
    assert_eq!(v.get_path_rustc_type(&Path::Result), Ty::Uint(mir_checker::types::UintTy::U32));
    assert_eq!(ty_list_get(&v.local_types, 9), None);
}
