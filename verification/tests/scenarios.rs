use mir_checker::analyzer::{GlobalContext, NumericalAnalysis, Program, StaticAnalysis};
use mir_checker::config::{AbstractDomainType, AnalysisOption};
use mir_checker::diagnostics::{Certainty, DiagnosticCause, Severity, Span};
use mir_checker::environment::AbstractEnvironment;
use mir_checker::expression::{Expression, ExpressionType};
use mir_checker::checker::run_checker;
use mir_checker::fixpoint::run_fixpoint;
use mir_checker::interval::{Bound, Interval};
use mir_checker::mir::{AssertKind, BasicBlock, BinOp, Body, Operand, Rvalue, Statement,
    Terminator};

fn sp(n: u64) -> Span {
    Span { lo: n, hi: n + 1 }
}

fn opts() -> AnalysisOption {
    let mut o = AnalysisOption::new();
    o.entry_def_id = 1;
    o
}

fn run_whole(body: Body, o: AnalysisOption) -> (Vec<mir_checker::diagnostics::Diagnostic>, Vec<
    mir_checker::diagnostics::Diagnostic,
>) {
    let program = Program { functions: vec![(1, body)] };
    let context = GlobalContext::new(program, o).expect("entry exists");
    let analysis = NumericalAnalysis::new(context);
    let info = analysis.run().expect("interval domain runs");
    (info.emitted, info.cancelled)
}

/// A function that increments its byte parameter.
fn overflow_body() -> Body {
    Body {
        blocks: vec![
            BasicBlock {
                statements: vec![
                    Statement::Assign(
                        2,
                        Rvalue::BinaryOp(BinOp::Add, Operand::Copy(1), Operand::Constant(
                            1,
                            ExpressionType::U8,
                        )),
                    ),
                ],
                terminator: Terminator::Assert {
                    kind: AssertKind::Overflow(BinOp::Add, Operand::Copy(1), Operand::Constant(
                        1,
                        ExpressionType::U8,
                    )),
                    span: sp(10),
                    target: 1,
                },
            },
            BasicBlock {
                statements: vec![Statement::Assign(0, Rvalue::Use(Operand::Copy(2)))],
                terminator: Terminator::Return,
            },
        ],
        local_types: vec![ExpressionType::U8, ExpressionType::U8, ExpressionType::U8],
        arg_count: 1,
        span: sp(0),
    }
}

#[test]
fn byte_increment_reports_one_arithmetic_overflow() {
    let (emitted, cancelled) = run_whole(overflow_body(), opts());
    assert_eq!(emitted.len(), 1);
    assert_eq!(emitted[0].cause, DiagnosticCause::Arithmetic);
    assert_eq!(emitted[0].certainty, Certainty::Possible);
    assert_eq!(emitted[0].severity, Severity::Warning);
    assert_eq!(cancelled.len(), 0);
}

#[test]
fn byte_increment_with_bounded_input_is_silent() {
    let body = overflow_body();
    let init = AbstractEnvironment::top_env(&body.local_types);
    let init = init.assume_pred(Expression::CmpConst(BinOp::Le, 1, 254), true);
    let states = run_fixpoint(&body, &init, 1);
    let diags = run_checker(&body, &states);
    assert_eq!(diags.len(), 0);
}

/// A function that divides its two parameters.
fn division_body(guarded: bool) -> Body {
    let div_assert = Terminator::Assert {
        kind: AssertKind::DivisionByZero(Operand::Copy(2)),
        span: sp(20),
        target: 1,
    };
    if !guarded {
        Body {
            blocks: vec![
                BasicBlock { statements: vec![], terminator: div_assert },
                BasicBlock {
                    statements: vec![
                        Statement::Assign(
                            0,
                            Rvalue::BinaryOp(BinOp::Div, Operand::Copy(1), Operand::Copy(2)),
                        ),
                    ],
                    terminator: Terminator::Return,
                },
            ],
            local_types: vec![
                ExpressionType::I32,
                ExpressionType::I32,
                ExpressionType::I32,
            ],
            arg_count: 2,
            span: sp(0),
        }
    } else {
        Body {
            blocks: vec![
                // c = (b == 0); if c { return 0 } else { divide }
                BasicBlock {
                    statements: vec![
                        Statement::Assign(
                            3,
                            Rvalue::BinaryOp(BinOp::Eq, Operand::Copy(2), Operand::Constant(
                                0,
                                ExpressionType::I32,
                            )),
                        ),
                    ],
                    terminator: Terminator::SwitchInt {
                        disc: Operand::Copy(3),
                        targets: vec![(0, 2)],
                        otherwise: 1,
                    },
                },
                BasicBlock {
                    statements: vec![
                        Statement::Assign(0, Rvalue::Use(Operand::Constant(
                            0,
                            ExpressionType::I32,
                        ))),
                    ],
                    terminator: Terminator::Return,
                },
                BasicBlock {
                    statements: vec![],
                    terminator: Terminator::Assert {
                        kind: AssertKind::DivisionByZero(Operand::Copy(2)),
                        span: sp(21),
                        target: 3,
                    },
                },
                BasicBlock {
                    statements: vec![
                        Statement::Assign(
                            0,
                            Rvalue::BinaryOp(BinOp::Div, Operand::Copy(1), Operand::Copy(2)),
                        ),
                    ],
                    terminator: Terminator::Return,
                },
            ],
            local_types: vec![
                ExpressionType::I32,
                ExpressionType::I32,
                ExpressionType::I32,
                ExpressionType::Bool,
            ],
            arg_count: 2,
            span: sp(0),
        }
    }
}

#[test]
fn division_reports_one_possible_zero_divisor() {
    let (emitted, _) = run_whole(division_body(false), opts());
    assert_eq!(emitted.len(), 1);
    assert_eq!(emitted[0].cause, DiagnosticCause::DivZero);
}

#[test]
fn guarded_division_is_silent() {
    let (emitted, cancelled) = run_whole(division_body(true), opts());
    assert_eq!(emitted.len(), 0);
    assert_eq!(cancelled.len(), 0);
}

/// A function that indexes a slice parameter.
fn index_body(guarded: bool) -> Body {
    if !guarded {
        Body {
            blocks: vec![
                BasicBlock {
                    statements: vec![Statement::Assign(3, Rvalue::Len(1))],
                    terminator: Terminator::Assert {
                        kind: AssertKind::BoundsCheck {
                            len: Operand::Copy(3),
                            index: Operand::Copy(2),
                        },
                        span: sp(30),
                        target: 1,
                    },
                },
                BasicBlock {
                    statements: vec![
                        Statement::Assign(0, Rvalue::IndexRead(1, Operand::Copy(2))),
                    ],
                    terminator: Terminator::Return,
                },
            ],
            local_types: vec![
                ExpressionType::U32,
                ExpressionType::Reference,
                ExpressionType::Usize,
                ExpressionType::Usize,
            ],
            arg_count: 2,
            span: sp(0),
        }
    } else {
        Body {
            blocks: vec![
                // l = len(v); c = i < l; if c { bounds-checked read } else { return 0 }
                BasicBlock {
                    statements: vec![
                        Statement::Assign(3, Rvalue::Len(1)),
                        Statement::Assign(
                            4,
                            Rvalue::BinaryOp(BinOp::Lt, Operand::Copy(2), Operand::Copy(3)),
                        ),
                    ],
                    terminator: Terminator::SwitchInt {
                        disc: Operand::Copy(4),
                        targets: vec![(0, 3)],
                        otherwise: 1,
                    },
                },
                BasicBlock {
                    statements: vec![Statement::Assign(5, Rvalue::Len(1))],
                    terminator: Terminator::Assert {
                        kind: AssertKind::BoundsCheck {
                            len: Operand::Copy(5),
                            index: Operand::Copy(2),
                        },
                        span: sp(31),
                        target: 2,
                    },
                },
                BasicBlock {
                    statements: vec![
                        Statement::Assign(0, Rvalue::IndexRead(1, Operand::Copy(2))),
                    ],
                    terminator: Terminator::Return,
                },
                BasicBlock {
                    statements: vec![
                        Statement::Assign(0, Rvalue::Use(Operand::Constant(
                            0,
                            ExpressionType::U32,
                        ))),
                    ],
                    terminator: Terminator::Return,
                },
            ],
            local_types: vec![
                ExpressionType::U32,
                ExpressionType::Reference,
                ExpressionType::Usize,
                ExpressionType::Usize,
                ExpressionType::Bool,
                ExpressionType::Usize,
            ],
            arg_count: 2,
            span: sp(0),
        }
    }
}

#[test]
fn unchecked_index_reports_one_out_of_bounds() {
    let (emitted, _) = run_whole(index_body(false), opts());
    assert_eq!(emitted.len(), 1);
    assert_eq!(emitted[0].cause, DiagnosticCause::Index);
    assert!(emitted[0].is_memory_safety);
}

#[test]
fn guarded_index_is_silent() {
    let (emitted, cancelled) = run_whole(index_body(true), opts());
    assert_eq!(emitted.len(), 0);
    assert_eq!(cancelled.len(), 0);
}

/// A counted loop writing into an array of ten elements.
fn loop_body() -> Body {
    Body {
        blocks: vec![
            BasicBlock {
                statements: vec![
                    Statement::Assign(2, Rvalue::Use(Operand::Constant(
                        0,
                        ExpressionType::Usize,
                    ))),
                ],
                terminator: Terminator::Goto(1),
            },
            BasicBlock {
                statements: vec![
                    Statement::Assign(
                        3,
                        Rvalue::BinaryOp(BinOp::Lt, Operand::Copy(2), Operand::Constant(
                            10,
                            ExpressionType::Usize,
                        )),
                    ),
                ],
                terminator: Terminator::SwitchInt {
                    disc: Operand::Copy(3),
                    targets: vec![(0, 4)],
                    otherwise: 2,
                },
            },
            BasicBlock {
                statements: vec![],
                terminator: Terminator::Assert {
                    kind: AssertKind::BoundsCheck {
                        len: Operand::Constant(10, ExpressionType::Usize),
                        index: Operand::Copy(2),
                    },
                    span: sp(40),
                    target: 3,
                },
            },
            BasicBlock {
                statements: vec![
                    Statement::IndexWrite(1, Operand::Copy(2), Operand::Constant(
                        0,
                        ExpressionType::U32,
                    )),
                    Statement::Assign(
                        2,
                        Rvalue::BinaryOp(BinOp::Add, Operand::Copy(2), Operand::Constant(
                            1,
                            ExpressionType::Usize,
                        )),
                    ),
                ],
                terminator: Terminator::Goto(1),
            },
            BasicBlock { statements: vec![], terminator: Terminator::Return },
        ],
        local_types: vec![
            ExpressionType::Unit,
            ExpressionType::NonPrimitive,
            ExpressionType::Usize,
            ExpressionType::Bool,
        ],
        arg_count: 1,
        span: sp(0),
    }
}

#[test]
fn loop_with_widening_converges_and_is_silent() {
    let body = loop_body();
    let init = AbstractEnvironment::top_env(&body.local_types);
    let states = run_fixpoint(&body, &init, 1);
    let diags = run_checker(&body, &states);
    assert_eq!(diags.len(), 0);
    // The loop counter converges on the range from zero to ten at the head.
    assert_eq!(states.pre[1].intervals[2], Interval { lo: Bound::Fin(0), hi: Bound::Fin(10) });
}

/// A panic site behind a branch on a constant false condition.
fn dead_panic_body() -> Body {
    Body {
        blocks: vec![
            BasicBlock {
                statements: vec![],
                terminator: Terminator::SwitchInt {
                    disc: Operand::Constant(0, ExpressionType::Bool),
                    targets: vec![(0, 2)],
                    otherwise: 1,
                },
            },
            BasicBlock { statements: vec![], terminator: Terminator::Panic { span: sp(50) } },
            BasicBlock { statements: vec![], terminator: Terminator::Return },
        ],
        local_types: vec![ExpressionType::Unit],
        arg_count: 0,
        span: sp(0),
    }
}

#[test]
fn unreachable_panic_reports_nothing() {
    let (emitted, cancelled) = run_whole(dead_panic_body(), opts());
    assert_eq!(emitted.len(), 0);
    assert_eq!(cancelled.len(), 0);
}

#[test]
fn reachable_panic_is_reported() {
    let body = Body {
        blocks: vec![
            BasicBlock { statements: vec![], terminator: Terminator::Panic { span: sp(51) } },
        ],
        local_types: vec![ExpressionType::Unit],
        arg_count: 0,
        span: sp(0),
    };
    let (emitted, _) = run_whole(body, opts());
    assert_eq!(emitted.len(), 1);
    assert_eq!(emitted[0].cause, DiagnosticCause::Panic);
}

#[test]
fn suppressing_the_cause_cancels_the_finding() {
    let mut o = opts();
    o.suppressed_warnings = Some(vec![DiagnosticCause::Arithmetic]);
    let (emitted, cancelled) = run_whole(overflow_body(), o);
    assert_eq!(emitted.len(), 0);
    assert_eq!(cancelled.len(), 1);
    assert_eq!(cancelled[0].cause, DiagnosticCause::Arithmetic);
}

#[test]
fn denying_warnings_upgrades_to_error() {
    let mut o = opts();
    o.deny_warnings = true;
    let (emitted, _) = run_whole(overflow_body(), o);
    assert_eq!(emitted.len(), 1);
    assert_eq!(emitted[0].severity, Severity::Error);
}

#[test]
fn memory_safety_filter_keeps_only_memory_findings() {
    let mut o = opts();
    o.memory_safety_only = true;
    let (emitted, cancelled) = run_whole(overflow_body(), o);
    assert_eq!(emitted.len(), 0);
    assert_eq!(cancelled.len(), 1);
}

#[test]
fn relational_domains_are_reported_unavailable() {
    let mut o = opts();
    o.domain_type = AbstractDomainType::Octagon;
    let program = Program { functions: vec![(1, overflow_body())] };
    let context = GlobalContext::new(program, o).expect("entry exists");
    let analysis = NumericalAnalysis::new(context);
    assert!(analysis.run().is_err());
}

#[test]
fn two_identical_runs_report_identical_findings() {
    let (e1, c1) = run_whole(overflow_body(), opts());
    let (e2, c2) = run_whole(overflow_body(), opts());
    assert_eq!(e1, e2);
    assert_eq!(c1, c2);
}
