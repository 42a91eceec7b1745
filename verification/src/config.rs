//! Per-run configuration of the analyzer: which numerical domain backs
//! the analysis, how long widening is delayed, and how findings are
//! filtered when they are finally reported.

use vstd::prelude::*;
use crate::diagnostics::DiagnosticCause;

verus! {

/// The numerical domains a run can select.  The interval domain is
/// implemented natively; the relational domains are backed by an
/// external numerical library that this crate does not bind.
#[derive(Clone, Copy, PartialEq, Eq, Structural, Debug)]
pub enum AbstractDomainType {
    Interval,
    Octagon,
    Polyhedra,
    LinearEqualities,
    PplPolyhedra,
    PplLinearCongruences,
    PkgridPolyhedraLinCongruences,
}

/// What one run of the analyzer was asked to do.
#[derive(Debug)]
pub struct AnalysisOption {
    /// The selected numerical domain.
    pub domain_type: AbstractDomainType,
    /// How many joins a loop head sees before widening starts.
    pub widening_delay: usize,
    /// Causes whose findings are cancelled instead of reported.
    pub suppressed_warnings: Option<Vec<DiagnosticCause>>,
    /// Report only memory-safety findings.
    pub memory_safety_only: bool,
    /// Report every finding as an error.
    pub deny_warnings: bool,
    /// The definition id of the entry function.
    pub entry_def_id: u64,
}

impl AnalysisOption {
    /// The defaults: the interval domain, one join before widening,
    /// nothing suppressed, and the entry function with id zero.
    pub fn new() -> (r: AnalysisOption)
        ensures
            r.domain_type == AbstractDomainType::Interval,
            r.widening_delay == 1,
            r.suppressed_warnings is None,
            !r.memory_safety_only,
            !r.deny_warnings,
            r.entry_def_id == 0,
    {
        AnalysisOption {
            domain_type: AbstractDomainType::Interval,
            widening_delay: 1,
            suppressed_warnings: None,
            memory_safety_only: false,
            deny_warnings: false,
            entry_def_id: 0,
        }
    }
}

} // verus!
