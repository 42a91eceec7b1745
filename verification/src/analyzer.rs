//! The whole-crate driver: select the domain, run the fixed-point
//! iterator and the checker on the entry function, and report the
//! buffered findings — upgraded, sorted, filtered and emitted, each
//! exactly once.

use vstd::prelude::*;
use crate::config::{AbstractDomainType, AnalysisOption};
use crate::diagnostics::{
    spec_sort_by_span, sort_by_span, Diagnostic, DiagnosticCause, DiagnosticsForDefId, Severity,
};
use crate::environment::{top_model, AbstractEnvironment};
use crate::fixpoint::run_fixpoint;
use crate::checker::{run_checker, spec_checker_diags};
use crate::mir::Body;
use vstd::multiset::Multiset;

verus! {

/// The functions of the analyzed crate, by definition id.
pub struct Program {
    pub functions: Vec<(u64, Body)>,
}

/// The body registered under the given definition id, if any.
pub open spec fn spec_find_body(s: Seq<(u64, Body)>, id: u64) -> Option<Body>
    decreases s.len(),
{
    if s.len() == 0 {
        None
    } else if s[0].0 == id {
        Some(s[0].1)
    } else {
        spec_find_body(s.drop_first(), id)
    }
}

impl Program {
    /// Look a function up by its definition id.
    pub fn find(&self, id: u64) -> (r: Option<&Body>)
        ensures
            match r {
                Some(b) => spec_find_body(self.functions@, id) == Some(*b),
                None => spec_find_body(self.functions@, id) is None,
            },
    {
        let n = self.functions.len();
        proof {
            assert(self.functions@.skip(0) =~= self.functions@);
        }
        let mut i: usize = 0;
        while i < n
            invariant
                0 <= i <= n,
                n == self.functions@.len(),
                spec_find_body(self.functions@, id) == spec_find_body(
                    self.functions@.skip(i as int),
                    id,
                ),
            decreases n - i,
        {
            proof {
                assert(self.functions@.skip(i as int)[0] == self.functions@[i as int]);
                assert(self.functions@.skip(i as int).drop_first() =~= self.functions@.skip(
                    i + 1 as int,
                ));
            }
            if self.functions[i].0 == id {
                return Some(&self.functions[i].1);
            }
            i = i + 1;
        }
        proof {
            assert(self.functions@.skip(n as int) =~= Seq::<(u64, Body)>::empty());
        }
        None
    }
}

/// Everything one run needs: the configuration, the program under
/// analysis, and the store the findings accumulate in.
pub struct GlobalContext {
    pub analysis_options: AnalysisOption,
    pub program: Program,
    pub diagnostics_for: DiagnosticsForDefId,
}

impl GlobalContext {
    /// Build the run's context; fails when the configured entry
    /// function does not exist in the program.
    pub fn new(program: Program, analysis_options: AnalysisOption) -> (r: Option<GlobalContext>)
        ensures
            match r {
                Some(c) => {
                    &&& c.analysis_options == analysis_options
                    &&& c.program == program
                    &&& c.diagnostics_for.map@.len() == 0
                    &&& spec_find_body(program.functions@, analysis_options.entry_def_id)
                        is Some
                },
                None => spec_find_body(program.functions@, analysis_options.entry_def_id)
                    is None,
            },
    {
        if program.find(analysis_options.entry_def_id).is_none() {
            return None;
        }
        Some(
            GlobalContext {
                analysis_options,
                program,
                diagnostics_for: DiagnosticsForDefId { map: Vec::new() },
            },
        )
    }
}

/// What a finished run reports: the findings that were emitted, in
/// order, and the ones that were cancelled by the configured filters.
pub struct AnalysisInfo {
    pub emitted: Vec<Diagnostic>,
    pub cancelled: Vec<Diagnostic>,
}

/// Why a run could not be performed.
#[derive(Clone, Copy, PartialEq, Eq, Structural, Debug)]
pub enum AnalysisError {
    /// The selected domain is backed by an external numerical library
    /// this crate does not bind.
    UnsupportedDomain,
}

/// General interface of a static analysis over a program; an analysis
/// holds a context, analyzes functions into its diagnostics store, and
/// finally reports the findings.
pub trait StaticAnalysis: Sized {
    fn new(context: GlobalContext) -> Self;

    fn run(self) -> Result<AnalysisInfo, AnalysisError>;

    fn analyze_function(&mut self, def_id: u64, domain_type: AbstractDomainType);

    fn emit_diagnostics(self) -> (Vec<Diagnostic>, Vec<Diagnostic>);
}

/// The store's findings in one sequence, function after function in
/// insertion order.
pub open spec fn spec_flatten(m: Seq<(u64, Vec<Diagnostic>)>) -> Seq<Diagnostic>
    decreases m.len(),
{
    if m.len() == 0 {
        Seq::empty()
    } else {
        spec_flatten(m.drop_last()) + m.last().1@
    }
}

/// Every finding, promoted to an error when the run denies warnings.
pub open spec fn spec_upgrade(s: Seq<Diagnostic>, deny: bool) -> Seq<Diagnostic> {
    Seq::new(
        s.len(),
        |i: int| if deny {
            Diagnostic { severity: Severity::Error, ..s[i] }
        } else {
            s[i]
        },
    )
}

/// Whether a finding passes the run's filters: its cause is not
/// suppressed, and when only memory-safety findings are wanted it is
/// one.
pub open spec fn spec_keep(
    d: Diagnostic,
    suppressed: Option<Vec<DiagnosticCause>>,
    memory_safety_only: bool,
) -> bool {
    (match suppressed {
        Some(v) => !v@.contains(d.cause),
        None => true,
    }) && (!memory_safety_only || d.is_memory_safety)
}

/// The findings split into the emitted ones and the cancelled ones,
/// keeping order.
pub open spec fn spec_partition(
    s: Seq<Diagnostic>,
    suppressed: Option<Vec<DiagnosticCause>>,
    memory_safety_only: bool,
) -> (Seq<Diagnostic>, Seq<Diagnostic>)
    decreases s.len(),
{
    if s.len() == 0 {
        (Seq::empty(), Seq::empty())
    } else {
        let (e, c) = spec_partition(s.drop_last(), suppressed, memory_safety_only);
        if spec_keep(s.last(), suppressed, memory_safety_only) {
            (e.push(s.last()), c)
        } else {
            (e, c.push(s.last()))
        }
    }
}

/// What a run emits: the store's findings, upgraded where warnings are
/// denied, sorted by span, and filtered; and what it cancels.
pub open spec fn spec_emit_pipeline(
    m: Seq<(u64, Vec<Diagnostic>)>,
    deny: bool,
    suppressed: Option<Vec<DiagnosticCause>>,
    memory_safety_only: bool,
) -> (Seq<Diagnostic>, Seq<Diagnostic>) {
    spec_partition(
        spec_sort_by_span(spec_upgrade(spec_flatten(m), deny)),
        suppressed,
        memory_safety_only,
    )
}

/// Flatten the store.
fn flatten_store(m: &Vec<(u64, Vec<Diagnostic>)>) -> (r: Vec<Diagnostic>)
    ensures
        r@ == spec_flatten(m@),
{
    let mut r: Vec<Diagnostic> = Vec::new();
    let n = m.len();
    let mut i: usize = 0;
    while i < n
        invariant
            0 <= i <= n,
            n == m@.len(),
            r@ == spec_flatten(m@.take(i as int)),
        decreases n - i,
    {
        let inner = &m[i].1;
        let mut j: usize = 0;
        while j < inner.len()
            invariant
                0 <= j <= inner@.len(),
                i < n,
                n == m@.len(),
                inner == &m@[i as int].1,
                r@ == spec_flatten(m@.take(i as int)) + inner@.take(j as int),
            decreases inner@.len() - j,
        {
            r.push(inner[j]);
            proof {
                assert(inner@.take(j + 1 as int) =~= inner@.take(j as int).push(
                    inner@[j as int],
                ));
                assert(spec_flatten(m@.take(i as int)) + inner@.take(j + 1 as int)
                    =~= (spec_flatten(m@.take(i as int)) + inner@.take(j as int)).push(
                    inner@[j as int],
                ));
            }
            j = j + 1;
        }
        proof {
            assert(m@.take(i + 1 as int).drop_last() =~= m@.take(i as int));
            assert(m@.take(i + 1 as int).last() == m@[i as int]);
            assert(inner@.take(inner@.len() as int) =~= inner@);
        }
        i = i + 1;
    }
    proof {
        assert(m@.take(n as int) =~= m@);
    }
    r
}

/// Upgrade every finding to an error when warnings are denied.
fn upgrade_all(v: Vec<Diagnostic>, deny: bool) -> (r: Vec<Diagnostic>)
    ensures
        r@ == spec_upgrade(v@, deny),
{
    if !deny {
        proof {
            assert(v@ =~= spec_upgrade(v@, deny));
        }
        return v;
    }
    let n = v.len();
    let mut r: Vec<Diagnostic> = Vec::new();
    let mut i: usize = 0;
    while i < n
        invariant
            0 <= i <= n,
            n == v@.len(),
            deny,
            r@.len() == i,
            forall|j: int| 0 <= j < i ==> r@[j] == spec_upgrade(v@, deny)[j],
        decreases n - i,
    {
        r.push(v[i].upgrade_to_error());
        i = i + 1;
    }
    proof {
        assert(r@ =~= spec_upgrade(v@, deny));
    }
    r
}

/// Whether the cause list suppresses the finding.
fn is_suppressed(suppressed: &Option<Vec<DiagnosticCause>>, d: &Diagnostic) -> (r: bool)
    ensures
        r == !spec_keep(
            *d,
            *suppressed,
            false,
        ),
{
    match suppressed {
        Option::Some(v) => {
            let n = v.len();
            let mut i: usize = 0;
            while i < n
                invariant
                    0 <= i <= n,
                    n == v@.len(),
                    *suppressed == Option::Some(*v),
                    forall|j: int| 0 <= j < i ==> v@[j] != d.cause,
                decreases n - i,
            {
                if v[i] == d.cause {
                    assert(v@[i as int] == d.cause);
                    assert(v@.contains(d.cause));
                    assert(!spec_keep(*d, *suppressed, false));
                    return true;
                }
                i = i + 1;
            }
            false
        },
        Option::None => false,
    }
}

/// Split the sorted findings: the ones passing the filters are
/// emitted, the rest are cancelled.
fn partition_diags(
    v: Vec<Diagnostic>,
    suppressed: &Option<Vec<DiagnosticCause>>,
    memory_safety_only: bool,
) -> (r: (Vec<Diagnostic>, Vec<Diagnostic>))
    ensures
        r.0@ == spec_partition(v@, *suppressed, memory_safety_only).0,
        r.1@ == spec_partition(v@, *suppressed, memory_safety_only).1,
{
    let n = v.len();
    let mut emitted: Vec<Diagnostic> = Vec::new();
    let mut cancelled: Vec<Diagnostic> = Vec::new();
    let mut i: usize = 0;
    while i < n
        invariant
            0 <= i <= n,
            n == v@.len(),
            emitted@ == spec_partition(v@.take(i as int), *suppressed, memory_safety_only).0,
            cancelled@ == spec_partition(v@.take(i as int), *suppressed, memory_safety_only).1,
        decreases n - i,
    {
        proof {
            assert(v@.take(i + 1 as int).drop_last() =~= v@.take(i as int));
            assert(v@.take(i + 1 as int).last() == v@[i as int]);
        }
        let d = v[i];
        let keep = !is_suppressed(suppressed, &d) && (!memory_safety_only || d.is_memory_safety);
        if keep {
            emitted.push(d.emit());
        } else {
            cancelled.push(d);
            d.cancel();
        }
        i = i + 1;
    }
    proof {
        assert(v@.take(n as int) =~= v@);
    }
    (emitted, cancelled)
}

/// Traverse over a crate, analyze all functions and emit diagnoses.
pub struct NumericalAnalysis {
    /// The global context.
    pub context: GlobalContext,
}

/// Whether the reported findings are exactly the given store pushed
/// through the reporting pipeline under the given configuration.
pub open spec fn spec_reported_plain(
    info: AnalysisInfo,
    store: Seq<(u64, Vec<Diagnostic>)>,
    opts: AnalysisOption,
) -> bool {
    &&& info.emitted@ == spec_emit_pipeline(
        store,
        opts.deny_warnings,
        opts.suppressed_warnings,
        opts.memory_safety_only,
    ).0
    &&& info.cancelled@ == spec_emit_pipeline(
        store,
        opts.deny_warnings,
        opts.suppressed_warnings,
        opts.memory_safety_only,
    ).1
}

/// The findings the analysis computes for a function: the checker's
/// output on the fixed point the iterator computes from the typed
/// entry state under the given widening delay.
pub open spec fn spec_entry_diags(body: Body, delay: int) -> Seq<Diagnostic> {
    spec_checker_diags(
        body,
        crate::fixpoint::spec_fixpoint(body, top_model(body.local_types@), delay).1,
        body.blocks@.len() as int,
    )
}

/// What a completed run reports: exactly the entry function's computed
/// findings, recorded in the store and pushed through the reporting
/// pipeline; an absent or malformed entry body leaves the store as it
/// was.
pub open spec fn spec_run_report(
    program: Program,
    opts: AnalysisOption,
    store: Seq<(u64, Vec<Diagnostic>)>,
    info: AnalysisInfo,
) -> bool {
    match spec_find_body(program.functions@, opts.entry_def_id) {
        Some(body) => if body.wf() {
            let flat = crate::diagnostics::spec_flatten_with(
                store,
                opts.entry_def_id,
                spec_entry_diags(body, opts.widening_delay as int),
            );
            let pipe = spec_partition(
                spec_sort_by_span(spec_upgrade(flat, opts.deny_warnings)),
                opts.suppressed_warnings,
                opts.memory_safety_only,
            );
            &&& info.emitted@ == pipe.0
            &&& info.cancelled@ == pipe.1
        } else {
            spec_reported_plain(info, store, opts)
        },
        None => spec_reported_plain(info, store, opts),
    }
}

/// Whole-run determinism: any two reports the run contract admits for
/// one program, configuration and starting store hold exactly the same
/// findings, in the same order.
pub proof fn lemma_run_deterministic(
    program: Program,
    opts: AnalysisOption,
    store: Seq<(u64, Vec<Diagnostic>)>,
    info1: AnalysisInfo,
    info2: AnalysisInfo,
)
    requires
        spec_run_report(program, opts, store, info1),
        spec_run_report(program, opts, store, info2),
    ensures
        info1.emitted@ == info2.emitted@,
        info1.cancelled@ == info2.cancelled@,
{
}

impl StaticAnalysis for NumericalAnalysis {
    /// Wrap the context.
    fn new(context: GlobalContext) -> (r: Self)
        ensures
            r.context == context,
    {
        NumericalAnalysis { context }
    }

    /// Run the whole analysis: the entry function is analyzed under
    /// the configured domain, and the buffered findings are reported.
    /// Only the interval domain is backed natively; selecting one of
    /// the relational domains reports a configuration error and
    /// performs no analysis.
    fn run(self) -> (r: Result<AnalysisInfo, AnalysisError>)
        ensures
            self.context.analysis_options.domain_type != AbstractDomainType::Interval ==> (r
                matches Err(e) && e == AnalysisError::UnsupportedDomain),
            self.context.analysis_options.domain_type == AbstractDomainType::Interval ==> (r
                matches Ok(info) && spec_run_report(
                self.context.program,
                self.context.analysis_options,
                self.context.diagnostics_for.map@,
                info,
            )),
    {
        let ghost old_store = self.context.diagnostics_for.map@;
        let ghost opts0 = self.context.analysis_options;
        let ghost program0 = self.context.program;
        let mut this = self;
        match this.context.analysis_options.domain_type {
            AbstractDomainType::Interval => {
                let entry = this.context.analysis_options.entry_def_id;
                this.analyze_function(entry, AbstractDomainType::Interval);
                let ghost new_store = this.context.diagnostics_for.map@;
                let (emitted, cancelled) = this.emit_diagnostics();
                let info = AnalysisInfo { emitted, cancelled };
                proof {
                    match spec_find_body(program0.functions@, entry) {
                        Some(body) => {
                            if body.wf() {
                                let d = choose|d: Vec<Diagnostic>|
                                    {
                                        &&& (#[trigger] d@) == spec_entry_diags(
                                            body,
                                            opts0.widening_delay as int,
                                        )
                                        &&& new_store == crate::diagnostics::spec_store_after(
                                            old_store,
                                            entry,
                                            d,
                                        )
                                    };
                                crate::diagnostics::lemma_flatten_store_after(
                                    old_store,
                                    entry,
                                    d,
                                );
                                assert(spec_flatten(new_store)
                                    == crate::diagnostics::spec_flatten_with(
                                    old_store,
                                    entry,
                                    spec_entry_diags(body, opts0.widening_delay as int),
                                ));
                            }
                        },
                        None => {},
                    }
                    assert(spec_run_report(program0, opts0, old_store, info));
                }
                Ok(info)
            },
            _ => Err(AnalysisError::UnsupportedDomain),
        }
    }

    /// Analyze one function: validate its body, run the fixed-point
    /// iterator from the entry state in which every parameter ranges
    /// over its type, run the checker on the stabilized states, and
    /// buffer the findings under the function's id.
    fn analyze_function(&mut self, def_id: u64, domain_type: AbstractDomainType)
        ensures
            final(self).context.analysis_options == old(self).context.analysis_options,
            final(self).context.program == old(self).context.program,
            match spec_find_body(old(self).context.program.functions@, def_id) {
                Some(body) => if body.wf() {
                    exists|d: Vec<Diagnostic>|
                        {
                            &&& (#[trigger] d@) == spec_entry_diags(
                                body,
                                old(self).context.analysis_options.widening_delay as int,
                            )
                            &&& final(self).context.diagnostics_for.map@
                                == crate::diagnostics::spec_store_after(
                                old(self).context.diagnostics_for.map@,
                                def_id,
                                d,
                            )
                        }
                } else {
                    final(self).context.diagnostics_for.map@ == old(
                        self,
                    ).context.diagnostics_for.map@
                },
                None => final(self).context.diagnostics_for.map@ == old(
                    self,
                ).context.diagnostics_for.map@,
            },
    {
        let _ = domain_type;
        let found = self.context.program.find(def_id);
        let body = match found {
            Option::Some(b) => b,
            Option::None => {
                return ;
            },
        };
        if !body.check_wf() {
            return ;
        }
        let init = AbstractEnvironment::top_env(&body.local_types);
        let states = run_fixpoint(body, &init, self.context.analysis_options.widening_delay);
        let diags = run_checker(body, &states);
        let ghost post_models = crate::fixpoint::models_of(states.post@);
        let ghost diags_snap = diags;
        self.context.diagnostics_for.insert(def_id, diags);
        proof {
            assert(post_models == crate::fixpoint::spec_fixpoint(
                *body,
                top_model(body.local_types@),
                old(self).context.analysis_options.widening_delay as int,
            ).1);
            assert(diags_snap@ == spec_entry_diags(
                *body,
                old(self).context.analysis_options.widening_delay as int,
            ));
        }
    }

    /// Report the buffered findings: upgrade them all to errors when
    /// warnings are denied, sort them by span, and split them into the
    /// emitted and the cancelled ones by the configured filters.
    fn emit_diagnostics(self) -> (r: (Vec<Diagnostic>, Vec<Diagnostic>))
        ensures
            r.0@ == spec_emit_pipeline(
                self.context.diagnostics_for.map@,
                self.context.analysis_options.deny_warnings,
                self.context.analysis_options.suppressed_warnings,
                self.context.analysis_options.memory_safety_only,
            ).0,
            r.1@ == spec_emit_pipeline(
                self.context.diagnostics_for.map@,
                self.context.analysis_options.deny_warnings,
                self.context.analysis_options.suppressed_warnings,
                self.context.analysis_options.memory_safety_only,
            ).1,
    {
        let flat = flatten_store(&self.context.diagnostics_for.map);
        let upgraded = upgrade_all(flat, self.context.analysis_options.deny_warnings);
        let sorted = sort_by_span(upgraded);
        partition_diags(
            sorted,
            &self.context.analysis_options.suppressed_warnings,
            self.context.analysis_options.memory_safety_only,
        )
    }
}

/// Reporting is deterministic in what the stores hold: two stores of
/// the same findings under the same ids, in the same order, are
/// reported identically under one configuration, whatever vectors
/// carry the findings.
pub proof fn lemma_emit_deterministic(
    m1: Seq<(u64, Vec<Diagnostic>)>,
    m2: Seq<(u64, Vec<Diagnostic>)>,
    deny: bool,
    suppressed: Option<Vec<DiagnosticCause>>,
    memory_safety_only: bool,
)
    requires
        m1.len() == m2.len(),
        forall|i: int| 0 <= i < m1.len() ==> (#[trigger] m1[i]).0 == m2[i].0 && m1[i].1@
            == m2[i].1@,
    ensures
        spec_emit_pipeline(m1, deny, suppressed, memory_safety_only) == spec_emit_pipeline(
            m2,
            deny,
            suppressed,
            memory_safety_only,
        ),
{
    lemma_flatten_congruent(m1, m2);
}

/// Flattening reads only the findings, not the vectors carrying them.
proof fn lemma_flatten_congruent(m1: Seq<(u64, Vec<Diagnostic>)>, m2: Seq<(u64, Vec<Diagnostic>)>)
    requires
        m1.len() == m2.len(),
        forall|i: int| 0 <= i < m1.len() ==> (#[trigger] m1[i]).0 == m2[i].0 && m1[i].1@
            == m2[i].1@,
    ensures
        spec_flatten(m1) == spec_flatten(m2),
    decreases m1.len(),
{
    if m1.len() > 0 {
        lemma_flatten_congruent(m1.drop_last(), m2.drop_last());
        assert(m1.last().1@ == m2.last().1@);
        assert(spec_flatten(m1) =~= spec_flatten(m2));
    } else {
        assert(spec_flatten(m1) =~= spec_flatten(m2));
    }
}

/// Splitting reports every finding exactly once: a finding is emitted
/// as often as it passes the filters and cancelled as often as it does
/// not, so nothing is emitted twice and nothing is lost.
pub proof fn lemma_partition_accounting(
    s: Seq<Diagnostic>,
    suppressed: Option<Vec<DiagnosticCause>>,
    memory_safety_only: bool,
    d: Diagnostic,
)
    ensures
        spec_partition(s, suppressed, memory_safety_only).0.to_multiset().count(d)
            == if spec_keep(d, suppressed, memory_safety_only) {
            s.to_multiset().count(d)
        } else {
            0
        },
        spec_partition(s, suppressed, memory_safety_only).1.to_multiset().count(d)
            == if spec_keep(d, suppressed, memory_safety_only) {
            0
        } else {
            s.to_multiset().count(d)
        },
    decreases s.len(),
{
    broadcast use vstd::seq_lib::group_to_multiset_ensures;

    if s.len() == 0 {
        assert(s =~= Seq::<Diagnostic>::empty());
        assert(spec_partition(s, suppressed, memory_safety_only).0 =~= Seq::<Diagnostic>::empty());
        assert(Seq::<Diagnostic>::empty().to_multiset() =~= Multiset::<Diagnostic>::empty());
    } else {
        lemma_partition_accounting(s.drop_last(), suppressed, memory_safety_only, d);
        assert(s =~= s.drop_last().push(s.last()));
        assert(s.to_multiset() =~= s.drop_last().to_multiset().insert(s.last()));
        let (e, c) = spec_partition(s.drop_last(), suppressed, memory_safety_only);
        if spec_keep(s.last(), suppressed, memory_safety_only) {
            assert(e.push(s.last()).to_multiset() =~= e.to_multiset().insert(s.last()));
        } else {
            assert(c.push(s.last()).to_multiset() =~= c.to_multiset().insert(s.last()));
        }
    }
}

/// Every buffered finding is either emitted or cancelled, and none
/// more than once: counting both sides of the split gives exactly the
/// sorted, upgraded store.
pub proof fn lemma_emit_accounting(
    m: Seq<(u64, Vec<Diagnostic>)>,
    deny: bool,
    suppressed: Option<Vec<DiagnosticCause>>,
    memory_safety_only: bool,
)
    ensures
        spec_emit_pipeline(m, deny, suppressed, memory_safety_only).0.to_multiset().add(
            spec_emit_pipeline(m, deny, suppressed, memory_safety_only).1.to_multiset(),
        ) =~= spec_upgrade(spec_flatten(m), deny).to_multiset(),
{
    let sorted = spec_sort_by_span(spec_upgrade(spec_flatten(m), deny));
    crate::diagnostics::lemma_sort_multiset(spec_upgrade(spec_flatten(m), deny));
    assert forall|d: Diagnostic|
        spec_emit_pipeline(m, deny, suppressed, memory_safety_only).0.to_multiset().add(
            spec_emit_pipeline(m, deny, suppressed, memory_safety_only).1.to_multiset(),
        ).count(d) == spec_upgrade(spec_flatten(m), deny).to_multiset().count(d) by {
        lemma_partition_accounting(sorted, suppressed, memory_safety_only, d);
    }
}

} // verus!
