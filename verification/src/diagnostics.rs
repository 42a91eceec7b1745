//! Findings of the analysis: their cause, severity, position and the
//! per-function store that buffers them until the whole crate is done.

use vstd::prelude::*;
use crate::mir::{AssertKind, BinOp};

verus! {

/// A position in the analyzed source, ordered lexicographically.
#[derive(Clone, Copy, PartialEq, Eq, Structural, Debug)]
pub struct Span {
    pub lo: u64,
    pub hi: u64,
}

/// Lexicographic order on spans: by low position, then by high position.
pub open spec fn span_le(a: Span, b: Span) -> bool {
    a.lo < b.lo || (a.lo == b.lo && a.hi <= b.hi)
}

/// The kind of defect a diagnostic reports.  Users can suppress whole
/// causes to lower the false-positive rate.
#[derive(Clone, Copy, PartialEq, Eq, Structural, Debug)]
pub enum DiagnosticCause {
    /// Bit-wise overflow
    Bitwise,
    /// Arithmetic overflow
    Arithmetic,
    /// Inline assembly
    Assembly,
    /// Comparison operations
    Comparison,
    /// Division by zero / remainder by zero
    DivZero,
    /// Memory-safety issues
    Memory,
    /// Run into panic code
    Panic,
    /// Out-of-bounds access
    Index,
    /// Other
    Other,
}

/// What the cause of a failed assertion of the given kind is.
pub open spec fn spec_cause_of(kind: AssertKind) -> DiagnosticCause {
    match kind {
        AssertKind::BoundsCheck { .. } => DiagnosticCause::Index,
        AssertKind::Overflow(op, _, _) => match op {
            BinOp::Add | BinOp::Sub | BinOp::Mul | BinOp::Div | BinOp::Rem =>
                DiagnosticCause::Arithmetic,
            BinOp::Shl | BinOp::Shr | BinOp::BitXor | BinOp::BitAnd | BinOp::BitOr =>
                DiagnosticCause::Bitwise,
            BinOp::Eq | BinOp::Lt | BinOp::Le | BinOp::Ne | BinOp::Ge | BinOp::Gt =>
                DiagnosticCause::Comparison,
            BinOp::Offset => DiagnosticCause::Index,
        },
        AssertKind::OverflowNeg(_) => DiagnosticCause::Arithmetic,
        AssertKind::DivisionByZero(_) => DiagnosticCause::DivZero,
        AssertKind::RemainderByZero(_) => DiagnosticCause::DivZero,
        AssertKind::Panic => DiagnosticCause::Panic,
    }
}

impl DiagnosticCause {
    /// Extract the cause of a diagnostic message from an assertion kind.
    pub fn from(kind: &AssertKind) -> (c: DiagnosticCause)
        ensures
            c == spec_cause_of(*kind),
    {
        match kind {
            AssertKind::BoundsCheck { .. } => DiagnosticCause::Index,
            AssertKind::Overflow(op, _, _) => match op {
                BinOp::Add | BinOp::Sub | BinOp::Mul | BinOp::Div | BinOp::Rem =>
                    DiagnosticCause::Arithmetic,
                BinOp::Shl | BinOp::Shr | BinOp::BitXor | BinOp::BitAnd | BinOp::BitOr =>
                    DiagnosticCause::Bitwise,
                BinOp::Eq | BinOp::Lt | BinOp::Le | BinOp::Ne | BinOp::Ge | BinOp::Gt =>
                    DiagnosticCause::Comparison,
                BinOp::Offset => DiagnosticCause::Index,
            },
            AssertKind::OverflowNeg(_) => DiagnosticCause::Arithmetic,
            AssertKind::DivisionByZero(_) => DiagnosticCause::DivZero,
            AssertKind::RemainderByZero(_) => DiagnosticCause::DivZero,
            AssertKind::Panic => DiagnosticCause::Panic,
        }
    }
}

/// How severe a finding is when rendered.
#[derive(Clone, Copy, PartialEq, Eq, Structural, Debug)]
pub enum Severity {
    Warning,
    Error,
}

/// Whether the finding is certain or only possible in the abstract state.
#[derive(Clone, Copy, PartialEq, Eq, Structural, Debug)]
pub enum Certainty {
    /// The guarded condition definitely fails.
    Definite,
    /// The abstract state cannot rule the failure out.
    Possible,
}

/// One finding, buffered until the end of the whole-crate analysis,
/// when it is either emitted or cancelled, exactly once.
#[derive(Clone, Copy, PartialEq, Eq, Structural, Debug)]
pub struct Diagnostic {
    pub severity: Severity,
    pub span: Span,
    pub is_memory_safety: bool,
    pub cause: DiagnosticCause,
    pub certainty: Certainty,
}

impl Diagnostic {
    /// Build a finding of the given severity, position and cause.
    pub fn new(severity: Severity, span: Span, is_memory_safety: bool, cause: DiagnosticCause,
        certainty: Certainty) -> (d: Diagnostic)
        ensures
            d == (Diagnostic { severity, span, is_memory_safety, cause, certainty }),
    {
        Diagnostic { severity, span, is_memory_safety, cause, certainty }
    }

    /// Drop the finding without reporting it.
    pub fn cancel(self) {
    }

    /// Report the finding: hand the caller the form to render.
    pub fn emit(self) -> (e: Diagnostic)
        ensures
            e == self,
    {
        self
    }

    /// Same severity, but promoted to an error.
    pub fn upgrade_to_error(self) -> (d: Diagnostic)
        ensures
            d == (Diagnostic { severity: Severity::Error, ..self }),
    {
        Diagnostic { severity: Severity::Error, ..self }
    }

    /// Order two findings by their primary span, lexicographically.
    pub fn compare(x: &Diagnostic, y: &Diagnostic) -> (o: core::cmp::Ordering)
        ensures
            o == core::cmp::Ordering::Less <==> span_le(x.span, y.span) && x.span != y.span,
            o == core::cmp::Ordering::Greater <==> span_le(y.span, x.span) && x.span != y.span,
            o == core::cmp::Ordering::Equal <==> x.span == y.span,
    {
        if x.span.lo < y.span.lo || (x.span.lo == y.span.lo && x.span.hi < y.span.hi) {
            core::cmp::Ordering::Less
        } else if y.span.lo < x.span.lo || (y.span.lo == x.span.lo && y.span.hi < x.span.hi) {
            core::cmp::Ordering::Greater
        } else {
            core::cmp::Ordering::Equal
        }
    }
}

/// All diagnoses collected for one analyzed function, keyed by the
/// function's definition id; kept in insertion order so that a run's
/// output is a function of its input alone.
pub struct DiagnosticsForDefId {
    pub map: Vec<(u64, Vec<Diagnostic>)>,
}

impl Default for DiagnosticsForDefId {
    /// An empty store.
    fn default() -> (d: DiagnosticsForDefId)
        ensures
            d.map@ =~= Seq::<(u64, Vec<Diagnostic>)>::empty(),
    {
        DiagnosticsForDefId { map: Vec::new() }
    }
}

/// The position of the first entry under the given id, or a negative
/// number when there is none.
pub open spec fn spec_find_key(s: Seq<(u64, Vec<Diagnostic>)>, id: u64) -> int
    decreases s.len(),
{
    if s.len() == 0 {
        -1
    } else if s[0].0 == id {
        0
    } else {
        let r = spec_find_key(s.drop_first(), id);
        if r < 0 {
            -1
        } else {
            r + 1
        }
    }
}

/// Where the first entry under the id sits: in range, under that id,
/// and nothing under the id before it; a negative answer means no
/// entry carries the id.
pub proof fn lemma_find_key_char(s: Seq<(u64, Vec<Diagnostic>)>, id: u64)
    ensures
        spec_find_key(s, id) < 0 ==> forall|j: int| 0 <= j < s.len() ==> (#[trigger] s[j]).0
            != id,
        spec_find_key(s, id) >= 0 ==> 0 <= spec_find_key(s, id) < s.len() && s[spec_find_key(
            s,
            id,
        )].0 == id && forall|j: int| 0 <= j < spec_find_key(s, id) ==> (#[trigger] s[j]).0 != id,
    decreases s.len(),
{
    if s.len() > 0 && s[0].0 != id {
        lemma_find_key_char(s.drop_first(), id);
        assert forall|j: int| 1 <= j < s.len() implies s.drop_first()[j - 1] == s[j] by {}
    }
}

/// The store after recording findings under an id: the first entry
/// under that id is replaced, or a new entry is appended when none
/// exists.
pub open spec fn spec_store_after(
    s: Seq<(u64, Vec<Diagnostic>)>,
    id: u64,
    diags: Vec<Diagnostic>,
) -> Seq<(u64, Vec<Diagnostic>)> {
    if spec_find_key(s, id) < 0 {
        s.push((id, diags))
    } else {
        s.update(spec_find_key(s, id), (id, diags))
    }
}

impl DiagnosticsForDefId {
    /// Record the findings for one function: an entry already standing
    /// under the id is replaced, as in a map.
    pub fn insert(&mut self, id: u64, diags: Vec<Diagnostic>)
        ensures
            final(self).map@ == spec_store_after(old(self).map@, id, diags),
    {
        proof {
            lemma_find_key_char(self.map@, id);
        }
        let n = self.map.len();
        let mut i: usize = 0;
        while i < n
            invariant
                0 <= i <= n,
                n == self.map@.len(),
                self.map@ == old(self).map@,
                forall|j: int| 0 <= j < i ==> (#[trigger] self.map@[j]).0 != id,
            decreases n - i,
        {
            if self.map[i].0 == id {
                proof {
                    lemma_find_key_char(self.map@, id);
                    assert(spec_find_key(self.map@, id) == i as int) by {
                        if spec_find_key(self.map@, id) < 0 {
                            assert(self.map@[i as int].0 != id);
                        } else if spec_find_key(self.map@, id) < i as int {
                            assert(self.map@[spec_find_key(self.map@, id)].0 != id);
                        } else if spec_find_key(self.map@, id) > i as int {
                            assert(self.map@[i as int].0 != id);
                        }
                    }
                }
                self.map.set(i, (id, diags));
                return ;
            }
            i = i + 1;
        }
        proof {
            lemma_find_key_char(self.map@, id);
            assert(spec_find_key(self.map@, id) < 0) by {
                if spec_find_key(self.map@, id) >= 0 {
                    assert(self.map@[spec_find_key(self.map@, id)].0 != id);
                }
            }
        }
        self.map.push((id, diags));
    }
}

/// Decide the span order.
pub fn span_le_exec(a: Span, b: Span) -> (r: bool)
    ensures
        r == span_le(a, b),
{
    a.lo < b.lo || (a.lo == b.lo && a.hi <= b.hi)
}

/// The span order is total and transitive.
pub proof fn lemma_span_le_total(a: Span, b: Span, c: Span)
    ensures
        span_le(a, a),
        span_le(a, b) || span_le(b, a),
        span_le(a, b) && span_le(b, c) ==> span_le(a, c),
{
}

/// Where a new finding lands in a span-sorted sequence: after every
/// entry whose span does not exceed its own.
pub open spec fn spec_insert_by_span(d: Diagnostic, s: Seq<Diagnostic>) -> Seq<Diagnostic>
    decreases s.len(),
{
    if s.len() == 0 {
        seq![d]
    } else if span_le(s.last().span, d.span) {
        s.push(d)
    } else {
        spec_insert_by_span(d, s.drop_last()).push(s.last())
    }
}

/// The span-sorted arrangement of a sequence of findings: each is
/// inserted in turn, so equal spans keep their first-come order.
pub open spec fn spec_sort_by_span(s: Seq<Diagnostic>) -> Seq<Diagnostic>
    decreases s.len(),
{
    if s.len() == 0 {
        Seq::empty()
    } else {
        spec_insert_by_span(s.last(), spec_sort_by_span(s.drop_last()))
    }
}

/// Whether the findings stand in span order.
pub open spec fn spec_sorted_by_span(s: Seq<Diagnostic>) -> bool {
    forall|i: int, j: int| 0 <= i < j < s.len() ==> span_le(
        (#[trigger] s[i]).span,
        (#[trigger] s[j]).span,
    )
}

/// Inserting keeps exactly the given findings: one more of the
/// inserted one.
pub proof fn lemma_insert_multiset(d: Diagnostic, s: Seq<Diagnostic>)
    ensures
        spec_insert_by_span(d, s).to_multiset() =~= s.to_multiset().insert(d),
    decreases s.len(),
{
    broadcast use vstd::seq_lib::group_seq_properties;

    if s.len() == 0 {
        assert(seq![d] =~= Seq::<Diagnostic>::empty().push(d));
        Seq::<Diagnostic>::empty().to_multiset_ensures();
    } else if span_le(s.last().span, d.span) {
        s.to_multiset_ensures();
    } else {
        lemma_insert_multiset(d, s.drop_last());
        spec_insert_by_span(d, s.drop_last()).to_multiset_ensures();
        s.drop_last().to_multiset_ensures();
        assert(s =~= s.drop_last().push(s.last()));
    }
}

/// Sorting keeps exactly the given findings.
pub proof fn lemma_sort_multiset(s: Seq<Diagnostic>)
    ensures
        spec_sort_by_span(s).to_multiset() == s.to_multiset(),
    decreases s.len(),
{
    if s.len() > 0 {
        let dl = s.drop_last();
        let lst = s.last();
        lemma_sort_multiset(dl);
        lemma_insert_multiset(lst, spec_sort_by_span(dl));
        dl.to_multiset_ensures();
        assert(spec_sort_by_span(s) == spec_insert_by_span(lst, spec_sort_by_span(dl)));
        assert(spec_insert_by_span(lst, spec_sort_by_span(dl)).to_multiset() =~= spec_sort_by_span(
            dl,
        ).to_multiset().insert(lst));
        assert(spec_sort_by_span(dl).to_multiset().insert(lst) == dl.to_multiset().insert(lst));
        assert(dl.push(lst).to_multiset() =~= dl.to_multiset().insert(lst));
        assert(s =~= dl.push(lst));
        assert(s.to_multiset() == dl.push(lst).to_multiset());
    } else {
        assert(s =~= Seq::<Diagnostic>::empty());
    }
}

/// An inserted sequence holds exactly the old findings and the new
/// one.
pub proof fn lemma_insert_contains(d: Diagnostic, s: Seq<Diagnostic>, x: Diagnostic)
    ensures
        spec_insert_by_span(d, s).contains(x) <==> s.contains(x) || x == d,
{
    broadcast use vstd::seq_lib::group_to_multiset_ensures;

    lemma_insert_multiset(d, s);
    assert(spec_insert_by_span(d, s).to_multiset().count(x) == s.to_multiset().insert(d).count(x));
}

/// Inserting into a span-sorted sequence keeps it sorted.
pub proof fn lemma_insert_sorted(d: Diagnostic, s: Seq<Diagnostic>)
    requires
        spec_sorted_by_span(s),
    ensures
        spec_sorted_by_span(spec_insert_by_span(d, s)),
    decreases s.len(),
{
    let r = spec_insert_by_span(d, s);
    if s.len() == 0 {
    } else if span_le(s.last().span, d.span) {
        assert forall|i: int, j: int| 0 <= i < j < r.len() implies span_le(
            (#[trigger] r[i]).span,
            (#[trigger] r[j]).span,
        ) by {
            if j == r.len() - 1 {
                assert(span_le(s[i].span, s.last().span) || i == s.len() - 1);
                lemma_span_le_total(s[i].span, s.last().span, d.span);
            }
        }
    } else {
        assert(spec_sorted_by_span(s.drop_last()));
        lemma_insert_sorted(d, s.drop_last());
        let inner = spec_insert_by_span(d, s.drop_last());
        lemma_span_le_total(s.last().span, d.span, d.span);
        assert(span_le(d.span, s.last().span));
        assert forall|i: int, j: int| 0 <= i < j < r.len() implies span_le(
            (#[trigger] r[i]).span,
            (#[trigger] r[j]).span,
        ) by {
            if j == r.len() - 1 {
                assert(inner.contains(r[i])) by {
                    assert(r[i] == inner[i]);
                }
                lemma_insert_contains(d, s.drop_last(), r[i]);
                if r[i] == d {
                    assert(span_le(d.span, s.last().span));
                } else {
                    let k = choose|k: int| 0 <= k < s.drop_last().len() && s.drop_last()[k]
                        == r[i];
                    assert(span_le(s[k].span, s.last().span));
                }
            }
        }
    }
}

/// A span-sorted arrangement is sorted.
pub proof fn lemma_sort_sorted(s: Seq<Diagnostic>)
    ensures
        spec_sorted_by_span(spec_sort_by_span(s)),
    decreases s.len(),
{
    if s.len() > 0 {
        lemma_sort_sorted(s.drop_last());
        lemma_insert_sorted(s.last(), spec_sort_by_span(s.drop_last()));
    }
}

/// Insert one finding into a span-sorted vector.
pub fn insert_by_span(d: Diagnostic, v: Vec<Diagnostic>) -> (r: Vec<Diagnostic>)
    ensures
        r@ == spec_insert_by_span(d, v@),
    decreases v@.len(),
{
    let mut v = v;
    if v.len() == 0 {
        v.push(d);
        proof {
            assert(v@ =~= seq![d]);
        }
        v
    } else if span_le_exec(v[v.len() - 1].span, d.span) {
        v.push(d);
        v
    } else {
        let last = v.pop().unwrap();
        let mut r = insert_by_span(d, v);
        r.push(last);
        r
    }
}

/// Sort the findings by span, keeping the first-come order of equal
/// spans.
pub fn sort_by_span(v: Vec<Diagnostic>) -> (r: Vec<Diagnostic>)
    ensures
        r@ == spec_sort_by_span(v@),
        spec_sorted_by_span(r@),
        r@.to_multiset() == v@.to_multiset(),
{
    let n = v.len();
    let mut acc: Vec<Diagnostic> = Vec::new();
    let mut i: usize = 0;
    while i < n
        invariant
            0 <= i <= n,
            n == v@.len(),
            acc@ == spec_sort_by_span(v@.take(i as int)),
        decreases n - i,
    {
        proof {
            assert(v@.take(i + 1 as int).drop_last() =~= v@.take(i as int));
            assert(v@.take(i + 1 as int).last() == v@[i as int]);
        }
        acc = insert_by_span(v[i], acc);
        i = i + 1;
    }
    proof {
        assert(v@.take(n as int) =~= v@);
        lemma_sort_sorted(v@);
        lemma_sort_multiset(v@);
    }
    acc
}

/// The flattened findings of the store with the entry at position `j`
/// replaced by the given findings.
pub open spec fn spec_flatten_upd(
    m: Seq<(u64, Vec<Diagnostic>)>,
    j: int,
    dview: Seq<Diagnostic>,
) -> Seq<Diagnostic>
    decreases m.len(),
{
    if m.len() == 0 {
        Seq::empty()
    } else if j == m.len() - 1 {
        crate::analyzer::spec_flatten(m.drop_last()) + dview
    } else {
        spec_flatten_upd(m.drop_last(), j, dview) + m.last().1@
    }
}

/// The flattened findings of the store after recording findings with
/// the given contents under the id.
pub open spec fn spec_flatten_with(
    m: Seq<(u64, Vec<Diagnostic>)>,
    id: u64,
    dview: Seq<Diagnostic>,
) -> Seq<Diagnostic> {
    if spec_find_key(m, id) < 0 {
        crate::analyzer::spec_flatten(m) + dview
    } else {
        spec_flatten_upd(m, spec_find_key(m, id), dview)
    }
}

/// Recording findings and flattening depends only on their contents,
/// not on the vector carrying them.
pub proof fn lemma_flatten_store_after(
    m: Seq<(u64, Vec<Diagnostic>)>,
    id: u64,
    d: Vec<Diagnostic>,
)
    ensures
        crate::analyzer::spec_flatten(spec_store_after(m, id, d)) == spec_flatten_with(
            m,
            id,
            d@,
        ),
{
    if spec_find_key(m, id) < 0 {
        assert(m.push((id, d)).drop_last() =~= m);
        assert(crate::analyzer::spec_flatten(m.push((id, d))) == crate::analyzer::spec_flatten(m)
            + d@);
    } else {
        lemma_find_key_char(m, id);
        lemma_flatten_upd(m, spec_find_key(m, id), id, d);
    }
}

/// Flattening an updated store replaces that entry's contribution.
proof fn lemma_flatten_upd(m: Seq<(u64, Vec<Diagnostic>)>, j: int, id: u64, d: Vec<Diagnostic>)
    requires
        0 <= j < m.len(),
    ensures
        crate::analyzer::spec_flatten(m.update(j, (id, d))) == spec_flatten_upd(m, j, d@),
    decreases m.len(),
{
    let u = m.update(j, (id, d));
    if j == m.len() - 1 {
        assert(u.drop_last() =~= m.drop_last());
        assert(u.last() == (id, d));
    } else {
        lemma_flatten_upd(m.drop_last(), j, id, d);
        assert(u.drop_last() =~= m.drop_last().update(j, (id, d)));
        assert(u.last() == m.last());
    }
}

} // verus!
