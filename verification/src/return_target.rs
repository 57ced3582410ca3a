//! Return target binding over normalized return terminal material.
//!
//! This pass answers only "which active return frame receives this return
//! event?" It does not perform later control-flow completion, return value
//! typing, propagation, lowering, lifetime checks, or resource scheduling.
use vstd::prelude::*;

use crate::model::{Diagnostic, DiagnosticKind, Provenance, SymbolId};
use crate::norm_syntax::{
    expr_origin_spec, same_expr, same_slot, NormBindingSlot, NormClosure, NormDecl, NormExpr, NormForm,
    NormOrigin, NormPattern, NormPatternElem, NormProduct, NormProductElem, NormProgram, NormReturnEvent,
    NormReturnTargetSyntax, NormSemanticOwnerId,
};

verus! {

#[derive(Clone, Copy, Debug, PartialEq, Eq, PartialOrd, Ord, Hash, Structural)]
pub struct ReturnFrameId(pub usize);

/// Alpha-stable identity of one callable's return slot. The written return
/// binder spelling is diagnostic material only and never participates in
/// equality.
#[derive(Clone, Copy, Debug, PartialEq, Eq, PartialOrd, Ord, Hash, Structural)]
pub struct ReturnSlotIdentity {
    pub callable_owner: NormSemanticOwnerId,
}

/// The return slot of one frame.
#[derive(Debug, PartialEq, Eq)]
pub struct ReturnSlotRef {
    pub identity: Option<ReturnSlotIdentity>,
    /// The complete return binding slot, kept for later pattern-directed
    /// result delivery; this pass performs target binding only.
    pub binding_slot: Option<NormBindingSlot>,
    /// Spelling for diagnostics; product and extraction returns have none.
    pub name: Option<String>,
    pub origin: NormOrigin,
}

/// The owner of one return frame.
#[derive(Debug, PartialEq, Eq)]
pub enum ReturnFrameOwner {
    SourceCallable { symbol_id: Option<SymbolId>, name: Option<String> },
    AnonymousClosure,
    Synthetic { description: String },
}

/// Identity of the callable-local self position. It exists even when the
/// source writes no formal self binder.
#[derive(Debug, PartialEq, Eq)]
pub struct ReturnSelfIdentity {
    pub callable_owner: NormSemanticOwnerId,
    /// Written spelling, for diagnostics only.
    pub display_name: Option<String>,
    pub origin: NormOrigin,
}

/// One active return frame.
#[derive(Debug, PartialEq, Eq)]
pub struct ReturnTargetFrame {
    pub frame_id: ReturnFrameId,
    pub return_slot: ReturnSlotRef,
    pub owner: ReturnFrameOwner,
    pub self_identity: Option<ReturnSelfIdentity>,
    /// Lexical owner of the callable-local `Self` space and return frame;
    /// it does not encode the callable's invocation receiver type.
    pub callable_self_owner: Option<NormSemanticOwnerId>,
    pub origin: NormOrigin,
}

/// The active return frames, innermost last.
#[derive(Debug, PartialEq, Eq)]
pub struct ReturnTargetStack {
    frames: Vec<ReturnTargetFrame>,
    next_id: usize,
}

/// What the semantic resolver made of an explicit return target. The binder
/// never reconstructs this identity from a source spelling.
#[derive(Clone, Copy, Debug, PartialEq, Eq, Structural)]
pub enum ExplicitReturnTargetResolution {
    CallableSelf(NormSemanticOwnerId),
    NotActive,
    Unsupported,
}

/// Resolves explicit return targets for the binder; supplied by the
/// semantic expression and type resolver.
pub trait ExplicitReturnTargetResolver {
    fn resolve_explicit_return_target(&self, target: &NormExpr) -> ExplicitReturnTargetResolution;
}

/// The resolver of a binder that has none; the binder never consults it.
pub struct NoExplicitResolver;

impl ExplicitReturnTargetResolver for NoExplicitResolver {
    fn resolve_explicit_return_target(&self, target: &NormExpr) -> (r: ExplicitReturnTargetResolution)
        ensures
            r == ExplicitReturnTargetResolution::Unsupported,
    {
        ExplicitReturnTargetResolution::Unsupported
    }
}

#[derive(Debug, PartialEq, Eq)]
pub enum UnresolvedReturnTargetForm {
    ImplicitNearest,
    Explicit(NormExpr),
}

/// A return event as written, not bound to a frame.
#[derive(Debug, PartialEq, Eq)]
pub struct UnboundReturnEvent {
    pub value: NormExpr,
    pub target: UnresolvedReturnTargetForm,
    pub origin: NormOrigin,
}

/// The frame a return event is bound to.
#[derive(Clone, Copy, Debug, PartialEq, Eq, Structural)]
pub enum ResolvedReturnTarget {
    ActiveFrame(ReturnFrameId),
    DiagnosticTarget,
}

/// A return event bound to its frame.
#[derive(Debug, PartialEq, Eq)]
pub struct BoundReturnEvent {
    pub value: NormExpr,
    pub unresolved_target: UnresolvedReturnTargetForm,
    pub resolved_target: ResolvedReturnTarget,
    pub origin: NormOrigin,
}

/// Why a return event is preserved unbound.
#[derive(Clone, Copy, Debug, PartialEq, Eq, Structural)]
pub enum PreservedReturnReason {
    UnmaterializedClosureLiteral,
    /// The expression has not been resolved to a callable self identity
    /// yet; spelling equality is no fallback.
    SemanticTargetResolutionRequired,
}

#[derive(Debug, PartialEq, Eq)]
pub struct PreservedUnboundReturnEvent {
    pub event: UnboundReturnEvent,
    pub reason: PreservedReturnReason,
}

/// What one binding pass found.
#[derive(Debug, PartialEq, Eq)]
pub struct ReturnTargetBindingReport {
    pub frames: Vec<ReturnTargetFrame>,
    pub bound_events: Vec<BoundReturnEvent>,
    pub preserved_unbound_events: Vec<PreservedUnboundReturnEvent>,
    pub diagnostics: Vec<Diagnostic>,
}

// ---------------------------------------------------------------------------
// Sequences extended element by element under a relation.
/// `xs` and `ys` have one length and are related position by position.
pub open spec fn pairwise<A, B>(xs: Seq<A>, ys: Seq<B>, rel: spec_fn(A, B) -> bool) -> bool {
    &&& xs.len() == ys.len()
    &&& forall|i: int| 0 <= i < xs.len() ==> #[trigger] rel(xs[i], ys[i])
}

/// `new` is `old` followed by elements related, in order, to `added`.
pub open spec fn extended_by<A, B>(old: Seq<A>, new: Seq<A>, added: Seq<B>, rel: spec_fn(A, B) -> bool) -> bool {
    &&& old.len() <= new.len()
    &&& new.subrange(0, old.len() as int) == old
    &&& pairwise(new.subrange(old.len() as int, new.len() as int), added, rel)
}

proof fn lemma_extended_by_none<A, B>(a: Seq<A>, rel: spec_fn(A, B) -> bool)
    ensures
        extended_by(a, a, Seq::<B>::empty(), rel),
{
    assert(a.subrange(0, a.len() as int) == a);
}

proof fn lemma_extended_by_push<A, B>(a: Seq<A>, v: A, w: B, rel: spec_fn(A, B) -> bool)
    requires
        rel(v, w),
    ensures
        extended_by(a, a.push(v), seq![w], rel),
{
    assert(a.push(v).subrange(0, a.len() as int) == a);
    assert(a.push(v).subrange(a.len() as int, a.len() + 1int) == seq![v]);
}

proof fn lemma_extended_by_chain<A, B>(
    a: Seq<A>,
    b: Seq<A>,
    c: Seq<A>,
    x: Seq<B>,
    y: Seq<B>,
    rel: spec_fn(A, B) -> bool,
)
    requires
        extended_by(a, b, x, rel),
        extended_by(b, c, y, rel),
    ensures
        extended_by(a, c, x + y, rel),
{
    assert(c.subrange(0, a.len() as int) == b.subrange(0, a.len() as int));
    let tail = c.subrange(a.len() as int, c.len() as int);
    let first = b.subrange(a.len() as int, b.len() as int);
    let second = c.subrange(b.len() as int, c.len() as int);
    assert(tail == first + second);
    assert forall|i: int| 0 <= i < tail.len() implies #[trigger] rel(tail[i], (x + y)[i]) by {
        if i < first.len() {
            assert(tail[i] == first[i]);
            assert((x + y)[i] == x[i]);
        } else {
            assert(tail[i] == second[i - first.len()]);
            assert((x + y)[i] == y[i - first.len()]);
        }
    }
}

// ---------------------------------------------------------------------------
// Specification of the pass.
/// Return events inside closure literals reached from `e`, in written order.
/// Closure literals are not materialized here, so their returns are
/// collected, not bound; a collected return's own value is not searched.
pub open spec fn literal_return_events(e: NormExpr) -> Seq<NormReturnEvent>
    decreases e, 0int,
{
    match e {
        NormExpr::PolicyLet { operand, .. } => literal_return_events(*operand),
        NormExpr::Call { source, target, .. } => element_return_events_upto(
            source,
            source.elements@.len() as int,
        ) + literal_return_events(*target),
        NormExpr::Product(p) => element_return_events_upto(p, p.elements@.len() as int),
        NormExpr::Closure(c) => closure_return_events(*c),
        _ => Seq::empty(),
    }
}

/// Return events in closure literals of the first `n` elements of `p`.
pub open spec fn element_return_events_upto(p: NormProduct, n: int) -> Seq<NormReturnEvent>
    decreases p, n,
{
    if n <= 0 || n > p.elements@.len() {
        Seq::empty()
    } else {
        element_return_events_upto(p, n - 1) + match p.elements@[n - 1] {
            NormProductElem::Expr(e) => literal_return_events(e),
            NormProductElem::Unit { .. } => Seq::empty(),
        }
    }
}

/// Every return event written in the user body of a closure.
pub open spec fn closure_return_events(c: NormClosure) -> Seq<NormReturnEvent>
    decreases c, 0int,
{
    match c.body {
        Some(p) => program_return_events_upto(p, p.forms@.len() as int),
        None => Seq::empty(),
    }
}

/// Every return event written in the first `n` forms of `p`.
pub open spec fn program_return_events_upto(p: NormProgram, n: int) -> Seq<NormReturnEvent>
    decreases p, n,
{
    if n <= 0 || n > p.forms@.len() {
        Seq::empty()
    } else {
        program_return_events_upto(p, n - 1) + form_return_events(p.forms@[n - 1])
    }
}

pub open spec fn form_return_events(f: NormForm) -> Seq<NormReturnEvent>
    decreases f, 0int,
{
    match f {
        NormForm::ReturnEvent(ev) => seq![ev],
        NormForm::Let(d) => decl_return_events(d),
        NormForm::Alias(d) => decl_return_events(d),
        NormForm::Expr(e) => literal_return_events(e),
        NormForm::TailValue(e) => literal_return_events(e),
        NormForm::Error(_) => Seq::empty(),
    }
}

/// Return events in closure literals of a `let` initializer.
pub open spec fn decl_return_events(d: NormDecl) -> Seq<NormReturnEvent>
    decreases d, 0int,
{
    match d {
        NormDecl::Let { slot } => match slot.initializer {
            Some(init) => literal_return_events(*init),
            None => Seq::empty(),
        },
        _ => Seq::empty(),
    }
}

/// The frame identity and self identity of each active frame, innermost
/// last: all that binding reads of a frame.
pub open spec fn frame_keys(frames: Seq<ReturnTargetFrame>) -> Seq<(ReturnFrameId, Option<ReturnSelfIdentity>)> {
    frames.map_values(|f: ReturnTargetFrame| (f.frame_id, f.self_identity))
}

/// The frames among the first `n` whose self identity is `owner`, innermost
/// first.
pub open spec fn self_identity_matches_upto(
    keys: Seq<(ReturnFrameId, Option<ReturnSelfIdentity>)>,
    owner: NormSemanticOwnerId,
    n: int,
) -> Seq<ReturnFrameId>
    decreases n,
{
    if n <= 0 || n > keys.len() {
        Seq::empty()
    } else {
        let here = if keys[n - 1].1 matches Some(identity) && identity.callable_owner == owner {
            seq![keys[n - 1].0]
        } else {
            Seq::empty()
        };
        here + self_identity_matches_upto(keys, owner, n - 1)
    }
}

pub open spec fn self_identity_matches(
    keys: Seq<(ReturnFrameId, Option<ReturnSelfIdentity>)>,
    owner: NormSemanticOwnerId,
) -> Seq<ReturnFrameId> {
    self_identity_matches_upto(keys, owner, keys.len() as int)
}

/// The frame an explicit target resolution selects, or the error it is.
pub open spec fn explicit_resolution_spec(
    keys: Seq<(ReturnFrameId, Option<ReturnSelfIdentity>)>,
    resolution: ExplicitReturnTargetResolution,
) -> Result<ReturnFrameId, DiagnosticKind> {
    match resolution {
        ExplicitReturnTargetResolution::CallableSelf(owner) => {
            let found = self_identity_matches(keys, owner);
            if found.len() == 1 {
                Ok(found[0])
            } else if found.len() == 0 {
                Err(DiagnosticKind::ReturnTargetNotActive)
            } else {
                Err(DiagnosticKind::AmbiguousReturnTarget)
            }
        },
        ExplicitReturnTargetResolution::NotActive => Err(DiagnosticKind::ReturnTargetNotActive),
        ExplicitReturnTargetResolution::Unsupported => Err(DiagnosticKind::UnsupportedReturnTargetForm),
    }
}

/// What binding adds to a report: bound events with their frames,
/// preserved events with their reasons, and diagnostics with their origins.
pub type ReturnBindingDelta = (
    Seq<(NormReturnEvent, ReturnFrameId)>,
    Seq<(NormReturnEvent, PreservedReturnReason)>,
    Seq<(DiagnosticKind, NormOrigin)>,
);

pub open spec fn no_delta() -> ReturnBindingDelta {
    (Seq::empty(), Seq::empty(), Seq::empty())
}

pub open spec fn delta_then(a: ReturnBindingDelta, b: ReturnBindingDelta) -> ReturnBindingDelta {
    (a.0 + b.0, a.1 + b.1, a.2 + b.2)
}

/// Literal returns are preserved unbound.
pub open spec fn preserved_literals(events: Seq<NormReturnEvent>) -> ReturnBindingDelta {
    (
        Seq::empty(),
        events.map_values(|ev: NormReturnEvent| (ev, PreservedReturnReason::UnmaterializedClosureLiteral)),
        Seq::empty(),
    )
}

/// The outcome of one return event of the visited program itself, with
/// `resolution` the resolver's answer for an explicit target when there is
/// a resolver.
pub open spec fn direct_return_delta(
    keys: Seq<(ReturnFrameId, Option<ReturnSelfIdentity>)>,
    ev: NormReturnEvent,
    has_resolver: bool,
    resolution: ExplicitReturnTargetResolution,
) -> ReturnBindingDelta {
    match ev.target {
        NormReturnTargetSyntax::ImplicitNearest => if keys.len() > 0 {
            (seq![(ev, keys.last().0)], Seq::empty(), Seq::empty())
        } else {
            (Seq::empty(), Seq::empty(), seq![(DiagnosticKind::ReturnOutsideReturnableContext, ev.origin)])
        },
        NormReturnTargetSyntax::Explicit(target) => if !has_resolver {
            (Seq::empty(), seq![(ev, PreservedReturnReason::SemanticTargetResolutionRequired)], Seq::empty())
        } else {
            match explicit_resolution_spec(keys, resolution) {
                Ok(frame) => (seq![(ev, frame)], Seq::empty(), Seq::empty()),
                Err(kind) => (Seq::empty(), Seq::empty(), seq![(kind, expr_origin_spec(target))]),
            }
        },
    }
}

/// Whether visiting `f` consults the resolver.
pub open spec fn consults_resolver(f: NormForm, has_resolver: bool) -> bool {
    has_resolver && (f matches NormForm::ReturnEvent(ev) && ev.target is Explicit)
}

/// How many of the first `n` forms of `p` consult the resolver.
pub open spec fn resolver_calls_upto(p: NormProgram, n: int, has_resolver: bool) -> nat
    decreases n,
{
    if n <= 0 || n > p.forms@.len() {
        0
    } else {
        resolver_calls_upto(p, n - 1, has_resolver) + if consults_resolver(p.forms@[n - 1], has_resolver) {
            1nat
        } else {
            0nat
        }
    }
}

/// The explicit targets among the first `n` forms of `p` that the resolver
/// is asked about, in program order.
pub open spec fn explicit_targets_upto(p: NormProgram, n: int, has_resolver: bool) -> Seq<NormExpr>
    decreases n,
{
    if n <= 0 || n > p.forms@.len() {
        Seq::empty()
    } else {
        explicit_targets_upto(p, n - 1, has_resolver) + if consults_resolver(p.forms@[n - 1], has_resolver) {
            seq![p.forms@[n - 1]->ReturnEvent_0.target->Explicit_0]
        } else {
            Seq::empty()
        }
    }
}

/// `answers[k]` is a result of asking `resolver` about `targets[k]`, for
/// every `k`.
pub open spec fn resolver_answered<R: ExplicitReturnTargetResolver>(
    resolver: &R,
    targets: Seq<NormExpr>,
    answers: Seq<ExplicitReturnTargetResolution>,
) -> bool {
    &&& answers.len() == targets.len()
    &&& forall|k: int|
        0 <= k < answers.len() ==> #[trigger] call_ensures(
            R::resolve_explicit_return_target,
            (resolver, &targets[k]),
            answers[k],
        )
}

/// What visiting one form adds.
pub open spec fn form_delta(
    keys: Seq<(ReturnFrameId, Option<ReturnSelfIdentity>)>,
    f: NormForm,
    has_resolver: bool,
    resolution: ExplicitReturnTargetResolution,
) -> ReturnBindingDelta {
    match f {
        NormForm::ReturnEvent(ev) => delta_then(
            preserved_literals(literal_return_events(ev.value)),
            direct_return_delta(keys, ev, has_resolver, resolution),
        ),
        NormForm::Let(d) => preserved_literals(decl_return_events(d)),
        NormForm::Alias(d) => preserved_literals(decl_return_events(d)),
        NormForm::Expr(e) => preserved_literals(literal_return_events(e)),
        NormForm::TailValue(e) => preserved_literals(literal_return_events(e)),
        NormForm::Error(_) => no_delta(),
    }
}

/// What visiting the first `n` forms of `p` adds, the resolver having
/// answered `answers` in order.
pub open spec fn program_delta_upto(
    keys: Seq<(ReturnFrameId, Option<ReturnSelfIdentity>)>,
    p: NormProgram,
    n: int,
    has_resolver: bool,
    answers: Seq<ExplicitReturnTargetResolution>,
) -> ReturnBindingDelta
    decreases n,
{
    if n <= 0 || n > p.forms@.len() {
        no_delta()
    } else {
        delta_then(
            program_delta_upto(keys, p, n - 1, has_resolver, answers),
            form_delta(
                keys,
                p.forms@[n - 1],
                has_resolver,
                answers[resolver_calls_upto(p, n - 1, has_resolver) as int],
            ),
        )
    }
}

pub open spec fn program_delta(
    keys: Seq<(ReturnFrameId, Option<ReturnSelfIdentity>)>,
    p: NormProgram,
    has_resolver: bool,
    answers: Seq<ExplicitReturnTargetResolution>,
) -> ReturnBindingDelta {
    program_delta_upto(keys, p, p.forms@.len() as int, has_resolver, answers)
}

// Relations between report entries and the events they come from.
pub open spec fn target_form_matches(u: UnresolvedReturnTargetForm, t: NormReturnTargetSyntax) -> bool {
    match t {
        NormReturnTargetSyntax::ImplicitNearest => u is ImplicitNearest,
        NormReturnTargetSyntax::Explicit(x) => u matches UnresolvedReturnTargetForm::Explicit(y) && same_expr(x, y),
    }
}

pub open spec fn unbound_matches(u: UnboundReturnEvent, ev: NormReturnEvent) -> bool {
    &&& same_expr(ev.value, u.value)
    &&& target_form_matches(u.target, ev.target)
    &&& u.origin == ev.origin
}

pub open spec fn unbound_rel() -> spec_fn(UnboundReturnEvent, NormReturnEvent) -> bool {
    |u: UnboundReturnEvent, ev: NormReturnEvent| unbound_matches(u, ev)
}

pub open spec fn bound_rel() -> spec_fn(BoundReturnEvent, (NormReturnEvent, ReturnFrameId)) -> bool {
    |b: BoundReturnEvent, e: (NormReturnEvent, ReturnFrameId)|
        same_expr(e.0.value, b.value) && target_form_matches(b.unresolved_target, e.0.target)
            && b.resolved_target == ResolvedReturnTarget::ActiveFrame(e.1) && b.origin == e.0.origin
}

pub open spec fn preserved_rel() -> spec_fn(PreservedUnboundReturnEvent, (NormReturnEvent, PreservedReturnReason)) -> bool {
    |p: PreservedUnboundReturnEvent, e: (NormReturnEvent, PreservedReturnReason)|
        unbound_matches(p.event, e.0) && p.reason == e.1
}

/// `d` is the binding diagnostic `kind` raised at `origin`.
pub open spec fn diagnostic_matches(d: Diagnostic, kind: DiagnosticKind, origin: NormOrigin) -> bool {
    &&& d.kind == kind
    &&& d.provenance matches Some(p)
    &&& p.description@ == "return target binding"@
    &&& p.origin == Some(origin)
}

pub open spec fn diagnostic_rel() -> spec_fn(Diagnostic, (DiagnosticKind, NormOrigin)) -> bool {
    |d: Diagnostic, e: (DiagnosticKind, NormOrigin)| diagnostic_matches(d, e.0, e.1)
}

// The frame entered for a closure.
pub open spec fn binding_slot_name_spec(slot: NormBindingSlot) -> Option<String> {
    match slot.value_pattern {
        NormPattern::Binder { name, .. } => Some(name),
        NormPattern::OperatorBinder { spelling, .. } => Some(spelling),
        _ => None,
    }
}

pub open spec fn pattern_display_name_spec(pattern: NormPattern) -> Option<String> {
    match pattern {
        NormPattern::Binder { name, .. } => Some(name),
        NormPattern::OperatorBinder { spelling, .. } => Some(spelling),
        _ => None,
    }
}

/// The self identity of a closure: present whenever the closure has a
/// semantic owner, written binder or not.
pub open spec fn self_identity_spec(closure: NormClosure) -> Option<ReturnSelfIdentity> {
    match closure.semantic_owner {
        None => None,
        Some(owner) => Some(
            ReturnSelfIdentity {
                callable_owner: owner,
                display_name: match closure.head {
                    Some(head) => match head.written_self {
                        Some(NormPatternElem::BindingSlot(slot)) => binding_slot_name_spec(slot),
                        Some(NormPatternElem::Pattern(pattern)) => pattern_display_name_spec(pattern),
                        _ => None,
                    },
                    None => None,
                },
                origin: closure.origin,
            },
        ),
    }
}

/// `r` is the return slot of `closure`.
pub open spec fn slot_ref_of_closure(r: ReturnSlotRef, closure: NormClosure) -> bool {
    &&& r.identity == match closure.semantic_owner {
        Some(owner) => Some(ReturnSlotIdentity { callable_owner: owner }),
        None => None,
    }
    &&& match closure.head {
        None => r.binding_slot is None && r.name is None && r.origin == closure.origin,
        Some(head) => match head.returns {
            None => r.binding_slot is None && r.name is None && r.origin == head.origin,
            Some(slot) => r.binding_slot matches Some(kept) && same_slot(slot, kept) && r.name
                == binding_slot_name_spec(slot) && r.origin == slot.origin,
        },
    }
}

/// `f` is the frame entered for `closure` under `owner` with identity `id`.
pub open spec fn frame_of_closure(f: ReturnTargetFrame, closure: NormClosure, owner: ReturnFrameOwner, id: usize) -> bool {
    &&& f.frame_id == ReturnFrameId(id)
    &&& slot_ref_of_closure(f.return_slot, closure)
    &&& f.owner == owner
    &&& f.self_identity == self_identity_spec(closure)
    &&& f.callable_self_owner == closure.semantic_owner
    &&& f.origin == closure.origin
}

/// `a` and `b` are the same frame, the return binding slot compared as
/// syntax.
pub open spec fn same_frame(a: ReturnTargetFrame, b: ReturnTargetFrame) -> bool {
    &&& a.frame_id == b.frame_id
    &&& a.return_slot.identity == b.return_slot.identity
    &&& a.return_slot.name == b.return_slot.name
    &&& a.return_slot.origin == b.return_slot.origin
    &&& match a.return_slot.binding_slot {
        None => b.return_slot.binding_slot is None,
        Some(x) => b.return_slot.binding_slot matches Some(y) && same_slot(x, y),
    }
    &&& a.owner == b.owner
    &&& a.self_identity == b.self_identity
    &&& a.callable_self_owner == b.callable_self_owner
    &&& a.origin == b.origin
}

} // verus!

verus! {

/// The three event sequences of `new` are those of `old` extended by
/// `delta`.
pub open spec fn events_extended(
    old: ReturnTargetBindingReport,
    new: ReturnTargetBindingReport,
    delta: ReturnBindingDelta,
) -> bool {
    &&& extended_by(old.bound_events@, new.bound_events@, delta.0, bound_rel())
    &&& extended_by(old.preserved_unbound_events@, new.preserved_unbound_events@, delta.1, preserved_rel())
    &&& extended_by(old.diagnostics@, new.diagnostics@, delta.2, diagnostic_rel())
}

/// The three event sequences of `r` are exactly those described by `delta`.
pub open spec fn events_described(r: ReturnTargetBindingReport, delta: ReturnBindingDelta) -> bool {
    &&& pairwise(r.bound_events@, delta.0, bound_rel())
    &&& pairwise(r.preserved_unbound_events@, delta.1, preserved_rel())
    &&& pairwise(r.diagnostics@, delta.2, diagnostic_rel())
}

proof fn lemma_events_from_empty(old: ReturnTargetBindingReport, new: ReturnTargetBindingReport, delta: ReturnBindingDelta)
    requires
        old.bound_events@.len() == 0,
        old.preserved_unbound_events@.len() == 0,
        old.diagnostics@.len() == 0,
        events_extended(old, new, delta),
    ensures
        events_described(new, delta),
{
    assert(new.bound_events@.subrange(0, new.bound_events@.len() as int) == new.bound_events@);
    assert(new.preserved_unbound_events@.subrange(0, new.preserved_unbound_events@.len() as int)
        == new.preserved_unbound_events@);
    assert(new.diagnostics@.subrange(0, new.diagnostics@.len() as int) == new.diagnostics@);
}

proof fn lemma_preserved_literals_concat(a: Seq<NormReturnEvent>, b: Seq<NormReturnEvent>)
    ensures
        delta_then(preserved_literals(a), preserved_literals(b)) == preserved_literals(a + b),
{
    let f = |ev: NormReturnEvent| (ev, PreservedReturnReason::UnmaterializedClosureLiteral);
    assert((a + b).map_values(f) =~= a.map_values(f) + b.map_values(f));
    assert(Seq::<(NormReturnEvent, ReturnFrameId)>::empty() + Seq::empty() =~= Seq::empty());
    assert(Seq::<(DiagnosticKind, NormOrigin)>::empty() + Seq::empty() =~= Seq::empty());
}

proof fn lemma_events_extended_chain(
    a: ReturnTargetBindingReport,
    b: ReturnTargetBindingReport,
    c: ReturnTargetBindingReport,
    x: ReturnBindingDelta,
    y: ReturnBindingDelta,
)
    requires
        events_extended(a, b, x),
        events_extended(b, c, y),
    ensures
        events_extended(a, c, delta_then(x, y)),
{
    lemma_extended_by_chain(a.bound_events@, b.bound_events@, c.bound_events@, x.0, y.0, bound_rel());
    lemma_extended_by_chain(
        a.preserved_unbound_events@,
        b.preserved_unbound_events@,
        c.preserved_unbound_events@,
        x.1,
        y.1,
        preserved_rel(),
    );
    lemma_extended_by_chain(a.diagnostics@, b.diagnostics@, c.diagnostics@, x.2, y.2, diagnostic_rel());
}

proof fn lemma_events_extended_none(a: ReturnTargetBindingReport)
    ensures
        events_extended(a, a, no_delta()),
{
    lemma_extended_by_none(a.bound_events@, bound_rel());
    lemma_extended_by_none(a.preserved_unbound_events@, preserved_rel());
    lemma_extended_by_none(a.diagnostics@, diagnostic_rel());
}

/// The delta of a program prefix reads only the answers its own forms
/// consumed.
proof fn lemma_program_delta_answers(
    keys: Seq<(ReturnFrameId, Option<ReturnSelfIdentity>)>,
    p: NormProgram,
    n: int,
    has_resolver: bool,
    a: Seq<ExplicitReturnTargetResolution>,
    b: Seq<ExplicitReturnTargetResolution>,
)
    requires
        forall|k: int| 0 <= k < resolver_calls_upto(p, n, has_resolver) ==> a[k] == b[k],
    ensures
        program_delta_upto(keys, p, n, has_resolver, a) == program_delta_upto(keys, p, n, has_resolver, b),
    decreases n,
{
    if n <= 0 || n > p.forms@.len() {
    } else {
        lemma_program_delta_answers(keys, p, n - 1, has_resolver, a, b);
        let k = resolver_calls_upto(p, n - 1, has_resolver) as int;
        if consults_resolver(p.forms@[n - 1], has_resolver) {
            assert(a[k] == b[k]);
        } else {
            assert(form_delta(keys, p.forms@[n - 1], has_resolver, a[k]) == form_delta(
                keys,
                p.forms@[n - 1],
                has_resolver,
                b[k],
            ));
        }
    }
}

fn copy_name(name: &Option<String>) -> (r: Option<String>)
    ensures
        r == *name,
{
    match name {
        Some(n) => Some(n.clone()),
        None => None,
    }
}

impl ReturnFrameOwner {
    pub fn copied(&self) -> (r: ReturnFrameOwner)
        ensures
            r == *self,
    {
        match self {
            ReturnFrameOwner::SourceCallable { symbol_id, name } => ReturnFrameOwner::SourceCallable {
                symbol_id: *symbol_id,
                name: copy_name(name),
            },
            ReturnFrameOwner::AnonymousClosure => ReturnFrameOwner::AnonymousClosure,
            ReturnFrameOwner::Synthetic { description } => ReturnFrameOwner::Synthetic {
                description: description.clone(),
            },
        }
    }
}

impl ReturnSelfIdentity {
    pub fn copied(&self) -> (r: ReturnSelfIdentity)
        ensures
            r == *self,
    {
        ReturnSelfIdentity {
            callable_owner: self.callable_owner,
            display_name: copy_name(&self.display_name),
            origin: self.origin,
        }
    }
}

impl ReturnTargetFrame {
    /// A copy of the same frame.
    pub fn copied(&self) -> (r: ReturnTargetFrame)
        ensures
            same_frame(*self, r),
    {
        let binding_slot = match &self.return_slot.binding_slot {
            Some(slot) => Some(slot.copied()),
            None => None,
        };
        let self_identity = match &self.self_identity {
            Some(identity) => Some(identity.copied()),
            None => None,
        };
        ReturnTargetFrame {
            frame_id: self.frame_id,
            return_slot: ReturnSlotRef {
                identity: self.return_slot.identity,
                binding_slot,
                name: copy_name(&self.return_slot.name),
                origin: self.return_slot.origin,
            },
            owner: self.owner.copied(),
            self_identity,
            callable_self_owner: self.callable_self_owner,
            origin: self.origin,
        }
    }
}

impl ReturnTargetStack {
    /// The active frames, innermost last.
    pub closed spec fn frames(&self) -> Seq<ReturnTargetFrame> {
        self.frames@
    }

    /// The identity the next pushed frame gets.
    pub closed spec fn next_frame_id(&self) -> usize {
        self.next_id
    }

    pub fn new() -> (r: ReturnTargetStack)
        ensures
            r.frames().len() == 0,
            r.next_frame_id() == 0,
    {
        ReturnTargetStack { frames: Vec::new(), next_id: 0 }
    }

    /// Push a frame with a fresh identity and return a copy of it.
    pub fn push_frame(
        &mut self,
        owner: ReturnFrameOwner,
        return_slot: ReturnSlotRef,
        self_identity: Option<ReturnSelfIdentity>,
        callable_self_owner: Option<NormSemanticOwnerId>,
        origin: NormOrigin,
    ) -> (r: ReturnTargetFrame)
        requires
            old(self).next_frame_id() < usize::MAX,
        ensures
            final(self).next_frame_id() == old(self).next_frame_id() + 1,
            r == (ReturnTargetFrame {
                frame_id: ReturnFrameId(old(self).next_frame_id()),
                return_slot,
                owner,
                self_identity,
                callable_self_owner,
                origin,
            }),
            final(self).frames().len() == old(self).frames().len() + 1,
            final(self).frames().drop_last() == old(self).frames(),
            same_frame(r, final(self).frames().last()),
    {
        let frame = ReturnTargetFrame {
            frame_id: ReturnFrameId(self.next_id),
            return_slot,
            owner,
            self_identity,
            callable_self_owner,
            origin,
        };
        self.next_id = self.next_id + 1;
        self.frames.push(frame.copied());
        frame
    }

    /// Remove and return the innermost frame.
    pub fn pop_frame(&mut self) -> (r: Option<ReturnTargetFrame>)
        ensures
            final(self).next_frame_id() == old(self).next_frame_id(),
            old(self).frames().len() == 0 ==> r is None && final(self).frames() == old(self).frames(),
            old(self).frames().len() > 0 ==> r == Some(old(self).frames().last()) && final(self).frames() == old(
                self,
            ).frames().drop_last(),
    {
        self.frames.pop()
    }

    /// The innermost frame.
    pub fn nearest(&self) -> (r: Option<&ReturnTargetFrame>)
        ensures
            self.frames().len() == 0 ==> r is None,
            self.frames().len() > 0 ==> (r matches Some(f) && *f == self.frames().last()),
    {
        let n = self.frames.len();
        if n == 0 {
            None
        } else {
            Some(&self.frames[n - 1])
        }
    }

    /// The active frames whose self identity is `callable_owner`,
    /// innermost first.
    pub fn find_self_identity(&self, callable_owner: NormSemanticOwnerId) -> (r: Vec<&ReturnTargetFrame>)
        ensures
            r@.map_values(|f: &ReturnTargetFrame| f.frame_id) == self_identity_matches(
                frame_keys(self.frames()),
                callable_owner,
            ),
            forall|i: int|
                0 <= i < r@.len() ==> (#[trigger] r@[i].self_identity matches Some(identity)
                    && identity.callable_owner == callable_owner),
    {
        let ghost keys = frame_keys(self.frames());
        let mut found: Vec<&ReturnTargetFrame> = Vec::new();
        let mut i = self.frames.len();
        while i > 0
            invariant
                i <= self.frames@.len(),
                keys == frame_keys(self.frames()),
                found@.map_values(|f: &ReturnTargetFrame| f.frame_id) + self_identity_matches_upto(
                    keys,
                    callable_owner,
                    i as int,
                ) == self_identity_matches(keys, callable_owner),
                forall|k: int|
                    0 <= k < found@.len() ==> (#[trigger] found@[k].self_identity matches Some(identity)
                        && identity.callable_owner == callable_owner),
            decreases i,
        {
            let ghost before = found@;
            let frame = &self.frames[i - 1];
            let hit = match &frame.self_identity {
                Some(identity) => identity.callable_owner == callable_owner,
                None => false,
            };
            assert(keys[i - 1] == (frame.frame_id, frame.self_identity));
            if hit {
                found.push(frame);
                assert(found@.map_values(|f: &ReturnTargetFrame| f.frame_id) =~= before.map_values(
                    |f: &ReturnTargetFrame| f.frame_id,
                ).push(frame.frame_id));
                assert(self_identity_matches_upto(keys, callable_owner, i as int) == seq![frame.frame_id]
                    + self_identity_matches_upto(keys, callable_owner, i - 1));
            } else {
                assert(self_identity_matches_upto(keys, callable_owner, i as int) =~= self_identity_matches_upto(
                    keys,
                    callable_owner,
                    i - 1,
                ));
            }
            i = i - 1;
        }
        assert(self_identity_matches_upto(keys, callable_owner, 0) =~= Seq::<ReturnFrameId>::empty());
        assert(found@.map_values(|f: &ReturnTargetFrame| f.frame_id) + Seq::<ReturnFrameId>::empty()
            =~= found@.map_values(|f: &ReturnTargetFrame| f.frame_id));
        found
    }
}

impl Default for ReturnTargetStack {
    fn default() -> (r: ReturnTargetStack)
        ensures
            r.frames().len() == 0,
            r.next_frame_id() == 0,
    {
        ReturnTargetStack::new()
    }
}

impl ReturnTargetBindingReport {
    /// A report with nothing in it.
    pub fn empty() -> (r: ReturnTargetBindingReport)
        ensures
            r.frames@.len() == 0,
            r.bound_events@.len() == 0,
            r.preserved_unbound_events@.len() == 0,
            r.diagnostics@.len() == 0,
    {
        ReturnTargetBindingReport {
            frames: Vec::new(),
            bound_events: Vec::new(),
            preserved_unbound_events: Vec::new(),
            diagnostics: Vec::new(),
        }
    }
}

impl Default for ReturnTargetBindingReport {
    fn default() -> (r: ReturnTargetBindingReport)
        ensures
            r.frames@.len() == 0,
            r.bound_events@.len() == 0,
            r.preserved_unbound_events@.len() == 0,
            r.diagnostics@.len() == 0,
    {
        ReturnTargetBindingReport::empty()
    }
}

fn return_diagnostic(kind: DiagnosticKind, origin: NormOrigin) -> (r: Diagnostic)
    ensures
        diagnostic_matches(r, kind, origin),
{
    Diagnostic::hard_error(kind, Some(Provenance::from_norm_origin("return target binding", origin)))
}

/// Bind an explicit target from the resolver's answer; `None` when there is
/// no resolver, so the event stays preserved.
pub fn resolve_explicit_return_target(
    stack: &ReturnTargetStack,
    target: &NormExpr,
    resolution: Option<ExplicitReturnTargetResolution>,
) -> (r: Result<Option<ResolvedReturnTarget>, Diagnostic>)
    ensures
        match resolution {
            None => r == Ok::<Option<ResolvedReturnTarget>, Diagnostic>(None),
            Some(answer) => match explicit_resolution_spec(frame_keys(stack.frames()), answer) {
                Ok(frame) => r == Ok::<Option<ResolvedReturnTarget>, Diagnostic>(
                    Some(ResolvedReturnTarget::ActiveFrame(frame)),
                ),
                Err(kind) => r matches Err(d) && diagnostic_matches(d, kind, expr_origin_spec(*target)),
            },
        },
{
    let answer = match resolution {
        Some(answer) => answer,
        None => {
            return Ok(None);
        },
    };
    match answer {
        ExplicitReturnTargetResolution::CallableSelf(callable_owner) => {
            let matches = stack.find_self_identity(callable_owner);
            proof {
                assert(matches@.map_values(|f: &ReturnTargetFrame| f.frame_id).len() == matches@.len());
            }
            if matches.len() == 1 {
                proof {
                    assert(matches@.map_values(|f: &ReturnTargetFrame| f.frame_id)[0] == matches@[0].frame_id);
                }
                Ok(Some(ResolvedReturnTarget::ActiveFrame(matches[0].frame_id)))
            } else if matches.len() == 0 {
                Err(return_diagnostic(DiagnosticKind::ReturnTargetNotActive, target.origin()))
            } else {
                Err(return_diagnostic(DiagnosticKind::AmbiguousReturnTarget, target.origin()))
            }
        },
        ExplicitReturnTargetResolution::NotActive => Err(
            return_diagnostic(DiagnosticKind::ReturnTargetNotActive, target.origin()),
        ),
        ExplicitReturnTargetResolution::Unsupported => Err(
            return_diagnostic(DiagnosticKind::UnsupportedReturnTargetForm, target.origin()),
        ),
    }
}

/// Bind a return event: an implicit target goes to the nearest active
/// frame; an explicit one is bound from the resolver's answer.
pub fn resolve_return_target(
    stack: &ReturnTargetStack,
    return_event: &NormReturnEvent,
    resolution: Option<ExplicitReturnTargetResolution>,
) -> (r: Result<Option<ResolvedReturnTarget>, Diagnostic>)
    ensures
        match return_event.target {
            NormReturnTargetSyntax::ImplicitNearest => if stack.frames().len() > 0 {
                r == Ok::<Option<ResolvedReturnTarget>, Diagnostic>(
                    Some(ResolvedReturnTarget::ActiveFrame(stack.frames().last().frame_id)),
                )
            } else {
                r matches Err(d) && diagnostic_matches(
                    d,
                    DiagnosticKind::ReturnOutsideReturnableContext,
                    return_event.origin,
                )
            },
            NormReturnTargetSyntax::Explicit(target) => match resolution {
                None => r == Ok::<Option<ResolvedReturnTarget>, Diagnostic>(None),
                Some(answer) => match explicit_resolution_spec(frame_keys(stack.frames()), answer) {
                    Ok(frame) => r == Ok::<Option<ResolvedReturnTarget>, Diagnostic>(
                        Some(ResolvedReturnTarget::ActiveFrame(frame)),
                    ),
                    Err(kind) => r matches Err(d) && diagnostic_matches(d, kind, expr_origin_spec(target)),
                },
            },
        },
{
    match &return_event.target {
        NormReturnTargetSyntax::ImplicitNearest => match stack.nearest() {
            Some(frame) => Ok(Some(ResolvedReturnTarget::ActiveFrame(frame.frame_id))),
            None => Err(return_diagnostic(DiagnosticKind::ReturnOutsideReturnableContext, return_event.origin)),
        },
        NormReturnTargetSyntax::Explicit(target) => resolve_explicit_return_target(stack, target, resolution),
    }
}

fn binding_slot_name(slot: &NormBindingSlot) -> (r: Option<String>)
    ensures
        r == binding_slot_name_spec(*slot),
{
    match &slot.value_pattern {
        NormPattern::Binder { name, .. } => Some(name.clone()),
        NormPattern::OperatorBinder { spelling, .. } => Some(spelling.clone()),
        _ => None,
    }
}

fn pattern_display_name(pattern: &NormPattern) -> (r: Option<String>)
    ensures
        r == pattern_display_name_spec(*pattern),
{
    match pattern {
        NormPattern::Binder { name, .. } => Some(name.clone()),
        NormPattern::OperatorBinder { spelling, .. } => Some(spelling.clone()),
        _ => None,
    }
}

fn return_slot_ref(closure: &NormClosure) -> (r: ReturnSlotRef)
    ensures
        slot_ref_of_closure(r, *closure),
{
    let identity = match closure.semantic_owner {
        Some(owner) => Some(ReturnSlotIdentity { callable_owner: owner }),
        None => None,
    };
    let head = match &closure.head {
        Some(head) => head,
        None => {
            return ReturnSlotRef { identity, binding_slot: None, name: None, origin: closure.origin };
        },
    };
    let slot = match &head.returns {
        Some(slot) => slot,
        None => {
            return ReturnSlotRef { identity, binding_slot: None, name: None, origin: head.origin };
        },
    };
    ReturnSlotRef { identity, binding_slot: Some(slot.copied()), name: binding_slot_name(slot), origin: slot.origin }
}

fn self_identity_from_closure(closure: &NormClosure) -> (r: Option<ReturnSelfIdentity>)
    ensures
        r == self_identity_spec(*closure),
{
    let callable_owner = match closure.semantic_owner {
        Some(owner) => owner,
        None => {
            return None;
        },
    };
    let display_name = match &closure.head {
        Some(head) => match &head.written_self {
            Some(NormPatternElem::BindingSlot(slot)) => binding_slot_name(slot),
            Some(NormPatternElem::Pattern(pattern)) => pattern_display_name(pattern),
            _ => None,
        },
        None => None,
    };
    Some(ReturnSelfIdentity { callable_owner, display_name, origin: closure.origin })
}

fn unbound_event(return_event: &NormReturnEvent) -> (r: UnboundReturnEvent)
    ensures
        unbound_matches(r, *return_event),
{
    let target = match &return_event.target {
        NormReturnTargetSyntax::ImplicitNearest => UnresolvedReturnTargetForm::ImplicitNearest,
        NormReturnTargetSyntax::Explicit(target) => UnresolvedReturnTargetForm::Explicit(target.copied()),
    };
    UnboundReturnEvent { value: return_event.value.copied(), target, origin: return_event.origin }
}

fn collect_return_events_in_closure(closure: &NormClosure, events: &mut Vec<UnboundReturnEvent>)
    ensures
        extended_by(old(events)@, final(events)@, closure_return_events(*closure), unbound_rel()),
    decreases closure,
{
    match &closure.body {
        Some(program) => collect_return_events_in_program(program, events),
        None => {
            proof {
                lemma_extended_by_none(events@, unbound_rel());
            }
        },
    }
}

fn collect_return_events_in_program(program: &NormProgram, events: &mut Vec<UnboundReturnEvent>)
    ensures
        extended_by(
            old(events)@,
            final(events)@,
            program_return_events_upto(*program, program.forms@.len() as int),
            unbound_rel(),
        ),
    decreases program,
{
    let ghost start = events@;
    proof {
        lemma_extended_by_none(events@, unbound_rel());
    }
    let n = program.forms.len();
    for i in 0..n
        invariant
            n == program.forms@.len(),
            start == old(events)@,
            extended_by(start, events@, program_return_events_upto(*program, i as int), unbound_rel()),
    {
        let ghost before = events@;
        proof {
            assert(decreases_to!(*program => program.forms));
            assert(decreases_to!(program.forms => program.forms[i as int]));
        }
        match &program.forms[i] {
            NormForm::ReturnEvent(return_event) => {
                let unbound = unbound_event(return_event);
                events.push(unbound);
                proof {
                    lemma_extended_by_push(before, unbound, *return_event, unbound_rel());
                }
            },
            NormForm::Let(decl) => collect_return_events_in_decl(decl, events),
            NormForm::Alias(decl) => collect_return_events_in_decl(decl, events),
            NormForm::Expr(expr) => collect_return_events_in_expr(expr, events),
            NormForm::TailValue(expr) => collect_return_events_in_expr(expr, events),
            NormForm::Error(_) => {
                proof {
                    lemma_extended_by_none(before, unbound_rel());
                }
            },
        }
        proof {
            lemma_extended_by_chain(
                start,
                before,
                events@,
                program_return_events_upto(*program, i as int),
                form_return_events(program.forms@[i as int]),
                unbound_rel(),
            );
        }
    }
}

fn collect_return_events_in_decl(decl: &NormDecl, events: &mut Vec<UnboundReturnEvent>)
    ensures
        extended_by(old(events)@, final(events)@, decl_return_events(*decl), unbound_rel()),
    decreases decl,
{
    match decl {
        NormDecl::Let { slot } => match &slot.initializer {
            Some(initializer) => collect_return_events_in_expr(initializer, events),
            None => {
                proof {
                    lemma_extended_by_none(events@, unbound_rel());
                }
            },
        },
        _ => {
            proof {
                lemma_extended_by_none(events@, unbound_rel());
            }
        },
    }
}

fn collect_return_events_in_elements(product: &NormProduct, events: &mut Vec<UnboundReturnEvent>)
    ensures
        extended_by(
            old(events)@,
            final(events)@,
            element_return_events_upto(*product, product.elements@.len() as int),
            unbound_rel(),
        ),
    decreases product,
{
    let ghost start = events@;
    proof {
        lemma_extended_by_none(events@, unbound_rel());
    }
    let n = product.elements.len();
    for i in 0..n
        invariant
            n == product.elements@.len(),
            start == old(events)@,
            extended_by(start, events@, element_return_events_upto(*product, i as int), unbound_rel()),
    {
        let ghost before = events@;
        proof {
            assert(decreases_to!(*product => product.elements));
            assert(decreases_to!(product.elements => product.elements[i as int]));
        }
        match &product.elements[i] {
            NormProductElem::Expr(expr) => collect_return_events_in_expr(expr, events),
            NormProductElem::Unit { .. } => {
                proof {
                    lemma_extended_by_none(before, unbound_rel());
                }
            },
        }
        proof {
            lemma_extended_by_chain(
                start,
                before,
                events@,
                element_return_events_upto(*product, i as int),
                match product.elements@[i as int] {
                    NormProductElem::Expr(e) => literal_return_events(e),
                    NormProductElem::Unit { .. } => Seq::empty(),
                },
                unbound_rel(),
            );
        }
    }
}

fn collect_return_events_in_expr(expr: &NormExpr, events: &mut Vec<UnboundReturnEvent>)
    ensures
        extended_by(old(events)@, final(events)@, literal_return_events(*expr), unbound_rel()),
    decreases expr,
{
    match expr {
        NormExpr::PolicyLet { operand, .. } => collect_return_events_in_expr(operand, events),
        NormExpr::Call { source, target, .. } => {
            let ghost start = events@;
            collect_return_events_in_elements(source, events);
            let ghost middle = events@;
            collect_return_events_in_expr(target, events);
            proof {
                lemma_extended_by_chain(
                    start,
                    middle,
                    events@,
                    element_return_events_upto(*source, source.elements@.len() as int),
                    literal_return_events(**target),
                    unbound_rel(),
                );
            }
        },
        NormExpr::Product(product) => collect_return_events_in_elements(product, events),
        NormExpr::Closure(closure) => collect_return_events_in_closure(closure, events),
        _ => {
            proof {
                lemma_extended_by_none(events@, unbound_rel());
            }
        },
    }
}

} // verus!

verus! {

/// Binds the return events of a program to active return frames.
pub struct ReturnTargetBinder<'resolver, R: ExplicitReturnTargetResolver> {
    stack: ReturnTargetStack,
    report: ReturnTargetBindingReport,
    explicit_resolver: Option<&'resolver R>,
    /// The resolver's answers, in the order it gave them.
    answers: Ghost<Seq<ExplicitReturnTargetResolution>>,
}

impl ReturnTargetBinder<'static, NoExplicitResolver> {
    /// A binder without an explicit-target resolver: explicit targets stay
    /// preserved for semantic resolution.
    pub fn new() -> (r: Self)
        ensures
            r.frames().len() == 0,
            r.next_frame_id() == 0,
            !r.has_resolver(),
            r.resolver_answers().len() == 0,
            r.report().frames@.len() == 0,
            r.report().bound_events@.len() == 0,
            r.report().preserved_unbound_events@.len() == 0,
            r.report().diagnostics@.len() == 0,
    {
        ReturnTargetBinder {
            stack: ReturnTargetStack::new(),
            report: ReturnTargetBindingReport::empty(),
            explicit_resolver: None,
            answers: Ghost(Seq::empty()),
        }
    }
}

impl Default for ReturnTargetBinder<'static, NoExplicitResolver> {
    fn default() -> (r: Self)
        ensures
            r.frames().len() == 0,
            r.next_frame_id() == 0,
            !r.has_resolver(),
            r.resolver_answers().len() == 0,
            r.report().frames@.len() == 0,
            r.report().bound_events@.len() == 0,
            r.report().preserved_unbound_events@.len() == 0,
            r.report().diagnostics@.len() == 0,
    {
        ReturnTargetBinder::new()
    }
}

impl<'resolver, R: ExplicitReturnTargetResolver> ReturnTargetBinder<'resolver, R> {
    /// The active frames, innermost last.
    pub closed spec fn frames(&self) -> Seq<ReturnTargetFrame> {
        self.stack.frames()
    }

    /// The identity the next entered frame gets.
    pub closed spec fn next_frame_id(&self) -> usize {
        self.stack.next_frame_id()
    }

    pub closed spec fn report(&self) -> ReturnTargetBindingReport {
        self.report
    }

    pub closed spec fn has_resolver(&self) -> bool {
        self.explicit_resolver is Some
    }

    /// The resolver the binder asks, if any.
    pub closed spec fn resolver(&self) -> Option<&'resolver R> {
        self.explicit_resolver
    }

    /// What the resolver has answered so far, in order.
    pub closed spec fn resolver_answers(&self) -> Seq<ExplicitReturnTargetResolution> {
        self.answers@
    }

    /// A binder that asks `resolver` about explicit return targets.
    pub fn with_explicit_resolver(resolver: &'resolver R) -> (r: Self)
        ensures
            r.frames().len() == 0,
            r.next_frame_id() == 0,
            r.has_resolver(),
            r.resolver() == Some(resolver),
            r.resolver_answers().len() == 0,
            r.report().frames@.len() == 0,
            r.report().bound_events@.len() == 0,
            r.report().preserved_unbound_events@.len() == 0,
            r.report().diagnostics@.len() == 0,
    {
        ReturnTargetBinder {
            stack: ReturnTargetStack::new(),
            report: ReturnTargetBindingReport::empty(),
            explicit_resolver: Some(resolver),
            answers: Ghost(Seq::empty()),
        }
    }

    pub fn finish(self) -> (r: ReturnTargetBindingReport)
        ensures
            r == self.report(),
    {
        self.report
    }

    /// Enter the return frame of `closure`, bind the returns of its user
    /// body, and leave the frame again.
    pub fn enter_returnable_closure(&mut self, closure: &NormClosure, owner: ReturnFrameOwner)
        requires
            old(self).next_frame_id() < usize::MAX,
        ensures
            final(self).frames() == old(self).frames(),
            final(self).next_frame_id() == old(self).next_frame_id() + 1,
            final(self).has_resolver() == old(self).has_resolver(),
            final(self).resolver() == old(self).resolver(),
            final(self).report().frames@.len() == old(self).report().frames@.len() + 1,
            final(self).report().frames@.subrange(0, old(self).report().frames@.len() as int)
                == old(self).report().frames@,
            frame_of_closure(final(self).report().frames@.last(), *closure, owner, old(self).next_frame_id()),
            old(self).resolver_answers().len() <= final(self).resolver_answers().len(),
            final(self).resolver_answers().subrange(0, old(self).resolver_answers().len() as int) == old(
                self,
            ).resolver_answers(),
            match closure.body {
                None => final(self).resolver_answers() == old(self).resolver_answers() && events_extended(
                    old(self).report(),
                    final(self).report(),
                    no_delta(),
                ),
                Some(body) => final(self).resolver_answers().len() == old(self).resolver_answers().len()
                    + resolver_calls_upto(body, body.forms@.len() as int, old(self).has_resolver()) && (old(
                    self,
                ).has_resolver() ==> resolver_answered(
                    old(self).resolver()->0,
                    explicit_targets_upto(body, body.forms@.len() as int, true),
                    final(self).resolver_answers().subrange(
                        old(self).resolver_answers().len() as int,
                        final(self).resolver_answers().len() as int,
                    ),
                )) && events_extended(
                    old(self).report(),
                    final(self).report(),
                    program_delta(
                        frame_keys(old(self).frames()).push(
                            (ReturnFrameId(old(self).next_frame_id()), self_identity_spec(*closure)),
                        ),
                        body,
                        old(self).has_resolver(),
                        final(self).resolver_answers().subrange(
                            old(self).resolver_answers().len() as int,
                            final(self).resolver_answers().len() as int,
                        ),
                    ),
                ),
            },
    {
        let ghost old_frames = self.stack.frames();
        let ghost old_report_frames = self.report.frames@;
        let return_slot = return_slot_ref(closure);
        let self_identity = self_identity_from_closure(closure);
        let callable_self_owner = closure.semantic_owner;
        let frame = self.stack.push_frame(owner, return_slot, self_identity, callable_self_owner, closure.origin);
        proof {
            assert(self.stack.frames() == old_frames.push(self.stack.frames().last()));
            assert(frame_keys(self.stack.frames()) =~= frame_keys(old_frames).push(
                (frame.frame_id, frame.self_identity),
            ));
        }
        self.report.frames.push(frame);
        let ghost after_push = self.report;
        assert(self.report.frames@.subrange(0, old_report_frames.len() as int) == old_report_frames);
        match &closure.body {
            Some(program) => {
                self.visit_program(program);
            },
            None => {
                proof {
                    lemma_events_extended_none(self.report);
                    assert(self.answers@.subrange(0, self.answers@.len() as int) =~= self.answers@);
                }
            },
        }
        self.stack.pop_frame();
        proof {
            assert(self.stack.frames() =~= old_frames);
        }
    }

    /// Visit the forms of a program in order: bind its own return events
    /// against the active frames and preserve those of closure literals.
    pub fn visit_program(&mut self, program: &NormProgram)
        ensures
            final(self).frames() == old(self).frames(),
            final(self).next_frame_id() == old(self).next_frame_id(),
            final(self).has_resolver() == old(self).has_resolver(),
            final(self).resolver() == old(self).resolver(),
            final(self).report().frames@ == old(self).report().frames@,
            final(self).resolver_answers().len() == old(self).resolver_answers().len() + resolver_calls_upto(
                *program,
                program.forms@.len() as int,
                old(self).has_resolver(),
            ),
            old(self).has_resolver() ==> resolver_answered(
                old(self).resolver()->0,
                explicit_targets_upto(*program, program.forms@.len() as int, true),
                final(self).resolver_answers().subrange(
                    old(self).resolver_answers().len() as int,
                    final(self).resolver_answers().len() as int,
                ),
            ),
            final(self).resolver_answers().subrange(0, old(self).resolver_answers().len() as int) == old(
                self,
            ).resolver_answers(),
            events_extended(
                old(self).report(),
                final(self).report(),
                program_delta(
                    frame_keys(old(self).frames()),
                    *program,
                    old(self).has_resolver(),
                    final(self).resolver_answers().subrange(
                        old(self).resolver_answers().len() as int,
                        final(self).resolver_answers().len() as int,
                    ),
                ),
            ),
    {
        let ghost start_report = self.report;
        let ghost start_answers = self.answers@;
        let ghost keys = frame_keys(self.stack.frames());
        let ghost has = self.explicit_resolver is Some;
        proof {
            lemma_events_extended_none(self.report);
            assert(self.answers@.subrange(0, start_answers.len() as int) == start_answers);
        }
        let n = program.forms.len();
        for i in 0..n
            invariant
                n == program.forms@.len(),
                keys == frame_keys(self.stack.frames()),
                keys == frame_keys(old(self).frames()),
                self.stack == old(self).stack,
                has == (self.explicit_resolver is Some),
                has == old(self).has_resolver(),
                self.explicit_resolver == old(self).explicit_resolver,
                has ==> resolver_answered(
                    self.explicit_resolver->0,
                    explicit_targets_upto(*program, i as int, true),
                    self.answers@.subrange(start_answers.len() as int, self.answers@.len() as int),
                ),
                self.report.frames@ == start_report.frames@,
                start_report == old(self).report(),
                start_answers == old(self).resolver_answers(),
                self.answers@.len() == start_answers.len() + resolver_calls_upto(*program, i as int, has),
                self.answers@.subrange(0, start_answers.len() as int) == start_answers,
                events_extended(
                    start_report,
                    self.report,
                    program_delta_upto(
                        keys,
                        *program,
                        i as int,
                        has,
                        self.answers@.subrange(start_answers.len() as int, self.answers@.len() as int),
                    ),
                ),
        {
            let ghost before_report = self.report;
            let ghost before_answers = self.answers@;
            self.visit_form(&program.forms[i]);
            proof {
                let used = resolver_calls_upto(*program, i as int, has) as int;
                let now = self.answers@.subrange(start_answers.len() as int, self.answers@.len() as int);
                let then = before_answers.subrange(start_answers.len() as int, before_answers.len() as int);
                assert(now.len() == used + if consults_resolver(program.forms@[i as int], has) {
                    1int
                } else {
                    0int
                });
                assert forall|k: int| 0 <= k < used implies then[k] == now[k] by {
                    assert(then[k] == before_answers[start_answers.len() + k]);
                    assert(now[k] == self.answers@[start_answers.len() + k]);
                    assert(self.answers@.subrange(0, before_answers.len() as int) == before_answers);
                    assert(self.answers@[start_answers.len() + k] == before_answers[start_answers.len() + k]);
                }
                lemma_program_delta_answers(keys, *program, i as int, has, then, now);
                if consults_resolver(program.forms@[i as int], has) {
                    assert(now[used] == self.answers@.last());
                }
                if has {
                    let t_then = explicit_targets_upto(*program, i as int, true);
                    let t_now = explicit_targets_upto(*program, i + 1, true);
                    let res = self.explicit_resolver->0;
                    assert forall|k: int| 0 <= k < now.len() implies #[trigger] call_ensures(
                        R::resolve_explicit_return_target,
                        (res, &t_now[k]),
                        now[k],
                    ) by {
                        if k < used {
                            assert(t_now[k] == t_then[k]);
                            assert(then[k] == now[k]);
                            assert(call_ensures(R::resolve_explicit_return_target, (res, &t_then[k]), then[k]));
                        } else {
                            assert(k == used);
                            assert(t_now[k] == program.forms@[i as int]->ReturnEvent_0.target->Explicit_0);
                        }
                    }
                }
                lemma_events_extended_chain(
                    start_report,
                    before_report,
                    self.report,
                    program_delta_upto(keys, *program, i as int, has, now),
                    form_delta(keys, program.forms@[i as int], has, now[used]),
                );
                assert(self.answers@.subrange(0, start_answers.len() as int) == start_answers);
            }
        }
    }

    fn visit_form(&mut self, form: &NormForm)
        ensures
            final(self).stack == old(self).stack,
            final(self).explicit_resolver == old(self).explicit_resolver,
            final(self).report.frames@ == old(self).report.frames@,
            final(self).answers@ == if consults_resolver(*form, old(self).explicit_resolver is Some) {
                old(self).answers@.push(final(self).answers@.last())
            } else {
                old(self).answers@
            },
            consults_resolver(*form, old(self).explicit_resolver is Some) ==> call_ensures(
                R::resolve_explicit_return_target,
                (old(self).explicit_resolver->0, &form->ReturnEvent_0.target->Explicit_0),
                final(self).answers@.last(),
            ),
            events_extended(
                old(self).report,
                final(self).report,
                form_delta(
                    frame_keys(old(self).stack.frames()),
                    *form,
                    old(self).explicit_resolver is Some,
                    final(self).answers@.last(),
                ),
            ),
    {
        match form {
            NormForm::ReturnEvent(return_event) => self.bind_return_event(return_event),
            NormForm::Let(decl) => self.visit_decl(decl),
            NormForm::Alias(decl) => self.visit_decl(decl),
            NormForm::Expr(expr) => self.visit_expr(expr),
            NormForm::TailValue(expr) => self.visit_expr(expr),
            NormForm::Error(_) => {
                proof {
                    lemma_events_extended_none(self.report);
                }
            },
        }
    }

    fn visit_decl(&mut self, decl: &NormDecl)
        ensures
            final(self).stack == old(self).stack,
            final(self).explicit_resolver == old(self).explicit_resolver,
            final(self).report.frames@ == old(self).report.frames@,
            final(self).answers@ == old(self).answers@,
            events_extended(old(self).report, final(self).report, preserved_literals(decl_return_events(*decl))),
    {
        match decl {
            NormDecl::Let { slot } => match &slot.initializer {
                Some(initializer) => self.visit_expr(initializer),
                None => {
                    proof {
                        lemma_events_extended_none(self.report);
                        assert(preserved_literals(Seq::empty()) == no_delta());
                    }
                },
            },
            _ => {
                proof {
                    lemma_events_extended_none(self.report);
                    assert(preserved_literals(Seq::empty()) == no_delta());
                }
            },
        }
    }

    fn visit_elements(&mut self, product: &NormProduct)
        ensures
            final(self).stack == old(self).stack,
            final(self).explicit_resolver == old(self).explicit_resolver,
            final(self).report.frames@ == old(self).report.frames@,
            final(self).answers@ == old(self).answers@,
            events_extended(
                old(self).report,
                final(self).report,
                preserved_literals(element_return_events_upto(*product, product.elements@.len() as int)),
            ),
        decreases product,
    {
        let ghost start = self.report;
        proof {
            lemma_events_extended_none(self.report);
            assert(preserved_literals(Seq::empty()) == no_delta());
        }
        let n = product.elements.len();
        for i in 0..n
            invariant
                n == product.elements@.len(),
                self.stack == old(self).stack,
                self.explicit_resolver == old(self).explicit_resolver,
                self.report.frames@ == old(self).report.frames@,
                self.answers@ == old(self).answers@,
                start == old(self).report,
                events_extended(
                    start,
                    self.report,
                    preserved_literals(element_return_events_upto(*product, i as int)),
                ),
        {
            let ghost before = self.report;
            proof {
                assert(decreases_to!(*product => product.elements));
                assert(decreases_to!(product.elements => product.elements[i as int]));
            }
            match &product.elements[i] {
                NormProductElem::Expr(expr) => self.visit_expr(expr),
                NormProductElem::Unit { .. } => {
                    proof {
                        lemma_events_extended_none(self.report);
                        assert(preserved_literals(Seq::empty()) == no_delta());
                    }
                },
            }
            proof {
                let piece = match product.elements@[i as int] {
                    NormProductElem::Expr(e) => literal_return_events(e),
                    NormProductElem::Unit { .. } => Seq::empty(),
                };
                lemma_events_extended_chain(
                    start,
                    before,
                    self.report,
                    preserved_literals(element_return_events_upto(*product, i as int)),
                    preserved_literals(piece),
                );
                lemma_preserved_literals_concat(element_return_events_upto(*product, i as int), piece);
            }
        }
    }

    fn visit_expr(&mut self, expr: &NormExpr)
        ensures
            final(self).stack == old(self).stack,
            final(self).explicit_resolver == old(self).explicit_resolver,
            final(self).report.frames@ == old(self).report.frames@,
            final(self).answers@ == old(self).answers@,
            events_extended(old(self).report, final(self).report, preserved_literals(literal_return_events(*expr))),
        decreases expr,
    {
        match expr {
            NormExpr::PolicyLet { operand, .. } => self.visit_expr(operand),
            NormExpr::Call { source, target, .. } => {
                let ghost start = self.report;
                self.visit_elements(source);
                let ghost middle = self.report;
                self.visit_expr(target);
                proof {
                    let a = element_return_events_upto(*source, source.elements@.len() as int);
                    let b = literal_return_events(**target);
                    lemma_events_extended_chain(start, middle, self.report, preserved_literals(a), preserved_literals(b));
                    lemma_preserved_literals_concat(a, b);
                }
            },
            NormExpr::Product(product) => self.visit_elements(product),
            NormExpr::Closure(closure) => self.collect_preserved_returns_from_closure_literal(closure),
            _ => {
                proof {
                    lemma_events_extended_none(self.report);
                    assert(preserved_literals(Seq::empty()) == no_delta());
                }
            },
        }
    }

    fn bind_return_event(&mut self, return_event: &NormReturnEvent)
        ensures
            final(self).stack == old(self).stack,
            final(self).explicit_resolver == old(self).explicit_resolver,
            final(self).report.frames@ == old(self).report.frames@,
            final(self).answers@ == if old(self).explicit_resolver is Some && return_event.target is Explicit {
                old(self).answers@.push(final(self).answers@.last())
            } else {
                old(self).answers@
            },
            old(self).explicit_resolver is Some && return_event.target is Explicit ==> call_ensures(
                R::resolve_explicit_return_target,
                (old(self).explicit_resolver->0, &return_event.target->Explicit_0),
                final(self).answers@.last(),
            ),
            events_extended(
                old(self).report,
                final(self).report,
                delta_then(
                    preserved_literals(literal_return_events(return_event.value)),
                    direct_return_delta(
                        frame_keys(old(self).stack.frames()),
                        *return_event,
                        old(self).explicit_resolver is Some,
                        final(self).answers@.last(),
                    ),
                ),
            ),
    {
        let ghost start = self.report;
        self.visit_expr(&return_event.value);
        let ghost middle = self.report;
        let resolution = match &return_event.target {
            NormReturnTargetSyntax::Explicit(target) => match self.explicit_resolver {
                Some(resolver) => {
                    let answer = resolver.resolve_explicit_return_target(target);
                    assert(call_ensures(R::resolve_explicit_return_target, (resolver, target), answer));
                    proof {
                        self.answers@ = self.answers@.push(answer);
                    }
                    Some(answer)
                },
                None => None,
            },
            NormReturnTargetSyntax::ImplicitNearest => None,
        };
        let unbound = unbound_event(return_event);
        let ghost keys = frame_keys(self.stack.frames());
        let ghost direct = direct_return_delta(
            keys,
            *return_event,
            self.explicit_resolver is Some,
            self.answers@.last(),
        );
        match resolve_return_target(&self.stack, return_event, resolution) {
            Ok(Some(resolved_target)) => {
                let ghost target_syntax = return_event.target;
                let bound = BoundReturnEvent {
                    value: return_event.value.copied(),
                    unresolved_target: unbound.target,
                    resolved_target,
                    origin: return_event.origin,
                };
                self.report.bound_events.push(bound);
                proof {
                    let frame = match resolved_target {
                        ResolvedReturnTarget::ActiveFrame(id) => id,
                        ResolvedReturnTarget::DiagnosticTarget => ReturnFrameId(0),
                    };
                    assert(direct == (seq![(*return_event, frame)], Seq::<(NormReturnEvent, PreservedReturnReason)>::empty(), Seq::<(DiagnosticKind, NormOrigin)>::empty()));
                    lemma_extended_by_push(middle.bound_events@, bound, (*return_event, frame), bound_rel());
                    lemma_extended_by_none(middle.preserved_unbound_events@, preserved_rel());
                    lemma_extended_by_none(middle.diagnostics@, diagnostic_rel());
                }
            },
            Ok(None) => {
                let preserved = PreservedUnboundReturnEvent {
                    event: unbound,
                    reason: PreservedReturnReason::SemanticTargetResolutionRequired,
                };
                self.report.preserved_unbound_events.push(preserved);
                proof {
                    assert(direct == (Seq::<(NormReturnEvent, ReturnFrameId)>::empty(), seq![(*return_event, PreservedReturnReason::SemanticTargetResolutionRequired)], Seq::<(DiagnosticKind, NormOrigin)>::empty()));
                    lemma_extended_by_none(middle.bound_events@, bound_rel());
                    lemma_extended_by_push(
                        middle.preserved_unbound_events@,
                        preserved,
                        (*return_event, PreservedReturnReason::SemanticTargetResolutionRequired),
                        preserved_rel(),
                    );
                    lemma_extended_by_none(middle.diagnostics@, diagnostic_rel());
                }
            },
            Err(diagnostic) => {
                self.report.diagnostics.push(diagnostic);
                proof {
                    let entry = direct.2[0];
                    assert(direct.2 == seq![entry]);
                    assert(direct.0.len() == 0 && direct.1.len() == 0);
                    assert(direct.0 == Seq::<(NormReturnEvent, ReturnFrameId)>::empty());
                    assert(direct.1 == Seq::<(NormReturnEvent, PreservedReturnReason)>::empty());
                    lemma_extended_by_none(middle.bound_events@, bound_rel());
                    lemma_extended_by_none(middle.preserved_unbound_events@, preserved_rel());
                    lemma_extended_by_push(middle.diagnostics@, diagnostic, entry, diagnostic_rel());
                }
            },
        }
        proof {
            lemma_events_extended_chain(
                start,
                middle,
                self.report,
                preserved_literals(literal_return_events(return_event.value)),
                direct,
            );
        }
    }

    fn collect_preserved_returns_from_closure_literal(&mut self, closure: &NormClosure)
        ensures
            final(self).stack == old(self).stack,
            final(self).explicit_resolver == old(self).explicit_resolver,
            final(self).report.frames@ == old(self).report.frames@,
            final(self).answers@ == old(self).answers@,
            events_extended(
                old(self).report,
                final(self).report,
                preserved_literals(closure_return_events(*closure)),
            ),
    {
        let mut events: Vec<UnboundReturnEvent> = Vec::new();
        collect_return_events_in_closure(closure, &mut events);
        let ghost evs = closure_return_events(*closure);
        let ghost ev_seq = events@;
        let ghost start = self.report;
        proof {
            assert(events@.subrange(0, 0) == Seq::<UnboundReturnEvent>::empty());
            assert(events@.subrange(0, events@.len() as int) == events@);
            lemma_events_extended_none(self.report);
            assert(preserved_literals(evs.take(0)) == no_delta());
        }
        for event in it: events.into_iter()
            invariant
                it.seq() == ev_seq,
                pairwise(ev_seq, evs, unbound_rel()),
                self.stack == old(self).stack,
                self.explicit_resolver == old(self).explicit_resolver,
                self.report.frames@ == old(self).report.frames@,
                self.answers@ == old(self).answers@,
                start == old(self).report,
                events_extended(start, self.report, preserved_literals(evs.take(it.index() as int))),
        {
            let ghost i = it.index() as int;
            let ghost before = self.report;
            assert(event == ev_seq[i]);
            assert(unbound_rel()(ev_seq[i], evs[i]));
            let preserved = PreservedUnboundReturnEvent {
                event,
                reason: PreservedReturnReason::UnmaterializedClosureLiteral,
            };
            self.report.preserved_unbound_events.push(preserved);
            proof {
                lemma_extended_by_none(before.bound_events@, bound_rel());
                lemma_extended_by_push(
                    before.preserved_unbound_events@,
                    preserved,
                    (evs[i], PreservedReturnReason::UnmaterializedClosureLiteral),
                    preserved_rel(),
                );
                lemma_extended_by_none(before.diagnostics@, diagnostic_rel());
                assert(preserved_literals(seq![evs[i]]).1 =~= seq![
                    (evs[i], PreservedReturnReason::UnmaterializedClosureLiteral),
                ]);
                assert(preserved_literals(seq![evs[i]]) == (
                    Seq::<(NormReturnEvent, ReturnFrameId)>::empty(),
                    seq![(evs[i], PreservedReturnReason::UnmaterializedClosureLiteral)],
                    Seq::<(DiagnosticKind, NormOrigin)>::empty(),
                ));
                lemma_events_extended_chain(
                    start,
                    before,
                    self.report,
                    preserved_literals(evs.take(i)),
                    preserved_literals(seq![evs[i]]),
                );
                lemma_preserved_literals_concat(evs.take(i), seq![evs[i]]);
                assert(evs.take(i) + seq![evs[i]] =~= evs.take(i + 1));
            }
        }
        proof {
            assert(evs.take(evs.len() as int) =~= evs);
        }
    }
}

} // verus!

verus! {

/// Bind the return events of a program outside any returnable context:
/// its own returns have no frame and are diagnosed, its explicit targets
/// stay preserved, and the returns of closure literals are preserved.
pub fn elaborate_return_targets_in_program(program: &NormProgram) -> (r: ReturnTargetBindingReport)
    ensures
        r.frames@.len() == 0,
        events_described(r, program_delta(Seq::empty(), *program, false, Seq::empty())),
{
    let mut binder = ReturnTargetBinder::new();
    let ghost start = binder.report();
    let ghost frames0 = binder.frames();
    binder.visit_program(program);
    proof {
        assert(frame_keys(frames0) =~= Seq::empty());
        assert(binder.resolver_answers().subrange(0, 0) =~= Seq::<ExplicitReturnTargetResolution>::empty());
        assert(resolver_calls_upto(*program, program.forms@.len() as int, false) == 0) by {
            lemma_no_resolver_no_calls(*program, program.forms@.len() as int);
        }
        lemma_events_from_empty(start, binder.report(), program_delta(Seq::empty(), *program, false, Seq::empty()));
    }
    binder.finish()
}

/// Bind the returns of one returnable closure without an explicit-target
/// resolver: the closure's frame receives its implicit returns, explicit
/// targets stay preserved, and the returns of closure literals are
/// preserved.
pub fn elaborate_return_targets_in_returnable_closure(closure: &NormClosure, owner: ReturnFrameOwner) -> (r:
    ReturnTargetBindingReport)
    ensures
        r.frames@.len() == 1,
        frame_of_closure(r.frames@[0], *closure, owner, 0),
        events_described(
            r,
            match closure.body {
                Some(body) => program_delta(
                    seq![(ReturnFrameId(0), self_identity_spec(*closure))],
                    body,
                    false,
                    Seq::empty(),
                ),
                None => no_delta(),
            },
        ),
{
    let mut binder = ReturnTargetBinder::new();
    let ghost start = binder.report();
    let ghost frames0 = binder.frames();
    binder.enter_returnable_closure(closure, owner);
    proof {
        assert(frame_keys(frames0) =~= Seq::empty());
        assert(frame_keys(frames0).push(
            (ReturnFrameId(0), self_identity_spec(*closure)),
        ) =~= seq![(ReturnFrameId(0), self_identity_spec(*closure))]);
        if closure.body is Some {
            let body = closure.body->0;
            lemma_no_resolver_no_calls(body, body.forms@.len() as int);
            assert(binder.resolver_answers().subrange(0, 0) =~= Seq::<ExplicitReturnTargetResolution>::empty());
            lemma_events_from_empty(
                start,
                binder.report(),
                program_delta(seq![(ReturnFrameId(0), self_identity_spec(*closure))], body, false, Seq::empty()),
            );
        } else {
            lemma_events_from_empty(start, binder.report(), no_delta());
        }
    }
    binder.finish()
}

/// Bind the returns of one returnable closure, asking `resolver` about
/// explicit targets. The `k`-th answer is a result of asking the resolver
/// about the `k`-th explicit target of the body in program order, and the
/// report is the one those answers determine.
pub fn elaborate_return_targets_in_returnable_closure_with_resolver<R: ExplicitReturnTargetResolver>(
    closure: &NormClosure,
    owner: ReturnFrameOwner,
    resolver: &R,
) -> (r: ReturnTargetBindingReport)
    ensures
        r.frames@.len() == 1,
        frame_of_closure(r.frames@[0], *closure, owner, 0),
        match closure.body {
            Some(body) => exists|answers: Seq<ExplicitReturnTargetResolution>|
                answers.len() == resolver_calls_upto(body, body.forms@.len() as int, true) && resolver_answered(
                    resolver,
                    explicit_targets_upto(body, body.forms@.len() as int, true),
                    answers,
                ) && events_described(
                    r,
                    program_delta(seq![(ReturnFrameId(0), self_identity_spec(*closure))], body, true, answers),
                ),
            None => events_described(r, no_delta()),
        },
{
    let mut binder = ReturnTargetBinder::with_explicit_resolver(resolver);
    let ghost start = binder.report();
    let ghost frames0 = binder.frames();
    binder.enter_returnable_closure(closure, owner);
    proof {
        assert(frame_keys(frames0) =~= Seq::empty());
        assert(frame_keys(frames0).push(
            (ReturnFrameId(0), self_identity_spec(*closure)),
        ) =~= seq![(ReturnFrameId(0), self_identity_spec(*closure))]);
        if closure.body is Some {
            let body = closure.body->0;
            let answers = binder.resolver_answers().subrange(0, binder.resolver_answers().len() as int);
            lemma_events_from_empty(
                start,
                binder.report(),
                program_delta(seq![(ReturnFrameId(0), self_identity_spec(*closure))], body, true, answers),
            );
        } else {
            lemma_events_from_empty(start, binder.report(), no_delta());
        }
    }
    binder.finish()
}

proof fn lemma_no_resolver_no_calls(p: NormProgram, n: int)
    ensures
        resolver_calls_upto(p, n, false) == 0,
    decreases n,
{
    if n > 0 && n <= p.forms@.len() {
        lemma_no_resolver_no_calls(p, n - 1);
    }
}

/// Frame `id` is among the active frames.
pub open spec fn frame_is_active(keys: Seq<(ReturnFrameId, Option<ReturnSelfIdentity>)>, id: ReturnFrameId) -> bool {
    exists|j: int| 0 <= j < keys.len() && keys[j].0 == id
}

/// Every frame in `bound` is among the active frames.
pub open spec fn bound_to_active_frames(
    keys: Seq<(ReturnFrameId, Option<ReturnSelfIdentity>)>,
    bound: Seq<(NormReturnEvent, ReturnFrameId)>,
) -> bool {
    forall|i: int| 0 <= i < bound.len() ==> frame_is_active(keys, #[trigger] bound[i].1)
}

/// A return is only ever bound to an active frame: every frame the returns
/// of a program are bound to is among the active frames.
pub proof fn lemma_bound_frames_are_active(
    keys: Seq<(ReturnFrameId, Option<ReturnSelfIdentity>)>,
    p: NormProgram,
    n: int,
    has_resolver: bool,
    answers: Seq<ExplicitReturnTargetResolution>,
)
    ensures
        bound_to_active_frames(keys, program_delta_upto(keys, p, n, has_resolver, answers).0),
    decreases n,
{
    if n <= 0 || n > p.forms@.len() {
        assert(program_delta_upto(keys, p, n, has_resolver, answers).0.len() == 0);
    } else {
        lemma_bound_frames_are_active(keys, p, n - 1, has_resolver, answers);
        let prefix = program_delta_upto(keys, p, n - 1, has_resolver, answers).0;
        let answer = answers[resolver_calls_upto(p, n - 1, has_resolver) as int];
        let piece = form_delta(keys, p.forms@[n - 1], has_resolver, answer).0;
        assert(bound_to_active_frames(keys, piece)) by {
            match p.forms@[n - 1] {
                NormForm::ReturnEvent(ev) => {
                    let lit = preserved_literals(literal_return_events(ev.value));
                    let direct = direct_return_delta(keys, ev, has_resolver, answer);
                    assert(piece == lit.0 + direct.0);
                    assert(lit.0 == Seq::<(NormReturnEvent, ReturnFrameId)>::empty());
                    assert(piece =~= direct.0);
                    match ev.target {
                        NormReturnTargetSyntax::ImplicitNearest => {
                            if keys.len() > 0 {
                                assert(direct.0 == seq![(ev, keys.last().0)]);
                                assert(frame_is_active(keys, keys[keys.len() - 1].0));
                            }
                        },
                        NormReturnTargetSyntax::Explicit(_) => {
                            match answer {
                                ExplicitReturnTargetResolution::CallableSelf(owner) => {
                                    lemma_matches_are_keys(keys, owner, keys.len() as int);
                                    let found = self_identity_matches(keys, owner);
                                    if has_resolver && found.len() == 1 {
                                        assert(direct.0 == seq![(ev, found[0])]);
                                        assert(frame_is_active(keys, found[0]));
                                    }
                                },
                                _ => {},
                            }
                        },
                    }
                },
                _ => {},
            }
        }
        let whole = program_delta_upto(keys, p, n, has_resolver, answers).0;
        assert(whole == prefix + piece);
        assert forall|i: int| 0 <= i < whole.len() implies frame_is_active(keys, #[trigger] whole[i].1) by {
            if i < prefix.len() {
                assert(whole[i] == prefix[i]);
            } else {
                assert(whole[i] == piece[i - prefix.len()]);
            }
        }
    }
}

proof fn lemma_matches_are_keys(
    keys: Seq<(ReturnFrameId, Option<ReturnSelfIdentity>)>,
    owner: NormSemanticOwnerId,
    n: int,
)
    requires
        n <= keys.len(),
    ensures
        forall|i: int|
            0 <= i < self_identity_matches_upto(keys, owner, n).len() ==> frame_is_active(
                keys,
                #[trigger] self_identity_matches_upto(keys, owner, n)[i],
            ),
    decreases n,
{
    if n > 0 {
        lemma_matches_are_keys(keys, owner, n - 1);
        let rest = self_identity_matches_upto(keys, owner, n - 1);
        let here = if keys[n - 1].1 matches Some(identity) && identity.callable_owner == owner {
            seq![keys[n - 1].0]
        } else {
            Seq::empty()
        };
        assert forall|i: int| 0 <= i < self_identity_matches_upto(keys, owner, n).len() implies frame_is_active(
            keys,
            #[trigger] self_identity_matches_upto(keys, owner, n)[i],
        ) by {
            let whole = self_identity_matches_upto(keys, owner, n);
            assert(whole == here + rest);
            if i < here.len() {
                assert(whole[i] == keys[n - 1].0);
                assert(keys[n - 1].0 == keys[n - 1].0);
            } else {
                assert(whole[i] == rest[i - here.len()]);
            }
        }
    }
}

} // verus!
