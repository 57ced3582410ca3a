//! Policy stages, the `Pv:Pp` Policy pair and its algebra.
use vstd::prelude::*;

use crate::policy_migration::{intersect_presence, intersect_presence_spec};
use crate::model::{
    outcome_matches, Diagnostic, DiagnosticKind, ExecutionEnv, PolicyContext, Provenance,
};
use crate::policy_syntax::{
    NormPolicyAtom, NormPolicyChoice, NormPolicyConjunction, NormPolicySpec, NormValuePolicyPattern,
};

pub use crate::policy_export::{
    compute_export_retention_closure, compute_wpre, externally_visible,
    project_export_overload_sets, project_resolved_export_view, publicly_reachable,
    ExportAdmission, ExportCandidateView, NamespaceCandidateSetRef, NamespaceExportNode,
    NamespaceOverloadSets, NamespaceResolveAuthority, ResolvedCandidatePolicy, WpreRoots,
};

verus! {

#[derive(Clone, Copy, Debug, PartialEq, Eq, PartialOrd, Ord, Hash, Structural)]
pub enum PolicyStage {
    Meta,
    Compile,
    Seal,
    Runtime,
}

#[derive(Clone, Copy, Debug, PartialEq, Eq, PartialOrd, Ord, Hash, Structural)]
pub enum Phase {
    OpenStatic,
    SealStatic,
    Runtime,
}

/// Whether a stage is visible in a phase.
pub open spec fn stage_visible_at(stage: PolicyStage, phase: Phase) -> bool {
    match stage {
        PolicyStage::Meta => phase == Phase::OpenStatic,
        PolicyStage::Compile => phase == Phase::OpenStatic || phase == Phase::SealStatic,
        PolicyStage::Seal => phase == Phase::SealStatic,
        PolicyStage::Runtime => phase == Phase::Runtime,
    }
}

impl PolicyStage {
    pub fn is_static(self) -> (r: bool)
        ensures
            r == (self != PolicyStage::Runtime),
    {
        !matches!(self, PolicyStage::Runtime)
    }

    pub fn visible_at(self, phase: Phase) -> (r: bool)
        ensures
            r == stage_visible_at(self, phase),
    {
        match self {
            PolicyStage::Meta => phase == Phase::OpenStatic,
            PolicyStage::Compile => matches!(phase, Phase::OpenStatic | Phase::SealStatic),
            PolicyStage::Seal => phase == Phase::SealStatic,
            PolicyStage::Runtime => phase == Phase::Runtime,
        }
    }
}

/// A set of Policy stages. Each field records membership of one stage.
#[derive(Clone, Copy, Debug, Default, PartialEq, Eq, Structural)]
pub struct StageSet {
    pub meta: bool,
    pub compile: bool,
    pub seal: bool,
    pub runtime: bool,
}

impl StageSet {
    /// Membership of one stage.
    pub open spec fn has(self, stage: PolicyStage) -> bool {
        match stage {
            PolicyStage::Meta => self.meta,
            PolicyStage::Compile => self.compile,
            PolicyStage::Seal => self.seal,
            PolicyStage::Runtime => self.runtime,
        }
    }

    /// Number of member stages.
    pub open spec fn count(self) -> nat {
        (if self.meta { 1nat } else { 0nat }) + (if self.compile { 1nat } else { 0nat }) + (if self.seal {
            1nat
        } else {
            0nat
        }) + (if self.runtime { 1nat } else { 0nat })
    }

    pub open spec fn empty_spec(self) -> bool {
        !self.meta && !self.compile && !self.seal && !self.runtime
    }

    pub open spec fn union_spec(self, other: StageSet) -> StageSet {
        StageSet {
            meta: self.meta || other.meta,
            compile: self.compile || other.compile,
            seal: self.seal || other.seal,
            runtime: self.runtime || other.runtime,
        }
    }

    pub open spec fn intersection_spec(self, other: StageSet) -> StageSet {
        StageSet {
            meta: self.meta && other.meta,
            compile: self.compile && other.compile,
            seal: self.seal && other.seal,
            runtime: self.runtime && other.runtime,
        }
    }

    pub open spec fn subset_spec(self, other: StageSet) -> bool {
        (self.meta ==> other.meta) && (self.compile ==> other.compile) && (self.seal
            ==> other.seal) && (self.runtime ==> other.runtime)
    }

    pub open spec fn static_spec(self) -> StageSet {
        StageSet { runtime: false, ..self }
    }

    pub open spec fn visible_spec(self, phase: Phase) -> bool {
        exists|s: PolicyStage| #[trigger] self.has(s) && stage_visible_at(s, phase)
    }

    pub open spec fn exposed_spec(self, phase: Phase) -> StageSet {
        StageSet {
            meta: self.meta && stage_visible_at(PolicyStage::Meta, phase),
            compile: self.compile && stage_visible_at(PolicyStage::Compile, phase),
            seal: self.seal && stage_visible_at(PolicyStage::Seal, phase),
            runtime: self.runtime && stage_visible_at(PolicyStage::Runtime, phase),
        }
    }

    pub open spec fn singleton(stage: PolicyStage) -> StageSet {
        StageSet {
            meta: stage == PolicyStage::Meta,
            compile: stage == PolicyStage::Compile,
            seal: stage == PolicyStage::Seal,
            runtime: stage == PolicyStage::Runtime,
        }
    }

    /// Member stages in stage order.
    pub open spec fn stage_seq(self) -> Seq<PolicyStage> {
        (if self.meta { seq![PolicyStage::Meta] } else { Seq::empty() }) + (if self.compile {
            seq![PolicyStage::Compile]
        } else {
            Seq::empty()
        }) + (if self.seal { seq![PolicyStage::Seal] } else { Seq::empty() }) + (if self.runtime {
            seq![PolicyStage::Runtime]
        } else {
            Seq::empty()
        })
    }

    pub fn new() -> (r: StageSet)
        ensures
            r@ == Set::<PolicyStage>::empty(),
            r.empty_spec(),
    {
        let r = StageSet { meta: false, compile: false, seal: false, runtime: false };
        assert(r@ =~= Set::<PolicyStage>::empty());
        r
    }

    /// The set holding exactly the given stages.
    pub fn from_stages(stages: &[PolicyStage]) -> (r: StageSet)
        ensures
            forall|s: PolicyStage| #[trigger] r.has(s) <==> stages@.contains(s),
    {
        let mut r = StageSet::new();
        let mut i: usize = 0;
        while i < stages.len()
            invariant
                i <= stages.len(),
                forall|s: PolicyStage|
                    #[trigger] r.has(s) <==> exists|k: int| 0 <= k < i && stages@[k] == s,
            decreases stages.len() - i,
        {
            r.insert(stages[i]);
            i = i + 1;
        }
        r
    }

    pub fn insert(&mut self, stage: PolicyStage)
        ensures
            final(self)@ == old(self)@.insert(stage),
            forall|s: PolicyStage| #[trigger] final(self).has(s) == (old(self).has(s) || s == stage),
    {
        match stage {
            PolicyStage::Meta => self.meta = true,
            PolicyStage::Compile => self.compile = true,
            PolicyStage::Seal => self.seal = true,
            PolicyStage::Runtime => self.runtime = true,
        }
        assert(self@ =~= old(self)@.insert(stage));
    }

    pub fn contains(&self, stage: PolicyStage) -> (r: bool)
        ensures
            r == self.has(stage),
            r == self@.contains(stage),
    {
        match stage {
            PolicyStage::Meta => self.meta,
            PolicyStage::Compile => self.compile,
            PolicyStage::Seal => self.seal,
            PolicyStage::Runtime => self.runtime,
        }
    }

    pub fn is_empty(&self) -> (r: bool)
        ensures
            r == self.empty_spec(),
            r == (self@ == Set::<PolicyStage>::empty()),
    {
        proof {
            if !self.empty_spec() {
                let s = if self.meta {
                    PolicyStage::Meta
                } else if self.compile {
                    PolicyStage::Compile
                } else if self.seal {
                    PolicyStage::Seal
                } else {
                    PolicyStage::Runtime
                };
                assert(self@.contains(s));
                assert(!Set::<PolicyStage>::empty().contains(s));
            } else {
                assert(self@ =~= Set::<PolicyStage>::empty());
            }
        }
        !self.meta && !self.compile && !self.seal && !self.runtime
    }

    pub fn len(&self) -> (r: usize)
        ensures
            r == self.count(),
            r == self@.len(),
    {
        proof {
            self.lemma_len();
        }
        let mut n: usize = 0;
        if self.meta {
            n = n + 1;
        }
        if self.compile {
            n = n + 1;
        }
        if self.seal {
            n = n + 1;
        }
        if self.runtime {
            n = n + 1;
        }
        n
    }

    /// The member stages in stage order (`Meta < Compile < Seal < Runtime`).
    pub fn iter(&self) -> (r: Vec<PolicyStage>)
        ensures
            r@ == self.stage_seq(),
    {
        let mut r: Vec<PolicyStage> = Vec::new();
        if self.meta {
            r.push(PolicyStage::Meta);
        }
        if self.compile {
            r.push(PolicyStage::Compile);
        }
        if self.seal {
            r.push(PolicyStage::Seal);
        }
        if self.runtime {
            r.push(PolicyStage::Runtime);
        }
        assert(r@ =~= self.stage_seq());
        r
    }

    pub fn static_stages(&self) -> (r: StageSet)
        ensures
            r == self.static_spec(),
            r@ == self@.filter(|s: PolicyStage| s != PolicyStage::Runtime),
    {
        let r = StageSet { runtime: false, ..*self };
        assert(r@ =~= self@.filter(|s: PolicyStage| s != PolicyStage::Runtime));
        r
    }

    pub fn union(&self, other: &StageSet) -> (r: StageSet)
        ensures
            r == self.union_spec(*other),
            r@ == self@.union(other@),
    {
        let r = StageSet {
            meta: self.meta || other.meta,
            compile: self.compile || other.compile,
            seal: self.seal || other.seal,
            runtime: self.runtime || other.runtime,
        };
        assert(r@ =~= self@.union(other@));
        r
    }

    pub fn intersection(&self, other: &StageSet) -> (r: StageSet)
        ensures
            r == self.intersection_spec(*other),
            r@ == self@.intersect(other@),
    {
        let r = StageSet {
            meta: self.meta && other.meta,
            compile: self.compile && other.compile,
            seal: self.seal && other.seal,
            runtime: self.runtime && other.runtime,
        };
        assert(r@ =~= self@.intersect(other@));
        r
    }

    pub fn intersects(&self, other: &StageSet) -> (r: bool)
        ensures
            r == !self.intersection_spec(*other).empty_spec(),
            r == exists|s: PolicyStage| self@.contains(s) && other@.contains(s),
    {
        let r = (self.meta && other.meta) || (self.compile && other.compile) || (self.seal
            && other.seal) || (self.runtime && other.runtime);
        proof {
            if r {
                let s = if self.meta && other.meta {
                    PolicyStage::Meta
                } else if self.compile && other.compile {
                    PolicyStage::Compile
                } else if self.seal && other.seal {
                    PolicyStage::Seal
                } else {
                    PolicyStage::Runtime
                };
                assert(self@.contains(s) && other@.contains(s));
            }
        }
        r
    }

    pub fn is_subset(&self, other: &StageSet) -> (r: bool)
        ensures
            r == self.subset_spec(*other),
            r == self@.subset_of(other@),
    {
        let r = (!self.meta || other.meta) && (!self.compile || other.compile) && (!self.seal
            || other.seal) && (!self.runtime || other.runtime);
        proof {
            if !r {
                let s = if self.meta && !other.meta {
                    PolicyStage::Meta
                } else if self.compile && !other.compile {
                    PolicyStage::Compile
                } else if self.seal && !other.seal {
                    PolicyStage::Seal
                } else {
                    PolicyStage::Runtime
                };
                assert(self@.contains(s) && !other@.contains(s));
            }
        }
        r
    }

    pub fn visible_at(&self, phase: Phase) -> (r: bool)
        ensures
            r == self.visible_spec(phase),
    {
        let r = (self.meta && PolicyStage::Meta.visible_at(phase)) || (self.compile
            && PolicyStage::Compile.visible_at(phase)) || (self.seal && PolicyStage::Seal.visible_at(
            phase,
        )) || (self.runtime && PolicyStage::Runtime.visible_at(phase));
        proof {
            if r {
                if self.meta && stage_visible_at(PolicyStage::Meta, phase) {
                    assert(self.has(PolicyStage::Meta));
                } else if self.compile && stage_visible_at(PolicyStage::Compile, phase) {
                    assert(self.has(PolicyStage::Compile));
                } else if self.seal && stage_visible_at(PolicyStage::Seal, phase) {
                    assert(self.has(PolicyStage::Seal));
                } else {
                    assert(self.has(PolicyStage::Runtime));
                }
            }
        }
        r
    }

    pub fn exposed_at(&self, phase: Phase) -> (r: StageSet)
        ensures
            r == self.exposed_spec(phase),
            r@ == self@.filter(|s: PolicyStage| stage_visible_at(s, phase)),
    {
        let r = StageSet {
            meta: self.meta && PolicyStage::Meta.visible_at(phase),
            compile: self.compile && PolicyStage::Compile.visible_at(phase),
            seal: self.seal && PolicyStage::Seal.visible_at(phase),
            runtime: self.runtime && PolicyStage::Runtime.visible_at(phase),
        };
        assert(r@ =~= self@.filter(|s: PolicyStage| stage_visible_at(s, phase)));
        r
    }

    proof fn lemma_len(self)
        ensures
            self@.finite(),
            self@.len() == self.count(),
    {
        let s0 = Set::<PolicyStage>::empty();
        let s1 = if self.meta { s0.insert(PolicyStage::Meta) } else { s0 };
        let s2 = if self.compile { s1.insert(PolicyStage::Compile) } else { s1 };
        let s3 = if self.seal { s2.insert(PolicyStage::Seal) } else { s2 };
        let s4 = if self.runtime { s3.insert(PolicyStage::Runtime) } else { s3 };
        assert(!s1.contains(PolicyStage::Compile));
        assert(!s2.contains(PolicyStage::Seal));
        assert(!s3.contains(PolicyStage::Runtime));
        assert(self@ =~= s4);
    }
}

impl View for StageSet {
    type V = Set<PolicyStage>;

    open spec fn view(&self) -> Set<PolicyStage> {
        Set::new(|s: PolicyStage| self.has(s))
    }
}

/// Concrete overload-visible Policy point. `Plain` is neither omission nor an
/// unconstrained set; every evaluated object/call context carries one point.
#[derive(Clone, Copy, Debug, PartialEq, Eq, PartialOrd, Ord, Hash, Structural)]
pub enum PolicyMode {
    Const,
    Plain,
    Mut,
}

impl Default for PolicyMode {
    fn default() -> (r: PolicyMode)
        ensures
            r == PolicyMode::Plain,
    {
        PolicyMode::Plain
    }
}

#[derive(Clone, Copy, Debug, PartialEq, Eq, Structural)]
pub struct OutputModeDemand(pub PolicyMode);

impl OutputModeDemand {
    pub fn mode(self) -> (r: PolicyMode)
        ensures
            r == self.0,
    {
        self.0
    }
}

#[derive(Clone, Copy, Debug, PartialEq, Eq, Structural)]
pub enum CapabilityRealizationCell {
    Absent,
    Default,
    Delete,
    Custom,
}

/// Candidate-local, Policy-orthogonal input-mode x output-mode realization.
#[derive(Clone, Copy, Debug, PartialEq, Eq, Structural)]
pub struct CapabilityRealization {
    const_const: CapabilityRealizationCell,
    const_plain: CapabilityRealizationCell,
    const_mut: CapabilityRealizationCell,
    plain_const: CapabilityRealizationCell,
    plain_plain: CapabilityRealizationCell,
    plain_mut: CapabilityRealizationCell,
    mut_const: CapabilityRealizationCell,
    mut_plain: CapabilityRealizationCell,
    mut_mut: CapabilityRealizationCell,
}

/// The mode at a position of the mode order.
pub open spec fn mode_at(index: int) -> PolicyMode {
    if index == 0 {
        PolicyMode::Const
    } else if index == 1 {
        PolicyMode::Plain
    } else {
        PolicyMode::Mut
    }
}

impl CapabilityRealization {
    /// The cell at one input x output coordinate.
    pub closed spec fn cell_spec(self, input: PolicyMode, output: PolicyMode) -> CapabilityRealizationCell {
        match (input, output) {
            (PolicyMode::Const, PolicyMode::Const) => self.const_const,
            (PolicyMode::Const, PolicyMode::Plain) => self.const_plain,
            (PolicyMode::Const, PolicyMode::Mut) => self.const_mut,
            (PolicyMode::Plain, PolicyMode::Const) => self.plain_const,
            (PolicyMode::Plain, PolicyMode::Plain) => self.plain_plain,
            (PolicyMode::Plain, PolicyMode::Mut) => self.plain_mut,
            (PolicyMode::Mut, PolicyMode::Const) => self.mut_const,
            (PolicyMode::Mut, PolicyMode::Plain) => self.mut_plain,
            (PolicyMode::Mut, PolicyMode::Mut) => self.mut_mut,
        }
    }

    pub fn set(&mut self, input: PolicyMode, output: PolicyMode, cell: CapabilityRealizationCell)
        ensures
            final(self).cell_spec(input, output) == cell,
            forall|i: PolicyMode, o: PolicyMode|
                (i, o) != (input, output) ==> #[trigger] final(self).cell_spec(i, o) == old(
                    self,
                ).cell_spec(i, o),
    {
        match (input, output) {
            (PolicyMode::Const, PolicyMode::Const) => self.const_const = cell,
            (PolicyMode::Const, PolicyMode::Plain) => self.const_plain = cell,
            (PolicyMode::Const, PolicyMode::Mut) => self.const_mut = cell,
            (PolicyMode::Plain, PolicyMode::Const) => self.plain_const = cell,
            (PolicyMode::Plain, PolicyMode::Plain) => self.plain_plain = cell,
            (PolicyMode::Plain, PolicyMode::Mut) => self.plain_mut = cell,
            (PolicyMode::Mut, PolicyMode::Const) => self.mut_const = cell,
            (PolicyMode::Mut, PolicyMode::Plain) => self.mut_plain = cell,
            (PolicyMode::Mut, PolicyMode::Mut) => self.mut_mut = cell,
        }
    }

    pub fn cell(&self, input: PolicyMode, output: PolicyMode) -> (r: CapabilityRealizationCell)
        ensures
            r == self.cell_spec(input, output),
    {
        match (input, output) {
            (PolicyMode::Const, PolicyMode::Const) => self.const_const,
            (PolicyMode::Const, PolicyMode::Plain) => self.const_plain,
            (PolicyMode::Const, PolicyMode::Mut) => self.const_mut,
            (PolicyMode::Plain, PolicyMode::Const) => self.plain_const,
            (PolicyMode::Plain, PolicyMode::Plain) => self.plain_plain,
            (PolicyMode::Plain, PolicyMode::Mut) => self.plain_mut,
            (PolicyMode::Mut, PolicyMode::Const) => self.mut_const,
            (PolicyMode::Mut, PolicyMode::Plain) => self.mut_plain,
            (PolicyMode::Mut, PolicyMode::Mut) => self.mut_mut,
        }
    }

    /// Every coordinate with its cell, input-major in mode order.
    pub fn iter(&self) -> (r: Vec<((PolicyMode, PolicyMode), CapabilityRealizationCell)>)
        ensures
            r@.len() == 9,
            forall|k: int|
                0 <= k < 9 ==> #[trigger] r@[k] == ((mode_at(k / 3), mode_at(k % 3)), self.cell_spec(
                    mode_at(k / 3),
                    mode_at(k % 3),
                )),
    {
        let mut r: Vec<((PolicyMode, PolicyMode), CapabilityRealizationCell)> = Vec::new();
        r.push(((PolicyMode::Const, PolicyMode::Const), self.const_const));
        r.push(((PolicyMode::Const, PolicyMode::Plain), self.const_plain));
        r.push(((PolicyMode::Const, PolicyMode::Mut), self.const_mut));
        r.push(((PolicyMode::Plain, PolicyMode::Const), self.plain_const));
        r.push(((PolicyMode::Plain, PolicyMode::Plain), self.plain_plain));
        r.push(((PolicyMode::Plain, PolicyMode::Mut), self.plain_mut));
        r.push(((PolicyMode::Mut, PolicyMode::Const), self.mut_const));
        r.push(((PolicyMode::Mut, PolicyMode::Plain), self.mut_plain));
        r.push(((PolicyMode::Mut, PolicyMode::Mut), self.mut_mut));
        assert forall|k: int|
            0 <= k < 9 implies #[trigger] r@[k] == ((mode_at(k / 3), mode_at(k % 3)), self.cell_spec(
                mode_at(k / 3),
                mode_at(k % 3),
            )) by {
            assert(k == 0 || k == 1 || k == 2 || k == 3 || k == 4 || k == 5 || k == 6 || k == 7
                || k == 8);
        }
        r
    }
}

impl Default for CapabilityRealization {
    /// Every coordinate starts `Absent`.
    fn default() -> (r: CapabilityRealization)
        ensures
            forall|i: PolicyMode, o: PolicyMode| #[trigger] r.cell_spec(i, o)
                == CapabilityRealizationCell::Absent,
    {
        let a = CapabilityRealizationCell::Absent;
        CapabilityRealization {
            const_const: a,
            const_plain: a,
            const_mut: a,
            plain_const: a,
            plain_plain: a,
            plain_mut: a,
            mut_const: a,
            mut_plain: a,
            mut_mut: a,
        }
    }
}

#[derive(Clone, Copy, Debug, PartialEq, Eq, PartialOrd, Ord, Hash, Structural)]
pub enum NamespaceVisibility {
    Public,
    Private,
}

/// The aggregate shape of a callable's invocation result.
///
/// The return shape is elaborated once from the return-slot annotation; it is
/// never derived from the Policy stage, and no stage is ever derived from it.
/// The only relation between P2 and the shape is the legality check
/// [`validate_return_shape`].
#[derive(Clone, Copy, Debug, PartialEq, Eq, Structural)]
pub enum ReturnShape {
    /// Value-less pure shape.
    Unit,
    /// A single pure-P type result.
    SingleType,
    /// A single ordinary value result.
    SingleVal(PatternConstraint),
    /// Plural values under one name at one position.
    ClusterSymbol,
}

/// Presence fact of the return-slot value-pattern constraint.
#[derive(Clone, Copy, Debug, PartialEq, Eq, Structural)]
pub enum PatternConstraint {
    Unconstrained,
    Constrained,
}

/// Independent capability axis of callable semantics.
#[derive(Clone, Copy, Debug, PartialEq, Eq, Structural)]
pub enum CallablePrivilege {
    OrdinarySource,
    BuiltinPrivileged,
}

#[derive(Clone, Copy, Debug, PartialEq, Eq, Structural)]
pub enum ValuePresence {
    Present,
    Optional,
    Absent,
}

#[derive(Clone, Copy, Debug, PartialEq, Eq, Structural)]
pub struct ValueComponentPolicy {
    pub stages: StageSet,
    pub presence: ValuePresence,
}

#[derive(Clone, Copy, Debug, PartialEq, Eq, Structural)]
pub struct PatternComponentPolicy {
    pub stages: StageSet,
}

#[derive(Clone, Copy, Debug, PartialEq, Eq, Structural)]
pub struct PolicyPair {
    pub value: ValueComponentPolicy,
    pub pattern: PatternComponentPolicy,
}

/// One complete observation edge. The pair and the whole-slot mode are
/// orthogonal semantic facts: neither may be reconstructed from the other.
#[derive(Clone, Copy, Debug, PartialEq, Eq, Structural)]
pub struct PolicyView {
    pub pair: PolicyPair,
    pub mode: PolicyMode,
}

/// A Policy pair whose value and pattern stages both admit exactly one meta
/// stage in their union.
pub open spec fn pure_meta_result(p2: PolicyPair) -> bool {
    let stages = p2.value.stages.union_spec(p2.pattern.stages);
    stages.count() == 1 && stages.meta
}

/// `Validate(P2, ReturnShape)`: a `ClusterSymbol` return requires a result
/// domain whose stages are exactly `{meta}`; every other shape is legal.
pub fn validate_return_shape(shape: ReturnShape, p2: &PolicyPair, provenance: &Provenance) -> (r:
    Result<(), Diagnostic>)
    ensures
        r is Ok <==> (shape != ReturnShape::ClusterSymbol || pure_meta_result(*p2)),
        r matches Err(d) ==> d == (Diagnostic {
            kind: DiagnosticKind::ClusterSymbolRequiresPureMeta,
            provenance: Some(*provenance),
        }),
{
    let stages = p2.value.stages.union(&p2.pattern.stages);
    let includes_meta = stages.contains(PolicyStage::Meta);
    let cluster_construction_authorized = stages.len() == 1 && includes_meta;
    match shape {
        ReturnShape::ClusterSymbol => {
            if !cluster_construction_authorized {
                return Err(
                    Diagnostic::hard_error(
                        DiagnosticKind::ClusterSymbolRequiresPureMeta,
                        Some(provenance.copied()),
                    ),
                );
            }
            Ok(())
        },
        _ => Ok(()),
    }
}

/// Presence `a` admits no more than presence `b`: equal, or `b` optional.
pub open spec fn presence_le(a: ValuePresence, b: ValuePresence) -> bool {
    a == b || b == ValuePresence::Optional
}

/// Policy `a` admits no more than Policy `b`: its stage domains are
/// contained in `b`'s and its presence admits no more.
pub open spec fn policy_le(a: PolicyPair, b: PolicyPair) -> bool {
    &&& a.value.stages.subset_spec(b.value.stages)
    &&& presence_le(a.value.presence, b.value.presence)
    &&& a.pattern.stages.subset_spec(b.pattern.stages)
}

/// Policy disjunction is the least upper bound of its operands: it admits
/// everything either operand admits, and any Policy admitting both admits
/// it.
pub proof fn lemma_policy_or_least_upper_bound(a: PolicyPair, b: PolicyPair, c: PolicyPair)
    ensures
        policy_le(a, policy_or_spec(a, b)),
        policy_le(b, policy_or_spec(a, b)),
        policy_le(a, c) && policy_le(b, c) ==> policy_le(policy_or_spec(a, b), c),
{
}

/// Policy disjunction is commutative.
pub proof fn lemma_policy_or_commutative(a: PolicyPair, b: PolicyPair)
    ensures
        policy_or_spec(a, b) == policy_or_spec(b, a),
{
}

/// Policy disjunction is associative.
pub proof fn lemma_policy_or_associative(a: PolicyPair, b: PolicyPair, c: PolicyPair)
    ensures
        policy_or_spec(policy_or_spec(a, b), c) == policy_or_spec(a, policy_or_spec(b, c)),
{
}

/// Policy disjunction is idempotent.
pub proof fn lemma_policy_or_idempotent(a: PolicyPair)
    ensures
        policy_or_spec(a, a) == a,
{
}

/// `policy_le` is a partial order: reflexive, transitive and antisymmetric.
pub proof fn lemma_policy_le_partial_order(a: PolicyPair, b: PolicyPair, c: PolicyPair)
    ensures
        policy_le(a, a),
        policy_le(a, b) && policy_le(b, c) ==> policy_le(a, c),
        policy_le(a, b) && policy_le(b, a) ==> a == b,
{
}

/// The presence component of a Policy disjunction.
pub open spec fn presence_or(a: ValuePresence, b: ValuePresence) -> ValuePresence {
    if a == ValuePresence::Present && b == ValuePresence::Present {
        ValuePresence::Present
    } else if a == ValuePresence::Absent && b == ValuePresence::Absent {
        ValuePresence::Absent
    } else {
        ValuePresence::Optional
    }
}

/// Policy disjunction, componentwise.
pub open spec fn policy_or_spec(a: PolicyPair, b: PolicyPair) -> PolicyPair {
    PolicyPair {
        value: ValueComponentPolicy {
            stages: a.value.stages.union_spec(b.value.stages),
            presence: presence_or(a.value.presence, b.value.presence),
        },
        pattern: PatternComponentPolicy { stages: a.pattern.stages.union_spec(b.pattern.stages) },
    }
}

/// Policy disjunction: the least Policy admitting everything either operand
/// admits. Stages are united on both components; presence is `Present` or
/// `Absent` only when both operands agree on it, and `Optional` otherwise.
/// Whole-slot PolicyMode is deliberately absent.
pub fn policy_or(a: &PolicyPair, b: &PolicyPair) -> (r: PolicyPair)
    ensures
        r == policy_or_spec(*a, *b),
        r.value.stages@ == a.value.stages@.union(b.value.stages@),
        r.pattern.stages@ == a.pattern.stages@.union(b.pattern.stages@),
{
    let presence = match (a.value.presence, b.value.presence) {
        (ValuePresence::Present, ValuePresence::Present) => ValuePresence::Present,
        (ValuePresence::Absent, ValuePresence::Absent) => ValuePresence::Absent,
        _ => ValuePresence::Optional,
    };
    PolicyPair {
        value: ValueComponentPolicy { stages: a.value.stages.union(&b.value.stages), presence },
        pattern: PatternComponentPolicy { stages: a.pattern.stages.union(&b.pattern.stages) },
    }
}

/// Namespace declaration attributes adjacent to, but never part of, a
/// callable's canonical `Pv:Pp` pair.
#[derive(Clone, Copy, Debug, PartialEq, Eq, Structural)]
pub struct DeclarationVisibility {
    pub namespace_visibility: Option<NamespaceVisibility>,
    pub export_root: bool,
}

impl Default for DeclarationVisibility {
    fn default() -> (r: DeclarationVisibility)
        ensures
            r.namespace_visibility is None,
            !r.export_root,
    {
        DeclarationVisibility { namespace_visibility: None, export_root: false }
    }
}

/// The stage domain a body entry is judged on: the value stages when there
/// are any, otherwise the pattern stages.
pub open spec fn body_entry_domain(p2: PolicyPair) -> StageSet {
    if p2.value.stages.empty_spec() {
        p2.pattern.stages
    } else {
        p2.value.stages
    }
}

/// Whether a stage domain admits execution in an environment.
pub open spec fn domain_allows_execution(stages: StageSet, env: ExecutionEnv) -> bool {
    match env {
        ExecutionEnv::OpenStatic => stages.meta || stages.compile,
        ExecutionEnv::SealStatic => stages.seal || stages.compile,
        ExecutionEnv::Runtime => stages.runtime,
    }
}

/// The phase an execution environment runs in.
pub open spec fn environment_phase(env: ExecutionEnv) -> Phase {
    match env {
        ExecutionEnv::OpenStatic => Phase::OpenStatic,
        ExecutionEnv::SealStatic => Phase::SealStatic,
        ExecutionEnv::Runtime => Phase::Runtime,
    }
}

/// A body may run in an environment exactly when some stage of its
/// body-entry domain is visible in that environment's phase: `compile`
/// admits both static environments, `meta` only the open one, `seal` only
/// the sealed one, and `runtime` only the runtime environment.
pub proof fn lemma_body_entry_follows_stage_visibility(p2: PolicyPair, env: ExecutionEnv)
    ensures
        domain_allows_execution(body_entry_domain(p2), env) == exists|stage: PolicyStage|
            body_entry_domain(p2).has(stage) && #[trigger] stage_visible_at(stage, environment_phase(env)),
{
    let d = body_entry_domain(p2);
    let phase = environment_phase(env);
    if domain_allows_execution(d, env) {
        let stage = match env {
            ExecutionEnv::OpenStatic => if d.meta {
                PolicyStage::Meta
            } else {
                PolicyStage::Compile
            },
            ExecutionEnv::SealStatic => if d.seal {
                PolicyStage::Seal
            } else {
                PolicyStage::Compile
            },
            ExecutionEnv::Runtime => PolicyStage::Runtime,
        };
        assert(d.has(stage) && stage_visible_at(stage, phase));
    }
    if exists|stage: PolicyStage| d.has(stage) && #[trigger] stage_visible_at(stage, phase) {
        let stage = choose|stage: PolicyStage| d.has(stage) && #[trigger] stage_visible_at(stage, phase);
        match stage {
            PolicyStage::Meta => {},
            PolicyStage::Compile => {},
            PolicyStage::Seal => {},
            PolicyStage::Runtime => {},
        }
    }
}

/// Body entry is judged on the value stages when there are any, and then
/// the Pattern stages do not matter; without value stages it is judged on
/// the Pattern stages.
pub proof fn lemma_body_entry_reads_value_stages_first(p2: PolicyPair, q2: PolicyPair, env: ExecutionEnv)
    ensures
        !p2.value.stages.empty_spec() && q2.value.stages == p2.value.stages ==> domain_allows_execution(
            body_entry_domain(p2),
            env,
        ) == domain_allows_execution(body_entry_domain(q2), env),
        !p2.value.stages.empty_spec() ==> (domain_allows_execution(body_entry_domain(p2), env) == exists|
            stage: PolicyStage,
        | p2.value.stages.has(stage) && #[trigger] stage_visible_at(stage, environment_phase(env))),
        p2.value.stages.empty_spec() ==> (domain_allows_execution(body_entry_domain(p2), env) == exists|
            stage: PolicyStage,
        | p2.pattern.stages.has(stage) && #[trigger] stage_visible_at(stage, environment_phase(env))),
{
    lemma_body_entry_follows_stage_visibility(p2, env);
    lemma_body_entry_follows_stage_visibility(q2, env);
}

/// Body-entry admissibility judged directly on the callable's result P2.
pub fn body_entry_allows_execution(p2: &PolicyPair, env: ExecutionEnv) -> (r: bool)
    ensures
        r == domain_allows_execution(body_entry_domain(*p2), env),
{
    let stages = if p2.value.stages.is_empty() {
        &p2.pattern.stages
    } else {
        &p2.value.stages
    };
    match env {
        ExecutionEnv::OpenStatic => stages.contains(PolicyStage::Meta) || stages.contains(
            PolicyStage::Compile,
        ),
        ExecutionEnv::SealStatic => stages.contains(PolicyStage::Seal) || stages.contains(
            PolicyStage::Compile,
        ),
        ExecutionEnv::Runtime => stages.contains(PolicyStage::Runtime),
    }
}

#[derive(Clone, Copy, Debug, PartialEq, Eq, Structural)]
pub enum P1Projection {
    Infer,
    ValueDominant { value: ValueComponentPolicy },
    Pair(PolicyPair),
}

/// Candidate-independent result demand formed before root-call maxima.
#[derive(Clone, Copy, Debug, PartialEq, Eq, Structural)]
pub struct ResultPolicyDemand {
    pub pair_query: P1Projection,
    pub mode: PolicyMode,
}

impl Default for ResultPolicyDemand {
    fn default() -> (r: ResultPolicyDemand)
        ensures
            r == (ResultPolicyDemand { pair_query: P1Projection::Infer, mode: PolicyMode::Plain }),
    {
        ResultPolicyDemand { pair_query: P1Projection::Infer, mode: PolicyMode::Plain }
    }
}

#[derive(Clone, Copy, Debug, PartialEq, Eq, Structural)]
pub struct FormalPolicyPattern {
    /// The parameter policy inherited from its callable P2.
    pub effective_pair: PolicyPair,
    /// Total overload-preference point.
    pub mode: PolicyMode,
}

/// Effective policy of a declared return position.
#[derive(Clone, Copy, Debug, PartialEq, Eq, Structural)]
pub struct ReturnPolicyPattern {
    pub effective_view: PolicyView,
}

#[derive(Clone, Copy, Debug, PartialEq, Eq, Structural)]
pub enum NamespaceDeclarationPosition {
    DirectTopLevel,
    Local,
}

#[derive(Clone, Copy, Debug, PartialEq, Eq, Structural)]
pub struct NamespaceDeclarationPolicy {
    /// The complete namespace-internal declaration view.
    pub projection: P1Projection,
    /// Whole-slot declaration mode.
    pub mode: PolicyMode,
    /// Root-local external projection derived when this declaration directly
    /// writes `export`.
    pub external_projection: Option<P1Projection>,
    pub visibility: Option<NamespaceVisibility>,
    pub export_root: bool,
}

#[derive(Clone, Copy, Debug, PartialEq, Eq, Structural)]
pub struct FunctionObjectDeclarationPolicy {
    /// Concrete whole-slot mode. Omitted source syntax forms `plain`.
    pub mode: PolicyMode,
}

impl Default for FunctionObjectDeclarationPolicy {
    fn default() -> (r: FunctionObjectDeclarationPolicy)
        ensures
            r.mode == PolicyMode::Plain,
    {
        FunctionObjectDeclarationPolicy { mode: PolicyMode::Plain }
    }
}

/// One result entry: an optional value identity, its Pattern identity and the
/// Policy view it is observed through.
#[derive(Clone, Copy, Debug, PartialEq, Eq)]
pub struct PolicyResultEntry<V, P> {
    pub value: Option<V>,
    pub pattern: P,
    pub view: PolicyView,
}

pub fn function_object_declaration_policy(declaration: &NamespaceDeclarationPolicy) -> (r:
    FunctionObjectDeclarationPolicy)
    ensures
        r.mode == declaration.mode,
{
    FunctionObjectDeclarationPolicy { mode: declaration.mode }
}

/// The view of a standalone function object over a callable's result P2:
/// its value is present in every stage of either result component, its
/// Pattern keeps the result Pattern stages, and its mode is the declared mode.
pub fn derive_function_object_view(
    result_p2: &PolicyView,
    declaration: &FunctionObjectDeclarationPolicy,
) -> (r: PolicyView)
    ensures
        r.pair.value.stages == result_p2.pair.value.stages.union_spec(result_p2.pair.pattern.stages),
        r.pair.value.presence == ValuePresence::Present,
        r.pair.pattern == result_p2.pair.pattern,
        r.mode == declaration.mode,
{
    PolicyView {
        pair: PolicyPair {
            value: ValueComponentPolicy {
                stages: result_p2.pair.value.stages.union(&result_p2.pair.pattern.stages),
                presence: ValuePresence::Present,
            },
            pattern: PatternComponentPolicy { stages: result_p2.pair.pattern.stages },
        },
        mode: declaration.mode,
    }
}

// ---------------------------------------------------------------------------
// Atoms of one written policy component
// ---------------------------------------------------------------------------

/// A set of whole-slot modes.
#[derive(Clone, Copy, Debug, PartialEq, Eq, Structural)]
pub struct ModeSet {
    pub const_mode: bool,
    pub plain_mode: bool,
    pub mut_mode: bool,
}

impl ModeSet {
    pub open spec fn count(self) -> nat {
        (if self.const_mode { 1nat } else { 0nat }) + (if self.plain_mode { 1nat } else { 0nat }) + (
        if self.mut_mode {
            1nat
        } else {
            0nat
        })
    }

    pub open spec fn union_spec(self, other: ModeSet) -> ModeSet {
        ModeSet {
            const_mode: self.const_mode || other.const_mode,
            plain_mode: self.plain_mode || other.plain_mode,
            mut_mode: self.mut_mode || other.mut_mode,
        }
    }

    /// The least member in mode order.
    pub open spec fn first(self) -> PolicyMode {
        if self.const_mode {
            PolicyMode::Const
        } else if self.plain_mode {
            PolicyMode::Plain
        } else {
            PolicyMode::Mut
        }
    }
}

/// A set of namespace visibilities.
#[derive(Clone, Copy, Debug, PartialEq, Eq, Structural)]
pub struct VisibilitySet {
    pub public: bool,
    pub private: bool,
}

impl VisibilitySet {
    pub open spec fn union_spec(self, other: VisibilitySet) -> VisibilitySet {
        VisibilitySet {
            public: self.public || other.public,
            private: self.private || other.private,
        }
    }

    pub open spec fn is_empty_spec(self) -> bool {
        !self.public && !self.private
    }
}

/// The atoms collected from one policy component.
#[derive(Clone, Copy, Debug, PartialEq, Eq, Structural)]
pub struct ComponentAtoms {
    pub stages: StageSet,
    pub mode_atoms: ModeSet,
    pub namespace: VisibilitySet,
    pub export_root: bool,
    pub absent_value: bool,
}

/// The dimensions written in one component.
#[derive(Clone, Copy, Debug, PartialEq, Eq, Structural)]
pub struct DimensionSet {
    pub stage: bool,
    pub mode: bool,
    pub namespace_visibility: bool,
    pub export_root: bool,
    pub value_presence: bool,
}

#[derive(Clone, Copy, Debug, PartialEq, Eq, Structural)]
pub enum PolicyDimension {
    Stage,
    Mode,
    NamespaceVisibility,
    ExportRoot,
    ValuePresence,
}

impl DimensionSet {
    pub open spec fn count(self) -> nat {
        (if self.stage { 1nat } else { 0nat }) + (if self.mode { 1nat } else { 0nat }) + (
        if self.namespace_visibility {
            1nat
        } else {
            0nat
        }) + (if self.export_root { 1nat } else { 0nat }) + (if self.value_presence {
            1nat
        } else {
            0nat
        })
    }

    pub open spec fn overlaps(self, other: DimensionSet) -> bool {
        (self.stage && other.stage) || (self.mode && other.mode) || (self.namespace_visibility
            && other.namespace_visibility) || (self.export_root && other.export_root) || (
        self.value_presence && other.value_presence)
    }

    /// Only stage and/or value-presence dimensions, and at least one.
    pub open spec fn stage_or_absent(self) -> bool {
        (self.stage || self.value_presence) && !self.mode && !self.namespace_visibility
            && !self.export_root
    }
}

pub open spec fn empty_atoms() -> ComponentAtoms {
    ComponentAtoms {
        stages: StageSet { meta: false, compile: false, seal: false, runtime: false },
        mode_atoms: ModeSet { const_mode: false, plain_mode: false, mut_mode: false },
        namespace: VisibilitySet { public: false, private: false },
        export_root: false,
        absent_value: false,
    }
}

/// Componentwise union of two atom collections.
pub open spec fn atoms_union(a: ComponentAtoms, b: ComponentAtoms) -> ComponentAtoms {
    ComponentAtoms {
        stages: a.stages.union_spec(b.stages),
        mode_atoms: a.mode_atoms.union_spec(b.mode_atoms),
        namespace: a.namespace.union_spec(b.namespace),
        export_root: a.export_root || b.export_root,
        absent_value: a.absent_value || b.absent_value,
    }
}

pub open spec fn atoms_dimensions(a: ComponentAtoms) -> DimensionSet {
    DimensionSet {
        stage: !a.stages.empty_spec(),
        mode: a.mode_atoms.count() > 0,
        namespace_visibility: !a.namespace.is_empty_spec(),
        export_root: a.export_root,
        value_presence: a.absent_value,
    }
}

/// Value presence written by one component: absence with stages is optional,
/// absence alone is absent, and no absence is present.
pub open spec fn atoms_presence(a: ComponentAtoms) -> ValuePresence {
    if a.absent_value && a.stages.empty_spec() {
        ValuePresence::Absent
    } else if a.absent_value {
        ValuePresence::Optional
    } else {
        ValuePresence::Present
    }
}

/// The atoms of one named policy atom.
pub open spec fn name_atom_spec(text: Seq<char>) -> Option<ComponentAtoms> {
    let e = empty_atoms();
    if text == "meta"@ {
        Some(ComponentAtoms { stages: StageSet { meta: true, ..e.stages }, ..e })
    } else if text == "compile"@ {
        Some(ComponentAtoms { stages: StageSet { compile: true, ..e.stages }, ..e })
    } else if text == "seal"@ {
        Some(ComponentAtoms { stages: StageSet { seal: true, ..e.stages }, ..e })
    } else if text == "runtime"@ {
        Some(ComponentAtoms { stages: StageSet { runtime: true, ..e.stages }, ..e })
    } else if text == "const"@ {
        Some(ComponentAtoms { mode_atoms: ModeSet { const_mode: true, ..e.mode_atoms }, ..e })
    } else if text == "plain"@ {
        Some(ComponentAtoms { mode_atoms: ModeSet { plain_mode: true, ..e.mode_atoms }, ..e })
    } else if text == "mut"@ {
        Some(ComponentAtoms { mode_atoms: ModeSet { mut_mode: true, ..e.mode_atoms }, ..e })
    } else if text == "public"@ {
        Some(ComponentAtoms { namespace: VisibilitySet { public: true, private: false }, ..e })
    } else if text == "private"@ {
        Some(ComponentAtoms { namespace: VisibilitySet { public: false, private: true }, ..e })
    } else if text == "export"@ {
        Some(ComponentAtoms { export_root: true, ..e })
    } else {
        None
    }
}

/// `+` of two parsed components.
pub open spec fn merge_conjunction_spec(a: ComponentAtoms, b: ComponentAtoms) -> Result<
    ComponentAtoms,
    DiagnosticKind,
> {
    if atoms_dimensions(a).overlaps(atoms_dimensions(b)) {
        Err(DiagnosticKind::SameDimensionConjunction)
    } else if (a.absent_value && !b.stages.empty_spec()) || (b.absent_value
        && !a.stages.empty_spec()) {
        Err(DiagnosticKind::AbsenceConjoinedWithStages)
    } else {
        Ok(atoms_union(a, b))
    }
}

/// Union of the first `n` alternatives.
pub open spec fn union_all(alts: Seq<ComponentAtoms>, n: int) -> ComponentAtoms
    decreases n,
{
    if n <= 0 {
        empty_atoms()
    } else {
        atoms_union(union_all(alts, n - 1), alts[n - 1])
    }
}

/// `||` over successfully parsed alternatives: one alternative stands for
/// itself; several are admitted when they all write the same single
/// dimension, or all write only stage/absence dimensions, and then denote
/// their union.
pub open spec fn choice_of_alternatives(alts: Seq<ComponentAtoms>) -> Result<
    ComponentAtoms,
    DiagnosticKind,
> {
    if alts.len() == 1 {
        Ok(alts[0])
    } else if (alts.len() > 0 && atoms_dimensions(alts[0]).count() == 1 && forall|i: int|
        0 <= i < alts.len() ==> #[trigger] atoms_dimensions(alts[i]) == atoms_dimensions(alts[0]))
        || (forall|i: int|
        0 <= i < alts.len() ==> #[trigger] atoms_dimensions(alts[i]).stage_or_absent()) {
        Ok(union_all(alts, alts.len() as int))
    } else {
        Err(DiagnosticKind::MixedDimensionChoice)
    }
}

/// Parse atoms `j..` of a choice, collecting the alternatives parsed so far.
pub open spec fn parse_atoms_from(
    choice: NormPolicyChoice,
    j: int,
    allow_absent: bool,
    acc: Seq<ComponentAtoms>,
) -> Result<ComponentAtoms, DiagnosticKind>
    decreases choice, choice.atoms@.len() - j,
{
    if j < 0 || j >= choice.atoms@.len() {
        choice_of_alternatives(acc)
    } else {
        match parse_atom_spec(choice.atoms@[j], allow_absent) {
            Err(k) => Err(k),
            Ok(a) => parse_atoms_from(choice, j + 1, allow_absent, acc.push(a)),
        }
    }
}

/// Parse one `||`-choice.
pub open spec fn parse_choice_spec(choice: NormPolicyChoice, allow_absent: bool) -> Result<
    ComponentAtoms,
    DiagnosticKind,
>
    decreases choice, choice.atoms@.len() + 1,
{
    parse_atoms_from(choice, 0, allow_absent, Seq::empty())
}

/// Parse choices `i..` of a conjunction into the accumulated atoms.
pub open spec fn parse_choices_from(
    conjunction: NormPolicyConjunction,
    i: int,
    allow_absent: bool,
    acc: ComponentAtoms,
) -> Result<ComponentAtoms, DiagnosticKind>
    decreases conjunction, conjunction.choices@.len() - i,
{
    if i < 0 || i >= conjunction.choices@.len() {
        Ok(acc)
    } else {
        match parse_choice_spec(conjunction.choices@[i], allow_absent) {
            Err(k) => Err(k),
            Ok(next) => match merge_conjunction_spec(acc, next) {
                Err(k) => Err(k),
                Ok(merged) => parse_choices_from(conjunction, i + 1, allow_absent, merged),
            },
        }
    }
}

/// Parse one `+`-conjunction.
pub open spec fn parse_component_spec(conjunction: NormPolicyConjunction, allow_absent: bool) -> Result<
    ComponentAtoms,
    DiagnosticKind,
>
    decreases conjunction, conjunction.choices@.len() + 1,
{
    parse_choices_from(conjunction, 0, allow_absent, empty_atoms())
}

/// Parse one atom.
pub open spec fn parse_atom_spec(atom: NormPolicyAtom, allow_absent: bool) -> Result<
    ComponentAtoms,
    DiagnosticKind,
>
    decreases atom, 0int,
{
    match atom {
        NormPolicyAtom::Name { text } => match name_atom_spec(text@) {
            Some(a) => Ok(a),
            None => Err(DiagnosticKind::UnknownPolicyAtom(text)),
        },
        NormPolicyAtom::HoleRef { text } => Err(DiagnosticKind::HolePolicyAtom(text)),
        NormPolicyAtom::Group { conjunction } => parse_component_spec(conjunction, allow_absent),
        NormPolicyAtom::AbsentValuePattern => if allow_absent {
            Ok(ComponentAtoms { absent_value: true, ..empty_atoms() })
        } else {
            Err(DiagnosticKind::AbsentOutsideValueComponent)
        },
        NormPolicyAtom::Error => Err(DiagnosticKind::InvalidPolicyAst),
    }
}

/// Character-wise equality of two strings.
pub fn text_eq(a: &str, b: &str) -> (r: bool)
    ensures
        r == (a@ == b@),
{
    let n = a.unicode_len();
    if n != b.unicode_len() {
        return false;
    }
    let mut i: usize = 0;
    while i < n
        invariant
            n == a@.len(),
            n == b@.len(),
            i <= n,
            forall|k: int| 0 <= k < i ==> a@[k] == b@[k],
        decreases n - i,
    {
        if a.get_char(i) != b.get_char(i) {
            return false;
        }
        i = i + 1;
    }
    assert(a@ =~= b@);
    true
}

fn parse_name_atom(text: &String) -> (r: Option<ComponentAtoms>)
    ensures
        r == name_atom_spec(text@),
{
    let t = text.as_str();
    let mut a = empty_atoms_exec();
    if text_eq(t, "meta") {
        a.stages.meta = true;
    } else if text_eq(t, "compile") {
        a.stages.compile = true;
    } else if text_eq(t, "seal") {
        a.stages.seal = true;
    } else if text_eq(t, "runtime") {
        a.stages.runtime = true;
    } else if text_eq(t, "const") {
        a.mode_atoms.const_mode = true;
    } else if text_eq(t, "plain") {
        a.mode_atoms.plain_mode = true;
    } else if text_eq(t, "mut") {
        a.mode_atoms.mut_mode = true;
    } else if text_eq(t, "public") {
        a.namespace.public = true;
    } else if text_eq(t, "private") {
        a.namespace.private = true;
    } else if text_eq(t, "export") {
        a.export_root = true;
    } else {
        return None;
    }
    Some(a)
}

fn empty_atoms_exec() -> (r: ComponentAtoms)
    ensures
        r == empty_atoms(),
{
    ComponentAtoms {
        stages: StageSet::new(),
        mode_atoms: ModeSet { const_mode: false, plain_mode: false, mut_mode: false },
        namespace: VisibilitySet { public: false, private: false },
        export_root: false,
        absent_value: false,
    }
}

impl ModeSet {
    pub fn len(&self) -> (r: usize)
        ensures
            r == self.count(),
    {
        let mut n: usize = 0;
        if self.const_mode {
            n = n + 1;
        }
        if self.plain_mode {
            n = n + 1;
        }
        if self.mut_mode {
            n = n + 1;
        }
        n
    }
}

impl ComponentAtoms {
    pub fn dimensions(&self) -> (r: DimensionSet)
        ensures
            r == atoms_dimensions(*self),
    {
        DimensionSet {
            stage: !self.stages.is_empty(),
            mode: self.mode_atoms.len() > 0,
            namespace_visibility: self.namespace.public || self.namespace.private,
            export_root: self.export_root,
            value_presence: self.absent_value,
        }
    }

    pub fn presence(&self) -> (r: ValuePresence)
        ensures
            r == atoms_presence(*self),
    {
        match (self.absent_value, self.stages.is_empty()) {
            (true, true) => ValuePresence::Absent,
            (true, false) => ValuePresence::Optional,
            (false, _) => ValuePresence::Present,
        }
    }
}

/// The dimensions that contain exactly one given dimension.
pub open spec fn only_dimension(d: PolicyDimension) -> DimensionSet {
    DimensionSet {
        stage: d == PolicyDimension::Stage,
        mode: d == PolicyDimension::Mode,
        namespace_visibility: d == PolicyDimension::NamespaceVisibility,
        export_root: d == PolicyDimension::ExportRoot,
        value_presence: d == PolicyDimension::ValuePresence,
    }
}

impl DimensionSet {
    /// The single written dimension, if exactly one is written.
    fn single(&self) -> (r: Option<PolicyDimension>)
        ensures
            r is Some <==> self.count() == 1,
            r matches Some(d) ==> *self == only_dimension(d),
    {
        let n = (if self.stage { 1u8 } else { 0u8 }) + (if self.mode { 1u8 } else { 0u8 }) + (
        if self.namespace_visibility {
            1u8
        } else {
            0u8
        }) + (if self.export_root { 1u8 } else { 0u8 }) + (if self.value_presence {
            1u8
        } else {
            0u8
        });
        if n != 1 {
            None
        } else if self.stage {
            Some(PolicyDimension::Stage)
        } else if self.mode {
            Some(PolicyDimension::Mode)
        } else if self.namespace_visibility {
            Some(PolicyDimension::NamespaceVisibility)
        } else if self.export_root {
            Some(PolicyDimension::ExportRoot)
        } else {
            Some(PolicyDimension::ValuePresence)
        }
    }

    fn overlaps_exec(&self, other: &DimensionSet) -> (r: bool)
        ensures
            r == self.overlaps(*other),
    {
        (self.stage && other.stage) || (self.mode && other.mode) || (self.namespace_visibility
            && other.namespace_visibility) || (self.export_root && other.export_root) || (
        self.value_presence && other.value_presence)
    }
}

fn atoms_union_exec(a: &ComponentAtoms, b: &ComponentAtoms) -> (r: ComponentAtoms)
    ensures
        r == atoms_union(*a, *b),
{
    ComponentAtoms {
        stages: a.stages.union(&b.stages),
        mode_atoms: ModeSet {
            const_mode: a.mode_atoms.const_mode || b.mode_atoms.const_mode,
            plain_mode: a.mode_atoms.plain_mode || b.mode_atoms.plain_mode,
            mut_mode: a.mode_atoms.mut_mode || b.mode_atoms.mut_mode,
        },
        namespace: VisibilitySet {
            public: a.namespace.public || b.namespace.public,
            private: a.namespace.private || b.namespace.private,
        },
        export_root: a.export_root || b.export_root,
        absent_value: a.absent_value || b.absent_value,
    }
}

/// `+`: two components may be conjoined only when they write disjoint
/// dimensions and absence is not conjoined with stages.
fn merge_conjunction(result: &mut ComponentAtoms, next: ComponentAtoms) -> (r: Result<(), DiagnosticKind>)
    ensures
        match merge_conjunction_spec(*old(result), next) {
            Ok(m) => r is Ok && *final(result) == m,
            Err(k) => r == Err::<(), DiagnosticKind>(k),
        },
{
    if result.dimensions().overlaps_exec(&next.dimensions()) {
        return Err(DiagnosticKind::SameDimensionConjunction);
    }
    if (result.absent_value && !next.stages.is_empty()) || (next.absent_value
        && !result.stages.is_empty()) {
        return Err(DiagnosticKind::AbsenceConjoinedWithStages);
    }
    *result = atoms_union_exec(result, &next);
    Ok(())
}

/// Merge one alternative that writes only `dimension`.
fn merge_same_dimension(result: &mut ComponentAtoms, next: ComponentAtoms, dimension: PolicyDimension)
    ensures
        atoms_dimensions(next) == only_dimension(dimension) ==> *final(result) == atoms_union(
            *old(result),
            next,
        ),
{
    match dimension {
        PolicyDimension::Stage => result.stages = result.stages.union(&next.stages),
        PolicyDimension::Mode => {
            result.mode_atoms = ModeSet {
                const_mode: result.mode_atoms.const_mode || next.mode_atoms.const_mode,
                plain_mode: result.mode_atoms.plain_mode || next.mode_atoms.plain_mode,
                mut_mode: result.mode_atoms.mut_mode || next.mode_atoms.mut_mode,
            }
        },
        PolicyDimension::NamespaceVisibility => {
            result.namespace = VisibilitySet {
                public: result.namespace.public || next.namespace.public,
                private: result.namespace.private || next.namespace.private,
            }
        },
        PolicyDimension::ExportRoot => result.export_root = result.export_root || next.export_root,
        PolicyDimension::ValuePresence => result.absent_value = result.absent_value
            || next.absent_value,
    }
}

fn parse_atom(atom: &NormPolicyAtom, allow_absent: bool) -> (r: Result<ComponentAtoms, DiagnosticKind>)
    ensures
        r == parse_atom_spec(*atom, allow_absent),
    decreases atom, 0int,
{
    match atom {
        NormPolicyAtom::Name { text } => match parse_name_atom(text) {
            Some(a) => Ok(a),
            None => Err(DiagnosticKind::UnknownPolicyAtom(text.clone())),
        },
        NormPolicyAtom::HoleRef { text } => Err(DiagnosticKind::HolePolicyAtom(text.clone())),
        NormPolicyAtom::Group { conjunction } => parse_component(conjunction, allow_absent),
        NormPolicyAtom::AbsentValuePattern => {
            if !allow_absent {
                return Err(DiagnosticKind::AbsentOutsideValueComponent);
            }
            let mut atoms = empty_atoms_exec();
            atoms.absent_value = true;
            Ok(atoms)
        },
        NormPolicyAtom::Error => Err(DiagnosticKind::InvalidPolicyAst),
    }
}

fn parse_choice(choice: &NormPolicyChoice, allow_absent: bool) -> (r: Result<ComponentAtoms, DiagnosticKind>)
    ensures
        r == parse_choice_spec(*choice, allow_absent),
    decreases choice, choice.atoms@.len() + 1,
{
    let mut alternatives: Vec<ComponentAtoms> = Vec::new();
    let mut j: usize = 0;
    while j < choice.atoms.len()
        invariant
            j <= choice.atoms@.len(),
            parse_choice_spec(*choice, allow_absent) == parse_atoms_from(
                *choice,
                j as int,
                allow_absent,
                alternatives@,
            ),
        decreases choice.atoms@.len() - j,
    {
        let next = parse_atom(&choice.atoms[j], allow_absent)?;
        alternatives.push(next);
        j = j + 1;
    }
    choose_alternatives(&alternatives)
}

/// The outcome of `||` over successfully parsed alternatives.
fn choose_alternatives(alternatives: &Vec<ComponentAtoms>) -> (r: Result<ComponentAtoms, DiagnosticKind>)
    ensures
        r == choice_of_alternatives(alternatives@),
{
    let n = alternatives.len();
    if n == 1 {
        return Ok(alternatives[0]);
    }
    let mut dimensions: Vec<DimensionSet> = Vec::new();
    let mut i: usize = 0;
    while i < n
        invariant
            n == alternatives@.len(),
            i <= n,
            dimensions@.len() == i,
            forall|k: int| 0 <= k < i ==> dimensions@[k] == atoms_dimensions(#[trigger] alternatives@[k]),
        decreases n - i,
    {
        dimensions.push(alternatives[i].dimensions());
        i = i + 1;
    }
    let mut all_same = true;
    let mut k: usize = 0;
    while k < n
        invariant
            n == alternatives@.len(),
            n == dimensions@.len(),
            k <= n,
            all_same == forall|q: int| 0 <= q < k ==> #[trigger] dimensions@[q] == dimensions@[0],
        decreases n - k,
    {
        let same = dimensions[k] == dimensions[0];
        proof {
            if !same {
                assert(!(dimensions@[k as int] == dimensions@[0]));
            }
        }
        all_same = all_same && same;
        k = k + 1;
    }
    let first_single = if n > 0 {
        dimensions[0].single()
    } else {
        None
    };
    let ghost spec_same = n > 0 && atoms_dimensions(alternatives@[0]).count() == 1 && forall|i: int|
        0 <= i < alternatives@.len() ==> #[trigger] atoms_dimensions(alternatives@[i])
            == atoms_dimensions(alternatives@[0]);
    proof {
        if spec_same {
            assert forall|q: int| 0 <= q < n implies #[trigger] dimensions@[q] == dimensions@[0] by {
                assert(atoms_dimensions(alternatives@[q]) == atoms_dimensions(alternatives@[0]));
            }
        }
        if n > 0 && first_single is Some && all_same {
            assert forall|i: int| 0 <= i < alternatives@.len() implies #[trigger] atoms_dimensions(
                alternatives@[i],
            ) == atoms_dimensions(alternatives@[0]) by {
                assert(dimensions@[i] == dimensions@[0]);
            }
        }
    }
    if n > 0 && all_same && first_single.is_some() {
        let dimension = first_single.unwrap();
        let mut result = empty_atoms_exec();
        let mut k: usize = 0;
        while k < n
            invariant
                n == alternatives@.len(),
                k <= n,
                forall|q: int|
                    0 <= q < n ==> #[trigger] atoms_dimensions(alternatives@[q]) == only_dimension(
                        dimension,
                    ),
                result == union_all(alternatives@, k as int),
            decreases n - k,
        {
            merge_same_dimension(&mut result, alternatives[k], dimension);
            k = k + 1;
        }
        return Ok(result);
    }
    let mut stage_or_absent = true;
    let mut k: usize = 0;
    while k < n
        invariant
            n == alternatives@.len(),
            n == dimensions@.len(),
            k <= n,
            forall|q: int| 0 <= q < n ==> dimensions@[q] == atoms_dimensions(#[trigger] alternatives@[q]),
            stage_or_absent == forall|q: int|
                0 <= q < k ==> #[trigger] atoms_dimensions(alternatives@[q]).stage_or_absent(),
        decreases n - k,
    {
        let d = dimensions[k];
        let ok = (d.stage || d.value_presence) && !d.mode && !d.namespace_visibility
            && !d.export_root;
        proof {
            assert(dimensions@[k as int] == atoms_dimensions(alternatives@[k as int]));
            assert(ok == atoms_dimensions(alternatives@[k as int]).stage_or_absent());
            if !ok {
                assert(!atoms_dimensions(alternatives@[k as int]).stage_or_absent());
            }
        }
        stage_or_absent = stage_or_absent && ok;
        k = k + 1;
    }
    if stage_or_absent {
        let mut result = empty_atoms_exec();
        let mut k: usize = 0;
        while k < n
            invariant
                n == alternatives@.len(),
                k <= n,
                forall|q: int|
                    0 <= q < n ==> #[trigger] atoms_dimensions(alternatives@[q]).stage_or_absent(),
                result == union_all(alternatives@, k as int),
            decreases n - k,
        {
            let alternative = alternatives[k];
            proof {
                assert(atoms_dimensions(alternatives@[k as int]).stage_or_absent());
            }
            result.stages = result.stages.union(&alternative.stages);
            result.absent_value = result.absent_value || alternative.absent_value;
            k = k + 1;
        }
        return Ok(result);
    }
    Err(DiagnosticKind::MixedDimensionChoice)
}

fn parse_component(conjunction: &NormPolicyConjunction, allow_absent: bool) -> (r: Result<
    ComponentAtoms,
    DiagnosticKind,
>)
    ensures
        r == parse_component_spec(*conjunction, allow_absent),
    decreases conjunction, conjunction.choices@.len() + 1,
{
    let mut result = empty_atoms_exec();
    let mut i: usize = 0;
    while i < conjunction.choices.len()
        invariant
            i <= conjunction.choices@.len(),
            parse_component_spec(*conjunction, allow_absent) == parse_choices_from(
                *conjunction,
                i as int,
                allow_absent,
                result,
            ),
        decreases conjunction.choices@.len() - i,
    {
        let next = parse_choice(&conjunction.choices[i], allow_absent)?;
        merge_conjunction(&mut result, next)?;
        i = i + 1;
    }
    Ok(result)
}

// ---------------------------------------------------------------------------
// Elaboration of written policies
// ---------------------------------------------------------------------------

pub open spec fn reject_namespace_spec(a: ComponentAtoms, context: PolicyContext) -> Result<
    (),
    DiagnosticKind,
> {
    if a.namespace.is_empty_spec() && !a.export_root {
        Ok(())
    } else {
        Err(DiagnosticKind::NamespaceAttributesInvalid(context))
    }
}

/// The one whole-slot mode of a component: `plain` when none is written.
pub open spec fn concrete_mode_spec(a: ComponentAtoms, context: PolicyContext) -> Result<
    PolicyMode,
    DiagnosticKind,
> {
    if a.mode_atoms.count() == 0 {
        Ok(PolicyMode::Plain)
    } else if a.mode_atoms.count() == 1 {
        Ok(a.mode_atoms.first())
    } else {
        Err(DiagnosticKind::MultipleModes(context))
    }
}

/// The one whole-slot mode of a component, which must be written.
pub open spec fn explicit_mode_spec(a: ComponentAtoms, context: PolicyContext) -> Result<
    PolicyMode,
    DiagnosticKind,
> {
    if a.mode_atoms.count() == 0 {
        Err(DiagnosticKind::MissingMode(context))
    } else {
        concrete_mode_spec(a, context)
    }
}

/// `Pv = absent` carries no value stages.
pub open spec fn value_invariant_spec(value: ValueComponentPolicy, context: PolicyContext) -> Result<
    (),
    DiagnosticKind,
> {
    if value.presence == ValuePresence::Absent && !value.stages.empty_spec() {
        Err(DiagnosticKind::AbsentValueCarriesStages(context))
    } else {
        Ok(())
    }
}

pub open spec fn one_namespace_spec(namespace: VisibilitySet) -> Result<
    Option<NamespaceVisibility>,
    DiagnosticKind,
> {
    if namespace.public && namespace.private {
        Err(DiagnosticKind::AmbiguousNamespaceVisibility)
    } else if namespace.public {
        Ok(Some(NamespaceVisibility::Public))
    } else if namespace.private {
        Ok(Some(NamespaceVisibility::Private))
    } else {
        Ok(None)
    }
}

/// The legality rules of a complete P2 pair.
pub open spec fn validate_p2_pair_spec(pair: PolicyPair) -> Result<PolicyPair, DiagnosticKind> {
    if pair.value.presence == ValuePresence::Absent && !pair.value.stages.empty_spec() {
        Err(DiagnosticKind::AbsentValueCarriesStages(PolicyContext::P2ValueComponent))
    } else if pair.pattern.stages.runtime {
        Err(DiagnosticKind::P2PatternContainsRuntime)
    } else if pair.pattern.stages.empty_spec() {
        Err(DiagnosticKind::P2PatternRequiresStaticStage)
    } else if pair.value.presence != ValuePresence::Absent && pair.value.stages.empty_spec() {
        Err(DiagnosticKind::P2ValueRequiresStage)
    } else if !pair.value.stages.static_spec().empty_spec() && pair.value.stages.static_spec()
        != pair.pattern.stages {
        Err(DiagnosticKind::P2StaticStageMismatch)
    } else {
        Ok(pair)
    }
}

/// The atoms written by a value component (`_` alone is absence only).
pub open spec fn value_component_atoms(value: NormValuePolicyPattern) -> Result<
    ComponentAtoms,
    DiagnosticKind,
> {
    match value {
        NormValuePolicyPattern::Conjunction(c) => parse_component_spec(c, true),
        NormValuePolicyPattern::Absent => Ok(ComponentAtoms { absent_value: true, ..empty_atoms() }),
    }
}

/// P2 written as a single value-dominant policy.
pub open spec fn normalize_p2_single(atoms: ComponentAtoms) -> Result<PolicyView, DiagnosticKind> {
    match reject_namespace_spec(atoms, PolicyContext::P2) {
        Err(k) => Err(k),
        Ok(_) => match concrete_mode_spec(atoms, PolicyContext::P2) {
            Err(k) => Err(k),
            Ok(mode) => {
                let statics = atoms.stages.static_spec();
                if statics.empty_spec() && !atoms.stages.runtime {
                    Err(DiagnosticKind::P2SinglePolicyRequiresStage)
                } else {
                    let pattern_stages = if statics.empty_spec() {
                        StageSet::singleton(PolicyStage::Compile)
                    } else {
                        statics
                    };
                    let pair = PolicyPair {
                        value: ValueComponentPolicy {
                            stages: atoms.stages,
                            presence: atoms_presence(atoms),
                        },
                        pattern: PatternComponentPolicy { stages: pattern_stages },
                    };
                    match validate_p2_pair_spec(pair) {
                        Err(k) => Err(k),
                        Ok(pair) => Ok(PolicyView { pair, mode }),
                    }
                }
            },
        },
    }
}

/// P2 written as a `Pv : Pp` pair.
pub open spec fn normalize_p2_pair(value_atoms: ComponentAtoms, pattern_atoms: ComponentAtoms) -> Result<
    PolicyView,
    DiagnosticKind,
> {
    match reject_namespace_spec(value_atoms, PolicyContext::P2) {
        Err(k) => Err(k),
        Ok(_) => match reject_namespace_spec(pattern_atoms, PolicyContext::P2) {
            Err(k) => Err(k),
            Ok(_) => if pattern_atoms.mode_atoms.count() > 0 {
                Err(DiagnosticKind::ModeInPatternComponent)
            } else {
                match concrete_mode_spec(value_atoms, PolicyContext::P2) {
                    Err(k) => Err(k),
                    Ok(mode) => {
                        let pair = PolicyPair {
                            value: ValueComponentPolicy {
                                stages: value_atoms.stages,
                                presence: atoms_presence(value_atoms),
                            },
                            pattern: PatternComponentPolicy { stages: pattern_atoms.stages },
                        };
                        match validate_p2_pair_spec(pair) {
                            Err(k) => Err(k),
                            Ok(pair) => Ok(PolicyView { pair, mode }),
                        }
                    },
                }
            },
        },
    }
}

/// The canonical P2 view denoted by a written callable result policy.
pub open spec fn normalize_p2_spec(policy: NormPolicySpec) -> Result<PolicyView, DiagnosticKind> {
    match policy.pattern_policy {
        None => match policy.value_policy {
            NormValuePolicyPattern::Conjunction(c) => match parse_component_spec(c, true) {
                Err(k) => Err(k),
                Ok(atoms) => normalize_p2_single(atoms),
            },
            NormValuePolicyPattern::Absent => Err(DiagnosticKind::AbsentP2ValueRequiresPattern),
        },
        Some(pattern) => match value_component_atoms(policy.value_policy) {
            Err(k) => Err(k),
            Ok(value_atoms) => match parse_component_spec(pattern, false) {
                Err(k) => Err(k),
                Ok(pattern_atoms) => normalize_p2_pair(value_atoms, pattern_atoms),
            },
        },
    }
}

/// The value component of a normalized P2 is the one written: its stages
/// are the written stages, and its presence is optional when the absent
/// alternative `_` was written beside a stage, absent when only `_` was
/// written, and present when no `_` was written.
pub proof fn lemma_p2_value_is_written(policy: NormPolicySpec)
    requires
        normalize_p2_spec(policy) is Ok,
    ensures
        value_component_atoms(policy.value_policy) is Ok,
        ({
            let written = value_component_atoms(policy.value_policy)->Ok_0;
            let value = normalize_p2_spec(policy)->Ok_0.pair.value;
            &&& value.stages == written.stages
            &&& written.absent_value && !written.stages.empty_spec() ==> value.presence == ValuePresence::Optional
            &&& written.absent_value && written.stages.empty_spec() ==> value.presence == ValuePresence::Absent
            &&& !written.absent_value ==> value.presence == ValuePresence::Present
        }),
{
}

/// The value component a written P1 projects to is the one written: its
/// stages are the written stages, and its presence is optional when `_` was
/// written beside a stage, absent when only `_` was written, and present
/// when no `_` was written.
pub proof fn lemma_p1_value_is_written(policy: NormPolicySpec)
    requires
        p1_components_spec(policy) is Ok,
    ensures
        value_component_atoms(policy.value_policy) is Ok,
        ({
            let written = value_component_atoms(policy.value_policy)->Ok_0;
            let value = match p1_components_spec(policy)->Ok_0.0 {
                P1Projection::ValueDominant { value } => value,
                P1Projection::Pair(pair) => pair.value,
                P1Projection::Infer => ValueComponentPolicy {
                    stages: written.stages,
                    presence: ValuePresence::Optional,
                },
            };
            &&& !(p1_components_spec(policy)->Ok_0.0 is Infer)
            &&& value.stages == written.stages
            &&& written.absent_value && !written.stages.empty_spec() ==> value.presence == ValuePresence::Optional
            &&& written.absent_value && written.stages.empty_spec() ==> value.presence == ValuePresence::Absent
            &&& !written.absent_value ==> value.presence == ValuePresence::Present
        }),
{
}

/// The P1 components written by one policy: projection, mode, namespace
/// visibilities and export marker.
pub open spec fn p1_components_spec(policy: NormPolicySpec) -> Result<
    (P1Projection, PolicyMode, VisibilitySet, bool),
    DiagnosticKind,
> {
    match policy.pattern_policy {
        None => match policy.value_policy {
            NormValuePolicyPattern::Conjunction(c) => match parse_component_spec(c, true) {
                Err(k) => Err(k),
                Ok(atoms) => match concrete_mode_spec(atoms, PolicyContext::P1) {
                    Err(k) => Err(k),
                    Ok(mode) => {
                        let value = ValueComponentPolicy {
                            stages: atoms.stages,
                            presence: atoms_presence(atoms),
                        };
                        match value_invariant_spec(value, PolicyContext::P1ValueComponent) {
                            Err(k) => Err(k),
                            Ok(_) => Ok(
                                (
                                    P1Projection::ValueDominant { value },
                                    mode,
                                    atoms.namespace,
                                    atoms.export_root,
                                ),
                            ),
                        }
                    },
                },
            },
            NormValuePolicyPattern::Absent => Err(DiagnosticKind::AbsentP1RequiresPattern),
        },
        Some(pattern) => match value_component_atoms(policy.value_policy) {
            Err(k) => Err(k),
            Ok(value_atoms) => match parse_component_spec(pattern, false) {
                Err(k) => Err(k),
                Ok(pattern_atoms) => if pattern_atoms.mode_atoms.count() > 0 {
                    Err(DiagnosticKind::ModeInPatternComponent)
                } else if pattern_atoms.stages.runtime {
                    Err(DiagnosticKind::P1PatternContainsRuntime)
                } else {
                    let namespace = value_atoms.namespace.union_spec(pattern_atoms.namespace);
                    let export_root = value_atoms.export_root || pattern_atoms.export_root;
                    match concrete_mode_spec(value_atoms, PolicyContext::P1) {
                        Err(k) => Err(k),
                        Ok(mode) => match one_namespace_spec(namespace) {
                            Err(k) => Err(k),
                            Ok(_) => {
                                let value = ValueComponentPolicy {
                                    stages: value_atoms.stages,
                                    presence: atoms_presence(value_atoms),
                                };
                                match value_invariant_spec(value, PolicyContext::P1ValueComponent) {
                                    Err(k) => Err(k),
                                    Ok(_) => Ok(
                                        (
                                            P1Projection::Pair(
                                                PolicyPair {
                                                    value,
                                                    pattern: PatternComponentPolicy {
                                                        stages: pattern_atoms.stages,
                                                    },
                                                },
                                            ),
                                            mode,
                                            namespace,
                                            export_root,
                                        ),
                                    ),
                                }
                            },
                        },
                    }
                },
            },
        },
    }
}

fn policy_error(kind: DiagnosticKind, provenance: &Provenance) -> (r: Diagnostic)
    ensures
        r == (Diagnostic { kind, provenance: Some(*provenance) }),
{
    Diagnostic::hard_error(kind, Some(provenance.copied()))
}

fn parse_component_at(
    conjunction: &NormPolicyConjunction,
    allow_absent: bool,
    provenance: &Provenance,
) -> (r: Result<ComponentAtoms, Diagnostic>)
    ensures
        outcome_matches(r, parse_component_spec(*conjunction, allow_absent), *provenance),
{
    match parse_component(conjunction, allow_absent) {
        Ok(a) => Ok(a),
        Err(k) => Err(policy_error(k, provenance)),
    }
}

fn value_atoms_at(value: &NormValuePolicyPattern, provenance: &Provenance) -> (r: Result<
    ComponentAtoms,
    Diagnostic,
>)
    ensures
        outcome_matches(r, value_component_atoms(*value), *provenance),
{
    match value {
        NormValuePolicyPattern::Conjunction(c) => parse_component_at(c, true, provenance),
        NormValuePolicyPattern::Absent => {
            let mut a = empty_atoms_exec();
            a.absent_value = true;
            Ok(a)
        },
    }
}

fn reject_namespace_attributes(atoms: &ComponentAtoms, context: PolicyContext, provenance: &Provenance) -> (r:
    Result<(), Diagnostic>)
    ensures
        outcome_matches(r, reject_namespace_spec(*atoms, context), *provenance),
{
    if !atoms.namespace.public && !atoms.namespace.private && !atoms.export_root {
        Ok(())
    } else {
        Err(policy_error(DiagnosticKind::NamespaceAttributesInvalid(context), provenance))
    }
}

fn one_namespace(namespace: &VisibilitySet, provenance: &Provenance) -> (r: Result<
    Option<NamespaceVisibility>,
    Diagnostic,
>)
    ensures
        outcome_matches(r, one_namespace_spec(*namespace), *provenance),
{
    if namespace.public && namespace.private {
        return Err(policy_error(DiagnosticKind::AmbiguousNamespaceVisibility, provenance));
    }
    if namespace.public {
        Ok(Some(NamespaceVisibility::Public))
    } else if namespace.private {
        Ok(Some(NamespaceVisibility::Private))
    } else {
        Ok(None)
    }
}

fn concrete_mode_atom(atoms: &ComponentAtoms, context: PolicyContext, provenance: &Provenance) -> (r:
    Result<PolicyMode, Diagnostic>)
    ensures
        outcome_matches(r, concrete_mode_spec(*atoms, context), *provenance),
{
    let n = atoms.mode_atoms.len();
    if n == 0 {
        Ok(PolicyMode::Plain)
    } else if n == 1 {
        if atoms.mode_atoms.const_mode {
            Ok(PolicyMode::Const)
        } else if atoms.mode_atoms.plain_mode {
            Ok(PolicyMode::Plain)
        } else {
            Ok(PolicyMode::Mut)
        }
    } else {
        Err(policy_error(DiagnosticKind::MultipleModes(context), provenance))
    }
}

fn explicit_mode_atom(atoms: &ComponentAtoms, context: PolicyContext, provenance: &Provenance) -> (r:
    Result<PolicyMode, Diagnostic>)
    ensures
        outcome_matches(r, explicit_mode_spec(*atoms, context), *provenance),
{
    if atoms.mode_atoms.len() == 0 {
        return Err(policy_error(DiagnosticKind::MissingMode(context), provenance));
    }
    concrete_mode_atom(atoms, context, provenance)
}

pub(crate) fn validate_value_component_invariant(
    value: &ValueComponentPolicy,
    context: PolicyContext,
    provenance: &Provenance,
) -> (r: Result<(), Diagnostic>)
    ensures
        outcome_matches(r, value_invariant_spec(*value, context), *provenance),
{
    if value.presence == ValuePresence::Absent && !value.stages.is_empty() {
        return Err(policy_error(DiagnosticKind::AbsentValueCarriesStages(context), provenance));
    }
    Ok(())
}

fn validate_p2_pair(pair: PolicyPair, provenance: &Provenance) -> (r: Result<PolicyPair, Diagnostic>)
    ensures
        outcome_matches(r, validate_p2_pair_spec(pair), *provenance),
{
    validate_value_component_invariant(&pair.value, PolicyContext::P2ValueComponent, provenance)?;
    if pair.pattern.stages.contains(PolicyStage::Runtime) {
        return Err(policy_error(DiagnosticKind::P2PatternContainsRuntime, provenance));
    }
    if pair.pattern.stages.is_empty() {
        return Err(policy_error(DiagnosticKind::P2PatternRequiresStaticStage, provenance));
    }
    if pair.value.presence != ValuePresence::Absent && pair.value.stages.is_empty() {
        return Err(policy_error(DiagnosticKind::P2ValueRequiresStage, provenance));
    }
    let value_static = pair.value.stages.static_stages();
    if !value_static.is_empty() && value_static != pair.pattern.stages {
        return Err(policy_error(DiagnosticKind::P2StaticStageMismatch, provenance));
    }
    Ok(pair)
}

/// Normalize a written callable result policy into its canonical P2 view.
pub fn normalize_p2_policy(policy: &NormPolicySpec, provenance: Provenance) -> (r: Result<
    PolicyView,
    Diagnostic,
>)
    ensures
        outcome_matches(r, normalize_p2_spec(*policy), provenance),
{
    match &policy.pattern_policy {
        None => match &policy.value_policy {
            NormValuePolicyPattern::Conjunction(value) => {
                let atoms = parse_component_at(value, true, &provenance)?;
                reject_namespace_attributes(&atoms, PolicyContext::P2, &provenance)?;
                let mode = concrete_mode_atom(&atoms, PolicyContext::P2, &provenance)?;
                let presence = atoms.presence();
                let static_stages = atoms.stages.static_stages();
                let pattern_stages = if static_stages.is_empty() {
                    if !atoms.stages.contains(PolicyStage::Runtime) {
                        return Err(
                            policy_error(DiagnosticKind::P2SinglePolicyRequiresStage, &provenance),
                        );
                    }
                    StageSet { meta: false, compile: true, seal: false, runtime: false }
                } else {
                    static_stages
                };
                let pair = validate_p2_pair(
                    PolicyPair {
                        value: ValueComponentPolicy { stages: atoms.stages, presence },
                        pattern: PatternComponentPolicy { stages: pattern_stages },
                    },
                    &provenance,
                )?;
                Ok(PolicyView { pair, mode })
            },
            NormValuePolicyPattern::Absent => Err(
                policy_error(DiagnosticKind::AbsentP2ValueRequiresPattern, &provenance),
            ),
        },
        Some(pattern) => {
            let value_atoms = value_atoms_at(&policy.value_policy, &provenance)?;
            let pattern_atoms = parse_component_at(pattern, false, &provenance)?;
            reject_namespace_attributes(&value_atoms, PolicyContext::P2, &provenance)?;
            reject_namespace_attributes(&pattern_atoms, PolicyContext::P2, &provenance)?;
            let value_presence = value_atoms.presence();
            if pattern_atoms.mode_atoms.len() > 0 {
                return Err(policy_error(DiagnosticKind::ModeInPatternComponent, &provenance));
            }
            let mode = concrete_mode_atom(&value_atoms, PolicyContext::P2, &provenance)?;
            let pair = validate_p2_pair(
                PolicyPair {
                    value: ValueComponentPolicy { stages: value_atoms.stages, presence: value_presence },
                    pattern: PatternComponentPolicy { stages: pattern_atoms.stages },
                },
                &provenance,
            )?;
            Ok(PolicyView { pair, mode })
        },
    }
}

fn elaborate_p1_components(policy: &NormPolicySpec, provenance: &Provenance) -> (r: Result<
    (P1Projection, PolicyMode, VisibilitySet, bool),
    Diagnostic,
>)
    ensures
        outcome_matches(r, p1_components_spec(*policy), *provenance),
{
    match &policy.pattern_policy {
        None => match &policy.value_policy {
            NormValuePolicyPattern::Conjunction(value) => {
                let atoms = parse_component_at(value, true, provenance)?;
                let mode = concrete_mode_atom(&atoms, PolicyContext::P1, provenance)?;
                let value = ValueComponentPolicy { stages: atoms.stages, presence: atoms.presence() };
                validate_value_component_invariant(&value, PolicyContext::P1ValueComponent, provenance)?;
                Ok((P1Projection::ValueDominant { value }, mode, atoms.namespace, atoms.export_root))
            },
            NormValuePolicyPattern::Absent => Err(
                policy_error(DiagnosticKind::AbsentP1RequiresPattern, provenance),
            ),
        },
        Some(pattern) => {
            let value_atoms = value_atoms_at(&policy.value_policy, provenance)?;
            let pattern_atoms = parse_component_at(pattern, false, provenance)?;
            if pattern_atoms.mode_atoms.len() > 0 {
                return Err(policy_error(DiagnosticKind::ModeInPatternComponent, provenance));
            }
            if pattern_atoms.stages.contains(PolicyStage::Runtime) {
                return Err(policy_error(DiagnosticKind::P1PatternContainsRuntime, provenance));
            }
            let namespace = VisibilitySet {
                public: value_atoms.namespace.public || pattern_atoms.namespace.public,
                private: value_atoms.namespace.private || pattern_atoms.namespace.private,
            };
            let export_root = value_atoms.export_root || pattern_atoms.export_root;
            let mode = concrete_mode_atom(&value_atoms, PolicyContext::P1, provenance)?;
            one_namespace(&namespace, provenance)?;
            let value = ValueComponentPolicy {
                stages: value_atoms.stages,
                presence: value_atoms.presence(),
            };
            validate_value_component_invariant(&value, PolicyContext::P1ValueComponent, provenance)?;
            Ok(
                (
                    P1Projection::Pair(
                        PolicyPair {
                            value,
                            pattern: PatternComponentPolicy { stages: pattern_atoms.stages },
                        },
                    ),
                    mode,
                    namespace,
                    export_root,
                ),
            )
        },
    }
}

/// The demand a binding result policy places on its right-hand side.
pub open spec fn binding_demand_spec(policy: Option<NormPolicySpec>) -> Result<
    ResultPolicyDemand,
    DiagnosticKind,
> {
    match policy {
        None => Ok(ResultPolicyDemand { pair_query: P1Projection::Infer, mode: PolicyMode::Plain }),
        Some(p) => match p1_components_spec(p) {
            Err(k) => Err(k),
            Ok((pair_query, mode, namespace, export_root)) => if !namespace.is_empty_spec()
                || export_root {
                Err(DiagnosticKind::NamespaceAttributesOnlyOnDeclarations)
            } else {
                Ok(ResultPolicyDemand { pair_query, mode })
            },
        },
    }
}

pub fn elaborate_binding_result_demand(policy: Option<&NormPolicySpec>, provenance: Provenance) -> (r:
    Result<ResultPolicyDemand, Diagnostic>)
    ensures
        outcome_matches(
            r,
            binding_demand_spec(
                match policy {
                    Some(p) => Some(*p),
                    None => None,
                },
            ),
            provenance,
        ),
{
    let policy = match policy {
        Some(p) => p,
        None => {
            return Ok(ResultPolicyDemand { pair_query: P1Projection::Infer, mode: PolicyMode::Plain });
        },
    };
    let (pair_query, mode, namespace, export_root) = elaborate_p1_components(policy, &provenance)?;
    if namespace.public || namespace.private || export_root {
        return Err(policy_error(DiagnosticKind::NamespaceAttributesOnlyOnDeclarations, &provenance));
    }
    Ok(ResultPolicyDemand { pair_query, mode })
}

/// The written const/mut-only slice of an inherited callable policy: the
/// written component may select one mode and nothing else.
pub open spec fn mode_only_override_spec(
    policy: NormPolicySpec,
    pair_error: DiagnosticKind,
    absent_error: DiagnosticKind,
    context: PolicyContext,
    stages_error: DiagnosticKind,
) -> Result<PolicyMode, DiagnosticKind> {
    if policy.pattern_policy is Some {
        Err(pair_error)
    } else {
        match policy.value_policy {
            NormValuePolicyPattern::Absent => Err(absent_error),
            NormValuePolicyPattern::Conjunction(c) => match parse_component_spec(c, false) {
                Err(k) => Err(k),
                Ok(atoms) => match reject_namespace_spec(atoms, context) {
                    Err(k) => Err(k),
                    Ok(_) => if !atoms.stages.empty_spec() || atoms.absent_value {
                        Err(stages_error)
                    } else {
                        explicit_mode_spec(atoms, context)
                    },
                },
            },
        }
    }
}

pub open spec fn formal_policy_spec(policy: Option<NormPolicySpec>, inherited_p2: PolicyView) -> Result<
    FormalPolicyPattern,
    DiagnosticKind,
> {
    match value_invariant_spec(inherited_p2.pair.value, PolicyContext::FormalInheritedP2) {
        Err(k) => Err(k),
        Ok(_) => match policy {
            None => Ok(FormalPolicyPattern { effective_pair: inherited_p2.pair, mode: inherited_p2.mode }),
            Some(p) => match mode_only_override_spec(
                p,
                DiagnosticKind::FormalUsesPairProjection,
                DiagnosticKind::FormalAbsentValuePattern,
                PolicyContext::FormalParameter,
                DiagnosticKind::FormalRestrictsOnlyMode,
            ) {
                Err(k) => Err(k),
                Ok(mode) => Ok(FormalPolicyPattern { effective_pair: inherited_p2.pair, mode }),
            },
        },
    }
}

pub open spec fn return_policy_spec(policy: Option<NormPolicySpec>, inherited_p1: PolicyView) -> Result<
    ReturnPolicyPattern,
    DiagnosticKind,
> {
    match value_invariant_spec(inherited_p1.pair.value, PolicyContext::ReturnInheritedP1) {
        Err(k) => Err(k),
        Ok(_) => match policy {
            None => Ok(ReturnPolicyPattern { effective_view: inherited_p1 }),
            Some(p) => match mode_only_override_spec(
                p,
                DiagnosticKind::ReturnOverridesOnlyMode,
                DiagnosticKind::ReturnRewritesPresence,
                PolicyContext::ReturnPosition,
                DiagnosticKind::ReturnInheritsStages,
            ) {
                Err(k) => Err(k),
                Ok(mode) => Ok(
                    ReturnPolicyPattern {
                        effective_view: PolicyView { pair: inherited_p1.pair, mode },
                    },
                ),
            },
        },
    }
}

pub open spec fn opt_spec(policy: Option<&NormPolicySpec>) -> Option<NormPolicySpec> {
    match policy {
        Some(p) => Some(*p),
        None => None,
    }
}

fn mode_only_override(
    policy: &NormPolicySpec,
    pair_error: DiagnosticKind,
    absent_error: DiagnosticKind,
    context: PolicyContext,
    stages_error: DiagnosticKind,
    provenance: &Provenance,
) -> (r: Result<PolicyMode, Diagnostic>)
    ensures
        outcome_matches(
            r,
            mode_only_override_spec(*policy, pair_error, absent_error, context, stages_error),
            *provenance,
        ),
{
    if policy.pattern_policy.is_some() {
        return Err(policy_error(pair_error, provenance));
    }
    let atoms = match &policy.value_policy {
        NormValuePolicyPattern::Conjunction(value) => parse_component_at(value, false, provenance)?,
        NormValuePolicyPattern::Absent => {
            return Err(policy_error(absent_error, provenance));
        },
    };
    reject_namespace_attributes(&atoms, context, provenance)?;
    if !atoms.stages.is_empty() || atoms.absent_value {
        return Err(policy_error(stages_error, provenance));
    }
    explicit_mode_atom(&atoms, context, provenance)
}

/// A formal parameter inherits its callable P2 and may restrict only the
/// const/mut axis.
pub fn elaborate_formal_policy_pattern(
    policy: Option<&NormPolicySpec>,
    inherited_p2: &PolicyView,
    provenance: Provenance,
) -> (r: Result<FormalPolicyPattern, Diagnostic>)
    ensures
        outcome_matches(r, formal_policy_spec(opt_spec(policy), *inherited_p2), provenance),
{
    validate_value_component_invariant(
        &inherited_p2.pair.value,
        PolicyContext::FormalInheritedP2,
        &provenance,
    )?;
    let policy = match policy {
        Some(p) => p,
        None => {
            return Ok(FormalPolicyPattern { effective_pair: inherited_p2.pair, mode: inherited_p2.mode });
        },
    };
    let selected = mode_only_override(
        policy,
        DiagnosticKind::FormalUsesPairProjection,
        DiagnosticKind::FormalAbsentValuePattern,
        PolicyContext::FormalParameter,
        DiagnosticKind::FormalRestrictsOnlyMode,
        &provenance,
    )?;
    Ok(FormalPolicyPattern { effective_pair: inherited_p2.pair, mode: selected })
}

/// A return position inherits the callable P1 pair and may override only
/// its whole-slot mode.
pub fn elaborate_return_policy_pattern(
    policy: Option<&NormPolicySpec>,
    inherited_p1: &PolicyView,
    provenance: Provenance,
) -> (r: Result<ReturnPolicyPattern, Diagnostic>)
    ensures
        outcome_matches(r, return_policy_spec(opt_spec(policy), *inherited_p1), provenance),
{
    validate_value_component_invariant(
        &inherited_p1.pair.value,
        PolicyContext::ReturnInheritedP1,
        &provenance,
    )?;
    let policy = match policy {
        Some(p) => p,
        None => {
            return Ok(ReturnPolicyPattern { effective_view: *inherited_p1 });
        },
    };
    let mode = mode_only_override(
        policy,
        DiagnosticKind::ReturnOverridesOnlyMode,
        DiagnosticKind::ReturnRewritesPresence,
        PolicyContext::ReturnPosition,
        DiagnosticKind::ReturnInheritsStages,
        &provenance,
    )?;
    Ok(ReturnPolicyPattern { effective_view: PolicyView { pair: inherited_p1.pair, mode } })
}

/// Where an explicit P1 spelling appears.
#[derive(Clone, Copy, Debug, PartialEq, Eq, Structural)]
pub enum ExplicitP1Position {
    OuterBinding,
    WrittenSelf,
}

/// The per-dimension explicit P1 selection extracted from one spelling site.
/// A dimension that was not written stays `None`.
#[derive(Clone, Copy, Debug, PartialEq, Eq, Structural)]
pub struct ExplicitP1Selection {
    pub value_stages: Option<StageSet>,
    pub presence: Option<ValuePresence>,
    pub pattern_stages: Option<StageSet>,
    pub mode: Option<PolicyMode>,
}

impl Default for ExplicitP1Selection {
    fn default() -> (r: ExplicitP1Selection)
        ensures
            r.is_empty_spec(),
    {
        ExplicitP1Selection { value_stages: None, presence: None, pattern_stages: None, mode: None }
    }
}

impl ExplicitP1Selection {
    pub open spec fn is_empty_spec(self) -> bool {
        self.value_stages is None && self.presence is None && self.pattern_stages is None
            && self.mode is None
    }

    pub fn is_empty(&self) -> (r: bool)
        ensures
            r == self.is_empty_spec(),
    {
        self.value_stages.is_none() && self.presence.is_none() && self.pattern_stages.is_none()
            && self.mode.is_none()
    }

    /// A fully explicit selection carrying every dimension of `view`.
    pub fn from_complete_view(view: &PolicyView) -> (r: ExplicitP1Selection)
        ensures
            r == (ExplicitP1Selection {
                value_stages: Some(view.pair.value.stages),
                presence: Some(view.pair.value.presence),
                pattern_stages: Some(view.pair.pattern.stages),
                mode: Some(view.mode),
            }),
    {
        ExplicitP1Selection {
            value_stages: Some(view.pair.value.stages),
            presence: Some(view.pair.value.presence),
            pattern_stages: Some(view.pair.pattern.stages),
            mode: Some(view.mode),
        }
    }
}

pub open spec fn no_selection() -> ExplicitP1Selection {
    ExplicitP1Selection { value_stages: None, presence: None, pattern_stages: None, mode: None }
}

/// The selection contributed by a written value component.
pub open spec fn value_selection_spec(
    selection: ExplicitP1Selection,
    value_atoms: ComponentAtoms,
    position: ExplicitP1Position,
) -> Result<ExplicitP1Selection, DiagnosticKind> {
    match (if position == ExplicitP1Position::WrittenSelf {
        reject_namespace_spec(value_atoms, PolicyContext::WrittenSelfExplicitP1)
    } else {
        Ok(())
    }) {
        Err(k) => Err(k),
        Ok(_) => {
            let s1 = if !value_atoms.stages.empty_spec() {
                ExplicitP1Selection { value_stages: Some(value_atoms.stages), ..selection }
            } else {
                selection
            };
            let s2 = if value_atoms.absent_value {
                ExplicitP1Selection { presence: Some(atoms_presence(value_atoms)), ..s1 }
            } else {
                s1
            };
            if value_atoms.mode_atoms.count() > 0 {
                match explicit_mode_spec(value_atoms, PolicyContext::ExplicitP1) {
                    Err(k) => Err(k),
                    Ok(mode) => Ok(ExplicitP1Selection { mode: Some(mode), ..s2 }),
                }
            } else {
                Ok(s2)
            }
        },
    }
}

/// The explicit P1 selection written at one spelling site; `None` when
/// nothing P1-relevant was written.
pub open spec fn explicit_p1_spec(policy: Option<NormPolicySpec>, position: ExplicitP1Position) -> Result<
    Option<ExplicitP1Selection>,
    DiagnosticKind,
> {
    match policy {
        None => Ok(None),
        Some(p) => {
            let pattern_selection: Result<ExplicitP1Selection, DiagnosticKind> = match p.pattern_policy {
                None => Ok(no_selection()),
                Some(pattern) => match parse_component_spec(pattern, false) {
                    Err(k) => Err(k),
                    Ok(pa) => match reject_namespace_spec(
                        pa,
                        PolicyContext::ExplicitP1PatternComponent,
                    ) {
                        Err(k) => Err(k),
                        Ok(_) => if pa.mode_atoms.count() > 0 {
                            Err(DiagnosticKind::ModeInPatternComponent)
                        } else if pa.stages.empty_spec() {
                            Err(DiagnosticKind::ExplicitP1PatternRequiresStage)
                        } else {
                            Ok(ExplicitP1Selection { pattern_stages: Some(pa.stages), ..no_selection() })
                        },
                    },
                },
            };
            match pattern_selection {
                Err(k) => Err(k),
                Ok(selection) => match p.value_policy {
                    NormValuePolicyPattern::Absent => if p.pattern_policy is None {
                        Err(DiagnosticKind::AbsentExplicitP1RequiresPattern)
                    } else {
                        Ok(Some(ExplicitP1Selection { presence: Some(ValuePresence::Absent), ..selection }))
                    },
                    NormValuePolicyPattern::Conjunction(c) => match parse_component_spec(c, true) {
                        Err(k) => Err(k),
                        Ok(value_atoms) => match value_selection_spec(selection, value_atoms, position) {
                            Err(k) => Err(k),
                            Ok(sel) => if sel.is_empty_spec() {
                                Ok(None)
                            } else {
                                Ok(Some(sel))
                            },
                        },
                    },
                },
            }
        },
    }
}

/// Elaborate an explicit P1 spelling into its per-dimension selection.
pub fn elaborate_explicit_p1(
    policy: Option<&NormPolicySpec>,
    _inherited_p2: &PolicyPair,
    position: ExplicitP1Position,
    provenance: Provenance,
) -> (r: Result<Option<ExplicitP1Selection>, Diagnostic>)
    ensures
        outcome_matches(r, explicit_p1_spec(opt_spec(policy), position), provenance),
{
    let policy = match policy {
        Some(p) => p,
        None => {
            return Ok(None);
        },
    };
    let mut selection = ExplicitP1Selection {
        value_stages: None,
        presence: None,
        pattern_stages: None,
        mode: None,
    };
    if let Some(pattern) = &policy.pattern_policy {
        let pattern_atoms = parse_component_at(pattern, false, &provenance)?;
        reject_namespace_attributes(
            &pattern_atoms,
            PolicyContext::ExplicitP1PatternComponent,
            &provenance,
        )?;
        if pattern_atoms.mode_atoms.len() > 0 {
            return Err(policy_error(DiagnosticKind::ModeInPatternComponent, &provenance));
        }
        if pattern_atoms.stages.is_empty() {
            return Err(policy_error(DiagnosticKind::ExplicitP1PatternRequiresStage, &provenance));
        }
        selection.pattern_stages = Some(pattern_atoms.stages);
    }
    let value_atoms = match &policy.value_policy {
        NormValuePolicyPattern::Conjunction(value) => parse_component_at(value, true, &provenance)?,
        NormValuePolicyPattern::Absent => {
            if policy.pattern_policy.is_none() {
                return Err(
                    policy_error(DiagnosticKind::AbsentExplicitP1RequiresPattern, &provenance),
                );
            }
            selection.presence = Some(ValuePresence::Absent);
            return Ok(Some(selection));
        },
    };
    match position {
        ExplicitP1Position::OuterBinding => {},
        ExplicitP1Position::WrittenSelf => {
            reject_namespace_attributes(
                &value_atoms,
                PolicyContext::WrittenSelfExplicitP1,
                &provenance,
            )?;
        },
    }
    if !value_atoms.stages.is_empty() {
        selection.value_stages = Some(value_atoms.stages);
    }
    if value_atoms.absent_value {
        selection.presence = Some(value_atoms.presence());
    }
    if value_atoms.mode_atoms.len() > 0 {
        selection.mode = Some(explicit_mode_atom(&value_atoms, PolicyContext::ExplicitP1, &provenance)?);
    }
    if selection.is_empty() {
        Ok(None)
    } else {
        Ok(Some(selection))
    }
}

/// The value component a concrete projection requests, if any.
pub open spec fn projection_value(projection: P1Projection) -> Option<ValueComponentPolicy> {
    match projection {
        P1Projection::Infer => None,
        P1Projection::ValueDominant { value } => Some(value),
        P1Projection::Pair(pair) => Some(pair.value),
    }
}

pub open spec fn export_root_preview_spec(projection: P1Projection) -> Result<
    P1Projection,
    DiagnosticKind,
> {
    match projection_value(projection) {
        None => Err(DiagnosticKind::ExportRootRequiresExplicitPolicy),
        Some(value) => match value_invariant_spec(value, PolicyContext::ExportRootP1) {
            Err(k) => Err(k),
            Ok(_) => Ok(projection),
        },
    }
}

/// Validate and preview a direct export-root declaration without modifying
/// its complete internal P1 request.
pub fn project_export_root_preview(projection: &P1Projection, provenance: Provenance) -> (r: Result<
    P1Projection,
    Diagnostic,
>)
    ensures
        outcome_matches(r, export_root_preview_spec(*projection), provenance),
{
    let projected = *projection;
    let value = match &projected {
        P1Projection::ValueDominant { value } => value,
        P1Projection::Pair(pair) => &pair.value,
        P1Projection::Infer => {
            return Err(policy_error(DiagnosticKind::ExportRootRequiresExplicitPolicy, &provenance));
        },
    };
    validate_value_component_invariant(value, PolicyContext::ExportRootP1, &provenance)?;
    Ok(projected)
}

pub open spec fn namespace_declaration_spec(
    policy: Option<NormPolicySpec>,
    position: NamespaceDeclarationPosition,
) -> Result<NamespaceDeclarationPolicy, DiagnosticKind> {
    match policy {
        None => Ok(
            NamespaceDeclarationPolicy {
                projection: P1Projection::Infer,
                mode: PolicyMode::Plain,
                external_projection: None,
                visibility: None,
                export_root: false,
            },
        ),
        Some(p) => match p1_components_spec(p) {
            Err(k) => Err(k),
            Ok((projection, mode, namespace, export_root)) => match one_namespace_spec(namespace) {
                Err(k) => Err(k),
                Ok(visibility) => if export_root && position
                    != NamespaceDeclarationPosition::DirectTopLevel {
                    Err(DiagnosticKind::ExportOnlyDirectTopLevel)
                } else if export_root {
                    match export_root_preview_spec(projection) {
                        Err(k) => Err(k),
                        Ok(external) => Ok(
                            NamespaceDeclarationPolicy {
                                projection,
                                mode,
                                external_projection: Some(external),
                                visibility,
                                export_root,
                            },
                        ),
                    }
                } else {
                    Ok(
                        NamespaceDeclarationPolicy {
                            projection,
                            mode,
                            external_projection: None,
                            visibility,
                            export_root,
                        },
                    )
                },
            },
        },
    }
}

pub fn elaborate_namespace_declaration_policy(
    policy: Option<&NormPolicySpec>,
    position: NamespaceDeclarationPosition,
    provenance: Provenance,
) -> (r: Result<NamespaceDeclarationPolicy, Diagnostic>)
    ensures
        outcome_matches(r, namespace_declaration_spec(opt_spec(policy), position), provenance),
{
    let policy = match policy {
        Some(p) => p,
        None => {
            return Ok(
                NamespaceDeclarationPolicy {
                    projection: P1Projection::Infer,
                    mode: PolicyMode::Plain,
                    external_projection: None,
                    visibility: None,
                    export_root: false,
                },
            );
        },
    };
    let (projection, mode, namespace, export_root) = elaborate_p1_components(policy, &provenance)?;
    let visibility = one_namespace(&namespace, &provenance)?;
    if export_root && position != NamespaceDeclarationPosition::DirectTopLevel {
        return Err(policy_error(DiagnosticKind::ExportOnlyDirectTopLevel, &provenance));
    }
    let external_projection = if export_root {
        Some(project_export_root_preview(&projection, provenance.copied())?)
    } else {
        None
    };
    Ok(NamespaceDeclarationPolicy { projection, mode, external_projection, visibility, export_root })
}

// ---------------------------------------------------------------------------
// P1 projection over result entries
// ---------------------------------------------------------------------------

/// A stage query against an available stage domain: an empty query keeps the
/// whole domain; otherwise the non-empty intersection is selected.
pub open spec fn restrict_stages_spec(query: StageSet, available: StageSet) -> Option<StageSet> {
    if query.empty_spec() {
        Some(available)
    } else if query.intersection_spec(available).empty_spec() {
        None
    } else {
        Some(query.intersection_spec(available))
    }
}

/// The value component one entry shows under a requested value component:
/// its stages and its presence cropped to the query, or `None` where the
/// entry's value contradicts the requested presence or a coordinate has
/// nothing in common with the query.
pub open spec fn restrict_value_spec<V, P>(
    query: ValueComponentPolicy,
    entry: PolicyResultEntry<V, P>,
) -> Option<ValueComponentPolicy> {
    if (query.presence == ValuePresence::Absent && entry.value is Some) || (query.presence
        == ValuePresence::Present && entry.value is None) {
        None
    } else {
        match (
            restrict_stages_spec(query.stages, entry.view.pair.value.stages),
            intersect_presence_spec(query.presence, entry.view.pair.value.presence),
        ) {
            (Some(stages), Some(presence)) => Some(ValueComponentPolicy { stages, presence }),
            _ => None,
        }
    }
}

/// The view of one entry under a projection, or `None` when the entry does
/// not answer it.
pub open spec fn project_entry_spec<V, P>(
    projection: P1Projection,
    entry: PolicyResultEntry<V, P>,
) -> Option<PolicyResultEntry<V, P>> {
    match projection {
        P1Projection::Infer => Some(entry),
        P1Projection::ValueDominant { value } => match restrict_value_spec(value, entry) {
            None => None,
            Some(v) => Some(
                PolicyResultEntry {
                    view: PolicyView { pair: PolicyPair { value: v, ..entry.view.pair }, ..entry.view },
                    ..entry
                },
            ),
        },
        P1Projection::Pair(pair) => match restrict_value_spec(pair.value, entry) {
            None => None,
            Some(v) => match restrict_stages_spec(pair.pattern.stages, entry.view.pair.pattern.stages) {
                None => None,
                Some(ps) => Some(
                    PolicyResultEntry {
                        view: PolicyView {
                            pair: PolicyPair {
                                value: v,
                                pattern: PatternComponentPolicy { stages: ps },
                            },
                            ..entry.view
                        },
                        ..entry
                    },
                ),
            },
        },
    }
}

/// The projection of the first `n` entries, in order.
pub open spec fn project_p1_spec<V, P>(
    projection: P1Projection,
    entries: Seq<PolicyResultEntry<V, P>>,
    n: int,
) -> Seq<PolicyResultEntry<V, P>>
    decreases n,
{
    if n <= 0 {
        Seq::empty()
    } else {
        let prefix = project_p1_spec(projection, entries, n - 1);
        match project_entry_spec(projection, entries[n - 1]) {
            Some(e) => prefix.push(e),
            None => prefix,
        }
    }
}

pub fn restrict_stages(query: &StageSet, available: &StageSet) -> (r: Option<StageSet>)
    ensures
        r == restrict_stages_spec(*query, *available),
{
    if query.is_empty() {
        return Some(*available);
    }
    let selected = query.intersection(available);
    if !selected.is_empty() {
        Some(selected)
    } else {
        None
    }
}

fn restrict_value_policy<V: Copy, P: Copy>(
    query: &ValueComponentPolicy,
    entry: &PolicyResultEntry<V, P>,
) -> (r: Option<ValueComponentPolicy>)
    ensures
        r == restrict_value_spec(*query, *entry),
{
    match query.presence {
        ValuePresence::Absent => {
            if entry.value.is_some() {
                return None;
            }
        },
        ValuePresence::Present => {
            if entry.value.is_none() {
                return None;
            }
        },
        ValuePresence::Optional => {},
    }
    let stages = match restrict_stages(&query.stages, &entry.view.pair.value.stages) {
        Some(s) => s,
        None => {
            return None;
        },
    };
    let presence = match intersect_presence(query.presence, entry.view.pair.value.presence) {
        Some(p) => p,
        None => {
            return None;
        },
    };
    Some(ValueComponentPolicy { stages, presence })
}

pub(crate) fn project_entry<V: Copy, P: Copy>(projection: &P1Projection, entry: &PolicyResultEntry<V, P>) -> (r:
    Option<PolicyResultEntry<V, P>>)
    ensures
        r == project_entry_spec(*projection, *entry),
{
    match projection {
        P1Projection::Infer => Some(*entry),
        P1Projection::ValueDominant { value } => {
            let value_policy = restrict_value_policy(value, entry)?;
            Some(
                PolicyResultEntry {
                    value: entry.value,
                    pattern: entry.pattern,
                    view: PolicyView {
                        pair: PolicyPair { value: value_policy, pattern: entry.view.pair.pattern },
                        mode: entry.view.mode,
                    },
                },
            )
        },
        P1Projection::Pair(pair) => {
            let value_policy = restrict_value_policy(&pair.value, entry)?;
            let pattern_stages = restrict_stages(
                &pair.pattern.stages,
                &entry.view.pair.pattern.stages,
            )?;
            Some(
                PolicyResultEntry {
                    value: entry.value,
                    pattern: entry.pattern,
                    view: PolicyView {
                        pair: PolicyPair {
                            value: value_policy,
                            pattern: PatternComponentPolicy { stages: pattern_stages },
                        },
                        mode: entry.view.mode,
                    },
                },
            )
        },
    }
}

/// Apply a P1 projection as a slice restriction. Entries that do not answer
/// the projection are dropped; the others keep their value and Pattern
/// identities and mode, with their stage/presence coordinates cropped.
pub fn project_p1<V: Copy, P: Copy>(projection: &P1Projection, result: &[PolicyResultEntry<V, P>]) -> (r:
    Vec<PolicyResultEntry<V, P>>)
    ensures
        r@ == project_p1_spec(*projection, result@, result@.len() as int),
{
    let mut out: Vec<PolicyResultEntry<V, P>> = Vec::new();
    let mut i: usize = 0;
    while i < result.len()
        invariant
            i <= result@.len(),
            out@ == project_p1_spec(*projection, result@, i as int),
        decreases result@.len() - i,
    {
        match project_entry(projection, &result[i]) {
            Some(e) => out.push(e),
            None => {},
        }
        i = i + 1;
    }
    out
}

/// An entry that answers a projection answers it again unchanged.
pub proof fn lemma_project_entry_idempotent<V, P>(projection: P1Projection, entry: PolicyResultEntry<V, P>)
    requires
        project_entry_spec(projection, entry) is Some,
    ensures
        project_entry_spec(projection, project_entry_spec(projection, entry)->0) == project_entry_spec(
            projection,
            entry,
        ),
{
    let e2 = project_entry_spec(projection, entry)->0;
    match projection {
        P1Projection::Infer => {},
        P1Projection::ValueDominant { value } => {
            lemma_restrict_value_idempotent(value, entry, e2);
        },
        P1Projection::Pair(pair) => {
            lemma_restrict_value_idempotent(pair.value, entry, e2);
            lemma_restrict_stages_idempotent(pair.pattern.stages, entry.view.pair.pattern.stages);
        },
    }
}

proof fn lemma_restrict_stages_idempotent(query: StageSet, available: StageSet)
    requires
        restrict_stages_spec(query, available) is Some,
    ensures
        restrict_stages_spec(query, restrict_stages_spec(query, available)->0) == restrict_stages_spec(
            query,
            available,
        ),
{
}

proof fn lemma_restrict_value_idempotent<V, P>(
    query: ValueComponentPolicy,
    entry: PolicyResultEntry<V, P>,
    cropped: PolicyResultEntry<V, P>,
)
    requires
        restrict_value_spec(query, entry) is Some,
        cropped.value == entry.value,
        cropped.view.pair.value == restrict_value_spec(query, entry)->0,
    ensures
        restrict_value_spec(query, cropped) == restrict_value_spec(query, entry),
{
    lemma_restrict_stages_idempotent(query.stages, entry.view.pair.value.stages);
}

/// A P1 slice restriction applied twice equals applying it once:
/// `project_p1(q, project_p1(q, r)) == project_p1(q, r)`.
pub proof fn lemma_project_p1_idempotent<V, P>(projection: P1Projection, entries: Seq<PolicyResultEntry<V, P>>)
    ensures
        project_p1_spec(
            projection,
            project_p1_spec(projection, entries, entries.len() as int),
            project_p1_spec(projection, entries, entries.len() as int).len() as int,
        ) == project_p1_spec(projection, entries, entries.len() as int),
{
    lemma_project_p1_idempotent_upto(projection, entries, entries.len() as int);
}

proof fn lemma_project_p1_idempotent_upto<V, P>(
    projection: P1Projection,
    entries: Seq<PolicyResultEntry<V, P>>,
    n: int,
)
    requires
        0 <= n <= entries.len(),
    ensures
        project_p1_spec(
            projection,
            project_p1_spec(projection, entries, n),
            project_p1_spec(projection, entries, n).len() as int,
        ) == project_p1_spec(projection, entries, n),
    decreases n,
{
    if n > 0 {
        lemma_project_p1_idempotent_upto(projection, entries, n - 1);
        let prefix = project_p1_spec(projection, entries, n - 1);
        match project_entry_spec(projection, entries[n - 1]) {
            Some(e) => {
                lemma_project_entry_idempotent(projection, entries[n - 1]);
                let out = prefix.push(e);
                lemma_project_p1_prefix(projection, out, prefix.len() as int);
                assert(out.subrange(0, prefix.len() as int) =~= prefix);
                lemma_project_p1_depends_on_prefix(projection, out, prefix, prefix.len() as int);
                assert(out[out.len() - 1] == e);
            },
            None => {},
        }
    }
}

/// The projection of the first `n` entries reads those entries only.
proof fn lemma_project_p1_depends_on_prefix<V, P>(
    projection: P1Projection,
    a: Seq<PolicyResultEntry<V, P>>,
    b: Seq<PolicyResultEntry<V, P>>,
    n: int,
)
    requires
        0 <= n <= a.len(),
        n <= b.len(),
        forall|i: int| 0 <= i < n ==> a[i] == b[i],
    ensures
        project_p1_spec(projection, a, n) == project_p1_spec(projection, b, n),
    decreases n,
{
    if n > 0 {
        lemma_project_p1_depends_on_prefix(projection, a, b, n - 1);
    }
}

proof fn lemma_project_p1_prefix<V, P>(projection: P1Projection, entries: Seq<PolicyResultEntry<V, P>>, n: int)
    requires
        0 <= n <= entries.len(),
    ensures
        project_p1_spec(projection, entries, n) == project_p1_spec(projection, entries.subrange(0, n), n),
{
    lemma_project_p1_depends_on_prefix(projection, entries, entries.subrange(0, n), n);
}

/// Inferred P1 keeps every entry exactly: `project_p1(Infer, r) == r`.
pub proof fn lemma_project_infer_is_identity<V, P>(entries: Seq<PolicyResultEntry<V, P>>, n: int)
    requires
        0 <= n <= entries.len(),
    ensures
        project_p1_spec(P1Projection::Infer, entries, n) == entries.subrange(0, n),
    decreases n,
{
    if n > 0 {
        lemma_project_infer_is_identity(entries, n - 1);
        assert(entries.subrange(0, n - 1).push(entries[n - 1]) =~= entries.subrange(0, n));
    } else {
        assert(entries.subrange(0, 0) =~= Seq::<PolicyResultEntry<V, P>>::empty());
    }
}

/// A kept entry's value component answers a requested value component: its
/// stages lie within a non-empty requested stage set without being empty,
/// and a requested definite presence is the entry's value and presence.
pub open spec fn value_answers(query: ValueComponentPolicy, has_value: bool, got: ValueComponentPolicy) -> bool {
    &&& !query.stages.empty_spec() ==> got.stages.subset_spec(query.stages) && !got.stages.empty_spec()
    &&& query.presence == ValuePresence::Present ==> has_value && got.presence == ValuePresence::Present
    &&& query.presence == ValuePresence::Absent ==> !has_value && got.presence == ValuePresence::Absent
}

/// A kept entry answers the projection it was kept under.
pub open spec fn answers_projection<V, P>(projection: P1Projection, e: PolicyResultEntry<V, P>) -> bool {
    let has_value = e.value is Some;
    match projection {
        P1Projection::Infer => true,
        P1Projection::ValueDominant { value } => value_answers(value, has_value, e.view.pair.value),
        P1Projection::Pair(q) => value_answers(q.value, has_value, e.view.pair.value) && (
        !q.pattern.stages.empty_spec() ==> e.view.pair.pattern.stages.subset_spec(q.pattern.stages)
            && !e.view.pair.pattern.stages.empty_spec()),
    }
}

/// Projection crops: an entry kept under a projection keeps its value,
/// Pattern and mode, its stages only shrink, and it answers the projection.
/// An entry whose stages share nothing with a non-empty requested stage set
/// is dropped.
pub proof fn lemma_projected_entry_answers<V, P>(projection: P1Projection, entry: PolicyResultEntry<V, P>)
    ensures
        project_entry_spec(projection, entry) matches Some(out) ==> {
            &&& out.value == entry.value
            &&& out.pattern == entry.pattern
            &&& out.view.mode == entry.view.mode
            &&& out.view.pair.value.stages.subset_spec(entry.view.pair.value.stages)
            &&& out.view.pair.pattern.stages.subset_spec(entry.view.pair.pattern.stages)
            &&& answers_projection(projection, out)
        },
        projection matches P1Projection::Pair(q) && !q.pattern.stages.empty_spec() && (forall|s: PolicyStage|
            !(#[trigger] q.pattern.stages.has(s) && entry.view.pair.pattern.stages.has(s)))
            ==> project_entry_spec(projection, entry) is None,
        (projection matches P1Projection::Pair(q) && !q.value.stages.empty_spec() && (forall|s: PolicyStage|
            !(#[trigger] q.value.stages.has(s) && entry.view.pair.value.stages.has(s))))
            ==> project_entry_spec(projection, entry) is None,
        (projection matches P1Projection::ValueDominant { value } && !value.stages.empty_spec() && (forall|
            s: PolicyStage,
        | !(#[trigger] value.stages.has(s) && entry.view.pair.value.stages.has(s))))
            ==> project_entry_spec(projection, entry) is None,
{
    match projection {
        P1Projection::Pair(q) => {
            assert(q.pattern.stages.has(PolicyStage::Meta) && entry.view.pair.pattern.stages.has(PolicyStage::Meta)
                || !(q.pattern.stages.has(PolicyStage::Meta) && entry.view.pair.pattern.stages.has(PolicyStage::Meta)));
            if forall|s: PolicyStage| !(#[trigger] q.pattern.stages.has(s) && entry.view.pair.pattern.stages.has(s)) {
                assert(!(q.pattern.stages.has(PolicyStage::Meta) && entry.view.pair.pattern.stages.has(PolicyStage::Meta)));
                assert(!(q.pattern.stages.has(PolicyStage::Compile) && entry.view.pair.pattern.stages.has(PolicyStage::Compile)));
                assert(!(q.pattern.stages.has(PolicyStage::Seal) && entry.view.pair.pattern.stages.has(PolicyStage::Seal)));
                assert(!(q.pattern.stages.has(PolicyStage::Runtime) && entry.view.pair.pattern.stages.has(PolicyStage::Runtime)));
            }
            if forall|s: PolicyStage| !(#[trigger] q.value.stages.has(s) && entry.view.pair.value.stages.has(s)) {
                assert(!(q.value.stages.has(PolicyStage::Meta) && entry.view.pair.value.stages.has(PolicyStage::Meta)));
                assert(!(q.value.stages.has(PolicyStage::Compile) && entry.view.pair.value.stages.has(PolicyStage::Compile)));
                assert(!(q.value.stages.has(PolicyStage::Seal) && entry.view.pair.value.stages.has(PolicyStage::Seal)));
                assert(!(q.value.stages.has(PolicyStage::Runtime) && entry.view.pair.value.stages.has(PolicyStage::Runtime)));
            }
        },
        P1Projection::ValueDominant { value } => {
            if forall|s: PolicyStage| !(#[trigger] value.stages.has(s) && entry.view.pair.value.stages.has(s)) {
                assert(!(value.stages.has(PolicyStage::Meta) && entry.view.pair.value.stages.has(PolicyStage::Meta)));
                assert(!(value.stages.has(PolicyStage::Compile) && entry.view.pair.value.stages.has(PolicyStage::Compile)));
                assert(!(value.stages.has(PolicyStage::Seal) && entry.view.pair.value.stages.has(PolicyStage::Seal)));
                assert(!(value.stages.has(PolicyStage::Runtime) && entry.view.pair.value.stages.has(PolicyStage::Runtime)));
            }
        },
        P1Projection::Infer => {},
    }
}

/// Every entry of a projection's result answers the projection.
pub proof fn lemma_projection_answers_query<V, P>(
    projection: P1Projection,
    entries: Seq<PolicyResultEntry<V, P>>,
    n: int,
)
    requires
        0 <= n <= entries.len(),
    ensures
        forall|k: int|
            0 <= k < project_p1_spec(projection, entries, n).len() ==> answers_projection(
                projection,
                #[trigger] project_p1_spec(projection, entries, n)[k],
            ),
    decreases n,
{
    if n > 0 {
        lemma_projection_answers_query(projection, entries, n - 1);
        lemma_projected_entry_answers(projection, entries[n - 1]);
        let prefix = project_p1_spec(projection, entries, n - 1);
        let full = project_p1_spec(projection, entries, n);
        assert forall|k: int| 0 <= k < full.len() implies answers_projection(projection, #[trigger] full[k]) by {
            if k < prefix.len() {
                assert(full[k] == prefix[k]);
            }
        }
    }
}

/// Projection never invents entries: every projected entry is the image of
/// an input entry, keeping its value, Pattern and mode, and the output is no
/// longer than the input.
pub proof fn lemma_project_preserves_identities<V, P>(
    projection: P1Projection,
    entries: Seq<PolicyResultEntry<V, P>>,
    n: int,
)
    requires
        0 <= n <= entries.len(),
    ensures
        project_p1_spec(projection, entries, n).len() <= n,
        forall|k: int|
            0 <= k < project_p1_spec(projection, entries, n).len() ==> exists|j: int|
                0 <= j < n && #[trigger] project_p1_spec(projection, entries, n)[k].value
                    == entries[j].value && project_p1_spec(projection, entries, n)[k].pattern
                    == entries[j].pattern && project_p1_spec(projection, entries, n)[k].view.mode
                    == entries[j].view.mode,
    decreases n,
{
    if n > 0 {
        lemma_project_preserves_identities(projection, entries, n - 1);
        let prefix = project_p1_spec(projection, entries, n - 1);
        let full = project_p1_spec(projection, entries, n);
        assert forall|k: int| 0 <= k < full.len() implies exists|j: int|
            0 <= j < n && #[trigger] full[k].value == entries[j].value && full[k].pattern
                == entries[j].pattern && full[k].view.mode == entries[j].view.mode by {
            if k < prefix.len() {
                assert(full[k] == prefix[k]);
                let j = choose|j: int|
                    0 <= j < n - 1 && #[trigger] prefix[k].value == entries[j].value
                        && prefix[k].pattern == entries[j].pattern && prefix[k].view.mode
                        == entries[j].view.mode;
                assert(0 <= j < n);
            } else {
                assert(full[k].value == entries[n - 1].value);
            }
        }
    }
}

// ---------------------------------------------------------------------------
// Function objects and seal-world snapshots
// ---------------------------------------------------------------------------

#[derive(Clone, Copy, Debug, PartialEq, Eq, Structural)]
pub enum FunctionMemberKind {
    Concrete,
    MaterializedInstance,
    GenericTemplate,
}

#[derive(Clone, Copy, Debug, PartialEq, Eq)]
pub struct FunctionMember<I> {
    pub id: I,
    pub kind: FunctionMemberKind,
}

#[derive(Clone, Debug, PartialEq, Eq)]
pub struct FunctionObject<I> {
    pub symbol_identity: I,
    pub anonymous_type_identity: I,
    pub members: Vec<FunctionMember<I>>,
}

#[derive(Clone, Copy, Debug, PartialEq, Eq, Structural)]
pub enum FunctionSliceStage {
    Runtime,
    Seal,
}

#[derive(Clone, Debug, PartialEq, Eq)]
pub struct FunctionObjectView<I> {
    pub symbol_identity: I,
    pub anonymous_type_identity: I,
    pub member_ids: Vec<I>,
}

/// Whether a member kind belongs to a stage slice: runtime keeps concrete
/// members only; seal also keeps materialized instances.
pub open spec fn member_in_slice(kind: FunctionMemberKind, stage: FunctionSliceStage) -> bool {
    match stage {
        FunctionSliceStage::Runtime => kind == FunctionMemberKind::Concrete,
        FunctionSliceStage::Seal => kind == FunctionMemberKind::Concrete || kind
            == FunctionMemberKind::MaterializedInstance,
    }
}

/// The ids of the first `n` members that belong to a stage slice, in order.
pub open spec fn slice_ids<I>(members: Seq<FunctionMember<I>>, stage: FunctionSliceStage, n: int) -> Seq<
    I,
>
    decreases n,
{
    if n <= 0 {
        Seq::empty()
    } else if member_in_slice(members[n - 1].kind, stage) {
        slice_ids(members, stage, n - 1).push(members[n - 1].id)
    } else {
        slice_ids(members, stage, n - 1)
    }
}

impl<I: Copy> FunctionObject<I> {
    pub fn slice(&self, stage: FunctionSliceStage) -> (r: FunctionObjectView<I>)
        ensures
            r.symbol_identity == self.symbol_identity,
            r.anonymous_type_identity == self.anonymous_type_identity,
            r.member_ids@ == slice_ids(self.members@, stage, self.members@.len() as int),
    {
        let mut member_ids: Vec<I> = Vec::new();
        let mut i: usize = 0;
        while i < self.members.len()
            invariant
                i <= self.members@.len(),
                member_ids@ == slice_ids(self.members@, stage, i as int),
            decreases self.members@.len() - i,
        {
            let member = self.members[i];
            let keep = match stage {
                FunctionSliceStage::Runtime => matches!(member.kind, FunctionMemberKind::Concrete),
                FunctionSliceStage::Seal => matches!(
                    member.kind,
                    FunctionMemberKind::Concrete | FunctionMemberKind::MaterializedInstance
                ),
            };
            if keep {
                member_ids.push(member.id);
            }
            i = i + 1;
        }
        FunctionObjectView {
            symbol_identity: self.symbol_identity,
            anonymous_type_identity: self.anonymous_type_identity,
            member_ids,
        }
    }
}

#[derive(Clone, Copy, Debug, PartialEq, Eq, Structural)]
pub enum BuiltinPrivilegedSealFunction {
    ExportWorldMaterializer,
}

/// The world seen during seal: the values present before seal, followed by
/// the values seal generates.
#[derive(Clone, Debug, PartialEq, Eq)]
pub struct SealWorldSnapshot<T> {
    pre_seal: Vec<T>,
    seal_generated: Vec<T>,
}

impl<T> SealWorldSnapshot<T> {
    pub closed spec fn pre_seal_spec(&self) -> Seq<T> {
        self.pre_seal@
    }

    pub closed spec fn generated_spec(&self) -> Seq<T> {
        self.seal_generated@
    }

    /// The final world: pre-seal values followed by seal-generated values.
    pub open spec fn final_spec(&self) -> Seq<T> {
        self.pre_seal_spec() + self.generated_spec()
    }

    pub fn new(pre_seal: Vec<T>) -> (r: SealWorldSnapshot<T>)
        ensures
            r.pre_seal_spec() == pre_seal@,
            r.generated_spec() == Seq::<T>::empty(),
    {
        SealWorldSnapshot { pre_seal, seal_generated: Vec::new() }
    }

    /// A builtin privileged seal function scans only the pre-seal world.
    pub fn scan_domain_for_builtin(&self, _builtin: BuiltinPrivilegedSealFunction) -> (r: &[T])
        ensures
            r@ == self.pre_seal_spec(),
    {
        self.pre_seal.as_slice()
    }

    pub fn push_seal_generated(&mut self, value: T)
        ensures
            final(self).pre_seal_spec() == old(self).pre_seal_spec(),
            final(self).generated_spec() == old(self).generated_spec().push(value),
    {
        self.seal_generated.push(value);
    }

    pub fn seal_generated(&self) -> (r: &[T])
        ensures
            r@ == self.generated_spec(),
    {
        self.seal_generated.as_slice()
    }

    /// The final world in order, pre-seal values first.
    pub fn final_world(&self) -> (r: Vec<&T>)
        ensures
            r@.len() == self.final_spec().len(),
            forall|i: int| 0 <= i < r@.len() ==> *#[trigger] r@[i] == self.final_spec()[i],
    {
        let mut r: Vec<&T> = Vec::new();
        let mut i: usize = 0;
        while i < self.pre_seal.len()
            invariant
                i <= self.pre_seal@.len(),
                r@.len() == i,
                forall|k: int| 0 <= k < i ==> *#[trigger] r@[k] == self.pre_seal@[k],
            decreases self.pre_seal@.len() - i,
        {
            r.push(&self.pre_seal[i]);
            i = i + 1;
        }
        let mut j: usize = 0;
        while j < self.seal_generated.len()
            invariant
                j <= self.seal_generated@.len(),
                r@.len() == self.pre_seal@.len() + j,
                forall|k: int| 0 <= k < self.pre_seal@.len() ==> *#[trigger] r@[k] == self.pre_seal@[k],
                forall|k: int|
                    0 <= k < j ==> *#[trigger] r@[self.pre_seal@.len() + k] == self.seal_generated@[k],
            decreases self.seal_generated@.len() - j,
        {
            r.push(&self.seal_generated[j]);
            j = j + 1;
        }
        assert forall|i: int| 0 <= i < r@.len() implies *#[trigger] r@[i] == self.final_spec()[i] by {
            if i >= self.pre_seal@.len() {
                let k = i - self.pre_seal@.len();
                assert(r@[self.pre_seal@.len() + k] == r@[i]);
            }
        }
        r
    }

    /// The first value of the final world the predicate accepts.
    pub fn resolve_explicit<F: Fn(&T) -> bool>(&self, predicate: F) -> (r: Option<&T>)
        requires
            forall|t: &T| #[trigger] predicate.requires((t,)),
        ensures
            match r {
                Some(found) => exists|i: int|
                    0 <= i < self.final_spec().len() && self.final_spec()[i] == *found
                        && predicate.ensures((&self.final_spec()[i],), true) && forall|j: int|
                        0 <= j < i ==> #[trigger] predicate.ensures((&self.final_spec()[j],), false),
                None => forall|j: int|
                    0 <= j < self.final_spec().len() ==> #[trigger] predicate.ensures(
                        (&self.final_spec()[j],),
                        false,
                    ),
            },
    {
        let world = self.final_world();
        let mut i: usize = 0;
        while i < world.len()
            invariant
                i <= world@.len(),
                world@.len() == self.final_spec().len(),
                forall|k: int| 0 <= k < world@.len() ==> *#[trigger] world@[k] == self.final_spec()[k],
                forall|t: &T| #[trigger] predicate.requires((t,)),
                forall|j: int| 0 <= j < i ==> #[trigger] predicate.ensures((&self.final_spec()[j],), false),
            decreases world@.len() - i,
        {
            let candidate = world[i];
            let accepted = predicate(candidate);
            if accepted {
                return Some(candidate);
            }
            proof {
                assert(*world@[i as int] == self.final_spec()[i as int]);
            }
            i = i + 1;
        }
        None
    }
}

} // verus!
