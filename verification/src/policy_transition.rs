//! Existing-view-first same-Type Policy-migration substrate.
//!
//! Ordinary Policy projection always runs first. An unmet, already-total
//! target demand may prepare one direct authorized migration family; the
//! migration is selected by an overload-style product order and never chains.
use vstd::prelude::*;

pub use crate::policy_migration::{
    P1Origin, PolicyMigrationRequest, PolicyMigrationRequestFailure, PolicyPartialOrdering,
    PureTypeP1Elaboration, SemanticValueRef,
};

use std::convert::Infallible;

use crate::model::{Provenance, SemanticValueId, SymbolId, TypeValueId};
use crate::policy_migration::{
    all_without_value, chains, compose_orders, compose_spec, concrete_pair_spec, copy_entries,
    lemma_compose_chains, lemma_compose_not_greater, lemma_endpoint_fit_chains,
    endpoint_projection_spec, entries_without_value, input_fit_spec, output_fit_spec, project_all,
    project_migration_endpoint_hard_coordinates, project_migration_input_endpoint,
    project_migration_output_endpoint, compare_input_policy_fit, compare_output_policy_fit,
    relax_presence_spec, relax_projection_presence,
};
use crate::policy_overload::{
    filter_prefix, indices_where, lemma_filter_prefix_members, lemma_filter_prefix_nonempty, lemma_maxima_nonempty,
    matrix_at, maximal_candidates,
    maximal_spec, policy_mode_preference_rank, rank_spec,
};
use crate::policy_pair::{
    project_entry, project_entry_spec, project_p1, P1Projection, PatternComponentPolicy, PolicyMode, PolicyPair, PolicyResultEntry,
    PolicyStage, PolicyView, ResultPolicyDemand, StageSet, ValueComponentPolicy, ValuePresence,
};

verus! {

#[derive(Clone, Debug, PartialEq, Eq)]
pub struct PolicyTransitionDemand {
    pub request: PolicyTransitionRequest,
}

/// Conservative P1 elaboration over an arbitrary multi-entry result.
#[derive(Clone, Debug, PartialEq, Eq)]
pub enum P1Elaboration<P> {
    Projected {
        origin: P1Origin,
        requested: Option<P1Projection>,
        selected: Vec<PolicyResultEntry<SemanticValueRef, P>>,
    },
    AtomicRuntimeMigration { requested: P1Projection, demands: Vec<PolicyTransitionDemand> },
}

#[derive(Clone, Copy, Debug, PartialEq, Eq, Structural)]
pub enum P1ElaborationFailure {
    EmptyResult,
    ProjectionUnavailableWithoutValue { requested: P1Projection },
    PatternPolicyStageSliceUnavailableForMigration { requested: P1Projection },
    ProjectionUnavailableOutsideAtomicRuntimeMigration { requested: P1Projection },
    InvalidTransitionSource { entry_index: usize, failure: PolicyTransitionRequestFailure },
}

/// One checked atomic-migration request after demand decomposition. Its
/// target demand always carries a concrete pair query.
#[derive(Clone, Debug, PartialEq, Eq)]
pub struct PolicyTransitionRequest {
    source_view: PolicyView,
    target_demand: ResultPolicyDemand,
    source_type: TypeValueId,
    source_value: SemanticValueId,
    provenance: Provenance,
}

#[derive(Clone, Copy, Debug, PartialEq, Eq, Structural)]
pub enum PolicyTransitionRequestFailure {
    SourceValueAbsent,
    SourceStaticValueStageDomainEmpty,
    SelectedInputContainsRuntime,
    SourceStaticPatternStageMismatch { source_static: StageSet, source_pattern: StageSet },
    TargetDoesNotRequireRuntimeOnly { target_value_stages: StageSet, target_value_presence: ValuePresence },
    TargetPatternPolicyUnavailable { source: PatternComponentPolicy, target: PatternComponentPolicy },
}

/// Exactly `{runtime}` with a present value.
pub open spec fn runtime_only(value: ValueComponentPolicy) -> bool {
    value.presence == ValuePresence::Present && value.stages.count() == 1 && value.stages.runtime
}

/// Why a static source view cannot move to a runtime-only target query.
pub open spec fn transition_request_failure(source: PolicyPair, target: PolicyPair) -> Option<
    PolicyTransitionRequestFailure,
> {
    if source.value.presence == ValuePresence::Absent {
        Some(PolicyTransitionRequestFailure::SourceValueAbsent)
    } else if source.value.stages.runtime {
        Some(PolicyTransitionRequestFailure::SelectedInputContainsRuntime)
    } else if source.value.stages.static_spec().empty_spec() {
        Some(PolicyTransitionRequestFailure::SourceStaticValueStageDomainEmpty)
    } else if source.value.stages.static_spec() != source.pattern.stages {
        Some(
            PolicyTransitionRequestFailure::SourceStaticPatternStageMismatch {
                source_static: source.value.stages.static_spec(),
                source_pattern: source.pattern.stages,
            },
        )
    } else if !runtime_only(target.value) {
        Some(
            PolicyTransitionRequestFailure::TargetDoesNotRequireRuntimeOnly {
                target_value_stages: target.value.stages,
                target_value_presence: target.value.presence,
            },
        )
    } else if target.pattern.stages.empty_spec() || !target.pattern.stages.subset_spec(
        source.pattern.stages,
    ) {
        Some(
            PolicyTransitionRequestFailure::TargetPatternPolicyUnavailable {
                source: source.pattern,
                target: target.pattern,
            },
        )
    } else {
        None
    }
}

impl PolicyTransitionRequest {
    /// The target demand carries a concrete pair query.
    pub open spec fn well_formed(&self) -> bool {
        self.target_demand_spec().pair_query is Pair
    }

    pub closed spec fn source_view_spec(&self) -> PolicyView {
        self.source_view
    }

    pub closed spec fn target_demand_spec(&self) -> ResultPolicyDemand {
        self.target_demand
    }

    pub closed spec fn source_type_spec(&self) -> TypeValueId {
        self.source_type
    }

    pub closed spec fn source_value_spec(&self) -> SemanticValueId {
        self.source_value
    }

    pub closed spec fn provenance_spec(&self) -> Provenance {
        self.provenance
    }

    /// The query pair of a well-formed request.
    pub open spec fn target_pair_spec(&self) -> PolicyPair {
        concrete_pair_spec(self.target_demand_spec())->0
    }

    pub fn new(
        source_view: PolicyView,
        target_demand: ResultPolicyDemand,
        source_type: TypeValueId,
        source_value: SemanticValueId,
        provenance: Provenance,
    ) -> (r: Result<PolicyTransitionRequest, PolicyTransitionRequestFailure>)
        requires
            target_demand.pair_query is Pair,
        ensures
            match transition_request_failure(source_view.pair, concrete_pair_spec(target_demand)->0) {
                Some(f) => r == Err::<PolicyTransitionRequest, PolicyTransitionRequestFailure>(f),
                None => r matches Ok(req) && req.well_formed() && req.source_view_spec() == source_view
                    && req.target_demand_spec() == target_demand && req.source_type_spec()
                    == source_type && req.source_value_spec() == source_value
                    && req.provenance_spec() == provenance,
            },
    {
        let target_query = match &target_demand.pair_query {
            P1Projection::Pair(pair) => *pair,
            _ => source_view.pair,
        };
        let source_policy = &source_view.pair;
        if source_policy.value.presence == ValuePresence::Absent {
            return Err(PolicyTransitionRequestFailure::SourceValueAbsent);
        }
        if source_policy.value.stages.contains(PolicyStage::Runtime) {
            return Err(PolicyTransitionRequestFailure::SelectedInputContainsRuntime);
        }
        let source_static = source_policy.value.stages.static_stages();
        if source_static.is_empty() {
            return Err(PolicyTransitionRequestFailure::SourceStaticValueStageDomainEmpty);
        }
        if source_static != source_policy.pattern.stages {
            return Err(
                PolicyTransitionRequestFailure::SourceStaticPatternStageMismatch {
                    source_static,
                    source_pattern: source_policy.pattern.stages,
                },
            );
        }
        let target_is_runtime_only = target_query.value.presence == ValuePresence::Present
            && target_query.value.stages.len() == 1 && target_query.value.stages.contains(
            PolicyStage::Runtime,
        );
        if !target_is_runtime_only {
            return Err(
                PolicyTransitionRequestFailure::TargetDoesNotRequireRuntimeOnly {
                    target_value_stages: target_query.value.stages,
                    target_value_presence: target_query.value.presence,
                },
            );
        }
        if target_query.pattern.stages.is_empty() || !target_query.pattern.stages.is_subset(
            &source_policy.pattern.stages,
        ) {
            return Err(
                PolicyTransitionRequestFailure::TargetPatternPolicyUnavailable {
                    source: source_policy.pattern,
                    target: target_query.pattern,
                },
            );
        }
        Ok(PolicyTransitionRequest { source_view, target_demand, source_type, source_value, provenance })
    }

    pub fn source_view(&self) -> (r: &PolicyView)
        ensures
            *r == self.source_view_spec(),
    {
        &self.source_view
    }

    pub fn source_policy(&self) -> (r: &PolicyPair)
        ensures
            *r == self.source_view_spec().pair,
    {
        &self.source_view.pair
    }

    pub fn target_demand(&self) -> (r: &ResultPolicyDemand)
        ensures
            *r == self.target_demand_spec(),
    {
        &self.target_demand
    }

    pub fn target_pair(&self) -> (r: &PolicyPair)
        requires
            self.well_formed(),
        ensures
            concrete_pair_spec(self.target_demand_spec()) == Some(*r),
            *r == self.target_pair_spec(),
    {
        match &self.target_demand.pair_query {
            P1Projection::Pair(pair) => pair,
            _ => &self.source_view.pair,
        }
    }

    pub fn target_query(&self) -> (r: &PolicyPair)
        requires
            self.well_formed(),
        ensures
            *r == self.target_pair_spec(),
    {
        self.target_pair()
    }

    pub fn source_type(&self) -> (r: TypeValueId)
        ensures
            r == self.source_type_spec(),
    {
        self.source_type
    }

    pub fn source_value(&self) -> (r: SemanticValueId)
        ensures
            r == self.source_value_spec(),
    {
        self.source_value
    }

    pub fn provenance(&self) -> (r: &Provenance)
        ensures
            *r == self.provenance_spec(),
    {
        &self.provenance
    }
}

// ---------------------------------------------------------------------------
// Binding P1 elaboration with atomic runtime migration demands
// ---------------------------------------------------------------------------

/// The value component a projection accepts, if it constrains one.
pub open spec fn accepted_value_spec(projection: P1Projection) -> Option<ValueComponentPolicy> {
    match projection {
        P1Projection::Pair(pair) => Some(pair.value),
        P1Projection::ValueDominant { value } => Some(value),
        P1Projection::Infer => None,
    }
}

/// Whether the projection accepts a present runtime value branch.
pub open spec fn accepts_runtime_spec(projection: P1Projection) -> bool {
    match accepted_value_spec(projection) {
        Some(value) => value.presence != ValuePresence::Absent && value.stages.runtime,
        None => false,
    }
}

/// The Pattern stages a projection selects from an available Pattern domain.
pub open spec fn selected_pattern_spec(projection: P1Projection, available: StageSet) -> StageSet {
    match projection {
        P1Projection::Pair(pair) => if pair.pattern.stages.empty_spec() {
            available
        } else {
            pair.pattern.stages.intersection_spec(available)
        },
        _ => available,
    }
}

/// The pure-static input view and the runtime-only target demand of one
/// entry, when the projection accepts a runtime branch and the entry can
/// supply the selected Pattern slice from its static value stages.
pub open spec fn migration_endpoints_spec(projection: P1Projection, view: PolicyView) -> Option<
    (PolicyView, ResultPolicyDemand),
> {
    if !accepts_runtime_spec(projection) {
        None
    } else {
        let selected = selected_pattern_spec(projection, view.pair.pattern.stages);
        let source_static = view.pair.value.stages.static_spec();
        if selected.empty_spec() || !selected.subset_spec(source_static) || source_static
            != view.pair.pattern.stages {
            None
        } else {
            Some(
                (
                    PolicyView {
                        pair: PolicyPair {
                            value: ValueComponentPolicy {
                                stages: selected,
                                presence: ValuePresence::Present,
                            },
                            pattern: PatternComponentPolicy { stages: selected },
                        },
                        mode: view.mode,
                    },
                    ResultPolicyDemand {
                        pair_query: P1Projection::Pair(
                            PolicyPair {
                                value: ValueComponentPolicy {
                                    stages: StageSet::singleton(PolicyStage::Runtime),
                                    presence: ValuePresence::Present,
                                },
                                pattern: PatternComponentPolicy { stages: selected },
                            },
                        ),
                        mode: view.mode,
                    },
                ),
            )
        }
    }
}

/// Migration sources of the first `n` entries: each value-bearing entry
/// with endpoints, in order, with its endpoints and value.
pub open spec fn demand_sources<P>(
    projection: P1Projection,
    result: Seq<PolicyResultEntry<SemanticValueRef, P>>,
    n: int,
) -> Seq<(PolicyView, ResultPolicyDemand, SemanticValueRef)>
    decreases n,
{
    if n <= 0 {
        Seq::empty()
    } else {
        let prefix = demand_sources(projection, result, n - 1);
        match result[n - 1].value {
            None => prefix,
            Some(source) => match migration_endpoints_spec(projection, result[n - 1].view) {
                None => prefix,
                Some((view, demand)) => prefix.push((view, demand, source)),
            },
        }
    }
}

/// `demands` are the requests built from `sources`, each with `provenance`.
pub open spec fn demands_match(
    demands: Seq<PolicyTransitionDemand>,
    sources: Seq<(PolicyView, ResultPolicyDemand, SemanticValueRef)>,
    provenance: Provenance,
) -> bool {
    &&& demands.len() == sources.len()
    &&& forall|i: int|
        0 <= i < demands.len() ==> {
            let request = #[trigger] demands[i].request;
            &&& request.well_formed()
            &&& request.source_view_spec() == sources[i].0
            &&& request.target_demand_spec() == sources[i].1
            &&& request.source_type_spec() == sources[i].2.type_value
            &&& request.source_value_spec() == sources[i].2.id
            &&& request.provenance_spec() == provenance
        }
}

fn projection_accepts_runtime_branch(projection: &P1Projection) -> (r: bool)
    ensures
        r == accepts_runtime_spec(*projection),
{
    let value = match projection {
        P1Projection::Pair(pair) => &pair.value,
        P1Projection::ValueDominant { value } => value,
        P1Projection::Infer => {
            return false;
        },
    };
    value.presence != ValuePresence::Absent && value.stages.contains(PolicyStage::Runtime)
}

fn atomic_runtime_migration_endpoints<V, P>(
    projection: &P1Projection,
    entry: &PolicyResultEntry<V, P>,
) -> (r: Option<(PolicyView, ResultPolicyDemand)>)
    ensures
        r == migration_endpoints_spec(*projection, entry.view),
{
    if !projection_accepts_runtime_branch(projection) {
        return None;
    }
    let available = entry.view.pair.pattern.stages;
    let selected = match projection {
        P1Projection::Pair(pair) => if pair.pattern.stages.is_empty() {
            available
        } else {
            let selected = pair.pattern.stages.intersection(&available);
            if selected.is_empty() {
                return None;
            }
            selected
        },
        _ => available,
    };
    let source_static = entry.view.pair.value.stages.static_stages();
    if selected.is_empty() || !selected.is_subset(&source_static) || source_static
        != entry.view.pair.pattern.stages {
        return None;
    }
    let selected_pattern = PatternComponentPolicy { stages: selected };
    let source_view = PolicyView {
        pair: PolicyPair {
            value: ValueComponentPolicy { stages: selected, presence: ValuePresence::Present },
            pattern: selected_pattern,
        },
        mode: entry.view.mode,
    };
    let runtime = StageSet { meta: false, compile: false, seal: false, runtime: true };
    let target_query = PolicyPair {
        value: ValueComponentPolicy { stages: runtime, presence: ValuePresence::Present },
        pattern: selected_pattern,
    };
    Some(
        (
            source_view,
            ResultPolicyDemand { pair_query: P1Projection::Pair(target_query), mode: entry.view.mode },
        ),
    )
}

/// Endpoints derived from one entry always form a valid transition request.
proof fn lemma_endpoints_form_request(projection: P1Projection, view: PolicyView)
    requires
        migration_endpoints_spec(projection, view) is Some,
    ensures
        ({
            let (source_view, demand) = migration_endpoints_spec(projection, view)->0;
            &&& demand.pair_query is Pair
            &&& transition_request_failure(source_view.pair, concrete_pair_spec(demand)->0) is None
        }),
{
}

/// Elaborate P1 over value result entries. Omitted P1 keeps the complete
/// result. An explicit P1 first projects the complete result; only when that
/// selects nothing are atomic runtime migration demands prepared, one per
/// value-bearing entry that can supply the demanded Pattern slice.
pub fn elaborate_value_binding_p1<P: Copy>(
    result: &[PolicyResultEntry<SemanticValueRef, P>],
    explicit_p1: Option<&P1Projection>,
    provenance: Provenance,
) -> (r: Result<P1Elaboration<P>, P1ElaborationFailure>)
    ensures
        result@.len() == 0 ==> r == Err::<P1Elaboration<P>, P1ElaborationFailure>(
            P1ElaborationFailure::EmptyResult,
        ),
        result@.len() > 0 && explicit_p1 is None ==> (r matches Ok(
            P1Elaboration::Projected { origin, requested, selected },
        ) && origin == P1Origin::Inferred && requested is None && selected@ == result@),
        result@.len() > 0 && explicit_p1 is Some ==> ({
            let projection = *explicit_p1->0;
            let projected = project_all(projection, result@);
            let relaxed = project_all(relax_presence_spec(projection), result@);
            let sources = demand_sources(projection, result@, result@.len() as int);
            if projected.len() > 0 {
                r matches Ok(P1Elaboration::Projected { origin, requested, selected }) && origin
                    == P1Origin::Explicit && requested == Some(projection) && selected@ == projected
            } else if all_without_value(result@) {
                if relaxed.len() > 0 {
                    r matches Ok(P1Elaboration::Projected { origin, requested, selected }) && origin
                        == P1Origin::Explicit && requested == Some(projection) && selected@ == relaxed
                } else {
                    r == Err::<P1Elaboration<P>, P1ElaborationFailure>(
                        P1ElaborationFailure::ProjectionUnavailableWithoutValue { requested: projection },
                    )
                }
            } else if !accepts_runtime_spec(projection) {
                r == Err::<P1Elaboration<P>, P1ElaborationFailure>(
                    P1ElaborationFailure::ProjectionUnavailableOutsideAtomicRuntimeMigration {
                        requested: projection,
                    },
                )
            } else if sources.len() == 0 {
                r == Err::<P1Elaboration<P>, P1ElaborationFailure>(
                    P1ElaborationFailure::PatternPolicyStageSliceUnavailableForMigration {
                        requested: projection,
                    },
                )
            } else {
                r matches Ok(P1Elaboration::AtomicRuntimeMigration { requested, demands })
                    && requested == projection && demands_match(demands@, sources, provenance)
            }
        }),
{
    if result.len() == 0 {
        return Err(P1ElaborationFailure::EmptyResult);
    }
    let projection = match explicit_p1 {
        Some(p) => p,
        None => {
            return Ok(
                P1Elaboration::Projected {
                    origin: P1Origin::Inferred,
                    requested: None,
                    selected: copy_entries(result),
                },
            );
        },
    };
    let selected = project_p1(projection, result);
    if selected.len() > 0 {
        return Ok(
            P1Elaboration::Projected {
                origin: P1Origin::Explicit,
                requested: Some(*projection),
                selected,
            },
        );
    }
    let mut saw_value_bearing_entry = false;
    let mut saw_runtime_migration_shape = false;
    let mut demands: Vec<PolicyTransitionDemand> = Vec::new();
    let mut entry_index: usize = 0;
    while entry_index < result.len()
        invariant
            entry_index <= result@.len(),
            saw_value_bearing_entry == !all_without_value(result@.subrange(0, entry_index as int)),
            saw_runtime_migration_shape == (saw_value_bearing_entry && accepts_runtime_spec(
                *projection,
            )),
            demands_match(
                demands@,
                demand_sources(*projection, result@, entry_index as int),
                provenance,
            ),
        decreases result@.len() - entry_index,
    {
        let entry = &result[entry_index];
        let ghost before = result@.subrange(0, entry_index as int);
        let ghost after = result@.subrange(0, entry_index as int + 1);
        assert(after =~= before.push(result@[entry_index as int]));
        match entry.value {
            None => {
                assert(all_without_value(after) == all_without_value(before));
            },
            Some(source) => {
                assert(after[entry_index as int].value is Some);
                assert(!all_without_value(after));
                saw_value_bearing_entry = true;
                if projection_accepts_runtime_branch(projection) {
                    saw_runtime_migration_shape = true;
                }
                match atomic_runtime_migration_endpoints(projection, entry) {
                    None => {},
                    Some((source_view, target_demand)) => {
                        proof {
                            lemma_endpoints_form_request(*projection, entry.view);
                        }
                        let request = PolicyTransitionRequest::new(
                            source_view,
                            target_demand,
                            source.type_value,
                            source.id,
                            provenance.copied(),
                        );
                        match request {
                            Ok(request) => {
                                demands.push(PolicyTransitionDemand { request });
                            },
                            Err(failure) => {
                                return Err(
                                    P1ElaborationFailure::InvalidTransitionSource { entry_index, failure },
                                );
                            },
                        }
                    },
                }
            },
        }
        entry_index = entry_index + 1;
    }
    assert(result@.subrange(0, result@.len() as int) =~= result@);
    if !saw_value_bearing_entry {
        let relaxed = relax_projection_presence(projection);
        let selected = project_p1(&relaxed, result);
        if selected.len() > 0 {
            return Ok(
                P1Elaboration::Projected {
                    origin: P1Origin::Explicit,
                    requested: Some(*projection),
                    selected,
                },
            );
        }
        return Err(P1ElaborationFailure::ProjectionUnavailableWithoutValue { requested: *projection });
    }
    if !saw_runtime_migration_shape {
        return Err(
            P1ElaborationFailure::ProjectionUnavailableOutsideAtomicRuntimeMigration {
                requested: *projection,
            },
        );
    }
    if demands.len() == 0 {
        return Err(
            P1ElaborationFailure::PatternPolicyStageSliceUnavailableForMigration {
                requested: *projection,
            },
        );
    }
    Ok(P1Elaboration::AtomicRuntimeMigration { requested: *projection, demands })
}

/// Projection-only P1 elaboration for a pure type result: such a result
/// never forms a migration demand.
pub fn elaborate_pure_type_binding_p1<P: Copy>(
    result: &[PolicyResultEntry<Infallible, P>],
    explicit_p1: Option<&P1Projection>,
) -> (r: Result<PureTypeP1Elaboration<P>, P1ElaborationFailure>)
    ensures
        result@.len() == 0 ==> r == Err::<PureTypeP1Elaboration<P>, P1ElaborationFailure>(
            P1ElaborationFailure::EmptyResult,
        ),
        result@.len() > 0 && explicit_p1 is None ==> (r matches Ok(e) && e.origin
            == P1Origin::Inferred && e.requested is None && e.selected@ == result@),
        result@.len() > 0 && explicit_p1 is Some ==> ({
            let projection = *explicit_p1->0;
            let projected = project_all(projection, result@);
            if projected.len() > 0 {
                r matches Ok(e) && e.origin == P1Origin::Explicit && e.requested == Some(projection)
                    && e.selected@ == projected
            } else {
                r == Err::<PureTypeP1Elaboration<P>, P1ElaborationFailure>(
                    P1ElaborationFailure::ProjectionUnavailableWithoutValue { requested: projection },
                )
            }
        }),
{
    if result.len() == 0 {
        return Err(P1ElaborationFailure::EmptyResult);
    }
    let projection = match explicit_p1 {
        Some(p) => p,
        None => {
            return Ok(
                PureTypeP1Elaboration {
                    origin: P1Origin::Inferred,
                    requested: None,
                    selected: copy_entries(result),
                },
            );
        },
    };
    let selected = project_p1(projection, result);
    if selected.len() == 0 {
        return Err(P1ElaborationFailure::ProjectionUnavailableWithoutValue { requested: *projection });
    }
    Ok(PureTypeP1Elaboration { origin: P1Origin::Explicit, requested: Some(*projection), selected })
}

// ---------------------------------------------------------------------------
// Policy domains and the runtime migration edge
// ---------------------------------------------------------------------------

/// Intersect a pair-shaped query with one available Policy domain, keeping
/// present/optional/absent alternatives: `None` when presence conflicts or a
/// demanded stage domain would be empty.
pub fn project_transition_policy_domain(query: &PolicyPair, available: &PolicyPair) -> (r: Option<
    PolicyPair,
>)
    ensures
        r == endpoint_projection_spec(*query, *available),
{
    project_migration_endpoint_hard_coordinates(query, available)
}

#[derive(Clone, Copy, Debug, PartialEq, Eq, Structural)]
pub enum PolicyTransitionFailure {
    SourceValueAbsent,
    SelectedInputContainsRuntime,
    SourceStaticValueStageDomainEmpty,
    SourceStaticPatternStageMismatch { source_static: StageSet, source_pattern: StageSet },
    TargetValueNotRuntime { target_value_stages: StageSet, target_value_presence: ValuePresence },
    ValuePatternStageOverlap { overlap: StageSet },
    PatternPolicyChanged { source: PatternComponentPolicy, target: PatternComponentPolicy },
}

/// Why a selected static endpoint cannot take the runtime migration edge to
/// `target`: the edge moves a present pure-static value whose static stages
/// equal its Pattern stages to a present runtime-only value, keeps the
/// Pattern policy, and keeps the target value and Pattern stages disjoint.
pub open spec fn runtime_transition_failure(source: PolicyPair, target: PolicyPair) -> Option<
    PolicyTransitionFailure,
> {
    if source.value.presence == ValuePresence::Absent {
        Some(PolicyTransitionFailure::SourceValueAbsent)
    } else if source.value.stages.runtime {
        Some(PolicyTransitionFailure::SelectedInputContainsRuntime)
    } else if source.value.stages.static_spec().empty_spec() {
        Some(PolicyTransitionFailure::SourceStaticValueStageDomainEmpty)
    } else if source.value.stages.static_spec() != source.pattern.stages {
        Some(
            PolicyTransitionFailure::SourceStaticPatternStageMismatch {
                source_static: source.value.stages.static_spec(),
                source_pattern: source.pattern.stages,
            },
        )
    } else if !runtime_only(target.value) {
        Some(
            PolicyTransitionFailure::TargetValueNotRuntime {
                target_value_stages: target.value.stages,
                target_value_presence: target.value.presence,
            },
        )
    } else if !target.value.stages.intersection_spec(target.pattern.stages).empty_spec() {
        Some(
            PolicyTransitionFailure::ValuePatternStageOverlap {
                overlap: target.value.stages.intersection_spec(target.pattern.stages),
            },
        )
    } else if target.pattern != source.pattern {
        Some(PolicyTransitionFailure::PatternPolicyChanged { source: source.pattern, target: target.pattern })
    } else {
        None
    }
}

/// Validate one selected atomic runtime migration endpoint.
pub fn validate_runtime_transition(source: &PolicyPair, target: &PolicyPair) -> (r: Result<
    (),
    PolicyTransitionFailure,
>)
    ensures
        match runtime_transition_failure(*source, *target) {
            Some(f) => r == Err::<(), PolicyTransitionFailure>(f),
            None => r is Ok,
        },
{
    if source.value.presence == ValuePresence::Absent {
        return Err(PolicyTransitionFailure::SourceValueAbsent);
    }
    if source.value.stages.contains(PolicyStage::Runtime) {
        return Err(PolicyTransitionFailure::SelectedInputContainsRuntime);
    }
    let source_static = source.value.stages.static_stages();
    if source_static.is_empty() {
        return Err(PolicyTransitionFailure::SourceStaticValueStageDomainEmpty);
    }
    if source_static != source.pattern.stages {
        return Err(
            PolicyTransitionFailure::SourceStaticPatternStageMismatch {
                source_static,
                source_pattern: source.pattern.stages,
            },
        );
    }
    let runtime_only = target.value.presence == ValuePresence::Present && target.value.stages.len()
        == 1 && target.value.stages.contains(PolicyStage::Runtime);
    if !runtime_only {
        return Err(
            PolicyTransitionFailure::TargetValueNotRuntime {
                target_value_stages: target.value.stages,
                target_value_presence: target.value.presence,
            },
        );
    }
    let overlap = target.value.stages.intersection(&target.pattern.stages);
    if !overlap.is_empty() {
        return Err(PolicyTransitionFailure::ValuePatternStageOverlap { overlap });
    }
    if target.pattern != source.pattern {
        return Err(
            PolicyTransitionFailure::PatternPolicyChanged { source: source.pattern, target: target.pattern },
        );
    }
    Ok(())
}

// ---------------------------------------------------------------------------
// Transition candidates
// ---------------------------------------------------------------------------

#[derive(Clone, Copy, Debug, PartialEq, Eq, Structural)]
pub enum OrdinaryCallableTypeInput {
    Any,
    Exact(TypeValueId),
}

#[derive(Clone, Copy, Debug, PartialEq, Eq, Structural)]
pub enum OrdinaryCallableTypeOutput {
    SameAsInput,
    Exact(TypeValueId),
}

/// The output type for a given input type.
pub open spec fn resolve_output_spec(output: OrdinaryCallableTypeOutput, source: TypeValueId) -> TypeValueId {
    match output {
        OrdinaryCallableTypeOutput::SameAsInput => source,
        OrdinaryCallableTypeOutput::Exact(output) => output,
    }
}

impl OrdinaryCallableTypeOutput {
    fn resolve(self, source: TypeValueId) -> (r: TypeValueId)
        ensures
            r == resolve_output_spec(self, source),
    {
        match self {
            OrdinaryCallableTypeOutput::SameAsInput => source,
            OrdinaryCallableTypeOutput::Exact(output) => output,
        }
    }
}

#[derive(Clone, Debug, PartialEq, Eq)]
pub enum PolicyBridgeBody {
    /// Atomic static-value to runtime-value copying.
    BuiltinValueCopy,
    /// A user callable, by its Symbol identity.
    UserCallable(SymbolId),
    /// A named intrinsic body.
    IntrinsicStub(String),
    /// A body that fails after it has been selected.
    FailAfterSelection(String),
}

impl PolicyBridgeBody {
    /// An equal copy of this body.
    pub fn duplicate(&self) -> (r: PolicyBridgeBody)
        ensures
            r == *self,
    {
        match self {
            PolicyBridgeBody::BuiltinValueCopy => PolicyBridgeBody::BuiltinValueCopy,
            PolicyBridgeBody::UserCallable(symbol) => PolicyBridgeBody::UserCallable(*symbol),
            PolicyBridgeBody::IntrinsicStub(name) => PolicyBridgeBody::IntrinsicStub(name.clone()),
            PolicyBridgeBody::FailAfterSelection(message) => PolicyBridgeBody::FailAfterSelection(
                message.clone(),
            ),
        }
    }
}

/// One migration candidate with the comparison dimensions of its input and
/// output endpoints.
#[derive(Clone, Debug, PartialEq, Eq)]
pub struct PolicyTransitionCallable<I> {
    pub id: I,
    pub input_type: OrdinaryCallableTypeInput,
    pub output_type: OrdinaryCallableTypeOutput,
    pub input_policy: PolicyPair,
    pub output_policy: PolicyPair,
    pub input_mode: PolicyMode,
    pub output_mode: PolicyMode,
    /// Hard conditions owned by ordinary candidate preparation.
    pub ordinary_fully_admissible: bool,
    /// Fallback role: any admissible non-fallback candidate removes it.
    pub prototype_is_fallback: bool,
    /// Pattern specificity, compared after the endpoint Policy product.
    pub prototype_pattern_specificity: u32,
    pub is_delete: bool,
    pub body: PolicyBridgeBody,
}

impl<I: Copy> PolicyTransitionCallable<I> {
    /// An equal copy of this candidate.
    pub fn duplicate(&self) -> (r: PolicyTransitionCallable<I>)
        ensures
            r == *self,
    {
        PolicyTransitionCallable {
            id: self.id,
            input_type: self.input_type,
            output_type: self.output_type,
            input_policy: self.input_policy,
            output_policy: self.output_policy,
            input_mode: self.input_mode,
            output_mode: self.output_mode,
            ordinary_fully_admissible: self.ordinary_fully_admissible,
            prototype_is_fallback: self.prototype_is_fallback,
            prototype_pattern_specificity: self.prototype_pattern_specificity,
            is_delete: self.is_delete,
            body: self.body.duplicate(),
        }
    }
}

/// A hard output-type expectation; it never ranks candidates.
#[derive(Clone, Copy, Debug, PartialEq, Eq, Structural)]
pub struct TransitionTypeExpectation {
    pub required_output_type: Option<TypeValueId>,
}

impl Default for TransitionTypeExpectation {
    fn default() -> (r: TransitionTypeExpectation)
        ensures
            r.required_output_type is None,
    {
        TransitionTypeExpectation { required_output_type: None }
    }
}

#[derive(Clone, Debug, PartialEq, Eq)]
pub struct ResolvedPolicyBridge<I> {
    pub callable: PolicyTransitionCallable<I>,
    pub result_type: TypeValueId,
    /// Complete ordinary result Policy declared by the selected callable.
    pub complete_result_view: PolicyView,
    /// Runtime-stage endpoint used by validation and comparison.
    pub validated_output_endpoint: PolicyPair,
}

#[derive(Clone, Debug, PartialEq, Eq)]
pub enum PolicyBridgeResolution<I> {
    Selected(ResolvedPolicyBridge<I>),
    RejectedByDelete(I),
    Ambiguous(Vec<I>),
    NoCandidate,
}

/// Qualification consumed by an outer candidate: only `Available` admits it.
#[derive(Clone, Debug, PartialEq, Eq)]
pub enum BridgeQualification<I> {
    Available(ResolvedPolicyBridge<I>),
    RejectedByDelete(I),
    Missing,
    Ambiguous(Vec<I>),
}

/// Whole-slot mode fitness: the higher preference rank for the demand wins.
pub open spec fn mode_fit_spec(demand: PolicyMode, left: PolicyMode, right: PolicyMode) -> PolicyPartialOrdering {
    if rank_spec(left, demand) < rank_spec(right, demand) {
        PolicyPartialOrdering::Less
    } else if rank_spec(left, demand) == rank_spec(right, demand) {
        PolicyPartialOrdering::Equal
    } else {
        PolicyPartialOrdering::Greater
    }
}

fn compare_mode_fit(demand: PolicyMode, left: PolicyMode, right: PolicyMode) -> (r: PolicyPartialOrdering)
    ensures
        r == mode_fit_spec(demand, left, right),
{
    let l = policy_mode_preference_rank(left, demand);
    let r = policy_mode_preference_rank(right, demand);
    if l < r {
        PolicyPartialOrdering::Less
    } else if l == r {
        PolicyPartialOrdering::Equal
    } else {
        PolicyPartialOrdering::Greater
    }
}

/// The product of input fitness, output fitness and both whole-slot mode
/// fitnesses of two candidates against a source view and a target demand.
pub open spec fn transition_candidates_spec<I>(
    required_source: PolicyView,
    target_demand: ResultPolicyDemand,
    a: PolicyTransitionCallable<I>,
    b: PolicyTransitionCallable<I>,
) -> PolicyPartialOrdering {
    compose_spec(
        seq![
            input_fit_spec(required_source.pair, a.input_policy, b.input_policy),
            output_fit_spec(concrete_pair_spec(target_demand)->0, a.output_policy, b.output_policy),
            mode_fit_spec(required_source.mode, a.input_mode, b.input_mode),
            mode_fit_spec(target_demand.mode, a.output_mode, b.output_mode),
        ],
    )
}

/// Compare only the input/output Policy dimensions of two transition
/// candidates as one product order. `Greater` means `a` dominates `b`.
pub fn compare_policy_transition_candidates<I>(
    required_source: &PolicyView,
    target_demand: &ResultPolicyDemand,
    a: &PolicyTransitionCallable<I>,
    b: &PolicyTransitionCallable<I>,
) -> (r: PolicyPartialOrdering)
    requires
        target_demand.pair_query is Pair,
    ensures
        r == transition_candidates_spec(*required_source, *target_demand, *a, *b),
{
    let target_query = match &target_demand.pair_query {
        P1Projection::Pair(pair) => pair,
        _ => &required_source.pair,
    };
    let dims = [
        compare_input_policy_fit(&required_source.pair, &a.input_policy, &b.input_policy),
        compare_output_policy_fit(target_query, &a.output_policy, &b.output_policy),
        compare_mode_fit(required_source.mode, a.input_mode, b.input_mode),
        compare_mode_fit(target_demand.mode, a.output_mode, b.output_mode),
    ];
    let r = compose_orders(dims.as_slice());
    assert(dims@ =~= seq![
        input_fit_spec(required_source.pair, a.input_policy, b.input_policy),
        output_fit_spec(concrete_pair_spec(*target_demand)->0, a.output_policy, b.output_policy),
        mode_fit_spec(required_source.mode, a.input_mode, b.input_mode),
        mode_fit_spec(target_demand.mode, a.output_mode, b.output_mode),
    ]);
    r
}

/// Whether a candidate's declared input type accepts the actual type.
pub open spec fn input_type_accepts_spec(pattern: OrdinaryCallableTypeInput, actual: TypeValueId) -> bool {
    match pattern {
        OrdinaryCallableTypeInput::Any => true,
        OrdinaryCallableTypeInput::Exact(expected) => expected == actual,
    }
}

fn input_type_accepts(pattern: OrdinaryCallableTypeInput, actual: TypeValueId) -> (r: bool)
    ensures
        r == input_type_accepts_spec(pattern, actual),
{
    match pattern {
        OrdinaryCallableTypeInput::Any => true,
        OrdinaryCallableTypeInput::Exact(expected) => expected == actual,
    }
}

/// A candidate is fully admissible for a request when ordinary preparation
/// admits it, its input type accepts the source type, its input and output
/// Policies meet the source view and the target pair, those endpoints take
/// the runtime migration edge, its result type is the source type, and that
/// type meets the expectation.
pub open spec fn bridge_admissible_spec<I>(
    request: PolicyTransitionRequest,
    candidate: PolicyTransitionCallable<I>,
    expectation: TransitionTypeExpectation,
) -> bool {
    let input = endpoint_projection_spec(candidate.input_policy, request.source_view_spec().pair);
    let output = endpoint_projection_spec(request.target_pair_spec(), candidate.output_policy);
    let result_type = resolve_output_spec(candidate.output_type, request.source_type_spec());
    &&& candidate.ordinary_fully_admissible
    &&& input_type_accepts_spec(candidate.input_type, request.source_type_spec())
    &&& input is Some
    &&& output is Some
    &&& runtime_transition_failure(input->0, output->0) is None
    &&& result_type == request.source_type_spec()
    &&& match expectation.required_output_type {
        Some(required) => required == result_type,
        None => true,
    }
}

fn candidate_is_fully_admissible<I>(
    request: &PolicyTransitionRequest,
    candidate: &PolicyTransitionCallable<I>,
    expectation: TransitionTypeExpectation,
) -> (r: bool)
    requires
        request.well_formed(),
    ensures
        r == bridge_admissible_spec(*request, *candidate, expectation),
{
    if !candidate.ordinary_fully_admissible || !input_type_accepts(
        candidate.input_type,
        request.source_type(),
    ) {
        return false;
    }
    let input_view = match project_migration_input_endpoint(
        &candidate.input_policy,
        &request.source_view().pair,
    ) {
        Some(view) => view,
        None => {
            return false;
        },
    };
    let result_policy = match project_migration_output_endpoint(
        request.target_pair(),
        &candidate.output_policy,
    ) {
        Some(policy) => policy,
        None => {
            return false;
        },
    };
    if validate_runtime_transition(&input_view, &result_policy).is_err() {
        return false;
    }
    let result_type = candidate.output_type.resolve(request.source_type());
    if result_type != request.source_type() {
        return false;
    }
    match expectation.required_output_type {
        Some(required) => required == result_type,
        None => true,
    }
}

/// Ordinary input-type fitness: an exact type beats `Any`; two different
/// exact types are incomparable.
pub open spec fn input_type_fit_spec(left: OrdinaryCallableTypeInput, right: OrdinaryCallableTypeInput) -> PolicyPartialOrdering {
    match (left, right) {
        (OrdinaryCallableTypeInput::Exact(a), OrdinaryCallableTypeInput::Exact(b)) => if a == b {
            PolicyPartialOrdering::Equal
        } else {
            PolicyPartialOrdering::Incomparable
        },
        (OrdinaryCallableTypeInput::Exact(_), OrdinaryCallableTypeInput::Any) => PolicyPartialOrdering::Greater,
        (OrdinaryCallableTypeInput::Any, OrdinaryCallableTypeInput::Exact(_)) => PolicyPartialOrdering::Less,
        (OrdinaryCallableTypeInput::Any, OrdinaryCallableTypeInput::Any) => PolicyPartialOrdering::Equal,
    }
}

fn compare_input_type_fit(left: OrdinaryCallableTypeInput, right: OrdinaryCallableTypeInput) -> (r:
    PolicyPartialOrdering)
    ensures
        r == input_type_fit_spec(left, right),
{
    match (left, right) {
        (OrdinaryCallableTypeInput::Exact(a), OrdinaryCallableTypeInput::Exact(b)) => if a == b {
            PolicyPartialOrdering::Equal
        } else {
            PolicyPartialOrdering::Incomparable
        },
        (OrdinaryCallableTypeInput::Exact(_), OrdinaryCallableTypeInput::Any) => PolicyPartialOrdering::Greater,
        (OrdinaryCallableTypeInput::Any, OrdinaryCallableTypeInput::Exact(_)) => PolicyPartialOrdering::Less,
        (OrdinaryCallableTypeInput::Any, OrdinaryCallableTypeInput::Any) => PolicyPartialOrdering::Equal,
    }
}

fn ordinary_candidate_dominates<I>(
    better: &PolicyTransitionCallable<I>,
    worse: &PolicyTransitionCallable<I>,
) -> (r: bool)
    ensures
        r == (input_type_fit_spec(better.input_type, worse.input_type) == PolicyPartialOrdering::Greater),
{
    match compare_input_type_fit(better.input_type, worse.input_type) {
        PolicyPartialOrdering::Greater => true,
        _ => false,
    }
}

// ---------------------------------------------------------------------------
// Bridge resolution
// ---------------------------------------------------------------------------

/// Indices of the fully admissible candidates, in order.
pub open spec fn admissible_indices<I>(
    request: PolicyTransitionRequest,
    candidates: Seq<PolicyTransitionCallable<I>>,
    expectation: TransitionTypeExpectation,
) -> Seq<int> {
    indices_where(
        |i: int| bridge_admissible_spec(request, candidates[i], expectation),
        candidates.len() as int,
    )
}

/// Any admissible non-fallback candidate removes every fallback candidate.
pub open spec fn fallback_survivors<I>(candidates: Seq<PolicyTransitionCallable<I>>, admissible: Seq<int>) -> Seq<
    int,
> {
    if exists|k: int| 0 <= k < admissible.len() && !(#[trigger] candidates[admissible[k]]).prototype_is_fallback {
        filter_prefix(admissible, |i: int| !candidates[i].prototype_is_fallback, admissible.len() as int)
    } else {
        admissible
    }
}

/// `a` dominates `b` in the endpoint Policy product for the request.
pub open spec fn endpoint_dominance<I>(
    request: PolicyTransitionRequest,
    candidates: Seq<PolicyTransitionCallable<I>>,
) -> spec_fn(int, int) -> bool {
    |a: int, b: int|
        0 <= a < candidates.len() && 0 <= b < candidates.len() && transition_candidates_spec(
            request.source_view_spec(),
            request.target_demand_spec(),
            candidates[a],
            candidates[b],
        ) == PolicyPartialOrdering::Greater
}

/// `a` dominates `b` by ordinary input-type fitness.
pub open spec fn input_type_dominance<I>(candidates: Seq<PolicyTransitionCallable<I>>) -> spec_fn(int, int) -> bool {
    |a: int, b: int|
        0 <= a < candidates.len() && 0 <= b < candidates.len() && input_type_fit_spec(
            candidates[a].input_type,
            candidates[b].input_type,
        ) == PolicyPartialOrdering::Greater
}

/// `a` dominates `b` by a strictly greater Pattern specificity.
pub open spec fn specificity_dominance<I>(candidates: Seq<PolicyTransitionCallable<I>>) -> spec_fn(int, int) -> bool {
    |a: int, b: int|
        0 <= a < candidates.len() && 0 <= b < candidates.len()
            && candidates[a].prototype_pattern_specificity > candidates[b].prototype_pattern_specificity
}

/// The candidates that survive admissibility, fallback suppression, the
/// endpoint Policy maxima, the input-type maxima and the specificity maxima,
/// in order.
pub open spec fn bridge_maxima<I>(
    request: PolicyTransitionRequest,
    candidates: Seq<PolicyTransitionCallable<I>>,
    expectation: TransitionTypeExpectation,
) -> Seq<int> {
    let fallback = fallback_survivors(candidates, admissible_indices(request, candidates, expectation));
    let policy = maximal_spec(fallback, endpoint_dominance(request, candidates));
    let entry = maximal_spec(policy, input_type_dominance(candidates));
    maximal_spec(entry, specificity_dominance(candidates))
}

/// The bridge selected for a request: the candidate itself, its result type,
/// its complete declared result view and its projected output endpoint.
pub open spec fn resolved_spec<I>(
    request: PolicyTransitionRequest,
    candidate: PolicyTransitionCallable<I>,
) -> ResolvedPolicyBridge<I> {
    ResolvedPolicyBridge {
        callable: candidate,
        result_type: resolve_output_spec(candidate.output_type, request.source_type_spec()),
        complete_result_view: PolicyView { pair: candidate.output_policy, mode: candidate.output_mode },
        validated_output_endpoint: endpoint_projection_spec(
            request.target_pair_spec(),
            candidate.output_policy,
        )->0,
    }
}

/// The ids of the candidates at the given indices, in order.
pub open spec fn callable_ids<I>(candidates: Seq<PolicyTransitionCallable<I>>, indices: Seq<int>) -> Seq<I> {
    indices.map_values(|i: int| candidates[i].id)
}

/// `r` is the verdict over maxima `maximal`: none is no candidate, one is
/// selected (or rejected when it is `delete`), several are ambiguous.
pub open spec fn resolution_matches<I>(
    r: PolicyBridgeResolution<I>,
    request: PolicyTransitionRequest,
    candidates: Seq<PolicyTransitionCallable<I>>,
    maximal: Seq<int>,
) -> bool {
    if maximal.len() == 0 {
        r == PolicyBridgeResolution::<I>::NoCandidate
    } else if maximal.len() == 1 {
        if candidates[maximal[0]].is_delete {
            r == PolicyBridgeResolution::RejectedByDelete(candidates[maximal[0]].id)
        } else {
            r == PolicyBridgeResolution::Selected(resolved_spec(request, candidates[maximal[0]]))
        }
    } else {
        r matches PolicyBridgeResolution::Ambiguous(ids) && ids@ == callable_ids(candidates, maximal)
    }
}

enum BridgeOrder {
    EndpointPolicy,
    InputType,
    PatternSpecificity,
}

spec fn order_dominance<I>(
    order: BridgeOrder,
    request: PolicyTransitionRequest,
    candidates: Seq<PolicyTransitionCallable<I>>,
) -> spec_fn(int, int) -> bool {
    match order {
        BridgeOrder::EndpointPolicy => endpoint_dominance(request, candidates),
        BridgeOrder::InputType => input_type_dominance(candidates),
        BridgeOrder::PatternSpecificity => specificity_dominance(candidates),
    }
}

fn order_dominates<I>(
    order: &BridgeOrder,
    request: &PolicyTransitionRequest,
    candidates: &[PolicyTransitionCallable<I>],
    a: usize,
    b: usize,
) -> (r: bool)
    requires
        request.well_formed(),
        a < candidates@.len(),
        b < candidates@.len(),
    ensures
        r == order_dominance(*order, *request, candidates@)(a as int, b as int),
{
    let better = &candidates[a];
    let worse = &candidates[b];
    match order {
        BridgeOrder::EndpointPolicy => {
            let o = compare_policy_transition_candidates(
                request.source_view(),
                request.target_demand(),
                better,
                worse,
            );
            match o {
                PolicyPartialOrdering::Greater => true,
                _ => false,
            }
        },
        BridgeOrder::InputType => ordinary_candidate_dominates(better, worse),
        BridgeOrder::PatternSpecificity => better.prototype_pattern_specificity
            > worse.prototype_pattern_specificity,
    }
}

/// Maxima of `admissible` under one order.
fn order_maxima<I>(
    order: BridgeOrder,
    request: &PolicyTransitionRequest,
    candidates: &[PolicyTransitionCallable<I>],
    admissible: &Vec<usize>,
) -> (r: Vec<usize>)
    requires
        request.well_formed(),
        forall|k: int| 0 <= k < admissible@.len() ==> #[trigger] admissible@[k] < candidates@.len(),
    ensures
        r@.map_values(|i: usize| i as int) == maximal_spec(
            admissible@.map_values(|i: usize| i as int),
            order_dominance(order, *request, candidates@),
        ),
        forall|k: int|
            0 <= k < r@.len() ==> exists|j: int|
                0 <= j < admissible@.len() && #[trigger] r@[k] == admissible@[j],
{
    let ghost od = order_dominance(order, *request, candidates@);
    let mut dominance: Vec<Vec<bool>> = Vec::new();
    let mut x: usize = 0;
    while x < candidates.len()
        invariant
            request.well_formed(),
            x <= candidates@.len(),
            dominance@.len() == x,
            od == order_dominance(order, *request, candidates@),
            forall|a: int, b: int|
                0 <= a < x && 0 <= b < candidates@.len() ==> #[trigger] matrix_at(dominance@, a, b) == od(a, b),
            forall|a: int| 0 <= a < x ==> #[trigger] dominance@[a]@.len() == candidates@.len(),
        decreases candidates@.len() - x,
    {
        let mut row: Vec<bool> = Vec::new();
        let mut y: usize = 0;
        while y < candidates.len()
            invariant
                request.well_formed(),
                y <= candidates@.len(),
                x < candidates@.len(),
                row@.len() == y,
                od == order_dominance(order, *request, candidates@),
                forall|b: int| 0 <= b < y ==> #[trigger] row@[b] == od(x as int, b),
            decreases candidates@.len() - y,
        {
            row.push(order_dominates(&order, request, candidates, x, y));
            y = y + 1;
        }
        let ghost old_dominance = dominance@;
        dominance.push(row);
        proof {
            assert forall|a: int, b: int|
                0 <= a < x + 1 && 0 <= b < candidates@.len() implies #[trigger] matrix_at(dominance@, a, b)
                    == od(a, b) by {
                if a < x {
                    assert(dominance@[a] == old_dominance[a]);
                    assert(matrix_at(old_dominance, a, b) == od(a, b));
                } else {
                    assert(dominance@[a] == row);
                }
            }
        }
        x = x + 1;
    }
    let ghost dom = |a: int, b: int| matrix_at(dominance@, a, b);
    let maximal = maximal_candidates(admissible, &dominance);
    proof {
        let adm = admissible@.map_values(|i: usize| i as int);
        assert forall|a: int, b: int| #[trigger] dom(a, b) == od(a, b) by {
            if 0 <= a < candidates@.len() && 0 <= b < candidates@.len() {
            } else if 0 <= a < candidates@.len() {
                assert(dominance@[a]@.len() == candidates@.len());
            }
            match order {
                BridgeOrder::EndpointPolicy => {},
                BridgeOrder::InputType => {},
                BridgeOrder::PatternSpecificity => {},
            }
        }
        assert(dom =~= od);
        let keep = |i: int| !exists|k: int| 0 <= k < adm.len() && adm[k] != i && #[trigger] dom(adm[k], i);
        lemma_filter_prefix_members(adm, keep, adm.len() as int);
        assert forall|k: int| 0 <= k < maximal@.len() implies exists|j: int|
            0 <= j < admissible@.len() && #[trigger] maximal@[k] == admissible@[j] by {
            let mm = maximal@.map_values(|i: usize| i as int);
            assert(mm[k] == maximal@[k] as int);
            let j = choose|j: int| 0 <= j < adm.len() && #[trigger] filter_prefix(adm, keep, adm.len() as int)[k] == adm[j];
            assert(adm[j] == admissible@[j] as int);
            assert(maximal@[k] == admissible@[j]);
        }
    }
    maximal
}

/// Any admissible non-fallback candidate removes every fallback candidate.
fn suppress_fallback_candidates<I>(
    candidates: &[PolicyTransitionCallable<I>],
    fully_admissible: &Vec<usize>,
) -> (r: Vec<usize>)
    requires
        forall|k: int| 0 <= k < fully_admissible@.len() ==> #[trigger] fully_admissible@[k] < candidates@.len(),
    ensures
        r@.map_values(|i: usize| i as int) == fallback_survivors(
            candidates@,
            fully_admissible@.map_values(|i: usize| i as int),
        ),
        forall|k: int| 0 <= k < r@.len() ==> fully_admissible@.contains(#[trigger] r@[k]),
{
    let ghost adm = fully_admissible@.map_values(|i: usize| i as int);
    let ghost keep = |i: int| !candidates@[i].prototype_is_fallback;
    let mut any_primary = false;
    let mut k: usize = 0;
    while k < fully_admissible.len()
        invariant
            k <= fully_admissible@.len(),
            adm == fully_admissible@.map_values(|i: usize| i as int),
            forall|q: int| 0 <= q < fully_admissible@.len() ==> #[trigger] fully_admissible@[q] < candidates@.len(),
            any_primary == exists|q: int|
                0 <= q < k && !(#[trigger] candidates@[adm[q]]).prototype_is_fallback,
        decreases fully_admissible@.len() - k,
    {
        assert(adm[k as int] == fully_admissible@[k as int] as int);
        if !candidates[fully_admissible[k]].prototype_is_fallback {
            any_primary = true;
        }
        k = k + 1;
    }
    if !any_primary {
        let mut out: Vec<usize> = Vec::new();
        let mut q: usize = 0;
        while q < fully_admissible.len()
            invariant
                q <= fully_admissible@.len(),
                out@ == fully_admissible@.subrange(0, q as int),
            decreases fully_admissible@.len() - q,
        {
            out.push(fully_admissible[q]);
            q = q + 1;
            assert(out@ =~= fully_admissible@.subrange(0, q as int));
        }
        proof {
            assert(out@ =~= fully_admissible@);
            assert forall|k: int| 0 <= k < out@.len() implies fully_admissible@.contains(#[trigger] out@[k]) by {
                assert(out@[k] == fully_admissible@[k]);
            }
            assert(!exists|q: int|
                0 <= q < adm.len() && !(#[trigger] candidates@[adm[q]]).prototype_is_fallback);
            assert(out@.map_values(|i: usize| i as int) =~= adm);
        }
        return out;
    }
    let mut out: Vec<usize> = Vec::new();
    let mut q: usize = 0;
    while q < fully_admissible.len()
        invariant
            q <= fully_admissible@.len(),
            adm == fully_admissible@.map_values(|i: usize| i as int),
            keep == (|i: int| !candidates@[i].prototype_is_fallback),
            forall|p: int| 0 <= p < fully_admissible@.len() ==> #[trigger] fully_admissible@[p] < candidates@.len(),
            out@.map_values(|i: usize| i as int) == filter_prefix(adm, keep, q as int),
        decreases fully_admissible@.len() - q,
    {
        let candidate = fully_admissible[q];
        assert(adm[q as int] == candidate as int);
        if !candidates[candidate].prototype_is_fallback {
            out.push(candidate);
        }
        q = q + 1;
        assert(out@.map_values(|i: usize| i as int) =~= filter_prefix(adm, keep, q as int));
    }
    proof {
        lemma_filter_prefix_members(adm, keep, adm.len() as int);
        assert forall|k: int| 0 <= k < out@.len() implies fully_admissible@.contains(#[trigger] out@[k]) by {
            let mm = out@.map_values(|i: usize| i as int);
            assert(mm[k] == out@[k] as int);
            let j = choose|j: int| 0 <= j < adm.len() && #[trigger] filter_prefix(adm, keep, adm.len() as int)[k] == adm[j];
            assert(adm[j] == fully_admissible@[j] as int);
            assert(out@[k] == fully_admissible@[j]);
        }
    }
    out
}

/// Select a migration bridge from a candidate family: admissible candidates
/// pass fallback suppression, then the endpoint Policy product, the ordinary
/// input-type order and the Pattern specificity, each keeping its maxima.
/// One survivor is selected (or rejected when it is `delete`), several are
/// ambiguous, none is no candidate. A result never feeds another request.
#[verifier::spinoff_prover]
pub fn resolve_policy_bridge<I: Copy>(
    request: &PolicyTransitionRequest,
    candidates: &[PolicyTransitionCallable<I>],
    expectation: TransitionTypeExpectation,
) -> (r: PolicyBridgeResolution<I>)
    requires
        request.well_formed(),
    ensures
        resolution_matches(r, *request, candidates@, bridge_maxima(*request, candidates@, expectation)),
{
    let admissible = admissible_candidates(request, candidates, expectation);
    if admissible.len() == 0 {
        proof {
            let fb = fallback_survivors(candidates@, Seq::<int>::empty());
            assert(fb =~= Seq::<int>::empty());
        }
        return PolicyBridgeResolution::NoCandidate;
    }
    let fallback = suppress_fallback_candidates(candidates, &admissible);
    assert forall|k: int| 0 <= k < fallback@.len() implies #[trigger] fallback@[k] < candidates@.len()
        && bridge_admissible_spec(*request, candidates@[fallback@[k] as int], expectation) by {
        assert(admissible@.contains(fallback@[k]));
        let j = choose|j: int| 0 <= j < admissible@.len() && admissible@[j] == fallback@[k];
        assert(admissible@[j] < candidates@.len());
    }
    let policy = order_maxima(BridgeOrder::EndpointPolicy, request, candidates, &fallback);
    assert forall|k: int| 0 <= k < policy@.len() implies #[trigger] policy@[k] < candidates@.len()
        && bridge_admissible_spec(*request, candidates@[policy@[k] as int], expectation) by {
        let j = choose|j: int| 0 <= j < fallback@.len() && #[trigger] policy@[k] == fallback@[j];
        assert(fallback@[j] < candidates@.len());
    }
    let entry = order_maxima(BridgeOrder::InputType, request, candidates, &policy);
    assert forall|k: int| 0 <= k < entry@.len() implies #[trigger] entry@[k] < candidates@.len()
        && bridge_admissible_spec(*request, candidates@[entry@[k] as int], expectation) by {
        let j = choose|j: int| 0 <= j < policy@.len() && #[trigger] entry@[k] == policy@[j];
        assert(policy@[j] < candidates@.len());
    }
    let maximal = order_maxima(BridgeOrder::PatternSpecificity, request, candidates, &entry);
    assert forall|k: int| 0 <= k < maximal@.len() implies #[trigger] maximal@[k] < candidates@.len()
        && bridge_admissible_spec(*request, candidates@[maximal@[k] as int], expectation) by {
        let j = choose|j: int| 0 <= j < entry@.len() && #[trigger] maximal@[k] == entry@[j];
        assert(entry@[j] < candidates@.len());
    }
    let ghost m = maximal@.map_values(|i: usize| i as int);
    proof {
        assert(m == bridge_maxima(*request, candidates@, expectation));
    }
    if maximal.len() == 0 {
        return PolicyBridgeResolution::NoCandidate;
    }
    if maximal.len() == 1 {
        let candidate = &candidates[maximal[0]];
        assert(m[0] == maximal@[0] as int);
        if candidate.is_delete {
            return PolicyBridgeResolution::RejectedByDelete(candidate.id);
        }
        assert(bridge_admissible_spec(*request, candidates@[maximal@[0] as int], expectation));
        let endpoint = match project_migration_output_endpoint(
            request.target_pair(),
            &candidate.output_policy,
        ) {
            Some(endpoint) => endpoint,
            None => candidate.output_policy,
        };
        return PolicyBridgeResolution::Selected(
            ResolvedPolicyBridge {
                callable: candidate.duplicate(),
                result_type: candidate.output_type.resolve(request.source_type()),
                complete_result_view: PolicyView {
                    pair: candidate.output_policy,
                    mode: candidate.output_mode,
                },
                validated_output_endpoint: endpoint,
            },
        );
    }
    PolicyBridgeResolution::Ambiguous(ids_of_candidates(candidates, &maximal))
}

/// The indices of the fully admissible candidates, in order.
fn admissible_candidates<I>(
    request: &PolicyTransitionRequest,
    candidates: &[PolicyTransitionCallable<I>],
    expectation: TransitionTypeExpectation,
) -> (r: Vec<usize>)
    requires
        request.well_formed(),
    ensures
        r@.map_values(|i: usize| i as int) == admissible_indices(*request, candidates@, expectation),
        forall|k: int| 0 <= k < r@.len() ==> #[trigger] r@[k] < candidates@.len(),
        forall|k: int|
            0 <= k < r@.len() ==> bridge_admissible_spec(*request, #[trigger] candidates@[r@[k] as int], expectation),
{
    let ghost p = |i: int| bridge_admissible_spec(*request, candidates@[i], expectation);
    let mut admissible: Vec<usize> = Vec::new();
    let mut i: usize = 0;
    while i < candidates.len()
        invariant
            request.well_formed(),
            i <= candidates@.len(),
            p == (|i: int| bridge_admissible_spec(*request, candidates@[i], expectation)),
            admissible@.map_values(|i: usize| i as int) == indices_where(p, i as int),
            forall|k: int| 0 <= k < admissible@.len() ==> #[trigger] admissible@[k] < i,
            forall|k: int|
                0 <= k < admissible@.len() ==> bridge_admissible_spec(
                    *request,
                    #[trigger] candidates@[admissible@[k] as int],
                    expectation,
                ),
        decreases candidates@.len() - i,
    {
        if candidate_is_fully_admissible(request, &candidates[i], expectation) {
            admissible.push(i);
        }
        i = i + 1;
        assert(admissible@.map_values(|i: usize| i as int) =~= indices_where(p, i as int));
    }
    admissible
}

/// The identities of the candidates at `indices`, in order.
fn ids_of_candidates<I: Copy>(candidates: &[PolicyTransitionCallable<I>], indices: &Vec<usize>) -> (r: Vec<I>)
    requires
        forall|q: int| 0 <= q < indices@.len() ==> #[trigger] indices@[q] < candidates@.len(),
    ensures
        r@ == callable_ids(candidates@, indices@.map_values(|i: usize| i as int)),
{
    let ghost m = indices@.map_values(|i: usize| i as int);
    let mut ids: Vec<I> = Vec::new();
    let mut k: usize = 0;
    while k < indices.len()
        invariant
            k <= indices@.len(),
            m == indices@.map_values(|i: usize| i as int),
            forall|q: int| 0 <= q < indices@.len() ==> #[trigger] indices@[q] < candidates@.len(),
            ids@ == callable_ids(candidates@, m.subrange(0, k as int)),
        decreases indices@.len() - k,
    {
        ids.push(candidates[indices[k]].id);
        k = k + 1;
        assert(ids@ =~= callable_ids(candidates@, m.subrange(0, k as int)));
    }
    assert(m.subrange(0, indices@.len() as int) =~= m);
    ids
}

/// The qualification an outer candidate sees for a bridge resolution.
pub open spec fn qualification_matches<I>(
    r: BridgeQualification<I>,
    request: PolicyTransitionRequest,
    candidates: Seq<PolicyTransitionCallable<I>>,
    maximal: Seq<int>,
) -> bool {
    if maximal.len() == 0 {
        r == BridgeQualification::<I>::Missing
    } else if maximal.len() == 1 {
        if candidates[maximal[0]].is_delete {
            r == BridgeQualification::RejectedByDelete(candidates[maximal[0]].id)
        } else {
            r == BridgeQualification::Available(resolved_spec(request, candidates[maximal[0]]))
        }
    } else {
        r matches BridgeQualification::Ambiguous(ids) && ids@ == callable_ids(candidates, maximal)
    }
}

/// Qualify a bridge for an outer candidate: only a selected bridge is
/// `Available`; delete, ambiguity and absence keep distinct causes.
pub fn qualify_policy_bridge<I: Copy>(
    request: &PolicyTransitionRequest,
    candidates: &[PolicyTransitionCallable<I>],
    expectation: TransitionTypeExpectation,
) -> (r: BridgeQualification<I>)
    requires
        request.well_formed(),
    ensures
        qualification_matches(r, *request, candidates@, bridge_maxima(*request, candidates@, expectation)),
{
    match resolve_policy_bridge(request, candidates, expectation) {
        PolicyBridgeResolution::Selected(selected) => BridgeQualification::Available(selected),
        PolicyBridgeResolution::RejectedByDelete(id) => BridgeQualification::RejectedByDelete(id),
        PolicyBridgeResolution::Ambiguous(ids) => BridgeQualification::Ambiguous(ids),
        PolicyBridgeResolution::NoCandidate => BridgeQualification::Missing,
    }
}

// ---------------------------------------------------------------------------
// Result assembly and bridge invocation
// ---------------------------------------------------------------------------

/// A complete result entry produced for one demand, with the source value it
/// was produced from.
#[derive(Clone, Debug, PartialEq, Eq)]
pub struct PrototypeTransitionResultCarrier<P> {
    pub entry: PolicyResultEntry<SemanticValueRef, P>,
    pub source_value: SemanticValueId,
    pub provenance: Provenance,
}

#[derive(Clone, Copy, Debug, PartialEq, Eq, Structural)]
pub enum P1AssemblyFailure {
    ProducedValueCountMismatch { expected: usize, actual: usize },
    ProducedValueDoesNotMatchDemand { demand_index: usize },
}

/// Whether the value produced for demand `i` does not meet it: it comes from
/// another source value, or the demanded projection selects nothing of it.
pub open spec fn produced_mismatch<P>(
    demands: Seq<PolicyTransitionDemand>,
    produced: Seq<PrototypeTransitionResultCarrier<P>>,
    i: int,
) -> bool {
    produced[i].source_value != demands[i].request.source_value_spec() || project_entry_spec(
        demands[i].request.target_demand_spec().pair_query,
        produced[i].entry,
    ) is None
}

/// Assemble the value entries produced for one transition elaboration: the
/// counts agree, and each produced entry comes from its demand's source
/// value and is projected by the demand. The first mismatch is reported.
pub fn assemble_transition_results<P: Copy>(
    demands: &[PolicyTransitionDemand],
    produced: &[PrototypeTransitionResultCarrier<P>],
) -> (r: Result<Vec<PolicyResultEntry<SemanticValueRef, P>>, P1AssemblyFailure>)
    ensures
        demands@.len() != produced@.len() ==> r == Err::<
            Vec<PolicyResultEntry<SemanticValueRef, P>>,
            P1AssemblyFailure,
        >(
            P1AssemblyFailure::ProducedValueCountMismatch {
                expected: demands@.len() as usize,
                actual: produced@.len() as usize,
            },
        ),
        demands@.len() == produced@.len() ==> match r {
            Err(f) => f matches P1AssemblyFailure::ProducedValueDoesNotMatchDemand { demand_index }
                && demand_index < demands@.len() && produced_mismatch(
                demands@,
                produced@,
                demand_index as int,
            ) && forall|j: int|
                0 <= j < demand_index ==> !#[trigger] produced_mismatch(demands@, produced@, j),
            Ok(results) => (forall|j: int|
                0 <= j < demands@.len() ==> !#[trigger] produced_mismatch(demands@, produced@, j))
                && results@.len() == demands@.len() && forall|j: int|
                0 <= j < results@.len() ==> #[trigger] results@[j] == project_entry_spec(
                    demands@[j].request.target_demand_spec().pair_query,
                    produced@[j].entry,
                )->0,
        },
{
    if demands.len() != produced.len() {
        return Err(
            P1AssemblyFailure::ProducedValueCountMismatch {
                expected: demands.len(),
                actual: produced.len(),
            },
        );
    }
    let mut results: Vec<PolicyResultEntry<SemanticValueRef, P>> = Vec::new();
    let mut demand_index: usize = 0;
    while demand_index < demands.len()
        invariant
            demands@.len() == produced@.len(),
            demand_index <= demands@.len(),
            results@.len() == demand_index,
            forall|j: int| 0 <= j < demand_index ==> !#[trigger] produced_mismatch(demands@, produced@, j),
            forall|j: int|
                0 <= j < demand_index ==> #[trigger] results@[j] == project_entry_spec(
                    demands@[j].request.target_demand_spec().pair_query,
                    produced@[j].entry,
                )->0,
        decreases demands@.len() - demand_index,
    {
        let demand = &demands[demand_index];
        let produced_result = &produced[demand_index];
        if produced_result.source_value != demand.request.source_value() {
            return Err(P1AssemblyFailure::ProducedValueDoesNotMatchDemand { demand_index });
        }
        let projected = project_entry(&demand.request.target_demand().pair_query, &produced_result.entry);
        match projected {
            None => {
                return Err(P1AssemblyFailure::ProducedValueDoesNotMatchDemand { demand_index });
            },
            Some(entry) => {
                results.push(entry);
            },
        }
        demand_index = demand_index + 1;
    }
    Ok(results)
}

#[derive(Clone, Debug, PartialEq, Eq)]
pub enum PolicyBridgeEffect {
    BuiltinValueCopy,
    UserCallable(SymbolId),
    IntrinsicStub(String),
}

#[derive(Clone, Debug, PartialEq, Eq)]
pub struct PolicyBridgeInvocationResult<I, P> {
    pub callable_id: I,
    pub result: PrototypeTransitionResultCarrier<P>,
    pub effect: PolicyBridgeEffect,
}

#[derive(Clone, Debug, PartialEq, Eq)]
pub struct PolicyBridgeInvocationFailure<I> {
    pub selected_callable_id: I,
    pub message: String,
}

/// The effect of a bridge body, or `None` for a body that fails.
pub open spec fn bridge_effect_spec(body: PolicyBridgeBody) -> Option<PolicyBridgeEffect> {
    match body {
        PolicyBridgeBody::BuiltinValueCopy => Some(PolicyBridgeEffect::BuiltinValueCopy),
        PolicyBridgeBody::UserCallable(symbol) => Some(PolicyBridgeEffect::UserCallable(symbol)),
        PolicyBridgeBody::IntrinsicStub(name) => Some(PolicyBridgeEffect::IntrinsicStub(name)),
        PolicyBridgeBody::FailAfterSelection(_) => None,
    }
}

/// Evaluate one selected bridge body. It receives the selected bridge only,
/// so a body failure never reopens selection. The produced entry carries the
/// complete declared result view; demanded projection happens at assembly.
pub fn invoke_resolved_policy_bridge<I: Copy, P>(
    selected: &ResolvedPolicyBridge<I>,
    request: &PolicyTransitionRequest,
    result_value: SemanticValueId,
    result_pattern: P,
) -> (r: Result<PolicyBridgeInvocationResult<I, P>, PolicyBridgeInvocationFailure<I>>)
    ensures
        match selected.callable.body {
            PolicyBridgeBody::FailAfterSelection(message) => r == Err::<
                PolicyBridgeInvocationResult<I, P>,
                PolicyBridgeInvocationFailure<I>,
            >(PolicyBridgeInvocationFailure { selected_callable_id: selected.callable.id, message }),
            body => r == Ok::<PolicyBridgeInvocationResult<I, P>, PolicyBridgeInvocationFailure<I>>(
                PolicyBridgeInvocationResult {
                    callable_id: selected.callable.id,
                    result: PrototypeTransitionResultCarrier {
                        entry: PolicyResultEntry {
                            value: Some(SemanticValueRef { id: result_value, type_value: selected.result_type }),
                            pattern: result_pattern,
                            view: selected.complete_result_view,
                        },
                        source_value: request.source_value_spec(),
                        provenance: request.provenance_spec(),
                    },
                    effect: bridge_effect_spec(body)->0,
                },
            ),
        },
{
    let effect = match &selected.callable.body {
        PolicyBridgeBody::BuiltinValueCopy => PolicyBridgeEffect::BuiltinValueCopy,
        PolicyBridgeBody::UserCallable(symbol) => PolicyBridgeEffect::UserCallable(*symbol),
        PolicyBridgeBody::IntrinsicStub(name) => PolicyBridgeEffect::IntrinsicStub(name.clone()),
        PolicyBridgeBody::FailAfterSelection(message) => {
            return Err(
                PolicyBridgeInvocationFailure {
                    selected_callable_id: selected.callable.id,
                    message: message.clone(),
                },
            );
        },
    };
    Ok(
        PolicyBridgeInvocationResult {
            callable_id: selected.callable.id,
            result: PrototypeTransitionResultCarrier {
                entry: PolicyResultEntry {
                    value: Some(SemanticValueRef { id: result_value, type_value: selected.result_type }),
                    pattern: result_pattern,
                    view: selected.complete_result_view,
                },
                source_value: request.source_value(),
                provenance: request.provenance().copied(),
            },
            effect,
        },
    )
}

// ---------------------------------------------------------------------------
// Laws
// ---------------------------------------------------------------------------

proof fn lemma_indices_where_members(p: spec_fn(int) -> bool, n: int)
    ensures
        forall|k: int|
            0 <= k < indices_where(p, n).len() ==> 0 <= #[trigger] indices_where(p, n)[k] < n && p(
                indices_where(p, n)[k],
            ),
    decreases n,
{
    if n > 0 {
        lemma_indices_where_members(p, n - 1);
        let s = indices_where(p, n);
        let prev = indices_where(p, n - 1);
        assert forall|k: int| 0 <= k < s.len() implies 0 <= #[trigger] s[k] < n && p(s[k]) by {
            if k < prev.len() {
                assert(s[k] == prev[k]);
            }
        }
    }
}

proof fn lemma_maximal_members(s: Seq<int>, dom: spec_fn(int, int) -> bool)
    ensures
        forall|k: int|
            0 <= k < maximal_spec(s, dom).len() ==> exists|j: int|
                0 <= j < s.len() && #[trigger] maximal_spec(s, dom)[k] == s[j],
{
    let keep = |i: int| !exists|k: int| 0 <= k < s.len() && s[k] != i && #[trigger] dom(s[k], i);
    lemma_filter_prefix_members(s, keep, s.len() as int);
}

/// A selected migration bridge never changes the Type and always takes the
/// runtime migration edge: the single surviving candidate is fully
/// admissible, its result type is the request's source type, and its input
/// and output endpoints pass the runtime migration validation.
pub proof fn lemma_selected_bridge_is_admissible<I>(
    request: PolicyTransitionRequest,
    candidates: Seq<PolicyTransitionCallable<I>>,
    expectation: TransitionTypeExpectation,
)
    requires
        bridge_maxima(request, candidates, expectation).len() == 1,
    ensures
        ({
            let i = bridge_maxima(request, candidates, expectation)[0];
            &&& 0 <= i < candidates.len()
            &&& bridge_admissible_spec(request, candidates[i], expectation)
            &&& resolved_spec(request, candidates[i]).result_type == request.source_type_spec()
        }),
{
    let adm = admissible_indices(request, candidates, expectation);
    let p = |i: int| bridge_admissible_spec(request, candidates[i], expectation);
    let fallback = fallback_survivors(candidates, adm);
    let policy = maximal_spec(fallback, endpoint_dominance(request, candidates));
    let entry = maximal_spec(policy, input_type_dominance(candidates));
    let maximal = maximal_spec(entry, specificity_dominance(candidates));
    lemma_indices_where_members(p, candidates.len() as int);
    lemma_maximal_members(entry, specificity_dominance(candidates));
    lemma_maximal_members(policy, input_type_dominance(candidates));
    lemma_maximal_members(fallback, endpoint_dominance(request, candidates));
    let j1 = choose|j: int| 0 <= j < entry.len() && #[trigger] maximal[0] == entry[j];
    let j2 = choose|j: int| 0 <= j < policy.len() && #[trigger] entry[j1] == policy[j];
    let j3 = choose|j: int| 0 <= j < fallback.len() && #[trigger] policy[j2] == fallback[j];
    let keep = |i: int| !candidates[i].prototype_is_fallback;
    let j4 = if exists|k: int| 0 <= k < adm.len() && !(#[trigger] candidates[adm[k]]).prototype_is_fallback {
        lemma_filter_prefix_members(adm, keep, adm.len() as int);
        choose|j: int| 0 <= j < adm.len() && #[trigger] fallback[j3] == adm[j]
    } else {
        j3
    };
    assert(fallback[j3] == adm[j4]);
    assert(0 <= adm[j4] < candidates.len() && p(adm[j4]));
}

/// The specificity stage of bridge selection never leaves a non-empty set
/// of survivors empty: a strictly greater specificity is a strict order.
pub proof fn lemma_specificity_maxima_nonempty<I>(candidates: Seq<PolicyTransitionCallable<I>>, survivors: Seq<int>)
    requires
        survivors.len() > 0,
    ensures
        maximal_spec(survivors, specificity_dominance(candidates)).len() > 0,
{
    lemma_maxima_nonempty(survivors, specificity_dominance(candidates));
}

/// Transition-candidate comparison chains, and no candidate is strictly
/// fitter than itself.
proof fn lemma_transition_candidates_chain<I>(
    source: PolicyView,
    demand: ResultPolicyDemand,
    a: PolicyTransitionCallable<I>,
    b: PolicyTransitionCallable<I>,
    c: PolicyTransitionCallable<I>,
)
    ensures
        chains(
            transition_candidates_spec(source, demand, a, b),
            transition_candidates_spec(source, demand, b, c),
            transition_candidates_spec(source, demand, a, c),
        ),
        transition_candidates_spec(source, demand, a, a) != PolicyPartialOrdering::Greater,
{
    let target = concrete_pair_spec(demand)->0;
    let dims = |x: PolicyTransitionCallable<I>, y: PolicyTransitionCallable<I>|
        seq![
            input_fit_spec(source.pair, x.input_policy, y.input_policy),
            output_fit_spec(target, x.output_policy, y.output_policy),
            mode_fit_spec(source.mode, x.input_mode, y.input_mode),
            mode_fit_spec(demand.mode, x.output_mode, y.output_mode),
        ];
    let ab = dims(a, b);
    let bc = dims(b, c);
    let ac = dims(a, c);
    lemma_endpoint_fit_chains(a.input_policy, b.input_policy, c.input_policy);
    lemma_endpoint_fit_chains(a.output_policy, b.output_policy, c.output_policy);
    assert forall|i: int| 0 <= i < ab.len() implies chains(#[trigger] ab[i], bc[i], ac[i]) by {}
    lemma_compose_chains(ab, bc, ac);
    let aa = dims(a, a);
    assert forall|i: int| 0 <= i < aa.len() implies #[trigger] aa[i] != PolicyPartialOrdering::Greater by {}
    lemma_compose_not_greater(aa);
}

/// The endpoint-Policy stage of bridge selection never leaves a non-empty
/// set of candidates empty: endpoint dominance is a strict order.
pub proof fn lemma_endpoint_maxima_nonempty<I>(
    request: PolicyTransitionRequest,
    candidates: Seq<PolicyTransitionCallable<I>>,
    survivors: Seq<int>,
)
    requires
        survivors.len() > 0,
    ensures
        maximal_spec(survivors, endpoint_dominance(request, candidates)).len() > 0,
{
    let dom = endpoint_dominance(request, candidates);
    let source = request.source_view_spec();
    let demand = request.target_demand_spec();
    assert forall|x: int| survivors.contains(x) implies !#[trigger] dom(x, x) by {
        if 0 <= x < candidates.len() {
            lemma_transition_candidates_chain(source, demand, candidates[x], candidates[x], candidates[x]);
        }
    }
    assert forall|x: int, y: int, z: int|
        survivors.contains(x) && survivors.contains(y) && survivors.contains(z) && #[trigger] dom(x, y)
            && #[trigger] dom(y, z) implies dom(x, z) by {
        lemma_transition_candidates_chain(source, demand, candidates[x], candidates[y], candidates[z]);
    }
    lemma_maxima_nonempty(survivors, dom);
}

/// The input-type stage of bridge selection never leaves a non-empty set of
/// candidates empty: an exact input type over any type is a strict order.
pub proof fn lemma_input_type_maxima_nonempty<I>(candidates: Seq<PolicyTransitionCallable<I>>, survivors: Seq<int>)
    requires
        survivors.len() > 0,
    ensures
        maximal_spec(survivors, input_type_dominance(candidates)).len() > 0,
{
    lemma_maxima_nonempty(survivors, input_type_dominance(candidates));
}

/// Bridge selection ends with at least one maximal candidate whenever some
/// candidate is fully admissible.
pub proof fn lemma_bridge_maxima_nonempty<I>(
    request: PolicyTransitionRequest,
    candidates: Seq<PolicyTransitionCallable<I>>,
    expectation: TransitionTypeExpectation,
)
    requires
        admissible_indices(request, candidates, expectation).len() > 0,
    ensures
        bridge_maxima(request, candidates, expectation).len() > 0,
{
    let admissible = admissible_indices(request, candidates, expectation);
    let fallback = fallback_survivors(candidates, admissible);
    if exists|k: int| 0 <= k < admissible.len() && !(#[trigger] candidates[admissible[k]]).prototype_is_fallback {
        let k = choose|k: int| 0 <= k < admissible.len() && !(#[trigger] candidates[admissible[k]]).prototype_is_fallback;
        lemma_filter_prefix_nonempty(
            admissible,
            |i: int| !candidates[i].prototype_is_fallback,
            admissible.len() as int,
            k,
        );
    }
    assert(fallback.len() > 0);
    lemma_endpoint_maxima_nonempty(request, candidates, fallback);
    let policy = maximal_spec(fallback, endpoint_dominance(request, candidates));
    lemma_input_type_maxima_nonempty(candidates, policy);
    let entry = maximal_spec(policy, input_type_dominance(candidates));
    lemma_specificity_maxima_nonempty(candidates, entry);
}

/// Mode fitness prefers the demanded mode: a mode equal to the demand is
/// strictly fitter than any other mode, `plain` is strictly fitter than the
/// mode opposite to a `const` or `mut` demand, and swapping the compared
/// modes swaps the verdict.
pub proof fn lemma_mode_fit_prefers_demanded_mode(demand: PolicyMode, left: PolicyMode, right: PolicyMode)
    ensures
        left == demand && right != demand ==> mode_fit_spec(demand, left, right) == PolicyPartialOrdering::Greater,
        left != demand && right == demand ==> mode_fit_spec(demand, left, right) == PolicyPartialOrdering::Less,
        left == right ==> mode_fit_spec(demand, left, right) == PolicyPartialOrdering::Equal,
        demand != PolicyMode::Plain && left == PolicyMode::Plain && right != PolicyMode::Plain && right != demand
            ==> mode_fit_spec(demand, left, right) == PolicyPartialOrdering::Greater,
        (mode_fit_spec(demand, left, right) == PolicyPartialOrdering::Greater) == (mode_fit_spec(
            demand,
            right,
            left,
        ) == PolicyPartialOrdering::Less),
        mode_fit_spec(demand, left, right) != PolicyPartialOrdering::Incomparable,
{
}

/// Of two bridges that differ only in their input mode, the one whose input
/// mode is the source's mode dominates the other in the endpoint Policy
/// product, provided both accept the source and meet the target; the same
/// holds of the output mode against the demanded mode.
pub proof fn lemma_matching_mode_bridge_dominates<I>(
    source: PolicyView,
    demand: ResultPolicyDemand,
    a: PolicyTransitionCallable<I>,
    b: PolicyTransitionCallable<I>,
)
    requires
        endpoint_projection_spec(a.input_policy, source.pair) is Some,
        endpoint_projection_spec(concrete_pair_spec(demand)->0, a.output_policy) is Some,
        b.input_policy == a.input_policy,
        b.output_policy == a.output_policy,
        (b.input_mode == a.input_mode && a.output_mode == demand.mode && b.output_mode != demand.mode) || (
        b.output_mode == a.output_mode && a.input_mode == source.mode && b.input_mode != source.mode),
    ensures
        transition_candidates_spec(source, demand, a, b) == PolicyPartialOrdering::Greater,
        transition_candidates_spec(source, demand, b, a) == PolicyPartialOrdering::Less,
{
    let target = concrete_pair_spec(demand)->0;
    lemma_endpoint_fit_chains(a.input_policy, a.input_policy, a.input_policy);
    lemma_endpoint_fit_chains(a.output_policy, a.output_policy, a.output_policy);
    crate::policy_migration::lemma_endpoint_fit_reflexive(a.input_policy);
    crate::policy_migration::lemma_endpoint_fit_reflexive(a.output_policy);
    let ab = seq![
        input_fit_spec(source.pair, a.input_policy, b.input_policy),
        output_fit_spec(target, a.output_policy, b.output_policy),
        mode_fit_spec(source.mode, a.input_mode, b.input_mode),
        mode_fit_spec(demand.mode, a.output_mode, b.output_mode),
    ];
    let ba = seq![
        input_fit_spec(source.pair, b.input_policy, a.input_policy),
        output_fit_spec(target, b.output_policy, a.output_policy),
        mode_fit_spec(source.mode, b.input_mode, a.input_mode),
        mode_fit_spec(demand.mode, b.output_mode, a.output_mode),
    ];
    lemma_mode_fit_prefers_demanded_mode(source.mode, a.input_mode, b.input_mode);
    lemma_mode_fit_prefers_demanded_mode(demand.mode, a.output_mode, b.output_mode);
    lemma_mode_fit_prefers_demanded_mode(source.mode, b.input_mode, a.input_mode);
    lemma_mode_fit_prefers_demanded_mode(demand.mode, b.output_mode, a.output_mode);
    crate::policy_migration::lemma_compose_at_least(ab);
    crate::policy_migration::lemma_compose_at_least(ba);
    assert(transition_candidates_spec(source, demand, a, b) == compose_spec(ab));
    assert(transition_candidates_spec(source, demand, b, a) == compose_spec(ba));
    if a.input_mode == source.mode && b.input_mode != source.mode {
        assert(ab[2] == PolicyPartialOrdering::Greater);
        assert(ba[2] == PolicyPartialOrdering::Less);
    } else {
        assert(ab[3] == PolicyPartialOrdering::Greater);
        assert(ba[3] == PolicyPartialOrdering::Less);
    }
}

} // verus!
