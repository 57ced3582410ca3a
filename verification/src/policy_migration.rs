//! Existing-view-first, direct same-Type Policy migration.
//!
//! A total consumer demand first attempts ordinary view projection. If no
//! existing view satisfies it, exactly one authorized ordinary migration
//! family may be enumerated and selected by the shared invocation pipeline.
use vstd::prelude::*;

use std::convert::Infallible;

use crate::model::{Provenance, SemanticValueId, TypeValueId};
use crate::policy_transition::PolicyTransitionRequest;
use crate::policy_pair::{
    project_p1, project_p1_spec, P1Projection, PatternComponentPolicy, PolicyPair,
    PolicyResultEntry, PolicyView, ResultPolicyDemand, StageSet, ValueComponentPolicy,
    ValuePresence,
};

verus! {

#[derive(Clone, Copy, Debug, PartialEq, Eq, Structural)]
pub enum P1Origin {
    Inferred,
    Explicit,
}

#[derive(Clone, Copy, Debug, PartialEq, Eq, PartialOrd, Ord, Hash, Structural)]
pub struct SemanticValueRef {
    pub id: SemanticValueId,
    pub type_value: TypeValueId,
}

/// Result of applying the binding's pair-shaped P1 query to an existing
/// result. Migration is requested only by the caller after this fails.
#[derive(Clone, Debug, PartialEq, Eq)]
pub struct P1Elaboration<P> {
    pub origin: P1Origin,
    pub requested: Option<P1Projection>,
    pub selected: Vec<PolicyResultEntry<SemanticValueRef, P>>,
}

#[derive(Clone, Debug, PartialEq, Eq)]
pub struct PureTypeP1Elaboration<P> {
    pub origin: P1Origin,
    pub requested: Option<P1Projection>,
    pub selected: Vec<PolicyResultEntry<Infallible, P>>,
}

#[derive(Clone, Copy, Debug, PartialEq, Eq, Structural)]
pub enum P1ElaborationFailure {
    EmptyResult,
    ProjectionUnavailable { requested: P1Projection },
    ProjectionUnavailableWithoutValue { requested: P1Projection },
}

/// One direct, same-Type Policy migration request. Its target demand always
/// carries a concrete pair query.
#[derive(Clone, Debug, PartialEq, Eq)]
pub struct PolicyMigrationRequest {
    source_view: PolicyView,
    target_demand: ResultPolicyDemand,
    source_type: TypeValueId,
    source_value: SemanticValueId,
    provenance: Provenance,
}

#[derive(Clone, Copy, Debug, PartialEq, Eq, Structural)]
pub enum PolicyMigrationRequestFailure {
    SourceValueAbsent,
    SourceValueStageDomainEmpty,
    TargetValueAbsent,
    TargetValueStageDomainEmpty,
    TargetPatternPolicyUnavailable { source: PatternComponentPolicy, target: PatternComponentPolicy },
}

/// The pair of a concrete pair query.
pub open spec fn concrete_pair_spec(demand: ResultPolicyDemand) -> Option<PolicyPair> {
    match demand.pair_query {
        P1Projection::Pair(pair) => Some(pair),
        _ => None,
    }
}

/// Why a source view and target demand cannot form a migration request.
pub open spec fn migration_request_failure(source_view: PolicyView, target_demand: ResultPolicyDemand) -> Option<
    PolicyMigrationRequestFailure,
> {
    match concrete_pair_spec(target_demand) {
        None => Some(PolicyMigrationRequestFailure::TargetValueStageDomainEmpty),
        Some(target) => if source_view.pair.value.presence == ValuePresence::Absent {
            Some(PolicyMigrationRequestFailure::SourceValueAbsent)
        } else if source_view.pair.value.stages.empty_spec() {
            Some(PolicyMigrationRequestFailure::SourceValueStageDomainEmpty)
        } else if target.value.presence == ValuePresence::Absent {
            Some(PolicyMigrationRequestFailure::TargetValueAbsent)
        } else if target.value.stages.empty_spec() {
            Some(PolicyMigrationRequestFailure::TargetValueStageDomainEmpty)
        } else if target.pattern.stages.empty_spec() || !target.pattern.stages.subset_spec(
            source_view.pair.pattern.stages,
        ) {
            Some(
                PolicyMigrationRequestFailure::TargetPatternPolicyUnavailable {
                    source: source_view.pair.pattern,
                    target: target.pattern,
                },
            )
        } else {
            None
        },
    }
}

impl PolicyMigrationRequest {
    /// The target demand carries a concrete pair query, as every request
    /// built by [`PolicyMigrationRequest::new`] does.
    pub open spec fn well_formed(&self) -> bool {
        self.target_demand_spec().pair_query is Pair
    }

    pub closed spec fn source_view_spec(&self) -> PolicyView {
        self.source_view
    }

    pub closed spec fn target_demand_spec(&self) -> ResultPolicyDemand {
        self.target_demand
    }

    pub closed spec fn source_type_spec(&self) -> TypeValueId {
        self.source_type
    }

    pub closed spec fn source_value_spec(&self) -> SemanticValueId {
        self.source_value
    }

    pub closed spec fn provenance_spec(&self) -> Provenance {
        self.provenance
    }

    pub fn new(
        source_view: PolicyView,
        target_demand: ResultPolicyDemand,
        source_type: TypeValueId,
        source_value: SemanticValueId,
        provenance: Provenance,
    ) -> (r: Result<PolicyMigrationRequest, PolicyMigrationRequestFailure>)
        ensures
            match migration_request_failure(source_view, target_demand) {
                Some(f) => r == Err::<PolicyMigrationRequest, PolicyMigrationRequestFailure>(f),
                None => r matches Ok(req) && req.well_formed() && req.source_view_spec() == source_view
                    && req.target_demand_spec() == target_demand && req.source_type_spec()
                    == source_type && req.source_value_spec() == source_value
                    && req.provenance_spec() == provenance,
            },
    {
        let target_pair = match &target_demand.pair_query {
            P1Projection::Pair(pair) => *pair,
            _ => {
                return Err(PolicyMigrationRequestFailure::TargetValueStageDomainEmpty);
            },
        };
        if source_view.pair.value.presence == ValuePresence::Absent {
            return Err(PolicyMigrationRequestFailure::SourceValueAbsent);
        }
        if source_view.pair.value.stages.is_empty() {
            return Err(PolicyMigrationRequestFailure::SourceValueStageDomainEmpty);
        }
        if target_pair.value.presence == ValuePresence::Absent {
            return Err(PolicyMigrationRequestFailure::TargetValueAbsent);
        }
        if target_pair.value.stages.is_empty() {
            return Err(PolicyMigrationRequestFailure::TargetValueStageDomainEmpty);
        }
        if target_pair.pattern.stages.is_empty() || !target_pair.pattern.stages.is_subset(
            &source_view.pair.pattern.stages,
        ) {
            return Err(
                PolicyMigrationRequestFailure::TargetPatternPolicyUnavailable {
                    source: source_view.pair.pattern,
                    target: target_pair.pattern,
                },
            );
        }
        Ok(PolicyMigrationRequest { source_view, target_demand, source_type, source_value, provenance })
    }

    /// The migration request carried by a checked atomic runtime request.
    pub fn from_atomic_runtime(request: &PolicyTransitionRequest) -> (r: PolicyMigrationRequest)
        ensures
            r.source_view_spec() == request.source_view_spec(),
            r.target_demand_spec() == request.target_demand_spec(),
            r.source_type_spec() == request.source_type_spec(),
            r.source_value_spec() == request.source_value_spec(),
            r.provenance_spec() == request.provenance_spec(),
            r.well_formed() == request.well_formed(),
    {
        PolicyMigrationRequest {
            source_view: *request.source_view(),
            target_demand: *request.target_demand(),
            source_type: request.source_type(),
            source_value: request.source_value(),
            provenance: request.provenance().copied(),
        }
    }

    pub fn source_view(&self) -> (r: &PolicyView)
        ensures
            *r == self.source_view_spec(),
    {
        &self.source_view
    }

    pub fn source_policy(&self) -> (r: &PolicyPair)
        ensures
            *r == self.source_view_spec().pair,
    {
        &self.source_view.pair
    }

    pub fn target_demand(&self) -> (r: &ResultPolicyDemand)
        ensures
            *r == self.target_demand_spec(),
    {
        &self.target_demand
    }

    /// The concrete pair the target demand queries.
    pub fn target_pair(&self) -> (r: &PolicyPair)
        requires
            self.well_formed(),
        ensures
            concrete_pair_spec(self.target_demand_spec()) == Some(*r),
    {
        match &self.target_demand.pair_query {
            P1Projection::Pair(pair) => pair,
            _ => &self.source_view.pair,
        }
    }

    pub fn target_query(&self) -> (r: &PolicyPair)
        requires
            self.well_formed(),
        ensures
            concrete_pair_spec(self.target_demand_spec()) == Some(*r),
    {
        self.target_pair()
    }

    pub fn source_type(&self) -> (r: TypeValueId)
        ensures
            r == self.source_type_spec(),
    {
        self.source_type
    }

    pub fn source_value(&self) -> (r: SemanticValueId)
        ensures
            r == self.source_value_spec(),
    {
        self.source_value
    }

    pub fn provenance(&self) -> (r: &Provenance)
        ensures
            *r == self.provenance_spec(),
    {
        &self.provenance
    }
}

/// The requested projection with its value presence relaxed to `Optional`.
pub open spec fn relax_presence_spec(projection: P1Projection) -> P1Projection {
    match projection {
        P1Projection::Infer => P1Projection::Infer,
        P1Projection::ValueDominant { value } => P1Projection::ValueDominant {
            value: ValueComponentPolicy { presence: ValuePresence::Optional, ..value },
        },
        P1Projection::Pair(pair) => P1Projection::Pair(
            PolicyPair {
                value: ValueComponentPolicy { presence: ValuePresence::Optional, ..pair.value },
                ..pair
            },
        ),
    }
}

pub(crate) fn relax_projection_presence(projection: &P1Projection) -> (r: P1Projection)
    ensures
        r == relax_presence_spec(*projection),
{
    let mut relaxed = *projection;
    match &mut relaxed {
        P1Projection::Infer => {},
        P1Projection::ValueDominant { value } => value.presence = ValuePresence::Optional,
        P1Projection::Pair(pair) => pair.value.presence = ValuePresence::Optional,
    }
    relaxed
}

/// Whether no entry carries a value.
pub open spec fn all_without_value<V, P>(entries: Seq<PolicyResultEntry<V, P>>) -> bool {
    forall|i: int| 0 <= i < entries.len() ==> #[trigger] entries[i].value is None
}

/// The projection of every entry.
pub open spec fn project_all<V, P>(projection: P1Projection, entries: Seq<PolicyResultEntry<V, P>>) -> Seq<
    PolicyResultEntry<V, P>,
> {
    project_p1_spec(projection, entries, entries.len() as int)
}

/// The outcome of binding P1 elaboration over a value result.
pub open spec fn value_binding_spec<P>(
    result: Seq<PolicyResultEntry<SemanticValueRef, P>>,
    explicit_p1: Option<P1Projection>,
) -> Result<(P1Origin, Option<P1Projection>, Seq<PolicyResultEntry<SemanticValueRef, P>>), P1ElaborationFailure> {
    if result.len() == 0 {
        Err(P1ElaborationFailure::EmptyResult)
    } else {
        match explicit_p1 {
            None => Ok((P1Origin::Inferred, None, result)),
            Some(projection) => if project_all(projection, result).len() > 0 {
                Ok((P1Origin::Explicit, Some(projection), project_all(projection, result)))
            } else if all_without_value(result) {
                if project_all(relax_presence_spec(projection), result).len() > 0 {
                    Ok(
                        (
                            P1Origin::Explicit,
                            Some(projection),
                            project_all(relax_presence_spec(projection), result),
                        ),
                    )
                } else {
                    Err(P1ElaborationFailure::ProjectionUnavailableWithoutValue { requested: projection })
                }
            } else {
                Err(P1ElaborationFailure::ProjectionUnavailable { requested: projection })
            },
        }
    }
}

pub(crate) fn copy_entries<V: Copy, P: Copy>(result: &[PolicyResultEntry<V, P>]) -> (r: Vec<
    PolicyResultEntry<V, P>,
>)
    ensures
        r@ == result@,
{
    let mut out: Vec<PolicyResultEntry<V, P>> = Vec::new();
    let mut i: usize = 0;
    while i < result.len()
        invariant
            i <= result@.len(),
            out@ == result@.subrange(0, i as int),
        decreases result@.len() - i,
    {
        out.push(result[i]);
        i = i + 1;
        assert(out@ =~= result@.subrange(0, i as int));
    }
    assert(result@.subrange(0, result@.len() as int) =~= result@);
    out
}

pub(crate) fn entries_without_value<V: Copy, P: Copy>(result: &[PolicyResultEntry<V, P>]) -> (r: bool)
    ensures
        r == all_without_value(result@),
{
    let mut i: usize = 0;
    while i < result.len()
        invariant
            i <= result@.len(),
            forall|k: int| 0 <= k < i ==> #[trigger] result@[k].value is None,
        decreases result@.len() - i,
    {
        if result[i].value.is_some() {
            return false;
        }
        i = i + 1;
    }
    true
}

/// Apply a binding's pair-shaped demand to already-produced result entries.
/// Omitted P1 keeps the complete result. An explicit projection that selects
/// nothing from a result without values is retried with relaxed presence.
pub fn elaborate_value_binding_p1<P: Copy>(
    result: &[PolicyResultEntry<SemanticValueRef, P>],
    explicit_p1: Option<&P1Projection>,
    _provenance: Provenance,
) -> (r: Result<P1Elaboration<P>, P1ElaborationFailure>)
    ensures
        match value_binding_spec(
            result@,
            match explicit_p1 {
                Some(p) => Some(*p),
                None => None,
            },
        ) {
            Ok((origin, requested, selected)) => r matches Ok(e) && e.origin == origin && e.requested
                == requested && e.selected@ == selected,
            Err(f) => r == Err::<P1Elaboration<P>, P1ElaborationFailure>(f),
        },
{
    if result.len() == 0 {
        return Err(P1ElaborationFailure::EmptyResult);
    }
    let projection = match explicit_p1 {
        Some(p) => p,
        None => {
            return Ok(
                P1Elaboration { origin: P1Origin::Inferred, requested: None, selected: copy_entries(result) },
            );
        },
    };
    let selected = project_p1(projection, result);
    if selected.len() > 0 {
        return Ok(P1Elaboration { origin: P1Origin::Explicit, requested: Some(*projection), selected });
    }
    if entries_without_value(result) {
        let relaxed = relax_projection_presence(projection);
        let selected = project_p1(&relaxed, result);
        if selected.len() > 0 {
            return Ok(
                P1Elaboration { origin: P1Origin::Explicit, requested: Some(*projection), selected },
            );
        }
        return Err(P1ElaborationFailure::ProjectionUnavailableWithoutValue { requested: *projection });
    }
    Err(P1ElaborationFailure::ProjectionUnavailable { requested: *projection })
}

/// The outcome of binding P1 elaboration over a pure type result.
pub open spec fn pure_type_binding_spec<P>(
    result: Seq<PolicyResultEntry<Infallible, P>>,
    explicit_p1: Option<P1Projection>,
) -> Result<(P1Origin, Option<P1Projection>, Seq<PolicyResultEntry<Infallible, P>>), P1ElaborationFailure> {
    if result.len() == 0 {
        Err(P1ElaborationFailure::EmptyResult)
    } else {
        match explicit_p1 {
            None => Ok((P1Origin::Inferred, None, result)),
            Some(projection) => if project_all(projection, result).len() > 0 {
                Ok((P1Origin::Explicit, Some(projection), project_all(projection, result)))
            } else {
                Err(P1ElaborationFailure::ProjectionUnavailableWithoutValue { requested: projection })
            },
        }
    }
}

/// Projection-only P1 elaboration for a pure type result.
pub fn elaborate_pure_type_binding_p1<P: Copy>(
    result: &[PolicyResultEntry<Infallible, P>],
    explicit_p1: Option<&P1Projection>,
) -> (r: Result<PureTypeP1Elaboration<P>, P1ElaborationFailure>)
    ensures
        match pure_type_binding_spec(
            result@,
            match explicit_p1 {
                Some(p) => Some(*p),
                None => None,
            },
        ) {
            Ok((origin, requested, selected)) => r matches Ok(e) && e.origin == origin && e.requested
                == requested && e.selected@ == selected,
            Err(f) => r == Err::<PureTypeP1Elaboration<P>, P1ElaborationFailure>(f),
        },
{
    if result.len() == 0 {
        return Err(P1ElaborationFailure::EmptyResult);
    }
    let projection = match explicit_p1 {
        Some(p) => p,
        None => {
            return Ok(
                PureTypeP1Elaboration {
                    origin: P1Origin::Inferred,
                    requested: None,
                    selected: copy_entries(result),
                },
            );
        },
    };
    let selected = project_p1(projection, result);
    if selected.len() == 0 {
        return Err(P1ElaborationFailure::ProjectionUnavailableWithoutValue { requested: *projection });
    }
    Ok(PureTypeP1Elaboration { origin: P1Origin::Explicit, requested: Some(*projection), selected })
}

// ---------------------------------------------------------------------------
// Migration endpoint algebra
// ---------------------------------------------------------------------------

/// Presence query against an available presence: `Optional` on either side
/// yields the other; equal definite presences agree; opposite ones fail.
pub open spec fn intersect_presence_spec(query: ValuePresence, available: ValuePresence) -> Option<
    ValuePresence,
> {
    if query == ValuePresence::Optional {
        Some(available)
    } else if available == ValuePresence::Optional {
        Some(query)
    } else if query == available {
        Some(query)
    } else {
        None
    }
}

pub(crate) fn intersect_presence(query: ValuePresence, available: ValuePresence) -> (r: Option<
    ValuePresence,
>)
    ensures
        r == intersect_presence_spec(query, available),
{
    match (query, available) {
        (ValuePresence::Optional, selected) => Some(selected),
        (selected, ValuePresence::Optional) => Some(selected),
        (ValuePresence::Present, ValuePresence::Present) => Some(ValuePresence::Present),
        (ValuePresence::Absent, ValuePresence::Absent) => Some(ValuePresence::Absent),
        (ValuePresence::Present, ValuePresence::Absent) => None,
        (ValuePresence::Absent, ValuePresence::Present) => None,
    }
}

/// A stage query against an available domain, requiring a non-empty result:
/// an empty query selects the whole domain.
pub open spec fn non_empty_stages_spec(query: StageSet, available: StageSet) -> Option<StageSet> {
    let selected = if query.empty_spec() {
        available
    } else {
        query.intersection_spec(available)
    };
    if selected.empty_spec() {
        None
    } else {
        Some(selected)
    }
}

pub(crate) fn project_non_empty_stages(query: &StageSet, available: &StageSet) -> (r: Option<StageSet>)
    ensures
        r == non_empty_stages_spec(*query, *available),
{
    let selected = if query.is_empty() {
        *available
    } else {
        query.intersection(available)
    };
    if !selected.is_empty() {
        Some(selected)
    } else {
        None
    }
}

/// The hard pair-shaped coordinates of a query against an available domain.
pub open spec fn endpoint_projection_spec(query: PolicyPair, available: PolicyPair) -> Option<PolicyPair> {
    match intersect_presence_spec(query.value.presence, available.value.presence) {
        None => None,
        Some(presence) => {
            let value_stages = if presence == ValuePresence::Absent {
                Some(StageSet { meta: false, compile: false, seal: false, runtime: false })
            } else {
                non_empty_stages_spec(query.value.stages, available.value.stages)
            };
            match value_stages {
                None => None,
                Some(vs) => match non_empty_stages_spec(query.pattern.stages, available.pattern.stages) {
                    None => None,
                    Some(ps) => Some(
                        PolicyPair {
                            value: ValueComponentPolicy { stages: vs, presence },
                            pattern: PatternComponentPolicy { stages: ps },
                        },
                    ),
                },
            }
        },
    }
}

pub(crate) fn project_migration_endpoint_hard_coordinates(query: &PolicyPair, available: &PolicyPair) -> (r:
    Option<PolicyPair>)
    ensures
        r == endpoint_projection_spec(*query, *available),
{
    let presence = intersect_presence(query.value.presence, available.value.presence)?;
    let value_stages = if presence == ValuePresence::Absent {
        StageSet::new()
    } else {
        project_non_empty_stages(&query.value.stages, &available.value.stages)?
    };
    let pattern_stages = project_non_empty_stages(&query.pattern.stages, &available.pattern.stages)?;
    Some(
        PolicyPair {
            value: ValueComponentPolicy { stages: value_stages, presence },
            pattern: PatternComponentPolicy { stages: pattern_stages },
        },
    )
}

/// Input endpoint: the candidate's input query against the actual source.
pub(crate) fn project_migration_input_endpoint(candidate: &PolicyPair, actual: &PolicyPair) -> (r:
    Option<PolicyPair>)
    ensures
        r == endpoint_projection_spec(*candidate, *actual),
{
    project_migration_endpoint_hard_coordinates(candidate, actual)
}

/// Output endpoint: the required target query against the candidate output.
pub(crate) fn project_migration_output_endpoint(required: &PolicyPair, candidate: &PolicyPair) -> (r:
    Option<PolicyPair>)
    ensures
        r == endpoint_projection_spec(*required, *candidate),
{
    project_migration_endpoint_hard_coordinates(required, candidate)
}

/// A partial order verdict. `Greater` means the left side is preferred.
#[derive(Clone, Copy, Debug, PartialEq, Eq, Structural)]
pub enum PolicyPartialOrdering {
    Less,
    Equal,
    Greater,
    Incomparable,
}

/// The verdict with the two sides exchanged.
pub open spec fn reverse_order(o: PolicyPartialOrdering) -> PolicyPartialOrdering {
    match o {
        PolicyPartialOrdering::Less => PolicyPartialOrdering::Greater,
        PolicyPartialOrdering::Greater => PolicyPartialOrdering::Less,
        _ => o,
    }
}

/// The product order over several dimensions: incomparable when any
/// dimension is, or when the dimensions disagree in direction.
pub open spec fn compose_spec(dimensions: Seq<PolicyPartialOrdering>) -> PolicyPartialOrdering {
    let any_incomparable = exists|i: int|
        0 <= i < dimensions.len() && #[trigger] dimensions[i] == PolicyPartialOrdering::Incomparable;
    let any_less = exists|i: int|
        0 <= i < dimensions.len() && #[trigger] dimensions[i] == PolicyPartialOrdering::Less;
    let any_greater = exists|i: int|
        0 <= i < dimensions.len() && #[trigger] dimensions[i] == PolicyPartialOrdering::Greater;
    if any_incomparable || (any_less && any_greater) {
        PolicyPartialOrdering::Incomparable
    } else if any_less {
        PolicyPartialOrdering::Less
    } else if any_greater {
        PolicyPartialOrdering::Greater
    } else {
        PolicyPartialOrdering::Equal
    }
}

pub(crate) fn compose_orders(dimensions: &[PolicyPartialOrdering]) -> (r: PolicyPartialOrdering)
    ensures
        r == compose_spec(dimensions@),
{
    let mut saw_less = false;
    let mut saw_greater = false;
    let mut i: usize = 0;
    while i < dimensions.len()
        invariant
            i <= dimensions@.len(),
            !(saw_less && saw_greater),
            saw_less == exists|k: int| 0 <= k < i && #[trigger] dimensions@[k] == PolicyPartialOrdering::Less,
            saw_greater == exists|k: int|
                0 <= k < i && #[trigger] dimensions@[k] == PolicyPartialOrdering::Greater,
            forall|k: int| 0 <= k < i ==> #[trigger] dimensions@[k] != PolicyPartialOrdering::Incomparable,
        decreases dimensions@.len() - i,
    {
        match dimensions[i] {
            PolicyPartialOrdering::Less => saw_less = true,
            PolicyPartialOrdering::Greater => saw_greater = true,
            PolicyPartialOrdering::Equal => {},
            PolicyPartialOrdering::Incomparable => {
                return PolicyPartialOrdering::Incomparable;
            },
        }
        if saw_less && saw_greater {
            return PolicyPartialOrdering::Incomparable;
        }
        i = i + 1;
    }
    match (saw_less, saw_greater) {
        (true, false) => PolicyPartialOrdering::Less,
        (false, true) => PolicyPartialOrdering::Greater,
        (false, false) => PolicyPartialOrdering::Equal,
        (true, true) => PolicyPartialOrdering::Incomparable,
    }
}

/// Subset comparison of two domains: the smaller (more specific) domain is
/// preferred.
pub open spec fn subsets_spec(left_in_right: bool, right_in_left: bool) -> PolicyPartialOrdering {
    if left_in_right && right_in_left {
        PolicyPartialOrdering::Equal
    } else if left_in_right {
        PolicyPartialOrdering::Greater
    } else if right_in_left {
        PolicyPartialOrdering::Less
    } else {
        PolicyPartialOrdering::Incomparable
    }
}

pub(crate) fn compare_subsets(left_in_right: bool, right_in_left: bool) -> (r: PolicyPartialOrdering)
    ensures
        r == subsets_spec(left_in_right, right_in_left),
{
    match (left_in_right, right_in_left) {
        (true, true) => PolicyPartialOrdering::Equal,
        (true, false) => PolicyPartialOrdering::Greater,
        (false, true) => PolicyPartialOrdering::Less,
        (false, false) => PolicyPartialOrdering::Incomparable,
    }
}

pub(crate) fn compare_stage_domains(left: &StageSet, right: &StageSet) -> (r: PolicyPartialOrdering)
    ensures
        r == subsets_spec(left.subset_spec(*right), right.subset_spec(*left)),
{
    compare_subsets(left.is_subset(right), right.is_subset(left))
}

/// Whether the value-present facts admitted by `left` (`{true}`, `{false}` or
/// both) are among those admitted by `right`.
pub open spec fn presence_subset(left: ValuePresence, right: ValuePresence) -> bool {
    left == right || right == ValuePresence::Optional
}

pub(crate) fn compare_presence_domains(left: ValuePresence, right: ValuePresence) -> (r:
    PolicyPartialOrdering)
    ensures
        r == subsets_spec(presence_subset(left, right), presence_subset(right, left)),
{
    let left_in_right = left == right || right == ValuePresence::Optional;
    let right_in_left = left == right || left == ValuePresence::Optional;
    compare_subsets(left_in_right, right_in_left)
}

/// Fitness order of two endpoint domains over value stages, value presence
/// and Pattern stages.
pub open spec fn endpoint_fit_spec(left: PolicyPair, right: PolicyPair) -> PolicyPartialOrdering {
    compose_spec(
        seq![
            subsets_spec(
                left.value.stages.subset_spec(right.value.stages),
                right.value.stages.subset_spec(left.value.stages),
            ),
            subsets_spec(
                presence_subset(left.value.presence, right.value.presence),
                presence_subset(right.value.presence, left.value.presence),
            ),
            subsets_spec(
                left.pattern.stages.subset_spec(right.pattern.stages),
                right.pattern.stages.subset_spec(left.pattern.stages),
            ),
        ],
    )
}

pub(crate) fn compare_policy_endpoint_fit(left: &PolicyPair, right: &PolicyPair) -> (r:
    PolicyPartialOrdering)
    ensures
        r == endpoint_fit_spec(*left, *right),
{
    let dims = [
        compare_stage_domains(&left.value.stages, &right.value.stages),
        compare_presence_domains(left.value.presence, right.value.presence),
        compare_stage_domains(&left.pattern.stages, &right.pattern.stages),
    ];
    let r = compose_orders(dims.as_slice());
    assert(dims@ =~= seq![
        subsets_spec(
            left.value.stages.subset_spec(right.value.stages),
            right.value.stages.subset_spec(left.value.stages),
        ),
        subsets_spec(
            presence_subset(left.value.presence, right.value.presence),
            presence_subset(right.value.presence, left.value.presence),
        ),
        subsets_spec(
            left.pattern.stages.subset_spec(right.pattern.stages),
            right.pattern.stages.subset_spec(left.pattern.stages),
        ),
    ]);
    r
}

/// Input fitness: both candidates must accept the required source.
pub open spec fn input_fit_spec(required: PolicyPair, left: PolicyPair, right: PolicyPair) -> PolicyPartialOrdering {
    if endpoint_projection_spec(left, required) is None || endpoint_projection_spec(
        right,
        required,
    ) is None {
        PolicyPartialOrdering::Incomparable
    } else {
        endpoint_fit_spec(left, right)
    }
}

/// Output fitness: both candidates must meet the required target.
pub open spec fn output_fit_spec(required: PolicyPair, left: PolicyPair, right: PolicyPair) -> PolicyPartialOrdering {
    if endpoint_projection_spec(required, left) is None || endpoint_projection_spec(
        required,
        right,
    ) is None {
        PolicyPartialOrdering::Incomparable
    } else {
        endpoint_fit_spec(left, right)
    }
}

pub(crate) fn compare_input_policy_fit(required: &PolicyPair, left: &PolicyPair, right: &PolicyPair) -> (r:
    PolicyPartialOrdering)
    ensures
        r == input_fit_spec(*required, *left, *right),
{
    if project_migration_input_endpoint(left, required).is_none()
        || project_migration_input_endpoint(right, required).is_none() {
        return PolicyPartialOrdering::Incomparable;
    }
    compare_policy_endpoint_fit(left, right)
}

pub(crate) fn compare_output_policy_fit(required: &PolicyPair, left: &PolicyPair, right: &PolicyPair) -> (r:
    PolicyPartialOrdering)
    ensures
        r == output_fit_spec(*required, *left, *right),
{
    if project_migration_output_endpoint(required, left).is_none()
        || project_migration_output_endpoint(required, right).is_none() {
        return PolicyPartialOrdering::Incomparable;
    }
    compare_policy_endpoint_fit(left, right)
}

/// Endpoint-coordinate comparison: the product of input and output fitness.
pub(crate) fn compare_migration_endpoint_coordinates(
    required_source: &PolicyPair,
    required_target: &PolicyPair,
    left_input: &PolicyPair,
    left_output: &PolicyPair,
    right_input: &PolicyPair,
    right_output: &PolicyPair,
) -> (r: PolicyPartialOrdering)
    ensures
        r == compose_spec(
            seq![
                input_fit_spec(*required_source, *left_input, *right_input),
                output_fit_spec(*required_target, *left_output, *right_output),
            ],
        ),
{
    let dims = [
        compare_input_policy_fit(required_source, left_input, right_input),
        compare_output_policy_fit(required_target, left_output, right_output),
    ];
    let r = compose_orders(dims.as_slice());
    assert(dims@ =~= seq![
        input_fit_spec(*required_source, *left_input, *right_input),
        output_fit_spec(*required_target, *left_output, *right_output),
    ]);
    r
}

/// Exchanging the compared sides of a product order reverses its verdict.
pub proof fn lemma_compose_reverses(dimensions: Seq<PolicyPartialOrdering>)
    ensures
        compose_spec(dimensions.map_values(|o: PolicyPartialOrdering| reverse_order(o)))
            == reverse_order(compose_spec(dimensions)),
{
    let rev = dimensions.map_values(|o: PolicyPartialOrdering| reverse_order(o));
    assert forall|i: int| 0 <= i < dimensions.len() implies #[trigger] rev[i] == reverse_order(
        dimensions[i],
    ) by {}
    if exists|i: int|
        0 <= i < dimensions.len() && #[trigger] dimensions[i] == PolicyPartialOrdering::Incomparable {
        let i = choose|i: int|
            0 <= i < dimensions.len() && #[trigger] dimensions[i] == PolicyPartialOrdering::Incomparable;
        assert(rev[i] == PolicyPartialOrdering::Incomparable);
    }
    if exists|i: int| 0 <= i < dimensions.len() && #[trigger] dimensions[i] == PolicyPartialOrdering::Less {
        let i = choose|i: int| 0 <= i < dimensions.len() && #[trigger] dimensions[i] == PolicyPartialOrdering::Less;
        assert(rev[i] == PolicyPartialOrdering::Greater);
    }
    if exists|i: int|
        0 <= i < dimensions.len() && #[trigger] dimensions[i] == PolicyPartialOrdering::Greater {
        let i = choose|i: int|
            0 <= i < dimensions.len() && #[trigger] dimensions[i] == PolicyPartialOrdering::Greater;
        assert(rev[i] == PolicyPartialOrdering::Less);
    }
    if exists|i: int| 0 <= i < rev.len() && #[trigger] rev[i] == PolicyPartialOrdering::Incomparable {
        let i = choose|i: int| 0 <= i < rev.len() && #[trigger] rev[i] == PolicyPartialOrdering::Incomparable;
        assert(dimensions[i] == PolicyPartialOrdering::Incomparable);
    }
    if exists|i: int| 0 <= i < rev.len() && #[trigger] rev[i] == PolicyPartialOrdering::Less {
        let i = choose|i: int| 0 <= i < rev.len() && #[trigger] rev[i] == PolicyPartialOrdering::Less;
        assert(dimensions[i] == PolicyPartialOrdering::Greater);
    }
    if exists|i: int| 0 <= i < rev.len() && #[trigger] rev[i] == PolicyPartialOrdering::Greater {
        let i = choose|i: int| 0 <= i < rev.len() && #[trigger] rev[i] == PolicyPartialOrdering::Greater;
        assert(dimensions[i] == PolicyPartialOrdering::Less);
    }
}

/// Endpoint fitness is antisymmetric: comparing the other way round gives
/// the reversed verdict.
pub proof fn lemma_endpoint_fit_antisymmetric(left: PolicyPair, right: PolicyPair)
    ensures
        endpoint_fit_spec(right, left) == reverse_order(endpoint_fit_spec(left, right)),
{
    let d = seq![
        subsets_spec(
            left.value.stages.subset_spec(right.value.stages),
            right.value.stages.subset_spec(left.value.stages),
        ),
        subsets_spec(
            presence_subset(left.value.presence, right.value.presence),
            presence_subset(right.value.presence, left.value.presence),
        ),
        subsets_spec(
            left.pattern.stages.subset_spec(right.pattern.stages),
            right.pattern.stages.subset_spec(left.pattern.stages),
        ),
    ];
    lemma_compose_reverses(d);
    let rev = d.map_values(|o: PolicyPartialOrdering| reverse_order(o));
    assert(rev =~= seq![
        subsets_spec(
            right.value.stages.subset_spec(left.value.stages),
            left.value.stages.subset_spec(right.value.stages),
        ),
        subsets_spec(
            presence_subset(right.value.presence, left.value.presence),
            presence_subset(left.value.presence, right.value.presence),
        ),
        subsets_spec(
            right.pattern.stages.subset_spec(left.pattern.stages),
            left.pattern.stages.subset_spec(right.pattern.stages),
        ),
    ]);
}

/// A verdict that does not prefer the right side: greater or equal.
pub open spec fn at_least(d: PolicyPartialOrdering) -> bool {
    d == PolicyPartialOrdering::Greater || d == PolicyPartialOrdering::Equal
}

/// The verdicts of `a` against `b`, of `b` against `c` and of `a` against
/// `c` chain: `a` is at least `c` when it is at least `b` and `b` at least
/// `c`, and strictly so when either step is strict.
pub open spec fn chains(ab: PolicyPartialOrdering, bc: PolicyPartialOrdering, ac: PolicyPartialOrdering) -> bool {
    &&& at_least(ab) && at_least(bc) ==> at_least(ac)
    &&& at_least(ab) && at_least(bc) && (ab == PolicyPartialOrdering::Greater || bc
        == PolicyPartialOrdering::Greater) ==> ac == PolicyPartialOrdering::Greater
}

/// A product verdict is at least equal exactly when every dimension is, and
/// greater exactly when, moreover, some dimension is greater.
pub proof fn lemma_compose_at_least(dimensions: Seq<PolicyPartialOrdering>)
    ensures
        at_least(compose_spec(dimensions)) <==> forall|i: int|
            0 <= i < dimensions.len() ==> at_least(#[trigger] dimensions[i]),
        compose_spec(dimensions) == PolicyPartialOrdering::Greater <==> (forall|i: int|
            0 <= i < dimensions.len() ==> at_least(#[trigger] dimensions[i])) && exists|i: int|
            0 <= i < dimensions.len() && #[trigger] dimensions[i] == PolicyPartialOrdering::Greater,
{
    if forall|i: int| 0 <= i < dimensions.len() ==> at_least(#[trigger] dimensions[i]) {
        assert(!exists|i: int|
            0 <= i < dimensions.len() && #[trigger] dimensions[i] == PolicyPartialOrdering::Incomparable);
        assert(!exists|i: int| 0 <= i < dimensions.len() && #[trigger] dimensions[i] == PolicyPartialOrdering::Less);
    } else {
        let i = choose|i: int| 0 <= i < dimensions.len() && !at_least(#[trigger] dimensions[i]);
        assert(dimensions[i] == PolicyPartialOrdering::Incomparable || dimensions[i] == PolicyPartialOrdering::Less);
    }
}

/// Product verdicts chain when every dimension chains.
pub proof fn lemma_compose_chains(
    ab: Seq<PolicyPartialOrdering>,
    bc: Seq<PolicyPartialOrdering>,
    ac: Seq<PolicyPartialOrdering>,
)
    requires
        ab.len() == bc.len(),
        ab.len() == ac.len(),
        forall|i: int| 0 <= i < ab.len() ==> chains(#[trigger] ab[i], bc[i], ac[i]),
    ensures
        chains(compose_spec(ab), compose_spec(bc), compose_spec(ac)),
{
    lemma_compose_at_least(ab);
    lemma_compose_at_least(bc);
    lemma_compose_at_least(ac);
    if at_least(compose_spec(ab)) && at_least(compose_spec(bc)) {
        assert forall|i: int| 0 <= i < ac.len() implies at_least(#[trigger] ac[i]) by {
            assert(chains(ab[i], bc[i], ac[i]));
            assert(at_least(ab[i]));
            assert(at_least(bc[i]));
        }
        if compose_spec(ab) == PolicyPartialOrdering::Greater {
            let i = choose|i: int| 0 <= i < ab.len() && #[trigger] ab[i] == PolicyPartialOrdering::Greater;
            assert(chains(ab[i], bc[i], ac[i]));
            assert(at_least(bc[i]));
            assert(ac[i] == PolicyPartialOrdering::Greater);
        }
        if compose_spec(bc) == PolicyPartialOrdering::Greater {
            let i = choose|i: int| 0 <= i < bc.len() && #[trigger] bc[i] == PolicyPartialOrdering::Greater;
            assert(chains(ab[i], bc[i], ac[i]));
            assert(at_least(ab[i]));
            assert(ac[i] == PolicyPartialOrdering::Greater);
        }
    }
}

/// A product verdict with no greater dimension is not greater.
pub proof fn lemma_compose_not_greater(dimensions: Seq<PolicyPartialOrdering>)
    requires
        forall|i: int| 0 <= i < dimensions.len() ==> #[trigger] dimensions[i] != PolicyPartialOrdering::Greater,
    ensures
        compose_spec(dimensions) != PolicyPartialOrdering::Greater,
{
    lemma_compose_at_least(dimensions);
}

/// Endpoint fitness chains: it is a preorder whose strict part is
/// transitive, and no endpoint is strictly fitter than itself.
pub proof fn lemma_endpoint_fit_chains(a: PolicyPair, b: PolicyPair, c: PolicyPair)
    ensures
        chains(endpoint_fit_spec(a, b), endpoint_fit_spec(b, c), endpoint_fit_spec(a, c)),
        endpoint_fit_spec(a, a) != PolicyPartialOrdering::Greater,
{
    let dims = |x: PolicyPair, y: PolicyPair|
        seq![
            subsets_spec(x.value.stages.subset_spec(y.value.stages), y.value.stages.subset_spec(x.value.stages)),
            subsets_spec(
                presence_subset(x.value.presence, y.value.presence),
                presence_subset(y.value.presence, x.value.presence),
            ),
            subsets_spec(
                x.pattern.stages.subset_spec(y.pattern.stages),
                y.pattern.stages.subset_spec(x.pattern.stages),
            ),
        ];
    let ab = dims(a, b);
    let bc = dims(b, c);
    let ac = dims(a, c);
    assert forall|i: int| 0 <= i < ab.len() implies chains(#[trigger] ab[i], bc[i], ac[i]) by {}
    lemma_compose_chains(ab, bc, ac);
    assert(endpoint_fit_spec(a, b) == compose_spec(ab));
    assert(endpoint_fit_spec(b, c) == compose_spec(bc));
    assert(endpoint_fit_spec(a, c) == compose_spec(ac));
    let aa = dims(a, a);
    assert forall|i: int| 0 <= i < aa.len() implies #[trigger] aa[i] != PolicyPartialOrdering::Greater by {}
    lemma_compose_not_greater(aa);
    assert(endpoint_fit_spec(a, a) == compose_spec(aa));
}

/// Every endpoint is exactly as fit as itself.
pub proof fn lemma_endpoint_fit_reflexive(a: PolicyPair)
    ensures
        endpoint_fit_spec(a, a) == PolicyPartialOrdering::Equal,
{
    let aa = seq![
        subsets_spec(a.value.stages.subset_spec(a.value.stages), a.value.stages.subset_spec(a.value.stages)),
        subsets_spec(
            presence_subset(a.value.presence, a.value.presence),
            presence_subset(a.value.presence, a.value.presence),
        ),
        subsets_spec(a.pattern.stages.subset_spec(a.pattern.stages), a.pattern.stages.subset_spec(a.pattern.stages)),
    ];
    assert(aa[0] == PolicyPartialOrdering::Equal);
    assert(aa[1] == PolicyPartialOrdering::Equal);
    assert(aa[2] == PolicyPartialOrdering::Equal);
    assert(!exists|i: int| 0 <= i < aa.len() && #[trigger] aa[i] == PolicyPartialOrdering::Incomparable);
    assert(!exists|i: int| 0 <= i < aa.len() && #[trigger] aa[i] == PolicyPartialOrdering::Less);
    assert(!exists|i: int| 0 <= i < aa.len() && #[trigger] aa[i] == PolicyPartialOrdering::Greater);
    assert(endpoint_fit_spec(a, a) == compose_spec(aa));
}

} // verus!
