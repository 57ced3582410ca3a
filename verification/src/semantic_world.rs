//! Identities, places, write grants, cluster members and construction
//! authority of the connected semantic world.
//!
//! One Symbol carries heterogeneous values; each value has a type value, that
//! type a Pattern value, the Pattern a resolved owner, and the owner its
//! associated Symbols. None of these identities is reconstructed from a type
//! value identity.
use vstd::prelude::*;

use crate::model::{
    Diagnostic, DiagnosticKind, CanonicalValueAddr, MetaCallableIdentity, NamespaceNodeId, Provenance, SemanticValueId, TypeValueId,
};
use crate::norm_syntax::{NormClosure, NormPatternElem};
use crate::policy_syntax::NormPolicySpec;
use crate::policy_pair::{
    elaborate_explicit_p1, explicit_p1_spec, ExplicitP1Position, ExplicitP1Selection,
    ValuePresence, lemma_policy_le_partial_order, lemma_policy_or_least_upper_bound, policy_le, policy_or,
    policy_or_spec, Phase, PolicyMode, PolicyPair, PolicyResultEntry, PolicyView,
};
use crate::semantic_owner::{
    MetaInvocationMaterialKey, ResolvedPatternRootId, SemanticOwnerId, SemanticSymbolIdentity,
};

verus! {

/// Storage key of one complete meta-instance root: the stable parent owner,
/// the selected callable and the canonical argument Product.
#[derive(Clone, Copy, Debug, PartialEq, Eq, PartialOrd, Ord, Structural)]
pub struct MetaInstanceRootKey {
    pub parent_owner: SemanticOwnerId,
    pub material: MetaInvocationMaterialKey,
}

/// Placement and identity of one meta instance root.
#[derive(Clone, Copy, Debug, PartialEq, Eq, Structural)]
pub struct MetaInstanceRoot {
    pub meta_callable: MetaCallableIdentity,
    pub placement_parent: SemanticOwnerId,
}

impl MetaInstanceRoot {
    /// Root-level Policy is an identity invariant: always `plain`.
    pub fn policy_mode(&self) -> (r: PolicyMode)
        ensures
            r == PolicyMode::Plain,
    {
        PolicyMode::Plain
    }
}

/// Identity of one open cluster construction.
#[derive(Clone, Copy, Debug, PartialEq, Eq, PartialOrd, Ord, Hash, Structural)]
pub struct ClusterConstructionId(pub u64);

/// Owner of a PatternValue: an open cluster construction or an installed
/// ClusterSymbol.
#[derive(Clone, Copy, Debug, PartialEq, Eq, Structural)]
pub enum PatternClusterOwner {
    Open(ClusterConstructionId),
    Installed(SemanticSymbolIdentity),
}

impl PatternClusterOwner {
    pub fn installed(&self) -> (r: Option<SemanticSymbolIdentity>)
        ensures
            r == match *self {
                PatternClusterOwner::Installed(identity) => Some(identity),
                PatternClusterOwner::Open(_) => None,
            },
    {
        match *self {
            PatternClusterOwner::Installed(identity) => Some(identity),
            PatternClusterOwner::Open(_) => None,
        }
    }
}

/// Snapshot-local identity of one semantic Pattern value.
#[derive(Clone, Copy, Debug, PartialEq, Eq, PartialOrd, Ord, Hash, Structural)]
pub struct PatternValueId(pub u64);

/// Snapshot-local handle of one resolved Pattern scope.
#[derive(Clone, Copy, Debug, PartialEq, Eq, PartialOrd, Ord, Hash, Structural)]
pub struct ResolvedPatternScopeId(pub u64);

/// Snapshot-local handle of one per-object Val2 place.
#[derive(Clone, Copy, Debug, PartialEq, Eq, PartialOrd, Ord, Hash, Structural)]
pub struct ObjectPlaceId(pub u64);

/// Identity of one resident Object occupying a Place.
#[derive(Clone, Copy, Debug, PartialEq, Eq, PartialOrd, Ord, Hash, Structural)]
pub struct ResidentIdentity(pub u64);

/// Formation-time resident generation observed by projections and borrows.
#[derive(Clone, Copy, Debug, PartialEq, Eq, PartialOrd, Ord, Hash, Structural)]
pub struct ResidentGeneration {
    pub resident: ResidentIdentity,
    pub generation: u64,
}

#[derive(Clone, Debug, PartialEq, Eq, PartialOrd, Ord, Hash)]
pub enum ProjectionSelector {
    Named(String),
    Positional(usize),
}

/// Stable identity of one prospective or occupied projection slot.
#[derive(Clone, Debug, PartialEq, Eq, PartialOrd, Ord, Hash)]
pub struct ProjectionSlotIdentity {
    pub parent: ResidentGeneration,
    pub selector: ProjectionSelector,
}

#[derive(Clone, Copy, Debug, PartialEq, Eq, Structural)]
pub enum ProjectionSlotContents {
    Missing,
    Occupied,
}

#[derive(Clone, Debug, PartialEq, Eq)]
pub struct ProjectionSlot {
    pub identity: ProjectionSlotIdentity,
    pub contents: ProjectionSlotContents,
}

/// Whether two slot identities are the same, names compared by their text.
pub open spec fn slot_matches(a: ProjectionSlotIdentity, b: ProjectionSlotIdentity) -> bool {
    a.parent == b.parent && match (a.selector, b.selector) {
        (ProjectionSelector::Named(x), ProjectionSelector::Named(y)) => x@ == y@,
        (ProjectionSelector::Positional(x), ProjectionSelector::Positional(y)) => x == y,
        _ => false,
    }
}

fn slot_eq(a: &ProjectionSlotIdentity, b: &ProjectionSlotIdentity) -> (r: bool)
    ensures
        r == slot_matches(*a, *b),
{
    a.parent == b.parent && match (&a.selector, &b.selector) {
        (ProjectionSelector::Named(x), ProjectionSelector::Named(y)) => crate::policy_pair::text_eq(
            x.as_str(),
            y.as_str(),
        ),
        (ProjectionSelector::Positional(x), ProjectionSelector::Positional(y)) => *x == *y,
        _ => false,
    }
}

/// Whether one of the first `n` slots matches `slot`.
pub open spec fn slots_contain(slots: Seq<ProjectionSlotIdentity>, slot: ProjectionSlotIdentity, n: int) -> bool
    decreases n,
{
    n > 0 && (slots_contain(slots, slot, n - 1) || slot_matches(slots[n - 1], slot))
}

proof fn lemma_slots_contain_prefix(
    a: Seq<ProjectionSlotIdentity>,
    b: Seq<ProjectionSlotIdentity>,
    slot: ProjectionSlotIdentity,
    n: int,
)
    requires
        0 <= n <= a.len(),
        n <= b.len(),
        forall|k: int| 0 <= k < n ==> a[k] == b[k],
    ensures
        slots_contain(a, slot, n) == slots_contain(b, slot, n),
    decreases n,
{
    if n > 0 {
        lemma_slots_contain_prefix(a, b, slot, n - 1);
    }
}

/// Context-indexed write grants. No Policy carrier appears here: Policy
/// preference cannot manufacture a write capability.
#[derive(Clone, Debug, PartialEq, Eq)]
pub struct WritableContext {
    places: Vec<ObjectPlaceId>,
    slots: Vec<ProjectionSlotIdentity>,
}

proof fn lemma_slots_contain_upward(slots: Seq<ProjectionSlotIdentity>, slot: ProjectionSlotIdentity, m: int, n: int)
    requires
        m <= n,
        slots_contain(slots, slot, m),
    ensures
        slots_contain(slots, slot, n),
    decreases n - m,
{
    if m < n {
        lemma_slots_contain_upward(slots, slot, m, n - 1);
    }
}

impl Default for WritableContext {
    fn default() -> (r: WritableContext)
        ensures
            forall|p: ObjectPlaceId| !r.place_granted(p),
            forall|s: ProjectionSlotIdentity| !r.slot_granted(s),
    {
        WritableContext { places: Vec::new(), slots: Vec::new() }
    }
}

impl WritableContext {
    /// Whether `place` has been granted.
    pub closed spec fn place_granted(&self, place: ObjectPlaceId) -> bool {
        self.places@.contains(place)
    }

    /// Whether `slot` has been granted.
    pub closed spec fn slot_granted(&self, slot: ProjectionSlotIdentity) -> bool {
        slots_contain(self.slots@, slot, self.slots@.len() as int)
    }

    /// `after` is `before` with `place` granted.
    pub open spec fn place_grant_step(before: WritableContext, after: WritableContext, place: ObjectPlaceId) -> bool {
        &&& forall|p: ObjectPlaceId| #[trigger] after.place_granted(p) == (before.place_granted(p) || p == place)
        &&& forall|s: ProjectionSlotIdentity| #[trigger] after.slot_granted(s) == before.slot_granted(s)
    }

    /// `after` is `before` with `slot` granted.
    pub open spec fn slot_grant_step(
        before: WritableContext,
        after: WritableContext,
        slot: ProjectionSlotIdentity,
    ) -> bool {
        &&& forall|s: ProjectionSlotIdentity| #[trigger] after.slot_granted(s) == (before.slot_granted(s)
            || slot_matches(slot, s))
        &&& forall|p: ObjectPlaceId| #[trigger] after.place_granted(p) == before.place_granted(p)
    }

    /// `after` is `before` with one place or one slot granted.
    pub open spec fn grant_step(before: WritableContext, after: WritableContext) -> bool {
        ||| exists|place: ObjectPlaceId| #[trigger] WritableContext::place_grant_step(before, after, place)
        ||| exists|slot: ProjectionSlotIdentity| #[trigger] WritableContext::slot_grant_step(before, after, slot)
    }

    /// Grant writes to a whole place.
    pub fn grant_place(&mut self, place: ObjectPlaceId)
        ensures
            WritableContext::place_grant_step(*old(self), *final(self), place),
    {
        let mut i: usize = 0;
        while i < self.places.len()
            invariant
                i <= self.places@.len(),
                forall|k: int| 0 <= k < i ==> self.places@[k] != place,
            decreases self.places@.len() - i,
        {
            if self.places[i] == place {
                return;
            }
            i = i + 1;
        }
        self.places.push(place);
        proof {
            assert forall|p: ObjectPlaceId| self.place_granted(p) == (old(self).place_granted(p) || p
                == place) by {
                if old(self).places@.contains(p) {
                    let k = choose|k: int| 0 <= k < old(self).places@.len() && old(self).places@[k] == p;
                    assert(self.places@[k] == p);
                }
                if self.places@.contains(p) && p != place {
                    let k = choose|k: int| 0 <= k < self.places@.len() && self.places@[k] == p;
                    assert(old(self).places@[k] == p);
                }
                if p == place {
                    assert(self.places@[self.places@.len() - 1] == place);
                }
            }
            assert(self.slots@ == old(self).slots@);
        }
    }

    /// Grant writes to one projection slot.
    pub fn grant_slot(&mut self, slot: ProjectionSlotIdentity)
        ensures
            WritableContext::slot_grant_step(*old(self), *final(self), slot),
    {
        let ghost before = self.slots@;
        self.slots.push(slot);
        proof {
            assert forall|s: ProjectionSlotIdentity| self.slot_granted(s) == (old(self).slot_granted(s)
                || slot_matches(slot, s)) by {
                lemma_slots_contain_prefix(self.slots@, before, s, before.len() as int);
                assert(self.slots@[before.len() as int] == slot);
            }
        }
    }

    /// Whether the whole place is writable.
    pub fn place_is_writable(&self, place: ObjectPlaceId) -> (r: bool)
        ensures
            r == self.place_granted(place),
    {
        let mut i: usize = 0;
        while i < self.places.len()
            invariant
                i <= self.places@.len(),
                forall|k: int| 0 <= k < i ==> self.places@[k] != place,
            decreases self.places@.len() - i,
        {
            if self.places[i] == place {
                return true;
            }
            i = i + 1;
        }
        false
    }

    /// Whether a slot of `place` is writable: the place or the slot itself
    /// was granted.
    pub fn slot_is_writable(&self, place: ObjectPlaceId, slot: &ProjectionSlotIdentity) -> (r: bool)
        ensures
            r == (self.place_granted(place) || self.slot_granted(*slot)),
    {
        if self.place_is_writable(place) {
            return true;
        }
        let mut i: usize = 0;
        while i < self.slots.len()
            invariant
                i <= self.slots@.len(),
                !slots_contain(self.slots@, *slot, i as int),
                !self.place_granted(place),
            decreases self.slots@.len() - i,
        {
            if slot_eq(&self.slots[i], slot) {
                proof {
                    lemma_slots_contain_upward(self.slots@, *slot, i as int + 1, self.slots@.len() as int);
                }
                return true;
            }
            i = i + 1;
        }
        false
    }
}

/// Slot identities match only when they name the same slot: the same
/// parent and the same selector, positional selectors by their index and
/// named ones by their text; every slot matches itself.
pub proof fn lemma_slot_matching_is_sameness(a: ProjectionSlotIdentity, b: ProjectionSlotIdentity)
    ensures
        slot_matches(a, a),
        slot_matches(a, b) ==> a.parent == b.parent,
        slot_matches(a, b) && a.selector is Positional ==> b.selector == a.selector,
        slot_matches(a, b) && a.selector is Named ==> b.selector is Named && a.selector->Named_0@
            == b.selector->Named_0@,
        a.parent == b.parent && a.selector == b.selector ==> slot_matches(a, b),
        slot_matches(a, b) == slot_matches(b, a),
{
}

/// A context in which only `slot` was granted makes writable exactly the
/// slots that are `slot`, and no whole place: a slot of another parent, or
/// another position or name of the same parent, stays read-only.
pub proof fn lemma_single_slot_grant_is_exact(
    before: WritableContext,
    after: WritableContext,
    slot: ProjectionSlotIdentity,
    place: ObjectPlaceId,
    other: ProjectionSlotIdentity,
)
    requires
        forall|p: ObjectPlaceId| !before.place_granted(p),
        forall|s: ProjectionSlotIdentity| !before.slot_granted(s),
        WritableContext::slot_grant_step(before, after, slot),
    ensures
        !after.place_granted(place),
        after.slot_granted(slot),
        after.slot_granted(other) ==> other.parent == slot.parent,
        after.slot_granted(other) && slot.selector is Positional ==> other.selector == slot.selector,
        after.slot_granted(other) && slot.selector is Named ==> other.selector is Named
            && other.selector->Named_0@ == slot.selector->Named_0@,
{
    assert(!before.place_granted(place));
    assert(!before.slot_granted(other));
    assert(!before.slot_granted(slot));
    assert(after.place_granted(place) == before.place_granted(place));
    assert(after.slot_granted(other) == (before.slot_granted(other) || slot_matches(slot, other)));
    assert(after.slot_granted(slot) == (before.slot_granted(slot) || slot_matches(slot, slot)));
}

/// Grants are never revoked: along any sequence of contexts in which each
/// one is the previous with one place or one slot granted, a slot that is
/// writable (its place or itself granted) stays writable in every later
/// context.
pub proof fn lemma_grants_never_revoked(
    chain: Seq<WritableContext>,
    i: int,
    j: int,
    place: ObjectPlaceId,
    slot: ProjectionSlotIdentity,
)
    requires
        0 <= i <= j < chain.len(),
        forall|k: int| 0 <= k < chain.len() - 1 ==> #[trigger] WritableContext::grant_step(chain[k], chain[k + 1]),
        chain[i].place_granted(place) || chain[i].slot_granted(slot),
    ensures
        chain[j].place_granted(place) || chain[j].slot_granted(slot),
    decreases j - i,
{
    if i < j {
        lemma_grants_never_revoked(chain, i, j - 1, place, slot);
        let k = j - 1;
        assert(WritableContext::grant_step(chain[k], chain[k + 1]));
        assert(k + 1 == j);
        if exists|q: ObjectPlaceId| #[trigger] WritableContext::place_grant_step(chain[j - 1], chain[j], q) {
            let q = choose|q: ObjectPlaceId| #[trigger] WritableContext::place_grant_step(chain[j - 1], chain[j], q);
            assert(chain[j].place_granted(place) == (chain[j - 1].place_granted(place) || place == q));
            assert(chain[j].slot_granted(slot) == chain[j - 1].slot_granted(slot));
        } else {
            let t = choose|t: ProjectionSlotIdentity| #[trigger] WritableContext::slot_grant_step(chain[j - 1], chain[j], t);
            assert(chain[j].place_granted(place) == chain[j - 1].place_granted(place));
            assert(chain[j].slot_granted(slot) == (chain[j - 1].slot_granted(slot) || slot_matches(t, slot)));
        }
    }
}

/// A granted place makes every slot of it writable, and a granted slot is
/// writable under every place.
pub proof fn lemma_grant_makes_writable(
    before: WritableContext,
    after: WritableContext,
    place: ObjectPlaceId,
    slot: ProjectionSlotIdentity,
    other: ObjectPlaceId,
)
    ensures
        WritableContext::place_grant_step(before, after, place) ==> after.place_granted(place),
        WritableContext::slot_grant_step(before, after, slot) ==> after.slot_granted(slot) && (after.place_granted(
            other,
        ) || after.slot_granted(slot)),
{
    if WritableContext::place_grant_step(before, after, place) {
        assert(after.place_granted(place));
    }
    if WritableContext::slot_grant_step(before, after, slot) {
        assert(slot_matches(slot, slot));
        assert(after.slot_granted(slot));
    }
}

#[derive(Clone, Copy, Debug, PartialEq, Eq, PartialOrd, Ord, Hash, Structural)]
pub struct BorrowViewId(pub u64);

#[derive(Clone, Copy, Debug, PartialEq, Eq, Structural)]
pub enum BorrowKind {
    Ref,
    Share,
}

#[derive(Clone, Debug, PartialEq, Eq, PartialOrd, Ord, Hash)]
pub enum StableBorrowTarget {
    Place { place: ObjectPlaceId, resident: ResidentGeneration },
    Projection(ProjectionSlotIdentity),
}

#[derive(Clone, Debug, PartialEq, Eq)]
pub struct BorrowView {
    pub id: BorrowViewId,
    pub kind: BorrowKind,
    pub target: StableBorrowTarget,
}

#[derive(Clone, Debug, PartialEq, Eq)]
pub enum BorrowOperand {
    Actual(StableBorrowTarget),
    Borrow(BorrowViewId),
}

#[derive(Clone, Copy, Debug, PartialEq, Eq, Structural)]
pub enum BorrowFormationFailure {
    UnknownBorrow(BorrowViewId),
    NoCandidateForStrengthening,
}

#[derive(Clone, Debug, PartialEq, Eq)]
pub enum PlaceMutationFailure {
    UnknownPlace(ObjectPlaceId),
    NotWritable,
    SlotAlreadyOccupied(ProjectionSlotIdentity),
    SlotMissing(ProjectionSlotIdentity),
}

/// Per-object Val2 container: the source-navigable names of this object and
/// the values reachable from it, by member spelling.
#[derive(Clone, Debug, PartialEq, Eq)]
pub struct ObjectPlace {
    pub id: ObjectPlaceId,
    pub resident: ResidentGeneration,
    pub associated_symbols: Vec<(String, SemanticSymbolIdentity)>,
    pub associated_val2: Vec<(String, Vec<SemanticValueId>)>,
}

/// Frozen content of one cluster in a Val2 snapshot.
#[derive(Clone, Debug, PartialEq, Eq)]
pub struct SemanticVal2ClusterSnapshot {
    pub pure_p: Option<PurePMember>,
    pub values: Vec<SemanticValueId>,
}

/// Frozen semantic content of the owned `Val2(x)` coordinate, by name.
#[derive(Clone, Debug, PartialEq, Eq)]
pub struct SemanticVal2Snapshot {
    clusters: Vec<(String, SemanticVal2ClusterSnapshot)>,
}

impl SemanticVal2Snapshot {
    /// A snapshot with no clusters.
    pub fn new() -> (r: SemanticVal2Snapshot)
        ensures
            r.cluster_count() == 0,
    {
        SemanticVal2Snapshot { clusters: Vec::new() }
    }

    /// Number of named clusters.
    pub closed spec fn cluster_count(&self) -> nat {
        self.clusters@.len()
    }
}

#[derive(Clone, Debug, PartialEq, Eq)]
pub struct SemanticPatternValue {
    pub id: PatternValueId,
    pub root: ResolvedPatternRootId,
    pub scope: ResolvedPatternScopeId,
    pub provenance: Provenance,
}

#[derive(Clone, Copy, Debug, PartialEq, Eq, Structural)]
pub struct ResolvedPatternScope {
    pub id: ResolvedPatternScopeId,
    pub owner: SemanticOwnerId,
    pub root: ResolvedPatternRootId,
}

#[derive(Clone, Debug, PartialEq, Eq)]
pub struct SemanticTypeValue {
    /// Opaque first-order lookup index for the core.
    pub id: TypeValueId,
    pub pattern: PatternValueId,
    pub provenance: Provenance,
}

/// Facet of one direct TypeMember in an immutable snapshot.
#[derive(Clone, Copy, Debug, PartialEq, Eq, PartialOrd, Ord, Structural)]
pub enum TypeMemberFacet {
    PureP,
    Value,
}

/// One ordinary Object captured as a direct TypeMember.
#[derive(Clone, Copy, Debug, PartialEq, Eq, PartialOrd, Ord, Structural)]
pub struct TypeMemberSnapshotEntry {
    pub direct_home: ResolvedPatternRootId,
    pub facet: TypeMemberFacet,
    pub value: SemanticValueId,
}

/// Complete first-class type closure: its registry lookup key, its core
/// (ordinary type equality), its immutable call space by member name, and
/// the whole-snapshot observation.
#[derive(Clone, Debug, PartialEq, Eq)]
pub struct CompleteTypeValue {
    pub lookup_key: TypeValueId,
    pub core: CanonicalValueAddr,
    pub call_space: Vec<(String, Vec<TypeMemberSnapshotEntry>)>,
    pub whole: CanonicalValueAddr,
}

/// Scope material selected by the outer components of one explicit
/// navigation.
#[derive(Clone, Debug, PartialEq, Eq)]
pub struct SemanticOuterScope {
    pub host: Option<PatternHostMember>,
    pub namespace: Option<NamespaceNodeId>,
}

impl SemanticOuterScope {
    /// The host layer's Pattern.
    pub fn pattern(&self) -> (r: Option<PatternValueId>)
        ensures
            r == match self.host {
                Some(host) => Some(host.pattern),
                None => None,
            },
    {
        match &self.host {
            Some(host) => Some(host.pattern),
            None => None,
        }
    }
}

/// The terminal Symbol of one navigation and the hosts it went through.
#[derive(Clone, Debug, PartialEq, Eq)]
pub struct ResolvedSemanticNavigation {
    pub host_chain: Vec<PatternHostMember>,
    pub terminal_symbol: SemanticSymbolIdentity,
}

impl ResolvedSemanticNavigation {
    /// The innermost host layer the terminal Symbol was reached through.
    pub fn terminal_host(&self) -> (r: Option<&PatternHostMember>)
        ensures
            self.host_chain@.len() == 0 ==> r is None,
            self.host_chain@.len() > 0 ==> (r matches Some(h) && *h == self.host_chain@.last()),
    {
        if self.host_chain.len() == 0 {
            None
        } else {
            Some(&self.host_chain[self.host_chain.len() - 1])
        }
    }
}

/// One resolved host layer of a Val2 navigation.
#[derive(Clone, Copy, Debug, PartialEq, Eq)]
pub struct PatternHostMember {
    pub symbol: Option<SemanticSymbolIdentity>,
    pub pattern: PatternValueId,
    pub place: ObjectPlaceId,
    pub complete_type: Option<CanonicalValueAddr>,
    pub view: Option<PolicyResultEntry<SemanticValueId, PatternValueId>>,
}

/// The host factor of layered exposure: a host with Pattern stages is
/// exposed when they are visible at the phase; one without is exposed.
pub open spec fn host_exposed_spec(host: PatternHostMember, phase: Phase) -> bool {
    match host.view {
        Some(view) => view.view.pair.pattern.stages.empty_spec() || view.view.pair.pattern.stages.visible_spec(
            phase,
        ),
        None => true,
    }
}

impl PatternHostMember {
    /// Whether this host layer is exposed at `phase`.
    pub fn exposed_at(&self, phase: Phase) -> (r: bool)
        ensures
            r == host_exposed_spec(*self, phase),
    {
        match &self.view {
            Some(view) => {
                if view.view.pair.pattern.stages.is_empty() {
                    true
                } else {
                    view.view.pair.pattern.stages.visible_at(phase)
                }
            },
            None => true,
        }
    }
}

/// The pure-P / type member of one ClusterSymbol, with its own place.
#[derive(Clone, Copy, Debug, PartialEq, Eq, Structural)]
pub struct PurePMember {
    pub pattern: PatternValueId,
    pub place: ObjectPlaceId,
    pub complete_type: Option<CanonicalValueAddr>,
}

/// One installed ClusterSymbol: its pure-P member, its sibling values with
/// the places this binding carries them in, and its per-member views.
#[derive(Clone, Debug, PartialEq, Eq)]
pub struct SemanticSymbolCell {
    pub identity: SemanticSymbolIdentity,
    pub name: String,
    pub declaration_owner: SemanticOwnerId,
    pub namespace_node: Option<NamespaceNodeId>,
    pub pure_p: Option<PurePMember>,
    pub sibling_vals: Vec<SemanticValueId>,
    pub sibling_places: Vec<(SemanticValueId, ObjectPlaceId)>,
    pub member_views: Vec<PolicyResultEntry<SemanticValueId, PatternValueId>>,
    pub provenance: Provenance,
}

/// The first index from `i` on of a view with no value and Pattern `pattern`.
pub open spec fn pure_view_index(
    views: Seq<PolicyResultEntry<SemanticValueId, PatternValueId>>,
    pattern: PatternValueId,
    i: int,
) -> Option<int>
    decreases views.len() - i,
{
    if i < 0 || i >= views.len() {
        None
    } else if views[i].value is None && views[i].pattern == pattern {
        Some(i)
    } else {
        pure_view_index(views, pattern, i + 1)
    }
}

/// The place recorded for the first entry from `i` on of `value`.
pub open spec fn place_entry(places: Seq<(SemanticValueId, ObjectPlaceId)>, value: SemanticValueId, i: int) -> Option<
    ObjectPlaceId,
>
    decreases places.len() - i,
{
    if i < 0 || i >= places.len() {
        None
    } else if places[i].0 == value {
        Some(places[i].1)
    } else {
        place_entry(places, value, i + 1)
    }
}

/// The cluster Policy of the first `n` member views: their Policy
/// disjunction, `None` for none.
pub open spec fn cluster_policy_spec(views: Seq<PolicyResultEntry<SemanticValueId, PatternValueId>>, n: int) -> Option<
    PolicyPair,
>
    decreases n,
{
    if n <= 0 {
        None
    } else {
        match cluster_policy_spec(views, n - 1) {
            None => Some(views[n - 1].view.pair),
            Some(current) => Some(policy_or_spec(current, views[n - 1].view.pair)),
        }
    }
}

/// The Pattern of the first view with no value, from `i` on.
pub open spec fn pure_p_spec(views: Seq<PolicyResultEntry<SemanticValueId, PatternValueId>>, i: int) -> Option<
    PatternValueId,
>
    decreases views.len() - i,
{
    if i < 0 || i >= views.len() {
        None
    } else if views[i].value is None {
        Some(views[i].pattern)
    } else {
        pure_p_spec(views, i + 1)
    }
}

/// The values of the first `n` views, in order, each once.
pub open spec fn sibling_vals_spec(views: Seq<PolicyResultEntry<SemanticValueId, PatternValueId>>, n: int) -> Seq<
    SemanticValueId,
>
    decreases n,
{
    if n <= 0 {
        Seq::empty()
    } else {
        let prefix = sibling_vals_spec(views, n - 1);
        match views[n - 1].value {
            Some(v) => if prefix.contains(v) {
                prefix
            } else {
                prefix.push(v)
            },
            None => prefix,
        }
    }
}

/// Derived cluster Policy: the Policy disjunction of the member views, in
/// order; `None` for an empty member ledger. It is a pure derivation and
/// never stored.
pub fn derived_cluster_policy(views: &[PolicyResultEntry<SemanticValueId, PatternValueId>]) -> (r: Option<
    PolicyPair,
>)
    ensures
        r == cluster_policy_spec(views@, views@.len() as int),
{
    let mut folded: Option<PolicyPair> = None;
    let mut i: usize = 0;
    while i < views.len()
        invariant
            i <= views@.len(),
            folded == cluster_policy_spec(views@, i as int),
        decreases views@.len() - i,
    {
        let member = views[i].view.pair;
        folded = Some(
            match folded {
                None => member,
                Some(current) => policy_or(&current, &member),
            },
        );
        i = i + 1;
    }
    folded
}

fn derived_pure_p(views: &[PolicyResultEntry<SemanticValueId, PatternValueId>]) -> (r: Option<PatternValueId>)
    ensures
        r == pure_p_spec(views@, 0),
{
    let mut i: usize = 0;
    while i < views.len()
        invariant
            i <= views@.len(),
            pure_p_spec(views@, 0) == pure_p_spec(views@, i as int),
        decreases views@.len() - i,
    {
        if views[i].value.is_none() {
            return Some(views[i].pattern);
        }
        i = i + 1;
    }
    None
}

fn derived_sibling_vals(views: &[PolicyResultEntry<SemanticValueId, PatternValueId>]) -> (r: Vec<
    SemanticValueId,
>)
    ensures
        r@ == sibling_vals_spec(views@, views@.len() as int),
{
    let mut vals: Vec<SemanticValueId> = Vec::new();
    let mut i: usize = 0;
    while i < views.len()
        invariant
            i <= views@.len(),
            vals@ == sibling_vals_spec(views@, i as int),
        decreases views@.len() - i,
    {
        match views[i].value {
            Some(value) => {
                let mut seen = false;
                let mut k: usize = 0;
                while k < vals.len()
                    invariant
                        k <= vals@.len(),
                        seen == exists|j: int| 0 <= j < k && vals@[j] == value,
                    decreases vals@.len() - k,
                {
                    if vals[k] == value {
                        seen = true;
                    }
                    k = k + 1;
                }
                if !seen {
                    vals.push(value);
                }
            },
            None => {},
        }
        i = i + 1;
    }
    vals
}

impl SemanticSymbolCell {
    /// The Pattern of the pure-P member, without its place.
    pub fn pure_p_pattern(&self) -> (r: Option<PatternValueId>)
        ensures
            r == match self.pure_p {
                Some(member) => Some(member.pattern),
                None => None,
            },
    {
        match self.pure_p {
            Some(member) => Some(member.pattern),
            None => None,
        }
    }

    /// The own Val2 place of the pure-P member.
    pub fn pure_p_place(&self) -> (r: Option<ObjectPlaceId>)
        ensures
            r == match self.pure_p {
                Some(member) => Some(member.place),
                None => None,
            },
    {
        match self.pure_p {
            Some(member) => Some(member.place),
            None => None,
        }
    }

    /// The binding's own pure-P member view: the first view with no value
    /// and the pure-P Pattern.
    pub fn pure_p_view(&self) -> (r: Option<&PolicyResultEntry<SemanticValueId, PatternValueId>>)
        ensures
            match self.pure_p {
                None => r is None,
                Some(member) => match pure_view_index(self.member_views@, member.pattern, 0) {
                    None => r is None,
                    Some(i) => r matches Some(view) && *view == self.member_views@[i],
                },
            },
    {
        let pattern = match self.pure_p_pattern() {
            Some(pattern) => pattern,
            None => {
                return None;
            },
        };
        let mut i: usize = 0;
        while i < self.member_views.len()
            invariant
                self.pure_p matches Some(member) && member.pattern == pattern,
                i <= self.member_views@.len(),
                pure_view_index(self.member_views@, pattern, 0) == pure_view_index(
                    self.member_views@,
                    pattern,
                    i as int,
                ),
            decreases self.member_views@.len() - i,
        {
            let view = &self.member_views[i];
            if view.value.is_none() && view.pattern == pattern {
                return Some(view);
            }
            i = i + 1;
        }
        None
    }

    /// All sibling value ids; a pure-P member never contributes one.
    pub fn all_value_ids(&self) -> (r: Vec<SemanticValueId>)
        ensures
            r@ == self.sibling_vals@,
    {
        let mut out: Vec<SemanticValueId> = Vec::new();
        let mut i: usize = 0;
        while i < self.sibling_vals.len()
            invariant
                i <= self.sibling_vals@.len(),
                out@ == self.sibling_vals@.subrange(0, i as int),
            decreases self.sibling_vals@.len() - i,
        {
            out.push(self.sibling_vals[i]);
            i = i + 1;
            assert(out@ =~= self.sibling_vals@.subrange(0, i as int));
        }
        assert(self.sibling_vals@.subrange(0, self.sibling_vals@.len() as int) =~= self.sibling_vals@);
        out
    }

    /// The place this binding carries `value` in.
    pub fn sibling_place(&self, value: SemanticValueId) -> (r: Option<ObjectPlaceId>)
        ensures
            r == place_entry(self.sibling_places@, value, 0),
    {
        let mut i: usize = 0;
        while i < self.sibling_places.len()
            invariant
                i <= self.sibling_places@.len(),
                place_entry(self.sibling_places@, value, 0) == place_entry(
                    self.sibling_places@,
                    value,
                    i as int,
                ),
            decreases self.sibling_places@.len() - i,
        {
            if self.sibling_places[i].0 == value {
                return Some(self.sibling_places[i].1);
            }
            i = i + 1;
        }
        None
    }

    /// The derived cluster Policy over the member views.
    pub fn cluster_policy(&self) -> (r: Option<PolicyPair>)
        ensures
            r == cluster_policy_spec(self.member_views@, self.member_views@.len() as int),
    {
        derived_cluster_policy(self.member_views.as_slice())
    }
}

/// Declaration-event identity of a meta-injected value.
#[derive(Clone, Copy, Debug, PartialEq, Eq, PartialOrd, Ord, Structural)]
pub struct InjectedValueIdentity {
    pub enclosing_meta: MetaCallableIdentity,
    pub canonical_arguments: CanonicalValueAddr,
    pub construction_event: u32,
}

#[derive(Clone, Copy, Debug, PartialEq, Eq, Structural)]
pub enum OrdinaryCandidateRole {
    Ordinary,
    Fallback,
}

/// Where a constructed result's Pattern owner comes from.
#[derive(Clone, Copy, Debug, PartialEq, Eq, Structural)]
pub enum OwnerStrategy {
    OrdinaryCallableSelfScope,
    OrdinaryMetaInstanceScope,
    AmbientStructScope,
    ExplicitPrivilegedOwnerRule,
}

/// Authority that owns an open cluster construction.
#[derive(Clone, Copy, Debug, PartialEq, Eq, Structural)]
pub enum ConstructionAuthority {
    BuildRoot,
    MetaInvocation { meta_callable: MetaCallableIdentity, canonical_key: MetaInvocationMaterialKey },
    AmbientScope { owner: SemanticOwnerId },
}

/// Authority-bearing construction frames visible at one evaluation point,
/// nearest first.
#[derive(Clone, Debug, PartialEq, Eq)]
pub struct ConstructionEvaluationContext {
    frames_nearest_first: Vec<ConstructionAuthority>,
}

impl ConstructionEvaluationContext {
    /// The frames, nearest first.
    pub closed spec fn frames_spec(&self) -> Seq<ConstructionAuthority> {
        self.frames_nearest_first@
    }

    /// A context with one frame.
    pub fn current(authority: ConstructionAuthority) -> (r: ConstructionEvaluationContext)
        ensures
            r.frames_spec() == seq![authority],
    {
        let mut frames_nearest_first: Vec<ConstructionAuthority> = Vec::new();
        frames_nearest_first.push(authority);
        ConstructionEvaluationContext { frames_nearest_first }
    }

    pub fn from_frames(frames_nearest_first: Vec<ConstructionAuthority>) -> (r: ConstructionEvaluationContext)
        ensures
            r.frames_spec() == frames_nearest_first@,
    {
        ConstructionEvaluationContext { frames_nearest_first }
    }

    pub fn frames_nearest_first(&self) -> (r: &[ConstructionAuthority])
        ensures
            r@ == self.frames_spec(),
    {
        self.frames_nearest_first.as_slice()
    }
}

impl Default for ConstructionEvaluationContext {
    fn default() -> (r: ConstructionEvaluationContext)
        ensures
            r.frames_spec().len() == 0,
    {
        ConstructionEvaluationContext { frames_nearest_first: Vec::new() }
    }
}

/// Evidence for the contextual open-here judgment. It contains no write
/// grant.
#[derive(Clone, Debug, PartialEq, Eq)]
pub struct OpenHereProof {
    construction: ClusterConstructionId,
    target_pattern: PatternValueId,
    authority: ConstructionAuthority,
}

impl OpenHereProof {
    pub closed spec fn construction_spec(&self) -> ClusterConstructionId {
        self.construction
    }

    pub closed spec fn target_pattern_spec(&self) -> PatternValueId {
        self.target_pattern
    }

    pub closed spec fn authority_spec(&self) -> ConstructionAuthority {
        self.authority
    }

    pub fn construction(&self) -> (r: ClusterConstructionId)
        ensures
            r == self.construction_spec(),
    {
        self.construction
    }

    pub fn target_pattern(&self) -> (r: PatternValueId)
        ensures
            r == self.target_pattern_spec(),
    {
        self.target_pattern
    }
}

/// Separate evidence for member creation; not interchangeable with
/// `OpenHereProof` and granting no slot writability.
#[derive(Clone, Debug, PartialEq, Eq)]
pub struct MemberCreationProof {
    open_here: OpenHereProof,
}

impl MemberCreationProof {
    pub closed spec fn open_here_spec(&self) -> OpenHereProof {
        self.open_here
    }

    pub fn open_here(&self) -> (r: &OpenHereProof)
        ensures
            *r == self.open_here_spec(),
    {
        &self.open_here
    }
}

#[derive(Clone, Copy, Debug, PartialEq, Eq, Structural)]
pub enum OpenHereFailure {
    UnknownPattern(PatternValueId),
    NoLiveConstruction(PatternValueId),
    WindowClosed(ClusterConstructionId),
    AuthorityMismatch(ClusterConstructionId),
}

/// Whether the evaluation context owns `target`: a meta invocation must be
/// the nearest meta frame; another authority is searched outward but never
/// through a meta frame.
pub open spec fn authority_matches_spec(target: ConstructionAuthority, frames: Seq<ConstructionAuthority>) -> bool
    decreases frames.len(),
{
    if frames.len() == 0 {
        false
    } else {
        match target {
            ConstructionAuthority::MetaInvocation { .. } => if frames[0] is MetaInvocation {
                frames[0] == target
            } else {
                authority_matches_spec(target, frames.drop_first())
            },
            _ => if frames[0] == target {
                true
            } else if frames[0] is MetaInvocation {
                false
            } else {
                authority_matches_spec(target, frames.drop_first())
            },
        }
    }
}

fn authority_matches_context(target: &ConstructionAuthority, context: &ConstructionEvaluationContext) -> (r:
    bool)
    ensures
        r == authority_matches_spec(*target, context.frames_spec()),
{
    let frames = context.frames_nearest_first();
    let mut i: usize = 0;
    assert(frames@.subrange(0, frames@.len() as int) =~= frames@);
    while i < frames.len()
        invariant
            i <= frames@.len(),
            frames@ == context.frames_spec(),
            authority_matches_spec(*target, frames@) == authority_matches_spec(
                *target,
                frames@.subrange(i as int, frames@.len() as int),
            ),
        decreases frames@.len() - i,
    {
        let ghost rest = frames@.subrange(i as int, frames@.len() as int);
        assert(rest[0] == frames@[i as int]);
        assert(rest.drop_first() =~= frames@.subrange(i as int + 1, frames@.len() as int));
        let frame = frames[i];
        let frame_is_meta = matches!(frame, ConstructionAuthority::MetaInvocation { .. });
        match *target {
            ConstructionAuthority::MetaInvocation { .. } => {
                if frame_is_meta {
                    return frame == *target;
                }
            },
            _ => {
                if frame == *target {
                    return true;
                }
                if frame_is_meta {
                    return false;
                }
            },
        }
        i = i + 1;
    }
    false
}

/// How the value of an ambient struct generation was bound at its
/// declaration site. The binder never participates in type identity.
#[derive(Clone, Debug, PartialEq, Eq)]
pub enum AmbientTypeBinder {
    WholeSymbol(String),
    ExtractionMembers(Vec<String>),
    CallableParameter(String),
}

#[derive(Clone, Copy, Debug, PartialEq, Eq, Structural)]
pub enum ConstructionState {
    Open,
    /// The construction window closed before boundary delivery.
    Frozen,
    /// Boundary delivery happened.
    Finalized,
}

/// Monotone coordinate of the residual runtime serial flow.
#[derive(Clone, Copy, Debug, Default, PartialEq, Eq, PartialOrd, Ord, Structural)]
pub struct ResidualRuntimeEpoch(pub u64);

/// Open-window discipline of one cluster construction.
#[derive(Clone, Copy, Debug, PartialEq, Eq, Structural)]
pub enum ConstructionWindow {
    /// Meta construction window: only producing a Val1 of the constructed
    /// type freezes it.
    Meta,
    /// Ambient ordinary construction window.
    Ordinary(OrdinaryOpenWindow),
}

/// Window coordinates of an ambient ordinary construction: open from its
/// creation flow segment until its first semantic use, and never past the
/// end or fork of that segment.
#[derive(Clone, Copy, Debug, PartialEq, Eq, Structural)]
pub struct OrdinaryOpenWindow {
    pub creation_flow_segment: ResidualRuntimeEpoch,
    pub first_use_seen: bool,
    pub closed_by_fork_or_end: bool,
}

/// How a cluster construction has been used or observed.
#[derive(Clone, Copy, Debug, Default, PartialEq, Eq, Structural)]
pub struct UseObservationKind {
    pub has_been_used_for_val1: bool,
    pub has_been_observed_or_transformed: bool,
}

/// An open cluster construction that has not been installed yet. Its member
/// views are the canonical member facts; pure P, sibling values and cluster
/// Policy are derived from them.
#[derive(Clone, Debug)]
pub struct OpenClusterConstruction {
    pub id: ClusterConstructionId,
    pub owner: SemanticOwnerId,
    pub authority: ConstructionAuthority,
    pub member_views: Vec<PolicyResultEntry<SemanticValueId, PatternValueId>>,
    pub state: ConstructionState,
    pub window: ConstructionWindow,
    pub use_observation: UseObservationKind,
    pub provenance: Provenance,
}

impl OpenClusterConstruction {
    /// The Pattern of the first member view with no value.
    pub fn pure_p(&self) -> (r: Option<PatternValueId>)
        ensures
            r == pure_p_spec(self.member_views@, 0),
    {
        derived_pure_p(self.member_views.as_slice())
    }

    /// The member values in contribution order, each once.
    pub fn sibling_vals(&self) -> (r: Vec<SemanticValueId>)
        ensures
            r@ == sibling_vals_spec(self.member_views@, self.member_views@.len() as int),
    {
        derived_sibling_vals(self.member_views.as_slice())
    }

    /// The derived cluster Policy over the member views.
    pub fn cluster_policy(&self) -> (r: Option<PolicyPair>)
        ensures
            r == cluster_policy_spec(self.member_views@, self.member_views@.len() as int),
    {
        derived_cluster_policy(self.member_views.as_slice())
    }
}

/// Result of finalizing a cluster construction: its member views carried
/// over unchanged.
#[derive(Clone, Debug)]
pub struct SymbolConstructionValue {
    pub identity: ClusterConstructionId,
    pub member_views: Vec<PolicyResultEntry<SemanticValueId, PatternValueId>>,
    pub owner: SemanticOwnerId,
    pub provenance: Provenance,
}

impl SymbolConstructionValue {
    /// The Pattern of the first member view with no value.
    pub fn pure_p(&self) -> (r: Option<PatternValueId>)
        ensures
            r == pure_p_spec(self.member_views@, 0),
    {
        derived_pure_p(self.member_views.as_slice())
    }

    /// The member values in contribution order, each once.
    pub fn sibling_vals(&self) -> (r: Vec<SemanticValueId>)
        ensures
            r@ == sibling_vals_spec(self.member_views@, self.member_views@.len() as int),
    {
        derived_sibling_vals(self.member_views.as_slice())
    }

    /// The derived cluster Policy over the member views.
    pub fn cluster_policy(&self) -> (r: Option<PolicyPair>)
        ensures
            r == cluster_policy_spec(self.member_views@, self.member_views@.len() as int),
    {
        derived_cluster_policy(self.member_views.as_slice())
    }
}

/// Whether a construction's window is live at the current residual runtime
/// epoch: it is open, and an ordinary window has seen no use, no fork or
/// end, and belongs to the current flow segment.
pub open spec fn window_live_spec(
    state: ConstructionState,
    window: ConstructionWindow,
    epoch: ResidualRuntimeEpoch,
) -> bool {
    state == ConstructionState::Open && match window {
        ConstructionWindow::Meta => true,
        ConstructionWindow::Ordinary(w) => !w.first_use_seen && !w.closed_by_fork_or_end
            && w.creation_flow_segment == epoch,
    }
}

/// Whether the construction window is live at `epoch`.
pub fn construction_window_is_live(construction: &OpenClusterConstruction, epoch: ResidualRuntimeEpoch) -> (r:
    bool)
    ensures
        r == window_live_spec(construction.state, construction.window, epoch),
{
    if construction.state != ConstructionState::Open {
        return false;
    }
    match construction.window {
        ConstructionWindow::Meta => true,
        ConstructionWindow::Ordinary(window) => !window.first_use_seen && !window.closed_by_fork_or_end
            && window.creation_flow_segment == epoch,
    }
}

/// The open-here judgment for a Pattern owned by `construction`: its window
/// must be live and the evaluation context must own its authority. The proof
/// records the construction, the Pattern and the authority.
pub fn judge_open_here(
    construction: &OpenClusterConstruction,
    target_pattern: PatternValueId,
    epoch: ResidualRuntimeEpoch,
    context: &ConstructionEvaluationContext,
) -> (r: Result<OpenHereProof, OpenHereFailure>)
    ensures
        !window_live_spec(construction.state, construction.window, epoch) ==> r == Err::<
            OpenHereProof,
            OpenHereFailure,
        >(OpenHereFailure::WindowClosed(construction.id)),
        window_live_spec(construction.state, construction.window, epoch) && !authority_matches_spec(
            construction.authority,
            context.frames_spec(),
        ) ==> r == Err::<OpenHereProof, OpenHereFailure>(
            OpenHereFailure::AuthorityMismatch(construction.id),
        ),
        window_live_spec(construction.state, construction.window, epoch) && authority_matches_spec(
            construction.authority,
            context.frames_spec(),
        ) ==> (r matches Ok(proof) && proof.construction_spec() == construction.id
            && proof.target_pattern_spec() == target_pattern && proof.authority_spec()
            == construction.authority),
{
    if !construction_window_is_live(construction, epoch) {
        return Err(OpenHereFailure::WindowClosed(construction.id));
    }
    if !authority_matches_context(&construction.authority, context) {
        return Err(OpenHereFailure::AuthorityMismatch(construction.id));
    }
    Ok(OpenHereProof { construction: construction.id, target_pattern, authority: construction.authority })
}

/// The member-creation judgment: the open-here judgment, wrapped as its own
/// evidence.
pub fn judge_member_creation(
    construction: &OpenClusterConstruction,
    target_pattern: PatternValueId,
    epoch: ResidualRuntimeEpoch,
    context: &ConstructionEvaluationContext,
) -> (r: Result<MemberCreationProof, OpenHereFailure>)
    ensures
        !window_live_spec(construction.state, construction.window, epoch) ==> r == Err::<
            MemberCreationProof,
            OpenHereFailure,
        >(OpenHereFailure::WindowClosed(construction.id)),
        window_live_spec(construction.state, construction.window, epoch) && !authority_matches_spec(
            construction.authority,
            context.frames_spec(),
        ) ==> r == Err::<MemberCreationProof, OpenHereFailure>(
            OpenHereFailure::AuthorityMismatch(construction.id),
        ),
        window_live_spec(construction.state, construction.window, epoch) && authority_matches_spec(
            construction.authority,
            context.frames_spec(),
        ) ==> (r matches Ok(proof) && proof.open_here_spec().construction_spec() == construction.id
            && proof.open_here_spec().target_pattern_spec() == target_pattern
            && proof.open_here_spec().authority_spec() == construction.authority),
{
    match judge_open_here(construction, target_pattern, epoch, context) {
        Ok(open_here) => Ok(MemberCreationProof { open_here }),
        Err(failure) => Err(failure),
    }
}

#[derive(Clone, Debug, PartialEq, Eq)]
pub enum BindConflict {
    NoNamespaceOwner,
    ValueNotInstalled,
    AlreadyBound { name: String, identity: SemanticSymbolIdentity },
}

/// Semantic facts materialized for one source callable declaration.
#[derive(Clone, Copy, Debug, PartialEq, Eq, Structural)]
pub struct RegisteredCallable {
    pub symbol: SemanticSymbolIdentity,
    pub function_value: SemanticValueId,
    pub function_type: TypeValueId,
    pub function_pattern: PatternValueId,
    pub pattern_scope: ResolvedPatternScopeId,
    pub call_entry: SemanticValueId,
}

/// The derived cluster Policy of a non-empty member ledger is the least
/// Policy admitting every member view's Policy:
/// `P_cluster = P_member_1 || ... || P_member_n`.
pub proof fn lemma_cluster_policy_least_upper_bound(
    views: Seq<PolicyResultEntry<SemanticValueId, PatternValueId>>,
    n: int,
    c: PolicyPair,
)
    requires
        0 < n <= views.len(),
    ensures
        cluster_policy_spec(views, n) is Some,
        forall|i: int| 0 <= i < n ==> policy_le(#[trigger] views[i].view.pair, cluster_policy_spec(views, n)->0),
        (forall|i: int| 0 <= i < n ==> policy_le(#[trigger] views[i].view.pair, c)) ==> policy_le(
            cluster_policy_spec(views, n)->0,
            c,
        ),
    decreases n,
{
    let member = views[n - 1].view.pair;
    if n == 1 {
        lemma_policy_le_partial_order(member, member, c);
    } else {
        lemma_cluster_policy_least_upper_bound(views, n - 1, c);
        let prefix = cluster_policy_spec(views, n - 1)->0;
        let folded = policy_or_spec(prefix, member);
        lemma_policy_or_least_upper_bound(prefix, member, c);
        assert forall|i: int| 0 <= i < n implies policy_le(#[trigger] views[i].view.pair, folded) by {
            if i < n - 1 {
                lemma_policy_le_partial_order(views[i].view.pair, prefix, folded);
            }
        }
        if forall|i: int| 0 <= i < n ==> policy_le(#[trigger] views[i].view.pair, c) {
            assert forall|i: int| 0 <= i < n - 1 implies policy_le(#[trigger] views[i].view.pair, c) by {}
        }
    }
}

/// A meta invocation masks every outer construction authority: when the
/// nearest frame is a meta frame other than the target, the context owns
/// no other authority.
pub proof fn lemma_meta_frame_masks(target: ConstructionAuthority, frames: Seq<ConstructionAuthority>)
    requires
        frames.len() > 0,
        frames[0] is MetaInvocation,
        frames[0] != target,
    ensures
        !authority_matches_spec(target, frames),
{
}

/// A context whose nearest frame is the target authority owns it.
pub proof fn lemma_nearest_frame_owns(target: ConstructionAuthority, frames: Seq<ConstructionAuthority>)
    requires
        frames.len() > 0,
        frames[0] == target,
    ensures
        authority_matches_spec(target, frames),
{
}

/// A derived view completed by an explicit P1 selection: each written
/// dimension replaces the derived one.
pub open spec fn complete_view_spec(selection: ExplicitP1Selection, derived: PolicyView) -> PolicyView {
    PolicyView {
        pair: PolicyPair {
            value: crate::policy_pair::ValueComponentPolicy {
                stages: match selection.value_stages {
                    Some(stages) => stages,
                    None => derived.pair.value.stages,
                },
                presence: match selection.presence {
                    Some(presence) => presence,
                    None => derived.pair.value.presence,
                },
            },
            pattern: crate::policy_pair::PatternComponentPolicy {
                stages: match selection.pattern_stages {
                    Some(stages) => stages,
                    None => derived.pair.pattern.stages,
                },
            },
        },
        mode: match selection.mode {
            Some(mode) => mode,
            None => derived.mode,
        },
    }
}

/// The canonical P1 view of a function object from its outer explicit P1
/// and its written-self P1: each completes the derived view; when both are
/// written they must complete to the same view; an absent value must carry
/// no stages.
pub open spec fn canonical_view_spec(
    outer: Option<ExplicitP1Selection>,
    written_self: Option<ExplicitP1Selection>,
    derived: PolicyView,
) -> Result<PolicyView, DiagnosticKind> {
    let canonical = match (outer, written_self) {
        (Some(o), Some(w)) => if complete_view_spec(o, derived) != complete_view_spec(w, derived) {
            None
        } else {
            Some(complete_view_spec(o, derived))
        },
        (Some(o), None) => Some(complete_view_spec(o, derived)),
        (None, Some(w)) => Some(complete_view_spec(w, derived)),
        (None, None) => Some(derived),
    };
    match canonical {
        None => Err(DiagnosticKind::CanonicalP1Mismatch),
        Some(view) => if view.pair.value.presence == ValuePresence::Absent && !view.pair.value.stages.empty_spec() {
            Err(DiagnosticKind::CanonicalP1AbsentValueCarriesStages)
        } else {
            Ok(view)
        },
    }
}

fn complete_view(selection: &ExplicitP1Selection, derived: &PolicyView) -> (r: PolicyView)
    ensures
        r == complete_view_spec(*selection, *derived),
{
    let mut complete = *derived;
    if let Some(stages) = selection.value_stages {
        complete.pair.value.stages = stages;
    }
    if let Some(presence) = selection.presence {
        complete.pair.value.presence = presence;
    }
    if let Some(stages) = selection.pattern_stages {
        complete.pair.pattern.stages = stages;
    }
    if let Some(mode) = selection.mode {
        complete.mode = mode;
    }
    complete
}

/// The written policy of a closure's written self binder, if it has one.
pub open spec fn written_self_policy(closure: Option<NormClosure>) -> Option<NormPolicySpec> {
    match closure {
        Some(c) => match c.head {
            Some(head) => match head.written_self {
                Some(NormPatternElem::BindingSlot(slot)) => slot.policy,
                _ => None,
            },
            None => None,
        },
        None => None,
    }
}

/// The canonical P1 view of a function object. The written-self P1 spelling
/// (the policy of the closure head's written self binder, if any) is
/// elaborated against P2 first and its failure is reported; then the outer
/// and written-self selections complete the derived view and are reconciled.
pub fn canonical_function_object_view(
    outer_explicit: Option<&ExplicitP1Selection>,
    outer_derived: &PolicyView,
    p2: &PolicyView,
    closure: Option<&NormClosure>,
    provenance: &Provenance,
) -> (r: Result<PolicyView, Diagnostic>)
    ensures
        match explicit_p1_spec(
            written_self_policy(
                match closure {
                    Some(c) => Some(*c),
                    None => None,
                },
            ),
            ExplicitP1Position::WrittenSelf,
        ) {
            Err(kind) => r == Err::<PolicyView, Diagnostic>(Diagnostic { kind, provenance: Some(*provenance) }),
            Ok(self_selection) => match canonical_view_spec(
                match outer_explicit {
                    Some(o) => Some(*o),
                    None => None,
                },
                self_selection,
                *outer_derived,
            ) {
                Ok(view) => r == Ok::<PolicyView, Diagnostic>(view),
                Err(kind) => r == Err::<PolicyView, Diagnostic>(
                    Diagnostic { kind, provenance: Some(*provenance) },
                ),
            },
        },
{
    let written_self: Option<&NormPolicySpec> = match closure {
        Some(c) => match &c.head {
            Some(head) => match &head.written_self {
                Some(NormPatternElem::BindingSlot(slot)) => match &slot.policy {
                    Some(policy) => Some(policy),
                    None => None,
                },
                _ => None,
            },
            None => None,
        },
        None => None,
    };
    let self_explicit = match written_self {
        Some(spec) => match elaborate_explicit_p1(
            Some(spec),
            &p2.pair,
            ExplicitP1Position::WrittenSelf,
            provenance.copied(),
        ) {
            Err(d) => {
                return Err(d);
            },
            Ok(selection) => selection,
        },
        None => None,
    };
    let canonical = match (outer_explicit, self_explicit) {
        (Some(outer), Some(written)) => {
            let complete_outer = complete_view(outer, outer_derived);
            let complete_self = complete_view(&written, outer_derived);
            if complete_outer != complete_self {
                return Err(
                    Diagnostic::hard_error(DiagnosticKind::CanonicalP1Mismatch, Some(provenance.copied())),
                );
            }
            complete_outer
        },
        (Some(outer), None) => complete_view(outer, outer_derived),
        (None, Some(written)) => complete_view(&written, outer_derived),
        (None, None) => *outer_derived,
    };
    if canonical.pair.value.presence == ValuePresence::Absent && !canonical.pair.value.stages.is_empty() {
        return Err(
            Diagnostic::hard_error(
                DiagnosticKind::CanonicalP1AbsentValueCarriesStages,
                Some(provenance.copied()),
            ),
        );
    }
    Ok(canonical)
}

/// The resolved target of one source-level extraction: the Symbol it
/// denotes, that Symbol's Pattern, and the interned address of the Pattern's
/// canonical norm.
#[derive(Clone, Copy, Debug, PartialEq, Eq, Structural)]
pub struct ResolvedExtractionTarget {
    pub symbol: SemanticSymbolIdentity,
    pub pattern: PatternValueId,
    pub norm: CanonicalValueAddr,
}

} // verus!
