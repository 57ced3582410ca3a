//! Semantic ownership identity.
//!
//! Semantic identity is derived from an owner graph. Source files, byte
//! offsets, display paths and provenance never participate in equality.
//! Callable nesting and canonical meta invocation nesting use the same parent
//! relation.
use vstd::prelude::*;

use crate::norm_syntax::{HoleBinderId, NormSemanticOwnerId};
use crate::policy_pair::text_eq;
use std::collections::BTreeMap;

verus! {

#[derive(Clone, Copy, Debug, PartialEq, Eq, PartialOrd, Ord, Hash, Structural)]
pub struct PackageId(pub u64);

#[derive(Clone, Copy, Debug, PartialEq, Eq, PartialOrd, Ord, Hash, Structural)]
pub struct SemanticOwnerGraphId(u64);

impl SemanticOwnerGraphId {
    /// The raw identity number.
    pub closed spec fn raw(self) -> u64 {
        self.0
    }
}

#[derive(Clone, Copy, Debug, PartialEq, Eq, PartialOrd, Ord, Hash, Structural)]
pub struct SemanticOwnerId {
    pub graph: SemanticOwnerGraphId,
    pub local: u64,
}

#[derive(Clone, Copy, Debug, PartialEq, Eq, PartialOrd, Ord, Hash, Structural)]
pub struct LocalSymbolIdentity(pub u64);

#[derive(Clone, Copy, Debug, PartialEq, Eq, PartialOrd, Ord, Hash, Structural)]
pub struct LocalCallableIdentity(pub u64);

#[derive(Clone, Copy, Debug, PartialEq, Eq, PartialOrd, Ord, Hash, Structural)]
pub struct LocalGenerationIdentity(pub u64);

#[derive(Clone, Copy, Debug, PartialEq, Eq, PartialOrd, Ord, Hash, Structural)]
pub struct SemanticSymbolIdentity {
    pub owner: SemanticOwnerId,
    pub local: LocalSymbolIdentity,
}

/// The canonical material key of one meta invocation: the selected meta
/// callable value together with its canonical arguments.
#[derive(Clone, Copy, Debug, PartialEq, Eq, PartialOrd, Ord, Hash, Structural)]
pub struct MetaInvocationMaterialKey(pub u64);

/// Anonymous type available when a callable is materialized as a standalone
/// function object.
#[derive(Clone, Copy, Debug, PartialEq, Eq, PartialOrd, Ord, Hash, Structural)]
pub struct AnonymousCallableTypeId {
    pub callable_owner: SemanticOwnerId,
}

#[derive(Clone, Copy, Debug, PartialEq, Eq, PartialOrd, Ord, Hash, Structural)]
pub enum CallableReceiverTypeId {
    Anonymous(AnonymousCallableTypeId),
    Named(SemanticSymbolIdentity),
}

#[derive(Clone, Copy, Debug, PartialEq, Eq, PartialOrd, Ord, Hash, Structural)]
pub enum CallableReceiverBindingSource {
    StandaloneAnonymousDefault,
    AssociatedCallEntry,
}

/// Separates the callable body's lexical owner from the type of the caller
/// object injected into invocation-frame slot 0.
#[derive(Clone, Copy, Debug, PartialEq, Eq, PartialOrd, Ord, Hash, Structural)]
pub struct CallableReceiverBinding {
    pub callable_owner: SemanticOwnerId,
    pub receiver_type: CallableReceiverTypeId,
    pub source: CallableReceiverBindingSource,
}

/// Persistent build-side Pattern root identity.
#[derive(Clone, Copy, Debug, PartialEq, Eq, PartialOrd, Ord, Hash, Structural)]
pub struct ResolvedPatternRootId {
    pub owner: SemanticOwnerId,
    pub local_root: u32,
}

/// Persistent build-side hole identity.
#[derive(Clone, Copy, Debug, PartialEq, Eq, PartialOrd, Ord, Hash, Structural)]
pub struct ResolvedHoleBinderId {
    pub root: ResolvedPatternRootId,
    pub local_binder: u32,
}

#[derive(Clone, Copy, Debug, PartialEq, Eq, Structural)]
pub enum OwnerQualificationError {
    UnmappedFrontendOwner(NormSemanticOwnerId),
    ConflictingMapping { frontend: NormSemanticOwnerId, existing: SemanticOwnerId, replacement: SemanticOwnerId },
}

/// Explicit handoff from front-end callable owners to build-world semantic
/// owners.
///
/// A hole binder enters semantic state only once the exact front-end owner
/// of its Pattern root has a mapping, so no unrelated local ordinal can be
/// qualified by supplying an arbitrary persistent owner. Exact presence and
/// non-conflicting remapping are the invariants kept here; that the mapping
/// commutes with the parent relation is established by owner harvesting.
#[derive(Clone, Debug)]
pub struct SemanticOwnerQualification {
    mappings: BTreeMap<u64, SemanticOwnerId>,
}

/// The mapping after binding `frontend` to `resolved`, and the outcome: a
/// new front-end owner is mapped; a mapped one keeps its mapping, which is
/// an error when it differs from `resolved`.
pub open spec fn bind_spec(
    m: Map<u64, SemanticOwnerId>,
    frontend: NormSemanticOwnerId,
    resolved: SemanticOwnerId,
) -> (Map<u64, SemanticOwnerId>, Result<(), OwnerQualificationError>) {
    if m.contains_key(frontend.0) {
        let existing = m[frontend.0];
        (
            m,
            if existing == resolved {
                Ok(())
            } else {
                Err(OwnerQualificationError::ConflictingMapping { frontend, existing, replacement: resolved })
            },
        )
    } else {
        (m.insert(frontend.0, resolved), Ok(()))
    }
}

/// The persistent identity of a hole binder under mapping `m`.
pub open spec fn qualify_spec(m: Map<u64, SemanticOwnerId>, hole: HoleBinderId) -> Result<
    ResolvedHoleBinderId,
    OwnerQualificationError,
> {
    if m.contains_key(hole.root.owner.0) {
        Ok(
            ResolvedHoleBinderId {
                root: ResolvedPatternRootId { owner: m[hole.root.owner.0], local_root: hole.root.local_root },
                local_binder: hole.local_ordinal,
            },
        )
    } else {
        Err(OwnerQualificationError::UnmappedFrontendOwner(hole.root.owner))
    }
}

impl SemanticOwnerQualification {
    /// The mapping, keyed by front-end owner number.
    pub closed spec fn view(&self) -> Map<u64, SemanticOwnerId> {
        self.mappings@
    }

    pub fn new() -> (r: SemanticOwnerQualification)
        ensures
            r@ == Map::<u64, SemanticOwnerId>::empty(),
    {
        SemanticOwnerQualification { mappings: BTreeMap::new() }
    }

    /// Map `frontend` to `resolved`; remapping to another owner is refused
    /// and changes nothing.
    pub fn bind(&mut self, frontend: NormSemanticOwnerId, resolved: SemanticOwnerId) -> (r: Result<
        (),
        OwnerQualificationError,
    >)
        ensures
            (final(self)@, r) == bind_spec(old(self)@, frontend, resolved),
    {
        broadcast use vstd::laws_cmp::group_laws_cmp;

        match self.mappings.get(&frontend.0) {
            Some(existing) => {
                let existing = *existing;
                if existing == resolved {
                    Ok(())
                } else {
                    Err(OwnerQualificationError::ConflictingMapping { frontend, existing, replacement: resolved })
                }
            },
            None => {
                self.mappings.insert(frontend.0, resolved);
                Ok(())
            },
        }
    }

    /// The persistent identity of a hole binder whose root owner is mapped.
    pub fn qualify_hole(&self, frontend: HoleBinderId) -> (r: Result<ResolvedHoleBinderId, OwnerQualificationError>)
        ensures
            r == qualify_spec(self@, frontend),
    {
        broadcast use vstd::laws_cmp::group_laws_cmp;

        let frontend_root = frontend.pattern_root();
        let owner = match self.mappings.get(&frontend_root.owner.0) {
            Some(owner) => *owner,
            None => {
                return Err(OwnerQualificationError::UnmappedFrontendOwner(frontend_root.owner));
            },
        };
        Ok(
            ResolvedHoleBinderId {
                root: ResolvedPatternRootId { owner, local_root: frontend_root.local_root },
                local_binder: frontend.local_ordinal(),
            },
        )
    }
}

impl Default for SemanticOwnerQualification {
    fn default() -> (r: SemanticOwnerQualification)
        ensures
            r@ == Map::<u64, SemanticOwnerId>::empty(),
    {
        SemanticOwnerQualification::new()
    }
}

/// Once a front-end owner is bound, every hole binder rooted at it
/// qualifies to the bound persistent owner, with its local ordinals kept.
pub proof fn lemma_bound_owner_qualifies(
    m: Map<u64, SemanticOwnerId>,
    frontend: NormSemanticOwnerId,
    resolved: SemanticOwnerId,
    hole: HoleBinderId,
)
    requires
        bind_spec(m, frontend, resolved).1 is Ok,
        hole.root.owner == frontend,
    ensures
        qualify_spec(bind_spec(m, frontend, resolved).0, hole) == Ok::<
            ResolvedHoleBinderId,
            OwnerQualificationError,
        >(
            ResolvedHoleBinderId {
                root: ResolvedPatternRootId { owner: resolved, local_root: hole.root.local_root },
                local_binder: hole.local_ordinal,
            },
        ),
{
}

/// Binding a front-end owner to the owner it is already mapped to succeeds
/// and changes nothing; binding it to another one is refused and changes
/// nothing.
pub proof fn lemma_rebinding_keeps_mapping(
    m: Map<u64, SemanticOwnerId>,
    frontend: NormSemanticOwnerId,
    resolved: SemanticOwnerId,
    other: SemanticOwnerId,
)
    requires
        bind_spec(m, frontend, resolved).1 is Ok,
    ensures
        bind_spec(bind_spec(m, frontend, resolved).0, frontend, resolved) == (
            bind_spec(m, frontend, resolved).0,
            Ok::<(), OwnerQualificationError>(()),
        ),
        other != resolved ==> bind_spec(bind_spec(m, frontend, resolved).0, frontend, other).0 == bind_spec(
            m,
            frontend,
            resolved,
        ).0,
        other != resolved ==> bind_spec(bind_spec(m, frontend, resolved).0, frontend, other).1 is Err,
{
}

#[derive(Clone, Copy, Debug, PartialEq, Eq, Structural)]
pub enum CallableOwnerPlacement {
    InPlace,
    Ordinary,
}

#[derive(Clone, Debug, PartialEq, Eq)]
pub enum SemanticOwnerKind {
    PackageRoot { package: PackageId, display_name: String },
    Namespace { local_name: String },
    Callable { local_callable: LocalCallableIdentity, placement: CallableOwnerPlacement },
    MetaInstance { material_key: MetaInvocationMaterialKey },
    Generated { local_generation: LocalGenerationIdentity },
}

#[derive(Clone, Debug, PartialEq, Eq)]
pub struct SemanticOwnerNode {
    pub id: SemanticOwnerId,
    pub parent: Option<SemanticOwnerId>,
    pub package: PackageId,
    pub kind: SemanticOwnerKind,
}

/// One build-snapshot-local semantic owner forest. Owners are allocated in
/// order; each one's parent was allocated before it. Interning by key returns
/// the owner first allocated for that key.
#[derive(Clone, Debug)]
pub struct SemanticOwnerGraph {
    graph_id: SemanticOwnerGraphId,
    nodes: Vec<SemanticOwnerNode>,
    next_owner: u64,
}

/// The first index from `i` on whose node satisfies `pred`.
pub open spec fn first_match(
    nodes: Seq<SemanticOwnerNode>,
    pred: spec_fn(SemanticOwnerNode) -> bool,
    i: int,
) -> Option<int>
    decreases nodes.len() - i,
{
    if i < 0 || i >= nodes.len() {
        None
    } else if pred(nodes[i]) {
        Some(i)
    } else {
        first_match(nodes, pred, i + 1)
    }
}

/// The package root of `package`.
pub open spec fn is_package_root_for(node: SemanticOwnerNode, package: PackageId) -> bool {
    &&& node.parent is None
    &&& node.kind matches SemanticOwnerKind::PackageRoot { package: p, .. }
    &&& p == package
}

/// The namespace `name` below `parent`.
pub open spec fn is_namespace_for(node: SemanticOwnerNode, parent: SemanticOwnerId, name: Seq<char>) -> bool {
    &&& node.parent == Some(parent)
    &&& node.kind matches SemanticOwnerKind::Namespace { local_name }
    &&& local_name@ == name
}

/// The callable `local` below `parent`.
pub open spec fn is_callable_for(
    node: SemanticOwnerNode,
    parent: SemanticOwnerId,
    local: LocalCallableIdentity,
) -> bool {
    &&& node.parent == Some(parent)
    &&& node.kind matches SemanticOwnerKind::Callable { local_callable, .. }
    &&& local_callable == local
}

/// The meta instance of `key` below `parent`.
pub open spec fn is_meta_instance_for(
    node: SemanticOwnerNode,
    parent: SemanticOwnerId,
    key: MetaInvocationMaterialKey,
) -> bool {
    &&& node.parent == Some(parent)
    &&& node.kind matches SemanticOwnerKind::MetaInstance { material_key }
    &&& material_key == key
}

/// The generated owner `local` below `parent`.
pub open spec fn is_generated_for(
    node: SemanticOwnerNode,
    parent: SemanticOwnerId,
    local: LocalGenerationIdentity,
) -> bool {
    &&& node.parent == Some(parent)
    &&& node.kind matches SemanticOwnerKind::Generated { local_generation }
    &&& local_generation == local
}

/// Whether two owners are interned under the same key: the same parent and
/// the same package, local name, local callable, material key or local
/// generation.
pub open spec fn same_interning_key(a: SemanticOwnerNode, b: SemanticOwnerNode) -> bool {
    a.parent == b.parent && match (a.kind, b.kind) {
        (
            SemanticOwnerKind::PackageRoot { package: p, .. },
            SemanticOwnerKind::PackageRoot { package: q, .. },
        ) => p == q,
        (SemanticOwnerKind::Namespace { local_name: x }, SemanticOwnerKind::Namespace { local_name: y }) => x@
            == y@,
        (
            SemanticOwnerKind::Callable { local_callable: x, .. },
            SemanticOwnerKind::Callable { local_callable: y, .. },
        ) => x == y,
        (
            SemanticOwnerKind::MetaInstance { material_key: x },
            SemanticOwnerKind::MetaInstance { material_key: y },
        ) => x == y,
        (
            SemanticOwnerKind::Generated { local_generation: x },
            SemanticOwnerKind::Generated { local_generation: y },
        ) => x == y,
        _ => false,
    }
}

/// Whether the owner kind is a callable.
pub open spec fn is_callable_kind(kind: SemanticOwnerKind) -> bool {
    kind matches SemanticOwnerKind::Callable { .. }
}

impl SemanticOwnerGraph {
    pub closed spec fn graph_id_spec(&self) -> SemanticOwnerGraphId {
        self.graph_id
    }

    /// The allocated owners, in allocation order.
    pub closed spec fn nodes_spec(&self) -> Seq<SemanticOwnerNode> {
        self.nodes@
    }

    /// The id the next allocation receives.
    pub open spec fn next_id(&self) -> SemanticOwnerId {
        SemanticOwnerId { graph: self.graph_id_spec(), local: self.nodes_spec().len() as u64 }
    }

    /// Each owner's id is its allocation index in this graph, its parent was
    /// allocated before it and has its package, and no two owners share an
    /// interning key.
    pub closed spec fn well_formed(&self) -> bool {
        &&& self.next_owner == self.nodes@.len()
        &&& forall|k: int|
            0 <= k < self.nodes@.len() ==> (#[trigger] self.nodes@[k]).id == SemanticOwnerId {
                graph: self.graph_id,
                local: k as u64,
            } && match self.nodes@[k].parent {
                Some(p) => p.graph == self.graph_id && p.local < k && self.nodes@[p.local as int].package
                    == self.nodes@[k].package,
                None => true,
            }
        &&& forall|i: int, j: int|
            0 <= i < j < self.nodes@.len() ==> !same_interning_key(#[trigger] self.nodes@[i], #[trigger] self.nodes@[j])
    }

    /// Every owner of a well-formed graph has its parent's package, and no two
    /// owners share an interning key.
    pub proof fn lemma_well_formed_facts(&self)
        requires
            self.well_formed(),
        ensures
            forall|k: int|
                0 <= k < self.nodes_spec().len() ==> match (#[trigger] self.nodes_spec()[k]).parent {
                    Some(p) => self.node_spec(p) matches Some(parent) && parent.package
                        == self.nodes_spec()[k].package,
                    None => true,
                },
            forall|i: int, j: int|
                0 <= i < j < self.nodes_spec().len() ==> !same_interning_key(
                    #[trigger] self.nodes_spec()[i],
                    #[trigger] self.nodes_spec()[j],
                ),
    {
    }

    /// The node of `owner`, when it belongs to this graph.
    pub open spec fn node_spec(&self, owner: SemanticOwnerId) -> Option<SemanticOwnerNode> {
        if owner.graph == self.graph_id_spec() && owner.local < self.nodes_spec().len() {
            Some(self.nodes_spec()[owner.local as int])
        } else {
            None
        }
    }

    /// The parent of `owner`, when it is an owner with an earlier parent.
    pub open spec fn parent_spec(&self, owner: SemanticOwnerId) -> Option<SemanticOwnerId> {
        match self.node_spec(owner) {
            Some(node) => node.parent,
            None => None,
        }
    }

    /// Whether `ancestor` is on the parent chain of `descendant`.
    pub open spec fn ancestor_or_self_spec(&self, ancestor: SemanticOwnerId, descendant: SemanticOwnerId) -> bool
        decreases descendant.local,
    {
        if ancestor == descendant {
            true
        } else {
            match self.parent_spec(descendant) {
                Some(p) => if p.local < descendant.local {
                    self.ancestor_or_self_spec(ancestor, p)
                } else {
                    false
                },
                None => false,
            }
        }
    }

    /// The callable owners on the parent chain of `owner`, innermost first.
    pub open spec fn callable_chain(&self, owner: SemanticOwnerId) -> Seq<SemanticOwnerId>
        decreases owner.local,
    {
        let here = match self.node_spec(owner) {
            Some(node) => if is_callable_kind(node.kind) {
                seq![owner]
            } else {
                Seq::empty()
            },
            None => Seq::empty(),
        };
        match self.parent_spec(owner) {
            Some(p) => if p.local < owner.local {
                here + self.callable_chain(p)
            } else {
                here
            },
            None => here,
        }
    }

    /// The owner interned for a key: the first allocated owner matching it.
    pub open spec fn interned(&self, pred: spec_fn(SemanticOwnerNode) -> bool) -> Option<SemanticOwnerId> {
        match first_match(self.nodes_spec(), pred, 0) {
            Some(i) => Some(self.nodes_spec()[i].id),
            None => None,
        }
    }

    /// The graph after interning a fresh owner: one node appended, with the
    /// next id.
    pub open spec fn appended(
        &self,
        next: &SemanticOwnerGraph,
        parent: Option<SemanticOwnerId>,
        package: PackageId,
        kind: SemanticOwnerKind,
    ) -> bool {
        &&& next.graph_id_spec() == self.graph_id_spec()
        &&& next.nodes_spec() == self.nodes_spec().push(
            SemanticOwnerNode { id: self.next_id(), parent, package, kind },
        )
    }

    /// An empty owner graph with the given identity.
    pub fn new(graph_id: u64) -> (r: SemanticOwnerGraph)
        ensures
            r.well_formed(),
            r.graph_id_spec().raw() == graph_id,
            r.nodes_spec().len() == 0,
    {
        SemanticOwnerGraph { graph_id: SemanticOwnerGraphId(graph_id), nodes: Vec::new(), next_owner: 0 }
    }

    fn allocate(&mut self, parent: Option<SemanticOwnerId>, package: PackageId, kind: SemanticOwnerKind) -> (r:
        SemanticOwnerId)
        requires
            old(self).well_formed(),
            old(self).nodes_spec().len() < u64::MAX,
            match parent {
                Some(p) => old(self).node_spec(p) matches Some(node) && node.package == package,
                None => true,
            },
            forall|i: int|
                0 <= i < old(self).nodes_spec().len() ==> !same_interning_key(
                    #[trigger] old(self).nodes_spec()[i],
                    SemanticOwnerNode { id: old(self).next_id(), parent, package, kind },
                ),
        ensures
            final(self).well_formed(),
            r == old(self).next_id(),
            old(self).appended(&*final(self), parent, package, kind),
    {
        let id = SemanticOwnerId { graph: self.graph_id, local: self.next_owner };
        self.next_owner = self.next_owner + 1;
        self.nodes.push(SemanticOwnerNode { id, parent, package, kind });
        id
    }

    fn find_package_root(&self, package: PackageId) -> (r: Option<usize>)
        ensures
            match r {
                Some(i) => first_match(self.nodes_spec(), |n: SemanticOwnerNode| is_package_root_for(n, package), 0)
                    == Some(i as int) && i < self.nodes_spec().len(),
                None => first_match(
                    self.nodes_spec(),
                    |n: SemanticOwnerNode| is_package_root_for(n, package),
                    0,
                ) is None,
            },
    {
        let ghost pred = |n: SemanticOwnerNode| is_package_root_for(n, package);
        let mut i: usize = 0;
        while i < self.nodes.len()
            invariant
                i <= self.nodes@.len(),
                pred == (|n: SemanticOwnerNode| is_package_root_for(n, package)),
                first_match(self.nodes@, pred, 0) == first_match(self.nodes@, pred, i as int),
            decreases self.nodes@.len() - i,
        {
            let node = &self.nodes[i];
            let hit = node.parent.is_none() && match &node.kind {
                SemanticOwnerKind::PackageRoot { package: p, .. } => *p == package,
                _ => false,
            };
            if hit {
                return Some(i);
            }
            i = i + 1;
        }
        None
    }

    fn find_namespace(&self, parent: SemanticOwnerId, name: &str) -> (r: Option<usize>)
        ensures
            match r {
                Some(i) => first_match(self.nodes_spec(), |n: SemanticOwnerNode| is_namespace_for(n, parent, name@), 0)
                    == Some(i as int) && i < self.nodes_spec().len(),
                None => first_match(
                    self.nodes_spec(),
                    |n: SemanticOwnerNode| is_namespace_for(n, parent, name@),
                    0,
                ) is None,
            },
    {
        let ghost pred = |n: SemanticOwnerNode| is_namespace_for(n, parent, name@);
        let mut i: usize = 0;
        while i < self.nodes.len()
            invariant
                i <= self.nodes@.len(),
                pred == (|n: SemanticOwnerNode| is_namespace_for(n, parent, name@)),
                first_match(self.nodes@, pred, 0) == first_match(self.nodes@, pred, i as int),
            decreases self.nodes@.len() - i,
        {
            let node = &self.nodes[i];
            let hit = node.parent == Some(parent) && match &node.kind {
                SemanticOwnerKind::Namespace { local_name } => text_eq(local_name.as_str(), name),
                _ => false,
            };
            if hit {
                return Some(i);
            }
            i = i + 1;
        }
        None
    }

    fn find_callable(&self, parent: SemanticOwnerId, local: LocalCallableIdentity) -> (r: Option<usize>)
        ensures
            match r {
                Some(i) => first_match(self.nodes_spec(), |n: SemanticOwnerNode| is_callable_for(n, parent, local), 0)
                    == Some(i as int) && i < self.nodes_spec().len(),
                None => first_match(
                    self.nodes_spec(),
                    |n: SemanticOwnerNode| is_callable_for(n, parent, local),
                    0,
                ) is None,
            },
    {
        let ghost pred = |n: SemanticOwnerNode| is_callable_for(n, parent, local);
        let mut i: usize = 0;
        while i < self.nodes.len()
            invariant
                i <= self.nodes@.len(),
                pred == (|n: SemanticOwnerNode| is_callable_for(n, parent, local)),
                first_match(self.nodes@, pred, 0) == first_match(self.nodes@, pred, i as int),
            decreases self.nodes@.len() - i,
        {
            let node = &self.nodes[i];
            let hit = node.parent == Some(parent) && match &node.kind {
                SemanticOwnerKind::Callable { local_callable, .. } => *local_callable == local,
                _ => false,
            };
            if hit {
                return Some(i);
            }
            i = i + 1;
        }
        None
    }

    fn find_meta_instance(&self, parent: SemanticOwnerId, key: MetaInvocationMaterialKey) -> (r: Option<usize>)
        ensures
            match r {
                Some(i) => first_match(
                    self.nodes_spec(),
                    |n: SemanticOwnerNode| is_meta_instance_for(n, parent, key),
                    0,
                ) == Some(i as int) && i < self.nodes_spec().len(),
                None => first_match(
                    self.nodes_spec(),
                    |n: SemanticOwnerNode| is_meta_instance_for(n, parent, key),
                    0,
                ) is None,
            },
    {
        let ghost pred = |n: SemanticOwnerNode| is_meta_instance_for(n, parent, key);
        let mut i: usize = 0;
        while i < self.nodes.len()
            invariant
                i <= self.nodes@.len(),
                pred == (|n: SemanticOwnerNode| is_meta_instance_for(n, parent, key)),
                first_match(self.nodes@, pred, 0) == first_match(self.nodes@, pred, i as int),
            decreases self.nodes@.len() - i,
        {
            let node = &self.nodes[i];
            let hit = node.parent == Some(parent) && match &node.kind {
                SemanticOwnerKind::MetaInstance { material_key } => *material_key == key,
                _ => false,
            };
            if hit {
                return Some(i);
            }
            i = i + 1;
        }
        None
    }

    fn find_generated(&self, parent: SemanticOwnerId, local: LocalGenerationIdentity) -> (r: Option<usize>)
        ensures
            match r {
                Some(i) => first_match(self.nodes_spec(), |n: SemanticOwnerNode| is_generated_for(n, parent, local), 0)
                    == Some(i as int) && i < self.nodes_spec().len(),
                None => first_match(
                    self.nodes_spec(),
                    |n: SemanticOwnerNode| is_generated_for(n, parent, local),
                    0,
                ) is None,
            },
    {
        let ghost pred = |n: SemanticOwnerNode| is_generated_for(n, parent, local);
        let mut i: usize = 0;
        while i < self.nodes.len()
            invariant
                i <= self.nodes@.len(),
                pred == (|n: SemanticOwnerNode| is_generated_for(n, parent, local)),
                first_match(self.nodes@, pred, 0) == first_match(self.nodes@, pred, i as int),
            decreases self.nodes@.len() - i,
        {
            let node = &self.nodes[i];
            let hit = node.parent == Some(parent) && match &node.kind {
                SemanticOwnerKind::Generated { local_generation } => *local_generation == local,
                _ => false,
            };
            if hit {
                return Some(i);
            }
            i = i + 1;
        }
        None
    }
}

/// Appending a node keeps every earlier first match, and makes the appended
/// node the first match of a key nothing earlier matched.
pub proof fn lemma_first_match_push(
    nodes: Seq<SemanticOwnerNode>,
    node: SemanticOwnerNode,
    pred: spec_fn(SemanticOwnerNode) -> bool,
    i: int,
)
    requires
        0 <= i <= nodes.len(),
    ensures
        first_match(nodes.push(node), pred, i) == match first_match(nodes, pred, i) {
            Some(j) => Some(j),
            None => if pred(node) {
                Some(nodes.len() as int)
            } else {
                None
            },
        },
    decreases nodes.len() - i,
{
    if i < nodes.len() {
        assert(nodes.push(node)[i] == nodes[i]);
        lemma_first_match_push(nodes, node, pred, i + 1);
    } else {
        assert(nodes.push(node)[i] == node);
        assert(first_match(nodes.push(node), pred, i + 1) is None);
        assert(first_match(nodes, pred, i) is None);
    }
}

/// Without a first match from `i` on, no node from `i` on satisfies the
/// predicate.
pub proof fn lemma_first_match_none(nodes: Seq<SemanticOwnerNode>, pred: spec_fn(SemanticOwnerNode) -> bool, i: int)
    requires
        0 <= i,
        first_match(nodes, pred, i) is None,
    ensures
        forall|k: int| i <= k < nodes.len() ==> !pred(#[trigger] nodes[k]),
    decreases nodes.len() - i,
{
    if i < nodes.len() {
        lemma_first_match_none(nodes, pred, i + 1);
    }
}

/// A first match satisfies its predicate and lies in range.
pub proof fn lemma_first_match_holds(nodes: Seq<SemanticOwnerNode>, pred: spec_fn(SemanticOwnerNode) -> bool, i: int)
    requires
        first_match(nodes, pred, i) is Some,
    ensures
        0 <= first_match(nodes, pred, i)->0 < nodes.len(),
        pred(nodes[first_match(nodes, pred, i)->0]),
    decreases nodes.len() - i,
{
    if i >= 0 && i < nodes.len() && !pred(nodes[i]) {
        lemma_first_match_holds(nodes, pred, i + 1);
    }
}

impl SemanticOwnerGraph {
    proof fn lemma_interned_after_append(
        &self,
        next: &SemanticOwnerGraph,
        parent: Option<SemanticOwnerId>,
        package: PackageId,
        kind: SemanticOwnerKind,
        pred: spec_fn(SemanticOwnerNode) -> bool,
    )
        requires
            self.appended(next, parent, package, kind),
            self.interned(pred) is None,
            pred(SemanticOwnerNode { id: self.next_id(), parent, package, kind }),
        ensures
            next.interned(pred) == Some(self.next_id()),
    {
        lemma_first_match_push(
            self.nodes_spec(),
            SemanticOwnerNode { id: self.next_id(), parent, package, kind },
            pred,
            0,
        );
    }

    /// A key nothing matches yet may be allocated: no node shares its key.
    proof fn lemma_fresh_key(&self, pred: spec_fn(SemanticOwnerNode) -> bool, node: SemanticOwnerNode)
        requires
            self.interned(pred) is None,
            forall|other: SemanticOwnerNode| same_interning_key(other, node) ==> #[trigger] pred(other),
        ensures
            forall|i: int|
                0 <= i < self.nodes_spec().len() ==> !same_interning_key(#[trigger] self.nodes_spec()[i], node),
    {
        lemma_first_match_none(self.nodes_spec(), pred, 0);
        assert forall|i: int| 0 <= i < self.nodes_spec().len() implies !same_interning_key(
            #[trigger] self.nodes_spec()[i],
            node,
        ) by {
            if same_interning_key(self.nodes_spec()[i], node) {
                assert(pred(self.nodes_spec()[i]));
            }
        }
    }

    /// The owner interned for a key is a node of the graph matching it, and a
    /// child has its parent's package.
    proof fn lemma_interned_node(&self, pred: spec_fn(SemanticOwnerNode) -> bool)
        requires
            self.well_formed(),
            self.interned(pred) is Some,
        ensures
            self.node_spec(self.interned(pred)->0) matches Some(node) && node.id == self.interned(pred)->0
                && pred(node) && match node.parent {
                Some(p) => self.node_spec(p) matches Some(parent) && parent.package == node.package,
                None => true,
            },
    {
        lemma_first_match_holds(self.nodes_spec(), pred, 0);
        let i = first_match(self.nodes_spec(), pred, 0)->0;
        assert(self.nodes@[i].id.local == i);
    }

    /// Intern the root owner of `package`; a package has one root.
    pub fn package_root(&mut self, package: PackageId, display_name: String) -> (r: SemanticOwnerId)
        requires
            old(self).well_formed(),
            old(self).interned(|n: SemanticOwnerNode| is_package_root_for(n, package)) is None
                ==> old(self).nodes_spec().len() < u64::MAX,
        ensures
            final(self).well_formed(),
            final(self).interned(|n: SemanticOwnerNode| is_package_root_for(n, package)) == Some(r),
            final(self).node_spec(r) matches Some(node) && node.id == r && is_package_root_for(node, package),
            match old(self).interned(|n: SemanticOwnerNode| is_package_root_for(n, package)) {
                Some(existing) => r == existing && *final(self) == *old(self),
                None => r == old(self).next_id() && old(self).appended(
                    &*final(self),
                    None,
                    package,
                    SemanticOwnerKind::PackageRoot { package, display_name },
                ),
            },
    {
        match self.find_package_root(package) {
            Some(i) => {
                proof {
                    self.lemma_interned_node(|n: SemanticOwnerNode| is_package_root_for(n, package));
                }
                return self.nodes[i].id;
            },
            None => {},
        }
        let ghost before = *self;
        proof {
            let node = SemanticOwnerNode {
                id: self.next_id(),
                parent: None,
                package,
                kind: SemanticOwnerKind::PackageRoot { package, display_name },
            };
            assert forall|other: SemanticOwnerNode| same_interning_key(other, node) implies #[trigger] is_package_root_for(
                other,
                package,
            ) by {}
            self.lemma_fresh_key(|n: SemanticOwnerNode| is_package_root_for(n, package), node);
        }
        let owner = self.allocate(None, package, SemanticOwnerKind::PackageRoot { package, display_name });
        proof {
            before.lemma_interned_after_append(
                &*self,
                None,
                package,
                SemanticOwnerKind::PackageRoot { package, display_name },
                |n: SemanticOwnerNode| is_package_root_for(n, package),
            );
        }
        owner
    }

    /// Intern the namespace `local_name` below `parent`.
    pub fn namespace(&mut self, parent: SemanticOwnerId, local_name: String) -> (r: SemanticOwnerId)
        requires
            old(self).well_formed(),
            old(self).node_spec(parent) is Some,
            old(self).interned(|n: SemanticOwnerNode| is_namespace_for(n, parent, local_name@)) is None
                ==> old(self).nodes_spec().len() < u64::MAX,
        ensures
            final(self).well_formed(),
            final(self).interned(|n: SemanticOwnerNode| is_namespace_for(n, parent, local_name@)) == Some(r),
            final(self).node_spec(r) matches Some(node) && node.id == r && is_namespace_for(node, parent, local_name@)
                && node.package == old(self).node_spec(parent)->0.package,
            match old(self).interned(|n: SemanticOwnerNode| is_namespace_for(n, parent, local_name@)) {
                Some(existing) => r == existing && *final(self) == *old(self),
                None => r == old(self).next_id() && old(self).appended(
                    &*final(self),
                    Some(parent),
                    old(self).node_spec(parent)->0.package,
                    SemanticOwnerKind::Namespace { local_name },
                ),
            },
    {
        match self.find_namespace(parent, local_name.as_str()) {
            Some(i) => {
                proof {
                    self.lemma_interned_node(|n: SemanticOwnerNode| is_namespace_for(n, parent, local_name@));
                }
                return self.nodes[i].id;
            },
            None => {},
        }
        let package = self.package_of(parent);
        let ghost before = *self;
        let ghost kind = SemanticOwnerKind::Namespace { local_name };
        proof {
            let node = SemanticOwnerNode { id: self.next_id(), parent: Some(parent), package, kind: kind };
            assert forall|other: SemanticOwnerNode| same_interning_key(other, node) implies #[trigger] is_namespace_for(other, parent, local_name@) by {}
            self.lemma_fresh_key(|n: SemanticOwnerNode| is_namespace_for(n, parent, local_name@), node);
        }
        let owner = self.allocate(Some(parent), package, SemanticOwnerKind::Namespace { local_name });
        proof {
            before.lemma_interned_after_append(
                &*self,
                Some(parent),
                package,
                kind,
                |n: SemanticOwnerNode| is_namespace_for(n, parent, local_name@),
            );
        }
        owner
    }

    /// Intern the callable `local_callable` below `parent`. One local callable
    /// identity has one placement.
    pub fn callable(
        &mut self,
        parent: SemanticOwnerId,
        local_callable: LocalCallableIdentity,
        placement: CallableOwnerPlacement,
    ) -> (r: SemanticOwnerId)
        requires
            old(self).well_formed(),
            old(self).node_spec(parent) is Some,
            match old(self).interned(|n: SemanticOwnerNode| is_callable_for(n, parent, local_callable)) {
                Some(existing) => old(self).node_spec(existing) matches Some(node) && node.kind
                    == (SemanticOwnerKind::Callable { local_callable, placement }),
                None => old(self).nodes_spec().len() < u64::MAX,
            },
        ensures
            final(self).well_formed(),
            final(self).interned(|n: SemanticOwnerNode| is_callable_for(n, parent, local_callable)) == Some(
                r,
            ),
            final(self).node_spec(r) matches Some(node) && node.id == r && node.parent == Some(parent) && node.kind
                == (SemanticOwnerKind::Callable { local_callable, placement }) && node.package == old(
                self,
            ).node_spec(parent)->0.package,
            match old(self).interned(|n: SemanticOwnerNode| is_callable_for(n, parent, local_callable)) {
                Some(existing) => r == existing && *final(self) == *old(self),
                None => r == old(self).next_id() && old(self).appended(
                    &*final(self),
                    Some(parent),
                    old(self).node_spec(parent)->0.package,
                    SemanticOwnerKind::Callable { local_callable, placement },
                ),
            },
    {
        match self.find_callable(parent, local_callable) {
            Some(i) => {
                proof {
                    self.lemma_interned_node(|n: SemanticOwnerNode| is_callable_for(n, parent, local_callable));
                }
                return self.nodes[i].id;
            },
            None => {},
        }
        let package = self.package_of(parent);
        let ghost before = *self;
        proof {
            let node = SemanticOwnerNode { id: self.next_id(), parent: Some(parent), package, kind: SemanticOwnerKind::Callable { local_callable, placement } };
            assert forall|other: SemanticOwnerNode| same_interning_key(other, node) implies #[trigger] is_callable_for(other, parent, local_callable) by {}
            self.lemma_fresh_key(|n: SemanticOwnerNode| is_callable_for(n, parent, local_callable), node);
        }
        let owner = self.allocate(
            Some(parent),
            package,
            SemanticOwnerKind::Callable { local_callable, placement },
        );
        proof {
            before.lemma_interned_after_append(
                &*self,
                Some(parent),
                package,
                SemanticOwnerKind::Callable { local_callable, placement },
                |n: SemanticOwnerNode| is_callable_for(n, parent, local_callable),
            );
        }
        owner
    }

    /// Intern a canonical meta invocation below `parent`. The same material
    /// key returns the same owner; a different key gives a distinct owner.
    pub fn meta_instance(&mut self, parent: SemanticOwnerId, material_key: MetaInvocationMaterialKey) -> (r:
        SemanticOwnerId)
        requires
            old(self).well_formed(),
            old(self).node_spec(parent) is Some,
            old(self).interned(|n: SemanticOwnerNode| is_meta_instance_for(n, parent, material_key)) is None
                ==> old(self).nodes_spec().len() < u64::MAX,
        ensures
            final(self).well_formed(),
            final(self).interned(|n: SemanticOwnerNode| is_meta_instance_for(n, parent, material_key))
                == Some(r),
            final(self).node_spec(r) matches Some(node) && node.id == r && is_meta_instance_for(node, parent, material_key)
                && node.package == old(self).node_spec(parent)->0.package,
            match old(self).interned(|n: SemanticOwnerNode| is_meta_instance_for(n, parent, material_key)) {
                Some(existing) => r == existing && *final(self) == *old(self),
                None => r == old(self).next_id() && old(self).appended(
                    &*final(self),
                    Some(parent),
                    old(self).node_spec(parent)->0.package,
                    SemanticOwnerKind::MetaInstance { material_key },
                ),
            },
    {
        match self.find_meta_instance(parent, material_key) {
            Some(i) => {
                proof {
                    self.lemma_interned_node(|n: SemanticOwnerNode| is_meta_instance_for(n, parent, material_key));
                }
                return self.nodes[i].id;
            },
            None => {},
        }
        let package = self.package_of(parent);
        let ghost before = *self;
        proof {
            let node = SemanticOwnerNode { id: self.next_id(), parent: Some(parent), package, kind: SemanticOwnerKind::MetaInstance { material_key } };
            assert forall|other: SemanticOwnerNode| same_interning_key(other, node) implies #[trigger] is_meta_instance_for(other, parent, material_key) by {}
            self.lemma_fresh_key(|n: SemanticOwnerNode| is_meta_instance_for(n, parent, material_key), node);
        }
        let owner = self.allocate(Some(parent), package, SemanticOwnerKind::MetaInstance { material_key });
        proof {
            before.lemma_interned_after_append(
                &*self,
                Some(parent),
                package,
                SemanticOwnerKind::MetaInstance { material_key },
                |n: SemanticOwnerNode| is_meta_instance_for(n, parent, material_key),
            );
        }
        owner
    }

    /// Intern the generated owner `local_generation` below `parent`.
    pub fn generated(&mut self, parent: SemanticOwnerId, local_generation: LocalGenerationIdentity) -> (r:
        SemanticOwnerId)
        requires
            old(self).well_formed(),
            old(self).node_spec(parent) is Some,
            old(self).interned(|n: SemanticOwnerNode| is_generated_for(n, parent, local_generation)) is None
                ==> old(self).nodes_spec().len() < u64::MAX,
        ensures
            final(self).well_formed(),
            final(self).interned(|n: SemanticOwnerNode| is_generated_for(n, parent, local_generation))
                == Some(r),
            final(self).node_spec(r) matches Some(node) && node.id == r && is_generated_for(node, parent, local_generation)
                && node.package == old(self).node_spec(parent)->0.package,
            match old(self).interned(|n: SemanticOwnerNode| is_generated_for(n, parent, local_generation)) {
                Some(existing) => r == existing && *final(self) == *old(self),
                None => r == old(self).next_id() && old(self).appended(
                    &*final(self),
                    Some(parent),
                    old(self).node_spec(parent)->0.package,
                    SemanticOwnerKind::Generated { local_generation },
                ),
            },
    {
        match self.find_generated(parent, local_generation) {
            Some(i) => {
                proof {
                    self.lemma_interned_node(|n: SemanticOwnerNode| is_generated_for(n, parent, local_generation));
                }
                return self.nodes[i].id;
            },
            None => {},
        }
        let package = self.package_of(parent);
        let ghost before = *self;
        proof {
            let node = SemanticOwnerNode { id: self.next_id(), parent: Some(parent), package, kind: SemanticOwnerKind::Generated { local_generation } };
            assert forall|other: SemanticOwnerNode| same_interning_key(other, node) implies #[trigger] is_generated_for(other, parent, local_generation) by {}
            self.lemma_fresh_key(|n: SemanticOwnerNode| is_generated_for(n, parent, local_generation), node);
        }
        let owner = self.allocate(Some(parent), package, SemanticOwnerKind::Generated { local_generation });
        proof {
            before.lemma_interned_after_append(
                &*self,
                Some(parent),
                package,
                SemanticOwnerKind::Generated { local_generation },
                |n: SemanticOwnerNode| is_generated_for(n, parent, local_generation),
            );
        }
        owner
    }

    /// The node of `owner`.
    pub fn node(&self, owner: SemanticOwnerId) -> (r: Option<&SemanticOwnerNode>)
        ensures
            match self.node_spec(owner) {
                Some(node) => r matches Some(n) && *n == node,
                None => r is None,
            },
    {
        if owner.graph == self.graph_id && owner.local < self.nodes.len() as u64 {
            Some(&self.nodes[owner.local as usize])
        } else {
            None
        }
    }

    /// The package of a known owner.
    pub fn package_of(&self, owner: SemanticOwnerId) -> (r: PackageId)
        requires
            self.node_spec(owner) is Some,
        ensures
            r == self.node_spec(owner)->0.package,
    {
        let n = self.nodes.len();
        assert(owner.local < n);
        let index = owner.local as usize;
        self.nodes[index].package
    }

    /// The parent of `owner`, if it is an owner with one.
    pub fn parent(&self, owner: SemanticOwnerId) -> (r: Option<SemanticOwnerId>)
        ensures
            r == self.parent_spec(owner),
    {
        match self.node(owner) {
            Some(node) => node.parent,
            None => None,
        }
    }

    /// Whether `ancestor` is `descendant` or on its parent chain.
    pub fn is_ancestor_or_self(&self, ancestor: SemanticOwnerId, descendant: SemanticOwnerId) -> (r: bool)
        requires
            self.well_formed(),
        ensures
            r == self.ancestor_or_self_spec(ancestor, descendant),
    {
        let mut current = descendant;
        loop
            invariant
                self.well_formed(),
                self.ancestor_or_self_spec(ancestor, descendant) == self.ancestor_or_self_spec(
                    ancestor,
                    current,
                ),
            decreases current.local,
        {
            if current == ancestor {
                return true;
            }
            match self.parent(current) {
                Some(p) => {
                    proof {
                        let k = current.local as int;
                        assert(self.nodes@[k].id == current);
                    }
                    current = p;
                },
                None => {
                    return false;
                },
            }
        }
    }

    /// The anonymous receiver type of a callable owner.
    pub fn anonymous_callable_type(&self, owner: SemanticOwnerId) -> (r: Option<AnonymousCallableTypeId>)
        ensures
            r == (if self.node_spec(owner) matches Some(node) && is_callable_kind(node.kind) {
                Some(AnonymousCallableTypeId { callable_owner: owner })
            } else {
                None
            }),
    {
        match self.node(owner) {
            Some(node) => match &node.kind {
                SemanticOwnerKind::Callable { .. } => Some(AnonymousCallableTypeId { callable_owner: owner }),
                _ => None,
            },
            None => None,
        }
    }

    /// The default receiver binding of a callable materialized standalone.
    pub fn standalone_receiver_binding(&self, owner: SemanticOwnerId) -> (r: Option<CallableReceiverBinding>)
        ensures
            r == (if self.node_spec(owner) matches Some(node) && is_callable_kind(node.kind) {
                Some(
                    CallableReceiverBinding {
                        callable_owner: owner,
                        receiver_type: CallableReceiverTypeId::Anonymous(
                            AnonymousCallableTypeId { callable_owner: owner },
                        ),
                        source: CallableReceiverBindingSource::StandaloneAnonymousDefault,
                    },
                )
            } else {
                None
            }),
    {
        match self.anonymous_callable_type(owner) {
            Some(anonymous) => Some(
                CallableReceiverBinding {
                    callable_owner: owner,
                    receiver_type: CallableReceiverTypeId::Anonymous(anonymous),
                    source: CallableReceiverBindingSource::StandaloneAnonymousDefault,
                },
            ),
            None => None,
        }
    }

    /// The receiver binding of an associated call entry: a callable owner
    /// whose receiver is a named type of this graph.
    pub fn associated_call_entry_receiver_binding(
        &self,
        owner: SemanticOwnerId,
        receiver_type: SemanticSymbolIdentity,
    ) -> (r: Option<CallableReceiverBinding>)
        ensures
            r == (if self.node_spec(owner) matches Some(node) && is_callable_kind(node.kind)
                && receiver_type.owner.graph == self.graph_id_spec() {
                Some(
                    CallableReceiverBinding {
                        callable_owner: owner,
                        receiver_type: CallableReceiverTypeId::Named(receiver_type),
                        source: CallableReceiverBindingSource::AssociatedCallEntry,
                    },
                )
            } else {
                None
            }),
    {
        if self.anonymous_callable_type(owner).is_none() {
            return None;
        }
        if receiver_type.owner.graph == self.graph_id {
            Some(
                CallableReceiverBinding {
                    callable_owner: owner,
                    receiver_type: CallableReceiverTypeId::Named(receiver_type),
                    source: CallableReceiverBindingSource::AssociatedCallEntry,
                },
            )
        } else {
            None
        }
    }

    fn callable_path_from(&self, owner: SemanticOwnerId) -> (r: Vec<SemanticOwnerId>)
        requires
            self.well_formed(),
        ensures
            r@ == self.callable_chain(owner),
    {
        let mut components: Vec<SemanticOwnerId> = Vec::new();
        let mut current = owner;
        loop
            invariant
                self.well_formed(),
                components@ + self.callable_chain(current) == self.callable_chain(owner),
            decreases current.local,
        {
            let ghost before = components@;
            let is_callable = match self.node(current) {
                Some(node) => match &node.kind {
                    SemanticOwnerKind::Callable { .. } => true,
                    _ => false,
                },
                None => false,
            };
            if is_callable {
                components.push(current);
            }
            match self.parent(current) {
                Some(p) => {
                    proof {
                        let k = current.local as int;
                        assert(self.nodes@[k].id == current);
                        if is_callable {
                            assert(components@ + self.callable_chain(p) =~= before + self.callable_chain(
                                current,
                            ));
                        } else {
                            assert(components@ + self.callable_chain(p) =~= before + self.callable_chain(
                                current,
                            ));
                        }
                    }
                    current = p;
                },
                None => {
                    proof {
                        assert(components@ =~= before + self.callable_chain(current));
                    }
                    return components;
                },
            }
        }
    }

    /// The inner-to-outer callable-local `Self` path of a callable owner: one
    /// `Self` per callable on its parent chain. Diagnostic material only.
    pub fn printable_self_path(&self, owner: SemanticOwnerId) -> (r: Option<Vec<&'static str>>)
        requires
            self.well_formed(),
        ensures
            match self.anonymous_callable_spec(owner) {
                true => r matches Some(path) && path@.len() == self.callable_chain(owner).len() && forall|i: int|
                    0 <= i < path@.len() ==> path@[i]@ == "Self"@,
                false => r is None,
            },
    {
        if self.anonymous_callable_type(owner).is_none() {
            return None;
        }
        let owners = self.callable_path_from(owner);
        let mut components: Vec<&'static str> = Vec::new();
        let mut i: usize = 0;
        while i < owners.len()
            invariant
                i <= owners@.len(),
                components@.len() == i,
                forall|k: int| 0 <= k < i ==> components@[k]@ == "Self"@,
            decreases owners@.len() - i,
        {
            components.push("Self");
            i = i + 1;
        }
        Some(components)
    }

    /// Whether `owner` is a callable owner of this graph.
    pub open spec fn anonymous_callable_spec(&self, owner: SemanticOwnerId) -> bool {
        self.node_spec(owner) matches Some(node) && is_callable_kind(node.kind)
    }

    /// The exact callable-owner path of a callable owner, innermost first.
    pub fn callable_owner_path(&self, owner: SemanticOwnerId) -> (r: Option<Vec<SemanticOwnerId>>)
        requires
            self.well_formed(),
        ensures
            match self.anonymous_callable_spec(owner) {
                true => r matches Some(path) && path@ == self.callable_chain(owner),
                false => r is None,
            },
    {
        if self.anonymous_callable_type(owner).is_none() {
            return None;
        }
        Some(self.callable_path_from(owner))
    }
}

/// Interning distinguishes keys: two different meta material keys below
/// the same parent never share an owner, and an interned owner is a meta
/// instance of its key below its parent.
pub proof fn lemma_meta_instances_distinct(
    graph: SemanticOwnerGraph,
    parent: SemanticOwnerId,
    first: MetaInvocationMaterialKey,
    second: MetaInvocationMaterialKey,
)
    requires
        graph.well_formed(),
        graph.interned(|n: SemanticOwnerNode| is_meta_instance_for(n, parent, first)) is Some,
        graph.interned(|n: SemanticOwnerNode| is_meta_instance_for(n, parent, second)) is Some,
        first != second,
    ensures
        graph.interned(|n: SemanticOwnerNode| is_meta_instance_for(n, parent, first))
            != graph.interned(|n: SemanticOwnerNode| is_meta_instance_for(n, parent, second)),
{
    let p1 = |n: SemanticOwnerNode| is_meta_instance_for(n, parent, first);
    let p2 = |n: SemanticOwnerNode| is_meta_instance_for(n, parent, second);
    lemma_first_match_holds(graph.nodes_spec(), p1, 0);
    lemma_first_match_holds(graph.nodes_spec(), p2, 0);
    let i = first_match(graph.nodes_spec(), p1, 0)->0;
    let j = first_match(graph.nodes_spec(), p2, 0)->0;
    assert(graph.nodes_spec()[i].id.local == i);
    assert(graph.nodes_spec()[j].id.local == j);
}

/// Namespace interning distinguishes keys: two namespaces with different
/// parents or different local names never share an owner.
pub proof fn lemma_namespaces_distinct(
    graph: SemanticOwnerGraph,
    first_parent: SemanticOwnerId,
    first_name: Seq<char>,
    second_parent: SemanticOwnerId,
    second_name: Seq<char>,
)
    requires
        graph.well_formed(),
        graph.interned(|n: SemanticOwnerNode| is_namespace_for(n, first_parent, first_name)) is Some,
        graph.interned(|n: SemanticOwnerNode| is_namespace_for(n, second_parent, second_name)) is Some,
        first_parent != second_parent || first_name != second_name,
    ensures
        graph.interned(|n: SemanticOwnerNode| is_namespace_for(n, first_parent, first_name))
            != graph.interned(|n: SemanticOwnerNode| is_namespace_for(n, second_parent, second_name)),
{
    let p1 = |n: SemanticOwnerNode| is_namespace_for(n, first_parent, first_name);
    let p2 = |n: SemanticOwnerNode| is_namespace_for(n, second_parent, second_name);
    lemma_first_match_holds(graph.nodes_spec(), p1, 0);
    lemma_first_match_holds(graph.nodes_spec(), p2, 0);
    let i = first_match(graph.nodes_spec(), p1, 0)->0;
    let j = first_match(graph.nodes_spec(), p2, 0)->0;
    assert(graph.nodes_spec()[i].id.local == i);
    assert(graph.nodes_spec()[j].id.local == j);
}

/// Every owner is its own ancestor.
pub proof fn lemma_ancestor_or_self_reflexive(graph: SemanticOwnerGraph, owner: SemanticOwnerId)
    ensures
        graph.ancestor_or_self_spec(owner, owner),
{
}

} // verus!
