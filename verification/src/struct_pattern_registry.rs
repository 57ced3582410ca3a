//! Struct-construction pattern material and bounded lookup.
//!
//! `StructPatternMaterialId` is a build-local semantic identity for a
//! materialized struct pattern material. It is not a display name, not a
//! `TypeValueId`, and not a replacement for namespace/value lookup.
use vstd::prelude::*;

use crate::model::{Diagnostic, DiagnosticKind, FieldProjection, Provenance, SymbolId, TypeValueId};
use crate::norm_syntax::NormNavComponent;
use crate::policy_pair::text_eq;

verus! {

#[derive(Clone, Copy, Debug, PartialEq, Eq, PartialOrd, Ord, Hash, Structural)]
pub struct StructPatternMaterialId(pub u64);

#[derive(Clone, Copy, Debug, PartialEq, Eq, PartialOrd, Ord, Hash, Structural)]
pub struct LocalPatternPlaceId(pub u64);

/// Identity of one construction instance.
#[derive(Clone, Copy, Debug, PartialEq, Eq, PartialOrd, Ord, Hash, Structural)]
pub struct ConstructionInstanceId(pub u64);

/// Identity of one type definition instance.
#[derive(Clone, Copy, Debug, PartialEq, Eq, PartialOrd, Ord, Hash, Structural)]
pub struct TypeDefinitionInstanceId(pub u64);

#[derive(Clone, Copy, Debug, PartialEq, Eq, Structural)]
pub enum StructPatternMaterialKind {
    Owner,
    Field,
    Construction,
}

#[derive(Clone, Debug, PartialEq, Eq, PartialOrd, Ord)]
pub enum StructPatternMaterialOrigin {
    GlobalBinding { symbol_id: SymbolId },
    NamespaceBinding { namespace_symbol_id: SymbolId, symbol_id: SymbolId },
    LocalMaterialization { place_id: LocalPatternPlaceId, display_name: String },
    /// A field head. The field type is the evaluated type value, so a type
    /// alias and its spelling materialize the same head.
    Field {
        owner_head: StructPatternMaterialId,
        field_name: String,
        field_type_value: TypeValueId,
        projection: FieldProjection,
    },
    Construction { construction_instance_id: ConstructionInstanceId },
    StructDefinition { type_definition_id: TypeDefinitionInstanceId },
}

#[derive(Clone, Debug, PartialEq, Eq)]
pub struct StructPatternMaterial {
    pub id: StructPatternMaterialId,
    pub kind: StructPatternMaterialKind,
    pub origin: StructPatternMaterialOrigin,
    pub display_name: String,
    pub provenance: Provenance,
}

/// Construction context of struct pattern material. It records
/// materialization provenance and never defines Pattern applicability.
#[derive(Clone, Copy, Debug, PartialEq, Eq, Structural)]
pub enum StructPatternMaterialContext {
    Global { symbol_id: SymbolId },
    Namespace { namespace_symbol_id: SymbolId, symbol_id: SymbolId },
    Local { place_id: LocalPatternPlaceId },
    Construction { construction_instance_id: ConstructionInstanceId },
    StructDefinition { type_definition_id: TypeDefinitionInstanceId },
}

#[derive(Clone, Copy, Debug, PartialEq, Eq, Structural)]
pub enum StructPatternLookupExpectation {
    StructPatternMaterial,
    Constructor,
    ExtractionChild,
    TypePattern,
}

#[derive(Clone, Debug, PartialEq, Eq)]
pub struct StructFieldPatternMaterial {
    pub field_name: String,
    pub field_type_value: TypeValueId,
    pub projection: FieldProjection,
    pub provenance: Provenance,
}

#[derive(Clone, Debug, PartialEq, Eq)]
pub struct StructPatternMaterialization {
    pub owner_head: StructPatternMaterialId,
    pub field_heads: Vec<(String, StructPatternMaterialId)>,
}

/// Heads in allocation order (a head's id is its position), and explicit
/// navigation paths with the head each one names.
#[derive(Clone, Debug)]
pub struct StructPatternMaterialRegistry {
    next_id: u64,
    heads: Vec<StructPatternMaterial>,
    explicit_paths: Vec<(Vec<String>, StructPatternMaterialId)>,
}

#[derive(Clone, Debug)]
pub struct StructMaterializationState {
    pub pattern_materials: StructPatternMaterialRegistry,
}

/// Whether two origins are the same, names compared by their text.
pub open spec fn origin_matches(a: StructPatternMaterialOrigin, b: StructPatternMaterialOrigin) -> bool {
    match (a, b) {
        (
            StructPatternMaterialOrigin::GlobalBinding { symbol_id: x },
            StructPatternMaterialOrigin::GlobalBinding { symbol_id: y },
        ) => x == y,
        (
            StructPatternMaterialOrigin::NamespaceBinding { namespace_symbol_id: n1, symbol_id: s1 },
            StructPatternMaterialOrigin::NamespaceBinding { namespace_symbol_id: n2, symbol_id: s2 },
        ) => n1 == n2 && s1 == s2,
        (
            StructPatternMaterialOrigin::LocalMaterialization { place_id: p1, display_name: d1 },
            StructPatternMaterialOrigin::LocalMaterialization { place_id: p2, display_name: d2 },
        ) => p1 == p2 && d1@ == d2@,
        (
            StructPatternMaterialOrigin::Field {
                owner_head: o1,
                field_name: f1,
                field_type_value: t1,
                projection: p1,
            },
            StructPatternMaterialOrigin::Field {
                owner_head: o2,
                field_name: f2,
                field_type_value: t2,
                projection: p2,
            },
        ) => o1 == o2 && f1@ == f2@ && t1 == t2 && p1 == p2,
        (
            StructPatternMaterialOrigin::Construction { construction_instance_id: c1 },
            StructPatternMaterialOrigin::Construction { construction_instance_id: c2 },
        ) => c1 == c2,
        (
            StructPatternMaterialOrigin::StructDefinition { type_definition_id: t1 },
            StructPatternMaterialOrigin::StructDefinition { type_definition_id: t2 },
        ) => t1 == t2,
        _ => false,
    }
}

/// Whether an origin is the field `name` of `owner`.
pub open spec fn is_child_origin(origin: StructPatternMaterialOrigin, owner: StructPatternMaterialId, name: Seq<char>) -> bool {
    match origin {
        StructPatternMaterialOrigin::Field { owner_head, field_name, .. } => owner_head == owner
            && field_name@ == name,
        _ => false,
    }
}

/// Whether two origins are field origins under the same child key: the
/// same owner head and the same field name.
pub open spec fn same_child_key(a: StructPatternMaterialOrigin, b: StructPatternMaterialOrigin) -> bool {
    match (a, b) {
        (
            StructPatternMaterialOrigin::Field { owner_head: o1, field_name: f1, .. },
            StructPatternMaterialOrigin::Field { owner_head: o2, field_name: f2, .. },
        ) => o1 == o2 && f1@ == f2@,
        _ => false,
    }
}

/// The first head index from `i` on whose origin satisfies `pred`.
pub open spec fn first_head(
    heads: Seq<StructPatternMaterial>,
    pred: spec_fn(StructPatternMaterialOrigin) -> bool,
    i: int,
) -> Option<int>
    decreases heads.len() - i,
{
    if i < 0 || i >= heads.len() {
        None
    } else if pred(heads[i].origin) {
        Some(i)
    } else {
        first_head(heads, pred, i + 1)
    }
}

/// The text of each path component.
/// One pattern lookup request.
#[derive(Debug, PartialEq, Eq)]
pub enum StructPatternLookupInput {
    AutoName {
        name: String,
        current_scope: StructPatternMaterialId,
        expectation: StructPatternLookupExpectation,
        provenance: Provenance,
    },
    ExplicitNav {
        components: Vec<NormNavComponent>,
        explicit_terminated: bool,
        current_scope: Option<StructPatternMaterialId>,
        expectation: StructPatternLookupExpectation,
        provenance: Provenance,
    },
}

/// The names of an explicit navigation: names and operator spellings;
/// `None` when a component is a group or an error.
pub open spec fn explicit_nav_names_spec(components: Seq<NormNavComponent>) -> Option<Seq<String>>
    decreases components.len(),
{
    if components.len() == 0 {
        Some(Seq::empty())
    } else {
        match explicit_nav_names_spec(components.drop_last()) {
            None => None,
            Some(names) => match components.last() {
                NormNavComponent::Name { name, .. } => Some(names.push(name)),
                NormNavComponent::Operator { spelling, .. } => Some(names.push(spelling)),
                _ => None,
            },
        }
    }
}

fn explicit_nav_names(components: &[NormNavComponent]) -> (r: Option<Vec<String>>)
    ensures
        match explicit_nav_names_spec(components@) {
            Some(names) => r matches Some(v) && v@ == names,
            None => r is None,
        },
{
    let mut names: Vec<String> = Vec::new();
    for i in 0..components.len()
        invariant
            explicit_nav_names_spec(components@.take(i as int)) == Some(names@),
    {
        proof {
            assert(components@.take(i + 1).drop_last() =~= components@.take(i as int));
        }
        match &components[i] {
            NormNavComponent::Name { name, .. } => names.push(name.clone()),
            NormNavComponent::Operator { spelling, .. } => names.push(spelling.clone()),
            _ => {
                proof {
                    lemma_nav_names_none_stays(components@, i + 1, components@.len() as int);
                    assert(components@.take(components@.len() as int) =~= components@);
                }
                return None;
            },
        }
    }
    proof {
        assert(components@.take(components@.len() as int) =~= components@);
    }
    Some(names)
}

proof fn lemma_nav_names_none_stays(components: Seq<NormNavComponent>, k: int, m: int)
    requires
        0 <= k <= m <= components.len(),
        explicit_nav_names_spec(components.take(k)) is None,
    ensures
        explicit_nav_names_spec(components.take(m)) is None,
    decreases m - k,
{
    if k < m {
        lemma_nav_names_none_stays(components, k, m - 1);
        assert(components.take(m).drop_last() =~= components.take(m - 1));
    }
}

pub open spec fn path_text(components: Seq<String>) -> Seq<Seq<char>> {
    components.map_values(|c: String| c@)
}

/// The head registered for the first path entry from `i` on equal to `path`.
pub open spec fn path_entry(
    paths: Seq<(Vec<String>, StructPatternMaterialId)>,
    path: Seq<Seq<char>>,
    i: int,
) -> Option<StructPatternMaterialId>
    decreases paths.len() - i,
{
    if i < 0 || i >= paths.len() {
        None
    } else if path_text(paths[i].0@) == path {
        Some(paths[i].1)
    } else {
        path_entry(paths, path, i + 1)
    }
}

/// The origin and kind a context materializes an owner head with.
pub open spec fn context_origin(context: StructPatternMaterialContext, display_name: String) -> (
    StructPatternMaterialKind,
    StructPatternMaterialOrigin,
) {
    match context {
        StructPatternMaterialContext::Global { symbol_id } => (
            StructPatternMaterialKind::Owner,
            StructPatternMaterialOrigin::GlobalBinding { symbol_id },
        ),
        StructPatternMaterialContext::Namespace { namespace_symbol_id, symbol_id } => (
            StructPatternMaterialKind::Owner,
            StructPatternMaterialOrigin::NamespaceBinding { namespace_symbol_id, symbol_id },
        ),
        StructPatternMaterialContext::Local { place_id } => (
            StructPatternMaterialKind::Owner,
            StructPatternMaterialOrigin::LocalMaterialization { place_id, display_name },
        ),
        StructPatternMaterialContext::Construction { construction_instance_id } => (
            StructPatternMaterialKind::Construction,
            StructPatternMaterialOrigin::Construction { construction_instance_id },
        ),
        StructPatternMaterialContext::StructDefinition { type_definition_id } => (
            StructPatternMaterialKind::Construction,
            StructPatternMaterialOrigin::StructDefinition { type_definition_id },
        ),
    }
}

fn origin_eq(a: &StructPatternMaterialOrigin, b: &StructPatternMaterialOrigin) -> (r: bool)
    ensures
        r == origin_matches(*a, *b),
{
    match (a, b) {
        (
            StructPatternMaterialOrigin::GlobalBinding { symbol_id: x },
            StructPatternMaterialOrigin::GlobalBinding { symbol_id: y },
        ) => *x == *y,
        (
            StructPatternMaterialOrigin::NamespaceBinding { namespace_symbol_id: n1, symbol_id: s1 },
            StructPatternMaterialOrigin::NamespaceBinding { namespace_symbol_id: n2, symbol_id: s2 },
        ) => *n1 == *n2 && *s1 == *s2,
        (
            StructPatternMaterialOrigin::LocalMaterialization { place_id: p1, display_name: d1 },
            StructPatternMaterialOrigin::LocalMaterialization { place_id: p2, display_name: d2 },
        ) => *p1 == *p2 && text_eq(d1.as_str(), d2.as_str()),
        (
            StructPatternMaterialOrigin::Field {
                owner_head: o1,
                field_name: f1,
                field_type_value: t1,
                projection: p1,
            },
            StructPatternMaterialOrigin::Field {
                owner_head: o2,
                field_name: f2,
                field_type_value: t2,
                projection: p2,
            },
        ) => *o1 == *o2 && text_eq(f1.as_str(), f2.as_str()) && *t1 == *t2 && *p1 == *p2,
        (
            StructPatternMaterialOrigin::Construction { construction_instance_id: c1 },
            StructPatternMaterialOrigin::Construction { construction_instance_id: c2 },
        ) => *c1 == *c2,
        (
            StructPatternMaterialOrigin::StructDefinition { type_definition_id: t1 },
            StructPatternMaterialOrigin::StructDefinition { type_definition_id: t2 },
        ) => *t1 == *t2,
        _ => false,
    }
}

impl StructPatternMaterialRegistry {
    /// The heads, in allocation order.
    pub closed spec fn heads_spec(&self) -> Seq<StructPatternMaterial> {
        self.heads@
    }

    /// The explicit navigation paths, in registration order.
    pub closed spec fn paths_spec(&self) -> Seq<(Vec<String>, StructPatternMaterialId)> {
        self.explicit_paths@
    }

    /// Each head's id is its position; no two heads have matching origins,
    /// no two field heads share a child key, and no two explicit paths have
    /// the same text.
    pub closed spec fn well_formed(&self) -> bool {
        &&& self.next_id == self.heads@.len()
        &&& forall|k: int| 0 <= k < self.heads@.len() ==> (#[trigger] self.heads@[k]).id
            == StructPatternMaterialId(k as u64)
        &&& forall|i: int, j: int|
            0 <= i < j < self.heads@.len() ==> !origin_matches(
                (#[trigger] self.heads@[i]).origin,
                (#[trigger] self.heads@[j]).origin,
            ) && !same_child_key(self.heads@[i].origin, self.heads@[j].origin)
        &&& forall|i: int, j: int|
            0 <= i < j < self.explicit_paths@.len() ==> path_text((#[trigger] self.explicit_paths@[i]).0@)
                != path_text((#[trigger] self.explicit_paths@[j]).0@)
    }

    /// In a well-formed registry each origin, child key and path text
    /// belongs to one entry.
    pub proof fn lemma_keys_unique(&self)
        requires
            self.well_formed(),
        ensures
            forall|i: int, j: int|
                0 <= i < j < self.heads_spec().len() ==> !origin_matches(
                    (#[trigger] self.heads_spec()[i]).origin,
                    (#[trigger] self.heads_spec()[j]).origin,
                ) && !same_child_key(self.heads_spec()[i].origin, self.heads_spec()[j].origin),
            forall|i: int, j: int|
                0 <= i < j < self.paths_spec().len() ==> path_text((#[trigger] self.paths_spec()[i]).0@)
                    != path_text((#[trigger] self.paths_spec()[j]).0@),
    {
    }

    /// The id the next allocation receives.
    pub open spec fn next_id_spec(&self) -> StructPatternMaterialId {
        StructPatternMaterialId(self.heads_spec().len() as u64)
    }

    /// The head first allocated for an origin matching `origin`.
    pub open spec fn head_for_origin(&self, origin: StructPatternMaterialOrigin) -> Option<StructPatternMaterialId> {
        match first_head(self.heads_spec(), |o: StructPatternMaterialOrigin| origin_matches(o, origin), 0) {
            Some(i) => Some(self.heads_spec()[i].id),
            None => None,
        }
    }

    /// The extraction child `name` of `owner`: its first field head.
    pub open spec fn child_spec(&self, owner: StructPatternMaterialId, name: Seq<char>) -> Option<
        StructPatternMaterialId,
    > {
        match first_head(self.heads_spec(), |o: StructPatternMaterialOrigin| is_child_origin(o, owner, name), 0) {
            Some(i) => Some(self.heads_spec()[i].id),
            None => None,
        }
    }

    /// The head with id `id`.
    pub open spec fn head_spec(&self, id: StructPatternMaterialId) -> Option<StructPatternMaterial> {
        if id.0 < self.heads_spec().len() {
            Some(self.heads_spec()[id.0 as int])
        } else {
            None
        }
    }

    /// The head registered for an explicit path.
    pub open spec fn explicit_path_spec(&self, path: Seq<Seq<char>>) -> Option<StructPatternMaterialId> {
        path_entry(self.paths_spec(), path, 0)
    }

    pub fn new() -> (r: StructPatternMaterialRegistry)
        ensures
            r.well_formed(),
            r.heads_spec().len() == 0,
            r.paths_spec().len() == 0,
    {
        StructPatternMaterialRegistry { next_id: 0, heads: Vec::new(), explicit_paths: Vec::new() }
    }

    fn find_origin(&self, origin: &StructPatternMaterialOrigin) -> (r: Option<usize>)
        ensures
            match r {
                Some(i) => i < self.heads_spec().len() && first_head(
                    self.heads_spec(),
                    |o: StructPatternMaterialOrigin| origin_matches(o, *origin),
                    0,
                ) == Some(i as int),
                None => first_head(
                    self.heads_spec(),
                    |o: StructPatternMaterialOrigin| origin_matches(o, *origin),
                    0,
                ) is None,
            },
    {
        let ghost pred = |o: StructPatternMaterialOrigin| origin_matches(o, *origin);
        let mut i: usize = 0;
        while i < self.heads.len()
            invariant
                i <= self.heads@.len(),
                pred == (|o: StructPatternMaterialOrigin| origin_matches(o, *origin)),
                first_head(self.heads@, pred, 0) == first_head(self.heads@, pred, i as int),
            decreases self.heads@.len() - i,
        {
            if origin_eq(&self.heads[i].origin, origin) {
                return Some(i);
            }
            i = i + 1;
        }
        None
    }

    fn find_child(&self, owner: StructPatternMaterialId, name: &str) -> (r: Option<usize>)
        ensures
            match r {
                Some(i) => i < self.heads_spec().len() && first_head(
                    self.heads_spec(),
                    |o: StructPatternMaterialOrigin| is_child_origin(o, owner, name@),
                    0,
                ) == Some(i as int),
                None => first_head(
                    self.heads_spec(),
                    |o: StructPatternMaterialOrigin| is_child_origin(o, owner, name@),
                    0,
                ) is None,
            },
    {
        let ghost pred = |o: StructPatternMaterialOrigin| is_child_origin(o, owner, name@);
        let mut i: usize = 0;
        while i < self.heads.len()
            invariant
                i <= self.heads@.len(),
                pred == (|o: StructPatternMaterialOrigin| is_child_origin(o, owner, name@)),
                first_head(self.heads@, pred, 0) == first_head(self.heads@, pred, i as int),
            decreases self.heads@.len() - i,
        {
            let hit = match &self.heads[i].origin {
                StructPatternMaterialOrigin::Field { owner_head, field_name, .. } => *owner_head == owner
                    && text_eq(field_name.as_str(), name),
                _ => false,
            };
            if hit {
                return Some(i);
            }
            i = i + 1;
        }
        None
    }

    /// Intern a head by origin: the head first allocated for a matching
    /// origin, or a new head with the next id.
    fn allocate_head(
        &mut self,
        kind: StructPatternMaterialKind,
        origin: StructPatternMaterialOrigin,
        display_name: String,
        provenance: Provenance,
    ) -> (r: StructPatternMaterialId)
        requires
            old(self).well_formed(),
            old(self).head_for_origin(origin) is None ==> old(self).heads_spec().len() < u64::MAX,
            forall|i: int|
                0 <= i < old(self).heads_spec().len() ==> !same_child_key(
                    (#[trigger] old(self).heads_spec()[i]).origin,
                    origin,
                ),
        ensures
            final(self).well_formed(),
            match old(self).head_for_origin(origin) {
                Some(existing) => r == existing && *final(self) == *old(self),
                None => r == old(self).next_id_spec() && final(self).paths_spec() == old(self).paths_spec()
                    && final(self).heads_spec() == old(self).heads_spec().push(
                    StructPatternMaterial { id: r, kind, origin, display_name, provenance },
                ),
            },
    {
        match self.find_origin(&origin) {
            Some(i) => {
                return self.heads[i].id;
            },
            None => {},
        }
        proof {
            lemma_first_head_none(self.heads@, |o: StructPatternMaterialOrigin| origin_matches(o, origin), 0);
        }
        let id = StructPatternMaterialId(self.next_id);
        self.next_id = self.next_id + 1;
        self.heads.push(StructPatternMaterial { id, kind, origin, display_name, provenance });
        id
    }

    /// The owner head of a context: interned by the context's origin.
    pub fn allocate_owner_head(
        &mut self,
        context: StructPatternMaterialContext,
        display_name: String,
        provenance: Provenance,
    ) -> (r: StructPatternMaterialId)
        requires
            old(self).well_formed(),
            old(self).head_for_origin(context_origin(context, display_name).1) is None
                ==> old(self).heads_spec().len() < u64::MAX,
        ensures
            final(self).well_formed(),
            match old(self).head_for_origin(context_origin(context, display_name).1) {
                Some(existing) => r == existing && *final(self) == *old(self),
                None => r == old(self).next_id_spec() && final(self).paths_spec() == old(self).paths_spec()
                    && final(self).heads_spec() == old(self).heads_spec().push(
                    StructPatternMaterial {
                        id: r,
                        kind: context_origin(context, display_name).0,
                        origin: context_origin(context, display_name).1,
                        display_name,
                        provenance,
                    },
                ),
            },
    {
        let (kind, origin) = match context {
            StructPatternMaterialContext::Global { symbol_id } => (
                StructPatternMaterialKind::Owner,
                StructPatternMaterialOrigin::GlobalBinding { symbol_id },
            ),
            StructPatternMaterialContext::Namespace { namespace_symbol_id, symbol_id } => (
                StructPatternMaterialKind::Owner,
                StructPatternMaterialOrigin::NamespaceBinding { namespace_symbol_id, symbol_id },
            ),
            StructPatternMaterialContext::Local { place_id } => (
                StructPatternMaterialKind::Owner,
                StructPatternMaterialOrigin::LocalMaterialization {
                    place_id,
                    display_name: display_name.clone(),
                },
            ),
            StructPatternMaterialContext::Construction { construction_instance_id } => (
                StructPatternMaterialKind::Construction,
                StructPatternMaterialOrigin::Construction { construction_instance_id },
            ),
            StructPatternMaterialContext::StructDefinition { type_definition_id } => (
                StructPatternMaterialKind::Construction,
                StructPatternMaterialOrigin::StructDefinition { type_definition_id },
            ),
        };
        self.allocate_head(kind, origin, display_name, provenance)
    }

    /// The field head `field_name` of `owner_head`. A name already registered
    /// under the owner with the same origin returns its head; with another
    /// origin it is an extraction child conflict.
    pub fn allocate_field_head(
        &mut self,
        owner_head: StructPatternMaterialId,
        field_name: String,
        field_type_value: TypeValueId,
        projection: FieldProjection,
        provenance: Provenance,
    ) -> (r: Result<StructPatternMaterialId, Diagnostic>)
        requires
            old(self).well_formed(),
            old(self).child_spec(owner_head, field_name@) is None ==> old(self).heads_spec().len()
                < u64::MAX,
        ensures
            final(self).well_formed(),
            match old(self).child_spec(owner_head, field_name@) {
                Some(existing) => *final(self) == *old(self) && if origin_matches(
                    old(self).head_spec(existing)->0.origin,
                    StructPatternMaterialOrigin::Field { owner_head, field_name, field_type_value, projection },
                ) {
                    r == Ok::<StructPatternMaterialId, Diagnostic>(existing)
                } else {
                    r == Err::<StructPatternMaterialId, Diagnostic>(
                        Diagnostic {
                            kind: DiagnosticKind::ExtractionChildConflict { owner_head, field_name },
                            provenance: Some(provenance),
                        },
                    )
                },
                None => r == Ok::<StructPatternMaterialId, Diagnostic>(old(self).next_id_spec())
                    && final(self).paths_spec() == old(self).paths_spec() && final(self).heads_spec()
                    == old(self).heads_spec().push(
                    StructPatternMaterial {
                        id: old(self).next_id_spec(),
                        kind: StructPatternMaterialKind::Field,
                        origin: StructPatternMaterialOrigin::Field {
                            owner_head,
                            field_name,
                            field_type_value,
                            projection,
                        },
                        display_name: field_name,
                        provenance,
                    },
                ),
            },
    {
        let origin = StructPatternMaterialOrigin::Field {
            owner_head,
            field_name: field_name.clone(),
            field_type_value,
            projection,
        };
        match self.find_child(owner_head, field_name.as_str()) {
            Some(i) => {
                proof {
                    lemma_first_head_holds(
                        self.heads@,
                        |o: StructPatternMaterialOrigin| is_child_origin(o, owner_head, field_name@),
                        0,
                    );
                }
                if origin_eq(&self.heads[i].origin, &origin) {
                    return Ok(self.heads[i].id);
                }
                return Err(
                    Diagnostic::hard_error(DiagnosticKind::ExtractionChildConflict { owner_head, field_name }, Some(provenance)),
                );
            },
            None => {},
        }
        proof {
            lemma_no_child_no_origin(self.heads@, owner_head, field_name@, origin);
            lemma_first_head_none(
                self.heads@,
                |o: StructPatternMaterialOrigin| is_child_origin(o, owner_head, field_name@),
                0,
            );
            assert forall|i: int| 0 <= i < self.heads@.len() implies !same_child_key(
                (#[trigger] self.heads@[i]).origin,
                origin,
            ) by {
                if same_child_key(self.heads@[i].origin, origin) {
                    assert(is_child_origin(self.heads@[i].origin, owner_head, field_name@));
                }
            }
        }
        let head = self.allocate_head(StructPatternMaterialKind::Field, origin, field_name, provenance);
        Ok(head)
    }

    /// The head of a generated construction instance.
    pub fn allocate_generated_head(
        &mut self,
        construction_instance_id: ConstructionInstanceId,
        display_name: String,
        provenance: Provenance,
    ) -> (r: StructPatternMaterialId)
        requires
            old(self).well_formed(),
            old(self).head_for_origin(
                StructPatternMaterialOrigin::Construction { construction_instance_id },
            ) is None ==> old(self).heads_spec().len() < u64::MAX,
        ensures
            final(self).well_formed(),
            match old(self).head_for_origin(StructPatternMaterialOrigin::Construction { construction_instance_id }) {
                Some(existing) => r == existing && *final(self) == *old(self),
                None => r == old(self).next_id_spec() && final(self).paths_spec() == old(self).paths_spec()
                    && final(self).heads_spec() == old(self).heads_spec().push(
                    StructPatternMaterial {
                        id: r,
                        kind: StructPatternMaterialKind::Construction,
                        origin: StructPatternMaterialOrigin::Construction { construction_instance_id },
                        display_name,
                        provenance,
                    },
                ),
            },
    {
        self.allocate_head(
            StructPatternMaterialKind::Construction,
            StructPatternMaterialOrigin::Construction { construction_instance_id },
            display_name,
            provenance,
        )
    }

    /// The extraction child `child_name` of `owner_head`.
    pub fn lookup_child(&self, owner_head: StructPatternMaterialId, child_name: &str) -> (r: Option<
        StructPatternMaterialId,
    >)
        requires
            self.well_formed(),
        ensures
            r == self.child_spec(owner_head, child_name@),
    {
        match self.find_child(owner_head, child_name) {
            Some(i) => Some(self.heads[i].id),
            None => None,
        }
    }

    fn find_path(&self, components: &[String]) -> (r: Option<usize>)
        ensures
            match r {
                Some(i) => i < self.paths_spec().len() && path_entry(
                    self.paths_spec(),
                    path_text(components@),
                    0,
                ) == Some(self.paths_spec()[i as int].1),
                None => path_entry(self.paths_spec(), path_text(components@), 0) is None,
            },
    {
        let mut i: usize = 0;
        while i < self.explicit_paths.len()
            invariant
                i <= self.explicit_paths@.len(),
                path_entry(self.explicit_paths@, path_text(components@), 0) == path_entry(
                    self.explicit_paths@,
                    path_text(components@),
                    i as int,
                ),
            decreases self.explicit_paths@.len() - i,
        {
            if texts_eq(self.explicit_paths[i].0.as_slice(), components) {
                return Some(i);
            }
            i = i + 1;
        }
        None
    }

    /// Register an explicit navigation path for a head. Registering the same
    /// path for the same head again is accepted; for another head it is a
    /// navigation path conflict.
    pub fn register_explicit_path(
        &mut self,
        components: Vec<String>,
        head_id: StructPatternMaterialId,
        provenance: Provenance,
    ) -> (r: Result<(), Diagnostic>)
        requires
            old(self).well_formed(),
        ensures
            final(self).well_formed(),
            match old(self).explicit_path_spec(path_text(components@)) {
                Some(existing) => *final(self) == *old(self) && if existing == head_id {
                    r is Ok
                } else {
                    r == Err::<(), Diagnostic>(
                        Diagnostic { kind: DiagnosticKind::NavigationPathConflict { components }, provenance: Some(provenance) },
                    )
                },
                None => r is Ok && final(self).heads_spec() == old(self).heads_spec() && final(self).paths_spec()
                    == old(self).paths_spec().push((components, head_id)),
            },
            final(self).explicit_path_spec(path_text(components@)) is Some,
            r is Ok ==> final(self).explicit_path_spec(path_text(components@)) == Some(head_id),
    {
        match self.find_path(components.as_slice()) {
            Some(i) => {
                if self.explicit_paths[i].1 == head_id {
                    return Ok(());
                }
                return Err(
                    Diagnostic::hard_error(DiagnosticKind::NavigationPathConflict { components }, Some(provenance)),
                );
            },
            None => {},
        }
        let ghost before = self.explicit_paths@;
        let ghost entry = (components, head_id);
        proof {
            lemma_path_entry_none(before, path_text(entry.0@), 0);
        }
        self.explicit_paths.push((components, head_id));
        proof {
            lemma_path_entry_push(before, entry, path_text(entry.0@), 0);
            assert(self.explicit_paths@ == before.push(entry));
        }
        Ok(())
    }

    /// The head registered for an explicit navigation path.
    pub fn lookup_explicit_path(&self, components: &[String]) -> (r: Option<StructPatternMaterialId>)
        ensures
            r == self.explicit_path_spec(path_text(components@)),
    {
        match self.find_path(components) {
            Some(i) => Some(self.explicit_paths[i].1),
            None => None,
        }
    }

    /// Resolve one lookup: an automatic name is looked up only as an
    /// extraction child of its scope; an explicit navigation of names is
    /// looked up among the registered paths.
    pub fn resolve_pattern_lookup(&self, input: StructPatternLookupInput) -> (r: Result<
        StructPatternMaterialId,
        Diagnostic,
    >)
        requires
            self.well_formed(),
        ensures
            match input {
                StructPatternLookupInput::AutoName { name, current_scope, expectation, provenance } => if expectation
                    != StructPatternLookupExpectation::ExtractionChild {
                    r == Err::<StructPatternMaterialId, Diagnostic>(
                        Diagnostic { kind: DiagnosticKind::UnsupportedLookupExpectation, provenance: Some(provenance) },
                    )
                } else {
                    match self.child_spec(current_scope, name@) {
                        Some(id) => r == Ok::<StructPatternMaterialId, Diagnostic>(id),
                        None => r == Err::<StructPatternMaterialId, Diagnostic>(
                            Diagnostic { kind: DiagnosticKind::Unresolved, provenance: Some(provenance) },
                        ),
                    }
                },
                StructPatternLookupInput::ExplicitNav { components, provenance, .. } => match explicit_nav_names_spec(
                    components@,
                ) {
                    None => r == Err::<StructPatternMaterialId, Diagnostic>(
                        Diagnostic {
                            kind: DiagnosticKind::UnsupportedNavigationComponent,
                            provenance: Some(provenance),
                        },
                    ),
                    Some(names) => match self.explicit_path_spec(path_text(names)) {
                        Some(id) => r == Ok::<StructPatternMaterialId, Diagnostic>(id),
                        None => r == Err::<StructPatternMaterialId, Diagnostic>(
                            Diagnostic { kind: DiagnosticKind::Unresolved, provenance: Some(provenance) },
                        ),
                    },
                },
            },
    {
        match input {
            StructPatternLookupInput::AutoName { name, current_scope, expectation, provenance } => {
                if expectation != StructPatternLookupExpectation::ExtractionChild {
                    return Err(
                        Diagnostic::hard_error(DiagnosticKind::UnsupportedLookupExpectation, Some(provenance)),
                    );
                }
                match self.lookup_child(current_scope, name.as_str()) {
                    Some(id) => Ok(id),
                    None => Err(Diagnostic::hard_error(DiagnosticKind::Unresolved, Some(provenance))),
                }
            },
            StructPatternLookupInput::ExplicitNav { components, provenance, .. } => {
                let names = match explicit_nav_names(components.as_slice()) {
                    Some(names) => names,
                    None => {
                        return Err(
                            Diagnostic::hard_error(DiagnosticKind::UnsupportedNavigationComponent, Some(provenance)),
                        );
                    },
                };
                match self.lookup_explicit_path(names.as_slice()) {
                    Some(id) => Ok(id),
                    None => Err(Diagnostic::hard_error(DiagnosticKind::Unresolved, Some(provenance))),
                }
            },
        }
    }

    /// The head with id `head_id`.
    pub fn get(&self, head_id: StructPatternMaterialId) -> (r: Option<&StructPatternMaterial>)
        ensures
            match self.head_spec(head_id) {
                Some(head) => r matches Some(h) && *h == head,
                None => r is None,
            },
    {
        if head_id.0 < self.heads.len() as u64 {
            Some(&self.heads[head_id.0 as usize])
        } else {
            None
        }
    }
}

fn texts_eq(a: &[String], b: &[String]) -> (r: bool)
    ensures
        r == (path_text(a@) == path_text(b@)),
{
    if a.len() != b.len() {
        proof {
            assert(path_text(a@).len() != path_text(b@).len());
        }
        return false;
    }
    let mut i: usize = 0;
    while i < a.len()
        invariant
            a@.len() == b@.len(),
            i <= a@.len(),
            forall|k: int| 0 <= k < i ==> a@[k]@ == b@[k]@,
        decreases a@.len() - i,
    {
        if !text_eq(a[i].as_str(), b[i].as_str()) {
            proof {
                assert(path_text(a@)[i as int] != path_text(b@)[i as int]);
            }
            return false;
        }
        i = i + 1;
    }
    assert(path_text(a@) =~= path_text(b@));
    true
}

/// A first match satisfies its predicate.
proof fn lemma_first_head_holds(
    heads: Seq<StructPatternMaterial>,
    pred: spec_fn(StructPatternMaterialOrigin) -> bool,
    i: int,
)
    requires
        first_head(heads, pred, i) is Some,
    ensures
        0 <= first_head(heads, pred, i)->0 < heads.len(),
        pred(heads[first_head(heads, pred, i)->0].origin),
    decreases heads.len() - i,
{
    if i >= 0 && i < heads.len() && !pred(heads[i].origin) {
        lemma_first_head_holds(heads, pred, i + 1);
    }
}

/// Without a child of that name, no head has a field origin with it.
proof fn lemma_no_child_no_origin(
    heads: Seq<StructPatternMaterial>,
    owner: StructPatternMaterialId,
    name: Seq<char>,
    origin: StructPatternMaterialOrigin,
)
    requires
        first_head(heads, |o: StructPatternMaterialOrigin| is_child_origin(o, owner, name), 0) is None,
        is_child_origin(origin, owner, name),
    ensures
        first_head(heads, |o: StructPatternMaterialOrigin| origin_matches(o, origin), 0) is None,
{
    let child = |o: StructPatternMaterialOrigin| is_child_origin(o, owner, name);
    let same = |o: StructPatternMaterialOrigin| origin_matches(o, origin);
    lemma_first_head_none(heads, child, 0);
    if first_head(heads, same, 0) is Some {
        lemma_first_head_holds(heads, same, 0);
        let i = first_head(heads, same, 0)->0;
        assert(child(heads[i].origin));
    }
}

proof fn lemma_first_head_none(
    heads: Seq<StructPatternMaterial>,
    pred: spec_fn(StructPatternMaterialOrigin) -> bool,
    i: int,
)
    requires
        0 <= i,
        first_head(heads, pred, i) is None,
    ensures
        forall|k: int| i <= k < heads.len() ==> !pred(#[trigger] heads[k].origin),
    decreases heads.len() - i,
{
    if i < heads.len() {
        lemma_first_head_none(heads, pred, i + 1);
    }
}

proof fn lemma_path_entry_none(paths: Seq<(Vec<String>, StructPatternMaterialId)>, path: Seq<Seq<char>>, i: int)
    requires
        0 <= i,
        path_entry(paths, path, i) is None,
    ensures
        forall|k: int| i <= k < paths.len() ==> path_text((#[trigger] paths[k]).0@) != path,
    decreases paths.len() - i,
{
    if i < paths.len() {
        lemma_path_entry_none(paths, path, i + 1);
    }
}

proof fn lemma_path_entry_push(
    paths: Seq<(Vec<String>, StructPatternMaterialId)>,
    entry: (Vec<String>, StructPatternMaterialId),
    path: Seq<Seq<char>>,
    i: int,
)
    requires
        0 <= i <= paths.len(),
        path_entry(paths, path, i) is None,
        path_text(entry.0@) == path,
    ensures
        path_entry(paths.push(entry), path, i) == Some(entry.1),
    decreases paths.len() - i,
{
    if i < paths.len() {
        assert(paths.push(entry)[i] == paths[i]);
        lemma_path_entry_push(paths, entry, path, i + 1);
    } else {
        assert(paths.push(entry)[i] == entry);
    }
}

/// One field step of a materialization over the heads `heads`: the
/// existing child when its origin matches, a conflict when it does not, and
/// otherwise a new field head.
pub open spec fn field_step(
    heads: Seq<StructPatternMaterial>,
    owner: StructPatternMaterialId,
    field: StructFieldPatternMaterial,
) -> Result<(Seq<StructPatternMaterial>, StructPatternMaterialId), Diagnostic> {
    let origin = StructPatternMaterialOrigin::Field {
        owner_head: owner,
        field_name: field.field_name,
        field_type_value: field.field_type_value,
        projection: field.projection,
    };
    match first_head(heads, |o: StructPatternMaterialOrigin| is_child_origin(o, owner, field.field_name@), 0) {
        Some(i) => if origin_matches(heads[i].origin, origin) {
            Ok((heads, heads[i].id))
        } else {
            Err(
                Diagnostic {
                    kind: DiagnosticKind::ExtractionChildConflict { owner_head: owner, field_name: field.field_name },
                    provenance: Some(field.provenance),
                },
            )
        },
        None => Ok(
            (
                heads.push(
                    StructPatternMaterial {
                        id: StructPatternMaterialId(heads.len() as u64),
                        kind: StructPatternMaterialKind::Field,
                        origin,
                        display_name: field.field_name,
                        provenance: field.provenance,
                    },
                ),
                StructPatternMaterialId(heads.len() as u64),
            ),
        ),
    }
}

/// The first `n` field steps: the heads reached, the field heads produced,
/// and the conflict that stopped them, if any.
pub open spec fn fields_spec(
    heads: Seq<StructPatternMaterial>,
    owner: StructPatternMaterialId,
    fields: Seq<StructFieldPatternMaterial>,
    n: int,
) -> (Seq<StructPatternMaterial>, Seq<StructPatternMaterialId>, Option<Diagnostic>)
    decreases n,
{
    if n <= 0 {
        (heads, Seq::empty(), None)
    } else {
        let (h, ids, failure) = fields_spec(heads, owner, fields, n - 1);
        if failure is Some {
            (h, ids, failure)
        } else {
            match field_step(h, owner, fields[n - 1]) {
                Err(d) => (h, ids, Some(d)),
                Ok((h2, id)) => (h2, ids.push(id), None),
            }
        }
    }
}

proof fn lemma_fields_spec_len(
    heads: Seq<StructPatternMaterial>,
    owner: StructPatternMaterialId,
    fields: Seq<StructFieldPatternMaterial>,
    n: int,
)
    requires
        0 <= n,
    ensures
        fields_spec(heads, owner, fields, n).0.len() <= heads.len() + n,
        fields_spec(heads, owner, fields, n).2 is None ==> fields_spec(heads, owner, fields, n).1.len() == n,
    decreases n,
{
    if n > 0 {
        lemma_fields_spec_len(heads, owner, fields, n - 1);
    }
}

/// Once a step conflicts, later steps change nothing.
proof fn lemma_fields_spec_stops(
    heads: Seq<StructPatternMaterial>,
    owner: StructPatternMaterialId,
    fields: Seq<StructFieldPatternMaterial>,
    m: int,
    n: int,
)
    requires
        0 <= m <= n,
        fields_spec(heads, owner, fields, m).2 is Some,
    ensures
        fields_spec(heads, owner, fields, n) == fields_spec(heads, owner, fields, m),
    decreases n - m,
{
    if m < n {
        lemma_fields_spec_stops(heads, owner, fields, m, n - 1);
    }
}

impl StructPatternMaterialRegistry {
    /// Materialize a struct pattern: its owner head, then one field head per
    /// field, in order, stopping at the first extraction child conflict.
    pub fn materialize_struct_pattern(
        &mut self,
        context: StructPatternMaterialContext,
        display_name: String,
        fields: Vec<StructFieldPatternMaterial>,
        provenance: Provenance,
    ) -> (r: Result<StructPatternMaterialization, Diagnostic>)
        requires
            old(self).well_formed(),
            old(self).heads_spec().len() + fields@.len() + 1 < u64::MAX,
        ensures
            final(self).well_formed(),
            final(self).paths_spec() == old(self).paths_spec(),
            ({
                let owner = match old(self).head_for_origin(context_origin(context, display_name).1) {
                    Some(existing) => existing,
                    None => old(self).next_id_spec(),
                };
                let after_owner = match old(self).head_for_origin(context_origin(context, display_name).1) {
                    Some(_) => old(self).heads_spec(),
                    None => old(self).heads_spec().push(
                        StructPatternMaterial {
                            id: owner,
                            kind: context_origin(context, display_name).0,
                            origin: context_origin(context, display_name).1,
                            display_name,
                            provenance,
                        },
                    ),
                };
                let (heads, ids, failure) = fields_spec(after_owner, owner, fields@, fields@.len() as int);
                &&& final(self).heads_spec() == heads
                &&& match failure {
                    Some(d) => r == Err::<StructPatternMaterialization, Diagnostic>(d),
                    None => r matches Ok(m) && m.owner_head == owner && m.field_heads@.len() == fields@.len()
                        && forall|i: int|
                        0 <= i < fields@.len() ==> (#[trigger] m.field_heads@[i]).0 == fields@[i].field_name
                            && m.field_heads@[i].1 == ids[i],
                }
            }),
    {
        let owner_head = self.allocate_owner_head(context, display_name, provenance);
        let ghost after_owner = self.heads@;
        let mut field_heads: Vec<(String, StructPatternMaterialId)> = Vec::new();
        let mut k: usize = 0;
        #[verifier::loop_isolation(false)]
        while k < fields.len()
            invariant
                self.well_formed(),
                k <= fields@.len(),
                after_owner.len() <= old(self).heads_spec().len() + 1,
                old(self).heads_spec().len() + fields@.len() + 1 < u64::MAX,
                fields_spec(after_owner, owner_head, fields@, k as int).2 is None,
                self.heads@ == fields_spec(after_owner, owner_head, fields@, k as int).0,
                self.explicit_paths@ == old(self).paths_spec(),
                field_heads@.len() == k,
                forall|i: int|
                    0 <= i < k ==> (#[trigger] field_heads@[i]).0 == fields@[i].field_name
                        && field_heads@[i].1 == fields_spec(after_owner, owner_head, fields@, k as int).1[i],
            decreases fields@.len() - k,
        {
            proof {
                lemma_fields_spec_len(after_owner, owner_head, fields@, k as int);
            }
            let field = &fields[k];
            let ghost before = self.heads@;
            let step = self.allocate_field_head(
                owner_head,
                field.field_name.clone(),
                field.field_type_value,
                field.projection,
                field.provenance.copied(),
            );
            proof {
                let pred = |o: StructPatternMaterialOrigin| is_child_origin(o, owner_head, field.field_name@);
                if first_head(before, pred, 0) is Some {
                    lemma_first_head_holds(before, pred, 0);
                }
            }
            match step {
                Err(d) => {
                    proof {
                        assert(self.heads@ == before);
                        assert(field_step(before, owner_head, fields@[k as int]) == Err::<
                            (Seq<StructPatternMaterial>, StructPatternMaterialId),
                            Diagnostic,
                        >(d));
                        assert(fields_spec(after_owner, owner_head, fields@, k as int + 1).2 == Some(d));
                        lemma_fields_spec_stops(
                            after_owner,
                            owner_head,
                            fields@,
                            k as int + 1,
                            fields@.len() as int,
                        );
                    }
                    return Err(d);
                },
                Ok(head) => {
                    field_heads.push((field.field_name.clone(), head));
                },
            }
            k = k + 1;
        }
        Ok(StructPatternMaterialization { owner_head, field_heads })
    }
}

impl Default for StructPatternMaterialRegistry {
    fn default() -> (r: StructPatternMaterialRegistry)
        ensures
            r.well_formed(),
            r.heads_spec().len() == 0,
            r.paths_spec().len() == 0,
    {
        StructPatternMaterialRegistry::new()
    }
}

impl Default for StructMaterializationState {
    fn default() -> (r: StructMaterializationState)
        ensures
            r.pattern_materials.well_formed(),
            r.pattern_materials.heads_spec().len() == 0,
            r.pattern_materials.paths_spec().len() == 0,
    {
        StructMaterializationState { pattern_materials: StructPatternMaterialRegistry::new() }
    }
}

} // verus!
