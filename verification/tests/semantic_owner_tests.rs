use lib::norm_syntax::{HoleBinderId, NormPatternRootId, NormSemanticOwnerId};
use lib::semantic_owner::{
    OwnerQualificationError, ResolvedHoleBinderId, ResolvedPatternRootId, SemanticOwnerQualification,
};
use lib::semantic_owner::{
    CallableOwnerPlacement, CallableReceiverBindingSource, CallableReceiverTypeId, LocalCallableIdentity,
    LocalGenerationIdentity, LocalSymbolIdentity, MetaInvocationMaterialKey, PackageId, SemanticOwnerGraph,
    SemanticOwnerKind, SemanticSymbolIdentity,
};

#[test]
fn package_roots_are_interned() {
    let mut graph = SemanticOwnerGraph::new(1);
    let a = graph.package_root(PackageId(0), "toolchain".to_string());
    let again = graph.package_root(PackageId(0), "other".to_string());
    let b = graph.package_root(PackageId(1), "app".to_string());
    assert_eq!(a, again);
    assert_ne!(a, b);
    assert_eq!(graph.package_of(b), PackageId(1));
    assert_eq!(graph.parent(a), None);
}

#[test]
fn namespaces_and_callables_intern_by_parent_and_key() {
    let mut graph = SemanticOwnerGraph::new(1);
    let root = graph.package_root(PackageId(1), "app".to_string());
    let ns = graph.namespace(root, "util".to_string());
    assert_eq!(graph.namespace(root, "util".to_string()), ns);
    assert_ne!(graph.namespace(root, "other".to_string()), ns);
    assert_eq!(graph.parent(ns), Some(root));
    assert_eq!(graph.package_of(ns), PackageId(1));
    let f = graph.callable(ns, LocalCallableIdentity(0), CallableOwnerPlacement::Ordinary);
    assert_eq!(graph.callable(ns, LocalCallableIdentity(0), CallableOwnerPlacement::Ordinary), f);
    let g = graph.generated(f, LocalGenerationIdentity(3));
    assert_eq!(graph.generated(f, LocalGenerationIdentity(3)), g);
    match &graph.node(f).unwrap().kind {
        SemanticOwnerKind::Callable { placement, .. } => assert_eq!(*placement, CallableOwnerPlacement::Ordinary),
        other => panic!("unexpected kind {:?}", other),
    }
}

#[test]
fn meta_instances_with_different_keys_are_distinct() {
    let mut graph = SemanticOwnerGraph::new(1);
    let root = graph.package_root(PackageId(1), "app".to_string());
    let m1 = graph.meta_instance(root, MetaInvocationMaterialKey(10));
    let m2 = graph.meta_instance(root, MetaInvocationMaterialKey(11));
    assert_ne!(m1, m2);
    assert_eq!(graph.meta_instance(root, MetaInvocationMaterialKey(10)), m1);
}

#[test]
fn ancestry_follows_parents() {
    let mut graph = SemanticOwnerGraph::new(1);
    let root = graph.package_root(PackageId(1), "app".to_string());
    let ns = graph.namespace(root, "util".to_string());
    let f = graph.callable(ns, LocalCallableIdentity(0), CallableOwnerPlacement::Ordinary);
    assert!(graph.is_ancestor_or_self(root, f));
    assert!(graph.is_ancestor_or_self(f, f));
    assert!(!graph.is_ancestor_or_self(f, root));
}

#[test]
fn callable_paths_list_enclosing_callables() {
    let mut graph = SemanticOwnerGraph::new(1);
    let root = graph.package_root(PackageId(1), "app".to_string());
    let outer = graph.callable(root, LocalCallableIdentity(0), CallableOwnerPlacement::Ordinary);
    let ns = graph.namespace(outer, "inner_ns".to_string());
    let inner = graph.callable(ns, LocalCallableIdentity(1), CallableOwnerPlacement::InPlace);
    assert_eq!(graph.callable_owner_path(inner), Some(vec![inner, outer]));
    assert_eq!(graph.printable_self_path(inner), Some(vec!["Self", "Self"]));
    assert_eq!(graph.callable_owner_path(ns), None);
    assert_eq!(graph.printable_self_path(root), None);
}

#[test]
fn receiver_bindings() {
    let mut graph = SemanticOwnerGraph::new(1);
    let root = graph.package_root(PackageId(1), "app".to_string());
    let f = graph.callable(root, LocalCallableIdentity(0), CallableOwnerPlacement::Ordinary);
    let standalone = graph.standalone_receiver_binding(f).unwrap();
    assert_eq!(standalone.source, CallableReceiverBindingSource::StandaloneAnonymousDefault);
    assert_eq!(
        standalone.receiver_type,
        CallableReceiverTypeId::Anonymous(graph.anonymous_callable_type(f).unwrap())
    );
    assert_eq!(graph.standalone_receiver_binding(root), None);
    let named = SemanticSymbolIdentity { owner: root, local: LocalSymbolIdentity(4) };
    let associated = graph.associated_call_entry_receiver_binding(f, named).unwrap();
    assert_eq!(associated.receiver_type, CallableReceiverTypeId::Named(named));
    let mut other = SemanticOwnerGraph::new(2);
    let foreign_root = other.package_root(PackageId(1), "app".to_string());
    let foreign = SemanticSymbolIdentity { owner: foreign_root, local: LocalSymbolIdentity(4) };
    assert_eq!(graph.associated_call_entry_receiver_binding(f, foreign), None);
}

#[test]
fn owner_qualification_maps_hole_binders_once_bound() {
    let mut graph = SemanticOwnerGraph::new(1);
    let root = graph.package_root(PackageId(1), "app".to_string());
    let f = graph.callable(root, LocalCallableIdentity(0), CallableOwnerPlacement::Ordinary);
    let g = graph.callable(root, LocalCallableIdentity(1), CallableOwnerPlacement::Ordinary);
    let hole = HoleBinderId { root: NormPatternRootId { owner: NormSemanticOwnerId(7), local_root: 2 }, local_ordinal: 5 };
    let mut qualification = SemanticOwnerQualification::new();
    assert_eq!(
        qualification.qualify_hole(hole),
        Err(OwnerQualificationError::UnmappedFrontendOwner(NormSemanticOwnerId(7)))
    );
    assert_eq!(qualification.bind(NormSemanticOwnerId(7), f), Ok(()));
    assert_eq!(qualification.bind(NormSemanticOwnerId(7), f), Ok(()));
    assert_eq!(
        qualification.bind(NormSemanticOwnerId(7), g),
        Err(OwnerQualificationError::ConflictingMapping {
            frontend: NormSemanticOwnerId(7),
            existing: f,
            replacement: g,
        })
    );
    assert_eq!(
        qualification.qualify_hole(hole),
        Ok(ResolvedHoleBinderId { root: ResolvedPatternRootId { owner: f, local_root: 2 }, local_binder: 5 })
    );
}

#[test]
fn interned_children_carry_their_parents_package() {
    let mut graph = SemanticOwnerGraph::new(9);
    let root = graph.package_root(PackageId(4), "app".to_string());
    let ns = graph.namespace(root, "a".to_string());
    let inner = graph.namespace(ns, "b".to_string());
    assert_eq!(graph.node(ns).unwrap().package, PackageId(4));
    assert_eq!(graph.node(inner).unwrap().package, PackageId(4));
    assert_eq!(graph.node(inner).unwrap().parent, Some(ns));
    assert_eq!(graph.namespace(ns, "b".to_string()), inner);
    assert_ne!(graph.namespace(root, "b".to_string()), inner);
    assert_eq!(graph.package_of(inner), PackageId(4));
}
