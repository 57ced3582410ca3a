use std::collections::{BTreeMap, BTreeSet};

use lib::model::{DiagnosticKind, PolicyContext, Provenance};
use lib::policy_export::{
    compute_export_retention_closure, compute_wpre, externally_visible, project_export_overload_sets,
    project_resolved_export_view, publicly_reachable, ExportAdmission, NamespaceCandidateSetRef,
    NamespaceExportNode, NamespaceResolveAuthority, ResolvedCandidatePolicy, WpreRoots,
};
use lib::policy_pair::{
    CapabilityRealization, NamespaceVisibility, PatternComponentPolicy, PolicyMode, PolicyPair,
    PolicyStage, StageSet, ValueComponentPolicy, ValuePresence,
};

fn node(parent: Option<u64>, public: bool) -> NamespaceExportNode<u64> {
    NamespaceExportNode {
        parent,
        visibility: if public { NamespaceVisibility::Public } else { NamespaceVisibility::Private },
    }
}

/// root 0 with children 1 and 2; 1 has child 3; 2 has child 4.
fn tree() -> BTreeMap<u64, NamespaceExportNode<u64>> {
    vec![
        (0, node(None, true)),
        (1, node(Some(0), true)),
        (2, node(Some(0), false)),
        (3, node(Some(1), true)),
        (4, node(Some(2), true)),
    ]
    .into_iter()
    .collect()
}

fn set(items: &[u64]) -> BTreeSet<u64> {
    items.iter().copied().collect()
}

#[test]
fn retention_closure_is_ancestors_and_subtree() {
    let closure = compute_export_retention_closure(&tree(), &[1]);
    assert_eq!(closure, set(&[0, 1, 3]));
}

#[test]
fn retention_closure_of_root_is_everything() {
    assert_eq!(compute_export_retention_closure(&tree(), &[0]), set(&[0, 1, 2, 3, 4]));
}

#[test]
fn retention_closure_unites_roots_and_keeps_unknown_roots() {
    assert_eq!(compute_export_retention_closure(&tree(), &[3, 4]), set(&[0, 1, 2, 3, 4]));
    assert_eq!(compute_export_retention_closure(&tree(), &[9]), set(&[9]));
    assert_eq!(compute_export_retention_closure(&tree(), &[]), set(&[]));
}

#[test]
fn retention_closure_terminates_on_parent_cycles() {
    let cyclic: BTreeMap<u64, NamespaceExportNode<u64>> =
        vec![(5, node(Some(6), true)), (6, node(Some(5), true)), (7, node(Some(5), true))].into_iter().collect();
    assert_eq!(compute_export_retention_closure(&cyclic, &[7]), set(&[5, 6, 7]));
}

#[test]
fn public_reachability_requires_every_component_public() {
    assert!(publicly_reachable(&tree(), &[0, 1, 3]));
    assert!(!publicly_reachable(&tree(), &[0, 2, 4]));
    assert!(!publicly_reachable(&tree(), &[0, 8]));
    assert!(publicly_reachable(&tree(), &[]));
}

#[test]
fn externally_visible_needs_retention_and_reachability() {
    let closure = compute_export_retention_closure(&tree(), &[1]);
    assert!(externally_visible(&3, &closure, &tree(), &[0, 1, 3]));
    assert!(!externally_visible(&4, &closure, &tree(), &[0, 2, 4]));
    assert!(!externally_visible(&2, &closure, &tree(), &[0]));
}

#[test]
fn wpre_closes_roots_under_dependencies() {
    let roots = WpreRoots {
        exported_symbols: vec![1],
        materialized_results_of_exported_meta_functions: vec![5],
        parameter_dependencies_of_exported_meta_functions: Vec::new(),
    };
    let graph: BTreeMap<u64, Vec<u64>> =
        vec![(1, vec![2, 3]), (2, vec![3]), (3, vec![1]), (4, vec![9]), (5, Vec::new())].into_iter().collect();
    assert_eq!(compute_wpre(roots, &graph), set(&[1, 2, 3, 5]));
}

#[test]
fn wpre_of_no_roots_is_empty() {
    let roots: WpreRoots<u64> = WpreRoots::default();
    let graph: BTreeMap<u64, Vec<u64>> = vec![(1, vec![2])].into_iter().collect();
    assert_eq!(compute_wpre(roots, &graph), set(&[]));
}

fn pair(value: &[PolicyStage], presence: ValuePresence, pattern: &[PolicyStage]) -> PolicyPair {
    PolicyPair {
        value: ValueComponentPolicy { stages: StageSet::from_stages(value), presence },
        pattern: PatternComponentPolicy { stages: StageSet::from_stages(pattern) },
    }
}

fn resolved(p: PolicyPair, text: &str) -> ResolvedCandidatePolicy {
    ResolvedCandidatePolicy {
        pair: p,
        mode: PolicyMode::Const,
        capability_realization: CapabilityRealization::default(),
        provenance: Provenance::new(text.to_string()),
    }
}

#[test]
fn export_view_keeps_the_pair() {
    let p = pair(&[PolicyStage::Meta], ValuePresence::Present, &[PolicyStage::Meta]);
    assert_eq!(project_resolved_export_view(&resolved(p, "c")), Ok(p));
    let bad = pair(&[PolicyStage::Meta], ValuePresence::Absent, &[PolicyStage::Meta]);
    let err = project_resolved_export_view(&resolved(bad, "bad")).unwrap_err();
    assert_eq!(err.kind, DiagnosticKind::AbsentValueCarriesStages(PolicyContext::ResolvedExportCandidate));
    assert_eq!(err.provenance, Some(Provenance::new("bad".to_string())));
}

#[test]
fn export_overload_sets_only_expose_admitted_names() {
    let p = pair(&[PolicyStage::Meta], ValuePresence::Present, &[PolicyStage::Meta]);
    let full: BTreeMap<u64, Vec<char>> = vec![(10u64, vec!['a', 'b']), (20u64, vec!['c']), (30u64, vec![])]
        .into_iter()
        .collect();
    let admission: BTreeMap<u64, ExportAdmission> = vec![
        (10u64, ExportAdmission { in_export_retention_closure: true, publicly_reachable: true }),
        (20u64, ExportAdmission { in_export_retention_closure: true, publicly_reachable: false }),
        (30u64, ExportAdmission { in_export_retention_closure: true, publicly_reachable: true }),
    ]
    .into_iter()
    .collect();
    let resolved_candidates: BTreeMap<u64, Vec<(u32, ResolvedCandidatePolicy)>> = vec![
        (10u64, vec![(1u32, resolved(p, "a")), (2u32, resolved(p, "b"))]),
        (20u64, vec![(3u32, resolved(p, "c"))]),
        (30u64, vec![]),
    ]
    .into_iter()
    .collect();
    let sets = project_export_overload_sets(full.clone(), &admission, &resolved_candidates).unwrap();
    assert_eq!(sets.full, full);
    assert_eq!(sets.exported.len(), 1);
    let views = &sets.exported[&10];
    assert_eq!(views.len(), 2);
    assert_eq!(views[1].identity, 2);
    assert_eq!(views[1].internal_candidate, 'b');
    assert_eq!(views[1].mode, PolicyMode::Const);
    assert_eq!(sets.resolve_internal(&20), Some(&['c'][..]));
    assert_eq!(sets.resolve_external(&20), None);
    assert_eq!(sets.resolve_external(&30), None);
    match sets.resolve(&10, NamespaceResolveAuthority::External) {
        Some(NamespaceCandidateSetRef::External(views)) => assert_eq!(views.len(), 2),
        other => panic!("unexpected {:?}", other),
    }
    assert!(ExportAdmission { in_export_retention_closure: true, publicly_reachable: true }.is_externally_exposed());
    assert!(!admission[&20].is_externally_exposed());
}

#[test]
fn export_overload_sets_report_the_first_refused_view() {
    let good = pair(&[PolicyStage::Meta], ValuePresence::Present, &[PolicyStage::Meta]);
    let bad = pair(&[PolicyStage::Meta], ValuePresence::Absent, &[PolicyStage::Meta]);
    let full: BTreeMap<u64, Vec<char>> = vec![(10u64, vec!['a', 'b']), (5u64, vec!['z'])].into_iter().collect();
    let admission: BTreeMap<u64, ExportAdmission> = vec![
        (10u64, ExportAdmission { in_export_retention_closure: true, publicly_reachable: true }),
        (5u64, ExportAdmission { in_export_retention_closure: true, publicly_reachable: true }),
    ]
    .into_iter()
    .collect();
    let resolved_candidates: BTreeMap<u64, Vec<(u32, ResolvedCandidatePolicy)>> = vec![
        (10u64, vec![(1u32, resolved(good, "a")), (2u32, resolved(bad, "b"))]),
        (5u64, vec![(9u32, resolved(bad, "z"))]),
    ]
    .into_iter()
    .collect();
    let err = project_export_overload_sets(full, &admission, &resolved_candidates).unwrap_err();
    assert_eq!(err.provenance, Some(Provenance::new("z".to_string())));
}
