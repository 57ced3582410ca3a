use lib::model::{CanonicalValueAddr, DiagnosticKind, MetaCallableIdentity, Provenance, SemanticValueId};
use lib::policy_pair::{
    ExplicitP1Selection, PatternComponentPolicy, Phase, PolicyMode, PolicyPair, PolicyResultEntry, PolicyStage,
    PolicyView, StageSet, ValueComponentPolicy, ValuePresence,
};
use lib::semantic_owner::{LocalSymbolIdentity, MetaInvocationMaterialKey, PackageId, SemanticOwnerGraph, SemanticSymbolIdentity};
use lib::semantic_world::{
    canonical_function_object_view, construction_window_is_live, derived_cluster_policy, judge_member_creation,
    judge_open_here, ClusterConstructionId, ConstructionAuthority, ConstructionEvaluationContext, ConstructionState,
    ConstructionWindow, MetaInstanceRoot, ObjectPlaceId, OpenClusterConstruction, OpenHereFailure,
    OrdinaryOpenWindow, PatternClusterOwner, PatternHostMember, PatternValueId, ProjectionSelector,
    ProjectionSlotIdentity, PurePMember, ResidentGeneration, ResidentIdentity, ResidualRuntimeEpoch,
    ResolvedSemanticNavigation, SemanticOuterScope, SemanticSymbolCell, SymbolConstructionValue,
    UseObservationKind, WritableContext,
};

fn prov(text: &str) -> Provenance {
    Provenance::new(text.to_string())
}

fn pair(value: &[PolicyStage], presence: ValuePresence, pattern: &[PolicyStage]) -> PolicyPair {
    PolicyPair {
        value: ValueComponentPolicy { stages: StageSet::from_stages(value), presence },
        pattern: PatternComponentPolicy { stages: StageSet::from_stages(pattern) },
    }
}

fn view(value: Option<u64>, pattern: u64, p: PolicyPair) -> PolicyResultEntry<SemanticValueId, PatternValueId> {
    PolicyResultEntry {
        value: value.map(SemanticValueId),
        pattern: PatternValueId(pattern),
        view: PolicyView { pair: p, mode: PolicyMode::Plain },
    }
}

fn identity() -> SemanticSymbolIdentity {
    let mut graph = SemanticOwnerGraph::new(1);
    let root = graph.package_root(PackageId(1), "app".to_string());
    SemanticSymbolIdentity { owner: root, local: LocalSymbolIdentity(0) }
}

#[test]
fn root_policy_is_plain_and_installed_owner() {
    let mut graph = SemanticOwnerGraph::new(1);
    let root = graph.package_root(PackageId(1), "app".to_string());
    let meta_root = MetaInstanceRoot { meta_callable: MetaCallableIdentity(1), placement_parent: root };
    assert_eq!(meta_root.policy_mode(), PolicyMode::Plain);
    assert_eq!(PatternClusterOwner::Installed(identity()).installed(), Some(identity()));
    assert_eq!(PatternClusterOwner::Open(ClusterConstructionId(2)).installed(), None);
}

fn slot(name: &str) -> ProjectionSlotIdentity {
    ProjectionSlotIdentity {
        parent: ResidentGeneration { resident: ResidentIdentity(1), generation: 0 },
        selector: ProjectionSelector::Named(name.to_string()),
    }
}

#[test]
fn write_grants_are_explicit() {
    let mut context = WritableContext::default();
    assert!(!context.place_is_writable(ObjectPlaceId(1)));
    context.grant_place(ObjectPlaceId(1));
    assert!(context.place_is_writable(ObjectPlaceId(1)));
    assert!(!context.place_is_writable(ObjectPlaceId(2)));
    assert!(context.slot_is_writable(ObjectPlaceId(1), &slot("f")));
    assert!(!context.slot_is_writable(ObjectPlaceId(2), &slot("f")));
    context.grant_slot(slot("f"));
    assert!(context.slot_is_writable(ObjectPlaceId(2), &slot("f")));
    assert!(!context.slot_is_writable(ObjectPlaceId(2), &slot("g")));
    context.grant_place(ObjectPlaceId(1));
    assert!(context.place_is_writable(ObjectPlaceId(1)));
}

#[test]
fn cluster_policy_is_the_member_disjunction() {
    let views = vec![
        view(None, 10, pair(&[], ValuePresence::Absent, &[PolicyStage::Meta])),
        view(Some(1), 11, pair(&[PolicyStage::Compile], ValuePresence::Present, &[PolicyStage::Compile])),
        view(Some(1), 12, pair(&[PolicyStage::Runtime], ValuePresence::Present, &[PolicyStage::Compile])),
        view(Some(2), 13, pair(&[PolicyStage::Compile], ValuePresence::Present, &[PolicyStage::Compile])),
    ];
    let cluster = derived_cluster_policy(&views).unwrap();
    assert_eq!(cluster.value.stages, StageSet::from_stages(&[PolicyStage::Compile, PolicyStage::Runtime]));
    assert_eq!(cluster.value.presence, ValuePresence::Optional);
    assert_eq!(cluster.pattern.stages, StageSet::from_stages(&[PolicyStage::Meta, PolicyStage::Compile]));
    assert_eq!(derived_cluster_policy(&[]), None);
    let construction = SymbolConstructionValue {
        identity: ClusterConstructionId(1),
        member_views: views.clone(),
        owner: identity().owner,
        provenance: prov("c"),
    };
    assert_eq!(construction.pure_p(), Some(PatternValueId(10)));
    assert_eq!(construction.sibling_vals(), vec![SemanticValueId(1), SemanticValueId(2)]);
    assert_eq!(construction.cluster_policy(), Some(cluster));
}

#[test]
fn symbol_cell_projections() {
    let pure = PurePMember { pattern: PatternValueId(10), place: ObjectPlaceId(5), complete_type: None };
    let cell = SemanticSymbolCell {
        identity: identity(),
        name: "T".to_string(),
        declaration_owner: identity().owner,
        namespace_node: None,
        pure_p: Some(pure),
        sibling_vals: vec![SemanticValueId(1)],
        sibling_places: vec![(SemanticValueId(1), ObjectPlaceId(6))],
        member_views: vec![
            view(Some(1), 10, pair(&[PolicyStage::Compile], ValuePresence::Present, &[PolicyStage::Compile])),
            view(None, 10, pair(&[], ValuePresence::Absent, &[PolicyStage::Compile])),
        ],
        provenance: prov("cell"),
    };
    assert_eq!(cell.pure_p_pattern(), Some(PatternValueId(10)));
    assert_eq!(cell.pure_p_place(), Some(ObjectPlaceId(5)));
    assert_eq!(cell.pure_p_view().unwrap().value, None);
    assert_eq!(cell.all_value_ids(), vec![SemanticValueId(1)]);
    assert_eq!(cell.sibling_place(SemanticValueId(1)), Some(ObjectPlaceId(6)));
    assert_eq!(cell.sibling_place(SemanticValueId(2)), None);
    assert_eq!(cell.cluster_policy().unwrap().value.presence, ValuePresence::Optional);
}

#[test]
fn host_exposure_and_navigation() {
    let host = PatternHostMember {
        symbol: None,
        pattern: PatternValueId(3),
        place: ObjectPlaceId(4),
        complete_type: Some(CanonicalValueAddr(9)),
        view: Some(view(None, 3, pair(&[], ValuePresence::Absent, &[PolicyStage::Meta]))),
    };
    assert!(host.exposed_at(Phase::OpenStatic));
    assert!(!host.exposed_at(Phase::Runtime));
    let bare = PatternHostMember { view: None, ..host };
    assert!(bare.exposed_at(Phase::Runtime));
    let scope = SemanticOuterScope { host: Some(host), namespace: None };
    assert_eq!(scope.pattern(), Some(PatternValueId(3)));
    let navigation = ResolvedSemanticNavigation { host_chain: vec![bare, host], terminal_symbol: identity() };
    assert_eq!(*navigation.terminal_host().unwrap(), host);
    let direct = ResolvedSemanticNavigation { host_chain: Vec::new(), terminal_symbol: identity() };
    assert!(direct.terminal_host().is_none());
}

fn meta_authority(key: u64) -> ConstructionAuthority {
    ConstructionAuthority::MetaInvocation {
        meta_callable: MetaCallableIdentity(1),
        canonical_key: MetaInvocationMaterialKey(key),
    }
}

fn construction(authority: ConstructionAuthority, window: ConstructionWindow) -> OpenClusterConstruction {
    OpenClusterConstruction {
        id: ClusterConstructionId(7),
        owner: identity().owner,
        authority,
        member_views: Vec::new(),
        state: ConstructionState::Open,
        window,
        use_observation: UseObservationKind::default(),
        provenance: prov("open"),
    }
}

#[test]
fn matching_authority_and_live_window_establish_open_here() {
    let open = construction(meta_authority(1), ConstructionWindow::Meta);
    let context = ConstructionEvaluationContext::current(meta_authority(1));
    let proof = judge_open_here(&open, PatternValueId(3), ResidualRuntimeEpoch(0), &context).unwrap();
    assert_eq!(proof.construction(), ClusterConstructionId(7));
    assert_eq!(proof.target_pattern(), PatternValueId(3));
    let creation = judge_member_creation(&open, PatternValueId(3), ResidualRuntimeEpoch(0), &context).unwrap();
    assert_eq!(*creation.open_here(), proof);
}

#[test]
fn masking_meta_frame_blocks_outer_authority() {
    let owner = identity().owner;
    let ambient = ConstructionAuthority::AmbientScope { owner };
    let open = construction(ambient, ConstructionWindow::Meta);
    let masked = ConstructionEvaluationContext::from_frames(vec![meta_authority(2), ambient]);
    assert_eq!(
        judge_open_here(&open, PatternValueId(3), ResidualRuntimeEpoch(0), &masked).unwrap_err(),
        OpenHereFailure::AuthorityMismatch(ClusterConstructionId(7))
    );
    let outward = ConstructionEvaluationContext::from_frames(vec![ConstructionAuthority::BuildRoot, ambient]);
    assert!(judge_open_here(&open, PatternValueId(3), ResidualRuntimeEpoch(0), &outward).is_ok());
    let nested_meta = construction(meta_authority(1), ConstructionWindow::Meta);
    let inner_meta = ConstructionEvaluationContext::from_frames(vec![meta_authority(2), meta_authority(1)]);
    assert!(judge_open_here(&nested_meta, PatternValueId(3), ResidualRuntimeEpoch(0), &inner_meta).is_err());
    assert_eq!(masked.frames_nearest_first().len(), 2);
}

#[test]
fn ordinary_window_closes_on_use_or_new_segment() {
    let live = OrdinaryOpenWindow { creation_flow_segment: ResidualRuntimeEpoch(2), first_use_seen: false, closed_by_fork_or_end: false };
    let open = construction(ConstructionAuthority::BuildRoot, ConstructionWindow::Ordinary(live));
    assert!(construction_window_is_live(&open, ResidualRuntimeEpoch(2)));
    assert!(!construction_window_is_live(&open, ResidualRuntimeEpoch(3)));
    let used = construction(
        ConstructionAuthority::BuildRoot,
        ConstructionWindow::Ordinary(OrdinaryOpenWindow { first_use_seen: true, ..live }),
    );
    assert!(!construction_window_is_live(&used, ResidualRuntimeEpoch(2)));
    let context = ConstructionEvaluationContext::current(ConstructionAuthority::BuildRoot);
    assert_eq!(
        judge_open_here(&used, PatternValueId(1), ResidualRuntimeEpoch(2), &context).unwrap_err(),
        OpenHereFailure::WindowClosed(ClusterConstructionId(7))
    );
    let mut frozen = construction(ConstructionAuthority::BuildRoot, ConstructionWindow::Meta);
    frozen.state = ConstructionState::Frozen;
    assert!(!construction_window_is_live(&frozen, ResidualRuntimeEpoch(0)));
    assert_eq!(frozen.pure_p(), None);
    assert!(frozen.sibling_vals().is_empty());
    assert_eq!(frozen.cluster_policy(), None);
}

#[test]
fn canonical_view_completes_and_reconciles() {
    let derived = PolicyView { pair: pair(&[PolicyStage::Meta], ValuePresence::Present, &[PolicyStage::Meta]), mode: PolicyMode::Plain };
    let outer = ExplicitP1Selection { value_stages: None, presence: None, pattern_stages: None, mode: Some(PolicyMode::Const) };
    let view = canonical_function_object_view(Some(&outer), &derived, &derived, None, &prov("fn")).unwrap();
    assert_eq!(view.mode, PolicyMode::Const);
    assert_eq!(view.pair, derived.pair);
    assert_eq!(canonical_function_object_view(None, &derived, &derived, None, &prov("fn")).unwrap(), derived);
    let absent = ExplicitP1Selection { value_stages: None, presence: Some(ValuePresence::Absent), pattern_stages: None, mode: None };
    let err = canonical_function_object_view(Some(&absent), &derived, &derived, None, &prov("fn")).unwrap_err();
    assert_eq!(err.kind, DiagnosticKind::CanonicalP1AbsentValueCarriesStages);
}

fn closure_with_written_self(policy: Option<lib::policy_syntax::NormPolicySpec>) -> lib::norm_syntax::NormClosure {
    let at = lib::norm_syntax::NormOrigin { start: 0, end: 1 };
    lib::norm_syntax::NormClosure {
        semantic_owner: None,
        head: Some(lib::norm_syntax::NormClosureHead {
            returns: None,
            written_self: Some(lib::norm_syntax::NormPatternElem::BindingSlot(lib::norm_syntax::NormBindingSlot {
                value_pattern: lib::norm_syntax::NormPattern::Binder { name: "self".to_string(), origin: at },
                policy,
                initializer: None,
                origin: at,
            })),
            origin: at,
        }),
        body: None,
        origin: at,
    }
}

fn const_policy() -> lib::policy_syntax::NormPolicySpec {
    lib::policy_syntax::NormPolicySpec {
        value_policy: lib::policy_syntax::NormValuePolicyPattern::Conjunction(lib::policy_syntax::NormPolicyConjunction {
            choices: vec![lib::policy_syntax::NormPolicyChoice {
                atoms: vec![lib::policy_syntax::NormPolicyAtom::Name { text: "const".to_string() }],
            }],
        }),
        pattern_policy: None,
    }
}

#[test]
fn canonical_view_reads_the_written_self_policy_of_the_closure() {
    let derived = PolicyView { pair: pair(&[PolicyStage::Meta], ValuePresence::Present, &[PolicyStage::Meta]), mode: PolicyMode::Plain };
    let closure = closure_with_written_self(Some(const_policy()));
    let view = canonical_function_object_view(None, &derived, &derived, Some(&closure), &prov("fn")).unwrap();
    assert_eq!(view.mode, PolicyMode::Const);
    assert_eq!(view.pair, derived.pair);
    let outer = ExplicitP1Selection { value_stages: None, presence: None, pattern_stages: None, mode: Some(PolicyMode::Mut) };
    let err = canonical_function_object_view(Some(&outer), &derived, &derived, Some(&closure), &prov("fn")).unwrap_err();
    assert_eq!(err.kind, DiagnosticKind::CanonicalP1Mismatch);
    let bare = closure_with_written_self(None);
    assert_eq!(canonical_function_object_view(None, &derived, &derived, Some(&bare), &prov("fn")).unwrap(), derived);
}
