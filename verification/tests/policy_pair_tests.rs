use lib::model::{DiagnosticKind, ExecutionEnv, PolicyContext, Provenance};
use lib::policy_pair::{
    body_entry_allows_execution, derive_function_object_view, elaborate_binding_result_demand,
    elaborate_formal_policy_pattern, elaborate_namespace_declaration_policy, elaborate_return_policy_pattern,
    function_object_declaration_policy, normalize_p2_policy, policy_or, project_p1, restrict_stages,
    BuiltinPrivilegedSealFunction, ExplicitP1Selection, FunctionObjectDeclarationPolicy,
    NamespaceDeclarationPosition, NamespaceVisibility, P1Projection, PatternComponentPolicy, Phase, PolicyMode,
    PolicyPair, PolicyResultEntry, PolicyStage, PolicyView, SealWorldSnapshot, StageSet, ValueComponentPolicy,
    ValuePresence,
};
use lib::policy_syntax::{
    NormPolicyAtom, NormPolicyChoice, NormPolicyConjunction, NormPolicySpec, NormValuePolicyPattern,
};

fn prov(text: &str) -> Provenance {
    Provenance::new(text.to_string())
}

fn name(text: &str) -> NormPolicyAtom {
    NormPolicyAtom::Name { text: text.to_string() }
}

/// `a + b + ...` where each term is a single atom.
fn conj(names: &[&str]) -> NormPolicyConjunction {
    let mut choices = Vec::new();
    for n in names {
        choices.push(NormPolicyChoice { atoms: vec![name(n)] });
    }
    NormPolicyConjunction { choices }
}

fn value_only(names: &[&str]) -> NormPolicySpec {
    NormPolicySpec { value_policy: NormValuePolicyPattern::Conjunction(conj(names)), pattern_policy: None }
}

fn stages(list: &[PolicyStage]) -> StageSet {
    StageSet::from_stages(list)
}

fn pair(value: &[PolicyStage], presence: ValuePresence, pattern: &[PolicyStage]) -> PolicyPair {
    PolicyPair {
        value: ValueComponentPolicy { stages: stages(value), presence },
        pattern: PatternComponentPolicy { stages: stages(pattern) },
    }
}

#[test]
fn stage_set_algebra() {
    let a = stages(&[PolicyStage::Meta, PolicyStage::Compile]);
    let b = stages(&[PolicyStage::Compile, PolicyStage::Runtime]);
    assert_eq!(a.union(&b).len(), 3);
    assert_eq!(a.intersection(&b), stages(&[PolicyStage::Compile]));
    assert!(a.intersects(&b));
    assert!(!a.is_subset(&b));
    assert!(stages(&[PolicyStage::Compile]).is_subset(&a));
    assert_eq!(b.static_stages(), stages(&[PolicyStage::Compile]));
    assert!(StageSet::new().is_empty());
    assert_eq!(a.iter(), vec![PolicyStage::Meta, PolicyStage::Compile]);
}

#[test]
fn stage_visibility_by_phase() {
    assert!(PolicyStage::Meta.visible_at(Phase::OpenStatic));
    assert!(!PolicyStage::Meta.visible_at(Phase::SealStatic));
    assert!(PolicyStage::Compile.visible_at(Phase::SealStatic));
    assert!(PolicyStage::Runtime.visible_at(Phase::Runtime));
    assert!(!PolicyStage::Runtime.is_static());
    assert!(PolicyStage::Seal.is_static());
}

#[test]
fn normalize_meta_p2() {
    let view = normalize_p2_policy(&value_only(&["meta"]), prov("p2")).unwrap();
    assert_eq!(view.pair, pair(&[PolicyStage::Meta], ValuePresence::Present, &[PolicyStage::Meta]));
    assert_eq!(view.mode, PolicyMode::Plain);
}

#[test]
fn normalize_runtime_p2_defaults_pattern_to_compile() {
    let view = normalize_p2_policy(&value_only(&["runtime"]), prov("p2")).unwrap();
    assert_eq!(view.pair, pair(&[PolicyStage::Runtime], ValuePresence::Present, &[PolicyStage::Compile]));
}

#[test]
fn normalize_p2_with_mode() {
    let view = normalize_p2_policy(&value_only(&["meta", "const"]), prov("p2")).unwrap();
    assert_eq!(view.mode, PolicyMode::Const);
    assert_eq!(view.pair.value.stages, stages(&[PolicyStage::Meta]));
}

#[test]
fn normalize_p2_choice_of_stages() {
    let spec = NormPolicySpec {
        value_policy: NormValuePolicyPattern::Conjunction(NormPolicyConjunction {
            choices: vec![NormPolicyChoice { atoms: vec![name("meta"), name("compile")] }],
        }),
        pattern_policy: None,
    };
    let view = normalize_p2_policy(&spec, prov("p2")).unwrap();
    let both = stages(&[PolicyStage::Meta, PolicyStage::Compile]);
    assert_eq!(view.pair.value.stages, both);
    assert_eq!(view.pair.pattern.stages, both);
}

#[test]
fn normalize_p2_rejects_namespace_attribute() {
    let err = normalize_p2_policy(&value_only(&["public"]), prov("here")).unwrap_err();
    assert_eq!(err.kind, DiagnosticKind::NamespaceAttributesInvalid(PolicyContext::P2));
    assert_eq!(err.provenance, Some(prov("here")));
}

#[test]
fn normalize_p2_rejects_absent_value_without_pattern() {
    let spec = NormPolicySpec { value_policy: NormValuePolicyPattern::Absent, pattern_policy: None };
    let err = normalize_p2_policy(&spec, prov("p2")).unwrap_err();
    assert_eq!(err.kind, DiagnosticKind::AbsentP2ValueRequiresPattern);
}

#[test]
fn normalize_p2_rejects_unknown_atom() {
    let err = normalize_p2_policy(&value_only(&["banana"]), prov("p2")).unwrap_err();
    assert_eq!(err.kind, DiagnosticKind::UnknownPolicyAtom("banana".to_string()));
}

#[test]
fn normalize_p2_rejects_two_modes() {
    let err = normalize_p2_policy(&value_only(&["meta", "const", "mut"]), prov("p2")).unwrap_err();
    assert_eq!(err.kind, DiagnosticKind::SameDimensionConjunction);
}

#[test]
fn policy_or_unites_and_weakens_presence() {
    let a = pair(&[PolicyStage::Meta], ValuePresence::Present, &[PolicyStage::Meta]);
    let b = pair(&[], ValuePresence::Absent, &[PolicyStage::Compile]);
    let joined = policy_or(&a, &b);
    assert_eq!(joined.value.stages, stages(&[PolicyStage::Meta]));
    assert_eq!(joined.value.presence, ValuePresence::Optional);
    assert_eq!(joined.pattern.stages, stages(&[PolicyStage::Meta, PolicyStage::Compile]));
    assert_eq!(policy_or(&a, &a), a);
    assert_eq!(policy_or(&a, &b), policy_or(&b, &a));
}

#[test]
fn body_entry_domain_decides_execution() {
    let meta = pair(&[PolicyStage::Meta], ValuePresence::Present, &[PolicyStage::Meta]);
    assert!(body_entry_allows_execution(&meta, ExecutionEnv::OpenStatic));
    assert!(!body_entry_allows_execution(&meta, ExecutionEnv::Runtime));
    let pure = pair(&[], ValuePresence::Absent, &[PolicyStage::Compile]);
    assert!(body_entry_allows_execution(&pure, ExecutionEnv::SealStatic));
}

#[test]
fn restrict_stages_empty_query_keeps_all() {
    let available = stages(&[PolicyStage::Meta, PolicyStage::Compile]);
    assert_eq!(restrict_stages(&StageSet::new(), &available), Some(available));
    assert_eq!(
        restrict_stages(&stages(&[PolicyStage::Compile]), &available),
        Some(stages(&[PolicyStage::Compile]))
    );
    assert_eq!(restrict_stages(&stages(&[PolicyStage::Runtime]), &available), None);
}

fn entry(value: Option<u64>, pattern: u64, p: PolicyPair) -> PolicyResultEntry<u64, u64> {
    PolicyResultEntry { value, pattern, view: PolicyView { pair: p, mode: PolicyMode::Plain } }
}

#[test]
fn project_infer_keeps_every_entry() {
    let entries = vec![
        entry(Some(1), 10, pair(&[PolicyStage::Meta], ValuePresence::Present, &[PolicyStage::Meta])),
        entry(None, 11, pair(&[], ValuePresence::Absent, &[PolicyStage::Compile])),
    ];
    assert_eq!(project_p1(&P1Projection::Infer, &entries), entries);
}

#[test]
fn project_pair_restricts_stages_and_drops_mismatches() {
    let entries = vec![
        entry(
            Some(1),
            10,
            pair(
                &[PolicyStage::Meta, PolicyStage::Compile],
                ValuePresence::Present,
                &[PolicyStage::Meta, PolicyStage::Compile],
            ),
        ),
        entry(None, 11, pair(&[], ValuePresence::Absent, &[PolicyStage::Compile])),
    ];
    let query = P1Projection::Pair(pair(&[PolicyStage::Compile], ValuePresence::Present, &[PolicyStage::Compile]));
    let projected = project_p1(&query, &entries);
    assert_eq!(projected.len(), 1);
    assert_eq!(projected[0].value, Some(1));
    assert_eq!(projected[0].view.pair, pair(&[PolicyStage::Compile], ValuePresence::Present, &[PolicyStage::Compile]));
}

#[test]
fn binding_demand_defaults_to_inference() {
    let demand = elaborate_binding_result_demand(None, prov("let")).unwrap();
    assert_eq!(demand.pair_query, P1Projection::Infer);
    assert_eq!(demand.mode, PolicyMode::Plain);
}

#[test]
fn binding_demand_is_value_dominant_with_its_mode() {
    let spec = value_only(&["meta", "const"]);
    let demand = elaborate_binding_result_demand(Some(&spec), prov("let")).unwrap();
    assert_eq!(
        demand.pair_query,
        P1Projection::ValueDominant {
            value: ValueComponentPolicy { stages: stages(&[PolicyStage::Meta]), presence: ValuePresence::Present },
        }
    );
    assert_eq!(demand.mode, PolicyMode::Const);
}

#[test]
fn binding_demand_rejects_namespace_attributes() {
    let spec = value_only(&["meta", "public"]);
    let err = elaborate_binding_result_demand(Some(&spec), prov("let")).unwrap_err();
    assert_eq!(err.kind, DiagnosticKind::NamespaceAttributesOnlyOnDeclarations);
    assert_eq!(err.provenance, Some(prov("let")));
}

fn meta_view() -> PolicyView {
    PolicyView { pair: pair(&[PolicyStage::Meta], ValuePresence::Present, &[PolicyStage::Meta]), mode: PolicyMode::Plain }
}

#[test]
fn formal_parameter_restricts_only_the_mode() {
    let inherited = meta_view();
    let none = elaborate_formal_policy_pattern(None, &inherited, prov("f")).unwrap();
    assert_eq!(none.effective_pair, inherited.pair);
    assert_eq!(none.mode, PolicyMode::Plain);
    let spec = value_only(&["const"]);
    let formal = elaborate_formal_policy_pattern(Some(&spec), &inherited, prov("f")).unwrap();
    assert_eq!(formal.effective_pair, inherited.pair);
    assert_eq!(formal.mode, PolicyMode::Const);
    let staged = value_only(&["meta"]);
    let err = elaborate_formal_policy_pattern(Some(&staged), &inherited, prov("f")).unwrap_err();
    assert_eq!(err.kind, DiagnosticKind::FormalRestrictsOnlyMode);
    let projected = NormPolicySpec {
        value_policy: NormValuePolicyPattern::Conjunction(conj(&["const"])),
        pattern_policy: Some(conj(&["meta"])),
    };
    let err = elaborate_formal_policy_pattern(Some(&projected), &inherited, prov("f")).unwrap_err();
    assert_eq!(err.kind, DiagnosticKind::FormalUsesPairProjection);
}

#[test]
fn return_position_overrides_only_the_mode() {
    let inherited = meta_view();
    let spec = value_only(&["mut"]);
    let ret = elaborate_return_policy_pattern(Some(&spec), &inherited, prov("r")).unwrap();
    assert_eq!(ret.effective_view, PolicyView { pair: inherited.pair, mode: PolicyMode::Mut });
    let staged = value_only(&["meta"]);
    let err = elaborate_return_policy_pattern(Some(&staged), &inherited, prov("r")).unwrap_err();
    assert_eq!(err.kind, DiagnosticKind::ReturnInheritsStages);
    let absent = NormPolicySpec { value_policy: NormValuePolicyPattern::Absent, pattern_policy: None };
    let err = elaborate_return_policy_pattern(Some(&absent), &inherited, prov("r")).unwrap_err();
    assert_eq!(err.kind, DiagnosticKind::ReturnRewritesPresence);
}

#[test]
fn namespace_declaration_policy_visibility_and_export() {
    let none = elaborate_namespace_declaration_policy(None, NamespaceDeclarationPosition::Local, prov("d")).unwrap();
    assert_eq!(none.projection, P1Projection::Infer);
    assert_eq!(none.mode, PolicyMode::Plain);
    assert_eq!(none.visibility, None);
    assert!(!none.export_root);
    let public = value_only(&["meta", "public"]);
    let decl =
        elaborate_namespace_declaration_policy(Some(&public), NamespaceDeclarationPosition::Local, prov("d")).unwrap();
    assert_eq!(decl.visibility, Some(NamespaceVisibility::Public));
    let conjoined = value_only(&["meta", "public", "private"]);
    let err = elaborate_namespace_declaration_policy(Some(&conjoined), NamespaceDeclarationPosition::Local, prov("d"))
        .unwrap_err();
    assert_eq!(err.kind, DiagnosticKind::SameDimensionConjunction);
    let both = NormPolicySpec {
        value_policy: NormValuePolicyPattern::Conjunction(conj(&["meta", "public"])),
        pattern_policy: Some(conj(&["meta", "private"])),
    };
    let err =
        elaborate_namespace_declaration_policy(Some(&both), NamespaceDeclarationPosition::Local, prov("d")).unwrap_err();
    assert_eq!(err.kind, DiagnosticKind::AmbiguousNamespaceVisibility);
    let export = value_only(&["meta", "export"]);
    let err =
        elaborate_namespace_declaration_policy(Some(&export), NamespaceDeclarationPosition::Local, prov("d")).unwrap_err();
    assert_eq!(err.kind, DiagnosticKind::ExportOnlyDirectTopLevel);
}

#[test]
fn function_object_view_is_present_in_every_result_stage() {
    let declaration = function_object_declaration_policy(
        &elaborate_namespace_declaration_policy(
            Some(&value_only(&["meta", "const"])),
            NamespaceDeclarationPosition::Local,
            prov("d"),
        )
        .unwrap(),
    );
    assert_eq!(declaration.mode, PolicyMode::Const);
    let result_p2 = PolicyView {
        pair: pair(&[PolicyStage::Runtime], ValuePresence::Optional, &[PolicyStage::Compile]),
        mode: PolicyMode::Plain,
    };
    let view = derive_function_object_view(&result_p2, &declaration);
    assert_eq!(view.pair, pair(&[PolicyStage::Compile, PolicyStage::Runtime], ValuePresence::Present, &[PolicyStage::Compile]));
    assert_eq!(view.mode, PolicyMode::Const);
    assert_eq!(FunctionObjectDeclarationPolicy::default().mode, PolicyMode::Plain);
}

#[test]
fn explicit_selection_from_a_complete_view() {
    let view = meta_view();
    let selection = ExplicitP1Selection::from_complete_view(&view);
    assert_eq!(selection.value_stages, Some(view.pair.value.stages));
    assert_eq!(selection.presence, Some(ValuePresence::Present));
    assert_eq!(selection.pattern_stages, Some(view.pair.pattern.stages));
    assert_eq!(selection.mode, Some(PolicyMode::Plain));
}

#[test]
fn seal_world_keeps_pre_seal_values_first() {
    let mut world = SealWorldSnapshot::new(vec![1u32, 2]);
    assert_eq!(world.scan_domain_for_builtin(BuiltinPrivilegedSealFunction::ExportWorldMaterializer), &[1, 2]);
    world.push_seal_generated(3);
    world.push_seal_generated(4);
    assert_eq!(world.scan_domain_for_builtin(BuiltinPrivilegedSealFunction::ExportWorldMaterializer), &[1, 2]);
    assert_eq!(world.seal_generated(), &[3, 4]);
    assert_eq!(world.final_world(), vec![&1, &2, &3, &4]);
    assert_eq!(world.resolve_explicit(|v: &u32| *v > 2), Some(&3));
    assert_eq!(world.resolve_explicit(|v: &u32| *v > 9), None);
}

#[test]
fn project_value_dominant_crops_presence_to_the_query() {
    let e = PolicyResultEntry {
        value: Some(5u64),
        pattern: 7u64,
        view: PolicyView {
            pair: pair(&[PolicyStage::Compile, PolicyStage::Runtime], ValuePresence::Optional, &[PolicyStage::Compile]),
            mode: PolicyMode::Mut,
        },
    };
    let e2 = PolicyResultEntry { value: None, ..e };
    let q = P1Projection::ValueDominant {
        value: ValueComponentPolicy { stages: stages(&[PolicyStage::Runtime]), presence: ValuePresence::Present },
    };
    let projected = project_p1(&q, &[e2, e]);
    assert_eq!(projected, vec![PolicyResultEntry {
        value: Some(5),
        pattern: 7,
        view: PolicyView {
            pair: pair(&[PolicyStage::Runtime], ValuePresence::Present, &[PolicyStage::Compile]),
            mode: PolicyMode::Mut,
        },
    }]);
    assert_eq!(project_p1(&q, &projected), projected);
}

#[test]
fn project_drops_entries_whose_presence_contradicts_the_query() {
    let absent = entry(None, 3, pair(&[PolicyStage::Meta], ValuePresence::Absent, &[]));
    let q = P1Projection::ValueDominant {
        value: ValueComponentPolicy { stages: StageSet::new(), presence: ValuePresence::Optional },
    };
    assert_eq!(project_p1(&q, &[absent]), vec![absent]);
    let optional = entry(None, 4, pair(&[PolicyStage::Meta], ValuePresence::Optional, &[]));
    let q_absent = P1Projection::ValueDominant {
        value: ValueComponentPolicy { stages: StageSet::new(), presence: ValuePresence::Absent },
    };
    assert_eq!(
        project_p1(&q_absent, &[optional])[0].view.pair.value.presence,
        ValuePresence::Absent
    );
}
