use lib::model::{CanonicalTypeObservation, CanonicalValueAddr, ExecutionEnv, Provenance, SemanticValueId, SymbolId, TypeValueId};
use lib::policy_pair::{PatternComponentPolicy, Phase, PolicyMode, PolicyPair, PolicyStage, StageSet, ValueComponentPolicy, ValuePresence};
use lib::product_shape::{NonValueArgKind, RawArgShape, RawArgValueClass};
use lib::v08;

fn prov(text: &str) -> Provenance {
    Provenance::new(text.to_string())
}

fn unknown_arg() -> RawArgShape {
    RawArgShape {
        index: 0,
        value_class: RawArgValueClass::UnknownExpression,
        explicit_pass_mode: None,
        known_type_symbol_id: None,
        known_type_pattern_name: None,
        known_first_order_type_value: None,
        known_type_member_view: None,
        known_type_carrier_place: None,
        known_complete_type_observation: None,
        known_type_observation: None,
        known_semantic_value: None,
        known_value_mode: None,
        provenance: prov("arg"),
    }
}

#[test]
fn unknown_expression_is_unclassified() {
    let arg = unknown_arg();
    assert_eq!(arg.is_value(), None);
    assert!(!arg.receives_automatic_pass_action());
    assert_eq!(arg.type_observation(), None);
}

#[test]
fn resolved_value_receives_pass_action() {
    let arg = unknown_arg().as_resolved_value();
    assert_eq!(arg.is_value(), Some(true));
    assert!(arg.receives_automatic_pass_action());
    let typed = unknown_arg().as_resolved_semantic_value(SemanticValueId(3), TypeValueId(4), PolicyMode::Mut);
    assert_eq!(typed.known_first_order_type_value, Some(TypeValueId(4)));
    assert_eq!(typed.known_semantic_value, Some(SemanticValueId(3)));
    assert_eq!(typed.known_value_mode, Some(PolicyMode::Mut));
    assert_eq!(typed.index, 0);
}

#[test]
fn type_projection_keeps_carrier_and_type_apart() {
    let arg = unknown_arg().as_complete_type_projection_with_identity(SymbolId(7), TypeValueId(8));
    assert_eq!(arg.value_class, RawArgValueClass::NonValue(NonValueArgKind::CoreTypeProjection));
    assert_eq!(arg.known_type_symbol_id, Some(SymbolId(7)));
    assert_eq!(arg.known_first_order_type_value, Some(TypeValueId(8)));
    assert_eq!(arg.is_value(), Some(false));
    let named = unknown_arg().as_complete_type_projection_named(
        "uint8".to_string(),
        TypeValueId(8),
        None,
        None,
        None,
        Some(CanonicalValueAddr(5)),
    );
    assert_eq!(named.known_type_pattern_name, Some("uint8".to_string()));
    assert_eq!(named.known_complete_type_observation, Some(CanonicalValueAddr(5)));
    let observed = RawArgShape { known_type_observation: Some(CanonicalValueAddr(6)), ..unknown_arg() };
    assert_eq!(observed.type_observation(), Some(CanonicalTypeObservation::Observed(CanonicalValueAddr(6))));
    assert_eq!(unknown_arg().as_non_value(NonValueArgKind::RankObject).is_value(), Some(false));
}

#[test]
fn alias_chain_and_parameter_shapes() {
    let chain = v08::AliasChain::new(SymbolId(1), SymbolId(2), prov("alias"));
    assert_eq!(chain.final_symbol, Some(SymbolId(2)));
    assert!(!chain.creates_fresh_writable_place());
    assert_eq!(chain.query_disposition(v08::AliasQueryMode::CallableLookup), v08::AliasQueryDisposition::PolicyAwareSymbolResolution);
    assert_eq!(v08::ParameterShape::exact_arity(2, prov("p")).expected_arity, Some(2));
    assert_eq!(v08::ParameterShape::deferred(prov("p")).expected_arity, None);
    assert_eq!(v08::TypeValueId(9).as_u64(), 9);
    assert_eq!(v08::PlaceId(3).as_u64(), 3);
    let placeholder = v08::TypeValueBindingPlaceholder::new(SymbolId(1), v08::PlaceId(3), v08::TypeValueId(9), prov("b"));
    assert_eq!(placeholder.place, v08::PlaceId(3));
}

#[test]
fn candidate_planes_check_body_entry() {
    let meta = PolicyPair {
        value: ValueComponentPolicy { stages: StageSet::from_stages(&[PolicyStage::Meta]), presence: ValuePresence::Present },
        pattern: PatternComponentPolicy { stages: StageSet::from_stages(&[PolicyStage::Meta]) },
    };
    let planes = v08::CandidatePolicyPlanes {
        symbol_visibility: Phase::OpenStatic,
        demanded_execution: ExecutionEnv::OpenStatic,
        body_entry_policy: meta,
        return_object_policy: meta,
    };
    assert!(planes.body_entry_allows_demanded_execution());
    let runtime = v08::CandidatePolicyPlanes { demanded_execution: ExecutionEnv::Runtime, ..planes };
    assert!(!runtime.body_entry_allows_demanded_execution());
    let raw = v08::RawArgShape {
        index: 1,
        value_class: v08::RawArgValueClass::NonValue(v08::NonValueArgKind::TypeObject),
        explicit_pass_mode: None,
        known_first_order_type_value: None,
        provenance: prov("raw"),
    };
    assert_eq!(raw.is_value(), Some(false));
    assert!(!raw.receives_automatic_pass_action());
}
