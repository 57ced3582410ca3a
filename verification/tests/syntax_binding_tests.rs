use lib::model::{
    DiagnosticKind, ExecutionEnv, FieldCallablePolicy, FieldObject, MetaFunctionObject, Provenance, SymbolId,
    SymbolKind, SymbolObject, SymbolPayload, TypeValueId,
};
use lib::norm_syntax::{
    NormBindingSlot, NormClosure, NormClosureHead, NormDecl, NormError, NormExpr, NormForm, NormOrigin, NormPattern,
    NormPatternElem, NormProduct, NormProductElem, NormProgram, NormReturnEvent, NormReturnTargetSyntax,
    NormSemanticOwnerId,
};
use lib::policy_pair::{
    PatternComponentPolicy, Phase, PolicyMode, PolicyPair, PolicyStage, StageSet, ValueComponentPolicy, ValuePresence,
};
use lib::product_shape::{ArgProductShape, ProductAtom, ProductMaterialRole, ProductObject, RawArgValueClass};
use lib::return_target::{
    elaborate_return_targets_in_program, elaborate_return_targets_in_returnable_closure,
    elaborate_return_targets_in_returnable_closure_with_resolver, resolve_explicit_return_target,
    ExplicitReturnTargetResolution, ExplicitReturnTargetResolver, PreservedReturnReason, ResolvedReturnTarget,
    ReturnFrameId, ReturnFrameOwner, ReturnSelfIdentity, ReturnSlotRef, ReturnTargetStack,
    UnresolvedReturnTargetForm,
};
use lib::v08;

fn at(start: u64) -> NormOrigin {
    NormOrigin { start, end: start + 1 }
}

fn name(text: &str, start: u64) -> NormExpr {
    NormExpr::Name { text: text.to_string(), origin: at(start) }
}

fn prov(text: &str) -> Provenance {
    Provenance::new(text.to_string())
}

fn nested_product() -> NormProduct {
    NormProduct {
        elements: vec![
            NormProductElem::Expr(name("a", 1)),
            NormProductElem::Expr(NormExpr::Product(NormProduct {
                elements: vec![NormProductElem::Expr(name("b", 3)), NormProductElem::Unit { origin: at(4) }],
                origin: at(2),
            })),
            NormProductElem::Expr(NormExpr::Unsupported { raw_kind_summary: "odd".to_string(), origin: at(5) }),
            NormProductElem::Expr(NormExpr::Error(NormError { message: "bad".to_string(), origin: at(6) })),
        ],
        origin: at(0),
    }
}

#[test]
fn flatten_expands_nested_products_in_order() {
    let object = ProductObject::from_norm_product(nested_product(), ProductMaterialRole::SourceProduct);
    assert_eq!(object.provenance.description, "ProductObject");
    assert_eq!(object.provenance.origin, Some(at(0)));
    let flattened = object.flatten();
    assert!(flattened.invariant.no_direct_product_atom_remains);
    assert_eq!(flattened.atoms.len(), 5);
    assert_eq!(flattened.atoms[0], ProductAtom::Expression {
        expr: name("a", 1),
        provenance: Provenance::from_norm_origin("product expression", at(1)),
    });
    assert_eq!(flattened.atoms[1], ProductAtom::Expression {
        expr: name("b", 3),
        provenance: Provenance::from_norm_origin("product expression", at(3)),
    });
    assert_eq!(flattened.atoms[2], ProductAtom::Unit { provenance: Provenance::from_norm_origin("product Unit", at(4)) });
    assert_eq!(flattened.atoms[3], ProductAtom::Unsupported {
        summary: "odd".to_string(),
        provenance: Provenance::from_norm_origin("unsupported product atom", at(5)),
    });
    assert_eq!(flattened.atoms[4], ProductAtom::Unsupported {
        summary: "bad".to_string(),
        provenance: Provenance::from_norm_origin("error product atom", at(6)),
    });
}

#[test]
fn flat_product_keeps_one_atom_per_element() {
    let product = NormProduct {
        elements: vec![NormProductElem::Expr(name("x", 1)), NormProductElem::Unit { origin: at(2) }],
        origin: at(0),
    };
    let flattened = ProductObject::from_norm_product(product, ProductMaterialRole::CallableArgumentProduct).flatten();
    assert_eq!(flattened.atoms.len(), 2);
    assert!(matches!(flattened.atoms[1], ProductAtom::Unit { .. }));
}

#[test]
fn argument_shape_numbers_and_classifies_atoms() {
    let object = ProductObject::from_norm_product(nested_product(), ProductMaterialRole::SourceProduct);
    let shape = object.to_arg_product_shape();
    assert_eq!(shape.arity, 5);
    assert_eq!(shape.raw_args.len(), 5);
    for (i, raw) in shape.raw_args.iter().enumerate() {
        assert_eq!(raw.index, i);
        assert_eq!(raw.explicit_pass_mode, None);
    }
    assert_eq!(shape.raw_args[0].value_class, RawArgValueClass::UnknownExpression);
    assert_eq!(
        shape.raw_args[2].value_class,
        RawArgValueClass::NonValue(lib::product_shape::NonValueArgKind::ProductUnit)
    );
    assert_eq!(shape.raw_args[3].value_class, RawArgValueClass::Unsupported { summary: "odd".to_string() });
    assert_eq!(shape.raw_args[2].provenance.origin, Some(at(4)));
    assert_eq!(shape.provenance, shape.flattened.provenance);
}

#[test]
fn semantic_value_atom_is_a_known_value() {
    let atom = ProductAtom::SemanticValue {
        value: lib::model::SemanticValueId(4),
        type_value: TypeValueId(9),
        mode: PolicyMode::Const,
        provenance: prov("inserted"),
    };
    let raw = lib::product_shape::RawArgShape::from_product_atom(3, &atom);
    assert_eq!(raw.index, 3);
    assert_eq!(raw.value_class, RawArgValueClass::Value);
    assert_eq!(raw.known_first_order_type_value, Some(TypeValueId(9)));
    assert_eq!(raw.known_semantic_value, Some(lib::model::SemanticValueId(4)));
    assert_eq!(raw.known_value_mode, Some(PolicyMode::Const));
    assert!(raw.receives_automatic_pass_action());
}

#[test]
fn empty_argument_shape_has_no_arguments() {
    let shape = ArgProductShape::empty(prov("none"));
    assert_eq!(shape.arity, 0);
    assert!(shape.raw_args.is_empty());
    assert!(shape.flattened.atoms.is_empty());
    assert_eq!(shape.provenance, prov("none"));
}

#[test]
fn v08_flatten_uses_its_own_atoms() {
    let object = v08::ProductObject::from_norm_product(nested_product(), v08::ProductMaterialRole::Placeholder);
    assert_eq!(object.provenance.description, "v0.8 ProductObject");
    let shape = object.to_arg_product_shape();
    assert_eq!(shape.arity, 5);
    assert_eq!(shape.flattened.atoms[2], v08::ProductAtom::Unit {
        provenance: Provenance::from_norm_origin("v0.8 product Unit", at(4)),
    });
    assert_eq!(shape.raw_args[4].value_class, v08::RawArgValueClass::Unsupported { summary: "bad".to_string() });
    assert_eq!(shape.raw_args[0].value_class, v08::RawArgValueClass::UnknownExpression);
}

fn meta_pair() -> PolicyPair {
    PolicyPair {
        value: ValueComponentPolicy { stages: StageSet::from_stages(&[PolicyStage::Meta]), presence: ValuePresence::Present },
        pattern: PatternComponentPolicy { stages: StageSet::from_stages(&[PolicyStage::Meta]) },
    }
}

fn meta_function(id: u64) -> SymbolObject {
    SymbolObject {
        id: SymbolId(id),
        name: "make".to_string(),
        kind: SymbolKind::MetaFunction,
        payload: SymbolPayload::MetaFunction(MetaFunctionObject {
            body_entry_policy: meta_pair(),
            return_object_policy: meta_pair(),
        }),
        provenance: prov("callee"),
    }
}

fn two_argument_shape() -> v08::ArgProductShape {
    let product = NormProduct {
        elements: vec![NormProductElem::Expr(name("x", 1)), NormProductElem::Expr(name("y", 2))],
        origin: at(0),
    };
    v08::ProductObject::from_norm_product(product, v08::ProductMaterialRole::CallableArgumentProduct)
        .to_arg_product_shape()
}

fn context(demanded: ExecutionEnv) -> v08::CandidatePreparationContext {
    v08::CandidatePreparationContext {
        symbol_visibility: Phase::OpenStatic,
        demanded_execution: demanded,
        provenance: prov("call"),
    }
}

#[test]
fn candidate_preparation_needs_a_callable_symbol() {
    let mut callee = meta_function(7);
    callee.kind = SymbolKind::Type;
    let result = v08::prepare_meta_callable_candidate(
        &callee,
        two_argument_shape(),
        v08::ParameterShape::exact_arity(2, prov("params")),
        context(ExecutionEnv::OpenStatic),
    );
    match result {
        v08::CandidatePrepResult::Diagnostic(d) => {
            assert_eq!(d.kind, DiagnosticKind::CandidateRequiresCallableSymbol(SymbolId(7)));
            assert_eq!(d.provenance, Some(prov("callee")));
        },
        other => panic!("unexpected {:?}", other),
    }
}

#[test]
fn candidate_preparation_defers_an_unknown_parameter_shape() {
    let result = v08::prepare_meta_callable_candidate(
        &meta_function(7),
        two_argument_shape(),
        v08::ParameterShape::deferred(prov("params")),
        context(ExecutionEnv::OpenStatic),
    );
    match result {
        v08::CandidatePrepResult::Deferred { candidate, reason } => {
            assert_eq!(reason, v08::CandidatePrepDeferredReason::ParameterShapeCompatibilityDeferred);
            assert_eq!(candidate.callee_symbol_id, SymbolId(7));
            assert_eq!(candidate.callee_name, "make");
            assert_eq!(candidate.callable_kind, v08::CallableCandidateKind::MetaFunction);
            assert_eq!(candidate.canonical_key_seed.argument_arity, 2);
            assert_eq!(candidate.canonical_key_seed.argument_type_values, vec![None, None]);
            assert_eq!(candidate.provenance, prov("call"));
        },
        other => panic!("unexpected {:?}", other),
    }
}

#[test]
fn candidate_preparation_rejects_an_arity_mismatch() {
    let result = v08::prepare_meta_callable_candidate(
        &meta_function(7),
        two_argument_shape(),
        v08::ParameterShape::exact_arity(3, prov("params")),
        context(ExecutionEnv::OpenStatic),
    );
    match result {
        v08::CandidatePrepResult::Diagnostic(d) => {
            assert_eq!(d.kind, DiagnosticKind::CandidateArityMismatch { callee: SymbolId(7), expected: 3, actual: 2 });
            assert_eq!(d.provenance, Some(prov("params")));
        },
        other => panic!("unexpected {:?}", other),
    }
}

#[test]
fn candidate_preparation_defers_a_body_entry_mismatch() {
    let result = v08::prepare_meta_callable_candidate(
        &meta_function(7),
        two_argument_shape(),
        v08::ParameterShape::exact_arity(2, prov("params")),
        context(ExecutionEnv::Runtime),
    );
    match result {
        v08::CandidatePrepResult::Deferred { reason, .. } => {
            assert_eq!(reason, v08::CandidatePrepDeferredReason::BodyEntryPolicyMismatch);
        },
        other => panic!("unexpected {:?}", other),
    }
}

#[test]
fn candidate_preparation_accepts_a_matching_field_function() {
    let callee = SymbolObject {
        id: SymbolId(8),
        name: "field".to_string(),
        kind: SymbolKind::FieldFunction,
        payload: SymbolPayload::FieldFunction(FieldObject {
            callable_policy: FieldCallablePolicy { body_entry_policy: meta_pair(), return_object_policy: meta_pair() },
        }),
        provenance: prov("callee"),
    };
    let result = v08::prepare_meta_callable_candidate(
        &callee,
        two_argument_shape(),
        v08::ParameterShape::exact_arity(2, prov("params")),
        context(ExecutionEnv::OpenStatic),
    );
    match result {
        v08::CandidatePrepResult::ApplicablePlaceholder(candidate) => {
            assert_eq!(candidate.callable_kind, v08::CallableCandidateKind::FieldFunction);
            assert_eq!(candidate.policy_planes.demanded_execution, ExecutionEnv::OpenStatic);
            assert_eq!(candidate.arg_product_shape.arity, 2);
        },
        other => panic!("unexpected {:?}", other),
    }
}

fn return_event(value: NormExpr, target: NormReturnTargetSyntax, start: u64) -> NormForm {
    NormForm::ReturnEvent(NormReturnEvent { value, target, origin: at(start) })
}

fn closure(owner: Option<u64>, body: Vec<NormForm>) -> NormClosure {
    NormClosure {
        semantic_owner: owner.map(NormSemanticOwnerId),
        head: Some(NormClosureHead {
            returns: Some(NormBindingSlot {
                policy: None,
                value_pattern: NormPattern::Binder { name: "out".to_string(), origin: at(91) },
                initializer: None,
                origin: at(90),
            }),
            written_self: Some(NormPatternElem::Pattern(NormPattern::Binder { name: "me".to_string(), origin: at(92) })),
            origin: at(89),
        }),
        body: Some(NormProgram { forms: body }),
        origin: at(88),
    }
}

fn source_owner() -> ReturnFrameOwner {
    ReturnFrameOwner::SourceCallable { symbol_id: Some(SymbolId(3)), name: Some("f".to_string()) }
}

#[test]
fn implicit_return_binds_to_the_enclosing_closure() {
    let c = closure(Some(5), vec![return_event(name("v", 10), NormReturnTargetSyntax::ImplicitNearest, 11)]);
    let report = elaborate_return_targets_in_returnable_closure(&c, source_owner());
    assert_eq!(report.frames.len(), 1);
    let frame = &report.frames[0];
    assert_eq!(frame.frame_id, ReturnFrameId(0));
    assert_eq!(frame.owner, source_owner());
    assert_eq!(frame.return_slot.name, Some("out".to_string()));
    assert_eq!(frame.return_slot.origin, at(90));
    assert_eq!(frame.callable_self_owner, Some(NormSemanticOwnerId(5)));
    assert_eq!(
        frame.self_identity,
        Some(ReturnSelfIdentity {
            callable_owner: NormSemanticOwnerId(5),
            display_name: Some("me".to_string()),
            origin: at(88),
        })
    );
    assert_eq!(report.bound_events.len(), 1);
    assert_eq!(report.bound_events[0].resolved_target, ResolvedReturnTarget::ActiveFrame(ReturnFrameId(0)));
    assert_eq!(report.bound_events[0].value, name("v", 10));
    assert_eq!(report.bound_events[0].unresolved_target, UnresolvedReturnTargetForm::ImplicitNearest);
    assert!(report.preserved_unbound_events.is_empty());
    assert!(report.diagnostics.is_empty());
}

#[test]
fn return_outside_a_returnable_context_is_diagnosed() {
    let program = NormProgram { forms: vec![return_event(name("v", 10), NormReturnTargetSyntax::ImplicitNearest, 11)] };
    let report = elaborate_return_targets_in_program(&program);
    assert!(report.frames.is_empty());
    assert!(report.bound_events.is_empty());
    assert_eq!(report.diagnostics.len(), 1);
    assert_eq!(report.diagnostics[0].kind, DiagnosticKind::ReturnOutsideReturnableContext);
    assert_eq!(
        report.diagnostics[0].provenance,
        Some(Provenance::from_norm_origin("return target binding", at(11)))
    );
}

#[test]
fn explicit_target_without_resolver_is_preserved() {
    let c = closure(Some(5), vec![return_event(name("v", 10), NormReturnTargetSyntax::Explicit(name("f", 12)), 11)]);
    let report = elaborate_return_targets_in_returnable_closure(&c, ReturnFrameOwner::AnonymousClosure);
    assert!(report.bound_events.is_empty());
    assert_eq!(report.preserved_unbound_events.len(), 1);
    let preserved = &report.preserved_unbound_events[0];
    assert_eq!(preserved.reason, PreservedReturnReason::SemanticTargetResolutionRequired);
    assert_eq!(preserved.event.target, UnresolvedReturnTargetForm::Explicit(name("f", 12)));
    assert_eq!(preserved.event.origin, at(11));
}

#[test]
fn returns_of_closure_literals_are_preserved() {
    let inner = closure(None, vec![return_event(name("w", 20), NormReturnTargetSyntax::ImplicitNearest, 21)]);
    let literal = NormExpr::Closure(Box::new(inner));
    let body = vec![
        NormForm::Let(NormDecl::Let {
            slot: NormBindingSlot {
                policy: None,
                value_pattern: NormPattern::Binder { name: "k".to_string(), origin: at(30) },
                initializer: Some(Box::new(NormExpr::Call {
                    source: NormProduct { elements: vec![NormProductElem::Expr(literal)], origin: at(31) },
                    target: Box::new(name("g", 32)),
                    origin: at(33),
                })),
                origin: at(34),
            },
        }),
        NormForm::TailValue(name("k", 35)),
    ];
    let c = closure(Some(5), body);
    let report = elaborate_return_targets_in_returnable_closure(&c, ReturnFrameOwner::AnonymousClosure);
    assert!(report.bound_events.is_empty());
    assert!(report.diagnostics.is_empty());
    assert_eq!(report.preserved_unbound_events.len(), 1);
    assert_eq!(report.preserved_unbound_events[0].reason, PreservedReturnReason::UnmaterializedClosureLiteral);
    assert_eq!(report.preserved_unbound_events[0].event.value, name("w", 20));
    assert_eq!(report.preserved_unbound_events[0].event.origin, at(21));
}

#[test]
fn closure_literal_inside_a_returned_value_is_preserved_and_the_return_bound() {
    let inner = closure(None, vec![return_event(name("w", 20), NormReturnTargetSyntax::ImplicitNearest, 21)]);
    let value = NormExpr::Closure(Box::new(inner));
    let c = closure(Some(5), vec![return_event(value, NormReturnTargetSyntax::ImplicitNearest, 22)]);
    let report = elaborate_return_targets_in_returnable_closure(&c, ReturnFrameOwner::AnonymousClosure);
    assert_eq!(report.preserved_unbound_events.len(), 1);
    assert_eq!(report.preserved_unbound_events[0].event.origin, at(21));
    assert_eq!(report.bound_events.len(), 1);
    assert_eq!(report.bound_events[0].origin, at(22));
    assert!(matches!(report.bound_events[0].value, NormExpr::Closure(_)));
}

struct FixedResolver(ExplicitReturnTargetResolution);

impl ExplicitReturnTargetResolver for FixedResolver {
    fn resolve_explicit_return_target(&self, _target: &NormExpr) -> ExplicitReturnTargetResolution {
        self.0
    }
}

fn explicit_closure() -> NormClosure {
    closure(Some(5), vec![return_event(name("v", 10), NormReturnTargetSyntax::Explicit(name("f", 12)), 11)])
}

#[test]
fn explicit_target_naming_the_active_self_is_bound() {
    let resolver = FixedResolver(ExplicitReturnTargetResolution::CallableSelf(NormSemanticOwnerId(5)));
    let report = elaborate_return_targets_in_returnable_closure_with_resolver(
        &explicit_closure(),
        ReturnFrameOwner::AnonymousClosure,
        &resolver,
    );
    assert_eq!(report.bound_events.len(), 1);
    assert_eq!(report.bound_events[0].resolved_target, ResolvedReturnTarget::ActiveFrame(ReturnFrameId(0)));
    assert!(report.diagnostics.is_empty());
}

#[test]
fn explicit_target_errors_come_from_the_resolution() {
    let cases = [
        (ExplicitReturnTargetResolution::CallableSelf(NormSemanticOwnerId(6)), DiagnosticKind::ReturnTargetNotActive),
        (ExplicitReturnTargetResolution::NotActive, DiagnosticKind::ReturnTargetNotActive),
        (ExplicitReturnTargetResolution::Unsupported, DiagnosticKind::UnsupportedReturnTargetForm),
    ];
    for (answer, kind) in cases {
        let resolver = FixedResolver(answer);
        let report = elaborate_return_targets_in_returnable_closure_with_resolver(
            &explicit_closure(),
            ReturnFrameOwner::AnonymousClosure,
            &resolver,
        );
        assert!(report.bound_events.is_empty());
        assert_eq!(report.diagnostics.len(), 1);
        assert_eq!(report.diagnostics[0].kind, kind);
        assert_eq!(
            report.diagnostics[0].provenance,
            Some(Provenance::from_norm_origin("return target binding", at(12)))
        );
    }
}

fn slot() -> ReturnSlotRef {
    ReturnSlotRef { identity: None, binding_slot: None, name: None, origin: at(1) }
}

fn self_of(owner: u64) -> Option<ReturnSelfIdentity> {
    Some(ReturnSelfIdentity { callable_owner: NormSemanticOwnerId(owner), display_name: None, origin: at(2) })
}

#[test]
fn stack_pushes_fresh_frames_and_pops_innermost_first() {
    let mut stack = ReturnTargetStack::new();
    assert!(stack.nearest().is_none());
    let first = stack.push_frame(ReturnFrameOwner::AnonymousClosure, slot(), self_of(1), None, at(3));
    let second = stack.push_frame(ReturnFrameOwner::AnonymousClosure, slot(), self_of(2), None, at(4));
    assert_eq!(first.frame_id, ReturnFrameId(0));
    assert_eq!(second.frame_id, ReturnFrameId(1));
    assert_eq!(stack.nearest().map(|f| f.frame_id), Some(ReturnFrameId(1)));
    let found = stack.find_self_identity(NormSemanticOwnerId(1));
    assert_eq!(found.len(), 1);
    assert_eq!(found[0].frame_id, ReturnFrameId(0));
    assert_eq!(stack.pop_frame().map(|f| f.frame_id), Some(ReturnFrameId(1)));
    assert_eq!(stack.nearest().map(|f| f.frame_id), Some(ReturnFrameId(0)));
    let third = stack.push_frame(ReturnFrameOwner::AnonymousClosure, slot(), None, None, at(5));
    assert_eq!(third.frame_id, ReturnFrameId(2));
}

#[test]
fn self_identity_matched_twice_is_ambiguous() {
    let mut stack = ReturnTargetStack::new();
    stack.push_frame(ReturnFrameOwner::AnonymousClosure, slot(), self_of(1), None, at(3));
    stack.push_frame(ReturnFrameOwner::AnonymousClosure, slot(), self_of(1), None, at(4));
    let target = name("f", 7);
    let found = stack.find_self_identity(NormSemanticOwnerId(1));
    assert_eq!(found.iter().map(|f| f.frame_id).collect::<Vec<_>>(), vec![ReturnFrameId(1), ReturnFrameId(0)]);
    let result = resolve_explicit_return_target(
        &stack,
        &target,
        Some(ExplicitReturnTargetResolution::CallableSelf(NormSemanticOwnerId(1))),
    );
    match result {
        Err(d) => assert_eq!(d.kind, DiagnosticKind::AmbiguousReturnTarget),
        Ok(other) => panic!("unexpected {:?}", other),
    }
    assert_eq!(resolve_explicit_return_target(&stack, &target, None), Ok(None));
}

#[test]
fn copied_syntax_is_equal() {
    let product = nested_product();
    assert_eq!(product.copied(), product);
    let c = explicit_closure();
    assert_eq!(c.copied(), c);
}
