use lib::model::{Diagnostic, NamespaceNodeId, Provenance, SymbolId, TypeValueId};
use lib::norm_syntax::{NormExpr, NormNavComponent, NormOrigin, NormProduct, NormProductElem};
use lib::product_shape::{
    ArgProductShape, NonValueArgKind, ProductMaterialRole, ProductObject, RawArgValueClass,
};
use lib::semantic_world::ObjectPlaceId;
use lib::type_argument::{
    apply_type_argument_resolutions, classify_type_arguments_env_with_report, BodyLocalInitializerCheck,
    NamedTypeResolution, TypeResolutionEnv,
};

fn at(start: u64) -> NormOrigin {
    NormOrigin { start, end: start + 1 }
}

fn name(text: &str, start: u64) -> NormExpr {
    NormExpr::Name { text: text.to_string(), origin: at(start) }
}

fn nav(parts: &[&str], start: u64) -> NormExpr {
    let mut components = Vec::new();
    for (k, part) in parts.iter().enumerate() {
        components.push(NormNavComponent::Name { name: part.to_string(), origin: at(start + 1 + k as u64) });
    }
    NormExpr::Nav { components, origin: at(start) }
}

/// `(T, f::U, Missing, 1, (), x::+)`
fn shape() -> ArgProductShape {
    let product = NormProduct {
        elements: vec![
            NormProductElem::Expr(name("T", 1)),
            NormProductElem::Expr(nav(&["f", "U"], 2)),
            NormProductElem::Expr(name("Missing", 5)),
            NormProductElem::Expr(NormExpr::Literal { text: "1".to_string(), origin: at(6) }),
            NormProductElem::Unit { origin: at(7) },
            NormProductElem::Expr(NormExpr::Nav {
                components: vec![
                    NormNavComponent::Name { name: "x".to_string(), origin: at(9) },
                    NormNavComponent::Operator { spelling: "+".to_string(), origin: at(10) },
                ],
                origin: at(8),
            }),
        ],
        origin: at(0),
    };
    ProductObject::from_norm_product(product, ProductMaterialRole::SourceProduct).to_arg_product_shape()
}

fn resolution(ty: u64) -> NamedTypeResolution {
    NamedTypeResolution {
        carrier_symbol: Some(SymbolId(ty + 100)),
        represented_type: TypeValueId(ty),
        effective_view: None,
        carrier_place: Some(ObjectPlaceId(ty + 200)),
    }
}

/// Knows `T` as type 7 and, by navigation, `f::U` as type 8.
struct TableEnv;

impl TypeResolutionEnv<()> for TableEnv {
    fn resolve_type_name(&self, name: &str, _context: &()) -> Option<NamedTypeResolution> {
        if name == "T" {
            Some(resolution(7))
        } else {
            None
        }
    }

    fn resolve_type_path(&self, path: &[String], context: &()) -> Option<NamedTypeResolution> {
        if path.len() == 2 && path[0] == "f" && path[1] == "U" {
            Some(resolution(8))
        } else if path.len() == 1 {
            self.resolve_type_name(&path[0], context)
        } else {
            None
        }
    }

    fn resolve_field_type_path(
        &self,
        _path: &[String],
        _context: &(),
        _provenance: &Provenance,
    ) -> Result<(SymbolId, TypeValueId), Diagnostic> {
        Ok((SymbolId(1), TypeValueId(1)))
    }

    fn check_body_local_initializer(
        &self,
        _declaration_namespace: Option<NamespaceNodeId>,
        _initializer: &NormExpr,
        _context: &(),
        _provenance: Provenance,
    ) -> BodyLocalInitializerCheck {
        BodyLocalInitializerCheck::Accepted
    }
}

/// Knows bare names only, through the default path resolution.
struct BareEnv;

impl TypeResolutionEnv<()> for BareEnv {
    fn resolve_type_name(&self, name: &str, _context: &()) -> Option<NamedTypeResolution> {
        if name == "T" || name == "U" {
            Some(resolution(9))
        } else {
            None
        }
    }

    fn resolve_field_type_path(
        &self,
        _path: &[String],
        _context: &(),
        _provenance: &Provenance,
    ) -> Result<(SymbolId, TypeValueId), Diagnostic> {
        Ok((SymbolId(1), TypeValueId(1)))
    }

    fn check_body_local_initializer(
        &self,
        _declaration_namespace: Option<NamespaceNodeId>,
        _initializer: &NormExpr,
        _context: &(),
        _provenance: Provenance,
    ) -> BodyLocalInitializerCheck {
        BodyLocalInitializerCheck::Accepted
    }
}

#[test]
fn environment_classifies_names_and_navigations() {
    let before = shape();
    let report = classify_type_arguments_env_with_report(shape(), &TableEnv, &());
    let args = &report.classified_shape.raw_args;
    assert_eq!(args.len(), 6);
    assert_eq!(args[0].value_class, RawArgValueClass::NonValue(NonValueArgKind::CoreTypeProjection));
    assert_eq!(args[0].known_type_pattern_name, Some("T".to_string()));
    assert_eq!(args[0].known_first_order_type_value, Some(TypeValueId(7)));
    assert_eq!(args[0].known_type_symbol_id, Some(SymbolId(107)));
    assert_eq!(args[0].known_type_carrier_place, Some(ObjectPlaceId(207)));
    assert_eq!(args[0].known_complete_type_observation, None);
    assert_eq!(args[0].index, 0);
    assert_eq!(args[1].known_type_pattern_name, Some("f::U".to_string()));
    assert_eq!(args[1].known_first_order_type_value, Some(TypeValueId(8)));
    assert_eq!(args[2], before.raw_args[2]);
    assert_eq!(args[3], before.raw_args[3]);
    assert_eq!(args[4], before.raw_args[4]);
    assert_eq!(args[5], before.raw_args[5]);
    assert_eq!(report.unresolved_names, vec!["Missing".to_string()]);
    assert_eq!(report.classified_shape.flattened, before.flattened);
    assert_eq!(report.classified_shape.arity, before.arity);
}

#[test]
fn default_path_resolution_rejects_longer_paths() {
    let report = classify_type_arguments_env_with_report(shape(), &BareEnv, &());
    let args = &report.classified_shape.raw_args;
    assert_eq!(args[0].known_first_order_type_value, Some(TypeValueId(9)));
    assert_eq!(args[1].value_class, RawArgValueClass::UnknownExpression);
    assert_eq!(report.unresolved_names, vec!["f::U".to_string(), "Missing".to_string()]);
}

#[test]
fn given_resolutions_apply_only_where_a_path_was_asked() {
    let before = shape();
    let resolutions = vec![None, Some(resolution(3)), Some(resolution(4)), Some(resolution(5))];
    let report = apply_type_argument_resolutions(shape(), resolutions);
    let args = &report.classified_shape.raw_args;
    assert_eq!(args[0], before.raw_args[0]);
    assert_eq!(args[1].known_type_pattern_name, Some("f::U".to_string()));
    assert_eq!(args[1].known_first_order_type_value, Some(TypeValueId(3)));
    assert_eq!(args[2].known_type_pattern_name, Some("Missing".to_string()));
    assert_eq!(args[2].known_type_symbol_id, Some(SymbolId(104)));
    // A literal has no type path: its answer is not consulted.
    assert_eq!(args[3], before.raw_args[3]);
    assert_eq!(report.unresolved_names, vec!["T".to_string()]);
}

#[test]
fn already_classified_arguments_are_not_asked() {
    let mut shape = shape();
    shape.raw_args[0] = shape.raw_args[0].clone().as_resolved_value();
    let report = classify_type_arguments_env_with_report(shape, &TableEnv, &());
    assert_eq!(report.classified_shape.raw_args[0].value_class, RawArgValueClass::Value);
    assert_eq!(report.classified_shape.raw_args[0].known_type_pattern_name, None);
    assert_eq!(report.unresolved_names, vec!["Missing".to_string()]);
}
