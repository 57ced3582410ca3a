use lib::model::{DiagnosticKind, FieldProjection, Provenance, SymbolId, TypeValueId};
use lib::struct_decoder::DecodedStructPattern;
use lib::struct_pattern_material::{
    StructLeafSyntaxMaterial, StructPatternSyntaxMaterial, StructSymbolPathMaterial, StructuralMemberVisibility,
};
use lib::norm_syntax::{nav_component_name, NormNavComponent, NormOrigin};
use lib::struct_pattern_registry::{
    ConstructionInstanceId, LocalPatternPlaceId, StructFieldPatternMaterial, StructPatternLookupExpectation,
    StructPatternLookupInput, StructPatternMaterialContext, StructPatternMaterialId, StructPatternMaterialKind,
    StructPatternMaterialOrigin, StructPatternMaterialRegistry,
};

fn prov(text: &str) -> Provenance {
    Provenance::new(text.to_string())
}

fn leaf(ty: &str, local: &str) -> StructPatternSyntaxMaterial {
    StructPatternSyntaxMaterial::leaf(
        StructLeafSyntaxMaterial::path(StructSymbolPathMaterial::single(ty.to_string())),
        local.to_string(),
        prov("leaf"),
    )
}

fn bare_name(name: &str) -> StructPatternSyntaxMaterial {
    StructPatternSyntaxMaterial::named(StructPatternSyntaxMaterial::product(Vec::new(), prov("p")), name.to_string(), prov("n"))
}

#[test]
fn transparent_singletons_are_ignored() {
    let named = bare_name("mytype");
    let wrapped = StructPatternSyntaxMaterial::product(
        vec![StructPatternSyntaxMaterial::product(vec![named], prov("inner"))],
        prov("outer"),
    );
    assert_eq!(wrapped.top_pattern_name(), Some("mytype"));
    assert!(wrapped.is_named_empty_pattern());
    let pair = StructPatternSyntaxMaterial::product(vec![leaf("uint8", "a"), leaf("uint8", "b")], prov("pair"));
    assert_eq!(pair.top_pattern_name(), None);
    assert!(!pair.is_named_empty_pattern());
}

#[test]
fn pure_pattern_without_value() {
    let sum = StructPatternSyntaxMaterial::sum(vec![bare_name("if"), bare_name("else")], prov("sum"));
    assert!(sum.is_pure_pattern_without_value());
    let with_leaf = StructPatternSyntaxMaterial::named(leaf("uint8", "a"), "Some".to_string(), prov("n"));
    assert!(!with_leaf.is_pure_pattern_without_value());
    let anonymous = StructPatternSyntaxMaterial::product(Vec::new(), prov("empty"));
    assert!(!anonymous.is_pure_pattern_without_value());
}

#[test]
fn structural_visibility_applies_to_leaves_and_names() {
    let visible = leaf("uint8", "a").with_structural_visibility(StructuralMemberVisibility::Public);
    match visible {
        StructPatternSyntaxMaterial::Leaf { visibility, .. } => assert_eq!(visibility, StructuralMemberVisibility::Public),
        other => panic!("unexpected {:?}", other),
    }
    let product = StructPatternSyntaxMaterial::product(Vec::new(), prov("p"))
        .with_structural_visibility(StructuralMemberVisibility::Private);
    assert_eq!(product, StructPatternSyntaxMaterial::product(Vec::new(), prov("p")));
    let decoded = DecodedStructPattern::new(bare_name("x"), prov("d"));
    assert_eq!(decoded.provenance, prov("d"));
}

#[test]
fn owner_heads_are_interned_by_origin() {
    let mut registry = StructPatternMaterialRegistry::new();
    let context = StructPatternMaterialContext::Global { symbol_id: SymbolId(4) };
    let a = registry.allocate_owner_head(context, "T".to_string(), prov("a"));
    let again = registry.allocate_owner_head(context, "T".to_string(), prov("b"));
    assert_eq!(a, StructPatternMaterialId(0));
    assert_eq!(a, again);
    let local = registry.allocate_owner_head(
        StructPatternMaterialContext::Local { place_id: LocalPatternPlaceId(1) },
        "L".to_string(),
        prov("c"),
    );
    assert_eq!(local, StructPatternMaterialId(1));
    let head = registry.get(a).unwrap();
    assert_eq!(head.kind, StructPatternMaterialKind::Owner);
    assert_eq!(head.origin, StructPatternMaterialOrigin::GlobalBinding { symbol_id: SymbolId(4) });
    assert!(registry.get(StructPatternMaterialId(9)).is_none());
    let generated = registry.allocate_generated_head(ConstructionInstanceId(3), "G".to_string(), prov("g"));
    assert_eq!(registry.get(generated).unwrap().kind, StructPatternMaterialKind::Construction);
}

#[test]
fn field_heads_and_child_conflicts() {
    let mut registry = StructPatternMaterialRegistry::new();
    let owner = registry.allocate_owner_head(
        StructPatternMaterialContext::Global { symbol_id: SymbolId(4) },
        "T".to_string(),
        prov("t"),
    );
    let a = registry
        .allocate_field_head(owner, "a".to_string(), TypeValueId(1), FieldProjection(0), prov("a"))
        .unwrap();
    let same = registry
        .allocate_field_head(owner, "a".to_string(), TypeValueId(1), FieldProjection(0), prov("a2"))
        .unwrap();
    assert_eq!(a, same);
    assert_eq!(registry.lookup_child(owner, "a"), Some(a));
    assert_eq!(registry.lookup_child(owner, "b"), None);
    let conflict = registry
        .allocate_field_head(owner, "a".to_string(), TypeValueId(2), FieldProjection(0), prov("conflict"))
        .unwrap_err();
    assert_eq!(conflict.kind, DiagnosticKind::ExtractionChildConflict { owner_head: owner, field_name: "a".to_string() });
    assert_eq!(conflict.provenance, Some(prov("conflict")));
}

#[test]
fn struct_materialization_allocates_owner_and_fields() {
    let mut registry = StructPatternMaterialRegistry::new();
    let fields = vec![
        StructFieldPatternMaterial {
            field_name: "x".to_string(),
            field_type_value: TypeValueId(1),
            projection: FieldProjection(0),
            provenance: prov("x"),
        },
        StructFieldPatternMaterial {
            field_name: "y".to_string(),
            field_type_value: TypeValueId(1),
            projection: FieldProjection(1),
            provenance: prov("y"),
        },
    ];
    let m = registry
        .materialize_struct_pattern(
            StructPatternMaterialContext::Global { symbol_id: SymbolId(8) },
            "Point".to_string(),
            fields,
            prov("point"),
        )
        .unwrap();
    assert_eq!(m.owner_head, StructPatternMaterialId(0));
    assert_eq!(m.field_heads, vec![("x".to_string(), StructPatternMaterialId(1)), ("y".to_string(), StructPatternMaterialId(2))]);
    assert_eq!(registry.lookup_child(m.owner_head, "y"), Some(StructPatternMaterialId(2)));
}

#[test]
fn duplicate_field_names_conflict_in_one_materialization() {
    let mut registry = StructPatternMaterialRegistry::new();
    let fields = vec![
        StructFieldPatternMaterial {
            field_name: "x".to_string(),
            field_type_value: TypeValueId(1),
            projection: FieldProjection(0),
            provenance: prov("first"),
        },
        StructFieldPatternMaterial {
            field_name: "x".to_string(),
            field_type_value: TypeValueId(2),
            projection: FieldProjection(1),
            provenance: prov("second"),
        },
    ];
    let err = registry
        .materialize_struct_pattern(
            StructPatternMaterialContext::Global { symbol_id: SymbolId(8) },
            "Bad".to_string(),
            fields,
            prov("bad"),
        )
        .unwrap_err();
    assert_eq!(
        err.kind,
        DiagnosticKind::ExtractionChildConflict { owner_head: StructPatternMaterialId(0), field_name: "x".to_string() }
    );
    assert_eq!(err.provenance, Some(prov("second")));
}

#[test]
fn explicit_paths_register_and_conflict() {
    let mut registry = StructPatternMaterialRegistry::new();
    let path = vec!["a".to_string(), "b".to_string()];
    assert!(registry.register_explicit_path(path.clone(), StructPatternMaterialId(3), prov("p")).is_ok());
    assert_eq!(registry.lookup_explicit_path(&path), Some(StructPatternMaterialId(3)));
    assert!(registry.register_explicit_path(path.clone(), StructPatternMaterialId(3), prov("again")).is_ok());
    let err = registry.register_explicit_path(path.clone(), StructPatternMaterialId(4), prov("other")).unwrap_err();
    assert_eq!(err.kind, DiagnosticKind::NavigationPathConflict { components: path.clone() });
    assert_eq!(registry.lookup_explicit_path(&["a".to_string()]), None);
}

#[test]
fn pattern_lookup_by_child_name_and_by_explicit_path() {
    let mut registry = StructPatternMaterialRegistry::new();
    let owner = registry.allocate_owner_head(
        StructPatternMaterialContext::Global { symbol_id: SymbolId(4) },
        "T".to_string(),
        prov("t"),
    );
    let a = registry
        .allocate_field_head(owner, "a".to_string(), TypeValueId(1), FieldProjection(0), prov("a"))
        .unwrap();
    let auto = |name: &str, expectation| StructPatternLookupInput::AutoName {
        name: name.to_string(),
        current_scope: owner,
        expectation,
        provenance: prov("lookup"),
    };
    assert_eq!(registry.resolve_pattern_lookup(auto("a", StructPatternLookupExpectation::ExtractionChild)), Ok(a));
    let err = registry.resolve_pattern_lookup(auto("z", StructPatternLookupExpectation::ExtractionChild)).unwrap_err();
    assert_eq!(err.kind, DiagnosticKind::Unresolved);
    let err = registry.resolve_pattern_lookup(auto("a", StructPatternLookupExpectation::Constructor)).unwrap_err();
    assert_eq!(err.kind, DiagnosticKind::UnsupportedLookupExpectation);
    assert_eq!(err.provenance, Some(prov("lookup")));

    let origin = NormOrigin { start: 0, end: 1 };
    registry.register_explicit_path(vec!["T".to_string(), "a".to_string()], a, prov("p")).unwrap();
    let nav = |components: Vec<NormNavComponent>| StructPatternLookupInput::ExplicitNav {
        components,
        explicit_terminated: true,
        current_scope: None,
        expectation: StructPatternLookupExpectation::StructPatternMaterial,
        provenance: prov("nav"),
    };
    let path = vec![nav_component_name("T".to_string(), origin), nav_component_name("a".to_string(), origin)];
    assert_eq!(registry.resolve_pattern_lookup(nav(path)), Ok(a));
    let missing = vec![nav_component_name("T".to_string(), origin)];
    assert_eq!(registry.resolve_pattern_lookup(nav(missing)).unwrap_err().kind, DiagnosticKind::Unresolved);
    let grouped = vec![nav_component_name("T".to_string(), origin), NormNavComponent::Group { origin }];
    assert_eq!(
        registry.resolve_pattern_lookup(nav(grouped)).unwrap_err().kind,
        DiagnosticKind::UnsupportedNavigationComponent
    );
}

#[test]
fn path_material_converts_into_a_path_leaf() {
    let path = StructSymbolPathMaterial::new(vec!["Vec".to_string(), "std".to_string()]);
    let leaf: StructLeafSyntaxMaterial = path.clone().into();
    assert_eq!(leaf, StructLeafSyntaxMaterial::Path(path.clone()));
    assert_eq!(StructLeafSyntaxMaterial::from(path.clone()), StructLeafSyntaxMaterial::path(path));
}
