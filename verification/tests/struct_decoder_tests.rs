use lib::model::{DiagnosticKind, Provenance};
use lib::norm_syntax::{
    nav_component_name, NormExpr, NormExprKind, NormNavComponent, NormOrigin, NormProduct, NormProductElem,
};
use lib::struct_decoder::{decode_struct_type_pattern_expr, expr_variant_name};
use lib::struct_pattern_material::{
    StructLeafSyntaxMaterial, StructPatternSyntaxMaterial, StructSymbolPathMaterial, StructuralMemberVisibility,
};

fn at() -> NormOrigin {
    NormOrigin { start: 0, end: 0 }
}

fn prov() -> Provenance {
    Provenance::new("struct".to_string())
}

fn name(text: &str) -> NormExpr {
    NormExpr::Name { text: text.to_string(), origin: at() }
}

fn product(exprs: Vec<NormExpr>) -> NormProduct {
    NormProduct { elements: exprs.into_iter().map(NormProductElem::Expr).collect(), origin: at() }
}

fn call(source: Vec<NormExpr>, target: NormExpr) -> NormExpr {
    NormExpr::Call { source: product(source), target: Box::new(target), origin: at() }
}

fn op(spelling: &str) -> NormExpr {
    NormExpr::OperatorTarget { spelling: spelling.to_string(), origin: at() }
}

/// `type field` written as an application of the field name.
fn field(carrier: &str, field_name: &str) -> NormExpr {
    call(vec![name(carrier)], name(field_name))
}

fn leaf_path(segments: &[&str], local: &str) -> StructPatternSyntaxMaterial {
    StructPatternSyntaxMaterial::Leaf {
        external_type_expr: StructLeafSyntaxMaterial::Path(StructSymbolPathMaterial {
            segments: segments.iter().map(|s| s.to_string()).collect(),
        }),
        local_pattern_name: local.to_string(),
        visibility: StructuralMemberVisibility::Default,
        provenance: prov(),
    }
}

fn decode(expr: &NormExpr) -> Result<StructPatternSyntaxMaterial, DiagnosticKind> {
    decode_struct_type_pattern_expr(expr, prov()).map_err(|d| {
        assert_eq!(d.provenance, Some(prov()));
        d.kind
    })
}

#[test]
fn product_of_fields_decodes_to_leaves() {
    let expr = NormExpr::Product(product(vec![field("uint8", "a"), field("uint16", "b")]));
    assert_eq!(
        decode(&expr),
        Ok(StructPatternSyntaxMaterial::Product {
            elements: vec![leaf_path(&["uint8"], "a"), leaf_path(&["uint16"], "b")],
            provenance: prov(),
        })
    );
}

#[test]
fn unit_elements_are_not_fields() {
    let mut p = product(vec![field("uint8", "a")]);
    p.elements.push(NormProductElem::Unit { origin: at() });
    match decode(&NormExpr::Product(p)).unwrap() {
        StructPatternSyntaxMaterial::Product { elements, .. } => assert_eq!(elements.len(), 1),
        other => panic!("unexpected {:?}", other),
    }
}

#[test]
fn duplicate_field_names_are_refused() {
    let expr = NormExpr::Product(product(vec![field("uint8", "a"), field("uint16", "b"), field("uint32", "a")]));
    assert_eq!(decode(&expr), Err(DiagnosticKind::StructDuplicateField { name: "a".to_string(), first_index: 0 }));
}

#[test]
fn bare_name_and_other_forms_are_refused_at_the_top() {
    assert_eq!(decode(&name("x")), Err(DiagnosticKind::StructBareName("x".to_string())));
    let literal = NormExpr::Literal { text: "1".to_string(), origin: at() };
    assert_eq!(decode(&literal), Err(DiagnosticKind::StructUnsupportedShape(NormExprKind::Literal)));
    assert_eq!(expr_variant_name(&literal), NormExprKind::Literal);
    assert_eq!(
        decode(&call(vec![name("a")], literal)),
        Err(DiagnosticKind::StructUnsupportedCallTarget(NormExprKind::Literal))
    );
}

#[test]
fn nullary_name_is_a_named_empty_product() {
    assert_eq!(
        decode(&call(vec![], name("None"))),
        Ok(StructPatternSyntaxMaterial::Named {
            child: Box::new(StructPatternSyntaxMaterial::Product { elements: vec![], provenance: prov() }),
            pattern_name: "None".to_string(),
            visibility: StructuralMemberVisibility::Default,
            provenance: prov(),
        })
    );
}

#[test]
fn several_sources_make_a_named_product() {
    let expr = call(vec![field("uint8", "x"), field("uint8", "y")], name("Point"));
    assert_eq!(
        decode(&expr),
        Ok(StructPatternSyntaxMaterial::Named {
            child: Box::new(StructPatternSyntaxMaterial::Product {
                elements: vec![leaf_path(&["uint8"], "x"), leaf_path(&["uint8"], "y")],
                provenance: prov(),
            }),
            pattern_name: "Point".to_string(),
            visibility: StructuralMemberVisibility::Default,
            provenance: prov(),
        })
    );
}

#[test]
fn navigation_leaf_keeps_its_name_path() {
    let nav = NormExpr::Nav {
        components: vec![nav_component_name("Vec".to_string(), at()), nav_component_name("std".to_string(), at())],
        origin: at(),
    };
    assert_eq!(decode(&call(vec![nav], name("items"))), Ok(leaf_path(&["Vec", "std"], "items")));
    let nameless = NormExpr::Nav { components: vec![NormNavComponent::Group { origin: at() }], origin: at() };
    assert_eq!(decode(&call(vec![nameless], name("items"))), Err(DiagnosticKind::StructNavigationWithoutNames));
}

#[test]
fn other_leaf_type_expression_is_kept_as_its_rendering() {
    let inner = call(vec![name("int")], name("Vec"));
    let description = format!("{:?}", inner);
    assert_eq!(
        decode(&call(vec![inner], name("a"))),
        Ok(StructPatternSyntaxMaterial::Leaf {
            external_type_expr: StructLeafSyntaxMaterial::NormalizedAst { description, provenance: prov() },
            local_pattern_name: "a".to_string(),
            visibility: StructuralMemberVisibility::Default,
            provenance: prov(),
        })
    );
}

#[test]
fn canonical_sum_decodes_its_alternatives() {
    let expr = call(vec![call(vec![], name("None")), field("uint8", "Some")], op("|"));
    match decode(&expr).unwrap() {
        StructPatternSyntaxMaterial::Sum { alternatives, provenance } => {
            assert_eq!(provenance, prov());
            assert_eq!(alternatives.len(), 2);
            assert_eq!(alternatives[1], leaf_path(&["uint8"], "Some"));
        },
        other => panic!("unexpected {:?}", other),
    }
}

#[test]
fn sum_errors() {
    assert_eq!(decode(&call(vec![], op("|"))), Err(DiagnosticKind::StructEmptySum));
    assert_eq!(
        decode(&call(vec![NormExpr::Product(product(vec![field("uint8", "a")]))], op("|"))),
        Err(DiagnosticKind::StructBareProductAlternative)
    );
    assert_eq!(
        decode(&call(vec![call(vec![call(vec![], name("A"))], op("|"))], op("|"))),
        Err(DiagnosticKind::StructBareSumAlternative)
    );
    assert_eq!(
        decode(&call(vec![call(vec![], name("A")), call(vec![], name("B")), call(vec![], name("A"))], op("|"))),
        Err(DiagnosticKind::StructDuplicateAlternative { name: "A".to_string(), first_index: 0 })
    );
}

#[test]
fn plus_and_other_operators_are_refused() {
    assert_eq!(decode(&call(vec![call(vec![], name("A"))], op("+"))), Err(DiagnosticKind::StructPlusIsNotASum));
    assert_eq!(
        decode(&call(vec![call(vec![], name("A"))], op("&"))),
        Err(DiagnosticKind::StructUnsupportedOperator("&".to_string()))
    );
}

#[test]
fn errors_inside_a_product_surface() {
    let expr = NormExpr::Product(product(vec![field("uint8", "a"), name("loose")]));
    assert_eq!(decode(&expr), Err(DiagnosticKind::StructBareName("loose".to_string())));
}
