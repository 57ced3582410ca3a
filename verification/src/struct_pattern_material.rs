//! Struct Pattern syntax material.
//!
//! The decoder preserves Leaf, Product, Sum and Named input for conversion to
//! canonical Pattern values. This material does not decide Pattern
//! applicability or extraction.
use vstd::prelude::*;

use crate::model::Provenance;

verus! {

/// Path for external type-symbol lookups inside type-pattern expressions
/// (e.g. `uint8` in `uint8 a`).
#[derive(Clone, Debug, PartialEq, Eq, PartialOrd, Ord)]
pub struct StructSymbolPathMaterial {
    pub segments: Vec<String>,
}

impl StructSymbolPathMaterial {
    pub fn new(segments: Vec<String>) -> (r: StructSymbolPathMaterial)
        ensures
            r.segments == segments,
    {
        StructSymbolPathMaterial { segments }
    }

    /// A path of one segment.
    pub fn single(segment: String) -> (r: StructSymbolPathMaterial)
        ensures
            r.segments@ == seq![segment],
    {
        let mut segments: Vec<String> = Vec::new();
        segments.push(segment);
        StructSymbolPathMaterial { segments }
    }
}

/// The type-side expression of a struct leaf field.
#[derive(Clone, Debug, PartialEq, Eq)]
pub enum StructLeafSyntaxMaterial {
    /// A simple type path (e.g. `uint8`, `Vec::std`).
    Path(StructSymbolPathMaterial),
    /// A type expression that is not reduced to a simple path at this stage.
    NormalizedAst { description: String, provenance: Provenance },
}

impl StructLeafSyntaxMaterial {
    pub fn path(path: StructSymbolPathMaterial) -> (r: StructLeafSyntaxMaterial)
        ensures
            r == StructLeafSyntaxMaterial::Path(path),
    {
        StructLeafSyntaxMaterial::Path(path)
    }
}

impl From<StructSymbolPathMaterial> for StructLeafSyntaxMaterial {
    fn from(p: StructSymbolPathMaterial) -> (r: StructLeafSyntaxMaterial) {
        StructLeafSyntaxMaterial::Path(p)
    }
}

impl vstd::std_specs::convert::FromSpecImpl<StructSymbolPathMaterial> for StructLeafSyntaxMaterial {
    open spec fn obeys_from_spec() -> bool {
        true
    }

    open spec fn from_spec(p: StructSymbolPathMaterial) -> StructLeafSyntaxMaterial {
        StructLeafSyntaxMaterial::Path(p)
    }
}

#[derive(Clone, Copy, Debug, PartialEq, Eq, PartialOrd, Ord, Hash, Structural)]
pub enum StructuralMemberVisibility {
    Default,
    Public,
    Private,
}

/// Shape of a product/sum type-pattern expression: `,` is product, `|` is
/// the canonical sum form, and a name on the right of a parenthesised child
/// structure is its pattern/constructor name.
#[derive(Debug, PartialEq, Eq)]
pub enum StructPatternSyntaxMaterial {
    /// Leaf field: `external_type_expr local_pattern_name`.
    Leaf {
        external_type_expr: StructLeafSyntaxMaterial,
        local_pattern_name: String,
        visibility: StructuralMemberVisibility,
        provenance: Provenance,
    },
    /// Product of elements: `(elem1, elem2, ...)`.
    Product { elements: Vec<StructPatternSyntaxMaterial>, provenance: Provenance },
    /// Sum of alternatives: `alt1 | alt2 | ...`.
    Sum { alternatives: Vec<StructPatternSyntaxMaterial>, provenance: Provenance },
    /// Named construction: `(child_structure pattern_name)`.
    Named {
        child: Box<StructPatternSyntaxMaterial>,
        pattern_name: String,
        visibility: StructuralMemberVisibility,
        provenance: Provenance,
    },
}

/// The shape with transparent singleton Product wrappers removed.
pub open spec fn transparent_spec(p: StructPatternSyntaxMaterial) -> StructPatternSyntaxMaterial
    decreases p,
{
    match p {
        StructPatternSyntaxMaterial::Product { elements, .. } => if elements@.len() == 1 {
            transparent_spec(elements@[0])
        } else {
            p
        },
        _ => p,
    }
}

/// The children of a product or sum.
pub open spec fn children_of(p: StructPatternSyntaxMaterial) -> Seq<StructPatternSyntaxMaterial> {
    match p {
        StructPatternSyntaxMaterial::Product { elements, .. } => elements@,
        StructPatternSyntaxMaterial::Sum { alternatives, .. } => alternatives@,
        _ => Seq::empty(),
    }
}

/// Whether the shape contains a value leaf.
pub open spec fn has_value_leaf(p: StructPatternSyntaxMaterial) -> bool
    decreases p, children_of(p).len() + 1,
{
    match p {
        StructPatternSyntaxMaterial::Leaf { .. } => true,
        StructPatternSyntaxMaterial::Named { child, .. } => has_value_leaf(*child),
        _ => value_leaf_from(p, 0),
    }
}

/// Whether a child of the product or sum from position `i` on has one.
pub open spec fn value_leaf_from(p: StructPatternSyntaxMaterial, i: int) -> bool
    decreases p, children_of(p).len() - i,
{
    if i < 0 || i >= children_of(p).len() {
        false
    } else {
        has_value_leaf(children_of(p)[i]) || value_leaf_from(p, i + 1)
    }
}

/// Whether the shape contains a pattern name.
pub open spec fn has_pattern_name(p: StructPatternSyntaxMaterial) -> bool
    decreases p, children_of(p).len() + 1,
{
    match p {
        StructPatternSyntaxMaterial::Leaf { .. } => false,
        StructPatternSyntaxMaterial::Named { .. } => true,
        _ => pattern_name_from(p, 0),
    }
}

/// Whether a child of the product or sum from position `i` on has one.
pub open spec fn pattern_name_from(p: StructPatternSyntaxMaterial, i: int) -> bool
    decreases p, children_of(p).len() - i,
{
    if i < 0 || i >= children_of(p).len() {
        false
    } else {
        has_pattern_name(children_of(p)[i]) || pattern_name_from(p, i + 1)
    }
}

/// Whether the transparent shape names an empty product.
pub open spec fn named_empty_spec(p: StructPatternSyntaxMaterial) -> bool {
    match transparent_spec(p) {
        StructPatternSyntaxMaterial::Named { child, .. } => match transparent_spec(*child) {
            StructPatternSyntaxMaterial::Product { elements, .. } => elements@.len() == 0,
            _ => false,
        },
        _ => false,
    }
}

impl StructPatternSyntaxMaterial {
    /// Ignore transparent singleton Product wrappers. A Product with zero or
    /// several children is kept.
    pub fn transparent_singleton(&self) -> (r: &StructPatternSyntaxMaterial)
        ensures
            *r == transparent_spec(*self),
        decreases self,
    {
        match self {
            StructPatternSyntaxMaterial::Product { elements, .. } => {
                if elements.len() == 1 {
                    elements[0].transparent_singleton()
                } else {
                    self
                }
            },
            _ => self,
        }
    }

    /// The pattern name of the transparent shape, when it is named.
    pub fn top_pattern_name(&self) -> (r: Option<&str>)
        ensures
            match transparent_spec(*self) {
                StructPatternSyntaxMaterial::Named { pattern_name, .. } => r matches Some(name) && name@
                    == pattern_name@,
                _ => r is None,
            },
    {
        match self.transparent_singleton() {
            StructPatternSyntaxMaterial::Named { pattern_name, .. } => Some(pattern_name.as_str()),
            _ => None,
        }
    }

    /// Whether the transparent shape names an empty product: a bare name.
    pub fn is_named_empty_pattern(&self) -> (r: bool)
        ensures
            r == named_empty_spec(*self),
    {
        match self.transparent_singleton() {
            StructPatternSyntaxMaterial::Named { child, .. } => match child.transparent_singleton() {
                StructPatternSyntaxMaterial::Product { elements, .. } => elements.len() == 0,
                _ => false,
            },
            _ => false,
        }
    }

    fn value_leaf(&self) -> (r: bool)
        ensures
            r == has_value_leaf(*self),
        decreases self, children_of(*self).len() + 1,
    {
        match self {
            StructPatternSyntaxMaterial::Leaf { .. } => true,
            StructPatternSyntaxMaterial::Named { child, .. } => child.value_leaf(),
            _ => self.value_leaf_of_children(0),
        }
    }

    fn value_leaf_of_children(&self, i: usize) -> (r: bool)
        ensures
            r == value_leaf_from(*self, i as int),
        decreases self, children_of(*self).len() - i,
    {
        let children = match self {
            StructPatternSyntaxMaterial::Product { elements, .. } => elements,
            StructPatternSyntaxMaterial::Sum { alternatives, .. } => alternatives,
            _ => {
                return false;
            },
        };
        if i >= children.len() {
            return false;
        }
        children[i].value_leaf() || self.value_leaf_of_children(i + 1)
    }

    fn pattern_name(&self) -> (r: bool)
        ensures
            r == has_pattern_name(*self),
        decreases self, children_of(*self).len() + 1,
    {
        match self {
            StructPatternSyntaxMaterial::Leaf { .. } => false,
            StructPatternSyntaxMaterial::Named { .. } => true,
            _ => self.pattern_name_of_children(0),
        }
    }

    fn pattern_name_of_children(&self, i: usize) -> (r: bool)
        ensures
            r == pattern_name_from(*self, i as int),
        decreases self, children_of(*self).len() - i,
    {
        let children = match self {
            StructPatternSyntaxMaterial::Product { elements, .. } => elements,
            StructPatternSyntaxMaterial::Sum { alternatives, .. } => alternatives,
            _ => {
                return false;
            },
        };
        if i >= children.len() {
            return false;
        }
        children[i].pattern_name() || self.pattern_name_of_children(i + 1)
    }

    /// Whether this decoded shape carries Pattern identity but no value
    /// leaves. A bare name decodes as `Named(Product[], name)`, so sums such
    /// as `if | else` are pure no-value Pattern structures; an anonymous empty
    /// Product alone has no Pattern identity.
    pub fn is_pure_pattern_without_value(&self) -> (r: bool)
        ensures
            r == (!has_value_leaf(*self) && has_pattern_name(*self)),
    {
        !self.value_leaf() && self.pattern_name()
    }

    pub fn leaf(
        external_type_expr: StructLeafSyntaxMaterial,
        local_pattern_name: String,
        provenance: Provenance,
    ) -> (r: StructPatternSyntaxMaterial)
        ensures
            r == (StructPatternSyntaxMaterial::Leaf {
                external_type_expr,
                local_pattern_name,
                visibility: StructuralMemberVisibility::Default,
                provenance,
            }),
    {
        StructPatternSyntaxMaterial::Leaf {
            external_type_expr,
            local_pattern_name,
            visibility: StructuralMemberVisibility::Default,
            provenance,
        }
    }

    pub fn product(elements: Vec<StructPatternSyntaxMaterial>, provenance: Provenance) -> (r:
        StructPatternSyntaxMaterial)
        ensures
            r == (StructPatternSyntaxMaterial::Product { elements, provenance }),
    {
        StructPatternSyntaxMaterial::Product { elements, provenance }
    }

    pub fn sum(alternatives: Vec<StructPatternSyntaxMaterial>, provenance: Provenance) -> (r:
        StructPatternSyntaxMaterial)
        ensures
            r == (StructPatternSyntaxMaterial::Sum { alternatives, provenance }),
    {
        StructPatternSyntaxMaterial::Sum { alternatives, provenance }
    }

    pub fn named(child: StructPatternSyntaxMaterial, pattern_name: String, provenance: Provenance) -> (r:
        StructPatternSyntaxMaterial)
        ensures
            r == (StructPatternSyntaxMaterial::Named {
                child: Box::new(child),
                pattern_name,
                visibility: StructuralMemberVisibility::Default,
                provenance,
            }),
    {
        StructPatternSyntaxMaterial::Named {
            child: Box::new(child),
            pattern_name,
            visibility: StructuralMemberVisibility::Default,
            provenance,
        }
    }

    /// The same shape with the member visibility of a leaf or a named
    /// construction replaced; products and sums carry none.
    pub fn with_structural_visibility(self, visibility: StructuralMemberVisibility) -> (r:
        StructPatternSyntaxMaterial)
        ensures
            r == match self {
                StructPatternSyntaxMaterial::Leaf { external_type_expr, local_pattern_name, provenance, .. } =>
                    StructPatternSyntaxMaterial::Leaf {
                    external_type_expr,
                    local_pattern_name,
                    visibility,
                    provenance,
                },
                StructPatternSyntaxMaterial::Named { child, pattern_name, provenance, .. } =>
                    StructPatternSyntaxMaterial::Named { child, pattern_name, visibility, provenance },
                other => other,
            },
    {
        match self {
            StructPatternSyntaxMaterial::Leaf { external_type_expr, local_pattern_name, provenance, .. } =>
                StructPatternSyntaxMaterial::Leaf {
                external_type_expr,
                local_pattern_name,
                visibility,
                provenance,
            },
            StructPatternSyntaxMaterial::Named { child, pattern_name, provenance, .. } =>
                StructPatternSyntaxMaterial::Named { child, pattern_name, visibility, provenance },
            other => other,
        }
    }
}

} // verus!
