//! Product / argument-shape boundary between normalized surface syntax and
//! candidate preparation.
//!
//! Argument refinement records observed argument content. It is not type
//! checking.
use vstd::prelude::*;

use crate::model::{CanonicalTypeObservation, CanonicalValueAddr, Provenance, SemanticValueId, SymbolId, TypeValueId};
use crate::norm_syntax::{NormExpr, NormProduct, NormProductElem};
use crate::policy_pair::{PolicyMode, PolicyResultEntry};
use crate::semantic_world::{ObjectPlaceId, PatternValueId};

verus! {

/// The leaves of a product in written order: nested exposed products are
/// expanded in place, every other element is one leaf. Only the first `n`
/// elements of `p` are read.
pub open spec fn product_leaves_upto(p: NormProduct, n: int) -> Seq<NormProductElem>
    decreases p, n,
{
    if n <= 0 || n > p.elements@.len() {
        Seq::empty()
    } else {
        product_leaves_upto(p, n - 1) + match p.elements@[n - 1] {
            NormProductElem::Expr(NormExpr::Product(q)) => product_leaves_upto(q, q.elements@.len() as int),
            e => seq![e],
        }
    }
}

/// All leaves of a product in written order.
pub open spec fn product_leaves(p: NormProduct) -> Seq<NormProductElem> {
    product_leaves_upto(p, p.elements@.len() as int)
}

/// Flattening leaves no exposed product behind: no leaf of a product is
/// itself a written product.
pub proof fn lemma_leaves_hold_no_product(p: NormProduct, n: int)
    ensures
        forall|k: int|
            0 <= k < product_leaves_upto(p, n).len() ==> !(#[trigger] product_leaves_upto(p, n)[k] matches NormProductElem::Expr(
                NormExpr::Product(_),
            )),
    decreases p, n,
{
    if n <= 0 || n > p.elements@.len() {
    } else {
        lemma_leaves_hold_no_product(p, n - 1);
        let prefix = product_leaves_upto(p, n - 1);
        match p.elements@[n - 1] {
            NormProductElem::Expr(NormExpr::Product(q)) => {
                assert(decreases_to!(p => p.elements));
                assert(decreases_to!(p.elements => p.elements[n - 1]));
                lemma_leaves_hold_no_product(q, q.elements@.len() as int);
                let rest = product_leaves_upto(q, q.elements@.len() as int);
                assert(product_leaves_upto(p, n) == prefix + rest);
                assert forall|k: int| 0 <= k < (prefix + rest).len() implies !(#[trigger] (prefix + rest)[k] matches NormProductElem::Expr(
                    NormExpr::Product(_),
                )) by {
                    if k < prefix.len() {
                        assert((prefix + rest)[k] == prefix[k]);
                    } else {
                        assert((prefix + rest)[k] == rest[k - prefix.len()]);
                    }
                }
            },
            e => {
                assert(product_leaves_upto(p, n) == prefix.push(e));
            },
        }
    }
}

/// A product without nested exposed products flattens to its own elements,
/// one atom per element in written order.
pub proof fn lemma_flat_product_leaves_are_its_elements(p: NormProduct)
    requires
        forall|i: int|
            0 <= i < p.elements@.len() ==> !(#[trigger] p.elements@[i] matches NormProductElem::Expr(NormExpr::Product(_))),
    ensures
        product_leaves(p) == p.elements@,
{
    lemma_flat_prefix(p, p.elements@.len() as int);
    assert(p.elements@.subrange(0, p.elements@.len() as int) == p.elements@);
}

proof fn lemma_flat_prefix(p: NormProduct, n: int)
    requires
        0 <= n <= p.elements@.len(),
        forall|i: int|
            0 <= i < p.elements@.len() ==> !(#[trigger] p.elements@[i] matches NormProductElem::Expr(NormExpr::Product(_))),
    ensures
        product_leaves_upto(p, n) == p.elements@.subrange(0, n),
    decreases n,
{
    if n > 0 {
        lemma_flat_prefix(p, n - 1);
        assert(!(p.elements@[n - 1] matches NormProductElem::Expr(NormExpr::Product(_))));
        assert(p.elements@.subrange(0, n) == p.elements@.subrange(0, n - 1).push(p.elements@[n - 1]));
    }
}

/// A product object: a written product and the role it is read in.
#[derive(Debug, PartialEq, Eq)]
pub struct ProductObject {
    pub original: NormProduct,
    pub provenance: Provenance,
    pub material_role: ProductMaterialRole,
}

/// One argument position of a flattened product. There is no product atom:
/// flattening removes every exposed product.
#[derive(Debug, PartialEq, Eq)]
pub enum ProductAtom {
    /// An expression, an opaque barrier to flattening.
    Expression { expr: NormExpr, provenance: Provenance },
    Unit { provenance: Provenance },
    /// An already-resolved semantic argument inserted by an authorized
    /// mechanical operation; never a fabricated source path.
    SemanticValue { value: SemanticValueId, type_value: TypeValueId, mode: PolicyMode, provenance: Provenance },
    Unsupported { summary: String, provenance: Provenance },
}

/// A product after flattening: its atoms in written order.
#[derive(Debug, PartialEq, Eq)]
pub struct FlattenedProductObject {
    pub atoms: Vec<ProductAtom>,
    pub provenance: Provenance,
    pub invariant: FlattenedProductInvariant,
}

/// The argument shape of a flattened product: one raw argument per atom.
#[derive(Debug, PartialEq, Eq)]
pub struct ArgProductShape {
    pub flattened: FlattenedProductObject,
    pub arity: usize,
    pub raw_args: Vec<RawArgShape>,
    pub provenance: Provenance,
}

/// The provenance an atom carries.
pub open spec fn atom_provenance(atom: ProductAtom) -> Provenance {
    match atom {
        ProductAtom::Expression { provenance, .. } => provenance,
        ProductAtom::Unit { provenance } => provenance,
        ProductAtom::SemanticValue { provenance, .. } => provenance,
        ProductAtom::Unsupported { provenance, .. } => provenance,
    }
}

/// What is known of argument `index` from its atom alone.
pub open spec fn raw_arg_of_atom(index: usize, atom: ProductAtom) -> RawArgShape {
    RawArgShape {
        index,
        value_class: match atom {
            ProductAtom::Expression { .. } => RawArgValueClass::UnknownExpression,
            ProductAtom::Unit { .. } => RawArgValueClass::NonValue(NonValueArgKind::ProductUnit),
            ProductAtom::SemanticValue { .. } => RawArgValueClass::Value,
            ProductAtom::Unsupported { summary, .. } => RawArgValueClass::Unsupported { summary },
        },
        explicit_pass_mode: None,
        known_type_symbol_id: None,
        known_type_pattern_name: None,
        known_first_order_type_value: match atom {
            ProductAtom::SemanticValue { type_value, .. } => Some(type_value),
            _ => None,
        },
        known_type_member_view: None,
        known_type_carrier_place: None,
        known_complete_type_observation: None,
        known_type_observation: None,
        known_semantic_value: match atom {
            ProductAtom::SemanticValue { value, .. } => Some(value),
            _ => None,
        },
        known_value_mode: match atom {
            ProductAtom::SemanticValue { mode, .. } => Some(mode),
            _ => None,
        },
        provenance: atom_provenance(atom),
    }
}

/// `shape` is the argument shape of `flattened`.
pub open spec fn is_arg_shape_of(shape: ArgProductShape, flattened: FlattenedProductObject) -> bool {
    &&& shape.flattened == flattened
    &&& shape.arity == flattened.atoms@.len()
    &&& shape.raw_args@.len() == flattened.atoms@.len()
    &&& forall|i: int|
        0 <= i < flattened.atoms@.len() ==> #[trigger] shape.raw_args@[i] == raw_arg_of_atom(
            i as usize,
            flattened.atoms@[i],
        )
    &&& shape.provenance == flattened.provenance
}

impl ProductObject {
    pub fn from_norm_product(product: NormProduct, material_role: ProductMaterialRole) -> (r: ProductObject)
        ensures
            r.original == product,
            r.provenance.description@ == "ProductObject"@,
            r.provenance.origin == Some(product.origin),
            r.material_role == material_role,
    {
        let origin = product.origin;
        ProductObject {
            original: product,
            provenance: Provenance::from_norm_origin("ProductObject", origin),
            material_role,
        }
    }

    /// Flatten the product: exposed products expand in place and in order,
    /// expressions are opaque barriers, Unit is kept, provenance is kept.
    pub fn flatten(self) -> (r: FlattenedProductObject)
        ensures
            atoms_of_leaves(product_leaves(self.original), r.atoms@),
            r.provenance == self.provenance,
            r.invariant.no_direct_product_atom_remains,
    {
        let mut atoms: Vec<ProductAtom> = Vec::new();
        flatten_product(self.original, &mut atoms);
        assert(atoms@.subrange(0, atoms@.len() as int) == atoms@);
        FlattenedProductObject {
            atoms,
            provenance: self.provenance,
            invariant: FlattenedProductInvariant { no_direct_product_atom_remains: true },
        }
    }

    /// The argument shape of the flattened product.
    pub fn to_arg_product_shape(self) -> (r: ArgProductShape)
        ensures
            atoms_of_leaves(product_leaves(self.original), r.flattened.atoms@),
            r.flattened.provenance == self.provenance,
            r.flattened.invariant.no_direct_product_atom_remains,
            is_arg_shape_of(r, r.flattened),
    {
        ArgProductShape::from_flattened(self.flatten())
    }
}

impl ProductAtom {
    pub fn provenance(&self) -> (r: &Provenance)
        ensures
            *r == atom_provenance(*self),
    {
        match self {
            ProductAtom::Expression { provenance, .. } => provenance,
            ProductAtom::Unit { provenance } => provenance,
            ProductAtom::SemanticValue { provenance, .. } => provenance,
            ProductAtom::Unsupported { provenance, .. } => provenance,
        }
    }
}

impl ArgProductShape {
    /// The shape of the empty product.
    pub fn empty(provenance: Provenance) -> (r: ArgProductShape)
        ensures
            r.flattened.atoms@.len() == 0,
            r.flattened.provenance == provenance,
            r.flattened.invariant.no_direct_product_atom_remains,
            r.arity == 0,
            r.raw_args@.len() == 0,
            r.provenance == provenance,
    {
        ArgProductShape {
            flattened: FlattenedProductObject {
                atoms: Vec::new(),
                provenance: provenance.copied(),
                invariant: FlattenedProductInvariant { no_direct_product_atom_remains: true },
            },
            arity: 0,
            raw_args: Vec::new(),
            provenance,
        }
    }

    pub fn from_product_object(product: ProductObject) -> (r: ArgProductShape)
        ensures
            atoms_of_leaves(product_leaves(product.original), r.flattened.atoms@),
            r.flattened.provenance == product.provenance,
            r.flattened.invariant.no_direct_product_atom_remains,
            is_arg_shape_of(r, r.flattened),
    {
        product.to_arg_product_shape()
    }

    /// One raw argument per atom, in order.
    pub fn from_flattened(flattened: FlattenedProductObject) -> (r: ArgProductShape)
        ensures
            is_arg_shape_of(r, flattened),
    {
        let mut raw_args: Vec<RawArgShape> = Vec::new();
        let n = flattened.atoms.len();
        for index in 0..n
            invariant
                n == flattened.atoms@.len(),
                raw_args@.len() == index,
                forall|i: int|
                    0 <= i < index ==> #[trigger] raw_args@[i] == raw_arg_of_atom(i as usize, flattened.atoms@[i]),
        {
            raw_args.push(RawArgShape::from_product_atom(index, &flattened.atoms[index]));
        }
        let provenance = flattened.provenance.copied();
        ArgProductShape { arity: raw_args.len(), provenance, flattened, raw_args }
    }
}

impl RawArgShape {
    /// What is known of argument `index` from its atom alone.
    pub fn from_product_atom(index: usize, atom: &ProductAtom) -> (r: RawArgShape)
        ensures
            r == raw_arg_of_atom(index, *atom),
    {
        let value_class = match atom {
            ProductAtom::Expression { .. } => RawArgValueClass::UnknownExpression,
            ProductAtom::Unit { .. } => RawArgValueClass::NonValue(NonValueArgKind::ProductUnit),
            ProductAtom::SemanticValue { .. } => RawArgValueClass::Value,
            ProductAtom::Unsupported { summary, .. } => RawArgValueClass::Unsupported { summary: summary.clone() },
        };
        let (known_first_order_type_value, known_semantic_value, known_value_mode) = match atom {
            ProductAtom::SemanticValue { value, type_value, mode, .. } => (Some(*type_value), Some(*value), Some(*mode)),
            _ => (None, None, None),
        };
        RawArgShape {
            index,
            value_class,
            explicit_pass_mode: None,
            known_type_symbol_id: None,
            known_type_pattern_name: None,
            known_first_order_type_value,
            known_type_member_view: None,
            known_type_carrier_place: None,
            known_complete_type_observation: None,
            known_type_observation: None,
            known_semantic_value,
            known_value_mode,
            provenance: atom.provenance().copied(),
        }
    }
}

/// `atom` is what flattening makes of the leaf `leaf`.
pub open spec fn atom_of_leaf(leaf: NormProductElem, atom: ProductAtom) -> bool {
    match leaf {
        NormProductElem::Unit { origin } => atom matches ProductAtom::Unit { provenance }
            && provenance.description@ == "product Unit"@ && provenance.origin == Some(origin),
        NormProductElem::Expr(NormExpr::Unsupported { raw_kind_summary, origin }) =>
            atom matches ProductAtom::Unsupported { summary, provenance }
            && summary == raw_kind_summary && provenance.description@ == "unsupported product atom"@
            && provenance.origin == Some(origin),
        NormProductElem::Expr(NormExpr::Error(err)) => atom matches ProductAtom::Unsupported { summary, provenance }
            && summary == err.message && provenance.description@ == "error product atom"@
            && provenance.origin == Some(err.origin),
        NormProductElem::Expr(e) => atom matches ProductAtom::Expression { expr, provenance } && expr == e
            && provenance.description@ == "product expression"@ && provenance.origin == Some(
            crate::norm_syntax::expr_origin_spec(e),
        ),
    }
}

/// `atoms` are the atoms of `leaves`, one for one and in order.
pub open spec fn atoms_of_leaves(leaves: Seq<NormProductElem>, atoms: Seq<ProductAtom>) -> bool {
    &&& atoms.len() == leaves.len()
    &&& forall|i: int| 0 <= i < leaves.len() ==> #[trigger] atom_of_leaf(leaves[i], atoms[i])
}

fn product_atom_from_expr(expr: NormExpr) -> (r: ProductAtom)
    requires
        !(expr is Product),
    ensures
        atom_of_leaf(NormProductElem::Expr(expr), r),
{
    match expr {
        NormExpr::Unsupported { raw_kind_summary, origin } => ProductAtom::Unsupported {
            summary: raw_kind_summary,
            provenance: Provenance::from_norm_origin("unsupported product atom", origin),
        },
        NormExpr::Error(err) => ProductAtom::Unsupported {
            summary: err.message,
            provenance: Provenance::from_norm_origin("error product atom", err.origin),
        },
        e => {
            let origin = e.origin();
            ProductAtom::Expression { expr: e, provenance: Provenance::from_norm_origin("product expression", origin) }
        },
    }
}

/// Append the atoms of `product` to `atoms`, nested exposed products
/// flattened in place.
fn flatten_product(product: NormProduct, atoms: &mut Vec<ProductAtom>)
    ensures
        old(atoms)@.len() <= final(atoms)@.len(),
        final(atoms)@.subrange(0, old(atoms)@.len() as int) == old(atoms)@,
        atoms_of_leaves(
            product_leaves(product),
            final(atoms)@.subrange(old(atoms)@.len() as int, final(atoms)@.len() as int),
        ),
    decreases product,
{
    let ghost whole = product;
    let ghost start = atoms@.len();
    let elements = product.elements;
    for elem in it: elements.into_iter()
        invariant
            whole == product,
            it.seq() == whole.elements@,
            start <= atoms@.len(),
            atoms@.subrange(0, start as int) == old(atoms)@,
            atoms_of_leaves(
                product_leaves_upto(whole, it.index() as int),
                atoms@.subrange(start as int, atoms@.len() as int),
            ),
    {
        let ghost i = it.index() as int;
        let ghost before = atoms@;
        assert(elem == whole.elements@[i]);
        match elem {
            NormProductElem::Expr(NormExpr::Product(q)) => {
                proof {
                    assert(decreases_to!(whole => whole.elements));
                    assert(decreases_to!(whole.elements => whole.elements[i]));
                    assert(decreases_to!(whole => q));
                }
                flatten_product(q, atoms);
                proof {
                    let added = atoms@.subrange(before.len() as int, atoms@.len() as int);
                    assert(atoms@ == before + added);
                    lemma_atoms_of_leaves_append(
                        product_leaves_upto(whole, i),
                        product_leaves(q),
                        before.subrange(start as int, before.len() as int),
                        added,
                    );
                    assert(atoms@.subrange(start as int, atoms@.len() as int) == before.subrange(
                        start as int,
                        before.len() as int,
                    ) + added);
                    assert(atoms@.subrange(0, start as int) == before.subrange(0, start as int));
                }
            },
            other => {
                let atom = match other {
                    NormProductElem::Unit { origin } => ProductAtom::Unit {
                        provenance: Provenance::from_norm_origin("product Unit", origin),
                    },
                    NormProductElem::Expr(e) => product_atom_from_expr(e),
                };
                atoms.push(atom);
                proof {
                    lemma_atoms_of_leaves_append(
                        product_leaves_upto(whole, i),
                        seq![other],
                        before.subrange(start as int, before.len() as int),
                        seq![atom],
                    );
                    assert(atoms@.subrange(start as int, atoms@.len() as int) == before.subrange(
                        start as int,
                        before.len() as int,
                    ) + seq![atom]);
                    assert(atoms@.subrange(0, start as int) == before.subrange(0, start as int));
                }
            },
        }
    }
}

proof fn lemma_atoms_of_leaves_append(
    a: Seq<NormProductElem>,
    b: Seq<NormProductElem>,
    x: Seq<ProductAtom>,
    y: Seq<ProductAtom>,
)
    requires
        atoms_of_leaves(a, x),
        atoms_of_leaves(b, y),
    ensures
        atoms_of_leaves(a + b, x + y),
{
    assert forall|k: int| 0 <= k < (a + b).len() implies #[trigger] atom_of_leaf((a + b)[k], (x + y)[k]) by {
        if k < a.len() {
            assert(atom_of_leaf(a[k], x[k]));
        } else {
            assert(atom_of_leaf(b[k - a.len()], y[k - a.len()]));
        }
    }
}

#[derive(Clone, Copy, Debug, PartialEq, Eq, Structural)]
pub enum ProductMaterialRole {
    SourceProduct,
    CallableArgumentProduct,
    MetaConstructionArgumentProduct,
}

#[derive(Clone, Copy, Debug, PartialEq, Eq, Structural)]
pub struct FlattenedProductInvariant {
    pub no_direct_product_atom_remains: bool,
}

/// One argument of a flattened product and what is known of it.
#[derive(Clone, Debug, PartialEq, Eq)]
pub struct RawArgShape {
    pub index: usize,
    pub value_class: RawArgValueClass,
    pub explicit_pass_mode: Option<ExplicitPassMode>,
    pub known_type_symbol_id: Option<SymbolId>,
    /// Source-level pattern name of a semantic type resolution without a
    /// graph carrier Symbol; naming material only.
    pub known_type_pattern_name: Option<String>,
    pub known_first_order_type_value: Option<TypeValueId>,
    /// The resolved carrier's own binding-level pure-P member view.
    pub known_type_member_view: Option<PolicyResultEntry<SemanticValueId, PatternValueId>>,
    /// The resolved carrier's own object place; observation only.
    pub known_type_carrier_place: Option<ObjectPlaceId>,
    pub known_complete_type_observation: Option<CanonicalValueAddr>,
    /// The interned observation address of this type argument.
    pub known_type_observation: Option<CanonicalValueAddr>,
    pub known_semantic_value: Option<SemanticValueId>,
    pub known_value_mode: Option<PolicyMode>,
    pub provenance: Provenance,
}

#[derive(Clone, Debug, PartialEq, Eq)]
pub enum RawArgValueClass {
    Value,
    NonValue(NonValueArgKind),
    UnknownExpression,
    Unsupported { summary: String },
}

#[derive(Clone, Copy, Debug, PartialEq, Eq, Structural)]
pub enum NonValueArgKind {
    CoreTypeProjection,
    RankObject,
    NamespaceObject,
    MetaObject,
    PatternObject,
    ProductUnit,
}

#[derive(Clone, Copy, Debug, PartialEq, Eq, Structural)]
pub enum ExplicitPassMode {
    Move,
    Ref,
    Share,
    Copy,
    In,
}

impl RawArgShape {
    /// `Some(true)` for a value, `Some(false)` for a non-value, `None` when
    /// not classified.
    pub fn is_value(&self) -> (r: Option<bool>)
        ensures
            r == match self.value_class {
                RawArgValueClass::Value => Some(true),
                RawArgValueClass::NonValue(_) => Some(false),
                _ => None::<bool>,
            },
    {
        match self.value_class {
            RawArgValueClass::Value => Some(true),
            RawArgValueClass::NonValue(_) => Some(false),
            _ => None,
        }
    }

    /// The type observation carried for structural type-identity positions;
    /// a bare type value never produces one.
    pub fn type_observation(&self) -> (r: Option<CanonicalTypeObservation>)
        ensures
            r == match self.known_type_observation {
                Some(addr) => Some(CanonicalTypeObservation::Observed(addr)),
                None => None,
            },
    {
        match self.known_type_observation {
            Some(addr) => Some(CanonicalTypeObservation::Observed(addr)),
            None => None,
        }
    }

    /// True only once the argument has been positively classified as a
    /// value.
    pub fn receives_automatic_pass_action(&self) -> (r: bool)
        ensures
            r == (self.value_class is Value),
    {
        match self.value_class {
            RawArgValueClass::Value => true,
            _ => false,
        }
    }

    /// Replace the value class, keeping everything else.
    pub fn with_value_class(self, value_class: RawArgValueClass) -> (r: RawArgShape)
        ensures
            r == (RawArgShape { value_class, ..self }),
    {
        RawArgShape { value_class, ..self }
    }

    /// Record a known first-order type value.
    pub fn with_known_first_order_type_value(self, type_value: TypeValueId) -> (r: RawArgShape)
        ensures
            r == (RawArgShape { known_first_order_type_value: Some(type_value), ..self }),
    {
        RawArgShape { known_first_order_type_value: Some(type_value), ..self }
    }

    /// Classify as a value.
    pub fn as_resolved_value(self) -> (r: RawArgShape)
        ensures
            r == (RawArgShape { value_class: RawArgValueClass::Value, ..self }),
    {
        self.with_value_class(RawArgValueClass::Value)
    }

    /// Classify as a non-value of the given kind.
    pub fn as_non_value(self, kind: NonValueArgKind) -> (r: RawArgShape)
        ensures
            r == (RawArgShape { value_class: RawArgValueClass::NonValue(kind), ..self }),
    {
        self.with_value_class(RawArgValueClass::NonValue(kind))
    }

    fn with_known_type_symbol_id(self, symbol_id: SymbolId) -> (r: RawArgShape)
        ensures
            r == (RawArgShape { known_type_symbol_id: Some(symbol_id), ..self }),
    {
        RawArgShape { known_type_symbol_id: Some(symbol_id), ..self }
    }

    /// Classify as a core type projection, keeping the carrier Symbol and
    /// the represented type value independent.
    pub fn as_complete_type_projection_with_identity(
        self,
        carrier_symbol: SymbolId,
        represented_type: TypeValueId,
    ) -> (r: RawArgShape)
        ensures
            r == (RawArgShape {
                value_class: RawArgValueClass::NonValue(NonValueArgKind::CoreTypeProjection),
                known_type_symbol_id: Some(carrier_symbol),
                known_first_order_type_value: Some(represented_type),
                ..self
            }),
    {
        self.with_value_class(RawArgValueClass::NonValue(NonValueArgKind::CoreTypeProjection))
            .with_known_type_symbol_id(carrier_symbol).with_known_first_order_type_value(represented_type)
    }

    /// Classify as a core type projection from a semantic resolution that
    /// carries a pattern name, a represented type value and an optional graph
    /// Symbol, member view, place and complete type observation.
    pub fn as_complete_type_projection_named(
        self,
        top_pattern_name: String,
        represented_type: TypeValueId,
        carrier_symbol: Option<SymbolId>,
        member_view: Option<PolicyResultEntry<SemanticValueId, PatternValueId>>,
        carrier_place: Option<ObjectPlaceId>,
        complete_type_observation: Option<CanonicalValueAddr>,
    ) -> (r: RawArgShape)
        ensures
            r == (RawArgShape {
                value_class: RawArgValueClass::NonValue(NonValueArgKind::CoreTypeProjection),
                known_first_order_type_value: Some(represented_type),
                known_type_pattern_name: Some(top_pattern_name),
                known_type_symbol_id: carrier_symbol,
                known_type_member_view: member_view,
                known_type_carrier_place: carrier_place,
                known_complete_type_observation: complete_type_observation,
                ..self
            }),
    {
        let refined = self.with_value_class(
            RawArgValueClass::NonValue(NonValueArgKind::CoreTypeProjection),
        ).with_known_first_order_type_value(represented_type);
        RawArgShape {
            known_type_pattern_name: Some(top_pattern_name),
            known_type_symbol_id: carrier_symbol,
            known_type_member_view: member_view,
            known_type_carrier_place: carrier_place,
            known_complete_type_observation: complete_type_observation,
            ..refined
        }
    }

    /// Classify as a value and record its first-order type value.
    pub fn as_resolved_value_with_value_type(self, type_value: TypeValueId) -> (r: RawArgShape)
        ensures
            r == (RawArgShape {
                value_class: RawArgValueClass::Value,
                known_first_order_type_value: Some(type_value),
                ..self
            }),
    {
        self.with_value_class(RawArgValueClass::Value).with_known_first_order_type_value(type_value)
    }

    /// Classify as an already-evaluated semantic value with its type value
    /// and mode.
    pub fn as_resolved_semantic_value(self, value: SemanticValueId, type_value: TypeValueId, mode: PolicyMode) -> (r:
        RawArgShape)
        ensures
            r == (RawArgShape {
                value_class: RawArgValueClass::Value,
                known_first_order_type_value: Some(type_value),
                known_semantic_value: Some(value),
                known_value_mode: Some(mode),
                ..self
            }),
    {
        RawArgShape {
            known_semantic_value: Some(value),
            known_value_mode: Some(mode),
            ..self.as_resolved_value_with_value_type(type_value)
        }
    }
}

} // verus!
