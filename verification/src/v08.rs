//! Argument shapes, alias chains, parameter shapes and candidate policy
//! planes of the construction contract.
use vstd::prelude::*;

use crate::model::{
    Diagnostic, DiagnosticKind, ExecutionEnv, Provenance, SymbolId, SymbolKind, SymbolObject, SymbolPayload,
};
use crate::norm_syntax::{NormExpr, NormProduct, NormProductElem};
use crate::product_shape::product_leaves;
use crate::policy_pair::{
    body_entry_allows_execution, body_entry_domain, domain_allows_execution, Phase, PolicyPair,
};

verus! {

#[derive(Clone, Copy, Debug, PartialEq, Eq, Structural)]
pub enum ProductMaterialRole {
    SourceProduct,
    CallableArgumentProduct,
    MetaConstructionArgumentProduct,
    Placeholder,
}

#[derive(Clone, Copy, Debug, PartialEq, Eq, Structural)]
pub struct FlattenedProductInvariant {
    pub no_direct_product_atom_remains: bool,
}

/// A product object: a written product and the role it is read in.
#[derive(Debug, PartialEq, Eq)]
pub struct ProductObject {
    pub original: NormProduct,
    pub provenance: Provenance,
    pub material_role: ProductMaterialRole,
}

/// A product after flattening: its atoms in written order.
#[derive(Debug, PartialEq, Eq)]
pub struct FlattenedProductObject {
    pub atoms: Vec<ProductAtom>,
    pub provenance: Provenance,
    pub invariant: FlattenedProductInvariant,
}

/// One argument position of a flattened product.
#[derive(Debug, PartialEq, Eq)]
pub enum ProductAtom {
    Expression { expr: NormExpr, provenance: Provenance },
    Unit { provenance: Provenance },
    Unsupported { summary: String, provenance: Provenance },
}

/// The argument shape of a flattened product: one raw argument per atom.
#[derive(Debug, PartialEq, Eq)]
pub struct ArgProductShape {
    pub flattened: FlattenedProductObject,
    pub arity: usize,
    pub raw_args: Vec<RawArgShape>,
    pub provenance: Provenance,
}

/// `atom` is what flattening makes of the leaf `leaf`.
pub open spec fn atom_of_leaf(leaf: NormProductElem, atom: ProductAtom) -> bool {
    match leaf {
        NormProductElem::Unit { origin } => atom matches ProductAtom::Unit { provenance }
            && provenance.description@ == "v0.8 product Unit"@ && provenance.origin == Some(origin),
        NormProductElem::Expr(NormExpr::Unsupported { raw_kind_summary, origin }) =>
            atom matches ProductAtom::Unsupported { summary, provenance }
            && summary == raw_kind_summary && provenance.description@ == "v0.8 unsupported product atom"@
            && provenance.origin == Some(origin),
        NormProductElem::Expr(NormExpr::Error(err)) => atom matches ProductAtom::Unsupported { summary, provenance }
            && summary == err.message && provenance.description@ == "v0.8 error product atom"@
            && provenance.origin == Some(err.origin),
        NormProductElem::Expr(e) => atom matches ProductAtom::Expression { expr, provenance } && expr == e
            && provenance.description@ == "v0.8 product expression"@ && provenance.origin == Some(
            crate::norm_syntax::expr_origin_spec(e),
        ),
    }
}

/// `atoms` are the atoms of `leaves`, one for one and in order.
pub open spec fn atoms_of_leaves(leaves: Seq<NormProductElem>, atoms: Seq<ProductAtom>) -> bool {
    &&& atoms.len() == leaves.len()
    &&& forall|i: int| 0 <= i < leaves.len() ==> #[trigger] atom_of_leaf(leaves[i], atoms[i])
}

proof fn lemma_atoms_of_leaves_append(
    a: Seq<NormProductElem>,
    b: Seq<NormProductElem>,
    x: Seq<ProductAtom>,
    y: Seq<ProductAtom>,
)
    requires
        atoms_of_leaves(a, x),
        atoms_of_leaves(b, y),
    ensures
        atoms_of_leaves(a + b, x + y),
{
    assert forall|k: int| 0 <= k < (a + b).len() implies #[trigger] atom_of_leaf((a + b)[k], (x + y)[k]) by {
        if k < a.len() {
            assert(atom_of_leaf(a[k], x[k]));
        } else {
            assert(atom_of_leaf(b[k - a.len()], y[k - a.len()]));
        }
    }
}

fn product_atom_from_expr(expr: NormExpr) -> (r: ProductAtom)
    requires
        !(expr is Product),
    ensures
        atom_of_leaf(NormProductElem::Expr(expr), r),
{
    match expr {
        NormExpr::Unsupported { raw_kind_summary, origin } => ProductAtom::Unsupported {
            summary: raw_kind_summary,
            provenance: Provenance::from_norm_origin("v0.8 unsupported product atom", origin),
        },
        NormExpr::Error(err) => ProductAtom::Unsupported {
            summary: err.message,
            provenance: Provenance::from_norm_origin("v0.8 error product atom", err.origin),
        },
        e => {
            let origin = e.origin();
            ProductAtom::Expression { expr: e, provenance: Provenance::from_norm_origin("v0.8 product expression", origin) }
        },
    }
}

/// Append the atoms of `product` to `atoms`, nested exposed products
/// flattened in place.
fn flatten_product(product: NormProduct, atoms: &mut Vec<ProductAtom>)
    ensures
        old(atoms)@.len() <= final(atoms)@.len(),
        final(atoms)@.subrange(0, old(atoms)@.len() as int) == old(atoms)@,
        atoms_of_leaves(
            product_leaves(product),
            final(atoms)@.subrange(old(atoms)@.len() as int, final(atoms)@.len() as int),
        ),
    decreases product,
{
    let ghost whole = product;
    let ghost start = atoms@.len();
    let elements = product.elements;
    for elem in it: elements.into_iter()
        invariant
            whole == product,
            it.seq() == whole.elements@,
            start <= atoms@.len(),
            atoms@.subrange(0, start as int) == old(atoms)@,
            atoms_of_leaves(
                crate::product_shape::product_leaves_upto(whole, it.index() as int),
                atoms@.subrange(start as int, atoms@.len() as int),
            ),
    {
        let ghost i = it.index() as int;
        let ghost before = atoms@;
        assert(elem == whole.elements@[i]);
        match elem {
            NormProductElem::Expr(NormExpr::Product(q)) => {
                proof {
                    assert(decreases_to!(whole => whole.elements));
                    assert(decreases_to!(whole.elements => whole.elements[i]));
                    assert(decreases_to!(whole => q));
                }
                flatten_product(q, atoms);
                proof {
                    let added = atoms@.subrange(before.len() as int, atoms@.len() as int);
                    assert(atoms@ == before + added);
                    lemma_atoms_of_leaves_append(
                        crate::product_shape::product_leaves_upto(whole, i),
                        product_leaves(q),
                        before.subrange(start as int, before.len() as int),
                        added,
                    );
                    assert(atoms@.subrange(start as int, atoms@.len() as int) == before.subrange(
                        start as int,
                        before.len() as int,
                    ) + added);
                    assert(atoms@.subrange(0, start as int) == before.subrange(0, start as int));
                }
            },
            other => {
                let atom = match other {
                    NormProductElem::Unit { origin } => ProductAtom::Unit {
                        provenance: Provenance::from_norm_origin("v0.8 product Unit", origin),
                    },
                    NormProductElem::Expr(e) => product_atom_from_expr(e),
                };
                atoms.push(atom);
                proof {
                    lemma_atoms_of_leaves_append(
                        crate::product_shape::product_leaves_upto(whole, i),
                        seq![other],
                        before.subrange(start as int, before.len() as int),
                        seq![atom],
                    );
                    assert(atoms@.subrange(start as int, atoms@.len() as int) == before.subrange(
                        start as int,
                        before.len() as int,
                    ) + seq![atom]);
                    assert(atoms@.subrange(0, start as int) == before.subrange(0, start as int));
                }
            },
        }
    }
}

/// The provenance an atom carries.
pub open spec fn atom_provenance(atom: ProductAtom) -> Provenance {
    match atom {
        ProductAtom::Expression { provenance, .. } => provenance,
        ProductAtom::Unit { provenance } => provenance,
        ProductAtom::Unsupported { provenance, .. } => provenance,
    }
}

/// What is known of argument `index` from its atom alone.
pub open spec fn raw_arg_of_atom(index: usize, atom: ProductAtom) -> RawArgShape {
    RawArgShape {
        index,
        value_class: match atom {
            ProductAtom::Expression { .. } => RawArgValueClass::UnknownExpression,
            ProductAtom::Unit { .. } => RawArgValueClass::NonValue(NonValueArgKind::ProductUnit),
            ProductAtom::Unsupported { summary, .. } => RawArgValueClass::Unsupported { summary },
        },
        explicit_pass_mode: None,
        known_first_order_type_value: None,
        provenance: atom_provenance(atom),
    }
}

/// `shape` is the argument shape of `flattened`.
pub open spec fn is_arg_shape_of(shape: ArgProductShape, flattened: FlattenedProductObject) -> bool {
    &&& shape.flattened == flattened
    &&& shape.arity == flattened.atoms@.len()
    &&& shape.raw_args@.len() == flattened.atoms@.len()
    &&& forall|i: int|
        0 <= i < flattened.atoms@.len() ==> #[trigger] shape.raw_args@[i] == raw_arg_of_atom(
            i as usize,
            flattened.atoms@[i],
        )
    &&& shape.provenance == flattened.provenance
}

impl ProductObject {
    pub fn from_norm_product(product: NormProduct, material_role: ProductMaterialRole) -> (r: ProductObject)
        ensures
            r.original == product,
            r.provenance.description@ == "v0.8 ProductObject"@,
            r.provenance.origin == Some(product.origin),
            r.material_role == material_role,
    {
        let origin = product.origin;
        ProductObject {
            original: product,
            provenance: Provenance::from_norm_origin("v0.8 ProductObject", origin),
            material_role,
        }
    }

    /// Flatten the product: exposed products expand in place and in order,
    /// expressions are opaque barriers, Unit is kept, provenance is kept.
    pub fn flatten(self) -> (r: FlattenedProductObject)
        ensures
            atoms_of_leaves(product_leaves(self.original), r.atoms@),
            r.provenance == self.provenance,
            r.invariant.no_direct_product_atom_remains,
    {
        let mut atoms: Vec<ProductAtom> = Vec::new();
        flatten_product(self.original, &mut atoms);
        assert(atoms@.subrange(0, atoms@.len() as int) == atoms@);
        FlattenedProductObject {
            atoms,
            provenance: self.provenance,
            invariant: FlattenedProductInvariant { no_direct_product_atom_remains: true },
        }
    }

    /// The argument shape of the flattened product.
    pub fn to_arg_product_shape(self) -> (r: ArgProductShape)
        ensures
            atoms_of_leaves(product_leaves(self.original), r.flattened.atoms@),
            r.flattened.provenance == self.provenance,
            r.flattened.invariant.no_direct_product_atom_remains,
            is_arg_shape_of(r, r.flattened),
    {
        ArgProductShape::from_flattened(self.flatten())
    }
}

impl ProductAtom {
    pub fn provenance(&self) -> (r: &Provenance)
        ensures
            *r == atom_provenance(*self),
    {
        match self {
            ProductAtom::Expression { provenance, .. } => provenance,
            ProductAtom::Unit { provenance } => provenance,
            ProductAtom::Unsupported { provenance, .. } => provenance,
        }
    }
}

impl ArgProductShape {
    pub fn from_product_object(product: ProductObject) -> (r: ArgProductShape)
        ensures
            atoms_of_leaves(product_leaves(product.original), r.flattened.atoms@),
            r.flattened.provenance == product.provenance,
            r.flattened.invariant.no_direct_product_atom_remains,
            is_arg_shape_of(r, r.flattened),
    {
        product.to_arg_product_shape()
    }

    /// One raw argument per atom, in order.
    pub fn from_flattened(flattened: FlattenedProductObject) -> (r: ArgProductShape)
        ensures
            is_arg_shape_of(r, flattened),
    {
        let mut raw_args: Vec<RawArgShape> = Vec::new();
        let n = flattened.atoms.len();
        for index in 0..n
            invariant
                n == flattened.atoms@.len(),
                raw_args@.len() == index,
                forall|i: int|
                    0 <= i < index ==> #[trigger] raw_args@[i] == raw_arg_of_atom(i as usize, flattened.atoms@[i]),
        {
            raw_args.push(RawArgShape::from_product_atom(index, &flattened.atoms[index]));
        }
        let provenance = flattened.provenance.copied();
        ArgProductShape { arity: raw_args.len(), provenance, flattened, raw_args }
    }
}

/// One argument of a flattened product and what is known of it.
#[derive(Clone, Debug, PartialEq, Eq)]
pub struct RawArgShape {
    pub index: usize,
    pub value_class: RawArgValueClass,
    pub explicit_pass_mode: Option<ExplicitPassMode>,
    pub known_first_order_type_value: Option<TypeValueId>,
    pub provenance: Provenance,
}

impl RawArgShape {
    /// What is known of argument `index` from its atom alone.
    pub fn from_product_atom(index: usize, atom: &ProductAtom) -> (r: RawArgShape)
        ensures
            r == raw_arg_of_atom(index, *atom),
    {
        let value_class = match atom {
            ProductAtom::Expression { .. } => RawArgValueClass::UnknownExpression,
            ProductAtom::Unit { .. } => RawArgValueClass::NonValue(NonValueArgKind::ProductUnit),
            ProductAtom::Unsupported { summary, .. } => RawArgValueClass::Unsupported { summary: summary.clone() },
        };
        RawArgShape {
            index,
            value_class,
            explicit_pass_mode: None,
            known_first_order_type_value: None,
            provenance: atom.provenance().copied(),
        }
    }

    /// `Some(true)` for a value, `Some(false)` for a non-value, `None` when
    /// not classified.
    pub fn is_value(&self) -> (r: Option<bool>)
        ensures
            r == match self.value_class {
                RawArgValueClass::Value => Some(true),
                RawArgValueClass::NonValue(_) => Some(false),
                _ => None::<bool>,
            },
    {
        match self.value_class {
            RawArgValueClass::Value => Some(true),
            RawArgValueClass::NonValue(_) => Some(false),
            _ => None,
        }
    }

    /// True only once the argument has been positively classified as a
    /// value.
    pub fn receives_automatic_pass_action(&self) -> (r: bool)
        ensures
            r == (self.value_class is Value),
    {
        match self.value_class {
            RawArgValueClass::Value => true,
            _ => false,
        }
    }
}

#[derive(Clone, Debug, PartialEq, Eq)]
pub enum RawArgValueClass {
    Value,
    NonValue(NonValueArgKind),
    UnknownExpression,
    Unsupported { summary: String },
}

#[derive(Clone, Copy, Debug, PartialEq, Eq, Structural)]
pub enum NonValueArgKind {
    TypeObject,
    RankObject,
    NamespaceObject,
    MetaObject,
    PatternObject,
    ProductUnit,
}

#[derive(Clone, Copy, Debug, PartialEq, Eq, Structural)]
pub enum ExplicitPassMode {
    Move,
    Ref,
    Share,
    Copy,
    In,
}

#[derive(Clone, Copy, Debug, PartialEq, Eq, PartialOrd, Ord, Hash, Structural)]
pub struct TypeValueId(pub u64);

impl TypeValueId {
    pub fn as_u64(self) -> (r: u64)
        ensures
            r == self.0,
    {
        self.0
    }
}

#[derive(Clone, Copy, Debug, PartialEq, Eq, PartialOrd, Ord, Hash, Structural)]
pub struct PlaceId(pub u64);

impl PlaceId {
    pub fn as_u64(self) -> (r: u64)
        ensures
            r == self.0,
    {
        self.0
    }
}

#[derive(Clone, Debug, PartialEq, Eq)]
pub struct TypeValueBindingPlaceholder {
    pub symbol: SymbolId,
    pub place: PlaceId,
    pub type_value: TypeValueId,
    pub provenance: Provenance,
}

impl TypeValueBindingPlaceholder {
    pub fn new(symbol: SymbolId, place: PlaceId, type_value: TypeValueId, provenance: Provenance) -> (r:
        TypeValueBindingPlaceholder)
        ensures
            r == (TypeValueBindingPlaceholder { symbol, place, type_value, provenance }),
    {
        TypeValueBindingPlaceholder { symbol, place, type_value, provenance }
    }
}

/// One alias forwarding step and what is known about where it ends.
#[derive(Clone, Debug, PartialEq, Eq)]
pub struct AliasChain {
    pub source_symbol: SymbolId,
    pub forwarded_target: SymbolId,
    pub final_symbol: Option<SymbolId>,
    pub final_value: Option<TypeValueId>,
    pub final_place: Option<PlaceId>,
    pub provenance_chain: Vec<Provenance>,
    pub writable_boundary: AliasWritableBoundary,
    pub cycle_detection_state: AliasCycleDetectionState,
}

/// How an alias query proceeds in each query mode.
pub open spec fn disposition_spec(mode: AliasQueryMode) -> AliasQueryDisposition {
    match mode {
        AliasQueryMode::TypeValueEvaluation => AliasQueryDisposition::FollowValueChain,
        AliasQueryMode::CallableLookup => AliasQueryDisposition::PolicyAwareSymbolResolution,
        AliasQueryMode::InjectionPlaceTarget => AliasQueryDisposition::FollowPlaceWithBoundary,
    }
}

impl AliasChain {
    /// A fresh chain from `source_symbol` forwarded to `forwarded_target`,
    /// ending there as far as is known.
    pub fn new(source_symbol: SymbolId, forwarded_target: SymbolId, provenance: Provenance) -> (r: AliasChain)
        ensures
            r.source_symbol == source_symbol,
            r.forwarded_target == forwarded_target,
            r.final_symbol == Some(forwarded_target),
            r.final_value is None,
            r.final_place is None,
            r.provenance_chain@ == seq![provenance],
            r.writable_boundary == AliasWritableBoundary::Unknown,
            r.cycle_detection_state == AliasCycleDetectionState::NotChecked,
    {
        let mut provenance_chain: Vec<Provenance> = Vec::new();
        provenance_chain.push(provenance);
        AliasChain {
            source_symbol,
            forwarded_target,
            final_symbol: Some(forwarded_target),
            final_value: None,
            final_place: None,
            provenance_chain,
            writable_boundary: AliasWritableBoundary::Unknown,
            cycle_detection_state: AliasCycleDetectionState::NotChecked,
        }
    }

    pub fn query_disposition(&self, mode: AliasQueryMode) -> (r: AliasQueryDisposition)
        ensures
            r == disposition_spec(mode),
    {
        match mode {
            AliasQueryMode::TypeValueEvaluation => AliasQueryDisposition::FollowValueChain,
            AliasQueryMode::CallableLookup => AliasQueryDisposition::PolicyAwareSymbolResolution,
            AliasQueryMode::InjectionPlaceTarget => AliasQueryDisposition::FollowPlaceWithBoundary,
        }
    }

    /// An alias never creates a fresh writable place.
    pub fn creates_fresh_writable_place(&self) -> (r: bool)
        ensures
            !r,
    {
        false
    }
}

#[derive(Clone, Copy, Debug, PartialEq, Eq, Structural)]
pub enum AliasQueryMode {
    TypeValueEvaluation,
    CallableLookup,
    InjectionPlaceTarget,
}

#[derive(Clone, Copy, Debug, PartialEq, Eq, Structural)]
pub enum AliasQueryDisposition {
    FollowValueChain,
    PolicyAwareSymbolResolution,
    FollowPlaceWithBoundary,
}

#[derive(Clone, Copy, Debug, PartialEq, Eq, Structural)]
pub enum AliasWritableBoundary {
    Unknown,
    ForwardTargetBoundary,
    ReadOnlyBoundary,
    WritableTargetBoundary,
}

#[derive(Clone, Copy, Debug, PartialEq, Eq, Structural)]
pub enum AliasCycleDetectionState {
    NotChecked,
    Visiting,
    Acyclic,
    CycleDetected,
}

#[derive(Clone, Debug, PartialEq, Eq)]
pub struct ParameterShape {
    pub expected_arity: Option<usize>,
    pub provenance: Provenance,
}

impl ParameterShape {
    /// A parameter shape whose arity is not known yet.
    pub fn deferred(provenance: Provenance) -> (r: ParameterShape)
        ensures
            r == (ParameterShape { expected_arity: None, provenance }),
    {
        ParameterShape { expected_arity: None, provenance }
    }

    /// A parameter shape of exactly `expected_arity` arguments.
    pub fn exact_arity(expected_arity: usize, provenance: Provenance) -> (r: ParameterShape)
        ensures
            r == (ParameterShape { expected_arity: Some(expected_arity), provenance }),
    {
        ParameterShape { expected_arity: Some(expected_arity), provenance }
    }
}

/// The symbol visibility phase and the demanded execution of one candidate
/// preparation.
#[derive(Clone, Debug, PartialEq, Eq)]
pub struct CandidatePreparationContext {
    pub symbol_visibility: Phase,
    pub demanded_execution: ExecutionEnv,
    pub provenance: Provenance,
}

/// The policy planes of one prepared candidate: where its symbol is
/// visible, what execution is demanded, and the Policy of its body entry and
/// of its returned object.
#[derive(Clone, Copy, Debug, PartialEq, Eq, Structural)]
pub struct CandidatePolicyPlanes {
    pub symbol_visibility: Phase,
    pub demanded_execution: ExecutionEnv,
    pub body_entry_policy: PolicyPair,
    pub return_object_policy: PolicyPair,
}

impl CandidatePolicyPlanes {
    /// Whether the body entry Policy admits the demanded execution.
    pub fn body_entry_allows_demanded_execution(&self) -> (r: bool)
        ensures
            r == domain_allows_execution(body_entry_domain(self.body_entry_policy), self.demanded_execution),
    {
        body_entry_allows_execution(&self.body_entry_policy, self.demanded_execution)
    }
}

#[derive(Clone, Copy, Debug, PartialEq, Eq, Structural)]
pub enum CallableCandidateKind {
    MetaFunction,
    FieldFunction,
}

/// The seed of a canonical meta instance key: the callee, the argument
/// arity and each argument's type value when known.
#[derive(Clone, Debug, PartialEq, Eq)]
pub struct CanonicalMetaInstanceKeySeed {
    pub callee_function_symbol_id: SymbolId,
    pub argument_arity: usize,
    pub argument_type_values: Vec<Option<TypeValueId>>,
    pub provenance: Provenance,
}

#[derive(Clone, Copy, Debug, PartialEq, Eq, Structural)]
pub enum CandidatePrepDeferredReason {
    ParameterShapeCompatibilityDeferred,
    BodyEntryPolicyMismatch,
}

/// A callable candidate prepared for one call: the callee, the argument
/// shape, the parameter shape, the policy planes and the seed of its
/// canonical meta instance key.
#[derive(Debug, PartialEq, Eq)]
pub struct PreparedCallableCandidate {
    pub callee_symbol_id: SymbolId,
    pub callee_name: String,
    pub callable_kind: CallableCandidateKind,
    pub arg_product_shape: ArgProductShape,
    pub parameter_shape: ParameterShape,
    pub policy_planes: CandidatePolicyPlanes,
    pub canonical_key_seed: CanonicalMetaInstanceKeySeed,
    pub provenance: Provenance,
}

/// The outcome of candidate preparation.
#[derive(Debug, PartialEq, Eq)]
pub enum CandidatePrepResult {
    Deferred { candidate: Box<PreparedCallableCandidate>, reason: CandidatePrepDeferredReason },
    /// Applicable as far as this preparation can tell; applicability proper
    /// is decided later.
    ApplicablePlaceholder(Box<PreparedCallableCandidate>),
    Diagnostic(Diagnostic),
}

/// The candidate kind and the body-entry and return-object Policy of a
/// callable symbol; `None` when the symbol is no callable whose kind agrees
/// with its payload.
pub open spec fn callable_policy_spec(callee: SymbolObject) -> Option<(CallableCandidateKind, PolicyPair, PolicyPair)> {
    match callee.payload {
        SymbolPayload::MetaFunction(f) => if callee.kind == SymbolKind::MetaFunction {
            Some((CallableCandidateKind::MetaFunction, f.body_entry_policy, f.return_object_policy))
        } else {
            None
        },
        SymbolPayload::FieldFunction(f) => if callee.kind == SymbolKind::FieldFunction {
            Some(
                (
                    CallableCandidateKind::FieldFunction,
                    f.callable_policy.body_entry_policy,
                    f.callable_policy.return_object_policy,
                ),
            )
        } else {
            None
        },
        SymbolPayload::Other => None,
    }
}

fn callable_policy_from_symbol(callee: &SymbolObject) -> (r: Option<(CallableCandidateKind, PolicyPair, PolicyPair)>)
    ensures
        r == callable_policy_spec(*callee),
{
    match callee.payload {
        SymbolPayload::MetaFunction(f) => {
            if callee.kind == SymbolKind::MetaFunction {
                Some((CallableCandidateKind::MetaFunction, f.body_entry_policy, f.return_object_policy))
            } else {
                None
            }
        },
        SymbolPayload::FieldFunction(f) => {
            if callee.kind == SymbolKind::FieldFunction {
                Some(
                    (
                        CallableCandidateKind::FieldFunction,
                        f.callable_policy.body_entry_policy,
                        f.callable_policy.return_object_policy,
                    ),
                )
            } else {
                None
            }
        },
        SymbolPayload::Other => None,
    }
}

/// `c` is the candidate prepared for `callee` with the given argument and
/// parameter shapes, in `context`, with candidate kind `kind` and Policies
/// `body` and `ret`.
pub open spec fn is_prepared_candidate(
    c: PreparedCallableCandidate,
    callee: SymbolObject,
    arg_product_shape: ArgProductShape,
    parameter_shape: ParameterShape,
    context: CandidatePreparationContext,
    kind: CallableCandidateKind,
    body: PolicyPair,
    ret: PolicyPair,
) -> bool {
    &&& c.callee_symbol_id == callee.id
    &&& c.callee_name == callee.name
    &&& c.callable_kind == kind
    &&& c.arg_product_shape == arg_product_shape
    &&& c.parameter_shape == parameter_shape
    &&& c.policy_planes == (CandidatePolicyPlanes {
        symbol_visibility: context.symbol_visibility,
        demanded_execution: context.demanded_execution,
        body_entry_policy: body,
        return_object_policy: ret,
    })
    &&& c.canonical_key_seed.callee_function_symbol_id == callee.id
    &&& c.canonical_key_seed.argument_arity == arg_product_shape.arity
    &&& c.canonical_key_seed.argument_type_values@ == arg_product_shape.raw_args@.map_values(
        |a: RawArgShape| a.known_first_order_type_value,
    )
    &&& c.canonical_key_seed.provenance == context.provenance
    &&& c.provenance == context.provenance
}

/// Prepare a meta or field function candidate: the callee must be a
/// callable symbol; a deferred parameter shape defers; an arity mismatch is
/// an error; a body entry Policy that does not admit the demanded execution
/// defers; otherwise the candidate is applicable as far as known here.
pub fn prepare_meta_callable_candidate(
    callee: &SymbolObject,
    arg_product_shape: ArgProductShape,
    parameter_shape: ParameterShape,
    context: CandidatePreparationContext,
) -> (r: CandidatePrepResult)
    ensures
        match callable_policy_spec(*callee) {
            None => r == CandidatePrepResult::Diagnostic(
                Diagnostic {
                    kind: DiagnosticKind::CandidateRequiresCallableSymbol(callee.id),
                    provenance: Some(callee.provenance),
                },
            ),
            Some((kind, body, ret)) => match parameter_shape.expected_arity {
                None => r matches CandidatePrepResult::Deferred { candidate, reason } && reason
                    == CandidatePrepDeferredReason::ParameterShapeCompatibilityDeferred && is_prepared_candidate(
                    *candidate,
                    *callee,
                    arg_product_shape,
                    parameter_shape,
                    context,
                    kind,
                    body,
                    ret,
                ),
                Some(expected) => if expected != arg_product_shape.arity {
                    r == CandidatePrepResult::Diagnostic(
                        Diagnostic {
                            kind: DiagnosticKind::CandidateArityMismatch {
                                callee: callee.id,
                                expected,
                                actual: arg_product_shape.arity,
                            },
                            provenance: Some(parameter_shape.provenance),
                        },
                    )
                } else if !domain_allows_execution(body_entry_domain(body), context.demanded_execution) {
                    r matches CandidatePrepResult::Deferred { candidate, reason } && reason
                        == CandidatePrepDeferredReason::BodyEntryPolicyMismatch && is_prepared_candidate(
                        *candidate,
                        *callee,
                        arg_product_shape,
                        parameter_shape,
                        context,
                        kind,
                        body,
                        ret,
                    )
                } else {
                    r matches CandidatePrepResult::ApplicablePlaceholder(candidate) && is_prepared_candidate(
                        *candidate,
                        *callee,
                        arg_product_shape,
                        parameter_shape,
                        context,
                        kind,
                        body,
                        ret,
                    )
                },
            },
        },
{
    let (callable_kind, body_entry_policy, return_object_policy) = match callable_policy_from_symbol(callee) {
        Some(found) => found,
        None => {
            return CandidatePrepResult::Diagnostic(
                Diagnostic::hard_error(
                    DiagnosticKind::CandidateRequiresCallableSymbol(callee.id),
                    Some(callee.provenance.copied()),
                ),
            );
        },
    };
    let policy_planes = CandidatePolicyPlanes {
        symbol_visibility: context.symbol_visibility,
        demanded_execution: context.demanded_execution,
        body_entry_policy,
        return_object_policy,
    };
    let mut argument_type_values: Vec<Option<TypeValueId>> = Vec::new();
    let n = arg_product_shape.raw_args.len();
    for i in 0..n
        invariant
            n == arg_product_shape.raw_args@.len(),
            argument_type_values@ == arg_product_shape.raw_args@.subrange(0, i as int).map_values(
                |a: RawArgShape| a.known_first_order_type_value,
            ),
    {
        argument_type_values.push(arg_product_shape.raw_args[i].known_first_order_type_value);
        assert(arg_product_shape.raw_args@.subrange(0, i + 1) == arg_product_shape.raw_args@.subrange(
            0,
            i as int,
        ).push(arg_product_shape.raw_args@[i as int]));
    }
    assert(arg_product_shape.raw_args@.subrange(0, n as int) == arg_product_shape.raw_args@);
    let canonical_key_seed = CanonicalMetaInstanceKeySeed {
        callee_function_symbol_id: callee.id,
        argument_arity: arg_product_shape.arity,
        argument_type_values,
        provenance: context.provenance.copied(),
    };
    let candidate = PreparedCallableCandidate {
        callee_symbol_id: callee.id,
        callee_name: callee.name.clone(),
        callable_kind,
        arg_product_shape,
        parameter_shape,
        policy_planes,
        canonical_key_seed,
        provenance: context.provenance,
    };
    let expected_arity = match candidate.parameter_shape.expected_arity {
        Some(expected) => expected,
        None => {
            return CandidatePrepResult::Deferred {
                candidate: Box::new(candidate),
                reason: CandidatePrepDeferredReason::ParameterShapeCompatibilityDeferred,
            };
        },
    };
    if expected_arity != candidate.arg_product_shape.arity {
        return CandidatePrepResult::Diagnostic(
            Diagnostic::hard_error(
                DiagnosticKind::CandidateArityMismatch {
                    callee: candidate.callee_symbol_id,
                    expected: expected_arity,
                    actual: candidate.arg_product_shape.arity,
                },
                Some(candidate.parameter_shape.provenance.copied()),
            ),
        );
    }
    if !candidate.policy_planes.body_entry_allows_demanded_execution() {
        return CandidatePrepResult::Deferred {
            candidate: Box::new(candidate),
            reason: CandidatePrepDeferredReason::BodyEntryPolicyMismatch,
        };
    }
    CandidatePrepResult::ApplicablePlaceholder(Box::new(candidate))
}

} // verus!
