//! Shared identities, provenance and diagnostics.
use vstd::prelude::*;

use crate::norm_syntax::{NormExprKind, NormOrigin};
use crate::policy_pair::PolicyPair;
use crate::struct_pattern_registry::StructPatternMaterialId;

verus! {

/// Human-readable origin of a semantic fact.
///
/// Provenance never participates in semantic equality; it is carried along
/// for diagnostics only.
#[derive(Clone, Debug, PartialEq, Eq)]
pub struct Provenance {
    pub description: String,
    /// The written source position, when the fact comes from source syntax.
    pub origin: Option<NormOrigin>,
}

impl Provenance {
    pub fn new(description: String) -> (r: Provenance)
        ensures
            r.description == description,
            r.origin is None,
    {
        Provenance { description, origin: None }
    }

    /// Provenance of a fact read off normalized syntax written at `origin`.
    pub fn from_norm_origin(label: &str, origin: NormOrigin) -> (r: Provenance)
        ensures
            r.description@ == label@,
            r.origin == Some(origin),
    {
        Provenance { description: label.to_owned(), origin: Some(origin) }
    }

    /// An equal copy of this provenance.
    pub fn copied(&self) -> (r: Provenance)
        ensures
            r == *self,
    {
        Provenance { description: self.description.clone(), origin: self.origin }
    }
}

/// Identity of one evaluated semantic value.
#[derive(Clone, Copy, Debug, PartialEq, Eq, PartialOrd, Ord, Hash, Structural)]
pub struct SemanticValueId(pub u64);

/// Identity of one type value.
#[derive(Clone, Copy, Debug, PartialEq, Eq, PartialOrd, Ord, Hash, Structural)]
pub struct TypeValueId(pub u64);

/// Identity of one selected meta function object value.
#[derive(Clone, Copy, Debug, PartialEq, Eq, PartialOrd, Ord, Hash, Structural)]
pub struct MetaCallableIdentity(pub u64);

/// Interned address of one canonical normal form.
#[derive(Clone, Copy, Debug, PartialEq, Eq, PartialOrd, Ord, Hash, Structural)]
pub struct CanonicalValueAddr(pub u64);

/// The canonical type observation an argument carries for structural
/// type-identity positions.
#[derive(Clone, Copy, Debug, PartialEq, Eq, Structural)]
pub enum CanonicalTypeObservation {
    Observed(CanonicalValueAddr),
}

/// Identity of one graph symbol.
#[derive(Clone, Copy, Debug, PartialEq, Eq, PartialOrd, Ord, Hash, Structural)]
pub struct SymbolId(pub u64);

/// Identity of one namespace node.
#[derive(Clone, Copy, Debug, PartialEq, Eq, PartialOrd, Ord, Hash, Structural)]
pub struct NamespaceNodeId(pub u64);

/// The projection that reads one field out of its owner's product: the
/// field's position.
#[derive(Clone, Copy, Debug, PartialEq, Eq, PartialOrd, Ord, Hash, Structural)]
pub struct FieldProjection(pub u64);

/// Execution environment of a callable body.
#[derive(Clone, Copy, Debug, PartialEq, Eq, Structural)]
pub enum ExecutionEnv {
    OpenStatic,
    SealStatic,
    Runtime,
}

/// The policy spelling site a diagnostic refers to.
#[derive(Clone, Copy, Debug, PartialEq, Eq, Structural)]
pub enum PolicyContext {
    P1,
    P2,
    P1ValueComponent,
    P2ValueComponent,
    FormalParameter,
    FormalInheritedP2,
    ReturnPosition,
    ReturnInheritedP1,
    ExplicitP1,
    ExplicitP1PatternComponent,
    WrittenSelfExplicitP1,
    ResolvedExportCandidate,
    ExportRootP1,
}

/// What went wrong. Each variant is one rejection rule of the library.
#[derive(Clone, Debug, PartialEq, Eq)]
pub enum DiagnosticKind {
    /// A `ClusterSymbol` return needs a pure meta result P2.
    ClusterSymbolRequiresPureMeta,
    /// A single-policy P2 names no stage.
    P2SinglePolicyRequiresStage,
    /// A whole-slot mode was written in a Pattern component.
    ModeInPatternComponent,
    /// An absent P2 value component without a Pattern component.
    AbsentP2ValueRequiresPattern,
    /// public/private/export outside a namespace declaration.
    NamespaceAttributesOnlyOnDeclarations,
    /// A formal parameter policy written as a pair projection.
    FormalUsesPairProjection,
    /// A formal parameter policy with an absent value pattern.
    FormalAbsentValuePattern,
    /// A formal parameter policy restricting more than the mode.
    FormalRestrictsOnlyMode,
    /// A return position policy written as a pair projection.
    ReturnOverridesOnlyMode,
    /// A return position policy rewriting value presence.
    ReturnRewritesPresence,
    /// A return position policy rewriting stages.
    ReturnInheritsStages,
    /// An explicit P1 Pattern component without a stage.
    ExplicitP1PatternRequiresStage,
    /// An absent explicit P1 value pattern without a Pattern component.
    AbsentExplicitP1RequiresPattern,
    /// `export` on a declaration that is not direct top level.
    ExportOnlyDirectTopLevel,
    /// An export root without an explicit declaration policy.
    ExportRootRequiresExplicitPolicy,
    /// A P1 Pattern component containing runtime.
    P1PatternContainsRuntime,
    /// An absent P1 value pattern without a Pattern component.
    AbsentP1RequiresPattern,
    /// A P2 Pattern component containing runtime.
    P2PatternContainsRuntime,
    /// A P2 Pattern component without a stage.
    P2PatternRequiresStaticStage,
    /// A present or optional P2 value component without a stage.
    P2ValueRequiresStage,
    /// P2 value and Pattern components with different static stages.
    P2StaticStageMismatch,
    /// `Pv = absent` carrying value stages.
    AbsentValueCarriesStages(PolicyContext),
    /// public/private/export in a policy that does not admit them.
    NamespaceAttributesInvalid(PolicyContext),
    /// Both public and private were written.
    AmbiguousNamespaceVisibility,
    /// A `||` mixing dimensions.
    MixedDimensionChoice,
    /// An unknown policy atom.
    UnknownPolicyAtom(String),
    /// A deduction hole used as a policy atom.
    HolePolicyAtom(String),
    /// A malformed policy syntax tree.
    InvalidPolicyAst,
    /// An absent-value pattern outside the value component.
    AbsentOutsideValueComponent,
    /// `+` conjoining two atoms of one dimension.
    SameDimensionConjunction,
    /// `+` conjoining absence with stages.
    AbsenceConjoinedWithStages,
    /// More than one whole-slot mode was selected.
    MultipleModes(PolicyContext),
    /// No whole-slot mode was selected where one is required.
    MissingMode(PolicyContext),
    /// The completed outer P1 and written-self P1 of a function object differ.
    CanonicalP1Mismatch,
    /// A canonical P1 with an absent value carries value stages.
    CanonicalP1AbsentValueCarriesStages,
    /// An extraction child name is already registered under the owner head
    /// with another origin.
    ExtractionChildConflict { owner_head: StructPatternMaterialId, field_name: String },
    /// An explicit navigation path is already registered for another head.
    NavigationPathConflict { components: Vec<String> },
    /// A pattern lookup expectation the bounded resolver does not handle.
    UnsupportedLookupExpectation,
    /// A pattern navigation component the bounded resolver does not handle.
    UnsupportedNavigationComponent,
    /// A pattern lookup that found nothing.
    Unresolved,
    /// Candidate preparation was handed a symbol that is no graph-resolved
    /// callable.
    CandidateRequiresCallableSymbol(SymbolId),
    /// A bare name at the top of a struct type-pattern expression.
    StructBareName(String),
    /// An expression form a struct type-pattern expression cannot be.
    StructUnsupportedShape(NormExprKind),
    /// A field name written twice in one struct product; the index is that
    /// of its first field.
    StructDuplicateField { name: String, first_index: usize },
    /// `+` where a canonical `|` sum is required.
    StructPlusIsNotASum,
    /// An operator other than `|` and `+` applied in a struct expression.
    StructUnsupportedOperator(String),
    /// A call target that is neither a name nor an operator.
    StructUnsupportedCallTarget(NormExprKind),
    /// A struct leaf navigation without name components.
    StructNavigationWithoutNames,
    /// A bare product as a sum alternative.
    StructBareProductAlternative,
    /// A bare sum as a sum alternative.
    StructBareSumAlternative,
    /// An alternative name written twice in one sum; the index is that of its
    /// first alternative.
    StructDuplicateAlternative { name: String, first_index: usize },
    /// A sum without alternatives.
    StructEmptySum,
    /// A return event outside every returnable context.
    ReturnOutsideReturnableContext,
    /// An explicit return target that is no active frame.
    ReturnTargetNotActive,
    /// An explicit return target that matches several active frames.
    AmbiguousReturnTarget,
    /// An explicit return target form the binder does not handle.
    UnsupportedReturnTargetForm,
    /// A candidate's argument arity differs from its parameter arity.
    CandidateArityMismatch { callee: SymbolId, expected: usize, actual: usize },
}

/// What kind of graph symbol a symbol object is.
#[derive(Clone, Copy, Debug, PartialEq, Eq, Structural)]
pub enum SymbolKind {
    Namespace,
    Type,
    MetaFunction,
    FieldFunction,
    Placeholder,
}

/// The Policy of a meta function's body entry and of its returned object.
#[derive(Clone, Copy, Debug, PartialEq, Eq, Structural)]
pub struct MetaFunctionObject {
    pub body_entry_policy: PolicyPair,
    pub return_object_policy: PolicyPair,
}

/// The callable Policy of a field function.
#[derive(Clone, Copy, Debug, PartialEq, Eq, Structural)]
pub struct FieldCallablePolicy {
    pub body_entry_policy: PolicyPair,
    pub return_object_policy: PolicyPair,
}

#[derive(Clone, Copy, Debug, PartialEq, Eq, Structural)]
pub struct FieldObject {
    pub callable_policy: FieldCallablePolicy,
}

/// The payload a graph symbol carries.
#[derive(Clone, Copy, Debug, PartialEq, Eq, Structural)]
pub enum SymbolPayload {
    MetaFunction(MetaFunctionObject),
    FieldFunction(FieldObject),
    /// A payload that is no callable (namespace, type, placeholder).
    Other,
}

/// One graph symbol as candidate preparation reads it.
#[derive(Clone, Debug, PartialEq, Eq)]
pub struct SymbolObject {
    pub id: SymbolId,
    pub name: String,
    pub kind: SymbolKind,
    pub payload: SymbolPayload,
    pub provenance: Provenance,
}

/// A hard error together with the provenance it was raised at.
#[derive(Clone, Debug, PartialEq, Eq)]
pub struct Diagnostic {
    pub kind: DiagnosticKind,
    pub provenance: Option<Provenance>,
}

impl Diagnostic {
    pub fn hard_error(kind: DiagnosticKind, provenance: Option<Provenance>) -> (r: Diagnostic)
        ensures
            r.kind == kind,
            r.provenance == provenance,
    {
        Diagnostic { kind, provenance }
    }
}

/// `r` is the executable image of the specified outcome `s`, with errors
/// raised at `provenance`.
pub open spec fn outcome_matches<T>(
    r: Result<T, Diagnostic>,
    s: Result<T, DiagnosticKind>,
    provenance: Provenance,
) -> bool {
    match s {
        Ok(v) => r == Ok::<T, Diagnostic>(v),
        Err(k) => r == Err::<T, Diagnostic>(Diagnostic { kind: k, provenance: Some(provenance) }),
    }
}

} // verus!
