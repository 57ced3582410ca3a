//! Type argument classification.
//!
//! The unclassified arguments of an argument shape whose atoms are complete
//! name navigations are resolved as types through a supplied resolution
//! environment. A resolved argument becomes a core type projection carrying
//! the represented type value and the carrier's facts; an unresolved one keeps
//! its class and its name is reported. This is not type checking, and no
//! value argument is classified here.
use vstd::prelude::*;
use vstd::string::StringExecFns;

use crate::model::{Diagnostic, NamespaceNodeId, Provenance, SemanticValueId, SymbolId, TypeValueId};
use crate::norm_syntax::{NormExpr, NormNavComponent};
use crate::policy_pair::PolicyResultEntry;
use crate::product_shape::{ArgProductShape, NonValueArgKind, ProductAtom, RawArgShape, RawArgValueClass};
use crate::semantic_world::{ObjectPlaceId, PatternValueId};

verus! {

/// A named type resolved through the semantic world: the carrier that was
/// named, the represented type, the carrier's effective view and its place.
/// The place is an observation coordinate only.
#[derive(Clone, Copy, Debug, PartialEq, Eq)]
pub struct NamedTypeResolution {
    pub carrier_symbol: Option<SymbolId>,
    pub represented_type: TypeValueId,
    pub effective_view: Option<PolicyResultEntry<SemanticValueId, PatternValueId>>,
    pub carrier_place: Option<ObjectPlaceId>,
}

/// Outcome of checking a restricted-body local `let` initializer against the
/// environment's evaluation discipline.
#[derive(Clone, Debug)]
pub enum BodyLocalInitializerCheck {
    Accepted,
    Residual { reason: String, provenance: Provenance },
    Rejected(Diagnostic),
}

/// The classified shape together with the names that did not resolve as
/// types, in argument order.
#[derive(Debug)]
pub struct TypeArgumentClassificationReport {
    pub classified_shape: ArgProductShape,
    pub unresolved_names: Vec<String>,
}

/// A type-resolution environment, implemented by the embedding world and
/// parameterised by the resolver context it reads.
pub trait TypeResolutionEnv<C> {
    /// Resolve one bare name as a type object.
    fn resolve_type_name(&self, name: &str, context: &C) -> Option<NamedTypeResolution>;

    /// Resolve one complete inner-to-outer navigation as a type object. An
    /// environment without recursive navigation resolves a single-component
    /// path and nothing longer.
    fn resolve_type_path(&self, path: &[String], context: &C) -> (r: Option<NamedTypeResolution>)
        default_ensures
            path@.len() != 1 ==> r is None,
            path@.len() == 1 ==> exists|name: &str|
                name@ == path@[0]@ && #[trigger] call_ensures(Self::resolve_type_name, (self, name, context), r),
    {
        if path.len() == 1 {
            self.resolve_type_name(path[0].as_str(), context)
        } else {
            None
        }
    }

    /// Resolve a struct field type path to its carrier Symbol and
    /// represented type.
    fn resolve_field_type_path(&self, path: &[String], context: &C, provenance: &Provenance) -> Result<
        (SymbolId, TypeValueId),
        Diagnostic,
    >;

    /// Check a restricted selected-body local `let` initializer.
    fn check_body_local_initializer(
        &self,
        declaration_namespace: Option<NamespaceNodeId>,
        initializer: &NormExpr,
        context: &C,
        provenance: Provenance,
    ) -> BodyLocalInitializerCheck;
}

/// The inner-to-outer path of a type-argument expression: a bare name, or a
/// navigation made of names only. Any other expression has none.
pub open spec fn expr_type_path(expr: NormExpr) -> Option<Seq<String>> {
    match expr {
        NormExpr::Name { text: name, .. } => Some(seq![name]),
        NormExpr::Nav { components, .. } => {
            if forall|i: int| 0 <= i < components@.len() ==> (#[trigger] components@[i]) is Name {
                Some(components@.map_values(|c: NormNavComponent| c->Name_name))
            } else {
                None
            }
        },
        _ => None,
    }
}

/// A path written as its components separated by `::`.
pub open spec fn joined_path(path: Seq<String>) -> Seq<char>
    decreases path.len(),
{
    if path.len() == 0 {
        Seq::empty()
    } else if path.len() == 1 {
        path[0]@
    } else {
        joined_path(path.drop_last()) + seq![':', ':'] + path.last()@
    }
}

/// The path that argument `arg` asks to have resolved: present only for an
/// unclassified argument whose atom is an expression with a type path.
pub open spec fn argument_type_path(atoms: Seq<ProductAtom>, arg: RawArgShape) -> Option<Seq<String>> {
    if arg.value_class is UnknownExpression && arg.index < atoms.len() {
        match atoms[arg.index as int] {
            ProductAtom::Expression { expr, .. } => expr_type_path(expr),
            _ => None,
        }
    } else {
        None
    }
}

/// The environment's answer for argument `i`; none where nothing was given.
pub open spec fn resolution_at(resolutions: Seq<Option<NamedTypeResolution>>, i: int) -> Option<
    NamedTypeResolution,
> {
    if 0 <= i < resolutions.len() {
        resolutions[i]
    } else {
        None
    }
}

/// `out` is argument `arg` after classification with `answer`: a resolved
/// type path makes it a core type projection named by the joined path;
/// anything else leaves it as it was.
pub open spec fn classified_argument(
    atoms: Seq<ProductAtom>,
    arg: RawArgShape,
    answer: Option<NamedTypeResolution>,
    out: RawArgShape,
) -> bool {
    match (argument_type_path(atoms, arg), answer) {
        (Some(path), Some(res)) => {
            &&& out.known_type_pattern_name is Some
            &&& out.known_type_pattern_name->0@ == joined_path(path)
            &&& out == (RawArgShape {
                value_class: RawArgValueClass::NonValue(NonValueArgKind::CoreTypeProjection),
                known_first_order_type_value: Some(res.represented_type),
                known_type_pattern_name: out.known_type_pattern_name,
                known_type_symbol_id: res.carrier_symbol,
                known_type_member_view: res.effective_view,
                known_type_carrier_place: res.carrier_place,
                known_complete_type_observation: None,
                ..arg
            })
        },
        _ => out == arg,
    }
}

/// The joined paths, in argument order, of the first `n` arguments that
/// asked for a resolution and got none.
pub open spec fn unresolved_type_names(
    shape: ArgProductShape,
    resolutions: Seq<Option<NamedTypeResolution>>,
    n: int,
) -> Seq<Seq<char>>
    decreases n,
{
    if n <= 0 {
        Seq::empty()
    } else {
        unresolved_type_names(shape, resolutions, n - 1) + match (
            argument_type_path(shape.flattened.atoms@, shape.raw_args@[n - 1]),
            resolution_at(resolutions, n - 1),
        ) {
            (Some(path), None) => seq![joined_path(path)],
            _ => Seq::empty(),
        }
    }
}

/// `r` reports the classification of `shape` under the answers
/// `resolutions`, one per argument.
pub open spec fn is_classification_report(
    shape: ArgProductShape,
    resolutions: Seq<Option<NamedTypeResolution>>,
    r: TypeArgumentClassificationReport,
) -> bool {
    &&& r.classified_shape.flattened == shape.flattened
    &&& r.classified_shape.arity == shape.arity
    &&& r.classified_shape.provenance == shape.provenance
    &&& r.classified_shape.raw_args@.len() == shape.raw_args@.len()
    &&& forall|i: int|
        0 <= i < shape.raw_args@.len() ==> classified_argument(
            shape.flattened.atoms@,
            shape.raw_args@[i],
            resolution_at(resolutions, i),
            #[trigger] r.classified_shape.raw_args@[i],
        )
    &&& r.unresolved_names@.map_values(|n: String| n@) == unresolved_type_names(
        shape,
        resolutions,
        shape.raw_args@.len() as int,
    )
}

/// Classification keeps each argument's index, provenance and explicit pass
/// mode, leaves every already classified argument as it was, and never makes
/// an argument a value, so no pass action is inserted by it.
pub proof fn lemma_classification_keeps_argument_boundaries(
    shape: ArgProductShape,
    resolutions: Seq<Option<NamedTypeResolution>>,
    r: TypeArgumentClassificationReport,
)
    requires
        is_classification_report(shape, resolutions, r),
    ensures
        forall|i: int|
            0 <= i < shape.raw_args@.len() ==> {
                let before = shape.raw_args@[i];
                let after = #[trigger] r.classified_shape.raw_args@[i];
                &&& after.index == before.index
                &&& after.provenance == before.provenance
                &&& after.explicit_pass_mode == before.explicit_pass_mode
                &&& !(before.value_class is UnknownExpression) ==> after == before
                &&& (after.value_class is Value) == (before.value_class is Value)
            },
{
    assert forall|i: int| 0 <= i < shape.raw_args@.len() implies {
        let before = shape.raw_args@[i];
        let after = #[trigger] r.classified_shape.raw_args@[i];
        &&& after.index == before.index
        &&& after.provenance == before.provenance
        &&& after.explicit_pass_mode == before.explicit_pass_mode
        &&& !(before.value_class is UnknownExpression) ==> after == before
        &&& (after.value_class is Value) == (before.value_class is Value)
    } by {
        assert(classified_argument(
            shape.flattened.atoms@,
            shape.raw_args@[i],
            resolution_at(resolutions, i),
            r.classified_shape.raw_args@[i],
        ));
    }
}

/// The type path of an expression.
fn type_argument_path(expr: &NormExpr) -> (r: Option<Vec<String>>)
    ensures
        match r {
            Some(p) => expr_type_path(*expr) == Some(p@),
            None => expr_type_path(*expr) is None,
        },
{
    match expr {
        NormExpr::Name { text: name, .. } => {
            let mut path: Vec<String> = Vec::new();
            path.push(name.clone());
            proof {
                assert(path@ == seq![*name]);
            }
            Some(path)
        },
        NormExpr::Nav { components, origin } => {
            let mut path: Vec<String> = Vec::new();
            let mut i: usize = 0;
            while i < components.len()
                invariant
                    *expr == (NormExpr::Nav { components: *components, origin: *origin }),
                    i <= components@.len(),
                    forall|j: int| 0 <= j < i ==> (#[trigger] components@[j]) is Name,
                    path@ == components@.take(i as int).map_values(|c: NormNavComponent| c->Name_name),
                decreases components@.len() - i,
            {
                match &components[i] {
                    NormNavComponent::Name { name, .. } => {
                        path.push(name.clone());
                    },
                    _ => {
                        proof {
                            assert(!(components@[i as int] is Name));

                        }
                        return None;
                    },
                }
                proof {
                    assert(components@.take(i + 1) == components@.take(i as int).push(components@[i as int]));
                }
                i += 1;
            }
            proof {
                assert(components@.take(i as int) == components@);
            }
            Some(path)
        },
        _ => None,
    }
}

/// A path joined with `::`.
fn join_path(path: &Vec<String>) -> (r: String)
    ensures
        r@ == joined_path(path@),
{
    let mut out = String::new();
    let mut i: usize = 0;
    while i < path.len()
        invariant
            i <= path@.len(),
            out@ == joined_path(path@.take(i as int)),
        decreases path@.len() - i,
    {
        proof {
            assert(path@.take(i + 1).drop_last() == path@.take(i as int));
        }
        if i > 0 {
            let separator = "::";
            proof {
                reveal_strlit("::");
            }
            out.append(separator);
        }
        out.append(path[i].as_str());
        i += 1;
    }
    proof {
        assert(path@.take(path@.len() as int) == path@);
    }
    out
}

/// The type path argument `arg` asks to have resolved.
fn argument_path(atoms: &Vec<ProductAtom>, arg: &RawArgShape) -> (r: Option<Vec<String>>)
    ensures
        match r {
            Some(p) => argument_type_path(atoms@, *arg) == Some(p@),
            None => argument_type_path(atoms@, *arg) is None,
        },
{
    let unknown = match &arg.value_class {
        RawArgValueClass::UnknownExpression => true,
        _ => false,
    };
    if !unknown || arg.index >= atoms.len() {
        return None;
    }
    match &atoms[arg.index] {
        ProductAtom::Expression { expr, .. } => type_argument_path(expr),
        _ => None,
    }
}

/// Classify the arguments of `shape` with the environment's answers given
/// beforehand: `resolutions[i]` is the answer for argument `i`, consulted
/// only where that argument has a type path. A resolved argument becomes a
/// core type projection named by its joined path, with the answer's
/// represented type, carrier Symbol, member view and place; an unresolved
/// one is unchanged and its joined path is reported.
pub fn apply_type_argument_resolutions(shape: ArgProductShape, resolutions: Vec<Option<NamedTypeResolution>>) -> (r:
    TypeArgumentClassificationReport)
    ensures
        is_classification_report(shape, resolutions@, r),
{
    let ghost whole = shape;
    let ArgProductShape { flattened, arity, raw_args, provenance } = shape;
    let mut classified: Vec<RawArgShape> = Vec::new();
    let mut unresolved: Vec<String> = Vec::new();
    let mut i: usize = 0;
    for arg in it: raw_args.into_iter()
        invariant
            it.seq() == whole.raw_args@,
            i == it.index(),
            flattened == whole.flattened,
            classified@.len() == i,
            forall|j: int|
                0 <= j < i ==> classified_argument(
                    whole.flattened.atoms@,
                    whole.raw_args@[j],
                    resolution_at(resolutions@, j),
                    #[trigger] classified@[j],
                ),
            unresolved@.map_values(|n: String| n@) == unresolved_type_names(whole, resolutions@, i as int),
    {
        let ghost before = unresolved@;
        assert(arg == whole.raw_args@[i as int]);
        let path = argument_path(&flattened.atoms, &arg);
        let answer = if i < resolutions.len() {
            resolutions[i]
        } else {
            None
        };
        match path {
            Some(path) => match answer {
                Some(res) => {
                    let name = join_path(&path);
                    classified.push(
                        arg.as_complete_type_projection_named(
                            name,
                            res.represented_type,
                            res.carrier_symbol,
                            res.effective_view,
                            res.carrier_place,
                            None,
                        ),
                    );
                    proof {
                        assert(unresolved@ == before);
                    }
                },
                None => {
                    let name = join_path(&path);
                    unresolved.push(name);
                    classified.push(arg);
                    proof {
                        assert(unresolved@.map_values(|n: String| n@) == before.map_values(|n: String| n@).push(
                            name@,
                        ));
                    }
                },
            },
            None => {
                classified.push(arg);
            },
        }
        i = classified.len();
    }
    TypeArgumentClassificationReport {
        classified_shape: ArgProductShape { flattened, arity, raw_args: classified, provenance },
        unresolved_names: unresolved,
    }
}

/// `answer` is what the environment answered for an argument with type path
/// `path`: nothing was asked where there is no path, and otherwise the answer
/// is a result of `resolve_type_path` on that path.
pub open spec fn asked_environment<C, E: TypeResolutionEnv<C>>(
    env: &E,
    context: &C,
    path: Option<Seq<String>>,
    answer: Option<NamedTypeResolution>,
) -> bool {
    match path {
        None => answer is None,
        Some(p) => exists|asked: &[String]|
            asked@ == p && #[trigger] call_ensures(E::resolve_type_path, (env, asked, context), answer),
    }
}

/// Classify type-object arguments through a resolution environment: each
/// unclassified argument whose atom is a complete name navigation is asked
/// of the environment, in argument order, and classified with its answer.
/// The result is the classification of `shape` under the answers, one per
/// argument: none where the argument has no type path, and otherwise a
/// result of `resolve_type_path` on that argument's path.
pub fn classify_type_arguments_env_with_report<C, E: TypeResolutionEnv<C>>(
    shape: ArgProductShape,
    env: &E,
    context: &C,
) -> (r: TypeArgumentClassificationReport)
    ensures
        exists|resolutions: Seq<Option<NamedTypeResolution>>|
            #[trigger] is_classification_report(shape, resolutions, r) && resolutions.len()
                == shape.raw_args@.len() && forall|i: int|
                0 <= i < shape.raw_args@.len() ==> asked_environment(
                    env,
                    context,
                    argument_type_path(shape.flattened.atoms@, shape.raw_args@[i]),
                    #[trigger] resolutions[i],
                ),
{
    let mut answers: Vec<Option<NamedTypeResolution>> = Vec::new();
    let mut i: usize = 0;
    while i < shape.raw_args.len()
        invariant
            i <= shape.raw_args@.len(),
            answers@.len() == i,
            forall|j: int|
                0 <= j < i ==> asked_environment(
                    env,
                    context,
                    argument_type_path(shape.flattened.atoms@, shape.raw_args@[j]),
                    #[trigger] answers@[j],
                ),
        decreases shape.raw_args@.len() - i,
    {
        let answer = match argument_path(&shape.flattened.atoms, &shape.raw_args[i]) {
            Some(path) => {
                let asked = path.as_slice();
                let a = env.resolve_type_path(asked, context);
                assert(call_ensures(E::resolve_type_path, (env, asked, context), a));
                a
            },
            None => None,
        };
        answers.push(answer);
        i += 1;
    }
    let ghost given = answers@;
    let r = apply_type_argument_resolutions(shape, answers);
    assert(is_classification_report(shape, given, r));
    r
}

} // verus!
