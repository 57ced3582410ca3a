//! Decoding normalized expressions as `core::struct` type-pattern
//! expressions.
//!
//! The parser and normalizer stay generic; all struct-specific reading
//! (product and sum recognition, name attachment, leaf decoding) is local to
//! this decoder:
//! - `,` is product in struct type-pattern context;
//! - `|` is the canonical sum form;
//! - `+` is a pattern-combination action, never decoded as a sum;
//! - `(child name)` attaches a local pattern/constructor name to a child
//!   structure;
//! - in leaf position the final bare name of an application is the local
//!   field name and the prefix is the type expression.
use vstd::prelude::*;

use crate::model::{Diagnostic, DiagnosticKind, Provenance};
use crate::norm_syntax::{expr_kind_spec, NormExpr, NormExprKind, NormNavComponent, NormProduct, NormProductElem};
use crate::policy_pair::text_eq;
use crate::struct_pattern_material::{
    StructLeafSyntaxMaterial, StructPatternSyntaxMaterial, StructSymbolPathMaterial, StructuralMemberVisibility,
};

verus! {

/// A successfully decoded struct type-pattern expression.
#[derive(Debug, PartialEq, Eq)]
pub struct DecodedStructPattern {
    pub type_pattern_expr: StructPatternSyntaxMaterial,
    pub provenance: Provenance,
}

impl DecodedStructPattern {
    pub fn new(type_pattern_expr: StructPatternSyntaxMaterial, provenance: Provenance) -> (r:
        DecodedStructPattern)
        ensures
            r == (DecodedStructPattern { type_pattern_expr, provenance }),
    {
        DecodedStructPattern { type_pattern_expr, provenance }
    }
}

/// The text the derived `Debug` implementation renders for an expression.
pub uninterp spec fn norm_expr_debug_text(expr: NormExpr) -> Seq<char>;

/// Renders `expr` with `format!` and its derived `Debug` implementation. The
/// text is a function of the expression; what it spells is not stated.
#[verifier::external_body]
fn expr_debug_text(expr: &NormExpr) -> (r: String)
    ensures
        r@ == norm_expr_debug_text(*expr),
{
    format!("{:?}", expr)
}

// ---------------------------------------------------------------------------
// What decoding reads of the syntax.
/// The expression elements among the first `n` elements of `p`, in order.
pub open spec fn product_exprs_upto(p: NormProduct, n: int) -> Seq<NormExpr>
    decreases n,
{
    if n <= 0 || n > p.elements@.len() {
        Seq::empty()
    } else {
        product_exprs_upto(p, n - 1) + match p.elements@[n - 1] {
            NormProductElem::Expr(e) => seq![e],
            NormProductElem::Unit { .. } => Seq::empty(),
        }
    }
}

/// The expression elements of `p`; Unit elements are not fields.
pub open spec fn product_exprs(p: NormProduct) -> Seq<NormExpr> {
    product_exprs_upto(p, p.elements@.len() as int)
}

/// The names of the name components of a navigation, in order.
pub open spec fn nav_names(components: Seq<NormNavComponent>) -> Seq<String>
    decreases components.len(),
{
    if components.len() == 0 {
        Seq::empty()
    } else {
        nav_names(components.drop_last()) + match components.last() {
            NormNavComponent::Name { name, .. } => seq![name],
            _ => Seq::empty(),
        }
    }
}

pub open spec fn is_sum_operator(spelling: String) -> bool {
    spelling@ == "|"@
}

pub open spec fn is_plus_operator(spelling: String) -> bool {
    spelling@ == "+"@
}

/// `e` applies the canonical sum operator.
pub open spec fn is_sum_call(e: NormExpr) -> bool {
    e matches NormExpr::Call { target, .. } && (*target matches NormExpr::OperatorTarget { spelling, .. }
        && is_sum_operator(spelling))
}

/// The name `e` attaches: the name of a call's name target.
pub open spec fn label_of(e: NormExpr) -> Option<String> {
    match e {
        NormExpr::Call { target, .. } => match *target {
            NormExpr::Name { text: name, .. } => Some(name),
            _ => None,
        },
        _ => None,
    }
}

/// The local field name of `e` when it decodes as a leaf: a name applied to
/// exactly one expression.
pub open spec fn leaf_name_of(e: NormExpr) -> Option<String> {
    match e {
        NormExpr::Call { source, .. } => if product_exprs(source).len() == 1 {
            label_of(e)
        } else {
            None
        },
        _ => None,
    }
}

/// The first of the first `m` elements of `p` that decodes as a leaf named
/// `name`.
pub open spec fn first_leaf_named(p: NormProduct, name: String, m: int) -> Option<int>
    decreases m,
{
    if m <= 0 || m > p.elements@.len() {
        None
    } else {
        match first_leaf_named(p, name, m - 1) {
            Some(j) => Some(j),
            None => match p.elements@[m - 1] {
                NormProductElem::Expr(e) => match leaf_name_of(e) {
                    Some(x) => if x@ == name@ {
                        Some(m - 1)
                    } else {
                        None
                    },
                    None => None,
                },
                NormProductElem::Unit { .. } => None,
            },
        }
    }
}

/// The first of the first `m` elements of `p` whose label is `name`.
pub open spec fn first_label_named(p: NormProduct, name: String, m: int) -> Option<int>
    decreases m,
{
    if m <= 0 || m > p.elements@.len() {
        None
    } else {
        match first_label_named(p, name, m - 1) {
            Some(j) => Some(j),
            None => match p.elements@[m - 1] {
                NormProductElem::Expr(e) => match label_of(e) {
                    Some(x) => if x@ == name@ {
                        Some(m - 1)
                    } else {
                        None
                    },
                    None => None,
                },
                NormProductElem::Unit { .. } => None,
            },
        }
    }
}

// ---------------------------------------------------------------------------
// When decoding fails, and with which error.
/// The error decoding `e` raises, if any.
pub open spec fn decode_error(e: NormExpr) -> Option<DiagnosticKind>
    decreases e, 0int,
{
    match e {
        NormExpr::Product(p) => product_error_upto(p, p.elements@.len() as int),
        NormExpr::Call { source, target, .. } => match *target {
            NormExpr::Name { .. } => call_name_error(source),
            NormExpr::OperatorTarget { spelling, .. } => if is_sum_operator(spelling) {
                sum_error(source)
            } else if is_plus_operator(spelling) {
                Some(DiagnosticKind::StructPlusIsNotASum)
            } else {
                Some(DiagnosticKind::StructUnsupportedOperator(spelling))
            },
            other => Some(DiagnosticKind::StructUnsupportedCallTarget(expr_kind_spec(other))),
        },
        NormExpr::Name { text: name, .. } => Some(DiagnosticKind::StructBareName(name)),
        other => Some(DiagnosticKind::StructUnsupportedShape(expr_kind_spec(other))),
    }
}

/// The error of a product's first `n` elements: the first element that
/// fails, or the first leaf whose name an earlier leaf already has.
pub open spec fn product_error_upto(p: NormProduct, n: int) -> Option<DiagnosticKind>
    decreases p, n,
{
    if n <= 0 || n > p.elements@.len() {
        None
    } else {
        match product_error_upto(p, n - 1) {
            Some(k) => Some(k),
            None => match p.elements@[n - 1] {
                NormProductElem::Unit { .. } => None,
                NormProductElem::Expr(e) => match decode_error(e) {
                    Some(k) => Some(k),
                    None => match leaf_name_of(e) {
                        Some(name) => match first_leaf_named(p, name, n - 1) {
                            Some(j) => Some(
                                DiagnosticKind::StructDuplicateField {
                                    name,
                                    first_index: product_exprs_upto(p, j).len() as usize,
                                },
                            ),
                            None => None,
                        },
                        None => None,
                    },
                },
            },
        }
    }
}

/// The first error among the first `n` elements of `p`.
pub open spec fn elements_error_upto(p: NormProduct, n: int) -> Option<DiagnosticKind>
    decreases p, n,
{
    if n <= 0 || n > p.elements@.len() {
        None
    } else {
        match elements_error_upto(p, n - 1) {
            Some(k) => Some(k),
            None => match p.elements@[n - 1] {
                NormProductElem::Expr(e) => decode_error(e),
                NormProductElem::Unit { .. } => None,
            },
        }
    }
}

/// The error of a name applied to `source`: a leaf navigation needs a name
/// component; several source expressions must each decode.
pub open spec fn call_name_error(source: NormProduct) -> Option<DiagnosticKind>
    decreases source, source.elements@.len() + 1,
{
    let exprs = product_exprs(source);
    if exprs.len() == 0 {
        None
    } else if exprs.len() == 1 {
        match exprs[0] {
            NormExpr::Nav { components, .. } => if nav_names(components@).len() == 0 {
                Some(DiagnosticKind::StructNavigationWithoutNames)
            } else {
                None
            },
            _ => None,
        }
    } else {
        elements_error_upto(source, source.elements@.len() as int)
    }
}

/// The error of the first `n` sum alternatives: the first that fails, is a
/// bare product or sum, or repeats an earlier alternative's name.
pub open spec fn alternatives_error_upto(p: NormProduct, n: int) -> Option<DiagnosticKind>
    decreases p, n,
{
    if n <= 0 || n > p.elements@.len() {
        None
    } else {
        match alternatives_error_upto(p, n - 1) {
            Some(k) => Some(k),
            None => match p.elements@[n - 1] {
                NormProductElem::Unit { .. } => None,
                NormProductElem::Expr(e) => match decode_error(e) {
                    Some(k) => Some(k),
                    None => if e is Product {
                        Some(DiagnosticKind::StructBareProductAlternative)
                    } else if is_sum_call(e) {
                        Some(DiagnosticKind::StructBareSumAlternative)
                    } else {
                        match label_of(e) {
                            Some(name) => match first_label_named(p, name, n - 1) {
                                Some(j) => Some(
                                    DiagnosticKind::StructDuplicateAlternative {
                                        name,
                                        first_index: product_exprs_upto(p, j).len() as usize,
                                    },
                                ),
                                None => None,
                            },
                            None => None,
                        }
                    },
                },
            },
        }
    }
}

/// The error of a `|` sum over `source`; a sum needs an alternative.
pub open spec fn sum_error(source: NormProduct) -> Option<DiagnosticKind>
    decreases source, source.elements@.len() + 1,
{
    match alternatives_error_upto(source, source.elements@.len() as int) {
        Some(k) => Some(k),
        None => if product_exprs(source).len() == 0 {
            Some(DiagnosticKind::StructEmptySum)
        } else {
            None
        },
    }
}

// ---------------------------------------------------------------------------
// What decoding yields.
/// `shapes` are the decodings of the expression elements among the first
/// `n` elements of `p`, in order.
pub open spec fn elements_decoded_upto(
    p: NormProduct,
    n: int,
    provenance: Provenance,
    shapes: Seq<StructPatternSyntaxMaterial>,
) -> bool
    decreases p, n,
{
    if n <= 0 || n > p.elements@.len() {
        shapes.len() == 0
    } else {
        match p.elements@[n - 1] {
            NormProductElem::Unit { .. } => elements_decoded_upto(p, n - 1, provenance, shapes),
            NormProductElem::Expr(e) => shapes.len() > 0 && decoded_as(e, provenance, shapes.last())
                && elements_decoded_upto(p, n - 1, provenance, shapes.drop_last()),
        }
    }
}

/// `t` is the leaf type expression decoded from `x`: a name or a name
/// navigation is a path, anything else is kept as its rendering.
pub open spec fn leaf_type_of(x: NormExpr, provenance: Provenance, t: StructLeafSyntaxMaterial) -> bool {
    match x {
        NormExpr::Name { text: name, .. } => t matches StructLeafSyntaxMaterial::Path(path) && path.segments@ == seq![name],
        NormExpr::Nav { components, .. } => t matches StructLeafSyntaxMaterial::Path(path) && path.segments@
            == nav_names(components@),
        other => t matches StructLeafSyntaxMaterial::NormalizedAst { description, provenance: p } && description@
            == norm_expr_debug_text(other) && p == provenance,
    }
}

/// `shape` is what a name `name` applied to `source` decodes to: a named
/// empty product for no source expression, a leaf for one, a named product
/// of the decoded expressions for several.
pub open spec fn call_name_decoded(
    source: NormProduct,
    name: String,
    provenance: Provenance,
    shape: StructPatternSyntaxMaterial,
) -> bool
    decreases source, source.elements@.len() + 1,
{
    let exprs = product_exprs(source);
    if exprs.len() == 1 {
        shape matches StructPatternSyntaxMaterial::Leaf { external_type_expr, local_pattern_name, visibility, provenance: p }
            && local_pattern_name == name && visibility == StructuralMemberVisibility::Default && p == provenance
            && leaf_type_of(exprs[0], provenance, external_type_expr)
    } else {
        shape matches StructPatternSyntaxMaterial::Named { child, pattern_name, visibility, provenance: p }
            && pattern_name == name && visibility == StructuralMemberVisibility::Default && p == provenance && (
        *child matches StructPatternSyntaxMaterial::Product { elements, provenance: q } && q == provenance
            && elements_decoded_upto(source, source.elements@.len() as int, provenance, elements@))
    }
}

/// `shape` is what `e` decodes to (when it decodes).
pub open spec fn decoded_as(e: NormExpr, provenance: Provenance, shape: StructPatternSyntaxMaterial) -> bool
    decreases e, 0int,
{
    match e {
        NormExpr::Product(p) => shape matches StructPatternSyntaxMaterial::Product { elements, provenance: q }
            && q == provenance && elements_decoded_upto(p, p.elements@.len() as int, provenance, elements@),
        NormExpr::Call { source, target, .. } => match *target {
            NormExpr::Name { text: name, .. } => call_name_decoded(source, name, provenance, shape),
            NormExpr::OperatorTarget { .. } => shape matches StructPatternSyntaxMaterial::Sum {
                alternatives,
                provenance: q,
            } && q == provenance && elements_decoded_upto(
                source,
                source.elements@.len() as int,
                provenance,
                alternatives@,
            ),
            _ => false,
        },
        _ => false,
    }
}

/// `r` is the outcome of decoding `e`: the error `decode_error` names,
/// raised at `provenance`, or a shape `e` decodes to.
pub open spec fn decode_outcome(
    e: NormExpr,
    provenance: Provenance,
    r: Result<StructPatternSyntaxMaterial, Diagnostic>,
) -> bool {
    match decode_error(e) {
        Some(kind) => r == Err::<StructPatternSyntaxMaterial, Diagnostic>(
            Diagnostic { kind, provenance: Some(provenance) },
        ),
        None => r matches Ok(shape) && decoded_as(e, provenance, shape),
    }
}

} // verus!

verus! {

/// `r` is the outcome of decoding a call of `target` on `source`.
pub open spec fn call_outcome(
    source: NormProduct,
    target: NormExpr,
    provenance: Provenance,
    r: Result<StructPatternSyntaxMaterial, Diagnostic>,
) -> bool {
    match target {
        NormExpr::Name { text: name, .. } => match call_name_error(source) {
            Some(kind) => r == Err::<StructPatternSyntaxMaterial, Diagnostic>(
                Diagnostic { kind, provenance: Some(provenance) },
            ),
            None => r matches Ok(shape) && call_name_decoded(source, name, provenance, shape),
        },
        NormExpr::OperatorTarget { spelling, .. } => if is_sum_operator(spelling) {
            sum_outcome(source, provenance, r)
        } else if is_plus_operator(spelling) {
            r == Err::<StructPatternSyntaxMaterial, Diagnostic>(
                Diagnostic { kind: DiagnosticKind::StructPlusIsNotASum, provenance: Some(provenance) },
            )
        } else {
            r == Err::<StructPatternSyntaxMaterial, Diagnostic>(
                Diagnostic { kind: DiagnosticKind::StructUnsupportedOperator(spelling), provenance: Some(provenance) },
            )
        },
        other => r == Err::<StructPatternSyntaxMaterial, Diagnostic>(
            Diagnostic {
                kind: DiagnosticKind::StructUnsupportedCallTarget(expr_kind_spec(other)),
                provenance: Some(provenance),
            },
        ),
    }
}

/// `r` is the outcome of decoding a `|` sum over `source`.
pub open spec fn sum_outcome(
    source: NormProduct,
    provenance: Provenance,
    r: Result<StructPatternSyntaxMaterial, Diagnostic>,
) -> bool {
    match sum_error(source) {
        Some(kind) => r == Err::<StructPatternSyntaxMaterial, Diagnostic>(
            Diagnostic { kind, provenance: Some(provenance) },
        ),
        None => r matches Ok(shape) && (shape matches StructPatternSyntaxMaterial::Sum { alternatives, provenance: q }
            && q == provenance && elements_decoded_upto(
            source,
            source.elements@.len() as int,
            provenance,
            alternatives@,
        )),
    }
}

/// The form of an expression, for diagnostics.
pub fn expr_variant_name(expr: &NormExpr) -> (r: NormExprKind)
    ensures
        r == expr_kind_spec(*expr),
{
    match expr {
        NormExpr::PolicyLet { .. } => NormExprKind::PolicyLet,
        NormExpr::Call { .. } => NormExprKind::Call,
        NormExpr::Product(_) => NormExprKind::Product,
        NormExpr::Closure(_) => NormExprKind::Closure,
        NormExpr::Name { .. } => NormExprKind::Name,
        NormExpr::Literal { .. } => NormExprKind::Literal,
        NormExpr::Nav { .. } => NormExprKind::Nav,
        NormExpr::OperatorTarget { .. } => NormExprKind::OperatorTarget,
        NormExpr::Unsupported { .. } => NormExprKind::Unsupported,
        NormExpr::Error(_) => NormExprKind::Error,
    }
}

proof fn lemma_product_exprs_prefix(p: NormProduct, k: int, m: int)
    requires
        0 <= k <= m <= p.elements@.len(),
    ensures
        product_exprs_upto(p, k).len() <= product_exprs_upto(p, m).len(),
        product_exprs_upto(p, m).subrange(0, product_exprs_upto(p, k).len() as int) == product_exprs_upto(p, k),
    decreases m - k,
{
    if k < m {
        lemma_product_exprs_prefix(p, k, m - 1);
        let a = product_exprs_upto(p, k);
        let b = product_exprs_upto(p, m - 1);
        let c = product_exprs_upto(p, m);
        assert(c.subrange(0, b.len() as int) == b);
        assert(c.subrange(0, a.len() as int) =~= b.subrange(0, a.len() as int));
    } else {
        assert(product_exprs_upto(p, m).subrange(0, product_exprs_upto(p, m).len() as int) =~= product_exprs_upto(
            p,
            m,
        ));
    }
}

/// How many of the first `n` elements of `p` are expressions.
fn expr_count_upto(p: &NormProduct, n: usize) -> (r: usize)
    requires
        n <= p.elements@.len(),
    ensures
        r == product_exprs_upto(*p, n as int).len(),
{
    let mut count: usize = 0;
    for i in 0..n
        invariant
            n <= p.elements@.len(),
            count == product_exprs_upto(*p, i as int).len(),
            count <= i,
    {
        match &p.elements[i] {
            NormProductElem::Expr(_) => {
                count = count + 1;
            },
            NormProductElem::Unit { .. } => {},
        }
    }
    count
}

/// The first expression element of `p`.
fn first_expr(p: &NormProduct) -> (r: Option<&NormExpr>)
    ensures
        product_exprs(*p).len() == 0 ==> r is None,
        product_exprs(*p).len() > 0 ==> (r matches Some(e) && *e == product_exprs(*p)[0]),
{
    let n = p.elements.len();
    for i in 0..n
        invariant
            n == p.elements@.len(),
            product_exprs_upto(*p, i as int).len() == 0,
    {
        match &p.elements[i] {
            NormProductElem::Expr(e) => {
                proof {
                    assert(product_exprs_upto(*p, i + 1) =~= seq![*e]);
                    lemma_product_exprs_prefix(*p, i + 1, n as int);
                    assert(product_exprs(*p).subrange(0, 1) == seq![*e]);
                    assert(product_exprs(*p)[0] == product_exprs(*p).subrange(0, 1)[0]);
                }
                return Some(e);
            },
            NormProductElem::Unit { .. } => {},
        }
    }
    None
}

/// The name a call's name target attaches.
fn label(e: &NormExpr) -> (r: Option<&String>)
    ensures
        match label_of(*e) {
            Some(name) => r matches Some(x) && *x == name,
            None => r is None,
        },
{
    match e {
        NormExpr::Call { target, .. } => match &**target {
            NormExpr::Name { text: name, .. } => Some(name),
            _ => None,
        },
        _ => None,
    }
}

/// The local field name of `e` when it decodes as a leaf.
fn leaf_name(e: &NormExpr) -> (r: Option<&String>)
    ensures
        match leaf_name_of(*e) {
            Some(name) => r matches Some(x) && *x == name,
            None => r is None,
        },
{
    match e {
        NormExpr::Call { source, .. } => {
            if expr_count_upto(source, source.elements.len()) == 1 {
                label(e)
            } else {
                None
            }
        },
        _ => None,
    }
}

fn first_leaf_named_exec(p: &NormProduct, name: &String, m: usize) -> (r: Option<usize>)
    requires
        m <= p.elements@.len(),
    ensures
        first_leaf_named(*p, *name, m as int) == match r {
            Some(j) => Some(j as int),
            None => None::<int>,
        },
        r matches Some(j) ==> j < m,
{
    for i in 0..m
        invariant
            m <= p.elements@.len(),
            first_leaf_named(*p, *name, i as int) is None,
    {
        match &p.elements[i] {
            NormProductElem::Expr(e) => match leaf_name(e) {
                Some(x) => {
                    if text_eq(x.as_str(), name.as_str()) {
                        proof {
                            lemma_first_leaf_named_stays(*p, *name, i + 1, m as int);
                        }
                        return Some(i);
                    }
                },
                None => {},
            },
            NormProductElem::Unit { .. } => {},
        }
    }
    None
}

proof fn lemma_first_leaf_named_stays(p: NormProduct, name: String, k: int, m: int)
    requires
        0 < k <= m <= p.elements@.len(),
        first_leaf_named(p, name, k) is Some,
    ensures
        first_leaf_named(p, name, m) == first_leaf_named(p, name, k),
    decreases m - k,
{
    if k < m {
        lemma_first_leaf_named_stays(p, name, k, m - 1);
    }
}

proof fn lemma_first_label_named_stays(p: NormProduct, name: String, k: int, m: int)
    requires
        0 < k <= m <= p.elements@.len(),
        first_label_named(p, name, k) is Some,
    ensures
        first_label_named(p, name, m) == first_label_named(p, name, k),
    decreases m - k,
{
    if k < m {
        lemma_first_label_named_stays(p, name, k, m - 1);
    }
}

fn first_label_named_exec(p: &NormProduct, name: &String, m: usize) -> (r: Option<usize>)
    requires
        m <= p.elements@.len(),
    ensures
        first_label_named(*p, *name, m as int) == match r {
            Some(j) => Some(j as int),
            None => None::<int>,
        },
        r matches Some(j) ==> j < m,
{
    for i in 0..m
        invariant
            m <= p.elements@.len(),
            first_label_named(*p, *name, i as int) is None,
    {
        match &p.elements[i] {
            NormProductElem::Expr(e) => match label(e) {
                Some(x) => {
                    if text_eq(x.as_str(), name.as_str()) {
                        proof {
                            lemma_first_label_named_stays(*p, *name, i + 1, m as int);
                        }
                        return Some(i);
                    }
                },
                None => {},
            },
            NormProductElem::Unit { .. } => {},
        }
    }
    None
}

/// The names of the name components of a navigation.
fn nav_name_segments(components: &Vec<NormNavComponent>) -> (r: Vec<String>)
    ensures
        r@ == nav_names(components@),
{
    let mut names: Vec<String> = Vec::new();
    for i in 0..components.len()
        invariant
            names@ == nav_names(components@.take(i as int)),
    {
        proof {
            assert(components@.take(i + 1).drop_last() =~= components@.take(i as int));
        }
        match &components[i] {
            NormNavComponent::Name { name, .. } => {
                names.push(name.clone());
            },
            _ => {},
        }
        proof {
            assert(names@ =~= nav_names(components@.take(i + 1)));
        }
    }
    proof {
        assert(components@.take(components@.len() as int) =~= components@);
    }
    names
}

} // verus!

verus! {

proof fn lemma_product_error_stays(p: NormProduct, k: int, m: int)
    requires
        0 < k <= m <= p.elements@.len(),
        product_error_upto(p, k) is Some,
    ensures
        product_error_upto(p, m) == product_error_upto(p, k),
    decreases m - k,
{
    if k < m {
        lemma_product_error_stays(p, k, m - 1);
    }
}

proof fn lemma_elements_error_stays(p: NormProduct, k: int, m: int)
    requires
        0 < k <= m <= p.elements@.len(),
        elements_error_upto(p, k) is Some,
    ensures
        elements_error_upto(p, m) == elements_error_upto(p, k),
    decreases m - k,
{
    if k < m {
        lemma_elements_error_stays(p, k, m - 1);
    }
}

proof fn lemma_alternatives_error_stays(p: NormProduct, k: int, m: int)
    requires
        0 < k <= m <= p.elements@.len(),
        alternatives_error_upto(p, k) is Some,
    ensures
        alternatives_error_upto(p, m) == alternatives_error_upto(p, k),
    decreases m - k,
{
    if k < m {
        lemma_alternatives_error_stays(p, k, m - 1);
    }
}

/// Decode one normalized expression, the source inside `( ... ) |> struct`,
/// as a struct type-pattern expression. Products, calls and operator
/// applications are read recursively; a bare name or any other form is an
/// error at the top.
pub fn decode_struct_type_pattern_expr(expr: &NormExpr, provenance: Provenance) -> (r: Result<
    StructPatternSyntaxMaterial,
    Diagnostic,
>)
    ensures
        decode_outcome(*expr, provenance, r),
    decreases expr, 0int,
{
    match expr {
        NormExpr::Product(product) => decode_product(product, provenance),
        NormExpr::Call { source, target, .. } => decode_call(source, target, provenance),
        NormExpr::Name { text: name, .. } => Err(
            Diagnostic::hard_error(DiagnosticKind::StructBareName(name.clone()), Some(provenance)),
        ),
        _ => Err(
            Diagnostic::hard_error(DiagnosticKind::StructUnsupportedShape(expr_variant_name(expr)), Some(provenance)),
        ),
    }
}

/// A product decodes to the product of its decoded expression elements;
/// Unit elements are no fields, and two leaves may not share a name.
fn decode_product(product: &NormProduct, provenance: Provenance) -> (r: Result<StructPatternSyntaxMaterial, Diagnostic>)
    ensures
        match product_error_upto(*product, product.elements@.len() as int) {
            Some(kind) => r == Err::<StructPatternSyntaxMaterial, Diagnostic>(
                Diagnostic { kind, provenance: Some(provenance) },
            ),
            None => r matches Ok(shape) && (shape matches StructPatternSyntaxMaterial::Product { elements, provenance: q }
                && q == provenance && elements_decoded_upto(
                *product,
                product.elements@.len() as int,
                provenance,
                elements@,
            )),
        },
    decreases product, 1int,
{
    let mut elements: Vec<StructPatternSyntaxMaterial> = Vec::new();
    let n = product.elements.len();
    for i in 0..n
        invariant
            n == product.elements@.len(),
            product_error_upto(*product, i as int) is None,
            elements_decoded_upto(*product, i as int, provenance, elements@),
            elements@.len() == product_exprs_upto(*product, i as int).len(),
    {
        proof {
            assert(decreases_to!(*product => product.elements));
            assert(decreases_to!(product.elements => product.elements[i as int]));
        }
        match &product.elements[i] {
            NormProductElem::Expr(inner) => {
                let decoded = match decode_struct_type_pattern_expr(inner, provenance.copied()) {
                    Ok(decoded) => decoded,
                    Err(d) => {
                        proof {
                            lemma_product_error_stays(*product, i + 1, n as int);
                        }
                        return Err(d);
                    },
                };
                match leaf_name(inner) {
                    Some(name) => match first_leaf_named_exec(product, name, i) {
                        Some(j) => {
                            let first_index = expr_count_upto(product, j);
                            proof {
                                assert(decode_error(*inner) is None);
                                assert(leaf_name_of(*inner) == Some(*name));
                                assert(first_leaf_named(*product, *name, i as int) == Some(j as int));
                                assert(product_error_upto(*product, i + 1) == Some(
                                    DiagnosticKind::StructDuplicateField { name: *name, first_index },
                                ));
                                lemma_product_error_stays(*product, i + 1, n as int);
                            }
                            return Err(
                                Diagnostic::hard_error(
                                    DiagnosticKind::StructDuplicateField { name: name.clone(), first_index },
                                    Some(provenance),
                                ),
                            );
                        },
                        None => {},
                    },
                    None => {},
                }
                let ghost before = elements@;
                elements.push(decoded);
                proof {
                    assert(elements@.drop_last() == before);
                }
            },
            NormProductElem::Unit { .. } => {},
        }
    }
    Ok(StructPatternSyntaxMaterial::product(elements, provenance))
}

/// A call with a name target decodes as a leaf or a named construction; a
/// `|` target decodes as a sum; `+` and other operators are refused.
fn decode_call(source: &NormProduct, target: &NormExpr, provenance: Provenance) -> (r: Result<
    StructPatternSyntaxMaterial,
    Diagnostic,
>)
    ensures
        call_outcome(*source, *target, provenance, r),
    decreases source, 2int,
{
    match target {
        NormExpr::Name { text: name, .. } => decode_call_with_name_target(source, name, provenance),
        NormExpr::OperatorTarget { spelling, .. } => {
            if text_eq(spelling.as_str(), "|") {
                decode_sum_from_source(source, provenance)
            } else if text_eq(spelling.as_str(), "+") {
                Err(Diagnostic::hard_error(DiagnosticKind::StructPlusIsNotASum, Some(provenance)))
            } else {
                Err(
                    Diagnostic::hard_error(
                        DiagnosticKind::StructUnsupportedOperator(spelling.clone()),
                        Some(provenance),
                    ),
                )
            }
        },
        _ => Err(
            Diagnostic::hard_error(
                DiagnosticKind::StructUnsupportedCallTarget(expr_variant_name(target)),
                Some(provenance),
            ),
        ),
    }
}

/// A name applied to no expression is a named empty product, to one a leaf
/// whose type is that expression, to several a named product of them.
fn decode_call_with_name_target(source: &NormProduct, name: &String, provenance: Provenance) -> (r: Result<
    StructPatternSyntaxMaterial,
    Diagnostic,
>)
    ensures
        match call_name_error(*source) {
            Some(kind) => r == Err::<StructPatternSyntaxMaterial, Diagnostic>(
                Diagnostic { kind, provenance: Some(provenance) },
            ),
            None => r matches Ok(shape) && call_name_decoded(*source, *name, provenance, shape),
        },
    decreases source, 1int,
{
    let n = source.elements.len();
    let count = expr_count_upto(source, n);
    if count == 1 {
        let source_expr = match first_expr(source) {
            Some(e) => e,
            None => {
                return Err(Diagnostic::hard_error(DiagnosticKind::StructNavigationWithoutNames, Some(provenance)));
            },
        };
        let external_type_expr = match source_expr {
            NormExpr::Name { text: written_type, .. } => StructLeafSyntaxMaterial::path(
                StructSymbolPathMaterial::single(written_type.clone()),
            ),
            NormExpr::Nav { components, .. } => {
                let segments = nav_name_segments(components);
                if segments.len() == 0 {
                    return Err(
                        Diagnostic::hard_error(DiagnosticKind::StructNavigationWithoutNames, Some(provenance)),
                    );
                }
                StructLeafSyntaxMaterial::path(StructSymbolPathMaterial::new(segments))
            },
            other => StructLeafSyntaxMaterial::NormalizedAst {
                description: expr_debug_text(other),
                provenance: provenance.copied(),
            },
        };
        return Ok(StructPatternSyntaxMaterial::leaf(external_type_expr, name.clone(), provenance));
    }
    let mut children: Vec<StructPatternSyntaxMaterial> = Vec::new();
    for i in 0..n
        invariant
            n == source.elements@.len(),
            count == product_exprs(*source).len(),
            count != 1,
            elements_error_upto(*source, i as int) is None,
            elements_decoded_upto(*source, i as int, provenance, children@),
    {
        proof {
            assert(decreases_to!(*source => source.elements));
            assert(decreases_to!(source.elements => source.elements[i as int]));
        }
        match &source.elements[i] {
            NormProductElem::Expr(expr) => {
                let decoded = match decode_struct_type_pattern_expr(expr, provenance.copied()) {
                    Ok(decoded) => decoded,
                    Err(d) => {
                        proof {
                            assert(product_exprs_upto(*source, i + 1).len() >= 1);
                            lemma_product_exprs_prefix(*source, i + 1, n as int);
                            lemma_elements_error_stays(*source, i + 1, n as int);
                        }
                        return Err(d);
                    },
                };
                let ghost before = children@;
                children.push(decoded);
                proof {
                    assert(children@.drop_last() == before);
                }
            },
            NormProductElem::Unit { .. } => {},
        }
    }
    let child = StructPatternSyntaxMaterial::product(children, provenance.copied());
    Ok(StructPatternSyntaxMaterial::named(child, name.clone(), provenance))
}

/// Each expression element of `source` is one sum alternative: a named
/// construction or a leaf, named differently from every earlier one.
fn decode_sum_from_source(source: &NormProduct, provenance: Provenance) -> (r: Result<
    StructPatternSyntaxMaterial,
    Diagnostic,
>)
    ensures
        sum_outcome(*source, provenance, r),
    decreases source, 1int,
{
    let mut alternatives: Vec<StructPatternSyntaxMaterial> = Vec::new();
    let n = source.elements.len();
    for i in 0..n
        invariant
            n == source.elements@.len(),
            alternatives_error_upto(*source, i as int) is None,
            elements_decoded_upto(*source, i as int, provenance, alternatives@),
            alternatives@.len() == product_exprs_upto(*source, i as int).len(),
    {
        proof {
            assert(decreases_to!(*source => source.elements));
            assert(decreases_to!(source.elements => source.elements[i as int]));
        }
        match &source.elements[i] {
            NormProductElem::Expr(inner) => {
                let decoded = match decode_struct_type_pattern_expr(inner, provenance.copied()) {
                    Ok(decoded) => decoded,
                    Err(d) => {
                        proof {
                            lemma_alternatives_error_stays(*source, i + 1, n as int);
                        }
                        return Err(d);
                    },
                };
                match inner {
                    NormExpr::Product(_) => {
                        proof {
                            lemma_alternatives_error_stays(*source, i + 1, n as int);
                        }
                        return Err(
                            Diagnostic::hard_error(DiagnosticKind::StructBareProductAlternative, Some(provenance)),
                        );
                    },
                    NormExpr::Call { target, .. } => match &**target {
                        NormExpr::OperatorTarget { .. } => {
                            proof {
                                lemma_alternatives_error_stays(*source, i + 1, n as int);
                            }
                            return Err(
                                Diagnostic::hard_error(DiagnosticKind::StructBareSumAlternative, Some(provenance)),
                            );
                        },
                        _ => {},
                    },
                    _ => {},
                }
                match label(inner) {
                    Some(name) => match first_label_named_exec(source, name, i) {
                        Some(j) => {
                            let first_index = expr_count_upto(source, j);
                            proof {
                                assert(decode_error(*inner) is None);
                                assert(label_of(*inner) == Some(*name));
                                assert(first_label_named(*source, *name, i as int) == Some(j as int));
                                assert(alternatives_error_upto(*source, i + 1) == Some(
                                    DiagnosticKind::StructDuplicateAlternative { name: *name, first_index },
                                ));
                                lemma_alternatives_error_stays(*source, i + 1, n as int);
                            }
                            return Err(
                                Diagnostic::hard_error(
                                    DiagnosticKind::StructDuplicateAlternative { name: name.clone(), first_index },
                                    Some(provenance),
                                ),
                            );
                        },
                        None => {},
                    },
                    None => {},
                }
                let ghost before = alternatives@;
                alternatives.push(decoded);
                proof {
                    assert(alternatives@.drop_last() == before);
                }
            },
            NormProductElem::Unit { .. } => {},
        }
    }
    if alternatives.len() == 0 {
        return Err(Diagnostic::hard_error(DiagnosticKind::StructEmptySum, Some(provenance)));
    }
    Ok(StructPatternSyntaxMaterial::sum(alternatives, provenance))
}

} // verus!
