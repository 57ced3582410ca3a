//! Normalized surface syntax as the build layer reads it.
//!
//! The front end hands over alpha-normalized programs. This module holds the
//! parts of that material the build layer inspects: product structure,
//! closures with their return slots and self binders, and return events.
//! Everything else about an expression is carried through unread.
use vstd::prelude::*;

use crate::policy_syntax::{same_policy_spec, NormPolicySpec};

verus! {

/// Where a normalized node was written.
#[derive(Clone, Copy, Debug, PartialEq, Eq, Structural)]
pub struct NormOrigin {
    pub start: u64,
    pub end: u64,
}

/// Alpha-stable identity of one callable-local semantic owner.
#[derive(Clone, Copy, Debug, PartialEq, Eq, PartialOrd, Ord, Hash, Structural)]
pub struct NormSemanticOwnerId(pub u64);

/// The root of a written Pattern: its callable-local owner and its local
/// ordinal there.
#[derive(Clone, Copy, Debug, PartialEq, Eq, PartialOrd, Ord, Hash, Structural)]
pub struct NormPatternRootId {
    pub owner: NormSemanticOwnerId,
    pub local_root: u32,
}

/// A deduction hole binder: its Pattern root and its local ordinal.
#[derive(Clone, Copy, Debug, PartialEq, Eq, PartialOrd, Ord, Hash, Structural)]
pub struct HoleBinderId {
    pub root: NormPatternRootId,
    pub local_ordinal: u32,
}

impl HoleBinderId {
    pub fn pattern_root(&self) -> (r: NormPatternRootId)
        ensures
            r == self.root,
    {
        self.root
    }

    pub fn local_ordinal(&self) -> (r: u32)
        ensures
            r == self.local_ordinal,
    {
        self.local_ordinal
    }
}

/// A front-end error node.
#[derive(Debug, PartialEq, Eq)]
pub struct NormError {
    pub message: String,
    pub origin: NormOrigin,
}

/// A binding pattern; only simple binders carry a single name.
#[derive(Debug, PartialEq, Eq)]
pub enum NormPattern {
    Binder { name: String, origin: NormOrigin },
    OperatorBinder { spelling: String, origin: NormOrigin },
    /// Any structured pattern (product, extraction, ...).
    Structured { origin: NormOrigin },
}

/// A binding slot: a value pattern and an optional initializer.
#[derive(Debug, PartialEq, Eq)]
pub struct NormBindingSlot {
    pub value_pattern: NormPattern,
    /// The written policy of the binder, if any.
    pub policy: Option<NormPolicySpec>,
    pub initializer: Option<Box<NormExpr>>,
    pub origin: NormOrigin,
}

/// One element of a formal frame.
#[derive(Debug, PartialEq, Eq)]
pub enum NormPatternElem {
    BindingSlot(NormBindingSlot),
    Pattern(NormPattern),
    /// A deduction hole or another element without a binder.
    Hole { origin: NormOrigin },
}

/// The head of a closure: its return slot and its written self binder.
#[derive(Debug, PartialEq, Eq)]
pub struct NormClosureHead {
    pub returns: Option<NormBindingSlot>,
    pub written_self: Option<NormPatternElem>,
    pub origin: NormOrigin,
}

/// An alpha-normalized closure.
#[derive(Debug, PartialEq, Eq)]
pub struct NormClosure {
    pub semantic_owner: Option<NormSemanticOwnerId>,
    pub head: Option<NormClosureHead>,
    /// The user-written body; `None` for a body the toolchain supplies.
    pub body: Option<NormProgram>,
    pub origin: NormOrigin,
}

#[derive(Debug, PartialEq, Eq)]
pub enum NormExpr {
    PolicyLet { operand: Box<NormExpr>, origin: NormOrigin },
    Call { source: NormProduct, target: Box<NormExpr>, origin: NormOrigin },
    Product(NormProduct),
    Closure(Box<NormClosure>),
    Name { text: String, origin: NormOrigin },
    Literal { text: String, origin: NormOrigin },
    Nav { components: Vec<NormNavComponent>, origin: NormOrigin },
    OperatorTarget { spelling: String, origin: NormOrigin },
    Unsupported { raw_kind_summary: String, origin: NormOrigin },
    Error(NormError),
}

/// One component of a navigation `a::b::c`.
#[derive(Debug, PartialEq, Eq)]
pub enum NormNavComponent {
    Name { name: String, origin: NormOrigin },
    Operator { spelling: String, origin: NormOrigin },
    Group { origin: NormOrigin },
    Error(NormError),
}

impl NormNavComponent {
    pub fn copied(&self) -> (r: NormNavComponent)
        ensures
            r == *self,
    {
        match self {
            NormNavComponent::Name { name, origin } => NormNavComponent::Name { name: name.clone(), origin: *origin },
            NormNavComponent::Operator { spelling, origin } => NormNavComponent::Operator {
                spelling: spelling.clone(),
                origin: *origin,
            },
            NormNavComponent::Group { origin } => NormNavComponent::Group { origin: *origin },
            NormNavComponent::Error(err) => NormNavComponent::Error(err.copied()),
        }
    }
}

/// A navigation component naming `name`, written at `origin`.
pub fn nav_component_name(name: String, origin: NormOrigin) -> (r: NormNavComponent)
    ensures
        r == (NormNavComponent::Name { name, origin }),
{
    NormNavComponent::Name { name, origin }
}

/// A written product `(e1, e2, ...)`.
#[derive(Debug, PartialEq, Eq)]
pub struct NormProduct {
    pub elements: Vec<NormProductElem>,
    pub origin: NormOrigin,
}

#[derive(Debug, PartialEq, Eq)]
pub enum NormProductElem {
    Expr(NormExpr),
    Unit { origin: NormOrigin },
}

/// A sequence of forms.
#[derive(Debug, PartialEq, Eq)]
pub struct NormProgram {
    pub forms: Vec<NormForm>,
}

#[derive(Debug, PartialEq, Eq)]
pub enum NormDecl {
    Let { slot: NormBindingSlot },
    Alias { origin: NormOrigin },
    Error(NormError),
}

#[derive(Debug, PartialEq, Eq)]
pub enum NormForm {
    ReturnEvent(NormReturnEvent),
    Let(NormDecl),
    Alias(NormDecl),
    Expr(NormExpr),
    TailValue(NormExpr),
    Error(NormError),
}

/// `return value` or `return value to target`.
#[derive(Debug, PartialEq, Eq)]
pub struct NormReturnEvent {
    pub value: NormExpr,
    pub target: NormReturnTargetSyntax,
    pub origin: NormOrigin,
}

#[derive(Debug, PartialEq, Eq)]
pub enum NormReturnTargetSyntax {
    ImplicitNearest,
    Explicit(NormExpr),
}

/// The form of an expression, named for diagnostics.
#[derive(Clone, Copy, Debug, PartialEq, Eq, Structural)]
pub enum NormExprKind {
    PolicyLet,
    Call,
    Product,
    Closure,
    Name,
    Literal,
    Nav,
    OperatorTarget,
    Unsupported,
    Error,
}

pub open spec fn expr_kind_spec(e: NormExpr) -> NormExprKind {
    match e {
        NormExpr::PolicyLet { .. } => NormExprKind::PolicyLet,
        NormExpr::Call { .. } => NormExprKind::Call,
        NormExpr::Product(_) => NormExprKind::Product,
        NormExpr::Closure(_) => NormExprKind::Closure,
        NormExpr::Name { .. } => NormExprKind::Name,
        NormExpr::Literal { .. } => NormExprKind::Literal,
        NormExpr::Nav { .. } => NormExprKind::Nav,
        NormExpr::OperatorTarget { .. } => NormExprKind::OperatorTarget,
        NormExpr::Unsupported { .. } => NormExprKind::Unsupported,
        NormExpr::Error(_) => NormExprKind::Error,
    }
}

/// Where the expression was written.
pub open spec fn expr_origin_spec(e: NormExpr) -> NormOrigin {
    match e {
        NormExpr::PolicyLet { origin, .. } => origin,
        NormExpr::Call { origin, .. } => origin,
        NormExpr::Product(p) => p.origin,
        NormExpr::Closure(c) => c.origin,
        NormExpr::Name { origin, .. } => origin,
        NormExpr::Literal { origin, .. } => origin,
        NormExpr::Nav { origin, .. } => origin,
        NormExpr::OperatorTarget { origin, .. } => origin,
        NormExpr::Unsupported { origin, .. } => origin,
        NormExpr::Error(err) => err.origin,
    }
}

impl NormExpr {
    /// Where the expression was written.
    pub fn origin(&self) -> (r: NormOrigin)
        ensures
            r == expr_origin_spec(*self),
    {
        match self {
            NormExpr::PolicyLet { origin, .. } => *origin,
            NormExpr::Call { origin, .. } => *origin,
            NormExpr::Product(p) => p.origin,
            NormExpr::Closure(c) => c.origin,
            NormExpr::Name { origin, .. } => *origin,
            NormExpr::Literal { origin, .. } => *origin,
            NormExpr::Nav { origin, .. } => *origin,
            NormExpr::OperatorTarget { origin, .. } => *origin,
            NormExpr::Unsupported { origin, .. } => *origin,
            NormExpr::Error(err) => err.origin,
        }
    }
}

} // verus!

verus! {

/// `a` and `b` are the same syntax: equal in every field, sequences
/// compared element by element.
pub open spec fn same_expr(a: NormExpr, b: NormExpr) -> bool
    decreases a, 0int,
{
    match a {
        NormExpr::PolicyLet { operand, origin } => match b {
            NormExpr::PolicyLet { operand: b_operand, origin: b_origin } => origin == b_origin && same_expr(
                *operand,
                *b_operand,
            ),
            _ => false,
        },
        NormExpr::Call { source, target, origin } => match b {
            NormExpr::Call { source: b_source, target: b_target, origin: b_origin } => origin == b_origin
                && same_product(source, b_source) && same_expr(*target, *b_target),
            _ => false,
        },
        NormExpr::Product(p) => match b {
            NormExpr::Product(q) => same_product(p, q),
            _ => false,
        },
        NormExpr::Closure(c) => match b {
            NormExpr::Closure(d) => same_closure(*c, *d),
            _ => false,
        },
        NormExpr::Nav { components, origin } => match b {
            NormExpr::Nav { components: b_components, origin: b_origin } => origin == b_origin && components@
                == b_components@,
            _ => false,
        },
        _ => a == b,
    }
}

pub open spec fn same_product(a: NormProduct, b: NormProduct) -> bool
    decreases a, a.elements@.len() + 1,
{
    a.origin == b.origin && a.elements@.len() == b.elements@.len() && same_elements_from(a, b, 0)
}

/// The elements of `a` and `b` from position `i` on are the same.
pub open spec fn same_elements_from(a: NormProduct, b: NormProduct, i: int) -> bool
    decreases a, a.elements@.len() - i,
{
    if i < 0 || i >= a.elements@.len() {
        true
    } else {
        i < b.elements@.len() && same_elem(a.elements@[i], b.elements@[i]) && same_elements_from(a, b, i + 1)
    }
}

pub open spec fn same_elem(a: NormProductElem, b: NormProductElem) -> bool
    decreases a, 0int,
{
    match a {
        NormProductElem::Expr(e) => match b {
            NormProductElem::Expr(f) => same_expr(e, f),
            _ => false,
        },
        NormProductElem::Unit { .. } => a == b,
    }
}

pub open spec fn same_slot(a: NormBindingSlot, b: NormBindingSlot) -> bool
    decreases a, 0int,
{
    a.value_pattern == b.value_pattern && a.origin == b.origin && match a.policy {
        None => b.policy is None,
        Some(p) => match b.policy {
            Some(q) => same_policy_spec(p, q),
            None => false,
        },
    } && match a.initializer {
        None => b.initializer is None,
        Some(x) => match b.initializer {
            Some(y) => same_expr(*x, *y),
            None => false,
        },
    }
}

pub open spec fn same_pattern_elem(a: NormPatternElem, b: NormPatternElem) -> bool
    decreases a, 0int,
{
    match a {
        NormPatternElem::BindingSlot(s) => match b {
            NormPatternElem::BindingSlot(t) => same_slot(s, t),
            _ => false,
        },
        _ => a == b,
    }
}

pub open spec fn same_head(a: NormClosureHead, b: NormClosureHead) -> bool
    decreases a, 0int,
{
    a.origin == b.origin && match a.returns {
        None => b.returns is None,
        Some(x) => match b.returns {
            Some(y) => same_slot(x, y),
            None => false,
        },
    } && match a.written_self {
        None => b.written_self is None,
        Some(x) => match b.written_self {
            Some(y) => same_pattern_elem(x, y),
            None => false,
        },
    }
}

pub open spec fn same_closure(a: NormClosure, b: NormClosure) -> bool
    decreases a, 0int,
{
    a.semantic_owner == b.semantic_owner && a.origin == b.origin && match a.head {
        None => b.head is None,
        Some(x) => match b.head {
            Some(y) => same_head(x, y),
            None => false,
        },
    } && match a.body {
        None => b.body is None,
        Some(x) => match b.body {
            Some(y) => same_program(x, y),
            None => false,
        },
    }
}

pub open spec fn same_program(a: NormProgram, b: NormProgram) -> bool
    decreases a, a.forms@.len() + 1,
{
    a.forms@.len() == b.forms@.len() && same_forms_from(a, b, 0)
}

/// The forms of `a` and `b` from position `i` on are the same.
pub open spec fn same_forms_from(a: NormProgram, b: NormProgram, i: int) -> bool
    decreases a, a.forms@.len() - i,
{
    if i < 0 || i >= a.forms@.len() {
        true
    } else {
        i < b.forms@.len() && same_form(a.forms@[i], b.forms@[i]) && same_forms_from(a, b, i + 1)
    }
}

pub open spec fn same_decl(a: NormDecl, b: NormDecl) -> bool
    decreases a, 0int,
{
    match a {
        NormDecl::Let { slot } => match b {
            NormDecl::Let { slot: t } => same_slot(slot, t),
            _ => false,
        },
        _ => a == b,
    }
}

pub open spec fn same_form(a: NormForm, b: NormForm) -> bool
    decreases a, 0int,
{
    match a {
        NormForm::ReturnEvent(x) => match b {
            NormForm::ReturnEvent(y) => same_return_event(x, y),
            _ => false,
        },
        NormForm::Let(x) => match b {
            NormForm::Let(y) => same_decl(x, y),
            _ => false,
        },
        NormForm::Alias(x) => match b {
            NormForm::Alias(y) => same_decl(x, y),
            _ => false,
        },
        NormForm::Expr(x) => match b {
            NormForm::Expr(y) => same_expr(x, y),
            _ => false,
        },
        NormForm::TailValue(x) => match b {
            NormForm::TailValue(y) => same_expr(x, y),
            _ => false,
        },
        NormForm::Error(_) => a == b,
    }
}

pub open spec fn same_return_event(a: NormReturnEvent, b: NormReturnEvent) -> bool
    decreases a, 0int,
{
    a.origin == b.origin && same_expr(a.value, b.value) && same_target_syntax(a.target, b.target)
}

pub open spec fn same_target_syntax(a: NormReturnTargetSyntax, b: NormReturnTargetSyntax) -> bool
    decreases a, 0int,
{
    match a {
        NormReturnTargetSyntax::ImplicitNearest => b is ImplicitNearest,
        NormReturnTargetSyntax::Explicit(x) => match b {
            NormReturnTargetSyntax::Explicit(y) => same_expr(x, y),
            _ => false,
        },
    }
}

} // verus!

verus! {

proof fn lemma_same_elements_from(a: NormProduct, b: NormProduct, i: int)
    requires
        a.elements@.len() == b.elements@.len(),
        forall|k: int| 0 <= k < a.elements@.len() ==> #[trigger] same_elem(a.elements@[k], b.elements@[k]),
    ensures
        same_elements_from(a, b, i),
    decreases a.elements@.len() - i,
{
    if 0 <= i < a.elements@.len() {
        lemma_same_elements_from(a, b, i + 1);
        assert(same_elem(a.elements@[i], b.elements@[i]));
    }
}

proof fn lemma_same_forms_from(a: NormProgram, b: NormProgram, i: int)
    requires
        a.forms@.len() == b.forms@.len(),
        forall|k: int| 0 <= k < a.forms@.len() ==> #[trigger] same_form(a.forms@[k], b.forms@[k]),
    ensures
        same_forms_from(a, b, i),
    decreases a.forms@.len() - i,
{
    if 0 <= i < a.forms@.len() {
        lemma_same_forms_from(a, b, i + 1);
        assert(same_form(a.forms@[i], b.forms@[i]));
    }
}

impl NormError {
    pub fn copied(&self) -> (r: NormError)
        ensures
            r == *self,
    {
        NormError { message: self.message.clone(), origin: self.origin }
    }
}

impl NormPattern {
    pub fn copied(&self) -> (r: NormPattern)
        ensures
            r == *self,
    {
        match self {
            NormPattern::Binder { name, origin } => NormPattern::Binder { name: name.clone(), origin: *origin },
            NormPattern::OperatorBinder { spelling, origin } => NormPattern::OperatorBinder {
                spelling: spelling.clone(),
                origin: *origin,
            },
            NormPattern::Structured { origin } => NormPattern::Structured { origin: *origin },
        }
    }
}

impl NormExpr {
    /// A copy of the same syntax.
    pub fn copied(&self) -> (r: NormExpr)
        ensures
            same_expr(*self, r),
        decreases self, 0int,
    {
        match self {
            NormExpr::PolicyLet { operand, origin } => NormExpr::PolicyLet {
                operand: Box::new((**operand).copied()),
                origin: *origin,
            },
            NormExpr::Call { source, target, origin } => NormExpr::Call {
                source: source.copied(),
                target: Box::new((**target).copied()),
                origin: *origin,
            },
            NormExpr::Product(p) => NormExpr::Product(p.copied()),
            NormExpr::Closure(c) => NormExpr::Closure(Box::new((**c).copied())),
            NormExpr::Name { text, origin } => NormExpr::Name { text: text.clone(), origin: *origin },
            NormExpr::Literal { text, origin } => NormExpr::Literal { text: text.clone(), origin: *origin },
            NormExpr::Nav { components, origin } => {
                let mut copies: Vec<NormNavComponent> = Vec::new();
                for i in 0..components.len()
                    invariant
                        copies@ =~= components@.take(i as int),
                {
                    copies.push(components[i].copied());
                }
                assert(components@.take(components@.len() as int) =~= components@);
                NormExpr::Nav { components: copies, origin: *origin }
            },
            NormExpr::OperatorTarget { spelling, origin } => NormExpr::OperatorTarget {
                spelling: spelling.clone(),
                origin: *origin,
            },
            NormExpr::Unsupported { raw_kind_summary, origin } => NormExpr::Unsupported {
                raw_kind_summary: raw_kind_summary.clone(),
                origin: *origin,
            },
            NormExpr::Error(err) => NormExpr::Error(err.copied()),
        }
    }
}

impl NormProduct {
    /// A copy of the same syntax.
    pub fn copied(&self) -> (r: NormProduct)
        ensures
            same_product(*self, r),
        decreases self, self.elements@.len() + 1,
    {
        let mut elements: Vec<NormProductElem> = Vec::new();
        let n = self.elements.len();
        for i in 0..n
            invariant
                n == self.elements@.len(),
                elements@.len() == i,
                forall|k: int| 0 <= k < i ==> #[trigger] same_elem(self.elements@[k], elements@[k]),
        {
            proof {
                assert(decreases_to!(*self => self.elements));
                assert(decreases_to!(self.elements => self.elements[i as int]));
            }
            elements.push(self.elements[i].copied());
        }
        let r = NormProduct { elements, origin: self.origin };
        proof {
            lemma_same_elements_from(*self, r, 0);
        }
        r
    }
}

impl NormProductElem {
    /// A copy of the same syntax.
    pub fn copied(&self) -> (r: NormProductElem)
        ensures
            same_elem(*self, r),
        decreases self, 0int,
    {
        match self {
            NormProductElem::Expr(e) => NormProductElem::Expr(e.copied()),
            NormProductElem::Unit { origin } => NormProductElem::Unit { origin: *origin },
        }
    }
}

impl NormBindingSlot {
    /// A copy of the same syntax.
    pub fn copied(&self) -> (r: NormBindingSlot)
        ensures
            same_slot(*self, r),
        decreases self, 0int,
    {
        let initializer = match &self.initializer {
            None => None,
            Some(e) => Some(Box::new((**e).copied())),
        };
        let policy = match &self.policy {
            None => None,
            Some(p) => Some(p.copied()),
        };
        NormBindingSlot { value_pattern: self.value_pattern.copied(), policy, initializer, origin: self.origin }
    }
}

impl NormPatternElem {
    /// A copy of the same syntax.
    pub fn copied(&self) -> (r: NormPatternElem)
        ensures
            same_pattern_elem(*self, r),
        decreases self, 0int,
    {
        match self {
            NormPatternElem::BindingSlot(s) => NormPatternElem::BindingSlot(s.copied()),
            NormPatternElem::Pattern(p) => NormPatternElem::Pattern(p.copied()),
            NormPatternElem::Hole { origin } => NormPatternElem::Hole { origin: *origin },
        }
    }
}

impl NormClosureHead {
    /// A copy of the same syntax.
    pub fn copied(&self) -> (r: NormClosureHead)
        ensures
            same_head(*self, r),
        decreases self, 0int,
    {
        let return_slot = match &self.returns {
            None => None,
            Some(s) => Some(s.copied()),
        };
        let written_self = match &self.written_self {
            None => None,
            Some(e) => Some(e.copied()),
        };
        NormClosureHead { returns: return_slot, written_self, origin: self.origin }
    }
}

impl NormClosure {
    /// A copy of the same syntax.
    pub fn copied(&self) -> (r: NormClosure)
        ensures
            same_closure(*self, r),
        decreases self, 0int,
    {
        let head = match &self.head {
            None => None,
            Some(h) => Some(h.copied()),
        };
        let body = match &self.body {
            None => None,
            Some(p) => Some(p.copied()),
        };
        NormClosure { semantic_owner: self.semantic_owner, head, body, origin: self.origin }
    }
}

impl NormProgram {
    /// A copy of the same syntax.
    pub fn copied(&self) -> (r: NormProgram)
        ensures
            same_program(*self, r),
        decreases self, self.forms@.len() + 1,
    {
        let mut forms: Vec<NormForm> = Vec::new();
        let n = self.forms.len();
        for i in 0..n
            invariant
                n == self.forms@.len(),
                forms@.len() == i,
                forall|k: int| 0 <= k < i ==> #[trigger] same_form(self.forms@[k], forms@[k]),
        {
            proof {
                assert(decreases_to!(*self => self.forms));
                assert(decreases_to!(self.forms => self.forms[i as int]));
            }
            forms.push(self.forms[i].copied());
        }
        let r = NormProgram { forms };
        proof {
            lemma_same_forms_from(*self, r, 0);
        }
        r
    }
}

impl NormDecl {
    /// A copy of the same syntax.
    pub fn copied(&self) -> (r: NormDecl)
        ensures
            same_decl(*self, r),
        decreases self, 0int,
    {
        match self {
            NormDecl::Let { slot } => NormDecl::Let { slot: slot.copied() },
            NormDecl::Alias { origin } => NormDecl::Alias { origin: *origin },
            NormDecl::Error(err) => NormDecl::Error(err.copied()),
        }
    }
}

impl NormForm {
    /// A copy of the same syntax.
    pub fn copied(&self) -> (r: NormForm)
        ensures
            same_form(*self, r),
        decreases self, 0int,
    {
        match self {
            NormForm::ReturnEvent(e) => NormForm::ReturnEvent(e.copied()),
            NormForm::Let(d) => NormForm::Let(d.copied()),
            NormForm::Alias(d) => NormForm::Alias(d.copied()),
            NormForm::Expr(e) => NormForm::Expr(e.copied()),
            NormForm::TailValue(e) => NormForm::TailValue(e.copied()),
            NormForm::Error(err) => NormForm::Error(err.copied()),
        }
    }
}

impl NormReturnEvent {
    /// A copy of the same syntax.
    pub fn copied(&self) -> (r: NormReturnEvent)
        ensures
            same_return_event(*self, r),
        decreases self, 0int,
    {
        NormReturnEvent { value: self.value.copied(), target: self.target.copied(), origin: self.origin }
    }
}

impl NormReturnTargetSyntax {
    /// A copy of the same syntax.
    pub fn copied(&self) -> (r: NormReturnTargetSyntax)
        ensures
            same_target_syntax(*self, r),
        decreases self, 0int,
    {
        match self {
            NormReturnTargetSyntax::ImplicitNearest => NormReturnTargetSyntax::ImplicitNearest,
            NormReturnTargetSyntax::Explicit(e) => NormReturnTargetSyntax::Explicit(e.copied()),
        }
    }
}

} // verus!
