//! Normalized policy spelling as handed over by the front end.
//!
//! A written policy `Pv : Pp` is a value component and an optional Pattern
//! component. Each component is a `+`-conjunction of `||`-choices of atoms.
use vstd::prelude::*;

verus! {

#[derive(Debug, PartialEq, Eq)]
pub struct NormPolicySpec {
    pub value_policy: NormValuePolicyPattern,
    pub pattern_policy: Option<NormPolicyConjunction>,
}

#[derive(Debug, PartialEq, Eq)]
pub enum NormValuePolicyPattern {
    Conjunction(NormPolicyConjunction),
    /// The absent-value pattern written as the whole value component.
    Absent,
}

/// `choice + choice + ...`
#[derive(Debug, PartialEq, Eq)]
pub struct NormPolicyConjunction {
    pub choices: Vec<NormPolicyChoice>,
}

/// `atom || atom || ...`
#[derive(Debug, PartialEq, Eq)]
pub struct NormPolicyChoice {
    pub atoms: Vec<NormPolicyAtom>,
}

#[derive(Debug, PartialEq, Eq)]
pub enum NormPolicyAtom {
    /// A named atom such as `meta` or `const`.
    Name { text: String },
    /// A deduction hole such as `$p`.
    HoleRef { text: String },
    /// A parenthesised conjunction.
    Group { conjunction: NormPolicyConjunction },
    /// The absent-value pattern `_`.
    AbsentValuePattern,
    /// A front-end error node.
    Error,
}

/// `a` and `b` spell the same conjunction.
pub open spec fn same_conjunction(a: NormPolicyConjunction, b: NormPolicyConjunction) -> bool
    decreases a, a.choices@.len() + 1,
{
    a.choices@.len() == b.choices@.len() && same_choices_from(a, b, 0)
}

/// The choices of `a` and `b` from position `i` on are the same.
pub open spec fn same_choices_from(a: NormPolicyConjunction, b: NormPolicyConjunction, i: int) -> bool
    decreases a, a.choices@.len() - i,
{
    if i < 0 || i >= a.choices@.len() {
        true
    } else {
        i < b.choices@.len() && same_choice(a.choices@[i], b.choices@[i]) && same_choices_from(a, b, i + 1)
    }
}

/// `a` and `b` spell the same choice.
pub open spec fn same_choice(a: NormPolicyChoice, b: NormPolicyChoice) -> bool
    decreases a, a.atoms@.len() + 1,
{
    a.atoms@.len() == b.atoms@.len() && same_atoms_from(a, b, 0)
}

/// The atoms of `a` and `b` from position `i` on are the same.
pub open spec fn same_atoms_from(a: NormPolicyChoice, b: NormPolicyChoice, i: int) -> bool
    decreases a, a.atoms@.len() - i,
{
    if i < 0 || i >= a.atoms@.len() {
        true
    } else {
        i < b.atoms@.len() && same_atom(a.atoms@[i], b.atoms@[i]) && same_atoms_from(a, b, i + 1)
    }
}

/// `a` and `b` spell the same atom.
pub open spec fn same_atom(a: NormPolicyAtom, b: NormPolicyAtom) -> bool
    decreases a, 0int,
{
    match a {
        NormPolicyAtom::Group { conjunction } => match b {
            NormPolicyAtom::Group { conjunction: other } => same_conjunction(conjunction, other),
            _ => false,
        },
        _ => a == b,
    }
}

/// `a` and `b` spell the same written policy.
pub open spec fn same_policy_spec(a: NormPolicySpec, b: NormPolicySpec) -> bool {
    &&& match a.value_policy {
        NormValuePolicyPattern::Conjunction(c) => match b.value_policy {
            NormValuePolicyPattern::Conjunction(d) => same_conjunction(c, d),
            _ => false,
        },
        NormValuePolicyPattern::Absent => b.value_policy is Absent,
    }
    &&& match a.pattern_policy {
        None => b.pattern_policy is None,
        Some(c) => match b.pattern_policy {
            Some(d) => same_conjunction(c, d),
            None => false,
        },
    }
}

proof fn lemma_same_choices_from(a: NormPolicyConjunction, b: NormPolicyConjunction, i: int)
    requires
        a.choices@.len() == b.choices@.len(),
        forall|k: int| 0 <= k < a.choices@.len() ==> #[trigger] same_choice(a.choices@[k], b.choices@[k]),
    ensures
        same_choices_from(a, b, i),
    decreases a.choices@.len() - i,
{
    if 0 <= i < a.choices@.len() {
        lemma_same_choices_from(a, b, i + 1);
        assert(same_choice(a.choices@[i], b.choices@[i]));
    }
}

proof fn lemma_same_atoms_from(a: NormPolicyChoice, b: NormPolicyChoice, i: int)
    requires
        a.atoms@.len() == b.atoms@.len(),
        forall|k: int| 0 <= k < a.atoms@.len() ==> #[trigger] same_atom(a.atoms@[k], b.atoms@[k]),
    ensures
        same_atoms_from(a, b, i),
    decreases a.atoms@.len() - i,
{
    if 0 <= i < a.atoms@.len() {
        lemma_same_atoms_from(a, b, i + 1);
        assert(same_atom(a.atoms@[i], b.atoms@[i]));
    }
}

impl NormPolicyConjunction {
    /// A copy of the same spelling.
    pub fn copied(&self) -> (r: NormPolicyConjunction)
        ensures
            same_conjunction(*self, r),
        decreases self, self.choices@.len() + 1,
    {
        let mut choices: Vec<NormPolicyChoice> = Vec::new();
        let n = self.choices.len();
        for i in 0..n
            invariant
                n == self.choices@.len(),
                choices@.len() == i,
                forall|k: int| 0 <= k < i ==> #[trigger] same_choice(self.choices@[k], choices@[k]),
        {
            proof {
                assert(decreases_to!(*self => self.choices));
                assert(decreases_to!(self.choices => self.choices[i as int]));
            }
            choices.push(self.choices[i].copied());
        }
        let r = NormPolicyConjunction { choices };
        proof {
            lemma_same_choices_from(*self, r, 0);
        }
        r
    }
}

impl NormPolicyChoice {
    /// A copy of the same spelling.
    pub fn copied(&self) -> (r: NormPolicyChoice)
        ensures
            same_choice(*self, r),
        decreases self, self.atoms@.len() + 1,
    {
        let mut atoms: Vec<NormPolicyAtom> = Vec::new();
        let n = self.atoms.len();
        for i in 0..n
            invariant
                n == self.atoms@.len(),
                atoms@.len() == i,
                forall|k: int| 0 <= k < i ==> #[trigger] same_atom(self.atoms@[k], atoms@[k]),
        {
            proof {
                assert(decreases_to!(*self => self.atoms));
                assert(decreases_to!(self.atoms => self.atoms[i as int]));
            }
            atoms.push(self.atoms[i].copied());
        }
        let r = NormPolicyChoice { atoms };
        proof {
            lemma_same_atoms_from(*self, r, 0);
        }
        r
    }
}

impl NormPolicyAtom {
    /// A copy of the same spelling.
    pub fn copied(&self) -> (r: NormPolicyAtom)
        ensures
            same_atom(*self, r),
        decreases self, 0int,
    {
        match self {
            NormPolicyAtom::Name { text } => NormPolicyAtom::Name { text: text.clone() },
            NormPolicyAtom::HoleRef { text } => NormPolicyAtom::HoleRef { text: text.clone() },
            NormPolicyAtom::Group { conjunction } => NormPolicyAtom::Group { conjunction: conjunction.copied() },
            NormPolicyAtom::AbsentValuePattern => NormPolicyAtom::AbsentValuePattern,
            NormPolicyAtom::Error => NormPolicyAtom::Error,
        }
    }
}

impl NormPolicySpec {
    /// A copy of the same spelling.
    pub fn copied(&self) -> (r: NormPolicySpec)
        ensures
            same_policy_spec(*self, r),
    {
        let value_policy = match &self.value_policy {
            NormValuePolicyPattern::Conjunction(c) => NormValuePolicyPattern::Conjunction(c.copied()),
            NormValuePolicyPattern::Absent => NormValuePolicyPattern::Absent,
        };
        let pattern_policy = match &self.pattern_policy {
            Some(c) => Some(c.copied()),
            None => None,
        };
        NormPolicySpec { value_policy, pattern_policy }
    }
}

} // verus!
