//! Policy-mode overload selection: one product partial order over every
//! frame position, keeping every non-dominated admissible candidate.
use vstd::prelude::*;

use crate::policy_pair::{
    stage_visible_at, FormalPolicyPattern, OutputModeDemand, Phase, PolicyMode, PolicyStage,
};

verus! {

#[derive(Clone, Debug, PartialEq, Eq)]
pub struct PolicyOverloadCandidate<I> {
    pub id: I,
    pub formal_frame: PolicyFormalFrame,
    pub result_policy: PolicyMode,
    pub is_delete: bool,
}

#[derive(Clone, Debug, PartialEq, Eq)]
pub struct PolicyFormalFrame {
    /// Policy Pattern of callable-frame slot 0.
    pub self_mode: PolicyMode,
    /// Policy Patterns for source-written positions after the first one.
    pub explicit_parameter_modes: Vec<PolicyMode>,
}

#[derive(Clone, Debug, PartialEq, Eq)]
pub struct PolicyActualFrame {
    /// Whole-slot Policy mode of the caller object injected into slot 0.
    pub caller_value: PolicyMode,
    /// Whole-slot Policy modes supplied by the explicit call-site Product.
    pub explicit_arguments: Vec<PolicyMode>,
}

/// The modes of the given formal patterns.
pub open spec fn formal_modes(parameters: Seq<FormalPolicyPattern>) -> Seq<PolicyMode> {
    parameters.map_values(|p: FormalPolicyPattern| p.mode)
}

impl<I> PolicyOverloadCandidate<I> {
    /// Build the candidate from source-order formals. The first written
    /// formal is the self-position; only later formals consume the call-site
    /// Product. Without formals the self-position is `plain`.
    pub fn from_formal_patterns(
        id: I,
        parameters: &[FormalPolicyPattern],
        result_policy: PolicyMode,
        is_delete: bool,
    ) -> (r: PolicyOverloadCandidate<I>)
        ensures
            r.id == id,
            r.result_policy == result_policy,
            r.is_delete == is_delete,
            parameters@.len() == 0 ==> r.formal_frame.self_mode == PolicyMode::Plain
                && r.formal_frame.explicit_parameter_modes@.len() == 0,
            parameters@.len() > 0 ==> r.formal_frame.self_mode == parameters@[0].mode
                && r.formal_frame.explicit_parameter_modes@ == formal_modes(parameters@).skip(1),
    {
        let mut self_mode = PolicyMode::Plain;
        let mut rest: Vec<PolicyMode> = Vec::new();
        let mut i: usize = 0;
        while i < parameters.len()
            invariant
                i <= parameters@.len(),
                i == 0 ==> self_mode == PolicyMode::Plain && rest@.len() == 0,
                i > 0 ==> self_mode == parameters@[0].mode && rest@ == formal_modes(
                    parameters@,
                ).subrange(1, i as int),
            decreases parameters@.len() - i,
        {
            let mode = formal_policy_mode(&parameters[i]);
            if i == 0 {
                self_mode = mode;
            } else {
                rest.push(mode);
            }
            i = i + 1;
            assert(i > 1 ==> rest@ =~= formal_modes(parameters@).subrange(1, i as int));
        }
        proof {
            if parameters@.len() > 0 {
                assert(rest@ =~= formal_modes(parameters@).skip(1));
            } else {
                assert(rest@.len() == 0);
            }
        }
        PolicyOverloadCandidate {
            id,
            formal_frame: PolicyFormalFrame { self_mode, explicit_parameter_modes: rest },
            result_policy,
            is_delete,
        }
    }
}

fn formal_policy_mode(formal: &FormalPolicyPattern) -> (r: PolicyMode)
    ensures
        r == formal.mode,
{
    formal.mode
}

/// A candidate after heterogeneous entry enumeration.
#[derive(Clone, Debug, PartialEq, Eq)]
pub struct PhaseOverloadCandidate<I> {
    pub candidate: PolicyOverloadCandidate<I>,
    pub stage: PolicyStage,
    pub fully_admissible: bool,
}

#[derive(Clone, Debug, PartialEq, Eq)]
pub enum PolicyOverloadSelection<I> {
    Selected(I),
    RejectedByDelete(I),
    Ambiguous(Vec<I>),
    NoCandidate,
}

/// Actual-relative mode preference: an exact match ranks 2, a plain/non-plain
/// mismatch ranks 1, and opposite const/mut ranks 0.
pub open spec fn rank_spec(candidate: PolicyMode, demand: PolicyMode) -> int {
    if candidate == demand {
        2
    } else if candidate == PolicyMode::Plain || demand == PolicyMode::Plain {
        1
    } else {
        0
    }
}

pub(crate) fn policy_mode_preference_rank(candidate: PolicyMode, demand: PolicyMode) -> (r: u8)
    ensures
        r == rank_spec(candidate, demand),
{
    match (candidate, demand) {
        (PolicyMode::Const, PolicyMode::Const) | (PolicyMode::Plain, PolicyMode::Plain) | (
            PolicyMode::Mut,
            PolicyMode::Mut,
        ) => 2,
        (PolicyMode::Plain, PolicyMode::Const | PolicyMode::Mut) | (
            PolicyMode::Const | PolicyMode::Mut,
            PolicyMode::Plain,
        ) => 1,
        (PolicyMode::Const, PolicyMode::Mut) | (PolicyMode::Mut, PolicyMode::Const) => 0,
    }
}

#[derive(Clone, Copy, Debug, PartialEq, Eq, Structural)]
pub enum PositionPreference {
    Better,
    Equal,
    Worse,
}

pub open spec fn rank_preference(left: int, right: int) -> PositionPreference {
    if left > right {
        PositionPreference::Better
    } else if left == right {
        PositionPreference::Equal
    } else {
        PositionPreference::Worse
    }
}

pub open spec fn position_spec(left: PolicyMode, right: PolicyMode, actual: PolicyMode) -> PositionPreference {
    rank_preference(rank_spec(left, actual), rank_spec(right, actual))
}

fn compare_position(left: PolicyMode, right: PolicyMode, actual: PolicyMode) -> (r: PositionPreference)
    ensures
        r == position_spec(left, right, actual),
{
    let left_rank = policy_mode_preference_rank(left, actual);
    let right_rank = policy_mode_preference_rank(right, actual);
    if left_rank > right_rank {
        PositionPreference::Better
    } else if left_rank == right_rank {
        PositionPreference::Equal
    } else {
        PositionPreference::Worse
    }
}

/// Number of explicit positions compared: the shortest of the three lists.
pub open spec fn zip_len(better: PolicyFormalFrame, worse: PolicyFormalFrame, actual: PolicyActualFrame) -> int {
    let a = better.explicit_parameter_modes@.len() as int;
    let b = worse.explicit_parameter_modes@.len() as int;
    let c = actual.explicit_arguments@.len() as int;
    if a <= b && a <= c {
        a
    } else if b <= c {
        b
    } else {
        c
    }
}

pub open spec fn explicit_position_spec(
    better: PolicyFormalFrame,
    worse: PolicyFormalFrame,
    actual: PolicyActualFrame,
    k: int,
) -> PositionPreference {
    position_spec(
        better.explicit_parameter_modes@[k],
        worse.explicit_parameter_modes@[k],
        actual.explicit_arguments@[k],
    )
}

/// Product comparison of two complete frames: `None` when `better` loses at
/// some position, otherwise whether it wins at some position.
pub open spec fn frames_spec(better: PolicyFormalFrame, worse: PolicyFormalFrame, actual: PolicyActualFrame) -> Option<
    bool,
> {
    let self_pref = position_spec(better.self_mode, worse.self_mode, actual.caller_value);
    if self_pref == PositionPreference::Worse || exists|k: int|
        0 <= k < zip_len(better, worse, actual) && #[trigger] explicit_position_spec(
            better,
            worse,
            actual,
            k,
        ) == PositionPreference::Worse {
        None
    } else {
        Some(
            self_pref == PositionPreference::Better || exists|k: int|
                0 <= k < zip_len(better, worse, actual) && #[trigger] explicit_position_spec(
                    better,
                    worse,
                    actual,
                    k,
                ) == PositionPreference::Better,
        )
    }
}

fn compare_frames(better: &PolicyFormalFrame, worse: &PolicyFormalFrame, actual: &PolicyActualFrame) -> (r:
    Option<bool>)
    ensures
        r == frames_spec(*better, *worse, *actual),
{
    let mut strictly_better = false;
    match compare_position(better.self_mode, worse.self_mode, actual.caller_value) {
        PositionPreference::Worse => {
            return None;
        },
        PositionPreference::Better => strictly_better = true,
        PositionPreference::Equal => {},
    }
    let n = if better.explicit_parameter_modes.len() <= worse.explicit_parameter_modes.len()
        && better.explicit_parameter_modes.len() <= actual.explicit_arguments.len() {
        better.explicit_parameter_modes.len()
    } else if worse.explicit_parameter_modes.len() <= actual.explicit_arguments.len() {
        worse.explicit_parameter_modes.len()
    } else {
        actual.explicit_arguments.len()
    };
    let mut k: usize = 0;
    while k < n
        invariant
            n == zip_len(*better, *worse, *actual),
            k <= n,
            position_spec(better.self_mode, worse.self_mode, actual.caller_value)
                != PositionPreference::Worse,
            forall|q: int|
                0 <= q < k ==> #[trigger] explicit_position_spec(*better, *worse, *actual, q)
                    != PositionPreference::Worse,
            strictly_better == (position_spec(better.self_mode, worse.self_mode, actual.caller_value)
                == PositionPreference::Better || exists|q: int|
                0 <= q < k && #[trigger] explicit_position_spec(*better, *worse, *actual, q)
                    == PositionPreference::Better),
        decreases n - k,
    {
        let p = compare_position(
            better.explicit_parameter_modes[k],
            worse.explicit_parameter_modes[k],
            actual.explicit_arguments[k],
        );
        assert(p == explicit_position_spec(*better, *worse, *actual, k as int));
        match p {
            PositionPreference::Worse => {
                return None;
            },
            PositionPreference::Better => strictly_better = true,
            PositionPreference::Equal => {},
        }
        k = k + 1;
    }
    Some(strictly_better)
}

fn frame_arity_matches(formal: &PolicyFormalFrame, actual: &PolicyActualFrame) -> (r: bool)
    ensures
        r == (formal.explicit_parameter_modes@.len() == actual.explicit_arguments@.len()),
{
    formal.explicit_parameter_modes.len() == actual.explicit_arguments.len()
}

/// `better` dominates `worse` when it loses at no frame position nor at the
/// result position, and wins at one of them.
pub open spec fn dominates_spec<I>(
    better: PolicyOverloadCandidate<I>,
    worse: PolicyOverloadCandidate<I>,
    actual: PolicyActualFrame,
    target: PolicyMode,
) -> bool {
    match frames_spec(better.formal_frame, worse.formal_frame, actual) {
        None => false,
        Some(strict) => {
            let result_pref = position_spec(better.result_policy, worse.result_policy, target);
            result_pref != PositionPreference::Worse && (strict || result_pref
                == PositionPreference::Better)
        },
    }
}

fn dominates<I>(
    better: &PolicyOverloadCandidate<I>,
    worse: &PolicyOverloadCandidate<I>,
    actual_frame: &PolicyActualFrame,
    target_result: OutputModeDemand,
) -> (r: bool)
    ensures
        r == dominates_spec(*better, *worse, *actual_frame, target_result.0),
{
    let mut strictly_better = match compare_frames(
        &better.formal_frame,
        &worse.formal_frame,
        actual_frame,
    ) {
        Some(s) => s,
        None => {
            return false;
        },
    };
    match compare_position(better.result_policy, worse.result_policy, target_result.mode()) {
        PositionPreference::Worse => {
            return false;
        },
        PositionPreference::Better => strictly_better = true,
        PositionPreference::Equal => {},
    }
    strictly_better
}

/// Phase-local stage specificity: the most specific stage of a phase ranks
/// highest.
pub open spec fn stage_rank(phase: Phase, stage: PolicyStage) -> int {
    match (phase, stage) {
        (Phase::OpenStatic, PolicyStage::Meta) => 2,
        (Phase::OpenStatic, PolicyStage::Compile) => 1,
        (Phase::SealStatic, PolicyStage::Seal) => 2,
        (Phase::SealStatic, PolicyStage::Compile) => 1,
        (Phase::Runtime, PolicyStage::Runtime) => 1,
        _ => 0,
    }
}

fn stage_rank_exec(phase: Phase, stage: PolicyStage) -> (r: u8)
    ensures
        r == stage_rank(phase, stage),
{
    match (phase, stage) {
        (Phase::OpenStatic, PolicyStage::Meta) => 2,
        (Phase::OpenStatic, PolicyStage::Compile) => 1,
        (Phase::SealStatic, PolicyStage::Seal) => 2,
        (Phase::SealStatic, PolicyStage::Compile) => 1,
        (Phase::Runtime, PolicyStage::Runtime) => 1,
        _ => 0,
    }
}

fn compare_stage_specificity(left: PolicyStage, right: PolicyStage, phase: Phase) -> (r:
    PositionPreference)
    ensures
        r == rank_preference(stage_rank(phase, left), stage_rank(phase, right)),
{
    let l = stage_rank_exec(phase, left);
    let rr = stage_rank_exec(phase, right);
    if l > rr {
        PositionPreference::Better
    } else if l == rr {
        PositionPreference::Equal
    } else {
        PositionPreference::Worse
    }
}

/// Phase-aware dominance: the frame/result product extended by stage
/// specificity.
pub open spec fn phase_dominates_spec<I>(
    better: PhaseOverloadCandidate<I>,
    worse: PhaseOverloadCandidate<I>,
    actual: PolicyActualFrame,
    target: PolicyMode,
    phase: Phase,
) -> bool {
    match frames_spec(better.candidate.formal_frame, worse.candidate.formal_frame, actual) {
        None => false,
        Some(strict) => {
            let result_pref = position_spec(
                better.candidate.result_policy,
                worse.candidate.result_policy,
                target,
            );
            let stage_pref = rank_preference(
                stage_rank(phase, better.stage),
                stage_rank(phase, worse.stage),
            );
            result_pref != PositionPreference::Worse && stage_pref != PositionPreference::Worse && (
            strict || result_pref == PositionPreference::Better || stage_pref
                == PositionPreference::Better)
        },
    }
}

fn phase_dominates<I>(
    better: &PhaseOverloadCandidate<I>,
    worse: &PhaseOverloadCandidate<I>,
    actual_frame: &PolicyActualFrame,
    target_result: OutputModeDemand,
    phase: Phase,
) -> (r: bool)
    ensures
        r == phase_dominates_spec(*better, *worse, *actual_frame, target_result.0, phase),
{
    let mut strictly_better = match compare_frames(
        &better.candidate.formal_frame,
        &worse.candidate.formal_frame,
        actual_frame,
    ) {
        Some(s) => s,
        None => {
            return false;
        },
    };
    match compare_position(
        better.candidate.result_policy,
        worse.candidate.result_policy,
        target_result.mode(),
    ) {
        PositionPreference::Worse => {
            return false;
        },
        PositionPreference::Better => strictly_better = true,
        PositionPreference::Equal => {},
    }
    match compare_stage_specificity(better.stage, worse.stage, phase) {
        PositionPreference::Worse => {
            return false;
        },
        PositionPreference::Better => strictly_better = true,
        PositionPreference::Equal => {},
    }
    strictly_better
}

// ---------------------------------------------------------------------------
// Maximal-element selection over candidate indices
// ---------------------------------------------------------------------------

/// The members of `s[..n]` satisfying `p`, in order.
pub open spec fn filter_prefix(s: Seq<int>, p: spec_fn(int) -> bool, n: int) -> Seq<int>
    decreases n,
{
    if n <= 0 {
        Seq::empty()
    } else if p(s[n - 1]) {
        filter_prefix(s, p, n - 1).push(s[n - 1])
    } else {
        filter_prefix(s, p, n - 1)
    }
}

/// The indices `0..n` satisfying `p`, in order.
pub open spec fn indices_where(p: spec_fn(int) -> bool, n: int) -> Seq<int>
    decreases n,
{
    if n <= 0 {
        Seq::empty()
    } else if p(n - 1) {
        indices_where(p, n - 1).push(n - 1)
    } else {
        indices_where(p, n - 1)
    }
}

/// The members of `admissible` that no other member dominates.
pub open spec fn maximal_spec(admissible: Seq<int>, dom: spec_fn(int, int) -> bool) -> Seq<int> {
    filter_prefix(
        admissible,
        |i: int| !exists|k: int| 0 <= k < admissible.len() && admissible[k] != i && #[trigger] dom(admissible[k], i),
        admissible.len() as int,
    )
}

/// Whether `dominance[a][b]` holds (out-of-range coordinates do not).
pub open spec fn matrix_at(dominance: Seq<Vec<bool>>, a: int, b: int) -> bool {
    0 <= a < dominance.len() && 0 <= b < dominance[a]@.len() && dominance[a]@[b]
}

/// Retain every non-dominated admissible candidate; there is no
/// declaration-order fallback. `dominance[a][b]` says that candidate `a`
/// dominates candidate `b`.
pub(crate) fn maximal_candidates(admissible: &Vec<usize>, dominance: &Vec<Vec<bool>>) -> (r: Vec<usize>)
    ensures
        r@.map_values(|i: usize| i as int) == maximal_spec(
            admissible@.map_values(|i: usize| i as int),
            |a: int, b: int| matrix_at(dominance@, a, b),
        ),
{
    let ghost adm = admissible@.map_values(|i: usize| i as int);
    let ghost dom = |a: int, b: int| matrix_at(dominance@, a, b);
    let ghost keep = |i: int| !exists|k: int| 0 <= k < adm.len() && adm[k] != i && #[trigger] dom(adm[k], i);
    let mut out: Vec<usize> = Vec::new();
    let mut i: usize = 0;
    while i < admissible.len()
        invariant
            i <= admissible@.len(),
            adm == admissible@.map_values(|i: usize| i as int),
            dom == (|a: int, b: int| matrix_at(dominance@, a, b)),
            keep == (|i: int| !exists|k: int| 0 <= k < adm.len() && adm[k] != i && #[trigger] dom(adm[k], i)),
            out@.map_values(|i: usize| i as int) == filter_prefix(adm, keep, i as int),
        decreases admissible@.len() - i,
    {
        let candidate = admissible[i];
        let mut dominated = false;
        let mut j: usize = 0;
        while j < admissible.len()
            invariant
                j <= admissible@.len(),
                i < admissible@.len(),
                candidate == admissible@[i as int],
                adm == admissible@.map_values(|i: usize| i as int),
                dom == (|a: int, b: int| matrix_at(dominance@, a, b)),
                dominated == exists|k: int| 0 <= k < j && adm[k] != candidate as int && #[trigger] dom(adm[k], candidate as int),
            decreases admissible@.len() - j,
        {
            let other = admissible[j];
            assert(adm[j as int] == other as int);
            if other != candidate {
                let d = other < dominance.len() && candidate < dominance[other].len()
                    && dominance[other][candidate];
                assert(d == dom(other as int, candidate as int));
                if d {
                    dominated = true;
                }
            }
            j = j + 1;
        }
        proof {
            assert(adm[i as int] == candidate as int);
            assert(keep(adm[i as int]) == !dominated);
        }
        if !dominated {
            out.push(candidate);
        }
        i = i + 1;
        proof {
            assert(out@.map_values(|i: usize| i as int) =~= filter_prefix(adm, keep, i as int));
        }
    }
    out
}

/// The ids of the given candidates, in order.
pub open spec fn ids_of<I>(candidates: Seq<PolicyOverloadCandidate<I>>, indices: Seq<int>) -> Seq<I> {
    indices.map_values(|i: int| candidates[i].id)
}

/// `r` is the verdict over `candidates` whose maximal indices are `maximal`:
/// none is no candidate, one is selected (or rejected when it is `delete`),
/// several are ambiguous.
pub open spec fn selection_matches<I>(
    r: PolicyOverloadSelection<I>,
    candidates: Seq<PolicyOverloadCandidate<I>>,
    maximal: Seq<int>,
) -> bool {
    if maximal.len() == 0 {
        r == PolicyOverloadSelection::<I>::NoCandidate
    } else if maximal.len() == 1 {
        if candidates[maximal[0]].is_delete {
            r == PolicyOverloadSelection::RejectedByDelete(candidates[maximal[0]].id)
        } else {
            r == PolicyOverloadSelection::Selected(candidates[maximal[0]].id)
        }
    } else {
        r matches PolicyOverloadSelection::Ambiguous(ids) && ids@ == ids_of(candidates, maximal)
    }
}

/// Indices of candidates whose explicit arity matches the actual frame.
pub open spec fn arity_admissible<I>(candidates: Seq<PolicyOverloadCandidate<I>>, actual: PolicyActualFrame) -> Seq<
    int,
> {
    indices_where(
        |i: int|
            candidates[i].formal_frame.explicit_parameter_modes@.len()
                == actual.explicit_arguments@.len(),
        candidates.len() as int,
    )
}

fn selection_from_maximal<I: Copy>(
    candidates: &[PolicyOverloadCandidate<I>],
    maximal: &Vec<usize>,
) -> (r: PolicyOverloadSelection<I>)
    requires
        forall|k: int| 0 <= k < maximal@.len() ==> #[trigger] maximal@[k] < candidates@.len(),
    ensures
        selection_matches(r, candidates@, maximal@.map_values(|i: usize| i as int)),
{
    let ghost m = maximal@.map_values(|i: usize| i as int);
    if maximal.len() == 0 {
        return PolicyOverloadSelection::NoCandidate;
    }
    if maximal.len() == 1 {
        let c = &candidates[maximal[0]];
        assert(m[0] == maximal@[0] as int);
        if c.is_delete {
            return PolicyOverloadSelection::RejectedByDelete(c.id);
        }
        return PolicyOverloadSelection::Selected(c.id);
    }
    let mut ids: Vec<I> = Vec::new();
    let mut k: usize = 0;
    while k < maximal.len()
        invariant
            k <= maximal@.len(),
            m == maximal@.map_values(|i: usize| i as int),
            forall|q: int| 0 <= q < maximal@.len() ==> #[trigger] maximal@[q] < candidates@.len(),
            ids@ == ids_of(candidates@, m.subrange(0, k as int)),
        decreases maximal@.len() - k,
    {
        ids.push(candidates[maximal[k]].id);
        k = k + 1;
        assert(ids@ =~= ids_of(candidates@, m.subrange(0, k as int)));
    }
    assert(m.subrange(0, maximal@.len() as int) =~= m);
    PolicyOverloadSelection::Ambiguous(ids)
}

pub open spec fn product_dominance<I>(
    candidates: Seq<PolicyOverloadCandidate<I>>,
    actual: PolicyActualFrame,
    target: PolicyMode,
) -> spec_fn(int, int) -> bool {
    |a: int, b: int|
        0 <= a < candidates.len() && 0 <= b < candidates.len() && dominates_spec(
            candidates[a],
            candidates[b],
            actual,
            target,
        )
}

/// Filtering keeps only members of the filtered sequence.
pub proof fn lemma_filter_prefix_members(s: Seq<int>, p: spec_fn(int) -> bool, n: int)
    requires
        0 <= n <= s.len(),
    ensures
        forall|k: int|
            0 <= k < filter_prefix(s, p, n).len() ==> exists|j: int|
                0 <= j < n && #[trigger] filter_prefix(s, p, n)[k] == s[j],
    decreases n,
{
    if n > 0 {
        lemma_filter_prefix_members(s, p, n - 1);
        let f = filter_prefix(s, p, n);
        let g = filter_prefix(s, p, n - 1);
        assert forall|k: int| 0 <= k < f.len() implies exists|j: int| 0 <= j < n && #[trigger] f[k] == s[j] by {
            if k < g.len() {
                assert(f[k] == g[k]);
                let j = choose|j: int| 0 <= j < n - 1 && #[trigger] g[k] == s[j];
                assert(f[k] == s[j]);
            } else {
                assert(f[k] == s[n - 1]);
            }
        }
    }
}

/// Select by the Policy-mode product order: candidates of matching arity are
/// admissible; the non-dominated ones are kept; one survivor is selected (or
/// rejected when it is `delete`), several are ambiguous, none is no candidate.
pub fn select_by_policy_product<I: Copy>(
    candidates: &[PolicyOverloadCandidate<I>],
    actual_frame: &PolicyActualFrame,
    target_result: OutputModeDemand,
) -> (r: PolicyOverloadSelection<I>)
    ensures
        selection_matches(
            r,
            candidates@,
            maximal_spec(
                arity_admissible(candidates@, *actual_frame),
                product_dominance(candidates@, *actual_frame, target_result.0),
            ),
        ),
{
    let ghost p = |i: int|
        candidates@[i].formal_frame.explicit_parameter_modes@.len()
            == actual_frame.explicit_arguments@.len();
    let mut admissible: Vec<usize> = Vec::new();
    let mut i: usize = 0;
    while i < candidates.len()
        invariant
            i <= candidates@.len(),
            p == (|i: int|
                candidates@[i].formal_frame.explicit_parameter_modes@.len()
                    == actual_frame.explicit_arguments@.len()),
            admissible@.map_values(|i: usize| i as int) == indices_where(p, i as int),
            forall|k: int| 0 <= k < admissible@.len() ==> #[trigger] admissible@[k] < i,
        decreases candidates@.len() - i,
    {
        if frame_arity_matches(&candidates[i].formal_frame, actual_frame) {
            admissible.push(i);
        }
        i = i + 1;
        assert(admissible@.map_values(|i: usize| i as int) =~= indices_where(p, i as int));
    }
    let mut dominance: Vec<Vec<bool>> = Vec::new();
    let mut x: usize = 0;
    while x < candidates.len()
        invariant
            x <= candidates@.len(),
            dominance@.len() == x,
            forall|a: int, b: int|
                0 <= a < x && 0 <= b < candidates@.len() ==> #[trigger] matrix_at(dominance@, a, b)
                    == dominates_spec(candidates@[a], candidates@[b], *actual_frame, target_result.0),
            forall|a: int| 0 <= a < x ==> #[trigger] dominance@[a]@.len() == candidates@.len(),
        decreases candidates@.len() - x,
    {
        let mut row: Vec<bool> = Vec::new();
        let mut y: usize = 0;
        while y < candidates.len()
            invariant
                y <= candidates@.len(),
                x < candidates@.len(),
                row@.len() == y,
                forall|b: int|
                    0 <= b < y ==> #[trigger] row@[b] == dominates_spec(
                        candidates@[x as int],
                        candidates@[b],
                        *actual_frame,
                        target_result.0,
                    ),
            decreases candidates@.len() - y,
        {
            row.push(dominates(&candidates[x], &candidates[y], actual_frame, target_result));
            y = y + 1;
        }
        let ghost old_dominance = dominance@;
        dominance.push(row);
        proof {
            assert forall|a: int, b: int|
                0 <= a < x + 1 && 0 <= b < candidates@.len() implies #[trigger] matrix_at(dominance@, a, b)
                    == dominates_spec(candidates@[a], candidates@[b], *actual_frame, target_result.0) by {
                if a < x {
                    assert(dominance@[a] == old_dominance[a]);
                    assert(matrix_at(old_dominance, a, b) == dominates_spec(candidates@[a], candidates@[b], *actual_frame, target_result.0));
                } else {
                    assert(dominance@[a] == row);
                }
            }
        }
        x = x + 1;
    }
    let ghost dom = |a: int, b: int| matrix_at(dominance@, a, b);
    let maximal = maximal_candidates(&admissible, &dominance);
    proof {
        let adm = admissible@.map_values(|i: usize| i as int);
        assert(adm == arity_admissible(candidates@, *actual_frame));
        assert forall|k: int| 0 <= k < adm.len() implies 0 <= #[trigger] adm[k] < candidates@.len() by {
            assert(adm[k] == admissible@[k] as int);
        }
        let pd = product_dominance(candidates@, *actual_frame, target_result.0);
        assert forall|a: int, b: int| #[trigger] dom(a, b) == pd(a, b) by {
            if 0 <= a < candidates@.len() && 0 <= b < candidates@.len() {
            } else if 0 <= a < candidates@.len() {
                assert(dominance@[a]@.len() == candidates@.len());
            }
        }
        assert(dom =~= pd);
        let keep = |i: int| !exists|k: int| 0 <= k < adm.len() && adm[k] != i && #[trigger] dom(adm[k], i);
        lemma_filter_prefix_members(adm, keep, adm.len() as int);
        assert forall|k: int| 0 <= k < maximal@.len() implies #[trigger] maximal@[k] < candidates@.len() by {
            let mm = maximal@.map_values(|i: usize| i as int);
            assert(mm[k] == maximal@[k] as int);
            let j = choose|j: int| 0 <= j < adm.len() && #[trigger] filter_prefix(adm, keep, adm.len() as int)[k] == adm[j];
            assert(adm[j] == admissible@[j] as int);
        }
    }
    selection_from_maximal(candidates, &maximal)
}

/// The inner candidates of phase candidates.
pub open spec fn inner_candidates<I>(candidates: Seq<PhaseOverloadCandidate<I>>) -> Seq<PolicyOverloadCandidate<I>> {
    candidates.map_values(|c: PhaseOverloadCandidate<I>| c.candidate)
}

/// Indices of fully admissible candidates whose stage is visible in the
/// phase and whose explicit arity matches the actual frame.
pub open spec fn phase_admissible<I>(
    candidates: Seq<PhaseOverloadCandidate<I>>,
    actual: PolicyActualFrame,
    phase: Phase,
) -> Seq<int> {
    indices_where(
        |i: int|
            candidates[i].fully_admissible && stage_visible_at(candidates[i].stage, phase)
                && candidates[i].candidate.formal_frame.explicit_parameter_modes@.len()
                == actual.explicit_arguments@.len(),
        candidates.len() as int,
    )
}

pub open spec fn phase_dominance<I>(
    candidates: Seq<PhaseOverloadCandidate<I>>,
    actual: PolicyActualFrame,
    target: PolicyMode,
    phase: Phase,
) -> spec_fn(int, int) -> bool {
    |a: int, b: int|
        0 <= a < candidates.len() && 0 <= b < candidates.len() && phase_dominates_spec(
            candidates[a],
            candidates[b],
            actual,
            target,
            phase,
        )
}

fn phase_selection_from_maximal<I: Copy>(
    candidates: &[PhaseOverloadCandidate<I>],
    maximal: &Vec<usize>,
) -> (r: PolicyOverloadSelection<I>)
    requires
        forall|k: int| 0 <= k < maximal@.len() ==> #[trigger] maximal@[k] < candidates@.len(),
    ensures
        selection_matches(r, inner_candidates(candidates@), maximal@.map_values(|i: usize| i as int)),
{
    let ghost m = maximal@.map_values(|i: usize| i as int);
    let ghost inner = inner_candidates(candidates@);
    if maximal.len() == 0 {
        return PolicyOverloadSelection::NoCandidate;
    }
    if maximal.len() == 1 {
        let c = &candidates[maximal[0]].candidate;
        assert(m[0] == maximal@[0] as int);
        assert(inner[m[0]] == *c);
        if c.is_delete {
            return PolicyOverloadSelection::RejectedByDelete(c.id);
        }
        return PolicyOverloadSelection::Selected(c.id);
    }
    let mut ids: Vec<I> = Vec::new();
    let mut k: usize = 0;
    while k < maximal.len()
        invariant
            k <= maximal@.len(),
            m == maximal@.map_values(|i: usize| i as int),
            inner == inner_candidates(candidates@),
            forall|q: int| 0 <= q < maximal@.len() ==> #[trigger] maximal@[q] < candidates@.len(),
            ids@ == ids_of(inner, m.subrange(0, k as int)),
        decreases maximal@.len() - k,
    {
        assert(inner[maximal@[k as int] as int] == candidates@[maximal@[k as int] as int].candidate);
        ids.push(candidates[maximal[k]].candidate.id);
        k = k + 1;
        assert(ids@ =~= ids_of(inner, m.subrange(0, k as int)));
    }
    assert(m.subrange(0, maximal@.len() as int) =~= m);
    PolicyOverloadSelection::Ambiguous(ids)
}

/// Phase-aware selection: fully admissible candidates with a stage visible in
/// the phase and matching arity compete under the product order extended by
/// phase-local stage specificity.
pub fn select_policy_overload<I: Copy>(
    candidates: &[PhaseOverloadCandidate<I>],
    actual_frame: &PolicyActualFrame,
    target_result: OutputModeDemand,
    phase: Phase,
) -> (r: PolicyOverloadSelection<I>)
    ensures
        selection_matches(
            r,
            inner_candidates(candidates@),
            maximal_spec(
                phase_admissible(candidates@, *actual_frame, phase),
                phase_dominance(candidates@, *actual_frame, target_result.0, phase),
            ),
        ),
{
    let ghost p = |i: int|
        candidates@[i].fully_admissible && stage_visible_at(candidates@[i].stage, phase)
            && candidates@[i].candidate.formal_frame.explicit_parameter_modes@.len()
            == actual_frame.explicit_arguments@.len();
    let mut admissible: Vec<usize> = Vec::new();
    let mut i: usize = 0;
    while i < candidates.len()
        invariant
            i <= candidates@.len(),
            p == (|i: int|
                candidates@[i].fully_admissible && stage_visible_at(candidates@[i].stage, phase)
                    && candidates@[i].candidate.formal_frame.explicit_parameter_modes@.len()
                    == actual_frame.explicit_arguments@.len()),
            admissible@.map_values(|i: usize| i as int) == indices_where(p, i as int),
            forall|k: int| 0 <= k < admissible@.len() ==> #[trigger] admissible@[k] < i,
        decreases candidates@.len() - i,
    {
        let c = &candidates[i];
        if c.fully_admissible && c.stage.visible_at(phase) && frame_arity_matches(
            &c.candidate.formal_frame,
            actual_frame,
        ) {
            admissible.push(i);
        }
        i = i + 1;
        assert(admissible@.map_values(|i: usize| i as int) =~= indices_where(p, i as int));
    }
    let mut dominance: Vec<Vec<bool>> = Vec::new();
    let mut x: usize = 0;
    while x < candidates.len()
        invariant
            x <= candidates@.len(),
            dominance@.len() == x,
            forall|a: int, b: int|
                0 <= a < x && 0 <= b < candidates@.len() ==> #[trigger] matrix_at(dominance@, a, b)
                    == phase_dominates_spec(
                    candidates@[a],
                    candidates@[b],
                    *actual_frame,
                    target_result.0,
                    phase,
                ),
            forall|a: int| 0 <= a < x ==> #[trigger] dominance@[a]@.len() == candidates@.len(),
        decreases candidates@.len() - x,
    {
        let mut row: Vec<bool> = Vec::new();
        let mut y: usize = 0;
        while y < candidates.len()
            invariant
                y <= candidates@.len(),
                x < candidates@.len(),
                row@.len() == y,
                forall|b: int|
                    0 <= b < y ==> #[trigger] row@[b] == phase_dominates_spec(
                        candidates@[x as int],
                        candidates@[b],
                        *actual_frame,
                        target_result.0,
                        phase,
                    ),
            decreases candidates@.len() - y,
        {
            row.push(phase_dominates(&candidates[x], &candidates[y], actual_frame, target_result, phase));
            y = y + 1;
        }
        let ghost old_dominance = dominance@;
        dominance.push(row);
        proof {
            assert forall|a: int, b: int|
                0 <= a < x + 1 && 0 <= b < candidates@.len() implies #[trigger] matrix_at(dominance@, a, b)
                    == phase_dominates_spec(candidates@[a], candidates@[b], *actual_frame, target_result.0, phase) by {
                if a < x {
                    assert(dominance@[a] == old_dominance[a]);
                    assert(matrix_at(old_dominance, a, b) == phase_dominates_spec(candidates@[a], candidates@[b], *actual_frame, target_result.0, phase));
                } else {
                    assert(dominance@[a] == row);
                }
            }
        }
        x = x + 1;
    }
    let ghost dom = |a: int, b: int| matrix_at(dominance@, a, b);
    let maximal = maximal_candidates(&admissible, &dominance);
    proof {
        let adm = admissible@.map_values(|i: usize| i as int);
        assert(adm == phase_admissible(candidates@, *actual_frame, phase));
        let pd = phase_dominance(candidates@, *actual_frame, target_result.0, phase);
        assert forall|a: int, b: int| #[trigger] dom(a, b) == pd(a, b) by {
            if 0 <= a < candidates@.len() && 0 <= b < candidates@.len() {
            } else if 0 <= a < candidates@.len() {
                assert(dominance@[a]@.len() == candidates@.len());
            }
        }
        assert(dom =~= pd);
        let keep = |i: int| !exists|k: int| 0 <= k < adm.len() && adm[k] != i && #[trigger] dom(adm[k], i);
        lemma_filter_prefix_members(adm, keep, adm.len() as int);
        assert forall|k: int| 0 <= k < maximal@.len() implies #[trigger] maximal@[k] < candidates@.len() by {
            let mm = maximal@.map_values(|i: usize| i as int);
            assert(mm[k] == maximal@[k] as int);
            let j = choose|j: int| 0 <= j < adm.len() && #[trigger] filter_prefix(adm, keep, adm.len() as int)[k] == adm[j];
            assert(adm[j] == admissible@[j] as int);
        }
    }
    phase_selection_from_maximal(candidates, &maximal)
}

/// Mode preference is a symmetric relation between a candidate mode and a
/// demand.
pub proof fn lemma_rank_symmetric(a: PolicyMode, b: PolicyMode)
    ensures
        rank_spec(a, b) == rank_spec(b, a),
        rank_spec(a, a) == 2,
{
}

/// Dominance is irreflexive: no candidate dominates itself.
pub proof fn lemma_dominance_irreflexive<I>(
    candidate: PolicyOverloadCandidate<I>,
    actual: PolicyActualFrame,
    target: PolicyMode,
)
    ensures
        !dominates_spec(candidate, candidate, actual, target),
{
    let f = candidate.formal_frame;
    assert forall|k: int| 0 <= k < zip_len(f, f, actual) implies #[trigger] explicit_position_spec(
        f,
        f,
        actual,
        k,
    ) == PositionPreference::Equal by {}
}


/// Some member of `s[..n]` is dominated by no other member of `s[..n]`.
proof fn lemma_prefix_has_maximal(s: Seq<int>, dom: spec_fn(int, int) -> bool, n: int) -> (m: int)
    requires
        0 < n <= s.len(),
        forall|a: int| s.contains(a) ==> !#[trigger] dom(a, a),
        forall|a: int, b: int, c: int|
            s.contains(a) && s.contains(b) && s.contains(c) && #[trigger] dom(a, b) && #[trigger] dom(b, c)
                ==> dom(a, c),
    ensures
        0 <= m < n,
        forall|k: int| 0 <= k < n && s[k] != s[m] ==> !#[trigger] dom(s[k], s[m]),
    decreases n,
{
    if n == 1 {
        0
    } else {
        let m0 = lemma_prefix_has_maximal(s, dom, n - 1);
        let l = n - 1;
        assert(s.contains(s[l]));
        assert(s.contains(s[m0]));
        if s[l] != s[m0] && dom(s[l], s[m0]) {
            assert forall|k: int| 0 <= k < n && s[k] != s[l] implies !#[trigger] dom(s[k], s[l]) by {
                assert(s.contains(s[k]));
                if dom(s[k], s[l]) {
                    assert(dom(s[k], s[m0]));
                    if s[k] == s[m0] {
                        assert(!dom(s[m0], s[m0]));
                    }
                }
            }
            l
        } else {
            m0
        }
    }
}

/// A member satisfying the filter makes the filtered prefix non-empty.
pub proof fn lemma_filter_prefix_nonempty(s: Seq<int>, p: spec_fn(int) -> bool, n: int, m: int)
    requires
        0 <= m < n <= s.len(),
        p(s[m]),
    ensures
        filter_prefix(s, p, n).len() > 0,
    decreases n,
{
    if m < n - 1 && !p(s[n - 1]) {
        lemma_filter_prefix_nonempty(s, p, n - 1, m);
    }
}

/// Under a dominance that is a strict partial order on the candidates
/// (irreflexive and transitive), a non-empty candidate sequence keeps at
/// least one maximal candidate: selection never ends with nothing when
/// something is admissible.
pub proof fn lemma_maxima_nonempty(s: Seq<int>, dom: spec_fn(int, int) -> bool)
    requires
        s.len() > 0,
        forall|a: int| s.contains(a) ==> !#[trigger] dom(a, a),
        forall|a: int, b: int, c: int|
            s.contains(a) && s.contains(b) && s.contains(c) && #[trigger] dom(a, b) && #[trigger] dom(b, c)
                ==> dom(a, c),
    ensures
        maximal_spec(s, dom).len() > 0,
{
    let m = lemma_prefix_has_maximal(s, dom, s.len() as int);
    let keep = |i: int| !exists|k: int| 0 <= k < s.len() && s[k] != i && #[trigger] dom(s[k], i);
    assert(keep(s[m]));
    lemma_filter_prefix_nonempty(s, keep, s.len() as int, m);
}

proof fn lemma_indices_where_holds(p: spec_fn(int) -> bool, n: int)
    ensures
        forall|k: int|
            0 <= k < indices_where(p, n).len() ==> 0 <= #[trigger] indices_where(p, n)[k] < n && p(
                indices_where(p, n)[k],
            ),
    decreases n,
{
    if n > 0 {
        lemma_indices_where_holds(p, n - 1);
        let s = indices_where(p, n);
        let prev = indices_where(p, n - 1);
        assert forall|k: int| 0 <= k < s.len() implies 0 <= #[trigger] s[k] < n && p(s[k]) by {
            if k < prev.len() {
                assert(s[k] == prev[k]);
            }
        }
    }
}

/// Among candidates whose arity matches the call, dominance is transitive.
pub proof fn lemma_dominance_transitive<I>(
    a: PolicyOverloadCandidate<I>,
    b: PolicyOverloadCandidate<I>,
    c: PolicyOverloadCandidate<I>,
    actual: PolicyActualFrame,
    target: PolicyMode,
)
    requires
        a.formal_frame.explicit_parameter_modes@.len() == actual.explicit_arguments@.len(),
        b.formal_frame.explicit_parameter_modes@.len() == actual.explicit_arguments@.len(),
        c.formal_frame.explicit_parameter_modes@.len() == actual.explicit_arguments@.len(),
        dominates_spec(a, b, actual, target),
        dominates_spec(b, c, actual, target),
    ensures
        dominates_spec(a, c, actual, target),
{
    let fa = a.formal_frame;
    let fb = b.formal_frame;
    let fc = c.formal_frame;
    let n = actual.explicit_arguments@.len() as int;
    assert(zip_len(fa, fb, actual) == n);
    assert(zip_len(fb, fc, actual) == n);
    assert(zip_len(fa, fc, actual) == n);
    assert(frames_spec(fa, fb, actual) is Some);
    assert(frames_spec(fb, fc, actual) is Some);
    assert forall|k: int| 0 <= k < n implies #[trigger] explicit_position_spec(fa, fc, actual, k)
        != PositionPreference::Worse by {
        assert(explicit_position_spec(fa, fb, actual, k) != PositionPreference::Worse);
        assert(explicit_position_spec(fb, fc, actual, k) != PositionPreference::Worse);
    }
    if exists|k: int| 0 <= k < n && #[trigger] explicit_position_spec(fa, fb, actual, k) == PositionPreference::Better {
        let k = choose|k: int| 0 <= k < n && #[trigger] explicit_position_spec(fa, fb, actual, k)
            == PositionPreference::Better;
        assert(explicit_position_spec(fb, fc, actual, k) != PositionPreference::Worse);
        assert(explicit_position_spec(fa, fc, actual, k) == PositionPreference::Better);
    }
    if exists|k: int| 0 <= k < n && #[trigger] explicit_position_spec(fb, fc, actual, k) == PositionPreference::Better {
        let k = choose|k: int| 0 <= k < n && #[trigger] explicit_position_spec(fb, fc, actual, k)
            == PositionPreference::Better;
        assert(explicit_position_spec(fa, fb, actual, k) != PositionPreference::Worse);
        assert(explicit_position_spec(fa, fc, actual, k) == PositionPreference::Better);
    }
}

/// Policy-product selection never ends with no maximal candidate when some
/// candidate's arity matches the call.
pub proof fn lemma_product_maxima_nonempty<I>(
    candidates: Seq<PolicyOverloadCandidate<I>>,
    actual: PolicyActualFrame,
    target: PolicyMode,
)
    requires
        arity_admissible(candidates, actual).len() > 0,
    ensures
        maximal_spec(arity_admissible(candidates, actual), product_dominance(candidates, actual, target)).len() > 0,
{
    let pred = |i: int| candidates[i].formal_frame.explicit_parameter_modes@.len() == actual.explicit_arguments@.len();
    let s = arity_admissible(candidates, actual);
    let dom = product_dominance(candidates, actual, target);
    lemma_indices_where_holds(pred, candidates.len() as int);
    assert forall|x: int| s.contains(x) implies !#[trigger] dom(x, x) by {
        lemma_dominance_irreflexive(candidates[x], actual, target);
    }
    assert forall|x: int, y: int, z: int|
        s.contains(x) && s.contains(y) && s.contains(z) && #[trigger] dom(x, y) && #[trigger] dom(y, z) implies dom(x, z) by {
        let kx = choose|k: int| 0 <= k < s.len() && s[k] == x;
        let ky = choose|k: int| 0 <= k < s.len() && s[k] == y;
        let kz = choose|k: int| 0 <= k < s.len() && s[k] == z;
        assert(pred(s[kx]) && pred(s[ky]) && pred(s[kz]));
        lemma_dominance_transitive(candidates[x], candidates[y], candidates[z], actual, target);
    }
    lemma_maxima_nonempty(s, dom);
}

/// Among candidates whose arity matches the call, phase-aware dominance is
/// irreflexive and transitive.
pub proof fn lemma_phase_dominance_strict_order<I>(
    a: PhaseOverloadCandidate<I>,
    b: PhaseOverloadCandidate<I>,
    c: PhaseOverloadCandidate<I>,
    actual: PolicyActualFrame,
    target: PolicyMode,
    phase: Phase,
)
    requires
        a.candidate.formal_frame.explicit_parameter_modes@.len() == actual.explicit_arguments@.len(),
        b.candidate.formal_frame.explicit_parameter_modes@.len() == actual.explicit_arguments@.len(),
        c.candidate.formal_frame.explicit_parameter_modes@.len() == actual.explicit_arguments@.len(),
    ensures
        !phase_dominates_spec(a, a, actual, target, phase),
        phase_dominates_spec(a, b, actual, target, phase) && phase_dominates_spec(b, c, actual, target, phase)
            ==> phase_dominates_spec(a, c, actual, target, phase),
{
    let fa = a.candidate.formal_frame;
    let fb = b.candidate.formal_frame;
    let fc = c.candidate.formal_frame;
    let n = actual.explicit_arguments@.len() as int;
    assert forall|k: int| 0 <= k < zip_len(fa, fa, actual) implies #[trigger] explicit_position_spec(
        fa,
        fa,
        actual,
        k,
    ) == PositionPreference::Equal by {}
    if phase_dominates_spec(a, b, actual, target, phase) && phase_dominates_spec(b, c, actual, target, phase) {
        assert(zip_len(fa, fb, actual) == n);
        assert(zip_len(fb, fc, actual) == n);
        assert(zip_len(fa, fc, actual) == n);
        assert(frames_spec(fa, fb, actual) is Some);
        assert(frames_spec(fb, fc, actual) is Some);
        assert forall|k: int| 0 <= k < n implies #[trigger] explicit_position_spec(fa, fc, actual, k)
            != PositionPreference::Worse by {
            assert(explicit_position_spec(fa, fb, actual, k) != PositionPreference::Worse);
            assert(explicit_position_spec(fb, fc, actual, k) != PositionPreference::Worse);
        }
        if exists|k: int| 0 <= k < n && #[trigger] explicit_position_spec(fa, fb, actual, k)
            == PositionPreference::Better {
            let k = choose|k: int| 0 <= k < n && #[trigger] explicit_position_spec(fa, fb, actual, k)
                == PositionPreference::Better;
            assert(explicit_position_spec(fb, fc, actual, k) != PositionPreference::Worse);
            assert(explicit_position_spec(fa, fc, actual, k) == PositionPreference::Better);
        }
        if exists|k: int| 0 <= k < n && #[trigger] explicit_position_spec(fb, fc, actual, k)
            == PositionPreference::Better {
            let k = choose|k: int| 0 <= k < n && #[trigger] explicit_position_spec(fb, fc, actual, k)
                == PositionPreference::Better;
            assert(explicit_position_spec(fa, fb, actual, k) != PositionPreference::Worse);
            assert(explicit_position_spec(fa, fc, actual, k) == PositionPreference::Better);
        }
    }
}

/// Phase-aware selection never ends with no maximal candidate when some
/// candidate is admissible in the phase.
pub proof fn lemma_phase_maxima_nonempty<I>(
    candidates: Seq<PhaseOverloadCandidate<I>>,
    actual: PolicyActualFrame,
    target: PolicyMode,
    phase: Phase,
)
    requires
        phase_admissible(candidates, actual, phase).len() > 0,
    ensures
        maximal_spec(
            phase_admissible(candidates, actual, phase),
            phase_dominance(candidates, actual, target, phase),
        ).len() > 0,
{
    let pred = |i: int|
        candidates[i].fully_admissible && stage_visible_at(candidates[i].stage, phase)
            && candidates[i].candidate.formal_frame.explicit_parameter_modes@.len()
            == actual.explicit_arguments@.len();
    let s = phase_admissible(candidates, actual, phase);
    let dom = phase_dominance(candidates, actual, target, phase);
    lemma_indices_where_holds(pred, candidates.len() as int);
    assert forall|x: int| s.contains(x) implies !#[trigger] dom(x, x) by {
        let kx = choose|k: int| 0 <= k < s.len() && s[k] == x;
        assert(pred(s[kx]));
        lemma_phase_dominance_strict_order(candidates[x], candidates[x], candidates[x], actual, target, phase);
    }
    assert forall|x: int, y: int, z: int|
        s.contains(x) && s.contains(y) && s.contains(z) && #[trigger] dom(x, y) && #[trigger] dom(y, z) implies dom(x, z) by {
        let kx = choose|k: int| 0 <= k < s.len() && s[k] == x;
        let ky = choose|k: int| 0 <= k < s.len() && s[k] == y;
        let kz = choose|k: int| 0 <= k < s.len() && s[k] == z;
        assert(pred(s[kx]) && pred(s[ky]) && pred(s[kz]));
        lemma_phase_dominance_strict_order(candidates[x], candidates[y], candidates[z], actual, target, phase);
    }
    lemma_maxima_nonempty(s, dom);
}

} // verus!
