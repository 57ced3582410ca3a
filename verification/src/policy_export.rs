//! Export retention, public reachability, the export-retention world and the
//! external overload views of a namespace.
use vstd::prelude::*;

use std::collections::{BTreeMap, BTreeSet};

use vstd::set_lib::{lemma_int_range, lemma_len_subset, set_int_range};
use vstd::std_specs::btree::increasing_seq;
use vstd::std_specs::cmp::OrdSpec;
use vstd::std_specs::iter::IteratorSpec;

use crate::model::{Diagnostic, DiagnosticKind, PolicyContext, Provenance};
use crate::policy_pair::{
    validate_value_component_invariant, value_invariant_spec, CapabilityRealization,
    NamespaceVisibility, PolicyMode, PolicyPair,
};

verus! {

broadcast use vstd::laws_cmp::group_laws_cmp;

/// Namespace facts used to derive the export graph and ordinary path
/// visibility.
#[derive(Clone, Copy, Debug, PartialEq, Eq)]
pub struct NamespaceExportNode<I> {
    pub parent: Option<I>,
    pub visibility: NamespaceVisibility,
}

/// The node recorded for `id`: the first entry with that key.
pub open spec fn node_of(nodes: Seq<(u64, NamespaceExportNode<u64>)>, id: u64) -> Option<
    NamespaceExportNode<u64>,
>
    decreases nodes.len(),
{
    if nodes.len() == 0 {
        None
    } else if nodes[0].0 == id {
        Some(nodes[0].1)
    } else {
        node_of(nodes.drop_first(), id)
    }
}

/// Whether some entry has key `id`.
pub open spec fn has_key(nodes: Seq<(u64, NamespaceExportNode<u64>)>, id: u64) -> bool {
    exists|i: int| 0 <= i < nodes.len() && #[trigger] nodes[i].0 == id
}

/// The parent recorded for `id`, if `id` is a node with a parent.
pub open spec fn parent_of(nodes: Seq<(u64, NamespaceExportNode<u64>)>, id: u64) -> Option<u64> {
    match node_of(nodes, id) {
        Some(node) => node.parent,
        None => None,
    }
}

/// The `k`-th element of the parent chain that starts at `id`.
pub open spec fn ancestor_at(nodes: Seq<(u64, NamespaceExportNode<u64>)>, id: u64, k: nat) -> Option<u64>
    decreases k,
{
    if k == 0 {
        Some(id)
    } else {
        match ancestor_at(nodes, id, (k - 1) as nat) {
            Some(x) => parent_of(nodes, x),
            None => None,
        }
    }
}

/// Whether `to` lies on the parent chain of `from` (`from` included).
pub open spec fn reaches(nodes: Seq<(u64, NamespaceExportNode<u64>)>, from: u64, to: u64) -> bool {
    exists|k: nat| #[trigger] ancestor_at(nodes, from, k) == Some(to)
}

/// Whether `x` is retained by one of the first `n` export roots: it is on a
/// root's parent chain, or it is a node whose parent chain reaches the root.
pub open spec fn retained_by(
    nodes: Seq<(u64, NamespaceExportNode<u64>)>,
    roots: Seq<u64>,
    n: int,
    x: u64,
) -> bool {
    exists|i: int|
        0 <= i < n && (reaches(nodes, #[trigger] roots[i], x) || (has_key(nodes, x) && reaches(
            nodes,
            x,
            roots[i],
        )))
}

/// Whether every component of `path` is a public node.
pub open spec fn publicly_reachable_spec(nodes: Seq<(u64, NamespaceExportNode<u64>)>, path: Seq<u64>) -> bool {
    forall|i: int|
        0 <= i < path.len() ==> ((#[trigger] node_of(nodes, path[i])) matches Some(node) && node.visibility
            == NamespaceVisibility::Public)
}

proof fn lemma_node_of_key(nodes: Seq<(u64, NamespaceExportNode<u64>)>, id: u64)
    ensures
        node_of(nodes, id) is Some <==> has_key(nodes, id),
        node_of(nodes, id) matches Some(node) ==> exists|i: int|
            0 <= i < nodes.len() && #[trigger] nodes[i] == (id, node),
    decreases nodes.len(),
{
    if nodes.len() > 0 && nodes[0].0 != id {
        let rest = nodes.drop_first();
        lemma_node_of_key(rest, id);
        if has_key(nodes, id) {
            let i = choose|i: int| 0 <= i < nodes.len() && #[trigger] nodes[i].0 == id;
            assert(rest[i - 1].0 == id);
        }
        if has_key(rest, id) {
            let i = choose|i: int| 0 <= i < rest.len() && #[trigger] rest[i].0 == id;
            assert(nodes[i + 1].0 == id);
        }
        if node_of(nodes, id) is Some {
            let node = node_of(nodes, id)->0;
            let i = choose|i: int| 0 <= i < rest.len() && #[trigger] rest[i] == (id, node);
            assert(nodes[i + 1] == (id, node));
        }
    } else if nodes.len() > 0 {
        assert(nodes[0] == (id, nodes[0].1));
    }
}

/// Distinct keys of the node list are no more than its entries.
proof fn lemma_distinct_keys_bounded(nodes: Seq<(u64, NamespaceExportNode<u64>)>, s: Seq<u64>)
    requires
        s.no_duplicates(),
        forall|j: int| 0 <= j < s.len() ==> has_key(nodes, #[trigger] s[j]),
    ensures
        s.len() <= nodes.len(),
{
    let f = |x: u64| choose|i: int| 0 <= i < nodes.len() && #[trigger] nodes[i].0 == x;
    let t = s.map_values(f);
    assert forall|a: int, b: int| 0 <= a < t.len() && 0 <= b < t.len() && a != b implies t[a] != t[b] by {
        assert(has_key(nodes, s[a]));
        assert(has_key(nodes, s[b]));
        assert(nodes[t[a]].0 == s[a]);
        assert(nodes[t[b]].0 == s[b]);
    }
    assert(t.no_duplicates());
    t.unique_seq_to_set();
    assert forall|x: int| t.to_set().contains(x) implies set_int_range(0, nodes.len() as int).contains(x) by {
        let a = choose|a: int| 0 <= a < t.len() && t[a] == x;
        assert(has_key(nodes, s[a]));
    }
    lemma_int_range(0, nodes.len() as int);
    lemma_len_subset(t.to_set(), set_int_range(0, nodes.len() as int));
}

/// Once the chain ends, it stays ended.
proof fn lemma_chain_ended(nodes: Seq<(u64, NamespaceExportNode<u64>)>, id: u64, k: nat, m: nat)
    requires
        ancestor_at(nodes, id, k) is None,
        k <= m,
    ensures
        ancestor_at(nodes, id, m) is None,
    decreases m - k,
{
    if k < m {
        lemma_chain_ended(nodes, id, k, (m - 1) as nat);
    }
}

/// When the `k`-th chain element ends the chain or repeats an earlier one,
/// every chain element is among the first `k`.
proof fn lemma_chain_closed(nodes: Seq<(u64, NamespaceExportNode<u64>)>, id: u64, k: nat, m: nat)
    requires
        k > 0,
        ancestor_at(nodes, id, k) is None || exists|j: nat|
            j < k && #[trigger] ancestor_at(nodes, id, j) == ancestor_at(nodes, id, k),
        ancestor_at(nodes, id, m) is Some,
    ensures
        exists|j: nat| j < k && #[trigger] ancestor_at(nodes, id, j) == ancestor_at(nodes, id, m),
    decreases m,
{
    if m >= k {
        let prev = (m - 1) as nat;
        if ancestor_at(nodes, id, prev) is None {
            lemma_chain_ended(nodes, id, prev, m);
        }
        lemma_chain_closed(nodes, id, k, prev);
        let j = choose|j: nat| j < k && #[trigger] ancestor_at(nodes, id, j) == ancestor_at(nodes, id, prev);
        assert(ancestor_at(nodes, id, j + 1) == ancestor_at(nodes, id, m));
        if j + 1 == k {
            if ancestor_at(nodes, id, k) is None {
                assert(false);
            }
            let j2 = choose|j2: nat| j2 < k && #[trigger] ancestor_at(nodes, id, j2) == ancestor_at(nodes, id, k);
            assert(ancestor_at(nodes, id, j2) == ancestor_at(nodes, id, m));
        } else {
            assert(ancestor_at(nodes, id, (j + 1) as nat) == ancestor_at(nodes, id, m));
        }
    } else {
        assert(ancestor_at(nodes, id, m) == ancestor_at(nodes, id, m));
    }
}

fn find_node(nodes: &[(u64, NamespaceExportNode<u64>)], id: u64) -> (r: Option<usize>)
    ensures
        match r {
            Some(i) => i < nodes@.len() && nodes@[i as int].0 == id && node_of(nodes@, id) == Some(
                nodes@[i as int].1,
            ),
            None => node_of(nodes@, id) is None,
        },
{
    let mut i: usize = 0;
    assert(nodes@.subrange(0, nodes@.len() as int) =~= nodes@);
    while i < nodes.len()
        invariant
            i <= nodes@.len(),
            node_of(nodes@, id) == node_of(nodes@.subrange(i as int, nodes@.len() as int), id),
        decreases nodes@.len() - i,
    {
        let ghost rest = nodes@.subrange(i as int, nodes@.len() as int);
        assert(rest[0] == nodes@[i as int]);
        if nodes[i].0 == id {
            return Some(i);
        }
        assert(rest.drop_first() =~= nodes@.subrange(i as int + 1, nodes@.len() as int));
        i = i + 1;
    }
    None
}

fn contains_id(ids: &Vec<u64>, id: u64) -> (r: bool)
    ensures
        r == ids@.contains(id),
{
    let mut i: usize = 0;
    while i < ids.len()
        invariant
            i <= ids@.len(),
            forall|j: int| 0 <= j < i ==> ids@[j] != id,
        decreases ids@.len() - i,
    {
        if ids[i] == id {
            return true;
        }
        i = i + 1;
    }
    false
}

/// The parent chain of `start`, each element once, up to its end or its
/// first repetition.
fn ancestor_walk(nodes: &[(u64, NamespaceExportNode<u64>)], start: u64) -> (r: Vec<u64>)
    ensures
        r@.no_duplicates(),
        forall|x: u64| r@.contains(x) <==> reaches(nodes@, start, x),
{
    let mut visited: Vec<u64> = Vec::new();
    let mut current: u64 = start;
    loop
        invariant_except_break
            visited@.len() <= nodes@.len(),
            forall|j: int| 0 <= j < visited@.len() ==> has_key(nodes@, #[trigger] visited@[j]),
            ancestor_at(nodes@, start, visited@.len() as nat) == Some(current),
        invariant
            visited@.no_duplicates(),
            forall|j: int|
                0 <= j < visited@.len() ==> ancestor_at(nodes@, start, j as nat) == Some(
                    #[trigger] visited@[j],
                ),
        ensures
            visited@.len() > 0,
            ancestor_at(nodes@, start, visited@.len() as nat) is None || exists|j: nat|
                j < visited@.len() && #[trigger] ancestor_at(nodes@, start, j) == ancestor_at(
                    nodes@,
                    start,
                    visited@.len() as nat,
                ),
        decreases nodes@.len() - visited@.len(),
    {
        if contains_id(&visited, current) {
            proof {
                let j = choose|j: int| 0 <= j < visited@.len() && visited@[j] == current;
                assert(ancestor_at(nodes@, start, j as nat) == ancestor_at(
                    nodes@,
                    start,
                    visited@.len() as nat,
                ));
            }
            if visited.len() == 0 {
                proof {
                    assert(false);
                }
            }
            break;
        }
        let ghost k = visited@.len();
        let ghost before = visited@;
        visited.push(current);
        proof {
            assert(visited@ == before.push(current));
            assert(!before.contains(current));
            assert forall|a: int, b: int|
                0 <= a < visited@.len() && 0 <= b < visited@.len() && a != b implies visited@[a]
                != visited@[b] by {
                if a == k as int {
                    assert(visited@[b] == before[b]);
                } else if b == k as int {
                    assert(visited@[a] == before[a]);
                }
            }
        }
        match find_node(nodes, current) {
            None => {
                proof {
                    assert(ancestor_at(nodes@, start, (k + 1) as nat) is None);
                }
                break;
            },
            Some(i) => {
                proof {
                    lemma_node_of_key(nodes@, current);
                }
                match nodes[i].1.parent {
                    None => {
                        proof {
                            assert(ancestor_at(nodes@, start, (k + 1) as nat) is None);
                        }
                        break;
                    },
                    Some(p) => {
                        proof {
                            assert(ancestor_at(nodes@, start, (k + 1) as nat) == Some(p));
                            lemma_distinct_keys_bounded(nodes@, visited@);
                        }
                        current = p;
                    },
                }
            },
        }
    }
    proof {
        let k = visited@.len() as nat;
        assert forall|x: u64| visited@.contains(x) <==> reaches(nodes@, start, x) by {
            if visited@.contains(x) {
                let j = choose|j: int| 0 <= j < visited@.len() && visited@[j] == x;
                assert(ancestor_at(nodes@, start, j as nat) == Some(x));
            }
            if reaches(nodes@, start, x) {
                let m = choose|m: nat| #[trigger] ancestor_at(nodes@, start, m) == Some(x);
                lemma_chain_closed(nodes@, start, k, m);
                let j = choose|j: nat| j < k && #[trigger] ancestor_at(nodes@, start, j) == ancestor_at(
                    nodes@,
                    start,
                    m,
                );
                assert(visited@[j as int] == x);
            }
        }
    }
    visited
}

/// The retention closure over a listing of the nodes.
fn retention_closure_of_listing(
    nodes: &[(u64, NamespaceExportNode<u64>)],
    export_roots: &[u64],
) -> (r: BTreeSet<u64>)
    ensures
        forall|x: u64| r@.contains(x) <==> retained_by(nodes@, export_roots@, export_roots@.len() as int, x),
{
    let mut exported: BTreeSet<u64> = BTreeSet::new();
    let mut ri: usize = 0;
    while ri < export_roots.len()
        invariant
            ri <= export_roots@.len(),
            forall|x: u64| exported@.contains(x) <==> retained_by(nodes@, export_roots@, ri as int, x),
        decreases export_roots@.len() - ri,
    {
        let root = export_roots[ri];
        let ancestors = ancestor_walk(nodes, root);
        let mut a: usize = 0;
        while a < ancestors.len()
            invariant
                a <= ancestors@.len(),
                ri < export_roots@.len(),
                root == export_roots@[ri as int],
                forall|x: u64| ancestors@.contains(x) <==> reaches(nodes@, root, x),
                forall|x: u64|
                    exported@.contains(x) <==> (retained_by(nodes@, export_roots@, ri as int, x) || exists|
                        j: int,
                    | 0 <= j < a && ancestors@[j] == x),
            decreases ancestors@.len() - a,
        {
            exported.insert(ancestors[a]);
            a = a + 1;
        }
        proof {
            assert forall|x: u64| exported@.contains(x) <==> (retained_by(
                nodes@,
                export_roots@,
                ri as int,
                x,
            ) || reaches(nodes@, root, x)) by {
                if ancestors@.contains(x) {
                    let j = choose|j: int| 0 <= j < ancestors@.len() && ancestors@[j] == x;
                    assert(exists|j: int| 0 <= j < a && ancestors@[j] == x);
                }
            }
        }
        let mut d: usize = 0;
        while d < nodes.len()
            invariant
                d <= nodes@.len(),
                ri < export_roots@.len(),
                root == export_roots@[ri as int],
                forall|x: u64| ancestors@.contains(x) <==> reaches(nodes@, root, x),
                forall|x: u64|
                    exported@.contains(x) <==> (retained_by(nodes@, export_roots@, ri as int, x)
                        || reaches(nodes@, root, x) || exists|j: int|
                        0 <= j < d && nodes@[j].0 == x && reaches(nodes@, x, root)),
            decreases nodes@.len() - d,
        {
            let key = nodes[d].0;
            let chain = ancestor_walk(nodes, key);
            if contains_id(&chain, root) {
                exported.insert(key);
            }
            d = d + 1;
        }
        proof {
            assert forall|x: u64| exported@.contains(x) <==> retained_by(
                nodes@,
                export_roots@,
                ri as int + 1,
                x,
            ) by {
                if retained_by(nodes@, export_roots@, ri as int + 1, x) {
                    let i = choose|i: int|
                        0 <= i < ri + 1 && (reaches(nodes@, #[trigger] export_roots@[i], x) || (has_key(
                            nodes@,
                            x,
                        ) && reaches(nodes@, x, export_roots@[i])));
                    if i < ri {
                        assert(retained_by(nodes@, export_roots@, ri as int, x));
                    } else if !reaches(nodes@, root, x) {
                        let j = choose|j: int| 0 <= j < nodes@.len() && #[trigger] nodes@[j].0 == x;
                        assert(nodes@[j].0 == x && reaches(nodes@, x, root));
                    }
                }
                if exported@.contains(x) {
                    if retained_by(nodes@, export_roots@, ri as int, x) {
                        let i = choose|i: int|
                            0 <= i < ri && (reaches(nodes@, #[trigger] export_roots@[i], x) || (has_key(
                                nodes@,
                                x,
                            ) && reaches(nodes@, x, export_roots@[i])));
                        assert(0 <= i < ri + 1);
                    } else if reaches(nodes@, root, x) {
                        assert(reaches(nodes@, export_roots@[ri as int], x));
                    } else {
                        let j = choose|j: int| 0 <= j < d && nodes@[j].0 == x && reaches(nodes@, x, root);
                        assert(has_key(nodes@, x));
                        assert(reaches(nodes@, x, export_roots@[ri as int]));
                    }
                }
            }
        }
        ri = ri + 1;
    }
    exported
}

/// Whether every component of `path` is a public node of a listing.
fn publicly_reachable_in_listing(nodes: &[(u64, NamespaceExportNode<u64>)], path: &[u64]) -> (r: bool)
    ensures
        r == publicly_reachable_spec(nodes@, path@),
{
    let mut i: usize = 0;
    while i < path.len()
        invariant
            i <= path@.len(),
            forall|j: int|
                0 <= j < i ==> ((#[trigger] node_of(nodes@, path@[j])) matches Some(node)
                    && node.visibility == NamespaceVisibility::Public),
        decreases path@.len() - i,
    {
        match find_node(nodes, path[i]) {
            None => {
                return false;
            },
            Some(k) => {
                if nodes[k].1.visibility != NamespaceVisibility::Public {
                    return false;
                }
            },
        }
        i = i + 1;
    }
    true
}

/// A symbol is externally visible when it is retained for export and its
/// path is publicly reachable.
pub fn externally_visible(
    symbol: &u64,
    export_retention_closure: &BTreeSet<u64>,
    nodes: &BTreeMap<u64, NamespaceExportNode<u64>>,
    path: &[u64],
) -> (r: bool)
    ensures
        r == (export_retention_closure@.contains(*symbol) && publicly_reachable_spec(
            node_listing(nodes@),
            path@,
        )),
{
    export_retention_closure.contains(symbol) && publicly_reachable(nodes, path)
}

/// The node `m` holds for `id`.
pub open spec fn map_node(m: Map<u64, NamespaceExportNode<u64>>, id: u64) -> Option<NamespaceExportNode<u64>> {
    if m.dom().contains(id) {
        Some(m[id])
    } else {
        None
    }
}

/// `s` lists exactly the nodes of `m`: looking an id up in `s` finds what
/// `m` holds for it.
pub open spec fn lists_nodes(s: Seq<(u64, NamespaceExportNode<u64>)>, m: Map<u64, NamespaceExportNode<u64>>) -> bool {
    forall|id: u64| #[trigger] node_of(s, id) == map_node(m, id)
}

/// A listing of the nodes of `m`. Every statement made over it depends on
/// node lookups alone, so any listing gives the same answer.
pub open spec fn node_listing(m: Map<u64, NamespaceExportNode<u64>>) -> Seq<(u64, NamespaceExportNode<u64>)> {
    choose|s: Seq<(u64, NamespaceExportNode<u64>)>| lists_nodes(s, m)
}

proof fn lemma_listing_ancestors(
    a: Seq<(u64, NamespaceExportNode<u64>)>,
    b: Seq<(u64, NamespaceExportNode<u64>)>,
    m: Map<u64, NamespaceExportNode<u64>>,
    id: u64,
    k: nat,
)
    requires
        lists_nodes(a, m),
        lists_nodes(b, m),
    ensures
        ancestor_at(a, id, k) == ancestor_at(b, id, k),
    decreases k,
{
    if k > 0 {
        lemma_listing_ancestors(a, b, m, id, (k - 1) as nat);
        match ancestor_at(a, id, (k - 1) as nat) {
            Some(x) => {
                assert(node_of(a, x) == node_of(b, x));
            },
            None => {},
        }
    }
}

/// Two listings of the same nodes retain and reach alike.
proof fn lemma_listings_agree(
    a: Seq<(u64, NamespaceExportNode<u64>)>,
    b: Seq<(u64, NamespaceExportNode<u64>)>,
    m: Map<u64, NamespaceExportNode<u64>>,
)
    requires
        lists_nodes(a, m),
        lists_nodes(b, m),
    ensures
        forall|roots: Seq<u64>, n: int, x: u64| retained_by(a, roots, n, x) == retained_by(b, roots, n, x),
        forall|path: Seq<u64>| publicly_reachable_spec(a, path) == publicly_reachable_spec(b, path),
{
    assert forall|from: u64, to: u64| reaches(a, from, to) == reaches(b, from, to) by {
        if reaches(a, from, to) {
            let k = choose|k: nat| #[trigger] ancestor_at(a, from, k) == Some(to);
            lemma_listing_ancestors(a, b, m, from, k);
        }
        if reaches(b, from, to) {
            let k = choose|k: nat| #[trigger] ancestor_at(b, from, k) == Some(to);
            lemma_listing_ancestors(a, b, m, from, k);
        }
    }
    assert forall|x: u64| has_key(a, x) == has_key(b, x) by {
        lemma_node_of_key(a, x);
        lemma_node_of_key(b, x);
        assert(node_of(a, x) == node_of(b, x));
    }
    assert forall|path: Seq<u64>| publicly_reachable_spec(a, path) == publicly_reachable_spec(b, path) by {
        assert forall|i: int| 0 <= i < path.len() implies node_of(a, path[i]) == node_of(b, path[i]) by {}
    }
}

/// The nodes of `nodes`, each key once with its node.
fn node_pairs(nodes: &BTreeMap<u64, NamespaceExportNode<u64>>) -> (r: Vec<(u64, NamespaceExportNode<u64>)>)
    ensures
        lists_nodes(r@, nodes@),
        lists_nodes(node_listing(nodes@), nodes@),
{
    let mut out: Vec<(u64, NamespaceExportNode<u64>)> = Vec::new();
    let ghost all = nodes.iter().remaining();
    for kv in it: nodes.iter()
        invariant
            it.seq() == all,
            out@.len() == it.index(),
            forall|j: int| 0 <= j < it.index() ==> #[trigger] out@[j] == (*all[j].0, *all[j].1),
    {
        out.push((*kv.0, *kv.1));
    }
    proof {
        let m = nodes@;
        assert forall|id: u64| #[trigger] node_of(out@, id) == map_node(m, id) by {
            lemma_node_of_key(out@, id);
            if m.dom().contains(id) {
                assert(all.contains((&id, &m[id])));
                let i = choose|i: int| 0 <= i < all.len() && all[i] == (&id, &m[id]);
                assert(out@[i].0 == id);
                assert(has_key(out@, id));
                let node = node_of(out@, id)->0;
                let j = choose|j: int| 0 <= j < out@.len() && #[trigger] out@[j] == (id, node);
                assert(m.contains_key(*all[j].0) && m[*all[j].0] == *all[j].1);
            } else if has_key(out@, id) {
                let j = choose|j: int| 0 <= j < out@.len() && #[trigger] out@[j].0 == id;
                assert(m.contains_key(*all[j].0));
            }
        }
        assert(lists_nodes(out@, m));
    }
    out
}

/// Compute `PathAncestors(root) ∪ Subtree(root)` over every export root: a
/// retention closure, not the externally exported symbol set. Descendants
/// cannot opt out; siblings are included only when they are themselves an
/// ancestor or descendant of a root.
pub fn compute_export_retention_closure(
    nodes: &BTreeMap<u64, NamespaceExportNode<u64>>,
    export_roots: &[u64],
) -> (r: BTreeSet<u64>)
    ensures
        forall|x: u64|
            r@.contains(x) <==> retained_by(node_listing(nodes@), export_roots@, export_roots@.len() as int, x),
{
    let listing = node_pairs(nodes);
    let r = retention_closure_of_listing(listing.as_slice(), export_roots);
    proof {
        lemma_listings_agree(listing@, node_listing(nodes@), nodes@);
    }
    r
}

/// Whether every component of `path` is a public node.
pub fn publicly_reachable(nodes: &BTreeMap<u64, NamespaceExportNode<u64>>, path: &[u64]) -> (r: bool)
    ensures
        r == publicly_reachable_spec(node_listing(nodes@), path@),
{
    let listing = node_pairs(nodes);
    let r = publicly_reachable_in_listing(listing.as_slice(), path);
    proof {
        lemma_listings_agree(listing@, node_listing(nodes@), nodes@);
    }
    r
}

// ---------------------------------------------------------------------------
// The export-retention world
// ---------------------------------------------------------------------------

/// The roots of the export-retention world.
#[derive(Clone, Debug, PartialEq, Eq)]
pub struct WpreRoots<T> {
    pub exported_symbols: Vec<T>,
    pub materialized_results_of_exported_meta_functions: Vec<T>,
    pub parameter_dependencies_of_exported_meta_functions: Vec<T>,
}

impl<T> Default for WpreRoots<T> {
    fn default() -> (r: WpreRoots<T>)
        ensures
            r.exported_symbols@ == Seq::<T>::empty(),
            r.materialized_results_of_exported_meta_functions@ == Seq::<T>::empty(),
            r.parameter_dependencies_of_exported_meta_functions@ == Seq::<T>::empty(),
    {
        WpreRoots {
            exported_symbols: Vec::new(),
            materialized_results_of_exported_meta_functions: Vec::new(),
            parameter_dependencies_of_exported_meta_functions: Vec::new(),
        }
    }
}

/// Every root, in order.
pub open spec fn wpre_root_seq(roots: WpreRoots<u64>) -> Seq<u64> {
    roots.exported_symbols@ + roots.materialized_results_of_exported_meta_functions@
        + roots.parameter_dependencies_of_exported_meta_functions@
}

/// The semantic dependencies recorded for `x`: those of the first entry with
/// key `x`, none when there is no such entry.
pub open spec fn deps_of(graph: Seq<(u64, Vec<u64>)>, x: u64) -> Seq<u64>
    decreases graph.len(),
{
    if graph.len() == 0 {
        Seq::empty()
    } else if graph[0].0 == x {
        graph[0].1@
    } else {
        deps_of(graph.drop_first(), x)
    }
}

/// `path` starts at a root and each next element is a semantic dependency
/// of the one before it.
pub open spec fn dependency_path(graph: Seq<(u64, Vec<u64>)>, roots: Seq<u64>, path: Seq<u64>) -> bool {
    &&& path.len() > 0
    &&& roots.contains(path[0])
    &&& forall|i: int| 0 <= i < path.len() - 1 ==> deps_of(graph, #[trigger] path[i]).contains(path[i + 1])
}

/// `x` belongs to the export-retention world: a dependency path from a root
/// ends at it.
pub open spec fn in_wpre(graph: Seq<(u64, Vec<u64>)>, roots: Seq<u64>, x: u64) -> bool {
    exists|path: Seq<u64>| #[trigger] dependency_path(graph, roots, path) && path.last() == x
}

proof fn lemma_root_in_wpre(graph: Seq<(u64, Vec<u64>)>, roots: Seq<u64>, r: u64)
    requires
        roots.contains(r),
    ensures
        in_wpre(graph, roots, r),
{
    let path = seq![r];
    assert(dependency_path(graph, roots, path));
}

proof fn lemma_dependency_in_wpre(graph: Seq<(u64, Vec<u64>)>, roots: Seq<u64>, x: u64, y: u64)
    requires
        in_wpre(graph, roots, x),
        deps_of(graph, x).contains(y),
    ensures
        in_wpre(graph, roots, y),
{
    let path = choose|path: Seq<u64>| #[trigger] dependency_path(graph, roots, path) && path.last() == x;
    let longer = path.push(y);
    assert forall|i: int| 0 <= i < longer.len() - 1 implies deps_of(graph, #[trigger] longer[i]).contains(
        longer[i + 1],
    ) by {
        if i < path.len() - 1 {
            assert(longer[i] == path[i] && longer[i + 1] == path[i + 1]);
        } else {
            assert(longer[i] == x && longer[i + 1] == y);
        }
    }
    assert(dependency_path(graph, roots, longer));
}

/// Every dependency listed in the first `n` entries.
pub open spec fn listed_deps(graph: Seq<(u64, Vec<u64>)>, n: int) -> Set<u64>
    decreases n,
{
    if n <= 0 {
        Set::empty()
    } else {
        listed_deps(graph, n - 1).union(graph[n - 1].1@.to_set())
    }
}

proof fn lemma_listed_deps_finite(graph: Seq<(u64, Vec<u64>)>, n: int)
    ensures
        listed_deps(graph, n).finite(),
    decreases n,
{
    if n > 0 {
        lemma_listed_deps_finite(graph, n - 1);
    }
}

proof fn lemma_listed_deps_contains(graph: Seq<(u64, Vec<u64>)>, n: int, i: int, y: u64)
    requires
        0 <= i < n <= graph.len(),
        graph[i].1@.contains(y),
    ensures
        listed_deps(graph, n).contains(y),
    decreases n,
{
    if i < n - 1 {
        lemma_listed_deps_contains(graph, n - 1, i, y);
    }
}

proof fn lemma_deps_listed(graph: Seq<(u64, Vec<u64>)>, x: u64, y: u64)
    requires
        deps_of(graph, x).contains(y),
    ensures
        listed_deps(graph, graph.len() as int).contains(y),
    decreases graph.len(),
{
    if graph[0].0 == x {
        lemma_listed_deps_contains(graph, graph.len() as int, 0, y);
    } else {
        let rest = graph.drop_first();
        lemma_deps_listed(rest, x, y);
        lemma_listed_deps_shift(graph, rest.len() as int);
    }
}

proof fn lemma_listed_deps_shift(graph: Seq<(u64, Vec<u64>)>, n: int)
    requires
        0 <= n < graph.len(),
    ensures
        listed_deps(graph.drop_first(), n).subset_of(listed_deps(graph, n + 1)),
    decreases n,
{
    if n > 0 {
        lemma_listed_deps_shift(graph, n - 1);
        assert(graph.drop_first()[n - 1] == graph[n]);
    }
}

/// A set holding every root and closed under dependencies holds every
/// element of a dependency path.
proof fn lemma_closed_holds_path(graph: Seq<(u64, Vec<u64>)>, roots: Seq<u64>, s: Set<u64>, path: Seq<u64>)
    requires
        forall|r: u64| roots.contains(r) ==> s.contains(r),
        forall|y: u64, z: u64| s.contains(y) && deps_of(graph, y).contains(z) ==> s.contains(z),
        dependency_path(graph, roots, path),
    ensures
        s.contains(path.last()),
    decreases path.len(),
{
    if path.len() > 1 {
        let prefix = path.drop_last();
        assert forall|i: int| 0 <= i < prefix.len() - 1 implies deps_of(graph, #[trigger] prefix[i]).contains(
            prefix[i + 1],
        ) by {
            assert(prefix[i] == path[i] && prefix[i + 1] == path[i + 1]);
        }
        assert(dependency_path(graph, roots, prefix));
        lemma_closed_holds_path(graph, roots, s, prefix);
        assert(deps_of(graph, path[path.len() - 2]).contains(path[path.len() - 1]));
    }
}

fn find_deps(graph: &[(u64, Vec<u64>)], x: u64) -> (r: Option<usize>)
    ensures
        match r {
            Some(i) => i < graph@.len() && deps_of(graph@, x) == graph@[i as int].1@,
            None => deps_of(graph@, x) == Seq::<u64>::empty(),
        },
{
    let mut i: usize = 0;
    assert(graph@.subrange(0, graph@.len() as int) =~= graph@);
    while i < graph.len()
        invariant
            i <= graph@.len(),
            deps_of(graph@, x) == deps_of(graph@.subrange(i as int, graph@.len() as int), x),
        decreases graph@.len() - i,
    {
        let ghost rest = graph@.subrange(i as int, graph@.len() as int);
        assert(rest[0] == graph@[i as int]);
        if graph[i].0 == x {
            return Some(i);
        }
        assert(rest.drop_first() =~= graph@.subrange(i as int + 1, graph@.len() as int));
        i = i + 1;
    }
    None
}

/// The dependencies `m` records for `x`; none when it records nothing.
pub open spec fn map_deps(m: Map<u64, Vec<u64>>, x: u64) -> Seq<u64> {
    if m.dom().contains(x) {
        m[x]@
    } else {
        Seq::empty()
    }
}

/// `s` lists exactly the dependencies recorded in `m`.
pub open spec fn lists_deps(s: Seq<(u64, Vec<u64>)>, m: Map<u64, Vec<u64>>) -> bool {
    forall|x: u64| #[trigger] deps_of(s, x) == map_deps(m, x)
}

/// A listing of the dependencies recorded in `m`. Every statement made over
/// it depends on dependency lookups alone, so any listing gives the same
/// answer.
pub open spec fn deps_listing(m: Map<u64, Vec<u64>>) -> Seq<(u64, Vec<u64>)> {
    choose|s: Seq<(u64, Vec<u64>)>| lists_deps(s, m)
}

/// Two listings of the same dependencies give the same world.
proof fn lemma_dep_listings_agree(a: Seq<(u64, Vec<u64>)>, b: Seq<(u64, Vec<u64>)>, m: Map<u64, Vec<u64>>)
    requires
        lists_deps(a, m),
        lists_deps(b, m),
    ensures
        forall|roots: Seq<u64>, x: u64| in_wpre(a, roots, x) == in_wpre(b, roots, x),
{
    assert forall|roots: Seq<u64>, path: Seq<u64>| dependency_path(a, roots, path) == dependency_path(b, roots, path) by {
        assert forall|i: int| 0 <= i < path.len() - 1 implies deps_of(a, #[trigger] path[i]) == deps_of(b, path[i]) by {}
    }
    assert forall|roots: Seq<u64>, x: u64| in_wpre(a, roots, x) == in_wpre(b, roots, x) by {
        if in_wpre(a, roots, x) {
            let path = choose|path: Seq<u64>| #[trigger] dependency_path(a, roots, path) && path.last() == x;
            assert(dependency_path(b, roots, path));
        }
        if in_wpre(b, roots, x) {
            let path = choose|path: Seq<u64>| #[trigger] dependency_path(b, roots, path) && path.last() == x;
            assert(dependency_path(a, roots, path));
        }
    }
}

/// The recorded dependencies of `m`, each key once.
fn dependency_pairs(m: &BTreeMap<u64, Vec<u64>>) -> (r: Vec<(u64, Vec<u64>)>)
    ensures
        lists_deps(r@, m@),
        lists_deps(deps_listing(m@), m@),
{
    let mut out: Vec<(u64, Vec<u64>)> = Vec::new();
    let ghost all = m.iter().remaining();
    for kv in it: m.iter()
        invariant
            it.seq() == all,
            out@.len() == it.index(),
            forall|j: int| 0 <= j < it.index() ==> (#[trigger] out@[j]).0 == *all[j].0 && out@[j].1@ == all[j].1@,
    {
        let mut deps: Vec<u64> = Vec::new();
        let mut i: usize = 0;
        while i < kv.1.len()
            invariant
                i <= kv.1@.len(),
                deps@ == kv.1@.subrange(0, i as int),
            decreases kv.1@.len() - i,
        {
            deps.push(kv.1[i]);
            i = i + 1;
            assert(deps@ =~= kv.1@.subrange(0, i as int));
        }
        assert(deps@ =~= kv.1@);
        out.push((*kv.0, deps));
    }
    proof {
        let mm = m@;
        assert forall|x: u64| #[trigger] deps_of(out@, x) == map_deps(mm, x) by {
            lemma_deps_of_listing(out@, x);
            if mm.dom().contains(x) {
                assert(all.contains((&x, &mm[x])));
                let i = choose|i: int| 0 <= i < all.len() && all[i] == (&x, &mm[x]);
                assert(out@[i].0 == x);
                let j = choose|j: int| 0 <= j < out@.len() && out@[j].0 == x && deps_of(out@, x) == out@[j].1@;
                assert(mm.contains_key(*all[j].0) && mm[*all[j].0] == *all[j].1);
            } else if exists|j: int| 0 <= j < out@.len() && (#[trigger] out@[j]).0 == x {
                let j = choose|j: int| 0 <= j < out@.len() && (#[trigger] out@[j]).0 == x;
                assert(mm.contains_key(*all[j].0));
            }
        }
        assert(lists_deps(out@, mm));
    }
    out
}

proof fn lemma_deps_of_listing(s: Seq<(u64, Vec<u64>)>, x: u64)
    ensures
        (exists|j: int| 0 <= j < s.len() && (#[trigger] s[j]).0 == x) ==> exists|j: int|
            0 <= j < s.len() && s[j].0 == x && deps_of(s, x) == s[j].1@,
        !(exists|j: int| 0 <= j < s.len() && (#[trigger] s[j]).0 == x) ==> deps_of(s, x) == Seq::<u64>::empty(),
    decreases s.len(),
{
    if s.len() > 0 {
        let rest = s.drop_first();
        lemma_deps_of_listing(rest, x);
        if s[0].0 != x {
            if exists|j: int| 0 <= j < s.len() && (#[trigger] s[j]).0 == x {
                let j = choose|j: int| 0 <= j < s.len() && (#[trigger] s[j]).0 == x;
                assert(rest[j - 1].0 == x);
                let k = choose|k: int| 0 <= k < rest.len() && rest[k].0 == x && deps_of(rest, x) == rest[k].1@;
                assert(s[k + 1] == rest[k]);
            } else {
                assert forall|j: int| 0 <= j < rest.len() implies (#[trigger] rest[j]).0 != x by {
                    assert(s[j + 1] == rest[j]);
                }
            }
        } else {
            assert(s[0].0 == x);
        }
    }
}

/// The export-retention world: every root and, transitively, every semantic
/// dependency of a member.
pub fn compute_wpre(roots: WpreRoots<u64>, semantic_dependencies: &BTreeMap<u64, Vec<u64>>) -> (r: BTreeSet<u64>)
    ensures
        forall|x: u64| r@.contains(x) <==> in_wpre(deps_listing(semantic_dependencies@), wpre_root_seq(roots), x),
{
    let listing = dependency_pairs(semantic_dependencies);
    let ghost root_seq = wpre_root_seq(roots);
    let r = wpre_of_listing(roots, listing.as_slice());
    proof {
        lemma_dep_listings_agree(listing@, deps_listing(semantic_dependencies@), semantic_dependencies@);
    }
    r
}

/// The export-retention world over a listing of the dependencies.
#[verifier::rlimit(40)]
fn wpre_of_listing(roots: WpreRoots<u64>, semantic_dependencies: &[(u64, Vec<u64>)]) -> (r: BTreeSet<u64>)
    ensures
        forall|x: u64| r@.contains(x) <==> in_wpre(semantic_dependencies@, wpre_root_seq(roots), x),
{
    let ghost graph = semantic_dependencies@;
    let ghost root_seq = wpre_root_seq(roots);
    let ghost universe = root_seq.to_set().union(listed_deps(graph, graph.len() as int));
    proof {
        lemma_listed_deps_finite(graph, graph.len() as int);
    }
    let mut queue: Vec<u64> = Vec::new();
    let mut q: usize = 0;
    while q < roots.exported_symbols.len()
        invariant
            q <= roots.exported_symbols@.len(),
            queue@ == roots.exported_symbols@.subrange(0, q as int),
        decreases roots.exported_symbols@.len() - q,
    {
        queue.push(roots.exported_symbols[q]);
        q = q + 1;
        assert(queue@ =~= roots.exported_symbols@.subrange(0, q as int));
    }
    let ghost first = roots.exported_symbols@;
    assert(queue@ =~= first);
    let mut q: usize = 0;
    while q < roots.materialized_results_of_exported_meta_functions.len()
        invariant
            q <= roots.materialized_results_of_exported_meta_functions@.len(),
            queue@ == first + roots.materialized_results_of_exported_meta_functions@.subrange(0, q as int),
        decreases roots.materialized_results_of_exported_meta_functions@.len() - q,
    {
        queue.push(roots.materialized_results_of_exported_meta_functions[q]);
        q = q + 1;
        assert(queue@ =~= first + roots.materialized_results_of_exported_meta_functions@.subrange(
            0,
            q as int,
        ));
    }
    let ghost second = first + roots.materialized_results_of_exported_meta_functions@;
    assert(queue@ =~= second);
    let mut q: usize = 0;
    while q < roots.parameter_dependencies_of_exported_meta_functions.len()
        invariant
            q <= roots.parameter_dependencies_of_exported_meta_functions@.len(),
            queue@ == second + roots.parameter_dependencies_of_exported_meta_functions@.subrange(
                0,
                q as int,
            ),
        decreases roots.parameter_dependencies_of_exported_meta_functions@.len() - q,
    {
        queue.push(roots.parameter_dependencies_of_exported_meta_functions[q]);
        q = q + 1;
        assert(queue@ =~= second + roots.parameter_dependencies_of_exported_meta_functions@.subrange(
            0,
            q as int,
        ));
    }
    assert(queue@ =~= root_seq);
    let mut closure: BTreeSet<u64> = BTreeSet::new();
    let mut head: usize = 0;
    proof {
        assert forall|i: int| 0 <= i < queue@.len() implies in_wpre(graph, root_seq, #[trigger] queue@[i])
            && universe.contains(queue@[i]) by {
            assert(root_seq.contains(queue@[i]));
            lemma_root_in_wpre(graph, root_seq, queue@[i]);
        }
    }
    while head < queue.len()
        invariant
            graph == semantic_dependencies@,
            root_seq == wpre_root_seq(roots),
            universe == root_seq.to_set().union(listed_deps(graph, graph.len() as int)),
            universe.finite(),
            head <= queue@.len(),
            forall|x: u64| closure@.contains(x) ==> in_wpre(graph, root_seq, x),
            forall|i: int|
                head <= i < queue@.len() ==> in_wpre(graph, root_seq, #[trigger] queue@[i])
                    && universe.contains(queue@[i]),
            forall|r: u64|
                root_seq.contains(r) ==> closure@.contains(r) || exists|i: int|
                    head <= i < queue@.len() && queue@[i] == r,
            forall|y: u64, z: u64|
                closure@.contains(y) && deps_of(graph, y).contains(z) ==> closure@.contains(z) || exists|
                    i: int,
                | head <= i < queue@.len() && queue@[i] == z,
        decreases universe.difference(closure@).len(), queue@.len() - head,
    {
        let ghost old_head = head as int;
        let ghost old_len = queue@.len() as int;
        let ghost old_queue = queue@;
        let symbol = queue[head];
        head = head + 1;
        if closure.contains(&symbol) {
            continue;
        }
        let ghost before = closure@;
        closure.insert(symbol);
        proof {
            assert(universe.contains(symbol));
            assert(universe.difference(closure@) =~= universe.difference(before).remove(symbol));
            vstd::set_lib::lemma_len_difference(universe, before);
            assert(universe.difference(before).contains(symbol));
        }
        match find_deps(semantic_dependencies, symbol) {
            None => {
                assert(deps_of(graph, symbol) =~= Seq::<u64>::empty());
            },
            Some(i) => {
                let ghost start = queue@.len();
                let deps = &semantic_dependencies[i].1;
                let mut j: usize = 0;
                while j < deps.len()
                    invariant
                        graph == semantic_dependencies@,
                        i < graph.len(),
                        deps@ == graph[i as int].1@,
                        deps_of(graph, symbol) == deps@,
                        in_wpre(graph, root_seq, symbol),
                        universe == root_seq.to_set().union(listed_deps(graph, graph.len() as int)),
                        j <= deps@.len(),
                        head <= start,
                        start == old_len,
                        queue@.len() == start + j,
                        forall|t: int| 0 <= t < start ==> queue@[t] == old_queue[t],
                        forall|t: int| 0 <= t < j ==> queue@[start + t] == deps@[t],
                        forall|t: int|
                            head <= t < queue@.len() ==> in_wpre(graph, root_seq, #[trigger] queue@[t])
                                && universe.contains(queue@[t]),
                    decreases deps@.len() - j,
                {
                    let ghost before_queue = queue@;
                    proof {
                        assert(before_queue.len() == start + j);
                        assert(deps_of(graph, symbol).contains(deps@[j as int]));
                        lemma_dependency_in_wpre(graph, root_seq, symbol, deps@[j as int]);
                        lemma_deps_listed(graph, symbol, deps@[j as int]);
                    }
                    queue.push(deps[j]);
                    proof {
                        assert forall|t: int| head <= t < queue@.len() implies in_wpre(
                            graph,
                            root_seq,
                            #[trigger] queue@[t],
                        ) && universe.contains(queue@[t]) by {
                            if t < before_queue.len() {
                                assert(queue@[t] == before_queue[t]);
                            }
                        }
                    }
                    j = j + 1;
                }
                proof {
                    assert forall|z: u64| deps_of(graph, symbol).contains(z) implies exists|t: int|
                        head <= t < queue@.len() && queue@[t] == z by {
                        let t = choose|t: int| 0 <= t < deps@.len() && deps@[t] == z;
                        assert(queue@[start + t] == z);
                    }
                }
            },
        }
        proof {
            assert forall|t: int| 0 <= t < old_len implies queue@[t] == old_queue[t] by {}
            assert forall|r: u64| root_seq.contains(r) implies closure@.contains(r) || exists|i: int|
                head <= i < queue@.len() && queue@[i] == r by {
                if !closure@.contains(r) {
                    assert(!before.contains(r));
                    let i = choose|i: int| old_head <= i < old_len && old_queue[i] == r;
                    assert(i != old_head);
                    assert(queue@[i] == r);
                }
            }
            assert forall|y: u64, z: u64|
                closure@.contains(y) && deps_of(graph, y).contains(z) implies closure@.contains(z) || exists|
                    i: int,
                | head <= i < queue@.len() && queue@[i] == z by {
                if y != symbol && !closure@.contains(z) {
                    assert(before.contains(y));
                    assert(!before.contains(z));
                    let i = choose|i: int| old_head <= i < old_len && old_queue[i] == z;
                    assert(i != old_head);
                    assert(queue@[i] == z);
                }
            }
        }
    }
    proof {
        assert forall|x: u64| closure@.contains(x) <==> in_wpre(graph, root_seq, x) by {
            if in_wpre(graph, root_seq, x) {
                let path = choose|path: Seq<u64>| #[trigger] dependency_path(graph, root_seq, path) && path.last() == x;
                lemma_closed_holds_path(graph, root_seq, closure@, path);
            }
        }
    }
    closure
}

// ---------------------------------------------------------------------------
// Export admission and external overload views
// ---------------------------------------------------------------------------

/// One externally exposed view of an existing internal candidate. Export
/// admission keeps the candidate's identity, mode and capability realization.
#[derive(Clone, Copy, Debug, PartialEq, Eq)]
pub struct ExportCandidateView<I, C> {
    pub identity: I,
    pub internal_candidate: C,
    pub external_policy: PolicyPair,
    pub mode: PolicyMode,
    pub capability_realization: CapabilityRealization,
}

/// A resolved internal candidate view, after its declaration-side projection.
#[derive(Clone, Debug, PartialEq, Eq)]
pub struct ResolvedCandidatePolicy {
    pub pair: PolicyPair,
    pub mode: PolicyMode,
    pub capability_realization: CapabilityRealization,
    pub provenance: Provenance,
}

/// Namespace-level facts required before a symbol contributes export views.
#[derive(Clone, Copy, Debug, PartialEq, Eq, Structural)]
pub struct ExportAdmission {
    pub in_export_retention_closure: bool,
    pub publicly_reachable: bool,
}

impl ExportAdmission {
    /// Retained for export and publicly reachable.
    pub fn is_externally_exposed(self) -> (r: bool)
        ensures
            r == (self.in_export_retention_closure && self.publicly_reachable),
    {
        self.in_export_retention_closure && self.publicly_reachable
    }
}

/// The complete namespace overload sets, by name, and their externally
/// exposed candidate views.
#[derive(Clone, Debug, PartialEq, Eq)]
pub struct NamespaceOverloadSets<I, C> {
    pub full: BTreeMap<u64, Vec<C>>,
    pub exported: BTreeMap<u64, Vec<ExportCandidateView<I, C>>>,
}

impl<I, C> Default for NamespaceOverloadSets<I, C> {
    fn default() -> (r: NamespaceOverloadSets<I, C>)
        ensures
            r.full@ == Map::<u64, Vec<C>>::empty(),
            r.exported@ == Map::<u64, Vec<ExportCandidateView<I, C>>>::empty(),
    {
        NamespaceOverloadSets { full: BTreeMap::new(), exported: BTreeMap::new() }
    }
}

#[derive(Clone, Copy, Debug, PartialEq, Eq, Structural)]
pub enum NamespaceResolveAuthority {
    Internal,
    External,
}

#[derive(Clone, Copy, Debug, PartialEq, Eq)]
pub enum NamespaceCandidateSetRef<'a, I, C> {
    Internal(&'a [C]),
    External(&'a [ExportCandidateView<I, C>]),
}

impl<I, C> NamespaceOverloadSets<I, C> {
    /// The candidate set of `name` under the given authority: the complete
    /// set for internal resolution, the export views for external one.
    pub fn resolve(&self, name: &u64, authority: NamespaceResolveAuthority) -> (r: Option<
        NamespaceCandidateSetRef<'_, I, C>,
    >)
        ensures
            match authority {
                NamespaceResolveAuthority::Internal => if self.full@.contains_key(*name) {
                    r matches Some(NamespaceCandidateSetRef::Internal(c)) && c@ == self.full@[*name]@
                } else {
                    r is None
                },
                NamespaceResolveAuthority::External => if self.exported@.contains_key(*name) {
                    r matches Some(NamespaceCandidateSetRef::External(c)) && c@ == self.exported@[*name]@
                } else {
                    r is None
                },
            },
    {
        match authority {
            NamespaceResolveAuthority::Internal => match self.resolve_internal(name) {
                Some(c) => Some(NamespaceCandidateSetRef::Internal(c)),
                None => None,
            },
            NamespaceResolveAuthority::External => match self.resolve_external(name) {
                Some(c) => Some(NamespaceCandidateSetRef::External(c)),
                None => None,
            },
        }
    }

    /// The complete candidate set of `name`.
    pub fn resolve_internal(&self, name: &u64) -> (r: Option<&[C]>)
        ensures
            if self.full@.contains_key(*name) {
                r matches Some(c) && c@ == self.full@[*name]@
            } else {
                r is None
            },
    {
        match self.full.get(name) {
            Some(v) => Some(v.as_slice()),
            None => None,
        }
    }

    /// The export views of `name`.
    pub fn resolve_external(&self, name: &u64) -> (r: Option<&[ExportCandidateView<I, C>]>)
        ensures
            if self.exported@.contains_key(*name) {
                r matches Some(c) && c@ == self.exported@[*name]@
            } else {
                r is None
            },
    {
        match self.exported.get(name) {
            Some(v) => Some(v.as_slice()),
            None => None,
        }
    }
}

/// The externally readable pair of a resolved internal candidate view: the
/// pair itself, once its value component passes the Policy invariant.
pub open spec fn export_view_spec(internal_policy: ResolvedCandidatePolicy) -> Result<PolicyPair, DiagnosticKind> {
    match value_invariant_spec(internal_policy.pair.value, PolicyContext::ResolvedExportCandidate) {
        Err(kind) => Err(kind),
        Ok(_) => Ok(internal_policy.pair),
    }
}

/// Derive the externally readable pair from a resolved internal candidate
/// view. Every component is kept exactly.
pub fn project_resolved_export_view(internal_policy: &ResolvedCandidatePolicy) -> (r: Result<
    PolicyPair,
    Diagnostic,
>)
    ensures
        match export_view_spec(*internal_policy) {
            Ok(pair) => r == Ok::<PolicyPair, Diagnostic>(pair),
            Err(kind) => r == Err::<PolicyPair, Diagnostic>(
                Diagnostic { kind, provenance: Some(internal_policy.provenance) },
            ),
        },
{
    let projected = internal_policy.pair;
    match validate_value_component_invariant(
        &projected.value,
        PolicyContext::ResolvedExportCandidate,
        &internal_policy.provenance,
    ) {
        Err(d) => Err(d),
        Ok(_) => Ok(projected),
    }
}

/// The export view of one candidate.
pub open spec fn export_candidate_spec<I, C>(candidate: C, resolved: (I, ResolvedCandidatePolicy)) -> ExportCandidateView<
    I,
    C,
> {
    ExportCandidateView {
        identity: resolved.0,
        internal_candidate: candidate,
        external_policy: resolved.1.pair,
        mode: resolved.1.mode,
        capability_realization: resolved.1.capability_realization,
    }
}

/// Whether `name` is retained for export and publicly reachable.
pub open spec fn exposed(admission: Map<u64, ExportAdmission>, name: u64) -> bool {
    admission[name].in_export_retention_closure && admission[name].publicly_reachable
}

/// Whether candidate `j` of `name` is exposed and its view is refused.
pub open spec fn export_refused<I, C>(
    full: Map<u64, Vec<C>>,
    admission: Map<u64, ExportAdmission>,
    resolved: Map<u64, Vec<(I, ResolvedCandidatePolicy)>>,
    name: u64,
    j: int,
) -> bool {
    &&& full.contains_key(name)
    &&& 0 <= j < full[name]@.len()
    &&& exposed(admission, name)
    &&& export_view_spec(resolved[name]@[j].1) is Err
}

/// The export views of `name`: one per candidate, in order.
pub open spec fn export_views_of<I, C>(
    full: Map<u64, Vec<C>>,
    resolved: Map<u64, Vec<(I, ResolvedCandidatePolicy)>>,
    name: u64,
) -> Seq<ExportCandidateView<I, C>> {
    Seq::new(full[name]@.len(), |j: int| export_candidate_spec(full[name]@[j], resolved[name]@[j]))
}

/// Whether `name` contributes export views: exposed, with candidates.
pub open spec fn contributes_export<C>(full: Map<u64, Vec<C>>, admission: Map<u64, ExportAdmission>, name: u64) -> bool {
    full.contains_key(name) && exposed(admission, name) && full[name]@.len() > 0
}

/// `exported` holds exactly the export views of the contributing names.
pub open spec fn exports_match<I, C>(
    exported: Map<u64, Vec<ExportCandidateView<I, C>>>,
    full: Map<u64, Vec<C>>,
    admission: Map<u64, ExportAdmission>,
    resolved: Map<u64, Vec<(I, ResolvedCandidatePolicy)>>,
) -> bool {
    forall|name: u64|
        #[trigger] exported.contains_key(name) == contributes_export(full, admission, name) && (
        exported.contains_key(name) ==> exported[name]@ == export_views_of(full, resolved, name))
}

/// No refusal comes before the one at candidate `j` of the `idx`-th name,
/// in name order and then candidate order, when none came before it in a
/// sorted listing of every name.
proof fn lemma_first_refusal<I, C>(
    fm: Map<u64, Vec<C>>,
    am: Map<u64, ExportAdmission>,
    rm: Map<u64, Vec<(I, ResolvedCandidatePolicy)>>,
    keys: Seq<u64>,
    idx: int,
    j: int,
)
    requires
        0 <= idx < keys.len(),
        increasing_seq(keys),
        forall|name: u64| fm.contains_key(name) ==> exists|k: int| 0 <= k < keys.len() && #[trigger] keys[k] == name,
        forall|k: int, j2: int| 0 <= k < idx ==> !#[trigger] export_refused(fm, am, rm, keys[k], j2),
        forall|j2: int| j2 < j ==> !#[trigger] export_refused(fm, am, rm, keys[idx], j2),
    ensures
        forall|name2: u64, j2: int|
            (name2 < keys[idx] || (name2 == keys[idx] && j2 < j)) ==> !#[trigger] export_refused(
                fm,
                am,
                rm,
                name2,
                j2,
            ),
{
    broadcast use vstd::std_specs::btree::axiom_increasing_seq_meaning;

    assert forall|name2: u64, j2: int|
        (name2 < keys[idx] || (name2 == keys[idx] && j2 < j)) implies !#[trigger] export_refused(
            fm,
            am,
            rm,
            name2,
            j2,
        ) by {
        if export_refused(fm, am, rm, name2, j2) && name2 < keys[idx] {
            let k = choose|k: int| 0 <= k < keys.len() && #[trigger] keys[k] == name2;
            if k > idx {
                assert(vstd::laws_cmp::obeys_cmp::<u64>());
                assert(keys[idx].cmp_spec(&keys[k]) is Less);
                assert(keys[idx] < keys[k]);
            }
            assert(k != idx);
            assert(!export_refused(fm, am, rm, keys[k], j2));
        }
    }
}

/// Project external overload views from the complete namespace sets. Only
/// externally exposed names contribute; each candidate's resolved view is
/// validated and kept exactly. The first refused view, by name and then by
/// candidate order, is reported.
pub fn project_export_overload_sets<I: Copy, C: Copy>(
    full: BTreeMap<u64, Vec<C>>,
    external_admission: &BTreeMap<u64, ExportAdmission>,
    resolved_candidates: &BTreeMap<u64, Vec<(I, ResolvedCandidatePolicy)>>,
) -> (r: Result<NamespaceOverloadSets<I, C>, Diagnostic>)
    requires
        forall|name: u64| #[trigger] full@.contains_key(name) ==> external_admission@.contains_key(name)
            && resolved_candidates@.contains_key(name) && resolved_candidates@[name]@.len() == full@[name]@.len(),
    ensures
        match r {
            Ok(sets) => (forall|name: u64, j: int|
                !#[trigger] export_refused(full@, external_admission@, resolved_candidates@, name, j))
                && sets.full@ == full@ && exports_match(
                sets.exported@,
                full@,
                external_admission@,
                resolved_candidates@,
            ),
            Err(d) => exists|name: u64, j: int|
                #[trigger] export_refused(full@, external_admission@, resolved_candidates@, name, j) && d == (
                Diagnostic {
                    kind: export_view_spec(resolved_candidates@[name]@[j].1)->Err_0,
                    provenance: Some(resolved_candidates@[name]@[j].1.provenance),
                }) && forall|name2: u64, j2: int|
                    (name2 < name || (name2 == name && j2 < j)) ==> !#[trigger] export_refused(
                        full@,
                        external_admission@,
                        resolved_candidates@,
                        name2,
                        j2,
                    ),
        },
{
    let ghost fm = full@;
    let ghost am = external_admission@;
    let ghost rm = resolved_candidates@;
    let mut exported: BTreeMap<u64, Vec<ExportCandidateView<I, C>>> = BTreeMap::new();
    let ghost all = full.iter().remaining();
    let ghost keys = all.map_values(|kv: (&u64, &Vec<C>)| *kv.0);
    proof {
        assert forall|name: u64| fm.contains_key(name) implies exists|k: int|
            0 <= k < keys.len() && #[trigger] keys[k] == name by {
            assert(all.contains((&name, &fm[name])));
            let k = choose|k: int| 0 <= k < all.len() && all[k] == (&name, &fm[name]);
            assert(keys[k] == name);
        }
    }
    for entry in it: full.iter()
        invariant
            it.seq() == all,
            keys == all.map_values(|kv: (&u64, &Vec<C>)| *kv.0),
            increasing_seq(keys),
            forall|name: u64| fm.contains_key(name) ==> exists|k: int| 0 <= k < keys.len() && #[trigger] keys[k] == name,
            forall|k: int| 0 <= k < all.len() ==> fm.contains_key(#[trigger] keys[k]) && fm[keys[k]] == *all[k].1,
            fm == full@,
            am == external_admission@,
            rm == resolved_candidates@,
            forall|name: u64| #[trigger] fm.contains_key(name) ==> am.contains_key(name) && rm.contains_key(name)
                && rm[name]@.len() == fm[name]@.len(),
            forall|k: int, j: int| 0 <= k < it.index() ==> !#[trigger] export_refused(fm, am, rm, keys[k], j),
            forall|name: u64|
                #[trigger] exported@.contains_key(name) == (exists|k: int|
                    0 <= k < it.index() && #[trigger] keys[k] == name && contributes_export(fm, am, name)),
            forall|name: u64|
                #[trigger] exported@.contains_key(name) ==> exported@[name]@ == export_views_of(fm, rm, name),
    {
        let (name, candidates) = entry;
        let ghost idx = it.index() as int;
        assert(all[idx] == entry);
        assert(keys[idx] == *name);
        let admission = match external_admission.get(name) {
            Some(a) => *a,
            None => {
                proof {
                    assert(false);
                }
                ExportAdmission { in_export_retention_closure: false, publicly_reachable: false }
            },
        };
        let ghost before = exported@;
        if admission.is_externally_exposed() {
            let row = match resolved_candidates.get(name) {
                Some(r) => r,
                None => {
                    proof {
                        assert(false);
                    }
                    return Ok(NamespaceOverloadSets { full: BTreeMap::new(), exported: BTreeMap::new() });
                },
            };
            let mut projected: Vec<ExportCandidateView<I, C>> = Vec::new();
            let mut j: usize = 0;
            while j < candidates.len()
                invariant
                    fm == full@,
                    am == external_admission@,
                    rm == resolved_candidates@,
                    0 <= idx < keys.len(),
                    keys[idx] == *name,
                    increasing_seq(keys),
                    forall|name: u64| fm.contains_key(name) ==> exists|k: int| 0 <= k < keys.len() && #[trigger] keys[k] == name,
                    forall|k: int, j: int| 0 <= k < idx ==> !#[trigger] export_refused(fm, am, rm, keys[k], j),
                    fm.contains_key(*name),
                    fm[*name] == *candidates,
                    rm[*name] == *row,
                    row@.len() == candidates@.len(),
                    exposed(am, *name),
                    j <= candidates@.len(),
                    forall|j2: int| j2 < j ==> !#[trigger] export_refused(fm, am, rm, *name, j2),
                    projected@ =~= Seq::new(j as nat, |k: int| export_candidate_spec(candidates@[k], row@[k])),
                decreases candidates@.len() - j,
            {
                let (identity, internal_policy) = &row[j];
                match project_resolved_export_view(internal_policy) {
                    Err(d) => {
                        proof {
                            assert(rm[*name]@[j as int].1 == *internal_policy);
                            assert(export_refused(fm, am, rm, *name, j as int));
                            lemma_first_refusal(fm, am, rm, keys, idx, j as int);
                            assert(d == Diagnostic {
                                kind: export_view_spec(rm[*name]@[j as int].1)->Err_0,
                                provenance: Some(rm[*name]@[j as int].1.provenance),
                            });
                        }
                        return Err(d);
                    },
                    Ok(external_policy) => {
                        projected.push(
                            ExportCandidateView {
                                identity: *identity,
                                internal_candidate: candidates[j],
                                external_policy,
                                mode: internal_policy.mode,
                                capability_realization: internal_policy.capability_realization,
                            },
                        );
                    },
                }
                j = j + 1;
            }
            if projected.len() > 0 {
                exported.insert(*name, projected);
                proof {
                    assert(projected@ =~= export_views_of(fm, rm, *name));
                }
            }
        }
        proof {
            assert forall|k: int, j2: int| 0 <= k < idx + 1 implies !#[trigger] export_refused(fm, am, rm, keys[k], j2) by {
                if k == idx && export_refused(fm, am, rm, keys[k], j2) {
                    assert(0 <= j2 < candidates@.len());
                }
            }
            assert forall|n: u64|
                #[trigger] exported@.contains_key(n) == (exists|k: int|
                    0 <= k < idx + 1 && #[trigger] keys[k] == n && contributes_export(fm, am, n)) by {
                if n == *name {
                    if contributes_export(fm, am, n) {
                        assert(0 <= idx < idx + 1 && keys[idx] == n);
                    }
                } else {
                    assert(exported@.contains_key(n) == before.contains_key(n));
                    if exists|k: int| 0 <= k < idx + 1 && #[trigger] keys[k] == n && contributes_export(fm, am, n) {
                        let k = choose|k: int| 0 <= k < idx + 1 && #[trigger] keys[k] == n && contributes_export(fm, am, n);
                        assert(k != idx);
                    }
                }
            }
        }
    }
    proof {
        assert forall|n: u64, j: int| !#[trigger] export_refused(fm, am, rm, n, j) by {
            if fm.contains_key(n) {
                let k = choose|k: int| 0 <= k < keys.len() && #[trigger] keys[k] == n;
                assert(!export_refused(fm, am, rm, keys[k], j));
            }
        }
        assert forall|n: u64| #[trigger] exported@.contains_key(n) == contributes_export(fm, am, n) by {
            if contributes_export(fm, am, n) {
                let k = choose|k: int| 0 <= k < keys.len() && #[trigger] keys[k] == n;
                assert(0 <= k < all.len() && keys[k] == n && contributes_export(fm, am, n));
            }
        }
    }
    Ok(NamespaceOverloadSets { full, exported })
}

} // verus!
