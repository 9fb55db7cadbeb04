use vstd::prelude::*;

use crate::actions::ReferentialAction;
use crate::entity::InternalDataModel;

verus! {

// ---------------------------------------------------------------------------
// Counting helpers over boolean sequences, used as termination measures.
// ---------------------------------------------------------------------------

pub open spec fn spec_count_true(s: Seq<bool>) -> nat
    decreases s.len(),
{
    if s.len() == 0 {
        0
    } else {
        spec_count_true(s.drop_last()) + (if s.last() {
            1nat
        } else {
            0nat
        })
    }
}

pub proof fn lemma_count_true_le(s: Seq<bool>)
    ensures
        spec_count_true(s) <= s.len(),
    decreases s.len(),
{
    if s.len() > 0 {
        lemma_count_true_le(s.drop_last());
    }
}

pub proof fn lemma_count_true_all(s: Seq<bool>, b: bool)
    requires
        forall|i: int| 0 <= i < s.len() ==> s[i] == b,
    ensures
        spec_count_true(s) == if b {
            s.len()
        } else {
            0nat
        },
    decreases s.len(),
{
    if s.len() > 0 {
        lemma_count_true_all(s.drop_last(), b);
    }
}

pub proof fn lemma_count_true_update(s: Seq<bool>, i: int, b: bool)
    requires
        0 <= i < s.len(),
    ensures
        spec_count_true(s.update(i, b)) == spec_count_true(s) - (if s[i] {
            1int
        } else {
            0int
        }) + (if b {
            1int
        } else {
            0int
        }),
    decreases s.len(),
{
    let t = s.update(i, b);
    if i == s.len() - 1 {
        assert(t.drop_last() =~= s.drop_last());
    } else {
        assert(t.drop_last() =~= s.drop_last().update(i, b));
        lemma_count_true_update(s.drop_last(), i, b);
    }
}

/// Build a vector of `n` copies of `b`.
pub(crate) fn make_bools(n: usize, b: bool) -> (v: Vec<bool>)
    ensures
        v@.len() == n,
        forall|i: int| 0 <= i < n ==> v@[i] == b,
{
    let mut v: Vec<bool> = Vec::new();
    let mut i: usize = 0;
    while i < n
        invariant
            i <= n,
            v@.len() == i,
            forall|q: int| 0 <= q < i ==> v@[q] == b,
        decreases n - i,
    {
        v.push(b);
        i += 1;
    }
    v
}

// ---------------------------------------------------------------------------
// The cascade subgraph and its cycles.
// ---------------------------------------------------------------------------

/// There is a directed edge from model `a` to model `b` in the given
/// edge list.
pub open spec fn spec_edge(edges: Seq<(usize, usize)>, a: int, b: int) -> bool {
    exists|e: int| 0 <= e < edges.len() && (#[trigger] edges[e]).0 == a && edges[e].1 == b
}

/// `path` is a closed walk: consecutive nodes are joined by edges, and
/// an edge leads from the last node back to the first.
pub open spec fn spec_is_cycle(edges: Seq<(usize, usize)>, path: Seq<usize>) -> bool {
    &&& path.len() >= 1
    &&& forall|i: int|
        0 <= i < path.len() - 1 ==> spec_edge(edges, #[trigger] path[i] as int, path[i + 1] as int)
    &&& spec_edge(edges, path[path.len() - 1] as int, path[0] as int)
}

/// The edge list contains a directed cycle.
pub open spec fn spec_has_cycle(edges: Seq<(usize, usize)>) -> bool {
    exists|p: Seq<usize>| spec_is_cycle(edges, p)
}

/// Node `v` has an in-neighbor that is still alive.
pub open spec fn spec_has_alive_in(edges: Seq<(usize, usize)>, alive: Seq<bool>, v: int) -> bool {
    exists|e: int|
        0 <= e < edges.len() && (#[trigger] edges[e]).1 == v && alive[edges[e].0 as int]
}

/// Node `v` may be eliminated: it is alive and no alive node points at it.
pub open spec fn spec_removable(edges: Seq<(usize, usize)>, alive: Seq<bool>, v: int) -> bool {
    alive[v] && !spec_has_alive_in(edges, alive, v)
}

/// Every node on a cycle is a target of some edge, so it is within range.
proof fn lemma_cycle_node_in_range(edges: Seq<(usize, usize)>, n: int, p: Seq<usize>, i: int)
    requires
        spec_is_cycle(edges, p),
        0 <= i < p.len(),
        forall|e: int|
            0 <= e < edges.len() ==> (#[trigger] edges[e]).0 < n && edges[e].1 < n,
    ensures
        (p[i] as int) < n,
{
    if i == 0 {
        let a = p[p.len() - 1] as int;
        let b = p[0] as int;
        assert(spec_edge(edges, a, b));
        let e = choose|e: int|
            0 <= e < edges.len() && (#[trigger] edges[e]).1 == b && edges[e].0 == a;
        assert(edges[e].1 < n);
    } else {
        assert(spec_edge(edges, p[i - 1] as int, p[i] as int));
        let a = p[i - 1] as int;
        let b = p[i] as int;
        let e = choose|e: int|
            0 <= e < edges.len() && (#[trigger] edges[e]).1 == b && edges[e].0 == a;
        assert(edges[e].1 < n);
    }
}

/// Scan the edge list for an alive in-neighbor of `v`.
fn find_alive_in(edges: &Vec<(usize, usize)>, alive: &Vec<bool>, v: usize) -> (r: Option<usize>)
    requires
        forall|e: int|
            0 <= e < edges@.len() ==> (#[trigger] edges@[e]).0 < alive@.len() && edges@[e].1
                < alive@.len(),
    ensures
        match r {
            Some(u) => u < alive@.len() && alive@[u as int] && spec_edge(
                edges@,
                u as int,
                v as int,
            ),
            None => !spec_has_alive_in(edges@, alive@, v as int),
        },
{
    let mut e: usize = 0;
    while e < edges.len()
        invariant
            e <= edges@.len(),
            forall|e2: int|
                0 <= e2 < edges@.len() ==> (#[trigger] edges@[e2]).0 < alive@.len()
                    && edges@[e2].1 < alive@.len(),
            forall|q: int|
                0 <= q < e ==> !((#[trigger] edges@[q]).1 == v && alive@[edges@[q].0 as int]),
        decreases edges@.len() - e,
    {
        let (a, b) = edges[e];
        if b == v && alive[a] {
            proof {
                assert(spec_edge(edges@, a as int, v as int)) by {
                    assert(0 <= e < edges@.len() && (edges@[e as int]).0 == a as int
                        && edges@[e as int].1 == v as int);
                }
            }
            return Some(a);
        }
        e += 1;
    }
    None
}

/// Scan for a node that may be eliminated; `alive.len()` when none exists.
fn find_removable(edges: &Vec<(usize, usize)>, alive: &Vec<bool>) -> (r: usize)
    requires
        forall|e: int|
            0 <= e < edges@.len() ==> (#[trigger] edges@[e]).0 < alive@.len() && edges@[e].1
                < alive@.len(),
    ensures
        r <= alive@.len(),
        r < alive@.len() ==> spec_removable(edges@, alive@, r as int),
        r == alive@.len() ==> forall|u: int|
            0 <= u < alive@.len() ==> !spec_removable(edges@, alive@, u),
    decreases alive@.len(),
{
    let n = alive.len();
    let mut v: usize = 0;
    while v < n
        invariant
            v <= n,
            n == alive@.len(),
            forall|e: int|
                0 <= e < edges@.len() ==> (#[trigger] edges@[e]).0 < alive@.len()
                    && edges@[e].1 < alive@.len(),
            forall|u: int| 0 <= u < v ==> !spec_removable(edges@, alive@, u),
        decreases n - v,
    {
        if alive[v] {
            match find_alive_in(edges, alive, v) {
                None => {
                    return v;
                },
                Some(_) => {},
            }
        }
        v += 1;
    }
    n
}

/// Decide whether the cascade subgraph given by `edges` over `n` models
/// contains a cycle. Nodes with no alive in-neighbor are eliminated
/// until none can be; if anything survives, an actual cycle is walked
/// out and returned as a witness, so the answer is exact in both
/// directions: `None` means no closed cascade walk exists at all, and
/// `Some(c)` hands back a closed walk.
pub fn find_cascade_cycle(n: usize, edges: &Vec<(usize, usize)>) -> (r: Option<Vec<usize>>)
    requires
        forall|e: int| 0 <= e < edges@.len() ==> (#[trigger] edges@[e]).0 < n && edges@[e].1 < n,
    ensures
        match r {
            None => !spec_has_cycle(edges@),
            Some(c) => spec_is_cycle(edges@, c@),
        },
{
    let mut alive = make_bools(n, true);
    proof {
        assert forall|p: Seq<usize>, i: int|
            spec_is_cycle(edges@, p) && 0 <= i < p.len() implies alive@[#[trigger] p[i] as int] by {
            lemma_cycle_node_in_range(edges@, n as int, p, i);
        }
    }
    loop
        invariant
            alive@.len() == n,
            forall|e: int|
                0 <= e < edges@.len() ==> (#[trigger] edges@[e]).0 < n && edges@[e].1 < n,
            forall|p: Seq<usize>, i: int|
                spec_is_cycle(edges@, p) && 0 <= i < p.len() ==> alive@[#[trigger] p[i] as int],
        ensures
            forall|u: int| 0 <= u < n ==> !spec_removable(edges@, alive@, u),
        decreases spec_count_true(alive@),
    {
        let v = find_removable(edges, &alive);
        if v == n {
            break ;
        }
        let ghost pre = alive@;
        alive[v] = false;
        proof {
            lemma_count_true_update(pre, v as int, false);
            assert forall|p: Seq<usize>, i: int|
                spec_is_cycle(edges@, p) && 0 <= i < p.len() implies alive@[
                #[trigger] p[i] as int] by {
                lemma_cycle_node_in_range(edges@, n as int, p, i);
                if p[i] == v {
                    let pi: int = if i == 0 {
                        p.len() as int - 1
                    } else {
                        i - 1
                    };
                    assert(spec_edge(edges@, p[pi] as int, p[i] as int));
                    lemma_cycle_node_in_range(edges@, n as int, p, pi);
                    assert(pre[p[pi] as int]);
                    let e = choose|e: int|
                        0 <= e < edges@.len() && (#[trigger] edges@[e]).1 == p[i] as int
                            && edges@[e].0 == p[pi] as int;
                    assert(spec_has_alive_in(edges@, pre, v as int)) by {
                        assert(0 <= e < edges@.len() && (edges@[e]).1 == v as int && pre[edges@[e].0 as int]);
                    }
                    assert(false);
                } else {
                    assert(pre[p[i] as int]);
                }
            }
        }
    }
    // Elimination is stuck. If nothing is alive the graph is acyclic;
    // otherwise every alive node has an alive in-neighbor and a closed
    // walk can be traced backwards through them.
    let mut s: usize = 0;
    loop
        invariant
            s <= n,
            alive@.len() == n,
            forall|u: int| 0 <= u < s ==> !alive@[u],
        ensures
            s <= n,
            s == n ==> forall|u: int| 0 <= u < n ==> !alive@[u],
            s < n ==> alive@[s as int],
        decreases n - s,
    {
        if s == n {
            break ;
        }
        if alive[s] {
            break ;
        }
        s += 1;
    }
    if s == n {
        proof {
            if spec_has_cycle(edges@) {
                let p = choose|p: Seq<usize>| spec_is_cycle(edges@, p);
                lemma_cycle_node_in_range(edges@, n as int, p, 0);
                assert(alive@[p[0] as int]);
            }
        }
        return None;
    }
    // Walk backwards along alive in-neighbors until a node repeats.
    let mut visited = make_bools(n, false);
    let ghost fresh = visited@;
    let mut stack: Vec<usize> = Vec::new();
    stack.push(s);
    visited[s] = true;
    proof {
        lemma_count_true_all(fresh, false);
        lemma_count_true_update(fresh, s as int, true);
        assert(stack@[0] == s);
    }
    loop
        invariant
            alive@.len() == n,
            visited@.len() == n,
            forall|e: int|
                0 <= e < edges@.len() ==> (#[trigger] edges@[e]).0 < n && edges@[e].1 < n,
            forall|u: int| 0 <= u < n ==> !spec_removable(edges@, alive@, u),
            stack@.len() >= 1,
            forall|i: int|
                0 <= i < stack@.len() ==> (#[trigger] stack@[i]) < n && alive@[stack@[i] as int],
            forall|i: int|
                0 <= i < stack@.len() - 1 ==> spec_edge(
                    edges@,
                    #[trigger] stack@[i + 1] as int,
                    stack@[i] as int,
                ),
            forall|i: int| 0 <= i < stack@.len() ==> visited@[(#[trigger] stack@[i]) as int],
            forall|w: int|
                0 <= w < n && visited@[w] ==> exists|i: int|
                    0 <= i < stack@.len() && (#[trigger] stack@[i]) as int == w,
            spec_count_true(visited@) == stack@.len(),
        decreases n - stack@.len(),
    {
        proof {
            lemma_count_true_le(visited@);
        }
        let cur = stack[stack.len() - 1];
        let u = match find_alive_in(edges, &alive, cur) {
            Some(u) => u,
            None => {
                proof {
                    assert(spec_removable(edges@, alive@, cur as int));
                    assert(false);
                }
                // unreachable: `cur` is alive and elimination was stuck
                return None;
            },
        };
        if visited[u] {
            // `u` is already on the stack: the segment from its first
            // occurrence to the top, read top-down, is a closed walk.
            let mut j: usize = 0;
            while j < stack.len() && !(stack[j] == u)
                invariant
                    j <= stack@.len(),
                    forall|q: int| 0 <= q < j ==> (#[trigger] stack@[q]) != u,
                decreases stack@.len() - j,
            {
                j += 1;
            }
            proof {
                if j == stack@.len() {
                    let i = choose|i: int|
                        0 <= i < stack@.len() && (#[trigger] stack@[i]) as int == u as int;
                    assert(false);
                }
            }
            let mut cyc: Vec<usize> = Vec::new();
            let mut t: usize = stack.len();
            while t > j
                invariant
                    j <= t <= stack@.len(),
                    cyc@.len() == stack@.len() - t,
                    forall|x: int|
                        0 <= x < cyc@.len() ==> (#[trigger] cyc@[x]) == stack@[stack@.len() - 1
                            - x],
                decreases t - j,
            {
                t -= 1;
                cyc.push(stack[t]);
            }
            proof {
                let l = stack@.len() as int;
                assert(cyc@.len() == l - j);
                assert forall|x: int| 0 <= x < cyc@.len() - 1 implies spec_edge(
                    edges@,
                    #[trigger] cyc@[x] as int,
                    cyc@[x + 1] as int,
                ) by {
                    assert(cyc@[x] == stack@[l - 1 - x]);
                    assert(cyc@[x + 1] == stack@[l - 2 - x]);
                    assert(spec_edge(edges@, stack@[(l - 2 - x) + 1] as int, stack@[l - 2 - x] as int));
                }
                assert(cyc@[cyc@.len() - 1] == stack@[j as int]);
                assert(stack@[j as int] == u);
                assert(cyc@[0] == stack@[l - 1]);
                assert(spec_edge(edges@, u as int, cur as int));
                assert(spec_is_cycle(edges@, cyc@));
            }
            return Some(cyc);
        } else {
            let ghost prev_visited = visited@;
            let ghost prev_stack = stack@;
            visited[u] = true;
            stack.push(u);
            proof {
                lemma_count_true_update(prev_visited, u as int, true);
                lemma_count_true_le(visited@);
                assert forall|w: int| 0 <= w < n && visited@[w] implies exists|i: int|
                    0 <= i < stack@.len() && (#[trigger] stack@[i]) as int == w by {
                    if w == u as int {
                        assert(stack@[stack@.len() - 1] as int == w);
                    } else {
                        assert(prev_visited[w]);
                        let i = choose|i: int|
                            0 <= i < prev_stack.len() && (#[trigger] prev_stack[i]) as int == w;
                        assert(stack@[i] as int == w);
                    }
                }
            }
        }
    }
}


// ---------------------------------------------------------------------------
// The action graph of a schema: one directed edge per relation per
// operation kind, labeled by the resolved action for that kind.
// ---------------------------------------------------------------------------

/// The `Cascade`-labeled update edges among the first `n` relations,
/// as (parent model, child model) pairs.
pub open spec fn spec_update_cascade_edges_upto(dm: InternalDataModel, n: int) -> Seq<
    (usize, usize),
>
    decreases n,
{
    if n <= 0 {
        Seq::empty()
    } else {
        let rest = spec_update_cascade_edges_upto(dm, n - 1);
        if dm.relations@[n - 1].on_update == ReferentialAction::Cascade {
            rest.push((dm.relations@[n - 1].parent_model, dm.relations@[n - 1].child_model))
        } else {
            rest
        }
    }
}

pub open spec fn spec_update_cascade_edges(dm: InternalDataModel) -> Seq<(usize, usize)> {
    spec_update_cascade_edges_upto(dm, dm.relations@.len() as int)
}

/// The `Cascade`-labeled delete edges among the first `n` relations.
pub open spec fn spec_delete_cascade_edges_upto(dm: InternalDataModel, n: int) -> Seq<
    (usize, usize),
>
    decreases n,
{
    if n <= 0 {
        Seq::empty()
    } else {
        let rest = spec_delete_cascade_edges_upto(dm, n - 1);
        if dm.relations@[n - 1].on_delete == ReferentialAction::Cascade {
            rest.push((dm.relations@[n - 1].parent_model, dm.relations@[n - 1].child_model))
        } else {
            rest
        }
    }
}

pub open spec fn spec_delete_cascade_edges(dm: InternalDataModel) -> Seq<(usize, usize)> {
    spec_delete_cascade_edges_upto(dm, dm.relations@.len() as int)
}

proof fn lemma_cascade_edges_in_range(dm: InternalDataModel, n: int, update: bool)
    requires
        dm.wf(),
        0 <= n <= dm.relations@.len(),
    ensures
        update ==> forall|e: int|
            0 <= e < spec_update_cascade_edges_upto(dm, n).len() ==> (
            #[trigger] spec_update_cascade_edges_upto(dm, n)[e]).0 < dm.models@.len()
                && spec_update_cascade_edges_upto(dm, n)[e].1 < dm.models@.len(),
        !update ==> forall|e: int|
            0 <= e < spec_delete_cascade_edges_upto(dm, n).len() ==> (
            #[trigger] spec_delete_cascade_edges_upto(dm, n)[e]).0 < dm.models@.len()
                && spec_delete_cascade_edges_upto(dm, n)[e].1 < dm.models@.len(),
    decreases n,
{
    if n > 0 {
        lemma_cascade_edges_in_range(dm, n - 1, update);
        assert(dm.rel_wf(dm.relations@[n - 1]));
        if update {
            let prev = spec_update_cascade_edges_upto(dm, n - 1);
            let curr = spec_update_cascade_edges_upto(dm, n);
            assert forall|e: int| 0 <= e < curr.len() implies (#[trigger] curr[e]).0
                < dm.models@.len() && curr[e].1 < dm.models@.len() by {
                if e < prev.len() {
                    assert(curr[e] == prev[e]);
                }
            }
        } else {
            let prev = spec_delete_cascade_edges_upto(dm, n - 1);
            let curr = spec_delete_cascade_edges_upto(dm, n);
            assert forall|e: int| 0 <= e < curr.len() implies (#[trigger] curr[e]).0
                < dm.models@.len() && curr[e].1 < dm.models@.len() by {
                if e < prev.len() {
                    assert(curr[e] == prev[e]);
                }
            }
        }
    }
}

/// Collect the `Cascade`-labeled edges of the schema's action graph for
/// one operation kind.
pub fn cascade_edges(dm: &InternalDataModel, update: bool) -> (v: Vec<(usize, usize)>)
    requires
        dm.wf(),
    ensures
        update ==> v@ == spec_update_cascade_edges(*dm),
        !update ==> v@ == spec_delete_cascade_edges(*dm),
        forall|e: int|
            0 <= e < v@.len() ==> (#[trigger] v@[e]).0 < dm.models@.len() && v@[e].1
                < dm.models@.len(),
{
    let mut v: Vec<(usize, usize)> = Vec::new();
    let mut i: usize = 0;
    while i < dm.relations.len()
        invariant
            dm.wf(),
            i <= dm.relations@.len(),
            update ==> v@ == spec_update_cascade_edges_upto(*dm, i as int),
            !update ==> v@ == spec_delete_cascade_edges_upto(*dm, i as int),
        decreases dm.relations@.len() - i,
    {
        let r = &dm.relations[i];
        let action = if update {
            r.on_update
        } else {
            r.on_delete
        };
        if action == ReferentialAction::Cascade {
            v.push((r.parent_model, r.child_model));
        }
        i += 1;
    }
    proof {
        lemma_cascade_edges_in_range(*dm, dm.relations@.len() as int, update);
    }
    v
}

} // verus!
