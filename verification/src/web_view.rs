//! The link graph as a mathematical value, the operations on it, and what
//! holds of them.
//!
//! A [`WebView`] is what a `GeminiWeb` stands for: the discovered resources
//! in the order of their discovery, which of them have been fetched, and how
//! often each has been seen to link to each. The store's methods are
//! specified by the operations defined here.

use vstd::prelude::*;

verus! {

/// The content of a link graph.
pub ghost struct WebView {
    /// The normalized text of every discovered resource. The index of a
    /// resource is its node id.
    pub nodes: Seq<Seq<char>>,
    /// For every node, whether the resource has been fetched.
    pub visited: Seq<bool>,
    /// For every pair of node ids with an edge from the first to the second,
    /// the weight of the edge.
    pub weights: Map<(int, int), nat>,
}

impl WebView {
    /// The graph without nodes.
    pub open spec fn empty() -> WebView {
        WebView { nodes: Seq::empty(), visited: Seq::empty(), weights: Map::empty() }
    }

    /// No resource is a node twice, every node is marked fetched or not, and
    /// every edge joins two nodes and weighs at least one.
    pub open spec fn wf(self) -> bool {
        &&& self.nodes.no_duplicates()
        &&& self.visited.len() == self.nodes.len()
        &&& forall|s: int, t: int| #[trigger]
            self.weights.dom().contains((s, t)) ==> 0 <= s < self.nodes.len() && 0 <= t
                < self.nodes.len() && self.weights[(s, t)] >= 1
    }

    /// Whether `r` has been discovered.
    pub open spec fn contains(self, r: Seq<char>) -> bool {
        self.nodes.contains(r)
    }

    /// The node id of a discovered resource.
    pub open spec fn id_of(self, r: Seq<char>) -> int {
        self.nodes.index_of(r)
    }

    /// The weight of the edge from node `s` to node `t`; zero without one.
    pub open spec fn weight(self, s: int, t: int) -> nat {
        if self.weights.dom().contains((s, t)) {
            self.weights[(s, t)]
        } else {
            0
        }
    }

    /// The weight of the edge from node `s` to the resource `r`; zero where
    /// `r` has not been discovered.
    pub open spec fn weight_to(self, s: int, r: Seq<char>) -> nat {
        if self.contains(r) {
            self.weight(s, self.id_of(r))
        } else {
            0
        }
    }

    /// Whether `r` has been fetched.
    pub open spec fn is_visited(self, r: Seq<char>) -> bool {
        self.contains(r) && self.visited[self.id_of(r)]
    }

    /// The graph after `r` is discovered: nothing changes where it is a node
    /// already; otherwise it becomes the last node, not fetched.
    pub open spec fn add_node(self, r: Seq<char>) -> WebView {
        if self.contains(r) {
            self
        } else {
            WebView {
                nodes: self.nodes.push(r),
                visited: self.visited.push(false),
                weights: self.weights,
            }
        }
    }

    /// The graph after a link from node `s` to `r` is seen: `r` is
    /// discovered, and the edge from `s` to it gains one in weight.
    pub open spec fn add_edge(self, s: int, r: Seq<char>) -> WebView {
        let w = self.add_node(r);
        let t = w.id_of(r);
        WebView {
            nodes: w.nodes,
            visited: w.visited,
            weights: w.weights.insert((s, t), w.weight(s, t) + 1),
        }
    }

    /// The graph after links from node `s` to each of `targets` are seen, in
    /// order.
    pub open spec fn add_edges(self, s: int, targets: Seq<Seq<char>>) -> WebView
        decreases targets.len(),
    {
        if targets.len() == 0 {
            self
        } else {
            self.add_edges(s, targets.drop_last()).add_edge(s, targets.last())
        }
    }

    /// The graph after `r` is fetched: `r` is discovered and marked.
    pub open spec fn mark_visited(self, r: Seq<char>) -> WebView {
        let w = self.add_node(r);
        WebView {
            nodes: w.nodes,
            visited: w.visited.update(w.id_of(r), true),
            weights: w.weights,
        }
    }

    /// The discovered resources that have not been fetched, in the order of
    /// their discovery.
    pub open spec fn unvisited(self) -> Seq<Seq<char>> {
        pending(self.nodes, self.visited)
    }

    /// The set of discovered resources.
    pub open spec fn node_set(self) -> Set<Seq<char>> {
        self.nodes.to_set()
    }

    /// The set of fetched resources.
    pub open spec fn visited_set(self) -> Set<Seq<char>> {
        Set::new(|r: Seq<char>| self.is_visited(r))
    }

    /// Whether `other` holds all that this graph holds: the same nodes under
    /// the same ids, every fetched mark, and every edge with at least its
    /// weight.
    pub open spec fn is_part_of(self, other: WebView) -> bool {
        &&& self.nodes.len() <= other.nodes.len()
        &&& forall|i: int| 0 <= i < self.nodes.len() ==> self.nodes[i] == other.nodes[i]
        &&& forall|i: int|
            0 <= i < self.nodes.len() && i < self.visited.len() && self.visited[i] ==> i
                < other.visited.len() && other.visited[i]
        &&& forall|s: int, t: int| #[trigger] self.weight(s, t) <= other.weight(s, t)
    }
}

/// Those of `nodes` whose mark in `visited` is not set, in order.
pub open spec fn pending(nodes: Seq<Seq<char>>, visited: Seq<bool>) -> Seq<Seq<char>>
    decreases nodes.len(),
{
    if nodes.len() == 0 || visited.len() != nodes.len() {
        Seq::empty()
    } else if visited.last() {
        pending(nodes.drop_last(), visited.drop_last())
    } else {
        pending(nodes.drop_last(), visited.drop_last()).push(nodes.last())
    }
}

/// Discovering a resource keeps the graph well formed and every id.
pub proof fn lemma_add_node(w: WebView, r: Seq<char>)
    requires
        w.wf(),
    ensures
        w.add_node(r).wf(),
        w.add_node(r).contains(r),
        0 <= w.add_node(r).id_of(r) < w.add_node(r).nodes.len(),
        w.add_node(r).nodes[w.add_node(r).id_of(r)] == r,
        !w.contains(r) ==> w.add_node(r).id_of(r) == w.nodes.len(),
        forall|q: Seq<char>| w.contains(q) ==> w.add_node(r).contains(q) && w.add_node(r).id_of(q)
            == w.id_of(q),
        forall|q: Seq<char>| w.add_node(r).contains(q) ==> w.contains(q) || q == r,
        forall|s: int, t: int| w.add_node(r).weight(s, t) == w.weight(s, t),
        w.is_part_of(w.add_node(r)),
{
    let a = w.add_node(r);
    if !w.contains(r) {
        assert(a.nodes[w.nodes.len() as int] == r);
        assert forall|q: Seq<char>| w.contains(q) implies a.contains(q) && a.id_of(q) == w.id_of(
            q,
        ) by {
            let i = w.id_of(q);
            assert(a.nodes[i] == q);
        }
    }
}

/// What seeing one link changes: the edge from `s` to `r` gains one, every
/// other weight and every mark stays, and no node is lost.
pub proof fn lemma_add_edge(w: WebView, s: int, r: Seq<char>)
    requires
        w.wf(),
        0 <= s < w.nodes.len(),
    ensures
        w.add_edge(s, r).wf(),
        w.add_edge(s, r).nodes == w.add_node(r).nodes,
        w.add_edge(s, r).visited == w.add_node(r).visited,
        w.add_edge(s, r).weight_to(s, r) == w.weight_to(s, r) + 1,
        forall|a: int, q: Seq<char>|
            a != s || q != r ==> w.add_edge(s, r).weight_to(a, q) == w.weight_to(a, q),
        w.is_part_of(w.add_edge(s, r)),
{
    lemma_add_node(w, r);
}

/// Seeing links from one node to a series of resources adds, for each
/// resource, as many to the edge's weight as the series holds it.
pub proof fn lemma_add_edges(w: WebView, s: int, targets: Seq<Seq<char>>)
    requires
        w.wf(),
        0 <= s < w.nodes.len(),
    ensures
        w.add_edges(s, targets).wf(),
        w.is_part_of(w.add_edges(s, targets)),
        w.add_edges(s, targets).nodes.len() <= w.nodes.len() + targets.len(),
        forall|i: int| 0 <= i < targets.len() ==> w.add_edges(s, targets).contains(targets[i]),
        forall|a: int, q: Seq<char>|
            w.add_edges(s, targets).weight_to(a, q) == w.weight_to(a, q) + if a == s {
                occurrences(targets, q)
            } else {
                0
            },
    decreases targets.len(),
{
    if targets.len() > 0 {
        let front = targets.drop_last();
        let mid = w.add_edges(s, front);
        let end = mid.add_edge(s, targets.last());
        lemma_add_edges(w, s, front);
        lemma_add_edge(mid, s, targets.last());
        assert forall|i: int| 0 <= i < targets.len() implies end.contains(targets[i]) by {
            if i < front.len() {
                assert(front[i] == targets[i]);
            }
        }
        assert forall|a: int, q: Seq<char>|
            end.weight_to(a, q) == w.weight_to(a, q) + if a == s {
                occurrences(targets, q)
            } else {
                0
            } by {
            if a != s || q != targets.last() {
                assert(end.weight_to(a, q) == mid.weight_to(a, q));
            }
        }
    }
}

/// Fetching a resource keeps the graph well formed, every id and every
/// weight.
pub proof fn lemma_mark_visited(w: WebView, r: Seq<char>)
    requires
        w.wf(),
    ensures
        w.mark_visited(r).wf(),
        w.mark_visited(r).nodes == w.add_node(r).nodes,
        w.mark_visited(r).is_visited(r),
        forall|q: Seq<char>| q != r ==> w.mark_visited(r).is_visited(q) == w.is_visited(q),
        forall|a: int, q: Seq<char>| w.mark_visited(r).weight_to(a, q) == w.weight_to(a, q),
        w.is_part_of(w.mark_visited(r)),
{
    lemma_add_node(w, r);
}

/// How often `targets` holds `r`.
pub open spec fn occurrences(targets: Seq<Seq<char>>, r: Seq<char>) -> nat
    decreases targets.len(),
{
    if targets.len() == 0 {
        0
    } else {
        occurrences(targets.drop_last(), r) + if targets.last() == r {
            1nat
        } else {
            0nat
        }
    }
}

/// A change to a link graph.
pub ghost enum WebOp {
    /// A resource is discovered.
    AddNode(Seq<char>),
    /// Links from a node to a series of resources are seen.
    AddEdges(int, Seq<Seq<char>>),
    /// A resource is fetched.
    MarkVisited(Seq<char>),
}

/// The graph after one change.
pub open spec fn apply(w: WebView, op: WebOp) -> WebView {
    match op {
        WebOp::AddNode(r) => w.add_node(r),
        WebOp::AddEdges(s, targets) => w.add_edges(s, targets),
        WebOp::MarkVisited(r) => w.mark_visited(r),
    }
}

/// The graph after a series of changes, in order.
pub open spec fn apply_all(w: WebView, ops: Seq<WebOp>) -> WebView
    decreases ops.len(),
{
    if ops.len() == 0 {
        w
    } else {
        apply(apply_all(w, ops.drop_last()), ops.last())
    }
}

/// Whether every change of `ops` that adds edges names, as their source, a
/// node that the graph holds by then.
pub open spec fn admissible(w: WebView, ops: Seq<WebOp>) -> bool
    decreases ops.len(),
{
    ops.len() == 0 || (admissible(w, ops.drop_last()) && match ops.last() {
        WebOp::AddEdges(s, _) => 0 <= s < apply_all(w, ops.drop_last()).nodes.len(),
        _ => true,
    })
}

/// How often the changes `ops` see a link from node `s` to `r`.
pub open spec fn seen(ops: Seq<WebOp>, s: int, r: Seq<char>) -> nat
    decreases ops.len(),
{
    if ops.len() == 0 {
        0
    } else {
        seen(ops.drop_last(), s, r) + match ops.last() {
            WebOp::AddEdges(a, targets) => if a == s {
                occurrences(targets, r)
            } else {
                0nat
            },
            _ => 0nat,
        }
    }
}

/// Discovering a resource twice is discovering it once: the second time
/// changes nothing and gives the same id.
pub proof fn law_add_node_idempotent(w: WebView, r: Seq<char>)
    requires
        w.wf(),
    ensures
        w.add_node(r).add_node(r) == w.add_node(r),
        w.add_node(r).add_node(r).id_of(r) == w.add_node(r).id_of(r),
{
    lemma_add_node(w, r);
}

/// Edge weights count links. After any series of changes, in any order, the
/// weight of the edge from a node to a resource is what it was before plus
/// the number of times the changes saw a link from the one to the other.
/// Starting from a graph without that edge, `k` sightings give weight `k`.
pub proof fn law_edge_weight_counts(w: WebView, ops: Seq<WebOp>, s: int, r: Seq<char>)
    requires
        w.wf(),
        admissible(w, ops),
    ensures
        apply_all(w, ops).wf(),
        w.is_part_of(apply_all(w, ops)),
        apply_all(w, ops).weight_to(s, r) == w.weight_to(s, r) + seen(ops, s, r),
    decreases ops.len(),
{
    if ops.len() > 0 {
        let mid = apply_all(w, ops.drop_last());
        law_edge_weight_counts(w, ops.drop_last(), s, r);
        match ops.last() {
            WebOp::AddNode(q) => {
                lemma_add_node(mid, q);
            },
            WebOp::AddEdges(a, targets) => {
                lemma_add_edges(mid, a, targets);
            },
            WebOp::MarkVisited(q) => {
                lemma_mark_visited(mid, q);
            },
        }
    }
}

/// `pending` after one more node.
pub proof fn lemma_pending_push(nodes: Seq<Seq<char>>, visited: Seq<bool>, r: Seq<char>, b: bool)
    requires
        nodes.len() == visited.len(),
    ensures
        pending(nodes.push(r), visited.push(b)) == if b {
            pending(nodes, visited)
        } else {
            pending(nodes, visited).push(r)
        },
{
    assert(nodes.push(r).drop_last() == nodes);
    assert(visited.push(b).drop_last() == visited);
}

/// What `pending` holds: the nodes whose mark is not set, each as often as
/// it is a node.
pub proof fn lemma_pending_holds(nodes: Seq<Seq<char>>, visited: Seq<bool>)
    requires
        nodes.len() == visited.len(),
    ensures
        pending(nodes, visited).len() <= nodes.len(),
        forall|r: Seq<char>|
            pending(nodes, visited).contains(r) <==> exists|i: int|
                0 <= i < nodes.len() && nodes[i] == r && !visited[i],
        nodes.no_duplicates() ==> pending(nodes, visited).no_duplicates(),
    decreases nodes.len(),
{
    if nodes.len() > 0 {
        let front = nodes.drop_last();
        let marks = visited.drop_last();
        let before = pending(front, marks);
        let all = pending(nodes, visited);
        lemma_pending_holds(front, marks);
        assert forall|r: Seq<char>| all.contains(r) implies exists|i: int|
            0 <= i < nodes.len() && nodes[i] == r && !visited[i] by {
            let k = choose|k: int| 0 <= k < all.len() && all[k] == r;
            if k < before.len() {
                assert(before.contains(r));
            }
        }
        assert forall|r: Seq<char>|
            (exists|i: int|
                0 <= i < nodes.len() && nodes[i] == r && !visited[i]) implies all.contains(r) by {
            let i = choose|i: int| 0 <= i < nodes.len() && nodes[i] == r && !visited[i];
            if i < front.len() {
                assert(front[i] == r && !marks[i]);
                assert(before.contains(r));
                let k = choose|k: int| 0 <= k < before.len() && before[k] == r;
                assert(all[k] == r);
            } else {
                assert(all[all.len() - 1] == r);
            }
        }
        if nodes.no_duplicates() {
            if !visited.last() {
                assert(!before.contains(nodes.last()));
            }
        }
    }
}

/// Setting the mark of one node takes it from `pending` where the mark was
/// not set, and changes nothing where it was.
pub proof fn lemma_pending_update(nodes: Seq<Seq<char>>, visited: Seq<bool>, i: int)
    requires
        nodes.len() == visited.len(),
        0 <= i < nodes.len(),
    ensures
        pending(nodes, visited.update(i, true)).len() + if visited[i] {
            0int
        } else {
            1int
        } == pending(nodes, visited).len(),
    decreases nodes.len(),
{
    let marks = visited.update(i, true);
    if i == nodes.len() - 1 {
        assert(marks.drop_last() == visited.drop_last());
    } else {
        assert(marks.drop_last() == visited.drop_last().update(i, true));
        lemma_pending_update(nodes.drop_last(), visited.drop_last(), i);
    }
}

/// The resources still to be fetched are the discovered ones without the
/// fetched ones, each once.
pub proof fn law_unvisited_is_difference(w: WebView)
    requires
        w.wf(),
    ensures
        w.unvisited().to_set() == w.node_set().difference(w.visited_set()),
        w.unvisited().no_duplicates(),
        w.visited_set().subset_of(w.node_set()),
{
    lemma_pending_holds(w.nodes, w.visited);
}

/// Fetching a resource shrinks the set of those still to be fetched by at
/// most one. For a discovered resource it shrinks by exactly one if and only
/// if the resource had not been fetched before; fetching a resource that had
/// not been discovered leaves the set as it is.
pub proof fn law_mark_visited_shrinks(w: WebView, r: Seq<char>)
    requires
        w.wf(),
    ensures
        w.mark_visited(r).unvisited().len() <= w.unvisited().len() <= w.mark_visited(
            r,
        ).unvisited().len() + 1,
        w.contains(r) ==> (w.unvisited().len() == w.mark_visited(r).unvisited().len() + 1
            <==> !w.is_visited(r)),
        !w.contains(r) ==> w.mark_visited(r).unvisited() == w.unvisited(),
{
    let n = w.add_node(r);
    lemma_add_node(w, r);
    if w.contains(r) {
        lemma_pending_update(w.nodes, w.visited, w.id_of(r));
    } else {
        assert(n.visited.update(n.id_of(r), true) == w.visited.push(true));
        lemma_pending_push(w.nodes, w.visited, r, true);
    }
}

} // verus!
