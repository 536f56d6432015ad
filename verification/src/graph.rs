//! A small undirected graph kept as adjacency lists.
//!
//! Every node carries an identifier and the identifiers of the nodes it is
//! linked to. Two nodes are linked at most once.

use vstd::prelude::*;
use vstd::std_specs::cmp::PartialEqSpec;

verus! {

/// A node: its identifier and the identifiers of its neighbours, in the
/// order in which the links were made.
pub struct Node<T: PartialEq + Eq + Clone> {
    id: T,
    adjacent: Vec<T>,
}

/// The nodes of a graph, in the order in which they were inserted.
pub struct Graph<T: PartialEq + Eq + Clone>(Vec<Node<T>>);

/// The mathematical content of a [`Node`].
pub ghost struct NodeView<T> {
    pub id: T,
    pub adjacent: Seq<T>,
}

/// Whether `==` on `T` decides equality of values.
pub open spec fn eq_is_identity<T: PartialEq>() -> bool {
    &&& T::obeys_eq_spec()
    &&& forall|a: T, b: T| #[trigger] a.eq_spec(&b) <==> a == b
}

/// The index of the first node of `nodes` with identifier `id`, or the
/// number of nodes where there is none.
pub open spec fn first_with<T>(nodes: Seq<NodeView<T>>, id: T) -> int
    decreases nodes.len(),
{
    if nodes.len() == 0 || nodes[0].id == id {
        0
    } else {
        1 + first_with(nodes.drop_first(), id)
    }
}

/// Whether some node of `nodes` has identifier `id`.
pub open spec fn has_node<T>(nodes: Seq<NodeView<T>>, id: T) -> bool {
    exists|i: int| 0 <= i < nodes.len() && (#[trigger] nodes[i]).id == id
}

/// `nodes` with `id` added to the neighbours of node `i`.
pub open spec fn with_neighbour<T>(nodes: Seq<NodeView<T>>, i: int, id: T) -> Seq<NodeView<T>> {
    nodes.update(i, NodeView { id: nodes[i].id, adjacent: nodes[i].adjacent.push(id) })
}

/// `nodes` after linking the first node named `id1` and the first node named
/// `id2`. Where either already lists the other, nothing changes. Otherwise
/// the first gains `id2` as a neighbour and then the second gains `id1`.
pub open spec fn linked<T>(nodes: Seq<NodeView<T>>, id1: T, id2: T) -> Seq<NodeView<T>> {
    let i1 = first_with(nodes, id1);
    let i2 = first_with(nodes, id2);
    if nodes[i1].adjacent.contains(id2) || nodes[i2].adjacent.contains(id1) {
        nodes
    } else {
        with_neighbour(with_neighbour(nodes, i1, id2), i2, id1)
    }
}

/// `first_with` is in range, no earlier node has the identifier, and the
/// node it gives has it unless the index is the length.
pub proof fn lemma_first_with<T>(nodes: Seq<NodeView<T>>, id: T)
    ensures
        0 <= first_with(nodes, id) <= nodes.len(),
        forall|j: int| 0 <= j < first_with(nodes, id) ==> (#[trigger] nodes[j]).id != id,
        first_with(nodes, id) < nodes.len() ==> nodes[first_with(nodes, id)].id == id,
        has_node(nodes, id) <==> first_with(nodes, id) < nodes.len(),
    decreases nodes.len(),
{
    if nodes.len() > 0 && nodes[0].id != id {
        let rest = nodes.drop_first();
        lemma_first_with(rest, id);
        assert forall|j: int| 0 <= j < first_with(nodes, id) implies (#[trigger] nodes[j]).id
            != id by {
            if j > 0 {
                assert(nodes[j] == rest[j - 1]);
            }
        }
    }
}

/// An index with the properties of `lemma_first_with` is what `first_with`
/// gives.
pub proof fn lemma_first_with_is<T>(nodes: Seq<NodeView<T>>, id: T, p: int)
    requires
        0 <= p <= nodes.len(),
        forall|j: int| 0 <= j < p ==> (#[trigger] nodes[j]).id != id,
        p < nodes.len() ==> nodes[p].id == id,
    ensures
        first_with(nodes, id) == p,
    decreases nodes.len(),
{
    if nodes.len() > 0 && nodes[0].id != id {
        let rest = nodes.drop_first();
        lemma_first_with_is(rest, id, p - 1);
    }
}

impl<T: PartialEq + Eq + Clone> View for Node<T> {
    type V = NodeView<T>;

    closed spec fn view(&self) -> NodeView<T> {
        NodeView { id: self.id, adjacent: self.adjacent@ }
    }
}

impl<T: PartialEq + Eq + Clone> View for Graph<T> {
    type V = Seq<NodeView<T>>;

    closed spec fn view(&self) -> Seq<NodeView<T>> {
        Seq::new(self.0@.len(), |i: int| self.0@[i]@)
    }
}

impl<T: PartialEq + Eq + Clone> Graph<T> {
    /// A graph without nodes.
    pub fn new() -> (g: Graph<T>)
        ensures
            g@ == Seq::<NodeView<T>>::empty(),
    {
        Graph(Vec::new())
    }

    /// Appends a node named `id`, without neighbours. An identifier that is
    /// in the graph already is not refused: the new node then stands behind
    /// the older one and is never linked.
    pub fn insert_node(&mut self, id: T)
        ensures
            final(self)@ == old(self)@.push(NodeView { id, adjacent: Seq::empty() }),
    {
        self.0.push(Node { id, adjacent: Vec::new() });
    }

    /// The number of nodes.
    pub fn node_count(&self) -> (n: usize)
        ensures
            n == self@.len(),
    {
        self.0.len()
    }

    /// The index of the first node named `id`, or the number of nodes where
    /// there is none.
    pub fn find(&self, id: &T) -> (p: usize)
        requires
            eq_is_identity::<T>(),
        ensures
            p == first_with(self@, *id),
            p <= self@.len(),
    {
        let mut i: usize = 0;
        while i < self.0.len() && !(self.0[i].id == *id)
            invariant
                i <= self.0.len(),
                eq_is_identity::<T>(),
                forall|j: int| 0 <= j < i ==> (#[trigger] self@[j]).id != *id,
            decreases self.0.len() - i,
        {
            i += 1;
        }
        proof {
            lemma_first_with_is(self@, *id, i as int);
        }
        i
    }

    /// Whether node `i` lists `id` among its neighbours.
    pub fn lists(&self, i: usize, id: &T) -> (b: bool)
        requires
            eq_is_identity::<T>(),
            i < self@.len(),
        ensures
            b == self@[i as int].adjacent.contains(*id),
    {
        let node = &self.0[i];
        let mut k: usize = 0;
        while k < node.adjacent.len()
            invariant
                k <= node.adjacent.len(),
                eq_is_identity::<T>(),
                i < self@.len(),
                node.adjacent@ == self@[i as int].adjacent,
                forall|j: int| 0 <= j < k ==> node.adjacent@[j] != *id,
            decreases node.adjacent.len() - k,
        {
            if node.adjacent[k] == *id {
                return true;
            }
            k += 1;
        }
        false
    }

    /// Links the first node named `id1` and the first node named `id2`,
    /// unless either already lists the other.
    pub fn insert_edge(&mut self, id1: T, id2: T)
        requires
            eq_is_identity::<T>(),
            has_node(old(self)@, id1),
            has_node(old(self)@, id2),
        ensures
            final(self)@ == linked(old(self)@, id1, id2),
    {
        proof {
            lemma_first_with(self@, id1);
            lemma_first_with(self@, id2);
        }
        let i1 = self.find(&id1);
        let i2 = self.find(&id2);
        if self.lists(i1, &id2) || self.lists(i2, &id1) {
            return ;
        }
        self.0[i1].adjacent.push(id2);
        self.0[i2].adjacent.push(id1);
    }
}

} // verus!
