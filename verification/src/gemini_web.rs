//! The link graph store.
//!
//! A [`GeminiWeb`] holds every discovered resource once, the edges between
//! them with their weights, which resources have been fetched, and the last
//! response received for each. The graph itself is a `petgraph` graph whose
//! nodes carry the normalized texts of the resources and whose edges carry
//! the weights. What the store stands for is a
//! [`WebView`](crate::web_view::WebView), and its methods are specified by
//! the operations of that model.

use crate::export::{attributes_of, node_attributes, ExportError};
use crate::resource::Resource;
use crate::response::{GeminiResponse, ResponseView};
use crate::web_view::{
    lemma_add_edge, lemma_add_edges, lemma_add_node, lemma_pending_push, pending, WebView,
};
use petgraph::dot::{Config, Dot};
use petgraph::graph::{DiGraph, EdgeIndex, NodeIndex};
use vstd::prelude::*;

verus! {

/// The graph that the store keeps: a directed `petgraph` graph
/// (`petgraph::graph::DiGraph<String, usize>`) whose node weights are
/// resource texts and whose edge weights count links. The verifier does not
/// look inside: what the graph holds it knows only as [`graph_nodes`] and
/// [`graph_edges`], and only from the contracts of the functions below,
/// which call the graph's methods and are not verified.
#[verifier::external_body]
pub struct GeminiGraph {
    inner: DiGraph<String, usize>,
}

/// The largest number of nodes that the graph can hold.
pub const NODE_LIMIT: usize = 4294967295;

/// The largest number of edges that the graph can hold.
pub const EDGE_LIMIT: usize = 4294967295;

/// The node weights of a graph, by node index.
pub uninterp spec fn graph_nodes(g: GeminiGraph) -> Seq<Seq<char>>;

/// The edges of a graph, by edge index: source, target and weight.
pub uninterp spec fn graph_edges(g: GeminiGraph) -> Seq<(usize, usize, usize)>;

/// Whether edge `e` of `edges` leads from node `s` to node `t`.
pub open spec fn joins(edges: Seq<(usize, usize, usize)>, e: int, s: int, t: int) -> bool {
    0 <= e < edges.len() && edges[e].0 == s && edges[e].1 == t
}

/// Calls `petgraph::graph::Graph::new`: a directed graph without nodes and edges.
#[verifier::external_body]
fn graph_new() -> (g: GeminiGraph)
    ensures
        graph_nodes(g).len() == 0,
        graph_edges(g).len() == 0,
{
    GeminiGraph { inner: DiGraph::new() }
}

/// Calls `petgraph::graph::Graph::add_node`, which appends a node and returns its index. It
/// panics on a graph that holds `NODE_LIMIT` nodes.
#[verifier::external_body]
fn graph_add_node(g: &mut GeminiGraph, text: String) -> (id: usize)
    requires
        graph_nodes(*old(g)).len() < NODE_LIMIT,
    ensures
        graph_nodes(*final(g)) == graph_nodes(*old(g)).push(text@),
        graph_edges(*final(g)) == graph_edges(*old(g)),
        id == graph_nodes(*old(g)).len(),
{
    g.inner.add_node(text).index()
}

/// Calls `petgraph::graph::Graph::edge_count`.
#[verifier::external_body]
fn graph_edge_count(g: &GeminiGraph) -> (n: usize)
    ensures
        n == graph_edges(*g).len(),
{
    g.inner.edge_count()
}

/// Calls `petgraph::graph::Graph::find_edge`, which returns the index of an edge from `a` to
/// `b` where there is one. Which one, where there are several, is left open.
#[verifier::external_body]
fn graph_find_edge(g: &GeminiGraph, a: usize, b: usize) -> (found: Option<usize>)
    requires
        a <= NODE_LIMIT,
        b <= NODE_LIMIT,
    ensures
        match found {
            Some(e) => joins(graph_edges(*g), e as int, a as int, b as int),
            None => forall|e: int| !joins(graph_edges(*g), e, a as int, b as int),
        },
{
    g.inner.find_edge(NodeIndex::new(a), NodeIndex::new(b)).map(|e| e.index())
}

/// Calls `petgraph::graph::Graph::edge_weight`, which returns the weight of the edge with
/// index `e` where there is one.
#[verifier::external_body]
fn graph_edge_weight(g: &GeminiGraph, e: usize) -> (weight: Option<usize>)
    requires
        e <= EDGE_LIMIT,
    ensures
        weight == if e < graph_edges(*g).len() {
            Some(graph_edges(*g)[e as int].2)
        } else {
            None
        },
{
    g.inner.edge_weight(EdgeIndex::new(e)).copied()
}

/// Calls `petgraph::graph::Graph::edge_endpoints`, which returns source and target of the
/// edge with index `e` where there is one.
#[verifier::external_body]
fn graph_edge_endpoints(g: &GeminiGraph, e: usize) -> (ends: Option<(usize, usize)>)
    requires
        e <= EDGE_LIMIT,
    ensures
        ends == if e < graph_edges(*g).len() {
            Some((graph_edges(*g)[e as int].0, graph_edges(*g)[e as int].1))
        } else {
            None
        },
{
    g.inner.edge_endpoints(EdgeIndex::new(e)).map(|(a, b)| (a.index(), b.index()))
}

/// Calls `petgraph::graph::Graph::update_edge`. Where an edge leads from `a` to `b`, one such
/// edge gets the weight `weight`; otherwise an edge with that weight is
/// appended. The index of the edge is returned. It panics where `a` or `b`
/// is no node, and where an edge is to be appended to a graph that holds
/// `EDGE_LIMIT` edges.
#[verifier::external_body]
fn graph_update_edge(g: &mut GeminiGraph, a: usize, b: usize, weight: usize) -> (e: usize)
    requires
        a < graph_nodes(*old(g)).len(),
        b < graph_nodes(*old(g)).len(),
        a <= NODE_LIMIT,
        b <= NODE_LIMIT,
        graph_edges(*old(g)).len() < EDGE_LIMIT || exists|i: int|
            joins(graph_edges(*old(g)), i, a as int, b as int),
    ensures
        graph_nodes(*final(g)) == graph_nodes(*old(g)),
        if exists|i: int| joins(graph_edges(*old(g)), i, a as int, b as int) {
            &&& joins(graph_edges(*old(g)), e as int, a as int, b as int)
            &&& graph_edges(*final(g)) == graph_edges(*old(g)).update(e as int, (a, b, weight))
        } else {
            &&& e == graph_edges(*old(g)).len()
            &&& graph_edges(*final(g)) == graph_edges(*old(g)).push((a, b, weight))
        },
{
    g.inner.update_edge(NodeIndex::new(a), NodeIndex::new(b), weight).index()
}

/// What `petgraph` writes for a graph in the language of the `dot` layout
/// tool, without edge labels: a function of the node weights, the edges and
/// the attributes given for each node.
pub uninterp spec fn dot_text(
    nodes: Seq<Seq<char>>,
    edges: Seq<(usize, usize, usize)>,
    attributes: Seq<Seq<char>>,
) -> Seq<char>;

/// The texts of a sequence of strings.
pub open spec fn string_views(v: Seq<String>) -> Seq<Seq<char>> {
    Seq::new(v.len(), |i: int| v[i]@)
}

/// Formats, with `Debug`, the `petgraph::dot::Dot` made by
/// `Dot::with_attr_getters` under `Config::EdgeNoLabel`, with no attributes
/// for edges and `attributes[i]` for node `i`. The contract claims that the
/// text is a function of the graph's contents and the attributes.
#[verifier::external_body]
fn graph_dot(g: &GeminiGraph, attributes: &Vec<String>) -> (text: String)
    requires
        attributes@.len() == graph_nodes(*g).len(),
    ensures
        text@ == dot_text(graph_nodes(*g), graph_edges(*g), string_views(attributes@)),
{
    format!(
        "{:?}",
        Dot::with_attr_getters(
            &g.inner,
            &[Config::EdgeNoLabel],
            &|_, _| String::new(),
            &|_, (i, _)| attributes[i.index()].clone(),
        )
    )
}

/// The attributes of the nodes of a sequence of resources with domains.
pub open spec fn node_labels(v: Seq<Resource>) -> Seq<Seq<char>> {
    Seq::new(v.len(), |i: int| attributes_of(v[i]@))
}

/// Whether every resource of a sequence has a domain.
pub open spec fn all_named(v: Seq<Resource>) -> bool {
    forall|i: int| 0 <= i < v.len() ==> (#[trigger] v[i])@.domain is Some
}

/// The normalized texts of a sequence of resources.
pub open spec fn texts(v: Seq<Resource>) -> Seq<Seq<char>> {
    Seq::new(v.len(), |i: int| v[i]@.text)
}

/// The edge of `edges` that leads from `s` to `t`.
pub open spec fn edge_between(edges: Seq<(usize, usize, usize)>, s: int, t: int) -> int {
    choose|e: int| joins(edges, e, s, t)
}

/// The weights that a list of edges stands for.
pub open spec fn weights_of(edges: Seq<(usize, usize, usize)>) -> Map<(int, int), nat> {
    Map::new(
        |k: (int, int)| exists|e: int| joins(edges, e, k.0, k.1),
        |k: (int, int)| edges[edge_between(edges, k.0, k.1)].2 as nat,
    )
}

/// Whether the edges join nodes below `n`, weigh between one and `links`,
/// and no two of them join the same nodes in the same direction.
pub open spec fn sound_edges(edges: Seq<(usize, usize, usize)>, n: int, links: int) -> bool {
    &&& forall|e: int|
        0 <= e < edges.len() ==> (#[trigger] edges[e]).0 < n && edges[e].1 < n && 1 <= edges[e].2
            <= links
    &&& forall|e1: int, e2: int|
        0 <= e1 < edges.len() && 0 <= e2 < edges.len() && (#[trigger] edges[e1]).0 == (
        #[trigger] edges[e2]).0 && edges[e1].1 == edges[e2].1 ==> e1 == e2
}

/// The weight that sound edges give to a pair of nodes is the weight of the
/// edge that joins them.
proof fn lemma_weight_of_edge(edges: Seq<(usize, usize, usize)>, n: int, links: int, e: int)
    requires
        sound_edges(edges, n, links),
        0 <= e < edges.len(),
    ensures
        weights_of(edges).dom().contains((edges[e].0 as int, edges[e].1 as int)),
        weights_of(edges)[(edges[e].0 as int, edges[e].1 as int)] == edges[e].2,
{
    let s = edges[e].0 as int;
    let t = edges[e].1 as int;
    let k = (s, t);
    assert(joins(edges, e, k.0, k.1));
    let c = edge_between(edges, k.0, k.1);
    assert(edges[c].0 == edges[e].0 && edges[c].1 == edges[e].1);
}

/// Appending an edge between two nodes that none joins gives the pair its
/// weight and changes no other.
proof fn lemma_weights_push(
    edges: Seq<(usize, usize, usize)>,
    n: int,
    links: int,
    s: usize,
    t: usize,
    weight: usize,
)
    requires
        sound_edges(edges, n, links),
        forall|e: int| !joins(edges, e, s as int, t as int),
        s < n,
        t < n,
        1 <= weight <= links,
    ensures
        sound_edges(edges.push((s, t, weight)), n, links),
        weights_of(edges.push((s, t, weight))) == weights_of(edges).insert(
            (s as int, t as int),
            weight as nat,
        ),
{
    let after = edges.push((s, t, weight));
    assert(sound_edges(after, n, links)) by {
        assert forall|e1: int, e2: int|
            0 <= e1 < after.len() && 0 <= e2 < after.len() && (#[trigger] after[e1]).0 == (
            #[trigger] after[e2]).0 && after[e1].1 == after[e2].1 implies e1 == e2 by {
            if e1 < edges.len() && e2 >= edges.len() {
                assert(joins(edges, e1, s as int, t as int));
            } else if e2 < edges.len() && e1 >= edges.len() {
                assert(joins(edges, e2, s as int, t as int));
            }
        }
    }
    let target = weights_of(edges).insert((s as int, t as int), weight as nat);
    assert forall|k: (int, int)| weights_of(after).dom().contains(k) <==> target.dom().contains(
        k,
    ) by {
        if weights_of(after).dom().contains(k) {
            let e = choose|e: int| joins(after, e, k.0, k.1);
            if e < edges.len() {
                assert(joins(edges, e, k.0, k.1));
            }
        }
        if weights_of(edges).dom().contains(k) {
            let e = choose|e: int| joins(edges, e, k.0, k.1);
            assert(joins(after, e, k.0, k.1));
        }
        if k == (s as int, t as int) {
            assert(joins(after, edges.len() as int, k.0, k.1));
        }
    }
    assert forall|k: (int, int)| weights_of(after).dom().contains(k) implies weights_of(after)[k]
        == target[k] by {
        let e = choose|e: int| joins(after, e, k.0, k.1);
        if e < edges.len() {
            lemma_weight_of_edge(edges, n, links, e);
        }
    }
}

/// Changing the weight of an edge gives the pair it joins that weight and
/// changes no other.
proof fn lemma_weights_update(
    edges: Seq<(usize, usize, usize)>,
    n: int,
    links: int,
    e: int,
    weight: usize,
)
    requires
        sound_edges(edges, n, links),
        0 <= e < edges.len(),
        1 <= weight <= links,
    ensures
        sound_edges(edges.update(e, (edges[e].0, edges[e].1, weight)), n, links),
        weights_of(edges.update(e, (edges[e].0, edges[e].1, weight))) == weights_of(edges).insert(
            (edges[e].0 as int, edges[e].1 as int),
            weight as nat,
        ),
{
    let s = edges[e].0;
    let t = edges[e].1;
    let after = edges.update(e, (s, t, weight));
    let target = weights_of(edges).insert((s as int, t as int), weight as nat);
    assert forall|k: (int, int)| weights_of(after).dom().contains(k) <==> target.dom().contains(
        k,
    ) by {
        if weights_of(after).dom().contains(k) {
            let i = choose|i: int| joins(after, i, k.0, k.1);
            assert(joins(edges, i, k.0, k.1));
        }
        if weights_of(edges).dom().contains(k) {
            let i = choose|i: int| joins(edges, i, k.0, k.1);
            assert(joins(after, i, k.0, k.1));
        }
        if k == (s as int, t as int) {
            assert(joins(after, e, k.0, k.1));
        }
    }
}

/// Whether the records `after` are the records `before` with nothing
/// recorded for the nodes that have come since.
pub open spec fn extends_records(
    before: Seq<Option<ResponseView>>,
    after: Seq<Option<ResponseView>>,
) -> bool {
    &&& before.len() <= after.len()
    &&& forall|i: int| 0 <= i < before.len() ==> after[i] == before[i]
    &&& forall|i: int| before.len() <= i < after.len() ==> after[i] is None
}

/// The sum of the weights of a list of edges.
pub open spec fn total_weight(edges: Seq<(usize, usize, usize)>) -> nat
    decreases edges.len(),
{
    if edges.len() == 0 {
        0
    } else {
        total_weight(edges.drop_last()) + edges.last().2 as nat
    }
}

/// Whether the edges join nodes below `n`, weigh at least one, and no two of
/// them join the same nodes in the same direction.
pub open spec fn valid_edges(edges: Seq<(usize, usize, usize)>, n: int) -> bool {
    &&& forall|e: int|
        0 <= e < edges.len() ==> (#[trigger] edges[e]).0 < n && edges[e].1 < n && 1 <= edges[e].2
    &&& forall|e1: int, e2: int|
        0 <= e1 < edges.len() && 0 <= e2 < edges.len() && (#[trigger] edges[e1]).0 == (
        #[trigger] edges[e2]).0 && edges[e1].1 == edges[e2].1 ==> e1 == e2
}

/// Whether three lists describe a link graph that a store can hold: no
/// resource twice, a mark for every node, valid edges, and all of it within
/// the limits.
pub open spec fn is_snapshot(
    nodes: Seq<Seq<char>>,
    visited: Seq<bool>,
    edges: Seq<(usize, usize, usize)>,
) -> bool {
    &&& nodes.no_duplicates()
    &&& nodes.len() <= NODE_LIMIT
    &&& visited.len() == nodes.len()
    &&& edges.len() <= EDGE_LIMIT
    &&& valid_edges(edges, nodes.len() as int)
    &&& total_weight(edges) <= usize::MAX
}

/// The weights of the first edges of a list sum to no more than those of
/// all, and no edge weighs more than the sum.
proof fn lemma_total_weight(edges: Seq<(usize, usize, usize)>, k: int)
    requires
        0 <= k <= edges.len(),
    ensures
        total_weight(edges.take(k)) <= total_weight(edges),
        forall|e: int| 0 <= e < edges.len() ==> (#[trigger] edges[e]).2 <= total_weight(edges),
    decreases edges.len(),
{
    if edges.len() > 0 {
        let front = edges.drop_last();
        if k < edges.len() {
            lemma_total_weight(front, k);
            assert(front.take(k) == edges.take(k));
        } else {
            lemma_total_weight(front, k - 1);
            assert(edges.take(k) == edges);
        }
        assert forall|e: int| 0 <= e < edges.len() implies (#[trigger] edges[e]).2
            <= total_weight(edges) by {
            if e < front.len() {
                assert(front[e] == edges[e]);
            }
        }
    }
}

/// The link graph with its bookkeeping.
pub struct GeminiWeb {
    graph: GeminiGraph,
    registry: Vec<Resource>,
    visited: Vec<bool>,
    responses: Vec<Option<GeminiResponse>>,
    links: usize,
}

impl View for GeminiWeb {
    type V = WebView;

    closed spec fn view(&self) -> WebView {
        WebView {
            nodes: texts(self.registry@),
            visited: self.visited@,
            weights: weights_of(graph_edges(self.graph)),
        }
    }
}

impl Default for GeminiWeb {
    fn default() -> (web: GeminiWeb)
        ensures
            web.wf(),
            web@ == WebView::empty(),
            web.links() == 0,
            web.edge_list().len() == 0,
    {
        GeminiWeb::new()
    }
}

impl GeminiWeb {
    /// The invariant of the store: its parts agree with each other, and the
    /// graph they stand for is well formed.
    pub closed spec fn wf(&self) -> bool {
        &&& self.visited@.len() == self.registry@.len()
        &&& self.responses@.len() == self.registry@.len()
        &&& self.registry@.len() <= NODE_LIMIT
        &&& graph_nodes(self.graph) == texts(self.registry@)
        &&& graph_edges(self.graph).len() <= EDGE_LIMIT
        &&& texts(self.registry@).no_duplicates()
        &&& sound_edges(
            graph_edges(self.graph),
            self.registry@.len() as int,
            self.links as int,
        )
    }

    /// The number of links merged into the graph so far. No edge weighs
    /// more.
    pub closed spec fn links(&self) -> nat {
        self.links as nat
    }

    /// The resources, by node id.
    pub closed spec fn resources(&self) -> Seq<Resource> {
        self.registry@
    }

    /// The last response recorded for each node, by node id.
    pub closed spec fn responses(&self) -> Seq<Option<ResponseView>> {
        Seq::new(
            self.responses@.len(),
            |i: int|
                match self.responses@[i] {
                    Some(r) => Some(r@),
                    None => None,
                },
        )
    }

    /// The edges, by edge index: source, target and weight.
    pub closed spec fn edge_list(&self) -> Seq<(usize, usize, usize)> {
        graph_edges(self.graph)
    }

    /// Whether the store can take `n` more links: it has room for as many
    /// nodes and edges, and its counter of links can count as many.
    pub open spec fn has_room(&self, n: nat) -> bool {
        &&& self@.nodes.len() + n <= NODE_LIMIT
        &&& self.edge_list().len() + n <= EDGE_LIMIT
        &&& self.links() + n <= usize::MAX
    }

    /// A well-formed store stands for a well-formed graph within the limits.
    pub proof fn lemma_wf(&self)
        requires
            self.wf(),
        ensures
            self@.wf(),
            self@.nodes.len() <= NODE_LIMIT,
            self.edge_list().len() <= EDGE_LIMIT,
            self@.nodes == texts(self.resources()),
            self.responses().len() == self@.nodes.len(),
            forall|s: int, t: int| #[trigger] self@.weight(s, t) <= self.links(),
            forall|e: int|
                0 <= e < self.edge_list().len() ==> self@.weight(
                    (#[trigger] self.edge_list()[e]).0 as int,
                    self.edge_list()[e].1 as int,
                ) == self.edge_list()[e].2,
            forall|s: int, t: int|
                self@.weight(s, t) > 0 ==> exists|e: int| #[trigger]
                    joins(self.edge_list(), e, s, t),
    {
        assert forall|e: int| 0 <= e < self.edge_list().len() implies self@.weight(
            (#[trigger] self.edge_list()[e]).0 as int,
            self.edge_list()[e].1 as int,
        ) == self.edge_list()[e].2 by {
            lemma_weight_of_edge(
                graph_edges(self.graph),
                self.registry@.len() as int,
                self.links as int,
                e,
            );
        }
        assert forall|s: int, t: int| self@.weight(s, t) > 0 implies exists|e: int| #[trigger]
            joins(self.edge_list(), e, s, t) by {
            let e = choose|e: int| joins(graph_edges(self.graph), e, s, t);
            assert(joins(self.edge_list(), e, s, t));
        }
    }

    /// A store without nodes.
    pub fn new() -> (web: GeminiWeb)
        ensures
            web.wf(),
            web@ == WebView::empty(),
            web.links() == 0,
            web.edge_list().len() == 0,
    {
        let web = GeminiWeb {
            graph: graph_new(),
            registry: Vec::new(),
            visited: Vec::new(),
            responses: Vec::new(),
            links: 0,
        };
        assert(texts(web.registry@) == Seq::<Seq<char>>::empty());
        assert(graph_nodes(web.graph) == texts(web.registry@));
        assert(web@.weights =~= Map::<(int, int), nat>::empty());
        web
    }

    /// The number of nodes.
    pub fn node_count(&self) -> (n: usize)
        ensures
            n == self@.nodes.len(),
    {
        self.registry.len()
    }

    /// The number of edges.
    pub fn edge_count(&self) -> (n: usize)
        ensures
            n == self.edge_list().len(),
    {
        graph_edge_count(&self.graph)
    }

    /// The number of links merged so far.
    pub fn link_count(&self) -> (n: usize)
        ensures
            n == self.links(),
    {
        self.links
    }

    /// Whether the store can take `n` more links.
    pub fn can_take(&self, n: usize) -> (b: bool)
        requires
            self.wf(),
        ensures
            b == self.has_room(n as nat),
    {
        let nodes = self.registry.len();
        let edges = graph_edge_count(&self.graph);
        n <= NODE_LIMIT - nodes && n <= EDGE_LIMIT - edges && n <= usize::MAX - self.links
    }

    /// The node id of `url`, where it has been discovered.
    pub fn node_id(&self, url: &Resource) -> (id: Option<usize>)
        requires
            self.wf(),
        ensures
            match id {
                Some(i) => self@.contains(url@.text) && i == self@.id_of(url@.text),
                None => !self@.contains(url@.text),
            },
    {
        let mut i: usize = 0;
        while i < self.registry.len()
            invariant
                i <= self.registry.len(),
                self.wf(),
                forall|j: int| 0 <= j < i ==> texts(self.registry@)[j] != url@.text,
            decreases self.registry.len() - i,
        {
            if self.registry[i].same_as(url) {
                proof {
                    assert(texts(self.registry@)[i as int] == url@.text);
                }
                return Some(i);
            }
            i += 1;
        }
        None
    }

    /// The resource with a node id.
    pub fn node(&self, id: usize) -> (url: &Resource)
        requires
            self.wf(),
            id < self@.nodes.len(),
        ensures
            url@.text == self@.nodes[id as int],
            *url == self.resources()[id as int],
    {
        &self.registry[id]
    }

    /// Discovers `url`: returns its node id, which is a new one only where
    /// `url` has not been discovered before.
    pub fn add_node(&mut self, url: &Resource) -> (id: usize)
        requires
            old(self).wf(),
            old(self)@.contains(url@.text) || old(self)@.nodes.len() < NODE_LIMIT,
        ensures
            final(self).wf(),
            final(self)@ == old(self)@.add_node(url@.text),
            old(self)@.is_part_of(final(self)@),
            id == final(self)@.id_of(url@.text),
            id < final(self)@.nodes.len(),
            final(self).links() == old(self).links(),
            final(self).edge_list() == old(self).edge_list(),
            final(self).responses() == if old(self)@.contains(url@.text) {
                old(self).responses()
            } else {
                old(self).responses().push(None)
            },
    {
        proof {
            lemma_add_node(self@, url@.text);
        }
        match self.node_id(url) {
            Some(id) => id,
            None => {
                let ghost before = texts(self.registry@);
                let id = graph_add_node(&mut self.graph, url.to_text());
                self.registry.push(url.clone());
                self.visited.push(false);
                self.responses.push(None);
                assert(texts(self.registry@) == before.push(url@.text));
                id
            },
        }
    }

    /// The weight of the edge from node `source` to node `target`; zero
    /// without one.
    pub fn edge_weight(&self, source: usize, target: usize) -> (weight: usize)
        requires
            self.wf(),
            source < self@.nodes.len(),
            target < self@.nodes.len(),
        ensures
            weight == self@.weight(source as int, target as int),
    {
        match graph_find_edge(&self.graph, source, target) {
            Some(e) => {
                proof {
                    lemma_weight_of_edge(
                        graph_edges(self.graph),
                        self.registry@.len() as int,
                        self.links as int,
                        e as int,
                    );
                }
                match graph_edge_weight(&self.graph, e) {
                    Some(weight) => weight,
                    None => 0,
                }
            },
            None => 0,
        }
    }

    /// Merges one link from node `source` to `url`.
    pub fn add_url(&mut self, source: usize, url: &Resource) -> (id: usize)
        requires
            old(self).wf(),
            source < old(self)@.nodes.len(),
            old(self).has_room(1),
        ensures
            final(self).wf(),
            final(self)@ == old(self)@.add_edge(source as int, url@.text),
            old(self)@.is_part_of(final(self)@),
            id == final(self)@.id_of(url@.text),
            id < final(self)@.nodes.len(),
            final(self).links() == old(self).links() + 1,
            final(self).edge_list().len() <= old(self).edge_list().len() + 1,
            final(self)@.nodes.len() <= old(self)@.nodes.len() + 1,
            final(self).responses() == if old(self)@.contains(url@.text) {
                old(self).responses()
            } else {
                old(self).responses().push(None)
            },
    {
        proof {
            lemma_add_edge(self@, source as int, url@.text);
        }
        let id = self.add_node(url);
        let ghost edges = graph_edges(self.graph);
        let ghost n = self.registry@.len() as int;
        let found = graph_find_edge(&self.graph, source, id);
        let weight: usize = match found {
            Some(e) => {
                match graph_edge_weight(&self.graph, e) {
                    Some(weight) => weight + 1,
                    None => 1,
                }
            },
            None => 1,
        };
        self.links = self.links + 1;
        let e = graph_update_edge(&mut self.graph, source, id, weight);
        proof {
            match found {
                Some(_) => {
                    lemma_weights_update(edges, n, self.links as int, e as int, weight);
                },
                None => {
                    lemma_weights_push(edges, n, self.links as int, source, id, weight);
                },
            }
        }
        id
    }

    /// Merges the links from node `base_node_id` to each of `urls`, in order:
    /// every target is discovered, and for every link the weight of the edge
    /// to its target grows by one. Returns the node ids of the targets, in
    /// the order of `urls`.
    pub fn add_urls(&mut self, base_node_id: usize, urls: &[Resource]) -> (ids: Vec<usize>)
        requires
            old(self).wf(),
            base_node_id < old(self)@.nodes.len(),
            old(self).has_room(urls@.len()),
        ensures
            final(self).wf(),
            final(self)@ == old(self)@.add_edges(base_node_id as int, texts(urls@)),
            old(self)@.is_part_of(final(self)@),
            ids@.len() == urls@.len(),
            forall|i: int|
                0 <= i < ids@.len() ==> ids@[i] == final(self)@.id_of(#[trigger] texts(urls@)[i])
                    && ids@[i] < final(self)@.nodes.len(),
            final(self).links() == old(self).links() + urls@.len(),
            final(self).edge_list().len() <= old(self).edge_list().len() + urls@.len(),
            final(self)@.nodes.len() <= old(self)@.nodes.len() + urls@.len(),
            extends_records(old(self).responses(), final(self).responses()),
    {
        let mut ids: Vec<usize> = Vec::new();
        let mut i: usize = 0;
        let ghost targets = texts(urls@);
        proof {
            lemma_add_edges(self@, base_node_id as int, targets);
        }
        while i < urls.len()
            invariant
                i <= urls.len(),
                targets == texts(urls@),
                self.wf(),
                base_node_id < old(self)@.nodes.len() <= self@.nodes.len(),
                old(self).has_room(urls@.len()),
                self@ == old(self)@.add_edges(base_node_id as int, targets.take(i as int)),
                ids@.len() == i,
                forall|j: int|
                    0 <= j < i ==> self@.contains(#[trigger] targets[j]) && ids@[j]
                        == self@.id_of(targets[j]) && ids@[j] < self@.nodes.len(),
                self.links() == old(self).links() + i,
                self.edge_list().len() <= old(self).edge_list().len() + i,
                self@.nodes.len() <= old(self)@.nodes.len() + i,
                extends_records(old(self).responses(), self.responses()),
            decreases urls.len() - i,
        {
            let ghost before = self@;
            proof {
                lemma_add_node(before, targets[i as int]);
                assert(targets.take(i + 1).drop_last() == targets.take(i as int));
            }
            let id = self.add_url(base_node_id, &urls[i]);
            ids.push(id);
            i += 1;
        }
        assert(targets.take(urls.len() as int) == targets);
        ids
    }

    /// Whether `url` has been fetched.
    pub fn is_visited(&self, url: &Resource) -> (b: bool)
        requires
            self.wf(),
        ensures
            b == self@.is_visited(url@.text),
    {
        match self.node_id(url) {
            Some(id) => self.visited[id],
            None => false,
        }
    }

    /// Marks `url` as fetched, discovering it where needed. Returns whether
    /// it had been fetched before.
    pub fn try_visit(&mut self, url: &Resource) -> (was_visited: bool)
        requires
            old(self).wf(),
            old(self)@.contains(url@.text) || old(self)@.nodes.len() < NODE_LIMIT,
        ensures
            final(self).wf(),
            final(self)@ == old(self)@.mark_visited(url@.text),
            old(self)@.is_part_of(final(self)@),
            was_visited == old(self)@.is_visited(url@.text),
            final(self).links() == old(self).links(),
            final(self).edge_list() == old(self).edge_list(),
            final(self).responses() == if old(self)@.contains(url@.text) {
                old(self).responses()
            } else {
                old(self).responses().push(None)
            },
    {
        proof {
            lemma_add_node(self@, url@.text);
        }
        let id = self.add_node(url);
        let was_visited = self.visited[id];
        self.visited.set(id, true);
        was_visited
    }

    /// The discovered resources that have not been fetched, in the order of
    /// their discovery.
    pub fn unvisited(&self) -> (urls: Vec<Resource>)
        requires
            self.wf(),
        ensures
            texts(urls@) == self@.unvisited(),
    {
        let mut urls: Vec<Resource> = Vec::new();
        let mut i: usize = 0;
        while i < self.registry.len()
            invariant
                i <= self.registry.len(),
                self.wf(),
                texts(urls@) == pending(self@.nodes.take(i as int), self@.visited.take(i as int)),
            decreases self.registry.len() - i,
        {
            proof {
                lemma_pending_push(
                    self@.nodes.take(i as int),
                    self@.visited.take(i as int),
                    self@.nodes[i as int],
                    self@.visited[i as int],
                );
                assert(self@.nodes.take(i + 1) == self@.nodes.take(i as int).push(
                    self@.nodes[i as int],
                ));
                assert(self@.visited.take(i + 1) == self@.visited.take(i as int).push(
                    self@.visited[i as int],
                ));
            }
            if !self.visited[i] {
                urls.push(self.registry[i].clone());
            }
            i += 1;
        }
        assert(self@.nodes.take(self.registry.len() as int) == self@.nodes);
        assert(self@.visited.take(self.registry.len() as int) == self@.visited);
        urls
    }
}

impl GeminiWeb {
    /// Records `response` as the last one received when `url` was asked
    /// for, discovering `url` where needed. Returns its node id.
    pub fn record_response(&mut self, url: &Resource, response: GeminiResponse) -> (id: usize)
        requires
            old(self).wf(),
            old(self)@.contains(url@.text) || old(self)@.nodes.len() < NODE_LIMIT,
        ensures
            final(self).wf(),
            final(self)@ == old(self)@.add_node(url@.text),
            id == final(self)@.id_of(url@.text),
            final(self).links() == old(self).links(),
            final(self).edge_list() == old(self).edge_list(),
            final(self).responses() == (if old(self)@.contains(url@.text) {
                old(self).responses()
            } else {
                old(self).responses().push(None)
            }).update(id as int, Some(response@)),
    {
        let id = self.add_node(url);
        self.responses.set(id, Some(response));
        id
    }

    /// The last response recorded for `url`.
    pub fn response(&self, url: &Resource) -> (found: Option<&GeminiResponse>)
        requires
            self.wf(),
        ensures
            match found {
                Some(r) => self@.contains(url@.text) && self.responses()[self@.id_of(url@.text)]
                    == Some(r@),
                None => !self@.contains(url@.text) || self.responses()[self@.id_of(url@.text)]
                    is None,
            },
    {
        match self.node_id(url) {
            Some(id) => match &self.responses[id] {
                Some(r) => Some(r),
                None => None,
            },
            None => None,
        }
    }

    /// The resources, by node id.
    pub fn nodes(&self) -> (list: &Vec<Resource>)
        ensures
            list@ == self.resources(),
            texts(list@) == self@.nodes,
    {
        &self.registry
    }

    /// For every node, by node id, whether its resource has been fetched.
    pub fn visited_marks(&self) -> (marks: &Vec<bool>)
        ensures
            marks@ == self@.visited,
    {
        &self.visited
    }

    /// The store that three lists describe: the resources by node id, a
    /// mark for each that says whether it has been fetched, and the edges as
    /// source, target and weight. There is none where the lists are no
    /// snapshot of a link graph. No response is recorded in the store that
    /// is returned, and it counts as many links as its edges weigh together.
    pub fn restore(
        nodes: &Vec<Resource>,
        visited: &Vec<bool>,
        edges: &Vec<(usize, usize, usize)>,
    ) -> (restored: Option<GeminiWeb>)
        ensures
            match restored {
                Some(web) => {
                    &&& is_snapshot(texts(nodes@), visited@, edges@)
                    &&& web.wf()
                    &&& web@.nodes == texts(nodes@)
                    &&& web@.visited == visited@
                    &&& web.edge_list() == edges@
                    &&& web.links() == total_weight(edges@)
                    &&& forall|i: int|
                        0 <= i < web.responses().len() ==> web.responses()[i] is None
                },
                None => !is_snapshot(texts(nodes@), visited@, edges@),
            },
    {
        let n = nodes.len();
        if visited.len() != n || n > NODE_LIMIT || edges.len() > EDGE_LIMIT {
            return None;
        }
        let mut web = GeminiWeb::new();
        let ghost all = texts(nodes@);
        let mut i: usize = 0;
        while i < n
            invariant
                i <= n == nodes.len() == visited.len() <= NODE_LIMIT,
                all == texts(nodes@),
                web.wf(),
                web@.nodes == all.take(i as int),
                web.visited@ == visited@.take(i as int),
                graph_edges(web.graph).len() == 0,
                web.links == 0,
                forall|j: int| 0 <= j < web.responses().len() ==> web.responses()[j] is None,
            decreases n - i,
        {
            proof {
                lemma_add_node(web@, all[i as int]);
            }
            match web.node_id(&nodes[i]) {
                Some(id) => {
                    return None;
                },
                None => {},
            }
            let id = web.add_node(&nodes[i]);
            web.visited.set(id, visited[i]);
            i += 1;
        }
        assert(all.take(n as int) == all);
        let mut e: usize = 0;
        let ghost recorded = web.responses();
        while e < edges.len()
            invariant
                e <= edges.len() <= EDGE_LIMIT,
                n == nodes.len() <= NODE_LIMIT,
                all == texts(nodes@),
                all.no_duplicates(),
                web.wf(),
                web@.nodes == all,
                web.visited@ == visited@,
                graph_edges(web.graph) == edges@.take(e as int),
                web.links == total_weight(edges@.take(e as int)),
                valid_edges(edges@.take(e as int), n as int),
                web.responses() == recorded,
                forall|j: int| 0 <= j < recorded.len() ==> recorded[j] is None,
            decreases edges.len() - e,
        {
            let edge = edges[e];
            let ghost before = edges@.take(e as int);
            let ghost after = edges@.take(e + 1);
            proof {
                assert(after == before.push(edge));
                assert(after.drop_last() == before);
                lemma_total_weight(edges@, e + 1);
            }
            if edge.0 >= n || edge.1 >= n || edge.2 == 0 {
                return None;
            }
            match graph_find_edge(&web.graph, edge.0, edge.1) {
                Some(other) => {
                    return None;
                },
                None => {},
            }
            if edge.2 > usize::MAX - web.links {
                return None;
            }
            web.links = web.links + edge.2;
            proof {
                lemma_weights_push(
                    before,
                    n as int,
                    web.links as int,
                    edge.0,
                    edge.1,
                    edge.2,
                );
            }
            graph_update_edge(&mut web.graph, edge.0, edge.1, edge.2);
            e += 1;
        }
        assert(edges@.take(edges.len() as int) == edges@);
        Some(web)
    }

    /// The graph in the language of the `dot` layout tool. Every node is
    /// labelled with the domain and path of its resource; edges carry no
    /// label. A graph with a resource that has no domain cannot be written.
    pub fn to_dot(&self) -> (text: Result<String, ExportError>)
        requires
            self.wf(),
        ensures
            match text {
                Ok(t) => all_named(self.resources()) && t@ == dot_text(
                    self@.nodes,
                    self.edge_list(),
                    node_labels(self.resources()),
                ),
                Err(e) => !all_named(self.resources()) && e == ExportError::MissingDomain,
            },
    {
        let mut attributes: Vec<String> = Vec::new();
        let mut i: usize = 0;
        while i < self.registry.len()
            invariant
                i <= self.registry.len(),
                string_views(attributes@) == node_labels(self.registry@.take(i as int)),
                all_named(self.registry@.take(i as int)),
            decreases self.registry.len() - i,
        {
            let ghost before = string_views(attributes@);
            match node_attributes(&self.registry[i]) {
                Ok(a) => {
                    attributes.push(a);
                    assert(string_views(attributes@) == before.push(a@));
                },
                Err(e) => {
                    return Err(e);
                },
            }
            i += 1;
        }
        assert(self.registry@.take(self.registry.len() as int) == self.registry@);
        Ok(graph_dot(&self.graph, &attributes))
    }

    /// The edges, by edge index: source, target and weight.
    pub fn edges_vec(&self) -> (list: Vec<(usize, usize, usize)>)
        requires
            self.wf(),
        ensures
            list@ == self.edge_list(),
    {
        let n = graph_edge_count(&self.graph);
        let mut list: Vec<(usize, usize, usize)> = Vec::new();
        let mut e: usize = 0;
        while e < n
            invariant
                e <= n == graph_edges(self.graph).len() <= EDGE_LIMIT,
                list@ == graph_edges(self.graph).take(e as int),
            decreases n - e,
        {
            let ends = graph_edge_endpoints(&self.graph, e);
            let weight = graph_edge_weight(&self.graph, e);
            match (ends, weight) {
                (Some((s, t)), Some(w)) => {
                    list.push((s, t, w));
                },
                _ => {},
            }
            e += 1;
        }
        list
    }
}

} // verus!
