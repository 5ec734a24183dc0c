//! The lowered document as a graph of the `petgraph` crate.
//!
//! The weight of a node is the attribute map of its vertex, the weight of an
//! edge the attribute map of the edge. Nodes and edges are added in the order
//! of the lowered document, so that they keep their numbers.

use vstd::prelude::*;
use crate::ast::{GraphType, IdView};
use crate::attrs::AttrMap;
use crate::lower::{in_bounds, LinkView, Lowered, LoweredView, VertexView};

verus! {

/// A graph of petgraph with directed edges, its nodes and edges weighted
/// with attribute maps. Nothing inside it is seen in proofs: `directed_nodes`
/// and `directed_edges` stand for what it holds.
#[verifier::external_body]
pub struct DiGraph {
    pub inner: petgraph::graph::DiGraph<AttrMap, AttrMap>,
}

/// A graph of petgraph with undirected edges, its nodes and edges weighted
/// with attribute maps. Nothing inside it is seen in proofs:
/// `undirected_nodes` and `undirected_edges` stand for what it holds.
#[verifier::external_body]
pub struct UnGraph {
    pub inner: petgraph::graph::UnGraph<AttrMap, AttrMap>,
}

/// A lowered document: directed or undirected as the document says.
pub enum PetGraph {
    Directed(DiGraph),
    Undirected(UnGraph),
}

/// The weights of the nodes of a directed graph, by node index.
pub uninterp spec fn directed_nodes(
    g: DiGraph,
) -> Seq<Map<IdView, IdView>>;

/// The edges of a directed graph, by edge index: the indices of the source
/// and the target node, and the weight.
pub uninterp spec fn directed_edges(
    g: DiGraph,
) -> Seq<LinkView>;

/// The weights of the nodes of an undirected graph, by node index.
pub uninterp spec fn undirected_nodes(
    g: UnGraph,
) -> Seq<Map<IdView, IdView>>;

/// The edges of an undirected graph, by edge index: the indices of the two
/// nodes in the order in which they were given, and the weight.
pub uninterp spec fn undirected_edges(
    g: UnGraph,
) -> Seq<LinkView>;

/// `Graph::new` of petgraph: a directed graph without nodes and without
/// edges.
#[verifier::external_body]
fn directed_new() -> (graph: DiGraph)
    ensures
        directed_nodes(graph).len() == 0,
        directed_edges(graph).len() == 0,
{
    DiGraph { inner: petgraph::graph::Graph::new() }
}

/// `Graph::add_node` of petgraph on a directed graph: the node is put behind
/// the others and its index, the number of nodes before the call, is
/// returned; the edges stay. It panics where the graph holds as many nodes
/// as the index type allows, which the precondition leaves out.
#[verifier::external_body]
fn directed_add_node(g: &mut DiGraph, weight: AttrMap) -> (index: usize)
    requires
        directed_nodes(*old(g)).len() < u32::MAX,
    ensures
        directed_nodes(*final(g)) == directed_nodes(*old(g)).push(weight@),
        directed_edges(*final(g)) == directed_edges(*old(g)),
        index == directed_nodes(*old(g)).len(),
{
    g.inner.add_node(weight).index()
}

/// `Graph::add_edge` of petgraph on a directed graph: the edge is put behind
/// the others and its index, the number of edges before the call, is
/// returned; the nodes stay. It panics where one of the two nodes does not
/// exist or the graph holds as many edges as the index type allows, which
/// the precondition leaves out.
#[verifier::external_body]
fn directed_add_edge(g: &mut DiGraph, source: usize, target: usize, weight: AttrMap) -> (index:
    usize)
    requires
        source < directed_nodes(*old(g)).len(),
        target < directed_nodes(*old(g)).len(),
        directed_nodes(*old(g)).len() <= u32::MAX,
        directed_edges(*old(g)).len() < u32::MAX,
    ensures
        directed_nodes(*final(g)) == directed_nodes(*old(g)),
        directed_edges(*final(g)) == directed_edges(*old(g)).push(
            LinkView { source: source as int, target: target as int, attrs: weight@ },
        ),
        index == directed_edges(*old(g)).len(),
{
    g.inner.add_edge(
        petgraph::graph::NodeIndex::new(source),
        petgraph::graph::NodeIndex::new(target),
        weight,
    ).index()
}

/// `Graph::new_undirected` of petgraph: an undirected graph without nodes
/// and without edges.
#[verifier::external_body]
fn undirected_new() -> (graph: UnGraph)
    ensures
        undirected_nodes(graph).len() == 0,
        undirected_edges(graph).len() == 0,
{
    UnGraph { inner: petgraph::graph::Graph::new_undirected() }
}

/// `Graph::add_node` of petgraph on an undirected graph: as on a directed
/// one.
#[verifier::external_body]
fn undirected_add_node(g: &mut UnGraph, weight: AttrMap) -> (index: usize)
    requires
        undirected_nodes(*old(g)).len() < u32::MAX,
    ensures
        undirected_nodes(*final(g)) == undirected_nodes(*old(g)).push(weight@),
        undirected_edges(*final(g)) == undirected_edges(*old(g)),
        index == undirected_nodes(*old(g)).len(),
{
    g.inner.add_node(weight).index()
}

/// `Graph::add_edge` of petgraph on an undirected graph: as on a directed
/// one; the two nodes are kept in the order given.
#[verifier::external_body]
fn undirected_add_edge(g: &mut UnGraph, source: usize, target: usize, weight: AttrMap) -> (index:
    usize)
    requires
        source < undirected_nodes(*old(g)).len(),
        target < undirected_nodes(*old(g)).len(),
        undirected_nodes(*old(g)).len() <= u32::MAX,
        undirected_edges(*old(g)).len() < u32::MAX,
    ensures
        undirected_nodes(*final(g)) == undirected_nodes(*old(g)),
        undirected_edges(*final(g)) == undirected_edges(*old(g)).push(
            LinkView { source: source as int, target: target as int, attrs: weight@ },
        ),
        index == undirected_edges(*old(g)).len(),
{
    g.inner.add_edge(
        petgraph::graph::NodeIndex::new(source),
        petgraph::graph::NodeIndex::new(target),
        weight,
    ).index()
}

/// The attribute maps of the vertices, in order.
pub open spec fn vertex_attrs(vertices: Seq<VertexView>) -> Seq<Map<IdView, IdView>> {
    Seq::new(vertices.len(), |i: int| vertices[i].attrs)
}

impl LoweredView {
    /// The graph is small enough for 32-bit node and edge indices.
    pub open spec fn fits(self) -> bool {
        self.vertices.len() <= u32::MAX && self.links.len() <= u32::MAX
    }
}

impl PetGraph {
    /// The graph has the direction, the nodes and the edges of the lowered
    /// document, in the same order.
    pub open spec fn represents(self, lowered: LoweredView) -> bool {
        match self {
            PetGraph::Directed(g) => {
                &&& lowered.graph_type == GraphType::Digraph
                &&& directed_nodes(g) == vertex_attrs(lowered.vertices)
                &&& directed_edges(g) == lowered.links
            },
            PetGraph::Undirected(g) => {
                &&& lowered.graph_type == GraphType::Graph
                &&& undirected_nodes(g) == vertex_attrs(lowered.vertices)
                &&& undirected_edges(g) == lowered.links
            },
        }
    }
}

fn build_directed(lowered: &Lowered) -> (g: DiGraph)
    requires
        lowered@.wf(),
        lowered@.fits(),
    ensures
        directed_nodes(g) == vertex_attrs(lowered@.vertices),
        directed_edges(g) == lowered@.links,
{
    let ghost vs = lowered@.vertices;
    let ghost ls = lowered@.links;
    let mut g = directed_new();
    let mut i: usize = 0;
    assert(directed_nodes(g) =~= vertex_attrs(vs).take(0));
    while i < lowered.vertices.len()
        invariant
            i <= lowered.vertices.len(),
            vs == lowered@.vertices,
            lowered@.fits(),
            directed_nodes(g) == vertex_attrs(vs).take(i as int),
            directed_edges(g).len() == 0,
        decreases lowered.vertices.len() - i,
    {
        let _ = directed_add_node(&mut g, lowered.vertices[i].attrs.clone());
        assert(directed_nodes(g) =~= vertex_attrs(vs).take(i + 1));
        i += 1;
    }
    assert(vertex_attrs(vs).take(lowered.vertices.len() as int) =~= vertex_attrs(vs));
    let mut j: usize = 0;
    assert(directed_edges(g) =~= ls.take(0));
    while j < lowered.links.len()
        invariant
            j <= lowered.links.len(),
            vs == lowered@.vertices,
            ls == lowered@.links,
            lowered@.wf(),
            lowered@.fits(),
            directed_nodes(g) == vertex_attrs(vs),
            directed_edges(g) == ls.take(j as int),
        decreases lowered.links.len() - j,
    {
        let link = &lowered.links[j];
        assert(ls[j as int] == link@);
        let _ = directed_add_edge(&mut g, link.source, link.target, link.attrs.clone());
        assert(directed_edges(g) =~= ls.take(j + 1));
        j += 1;
    }
    assert(ls.take(lowered.links.len() as int) =~= ls);
    g
}

fn build_undirected(lowered: &Lowered) -> (g: UnGraph)
    requires
        lowered@.wf(),
        lowered@.fits(),
    ensures
        undirected_nodes(g) == vertex_attrs(lowered@.vertices),
        undirected_edges(g) == lowered@.links,
{
    let ghost vs = lowered@.vertices;
    let ghost ls = lowered@.links;
    let mut g = undirected_new();
    let mut i: usize = 0;
    assert(undirected_nodes(g) =~= vertex_attrs(vs).take(0));
    while i < lowered.vertices.len()
        invariant
            i <= lowered.vertices.len(),
            vs == lowered@.vertices,
            lowered@.fits(),
            undirected_nodes(g) == vertex_attrs(vs).take(i as int),
            undirected_edges(g).len() == 0,
        decreases lowered.vertices.len() - i,
    {
        let _ = undirected_add_node(&mut g, lowered.vertices[i].attrs.clone());
        assert(undirected_nodes(g) =~= vertex_attrs(vs).take(i + 1));
        i += 1;
    }
    assert(vertex_attrs(vs).take(lowered.vertices.len() as int) =~= vertex_attrs(vs));
    let mut j: usize = 0;
    assert(undirected_edges(g) =~= ls.take(0));
    while j < lowered.links.len()
        invariant
            j <= lowered.links.len(),
            vs == lowered@.vertices,
            ls == lowered@.links,
            lowered@.wf(),
            lowered@.fits(),
            undirected_nodes(g) == vertex_attrs(vs),
            undirected_edges(g) == ls.take(j as int),
        decreases lowered.links.len() - j,
    {
        let link = &lowered.links[j];
        assert(ls[j as int] == link@);
        let _ = undirected_add_edge(&mut g, link.source, link.target, link.attrs.clone());
        assert(undirected_edges(g) =~= ls.take(j + 1));
        j += 1;
    }
    assert(ls.take(lowered.links.len() as int) =~= ls);
    g
}

/// The lowered document as a graph of petgraph, where its edges join
/// vertices that it has and it is small enough for 32-bit indices.
pub fn build(lowered: &Lowered) -> (res: Option<PetGraph>)
    ensures
        match res {
            Some(g) => lowered@.wf() && lowered@.fits() && g.represents(lowered@),
            None => !(lowered@.wf() && lowered@.fits()),
        },
{
    if lowered.vertices.len() > 0xffff_ffff || lowered.links.len() > 0xffff_ffff {
        return None;
    }
    let n = lowered.vertices.len();
    let mut j: usize = 0;
    while j < lowered.links.len()
        invariant
            j <= lowered.links.len(),
            n == lowered.vertices.len(),
            in_bounds(lowered@.links.take(j as int), n as int),
        decreases lowered.links.len() - j,
    {
        assert(lowered@.links[j as int] == lowered.links[j as int]@);
        if lowered.links[j].source >= n || lowered.links[j].target >= n {
            return None;
        }
        j += 1;
    }
    assert(lowered@.links.take(lowered.links.len() as int) =~= lowered@.links);
    match lowered.graph_type {
        GraphType::Digraph => Some(PetGraph::Directed(build_directed(lowered))),
        GraphType::Graph => Some(PetGraph::Undirected(build_undirected(lowered))),
    }
}

} // verus!
