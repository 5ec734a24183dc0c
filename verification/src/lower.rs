//! Lowering a document into a graph of vertices and edges.
//!
//! Each node that a node statement or an edge statement mentions becomes one
//! vertex; the vertices are numbered in the order in which the flat statement
//! list first mentions them. The attributes of all node statements for a node
//! are merged into the vertex, a later pair overriding an earlier one with
//! the same key. An edge statement gives an edge for each pair of neighbours
//! in its chain; where a neighbour is a subgraph, one for each node that the
//! subgraph mentions. Each of these edges carries the attributes of the
//! statement.

use vstd::prelude::*;
use vstd::seq_lib::lemma_concat_associative;
use crate::ast::{alist_view, AListView, Graph, GraphType, GraphView, IdView, ID};
use crate::attrs::{merge, AttrMap};
use crate::declared::{all_declared, check_chains, check_declared, no_empty_chain};
use crate::flat::{
    flatten_stmts, ids_view, items_view, points_view, FlatPoint, FlatPointView, Item, ItemView,
};
use crate::petgraph::{build, PetGraph};
use crate::render::MAX_DEPTH;

verus! {

/// Why a document was not lowered.
#[derive(Debug, Clone, Copy, PartialEq, Eq, Structural)]
pub enum LoweringError {
    /// An endpoint of an edge statement names a node that no node statement
    /// and no other edge statement names.
    UndeclaredEndpoint,
    /// An edge statement has a first endpoint and no other.
    EmptyChain,
    /// Subgraphs are nested deeper than the limit.
    TooDeep,
    /// The graph has more vertices or edges than the target can number.
    TooLarge,
}

/// A vertex: a node with its merged attributes.
#[derive(Debug)]
pub struct Vertex {
    pub id: ID,
    pub attrs: AttrMap,
}

/// An edge between two vertices, given by their numbers.
#[derive(Debug)]
pub struct Link {
    pub source: usize,
    pub target: usize,
    pub attrs: AttrMap,
}

/// A lowered document.
#[derive(Debug)]
pub struct Lowered {
    pub graph_type: GraphType,
    pub vertices: Vec<Vertex>,
    pub links: Vec<Link>,
}

/// What a vertex holds.
pub struct VertexView {
    pub id: IdView,
    pub attrs: Map<IdView, IdView>,
}

/// What an edge holds.
pub struct LinkView {
    pub source: int,
    pub target: int,
    pub attrs: Map<IdView, IdView>,
}

/// What a lowered document holds.
pub struct LoweredView {
    pub graph_type: GraphType,
    pub vertices: Seq<VertexView>,
    pub links: Seq<LinkView>,
}

impl View for Vertex {
    type V = VertexView;

    open spec fn view(&self) -> VertexView {
        VertexView { id: self.id@, attrs: self.attrs@ }
    }
}

impl View for Link {
    type V = LinkView;

    open spec fn view(&self) -> LinkView {
        LinkView { source: self.source as int, target: self.target as int, attrs: self.attrs@ }
    }
}

/// What the vertices hold.
pub open spec fn vertices_view(vertices: Seq<Vertex>) -> Seq<VertexView> {
    Seq::new(vertices.len(), |i: int| vertices[i]@)
}

/// What the edges hold.
pub open spec fn links_view(links: Seq<Link>) -> Seq<LinkView> {
    Seq::new(links.len(), |i: int| links[i]@)
}

impl View for Lowered {
    type V = LoweredView;

    open spec fn view(&self) -> LoweredView {
        LoweredView {
            graph_type: self.graph_type,
            vertices: vertices_view(self.vertices@),
            links: links_view(self.links@),
        }
    }
}

/// Both ends of every edge are numbers of vertices.
pub open spec fn in_bounds(links: Seq<LinkView>, n: int) -> bool {
    forall|i: int|
        0 <= i < links.len() ==> 0 <= (#[trigger] links[i]).source < n && 0 <= links[i].target < n
}

impl LoweredView {
    /// Both ends of every edge are vertices of the document.
    pub open spec fn wf(self) -> bool {
        in_bounds(self.links, self.vertices.len() as int)
    }
}

/// No attribute map of a vertex holds a key twice.
pub open spec fn vertices_wf(vertices: Seq<Vertex>) -> bool {
    forall|i: int| 0 <= i < vertices.len() ==> (#[trigger] vertices[i]).attrs.wf()
}

/// No attribute map of an edge holds a key twice.
pub open spec fn links_wf(links: Seq<Link>) -> bool {
    forall|i: int| 0 <= i < links.len() ==> (#[trigger] links[i]).attrs.wf()
}

impl Lowered {
    /// Both ends of every edge are vertices of the document, and no
    /// attribute map holds a key twice.
    pub open spec fn wf(&self) -> bool {
        &&& self@.wf()
        &&& vertices_wf(self.vertices@)
        &&& links_wf(self.links@)
    }
}

/// Some vertex stands for the node `x`.
pub open spec fn has_vertex(vertices: Seq<VertexView>, x: IdView) -> bool {
    exists|i: int| 0 <= i < vertices.len() && (#[trigger] vertices[i]).id == x
}

/// Vertex `i` is the first that stands for the node `x`.
pub open spec fn is_first(vertices: Seq<VertexView>, x: IdView, i: int) -> bool {
    &&& 0 <= i < vertices.len()
    &&& vertices[i].id == x
    &&& forall|j: int| 0 <= j < i ==> (#[trigger] vertices[j]).id != x
}

/// The number of the first vertex that stands for the node `x`, or the
/// number of vertices where none does.
pub open spec fn position(vertices: Seq<VertexView>, x: IdView) -> int {
    if has_vertex(vertices, x) {
        choose|i: int| is_first(vertices, x, i)
    } else {
        vertices.len() as int
    }
}

/// Every one of the nodes has a vertex.
pub open spec fn has_all(vertices: Seq<VertexView>, xs: Seq<IdView>) -> bool {
    forall|i: int| 0 <= i < xs.len() ==> has_vertex(vertices, #[trigger] xs[i])
}

/// The second list holds the first at its front.
pub open spec fn grows(before: Seq<VertexView>, after: Seq<VertexView>) -> bool {
    &&& before.len() <= after.len()
    &&& forall|i: int| 0 <= i < before.len() ==> (#[trigger] after[i]).id == before[i].id
}

/// The vertices with one for `x` behind them, unless `x` has one.
pub open spec fn touch(vertices: Seq<VertexView>, x: IdView) -> Seq<VertexView> {
    if has_vertex(vertices, x) {
        vertices
    } else {
        vertices.push(VertexView { id: x, attrs: Map::empty() })
    }
}

/// The vertices after a node statement for `x` with these pairs.
pub open spec fn declare(vertices: Seq<VertexView>, x: IdView, pairs: AListView) -> Seq<
    VertexView,
> {
    let touched = touch(vertices, x);
    let i = position(touched, x);
    touched.update(i, VertexView { id: x, attrs: merge(touched[i].attrs, pairs) })
}

/// The vertices with one for each of the nodes that had none, in turn.
pub open spec fn touch_ids(vertices: Seq<VertexView>, xs: Seq<IdView>) -> Seq<VertexView>
    decreases xs.len(),
{
    if xs.len() == 0 {
        vertices
    } else {
        touch(touch_ids(vertices, xs.drop_last()), xs.last())
    }
}

/// The vertices with one for each node of the endpoints that had none.
pub open spec fn touch_points(vertices: Seq<VertexView>, points: Seq<FlatPointView>) -> Seq<
    VertexView,
>
    decreases points.len(),
{
    if points.len() == 0 {
        vertices
    } else {
        touch_ids(touch_points(vertices, points.drop_last()), points.last().ids())
    }
}

/// An edge from vertex `source` to each of the targets.
pub open spec fn fan(
    vertices: Seq<VertexView>,
    source: int,
    targets: Seq<IdView>,
    attrs: Map<IdView, IdView>,
) -> Seq<LinkView>
    decreases targets.len(),
{
    if targets.len() == 0 {
        Seq::empty()
    } else {
        fan(vertices, source, targets.drop_last(), attrs).push(
            LinkView { source, target: position(vertices, targets.last()), attrs },
        )
    }
}

/// An edge from each of the sources to each of the targets, source by
/// source.
pub open spec fn span(
    vertices: Seq<VertexView>,
    sources: Seq<IdView>,
    targets: Seq<IdView>,
    attrs: Map<IdView, IdView>,
) -> Seq<LinkView>
    decreases sources.len(),
{
    if sources.len() == 0 {
        Seq::empty()
    } else {
        span(vertices, sources.drop_last(), targets, attrs) + fan(
            vertices,
            position(vertices, sources.last()),
            targets,
            attrs,
        )
    }
}

/// The edges of a chain: those between each endpoint and the next, in
/// order.
pub open spec fn chain_links(
    vertices: Seq<VertexView>,
    points: Seq<FlatPointView>,
    attrs: Map<IdView, IdView>,
) -> Seq<LinkView>
    decreases points.len(),
{
    if points.len() < 2 {
        Seq::empty()
    } else {
        chain_links(vertices, points.drop_last(), attrs) + span(
            vertices,
            points[points.len() - 2].ids(),
            points.last().ids(),
            attrs,
        )
    }
}

impl LoweredView {
    /// The graph after one more statement.
    pub open spec fn step(self, item: ItemView) -> LoweredView {
        match item {
            ItemView::Node { id, attrs } => LoweredView {
                graph_type: self.graph_type,
                vertices: declare(self.vertices, id, attrs),
                links: self.links,
            },
            ItemView::Edge { points, attrs } => {
                let vertices = touch_points(self.vertices, points);
                LoweredView {
                    graph_type: self.graph_type,
                    vertices,
                    links: self.links + chain_links(vertices, points, merge(Map::empty(), attrs)),
                }
            },
        }
    }
}

/// The graph of a flat statement list.
pub open spec fn lower_items(ty: GraphType, items: Seq<ItemView>) -> LoweredView
    decreases items.len(),
{
    if items.len() == 0 {
        LoweredView { graph_type: ty, vertices: Seq::empty(), links: Seq::empty() }
    } else {
        lower_items(ty, items.drop_last()).step(items.last())
    }
}

impl GraphView {
    /// Why the document cannot be lowered, if it cannot: nesting deeper than
    /// the limit comes first, then an undeclared endpoint, then an edge
    /// statement without a second endpoint.
    pub open spec fn lowering_error(self) -> Option<LoweringError> {
        if self.depth() > MAX_DEPTH {
            Some(LoweringError::TooDeep)
        } else if !all_declared(self.items()) {
            Some(LoweringError::UndeclaredEndpoint)
        } else if !no_empty_chain(self.items()) {
            Some(LoweringError::EmptyChain)
        } else {
            None
        }
    }

    /// The graph of the document.
    pub open spec fn lowered(self) -> LoweredView {
        lower_items(self.graph_type, self.items())
    }
}

/// The first vertex that stands for a node is at its position.
pub proof fn lemma_position(vertices: Seq<VertexView>, x: IdView, i: int)
    requires
        is_first(vertices, x, i),
    ensures
        position(vertices, x) == i,
        has_vertex(vertices, x),
{
    assert(vertices[i].id == x);
    let c = choose|c: int| is_first(vertices, x, c);
    if c < i {
        assert(vertices[c].id != x);
    }
    if i < c {
        assert(vertices[i].id != x);
    }
}

/// A node that has a vertex has its position among the vertices, and the
/// vertex there stands for it.
pub proof fn lemma_position_of_present(vertices: Seq<VertexView>, x: IdView)
    requires
        has_vertex(vertices, x),
    ensures
        is_first(vertices, x, position(vertices, x)),
    decreases vertices.len(),
{
    let w = choose|i: int| 0 <= i < vertices.len() && (#[trigger] vertices[i]).id == x;
    lemma_first_exists(vertices, x, w);
}

proof fn lemma_first_exists(vertices: Seq<VertexView>, x: IdView, w: int)
    requires
        0 <= w < vertices.len(),
        vertices[w].id == x,
    ensures
        exists|i: int| is_first(vertices, x, i),
    decreases w,
{
    if exists|j: int| 0 <= j < w && (#[trigger] vertices[j]).id == x {
        let j = choose|j: int| 0 <= j < w && (#[trigger] vertices[j]).id == x;
        lemma_first_exists(vertices, x, j);
    } else {
        assert(is_first(vertices, x, w));
    }
}

/// Growing the vertices keeps the vertex of each node and its position.
pub proof fn lemma_grows_keeps(before: Seq<VertexView>, after: Seq<VertexView>, x: IdView)
    requires
        grows(before, after),
        has_vertex(before, x),
    ensures
        has_vertex(after, x),
        position(after, x) == position(before, x),
{
    lemma_position_of_present(before, x);
    let i = position(before, x);
    assert(after[i].id == x);
    assert forall|j: int| 0 <= j < i implies (#[trigger] after[j]).id != x by {
        assert(before[j].id != x);
    }
    lemma_position(after, x, i);
}

/// Touching a node keeps the vertices that were there and gives the node
/// one.
pub proof fn lemma_touch(vertices: Seq<VertexView>, x: IdView)
    ensures
        grows(vertices, touch(vertices, x)),
        has_vertex(touch(vertices, x), x),
{
    if !has_vertex(vertices, x) {
        let after = touch(vertices, x);
        assert(after[vertices.len() as int].id == x);
    }
}

/// Growing twice is growing.
pub proof fn lemma_grows_trans(a: Seq<VertexView>, b: Seq<VertexView>, c: Seq<VertexView>)
    requires
        grows(a, b),
        grows(b, c),
    ensures
        grows(a, c),
{
    assert forall|i: int| 0 <= i < a.len() implies (#[trigger] c[i]).id == a[i].id by {
        assert(b[i].id == a[i].id);
    }
}

/// A node statement keeps the vertices that were there and gives its node
/// one.
pub proof fn lemma_declare(vertices: Seq<VertexView>, x: IdView, pairs: AListView)
    ensures
        grows(vertices, declare(vertices, x, pairs)),
        has_vertex(declare(vertices, x, pairs), x),
{
    lemma_touch(vertices, x);
    let touched = touch(vertices, x);
    lemma_position_of_present(touched, x);
    let i = position(touched, x);
    let after = declare(vertices, x, pairs);
    assert(after[i].id == x);
    assert forall|j: int| 0 <= j < vertices.len() implies (#[trigger] after[j]).id
        == vertices[j].id by {
        assert(touched[j].id == vertices[j].id);
    }
}

/// Touching nodes keeps the vertices that were there and gives each of the
/// nodes one.
pub proof fn lemma_touch_ids(vertices: Seq<VertexView>, xs: Seq<IdView>)
    ensures
        grows(vertices, touch_ids(vertices, xs)),
        has_all(touch_ids(vertices, xs), xs),
    decreases xs.len(),
{
    if xs.len() > 0 {
        let front = touch_ids(vertices, xs.drop_last());
        let after = touch_ids(vertices, xs);
        lemma_touch_ids(vertices, xs.drop_last());
        lemma_touch(front, xs.last());
        lemma_grows_trans(vertices, front, after);
        assert forall|i: int| 0 <= i < xs.len() implies has_vertex(after, #[trigger] xs[i]) by {
            if i < xs.len() - 1 {
                assert(xs.drop_last()[i] == xs[i]);
                lemma_grows_keeps(front, after, xs[i]);
            }
        }
    }
}

/// After the endpoints were touched, every node of every endpoint has a
/// vertex.
pub proof fn lemma_touch_points(vertices: Seq<VertexView>, points: Seq<FlatPointView>)
    ensures
        grows(vertices, touch_points(vertices, points)),
        forall|j: int|
            0 <= j < points.len() ==> has_all(
                touch_points(vertices, points),
                (#[trigger] points[j]).ids(),
            ),
    decreases points.len(),
{
    if points.len() > 0 {
        let front = touch_points(vertices, points.drop_last());
        let after = touch_points(vertices, points);
        lemma_touch_points(vertices, points.drop_last());
        lemma_touch_ids(front, points.last().ids());
        lemma_grows_trans(vertices, front, after);
        assert forall|j: int| 0 <= j < points.len() implies has_all(
            after,
            (#[trigger] points[j]).ids(),
        ) by {
            if j < points.len() - 1 {
                let xs = points[j].ids();
                assert(points.drop_last()[j] == points[j]);
                assert forall|i: int| 0 <= i < xs.len() implies has_vertex(
                    after,
                    #[trigger] xs[i],
                ) by {
                    lemma_grows_keeps(front, after, xs[i]);
                }
            }
        }
    }
}

/// The number of the first vertex that stands for `x`, or the number of
/// vertices where none does.
pub fn find_vertex(vertices: &Vec<Vertex>, x: &ID) -> (r: usize)
    ensures
        r == position(vertices_view(vertices@), x@),
        r <= vertices.len(),
        r < vertices.len() <==> has_vertex(vertices_view(vertices@), x@),
{
    let ghost v = vertices_view(vertices@);
    let mut i: usize = 0;
    while i < vertices.len()
        invariant
            i <= vertices.len(),
            v == vertices_view(vertices@),
            forall|k: int| 0 <= k < i ==> (#[trigger] v[k]).id != x@,
        decreases vertices.len() - i,
    {
        if vertices[i].id == *x {
            proof {
                assert(v[i as int].id == x@);
                lemma_position(v, x@, i as int);
            }
            return i;
        }
        i += 1;
    }
    i
}

fn touch_vertex(vertices: &mut Vec<Vertex>, x: &ID) -> (r: usize)
    ensures
        vertices_view(final(vertices)@) == touch(vertices_view(old(vertices)@), x@),
        r == position(vertices_view(final(vertices)@), x@),
        r < final(vertices).len(),
        vertices_wf(old(vertices)@) ==> vertices_wf(final(vertices)@),
{
    let r = find_vertex(vertices, x);
    if r == vertices.len() {
        let ghost before = vertices_view(vertices@);
        vertices.push(Vertex { id: x.clone(), attrs: AttrMap::new() });
        proof {
            let after = vertices_view(vertices@);
            assert(after =~= before.push(VertexView { id: x@, attrs: Map::empty() }));
            assert(after[r as int].id == x@);
            assert forall|j: int| 0 <= j < r implies (#[trigger] after[j]).id != x@ by {
                assert(before[j].id != x@);
            }
            lemma_position(after, x@, r as int);
        }
    }
    r
}

fn declare_vertex(vertices: &mut Vec<Vertex>, x: &ID, pairs: &Vec<(ID, ID)>)
    ensures
        vertices_view(final(vertices)@) == declare(
            vertices_view(old(vertices)@),
            x@,
            alist_view(pairs@),
        ),
        vertices_wf(old(vertices)@) ==> vertices_wf(final(vertices)@),
{
    let i = touch_vertex(vertices, x);
    let ghost touched = vertices_view(vertices@);
    let mut attrs = vertices[i].attrs.clone();
    attrs.extend(pairs);
    vertices.set(i, Vertex { id: x.clone(), attrs });
    assert(vertices_view(vertices@) =~= touched.update(
        i as int,
        VertexView { id: x@, attrs: merge(touched[i as int].attrs, alist_view(pairs@)) },
    ));
}

fn touch_all(vertices: &mut Vec<Vertex>, xs: &Vec<ID>)
    ensures
        vertices_view(final(vertices)@) == touch_ids(
            vertices_view(old(vertices)@),
            ids_view(xs@),
        ),
        vertices_wf(old(vertices)@) ==> vertices_wf(final(vertices)@),
{
    let ghost v = ids_view(xs@);
    let mut i: usize = 0;
    while i < xs.len()
        invariant
            i <= xs.len(),
            v == ids_view(xs@),
            vertices_view(vertices@) == touch_ids(vertices_view(old(vertices)@), v.take(i as int)),
            vertices_wf(old(vertices)@) ==> vertices_wf(vertices@),
        decreases xs.len() - i,
    {
        let _ = touch_vertex(vertices, &xs[i]);
        proof {
            let next = v.take(i + 1);
            assert(next.drop_last() =~= v.take(i as int));
            assert(next.last() == v[i as int]);
        }
        i += 1;
    }
    proof {
        assert(v.take(xs.len() as int) =~= v);
    }
}

fn touch_endpoints(vertices: &mut Vec<Vertex>, points: &Vec<FlatPoint>)
    ensures
        vertices_view(final(vertices)@) == touch_points(
            vertices_view(old(vertices)@),
            points_view(points@),
        ),
        vertices_wf(old(vertices)@) ==> vertices_wf(final(vertices)@),
{
    let ghost v = points_view(points@);
    let mut i: usize = 0;
    while i < points.len()
        invariant
            i <= points.len(),
            v == points_view(points@),
            vertices_view(vertices@) == touch_points(
                vertices_view(old(vertices)@),
                v.take(i as int),
            ),
            vertices_wf(old(vertices)@) ==> vertices_wf(vertices@),
        decreases points.len() - i,
    {
        let ghost before = vertices_view(vertices@);
        match &points[i] {
            FlatPoint::Node(x) => {
                let _ = touch_vertex(vertices, x);
                proof {
                    let one = seq![x@];
                    assert(one.drop_last() =~= Seq::<IdView>::empty());
                    assert(touch_ids(before, one.drop_last()) == before);
                    assert(one.last() == x@);
                }
            },
            FlatPoint::Group(xs) => {
                touch_all(vertices, xs);
            },
        }
        proof {
            let next = v.take(i + 1);
            assert(next.drop_last() =~= v.take(i as int));
            assert(next.last() == v[i as int]);
            assert(v[i as int] == points[i as int]@);
        }
        i += 1;
    }
    proof {
        assert(v.take(points.len() as int) =~= v);
    }
}

/// The nodes that an endpoint stands for.
fn point_ids(p: &FlatPoint) -> (ids: Vec<ID>)
    ensures
        ids_view(ids@) == p@.ids(),
{
    let mut ids: Vec<ID> = Vec::new();
    match p {
        FlatPoint::Node(x) => {
            ids.push(x.clone());
            assert(ids_view(ids@) =~= seq![x@]);
        },
        FlatPoint::Group(xs) => {
            let mut i: usize = 0;
            while i < xs.len()
                invariant
                    i <= xs.len(),
                    ids.len() == i,
                    forall|k: int| 0 <= k < i ==> ids[k] == xs[k],
                decreases xs.len() - i,
            {
                ids.push(xs[i].clone());
                i += 1;
            }
            assert(ids_view(ids@) =~= ids_view(xs@));
        },
    }
    ids
}

fn push_fan(
    vertices: &Vec<Vertex>,
    source: usize,
    targets: &Vec<ID>,
    attrs: &AttrMap,
    links: &mut Vec<Link>,
)
    requires
        source < vertices.len(),
        has_all(vertices_view(vertices@), ids_view(targets@)),
        in_bounds(links_view(old(links)@), vertices.len() as int),
    ensures
        links_view(final(links)@) == links_view(old(links)@) + fan(
            vertices_view(vertices@),
            source as int,
            ids_view(targets@),
            attrs@,
        ),
        in_bounds(links_view(final(links)@), vertices.len() as int),
        attrs.wf() && links_wf(old(links)@) ==> links_wf(final(links)@),
{
    let ghost vs = vertices_view(vertices@);
    let ghost ts = ids_view(targets@);
    let ghost base = links_view(links@);
    let mut i: usize = 0;
    assert(links_view(links@) =~= base + fan(vs, source as int, ts.take(0), attrs@));
    while i < targets.len()
        invariant
            i <= targets.len(),
            source < vertices.len(),
            vs == vertices_view(vertices@),
            ts == ids_view(targets@),
            has_all(vs, ts),
            links_view(links@) == base + fan(vs, source as int, ts.take(i as int), attrs@),
            in_bounds(links_view(links@), vertices.len() as int),
            attrs.wf() && links_wf(old(links)@) ==> links_wf(links@),
        decreases targets.len() - i,
    {
        assert(has_vertex(vs, ts[i as int]));
        let target = find_vertex(vertices, &targets[i]);
        let link = Link { source, target, attrs: attrs.clone() };
        let ghost before = links_view(links@);
        links.push(link);
        proof {
            let next = ts.take(i + 1);
            assert(next.drop_last() =~= ts.take(i as int));
            assert(next.last() == ts[i as int]);
            assert(links_view(links@) =~= before.push(link@));
            assert(links_view(links@) =~= base + fan(vs, source as int, next, attrs@));
        }
        i += 1;
    }
    proof {
        assert(ts.take(targets.len() as int) =~= ts);
    }
}

fn push_span(
    vertices: &Vec<Vertex>,
    sources: &Vec<ID>,
    targets: &Vec<ID>,
    attrs: &AttrMap,
    links: &mut Vec<Link>,
)
    requires
        has_all(vertices_view(vertices@), ids_view(sources@)),
        has_all(vertices_view(vertices@), ids_view(targets@)),
        in_bounds(links_view(old(links)@), vertices.len() as int),
    ensures
        links_view(final(links)@) == links_view(old(links)@) + span(
            vertices_view(vertices@),
            ids_view(sources@),
            ids_view(targets@),
            attrs@,
        ),
        in_bounds(links_view(final(links)@), vertices.len() as int),
        attrs.wf() && links_wf(old(links)@) ==> links_wf(final(links)@),
{
    let ghost vs = vertices_view(vertices@);
    let ghost ss = ids_view(sources@);
    let ghost ts = ids_view(targets@);
    let ghost base = links_view(links@);
    let mut i: usize = 0;
    assert(links_view(links@) =~= base + span(vs, ss.take(0), ts, attrs@));
    while i < sources.len()
        invariant
            i <= sources.len(),
            vs == vertices_view(vertices@),
            ss == ids_view(sources@),
            ts == ids_view(targets@),
            has_all(vs, ss),
            has_all(vs, ts),
            links_view(links@) == base + span(vs, ss.take(i as int), ts, attrs@),
            in_bounds(links_view(links@), vertices.len() as int),
            attrs.wf() && links_wf(old(links)@) ==> links_wf(links@),
        decreases sources.len() - i,
    {
        assert(has_vertex(vs, ss[i as int]));
        let source = find_vertex(vertices, &sources[i]);
        push_fan(vertices, source, targets, attrs, links);
        proof {
            let next = ss.take(i + 1);
            assert(next.drop_last() =~= ss.take(i as int));
            assert(next.last() == ss[i as int]);
            lemma_concat_associative(
                base,
                span(vs, ss.take(i as int), ts, attrs@),
                fan(vs, source as int, ts, attrs@),
            );
        }
        i += 1;
    }
    proof {
        assert(ss.take(sources.len() as int) =~= ss);
    }
}

fn push_chain(
    vertices: &Vec<Vertex>,
    points: &Vec<FlatPoint>,
    attrs: &AttrMap,
    links: &mut Vec<Link>,
)
    requires
        forall|j: int|
            0 <= j < points.len() ==> has_all(
                vertices_view(vertices@),
                (#[trigger] points_view(points@)[j]).ids(),
            ),
        in_bounds(links_view(old(links)@), vertices.len() as int),
    ensures
        links_view(final(links)@) == links_view(old(links)@) + chain_links(
            vertices_view(vertices@),
            points_view(points@),
            attrs@,
        ),
        in_bounds(links_view(final(links)@), vertices.len() as int),
        attrs.wf() && links_wf(old(links)@) ==> links_wf(final(links)@),
{
    let ghost vs = vertices_view(vertices@);
    let ghost ps = points_view(points@);
    let ghost base = links_view(links@);
    if points.len() < 2 {
        assert(links_view(links@) =~= base + chain_links(vs, ps, attrs@));
        return ;
    }
    let mut j: usize = 1;
    assert(links_view(links@) =~= base + chain_links(vs, ps.take(1), attrs@));
    while j < points.len()
        invariant
            1 <= j <= points.len(),
            vs == vertices_view(vertices@),
            ps == points_view(points@),
            forall|k: int| 0 <= k < points.len() ==> has_all(vs, (#[trigger] ps[k]).ids()),
            links_view(links@) == base + chain_links(vs, ps.take(j as int), attrs@),
            in_bounds(links_view(links@), vertices.len() as int),
            attrs.wf() && links_wf(old(links)@) ==> links_wf(links@),
        decreases points.len() - j,
    {
        let sources = point_ids(&points[j - 1]);
        let targets = point_ids(&points[j]);
        proof {
            assert(ps[j - 1] == points[j - 1]@);
            assert(ps[j as int] == points[j as int]@);
            assert(has_all(vs, ps[j - 1].ids()));
            assert(has_all(vs, ps[j as int].ids()));
        }
        push_span(vertices, &sources, &targets, attrs, links);
        proof {
            let next = ps.take(j + 1);
            assert(next.drop_last() =~= ps.take(j as int));
            assert(next.last() == ps[j as int]);
            assert(next[next.len() - 2] == ps[j - 1]);
            lemma_concat_associative(
                base,
                chain_links(vs, ps.take(j as int), attrs@),
                span(vs, ps[j - 1].ids(), ps[j as int].ids(), attrs@),
            );
        }
        j += 1;
    }
    proof {
        assert(ps.take(points.len() as int) =~= ps);
    }
}

/// The graph of a flat statement list.
pub fn lower_flat(ty: GraphType, items: &Vec<Item>) -> (res: Lowered)
    ensures
        res@ == lower_items(ty, items_view(items@)),
        res.wf(),
{
    let ghost v = items_view(items@);
    let mut vertices: Vec<Vertex> = Vec::new();
    let mut links: Vec<Link> = Vec::new();
    let mut i: usize = 0;
    proof {
        assert(vertices_view(vertices@) =~= Seq::<VertexView>::empty());
        assert(links_view(links@) =~= Seq::<LinkView>::empty());
    }
    while i < items.len()
        invariant
            i <= items.len(),
            v == items_view(items@),
            lower_items(ty, v.take(i as int)) == (LoweredView {
                graph_type: ty,
                vertices: vertices_view(vertices@),
                links: links_view(links@),
            }),
            in_bounds(links_view(links@), vertices.len() as int),
            vertices_wf(vertices@),
            links_wf(links@),
        decreases items.len() - i,
    {
        let ghost before = vertices_view(vertices@);
        proof {
            let next = v.take(i + 1);
            assert(next.drop_last() =~= v.take(i as int));
            assert(next.last() == v[i as int]);
            assert(v[i as int] == items[i as int]@);
        }
        match &items[i] {
            Item::Node { id, attrs } => {
                declare_vertex(&mut vertices, id, attrs);
                proof {
                    lemma_declare(before, id@, alist_view(attrs@));
                }
            },
            Item::Edge { points, attrs } => {
                touch_endpoints(&mut vertices, points);
                proof {
                    lemma_touch_points(before, points_view(points@));
                }
                let mut edge_attrs = AttrMap::new();
                edge_attrs.extend(attrs);
                push_chain(&vertices, points, &edge_attrs, &mut links);
            },
        }
        i += 1;
    }
    proof {
        assert(v.take(items.len() as int) =~= v);
    }
    Lowered { graph_type: ty, vertices, links }
}

impl Graph {
    /// Lowers the document into vertices and edges, or says why it cannot
    /// be lowered.
    pub fn lower(&self) -> (res: Result<Lowered, LoweringError>)
        ensures
            match res {
                Ok(lowered) => self@.lowering_error() is None && lowered@ == self@.lowered()
                    && lowered.wf(),
                Err(e) => self@.lowering_error() == Some(e),
            },
    {
        let mut items: Vec<Item> = Vec::new();
        assert(items_view(items@) =~= Seq::<ItemView>::empty());
        match flatten_stmts(&self.stmt_list, MAX_DEPTH, &mut items) {
            Err(e) => {
                return Err(e);
            },
            Ok(()) => {},
        }
        assert(items_view(items@) =~= self@.items());
        if !check_declared(&items) {
            return Err(LoweringError::UndeclaredEndpoint);
        }
        if !check_chains(&items) {
            return Err(LoweringError::EmptyChain);
        }
        Ok(lower_flat(self.graph_type, &items))
    }
}

impl Graph {
    /// Lowers the document into a graph of petgraph, directed where the
    /// document is a digraph, or says why it cannot: for one of the reasons
    /// for which the document cannot be lowered at all, or because it has
    /// more vertices or edges than 32-bit indices can number.
    pub fn to_petgraph(&self) -> (res: Result<PetGraph, LoweringError>)
        ensures
            match res {
                Ok(g) => self@.lowering_error() is None && self@.lowered().fits() && g.represents(
                    self@.lowered(),
                ),
                Err(e) => match self@.lowering_error() {
                    Some(cause) => e == cause,
                    None => e == LoweringError::TooLarge && !self@.lowered().fits(),
                },
            },
    {
        let lowered = match self.lower() {
            Err(e) => {
                return Err(e);
            },
            Ok(lowered) => lowered,
        };
        match build(&lowered) {
            Some(g) => Ok(g),
            None => Err(LoweringError::TooLarge),
        }
    }
}

} // verus!
