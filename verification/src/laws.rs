//! What holds of every lowered document.

use vstd::prelude::*;
use crate::ast::{AListView, EdgePointView, GraphType, GraphView, IdView, StmtView};
use crate::declared::{
    all_declared, chain_ok, declared_for, endpoint_ok, endpoints, item_declared, no_empty_chain,
};
use crate::flat::{
    add_id, add_ids, add_points, chain_flat, chain_items, items_ids, stmts_items, FlatPointView,
    ItemView,
};
use crate::attrs::merge;
use crate::lower::{
    chain_links, declare, fan, grows, has_all, has_vertex, in_bounds, lemma_declare,
    lemma_grows_keeps,
    lemma_grows_trans, lemma_position_of_present, lemma_touch, lemma_touch_points, lower_items,
    position, span, touch, touch_ids, touch_points, LinkView, LoweringError, VertexView,
};
use crate::render::MAX_DEPTH;

verus! {

/// The nodes of the vertices, in order.
pub open spec fn vertex_ids(vertices: Seq<VertexView>) -> Seq<IdView> {
    Seq::new(vertices.len(), |i: int| vertices[i].id)
}

/// One of the endpoints stands for the node `x`.
pub open spec fn points_mention(points: Seq<FlatPointView>, x: IdView) -> bool {
    exists|j: int| 0 <= j < points.len() && (#[trigger] points[j]).ids().contains(x)
}

impl ItemView {
    /// The statement is a node statement for `x`, or an edge statement with
    /// an endpoint that stands for `x`.
    pub open spec fn mentions(self, x: IdView) -> bool {
        match self {
            ItemView::Node { id, attrs } => id == x,
            ItemView::Edge { points, attrs } => points_mention(points, x),
        }
    }
}

/// One of the statements mentions the node `x`.
pub open spec fn mentioned(items: Seq<ItemView>, x: IdView) -> bool {
    exists|k: int| 0 <= k < items.len() && (#[trigger] items[k]).mentions(x)
}

proof fn lemma_has_vertex(vertices: Seq<VertexView>, x: IdView)
    ensures
        has_vertex(vertices, x) <==> vertex_ids(vertices).contains(x),
{
    let ids = vertex_ids(vertices);
    if has_vertex(vertices, x) {
        let i = choose|i: int| 0 <= i < vertices.len() && (#[trigger] vertices[i]).id == x;
        assert(ids[i] == x);
    }
    if ids.contains(x) {
        let i = choose|i: int| 0 <= i < ids.len() && ids[i] == x;
        assert(vertices[i].id == x);
    }
}

proof fn lemma_touch_ids_of(vertices: Seq<VertexView>, x: IdView)
    ensures
        vertex_ids(touch(vertices, x)) == add_id(vertex_ids(vertices), x),
{
    lemma_has_vertex(vertices, x);
    assert(vertex_ids(touch(vertices, x)) =~= add_id(vertex_ids(vertices), x));
}

proof fn lemma_declare_ids_of(vertices: Seq<VertexView>, x: IdView, pairs: AListView)
    ensures
        vertex_ids(declare(vertices, x, pairs)) == add_id(vertex_ids(vertices), x),
{
    lemma_touch_ids_of(vertices, x);
    lemma_touch(vertices, x);
    lemma_position_of_present(touch(vertices, x), x);
    assert(vertex_ids(declare(vertices, x, pairs)) =~= vertex_ids(touch(vertices, x)));
}

proof fn lemma_touch_all_ids_of(vertices: Seq<VertexView>, xs: Seq<IdView>)
    ensures
        vertex_ids(touch_ids(vertices, xs)) == add_ids(vertex_ids(vertices), xs),
    decreases xs.len(),
{
    if xs.len() > 0 {
        lemma_touch_all_ids_of(vertices, xs.drop_last());
        lemma_touch_ids_of(touch_ids(vertices, xs.drop_last()), xs.last());
    }
}

proof fn lemma_touch_points_ids_of(vertices: Seq<VertexView>, points: Seq<FlatPointView>)
    ensures
        vertex_ids(touch_points(vertices, points)) == add_points(vertex_ids(vertices), points),
    decreases points.len(),
{
    if points.len() > 0 {
        lemma_touch_points_ids_of(vertices, points.drop_last());
        lemma_touch_all_ids_of(touch_points(vertices, points.drop_last()), points.last().ids());
    }
}

/// The vertices of a lowered document stand for the nodes that its
/// statements mention, in the order in which they are first mentioned.
pub proof fn lemma_vertices_are_the_mentioned_nodes(ty: GraphType, items: Seq<ItemView>)
    ensures
        vertex_ids(lower_items(ty, items).vertices) == items_ids(items),
    decreases items.len(),
{
    if items.len() == 0 {
        assert(vertex_ids(lower_items(ty, items).vertices) =~= items_ids(items));
    } else {
        let before = lower_items(ty, items.drop_last());
        lemma_vertices_are_the_mentioned_nodes(ty, items.drop_last());
        match items.last() {
            ItemView::Node { id, attrs } => {
                lemma_declare_ids_of(before.vertices, id, attrs);
            },
            ItemView::Edge { points, attrs } => {
                lemma_touch_points_ids_of(before.vertices, points);
            },
        }
    }
}

proof fn lemma_add_id(ids: Seq<IdView>, x: IdView, y: IdView)
    ensures
        ids.no_duplicates() ==> add_id(ids, x).no_duplicates(),
        add_id(ids, x).contains(y) <==> ids.contains(y) || y == x,
{
    let after = add_id(ids, x);
    if ids.contains(x) {
    } else {
        assert(after[ids.len() as int] == x);
        if ids.contains(y) {
            let i = choose|i: int| 0 <= i < ids.len() && ids[i] == y;
            assert(after[i] == y);
        }
        if after.contains(y) {
            let i = choose|i: int| 0 <= i < after.len() && after[i] == y;
            if i < ids.len() {
                assert(ids[i] == y);
            }
        }
        if ids.no_duplicates() {
            assert forall|i: int, j: int|
                0 <= i < after.len() && 0 <= j < after.len() && i != j implies after[i]
                != after[j] by {
                if i < ids.len() && j < ids.len() {
                    assert(ids[i] != ids[j]);
                } else if i < ids.len() {
                    assert(ids[i] == after[i]);
                } else {
                    assert(ids[j] == after[j]);
                }
            }
        }
    }
}

proof fn lemma_add_ids(ids: Seq<IdView>, xs: Seq<IdView>, y: IdView)
    ensures
        ids.no_duplicates() ==> add_ids(ids, xs).no_duplicates(),
        add_ids(ids, xs).contains(y) <==> ids.contains(y) || xs.contains(y),
    decreases xs.len(),
{
    if xs.len() > 0 {
        let front = xs.drop_last();
        lemma_add_ids(ids, front, y);
        lemma_add_id(add_ids(ids, front), xs.last(), y);
        if front.contains(y) {
            let i = choose|i: int| 0 <= i < front.len() && front[i] == y;
            assert(xs[i] == y);
        }
        if xs.contains(y) {
            let i = choose|i: int| 0 <= i < xs.len() && xs[i] == y;
            if i < front.len() {
                assert(front[i] == y);
            }
        }
    }
}

proof fn lemma_add_points(ids: Seq<IdView>, points: Seq<FlatPointView>, y: IdView)
    ensures
        ids.no_duplicates() ==> add_points(ids, points).no_duplicates(),
        add_points(ids, points).contains(y) <==> ids.contains(y) || points_mention(points, y),
    decreases points.len(),
{
    if points.len() > 0 {
        let front = points.drop_last();
        lemma_add_points(ids, front, y);
        lemma_add_ids(add_points(ids, front), points.last().ids(), y);
        if points_mention(front, y) {
            let j = choose|j: int| 0 <= j < front.len() && (#[trigger] front[j]).ids().contains(y);
            assert(points[j].ids().contains(y));
        }
        if points_mention(points, y) {
            let j = choose|j: int|
                0 <= j < points.len() && (#[trigger] points[j]).ids().contains(y);
            if j < front.len() {
                assert(front[j].ids().contains(y));
            }
        }
        if points.last().ids().contains(y) {
            assert(points[points.len() - 1].ids().contains(y));
        }
    }
}

proof fn lemma_items_ids(items: Seq<ItemView>, y: IdView)
    ensures
        items_ids(items).no_duplicates(),
        items_ids(items).contains(y) <==> mentioned(items, y),
    decreases items.len(),
{
    if items.len() > 0 {
        let front = items.drop_last();
        lemma_items_ids(front, y);
        match items.last() {
            ItemView::Node { id, attrs } => {
                lemma_add_id(items_ids(front), id, y);
            },
            ItemView::Edge { points, attrs } => {
                lemma_add_points(items_ids(front), points, y);
            },
        }
        if mentioned(front, y) {
            let k = choose|k: int| 0 <= k < front.len() && (#[trigger] front[k]).mentions(y);
            assert(items[k].mentions(y));
        }
        if mentioned(items, y) {
            let k = choose|k: int| 0 <= k < items.len() && (#[trigger] items[k]).mentions(y);
            if k < front.len() {
                assert(front[k].mentions(y));
            }
        }
        if items.last().mentions(y) {
            assert(items[items.len() - 1].mentions(y));
        }
    }
}

/// Each node that a statement mentions has exactly one vertex, and each
/// vertex stands for a node that a statement mentions.
pub proof fn lemma_one_vertex_for_each_node(ty: GraphType, items: Seq<ItemView>, x: IdView)
    ensures
        vertex_ids(lower_items(ty, items).vertices).no_duplicates(),
        has_vertex(lower_items(ty, items).vertices, x) <==> mentioned(items, x),
{
    lemma_vertices_are_the_mentioned_nodes(ty, items);
    lemma_items_ids(items, x);
    lemma_has_vertex(lower_items(ty, items).vertices, x);
}

/// Each edge that a chain gives carries the attributes of the statement.
pub proof fn lemma_links_carry_the_attributes(
    vertices: Seq<VertexView>,
    points: Seq<FlatPointView>,
    attrs: Map<IdView, IdView>,
    i: int,
)
    requires
        0 <= i < chain_links(vertices, points, attrs).len(),
    ensures
        chain_links(vertices, points, attrs)[i].attrs == attrs,
    decreases points.len(),
{
    if points.len() >= 2 {
        let front = chain_links(vertices, points.drop_last(), attrs);
        if i < front.len() {
            lemma_links_carry_the_attributes(vertices, points.drop_last(), attrs, i);
        } else {
            lemma_span_attrs(
                vertices,
                points[points.len() - 2].ids(),
                points.last().ids(),
                attrs,
                i - front.len(),
            );
        }
    }
}

proof fn lemma_span_attrs(
    vertices: Seq<VertexView>,
    sources: Seq<IdView>,
    targets: Seq<IdView>,
    attrs: Map<IdView, IdView>,
    i: int,
)
    requires
        0 <= i < span(vertices, sources, targets, attrs).len(),
    ensures
        span(vertices, sources, targets, attrs)[i].attrs == attrs,
    decreases sources.len(),
{
    if sources.len() > 0 {
        let front = span(vertices, sources.drop_last(), targets, attrs);
        if i < front.len() {
            lemma_span_attrs(vertices, sources.drop_last(), targets, attrs, i);
        } else {
            lemma_fan_attrs(
                vertices,
                position(vertices, sources.last()),
                targets,
                attrs,
                i - front.len(),
            );
        }
    }
}

proof fn lemma_fan_attrs(
    vertices: Seq<VertexView>,
    source: int,
    targets: Seq<IdView>,
    attrs: Map<IdView, IdView>,
    i: int,
)
    requires
        0 <= i < fan(vertices, source, targets, attrs).len(),
    ensures
        fan(vertices, source, targets, attrs)[i].attrs == attrs,
    decreases targets.len(),
{
    if targets.len() > 0 {
        let front = fan(vertices, source, targets.drop_last(), attrs);
        if i < front.len() {
            lemma_fan_attrs(vertices, source, targets.drop_last(), attrs, i);
        }
    }
}

/// Every endpoint is a node.
pub open spec fn all_nodes(points: Seq<FlatPointView>) -> bool {
    forall|j: int| 0 <= j < points.len() ==> (#[trigger] points[j]) is Node
}

/// A chain of `n` nodes gives `n - 1` edges, the `j`-th from the `j`-th
/// node to the next.
pub proof fn lemma_chain_of_nodes(
    vertices: Seq<VertexView>,
    points: Seq<FlatPointView>,
    attrs: Map<IdView, IdView>,
)
    requires
        all_nodes(points),
        points.len() >= 1,
    ensures
        chain_links(vertices, points, attrs).len() == points.len() - 1,
        forall|j: int|
            0 <= j < points.len() - 1 ==> #[trigger] chain_links(vertices, points, attrs)[j] == (
            LinkView {
                source: position(vertices, points[j]->Node_0),
                target: position(vertices, points[j + 1]->Node_0),
                attrs,
            }),
    decreases points.len(),
{
    if points.len() >= 2 {
        let front = points.drop_last();
        let n = points.len() as int;
        assert forall|j: int| 0 <= j < front.len() implies (#[trigger] front[j]) is Node by {
            assert(front[j] == points[j]);
        }
        lemma_chain_of_nodes(vertices, front, attrs);
        let s = points[n - 2]->Node_0;
        let t = points[n - 1]->Node_0;
        assert(points[n - 2] is Node);
        assert(points[n - 1] is Node);
        let sources = points[n - 2].ids();
        let targets = points.last().ids();
        assert(sources =~= seq![s]);
        assert(targets =~= seq![t]);
        assert(targets.drop_last() =~= Seq::<IdView>::empty());
        assert(sources.drop_last() =~= Seq::<IdView>::empty());
        let link = LinkView {
            source: position(vertices, s),
            target: position(vertices, t),
            attrs,
        };
        assert(fan(vertices, position(vertices, s), targets.drop_last(), attrs) =~= Seq::<
            LinkView,
        >::empty());
        assert(fan(vertices, position(vertices, s), targets, attrs) =~= seq![link]);
        assert(span(vertices, sources.drop_last(), targets, attrs) =~= Seq::<LinkView>::empty());
        assert(span(vertices, sources, targets, attrs) =~= seq![link]);
        let all = chain_links(vertices, points, attrs);
        assert(all =~= chain_links(vertices, front, attrs).push(link));
        assert forall|j: int| 0 <= j < n - 1 implies #[trigger] all[j] == (LinkView {
            source: position(vertices, points[j]->Node_0),
            target: position(vertices, points[j + 1]->Node_0),
            attrs,
        }) by {
            if j < n - 2 {
                assert(all[j] == chain_links(vertices, front, attrs)[j]);
                assert(front[j] == points[j]);
                assert(front[j + 1] == points[j + 1]);
            }
        }
    }
}

/// A document that is not nested too deep and has an edge statement with an
/// endpoint that names a node which no node statement and no other edge
/// statement names cannot be lowered: the endpoint is undeclared.
pub proof fn lemma_undeclared_endpoint_fails(g: GraphView, k: int, i: int, x: IdView)
    requires
        g.depth() <= MAX_DEPTH,
        0 <= k < g.items().len(),
        g.items()[k] is Edge,
        0 <= i < g.items()[k]->points.len(),
        g.items()[k]->points[i] == FlatPointView::Node(x),
        !declared_for(g.items(), k, x),
    ensures
        g.lowering_error() == Some(LoweringError::UndeclaredEndpoint),
{
    let items = g.items();
    assert(0 <= i < endpoints(items, k));
    assert(!endpoint_ok(items, k, i));
    assert(!item_declared(items, k));
    assert(!all_declared(items));
}

impl ItemView {
    /// The edges that the statement gives where the nodes have these
    /// vertices.
    pub open spec fn links(self, vertices: Seq<VertexView>) -> Seq<LinkView> {
        match self {
            ItemView::Node { id, attrs } => Seq::empty(),
            ItemView::Edge { points, attrs } => chain_links(
                vertices,
                points,
                merge(Map::empty(), attrs),
            ),
        }
    }
}

/// The edges that the statements give, statement by statement, where the
/// nodes have these vertices.
pub open spec fn items_links(items: Seq<ItemView>, vertices: Seq<VertexView>) -> Seq<LinkView>
    decreases items.len(),
{
    if items.len() == 0 {
        Seq::empty()
    } else {
        items_links(items.drop_last(), vertices) + items.last().links(vertices)
    }
}

/// The attributes that the node statements for `x` write, in order.
pub open spec fn node_attrs(items: Seq<ItemView>, x: IdView) -> Map<IdView, IdView>
    decreases items.len(),
{
    if items.len() == 0 {
        Map::empty()
    } else {
        let before = node_attrs(items.drop_last(), x);
        match items.last() {
            ItemView::Node { id, attrs } => if id == x {
                merge(before, attrs)
            } else {
                before
            },
            ItemView::Edge { points, attrs } => before,
        }
    }
}

proof fn lemma_fan_stable(
    before: Seq<VertexView>,
    after: Seq<VertexView>,
    source: int,
    targets: Seq<IdView>,
    attrs: Map<IdView, IdView>,
)
    requires
        grows(before, after),
        has_all(before, targets),
    ensures
        fan(before, source, targets, attrs) == fan(after, source, targets, attrs),
    decreases targets.len(),
{
    if targets.len() > 0 {
        let front = targets.drop_last();
        assert forall|i: int| 0 <= i < front.len() implies has_vertex(
            before,
            #[trigger] front[i],
        ) by {
            assert(front[i] == targets[i]);
        }
        lemma_fan_stable(before, after, source, front, attrs);
        assert(has_vertex(before, targets[targets.len() - 1]));
        lemma_grows_keeps(before, after, targets.last());
    }
}

proof fn lemma_span_stable(
    before: Seq<VertexView>,
    after: Seq<VertexView>,
    sources: Seq<IdView>,
    targets: Seq<IdView>,
    attrs: Map<IdView, IdView>,
)
    requires
        grows(before, after),
        has_all(before, sources),
        has_all(before, targets),
    ensures
        span(before, sources, targets, attrs) == span(after, sources, targets, attrs),
    decreases sources.len(),
{
    if sources.len() > 0 {
        let front = sources.drop_last();
        assert forall|i: int| 0 <= i < front.len() implies has_vertex(
            before,
            #[trigger] front[i],
        ) by {
            assert(front[i] == sources[i]);
        }
        lemma_span_stable(before, after, front, targets, attrs);
        assert(has_vertex(before, sources[sources.len() - 1]));
        lemma_grows_keeps(before, after, sources.last());
        lemma_fan_stable(before, after, position(before, sources.last()), targets, attrs);
    }
}

proof fn lemma_chain_stable(
    before: Seq<VertexView>,
    after: Seq<VertexView>,
    points: Seq<FlatPointView>,
    attrs: Map<IdView, IdView>,
)
    requires
        grows(before, after),
        forall|j: int| 0 <= j < points.len() ==> has_all(before, (#[trigger] points[j]).ids()),
    ensures
        chain_links(before, points, attrs) == chain_links(after, points, attrs),
    decreases points.len(),
{
    if points.len() >= 2 {
        let front = points.drop_last();
        assert forall|j: int| 0 <= j < front.len() implies has_all(
            before,
            (#[trigger] front[j]).ids(),
        ) by {
            assert(front[j] == points[j]);
        }
        lemma_chain_stable(before, after, front, attrs);
        assert(has_all(before, points[points.len() - 2].ids()));
        assert(has_all(before, points[points.len() - 1].ids()));
        lemma_span_stable(
            before,
            after,
            points[points.len() - 2].ids(),
            points.last().ids(),
            attrs,
        );
    }
}

proof fn lemma_links_against(ty: GraphType, items: Seq<ItemView>, later: Seq<VertexView>)
    requires
        grows(lower_items(ty, items).vertices, later),
    ensures
        lower_items(ty, items).links == items_links(items, later),
    decreases items.len(),
{
    if items.len() > 0 {
        let before = lower_items(ty, items.drop_last());
        let after = lower_items(ty, items);
        match items.last() {
            ItemView::Node { id, attrs } => {
                lemma_declare(before.vertices, id, attrs);
                lemma_grows_trans(before.vertices, after.vertices, later);
                lemma_links_against(ty, items.drop_last(), later);
                assert(after.links =~= items_links(items, later));
            },
            ItemView::Edge { points, attrs } => {
                lemma_touch_points(before.vertices, points);
                lemma_grows_trans(before.vertices, after.vertices, later);
                lemma_links_against(ty, items.drop_last(), later);
                lemma_chain_stable(after.vertices, later, points, merge(Map::empty(), attrs));
            },
        }
    }
}

/// The edges of a lowered document are those that its statements give, in
/// the order of the statements, between the vertices of the document.
pub proof fn lemma_links_are_those_of_the_statements(ty: GraphType, items: Seq<ItemView>)
    ensures
        lower_items(ty, items).links == items_links(items, lower_items(ty, items).vertices),
{
    lemma_links_against(ty, items, lower_items(ty, items).vertices);
}

/// Each vertex holds the attributes that the statements write for its node.
pub open spec fn attrs_ok(vertices: Seq<VertexView>, items: Seq<ItemView>) -> bool {
    forall|i: int|
        0 <= i < vertices.len() ==> (#[trigger] vertices[i]).attrs == node_attrs(
            items,
            vertices[i].id,
        )
}

/// Each node that a statement mentions has a vertex.
pub open spec fn covers(vertices: Seq<VertexView>, items: Seq<ItemView>) -> bool {
    forall|x: IdView| mentioned(items, x) ==> #[trigger] has_vertex(vertices, x)
}

proof fn lemma_unmentioned_attrs(items: Seq<ItemView>, x: IdView)
    requires
        !mentioned(items, x),
    ensures
        node_attrs(items, x) == Map::<IdView, IdView>::empty(),
    decreases items.len(),
{
    if items.len() > 0 {
        let front = items.drop_last();
        assert(!items[items.len() - 1].mentions(x));
        if mentioned(front, x) {
            let k = choose|k: int| 0 <= k < front.len() && (#[trigger] front[k]).mentions(x);
            assert(items[k].mentions(x));
        }
        lemma_unmentioned_attrs(front, x);
    }
}

proof fn lemma_touch_keeps_attrs(vertices: Seq<VertexView>, items: Seq<ItemView>, x: IdView)
    requires
        attrs_ok(vertices, items),
        covers(vertices, items),
    ensures
        attrs_ok(touch(vertices, x), items),
        covers(touch(vertices, x), items),
{
    let after = touch(vertices, x);
    lemma_touch(vertices, x);
    assert forall|y: IdView| mentioned(items, y) implies #[trigger] has_vertex(after, y) by {
        assert(has_vertex(vertices, y));
        lemma_grows_keeps(vertices, after, y);
    }
    if !has_vertex(vertices, x) {
        lemma_unmentioned_attrs(items, x);
        assert forall|i: int| 0 <= i < after.len() implies (#[trigger] after[i]).attrs
            == node_attrs(items, after[i].id) by {
            if i < vertices.len() {
                assert(after[i] == vertices[i]);
            }
        }
    }
}

proof fn lemma_touch_ids_keeps_attrs(
    vertices: Seq<VertexView>,
    items: Seq<ItemView>,
    xs: Seq<IdView>,
)
    requires
        attrs_ok(vertices, items),
        covers(vertices, items),
    ensures
        attrs_ok(touch_ids(vertices, xs), items),
        covers(touch_ids(vertices, xs), items),
    decreases xs.len(),
{
    if xs.len() > 0 {
        lemma_touch_ids_keeps_attrs(vertices, items, xs.drop_last());
        lemma_touch_keeps_attrs(touch_ids(vertices, xs.drop_last()), items, xs.last());
    }
}

proof fn lemma_touch_points_keeps_attrs(
    vertices: Seq<VertexView>,
    items: Seq<ItemView>,
    points: Seq<FlatPointView>,
)
    requires
        attrs_ok(vertices, items),
        covers(vertices, items),
    ensures
        attrs_ok(touch_points(vertices, points), items),
        covers(touch_points(vertices, points), items),
    decreases points.len(),
{
    if points.len() > 0 {
        lemma_touch_points_keeps_attrs(vertices, items, points.drop_last());
        lemma_touch_ids_keeps_attrs(
            touch_points(vertices, points.drop_last()),
            items,
            points.last().ids(),
        );
    }
}

/// The attributes of a vertex are those of all the node statements for its
/// node, merged in the order of the statements, a later pair overriding an
/// earlier one with the same key.
pub proof fn lemma_vertex_attrs_are_merged(ty: GraphType, items: Seq<ItemView>)
    ensures
        attrs_ok(lower_items(ty, items).vertices, items),
    decreases items.len(),
{
    if items.len() > 0 {
        let front = items.drop_last();
        let before = lower_items(ty, front).vertices;
        let after = lower_items(ty, items).vertices;
        lemma_vertex_attrs_are_merged(ty, front);
        assert forall|x: IdView| mentioned(front, x) implies #[trigger] has_vertex(before, x) by {
            lemma_one_vertex_for_each_node(ty, front, x);
        }
        match items.last() {
            ItemView::Node { id, attrs } => {
                let touched = touch(before, id);
                lemma_touch_keeps_attrs(before, front, id);
                lemma_touch(before, id);
                lemma_position_of_present(touched, id);
                let p = position(touched, id);
                lemma_vertices_are_the_mentioned_nodes(ty, front);
                lemma_items_ids(front, id);
                lemma_touch_ids_of(before, id);
                lemma_add_id(vertex_ids(before), id, id);
                assert forall|i: int| 0 <= i < after.len() implies (#[trigger] after[i]).attrs
                    == node_attrs(items, after[i].id) by {
                    if i != p {
                        assert(after[i] == touched[i]);
                        assert(vertex_ids(touched)[i] != vertex_ids(touched)[p]);
                        assert(touched[i].id != id);
                    }
                }
            },
            ItemView::Edge { points, attrs } => {
                lemma_touch_points_keeps_attrs(before, front, points);
                assert forall|i: int| 0 <= i < after.len() implies (#[trigger] after[i]).attrs
                    == node_attrs(items, after[i].id) by {
                    assert(node_attrs(items, after[i].id) == node_attrs(front, after[i].id));
                }
            },
        }
    }
}

impl EdgePointView {
    /// Every edge statement inside the endpoint has a second endpoint.
    pub open spec fn chains_ok(self) -> bool
        decreases self,
    {
        match self {
            EdgePointView::NodeID(_) => true,
            EdgePointView::Subgraph(sg) => stmts_chains_ok(sg.stmt_list),
        }
    }
}

/// Every edge statement inside the endpoints has a second endpoint.
pub open spec fn points_chains_ok(points: Seq<EdgePointView>) -> bool
    decreases points,
{
    if points.len() == 0 {
        true
    } else {
        points_chains_ok(points.drop_last()) && points.last().chains_ok()
    }
}

impl StmtView {
    /// The statement, if it is an edge statement, has a second endpoint, and
    /// so has every edge statement inside it.
    pub open spec fn chains_ok(self) -> bool
        decreases self,
    {
        match self {
            StmtView::Edge { start, rhs, attrs } => rhs.len() >= 1 && start.chains_ok()
                && points_chains_ok(rhs),
            StmtView::Subgraph(sg) => stmts_chains_ok(sg.stmt_list),
            StmtView::Node { node_id, attrs } => true,
            StmtView::Attr { ty, attrs } => true,
            StmtView::Assign(lhs, rhs) => true,
        }
    }
}

/// Every edge statement among the statements or inside them has a second
/// endpoint.
pub open spec fn stmts_chains_ok(stmts: Seq<StmtView>) -> bool
    decreases stmts,
{
    if stmts.len() == 0 {
        true
    } else {
        stmts_chains_ok(stmts.drop_last()) && stmts.last().chains_ok()
    }
}

impl GraphView {
    /// Every edge statement of the document, at any depth, has a second
    /// endpoint.
    pub open spec fn chains_ok(self) -> bool {
        stmts_chains_ok(self.stmt_list)
    }
}

proof fn lemma_no_empty_chain_concat(a: Seq<ItemView>, b: Seq<ItemView>)
    ensures
        no_empty_chain(a + b) <==> no_empty_chain(a) && no_empty_chain(b),
{
    let all = a + b;
    if no_empty_chain(all) {
        assert forall|k: int| 0 <= k < a.len() implies #[trigger] chain_ok(a, k) by {
            assert(chain_ok(all, k));
            assert(all[k] == a[k]);
        }
        assert forall|k: int| 0 <= k < b.len() implies #[trigger] chain_ok(b, k) by {
            assert(chain_ok(all, a.len() + k));
            assert(all[a.len() + k] == b[k]);
        }
    }
    if no_empty_chain(a) && no_empty_chain(b) {
        assert forall|k: int| 0 <= k < all.len() implies #[trigger] chain_ok(all, k) by {
            if k < a.len() {
                assert(chain_ok(a, k));
                assert(all[k] == a[k]);
            } else {
                assert(chain_ok(b, k - a.len()));
                assert(all[k] == b[k - a.len()]);
            }
        }
    }
}

proof fn lemma_chain_flat_len(points: Seq<EdgePointView>)
    ensures
        chain_flat(points).len() == points.len(),
    decreases points,
{
    if points.len() > 0 {
        lemma_chain_flat_len(points.drop_last());
    }
}

proof fn lemma_point_chains(p: EdgePointView)
    ensures
        p.chains_ok() <==> no_empty_chain(p.items()),
    decreases p,
{
    match p {
        EdgePointView::NodeID(_) => {},
        EdgePointView::Subgraph(sg) => {
            lemma_stmts_chains(sg.stmt_list);
        },
    }
}

proof fn lemma_points_chains(points: Seq<EdgePointView>)
    ensures
        points_chains_ok(points) <==> no_empty_chain(chain_items(points)),
    decreases points,
{
    if points.len() > 0 {
        lemma_points_chains(points.drop_last());
        lemma_point_chains(points.last());
        lemma_no_empty_chain_concat(chain_items(points.drop_last()), points.last().items());
    }
}

proof fn lemma_stmt_chains(s: StmtView)
    ensures
        s.chains_ok() <==> no_empty_chain(s.items()),
    decreases s,
{
    match s {
        StmtView::Node { node_id, attrs } => {
            assert(chain_ok(s.items(), 0));
        },
        StmtView::Edge { start, rhs, attrs } => {
            lemma_point_chains(start);
            lemma_points_chains(rhs);
            lemma_chain_flat_len(rhs);
            let inner = start.items() + chain_items(rhs);
            let own = seq![s.items().last()];
            lemma_no_empty_chain_concat(start.items(), chain_items(rhs));
            lemma_no_empty_chain_concat(inner, own);
            assert(s.items() =~= inner + own);
            assert(own[0]->points.len() == 1 + rhs.len());
            if rhs.len() >= 1 {
                assert forall|k: int| 0 <= k < own.len() implies #[trigger] chain_ok(own, k) by {
                }
            } else {
                assert(!chain_ok(own, 0));
            }
        },
        StmtView::Subgraph(sg) => {
            lemma_stmts_chains(sg.stmt_list);
        },
        _ => {},
    }
}

proof fn lemma_stmts_chains(stmts: Seq<StmtView>)
    ensures
        stmts_chains_ok(stmts) <==> no_empty_chain(stmts_items(stmts)),
    decreases stmts,
{
    if stmts.len() > 0 {
        lemma_stmts_chains(stmts.drop_last());
        lemma_stmt_chains(stmts.last());
        lemma_no_empty_chain_concat(stmts_items(stmts.drop_last()), stmts.last().items());
    }
}

/// The flat list of a document holds an edge statement with fewer than two
/// endpoints exactly where the document holds, at some depth, an edge
/// statement with a first endpoint and no other.
pub proof fn lemma_empty_chains_are_those_of_the_document(g: GraphView)
    ensures
        g.chains_ok() <==> no_empty_chain(g.items()),
{
    lemma_stmts_chains(g.stmt_list);
}

proof fn lemma_in_bounds_concat(a: Seq<LinkView>, b: Seq<LinkView>, n: int)
    requires
        in_bounds(a, n),
        in_bounds(b, n),
    ensures
        in_bounds(a + b, n),
{
    let all = a + b;
    assert forall|i: int| 0 <= i < all.len() implies 0 <= (#[trigger] all[i]).source < n && 0
        <= all[i].target < n by {
        if i < a.len() {
            assert(all[i] == a[i]);
        } else {
            assert(all[i] == b[i - a.len()]);
        }
    }
}

proof fn lemma_fan_in_bounds(
    vertices: Seq<VertexView>,
    source: int,
    targets: Seq<IdView>,
    attrs: Map<IdView, IdView>,
)
    requires
        0 <= source < vertices.len(),
        has_all(vertices, targets),
    ensures
        in_bounds(fan(vertices, source, targets, attrs), vertices.len() as int),
    decreases targets.len(),
{
    if targets.len() > 0 {
        let front = targets.drop_last();
        assert forall|i: int| 0 <= i < front.len() implies has_vertex(
            vertices,
            #[trigger] front[i],
        ) by {
            assert(front[i] == targets[i]);
        }
        lemma_fan_in_bounds(vertices, source, front, attrs);
        assert(has_vertex(vertices, targets[targets.len() - 1]));
        lemma_position_of_present(vertices, targets.last());
        let before = fan(vertices, source, front, attrs);
        let all = fan(vertices, source, targets, attrs);
        assert forall|i: int| 0 <= i < all.len() implies 0 <= (#[trigger] all[i]).source
            < vertices.len() && 0 <= all[i].target < vertices.len() by {
            if i < before.len() {
                assert(all[i] == before[i]);
            }
        }
    }
}

proof fn lemma_span_in_bounds(
    vertices: Seq<VertexView>,
    sources: Seq<IdView>,
    targets: Seq<IdView>,
    attrs: Map<IdView, IdView>,
)
    requires
        has_all(vertices, sources),
        has_all(vertices, targets),
    ensures
        in_bounds(span(vertices, sources, targets, attrs), vertices.len() as int),
    decreases sources.len(),
{
    if sources.len() > 0 {
        let front = sources.drop_last();
        assert forall|i: int| 0 <= i < front.len() implies has_vertex(
            vertices,
            #[trigger] front[i],
        ) by {
            assert(front[i] == sources[i]);
        }
        lemma_span_in_bounds(vertices, front, targets, attrs);
        assert(has_vertex(vertices, sources[sources.len() - 1]));
        lemma_position_of_present(vertices, sources.last());
        lemma_fan_in_bounds(vertices, position(vertices, sources.last()), targets, attrs);
        lemma_in_bounds_concat(
            span(vertices, front, targets, attrs),
            fan(vertices, position(vertices, sources.last()), targets, attrs),
            vertices.len() as int,
        );
    }
}

proof fn lemma_chain_in_bounds(
    vertices: Seq<VertexView>,
    points: Seq<FlatPointView>,
    attrs: Map<IdView, IdView>,
)
    requires
        forall|j: int| 0 <= j < points.len() ==> has_all(vertices, (#[trigger] points[j]).ids()),
    ensures
        in_bounds(chain_links(vertices, points, attrs), vertices.len() as int),
    decreases points.len(),
{
    if points.len() >= 2 {
        let front = points.drop_last();
        assert forall|j: int| 0 <= j < front.len() implies has_all(
            vertices,
            (#[trigger] front[j]).ids(),
        ) by {
            assert(front[j] == points[j]);
        }
        lemma_chain_in_bounds(vertices, front, attrs);
        assert(has_all(vertices, points[points.len() - 2].ids()));
        assert(has_all(vertices, points[points.len() - 1].ids()));
        lemma_span_in_bounds(
            vertices,
            points[points.len() - 2].ids(),
            points.last().ids(),
            attrs,
        );
        lemma_in_bounds_concat(
            chain_links(vertices, front, attrs),
            span(vertices, points[points.len() - 2].ids(), points.last().ids(), attrs),
            vertices.len() as int,
        );
    }
}

/// Both ends of every edge of a lowered document are vertices of the
/// document.
pub proof fn lemma_links_join_vertices(ty: GraphType, items: Seq<ItemView>)
    ensures
        lower_items(ty, items).wf(),
    decreases items.len(),
{
    if items.len() > 0 {
        let before = lower_items(ty, items.drop_last());
        let after = lower_items(ty, items);
        lemma_links_join_vertices(ty, items.drop_last());
        match items.last() {
            ItemView::Node { id, attrs } => {
                lemma_declare(before.vertices, id, attrs);
            },
            ItemView::Edge { points, attrs } => {
                lemma_touch_points(before.vertices, points);
                lemma_chain_in_bounds(after.vertices, points, merge(Map::empty(), attrs));
                lemma_in_bounds_concat(
                    before.links,
                    chain_links(after.vertices, points, merge(Map::empty(), attrs)),
                    after.vertices.len() as int,
                );
            },
        }
    }
}

} // verus!
