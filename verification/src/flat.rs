//! A document as a flat list of its node and edge statements.
//!
//! The statements of a subgraph belong to the document as those outside it
//! do. Flattening lists the node and edge statements in document order,
//! those of a subgraph that is an endpoint of an edge before that edge. Such
//! an endpoint then stands for all the nodes that the subgraph mentions.
//! Attribute statements and assignments are left out, and so are ports.

use vstd::prelude::*;
use crate::ast::{
    alist_view, attr_list_view, edge_points_view, opt_attr_list_view, stmts_view, AList,
    AListView, AttrListView, EdgePoint, EdgePointView, GraphView, IdView, Stmt, StmtView, ID,
};
use crate::lower::LoweringError;
use crate::render::{lemma_chain_depth_bound, lemma_stmts_depth_bound};
use crate::text::{chain_depth, stmts_depth};

verus! {

/// An endpoint of an edge statement in the flat list.
#[derive(Debug)]
pub enum FlatPoint {
    /// A node, by its identifier.
    Node(ID),
    /// A subgraph, by the identifiers of the nodes that it mentions, each
    /// once.
    Group(Vec<ID>),
}

/// A statement in the flat list.
#[derive(Debug)]
pub enum Item {
    /// A node statement, with the pairs of all its attribute groups.
    Node { id: ID, attrs: Vec<(ID, ID)> },
    /// An edge statement, with the pairs of all its attribute groups.
    Edge { points: Vec<FlatPoint>, attrs: Vec<(ID, ID)> },
}

/// What an endpoint in the flat list holds.
pub enum FlatPointView {
    Node(IdView),
    Group(Seq<IdView>),
}

/// What a statement in the flat list holds.
pub enum ItemView {
    Node { id: IdView, attrs: AListView },
    Edge { points: Seq<FlatPointView>, attrs: AListView },
}

/// What the identifiers hold.
pub open spec fn ids_view(ids: Seq<ID>) -> Seq<IdView> {
    Seq::new(ids.len(), |i: int| ids[i]@)
}

impl View for FlatPoint {
    type V = FlatPointView;

    open spec fn view(&self) -> FlatPointView {
        match self {
            FlatPoint::Node(id) => FlatPointView::Node(id@),
            FlatPoint::Group(ids) => FlatPointView::Group(ids_view(ids@)),
        }
    }
}

/// What the endpoints hold.
pub open spec fn points_view(points: Seq<FlatPoint>) -> Seq<FlatPointView> {
    Seq::new(points.len(), |i: int| points[i]@)
}

impl View for Item {
    type V = ItemView;

    open spec fn view(&self) -> ItemView {
        match self {
            Item::Node { id, attrs } => ItemView::Node { id: id@, attrs: alist_view(attrs@) },
            Item::Edge { points, attrs } => ItemView::Edge {
                points: points_view(points@),
                attrs: alist_view(attrs@),
            },
        }
    }
}

/// What the statements of a flat list hold.
pub open spec fn items_view(items: Seq<Item>) -> Seq<ItemView> {
    Seq::new(items.len(), |i: int| items[i]@)
}

/// `ids` with `x` behind it, unless it is there already.
pub open spec fn add_id(ids: Seq<IdView>, x: IdView) -> Seq<IdView> {
    if ids.contains(x) {
        ids
    } else {
        ids.push(x)
    }
}

/// `ids` with each of `xs` behind it in turn, unless it is there already.
pub open spec fn add_ids(ids: Seq<IdView>, xs: Seq<IdView>) -> Seq<IdView>
    decreases xs.len(),
{
    if xs.len() == 0 {
        ids
    } else {
        add_id(add_ids(ids, xs.drop_last()), xs.last())
    }
}

impl FlatPointView {
    /// The nodes that the endpoint stands for.
    pub open spec fn ids(self) -> Seq<IdView> {
        match self {
            FlatPointView::Node(x) => seq![x],
            FlatPointView::Group(xs) => xs,
        }
    }
}

/// `ids` with the nodes of each endpoint behind it in turn, each unless it
/// is there already.
pub open spec fn add_points(ids: Seq<IdView>, points: Seq<FlatPointView>) -> Seq<IdView>
    decreases points.len(),
{
    if points.len() == 0 {
        ids
    } else {
        add_ids(add_points(ids, points.drop_last()), points.last().ids())
    }
}

impl ItemView {
    /// `ids` with the nodes that the statement mentions behind it, each
    /// unless it is there already.
    pub open spec fn add_to(self, ids: Seq<IdView>) -> Seq<IdView> {
        match self {
            ItemView::Node { id, attrs } => add_id(ids, id),
            ItemView::Edge { points, attrs } => add_points(ids, points),
        }
    }
}

/// The nodes that the statements mention, each once, in the order in which
/// they are first mentioned.
pub open spec fn items_ids(items: Seq<ItemView>) -> Seq<IdView>
    decreases items.len(),
{
    if items.len() == 0 {
        Seq::empty()
    } else {
        items.last().add_to(items_ids(items.drop_last()))
    }
}

/// The pairs of all groups, in order.
pub open spec fn attr_pairs(groups: AttrListView) -> AListView
    decreases groups.len(),
{
    if groups.len() == 0 {
        Seq::empty()
    } else {
        attr_pairs(groups.drop_last()) + groups.last()
    }
}

/// The pairs of the attribute list of a statement; none where it has no
/// list.
pub open spec fn opt_attr_pairs(attrs: Option<AttrListView>) -> AListView {
    match attrs {
        Some(groups) => attr_pairs(groups),
        None => Seq::empty(),
    }
}

impl EdgePointView {
    /// The statements inside the endpoint.
    pub open spec fn items(self) -> Seq<ItemView>
        decreases self,
    {
        match self {
            EdgePointView::NodeID(_) => Seq::empty(),
            EdgePointView::Subgraph(sg) => stmts_items(sg.stmt_list),
        }
    }

    /// The endpoint in the flat list: a node without its port, a subgraph as
    /// the nodes that its statements mention.
    pub open spec fn flat(self) -> FlatPointView
        decreases self,
    {
        match self {
            EdgePointView::NodeID(n) => FlatPointView::Node(n.id),
            EdgePointView::Subgraph(sg) => FlatPointView::Group(
                items_ids(stmts_items(sg.stmt_list)),
            ),
        }
    }
}

/// The statements inside the endpoints of a chain, endpoint by endpoint.
pub open spec fn chain_items(points: Seq<EdgePointView>) -> Seq<ItemView>
    decreases points,
{
    if points.len() == 0 {
        Seq::empty()
    } else {
        chain_items(points.drop_last()) + points.last().items()
    }
}

/// The endpoints of a chain as the flat list holds them.
pub open spec fn chain_flat(points: Seq<EdgePointView>) -> Seq<FlatPointView>
    decreases points,
{
    if points.len() == 0 {
        Seq::empty()
    } else {
        chain_flat(points.drop_last()).push(points.last().flat())
    }
}

impl StmtView {
    /// The node and edge statements that the statement holds, itself
    /// included, those inside the endpoints of an edge before the edge.
    pub open spec fn items(self) -> Seq<ItemView>
        decreases self,
    {
        match self {
            StmtView::Node { node_id, attrs } => seq![
                ItemView::Node { id: node_id.id, attrs: opt_attr_pairs(attrs) },
            ],
            StmtView::Edge { start, rhs, attrs } => (start.items() + chain_items(rhs)).push(
                ItemView::Edge {
                    points: seq![start.flat()] + chain_flat(rhs),
                    attrs: opt_attr_pairs(attrs),
                },
            ),
            StmtView::Attr { ty, attrs } => Seq::empty(),
            StmtView::Assign(lhs, rhs) => Seq::empty(),
            StmtView::Subgraph(sg) => stmts_items(sg.stmt_list),
        }
    }
}

/// The node and edge statements that the statements of a list hold, in
/// order.
pub open spec fn stmts_items(stmts: Seq<StmtView>) -> Seq<ItemView>
    decreases stmts,
{
    if stmts.len() == 0 {
        Seq::empty()
    } else {
        stmts_items(stmts.drop_last()) + stmts.last().items()
    }
}

impl GraphView {
    /// The node and edge statements of the document at every depth.
    pub open spec fn items(self) -> Seq<ItemView> {
        stmts_items(self.stmt_list)
    }
}

/// The first index at which `x` stands in `ids`, or their number where it
/// stands nowhere.
pub fn find_id(ids: &Vec<ID>, x: &ID) -> (r: usize)
    ensures
        r <= ids.len(),
        r < ids.len() ==> ids_view(ids@)[r as int] == x@,
        forall|i: int| 0 <= i < r ==> ids_view(ids@)[i] != x@,
        r < ids.len() <==> ids_view(ids@).contains(x@),
{
    let mut i: usize = 0;
    while i < ids.len()
        invariant
            i <= ids.len(),
            forall|k: int| 0 <= k < i ==> ids_view(ids@)[k] != x@,
        decreases ids.len() - i,
    {
        if ids[i] == *x {
            assert(ids_view(ids@)[i as int] == x@);
            return i;
        }
        i += 1;
    }
    i
}

fn push_id(ids: &mut Vec<ID>, x: &ID)
    ensures
        ids_view(final(ids)@) == add_id(ids_view(old(ids)@), x@),
{
    if find_id(ids, x) == ids.len() {
        ids.push(x.clone());
        assert(ids_view(ids@) =~= ids_view(old(ids)@).push(x@));
    }
}

fn push_ids(ids: &mut Vec<ID>, xs: &Vec<ID>)
    ensures
        ids_view(final(ids)@) == add_ids(ids_view(old(ids)@), ids_view(xs@)),
{
    let ghost v = ids_view(xs@);
    let mut i: usize = 0;
    while i < xs.len()
        invariant
            i <= xs.len(),
            v == ids_view(xs@),
            ids_view(ids@) == add_ids(ids_view(old(ids)@), v.take(i as int)),
        decreases xs.len() - i,
    {
        push_id(ids, &xs[i]);
        proof {
            let next = v.take(i + 1);
            assert(next.drop_last() =~= v.take(i as int));
            assert(next.last() == v[i as int]);
        }
        i += 1;
    }
    proof {
        assert(v.take(xs.len() as int) =~= v);
    }
}

fn push_point_ids(ids: &mut Vec<ID>, p: &FlatPoint)
    ensures
        ids_view(final(ids)@) == add_ids(ids_view(old(ids)@), p@.ids()),
{
    match p {
        FlatPoint::Node(x) => {
            push_id(ids, x);
            proof {
                let one = seq![x@];
                assert(one.drop_last() =~= Seq::<IdView>::empty());
                assert(add_ids(ids_view(old(ids)@), one.drop_last()) == ids_view(old(ids)@));
                assert(one.last() == x@);
            }
        },
        FlatPoint::Group(xs) => {
            push_ids(ids, xs);
        },
    }
}

fn push_points_ids(ids: &mut Vec<ID>, points: &Vec<FlatPoint>)
    ensures
        ids_view(final(ids)@) == add_points(ids_view(old(ids)@), points_view(points@)),
{
    let ghost v = points_view(points@);
    let mut i: usize = 0;
    while i < points.len()
        invariant
            i <= points.len(),
            v == points_view(points@),
            ids_view(ids@) == add_points(ids_view(old(ids)@), v.take(i as int)),
        decreases points.len() - i,
    {
        push_point_ids(ids, &points[i]);
        proof {
            let next = v.take(i + 1);
            assert(next.drop_last() =~= v.take(i as int));
            assert(next.last() == v[i as int]);
        }
        i += 1;
    }
    proof {
        assert(v.take(points.len() as int) =~= v);
    }
}

/// The nodes that the statements mention, each once, in the order in which
/// they are first mentioned.
pub fn gather_ids(items: &Vec<Item>) -> (ids: Vec<ID>)
    ensures
        ids_view(ids@) == items_ids(items_view(items@)),
{
    let ghost v = items_view(items@);
    let mut ids: Vec<ID> = Vec::new();
    let mut i: usize = 0;
    assert(ids_view(ids@) =~= items_ids(v.take(0)));
    while i < items.len()
        invariant
            i <= items.len(),
            v == items_view(items@),
            ids_view(ids@) == items_ids(v.take(i as int)),
        decreases items.len() - i,
    {
        match &items[i] {
            Item::Node { id, attrs } => {
                push_id(&mut ids, id);
            },
            Item::Edge { points, attrs } => {
                push_points_ids(&mut ids, points);
            },
        }
        proof {
            let next = v.take(i + 1);
            assert(next.drop_last() =~= v.take(i as int));
            assert(next.last() == v[i as int]);
        }
        i += 1;
    }
    proof {
        assert(v.take(items.len() as int) =~= v);
    }
    ids
}

fn append_pairs(out: &mut Vec<(ID, ID)>, pairs: &Vec<(ID, ID)>)
    ensures
        alist_view(final(out)@) == alist_view(old(out)@) + alist_view(pairs@),
{
    let mut i: usize = 0;
    assert(alist_view(out@) =~= alist_view(old(out)@) + alist_view(pairs@).take(0));
    while i < pairs.len()
        invariant
            i <= pairs.len(),
            alist_view(out@) == alist_view(old(out)@) + alist_view(pairs@).take(i as int),
        decreases pairs.len() - i,
    {
        let ghost before = alist_view(out@);
        out.push((pairs[i].0.clone(), pairs[i].1.clone()));
        assert(alist_view(out@) =~= before.push(alist_view(pairs@)[i as int]));
        assert(alist_view(out@) =~= alist_view(old(out)@) + alist_view(pairs@).take(i + 1));
        i += 1;
    }
    proof {
        assert(alist_view(pairs@).take(pairs.len() as int) =~= alist_view(pairs@));
    }
}

/// The pairs of all the groups of an attribute list, in order.
pub fn collect_pairs(attrs: &Option<Vec<AList>>) -> (out: Vec<(ID, ID)>)
    ensures
        alist_view(out@) == opt_attr_pairs(opt_attr_list_view(*attrs)),
{
    let mut out: Vec<(ID, ID)> = Vec::new();
    assert(alist_view(out@) =~= Seq::<(IdView, IdView)>::empty());
    match attrs {
        Some(groups) => {
            let ghost v = attr_list_view(groups@);
            let mut i: usize = 0;
            while i < groups.len()
                invariant
                    i <= groups.len(),
                    v == attr_list_view(groups@),
                    alist_view(out@) == attr_pairs(v.take(i as int)),
                decreases groups.len() - i,
            {
                append_pairs(&mut out, &groups[i]);
                proof {
                    let next = v.take(i + 1);
                    assert(next.drop_last() =~= v.take(i as int));
                    assert(next.last() == v[i as int]);
                }
                i += 1;
            }
            proof {
                assert(v.take(groups.len() as int) =~= v);
            }
        },
        None => {},
    }
    out
}

/// Lists the statements inside an endpoint behind `out` and hands back the
/// endpoint as the flat list holds it, following subgraphs nested up to
/// `budget` deep.
pub fn flatten_point(p: &EdgePoint, budget: usize, out: &mut Vec<Item>) -> (res: Result<
    FlatPoint,
    LoweringError,
>)
    ensures
        match res {
            Ok(fp) => p@.depth() <= budget && fp@ == p@.flat() && items_view(final(out)@)
                == items_view(old(out)@) + p@.items(),
            Err(e) => p@.depth() > budget && e == LoweringError::TooDeep,
        },
    decreases p,
{
    match p {
        EdgePoint::NodeID(n) => {
            assert(items_view(out@) =~= items_view(old(out)@) + p@.items());
            Ok(FlatPoint::Node(n.id.clone()))
        },
        EdgePoint::Subgraph(sg) => {
            if budget == 0 {
                return Err(LoweringError::TooDeep);
            }
            let mut inner: Vec<Item> = Vec::new();
            match flatten_stmts(&sg.stmt_list, budget - 1, &mut inner) {
                Err(e) => {
                    return Err(e);
                },
                Ok(()) => {},
            }
            let ids = gather_ids(&inner);
            proof {
                assert(items_view(inner@) =~= stmts_items(stmts_view(sg.stmt_list@)));
            }
            let ghost moved = inner@;
            out.append(&mut inner);
            assert(items_view(out@) =~= items_view(old(out)@) + items_view(moved));
            Ok(FlatPoint::Group(ids))
        },
    }
}

/// Lists the statements inside the endpoints of a chain behind `out`, and
/// the endpoints themselves behind `flat`.
pub fn flatten_chain(
    points: &Vec<EdgePoint>,
    budget: usize,
    out: &mut Vec<Item>,
    flat: &mut Vec<FlatPoint>,
) -> (res: Result<(), LoweringError>)
    ensures
        match res {
            Ok(()) => chain_depth(edge_points_view(points@)) <= budget && items_view(final(out)@)
                == items_view(old(out)@) + chain_items(edge_points_view(points@)) && points_view(
                final(flat)@,
            ) == points_view(old(flat)@) + chain_flat(edge_points_view(points@)),
            Err(e) => chain_depth(edge_points_view(points@)) > budget && e
                == LoweringError::TooDeep,
        },
    decreases points,
{
    let ghost v = edge_points_view(points@);
    let mut i: usize = 0;
    assert(items_view(out@) =~= items_view(old(out)@) + chain_items(v.take(0)));
    assert(points_view(flat@) =~= points_view(old(flat)@) + chain_flat(v.take(0)));
    while i < points.len()
        invariant
            i <= points.len(),
            v == edge_points_view(points@),
            chain_depth(v.take(i as int)) <= budget,
            items_view(out@) == items_view(old(out)@) + chain_items(v.take(i as int)),
            points_view(flat@) == points_view(old(flat)@) + chain_flat(v.take(i as int)),
        decreases points.len() - i,
    {
        let step = flatten_point(&points[i], budget, out);
        proof {
            let next = v.take(i + 1);
            assert(next.drop_last() =~= v.take(i as int));
            assert(next.last() == v[i as int]);
            assert(v[i as int] == points[i as int]@);
        }
        match step {
            Err(e) => {
                proof {
                    lemma_chain_depth_bound(v, i as int);
                }
                return Err(e);
            },
            Ok(fp) => {
                let ghost before = points_view(flat@);
                flat.push(fp);
                assert(points_view(flat@) =~= before.push(fp@));
                assert(points_view(flat@) =~= points_view(old(flat)@) + chain_flat(v.take(i + 1)));
                assert(items_view(out@) =~= items_view(old(out)@) + chain_items(v.take(i + 1)));
            },
        }
        i += 1;
    }
    proof {
        assert(v.take(points.len() as int) =~= v);
    }
    Ok(())
}

/// Lists the node and edge statements that a statement holds behind `out`.
pub fn flatten_stmt(s: &Stmt, budget: usize, out: &mut Vec<Item>) -> (res: Result<
    (),
    LoweringError,
>)
    ensures
        match res {
            Ok(()) => s@.depth() <= budget && items_view(final(out)@) == items_view(old(out)@)
                + s@.items(),
            Err(e) => s@.depth() > budget && e == LoweringError::TooDeep,
        },
    decreases s,
{
    match s {
        Stmt::Node { node_id, attrs } => {
            let item = Item::Node { id: node_id.id.clone(), attrs: collect_pairs(attrs) };
            let ghost before = items_view(out@);
            out.push(item);
            assert(items_view(out@) =~= before.push(item@));
            assert(items_view(out@) =~= items_view(old(out)@) + s@.items());
            Ok(())
        },
        Stmt::Edge { start, rhs, attrs } => {
            let first = match flatten_point(start, budget, out) {
                Err(e) => {
                    return Err(e);
                },
                Ok(fp) => fp,
            };
            let mut flat: Vec<FlatPoint> = Vec::new();
            flat.push(first);
            assert(points_view(flat@) =~= seq![start@.flat()]);
            match flatten_chain(rhs, budget, out, &mut flat) {
                Err(e) => {
                    return Err(e);
                },
                Ok(()) => {},
            }
            let item = Item::Edge { points: flat, attrs: collect_pairs(attrs) };
            let ghost before = items_view(out@);
            out.push(item);
            assert(items_view(out@) =~= before.push(item@));
            assert(items_view(out@) =~= items_view(old(out)@) + s@.items());
            Ok(())
        },
        Stmt::Subgraph(sg) => {
            if budget == 0 {
                return Err(LoweringError::TooDeep);
            }
            flatten_stmts(&sg.stmt_list, budget - 1, out)
        },
        Stmt::Attr { ty, attrs } => {
            assert(items_view(out@) =~= items_view(old(out)@) + s@.items());
            Ok(())
        },
        Stmt::Assign(lhs, rhs) => {
            assert(items_view(out@) =~= items_view(old(out)@) + s@.items());
            Ok(())
        },
    }
}

/// Lists the node and edge statements of a statement list behind `out`.
pub fn flatten_stmts(stmts: &Vec<Stmt>, budget: usize, out: &mut Vec<Item>) -> (res: Result<
    (),
    LoweringError,
>)
    ensures
        match res {
            Ok(()) => stmts_depth(stmts_view(stmts@)) <= budget && items_view(final(out)@)
                == items_view(old(out)@) + stmts_items(stmts_view(stmts@)),
            Err(e) => stmts_depth(stmts_view(stmts@)) > budget && e == LoweringError::TooDeep,
        },
    decreases stmts,
{
    let ghost v = stmts_view(stmts@);
    let mut i: usize = 0;
    assert(items_view(out@) =~= items_view(old(out)@) + stmts_items(v.take(0)));
    while i < stmts.len()
        invariant
            i <= stmts.len(),
            v == stmts_view(stmts@),
            stmts_depth(v.take(i as int)) <= budget,
            items_view(out@) == items_view(old(out)@) + stmts_items(v.take(i as int)),
        decreases stmts.len() - i,
    {
        let step = flatten_stmt(&stmts[i], budget, out);
        proof {
            let next = v.take(i + 1);
            assert(next.drop_last() =~= v.take(i as int));
            assert(next.last() == v[i as int]);
            assert(v[i as int] == stmts[i as int]@);
        }
        match step {
            Err(e) => {
                proof {
                    lemma_stmts_depth_bound(v, i as int);
                }
                return Err(e);
            },
            Ok(()) => {
                assert(items_view(out@) =~= items_view(old(out)@) + stmts_items(v.take(i + 1)));
            },
        }
        i += 1;
    }
    proof {
        assert(v.take(stmts.len() as int) =~= v);
    }
    Ok(())
}

} // verus!
