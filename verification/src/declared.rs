//! Which endpoints of the edge statements are declared.
//!
//! A node is declared for an edge statement where a node statement names it,
//! or an edge statement other than that one has it as an endpoint. The nodes
//! inside a subgraph endpoint answer for themselves, in the statements of
//! that subgraph.

use vstd::prelude::*;
use crate::ast::{IdView, ID};
use crate::flat::{items_view, points_view, FlatPoint, FlatPointView, Item, ItemView};

verus! {

/// One of the endpoints is the node `x`.
pub open spec fn names(points: Seq<FlatPointView>, x: IdView) -> bool {
    exists|i: int| 0 <= i < points.len() && #[trigger] points[i] == FlatPointView::Node(x)
}

impl ItemView {
    /// The statement is a node statement for `x`.
    pub open spec fn declares(self, x: IdView) -> bool {
        match self {
            ItemView::Node { id, attrs } => id == x,
            ItemView::Edge { points, attrs } => false,
        }
    }

    /// The statement is an edge statement with the node `x` as an endpoint.
    pub open spec fn uses(self, x: IdView) -> bool {
        match self {
            ItemView::Node { id, attrs } => false,
            ItemView::Edge { points, attrs } => names(points, x),
        }
    }
}

/// Statement `j` declares `x` for the edge statement `k`.
pub open spec fn declared_by(items: Seq<ItemView>, k: int, x: IdView, j: int) -> bool {
    0 <= j < items.len() && (items[j].declares(x) || (j != k && items[j].uses(x)))
}

/// Some statement declares `x` for the edge statement `k`.
pub open spec fn declared_for(items: Seq<ItemView>, k: int, x: IdView) -> bool {
    exists|j: int| #[trigger] declared_by(items, k, x, j)
}

/// Endpoint `i` of statement `k` is a subgraph or a declared node.
pub open spec fn endpoint_ok(items: Seq<ItemView>, k: int, i: int) -> bool {
    match items[k] {
        ItemView::Node { id, attrs } => true,
        ItemView::Edge { points, attrs } => match points[i] {
            FlatPointView::Node(x) => declared_for(items, k, x),
            FlatPointView::Group(_) => true,
        },
    }
}

/// The number of endpoints of statement `k`; zero for a node statement.
pub open spec fn endpoints(items: Seq<ItemView>, k: int) -> nat {
    match items[k] {
        ItemView::Node { id, attrs } => 0,
        ItemView::Edge { points, attrs } => points.len(),
    }
}

/// Every node endpoint of statement `k` is declared.
pub open spec fn item_declared(items: Seq<ItemView>, k: int) -> bool {
    forall|i: int| 0 <= i < endpoints(items, k) ==> #[trigger] endpoint_ok(items, k, i)
}

/// Every node endpoint of every edge statement is declared.
pub open spec fn all_declared(items: Seq<ItemView>) -> bool {
    forall|k: int| 0 <= k < items.len() ==> #[trigger] item_declared(items, k)
}

/// Statement `k` is no edge statement with fewer than two endpoints.
pub open spec fn chain_ok(items: Seq<ItemView>, k: int) -> bool {
    match items[k] {
        ItemView::Node { id, attrs } => true,
        ItemView::Edge { points, attrs } => points.len() >= 2,
    }
}

/// Every edge statement has at least two endpoints.
pub open spec fn no_empty_chain(items: Seq<ItemView>) -> bool {
    forall|k: int| 0 <= k < items.len() ==> #[trigger] chain_ok(items, k)
}

fn names_node(points: &Vec<FlatPoint>, x: &ID) -> (r: bool)
    ensures
        r == names(points_view(points@), x@),
{
    let ghost v = points_view(points@);
    let mut i: usize = 0;
    while i < points.len()
        invariant
            i <= points.len(),
            v == points_view(points@),
            forall|j: int| 0 <= j < i ==> #[trigger] v[j] != FlatPointView::Node(x@),
        decreases points.len() - i,
    {
        match &points[i] {
            FlatPoint::Node(y) => {
                if *y == *x {
                    assert(v[i as int] == FlatPointView::Node(x@));
                    return true;
                }
            },
            FlatPoint::Group(_) => {},
        }
        assert(v[i as int] == points[i as int]@);
        i += 1;
    }
    false
}

fn is_declared(items: &Vec<Item>, k: usize, x: &ID) -> (r: bool)
    ensures
        r == declared_for(items_view(items@), k as int, x@),
{
    let ghost v = items_view(items@);
    let mut j: usize = 0;
    while j < items.len()
        invariant
            j <= items.len(),
            v == items_view(items@),
            forall|m: int| 0 <= m < j ==> !#[trigger] declared_by(v, k as int, x@, m),
        decreases items.len() - j,
    {
        assert(v[j as int] == items[j as int]@);
        match &items[j] {
            Item::Node { id, attrs } => {
                if *id == *x {
                    assert(declared_by(v, k as int, x@, j as int));
                    return true;
                }
            },
            Item::Edge { points, attrs } => {
                if j != k && names_node(points, x) {
                    assert(declared_by(v, k as int, x@, j as int));
                    return true;
                }
            },
        }
        assert(!declared_by(v, k as int, x@, j as int));
        j += 1;
    }
    false
}

fn item_is_declared(items: &Vec<Item>, k: usize) -> (r: bool)
    requires
        k < items.len(),
    ensures
        r == item_declared(items_view(items@), k as int),
{
    let ghost v = items_view(items@);
    assert(v[k as int] == items[k as int]@);
    match &items[k] {
        Item::Node { id, attrs } => true,
        Item::Edge { points, attrs } => {
            let mut i: usize = 0;
            while i < points.len()
                invariant
                    i <= points.len(),
                    k < items.len(),
                    v == items_view(items@),
                    v[k as int] == (ItemView::Edge {
                        points: points_view(points@),
                        attrs: v[k as int]->Edge_attrs,
                    }),
                    forall|m: int| 0 <= m < i ==> #[trigger] endpoint_ok(v, k as int, m),
                decreases points.len() - i,
            {
                assert(points_view(points@)[i as int] == points[i as int]@);
                match &points[i] {
                    FlatPoint::Node(x) => {
                        if !is_declared(items, k, x) {
                            assert(!endpoint_ok(v, k as int, i as int));
                            return false;
                        }
                    },
                    FlatPoint::Group(_) => {},
                }
                assert(endpoint_ok(v, k as int, i as int));
                i += 1;
            }
            true
        },
    }
}

/// Whether every node endpoint of every edge statement is declared.
pub fn check_declared(items: &Vec<Item>) -> (r: bool)
    ensures
        r == all_declared(items_view(items@)),
{
    let ghost v = items_view(items@);
    let mut k: usize = 0;
    while k < items.len()
        invariant
            k <= items.len(),
            v == items_view(items@),
            forall|m: int| 0 <= m < k ==> #[trigger] item_declared(v, m),
        decreases items.len() - k,
    {
        if !item_is_declared(items, k) {
            return false;
        }
        k += 1;
    }
    true
}

/// Whether every edge statement has at least two endpoints.
pub fn check_chains(items: &Vec<Item>) -> (r: bool)
    ensures
        r == no_empty_chain(items_view(items@)),
{
    let ghost v = items_view(items@);
    let mut k: usize = 0;
    while k < items.len()
        invariant
            k <= items.len(),
            v == items_view(items@),
            forall|m: int| 0 <= m < k ==> #[trigger] chain_ok(v, m),
        decreases items.len() - k,
    {
        assert(v[k as int] == items[k as int]@);
        match &items[k] {
            Item::Node { id, attrs } => {},
            Item::Edge { points, attrs } => {
                if points.len() < 2 {
                    assert(!chain_ok(v, k as int));
                    return false;
                }
            },
        }
        assert(chain_ok(v, k as int));
        k += 1;
    }
    true
}

} // verus!
