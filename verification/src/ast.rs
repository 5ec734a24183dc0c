//! The syntax tree of a DOT document and its mathematical view.

use vstd::prelude::*;

verus! {

/// Whether the edges of a graph have a direction.
#[derive(Debug, Clone, Copy, PartialEq, Eq, Structural)]
pub enum GraphType {
    Graph,
    Digraph,
}

/// A compass point of a port.
#[derive(Debug, Clone, Copy, PartialEq, Eq, Structural)]
pub enum CompassPt {
    N,
    NE,
    E,
    SE,
    S,
    SW,
    W,
    NW,
    C,
    Underscore,
}

/// The scope that an attribute statement sets defaults for.
#[derive(Debug, Clone, Copy, PartialEq, Eq, Structural)]
pub enum AttrStmtType {
    Graph,
    Node,
    Edge,
}

/// An identifier: a name, an integer, a number with a fraction, or a quoted
/// string.
#[derive(Debug)]
pub enum ID {
    Name(String),
    Integer(isize),
    /// A number with a fraction, held as the decimal text that it is written
    /// with.
    Float(String),
    /// The content of a quoted string, without the quotes.
    StringLiteral(String),
}

/// Where on a node an edge attaches.
#[derive(Debug)]
pub enum Port {
    ID(ID),
    IDCompass(ID, CompassPt),
    Compass(CompassPt),
}

/// A reference to a node: its identifier and, if given, a port.
#[derive(Debug)]
pub struct NodeID {
    pub id: ID,
    pub port: Option<Port>,
}

/// One bracketed group of attributes: pairs of key and value in the order
/// in which they were written; a key may stand more than once.
pub type AList = Vec<(ID, ID)>;

/// The attribute groups of a statement, in order.
pub type AttrList = Vec<AList>;

/// An endpoint of an edge: a node or a whole subgraph.
#[derive(Debug)]
pub enum EdgePoint {
    NodeID(NodeID),
    Subgraph(Subgraph),
}

/// A statement. The endpoints of an edge are its start and the points of
/// `rhs`, in order.
#[derive(Debug)]
#[allow(inconsistent_fields)]
pub enum Stmt {
    Node { node_id: NodeID, attrs: Option<AttrList> },
    Edge { start: EdgePoint, rhs: Vec<EdgePoint>, attrs: Option<AttrList> },
    Attr { ty: AttrStmtType, attrs: AttrList },
    Assign(ID, ID),
    Subgraph(Subgraph),
}

/// A subgraph: statements of their own, with or without an identifier. It
/// has the edge operator of the graph that holds it.
#[derive(Debug)]
pub struct Subgraph {
    pub id: Option<ID>,
    pub stmt_list: Vec<Stmt>,
}

/// A document: the root of the tree.
#[derive(Debug)]
pub struct Graph {
    pub is_strict: bool,
    pub graph_type: GraphType,
    pub id: ID,
    pub stmt_list: Vec<Stmt>,
}

/// What an identifier holds.
pub enum IdView {
    Name(Seq<char>),
    Integer(int),
    Float(Seq<char>),
    StringLiteral(Seq<char>),
}

/// What a port holds.
pub enum PortView {
    ID(IdView),
    IDCompass(IdView, CompassPt),
    Compass(CompassPt),
}

/// What a node reference holds.
pub struct NodeIdView {
    pub id: IdView,
    pub port: Option<PortView>,
}

/// What an attribute group holds.
pub type AListView = Seq<(IdView, IdView)>;

/// What an attribute list holds.
pub type AttrListView = Seq<AListView>;

/// What an endpoint holds.
pub enum EdgePointView {
    NodeID(NodeIdView),
    Subgraph(SubgraphView),
}

/// What a statement holds.
#[allow(inconsistent_fields)]
pub enum StmtView {
    Node { node_id: NodeIdView, attrs: Option<AttrListView> },
    Edge { start: EdgePointView, rhs: Seq<EdgePointView>, attrs: Option<AttrListView> },
    Attr { ty: AttrStmtType, attrs: AttrListView },
    Assign(IdView, IdView),
    Subgraph(SubgraphView),
}

/// What a subgraph holds.
pub struct SubgraphView {
    pub id: Option<IdView>,
    pub stmt_list: Seq<StmtView>,
}

/// What a document holds.
pub struct GraphView {
    pub is_strict: bool,
    pub graph_type: GraphType,
    pub id: IdView,
    pub stmt_list: Seq<StmtView>,
}

impl View for ID {
    type V = IdView;

    open spec fn view(&self) -> IdView {
        match self {
            ID::Name(s) => IdView::Name(s@),
            ID::Integer(i) => IdView::Integer(*i as int),
            ID::Float(s) => IdView::Float(s@),
            ID::StringLiteral(s) => IdView::StringLiteral(s@),
        }
    }
}

impl View for Port {
    type V = PortView;

    open spec fn view(&self) -> PortView {
        match self {
            Port::ID(id) => PortView::ID(id@),
            Port::IDCompass(id, c) => PortView::IDCompass(id@, *c),
            Port::Compass(c) => PortView::Compass(*c),
        }
    }
}

impl View for NodeID {
    type V = NodeIdView;

    open spec fn view(&self) -> NodeIdView {
        NodeIdView {
            id: self.id@,
            port: match self.port {
                Some(p) => Some(p@),
                None => None,
            },
        }
    }
}

/// What the pairs of an attribute group hold.
pub open spec fn alist_view(pairs: Seq<(ID, ID)>) -> AListView {
    Seq::new(pairs.len(), |i: int| (pairs[i].0@, pairs[i].1@))
}

/// What the groups of an attribute list hold.
pub open spec fn attr_list_view(groups: Seq<AList>) -> AttrListView {
    Seq::new(groups.len(), |i: int| alist_view(groups[i]@))
}

/// What the attribute list of a statement holds, if it has one.
pub open spec fn opt_attr_list_view(attrs: Option<AttrList>) -> Option<AttrListView> {
    match attrs {
        Some(groups) => Some(attr_list_view(groups@)),
        None => None,
    }
}

/// What an endpoint holds.
pub open spec fn edge_point_view(p: EdgePoint) -> EdgePointView
    decreases p,
{
    match p {
        EdgePoint::NodeID(n) => EdgePointView::NodeID(n@),
        EdgePoint::Subgraph(sg) => EdgePointView::Subgraph(subgraph_view(sg)),
    }
}

/// What the endpoints of a chain hold.
pub open spec fn edge_points_view(ps: Seq<EdgePoint>) -> Seq<EdgePointView>
    decreases ps,
{
    Seq::new(
        ps.len(),
        |i: int|
            if 0 <= i < ps.len() {
                edge_point_view(ps[i])
            } else {
                arbitrary()
            },
    )
}

/// What a statement holds.
pub open spec fn stmt_view(s: Stmt) -> StmtView
    decreases s,
{
    match s {
        Stmt::Node { node_id, attrs } => StmtView::Node {
            node_id: node_id@,
            attrs: opt_attr_list_view(attrs),
        },
        Stmt::Edge { start, rhs, attrs } => StmtView::Edge {
            start: edge_point_view(start),
            rhs: edge_points_view(rhs@),
            attrs: opt_attr_list_view(attrs),
        },
        Stmt::Attr { ty, attrs } => StmtView::Attr { ty, attrs: attr_list_view(attrs@) },
        Stmt::Assign(lhs, rhs) => StmtView::Assign(lhs@, rhs@),
        Stmt::Subgraph(sg) => StmtView::Subgraph(subgraph_view(sg)),
    }
}

/// What the statements of a list hold.
pub open spec fn stmts_view(stmts: Seq<Stmt>) -> Seq<StmtView>
    decreases stmts,
{
    Seq::new(
        stmts.len(),
        |i: int|
            if 0 <= i < stmts.len() {
                stmt_view(stmts[i])
            } else {
                arbitrary()
            },
    )
}

/// What a subgraph holds.
pub open spec fn subgraph_view(sg: Subgraph) -> SubgraphView
    decreases sg,
{
    SubgraphView {
        id: match sg.id {
            Some(id) => Some(id@),
            None => None,
        },
        stmt_list: stmts_view(sg.stmt_list@),
    }
}

impl View for EdgePoint {
    type V = EdgePointView;

    open spec fn view(&self) -> EdgePointView {
        edge_point_view(*self)
    }
}

impl View for Stmt {
    type V = StmtView;

    open spec fn view(&self) -> StmtView {
        stmt_view(*self)
    }
}

impl View for Subgraph {
    type V = SubgraphView;

    open spec fn view(&self) -> SubgraphView {
        subgraph_view(*self)
    }
}

impl View for Graph {
    type V = GraphView;

    open spec fn view(&self) -> GraphView {
        GraphView {
            is_strict: self.is_strict,
            graph_type: self.graph_type,
            id: self.id@,
            stmt_list: stmts_view(self.stmt_list@),
        }
    }
}

impl Clone for ID {
    fn clone(&self) -> (res: ID)
        ensures
            res == *self,
    {
        match self {
            ID::Name(s) => ID::Name(s.clone()),
            ID::Integer(i) => ID::Integer(*i),
            ID::Float(s) => ID::Float(s.clone()),
            ID::StringLiteral(s) => ID::StringLiteral(s.clone()),
        }
    }
}

impl PartialEq for ID {
    fn eq(&self, other: &ID) -> (res: bool) {
        match (self, other) {
            (ID::Name(a), ID::Name(b)) => *a == *b,
            (ID::Integer(a), ID::Integer(b)) => *a == *b,
            (ID::Float(a), ID::Float(b)) => *a == *b,
            (ID::StringLiteral(a), ID::StringLiteral(b)) => *a == *b,
            (ID::Name(_), _) => false,
            (ID::Integer(_), _) => false,
            (ID::Float(_), _) => false,
            (ID::StringLiteral(_), _) => false,
        }
    }
}

/// Two identifiers are equal where they are of the same kind and hold the
/// same value.
impl vstd::std_specs::cmp::PartialEqSpecImpl for ID {
    open spec fn obeys_eq_spec() -> bool {
        true
    }

    open spec fn eq_spec(&self, other: &ID) -> bool {
        self@ == other@
    }
}

} // verus!
