//! What a syntax tree looks like as text.
//!
//! Every function here is a spec function over the views of the tree types.
//! A statement is written as its body followed by a semicolon; a statement
//! list puts each statement on a line of its own. The edge operator depends
//! on the type of the enclosing graph alone and is handed down unchanged to
//! every nested subgraph.

use vstd::prelude::*;
use crate::ast::{
    AListView, AttrListView, AttrStmtType, CompassPt, EdgePointView, GraphType, GraphView, IdView,
    NodeIdView, PortView, StmtView, SubgraphView,
};
use crate::decimal::decimal;

verus! {

impl GraphType {
    /// The keyword that opens a graph of this type.
    pub open spec fn keyword(self) -> Seq<char> {
        match self {
            GraphType::Graph => "graph"@,
            GraphType::Digraph => "digraph"@,
        }
    }

    /// The operator that joins the endpoints of an edge in a graph of this
    /// type.
    pub open spec fn edge_op(self) -> Seq<char> {
        match self {
            GraphType::Graph => "--"@,
            GraphType::Digraph => "->"@,
        }
    }
}

impl CompassPt {
    /// The token of the compass point: one or two lower-case letters, or
    /// an underscore.
    pub open spec fn text(self) -> Seq<char> {
        match self {
            CompassPt::N => "n"@,
            CompassPt::NE => "ne"@,
            CompassPt::E => "e"@,
            CompassPt::SE => "se"@,
            CompassPt::S => "s"@,
            CompassPt::SW => "sw"@,
            CompassPt::W => "w"@,
            CompassPt::NW => "nw"@,
            CompassPt::C => "c"@,
            CompassPt::Underscore => "_"@,
        }
    }
}

impl AttrStmtType {
    /// The keyword of the scope.
    pub open spec fn text(self) -> Seq<char> {
        match self {
            AttrStmtType::Graph => "graph"@,
            AttrStmtType::Node => "node"@,
            AttrStmtType::Edge => "edge"@,
        }
    }
}

impl IdView {
    /// A name and the text of a number stand as they are; an integer is
    /// written in base ten; a string literal is put between double quotes
    /// with its content unchanged, whatever it holds.
    pub open spec fn text(self) -> Seq<char> {
        match self {
            IdView::Name(s) => s,
            IdView::Integer(i) => decimal(i),
            IdView::Float(s) => s,
            IdView::StringLiteral(s) => "\""@ + s + "\""@,
        }
    }
}

impl PortView {
    /// The identifier, the compass point, or both with a colon between
    /// them.
    pub open spec fn text(self) -> Seq<char> {
        match self {
            PortView::ID(id) => id.text(),
            PortView::IDCompass(id, c) => id.text() + ":"@ + c.text(),
            PortView::Compass(c) => c.text(),
        }
    }
}

impl NodeIdView {
    /// The identifier and, behind a colon, the port if there is one.
    pub open spec fn text(self) -> Seq<char> {
        match self.port {
            Some(p) => self.id.text() + ":"@ + p.text(),
            None => self.id.text(),
        }
    }
}

/// Each pair as `key = value; `, the last one included.
pub open spec fn pairs_text(pairs: AListView) -> Seq<char>
    decreases pairs.len(),
{
    if pairs.len() == 0 {
        Seq::empty()
    } else {
        pairs_text(pairs.drop_last()) + pairs.last().0.text() + " = "@ + pairs.last().1.text()
            + "; "@
    }
}

/// One bracketed group of attributes.
pub open spec fn alist_text(pairs: AListView) -> Seq<char> {
    "[ "@ + pairs_text(pairs) + "]"@
}

/// The groups of an attribute list, one after the other with nothing
/// between them.
pub open spec fn attr_list_text(groups: AttrListView) -> Seq<char>
    decreases groups.len(),
{
    if groups.len() == 0 {
        Seq::empty()
    } else {
        attr_list_text(groups.drop_last()) + alist_text(groups.last())
    }
}

impl EdgePointView {
    /// The node reference, or the subgraph in full.
    pub open spec fn text(self, ty: GraphType) -> Seq<char>
        decreases self,
    {
        match self {
            EdgePointView::NodeID(n) => n.text(),
            EdgePointView::Subgraph(sg) => sg.text(ty),
        }
    }

    /// How many subgraphs are nested in this endpoint, itself included.
    pub open spec fn depth(self) -> nat
        decreases self,
    {
        match self {
            EdgePointView::NodeID(_) => 0,
            EdgePointView::Subgraph(sg) => sg.depth(),
        }
    }
}

/// The endpoints of an edge after its first, each behind the operator and
/// a space, with a space between one endpoint and the next operator. The
/// text begins with the operator.
pub open spec fn chain_text(points: Seq<EdgePointView>, ty: GraphType) -> Seq<char>
    decreases points,
{
    if points.len() == 0 {
        Seq::empty()
    } else if points.len() == 1 {
        ty.edge_op() + " "@ + points.last().text(ty)
    } else {
        chain_text(points.drop_last(), ty) + " "@ + ty.edge_op() + " "@ + points.last().text(ty)
    }
}

/// How deep subgraphs are nested in the endpoints of a chain.
pub open spec fn chain_depth(points: Seq<EdgePointView>) -> nat
    decreases points,
{
    if points.len() == 0 {
        0
    } else {
        let rest = chain_depth(points.drop_last());
        let last = points.last().depth();
        if rest >= last {
            rest
        } else {
            last
        }
    }
}

/// What follows the node reference in the body of a node statement: the
/// attribute groups one space behind it, or nothing where the statement has
/// no attribute list.
pub open spec fn node_tail_text(attrs: Option<AttrListView>) -> Seq<char> {
    match attrs {
        Some(groups) => " "@ + attr_list_text(groups),
        None => Seq::empty(),
    }
}

/// What follows the endpoints in the body of an edge statement: the
/// attribute groups directly behind the last endpoint and a space behind
/// them, or nothing where the statement has no attribute list.
pub open spec fn edge_tail_text(attrs: Option<AttrListView>) -> Seq<char> {
    match attrs {
        Some(groups) => attr_list_text(groups) + " "@,
        None => Seq::empty(),
    }
}

impl StmtView {
    /// The statement without its closing semicolon.
    ///
    /// The attribute groups of a node statement and of an attribute statement
    /// stand one space behind what precedes them and end the body. An edge
    /// statement has a space behind its first endpoint, then the chain of its
    /// further endpoints; its attribute groups stand directly behind the last
    /// endpoint, with a space behind them. A node statement without an
    /// attribute list, an assignment and a subgraph statement end with their
    /// last word or brace.
    pub open spec fn body_text(self, ty: GraphType) -> Seq<char>
        decreases self, 0nat,
    {
        match self {
            StmtView::Node { node_id, attrs } => node_id.text() + node_tail_text(attrs),
            StmtView::Edge { start, rhs, attrs } => start.text(ty) + " "@ + chain_text(rhs, ty)
                + edge_tail_text(attrs),
            StmtView::Attr { ty: scope, attrs } => scope.text() + " "@ + attr_list_text(attrs),
            StmtView::Assign(lhs, rhs) => lhs.text() + " "@ + rhs.text(),
            StmtView::Subgraph(sg) => sg.text(ty),
        }
    }

    /// The statement: its body and a semicolon.
    pub open spec fn text(self, ty: GraphType) -> Seq<char>
        decreases self, 1nat,
    {
        self.body_text(ty) + ";"@
    }

    /// How many subgraphs are nested in the statement.
    pub open spec fn depth(self) -> nat
        decreases self,
    {
        match self {
            StmtView::Edge { start, rhs, attrs } => {
                let first = start.depth();
                let rest = chain_depth(rhs);
                if first >= rest {
                    first
                } else {
                    rest
                }
            },
            StmtView::Subgraph(sg) => sg.depth(),
            StmtView::Node { node_id, attrs } => 0,
            StmtView::Attr { ty, attrs } => 0,
            StmtView::Assign(lhs, rhs) => 0,
        }
    }
}

/// Each statement followed by a line break.
pub open spec fn stmts_text(stmts: Seq<StmtView>, ty: GraphType) -> Seq<char>
    decreases stmts,
{
    if stmts.len() == 0 {
        Seq::empty()
    } else {
        stmts_text(stmts.drop_last(), ty) + stmts.last().text(ty) + "\n"@
    }
}

/// How deep subgraphs are nested in the statements of a list.
pub open spec fn stmts_depth(stmts: Seq<StmtView>) -> nat
    decreases stmts,
{
    if stmts.len() == 0 {
        0
    } else {
        let rest = stmts_depth(stmts.drop_last());
        let last = stmts.last().depth();
        if rest >= last {
            rest
        } else {
            last
        }
    }
}

impl SubgraphView {
    /// The keyword, the identifier if there is one, and the opening brace
    /// with its line break.
    pub open spec fn head_text(self) -> Seq<char> {
        match self.id {
            Some(id) => "subgraph "@ + id.text() + " "@ + "{\n"@,
            None => "subgraph "@ + "{\n"@,
        }
    }

    /// The head, each statement on a line of its own, and the closing
    /// brace.
    pub open spec fn text(self, ty: GraphType) -> Seq<char>
        decreases self,
    {
        self.head_text() + stmts_text(self.stmt_list, ty) + "}"@
    }

    /// How many subgraphs are nested in this one, itself included.
    pub open spec fn depth(self) -> nat
        decreases self,
    {
        1 + stmts_depth(self.stmt_list)
    }
}

impl GraphView {
    /// What precedes the statements: `strict ` if the graph is strict, the
    /// keyword, the identifier, and the opening brace with its line break.
    pub open spec fn head_text(self) -> Seq<char> {
        let head = self.graph_type.keyword() + " "@ + self.id.text() + " "@ + "{\n"@;
        if self.is_strict {
            "strict "@ + head
        } else {
            head
        }
    }

    /// The head, each statement on a line of its own, and the closing
    /// brace.
    pub open spec fn text(self) -> Seq<char> {
        self.head_text() + stmts_text(self.stmt_list, self.graph_type) + "}"@
    }

    /// How deep the subgraphs of the graph are nested; a graph without
    /// subgraphs has depth zero.
    pub open spec fn depth(self) -> nat {
        stmts_depth(self.stmt_list)
    }
}

} // verus!
