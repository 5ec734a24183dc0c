//! The serializer: from a syntax tree to its text.

use vstd::prelude::*;
use crate::ast::{
    alist_view, attr_list_view, edge_points_view, opt_attr_list_view, stmts_view, AList,
    AttrStmtType, CompassPt, EdgePoint, EdgePointView, Graph, GraphType, NodeID, Port, Stmt,
    StmtView, Subgraph, ID,
};
use crate::decimal::push_decimal;
use crate::text::{
    alist_text, attr_list_text, chain_depth, chain_text, edge_tail_text, node_tail_text, pairs_text,
    stmts_depth, stmts_text,
};
use vstd::seq_lib::lemma_concat_associative;

verus! {

/// The deepest nesting of subgraphs that the serializer follows.
pub const MAX_DEPTH: usize = 128;

/// Why a tree was not written.
#[derive(Debug, Clone, Copy, PartialEq, Eq, Structural)]
pub enum RenderError {
    /// Subgraphs are nested deeper than `MAX_DEPTH`.
    TooDeep,
}

/// No endpoint of a chain is nested deeper than the chain.
pub proof fn lemma_chain_depth_bound(points: Seq<EdgePointView>, i: int)
    requires
        0 <= i < points.len(),
    ensures
        points[i].depth() <= chain_depth(points),
    decreases points.len(),
{
    if i < points.len() - 1 {
        lemma_chain_depth_bound(points.drop_last(), i);
    }
}

/// No statement of a list is nested deeper than the list.
pub proof fn lemma_stmts_depth_bound(stmts: Seq<StmtView>, i: int)
    requires
        0 <= i < stmts.len(),
    ensures
        stmts[i].depth() <= stmts_depth(stmts),
    decreases stmts.len(),
{
    if i < stmts.len() - 1 {
        lemma_stmts_depth_bound(stmts.drop_last(), i);
    }
}

impl GraphType {
    /// The keyword of the graph type.
    pub fn as_str(&self) -> (out: &'static str)
        ensures
            out@ == self.keyword(),
    {
        match self {
            GraphType::Graph => "graph",
            GraphType::Digraph => "digraph",
        }
    }

    /// The edge operator of the graph type.
    pub fn edge_op_str(&self) -> (out: &'static str)
        ensures
            out@ == self.edge_op(),
    {
        match self {
            GraphType::Graph => "--",
            GraphType::Digraph => "->",
        }
    }

    /// The keyword of the graph type, as a string of its own.
    pub fn render(&self) -> (out: String)
        ensures
            out@ == self.keyword(),
    {
        String::from_str(self.as_str())
    }
}

impl CompassPt {
    /// The token of the compass point.
    pub fn as_str(&self) -> (out: &'static str)
        ensures
            out@ == self.text(),
    {
        match self {
            CompassPt::N => "n",
            CompassPt::NE => "ne",
            CompassPt::E => "e",
            CompassPt::SE => "se",
            CompassPt::S => "s",
            CompassPt::SW => "sw",
            CompassPt::W => "w",
            CompassPt::NW => "nw",
            CompassPt::C => "c",
            CompassPt::Underscore => "_",
        }
    }

    /// The text, as a string of its own.
    pub fn render(&self) -> (out: String)
        ensures
            out@ == self.text(),
    {
        String::from_str(self.as_str())
    }
}

impl AttrStmtType {
    /// The keyword of the scope.
    pub fn as_str(&self) -> (out: &'static str)
        ensures
            out@ == self.text(),
    {
        match self {
            AttrStmtType::Graph => "graph",
            AttrStmtType::Node => "node",
            AttrStmtType::Edge => "edge",
        }
    }

    /// The text, as a string of its own.
    pub fn render(&self) -> (out: String)
        ensures
            out@ == self.text(),
    {
        String::from_str(self.as_str())
    }
}

impl ID {
    /// Appends the identifier to `out`.
    pub fn write_to(&self, out: &mut String)
        ensures
            final(out)@ == old(out)@ + self@.text(),
    {
        match self {
            ID::Name(s) => {
                out.append(s.as_str());
            },
            ID::Integer(i) => {
                push_decimal(*i, out);
            },
            ID::Float(s) => {
                out.append(s.as_str());
            },
            ID::StringLiteral(s) => {
                out.append("\"");
                out.append(s.as_str());
                out.append("\"");
                assert(out@ =~= old(out)@ + self@.text());
            },
        }
    }

    /// The text, as a string of its own.
    pub fn render(&self) -> (out: String)
        ensures
            out@ == self@.text(),
    {
        let mut out = String::new();
        self.write_to(&mut out);
        assert(out@ =~= self@.text());
        out
    }
}

impl Port {
    /// Appends the port to `out`.
    pub fn write_to(&self, out: &mut String)
        ensures
            final(out)@ == old(out)@ + self@.text(),
    {
        match self {
            Port::ID(id) => {
                id.write_to(out);
            },
            Port::IDCompass(id, c) => {
                id.write_to(out);
                out.append(":");
                out.append(c.as_str());
                assert(out@ =~= old(out)@ + self@.text());
            },
            Port::Compass(c) => {
                out.append(c.as_str());
            },
        }
    }

    /// The text, as a string of its own.
    pub fn render(&self) -> (out: String)
        ensures
            out@ == self@.text(),
    {
        let mut out = String::new();
        self.write_to(&mut out);
        assert(out@ =~= self@.text());
        out
    }
}

impl NodeID {
    /// Appends the node reference to `out`.
    pub fn write_to(&self, out: &mut String)
        ensures
            final(out)@ == old(out)@ + self@.text(),
    {
        self.id.write_to(out);
        match &self.port {
            Some(p) => {
                out.append(":");
                p.write_to(out);
                assert(out@ =~= old(out)@ + self@.text());
            },
            None => {},
        }
    }

    /// The text, as a string of its own.
    pub fn render(&self) -> (out: String)
        ensures
            out@ == self@.text(),
    {
        let mut out = String::new();
        self.write_to(&mut out);
        assert(out@ =~= self@.text());
        out
    }
}

/// Appends one bracketed attribute group to `out`.
pub fn write_alist(pairs: &AList, out: &mut String)
    ensures
        final(out)@ == old(out)@ + alist_text(alist_view(pairs@)),
{
    let ghost base = out@;
    let ghost v = alist_view(pairs@);
    out.append("[ ");
    let mut i: usize = 0;
    while i < pairs.len()
        invariant
            i <= pairs.len(),
            v == alist_view(pairs@),
            out@ == base + "[ "@ + pairs_text(v.take(i as int)),
        decreases pairs.len() - i,
    {
        pairs[i].0.write_to(out);
        out.append(" = ");
        pairs[i].1.write_to(out);
        out.append("; ");
        proof {
            let next = v.take(i + 1);
            assert(next.drop_last() =~= v.take(i as int));
            assert(next.last() == v[i as int]);
            assert(out@ =~= base + "[ "@ + pairs_text(next));
        }
        i += 1;
    }
    out.append("]");
    proof {
        assert(v.take(pairs.len() as int) =~= v);
        assert(out@ =~= base + alist_text(v));
    }
}

/// Appends the groups of an attribute list to `out`.
pub fn write_attr_list(groups: &Vec<AList>, out: &mut String)
    ensures
        final(out)@ == old(out)@ + attr_list_text(attr_list_view(groups@)),
{
    let ghost base = out@;
    let ghost v = attr_list_view(groups@);
    let mut i: usize = 0;
    assert(out@ =~= base + attr_list_text(v.take(0)));
    while i < groups.len()
        invariant
            i <= groups.len(),
            v == attr_list_view(groups@),
            out@ == base + attr_list_text(v.take(i as int)),
        decreases groups.len() - i,
    {
        write_alist(&groups[i], out);
        proof {
            let next = v.take(i + 1);
            assert(next.drop_last() =~= v.take(i as int));
            assert(next.last() == v[i as int]);
            assert(out@ =~= base + attr_list_text(next));
        }
        i += 1;
    }
    proof {
        assert(v.take(groups.len() as int) =~= v);
    }
}

/// Appends an edge endpoint to `out`, following subgraphs nested up to
/// `budget` deep.
pub fn write_point(p: &EdgePoint, ty: GraphType, budget: usize, out: &mut String) -> (res: Result<
    (),
    RenderError,
>)
    ensures
        res is Ok <==> p@.depth() <= budget,
        res is Ok ==> final(out)@ == old(out)@ + p@.text(ty),
    decreases p,
{
    match p {
        EdgePoint::NodeID(n) => {
            n.write_to(out);
            Ok(())
        },
        EdgePoint::Subgraph(sg) => write_subgraph(sg, ty, budget, out),
    }
}

/// Appends the endpoints of an edge after its first to `out`, each behind
/// the edge operator, beginning with the operator.
pub fn write_chain(points: &Vec<EdgePoint>, ty: GraphType, budget: usize, out: &mut String) -> (res:
    Result<(), RenderError>)
    ensures
        res is Ok <==> chain_depth(edge_points_view(points@)) <= budget,
        res is Ok ==> final(out)@ == old(out)@ + chain_text(edge_points_view(points@), ty),
    decreases points,
{
    let ghost base = out@;
    let ghost v = edge_points_view(points@);
    let mut i: usize = 0;
    assert(out@ =~= base + chain_text(v.take(0), ty));
    while i < points.len()
        invariant
            i <= points.len(),
            v == edge_points_view(points@),
            out@ == base + chain_text(v.take(i as int), ty),
            chain_depth(v.take(i as int)) <= budget,
        decreases points.len() - i,
    {
        if i > 0 {
            out.append(" ");
        }
        out.append(ty.edge_op_str());
        out.append(" ");
        let step = write_point(&points[i], ty, budget, out);
        proof {
            let next = v.take(i + 1);
            assert(next.drop_last() =~= v.take(i as int));
            assert(next.last() == v[i as int]);
            assert(v[i as int] == points[i as int]@);
        }
        match step {
            Err(e) => {
                proof {
                    lemma_chain_depth_bound(v, i as int);
                }
                return Err(e);
            },
            Ok(()) => {
                assert(out@ =~= base + chain_text(v.take(i + 1), ty));
            },
        }
        i += 1;
    }
    proof {
        assert(v.take(points.len() as int) =~= v);
    }
    Ok(())
}

/// Appends what follows the node reference of a node statement to `out`.
fn write_node_tail(attrs: &Option<Vec<AList>>, out: &mut String)
    ensures
        final(out)@ == old(out)@ + node_tail_text(opt_attr_list_view(*attrs)),
{
    match attrs {
        Some(groups) => {
            out.append(" ");
            write_attr_list(groups, out);
            assert(out@ =~= old(out)@ + (" "@ + attr_list_text(attr_list_view(groups@))));
        },
        None => {
            assert(out@ =~= old(out)@ + Seq::<char>::empty());
        },
    }
}

/// Appends what follows the endpoints of an edge statement to `out`.
fn write_edge_tail(attrs: &Option<Vec<AList>>, out: &mut String)
    ensures
        final(out)@ == old(out)@ + edge_tail_text(opt_attr_list_view(*attrs)),
{
    match attrs {
        Some(groups) => {
            write_attr_list(groups, out);
            out.append(" ");
            assert(out@ =~= old(out)@ + (attr_list_text(attr_list_view(groups@)) + " "@));
        },
        None => {
            assert(out@ =~= old(out)@ + Seq::<char>::empty());
        },
    }
}

/// Appends the body of an attribute statement to `out`.
fn write_attr_body(scope: AttrStmtType, attrs: &Vec<AList>, out: &mut String)
    ensures
        final(out)@ == old(out)@ + (scope.text() + " "@ + attr_list_text(attr_list_view(attrs@))),
{
    out.append(scope.as_str());
    out.append(" ");
    write_attr_list(attrs, out);
    assert(out@ =~= old(out)@ + (scope.text() + " "@ + attr_list_text(attr_list_view(attrs@))));
}

/// Appends the body of an assignment to `out`.
fn write_assign_body(lhs: &ID, rhs: &ID, out: &mut String)
    ensures
        final(out)@ == old(out)@ + (lhs@.text() + " "@ + rhs@.text()),
{
    lhs.write_to(out);
    out.append(" ");
    rhs.write_to(out);
    assert(out@ =~= old(out)@ + (lhs@.text() + " "@ + rhs@.text()));
}

/// Appends the body of a statement to `out`, following subgraphs nested up
/// to `budget` deep.
fn write_stmt_body(s: &Stmt, ty: GraphType, budget: usize, out: &mut String) -> (res: Result<
    (),
    RenderError,
>)
    ensures
        res is Ok <==> s@.depth() <= budget,
        res is Ok ==> final(out)@ == old(out)@ + s@.body_text(ty),
    decreases s, 0nat,
{
    match s {
        Stmt::Node { node_id, attrs } => {
            node_id.write_to(out);
            write_node_tail(attrs, out);
            proof {
                lemma_concat_associative(
                    old(out)@,
                    node_id@.text(),
                    node_tail_text(opt_attr_list_view(*attrs)),
                );
            }
            Ok(())
        },
        Stmt::Edge { start, rhs, attrs } => {
            match write_point(start, ty, budget, out) {
                Err(e) => {
                    return Err(e);
                },
                Ok(()) => {},
            }
            out.append(" ");
            match write_chain(rhs, ty, budget, out) {
                Err(e) => {
                    return Err(e);
                },
                Ok(()) => {},
            }
            write_edge_tail(attrs, out);
            proof {
                let a = start@.text(ty) + " "@;
                let b = chain_text(edge_points_view(rhs@), ty);
                let c = edge_tail_text(opt_attr_list_view(*attrs));
                lemma_concat_associative(old(out)@, start@.text(ty), " "@);
                lemma_concat_associative(old(out)@, a, b);
                lemma_concat_associative(old(out)@, a + b, c);
            }
            Ok(())
        },
        Stmt::Attr { ty: scope, attrs } => {
            write_attr_body(*scope, attrs, out);
            Ok(())
        },
        Stmt::Assign(lhs, rhs) => {
            write_assign_body(lhs, rhs, out);
            Ok(())
        },
        Stmt::Subgraph(sg) => write_subgraph(sg, ty, budget, out),
    }
}

/// Appends a statement to `out`, following subgraphs nested up to `budget`
/// deep.
pub fn write_stmt(s: &Stmt, ty: GraphType, budget: usize, out: &mut String) -> (res: Result<
    (),
    RenderError,
>)
    ensures
        res is Ok <==> s@.depth() <= budget,
        res is Ok ==> final(out)@ == old(out)@ + s@.text(ty),
    decreases s, 1nat,
{
    match write_stmt_body(s, ty, budget, out) {
        Err(e) => {
            return Err(e);
        },
        Ok(()) => {},
    }
    out.append(";");
    proof {
        lemma_concat_associative(old(out)@, s@.body_text(ty), ";"@);
    }
    Ok(())
}

/// Appends a statement list to `out`, each statement on a line of its own.
pub fn write_stmts(stmts: &Vec<Stmt>, ty: GraphType, budget: usize, out: &mut String) -> (res:
    Result<(), RenderError>)
    ensures
        res is Ok <==> stmts_depth(stmts_view(stmts@)) <= budget,
        res is Ok ==> final(out)@ == old(out)@ + stmts_text(stmts_view(stmts@), ty),
    decreases stmts,
{
    let ghost base = out@;
    let ghost v = stmts_view(stmts@);
    let mut i: usize = 0;
    assert(out@ =~= base + stmts_text(v.take(0), ty));
    while i < stmts.len()
        invariant
            i <= stmts.len(),
            v == stmts_view(stmts@),
            out@ == base + stmts_text(v.take(i as int), ty),
            stmts_depth(v.take(i as int)) <= budget,
        decreases stmts.len() - i,
    {
        let step = write_stmt(&stmts[i], ty, budget, out);
        proof {
            let next = v.take(i + 1);
            assert(next.drop_last() =~= v.take(i as int));
            assert(next.last() == v[i as int]);
            assert(v[i as int] == stmts[i as int]@);
        }
        match step {
            Err(e) => {
                proof {
                    lemma_stmts_depth_bound(v, i as int);
                }
                return Err(e);
            },
            Ok(()) => {},
        }
        out.append("\n");
        assert(out@ =~= base + stmts_text(v.take(i + 1), ty));
        i += 1;
    }
    proof {
        assert(v.take(stmts.len() as int) =~= v);
    }
    Ok(())
}

/// Appends a subgraph to `out`, following subgraphs nested up to `budget`
/// deep, this one included.
pub fn write_subgraph(sg: &Subgraph, ty: GraphType, budget: usize, out: &mut String) -> (res:
    Result<(), RenderError>)
    ensures
        res is Ok <==> sg@.depth() <= budget,
        res is Ok ==> final(out)@ == old(out)@ + sg@.text(ty),
    decreases sg,
{
    if budget == 0 {
        return Err(RenderError::TooDeep);
    }
    out.append("subgraph ");
    match &sg.id {
        Some(id) => {
            id.write_to(out);
            out.append(" ");
        },
        None => {},
    }
    out.append("{\n");
    match write_stmts(&sg.stmt_list, ty, budget - 1, out) {
        Err(e) => {
            return Err(e);
        },
        Ok(()) => {},
    }
    out.append("}");
    assert(out@ =~= old(out)@ + sg@.text(ty));
    Ok(())
}

impl EdgePoint {
    /// The text of the endpoint in a graph of type `ty`.
    pub fn render(&self, ty: GraphType) -> (res: Result<String, RenderError>)
        ensures
            match res {
                Ok(out) => self@.depth() <= MAX_DEPTH && out@ == self@.text(ty),
                Err(e) => self@.depth() > MAX_DEPTH && e == RenderError::TooDeep,
            },
    {
        let mut out = String::new();
        match write_point(self, ty, MAX_DEPTH, &mut out) {
            Ok(()) => {
                assert(out@ =~= self@.text(ty));
                Ok(out)
            },
            Err(e) => Err(e),
        }
    }
}

impl Stmt {
    /// The text of the statement in a graph of type `ty`.
    pub fn render(&self, ty: GraphType) -> (res: Result<String, RenderError>)
        ensures
            match res {
                Ok(out) => self@.depth() <= MAX_DEPTH && out@ == self@.text(ty),
                Err(e) => self@.depth() > MAX_DEPTH && e == RenderError::TooDeep,
            },
    {
        let mut out = String::new();
        match write_stmt(self, ty, MAX_DEPTH, &mut out) {
            Ok(()) => {
                assert(out@ =~= self@.text(ty));
                Ok(out)
            },
            Err(e) => Err(e),
        }
    }
}

impl Subgraph {
    /// The text of the subgraph in a graph of type `ty`.
    pub fn render(&self, ty: GraphType) -> (res: Result<String, RenderError>)
        ensures
            match res {
                Ok(out) => self@.depth() <= MAX_DEPTH && out@ == self@.text(ty),
                Err(e) => self@.depth() > MAX_DEPTH && e == RenderError::TooDeep,
            },
    {
        let mut out = String::new();
        match write_subgraph(self, ty, MAX_DEPTH, &mut out) {
            Ok(()) => {
                assert(out@ =~= self@.text(ty));
                Ok(out)
            },
            Err(e) => Err(e),
        }
    }
}

impl Graph {
    /// The text of the whole document, or `TooDeep` where its subgraphs are
    /// nested deeper than `MAX_DEPTH`.
    pub fn render(&self) -> (res: Result<String, RenderError>)
        ensures
            match res {
                Ok(out) => self@.depth() <= MAX_DEPTH && out@ == self@.text(),
                Err(e) => self@.depth() > MAX_DEPTH && e == RenderError::TooDeep,
            },
    {
        let mut out = String::new();
        if self.is_strict {
            out.append("strict ");
        }
        out.append(self.graph_type.as_str());
        out.append(" ");
        self.id.write_to(&mut out);
        out.append(" ");
        out.append("{\n");
        match write_stmts(&self.stmt_list, self.graph_type, MAX_DEPTH, &mut out) {
            Err(e) => {
                return Err(e);
            },
            Ok(()) => {},
        }
        out.append("}");
        assert(out@ =~= self@.text());
        Ok(out)
    }
}

} // verus!
