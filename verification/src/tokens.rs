//! The text of a document as a stream of tokens.
//!
//! The stream sets the edge operators apart from all other text, so that one
//! can say of a document which operators it holds: every one of them is the
//! operator of the graph's type, however deep the edge is nested.

use vstd::prelude::*;
use vstd::seq_lib::lemma_concat_associative;
use crate::ast::{EdgePointView, GraphType, GraphView, StmtView, SubgraphView};
use crate::text::{chain_text, edge_tail_text, stmts_text};

verus! {

/// A piece of a document's text.
pub enum Token {
    /// Anything but an edge operator.
    Text(Seq<char>),
    /// The operator between two endpoints of an edge, in a graph of the
    /// given type.
    EdgeOp(GraphType),
}

impl Token {
    /// What the token is written as.
    pub open spec fn text(self) -> Seq<char> {
        match self {
            Token::Text(s) => s,
            Token::EdgeOp(ty) => ty.edge_op(),
        }
    }
}

/// The tokens written one after the other.
pub open spec fn tokens_text(tokens: Seq<Token>) -> Seq<char>
    decreases tokens.len(),
{
    if tokens.len() == 0 {
        Seq::empty()
    } else {
        tokens_text(tokens.drop_last()) + tokens.last().text()
    }
}

/// Every edge operator among the tokens is that of `ty`.
pub open spec fn ops_are(tokens: Seq<Token>, ty: GraphType) -> bool {
    forall|i: int|
        0 <= i < tokens.len() ==> (#[trigger] tokens[i]) is Text || tokens[i] == Token::EdgeOp(ty)
}

/// How many of the tokens are edge operators.
pub open spec fn count_ops(tokens: Seq<Token>) -> nat
    decreases tokens.len(),
{
    if tokens.len() == 0 {
        0
    } else if tokens.last() is EdgeOp {
        count_ops(tokens.drop_last()) + 1
    } else {
        count_ops(tokens.drop_last())
    }
}

impl EdgePointView {
    /// How many times two endpoints are joined inside the endpoint.
    pub open spec fn joins(self) -> nat
        decreases self,
    {
        match self {
            EdgePointView::NodeID(_) => 0,
            EdgePointView::Subgraph(sg) => stmts_joins(sg.stmt_list),
        }
    }
}

/// How many times two endpoints are joined by a chain and inside its
/// endpoints: each endpoint after the first is joined to the one before.
pub open spec fn chain_joins(points: Seq<EdgePointView>) -> nat
    decreases points,
{
    if points.len() == 0 {
        0
    } else {
        chain_joins(points.drop_last()) + 1 + points.last().joins()
    }
}

impl StmtView {
    /// How many times two endpoints are joined by the statement and inside
    /// it.
    pub open spec fn joins(self) -> nat
        decreases self,
    {
        match self {
            StmtView::Node { node_id, attrs } => 0,
            StmtView::Edge { start, rhs, attrs } => start.joins() + chain_joins(rhs),
            StmtView::Attr { ty, attrs } => 0,
            StmtView::Assign(lhs, rhs) => 0,
            StmtView::Subgraph(sg) => stmts_joins(sg.stmt_list),
        }
    }
}

/// How many times two endpoints are joined by the statements and inside
/// them.
pub open spec fn stmts_joins(stmts: Seq<StmtView>) -> nat
    decreases stmts,
{
    if stmts.len() == 0 {
        0
    } else {
        stmts_joins(stmts.drop_last()) + stmts.last().joins()
    }
}

impl GraphView {
    /// How many times two endpoints are joined in the document, at any
    /// depth.
    pub open spec fn joins(self) -> nat {
        stmts_joins(self.stmt_list)
    }
}

impl EdgePointView {
    /// A node reference is one token; a subgraph has the tokens of its
    /// statements.
    pub open spec fn tokens(self, ty: GraphType) -> Seq<Token>
        decreases self,
    {
        match self {
            EdgePointView::NodeID(n) => seq![Token::Text(n.text())],
            EdgePointView::Subgraph(sg) => sg.tokens(ty),
        }
    }
}

/// The tokens of the endpoints of an edge after its first, each behind the
/// operator, beginning with the operator.
pub open spec fn chain_tokens(points: Seq<EdgePointView>, ty: GraphType) -> Seq<Token>
    decreases points,
{
    if points.len() == 0 {
        Seq::empty()
    } else if points.len() == 1 {
        Seq::empty().push(Token::EdgeOp(ty)).push(Token::Text(" "@)) + points.last().tokens(ty)
    } else {
        chain_tokens(points.drop_last(), ty).push(Token::Text(" "@)).push(Token::EdgeOp(ty)).push(
            Token::Text(" "@),
        ) + points.last().tokens(ty)
    }
}

impl StmtView {
    /// The tokens of the body: the edge operators of an edge statement
    /// stand apart.
    pub open spec fn body_tokens(self, ty: GraphType) -> Seq<Token>
        decreases self, 0nat,
    {
        match self {
            StmtView::Edge { start, rhs, attrs } => (start.tokens(ty).push(Token::Text(" "@))
                + chain_tokens(rhs, ty)).push(Token::Text(edge_tail_text(attrs))),
            StmtView::Subgraph(sg) => sg.tokens(ty),
            StmtView::Node { node_id, attrs } => seq![Token::Text(self.body_text(ty))],
            StmtView::Attr { ty: scope, attrs } => seq![Token::Text(self.body_text(ty))],
            StmtView::Assign(lhs, rhs) => seq![Token::Text(self.body_text(ty))],
        }
    }

    /// The tokens of the statement, the semicolon last.
    pub open spec fn tokens(self, ty: GraphType) -> Seq<Token>
        decreases self, 1nat,
    {
        self.body_tokens(ty).push(Token::Text(";"@))
    }
}

/// The tokens of a statement list, each statement followed by a line
/// break.
pub open spec fn stmts_tokens(stmts: Seq<StmtView>, ty: GraphType) -> Seq<Token>
    decreases stmts,
{
    if stmts.len() == 0 {
        Seq::empty()
    } else {
        (stmts_tokens(stmts.drop_last(), ty) + stmts.last().tokens(ty)).push(Token::Text("\n"@))
    }
}

impl SubgraphView {
    /// The head, the tokens of the statements, and the closing brace.
    pub open spec fn tokens(self, ty: GraphType) -> Seq<Token>
        decreases self,
    {
        (seq![Token::Text(self.head_text())] + stmts_tokens(self.stmt_list, ty)).push(
            Token::Text("}"@),
        )
    }
}

impl GraphView {
    /// The tokens of the whole document.
    pub open spec fn tokens(self) -> Seq<Token> {
        (seq![Token::Text(self.head_text())] + stmts_tokens(self.stmt_list, self.graph_type)).push(
            Token::Text("}"@),
        )
    }
}

proof fn lemma_one(t: Token, ty: GraphType)
    requires
        t is Text || t == Token::EdgeOp(ty),
    ensures
        tokens_text(seq![t]) == t.text(),
        ops_are(seq![t], ty),
        count_ops(seq![t]) == if t is EdgeOp { 1nat } else { 0nat },
{
    assert(seq![t].drop_last() =~= Seq::<Token>::empty());
    assert(tokens_text(Seq::<Token>::empty()) =~= Seq::<char>::empty());
    assert(seq![t].last() == t);
    assert(tokens_text(seq![t]) =~= t.text());
    assert(count_ops(seq![t].drop_last()) == 0);
}

proof fn lemma_push(tokens: Seq<Token>, t: Token, ty: GraphType)
    requires
        ops_are(tokens, ty),
        t is Text || t == Token::EdgeOp(ty),
    ensures
        tokens_text(tokens.push(t)) == tokens_text(tokens) + t.text(),
        ops_are(tokens.push(t), ty),
        count_ops(tokens.push(t)) == count_ops(tokens) + if t is EdgeOp { 1nat } else { 0nat },
{
    assert(tokens.push(t).drop_last() =~= tokens);
}

proof fn lemma_concat(a: Seq<Token>, b: Seq<Token>, ty: GraphType)
    requires
        ops_are(a, ty),
        ops_are(b, ty),
    ensures
        tokens_text(a + b) == tokens_text(a) + tokens_text(b),
        ops_are(a + b, ty),
        count_ops(a + b) == count_ops(a) + count_ops(b),
    decreases b.len(),
{
    if b.len() == 0 {
        assert(a + b =~= a);
        assert(tokens_text(a) + tokens_text(b) =~= tokens_text(a));
    } else {
        assert((a + b).drop_last() =~= a + b.drop_last());
        lemma_concat(a, b.drop_last(), ty);
        lemma_concat_associative(tokens_text(a), tokens_text(b.drop_last()), b.last().text());
    }
}

/// The tokens of an endpoint spell its text; every edge operator among them
/// is that of `ty`, and there is one for each time that two endpoints are
/// joined inside the endpoint.
pub proof fn lemma_point_tokens(p: EdgePointView, ty: GraphType)
    ensures
        tokens_text(p.tokens(ty)) == p.text(ty),
        ops_are(p.tokens(ty), ty),
        count_ops(p.tokens(ty)) == p.joins(),
    decreases p,
{
    match p {
        EdgePointView::NodeID(n) => {
            lemma_one(Token::Text(n.text()), ty);
        },
        EdgePointView::Subgraph(sg) => {
            lemma_subgraph_tokens(sg, ty);
        },
    }
}

/// The tokens of a chain spell its text; every edge operator among them is
/// that of `ty`, and there is one for each time that two endpoints are
/// joined by the chain or inside its endpoints.
pub proof fn lemma_chain_tokens(points: Seq<EdgePointView>, ty: GraphType)
    ensures
        tokens_text(chain_tokens(points, ty)) == chain_text(points, ty),
        ops_are(chain_tokens(points, ty), ty),
        count_ops(chain_tokens(points, ty)) == chain_joins(points),
    decreases points,
{
    if points.len() == 1 {
        let t0 = Seq::<Token>::empty();
        let t1 = t0.push(Token::EdgeOp(ty));
        let t2 = t1.push(Token::Text(" "@));
        assert(points.drop_last() =~= Seq::<EdgePointView>::empty());
        assert(chain_joins(points.drop_last()) == 0);
        assert(count_ops(t0) == 0);
        assert(tokens_text(t0) =~= Seq::<char>::empty());
        lemma_push(t0, Token::EdgeOp(ty), ty);
        lemma_push(t1, Token::Text(" "@), ty);
        lemma_point_tokens(points.last(), ty);
        lemma_concat(t2, points.last().tokens(ty), ty);
        assert(tokens_text(chain_tokens(points, ty)) =~= chain_text(points, ty));
    } else if points.len() > 1 {
        let t0 = chain_tokens(points.drop_last(), ty);
        let t1 = t0.push(Token::Text(" "@));
        let t2 = t1.push(Token::EdgeOp(ty));
        let t3 = t2.push(Token::Text(" "@));
        lemma_chain_tokens(points.drop_last(), ty);
        lemma_push(t0, Token::Text(" "@), ty);
        lemma_push(t1, Token::EdgeOp(ty), ty);
        lemma_push(t2, Token::Text(" "@), ty);
        lemma_point_tokens(points.last(), ty);
        lemma_concat(t3, points.last().tokens(ty), ty);
    }
}

/// The tokens of the body of a statement spell the body; every edge
/// operator among them is that of `ty`, and there is one for each time that
/// two endpoints are joined by the statement or inside it.
pub proof fn lemma_stmt_body_tokens(s: StmtView, ty: GraphType)
    ensures
        tokens_text(s.body_tokens(ty)) == s.body_text(ty),
        ops_are(s.body_tokens(ty), ty),
        count_ops(s.body_tokens(ty)) == s.joins(),
    decreases s, 0nat,
{
    match s {
        StmtView::Edge { start, rhs, attrs } => {
            let first = start.tokens(ty).push(Token::Text(" "@));
            lemma_point_tokens(start, ty);
            lemma_push(start.tokens(ty), Token::Text(" "@), ty);
            lemma_chain_tokens(rhs, ty);
            lemma_concat(first, chain_tokens(rhs, ty), ty);
            lemma_push(first + chain_tokens(rhs, ty), Token::Text(edge_tail_text(attrs)), ty);
        },
        StmtView::Subgraph(sg) => {
            lemma_subgraph_tokens(sg, ty);
        },
        _ => {
            lemma_one(Token::Text(s.body_text(ty)), ty);
        },
    }
}

/// The tokens of a statement spell its text; every edge operator among them
/// is that of `ty`, and there is one for each time that two endpoints are
/// joined by the statement or inside it.
pub proof fn lemma_stmt_tokens(s: StmtView, ty: GraphType)
    ensures
        tokens_text(s.tokens(ty)) == s.text(ty),
        ops_are(s.tokens(ty), ty),
        count_ops(s.tokens(ty)) == s.joins(),
    decreases s, 1nat,
{
    lemma_stmt_body_tokens(s, ty);
    lemma_push(s.body_tokens(ty), Token::Text(";"@), ty);
}

/// The tokens of a statement list spell its text; every edge operator among
/// them is that of `ty`, and there is one for each time that two endpoints
/// are joined by the statements or inside them.
pub proof fn lemma_stmts_tokens(stmts: Seq<StmtView>, ty: GraphType)
    ensures
        tokens_text(stmts_tokens(stmts, ty)) == stmts_text(stmts, ty),
        ops_are(stmts_tokens(stmts, ty), ty),
        count_ops(stmts_tokens(stmts, ty)) == stmts_joins(stmts),
    decreases stmts, 2nat,
{
    if stmts.len() > 0 {
        let before = stmts_tokens(stmts.drop_last(), ty);
        lemma_stmts_tokens(stmts.drop_last(), ty);
        lemma_stmt_tokens(stmts.last(), ty);
        lemma_concat(before, stmts.last().tokens(ty), ty);
        lemma_push(before + stmts.last().tokens(ty), Token::Text("\n"@), ty);
    }
}

/// The tokens of a subgraph spell its text; every edge operator among them
/// is that of `ty`, the type of the graph that holds the subgraph, and there
/// is one for each time that two endpoints are joined inside the subgraph.
pub proof fn lemma_subgraph_tokens(sg: SubgraphView, ty: GraphType)
    ensures
        tokens_text(sg.tokens(ty)) == sg.text(ty),
        ops_are(sg.tokens(ty), ty),
        count_ops(sg.tokens(ty)) == stmts_joins(sg.stmt_list),
    decreases sg, 0nat,
{
    let head = seq![Token::Text(sg.head_text())];
    let body = stmts_tokens(sg.stmt_list, ty);
    lemma_one(Token::Text(sg.head_text()), ty);
    lemma_stmts_tokens(sg.stmt_list, ty);
    lemma_concat(head, body, ty);
    lemma_push(head + body, Token::Text("}"@), ty);
}

proof fn lemma_graph_tokens(g: GraphView)
    ensures
        tokens_text(g.tokens()) == g.text(),
        ops_are(g.tokens(), g.graph_type),
        count_ops(g.tokens()) == g.joins(),
{
    let ty = g.graph_type;
    let head = seq![Token::Text(g.head_text())];
    let body = stmts_tokens(g.stmt_list, ty);
    lemma_one(Token::Text(g.head_text()), ty);
    lemma_stmts_tokens(g.stmt_list, ty);
    lemma_concat(head, body, ty);
    lemma_push(head + body, Token::Text("}"@), ty);
}

/// The tokens of a document, written one after the other, are its text.
pub proof fn lemma_tokens_spell_text(g: GraphView)
    ensures
        tokens_text(g.tokens()) == g.text(),
{
    lemma_graph_tokens(g);
}

/// Every edge operator in the text of a document is the operator of the
/// graph's type: `->` throughout a directed graph and `--` throughout an
/// undirected one, also for edges inside subgraphs, however deep.
pub proof fn lemma_edge_ops_follow_graph_type(g: GraphView, i: int)
    requires
        0 <= i < g.tokens().len(),
        g.tokens()[i] is EdgeOp,
    ensures
        g.tokens()[i] == Token::EdgeOp(g.graph_type),
        g.graph_type == GraphType::Digraph ==> g.tokens()[i].text() == "->"@,
        g.graph_type == GraphType::Graph ==> g.tokens()[i].text() == "--"@,
{
    lemma_graph_tokens(g);
}

/// The text of a document holds one edge operator for each time that two
/// endpoints are joined in it, at any depth.
pub proof fn lemma_one_edge_op_for_each_join(g: GraphView)
    ensures
        count_ops(g.tokens()) == g.joins(),
{
    lemma_graph_tokens(g);
}

} // verus!
