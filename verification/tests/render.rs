use dot_graph::ast::{
    AttrStmtType, CompassPt, EdgePoint, Graph, GraphType, NodeID, Port, Stmt, Subgraph, ID,
};
use dot_graph::decimal::decimal_string;
use dot_graph::render::{write_chain, RenderError, MAX_DEPTH};

fn name(s: &str) -> ID {
    ID::Name(s.to_string())
}

fn node(s: &str) -> NodeID {
    NodeID { id: name(s), port: None }
}

fn point(s: &str) -> EdgePoint {
    EdgePoint::NodeID(node(s))
}

fn edge(start: &str, rest: &[&str]) -> Stmt {
    Stmt::Edge { start: point(start), rhs: rest.iter().map(|s| point(s)).collect(), attrs: None }
}

fn graph(graph_type: GraphType, stmt_list: Vec<Stmt>) -> Graph {
    Graph { is_strict: false, graph_type, id: name("G"), stmt_list }
}

/// `depth` subgraphs, each inside the one before, the innermost empty.
fn nested(depth: usize) -> Vec<Stmt> {
    let mut stmts: Vec<Stmt> = Vec::new();
    for _ in 0..depth {
        stmts = vec![Stmt::Subgraph(Subgraph { id: None, stmt_list: stmts })];
    }
    stmts
}

/// Takes a chain of nested subgraphs apart without recursion.
fn dismantle(mut stmts: Vec<Stmt>) {
    loop {
        match stmts.pop() {
            Some(Stmt::Subgraph(sg)) => {
                stmts = sg.stmt_list;
            }
            _ => break,
        }
    }
}

#[test]
fn strict_digraph_with_one_edge_and_attribute() {
    let g = Graph {
        is_strict: true,
        graph_type: GraphType::Digraph,
        id: name("G"),
        stmt_list: vec![Stmt::Edge {
            start: point("A"),
            rhs: vec![point("B")],
            attrs: Some(vec![vec![(name("color"), name("red"))]]),
        }],
    };
    assert_eq!(
        g.render(),
        Ok("strict digraph G {\nA -> B[ color = red; ] ;\n}".to_string())
    );
}

#[test]
fn string_literal_is_quoted_and_not_escaped() {
    let id = ID::StringLiteral("he said \"hi\"".to_string());
    assert_eq!(id.render(), "\"he said \"hi\"\"");
}

#[test]
fn name_is_written_as_it_is() {
    assert_eq!(name("Node_1").render(), "Node_1");
    assert_eq!(name("").render(), "");
}

#[test]
fn integer_is_written_in_base_ten() {
    assert_eq!(ID::Integer(0).render(), "0");
    assert_eq!(ID::Integer(7).render(), "7");
    assert_eq!(ID::Integer(10).render(), "10");
    assert_eq!(ID::Integer(1234567).render(), "1234567");
    assert_eq!(ID::Integer(-5).render(), "-5");
    assert_eq!(ID::Integer(-1000).render(), "-1000");
}

#[test]
fn extreme_integers_are_written_as_std_writes_them() {
    assert_eq!(ID::Integer(isize::MAX).render(), format!("{}", isize::MAX));
    assert_eq!(ID::Integer(isize::MIN).render(), format!("{}", isize::MIN));
    assert_eq!(decimal_string(isize::MIN + 1), format!("{}", isize::MIN + 1));
    for i in -1100isize..1100 {
        assert_eq!(decimal_string(i), format!("{}", i));
    }
}

#[test]
fn float_text_is_written_as_it_is() {
    assert_eq!(ID::Float(format!("{}", 1.5f64)).render(), "1.5");
    assert_eq!(ID::Float(format!("{}", -0.25f64)).render(), "-0.25");
    assert_eq!(ID::Float(format!("{}", 3f64)).render(), "3");
}

#[test]
fn compass_points_are_lower_case_tokens() {
    assert_eq!(CompassPt::N.render(), "n");
    assert_eq!(CompassPt::NE.render(), "ne");
    assert_eq!(CompassPt::E.render(), "e");
    assert_eq!(CompassPt::SE.render(), "se");
    assert_eq!(CompassPt::S.render(), "s");
    assert_eq!(CompassPt::SW.render(), "sw");
    assert_eq!(CompassPt::W.render(), "w");
    assert_eq!(CompassPt::NW.render(), "nw");
    assert_eq!(CompassPt::C.render(), "c");
    assert_eq!(CompassPt::Underscore.render(), "_");
    assert_eq!(CompassPt::SW.as_str(), "sw");
}

#[test]
fn graph_types_and_scopes_are_keywords() {
    assert_eq!(GraphType::Graph.render(), "graph");
    assert_eq!(GraphType::Digraph.render(), "digraph");
    assert_eq!(GraphType::Graph.as_str(), "graph");
    assert_eq!(GraphType::Graph.edge_op_str(), "--");
    assert_eq!(GraphType::Digraph.edge_op_str(), "->");
    assert_eq!(AttrStmtType::Graph.render(), "graph");
    assert_eq!(AttrStmtType::Node.render(), "node");
    assert_eq!(AttrStmtType::Edge.render(), "edge");
    assert_eq!(AttrStmtType::Edge.as_str(), "edge");
}

#[test]
fn port_has_three_forms() {
    assert_eq!(Port::ID(name("p")).render(), "p");
    assert_eq!(Port::IDCompass(name("p"), CompassPt::NE).render(), "p:ne");
    assert_eq!(Port::Compass(CompassPt::Underscore).render(), "_");
}

#[test]
fn node_reference_puts_the_port_behind_a_colon() {
    assert_eq!(node("A").render(), "A");
    let with_port = NodeID { id: name("A"), port: Some(Port::IDCompass(name("p"), CompassPt::S)) };
    assert_eq!(with_port.render(), "A:p:s");
    let with_compass = NodeID { id: ID::Integer(3), port: Some(Port::Compass(CompassPt::W)) };
    assert_eq!(with_compass.render(), "3:w");
}

#[test]
fn node_statement_without_and_with_attributes() {
    let plain = Stmt::Node { node_id: node("A"), attrs: None };
    assert_eq!(plain.render(GraphType::Graph), Ok("A;".to_string()));
    let with = Stmt::Node {
        node_id: node("A"),
        attrs: Some(vec![vec![(name("color"), name("red")), (name("shape"), name("box"))]]),
    };
    assert_eq!(
        with.render(GraphType::Graph),
        Ok("A [ color = red; shape = box; ];".to_string())
    );
}

#[test]
fn every_pair_of_a_group_is_followed_by_a_separator() {
    let one = Stmt::Attr { ty: AttrStmtType::Node, attrs: vec![vec![(name("a"), name("b"))]] };
    assert_eq!(one.render(GraphType::Graph), Ok("node [ a = b; ];".to_string()));
    let none = Stmt::Attr { ty: AttrStmtType::Graph, attrs: vec![vec![]] };
    assert_eq!(none.render(GraphType::Graph), Ok("graph [ ];".to_string()));
}

#[test]
fn repeated_keys_are_kept_in_order() {
    let s = Stmt::Attr {
        ty: AttrStmtType::Edge,
        attrs: vec![vec![(name("k"), ID::Integer(1)), (name("k"), ID::Integer(2))]],
    };
    assert_eq!(s.render(GraphType::Digraph), Ok("edge [ k = 1; k = 2; ];".to_string()));
}

#[test]
fn groups_of_an_attribute_list_abut() {
    let s = Stmt::Attr {
        ty: AttrStmtType::Node,
        attrs: vec![vec![(name("a"), name("b"))], vec![(name("c"), name("d"))]],
    };
    assert_eq!(s.render(GraphType::Graph), Ok("node [ a = b; ][ c = d; ];".to_string()));
    let empty = Stmt::Attr { ty: AttrStmtType::Node, attrs: vec![] };
    assert_eq!(empty.render(GraphType::Graph), Ok("node ;".to_string()));
}

#[test]
fn assignment_has_no_equals_sign() {
    let s = Stmt::Assign(name("rankdir"), name("LR"));
    assert_eq!(s.render(GraphType::Graph), Ok("rankdir LR;".to_string()));
}

#[test]
fn edge_chain_repeats_the_operator() {
    assert_eq!(
        edge("A", &["B", "C"]).render(GraphType::Digraph),
        Ok("A -> B -> C;".to_string())
    );
    assert_eq!(
        edge("A", &["B", "C"]).render(GraphType::Graph),
        Ok("A -- B -- C;".to_string())
    );
}

#[test]
fn edge_without_further_endpoints_keeps_the_space_behind_its_start() {
    assert_eq!(edge("A", &[]).render(GraphType::Digraph), Ok("A ;".to_string()));
}

#[test]
fn edge_attributes_abut_the_last_endpoint() {
    let s = Stmt::Edge {
        start: point("A"),
        rhs: vec![point("B")],
        attrs: Some(vec![vec![(name("w"), ID::Integer(2))], vec![]]),
    };
    assert_eq!(s.render(GraphType::Graph), Ok("A -- B[ w = 2; ][ ] ;".to_string()));
}

#[test]
fn subgraph_with_and_without_identifier() {
    let anonymous = Subgraph { id: None, stmt_list: vec![] };
    assert_eq!(anonymous.render(GraphType::Graph), Ok("subgraph {\n}".to_string()));
    let named = Subgraph {
        id: Some(name("cluster")),
        stmt_list: vec![Stmt::Node { node_id: node("X"), attrs: None }],
    };
    assert_eq!(named.render(GraphType::Graph), Ok("subgraph cluster {\nX;\n}".to_string()));
    assert_eq!(
        Stmt::Subgraph(named).render(GraphType::Graph),
        Ok("subgraph cluster {\nX;\n};".to_string())
    );
}

#[test]
fn subgraph_as_edge_endpoint() {
    let sg = Subgraph { id: None, stmt_list: vec![Stmt::Node { node_id: node("B"), attrs: None }] };
    let p = EdgePoint::Subgraph(sg);
    assert_eq!(p.render(GraphType::Digraph), Ok("subgraph {\nB;\n}".to_string()));
    let sg = Subgraph { id: None, stmt_list: vec![Stmt::Node { node_id: node("B"), attrs: None }] };
    let s = Stmt::Edge { start: point("A"), rhs: vec![EdgePoint::Subgraph(sg)], attrs: None };
    assert_eq!(s.render(GraphType::Digraph), Ok("A -> subgraph {\nB;\n};".to_string()));
    assert_eq!(point("A").render(GraphType::Digraph), Ok("A".to_string()));
}

#[test]
fn empty_graphs() {
    assert_eq!(graph(GraphType::Graph, vec![]).render(), Ok("graph G {\n}".to_string()));
    assert_eq!(graph(GraphType::Digraph, vec![]).render(), Ok("digraph G {\n}".to_string()));
    let strict = Graph {
        is_strict: true,
        graph_type: GraphType::Graph,
        id: ID::StringLiteral("my graph".to_string()),
        stmt_list: vec![],
    };
    assert_eq!(strict.render(), Ok("strict graph \"my graph\" {\n}".to_string()));
}

#[test]
fn each_statement_stands_on_its_own_line() {
    let g = graph(
        GraphType::Graph,
        vec![
            Stmt::Node { node_id: node("A"), attrs: None },
            Stmt::Assign(name("a"), name("b")),
            edge("A", &["B"]),
        ],
    );
    assert_eq!(g.render(), Ok("graph G {\nA;\na b;\nA -- B;\n}".to_string()));
}

fn with_nested_edges(graph_type: GraphType) -> Graph {
    let innermost = Subgraph { id: Some(name("inner")), stmt_list: vec![edge("C", &["D", "E"])] };
    let middle = Subgraph {
        id: None,
        stmt_list: vec![
            edge("B", &["C"]),
            Stmt::Edge {
                start: point("X"),
                rhs: vec![EdgePoint::Subgraph(innermost)],
                attrs: None,
            },
        ],
    };
    graph(graph_type, vec![edge("A", &["B"]), Stmt::Subgraph(middle)])
}

#[test]
fn directed_graph_writes_arrows_at_every_depth() {
    let text = with_nested_edges(GraphType::Digraph).render().unwrap();
    assert_eq!(
        text,
        "digraph G {\nA -> B;\nsubgraph {\nB -> C;\nX -> subgraph inner {\nC -> D -> E;\n};\n};\n}"
    );
    assert_eq!(text.matches("->").count(), 5);
    assert_eq!(text.matches("--").count(), 0);
}

#[test]
fn undirected_graph_writes_dashes_at_every_depth() {
    let text = with_nested_edges(GraphType::Graph).render().unwrap();
    assert_eq!(
        text,
        "graph G {\nA -- B;\nsubgraph {\nB -- C;\nX -- subgraph inner {\nC -- D -- E;\n};\n};\n}"
    );
    assert_eq!(text.matches("--").count(), 5);
    assert_eq!(text.matches("->").count(), 0);
}

#[test]
fn rendering_twice_gives_the_same_text() {
    let g = with_nested_edges(GraphType::Digraph);
    assert_eq!(g.render(), g.render());
}

#[test]
fn hundred_thousand_nested_subgraphs_are_too_deep() {
    let g = graph(GraphType::Graph, nested(100_000));
    assert_eq!(g.render(), Err(RenderError::TooDeep));
    dismantle(g.stmt_list);
}

#[test]
fn nesting_up_to_the_limit_is_written() {
    let g = graph(GraphType::Graph, nested(MAX_DEPTH));
    let text = g.render().unwrap();
    assert_eq!(text.matches("subgraph {\n").count(), MAX_DEPTH);
    assert!(text.starts_with("graph G {\nsubgraph {\nsubgraph {\n"));
    assert!(text.ends_with("};\n};\n}"));
    let g = graph(GraphType::Graph, nested(MAX_DEPTH + 1));
    assert_eq!(g.render(), Err(RenderError::TooDeep));
}

#[test]
fn nesting_inside_an_edge_endpoint_counts() {
    let mut stmts = nested(MAX_DEPTH);
    let sg = Subgraph { id: None, stmt_list: std::mem::take(&mut stmts) };
    let s = Stmt::Edge { start: point("A"), rhs: vec![EdgePoint::Subgraph(sg)], attrs: None };
    assert_eq!(s.render(GraphType::Graph), Err(RenderError::TooDeep));
    let sg = Subgraph { id: None, stmt_list: nested(MAX_DEPTH - 1) };
    let s = Stmt::Edge { start: EdgePoint::Subgraph(sg), rhs: vec![], attrs: None };
    assert!(s.render(GraphType::Graph).is_ok());
    let sg = Subgraph { id: None, stmt_list: nested(MAX_DEPTH) };
    assert_eq!(sg.render(GraphType::Graph), Err(RenderError::TooDeep));
    assert_eq!(EdgePoint::Subgraph(sg).render(GraphType::Graph), Err(RenderError::TooDeep));
}

#[test]
fn subgraph_with_a_node_statement() {
    let sub = Subgraph {
        id: Some(name("cluster_0")),
        stmt_list: vec![Stmt::Node { node_id: node("A"), attrs: None }],
    };
    assert_eq!(sub.render(GraphType::Graph), Ok("subgraph cluster_0 {\nA;\n}".to_string()));
}

#[test]
fn edge_inside_a_subgraph_statement_of_a_digraph() {
    let inner = Subgraph { id: None, stmt_list: vec![edge("A", &["B"])] };
    assert_eq!(
        Stmt::Subgraph(inner).render(GraphType::Digraph),
        Ok("subgraph {\nA -> B;\n};".to_string())
    );
    let inner = Subgraph { id: None, stmt_list: vec![edge("A", &["B"])] };
    let g = graph(GraphType::Digraph, vec![Stmt::Subgraph(inner)]);
    assert_eq!(g.render(), Ok("digraph G {\nsubgraph {\nA -> B;\n};\n}".to_string()));
}

#[test]
fn blank_before_the_semicolon_only_behind_edge_attributes() {
    let with = Stmt::Edge {
        start: point("A"),
        rhs: vec![point("B")],
        attrs: Some(vec![vec![(name("color"), name("red"))]]),
    };
    assert_eq!(with.render(GraphType::Digraph), Ok("A -> B[ color = red; ] ;".to_string()));
    assert_eq!(edge("A", &["B"]).render(GraphType::Digraph), Ok("A -> B;".to_string()));
    let empty_list = Stmt::Edge { start: point("A"), rhs: vec![point("B")], attrs: Some(vec![]) };
    assert_eq!(empty_list.render(GraphType::Digraph), Ok("A -> B ;".to_string()));
}

#[test]
fn name_and_integer_can_share_a_text() {
    assert_eq!(name("1").render(), ID::Integer(1).render());
    assert_ne!(name("a1").render(), ID::Integer(1).render());
    assert_ne!(ID::Integer(-12).render(), ID::Integer(12).render());
    assert_ne!(ID::Integer(12).render(), ID::Integer(120).render());
    assert_ne!(ID::StringLiteral("a".to_string()).render(), name("a").render());
    assert_ne!(ID::Float("1.0".to_string()).render(), ID::Integer(1).render());
}

#[test]
fn chain_begins_with_the_operator() {
    let mut out = String::new();
    assert_eq!(write_chain(&vec![point("B")], GraphType::Digraph, MAX_DEPTH, &mut out), Ok(()));
    assert_eq!(out, "-> B");
    let mut out = String::new();
    assert_eq!(write_chain(&vec![point("B")], GraphType::Graph, MAX_DEPTH, &mut out), Ok(()));
    assert_eq!(out, "-- B");
    let mut out = String::from("A ");
    let points = vec![point("B"), point("C"), point("D")];
    assert_eq!(write_chain(&points, GraphType::Digraph, MAX_DEPTH, &mut out), Ok(()));
    assert_eq!(out, "A -> B -> C -> D");
    let mut out = String::from("A ");
    assert_eq!(write_chain(&vec![], GraphType::Digraph, MAX_DEPTH, &mut out), Ok(()));
    assert_eq!(out, "A ");
}
