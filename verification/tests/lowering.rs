use dot_graph::ast::{
    AttrStmtType, CompassPt, EdgePoint, Graph, GraphType, NodeID, Port, Stmt, Subgraph, ID,
};
use dot_graph::attrs::AttrMap;
use dot_graph::lower::{Lowered, LoweringError};
use dot_graph::petgraph::PetGraph;
use petgraph::graph::{EdgeIndex, NodeIndex};

fn name(s: &str) -> ID {
    ID::Name(s.to_string())
}

fn node(s: &str) -> NodeID {
    NodeID { id: name(s), port: None }
}

fn point(s: &str) -> EdgePoint {
    EdgePoint::NodeID(node(s))
}

fn decl(s: &str) -> Stmt {
    Stmt::Node { node_id: node(s), attrs: None }
}

fn decl_with(s: &str, pairs: &[(&str, &str)]) -> Stmt {
    Stmt::Node {
        node_id: node(s),
        attrs: Some(vec![pairs.iter().map(|(k, v)| (name(k), name(v))).collect()]),
    }
}

fn edge(start: &str, rest: &[&str]) -> Stmt {
    Stmt::Edge { start: point(start), rhs: rest.iter().map(|s| point(s)).collect(), attrs: None }
}

fn group(stmt_list: Vec<Stmt>) -> EdgePoint {
    EdgePoint::Subgraph(Subgraph { id: None, stmt_list })
}

fn graph(graph_type: GraphType, stmt_list: Vec<Stmt>) -> Graph {
    Graph { is_strict: false, graph_type, id: name("G"), stmt_list }
}

fn ids(lowered: &Lowered) -> Vec<String> {
    lowered.vertices.iter().map(|v| v.id.render()).collect()
}

fn ends(lowered: &Lowered) -> Vec<(usize, usize)> {
    lowered.links.iter().map(|l| (l.source, l.target)).collect()
}

fn error_of(g: &Graph) -> LoweringError {
    match g.lower() {
        Ok(_) => panic!("the graph was lowered"),
        Err(e) => e,
    }
}

#[test]
fn chain_of_three_points_gives_two_edges() {
    let g = graph(
        GraphType::Digraph,
        vec![
            decl("A"),
            decl("B"),
            decl("C"),
            Stmt::Edge {
                start: point("A"),
                rhs: vec![point("B"), point("C")],
                attrs: Some(vec![vec![(name("color"), name("red"))], vec![(name("w"), ID::Integer(2))]]),
            },
        ],
    );
    let lowered = g.lower().unwrap();
    assert_eq!(ids(&lowered), vec!["A", "B", "C"]);
    assert_eq!(ends(&lowered), vec![(0, 1), (1, 2)]);
    for link in &lowered.links {
        assert_eq!(link.attrs.len(), 2);
        assert_eq!(link.attrs.get(&name("color")), Some(&name("red")));
        assert_eq!(link.attrs.get(&name("w")), Some(&ID::Integer(2)));
        assert_eq!(link.attrs.get(&name("shape")), None);
    }
    assert_eq!(lowered.graph_type, GraphType::Digraph);
}

#[test]
fn endpoint_that_nothing_declares_is_an_error() {
    let g = graph(GraphType::Digraph, vec![decl("A"), edge("A", &["B"])]);
    assert_eq!(error_of(&g), LoweringError::UndeclaredEndpoint);
    let g = graph(GraphType::Graph, vec![edge("A", &["B"])]);
    assert_eq!(error_of(&g), LoweringError::UndeclaredEndpoint);
    assert!(matches!(g.to_petgraph(), Err(LoweringError::UndeclaredEndpoint)));
}

#[test]
fn endpoint_is_declared_by_a_node_statement_anywhere() {
    let inner = Subgraph { id: None, stmt_list: vec![decl("B")] };
    let g = graph(GraphType::Graph, vec![edge("A", &["B"]), Stmt::Subgraph(inner), decl("A")]);
    let lowered = g.lower().unwrap();
    assert_eq!(ids(&lowered), vec!["A", "B"]);
    assert_eq!(ends(&lowered), vec![(0, 1)]);
}

#[test]
fn endpoint_is_declared_by_another_edge_statement() {
    let g = graph(GraphType::Digraph, vec![edge("A", &["B"]), edge("B", &["A"])]);
    let lowered = g.lower().unwrap();
    assert_eq!(ids(&lowered), vec!["A", "B"]);
    assert_eq!(ends(&lowered), vec![(0, 1), (1, 0)]);
    assert_eq!(lowered.vertices[0].attrs.len(), 0);
}

#[test]
fn endpoint_is_not_declared_by_its_own_edge_statement() {
    let g = graph(GraphType::Digraph, vec![edge("A", &["A", "A"])]);
    assert_eq!(error_of(&g), LoweringError::UndeclaredEndpoint);
    let g = graph(GraphType::Digraph, vec![decl("A"), edge("A", &["A"])]);
    let lowered = g.lower().unwrap();
    assert_eq!(ends(&lowered), vec![(0, 0)]);
}

#[test]
fn identifiers_of_different_kinds_are_different_nodes() {
    let one = Stmt::Node { node_id: NodeID { id: ID::Integer(1), port: None }, attrs: None };
    let g = graph(
        GraphType::Graph,
        vec![
            one,
            decl("A"),
            Stmt::Edge {
                start: point("A"),
                rhs: vec![EdgePoint::NodeID(NodeID { id: name("1"), port: None })],
                attrs: None,
            },
        ],
    );
    assert_eq!(error_of(&g), LoweringError::UndeclaredEndpoint);
}

#[test]
fn edge_without_a_second_endpoint_is_an_error() {
    let g = graph(GraphType::Digraph, vec![decl("A"), edge("A", &[])]);
    assert_eq!(error_of(&g), LoweringError::EmptyChain);
    assert!(matches!(g.to_petgraph(), Err(LoweringError::EmptyChain)));
    let inner = Subgraph { id: None, stmt_list: vec![edge("A", &[])] };
    let g = graph(GraphType::Digraph, vec![decl("A"), Stmt::Subgraph(inner)]);
    assert_eq!(error_of(&g), LoweringError::EmptyChain);
}

#[test]
fn undeclared_endpoint_comes_before_empty_chain() {
    let g = graph(GraphType::Digraph, vec![decl("A"), edge("A", &[]), edge("A", &["B"])]);
    assert_eq!(error_of(&g), LoweringError::UndeclaredEndpoint);
    let g = graph(GraphType::Digraph, vec![edge("A", &[])]);
    assert_eq!(error_of(&g), LoweringError::UndeclaredEndpoint);
}

#[test]
fn hundred_thousand_nested_subgraphs_are_too_deep_to_lower() {
    let mut stmts: Vec<Stmt> = Vec::new();
    for _ in 0..100_000 {
        stmts = vec![Stmt::Subgraph(Subgraph { id: None, stmt_list: stmts })];
    }
    let g = graph(GraphType::Graph, stmts);
    assert_eq!(error_of(&g), LoweringError::TooDeep);
    assert!(matches!(g.to_petgraph(), Err(LoweringError::TooDeep)));
    let mut stmts = g.stmt_list;
    loop {
        match stmts.pop() {
            Some(Stmt::Subgraph(sg)) => {
                stmts = sg.stmt_list;
            }
            _ => break,
        }
    }
}

#[test]
fn too_deep_comes_before_undeclared_endpoint() {
    let mut stmts: Vec<Stmt> = vec![edge("A", &["B"])];
    for _ in 0..129 {
        stmts = vec![Stmt::Subgraph(Subgraph { id: None, stmt_list: stmts })];
    }
    assert_eq!(error_of(&graph(GraphType::Graph, stmts)), LoweringError::TooDeep);
    let mut stmts: Vec<Stmt> = vec![edge("A", &["B"])];
    for _ in 0..128 {
        stmts = vec![Stmt::Subgraph(Subgraph { id: None, stmt_list: stmts })];
    }
    assert_eq!(error_of(&graph(GraphType::Graph, stmts)), LoweringError::UndeclaredEndpoint);
}

#[test]
fn nesting_up_to_the_limit_is_lowered() {
    let mut stmts: Vec<Stmt> = vec![decl("A")];
    for _ in 0..128 {
        stmts = vec![Stmt::Subgraph(Subgraph { id: None, stmt_list: stmts })];
    }
    let lowered = graph(GraphType::Graph, stmts).lower().unwrap();
    assert_eq!(ids(&lowered), vec!["A"]);
}

#[test]
fn attributes_of_node_statements_are_merged() {
    let g = graph(
        GraphType::Graph,
        vec![
            decl_with("A", &[("color", "red"), ("shape", "box")]),
            decl("B"),
            decl_with("A", &[("color", "blue"), ("label", "a"), ("label", "b")]),
        ],
    );
    let lowered = g.lower().unwrap();
    assert_eq!(ids(&lowered), vec!["A", "B"]);
    let a = &lowered.vertices[0].attrs;
    assert_eq!(a.len(), 3);
    assert_eq!(a.get(&name("color")), Some(&name("blue")));
    assert_eq!(a.get(&name("shape")), Some(&name("box")));
    assert_eq!(a.get(&name("label")), Some(&name("b")));
    assert_eq!(lowered.vertices[1].attrs.len(), 0);
    assert!(lowered.links.is_empty());
}

#[test]
fn attribute_statements_and_assignments_give_nothing() {
    let g = graph(
        GraphType::Graph,
        vec![
            Stmt::Attr { ty: AttrStmtType::Node, attrs: vec![vec![(name("color"), name("red"))]] },
            Stmt::Assign(name("rankdir"), name("LR")),
            decl("A"),
        ],
    );
    let lowered = g.lower().unwrap();
    assert_eq!(ids(&lowered), vec!["A"]);
    assert_eq!(lowered.vertices[0].attrs.len(), 0);
}

#[test]
fn ports_are_dropped() {
    let with_port = NodeID { id: name("A"), port: Some(Port::IDCompass(name("p"), CompassPt::N)) };
    let other_port = NodeID { id: name("A"), port: Some(Port::Compass(CompassPt::S)) };
    let g = graph(
        GraphType::Digraph,
        vec![
            Stmt::Node { node_id: with_port, attrs: None },
            decl("B"),
            Stmt::Edge {
                start: EdgePoint::NodeID(other_port),
                rhs: vec![point("B")],
                attrs: None,
            },
        ],
    );
    let lowered = g.lower().unwrap();
    assert_eq!(ids(&lowered), vec!["A", "B"]);
    assert_eq!(ends(&lowered), vec![(0, 1)]);
}

#[test]
fn subgraph_endpoint_stands_for_all_its_nodes() {
    let g = graph(
        GraphType::Digraph,
        vec![
            decl("A"),
            decl("D"),
            Stmt::Edge {
                start: point("A"),
                rhs: vec![group(vec![decl("B"), decl("C"), decl("B")]), point("D")],
                attrs: Some(vec![vec![(name("k"), name("v"))]]),
            },
        ],
    );
    let lowered = g.lower().unwrap();
    assert_eq!(ids(&lowered), vec!["A", "D", "B", "C"]);
    assert_eq!(ends(&lowered), vec![(0, 2), (0, 3), (2, 1), (3, 1)]);
    for link in &lowered.links {
        assert_eq!(link.attrs.get(&name("k")), Some(&name("v")));
    }
}

#[test]
fn two_subgraph_endpoints_are_joined_node_by_node() {
    let g = graph(
        GraphType::Graph,
        vec![Stmt::Edge {
            start: group(vec![decl("A"), decl("B")]),
            rhs: vec![group(vec![decl("C"), decl("D")])],
            attrs: None,
        }],
    );
    let lowered = g.lower().unwrap();
    assert_eq!(ids(&lowered), vec!["A", "B", "C", "D"]);
    assert_eq!(ends(&lowered), vec![(0, 2), (0, 3), (1, 2), (1, 3)]);
}

#[test]
fn empty_subgraph_endpoint_gives_no_edge() {
    let g = graph(
        GraphType::Graph,
        vec![
            decl("A"),
            Stmt::Edge { start: point("A"), rhs: vec![group(vec![])], attrs: None },
        ],
    );
    let lowered = g.lower().unwrap();
    assert_eq!(ids(&lowered), vec!["A"]);
    assert!(lowered.links.is_empty());
}

#[test]
fn edges_inside_a_subgraph_endpoint_come_first() {
    let g = graph(
        GraphType::Digraph,
        vec![
            decl("A"),
            Stmt::Edge {
                start: point("A"),
                rhs: vec![group(vec![decl("B"), decl("C"), edge("B", &["C"])])],
                attrs: None,
            },
        ],
    );
    let lowered = g.lower().unwrap();
    assert_eq!(ids(&lowered), vec!["A", "B", "C"]);
    assert_eq!(ends(&lowered), vec![(1, 2), (0, 1), (0, 2)]);
}

#[test]
fn undeclared_endpoint_inside_a_subgraph_endpoint_is_an_error() {
    let g = graph(
        GraphType::Digraph,
        vec![
            decl("A"),
            Stmt::Edge {
                start: point("A"),
                rhs: vec![group(vec![decl("B"), edge("B", &["C"])])],
                attrs: None,
            },
        ],
    );
    assert_eq!(error_of(&g), LoweringError::UndeclaredEndpoint);
}

#[test]
fn parallel_edges_are_kept() {
    let g = graph(GraphType::Graph, vec![edge("A", &["B"]), edge("A", &["B"])]);
    let lowered = g.lower().unwrap();
    assert_eq!(ends(&lowered), vec![(0, 1), (0, 1)]);
}

#[test]
fn edge_attributes_with_a_repeated_key_keep_the_last_value() {
    let g = graph(
        GraphType::Graph,
        vec![
            decl("A"),
            decl("B"),
            Stmt::Edge {
                start: point("A"),
                rhs: vec![point("B")],
                attrs: Some(vec![
                    vec![(name("k"), ID::Integer(1))],
                    vec![(name("k"), ID::Integer(2))],
                ]),
            },
        ],
    );
    let lowered = g.lower().unwrap();
    assert_eq!(lowered.links.len(), 1);
    assert_eq!(lowered.links[0].attrs.len(), 1);
    assert_eq!(lowered.links[0].attrs.get(&name("k")), Some(&ID::Integer(2)));
}

#[test]
fn attribute_map_writes_and_overwrites() {
    let mut m = AttrMap::new();
    assert_eq!(m.len(), 0);
    assert_eq!(m.get(&name("a")), None);
    m.set(name("a"), name("x"));
    m.set(name("b"), name("y"));
    m.set(name("a"), name("z"));
    assert_eq!(m.len(), 2);
    assert_eq!(m.get(&name("a")), Some(&name("z")));
    assert_eq!(m.get(&name("b")), Some(&name("y")));
    assert_eq!(m.get(&ID::StringLiteral("a".to_string())), None);
    m.extend(&vec![(name("b"), ID::Integer(1)), (name("c"), ID::Integer(2))]);
    assert_eq!(m.len(), 3);
    assert_eq!(m.get(&name("b")), Some(&ID::Integer(1)));
    let copy = m.clone();
    assert_eq!(copy.len(), 3);
    assert_eq!(copy.get(&name("c")), Some(&ID::Integer(2)));
}

#[test]
fn attribute_map_hands_out_its_pairs_in_the_order_of_first_writing() {
    let mut m = AttrMap::new();
    assert!(m.entries().is_empty());
    m.set(name("a"), name("x"));
    m.set(name("b"), name("y"));
    m.set(name("a"), name("z"));
    assert_eq!(m.entries(), &vec![(name("a"), name("z")), (name("b"), name("y"))]);
    assert_eq!(m.entries().len(), m.len());
}

#[test]
fn merged_attributes_of_a_vertex_are_listed_once_each() {
    let g = graph(
        GraphType::Graph,
        vec![
            decl_with("A", &[("color", "red"), ("shape", "box")]),
            decl_with("A", &[("color", "blue")]),
        ],
    );
    let lowered = g.lower().unwrap();
    assert_eq!(
        lowered.vertices[0].attrs.entries(),
        &vec![(name("color"), name("blue")), (name("shape"), name("box"))]
    );
}

#[test]
fn identifiers_are_equal_by_kind_and_value() {
    assert!(name("a") == name("a"));
    assert!(name("a") != name("b"));
    assert!(name("1") != ID::Integer(1));
    assert!(ID::Integer(1) == ID::Integer(1));
    assert!(ID::Float("1.5".to_string()) == ID::Float("1.5".to_string()));
    assert!(ID::Float("1.5".to_string()) != ID::Name("1.5".to_string()));
    assert!(ID::StringLiteral("a".to_string()) != name("a"));
    assert!(name("a").clone() == name("a"));
}

#[test]
fn digraph_becomes_a_directed_graph() {
    let g = graph(
        GraphType::Digraph,
        vec![
            decl_with("A", &[("color", "red")]),
            decl("B"),
            decl("C"),
            Stmt::Edge {
                start: point("A"),
                rhs: vec![point("B"), point("C")],
                attrs: Some(vec![vec![(name("w"), ID::Integer(2))]]),
            },
        ],
    );
    let pg = match g.to_petgraph() {
        Ok(PetGraph::Directed(pg)) => pg.inner,
        _ => panic!("no directed graph"),
    };
    assert!(pg.is_directed());
    assert_eq!(pg.node_count(), 3);
    assert_eq!(pg.edge_count(), 2);
    assert_eq!(
        pg.edge_endpoints(EdgeIndex::new(0)),
        Some((NodeIndex::new(0), NodeIndex::new(1)))
    );
    assert_eq!(
        pg.edge_endpoints(EdgeIndex::new(1)),
        Some((NodeIndex::new(1), NodeIndex::new(2)))
    );
    let a = pg.node_weight(NodeIndex::new(0)).unwrap();
    assert_eq!(a.get(&name("color")), Some(&name("red")));
    assert_eq!(pg.node_weight(NodeIndex::new(1)).unwrap().len(), 0);
    for e in 0..2 {
        let w = pg.edge_weight(EdgeIndex::new(e)).unwrap();
        assert_eq!(w.len(), 1);
        assert_eq!(w.get(&name("w")), Some(&ID::Integer(2)));
    }
    assert!(pg.find_edge(NodeIndex::new(1), NodeIndex::new(0)).is_none());
}

#[test]
fn graph_becomes_an_undirected_graph() {
    let g = graph(GraphType::Graph, vec![decl("A"), decl("B"), edge("B", &["A"])]);
    let pg = match g.to_petgraph() {
        Ok(PetGraph::Undirected(pg)) => pg.inner,
        _ => panic!("no undirected graph"),
    };
    assert!(!pg.is_directed());
    assert_eq!(pg.node_count(), 2);
    assert_eq!(pg.edge_count(), 1);
    assert_eq!(
        pg.edge_endpoints(EdgeIndex::new(0)),
        Some((NodeIndex::new(1), NodeIndex::new(0)))
    );
    assert!(pg.find_edge(NodeIndex::new(0), NodeIndex::new(1)).is_some());
}

#[test]
fn empty_document_becomes_an_empty_graph() {
    let pg = match graph(GraphType::Digraph, vec![]).to_petgraph() {
        Ok(PetGraph::Directed(pg)) => pg.inner,
        _ => panic!("no directed graph"),
    };
    assert_eq!(pg.node_count(), 0);
    assert_eq!(pg.edge_count(), 0);
}
