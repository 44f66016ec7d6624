use shader_graph::error::Moment;
use shader_graph::graph::{Connection, Graph, NodeId};
use shader_graph::node::NodeType;
use shader_graph::order::update_order;

fn graph_of(nodes: usize, wires: &[(u64, u64)]) -> Graph {
    let mut graph = Graph::new();
    for _ in 0..nodes {
        graph.add_node(NodeType::ObjRender, vec![], Ok(None), Moment { nanos: 0 });
    }
    for (from, to) in wires {
        assert!(graph.connect(NodeId { id: *from }, NodeId { id: *to }));
    }
    graph
}

#[test]
fn unwired_nodes_are_updated_in_order_of_creation() {
    assert_eq!(graph_of(4, &[]).update_order(), vec![0, 1, 2, 3]);
    assert_eq!(graph_of(1, &[]).update_order(), vec![0]);
}

#[test]
fn producers_are_updated_before_consumers() {
    assert_eq!(graph_of(3, &[(2, 1), (1, 0)]).update_order(), vec![2, 1, 0]);
    assert_eq!(graph_of(4, &[(3, 0)]).update_order(), vec![1, 2, 3, 0]);
    assert_eq!(graph_of(4, &[(1, 0), (2, 0), (3, 2)]).update_order(), vec![1, 3, 2, 0]);
}

#[test]
fn ties_go_to_the_node_created_first() {
    assert_eq!(graph_of(4, &[(0, 3), (1, 3), (2, 3)]).update_order(), vec![0, 1, 2, 3]);
    assert_eq!(graph_of(5, &[(4, 2), (4, 1)]).update_order(), vec![0, 3, 4, 1, 2]);
}

#[test]
fn doubled_wires_change_nothing() {
    assert_eq!(graph_of(2, &[(1, 0), (1, 0)]).update_order(), vec![1, 0]);
}

#[test]
fn circles_are_entered_at_the_node_created_first() {
    assert_eq!(graph_of(2, &[(0, 1), (1, 0)]).update_order(), vec![0, 1]);
    assert_eq!(graph_of(4, &[(1, 2), (2, 1), (3, 0)]).update_order(), vec![3, 0, 1, 2]);
    assert_eq!(graph_of(3, &[(0, 1), (1, 2), (2, 0)]).update_order(), vec![0, 1, 2]);
}

#[test]
fn order_speaks_of_positions_not_of_names() {
    let mut graph = graph_of(4, &[(3, 1)]);
    graph.remove_node(NodeId { id: 0 });
    assert_eq!(graph.update_order(), vec![1, 2, 0]);
}

#[test]
fn wires_to_unknown_nodes_are_ignored() {
    let graph = graph_of(2, &[]);
    let wires = vec![
        Connection { from: NodeId { id: 7 }, to: NodeId { id: 0 } },
        Connection { from: NodeId { id: 1 }, to: NodeId { id: 9 } },
    ];
    assert_eq!(update_order(&graph.nodes, &wires), vec![0, 1]);
    assert_eq!(update_order(&vec![], &wires), Vec::<usize>::new());
}
