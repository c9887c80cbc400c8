use workflow_engine::graph::topological_order;

#[test]
fn chain_is_ordered_source_first() {
    let links = vec![(2usize, 1usize), (1, 0)];
    let order = topological_order(3, &links).unwrap();
    assert_eq!(order, vec![2, 1, 0]);
}

#[test]
fn two_vertex_cycle_is_reported() {
    let links = vec![(0usize, 1usize), (1, 0)];
    let vertex = topological_order(2, &links).unwrap_err();
    assert!(vertex < 2);
}

#[test]
fn self_link_is_a_cycle() {
    let links = vec![(0usize, 0usize)];
    assert_eq!(topological_order(1, &links), Err(0));
}

#[test]
fn empty_graph_has_the_empty_order() {
    let links: Vec<(usize, usize)> = vec![];
    assert_eq!(topological_order(0, &links), Ok(vec![]));
}
