use ntree::{Node, Traverse};

fn sample() -> Node<i32> {
    Node::new(10).with_children(vec![
        Node::new(20).with_children(vec![Node::new(40)]),
        Node::new(30).with_children(vec![Node::new(50)]),
    ])
}

#[test]
fn test_for_each() {
    let root = sample();

    let mut result = Vec::new();
    Traverse::new(&root).for_each(|n| result.push(n.value));
    assert_eq!(result, vec![40, 20, 50, 30, 10]);
}

#[test]
fn test_reduce() {
    let root = sample();

    let sum = root
        .traverse()
        .reduce(|n, results| n.value + results.iter().sum::<i32>());

    assert_eq!(sum, 150);
}

#[test]
fn test_cascade() {
    let root = sample();

    let mut result = Vec::new();
    root.traverse().cascade(0, |n, parent_value| {
        result.push(n.value + parent_value);
        n.value + parent_value
    });

    assert_eq!(result, vec![10, 30, 70, 40, 90]);
}

#[test]
fn map_keeps_shape_and_applies_closure() {
    let root = sample();

    let mapped = root.traverse().map(|n| n.value * 2);
    let m = mapped.node();
    assert_eq!(m.value, 20);
    assert_eq!(m.children.len(), 2);
    assert_eq!(m.children[0].value, 40);
    assert_eq!(m.children[0].children.len(), 1);
    assert_eq!(m.children[0].children[0].value, 80);
    assert_eq!(m.children[1].value, 60);
    assert_eq!(m.children[1].children.len(), 1);
    assert_eq!(m.children[1].children[0].value, 100);
}

#[test]
fn map_calls_parent_before_children() {
    let root = sample();

    let mut seen = Vec::new();
    root.traverse().map(|n| seen.push(n.value));
    assert_eq!(seen, vec![10, 20, 40, 30, 50]);
}

#[test]
fn reduce_hands_children_results_in_order() {
    let root = sample();

    let order = root.traverse().reduce(|n, results: Vec<Vec<i32>>| {
        let mut out = Vec::new();
        for r in results {
            out.extend(r);
        }
        out.push(n.value);
        out
    });
    assert_eq!(order, vec![40, 20, 50, 30, 10]);
}

#[test]
fn reduce_counts_nodes() {
    let root = sample();
    let count = root.traverse().reduce(|_, results: Vec<usize>| 1 + results.iter().sum::<usize>());
    assert_eq!(count, 5);
}

#[test]
fn reduce_of_leaf_sees_no_results() {
    let leaf = Node::new(7);
    let r = leaf.traverse().reduce(|n, results: Vec<i32>| {
        assert!(results.is_empty());
        n.value
    });
    assert_eq!(r, 7);
}

#[test]
fn cascade_returns_the_same_tree() {
    let root = sample();
    let t = root.traverse().cascade(1, |n, parent| n.value * parent);
    let mut values = Vec::new();
    t.for_each(|n| values.push(n.value));
    assert_eq!(values, vec![40, 20, 50, 30, 10]);
}

#[test]
fn strategy_round_trip_keeps_tree() {
    let root = sample();
    let back = root.traverse().into_async().into_sync();
    let sum = back.reduce(|n, results| n.value + results.iter().sum::<i32>());
    assert_eq!(sum, 150);
}

#[test]
fn node_builders_and_getters() {
    let mut n = Node::new(3).with_children(vec![Node::new(4)]);
    assert_eq!(*n.value(), 3);
    assert_eq!(n.children().len(), 1);
    n.set_value(9);
    assert_eq!(n.value, 9);
    assert_eq!(n.children()[0].value, 4);
    assert_eq!(Node::new(1).children.len(), 0);
}

#[test]
fn node_sequences_follow_their_orders() {
    let root = sample();
    let pre: Vec<i32> = root.preorder_nodes().iter().map(|n| n.value).collect();
    let post: Vec<i32> = root.postorder_nodes().iter().map(|n| n.value).collect();
    assert_eq!(pre, vec![10, 20, 40, 30, 50]);
    assert_eq!(post, vec![40, 20, 50, 30, 10]);
}

#[test]
fn reduce_counts_what_for_each_visits() {
    let root = sample();
    let mut calls = 0usize;
    root.traverse().for_each(|_| calls += 1);
    let count = root.traverse().reduce(|_, rs: Vec<usize>| 1 + rs.iter().sum::<usize>());
    assert_eq!(count, calls);
    assert_eq!(count, root.preorder_nodes().len());
}

#[test]
fn reduce_sums_every_value() {
    let root = sample();
    let sum = root.traverse().reduce(|n, rs: Vec<i32>| n.value + rs.iter().sum::<i32>());
    let direct: i32 = root.postorder_nodes().iter().map(|n| n.value).sum();
    assert_eq!(sum, direct);
    assert_eq!(sum, 150);
}
