use ntree::Node;
use std::sync::{Arc, Mutex};

fn sample() -> Node<i32> {
    Node::new(10_i32).with_children(vec![
        Node::new(20).with_children(vec![Node::new(40)]),
        Node::new(30).with_children(vec![Node::new(50)]),
    ])
}

#[test]
fn test_node_preorder_mut() {
    let mut root = sample();

    let result = Arc::new(Mutex::new(Vec::new()));
    root.traverse_mut().into_async().preorder(|n| {
        n.set_value(n.value().saturating_add(1));
        result.clone().lock().unwrap().push(*n.value())
    });

    let got = result.lock().unwrap();
    assert_eq!(got[0], 11);
    assert!(got.contains(&21));
    assert!(got.contains(&31));
    assert!(got.contains(&41));
    assert!(got.contains(&51));
}

#[test]
fn test_node_postorder_mut() {
    let mut root = sample();

    let result = Arc::new(Mutex::new(Vec::new()));
    root.traverse_mut().into_async().postorder(|n| {
        n.set_value(n.value().saturating_add(1));
        result.clone().lock().unwrap().push(*n.value());
    });

    let got = result.lock().unwrap();
    assert!(got.contains(&41));
    assert!(got.contains(&21));
    assert!(got.contains(&51));
    assert!(got.contains(&31));
    assert_eq!(got[got.len() - 1], 11);
}

#[test]
fn test_node_reduce_mut() {
    let mut root = sample();

    let result = Arc::new(Mutex::new(Vec::new()));
    let sum = root.traverse_mut().into_async().reduce(|n, results| {
        n.set_value(n.value().saturating_add(1));
        result.clone().lock().unwrap().push(*n.value());
        n.value() + results.iter().sum::<i32>()
    });

    assert_eq!(sum, 155);

    let got = result.lock().unwrap();
    assert!(got.contains(&41));
    assert!(got.contains(&21));
    assert!(got.contains(&51));
    assert!(got.contains(&31));
    assert_eq!(got[got.len() - 1], 11);
}

#[test]
fn test_node_cascade_mut() {
    let mut root = sample();

    let result = Arc::new(Mutex::new(Vec::new()));
    root.traverse_mut().into_async().cascade(0, |n, parent_value| {
        let next = n.value() + parent_value;
        result.clone().lock().unwrap().push(next);
        n.set_value(*parent_value);
        next
    });

    assert_eq!(root.value, 0);
    assert_eq!(root.children[0].value, 10);
    assert_eq!(root.children[1].value, 10);
    assert_eq!(root.children[0].children[0].value, 30);
    assert_eq!(root.children[1].children[0].value, 40);

    let got = result.lock().unwrap();
    assert_eq!(got[0], 10);
    assert!(got.contains(&30));
    assert!(got.contains(&40));
    assert!(got.contains(&70));
    assert!(got.contains(&90));
}

#[test]
fn preorder_and_postorder_agree_on_value_rewrites() {
    let mut a = sample();
    let mut b = sample();
    a.traverse_mut().into_async().preorder(|n| n.set_value(n.value * 3 + 1));
    b.traverse_mut().into_async().postorder(|n| n.set_value(n.value * 3 + 1));
    assert_eq!(a, b);
    assert_eq!(a.value, 31);
    assert_eq!(a.children[0].children[0].value, 121);
    assert_eq!(a.children[1].children[0].value, 151);
}

#[test]
fn mutable_orders_are_exact() {
    let mut root = sample();
    let pre = Arc::new(Mutex::new(Vec::new()));
    root.traverse_mut().into_async().preorder(|n| pre.lock().unwrap().push(n.value));
    assert_eq!(*pre.lock().unwrap(), vec![10, 20, 40, 30, 50]);

    let post = Arc::new(Mutex::new(Vec::new()));
    root.traverse_mut().into_async().postorder(|n| post.lock().unwrap().push(n.value));
    assert_eq!(*post.lock().unwrap(), vec![40, 20, 50, 30, 10]);
}

#[test]
fn preorder_visits_children_present_after_the_call() {
    let mut root = Node::new(1_i32).with_children(vec![Node::new(2), Node::new(3)]);
    let seen = Arc::new(Mutex::new(Vec::new()));
    root.traverse_mut().into_async().preorder(|n| {
        seen.lock().unwrap().push(n.value);
        if n.value == 1 {
            n.children.truncate(1);
        }
    });
    assert_eq!(*seen.lock().unwrap(), vec![1, 2]);
    assert_eq!(root.children.len(), 1);
}

#[test]
fn postorder_hands_node_with_traversed_children() {
    let mut root = sample();
    root.traverse_mut().into_async().postorder(|n| {
        let below: i32 = n.children.iter().map(|c| c.value).sum();
        n.set_value(n.value + below);
    });
    assert_eq!(root.children[0].value, 60);
    assert_eq!(root.children[1].value, 80);
    assert_eq!(root.value, 150);
}

#[test]
fn round_trip_of_mutable_strategy_keeps_tree() {
    let mut root = sample();
    root.traverse_mut().into_async().into_sync().into_async().postorder(|n| n.set_value(0));
    assert_eq!(root.value, 0);
    assert_eq!(root.children[1].children[0].value, 0);
}

#[test]
fn reduce_mut_keeps_shape_when_only_values_change() {
    let mut root = sample();
    let depth = root.traverse_mut().into_async().reduce(|n, rs: Vec<usize>| {
        n.set_value(-n.value);
        1 + rs.into_iter().max().unwrap_or(0)
    });
    assert_eq!(depth, 3);
    assert_eq!(root.value, -10);
    assert_eq!(root.children.len(), 2);
    assert_eq!(root.children[0].children.len(), 1);
    assert_eq!(root.children[1].children.len(), 1);
    assert_eq!(root.children[1].children[0].value, -50);
    assert_eq!(root.children[1].children[0].children.len(), 0);
}

#[test]
fn cascade_mut_keeps_shape_when_only_values_change() {
    let mut root = sample();
    root.traverse_mut().into_async().cascade(1, |n, depth| {
        n.set_value(*depth);
        depth + 1
    });
    assert_eq!(root.value, 1);
    assert_eq!(root.children.len(), 2);
    assert_eq!(root.children[0].value, 2);
    assert_eq!(root.children[0].children.len(), 1);
    assert_eq!(root.children[0].children[0].value, 3);
    assert_eq!(root.children[1].children[0].value, 3);
}

#[test]
fn preorder_descends_into_a_child_the_closure_added() {
    let mut root = Node::new(0_i32);
    let seen = Arc::new(Mutex::new(Vec::new()));
    root.traverse_mut().into_async().preorder(|n| {
        seen.lock().unwrap().push(n.value);
        if n.value == 0 && n.children.is_empty() {
            n.children.push(Node::new(1));
        }
    });
    assert_eq!(*seen.lock().unwrap(), vec![0, 1]);
    assert_eq!(root.children.len(), 1);
    assert_eq!(root.children[0].children.len(), 0);
}

#[test]
fn cascade_mut_reaches_a_child_the_closure_added() {
    let mut root = Node::new(5_i32);
    root.traverse_mut().into_async().cascade(100, |n, parent| {
        if n.value == 5 {
            n.children.push(Node::new(0));
        }
        n.set_value(n.value + parent);
        n.value
    });
    assert_eq!(root.value, 105);
    assert_eq!(root.children.len(), 1);
    assert_eq!(root.children[0].value, 105);
}
