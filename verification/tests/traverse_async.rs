use ntree::{Node, Postorder, Preorder};
use std::sync::{Arc, Mutex};

fn sample() -> Node<i32> {
    Node::new(10).with_children(vec![
        Node::new(20).with_children(vec![Node::new(40)]),
        Node::new(30).with_children(vec![Node::new(50)]),
    ])
}

#[test]
fn test_foreach_preorder() {
    let root = sample();

    let result = Arc::new(Mutex::new(Vec::new()));
    root.traverse()
        .into_async()
        .for_each::<Preorder, _>(|n| result.clone().lock().unwrap().push(n.value));

    let got = result.lock().unwrap();
    assert_eq!(got[0], 10);
    assert!(got.contains(&20));
    assert!(got.contains(&30));
    assert!(got.contains(&40));
    assert!(got.contains(&50));
}

#[test]
fn test_foreach_postorder() {
    let root = sample();

    let result = Arc::new(Mutex::new(Vec::new()));
    root.traverse()
        .into_async()
        .for_each::<Postorder, _>(|n| result.clone().lock().unwrap().push(n.value));

    let got = result.lock().unwrap();
    assert!(got.contains(&40));
    assert!(got.contains(&20));
    assert!(got.contains(&50));
    assert!(got.contains(&30));
    assert_eq!(got[got.len() - 1], 10);
}

#[test]
fn test_node_reduce() {
    let root = sample();

    let result = Arc::new(Mutex::new(Vec::new()));
    let sum = root.traverse().into_async().reduce(|n, results| {
        result.clone().lock().unwrap().push(n.value);
        n.value + results.iter().sum::<i32>()
    });

    assert_eq!(sum, 150);

    let got = result.lock().unwrap();
    assert!(got.contains(&40));
    assert!(got.contains(&20));
    assert!(got.contains(&50));
    assert!(got.contains(&30));
    assert_eq!(got[got.len() - 1], 10);
}

#[test]
fn test_node_cascade() {
    let root = sample();

    let result = Arc::new(Mutex::new(Vec::new()));
    root.traverse().into_async().cascade(0, |n, parent_value| {
        let next = n.value + parent_value;
        result.clone().lock().unwrap().push(next);
        next
    });

    let got = result.lock().unwrap();
    assert_eq!(got[0], 10);
    assert!(got.contains(&30));
    assert!(got.contains(&40));
    assert!(got.contains(&70));
    assert!(got.contains(&90));
}

#[test]
fn async_for_each_orders_exactly() {
    let root = sample();

    let pre = Arc::new(Mutex::new(Vec::new()));
    root.traverse()
        .into_async()
        .for_each::<Preorder, _>(|n| pre.lock().unwrap().push(n.value));
    assert_eq!(*pre.lock().unwrap(), vec![10, 20, 40, 30, 50]);

    let post = Arc::new(Mutex::new(Vec::new()));
    root.traverse()
        .into_async()
        .for_each::<Postorder, _>(|n| post.lock().unwrap().push(n.value));
    assert_eq!(*post.lock().unwrap(), vec![40, 20, 50, 30, 10]);
}

#[test]
fn async_map_keeps_shape() {
    let root = sample();
    let mapped = root.traverse().into_async().map(|n| n.value + 1);
    let m = mapped.node();
    assert_eq!(m.value, 11);
    assert_eq!(m.children[0].value, 21);
    assert_eq!(m.children[0].children[0].value, 41);
    assert_eq!(m.children[1].value, 31);
    assert_eq!(m.children[1].children[0].value, 51);
    assert_eq!(m.children[1].children[0].children.len(), 0);
}

#[test]
fn sync_and_async_reduce_agree() {
    let root = sample();
    let a = root.traverse().reduce(|n, rs| n.value * 2 + rs.iter().sum::<i32>());
    let b = root.traverse().into_async().reduce(|n, rs| n.value * 2 + rs.iter().sum::<i32>());
    assert_eq!(a, b);
    assert_eq!(a, 300);
}

#[test]
fn sync_and_async_map_build_the_same_tree() {
    let root = sample();
    let a = root.traverse().map(|n| n.value * 7 - 1);
    let b = root.traverse().into_async().map(|n| n.value * 7 - 1);
    assert_eq!(a.node(), b.node());
    assert_eq!(a.node().children[1].children[0].value, 349);
}
