//! Node pool: borrow/return conservation and runtime growth.

use magman::pool::{Node, Nodes};

fn pool_of(names: &[&str]) -> Nodes {
    Nodes::new(names.iter().map(|n| n.to_string()).collect())
}

#[test]
fn borrow_caps_at_pool_size() {
    let mut pool = pool_of(&["n1", "n2"]);
    let a = pool.borrow_node().unwrap();
    let b = pool.borrow_node().unwrap();
    // Two nodes on loan: the pool is exhausted, a third borrower must wait.
    assert!(pool.borrow_node().is_none());
    // Returning one node frees exactly one slot.
    pool.return_node(a);
    let c = pool.borrow_node().unwrap();
    assert!(pool.borrow_node().is_none());
    pool.return_node(b);
    pool.return_node(c);
    // Everything returned: both can be borrowed again.
    assert!(pool.borrow_node().is_some());
    assert!(pool.borrow_node().is_some());
    assert!(pool.borrow_node().is_none());
}

#[test]
fn borrowed_nodes_come_from_the_pool() {
    let mut pool = pool_of(&["alpha"]);
    let node = pool.borrow_node().unwrap();
    assert_eq!(node.name(), "alpha");
    pool.return_node(node);
    let node = pool.borrow_node().unwrap();
    assert_eq!(node.name(), "alpha");
}

#[test]
fn add_node_grows_circulation() {
    let mut pool = pool_of(&["n1", "n2"]);
    let a = pool.borrow_node().unwrap();
    let b = pool.borrow_node().unwrap();
    assert!(pool.borrow_node().is_none());
    // A node admitted at runtime is available at once.
    pool.add_node(Node::new("n3".to_string()));
    let c = pool.borrow_node().unwrap();
    assert_eq!(c.name(), "n3");
    assert!(pool.borrow_node().is_none());
    pool.return_node(a);
    pool.return_node(b);
    pool.return_node(c);
}

#[test]
fn empty_pool_yields_nothing() {
    let mut pool = pool_of(&[]);
    assert!(pool.borrow_node().is_none());
}

#[test]
fn duplicate_names_are_distinct_entries() {
    let mut pool = pool_of(&["n1", "n1"]);
    assert!(pool.borrow_node().is_some());
    assert!(pool.borrow_node().is_some());
    assert!(pool.borrow_node().is_none());
}

#[test]
fn node_name() {
    let node = Node::new("cluster-7".to_string());
    assert_eq!(node.name(), "cluster-7");
}
