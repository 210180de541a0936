//! Spin-ordering keys and interactive runner nodes.

use magman::magmom::binary_key;
use magman::runner::Node;

#[test]
fn binary_key_encodes_spins() {
    assert_eq!(binary_key(&[true, false, true]), "101");
    assert_eq!(binary_key(&[false, false]), "00");
    assert_eq!(binary_key(&[true]), "1");
    assert_eq!(binary_key(&[]), "");
    assert_eq!(
        binary_key(&[true, false, false, true, false, false, false, false, true, false, false, true]),
        "100100001001"
    );
}

#[test]
fn runner_node_starts_ready() {
    let node = Node::new("localhost");
    assert!(node.is_ready());
}

#[test]
fn runner_node_status_round_trip() {
    let mut node = Node::new("localhost");
    node.mark_as_busy();
    assert!(!node.is_ready());
    node.mark_as_ready();
    assert!(node.is_ready());
}
