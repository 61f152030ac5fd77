use octree_store::bitmask::Bitmask;
use octree_store::block::Block;
use octree_store::node::{Node, NodePointer};
use octree_store::octant::Octant;

#[test]
fn bitmask_round_trips_its_byte() {
    let mask = Bitmask::new(0xa5);
    assert_eq!(mask.value(), 0xa5);
    assert!(mask.bit(0));
    assert!(!mask.bit(1));
    assert!(mask.bit(2));
    assert!(mask.bit(7));
}

#[test]
fn node_pointer_far_sentinel() {
    assert!(NodePointer::far().is_far());
    assert_eq!(NodePointer::far().value(), 0xffff);
    let near = NodePointer::new(5);
    assert!(!near.is_far());
    assert_eq!(near.value(), 5);
}

#[test]
fn root_node_pointer_is_far() {
    let root = Node::root(Bitmask::new(0b0000_0011), Bitmask::new(0b0000_0001));
    assert!(root.pointer().is_far());
    assert_eq!(root.octant_mask().value(), 0b0000_0011);
    assert_eq!(root.branch_mask().value(), 0b0000_0001);
}

#[test]
fn node_branch_invariant_rejected_at_construction() {
    // Branch bit 1 is set, but octant bit 1 is not: refused.
    let bad = Node::try_new(NodePointer::far(), Bitmask::new(0b01), Bitmask::new(0b11));
    assert!(bad.is_none());
    let good = Node::try_new(NodePointer::far(), Bitmask::new(0b11), Bitmask::new(0b01));
    assert!(good.is_some());
    assert!(good.unwrap().is_well_formed());
}

#[test]
fn node_branch_invariant_checkable_after_raw_construction() {
    let bad = Node::root(Bitmask::new(0b01), Bitmask::new(0b10));
    assert!(!bad.is_well_formed());
    let good = Node::root(Bitmask::new(0b11), Bitmask::new(0b10));
    assert!(good.is_well_formed());
}

#[test]
fn node_branch_invariant_enforced_on_mutation() {
    let mut node = Node::root(Bitmask::new(0b0000_0101), Bitmask::new(0));
    // Octant 1 does not exist: marking it as a branch is refused.
    assert!(!node.set_branch(Octant::Second));
    assert_eq!(node.branch_mask().value(), 0);
    // Octant 2 exists: marking it succeeds and keeps the invariant.
    assert!(node.set_branch(Octant::Third));
    assert_eq!(node.branch_mask().value(), 0b0000_0100);
    assert!(node.is_well_formed());
}

#[test]
fn node_descent_masks() {
    let node = Node::root(Bitmask::new(0b0000_0011), Bitmask::new(0b0000_0001));
    assert!(node.has_child(Octant::First));
    assert!(node.has_child(Octant::Second));
    assert!(!node.has_child(Octant::Third));
    assert!(node.is_branch(Octant::First));
    assert!(!node.is_branch(Octant::Second));
}

#[test]
fn block_bump_allocation_capacity() {
    let parent = Node::root(Bitmask::new(0b11), Bitmask::new(0b11));
    let child = Node::root(Bitmask::new(0), Bitmask::new(0));
    let mut block = Block::new(parent, 2, 2);
    assert_eq!(block.capacity(), 2);
    assert_eq!(block.end_index(), 0);
    assert!(!block.is_dirty());
    assert!(block.is_compact());

    assert_eq!(block.allocate(child), Some(0));
    assert_eq!(block.allocate(child), Some(1));
    assert_eq!(block.allocate(child), None);
    assert_eq!(block.end_index(), 2);
    assert!(block.is_dirty());
}

#[test]
fn block_attachment_slots() {
    let parent = Node::root(Bitmask::new(0b11), Bitmask::new(0));
    let child = Node::root(Bitmask::new(0), Bitmask::new(0));
    let mut block = Block::new(parent, 2, 2);
    block.allocate(child).unwrap();
    block.allocate(child).unwrap();
    assert_eq!(block.get_attachment(0, 0), 0);
    assert_eq!(block.get_attachment(1, 1), 0);
    block.set_attachment(0, 1, 0xdead);
    block.set_attachment(1, 0, 0xbeef);
    assert_eq!(block.get_attachment(0, 0), 0);
    assert_eq!(block.get_attachment(0, 1), 0xdead);
    assert_eq!(block.get_attachment(1, 0), 0xbeef);
    assert_eq!(block.get_attachment(1, 1), 0);
}

#[test]
fn block_node_records_and_dirty_flag() {
    let parent = Node::root(Bitmask::new(0b1), Bitmask::new(0));
    let child = Node::root(Bitmask::new(0b11), Bitmask::new(0b01));
    let mut block = Block::new(parent, 0, 4);
    assert_eq!(block.parent_node(), parent);
    block.allocate(child).unwrap();
    assert_eq!(block.node_at(0), child);

    block.mark_clean();
    assert!(!block.is_dirty());
    let replacement = Node::root(Bitmask::new(0b101), Bitmask::new(0b100));
    block.set_node(0, replacement);
    assert_eq!(block.node_at(0), replacement);
    assert!(block.is_dirty());
}
