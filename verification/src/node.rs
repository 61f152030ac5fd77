//! One octree node's branching description: two bitmasks and a pointer.

use vstd::prelude::*;
use crate::bitmask::Bitmask;
use crate::octant::Octant;

verus! {

/// A locator for a node's children: a 16-bit offset into the containing
/// block's node array, or the reserved far sentinel, which means the
/// children live in a different block and are resolved by address.
#[derive(Debug, Clone, Copy, PartialEq, Eq, Structural)]
pub struct NodePointer {
    pointer: u16,
}

impl NodePointer {
    /// The raw 16-bit value of the pointer.
    pub closed spec fn spec_value(self) -> u16 {
        self.pointer
    }

    /// Whether this is the far sentinel.
    pub open spec fn spec_is_far(self) -> bool {
        self.spec_value() == 0xffff
    }

    /// The far sentinel: children are stored in a different block.
    pub fn far() -> (r: NodePointer)
        ensures
            r.spec_is_far(),
    {
        NodePointer { pointer: 0xffff }
    }

    /// A near pointer: an offset into the current block's node array.
    /// The sentinel value cannot be a valid offset.
    pub fn new(offset: u16) -> (r: NodePointer)
        requires
            offset < 0xffff,
        ensures
            r.spec_value() == offset,
            !r.spec_is_far(),
    {
        NodePointer { pointer: offset }
    }

    /// The raw 16-bit value of the pointer.
    pub fn value(self) -> (r: u16)
        ensures
            r == self.spec_value(),
    {
        self.pointer
    }

    /// Whether this is the far sentinel.
    pub fn is_far(self) -> (r: bool)
        ensures
            r == self.spec_is_far(),
    {
        self.pointer == 0xffff
    }
}

/// A fixed-layout record describing one octree node: which octants exist
/// (`octant_mask`), which existing octants are internal branches rather
/// than leaves (`branch_mask`), and where the children sit
/// (`octants_index`).
#[derive(Debug, Clone, Copy, PartialEq, Eq, Structural)]
pub struct Node {
    octants_index: NodePointer,
    octant_mask: Bitmask,
    branch_mask: Bitmask,
}

impl Node {
    /// The presence mask: bit `i` says octant `i` exists.
    pub closed spec fn spec_octant_mask(self) -> Bitmask {
        self.octant_mask
    }

    /// The role mask: bit `i` says the existing octant `i` is itself a
    /// branching node.
    pub closed spec fn spec_branch_mask(self) -> Bitmask {
        self.branch_mask
    }

    /// The pointer to the node's children.
    pub closed spec fn spec_pointer(self) -> NodePointer {
        self.octants_index
    }

    /// Whether two mask bytes are compatible: a node may only be
    /// branching on a child that exists.
    pub open spec fn masks_compatible(octant_mask: Bitmask, branch_mask: Bitmask) -> bool {
        forall|i: u8| i < 8 && branch_mask.spec_bit(i) ==> octant_mask.spec_bit(i)
    }

    /// The node invariant: every branch bit has its presence bit set.
    pub open spec fn wf(self) -> bool {
        Node::masks_compatible(self.spec_octant_mask(), self.spec_branch_mask())
    }

    /// The root node for a header's declared masks.  Its pointer is
    /// always far: the root's children are by definition described in
    /// storage, since no block contains the root.
    pub fn root(octant_mask: Bitmask, branch_mask: Bitmask) -> (r: Node)
        ensures
            r.spec_octant_mask() == octant_mask,
            r.spec_branch_mask() == branch_mask,
            r.spec_pointer().spec_is_far(),
    {
        Node { octants_index: NodePointer::far(), octant_mask, branch_mask }
    }

    /// Builds a node after checking the invariant: the construction is
    /// rejected when the branch mask sets a bit the octant mask does not.
    pub fn try_new(octants_index: NodePointer, octant_mask: Bitmask, branch_mask: Bitmask) -> (r:
        Option<Node>)
        ensures
            (r is Some) <==> Node::masks_compatible(octant_mask, branch_mask),
            r matches Some(n) ==> n.spec_pointer() == octants_index && n.spec_octant_mask()
                == octant_mask && n.spec_branch_mask() == branch_mask && n.wf(),
    {
        if Node::masks_ok(octant_mask, branch_mask) {
            Some(Node { octants_index, octant_mask, branch_mask })
        } else {
            None
        }
    }

    /// Checks the node invariant on a pair of masks.
    fn masks_ok(octant_mask: Bitmask, branch_mask: Bitmask) -> (r: bool)
        ensures
            r == Node::masks_compatible(octant_mask, branch_mask),
    {
        let mut i: u8 = 0;
        while i < 8
            invariant
                i <= 8,
                forall|k: u8| k < i && branch_mask.spec_bit(k) ==> octant_mask.spec_bit(k),
            decreases 8 - i,
        {
            if branch_mask.bit(i) && !octant_mask.bit(i) {
                return false;
            }
            i = i + 1;
        }
        true
    }

    /// Checks the node invariant on this node's own masks.
    pub fn is_well_formed(&self) -> (r: bool)
        ensures
            r == self.wf(),
    {
        Node::masks_ok(self.octant_mask, self.branch_mask)
    }

    /// Whether the child in the given octant exists.  An absent child is
    /// not an error: the tree is sparse.
    pub fn has_child(&self, octant: Octant) -> (r: bool)
        ensures
            r == self.spec_octant_mask().spec_bit(octant.spec_index()),
    {
        self.octant_mask.bit(octant.index())
    }

    /// Whether the existing child in the given octant is itself a
    /// branching node, to be descended into, rather than a leaf carrying
    /// only attachment payloads.
    pub fn is_branch(&self, octant: Octant) -> (r: bool)
        ensures
            r == self.spec_branch_mask().spec_bit(octant.spec_index()),
    {
        self.branch_mask.bit(octant.index())
    }

    /// The pointer to the node's children: a finite offset indexes into
    /// the current block's node array, the far sentinel calls for
    /// resolving a new block by address.
    pub fn pointer(&self) -> (r: NodePointer)
        ensures
            r == self.spec_pointer(),
    {
        self.octants_index
    }

    /// The presence mask.
    pub fn octant_mask(&self) -> (r: Bitmask)
        ensures
            r == self.spec_octant_mask(),
    {
        self.octant_mask
    }

    /// The role mask.
    pub fn branch_mask(&self) -> (r: Bitmask)
        ensures
            r == self.spec_branch_mask(),
    {
        self.branch_mask
    }

    /// Marks the existing child in the given octant as a branch.  The
    /// mutation is refused, and the node left unchanged, when no such
    /// child exists: a node cannot be branching on a nonexistent child.
    pub fn set_branch(&mut self, octant: Octant) -> (r: bool)
        ensures
            r == old(self).spec_octant_mask().spec_bit(octant.spec_index()),
            r ==> final(self).spec_branch_mask() == old(self).spec_branch_mask().spec_with_bit(
                octant.spec_index(),
            ),
            !r ==> *final(self) == *old(self),
            final(self).spec_octant_mask() == old(self).spec_octant_mask(),
            final(self).spec_pointer() == old(self).spec_pointer(),
            old(self).wf() ==> final(self).wf(),
    {
        if self.octant_mask.bit(octant.index()) {
            let i = octant.index();
            proof {
                self.branch_mask.lemma_with_bit(i);
            }
            self.branch_mask = self.branch_mask.with_bit(i);
            true
        } else {
            false
        }
    }
}

} // verus!
