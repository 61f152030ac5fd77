//! A bounded arena holding one parent node's material: its child node
//! records and their attachment payloads.

use vstd::prelude::*;
use crate::node::Node;

verus! {

/// The storage unit for one parent node's children.  Child node records
/// and their payload slots are bump-allocated: `end_index` marks the next
/// free slot and only grows, up to `capacity`.  Each allocated node owns
/// one payload slot per schema entry, laid out in schema order, so slot
/// `s` of node `i` sits at position `i * attachment_count + s`.
///
/// A block has no persistent identity of its own: it is materialized on
/// demand for the address of the parent node it belongs to, and released
/// when no traversal references it any more.
pub struct Block {
    parent_node: Node,
    attachment_count: u8,
    nodes: Vec<Node>,
    attachments: Vec<u32>,
    capacity: u16,
    end_index: u16,
    is_dirty: bool,
    is_compact: bool,
}

impl Block {
    /// The node whose children this block holds.
    pub closed spec fn spec_parent_node(self) -> Node {
        self.parent_node
    }

    /// How many payload slots each node owns: one per schema entry.
    pub closed spec fn spec_attachment_count(self) -> u8 {
        self.attachment_count
    }

    /// The allocated child node records, in allocation order.
    pub closed spec fn spec_nodes(self) -> Seq<Node> {
        self.nodes@
    }

    /// Every payload slot of every allocated node, in layout order.
    pub closed spec fn spec_attachments(self) -> Seq<u32> {
        self.attachments@
    }

    /// The bound on how many child nodes the block can hold.
    pub closed spec fn spec_capacity(self) -> u16 {
        self.capacity
    }

    /// The write cursor: the next free node slot.
    pub closed spec fn spec_end_index(self) -> u16 {
        self.end_index
    }

    /// Whether the block has been mutated since it was last persisted.
    pub closed spec fn spec_is_dirty(self) -> bool {
        self.is_dirty
    }

    /// Whether no slots have been vacated, so the block can be
    /// serialized without over-allocating space.
    pub closed spec fn spec_is_compact(self) -> bool {
        self.is_compact
    }

    /// The layout position of payload slot `slot` of node `node_index`.
    pub open spec fn spec_slot(self, node_index: int, slot: int) -> int {
        node_index * self.spec_attachment_count() + slot
    }

    /// The block invariant: the cursor never passes the capacity, one
    /// node record exists per allocated slot, and every allocated node
    /// owns exactly one payload slot per schema entry.
    pub open spec fn wf(self) -> bool {
        &&& self.spec_end_index() <= self.spec_capacity()
        &&& self.spec_nodes().len() == self.spec_end_index()
        &&& self.spec_attachments().len() == self.spec_end_index()
            * self.spec_attachment_count()
    }

    /// An empty block for the given parent: no nodes allocated yet,
    /// nothing to persist, nothing vacated.
    pub fn new(parent_node: Node, attachment_count: u8, capacity: u16) -> (r: Block)
        ensures
            r.wf(),
            r.spec_parent_node() == parent_node,
            r.spec_attachment_count() == attachment_count,
            r.spec_capacity() == capacity,
            r.spec_end_index() == 0,
            r.spec_nodes() == Seq::<Node>::empty(),
            r.spec_attachments() == Seq::<u32>::empty(),
            !r.spec_is_dirty(),
            r.spec_is_compact(),
    {
        Block {
            parent_node,
            attachment_count,
            nodes: Vec::new(),
            attachments: Vec::new(),
            capacity,
            end_index: 0,
            is_dirty: false,
            is_compact: true,
        }
    }

    /// Bump-allocates the next node slot for the given record, handing
    /// back its index, with the node's payload slots zeroed.  Exactly
    /// when the cursor has reached the capacity, the allocation fails
    /// and the block is left unchanged.  Any success dirties the block.
    pub fn allocate(&mut self, node: Node) -> (r: Option<u16>)
        requires
            old(self).wf(),
        ensures
            final(self).wf(),
            (r is Some) <==> old(self).spec_end_index() < old(self).spec_capacity(),
            r matches Some(index) ==> index == old(self).spec_end_index()
                && final(self).spec_end_index() == old(self).spec_end_index() + 1
                && final(self).spec_nodes() == old(self).spec_nodes().push(node)
                && final(self).spec_attachments() == old(self).spec_attachments() + Seq::new(
                old(self).spec_attachment_count() as nat,
                |i: int| 0u32,
            ) && final(self).spec_is_dirty(),
            r is None ==> *final(self) == *old(self),
            final(self).spec_parent_node() == old(self).spec_parent_node(),
            final(self).spec_attachment_count() == old(self).spec_attachment_count(),
            final(self).spec_capacity() == old(self).spec_capacity(),
            final(self).spec_is_compact() == old(self).spec_is_compact(),
    {
        if self.end_index >= self.capacity {
            return None;
        }
        let index = self.end_index;
        self.nodes.push(node);
        let mut added: u8 = 0;
        while added < self.attachment_count
            invariant
                added <= self.attachment_count,
                self.attachments@.len() == old(self).spec_attachments().len() + added,
                self.attachments@ == old(self).spec_attachments() + Seq::new(
                    added as nat,
                    |i: int| 0u32,
                ),
                self.attachment_count == old(self).spec_attachment_count(),
                self.nodes@ == old(self).spec_nodes().push(node),
                self.parent_node == old(self).spec_parent_node(),
                self.capacity == old(self).spec_capacity(),
                self.end_index == old(self).spec_end_index(),
                self.is_compact == old(self).spec_is_compact(),
            decreases self.attachment_count - added,
        {
            self.attachments.push(0);
            proof {
                assert(self.attachments@ =~= old(self).spec_attachments() + Seq::new(
                    (added + 1) as nat,
                    |i: int| 0u32,
                ));
            }
            added = added + 1;
        }
        self.end_index = self.end_index + 1;
        self.is_dirty = true;
        proof {
            let c = old(self).spec_attachment_count() as int;
            let e = old(self).spec_end_index() as int;
            assert((e + 1) * c == e * c + c) by (nonlinear_arith);
        }
        Some(index)
    }

    /// The allocated node record at the given index.
    pub fn node_at(&self, index: u16) -> (r: Node)
        requires
            self.wf(),
            index < self.spec_end_index(),
        ensures
            r == self.spec_nodes()[index as int],
    {
        self.nodes[index as usize]
    }

    /// Overwrites the allocated node record at the given index, dirtying
    /// the block.  Nothing else changes.
    pub fn set_node(&mut self, index: u16, node: Node)
        requires
            old(self).wf(),
            index < old(self).spec_end_index(),
        ensures
            final(self).wf(),
            final(self).spec_nodes() == old(self).spec_nodes().update(index as int, node),
            final(self).spec_attachments() == old(self).spec_attachments(),
            final(self).spec_parent_node() == old(self).spec_parent_node(),
            final(self).spec_attachment_count() == old(self).spec_attachment_count(),
            final(self).spec_capacity() == old(self).spec_capacity(),
            final(self).spec_end_index() == old(self).spec_end_index(),
            final(self).spec_is_dirty(),
            final(self).spec_is_compact() == old(self).spec_is_compact(),
    {
        self.nodes.set(index as usize, node);
        self.is_dirty = true;
    }

    /// The payload in slot `slot` of the node at `node_index`.  Slots
    /// correspond in order to the tree schema's attachment kinds.
    pub fn get_attachment(&self, node_index: u16, slot: u8) -> (r: u32)
        requires
            self.wf(),
            node_index < self.spec_end_index(),
            slot < self.spec_attachment_count(),
        ensures
            r == self.spec_attachments()[self.spec_slot(node_index as int, slot as int)],
    {
        proof {
            self.lemma_slot_in_bounds(node_index as int, slot as int);
        }
        self.attachments[(node_index as usize) * (self.attachment_count as usize) + (
        slot as usize)]
    }

    /// Writes the payload in slot `slot` of the node at `node_index`,
    /// dirtying the block.  Every other slot keeps its payload.
    pub fn set_attachment(&mut self, node_index: u16, slot: u8, value: u32)
        requires
            old(self).wf(),
            node_index < old(self).spec_end_index(),
            slot < old(self).spec_attachment_count(),
        ensures
            final(self).wf(),
            final(self).spec_attachments() == old(self).spec_attachments().update(
                old(self).spec_slot(node_index as int, slot as int),
                value,
            ),
            final(self).spec_nodes() == old(self).spec_nodes(),
            final(self).spec_parent_node() == old(self).spec_parent_node(),
            final(self).spec_attachment_count() == old(self).spec_attachment_count(),
            final(self).spec_capacity() == old(self).spec_capacity(),
            final(self).spec_end_index() == old(self).spec_end_index(),
            final(self).spec_is_dirty(),
            final(self).spec_is_compact() == old(self).spec_is_compact(),
    {
        proof {
            self.lemma_slot_in_bounds(node_index as int, slot as int);
        }
        let position = (node_index as usize) * (self.attachment_count as usize) + (
        slot as usize);
        self.attachments.set(position, value);
        self.is_dirty = true;
    }

    /// A node's slot positions lie inside the payload region.
    proof fn lemma_slot_in_bounds(self, node_index: int, slot: int)
        requires
            self.wf(),
            0 <= node_index < self.spec_end_index(),
            0 <= slot < self.spec_attachment_count(),
        ensures
            0 <= self.spec_slot(node_index, slot) < self.spec_attachments().len(),
            self.spec_slot(node_index, slot) < 0x1000000,
    {
        let c = self.spec_attachment_count() as int;
        assert(node_index * c + slot < self.spec_end_index() * c) by (nonlinear_arith)
            requires
                0 <= node_index < self.spec_end_index() as int,
                0 <= slot < c,
        ;
        assert(0 <= node_index * c) by (nonlinear_arith)
            requires
                0 <= node_index,
                0 <= c,
        ;
        assert(node_index * c + slot < 0x1000000) by (nonlinear_arith)
            requires
                0 <= node_index < 0x10000,
                0 <= c < 0x100,
                0 <= slot < 0x100,
        ;
    }

    /// Marks the block persisted.  To be called only once the block's
    /// current contents have durably reached storage.
    pub fn mark_clean(&mut self)
        ensures
            !final(self).spec_is_dirty(),
            final(self).spec_nodes() == old(self).spec_nodes(),
            final(self).spec_attachments() == old(self).spec_attachments(),
            final(self).spec_parent_node() == old(self).spec_parent_node(),
            final(self).spec_attachment_count() == old(self).spec_attachment_count(),
            final(self).spec_capacity() == old(self).spec_capacity(),
            final(self).spec_end_index() == old(self).spec_end_index(),
            final(self).spec_is_compact() == old(self).spec_is_compact(),
            old(self).wf() ==> final(self).wf(),
    {
        self.is_dirty = false;
    }

    /// The node whose children this block holds.
    pub fn parent_node(&self) -> (r: Node)
        ensures
            r == self.spec_parent_node(),
    {
        self.parent_node
    }

    /// How many payload slots each node owns.
    pub fn attachment_count(&self) -> (r: u8)
        ensures
            r == self.spec_attachment_count(),
    {
        self.attachment_count
    }

    /// The bound on how many child nodes the block can hold.
    pub fn capacity(&self) -> (r: u16)
        ensures
            r == self.spec_capacity(),
    {
        self.capacity
    }

    /// The write cursor: how many child nodes are allocated.
    pub fn end_index(&self) -> (r: u16)
        ensures
            r == self.spec_end_index(),
    {
        self.end_index
    }

    /// Whether the block has been mutated since it was last persisted.
    pub fn is_dirty(&self) -> (r: bool)
        ensures
            r == self.spec_is_dirty(),
    {
        self.is_dirty
    }

    /// Whether no slots have been vacated.
    pub fn is_compact(&self) -> (r: bool)
        ensures
            r == self.spec_is_compact(),
    {
        self.is_compact
    }
}

} // verus!
