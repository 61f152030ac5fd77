//! The persistent tree-level metadata: the attachment schema, the root
//! node's masks, free-form metadata, and the build and compression flags.

use vstd::prelude::*;
use crate::attachment::{AttachmentKind, Schema};
use crate::bitmask::Bitmask;
use crate::error::Error;
use crate::node::Node;

verus! {

/// The plain persisted fields of a header, exactly as they appear in the
/// canonical serialized object: the schema as a list of type names, the
/// root node as its two raw mask bytes, and the optional fields with
/// their defaults.
#[derive(Debug)]
pub struct HeaderData {
    /// The ordered attachment type names.
    pub schema: Vec<String>,
    /// The root node's octant mask and branch mask bytes, in that order.
    pub root_node: (u8, u8),
    /// Whether block payloads use an out-of-scope compression scheme.
    pub compressed: bool,
    /// Whether the tree is under incremental construction.
    pub building: bool,
    /// Free-form key/value metadata.
    pub metadata: Vec<(String, String)>,
}

/// Whether a type name is one the closed kind table recognizes.
pub open spec fn known_name(n: Seq<char>) -> bool {
    AttachmentKind::spec_of_name(n) is Some
}

/// The first position at or after `start` holding an unrecognized type
/// name, or `names.len()` when every name from `start` on is known.
pub open spec fn first_unknown_name(names: Seq<String>, start: int) -> int
    decreases names.len() - start,
{
    if start < 0 || start >= names.len() {
        names.len() as int
    } else if !known_name(names[start]@) {
        start
    } else {
        first_unknown_name(names, start + 1)
    }
}

/// The kinds a list of known type names denotes, in order.
pub open spec fn kinds_of_names(names: Seq<String>) -> Seq<AttachmentKind> {
    names.map_values(|n: String| AttachmentKind::spec_kind_of_name(n@))
}

/// The persistent root metadata of one tree.  A header owns its schema
/// and its root node; every block of the tree lays its payload slots out
/// in the schema's order.
#[derive(Debug)]
pub struct Header {
    schema: Schema,
    root_node: Node,
    metadata: Vec<(String, String)>,
    building: bool,
    compressed: bool,
}

impl Header {
    /// The ordered attachment kinds of the tree.
    pub closed spec fn spec_schema(self) -> Seq<AttachmentKind> {
        self.schema@
    }

    /// The root node.
    pub closed spec fn spec_root_node(self) -> Node {
        self.root_node
    }

    /// The free-form metadata pairs.
    pub closed spec fn spec_metadata(self) -> Seq<(String, String)> {
        self.metadata@
    }

    /// Whether the tree is under incremental construction.
    pub closed spec fn spec_building(self) -> bool {
        self.building
    }

    /// Whether block payloads are compressed.
    pub closed spec fn spec_compressed(self) -> bool {
        self.compressed
    }

    /// Reconstructs a header from its persisted fields.  The schema is
    /// rebuilt from its list of names through the closed kind table; the
    /// whole reconstruction fails, returning no partial header, as soon
    /// as one name is unrecognized, with `InvalidAttachmentName` carrying
    /// the first such name.  The root node is rebuilt from the two raw
    /// mask bytes, its pointer far by definition.
    pub fn from_data(data: HeaderData) -> (r: Result<Header, Error>)
        ensures
            (r is Ok) <==> first_unknown_name(data.schema@, 0) == data.schema@.len(),
            r matches Ok(h) ==> h.spec_schema() == kinds_of_names(data.schema@)
                && h.spec_root_node().spec_octant_mask().spec_value() == data.root_node.0
                && h.spec_root_node().spec_branch_mask().spec_value() == data.root_node.1
                && h.spec_root_node().spec_pointer().spec_is_far()
                && h.spec_metadata() == data.metadata@
                && h.spec_building() == data.building
                && h.spec_compressed() == data.compressed,
            r matches Err(e) ==> (e matches Error::InvalidAttachmentName { name }
                && name@ == data.schema@[first_unknown_name(data.schema@, 0)]@),
    {
        let mut kinds: Vec<AttachmentKind> = Vec::new();
        let mut i: usize = 0;
        let n = data.schema.len();
        proof {
            lemma_first_unknown_name_bounds(data.schema@, 0);
        }
        while i < n
            invariant
                i <= n,
                n == data.schema@.len(),
                first_unknown_name(data.schema@, 0) >= i,
                kinds@ == kinds_of_names(data.schema@.subrange(0, i as int)),
            decreases n - i,
        {
            match AttachmentKind::from_name(data.schema[i].as_str()) {
                Ok(k) => {
                    proof {
                        lemma_first_unknown_name_bounds(data.schema@, 0);
                        assert(known_name(data.schema@[i as int]@));
                        assert(first_unknown_name(data.schema@, 0) != i);
                        assert(k == AttachmentKind::spec_kind_of_name(data.schema@[i as int]@));
                        assert(kinds@.push(k) =~= kinds_of_names(
                            data.schema@.subrange(0, i + 1),
                        ));
                    }
                    kinds.push(k);
                },
                Err(e) => {
                    proof {
                        lemma_first_unknown_name_bounds(data.schema@, 0);
                        assert(!known_name(data.schema@[i as int]@));
                        assert(first_unknown_name(data.schema@, 0) == i);
                    }
                    return Err(e);
                },
            }
            i = i + 1;
        }
        proof {
            lemma_first_unknown_name_bounds(data.schema@, 0);
            assert(first_unknown_name(data.schema@, 0) == n);
            assert(data.schema@.subrange(0, n as int) =~= data.schema@);
        }
        Ok(
            Header {
                schema: kinds,
                root_node: Node::root(
                    Bitmask::new(data.root_node.0),
                    Bitmask::new(data.root_node.1),
                ),
                metadata: data.metadata,
                building: data.building,
                compressed: data.compressed,
            },
        )
    }

    /// Serializes the header back to its persisted fields: each kind's
    /// name in original order, the root node's two mask bytes, and the
    /// flags and metadata unchanged.  The exact inverse of `from_data`.
    pub fn to_data(&self) -> (r: HeaderData)
        ensures
            r.schema@.len() == self.spec_schema().len(),
            forall|i: int|
                0 <= i < self.spec_schema().len() ==> (#[trigger] r.schema@[i])@
                    == self.spec_schema()[i].spec_kind_name(),
            r.root_node.0 == self.spec_root_node().spec_octant_mask().spec_value(),
            r.root_node.1 == self.spec_root_node().spec_branch_mask().spec_value(),
            r.metadata@ == self.spec_metadata(),
            r.building == self.spec_building(),
            r.compressed == self.spec_compressed(),
    {
        let mut names: Vec<String> = Vec::new();
        let mut i: usize = 0;
        while i < self.schema.len()
            invariant
                i <= self.schema@.len(),
                names@.len() == i,
                forall|k: int|
                    0 <= k < i ==> (#[trigger] names@[k])@ == self.schema@[k].spec_kind_name(),
            decreases self.schema.len() - i,
        {
            names.push(self.schema[i].name());
            i = i + 1;
        }
        let mut metadata: Vec<(String, String)> = Vec::new();
        let mut j: usize = 0;
        while j < self.metadata.len()
            invariant
                j <= self.metadata@.len(),
                metadata@ == self.metadata@.subrange(0, j as int),
            decreases self.metadata.len() - j,
        {
            let key = self.metadata[j].0.clone();
            let value = self.metadata[j].1.clone();
            metadata.push((key, value));
            proof {
                assert(metadata@ =~= self.metadata@.subrange(0, j + 1));
            }
            j = j + 1;
        }
        proof {
            assert(self.metadata@.subrange(0, self.metadata@.len() as int) =~= self.metadata@);
        }
        HeaderData {
            schema: names,
            root_node: (self.root_node.octant_mask().value(), self.root_node.branch_mask().value()),
            compressed: self.compressed,
            building: self.building,
            metadata,
        }
    }

    /// The ordered attachment kinds of the tree.
    pub fn schema(&self) -> (r: &Vec<AttachmentKind>)
        ensures
            r@ == self.spec_schema(),
    {
        &self.schema
    }

    /// The root node, from which every descent starts.
    pub fn root_node(&self) -> (r: Node)
        ensures
            r == self.spec_root_node(),
    {
        self.root_node
    }

    /// The free-form metadata pairs.
    pub fn metadata(&self) -> (r: &Vec<(String, String)>)
        ensures
            r@ == self.spec_metadata(),
    {
        &self.metadata
    }

    /// Whether the tree is under incremental construction, so that
    /// queries may observe partial subtrees.
    pub fn building(&self) -> (r: bool)
        ensures
            r == self.spec_building(),
    {
        self.building
    }

    /// Whether block payloads use a compression scheme outside this
    /// core's scope.
    pub fn compressed(&self) -> (r: bool)
        ensures
            r == self.spec_compressed(),
    {
        self.compressed
    }
}

/// The scan for an unknown name never stops before `start`, nor past the
/// end, and every name before the stop is known.
proof fn lemma_first_unknown_name_bounds(names: Seq<String>, start: int)
    requires
        0 <= start <= names.len(),
    ensures
        start <= first_unknown_name(names, start) <= names.len(),
        first_unknown_name(names, start) < names.len() ==> !known_name(
            names[first_unknown_name(names, start)]@,
        ),
        forall|k: int|
            start <= k < first_unknown_name(names, start) ==> known_name(
                (#[trigger] names[k])@,
            ),
    decreases names.len() - start,
{
    if start < names.len() && known_name(names[start]@) {
        lemma_first_unknown_name_bounds(names, start + 1);
    }
}

/// A schema's persisted names reconstruct the schema exactly: rendering
/// each kind's name and resolving the names back through the kind table
/// is the identity, so a serialized header deserializes to its original
/// schema.
pub proof fn lemma_schema_round_trip(kinds: Seq<AttachmentKind>)
    ensures
        kinds.map_values(|k: AttachmentKind| k.spec_kind_name()).map_values(
            |n: Seq<char>| AttachmentKind::spec_kind_of_name(n),
        ) == kinds,
        forall|i: int|
            0 <= i < kinds.len() ==> known_name((#[trigger] kinds[i]).spec_kind_name()),
{
    let names = kinds.map_values(|k: AttachmentKind| k.spec_kind_name());
    assert forall|i: int| 0 <= i < kinds.len() implies known_name(
        (#[trigger] kinds[i]).spec_kind_name(),
    ) by {
        kinds[i].lemma_name_round_trip();
    }
    let back = names.map_values(|n: Seq<char>| AttachmentKind::spec_kind_of_name(n));
    assert forall|i: int| 0 <= i < kinds.len() implies back[i] == kinds[i] by {
        kinds[i].lemma_name_round_trip();
    }
    assert(back =~= kinds);
}

} // verus!
