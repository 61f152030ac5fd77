//! The attachment system: fixed 4-byte per-node payloads, the shapes they
//! can be read and written through, and the per-kind averaging rules used
//! to synthesize level-of-detail values.

use vstd::prelude::*;
use vstd::string::*;
use std::marker::PhantomData;
use crate::error::Error;

verus! {

/// The packed 32-bit form of four payload bytes, the byte at the lowest
/// address in the low bits.
pub open spec fn u32_from_bytes(b0: u8, b1: u8, b2: u8, b3: u8) -> u32 {
    (b0 as u32) | ((b1 as u32) << 8) | ((b2 as u32) << 16) | ((b3 as u32) << 24)
}

/// Byte `c` of a packed payload, for `c` in 0-3.
pub open spec fn channel_byte(v: u32, c: int) -> u8 {
    if c == 0 {
        (v & 0xff) as u8
    } else if c == 1 {
        ((v >> 8) & 0xff) as u8
    } else if c == 2 {
        ((v >> 16) & 0xff) as u8
    } else {
        ((v >> 24) & 0xff) as u8
    }
}

/// Packing bytes and taking a channel gives the byte back.
pub proof fn lemma_channel_bytes(b0: u8, b1: u8, b2: u8, b3: u8)
    ensures
        channel_byte(u32_from_bytes(b0, b1, b2, b3), 0) == b0,
        channel_byte(u32_from_bytes(b0, b1, b2, b3), 1) == b1,
        channel_byte(u32_from_bytes(b0, b1, b2, b3), 2) == b2,
        channel_byte(u32_from_bytes(b0, b1, b2, b3), 3) == b3,
{
    assert(channel_byte(u32_from_bytes(b0, b1, b2, b3), 0) == b0) by (bit_vector);
    assert(channel_byte(u32_from_bytes(b0, b1, b2, b3), 1) == b1) by (bit_vector);
    assert(channel_byte(u32_from_bytes(b0, b1, b2, b3), 2) == b2) by (bit_vector);
    assert(channel_byte(u32_from_bytes(b0, b1, b2, b3), 3) == b3) by (bit_vector);
}

/// A value shape that can be written into an attachment payload.  The
/// conversion is an exact bit-reinterpretation, never a numeric one: the
/// payload carries the value's own bits.
pub trait IntoAttachmentData: Sized {
    /// The packed 32-bit payload this value denotes.
    spec fn spec_bits(self) -> u32;

    /// Packs the value into the payload form, bit for bit.
    fn into_attachment_data(self) -> (r: u32)
        ensures
            r == self.spec_bits(),
    ;
}

/// A value shape that can be read back out of an attachment payload.
/// Reading is the exact inverse of writing: the value read re-packs to
/// the very bits it was read from, so writing through one shape and
/// reading through another preserves the underlying bits unchanged.
pub trait FromAttachmentData: IntoAttachmentData {
    /// Unpacks a payload into this shape, bit for bit.
    fn from_attachment_data(data: u32) -> (r: Self)
        ensures
            r.spec_bits() == data,
    ;
}

impl IntoAttachmentData for u32 {
    open spec fn spec_bits(self) -> u32 {
        self
    }

    fn into_attachment_data(self) -> u32 {
        self
    }
}

impl FromAttachmentData for u32 {
    fn from_attachment_data(data: u32) -> u32 {
        data
    }
}

impl IntoAttachmentData for [u8; 4] {
    open spec fn spec_bits(self) -> u32 {
        u32_from_bytes(self@[0], self@[1], self@[2], self@[3])
    }

    fn into_attachment_data(self) -> u32 {
        (self[0] as u32) | ((self[1] as u32) << 8) | ((self[2] as u32) << 16) | ((self[3]
            as u32) << 24)
    }
}

impl FromAttachmentData for [u8; 4] {
    fn from_attachment_data(data: u32) -> (r: [u8; 4])
        ensures
            r.spec_bits() == data,
    {
        let b0 = (data & 0xff) as u8;
        let b1 = ((data >> 8) & 0xff) as u8;
        let b2 = ((data >> 16) & 0xff) as u8;
        let b3 = ((data >> 24) & 0xff) as u8;
        let r = [b0, b1, b2, b3];
        proof {
            assert(u32_from_bytes(
                (data & 0xff) as u8,
                ((data >> 8) & 0xff) as u8,
                ((data >> 16) & 0xff) as u8,
                ((data >> 24) & 0xff) as u8,
            ) == data) by (bit_vector);
        }
        r
    }
}

impl IntoAttachmentData for [u16; 2] {
    open spec fn spec_bits(self) -> u32 {
        (self@[0] as u32) | ((self@[1] as u32) << 16)
    }

    fn into_attachment_data(self) -> u32 {
        (self[0] as u32) | ((self[1] as u32) << 16)
    }
}

impl FromAttachmentData for [u16; 2] {
    fn from_attachment_data(data: u32) -> (r: [u16; 2])
        ensures
            r.spec_bits() == data,
    {
        let w0 = (data & 0xffff) as u16;
        let w1 = ((data >> 16) & 0xffff) as u16;
        let r = [w0, w1];
        proof {
            assert(((data & 0xffff) as u16 as u32) | (((data >> 16) & 0xffff) as u16 as u32)
                << 16 == data) by (bit_vector);
        }
        r
    }
}

/// One attachment value of kind `T` stored at a node: a raw 4-byte
/// payload bound to a type tag that carries no storage of its own.  The
/// payload's meaning is entirely determined by `T`; the container itself
/// is opaque.
#[verifier::reject_recursive_types(T)]
#[derive(Debug)]
pub struct Attachment<T> {
    data: u32,
    ty: PhantomData<T>,
}

impl<T> View for Attachment<T> {
    type V = u32;

    closed spec fn view(&self) -> u32 {
        self.data
    }
}

impl<T> Attachment<T> {
    /// Wraps a value of any writable shape as an attachment of kind `T`,
    /// preserving its bits exactly.
    pub fn new<U: IntoAttachmentData>(data: U) -> (r: Attachment<T>)
        ensures
            r@ == data.spec_bits(),
    {
        Attachment { ty: PhantomData, data: data.into_attachment_data() }
    }

    /// Reads the payload back through any readable shape.  Whatever the
    /// shape, the value read re-packs to the stored bits unchanged.
    pub fn get<U: FromAttachmentData>(&self) -> (r: U)
        ensures
            r.spec_bits() == self@,
    {
        U::from_attachment_data(self.data)
    }

    /// Overwrites the payload through any writable shape.
    pub fn set<U: IntoAttachmentData>(&mut self, data: U)
        ensures
            final(self)@ == data.spec_bits(),
    {
        self.data = data.into_attachment_data();
    }

    /// The raw packed payload.
    pub fn bits(&self) -> (r: u32)
        ensures
            r == self@,
    {
        self.data
    }
}

/// A capability describing one attachment kind: a stable persisted name,
/// and the averaging rule that folds the values of a node's children into
/// one coarser, level-of-detail value for the parent.
pub trait Type: Sized {
    /// The stable name persisted in a schema.
    spec fn spec_name() -> Seq<char>;

    /// The payload that averaging a sequence of payloads yields.
    spec fn spec_average(values: Seq<u32>) -> u32;

    /// The kind's stable name.
    fn name(&self) -> (r: String)
        ensures
            r@ == Self::spec_name(),
    ;

    /// Folds the given same-kind attachments into one representative
    /// value, by this kind's averaging rule.
    fn averager(attachments: &Vec<Attachment<Self>>) -> (r: Attachment<Self>)
        ensures
            r@ == Self::spec_average(
                attachments@.map_values(|a: Attachment<Self>| a@),
            ),
    ;
}

/// The sum of one channel's bytes across a sequence of payloads.
pub open spec fn channel_sum(values: Seq<u32>, c: int) -> int
    decreases values.len(),
{
    if values.len() == 0 {
        0
    } else {
        channel_sum(values.drop_last(), c) + channel_byte(values.last(), c)
    }
}

/// The RGBA averaging rule: each of the four channels independently is
/// the integer mean of the inputs' bytes for that channel, the division
/// truncating toward zero.  Averaging no inputs yields the zero payload.
pub open spec fn rgba_average(values: Seq<u32>) -> u32 {
    if values.len() == 0 {
        0
    } else {
        let n = values.len() as int;
        u32_from_bytes(
            (channel_sum(values, 0) / n) as u8,
            (channel_sum(values, 1) / n) as u8,
            (channel_sum(values, 2) / n) as u8,
            (channel_sum(values, 3) / n) as u8,
        )
    }
}

/// The color attachment kind: four channel bytes packed into the payload,
/// reduced across a level of detail by per-channel integer mean.
#[derive(Debug, Clone, Copy, PartialEq, Eq, Structural)]
pub struct RGBA;

/// The surface-normal attachment kind.  Its averaging rule is a declared
/// placeholder: it yields the zero payload whatever its inputs, until a
/// principled vector reduction is settled on.
#[derive(Debug, Clone, Copy, PartialEq, Eq, Structural)]
pub struct Normal;

impl Type for RGBA {
    open spec fn spec_name() -> Seq<char> {
        "RGBA"@
    }

    open spec fn spec_average(values: Seq<u32>) -> u32 {
        rgba_average(values)
    }

    fn name(&self) -> String {
        String::from_str("RGBA")
    }

    fn averager(attachments: &Vec<Attachment<RGBA>>) -> (r: Attachment<RGBA>) {
        let ghost vals = attachments@.map_values(|a: Attachment<RGBA>| a@);
        let n = attachments.len();
        if n == 0 {
            return Attachment::new(0u32);
        }
        let mut s0: u128 = 0;
        let mut s1: u128 = 0;
        let mut s2: u128 = 0;
        let mut s3: u128 = 0;
        let mut i: usize = 0;
        while i < n
            invariant
                i <= n,
                n == attachments@.len(),
                vals == attachments@.map_values(|a: Attachment<RGBA>| a@),
                s0 == channel_sum(vals.subrange(0, i as int), 0),
                s1 == channel_sum(vals.subrange(0, i as int), 1),
                s2 == channel_sum(vals.subrange(0, i as int), 2),
                s3 == channel_sum(vals.subrange(0, i as int), 3),
                s0 <= 255 * i,
                s1 <= 255 * i,
                s2 <= 255 * i,
                s3 <= 255 * i,
            decreases n - i,
        {
            let bytes: [u8; 4] = attachments[i].get::<[u8; 4]>();
            proof {
                lemma_channel_bytes(bytes@[0], bytes@[1], bytes@[2], bytes@[3]);
                assert(vals[i as int] == attachments@[i as int]@);
                assert(bytes.spec_bits() == vals[i as int]);
                let pre = vals.subrange(0, i as int);
                let post = vals.subrange(0, i + 1);
                assert(post.drop_last() =~= pre);
                assert(post.last() == vals[i as int]);
            }
            s0 = s0 + (bytes[0] as u128);
            s1 = s1 + (bytes[1] as u128);
            s2 = s2 + (bytes[2] as u128);
            s3 = s3 + (bytes[3] as u128);
            i = i + 1;
        }
        proof {
            assert(vals.subrange(0, n as int) =~= vals);
        }
        let count = n as u128;
        proof {
            lemma_mean_byte(s0, count);
            lemma_mean_byte(s1, count);
            lemma_mean_byte(s2, count);
            lemma_mean_byte(s3, count);
        }
        let a0 = (s0 / count) as u8;
        let a1 = (s1 / count) as u8;
        let a2 = (s2 / count) as u8;
        let a3 = (s3 / count) as u8;
        let r = Attachment::new([a0, a1, a2, a3]);
        proof {
            assert(r@ == rgba_average(vals));
        }
        r
    }
}

/// The mean of at most 255-per-item sums fits in a byte.
proof fn lemma_mean_byte(s: u128, count: u128)
    requires
        count >= 1,
        s <= 255 * count,
    ensures
        s / count <= 255,
{
    assert(s / count <= 255) by (nonlinear_arith)
        requires
            count >= 1,
            s <= 255 * count,
    ;
}

impl Type for Normal {
    open spec fn spec_name() -> Seq<char> {
        "Normal"@
    }

    open spec fn spec_average(values: Seq<u32>) -> u32 {
        0
    }

    fn name(&self) -> String {
        String::from_str("Normal")
    }

    fn averager(attachments: &Vec<Attachment<Normal>>) -> (r: Attachment<Normal>) {
        Attachment::new(0u32)
    }
}

/// Anything that holds same-kind attachments and can fold them into one
/// representative value by the kind's averaging rule.
pub trait Averageable<T: Type>: Sized {
    /// The payloads held, in order.
    spec fn spec_values(self) -> Seq<u32>;

    /// Folds the held attachments into one value of the same kind.
    fn average(self) -> (r: Attachment<T>)
        ensures
            r@ == T::spec_average(self.spec_values()),
    ;
}

impl<T: Type> Averageable<T> for Vec<Attachment<T>> {
    open spec fn spec_values(self) -> Seq<u32> {
        self@.map_values(|a: Attachment<T>| a@)
    }

    fn average(self) -> (r: Attachment<T>) {
        T::averager(&self)
    }
}

/// The closed set of attachment kinds known to this store, addressable by
/// their stable names.
#[derive(Debug, Clone, Copy, PartialEq, Eq, Structural)]
pub enum AttachmentKind {
    Rgba,
    Normal,
}

/// The ordered list of attachment kinds declared for a whole tree.  The
/// `n`th payload slot of every node corresponds to the `n`th kind here.
pub type Schema = Vec<AttachmentKind>;

impl AttachmentKind {
    /// The stable name of the kind, as persisted in a schema.
    pub open spec fn spec_kind_name(self) -> Seq<char> {
        match self {
            AttachmentKind::Rgba => "RGBA"@,
            AttachmentKind::Normal => "Normal"@,
        }
    }

    /// The kind a name denotes, if any: names and kinds are bijective.
    pub open spec fn spec_of_name(name: Seq<char>) -> Option<AttachmentKind> {
        if name == "RGBA"@ {
            Some(AttachmentKind::Rgba)
        } else if name == "Normal"@ {
            Some(AttachmentKind::Normal)
        } else {
            None
        }
    }

    /// The kind's stable name.
    pub fn name(self) -> (r: String)
        ensures
            r@ == self.spec_kind_name(),
    {
        match self {
            AttachmentKind::Rgba => String::from_str("RGBA"),
            AttachmentKind::Normal => String::from_str("Normal"),
        }
    }

    /// Resolves a type name through the closed lookup table.  Exactly the
    /// unknown names fail, with `InvalidAttachmentName` carrying the name.
    pub fn from_name(name: &str) -> (r: Result<AttachmentKind, Error>)
        ensures
            AttachmentKind::spec_of_name(name@) matches Some(k) ==> r == Ok::<
                AttachmentKind,
                Error,
            >(k),
            AttachmentKind::spec_of_name(name@) is None ==> (r matches Err(e) && (e matches
                Error::InvalidAttachmentName { name: n } && n@ == name@)),
    {
        let owned = name.to_owned();
        if owned == String::from_str("RGBA") {
            Ok(AttachmentKind::Rgba)
        } else if owned == String::from_str("Normal") {
            Ok(AttachmentKind::Normal)
        } else {
            Err(Error::InvalidAttachmentName { name: owned })
        }
    }

    /// A kind's persisted name agrees with its capability's name: the
    /// schema table and the `Type` impls speak of the same identifiers.
    pub proof fn lemma_kind_names_agree()
        ensures
            AttachmentKind::Rgba.spec_kind_name() == <RGBA as Type>::spec_name(),
            AttachmentKind::Normal.spec_kind_name() == <Normal as Type>::spec_name(),
    {
    }

    /// The kind a known name denotes; meaningful only on known names.
    pub open spec fn spec_kind_of_name(name: Seq<char>) -> AttachmentKind {
        if name == "RGBA"@ {
            AttachmentKind::Rgba
        } else {
            AttachmentKind::Normal
        }
    }

    /// Each kind's name resolves back to that kind: the lookup table
    /// inverts naming, so a schema's names reconstruct its kinds exactly.
    pub proof fn lemma_name_round_trip(self)
        ensures
            AttachmentKind::spec_of_name(self.spec_kind_name()) == Some(self),
            AttachmentKind::spec_kind_of_name(self.spec_kind_name()) == self,
    {
        reveal_strlit("RGBA");
        reveal_strlit("Normal");
        assert("RGBA"@.len() == 4);
        assert("Normal"@.len() == 6);
    }
}

} // verus!
