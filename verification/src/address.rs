//! The root-to-node path through the octree, with its canonical text and
//! bit-packed binary encodings.

use vstd::prelude::*;
use vstd::string::*;
use crate::error::Error;
use crate::octant::Octant;

verus! {

/// An ordered root-first sequence of octants naming one node of the tree.
/// The empty sequence denotes the root node.  The order is significant and
/// round-trips exactly through both the text and the binary encoding.
#[derive(Debug, Clone, PartialEq, Eq, Hash)]
pub struct Address {
    octants: Vec<Octant>,
}

impl View for Address {
    type V = Seq<Octant>;

    closed spec fn view(&self) -> Seq<Octant> {
        self.octants@
    }
}

/// Whether `c` is a decimal digit denoting an octant, `'0'` through `'7'`.
pub open spec fn is_octant_digit(c: char) -> bool {
    48 <= c as u32 && c as u32 <= 55
}

/// Whether `c` is any decimal digit, `'0'` through `'9'`.
pub open spec fn is_decimal_digit(c: char) -> bool {
    48 <= c as u32 && c as u32 <= 57
}

/// The numeric value of a decimal digit character.
pub open spec fn digit_value(c: char) -> u8 {
    (c as u32 - 48) as u8
}

/// The digit character for an octant index 0-7.
pub open spec fn octant_digit(o: Octant) -> char {
    match o {
        Octant::First => '0',
        Octant::Second => '1',
        Octant::Third => '2',
        Octant::Fourth => '3',
        Octant::Fifth => '4',
        Octant::Sixth => '5',
        Octant::Seventh => '6',
        Octant::Eighth => '7',
    }
}

/// The canonical text of a path: the sentinel `'@'` followed by one
/// decimal digit per octant, in path order.
pub open spec fn spec_to_text(s: Seq<Octant>) -> Seq<char> {
    seq!['@'] + s.map_values(|o: Octant| octant_digit(o))
}

/// The first index at or after `start` whose character is no octant
/// digit, or `t.len()` if every character from `start` on is one.
pub open spec fn first_non_octant_digit(t: Seq<char>, start: int) -> int
    decreases t.len() - start,
{
    if start < 0 || start >= t.len() {
        t.len() as int
    } else if !is_octant_digit(t[start]) {
        start
    } else {
        first_non_octant_digit(t, start + 1)
    }
}

/// The octants denoted by the digits of a well-formed address text.
pub open spec fn text_octants(t: Seq<char>) -> Seq<Octant> {
    t.subrange(1, t.len() as int).map_values(|c: char| Octant::spec_from_index(digit_value(c)))
}

/// What parsing an address text yields when it succeeds: `Some` octant
/// sequence exactly when the text is the sentinel `'@'` followed by octant
/// digits only, `None` on every malformed input.
pub open spec fn spec_parse(t: Seq<char>) -> Option<Seq<Octant>> {
    if t.len() == 0 {
        None
    } else if t[0] != '@' {
        None
    } else if first_non_octant_digit(t, 1) == t.len() {
        Some(text_octants(t))
    } else {
        None
    }
}

/// Scanning from `start` never stops before `start`, nor after the end.
proof fn lemma_first_non_octant_digit_bounds(t: Seq<char>, start: int)
    requires
        0 <= start <= t.len(),
    ensures
        start <= first_non_octant_digit(t, start) <= t.len(),
        first_non_octant_digit(t, start) < t.len() ==> !is_octant_digit(
            t[first_non_octant_digit(t, start)],
        ),
        forall|k: int|
            start <= k < first_non_octant_digit(t, start) ==> is_octant_digit(#[trigger] t[k]),
    decreases t.len() - start,
{
    if start < t.len() && is_octant_digit(t[start]) {
        lemma_first_non_octant_digit_bounds(t, start + 1);
    }
}

impl Address {
    /// The empty address: the path of the root node itself.
    pub fn new() -> (r: Address)
        ensures
            r@ == Seq::<Octant>::empty(),
    {
        Address { octants: Vec::new() }
    }

    /// The address whose path is the given octant sequence.
    pub fn from_octants(octants: Vec<Octant>) -> (r: Address)
        ensures
            r@ == octants@,
    {
        Address { octants }
    }

    /// The number of octants on the path.
    pub fn len(&self) -> (r: usize)
        ensures
            r == self@.len(),
    {
        self.octants.len()
    }

    /// The octant at position `i` of the path.
    pub fn octant_at(&self, i: usize) -> (r: Octant)
        requires
            i < self@.len(),
        ensures
            r == self@[i as int],
    {
        self.octants[i]
    }

    /// Parses the canonical text of an address.  The text must begin with
    /// the sentinel `'@'`; every following character is one decimal digit
    /// 0-7 denoting one octant, consumed in order.  An empty input fails
    /// with `EmptyNodeAddress`; a missing sentinel, or a character that is
    /// not a decimal digit, fails with `InvalidNodeAddress`; a digit 8 or
    /// 9 fails with `InvalidOctantIndex` naming that digit's value.
    pub fn parse(s: &str) -> (r: Result<Address, Error>)
        ensures
            (r is Ok) <==> spec_parse(s@) is Some,
            r matches Ok(a) ==> spec_parse(s@) == Some(a@),
            s@.len() == 0 ==> r == Err::<Address, Error>(Error::EmptyNodeAddress),
            s@.len() > 0 && s@[0] != '@' ==> (r matches Err(e) && (e matches
                Error::InvalidNodeAddress { address } && address@ == s@)),
            (s@.len() > 0 && s@[0] == '@' && first_non_octant_digit(s@, 1) < s@.len())
                ==> (r matches Err(e) && ({
                let bad = s@[first_non_octant_digit(s@, 1)];
                if is_decimal_digit(bad) {
                    e == Error::InvalidOctantIndex { index: digit_value(bad) }
                } else {
                    e matches Error::InvalidNodeAddress { address } && address@ == s@
                }
            })),
    {
        let n = s.unicode_len();
        if n == 0 {
            return Err(Error::EmptyNodeAddress);
        }
        if s.get_char(0) != '@' {
            return Err(Error::InvalidNodeAddress { address: s.to_owned() });
        }
        let mut octants: Vec<Octant> = Vec::new();
        let mut i: usize = 1;
        proof {
            lemma_first_non_octant_digit_bounds(s@, 1);
        }
        while i < n
            invariant
                1 <= i <= n,
                n == s@.len(),
                s@.len() > 0 && s@[0] == '@',
                first_non_octant_digit(s@, 1) >= i,
                first_non_octant_digit(s@, 1) <= s@.len(),
                octants@ == s@.subrange(1, i as int).map_values(
                    |c: char| Octant::spec_from_index(digit_value(c)),
                ),
            decreases n - i,
        {
            let c = s.get_char(i);
            let u = c as u32;
            if 48 <= u && u <= 55 {
                let oct = match u {
                    48u32 => Octant::First,
                    49u32 => Octant::Second,
                    50u32 => Octant::Third,
                    51u32 => Octant::Fourth,
                    52u32 => Octant::Fifth,
                    53u32 => Octant::Sixth,
                    54u32 => Octant::Seventh,
                    _ => Octant::Eighth,
                };
                octants.push(oct);
                proof {
                    lemma_first_non_octant_digit_bounds(s@, 1);
                    assert(is_octant_digit(s@[i as int]));
                    assert(first_non_octant_digit(s@, 1) != i);
                    assert(oct == Octant::spec_from_index(digit_value(c)));
                    assert(octants@ =~= s@.subrange(1, i + 1).map_values(
                        |ch: char| Octant::spec_from_index(digit_value(ch)),
                    ));
                }
                i = i + 1;
            } else if 48 <= u && u <= 57 {
                proof {
                    lemma_first_non_octant_digit_bounds(s@, 1);
                    assert(!is_octant_digit(s@[i as int]));
                    assert(first_non_octant_digit(s@, 1) == i);
                }
                return Err(Error::InvalidOctantIndex { index: (u - 48) as u8 });
            } else {
                proof {
                    lemma_first_non_octant_digit_bounds(s@, 1);
                    assert(!is_octant_digit(s@[i as int]));
                    assert(first_non_octant_digit(s@, 1) == i);
                }
                return Err(Error::InvalidNodeAddress { address: s.to_owned() });
            }
        }
        proof {
            assert(first_non_octant_digit(s@, 1) == s@.len());
            assert(octants@ =~= text_octants(s@));
        }
        Ok(Address { octants })
    }

    /// The canonical text of this address: `'@'` followed by the decimal
    /// digit of each octant in order.  The empty address renders as `"@"`.
    pub fn to_text(&self) -> (r: String)
        ensures
            r@ == spec_to_text(self@),
    {
        let mut out = String::from_str("@");
        proof {
            reveal_strlit("@");
        }
        let mut i: usize = 0;
        while i < self.octants.len()
            invariant
                i <= self.octants.len(),
                out@ == spec_to_text(self.octants@.subrange(0, i as int)),
            decreases self.octants.len() - i,
        {
            let ghost prev = out@;
            let digit: &str = match self.octants[i] {
                Octant::First => "0",
                Octant::Second => "1",
                Octant::Third => "2",
                Octant::Fourth => "3",
                Octant::Fifth => "4",
                Octant::Sixth => "5",
                Octant::Seventh => "6",
                Octant::Eighth => "7",
            };
            out.append(digit);
            proof {
                reveal_strlit("0");
                reveal_strlit("1");
                reveal_strlit("2");
                reveal_strlit("3");
                reveal_strlit("4");
                reveal_strlit("5");
                reveal_strlit("6");
                reveal_strlit("7");
                assert(digit@ == seq![octant_digit(self.octants@[i as int])]);
                assert(out@ =~= spec_to_text(self.octants@.subrange(0, i + 1)));
            }
            i = i + 1;
        }
        proof {
            assert(self.octants@.subrange(0, self.octants@.len() as int) =~= self.octants@);
        }
        out
    }
}

/// The text encoding round-trips: parsing the canonical text of any octant
/// sequence succeeds and yields that sequence again, the empty path
/// (rendered `"@"`) included.
pub proof fn lemma_text_round_trip(s: Seq<Octant>)
    ensures
        spec_parse(spec_to_text(s)) == Some(s),
{
    let t = spec_to_text(s);
    assert(t.len() == s.len() + 1);
    assert(t[0] == '@');
    assert forall|k: int| 1 <= k < t.len() implies is_octant_digit(#[trigger] t[k]) by {
        let o = s[k - 1];
        assert(t[k] == octant_digit(o));
        assert(o.spec_index() <= 7);
    }
    lemma_all_digits_scan(t, 1);
    assert(first_non_octant_digit(t, 1) == t.len());
    let parsed = text_octants(t);
    assert forall|k: int| 0 <= k < s.len() implies parsed[k] == s[k] by {
        let o = s[k];
        assert(t[k + 1] == octant_digit(o));
        assert(digit_value(octant_digit(o)) == o.spec_index());
        o.lemma_index_from_index();
    }
    assert(parsed =~= s);
}

/// If every character from `start` on is an octant digit, the scan for a
/// non-digit runs to the end of the text.
proof fn lemma_all_digits_scan(t: Seq<char>, start: int)
    requires
        0 <= start <= t.len(),
        forall|k: int| start <= k < t.len() ==> is_octant_digit(#[trigger] t[k]),
    ensures
        first_non_octant_digit(t, start) == t.len(),
    decreases t.len() - start,
{
    if start < t.len() {
        lemma_all_digits_scan(t, start + 1);
    }
}

/// The 4-bit pattern that encodes an octant in the binary form: the three
/// value bits of the index, least significant bit first, then the
/// always-zero reserved bit.  Every octant nibble is even; the odd
/// patterns, 15 among them, never encode an octant.
pub open spec fn octant_nibble(o: Octant) -> u8 {
    match o {
        Octant::First => 0,
        Octant::Second => 8,
        Octant::Third => 4,
        Octant::Fourth => 12,
        Octant::Fifth => 2,
        Octant::Sixth => 10,
        Octant::Seventh => 6,
        Octant::Eighth => 14,
    }
}

/// The value a 4-bit chunk decodes to: the chunk's bits read back in the
/// codec's bit order.  Chunks 0-15 map onto 0-15; the even chunks decode
/// to the octant indices 0-7, the odd ones to the invalid values 8-15.
pub open spec fn nibble_octant_value(n: u8) -> u8 {
    if n == 0 {
        0
    } else if n == 1 {
        8
    } else if n == 2 {
        4
    } else if n == 3 {
        12
    } else if n == 4 {
        2
    } else if n == 5 {
        10
    } else if n == 6 {
        6
    } else if n == 7 {
        14
    } else if n == 8 {
        1
    } else if n == 9 {
        9
    } else if n == 10 {
        5
    } else if n == 11 {
        13
    } else if n == 12 {
        3
    } else if n == 13 {
        11
    } else if n == 14 {
        7
    } else {
        15
    }
}

/// Whether a 4-bit chunk encodes an octant: its reserved bit is clear.
pub open spec fn is_octant_nibble(n: u8) -> bool {
    n % 2 == 0
}

/// The nibbles of a path: one octant nibble per octant, and, when their
/// count is odd, one final all-ones padding nibble to reach byte
/// alignment.
pub open spec fn spec_nibbles(s: Seq<Octant>) -> Seq<u8> {
    let base = s.map_values(|o: Octant| octant_nibble(o));
    if s.len() % 2 == 1 {
        base.push(15u8)
    } else {
        base
    }
}

/// Packs an even-length nibble sequence into bytes, the earlier nibble of
/// each pair in the high half of its byte.
pub open spec fn pack_nibbles(ns: Seq<u8>) -> Seq<u8> {
    Seq::new(ns.len() / 2, |i: int| (ns[2 * i] * 16 + ns[2 * i + 1]) as u8)
}

/// The binary form of a path: its nibbles, padded and packed into bytes.
pub open spec fn spec_to_bytes(s: Seq<Octant>) -> Seq<u8> {
    pack_nibbles(spec_nibbles(s))
}

/// The `i`th 4-bit chunk of a byte sequence, high half of each byte
/// first.
pub open spec fn nibble_at(b: Seq<u8>, i: int) -> u8 {
    if i % 2 == 0 {
        (b[i / 2] / 16) as u8
    } else {
        (b[i / 2] % 16) as u8
    }
}

/// The first chunk index at or after `start` that is no octant nibble,
/// or `2 * b.len()` if every chunk from `start` on is one.
pub open spec fn first_bad_nibble(b: Seq<u8>, start: int) -> int
    decreases 2 * b.len() - start,
{
    if start < 0 || start >= 2 * b.len() {
        2 * b.len() as int
    } else if !is_octant_nibble(nibble_at(b, start)) {
        start
    } else {
        first_bad_nibble(b, start + 1)
    }
}

/// Whether a byte sequence is a well-formed binary address: every chunk
/// encodes an octant, except that the very last chunk may instead be the
/// all-ones padding nibble.
pub open spec fn well_formed_encoding(b: Seq<u8>) -> bool {
    let m = 2 * b.len() as int;
    let j = first_bad_nibble(b, 0);
    j == m || (j == m - 1 && nibble_at(b, m - 1) == 15)
}

/// How many chunks of a well-formed binary address carry octants: all of
/// them, unless the last one is the padding nibble.
pub open spec fn decoded_len(b: Seq<u8>) -> int {
    let m = 2 * b.len() as int;
    if m > 0 && nibble_at(b, m - 1) == 15 {
        m - 1
    } else {
        m
    }
}

/// The octants a well-formed binary address decodes to, in order.
pub open spec fn decoded_octants(b: Seq<u8>) -> Seq<Octant> {
    Seq::new(
        decoded_len(b) as nat,
        |i: int| Octant::spec_from_index(nibble_octant_value(nibble_at(b, i))),
    )
}

/// Scanning for a bad chunk never stops before `start`, nor after the
/// end, and everything before the stop is an octant nibble.
proof fn lemma_first_bad_nibble_bounds(b: Seq<u8>, start: int)
    requires
        0 <= start <= 2 * b.len(),
    ensures
        start <= first_bad_nibble(b, start) <= 2 * b.len(),
        first_bad_nibble(b, start) < 2 * b.len() ==> !is_octant_nibble(
            nibble_at(b, first_bad_nibble(b, start)),
        ),
        forall|k: int|
            start <= k < first_bad_nibble(b, start) ==> is_octant_nibble(
                #[trigger] nibble_at(b, k),
            ),
    decreases 2 * b.len() - start,
{
    if start < 2 * b.len() && is_octant_nibble(nibble_at(b, start)) {
        lemma_first_bad_nibble_bounds(b, start + 1);
    }
}

/// If every chunk from `start` on is an octant nibble, the scan for a bad
/// chunk runs to the end.
proof fn lemma_all_nibbles_scan(b: Seq<u8>, start: int)
    requires
        0 <= start <= 2 * b.len(),
        forall|k: int|
            start <= k < 2 * b.len() ==> is_octant_nibble(#[trigger] nibble_at(b, k)),
    ensures
        first_bad_nibble(b, start) == 2 * b.len(),
    decreases 2 * b.len() - start,
{
    if start < 2 * b.len() {
        lemma_all_nibbles_scan(b, start + 1);
    }
}

/// Packing then rereading nibbles is the identity on nibble sequences.
proof fn lemma_pack_unpack(ns: Seq<u8>)
    requires
        ns.len() % 2 == 0,
        forall|i: int| 0 <= i < ns.len() ==> #[trigger] ns[i] < 16,
    ensures
        2 * pack_nibbles(ns).len() == ns.len(),
        forall|i: int|
            0 <= i < ns.len() ==> #[trigger] nibble_at(pack_nibbles(ns), i) == ns[i],
{
    let b = pack_nibbles(ns);
    assert forall|i: int| 0 <= i < ns.len() implies #[trigger] nibble_at(b, i) == ns[i] by {
        let q = i / 2;
        let hi = ns[2 * q];
        let lo = ns[2 * q + 1];
        assert(0 <= q < b.len());
        assert(b[q] == (hi * 16 + lo) as u8);
        assert(hi * 16 + lo < 256 && (hi * 16 + lo) / 16 == hi && (hi * 16 + lo) % 16 == lo)
            by (nonlinear_arith)
            requires
                hi < 16,
                lo < 16,
        ;
        if i % 2 == 0 {
            assert(i == 2 * q);
        } else {
            assert(i == 2 * q + 1);
        }
    }
}

/// Decoding inverts encoding on each octant, and every octant nibble is
/// even, below 16, and never the padding pattern.
proof fn lemma_octant_nibble_facts(o: Octant)
    ensures
        nibble_octant_value(octant_nibble(o)) == o.spec_index(),
        is_octant_nibble(octant_nibble(o)),
        octant_nibble(o) < 16,
        octant_nibble(o) != 15,
{
}

impl Address {
    /// The binary form of this address: each octant packed into 4 bits,
    /// concatenated in path order, padded with one final all-ones nibble
    /// when the octant count is odd.
    pub fn to_bytes(&self) -> (r: Vec<u8>)
        ensures
            r@ == spec_to_bytes(self@),
    {
        let mut nibs: Vec<u8> = Vec::new();
        let mut i: usize = 0;
        while i < self.octants.len()
            invariant
                i <= self.octants.len(),
                nibs@ == self.octants@.subrange(0, i as int).map_values(
                    |o: Octant| octant_nibble(o),
                ),
            decreases self.octants.len() - i,
        {
            let nib: u8 = match self.octants[i] {
                Octant::First => 0,
                Octant::Second => 8,
                Octant::Third => 4,
                Octant::Fourth => 12,
                Octant::Fifth => 2,
                Octant::Sixth => 10,
                Octant::Seventh => 6,
                Octant::Eighth => 14,
            };
            nibs.push(nib);
            proof {
                assert(nib == octant_nibble(self.octants@[i as int]));
                assert(nibs@ =~= self.octants@.subrange(0, i + 1).map_values(
                    |o: Octant| octant_nibble(o),
                ));
            }
            i = i + 1;
        }
        proof {
            assert(self.octants@.subrange(0, self.octants@.len() as int) =~= self.octants@);
        }
        if nibs.len() % 2 == 1 {
            nibs.push(15);
        }
        proof {
            assert(nibs@ =~= spec_nibbles(self@));
            assert forall|k: int| 0 <= k < nibs@.len() implies #[trigger] nibs@[k] < 16 by {
                if k < self@.len() {
                    lemma_octant_nibble_facts(self@[k]);
                }
            }
        }
        let mut out: Vec<u8> = Vec::new();
        let mut j: usize = 0;
        while 2 * j < nibs.len()
            invariant
                2 * j <= nibs.len(),
                nibs@.len() % 2 == 0,
                nibs@ == spec_nibbles(self@),
                forall|k: int| 0 <= k < nibs@.len() ==> #[trigger] nibs@[k] < 16,
                out@ == pack_nibbles(nibs@).subrange(0, j as int),
            decreases nibs.len() - 2 * j,
        {
            let hi = nibs[2 * j];
            let lo = nibs[2 * j + 1];
            out.push(hi * 16 + lo);
            proof {
                assert(out@ =~= pack_nibbles(nibs@).subrange(0, j + 1));
            }
            j = j + 1;
        }
        proof {
            assert(out@ =~= pack_nibbles(nibs@));
        }
        out
    }

    /// Decodes the binary form of an address by reading 4-bit chunks.  A
    /// chunk decoding to 0-7 yields that octant; the all-ones chunk is
    /// consumed as alignment padding when, and only when, it is the very
    /// last chunk of the stream; any other chunk value, and the all-ones
    /// chunk anywhere earlier, fails with `InvalidOctantIndex` naming the
    /// decoded value.
    pub fn from_bytes(bytes: &[u8]) -> (r: Result<Address, Error>)
        ensures
            (r is Ok) <==> well_formed_encoding(bytes@),
            r matches Ok(a) ==> a@ == decoded_octants(bytes@),
            r matches Err(e) ==> e == (Error::InvalidOctantIndex {
                index: nibble_octant_value(nibble_at(bytes@, first_bad_nibble(bytes@, 0))),
            }),
    {
        let n = bytes.len();
        let mut octants: Vec<Octant> = Vec::new();
        let mut k: usize = 0;
        proof {
            lemma_first_bad_nibble_bounds(bytes@, 0);
        }
        while k < n
            invariant
                k <= n,
                n == bytes@.len(),
                first_bad_nibble(bytes@, 0) >= 2 * k,
                octants@ == Seq::new(
                    2 * k as nat,
                    |i: int| Octant::spec_from_index(nibble_octant_value(nibble_at(bytes@, i))),
                ),
            decreases n - k,
        {
            let byte = bytes[k];
            let hi = byte / 16;
            let lo = byte % 16;
            proof {
                lemma_first_bad_nibble_bounds(bytes@, 0);
                assert(nibble_at(bytes@, 2 * k as int) == hi);
                assert(nibble_at(bytes@, 2 * k + 1) == lo);
            }
            if hi % 2 != 0 {
                proof {
                    assert(!is_octant_nibble(nibble_at(bytes@, 2 * k as int)));
                    assert(first_bad_nibble(bytes@, 0) == 2 * k);
                }
                return Err(Error::InvalidOctantIndex { index: decode_nibble(hi) });
            }
            octants.push(octant_of_nibble(hi));
            proof {
                assert(is_octant_nibble(nibble_at(bytes@, 2 * k as int)));
                assert(first_bad_nibble(bytes@, 0) != 2 * k);
                assert(octants@ =~= Seq::new(
                    (2 * k + 1) as nat,
                    |i: int| Octant::spec_from_index(nibble_octant_value(nibble_at(bytes@, i))),
                ));
            }
            if lo % 2 != 0 {
                proof {
                    lemma_first_bad_nibble_bounds(bytes@, 0);
                    assert(!is_octant_nibble(nibble_at(bytes@, 2 * k + 1)));
                    assert(first_bad_nibble(bytes@, 0) == 2 * k + 1);
                }
                if lo == 15 && k == n - 1 {
                    proof {
                        assert(well_formed_encoding(bytes@));
                        assert(decoded_len(bytes@) == 2 * k + 1);
                        assert(octants@ =~= decoded_octants(bytes@));
                    }
                    return Ok(Address { octants });
                }
                proof {
                    assert(!well_formed_encoding(bytes@));
                }
                return Err(Error::InvalidOctantIndex { index: decode_nibble(lo) });
            }
            octants.push(octant_of_nibble(lo));
            proof {
                assert(is_octant_nibble(nibble_at(bytes@, 2 * k + 1)));
                assert(first_bad_nibble(bytes@, 0) != 2 * k + 1);
                assert(octants@ =~= Seq::new(
                    (2 * k + 2) as nat,
                    |i: int| Octant::spec_from_index(nibble_octant_value(nibble_at(bytes@, i))),
                ));
            }
            k = k + 1;
        }
        proof {
            lemma_first_bad_nibble_bounds(bytes@, 0);
            assert(first_bad_nibble(bytes@, 0) == 2 * n);
            if n > 0 {
                assert(is_octant_nibble(nibble_at(bytes@, 2 * n - 1)));
                assert(nibble_at(bytes@, 2 * n - 1) != 15);
            }
            assert(well_formed_encoding(bytes@));
            assert(octants@ =~= decoded_octants(bytes@));
        }
        Ok(Address { octants })
    }
}

/// The octant a 4-bit chunk with a clear reserved bit decodes to.
fn octant_of_nibble(nib: u8) -> (r: Octant)
    requires
        nib < 16,
        nib % 2 == 0,
    ensures
        r == Octant::spec_from_index(nibble_octant_value(nib)),
{
    match nib {
        0 => Octant::First,
        2 => Octant::Fifth,
        4 => Octant::Third,
        6 => Octant::Seventh,
        8 => Octant::Second,
        10 => Octant::Sixth,
        12 => Octant::Fourth,
        _ => Octant::Eighth,
    }
}

/// The value any 4-bit chunk decodes to, in the codec's bit order.
fn decode_nibble(nib: u8) -> (r: u8)
    requires
        nib < 16,
    ensures
        r == nibble_octant_value(nib),
{
    match nib {
        0 => 0,
        1 => 8,
        2 => 4,
        3 => 12,
        4 => 2,
        5 => 10,
        6 => 6,
        7 => 14,
        8 => 1,
        9 => 9,
        10 => 5,
        11 => 13,
        12 => 3,
        13 => 11,
        14 => 7,
        _ => 15,
    }
}

/// The binary encoding round-trips: the byte form of any octant sequence
/// is well formed and decodes to that sequence again.
pub proof fn lemma_binary_round_trip(s: Seq<Octant>)
    ensures
        well_formed_encoding(spec_to_bytes(s)),
        decoded_octants(spec_to_bytes(s)) == s,
{
    let ns = spec_nibbles(s);
    let b = spec_to_bytes(s);
    assert forall|i: int| 0 <= i < ns.len() implies #[trigger] ns[i] < 16 by {
        if i < s.len() {
            lemma_octant_nibble_facts(s[i]);
        }
    }
    assert(ns.len() % 2 == 0);
    lemma_pack_unpack(ns);
    assert(2 * b.len() == ns.len());
    assert forall|k: int| 0 <= k < s.len() implies is_octant_nibble(
        #[trigger] nibble_at(b, k),
    ) by {
        lemma_octant_nibble_facts(s[k]);
        assert(nibble_at(b, k) == ns[k]);
    }
    if s.len() % 2 == 1 {
        assert(nibble_at(b, ns.len() - 1) == 15);
        assert(!is_octant_nibble(nibble_at(b, s.len() as int)));
        lemma_first_bad_at(b, s.len() as int);
        assert(well_formed_encoding(b));
        assert(decoded_len(b) == s.len());
    } else {
        lemma_all_nibbles_scan(b, 0);
        if s.len() > 0 {
            lemma_octant_nibble_facts(s[s.len() - 1]);
            assert(nibble_at(b, 2 * b.len() - 1) == ns[ns.len() - 1]);
            assert(nibble_at(b, 2 * b.len() - 1) != 15);
        }
        assert(well_formed_encoding(b));
        assert(decoded_len(b) == s.len());
    }
    assert forall|i: int| 0 <= i < s.len() implies decoded_octants(b)[i] == s[i] by {
        lemma_octant_nibble_facts(s[i]);
        assert(nibble_at(b, i) == ns[i]);
        s[i].lemma_index_from_index();
    }
    assert(decoded_octants(b) =~= s);
}

/// A scan from the front stops exactly where the first bad chunk sits:
/// if everything before `j` is an octant nibble and `j` is not (or `j` is
/// the end), the scan from 0 yields `j`.
proof fn lemma_first_bad_at(b: Seq<u8>, j: int)
    requires
        0 <= j <= 2 * b.len(),
        forall|k: int| 0 <= k < j ==> is_octant_nibble(#[trigger] nibble_at(b, k)),
        j < 2 * b.len() ==> !is_octant_nibble(nibble_at(b, j)),
    ensures
        first_bad_nibble(b, 0) == j,
{
    lemma_first_bad_from(b, 0, j);
}

/// The same scan property, started anywhere.
proof fn lemma_first_bad_from(b: Seq<u8>, start: int, j: int)
    requires
        0 <= start <= j <= 2 * b.len(),
        forall|k: int| start <= k < j ==> is_octant_nibble(#[trigger] nibble_at(b, k)),
        j < 2 * b.len() ==> !is_octant_nibble(nibble_at(b, j)),
    ensures
        first_bad_nibble(b, start) == j,
    decreases j - start,
{
    if start < j {
        lemma_first_bad_from(b, start + 1, j);
    }
}

} // verus!

