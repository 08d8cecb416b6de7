//! The probabilistic membership filter: a packed bit array, a number of seeded
//! hash functions, and the nonce that seeds them.

use vstd::prelude::*;
use crate::error::Error;
use crate::hash::{hash_seed, murmur3_32_hash, murmur3_32_of, seed_for};

verus! {

/// The natural logarithm of two, to 53 binary places, as a fraction: this is
/// its numerator.
pub const LN2_NUMERATOR: u128 = 6243314768165359;

/// The denominator of the fraction: 2^53.
pub const LN2_DENOMINATOR: u128 = 9007199254740992;

/// How a peer updates the filter when a transaction matches.
#[derive(Clone, Copy, Debug, PartialEq, Eq, Structural)]
pub enum UpdateFlags {
    /// The peer never touches the filter.
    NoUpdate,
    /// The peer adds every matched outpoint.
    All,
    /// The peer adds outpoints of pay-to-pubkey and multisig outputs only.
    PubkeyOnly,
}

impl UpdateFlags {
    /// The byte that stands for the flag on the wire.
    pub open spec fn wire_value(self) -> u8 {
        match self {
            UpdateFlags::NoUpdate => 0u8,
            UpdateFlags::All => 1u8,
            UpdateFlags::PubkeyOnly => 2u8,
        }
    }

    /// Computes [`UpdateFlags::wire_value`].
    pub fn to_wire(&self) -> (b: u8)
        ensures
            b == self.wire_value(),
    {
        match self {
            UpdateFlags::NoUpdate => 0u8,
            UpdateFlags::All => 1u8,
            UpdateFlags::PubkeyOnly => 2u8,
        }
    }
}

/// Bit `j` of a byte, counted from the least significant one.
pub open spec fn bit_of(b: u8, j: int) -> bool {
    b & (1u8 << (j as u8)) != 0
}

/// The bits that a packed byte string holds: bit `i` lives in byte `i / 8`, at
/// position `i % 8`.
pub open spec fn unpack_bits(bytes: Seq<u8>) -> Seq<bool> {
    Seq::new(8 * bytes.len(), |i: int| bit_of(bytes[i / 8], i % 8))
}

/// The byte that packs the eight bits from `at` on, the first one lowest.
pub open spec fn pack_byte(bits: Seq<bool>, at: int) -> u8 {
    (if bits[at] { 1u8 } else { 0u8 }) | (if bits[at + 1] { 2u8 } else { 0u8 }) | (if bits[at + 2] {
        4u8
    } else {
        0u8
    }) | (if bits[at + 3] { 8u8 } else { 0u8 }) | (if bits[at + 4] { 16u8 } else { 0u8 }) | (if bits[at
        + 5] { 32u8 } else { 0u8 }) | (if bits[at + 6] { 64u8 } else { 0u8 }) | (if bits[at + 7] {
        128u8
    } else {
        0u8
    })
}

/// The bytes that pack a whole number of bytes of bits: the inverse of
/// [`unpack_bits`].
pub open spec fn pack_bits(bits: Seq<bool>) -> Seq<u8>
    recommends
        bits.len() % 8 == 0,
{
    Seq::new(bits.len() / 8, |i: int| pack_byte(bits, 8 * i))
}

/// The number of hash functions for a bit array of `bitmap_bits` bits that is
/// to hold `item_count` items: `bitmap_bits / item_count * ln 2`, rounded up,
/// at least one, and at most what 32 bits hold. For no items the quotient is
/// without bound, and the number is the largest there is, unless there are no
/// bits either.
pub open spec fn optimal_hash_count(bitmap_bits: nat, item_count: nat) -> nat {
    if item_count == 0 {
        if bitmap_bits == 0 {
            1
        } else {
            u32::MAX as nat
        }
    } else {
        let scaled = bitmap_bits * (LN2_NUMERATOR as nat);
        let unit = item_count * (LN2_DENOMINATOR as nat);
        let rounded_up = (scaled + unit - 1) / (unit as int);
        if rounded_up < 1 {
            1
        } else if rounded_up > u32::MAX {
            u32::MAX as nat
        } else {
            rounded_up as nat
        }
    }
}

/// Computes [`optimal_hash_count`], which is never less than one.
pub fn optimal_k_num(bitmap_bits: u64, item_count: usize) -> (k: u32)
    ensures
        k == optimal_hash_count(bitmap_bits as nat, item_count as nat),
        k >= 1,
{
    if item_count == 0 {
        return if bitmap_bits == 0 {
            1
        } else {
            0xFFFF_FFFF
        };
    }
    let bits: u128 = bitmap_bits as u128;
    let items: u128 = item_count as u128;
    assert(bits * LN2_NUMERATOR <= 0xFFFF_FFFF_FFFF_FFFF * 6243314768165359) by (nonlinear_arith)
        requires
            bits <= 0xFFFF_FFFF_FFFF_FFFF,
            LN2_NUMERATOR == 6243314768165359,
    ;
    assert(0 < items * LN2_DENOMINATOR <= 0xFFFF_FFFF_FFFF_FFFF * 9007199254740992)
        by (nonlinear_arith)
        requires
            0 < items <= 0xFFFF_FFFF_FFFF_FFFF,
            LN2_DENOMINATOR == 9007199254740992,
    ;
    let scaled: u128 = bits * LN2_NUMERATOR;
    let unit: u128 = items * LN2_DENOMINATOR;
    let rounded_up: u128 = (scaled + unit - 1) / unit;
    if rounded_up < 1 {
        1
    } else if rounded_up > 0xFFFF_FFFF {
        0xFFFF_FFFF
    } else {
        rounded_up as u32
    }
}

/// What a filter is: its bits in order, the number of hash functions, the
/// nonce and the update flag.
pub struct FilterView {
    pub bits: Seq<bool>,
    pub hash_count: u32,
    pub tweak: u32,
    pub flags: UpdateFlags,
}

impl FilterView {
    /// A filter has at least one bit, whole bytes of them, no more than 64 bits
    /// count, and at least one hash function.
    pub open spec fn wf(self) -> bool {
        &&& 0 < self.bits.len() <= u64::MAX
        &&& self.bits.len() % 8 == 0
        &&& self.hash_count >= 1
    }

    /// The filter of `bitmap_size_bytes` bytes for `expected_item_count` items
    /// that holds nothing yet.
    pub open spec fn empty(bitmap_size_bytes: nat, expected_item_count: nat, tweak: u32) -> FilterView {
        FilterView {
            bits: Seq::new(8 * bitmap_size_bytes, |i: int| false),
            hash_count: optimal_hash_count(8 * bitmap_size_bytes, expected_item_count) as u32,
            tweak,
            flags: UpdateFlags::NoUpdate,
        }
    }

    /// Whether no bit is set.
    pub open spec fn is_empty(self) -> bool {
        forall|i: int| 0 <= i < self.bits.len() ==> !#[trigger] self.bits[i]
    }

    /// The bit that hash function number `k` gives to `item`.
    pub open spec fn bit_index(self, k: u32, item: Seq<u8>) -> int {
        murmur3_32_hash(hash_seed(k, self.tweak), item) as int % (self.bits.len() as int)
    }

    /// Whether one of the first `n` hash functions gives bit `i` to `item`.
    pub open spec fn hits_below(self, item: Seq<u8>, i: int, n: int) -> bool {
        exists|k: u32| k < n && #[trigger] self.bit_index(k, item) == i
    }

    /// The filter after the first `n` hash functions have set their bit for
    /// `item`.
    pub open spec fn inserted_below(self, item: Seq<u8>, n: int) -> FilterView {
        FilterView {
            bits: Seq::new(self.bits.len(), |i: int| self.bits[i] || self.hits_below(item, i, n)),
            ..self
        }
    }

    /// The filter after `item` was inserted: every bit that a hash function
    /// gives to the item is set, and no other bit changes.
    pub open spec fn inserted(self, item: Seq<u8>) -> FilterView {
        self.inserted_below(item, self.hash_count as int)
    }

    /// The filter after the items were inserted one after the other.
    pub open spec fn inserted_all(self, items: Seq<Seq<u8>>) -> FilterView
        decreases items.len(),
    {
        if items.len() == 0 {
            self
        } else {
            self.inserted_all(items.drop_last()).inserted(items.last())
        }
    }

    /// Whether the filter answers yes for `item`: every bit that a hash function
    /// gives to the item is set.
    pub open spec fn contains(self, item: Seq<u8>) -> bool {
        &&& self.hash_count > 0
        &&& forall|k: u32| k < self.hash_count ==> self.bits[#[trigger] self.bit_index(k, item)]
    }
}

/// The filter as it is handed to peers.
#[derive(Clone, Debug, PartialEq, Eq)]
pub struct WireFilter {
    /// The packed bits.
    pub content: Vec<u8>,
    /// The number of hash functions.
    pub hash_count: u32,
    /// The nonce.
    pub tweak: u32,
    /// The update flag: 0 for none, 1 for all, 2 for pubkey only.
    pub flags: u8,
}

/// A wire form as plain values.
pub struct WireView {
    pub content: Seq<u8>,
    pub hash_count: u32,
    pub tweak: u32,
    pub flags: u8,
}

impl View for WireFilter {
    type V = WireView;

    open spec fn view(&self) -> WireView {
        WireView {
            content: self.content@,
            hash_count: self.hash_count,
            tweak: self.tweak,
            flags: self.flags,
        }
    }
}

impl FilterView {
    /// The wire form of the filter: its bits packed, the number of hash
    /// functions, the nonce, and the byte of the flag.
    pub open spec fn wire(self) -> WireView {
        WireView {
            content: pack_bits(self.bits),
            hash_count: self.hash_count,
            tweak: self.tweak,
            flags: self.flags.wire_value(),
        }
    }
}

/// A bit array that answers whether an item was inserted: never no for one that
/// was, sometimes yes for one that was not.
#[derive(Clone, Debug)]
pub struct ProbabilisticFilter {
    bits: Vec<u8>,
    hash_count: u32,
    tweak: u32,
    flags: UpdateFlags,
}

impl View for ProbabilisticFilter {
    type V = FilterView;

    closed spec fn view(&self) -> FilterView {
        FilterView {
            bits: unpack_bits(self.bits@),
            hash_count: self.hash_count,
            tweak: self.tweak,
            flags: self.flags,
        }
    }
}

/// Setting bit `j` of a byte sets that bit and leaves the seven others.
proof fn lemma_set_bit(b: u8, j: u8, m: u8)
    requires
        j < 8,
        m < 8,
    ensures
        bit_of(b | (1u8 << j), m as int) == (bit_of(b, m as int) || m == j),
{
    assert(((b | (1u8 << j)) & (1u8 << m) != 0) == ((b & (1u8 << m) != 0) || m == j))
        by (bit_vector)
        requires
            j < 8,
            m < 8,
    ;
}

/// No bit of the zero byte is set.
proof fn lemma_zero_byte(m: u8)
    requires
        m < 8,
    ensures
        !bit_of(0u8, m as int),
{
    assert(0u8 & (1u8 << m) == 0) by (bit_vector)
        requires
            m < 8,
    ;
}

/// Inserting an item keeps the filter valid: the size, the hash functions and
/// the nonce stay.
pub proof fn lemma_inserted_wf(f: FilterView, item: Seq<u8>)
    requires
        f.wf(),
    ensures
        f.inserted(item).wf(),
        f.inserted(item).bits.len() == f.bits.len(),
        f.inserted(item).hash_count == f.hash_count,
        f.inserted(item).tweak == f.tweak,
        f.inserted(item).flags == f.flags,
        forall|k: u32, other: Seq<u8>| #[trigger]
            f.inserted(item).bit_index(k, other) == f.bit_index(k, other),
{
}

/// Every hash function gives an item a bit of the array.
pub proof fn lemma_bit_index_in_range(f: FilterView, k: u32, item: Seq<u8>)
    requires
        f.wf(),
    ensures
        0 <= f.bit_index(k, item) < f.bits.len(),
{
}

/// An item is answered with yes as soon as it was inserted.
pub proof fn lemma_inserted_is_contained(f: FilterView, item: Seq<u8>)
    requires
        f.wf(),
    ensures
        f.inserted(item).contains(item),
{
    let g = f.inserted(item);
    lemma_inserted_wf(f, item);
    assert forall|k: u32| k < g.hash_count implies g.bits[#[trigger] g.bit_index(k, item)] by {
        lemma_bit_index_in_range(f, k, item);
        assert(g.bit_index(k, item) == f.bit_index(k, item));
        assert(f.hits_below(item, f.bit_index(k, item), f.hash_count as int));
    }
}

/// An item that is answered with yes is still answered with yes after another
/// item was inserted.
pub proof fn lemma_insert_keeps_contained(f: FilterView, item: Seq<u8>, other: Seq<u8>)
    requires
        f.wf(),
        f.contains(item),
    ensures
        f.inserted(other).contains(item),
{
    let g = f.inserted(other);
    lemma_inserted_wf(f, other);
    assert forall|k: u32| k < g.hash_count implies g.bits[#[trigger] g.bit_index(k, item)] by {
        lemma_bit_index_in_range(f, k, item);
        assert(g.bit_index(k, item) == f.bit_index(k, item));
        assert(f.bits[f.bit_index(k, item)]);
    }
}

/// Inserting any number of items keeps the filter valid.
pub proof fn lemma_inserted_all_wf(f: FilterView, items: Seq<Seq<u8>>)
    requires
        f.wf(),
    ensures
        f.inserted_all(items).wf(),
        f.inserted_all(items).bits.len() == f.bits.len(),
        f.inserted_all(items).hash_count == f.hash_count,
        f.inserted_all(items).tweak == f.tweak,
        f.inserted_all(items).flags == f.flags,
    decreases items.len(),
{
    if items.len() > 0 {
        lemma_inserted_all_wf(f, items.drop_last());
        lemma_inserted_wf(f.inserted_all(items.drop_last()), items.last());
    }
}

/// No false negatives: after any run of insertions into a filter, each item of
/// the run is answered with yes, whatever was inserted after it.
pub proof fn lemma_no_false_negatives(f: FilterView, items: Seq<Seq<u8>>, j: int)
    requires
        f.wf(),
        0 <= j < items.len(),
    ensures
        f.inserted_all(items).contains(items[j]),
    decreases items.len(),
{
    let earlier = f.inserted_all(items.drop_last());
    lemma_inserted_all_wf(f, items.drop_last());
    if j == items.len() - 1 {
        lemma_inserted_is_contained(earlier, items.last());
    } else {
        lemma_no_false_negatives(f, items.drop_last(), j);
        assert(items.drop_last()[j] == items[j]);
        lemma_insert_keeps_contained(earlier, items[j], items.last());
    }
}

/// A filter in which no bit is set answers no for every item.
pub proof fn lemma_empty_contains_nothing(f: FilterView, item: Seq<u8>)
    requires
        f.wf(),
        f.is_empty(),
    ensures
        !f.contains(item),
{
    lemma_bit_index_in_range(f, 0, item);
    assert(!f.bits[f.bit_index(0, item)]);
}

/// A freshly made filter is valid and holds nothing.
pub proof fn lemma_fresh_is_empty(bitmap_size_bytes: nat, expected_item_count: nat, tweak: u32)
    requires
        0 < bitmap_size_bytes,
        8 * bitmap_size_bytes <= u64::MAX,
        0 < expected_item_count,
    ensures
        FilterView::empty(bitmap_size_bytes, expected_item_count, tweak).wf(),
        FilterView::empty(bitmap_size_bytes, expected_item_count, tweak).is_empty(),
{
}

/// A byte is the packing of its eight bits.
proof fn lemma_byte_from_bits(b: u8)
    ensures
        b == (if bit_of(b, 0) { 1u8 } else { 0u8 }) | (if bit_of(b, 1) { 2u8 } else { 0u8 }) | (
        if bit_of(b, 2) { 4u8 } else { 0u8 }) | (if bit_of(b, 3) { 8u8 } else { 0u8 }) | (if bit_of(
            b,
            4,
        ) { 16u8 } else { 0u8 }) | (if bit_of(b, 5) { 32u8 } else { 0u8 }) | (if bit_of(b, 6) {
            64u8
        } else {
            0u8
        }) | (if bit_of(b, 7) { 128u8 } else { 0u8 }),
{
    assert(b == (if b & (1u8 << 0u8) != 0 { 1u8 } else { 0u8 }) | (if b & (1u8 << 1u8) != 0 {
        2u8
    } else {
        0u8
    }) | (if b & (1u8 << 2u8) != 0 { 4u8 } else { 0u8 }) | (if b & (1u8 << 3u8) != 0 {
        8u8
    } else {
        0u8
    }) | (if b & (1u8 << 4u8) != 0 { 16u8 } else { 0u8 }) | (if b & (1u8 << 5u8) != 0 {
        32u8
    } else {
        0u8
    }) | (if b & (1u8 << 6u8) != 0 { 64u8 } else { 0u8 }) | (if b & (1u8 << 7u8) != 0 {
        128u8
    } else {
        0u8
    })) by (bit_vector);
}

/// Bit `m` of a byte packed from eight bits is the bit that went in.
proof fn lemma_bit_of_packed(
    b0: bool,
    b1: bool,
    b2: bool,
    b3: bool,
    b4: bool,
    b5: bool,
    b6: bool,
    b7: bool,
    m: u8,
)
    requires
        m < 8,
    ensures
        bit_of(
            (if b0 { 1u8 } else { 0u8 }) | (if b1 { 2u8 } else { 0u8 }) | (if b2 { 4u8 } else { 0u8 })
                | (if b3 { 8u8 } else { 0u8 }) | (if b4 { 16u8 } else { 0u8 }) | (if b5 {
                32u8
            } else {
                0u8
            }) | (if b6 { 64u8 } else { 0u8 }) | (if b7 { 128u8 } else { 0u8 }),
            m as int,
        ) == (if m == 0 {
            b0
        } else if m == 1 {
            b1
        } else if m == 2 {
            b2
        } else if m == 3 {
            b3
        } else if m == 4 {
            b4
        } else if m == 5 {
            b5
        } else if m == 6 {
            b6
        } else {
            b7
        }),
{
    let packed = (if b0 { 1u8 } else { 0u8 }) | (if b1 { 2u8 } else { 0u8 }) | (if b2 {
        4u8
    } else {
        0u8
    }) | (if b3 { 8u8 } else { 0u8 }) | (if b4 { 16u8 } else { 0u8 }) | (if b5 { 32u8 } else { 0u8 })
        | (if b6 { 64u8 } else { 0u8 }) | (if b7 { 128u8 } else { 0u8 });
    let x0 = if b0 { 1u8 } else { 0u8 };
    let x1 = if b1 { 2u8 } else { 0u8 };
    let x2 = if b2 { 4u8 } else { 0u8 };
    let x3 = if b3 { 8u8 } else { 0u8 };
    let x4 = if b4 { 16u8 } else { 0u8 };
    let x5 = if b5 { 32u8 } else { 0u8 };
    let x6 = if b6 { 64u8 } else { 0u8 };
    let x7 = if b7 { 128u8 } else { 0u8 };
    assert(((x0 | x1 | x2 | x3 | x4 | x5 | x6 | x7) & (1u8 << m) != 0) == (if m == 0 {
        x0 != 0
    } else if m == 1 {
        x1 != 0
    } else if m == 2 {
        x2 != 0
    } else if m == 3 {
        x3 != 0
    } else if m == 4 {
        x4 != 0
    } else if m == 5 {
        x5 != 0
    } else if m == 6 {
        x6 != 0
    } else {
        x7 != 0
    })) by (bit_vector)
        requires
            m < 8,
            x0 == 0 || x0 == 1,
            x1 == 0 || x1 == 2,
            x2 == 0 || x2 == 4,
            x3 == 0 || x3 == 8,
            x4 == 0 || x4 == 16,
            x5 == 0 || x5 == 32,
            x6 == 0 || x6 == 64,
            x7 == 0 || x7 == 128,
    ;
}

/// Packing the bits of a byte string gives the byte string back.
pub proof fn lemma_pack_unpack(bytes: Seq<u8>)
    ensures
        pack_bits(unpack_bits(bytes)) == bytes,
{
    let bits = unpack_bits(bytes);
    assert forall|i: int| 0 <= i < bytes.len() implies pack_byte(bits, 8 * i) == bytes[i] by {
        assert((8 * i + 0) / 8 == i && (8 * i + 0) % 8 == 0);
        assert((8 * i + 1) / 8 == i && (8 * i + 1) % 8 == 1);
        assert((8 * i + 2) / 8 == i && (8 * i + 2) % 8 == 2);
        assert((8 * i + 3) / 8 == i && (8 * i + 3) % 8 == 3);
        assert((8 * i + 4) / 8 == i && (8 * i + 4) % 8 == 4);
        assert((8 * i + 5) / 8 == i && (8 * i + 5) % 8 == 5);
        assert((8 * i + 6) / 8 == i && (8 * i + 6) % 8 == 6);
        assert((8 * i + 7) / 8 == i && (8 * i + 7) % 8 == 7);
        lemma_byte_from_bits(bytes[i]);
    }
    assert(pack_bits(bits) =~= bytes);
}

/// Unpacking the packed form of a whole number of bytes of bits gives the bits
/// back: the wire content loses nothing of the filter.
pub proof fn lemma_unpack_pack(bits: Seq<bool>)
    requires
        bits.len() % 8 == 0,
    ensures
        unpack_bits(pack_bits(bits)) == bits,
{
    let bytes = pack_bits(bits);
    assert forall|i: int| 0 <= i < bits.len() implies unpack_bits(bytes)[i] == bits[i] by {
        let at = 8 * (i / 8);
        lemma_bit_of_packed(
            bits[at],
            bits[at + 1],
            bits[at + 2],
            bits[at + 3],
            bits[at + 4],
            bits[at + 5],
            bits[at + 6],
            bits[at + 7],
            (i % 8) as u8,
        );
        assert(i == at + i % 8);
    }
    assert(unpack_bits(bytes) =~= bits);
}

/// Calls `rand::random::<u32>()`, the thread's random generator, which the
/// operating system seeds.
///
/// Trusted: the call returns. Nothing is claimed of the number that comes
/// back, and two calls may differ.
#[verifier::external_body]
pub(crate) fn random_tweak() -> u32 {
    rand::random::<u32>()
}

impl ProbabilisticFilter {
    /// The validity of a filter, stated of its view.
    pub open spec fn wf(&self) -> bool {
        self@.wf()
    }

    /// The empty filter for sizes that are known not to be zero.
    pub(crate) fn fresh(bitmap_size_bytes: usize, expected_item_count: usize, tweak: u32) -> (f:
        ProbabilisticFilter)
        requires
            0 < bitmap_size_bytes,
            bitmap_size_bytes as int * 8 <= u64::MAX,
            0 < expected_item_count,
        ensures
            f.wf(),
            f@ == FilterView::empty(bitmap_size_bytes as nat, expected_item_count as nat, tweak),
    {
        let bitmap_bits: u64 = bitmap_size_bytes as u64 * 8;
        let hash_count = optimal_k_num(bitmap_bits, expected_item_count);
        let bits: Vec<u8> = vec![0u8; bitmap_size_bytes];
        let f = ProbabilisticFilter { bits, hash_count, tweak, flags: UpdateFlags::NoUpdate };
        proof {
            let target = FilterView::empty(
                bitmap_size_bytes as nat,
                expected_item_count as nat,
                tweak,
            );
            assert forall|i: int| 0 <= i < f@.bits.len() implies f@.bits[i] == target.bits[i] by {
                lemma_zero_byte((i % 8) as u8);
            }
            assert(f@.bits =~= target.bits);
        }
        f
    }

    /// An empty filter of `bitmap_size_bytes` bytes for `expected_item_count`
    /// items, with the nonce given. Fails when either number is zero.
    pub fn with_tweak(bitmap_size_bytes: usize, expected_item_count: usize, tweak: u32) -> (r: Result<
        ProbabilisticFilter,
        Error,
    >)
        requires
            bitmap_size_bytes as int * 8 <= u64::MAX,
        ensures
            match r {
                Ok(f) => {
                    &&& bitmap_size_bytes > 0
                    &&& expected_item_count > 0
                    &&& f.wf()
                    &&& f@ == FilterView::empty(
                        bitmap_size_bytes as nat,
                        expected_item_count as nat,
                        tweak,
                    )
                },
                Err(e) => {
                    &&& bitmap_size_bytes == 0 || expected_item_count == 0
                    &&& e == Error::InvalidArgument
                },
            },
    {
        if bitmap_size_bytes == 0 || expected_item_count == 0 {
            return Err(Error::InvalidArgument);
        }
        Ok(ProbabilisticFilter::fresh(bitmap_size_bytes, expected_item_count, tweak))
    }

    /// An empty filter of `bitmap_size_bytes` bytes for `expected_item_count`
    /// items, with a nonce drawn at random. Fails when either number is zero.
    pub fn new(bitmap_size_bytes: usize, expected_item_count: usize) -> (r: Result<
        ProbabilisticFilter,
        Error,
    >)
        requires
            bitmap_size_bytes as int * 8 <= u64::MAX,
        ensures
            match r {
                Ok(f) => {
                    &&& bitmap_size_bytes > 0
                    &&& expected_item_count > 0
                    &&& f.wf()
                    &&& f@ == FilterView::empty(
                        bitmap_size_bytes as nat,
                        expected_item_count as nat,
                        f@.tweak,
                    )
                },
                Err(e) => {
                    &&& bitmap_size_bytes == 0 || expected_item_count == 0
                    &&& e == Error::InvalidArgument
                },
            },
    {
        let tweak = random_tweak();
        ProbabilisticFilter::with_tweak(bitmap_size_bytes, expected_item_count, tweak)
    }

    /// The number of hash functions.
    pub fn hash_count(&self) -> (k: u32)
        ensures
            k == self@.hash_count,
    {
        self.hash_count
    }

    /// The nonce.
    pub fn tweak(&self) -> (t: u32)
        ensures
            t == self@.tweak,
    {
        self.tweak
    }

    /// The update flag.
    pub fn flags(&self) -> (f: UpdateFlags)
        ensures
            f == self@.flags,
    {
        self.flags
    }

    /// The number of bits.
    pub fn bitmap_bits(&self) -> (n: u64)
        requires
            self.wf(),
        ensures
            n == self@.bits.len(),
    {
        self.bits.len() as u64 * 8
    }

    /// The bit that hash function number `index` gives to `item`: the seeded
    /// hash of the item, reduced modulo the number of bits.
    pub fn seeded_hash(&self, index: u32, item: &[u8]) -> (bit: u32)
        requires
            self.wf(),
            item@.len() <= u32::MAX,
        ensures
            bit == self@.bit_index(index, item@),
            bit < self@.bits.len(),
    {
        let seed = seed_for(index, self.tweak);
        let h = murmur3_32_of(seed, item);
        let modulus = self.bitmap_bits();
        let wide: u64 = h as u64;
        assert(wide % modulus <= wide) by (nonlinear_arith)
            requires
                modulus > 0,
        ;
        (wide % modulus) as u32
    }

    /// Records the item: sets the bit of each hash function.
    pub fn insert(&mut self, item: &[u8])
        requires
            old(self).wf(),
            item@.len() <= u32::MAX,
        ensures
            final(self).wf(),
            final(self)@ == old(self)@.inserted(item@),
    {
        let ghost before = self@;
        let mut k: u32 = 0;
        assert(self@.bits =~= before.inserted_below(item@, 0).bits);
        while k < self.hash_count
            invariant
                before.wf(),
                item@.len() <= u32::MAX,
                k <= self.hash_count,
                self@ == before.inserted_below(item@, k as int),
            decreases self.hash_count - k,
        {
            let bit = self.seeded_hash(k, item);
            let at: usize = (bit / 8) as usize;
            let shift: u8 = (bit % 8) as u8;
            let ghost prev = self.bits@;
            let byte = self.bits[at];
            self.bits.set(at, byte | (1u8 << shift));
            proof {
                let next = before.inserted_below(item@, k + 1);
                assert(bit == before.bit_index(k, item@));
                assert forall|i: int| 0 <= i < next.bits.len() implies self@.bits[i]
                    == next.bits[i] by {
                    if i / 8 == at as int {
                        lemma_set_bit(byte, shift, (i % 8) as u8);
                    }
                    assert(unpack_bits(prev)[i] == (before.bits[i] || before.hits_below(
                        item@,
                        i,
                        k as int,
                    )));
                    assert(self@.bits[i] == (unpack_bits(prev)[i] || i == bit));
                }
                assert(self@.bits =~= next.bits);
            }
            k += 1;
        }
    }

    /// Whether the filter answers yes for the item. An item that was inserted
    /// is always answered with yes; another one may be.
    pub fn contains(&self, item: &[u8]) -> (r: bool)
        requires
            self.wf(),
            item@.len() <= u32::MAX,
        ensures
            r == self@.contains(item@),
    {
        if self.hash_count == 0 {
            return false;
        }
        let mut k: u32 = 0;
        while k < self.hash_count
            invariant
                self.wf(),
                item@.len() <= u32::MAX,
                k <= self.hash_count,
                forall|j: u32| j < k ==> self@.bits[#[trigger] self@.bit_index(j, item@)],
            decreases self.hash_count - k,
        {
            let bit = self.seeded_hash(k, item);
            let at: usize = (bit / 8) as usize;
            let shift: u8 = (bit % 8) as u8;
            if self.bits[at] & (1u8 << shift) == 0 {
                assert(!self@.bits[self@.bit_index(k, item@)]);
                return false;
            }
            k += 1;
        }
        true
    }

    /// The representation handed to peers: the packed bits, the number of hash
    /// functions, the nonce and the flag's byte.
    pub fn to_wire_form(&self) -> (w: WireFilter)
        ensures
            w@ == self@.wire(),
    {
        let content = self.bits.clone();
        assert(content@ =~= self.bits@);
        proof {
            lemma_pack_unpack(self.bits@);
        }
        WireFilter {
            content,
            hash_count: self.hash_count,
            tweak: self.tweak,
            flags: self.flags.to_wire(),
        }
    }
}

} // verus!
