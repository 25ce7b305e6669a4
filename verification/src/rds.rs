//! The RDS block layer: checkwords, offset words, block framing, group
//! synchronisation and error counting over a demodulated bitstream.
use vstd::arithmetic::power2::{
    lemma2_to64, lemma_pow2_strictly_increases, lemma_pow2_unfold, pow2,
};
use vstd::prelude::*;

verus! {

/// Bits of information carried by one block.
pub const INFO_BITS: u32 = 16;

/// Bits of checkword carried by one block.
pub const CHECK_BITS: u32 = 10;

/// Bits in one block, information plus checkword.
pub const BLOCK_BITS: usize = 26;

/// Blocks in one group.
pub const GROUP_BLOCKS: usize = 4;

/// Mask selecting the checkword of a block.
pub const CHECK_MASK: u32 = 0x3FF;

/// RDS generator polynomial: `x^10 + x^8 + x^7 + x^5 + x^4 + x^3 + 1`.
pub const GENERATOR: u32 = 0x5B9;

/// Groups that must validate back to back before a stream counts as synchronised.
pub const SYNC_GROUPS: usize = 2;

/// Offset word marking a block's position within its group.
#[derive(Debug, Clone, Copy, PartialEq, Eq, Structural)]
pub enum Offset {
    /// First block of every group.
    A,
    /// Second block of every group.
    B,
    /// Third block of a group of version A.
    C,
    /// Third block of a group of version B.
    CPrime,
    /// Fourth block of every group.
    D,
}

impl Offset {
    /// The ten-bit word an offset adds to a checkword.
    pub open spec fn word_of(self) -> u32 {
        match self {
            Offset::A => 0x0FC,
            Offset::B => 0x198,
            Offset::C => 0x168,
            Offset::CPrime => 0x350,
            Offset::D => 0x1B4,
        }
    }

    /// Whether this offset may stand at `index` within a group.
    pub open spec fn fits_position(self, index: int) -> bool {
        let slot = index % (GROUP_BLOCKS as int);
        match self {
            Offset::A => slot == 0,
            Offset::B => slot == 1,
            Offset::C => slot == 2,
            Offset::CPrime => slot == 2,
            Offset::D => slot == 3,
        }
    }

    /// The ten-bit word this offset adds to a checkword.
    pub fn word(self) -> (word: u32)
        ensures
            word == self.word_of(),
            word <= CHECK_MASK,
    {
        match self {
            Offset::A => 0x0FC,
            Offset::B => 0x198,
            Offset::C => 0x168,
            Offset::CPrime => 0x350,
            Offset::D => 0x1B4,
        }
    }

    /// Every offset word, in the order a scan should try them.
    pub fn all() -> (all: [Offset; 5])
        ensures
            all@ == seq![Offset::A, Offset::B, Offset::C, Offset::CPrime, Offset::D],
    {
        [Offset::A, Offset::B, Offset::C, Offset::CPrime, Offset::D]
    }

    /// The offsets valid at slot `slot` of a group, in the order a scan
    /// tries them: C before C' in the third slot.
    pub open spec fn offsets_at(slot: int) -> Seq<Offset> {
        if slot == 0 {
            seq![Offset::A]
        } else if slot == 1 {
            seq![Offset::B]
        } else if slot == 2 {
            seq![Offset::C, Offset::CPrime]
        } else {
            seq![Offset::D]
        }
    }

    /// The offsets valid at a given position within a group.
    pub fn at_position(position: usize) -> (offsets: Vec<Offset>)
        ensures
            offsets@ == Offset::offsets_at(position as int % (GROUP_BLOCKS as int)),
            forall|o: Offset| offsets@.contains(o) <==> o.fits_position(position as int),
            offsets@.no_duplicates(),
            offsets@.len() >= 1,
    {
        let slot = position % GROUP_BLOCKS;
        if slot == 0 {
            let v = vec![Offset::A];
            assert(v@[0] == Offset::A);
            v
        } else if slot == 1 {
            let v = vec![Offset::B];
            assert(v@[0] == Offset::B);
            v
        } else if slot == 2 {
            let v = vec![Offset::C, Offset::CPrime];
            assert(v@[0] == Offset::C && v@[1] == Offset::CPrime);
            v
        } else {
            let v = vec![Offset::D];
            assert(v@[0] == Offset::D);
            v
        }
    }
}

/// One step of polynomial long division over GF(2): clear bit `bit - 1` of
/// `register` by adding the generator shifted under it, if that bit is set.
pub open spec fn division_step(register: u32, bit: u32) -> u32 {
    if register & (1u32 << (bit - 1) as u32) != 0 {
        register ^ (GENERATOR << ((bit - 1) - CHECK_BITS) as u32)
    } else {
        register
    }
}

/// Polynomial long division of `register` by [`GENERATOR`] over GF(2),
/// clearing every bit from `bit - 1` down to [`CHECK_BITS`].
pub open spec fn divide(register: u32, bit: u32) -> u32
    decreases bit,
{
    if bit <= CHECK_BITS || bit > 32 {
        register
    } else {
        divide(division_step(register, bit), (bit - 1) as u32)
    }
}

/// The RDS checkword of sixteen information bits: the remainder of
/// `info * x^10` divided by the generator polynomial.
pub open spec fn crc(info: u16) -> u32 {
    divide((info as u32) << CHECK_BITS, 26) & CHECK_MASK
}

/// The block an information word and offset assemble into.
pub open spec fn block_of(info: u16, offset: Offset) -> u32 {
    ((info as u32) << CHECK_BITS) | (crc(info) ^ offset.word_of())
}

/// The information word of a received block.
pub open spec fn info_of(block: u32) -> u16 {
    ((block >> CHECK_BITS) & 0xFFFF) as u16
}

/// Whether a received block carries a valid checkword for `offset`.
pub open spec fn valid_for(block: u32, offset: Offset) -> bool {
    block & CHECK_MASK == crc(info_of(block)) ^ offset.word_of()
}

/// The ten-bit checkword for sixteen bits of information.
pub fn checkword(info: u16) -> (check: u32)
    ensures
        check == crc(info),
        check <= CHECK_MASK,
{
    let start: u32 = (info as u32) << CHECK_BITS;
    let mut register: u32 = start;
    let mut bit: u32 = 26;

    while bit > CHECK_BITS
        invariant
            CHECK_BITS <= bit <= 26,
            divide(register, bit) == divide(start, 26),
        decreases bit,
    {
        let ghost before = register;
        let ghost top = bit;
        bit = bit - 1;

        if register & (1u32 << bit) != 0 {
            register = register ^ (GENERATOR << (bit - CHECK_BITS));
        }
        assert(register == division_step(before, top));
    }
    let check = register & CHECK_MASK;
    assert(check <= CHECK_MASK) by (bit_vector)
        requires
            check == register & CHECK_MASK,
    ;
    check
}

/// Assemble a transmittable block from its information word and offset.
pub fn encode(info: u16, offset: Offset) -> (block: u32)
    ensures
        block == block_of(info, offset),
{
    let check = checkword(info) ^ offset.word();
    ((info as u32) << CHECK_BITS) | check
}

/// The information word of a received block.
pub fn information(block: u32) -> (info: u16)
    ensures
        info == info_of(block),
{
    ((block >> CHECK_BITS) & 0xFFFF) as u16
}

/// Whether a received block carries a valid checkword for `offset`.
pub fn validates(block: u32, offset: Offset) -> (valid: bool)
    ensures
        valid == valid_for(block, offset),
{
    let expected = checkword(information(block)) ^ offset.word();
    block & CHECK_MASK == expected
}

/// Which offset a received block validates against, if any: the first in
/// the order of [`Offset::all`].
pub fn identify(block: u32) -> (found: Option<Offset>)
    ensures
        match found {
            Some(offset) => valid_for(block, offset) && forall|j: int|
                0 <= j < offset_order().index_of(offset) ==> !valid_for(block, #[trigger] offset_order()[j]),
            None => forall|offset: Offset| !valid_for(block, offset),
        },
{
    let all = Offset::all();
    let mut i: usize = 0;
    while i < 5
        invariant
            all@ == offset_order(),
            0 <= i <= 5,
            forall|j: int| 0 <= j < i ==> !valid_for(block, #[trigger] offset_order()[j]),
        decreases 5 - i,
    {
        if validates(block, all[i]) {
            proof {
                lemma_offset_order_index(all[i as int]);
            }
            assert(offset_order().index_of(all[i as int]) == i);
            return Some(all[i]);
        }
        i = i + 1;
    }
    proof {
        assert forall|offset: Offset| !valid_for(block, offset) by {
            lemma_offset_order_index(offset);
        }
    }
    None
}

/// The order in which [`identify`] tries the offsets.
pub open spec fn offset_order() -> Seq<Offset> {
    seq![Offset::A, Offset::B, Offset::C, Offset::CPrime, Offset::D]
}

proof fn lemma_offset_order_index(offset: Offset)
    ensures
        0 <= offset_order().index_of(offset) < 5,
        offset_order()[offset_order().index_of(offset)] == offset,
{
    let order = offset_order();
    match offset {
        Offset::A => { assert(order[0] == offset); }
        Offset::B => { assert(order[1] == offset); }
        Offset::C => { assert(order[2] == offset); }
        Offset::CPrime => { assert(order[3] == offset); }
        Offset::D => { assert(order[4] == offset); }
    }
    assert(order.contains(offset));
}

/// The bits of `bits`, most significant first, packed into an integer.
pub open spec fn pack(bits: Seq<bool>) -> u32
    decreases bits.len(),
{
    if bits.len() == 0 {
        0
    } else {
        (pack(bits.drop_last()) << 1u32) | (if bits.last() { 1u32 } else { 0u32 })
    }
}

/// The block starting at `position`, if the stream holds all of its bits.
pub open spec fn block_at(bits: Seq<bool>, position: int) -> Option<u32> {
    if 0 <= position && position + BLOCK_BITS <= bits.len() {
        Some(pack(bits.subrange(position, position + BLOCK_BITS)))
    } else {
        None
    }
}

/// Read [`BLOCK_BITS`] bits starting at `position`, most significant first.
pub fn read_block(bits: &[bool], position: usize) -> (block: Option<u32>)
    ensures
        block == block_at(bits@, position as int),
{
    if position > bits.len() || bits.len() - position < BLOCK_BITS {
        return None;
    }
    let mut block: u32 = 0;
    let mut i: usize = 0;
    while i < BLOCK_BITS
        invariant
            position + BLOCK_BITS <= bits.len(),
            0 <= i <= BLOCK_BITS,
            block == pack(bits@.subrange(position as int, position + i)),
        decreases BLOCK_BITS - i,
    {
        let bit: u32 = if bits[position + i] { 1 } else { 0 };
        assert(bits@.subrange(position as int, position + i + 1).drop_last()
            =~= bits@.subrange(position as int, position + i));
        block = (block << 1u32) | bit;
        i = i + 1;
    }
    Some(block)
}

/// The value of `bits` read most significant first: each set bit `i` of `n`
/// is worth `2^(n - 1 - i)`.
pub open spec fn weighted(bits: Seq<bool>) -> nat
    decreases bits.len(),
{
    if bits.len() == 0 {
        0
    } else {
        (if bits[0] {
            pow2((bits.len() - 1) as nat)
        } else {
            0
        }) + weighted(bits.skip(1))
    }
}

/// One more bit at the end doubles what was read and adds the bit.
proof fn lemma_weighted_push(bits: Seq<bool>, bit: bool)
    ensures
        weighted(bits.push(bit)) == 2 * weighted(bits) + (if bit {
            1nat
        } else {
            0nat
        }),
    decreases bits.len(),
{
    lemma2_to64();
    let longer = bits.push(bit);
    if bits.len() == 0 {
        assert(longer.skip(1) =~= Seq::<bool>::empty());
        assert(weighted(longer.skip(1)) == 0);
        assert(longer[0] == bit);
        assert(weighted(bits) == 0);
    } else {
        assert(longer.skip(1) =~= bits.skip(1).push(bit));
        lemma_weighted_push(bits.skip(1), bit);
        lemma_pow2_unfold(bits.len() as nat);
        assert(longer[0] == bits[0]);
        assert(weighted(longer) == (if bits[0] {
            pow2(bits.len() as nat)
        } else {
            0
        }) + weighted(longer.skip(1)));
        assert(weighted(bits) == (if bits[0] {
            pow2((bits.len() - 1) as nat)
        } else {
            0
        }) + weighted(bits.skip(1)));
    }
}

/// Packing at most [`BLOCK_BITS`] bits gives their weighted value, which is
/// below `2^n` for `n` bits.
proof fn lemma_pack_weighted(bits: Seq<bool>)
    requires
        bits.len() <= BLOCK_BITS,
    ensures
        pack(bits) as nat == weighted(bits),
        weighted(bits) < pow2(bits.len() as nat),
    decreases bits.len(),
{
    lemma2_to64();
    if bits.len() > 0 {
        let front = bits.drop_last();
        lemma_pack_weighted(front);
        assert(bits =~= front.push(bits.last()));
        lemma_weighted_push(front, bits.last());
        lemma_pow2_unfold(bits.len() as nat);
        if front.len() < 25 {
            lemma_pow2_strictly_increases(front.len() as nat, 25);
        }
        let x = pack(front);
        let b: u32 = if bits.last() { 1 } else { 0 };
        assert(x < 0x200_0000);
        assert((x << 1u32) | b == 2 * x + b) by (bit_vector)
            requires
                x < 0x200_0000,
                b <= 1,
        ;
    }
}

/// A block read at `position` is there exactly when the stream holds all
/// [`BLOCK_BITS`] of its bits, and is then the sum of their weights, the
/// first bit worth `2^25`, so below `2^26`.
pub proof fn lemma_block_is_weighted_sum(bits: Seq<bool>, position: int)
    ensures
        block_at(bits, position) is Some <==> 0 <= position && position + BLOCK_BITS <= bits.len(),
        block_at(bits, position) matches Some(block) ==> block as nat == weighted(
            bits.subrange(position, position + BLOCK_BITS),
        ) && block < pow2(BLOCK_BITS as nat),
{
    if 0 <= position && position + BLOCK_BITS <= bits.len() {
        lemma_pack_weighted(bits.subrange(position, position + BLOCK_BITS));
    }
}

/// The data bits a differentially encoded stream carries: each bit is the
/// change from the previous transmitted bit, the first compared against zero.
pub open spec fn differential(transmitted: Seq<bool>) -> Seq<bool> {
    Seq::new(
        transmitted.len(),
        |i: int| transmitted[i] != (if i == 0 { false } else { transmitted[i - 1] }),
    )
}

/// Undo the differential encoding RDS applies before biphase modulation.
pub fn differential_decode(transmitted: &[bool]) -> (decoded: Vec<bool>)
    ensures
        decoded@ == differential(transmitted@),
{
    let mut previous = false;
    let mut decoded: Vec<bool> = Vec::new();
    let mut i: usize = 0;
    while i < transmitted.len()
        invariant
            0 <= i <= transmitted@.len(),
            decoded@.len() == i,
            previous == (if i == 0 { false } else { transmitted@[i - 1] }),
            forall|j: int| 0 <= j < i ==> #[trigger] decoded@[j] == differential(transmitted@)[j],
        decreases transmitted@.len() - i,
    {
        let bit = transmitted[i];
        decoded.push(bit != previous);
        previous = bit;
        i = i + 1;
    }
    assert(decoded@ =~= differential(transmitted@));
    decoded
}

/// Whether `block` validates against an offset allowed at `index` within a group.
pub open spec fn fits_at(block: u32, index: int) -> bool {
    let slot = index % (GROUP_BLOCKS as int);
    if slot == 0 {
        valid_for(block, Offset::A)
    } else if slot == 1 {
        valid_for(block, Offset::B)
    } else if slot == 2 {
        valid_for(block, Offset::C) || valid_for(block, Offset::CPrime)
    } else {
        valid_for(block, Offset::D)
    }
}

/// Whether the `index`-th block after `start` is present and validates where it stands.
pub open spec fn block_ok(bits: Seq<bool>, start: int, index: int) -> bool {
    match block_at(bits, start + index * (BLOCK_BITS as int)) {
        Some(block) => fits_at(block, index),
        None => false,
    }
}

/// Whether [`SYNC_GROUPS`] whole groups validate back to back from `start`.
pub open spec fn synced_at(bits: Seq<bool>, start: int) -> bool {
    forall|index: int|
        0 <= index < (SYNC_GROUPS * GROUP_BLOCKS) as int ==> #[trigger] block_ok(bits, start, index)
}

/// The first group alignment at or after `from`, within one group stride,
/// from which the stream synchronises.
pub open spec fn first_sync(bits: Seq<bool>, from: int) -> Option<int>
    decreases (BLOCK_BITS * GROUP_BLOCKS) as int - from,
{
    if from < 0 || from >= (BLOCK_BITS * GROUP_BLOCKS) as int {
        None
    } else if synced_at(bits, from) {
        Some(from)
    } else {
        first_sync(bits, from + 1)
    }
}

/// The first synchronising alignment at or after `from`, if any, lies
/// within one group stride and does synchronise.
pub proof fn lemma_first_sync_range(bits: Seq<bool>, from: int)
    ensures
        first_sync(bits, from) matches Some(s) ==> from <= s < (BLOCK_BITS * GROUP_BLOCKS) as int
            && synced_at(bits, s),
    decreases (BLOCK_BITS * GROUP_BLOCKS) as int - from,
{
    if 0 <= from < (BLOCK_BITS * GROUP_BLOCKS) as int && !synced_at(bits, from) {
        lemma_first_sync_range(bits, from + 1);
    }
}

/// Of the first `count` blocks after `start`, how many validate where they stand.
pub open spec fn good_blocks(bits: Seq<bool>, start: int, count: int) -> nat
    decreases count,
{
    if count <= 0 {
        0
    } else {
        good_blocks(bits, start, count - 1) + if block_ok(bits, start, count - 1) {
            1nat
        } else {
            0nat
        }
    }
}

/// How many whole blocks the stream holds from `start` on.
pub open spec fn blocks_from(bits: Seq<bool>, start: int) -> int {
    (bits.len() - start) / (BLOCK_BITS as int)
}

/// Whether `block` validates against any offset allowed at `index` within a group.
fn fits_position(block: u32, index: usize) -> (fits: bool)
    ensures
        fits == fits_at(block, index as int),
{
    let offsets = Offset::at_position(index);
    let mut i: usize = 0;
    while i < offsets.len()
        invariant
            0 <= i <= offsets@.len(),
            forall|o: Offset| offsets@.contains(o) <==> o.fits_position(index as int),
            forall|j: int| 0 <= j < i ==> !valid_for(block, #[trigger] offsets@[j]),
        decreases offsets@.len() - i,
    {
        if validates(block, offsets[i]) {
            assert(offsets@.contains(offsets@[i as int]));
            assert(offsets@[i as int].fits_position(index as int));
            proof {
                match offsets@[i as int] {
                    Offset::A => {},
                    Offset::B => {},
                    Offset::C => {},
                    Offset::CPrime => {},
                    Offset::D => {},
                }
            }
            return true;
        }
        i = i + 1;
    }
    proof {
        let slot = index % GROUP_BLOCKS;
        let candidate = if slot == 0 {
            Offset::A
        } else if slot == 1 {
            Offset::B
        } else if slot == 2 {
            Offset::C
        } else {
            Offset::D
        };
        assert(candidate.fits_position(index as int));
        assert(offsets@.contains(candidate));
        if slot == 2 {
            assert(Offset::CPrime.fits_position(index as int));
            assert(offsets@.contains(Offset::CPrime));
        }
    }
    false
}

/// Whether the stream synchronises at `start`.
fn synchronises_at(bits: &[bool], start: usize) -> (synced: bool)
    requires
        start < BLOCK_BITS * GROUP_BLOCKS,
    ensures
        synced == synced_at(bits@, start as int),
{
    let mut index: usize = 0;
    while index < SYNC_GROUPS * GROUP_BLOCKS
        invariant
            start < BLOCK_BITS * GROUP_BLOCKS,
            0 <= index <= SYNC_GROUPS * GROUP_BLOCKS,
            forall|j: int| 0 <= j < index ==> #[trigger] block_ok(bits@, start as int, j),
        decreases SYNC_GROUPS * GROUP_BLOCKS - index,
    {
        let position = start + index * BLOCK_BITS;
        let ok = match read_block(bits, position) {
            Some(block) => fits_position(block, index),
            None => false,
        };
        if !ok {
            assert(!block_ok(bits@, start as int, index as int));
            return false;
        }
        index = index + 1;
    }
    true
}

/// Where a bitstream's group structure starts, if it has one: the first
/// alignment within one group stride from which two whole groups validate.
pub fn find_sync(bits: &[bool]) -> (start: Option<usize>)
    ensures
        match first_sync(bits@, 0) {
            Some(s) => start == Some(s as usize),
            None => start is None,
        },
        start matches Some(s) ==> s < BLOCK_BITS * GROUP_BLOCKS && synced_at(bits@, s as int),
{
    let stride = BLOCK_BITS * GROUP_BLOCKS;
    let mut start: usize = 0;
    while start < stride
        invariant
            stride == BLOCK_BITS * GROUP_BLOCKS,
            0 <= start <= stride,
            first_sync(bits@, 0) == first_sync(bits@, start as int),
        decreases stride - start,
    {
        if synchronises_at(bits, start) {
            return Some(start);
        }
        start = start + 1;
    }
    None
}

/// One decode of a bitstream: how many blocks were read and how many failed.
#[derive(Debug, Clone, Copy, PartialEq, Eq, Structural)]
pub struct Decode {
    /// Blocks that passed the CRC.
    pub good: u64,
    /// Blocks that failed the CRC.
    pub bad: u64,
}

impl Decode {
    /// Total blocks read, saturating at `u64::MAX`.
    pub fn total(&self) -> (total: u64)
        ensures
            total == if self.good + self.bad > u64::MAX {
                u64::MAX as int
            } else {
                self.good + self.bad
            },
    {
        self.good.saturating_add(self.bad)
    }

    /// The failed blocks over all blocks read, as numerator and denominator,
    /// or `None` when nothing was read; the quotient is the demodulation
    /// error rate.
    pub fn error_fraction(&self) -> (fraction: Option<(u64, u64)>)
        ensures
            self.good as int + self.bad as int == 0 ==> fraction is None,
            self.good as int + self.bad as int > 0 ==> fraction == Some((self.bad, self.total_of())),
    {
        let total = self.total();
        if total == 0 {
            None
        } else {
            Some((self.bad, total))
        }
    }

    pub open spec fn total_of(&self) -> u64 {
        if self.good + self.bad > u64::MAX {
            u64::MAX
        } else {
            (self.good + self.bad) as u64
        }
    }
}

impl Default for Decode {
    /// Nothing read.
    fn default() -> (nothing: Decode)
        ensures
            nothing.good == 0 && nothing.bad == 0,
    {
        Decode { good: 0, bad: 0 }
    }
}

/// Decode a bitstream from its group alignment onwards: every whole block
/// after the synchronisation point is counted as good or bad by whether it
/// validates against an offset allowed where it stands.
pub fn decode(bits: &[bool]) -> (result: Option<Decode>)
    ensures
        match first_sync(bits@, 0) {
            None => result is None,
            Some(s) => result == Some(
                Decode {
                    good: good_blocks(bits@, s, blocks_from(bits@, s)) as u64,
                    bad: (blocks_from(bits@, s) - good_blocks(bits@, s, blocks_from(bits@, s))) as u64,
                },
            ),
        },
{
    let start = match find_sync(bits) {
        Some(start) => start,
        None => return None,
    };
    proof {
        lemma_first_sync_range(bits@, 0);
    }
    assert(block_ok(bits@, start as int, 0));
    let mut good: u64 = 0;
    let mut bad: u64 = 0;
    let mut index: usize = 0;
    let mut position: usize = start;
    loop
        invariant
            start < BLOCK_BITS * GROUP_BLOCKS,
            position == start + index * BLOCK_BITS,
            position <= bits@.len(),
            good == good_blocks(bits@, start as int, index as int),
            good + bad == index,
            index <= bits@.len(),
        ensures
            block_at(bits@, position as int) is None,
            position == start + index * BLOCK_BITS,
            position <= bits@.len(),
            good == good_blocks(bits@, start as int, index as int),
            good + bad == index,
        decreases bits@.len() + BLOCK_BITS - position,
    {
        let block = match read_block(bits, position) {
            Some(block) => block,
            None => break,
        };
        assert(position + BLOCK_BITS <= bits.len());
        if fits_position(block, index) {
            good = good + 1;
        } else {
            bad = bad + 1;
        }
        assert(block_ok(bits@, start as int, index as int) == fits_at(block, index as int));
        index = index + 1;
        position = position + BLOCK_BITS;
    }
    proof {
        let len = bits@.len() as int;
        let s = start as int;
        let i = index as int;
        assert(s + i * 26 + 26 > len);
        assert(s + i * 26 <= len);
        assert((len - s) / 26 == i) by (nonlinear_arith)
            requires
                i * 26 <= len - s,
                len - s < i * 26 + 26,
        ;
    }
    Some(Decode { good, bad })
}

proof fn lemma_step_linear(a: u32, b: u32, bit: u32)
    requires
        CHECK_BITS < bit <= 26,
    ensures
        division_step(a ^ b, bit) == division_step(a, bit) ^ division_step(b, bit),
{
    let low = (bit - 1) as u32;
    let shift = ((bit - 1) - CHECK_BITS) as u32;
    assert(low < 26 && shift < 16);
    assert((if (a ^ b) & (1u32 << low) != 0 { (a ^ b) ^ (0x5B9u32 << shift) } else { a ^ b })
        == (if a & (1u32 << low) != 0 { a ^ (0x5B9u32 << shift) } else { a }) ^ (if b & (1u32
        << low) != 0 { b ^ (0x5B9u32 << shift) } else { b })) by (bit_vector)
        requires
            low < 26,
            shift < 16,
    ;
}

proof fn lemma_divide_linear(a: u32, b: u32, bit: u32)
    requires
        bit <= 26,
    ensures
        divide(a ^ b, bit) == divide(a, bit) ^ divide(b, bit),
    decreases bit,
{
    if bit > CHECK_BITS {
        lemma_step_linear(a, b, bit);
        lemma_divide_linear(division_step(a, bit), division_step(b, bit), (bit - 1) as u32);
    }
}

/// The checkword is linear: the checkword of the sum (exclusive or) of two
/// information words is the sum of their checkwords.
pub proof fn lemma_checkword_linear(a: u16, b: u16)
    ensures
        crc(a ^ b) == crc(a) ^ crc(b),
{
    let sa = (a as u32) << CHECK_BITS;
    let sb = (b as u32) << CHECK_BITS;
    let sab = ((a ^ b) as u32) << CHECK_BITS;
    assert(sab == sa ^ sb) by (bit_vector)
        requires
            sa == (a as u32) << 10u32,
            sb == (b as u32) << 10u32,
            sab == ((a ^ b) as u32) << 10u32,
    ;
    lemma_divide_linear(sa, sb, 26);
    let da = divide(sa, 26);
    let db = divide(sb, 26);
    assert((da ^ db) & 0x3FFu32 == (da & 0x3FFu32) ^ (db & 0x3FFu32)) by (bit_vector);
}

/// The empty information word has the empty checkword.
pub proof fn lemma_checkword_of_zero()
    ensures
        crc(0) == 0,
{
    lemma_checkword_linear(0, 0);
    assert(0u16 ^ 0u16 == 0u16) by (bit_vector);
    let c = crc(0);
    assert(c ^ c == 0u32) by (bit_vector);
}

/// An encoded block carries its information word unchanged and validates
/// against the offset it was encoded with.
pub proof fn lemma_encode_round_trip(info: u16, offset: Offset)
    ensures
        info_of(block_of(info, offset)) == info,
        valid_for(block_of(info, offset), offset),
{
    let c = crc(info);
    let w = offset.word_of();
    let d = divide((info as u32) << CHECK_BITS, 26);
    assert(c <= 0x3FF) by (bit_vector)
        requires
            c == d & 0x3FFu32,
    ;
    let block = ((info as u32) << 10u32) | (c ^ w);
    assert(((block >> 10u32) & 0xFFFFu32) as u16 == info && block & 0x3FFu32 == c ^ w) by (bit_vector)
        requires
            block == ((info as u32) << 10u32) | (c ^ w),
            c <= 0x3FF,
            w <= 0x3FF,
    ;
}

/// A block validates against at most one offset word.
pub proof fn lemma_offsets_exclusive(block: u32, first: Offset, second: Offset)
    requires
        valid_for(block, first),
        valid_for(block, second),
    ensures
        first == second,
{
    let c = crc(info_of(block));
    let w1 = first.word_of();
    let w2 = second.word_of();
    assert(c ^ w1 == c ^ w2 ==> w1 == w2) by (bit_vector);
}

proof fn lemma_unit_checkwords_nonzero(j: u32)
    requires
        j < INFO_BITS,
    ensures
        crc((1u16 << j) as u16) != 0,
{
    assert(crc(0x1u16) != 0 && crc(0x2u16) != 0 && crc(0x4u16) != 0 && crc(0x8u16) != 0 && crc(0x10u16) != 0 && crc(0x20u16) != 0 && crc(0x40u16) != 0 && crc(0x80u16) != 0 && crc(0x100u16) != 0 && crc(0x200u16) != 0 && crc(0x400u16) != 0 && crc(0x800u16) != 0 && crc(0x1000u16) != 0 && crc(0x2000u16) != 0 && crc(0x4000u16) != 0 && crc(0x8000u16) != 0) by (bit_vector);
    let x = (1u16 << j) as u16;
    assert(x == 0x1u16 || x == 0x2u16 || x == 0x4u16 || x == 0x8u16 || x == 0x10u16 || x == 0x20u16 || x == 0x40u16 || x == 0x80u16 || x == 0x100u16 || x == 0x200u16 || x == 0x400u16 || x == 0x800u16 || x == 0x1000u16 || x == 0x2000u16 || x == 0x4000u16 || x == 0x8000u16) by (bit_vector)
        requires
            x == (1u16 << j) as u16,
            j < 16,
    ;
}

/// Flipping any single bit of a valid block makes it fail its checkword.
pub proof fn lemma_single_bit_error_detected(info: u16, offset: Offset, position: u32)
    requires
        position < BLOCK_BITS,
    ensures
        !valid_for(block_of(info, offset) ^ (1u32 << position), offset),
{
    lemma_encode_round_trip(info, offset);
    let block = block_of(info, offset);
    let corrupted = block ^ (1u32 << position);
    let c = crc(info);
    let w = offset.word_of();
    if position < CHECK_BITS {
        assert(((corrupted >> 10u32) & 0xFFFFu32) as u16 == ((block >> 10u32) & 0xFFFFu32) as u16
            && corrupted & 0x3FFu32 != block & 0x3FFu32) by (bit_vector)
            requires
                corrupted == block ^ (1u32 << position),
                position < 10,
        ;
    } else {
        let j = (position - CHECK_BITS) as u32;
        let flipped = info ^ ((1u16 << j) as u16);
        assert(((corrupted >> 10u32) & 0xFFFFu32) as u16 == info ^ ((1u16 << j) as u16)
            && corrupted & 0x3FFu32 == block & 0x3FFu32) by (bit_vector)
            requires
                corrupted == block ^ (1u32 << position),
                ((block >> 10u32) & 0xFFFFu32) as u16 == info,
                10 <= position < 26,
                j == position - 10,
        ;
        lemma_checkword_linear(info, (1u16 << j) as u16);
        lemma_unit_checkwords_nonzero(j);
        let e = crc((1u16 << j) as u16);
        assert(c ^ e != c) by (bit_vector)
            requires
                e != 0,
        ;
        assert(c ^ e ^ w != c ^ w) by (bit_vector)
            requires
                c ^ e != c,
        ;
    }
}

/// The differential encoding RDS applies before biphase modulation: each
/// transmitted bit is the data bit added to the previous transmitted bit.
pub open spec fn differential_encoding(data: Seq<bool>) -> Seq<bool>
    decreases data.len(),
{
    if data.len() == 0 {
        seq![]
    } else {
        let sent = differential_encoding(data.drop_last());
        let previous = if sent.len() == 0 { false } else { sent.last() };
        sent.push(data.last() != previous)
    }
}

/// Every bit of a stream inverted, as a receiver locked onto the opposite
/// phase of the subcarrier sees it.
pub open spec fn inverted(bits: Seq<bool>) -> Seq<bool> {
    Seq::new(bits.len(), |i: int| !bits[i])
}

#[verifier::spinoff_prover]
proof fn lemma_encoding_shape(data: Seq<bool>)
    ensures
        differential_encoding(data).len() == data.len(),
        forall|i: int|
            0 <= i < data.len() ==> #[trigger] differential_encoding(data)[i] == (data[i] != (if i
                == 0 {
                false
            } else {
                differential_encoding(data)[i - 1]
            })),
    decreases data.len(),
{
    if data.len() > 0 {
        let rest = data.drop_last();
        lemma_encoding_shape(rest);
        let earlier = differential_encoding(rest);
        let previous = if earlier.len() == 0 { false } else { earlier.last() };
        let sent = differential_encoding(data);
        assert(sent == earlier.push(data.last() != previous));
        assert forall|i: int| 0 <= i < data.len() implies #[trigger] sent[i] == (data[i] != (if i
            == 0 {
            false
        } else {
            sent[i - 1]
        })) by {
            if i < data.len() - 1 {
                assert(sent[i] == earlier[i]);
                assert(rest[i] == data[i]);
                if i > 0 {
                    assert(sent[i - 1] == earlier[i - 1]);
                }
            } else {
                assert(sent[i] == (data.last() != previous));
                if i > 0 {
                    assert(sent[i - 1] == earlier[i - 1]);
                }
            }
        }
    }
}

/// Decoding undoes the differential encoding exactly.
pub proof fn lemma_differential_round_trip(data: Seq<bool>)
    ensures
        differential(differential_encoding(data)) == data,
{
    lemma_encoding_shape(data);
    assert(differential(differential_encoding(data)) =~= data);
}

/// A stream received with its phase inverted decodes to the same data after
/// the first bit.
pub proof fn lemma_differential_ignores_inversion(transmitted: Seq<bool>)
    ensures
        differential(inverted(transmitted)).len() == transmitted.len(),
        forall|i: int|
            1 <= i < transmitted.len() ==> #[trigger] differential(inverted(transmitted))[i]
                == differential(transmitted)[i],
        transmitted.len() > 0 ==> differential(inverted(transmitted))[0] != differential(transmitted)[0],
{
}

/// The lowest `n` bits of `value`, most significant first: how a block goes
/// out on the air.
pub open spec fn bits_of(value: u32, n: nat) -> Seq<bool>
    decreases n,
{
    if n == 0 {
        Seq::empty()
    } else {
        bits_of(value / 2, (n - 1) as nat).push(value % 2 == 1)
    }
}

/// Blocks sent back to back, each as its [`BLOCK_BITS`] bits.
pub open spec fn stream_of(blocks: Seq<u32>) -> Seq<bool>
    decreases blocks.len(),
{
    if blocks.len() == 0 {
        Seq::empty()
    } else {
        stream_of(blocks.drop_last()) + bits_of(blocks.last(), BLOCK_BITS as nat)
    }
}

proof fn lemma_bits_of_len(value: u32, n: nat)
    ensures
        bits_of(value, n).len() == n,
    decreases n,
{
    if n > 0 {
        lemma_bits_of_len(value / 2, (n - 1) as nat);
    }
}

/// Packing the lowest `n` bits of a value below `2^n` gives it back.
proof fn lemma_pack_bits_of(value: u32, n: nat)
    requires
        value < pow2(n),
    ensures
        pack(bits_of(value, n)) == value,
    decreases n,
{
    if n == 0 {
        lemma2_to64();
    } else {
        lemma_pow2_unfold(n);
        lemma_pack_bits_of(value / 2, (n - 1) as nat);
        let front = bits_of(value / 2, (n - 1) as nat);
        let whole = bits_of(value, n);
        assert(whole.drop_last() =~= front);
        let half = value / 2;
        let bit: u32 = if value % 2 == 1 { 1 } else { 0 };
        assert(bit == value % 2);
        assert((half << 1u32) | bit == value) by (bit_vector)
            requires
                half == value / 2,
                bit == value % 2,
        ;
    }
}

proof fn lemma_stream_len(blocks: Seq<u32>)
    ensures
        stream_of(blocks).len() == BLOCK_BITS * blocks.len(),
    decreases blocks.len(),
{
    if blocks.len() > 0 {
        lemma_stream_len(blocks.drop_last());
        lemma_bits_of_len(blocks.last(), BLOCK_BITS as nat);
    }
}

/// Block `k` of a stream sits at bit `26 * k`.
proof fn lemma_stream_block(blocks: Seq<u32>, k: int)
    requires
        0 <= k < blocks.len(),
    ensures
        stream_of(blocks).subrange(BLOCK_BITS * k, BLOCK_BITS * k + BLOCK_BITS) == bits_of(
            blocks[k],
            BLOCK_BITS as nat,
        ),
    decreases blocks.len(),
{
    let front = blocks.drop_last();
    lemma_stream_len(front);
    lemma_bits_of_len(blocks.last(), BLOCK_BITS as nat);
    let whole = stream_of(blocks);
    let head = stream_of(front);
    if k == blocks.len() - 1 {
        assert(whole.subrange(BLOCK_BITS * k, BLOCK_BITS * k + BLOCK_BITS) =~= bits_of(
            blocks.last(),
            BLOCK_BITS as nat,
        ));
    } else {
        lemma_stream_block(front, k);
        assert(BLOCK_BITS * k + BLOCK_BITS <= BLOCK_BITS * front.len()) by (nonlinear_arith)
            requires
                k + 1 <= front.len(),
        ;
        assert(whole.subrange(BLOCK_BITS * k, BLOCK_BITS * k + BLOCK_BITS) =~= head.subrange(
            BLOCK_BITS * k,
            BLOCK_BITS * k + BLOCK_BITS,
        ));
    }
}

/// Reading block `k` of a stream gives the block sent, when it fits in
/// [`BLOCK_BITS`] bits.
proof fn lemma_stream_reads_back(blocks: Seq<u32>, k: int)
    requires
        0 <= k < blocks.len(),
        blocks[k] < 0x400_0000,
    ensures
        block_at(stream_of(blocks), BLOCK_BITS * k) == Some(blocks[k]),
{
    lemma_stream_len(blocks);
    lemma_stream_block(blocks, k);
    assert(BLOCK_BITS * k + BLOCK_BITS <= BLOCK_BITS * blocks.len()) by (nonlinear_arith)
        requires
            k + 1 <= blocks.len(),
    ;
    lemma2_to64();
    lemma_pack_bits_of(blocks[k], BLOCK_BITS as nat);
}

/// The block sent at index `k` of a clean stream: its information word under
/// the first offset allowed where it stands.
pub open spec fn clean_block(info: u16, k: int) -> u32 {
    block_of(info, Offset::offsets_at(k % (GROUP_BLOCKS as int))[0])
}

/// Blocks carrying `infos`, each under the first offset allowed where it
/// stands, the first at the start of a group; where `flips` names a bit,
/// that bit of the block is inverted on the way.
pub open spec fn received_blocks(infos: Seq<u16>, flips: Seq<Option<u32>>) -> Seq<u32> {
    Seq::new(
        infos.len(),
        |k: int|
            match flips[k] {
                Some(bit) => clean_block(infos[k], k) ^ (1u32 << bit),
                None => clean_block(infos[k], k),
            },
    )
}

/// No block altered.
pub open spec fn no_flips(n: nat) -> Seq<Option<u32>> {
    Seq::new(n, |k: int| None::<u32>)
}

/// Of the first `count` blocks, how many came through unaltered.
pub open spec fn intact(flips: Seq<Option<u32>>, count: int) -> nat
    decreases count,
{
    if count <= 0 {
        0
    } else {
        intact(flips, count - 1) + if flips[count - 1] is None {
            1nat
        } else {
            0nat
        }
    }
}

/// Whether every altered block has exactly one of its bits inverted.
pub open spec fn single_flips(flips: Seq<Option<u32>>) -> bool {
    forall|k: int| 0 <= k < flips.len() ==> (#[trigger] flips[k] matches Some(bit) ==> bit < BLOCK_BITS)
}

proof fn lemma_block_fits_bits(info: u16, offset: Offset, bit: u32)
    requires
        bit < BLOCK_BITS,
    ensures
        block_of(info, offset) < 0x400_0000,
        block_of(info, offset) ^ (1u32 << bit) < 0x400_0000,
{
    let c = crc(info);
    let d = divide((info as u32) << CHECK_BITS, 26);
    let w = offset.word_of();
    assert(c <= 0x3FF) by (bit_vector)
        requires
            c == d & 0x3FFu32,
    ;
    let block = ((info as u32) << 10u32) | (c ^ w);
    assert(block < 0x400_0000 && block ^ (1u32 << bit) < 0x400_0000) by (bit_vector)
        requires
            block == ((info as u32) << 10u32) | (c ^ w),
            c <= 0x3FF,
            w <= 0x3FF,
            bit < 26,
    ;
}

/// A block encoded under C with one bit inverted does not pass as C' either.
proof fn lemma_flip_is_not_c_prime(info: u16, bit: u32)
    requires
        bit < BLOCK_BITS,
    ensures
        !valid_for(block_of(info, Offset::C) ^ (1u32 << bit), Offset::CPrime),
{
    lemma_encode_round_trip(info, Offset::C);
    let block = block_of(info, Offset::C);
    let corrupted = block ^ (1u32 << bit);
    let c = crc(info);
    if bit < CHECK_BITS {
        assert(((corrupted >> 10u32) & 0xFFFFu32) as u16 == ((block >> 10u32) & 0xFFFFu32) as u16
            && corrupted & 0x3FFu32 == (block & 0x3FFu32) ^ (1u32 << bit)) by (bit_vector)
            requires
                corrupted == block ^ (1u32 << bit),
                bit < 10,
        ;
        assert((c ^ 0x168u32) ^ (1u32 << bit) != c ^ 0x350u32) by (bit_vector)
            requires
                bit < 10,
        ;
    } else {
        let j = (bit - CHECK_BITS) as u32;
        assert(((corrupted >> 10u32) & 0xFFFFu32) as u16 == info ^ ((1u16 << j) as u16)
            && corrupted & 0x3FFu32 == block & 0x3FFu32) by (bit_vector)
            requires
                corrupted == block ^ (1u32 << bit),
                ((block >> 10u32) & 0xFFFFu32) as u16 == info,
                10 <= bit < 26,
                j == bit - 10,
        ;
        lemma_checkword_linear(info, (1u16 << j) as u16);
        assert(crc(0x1u16) != 0x238 && crc(0x2u16) != 0x238 && crc(0x4u16) != 0x238 && crc(0x8u16) != 0x238 && crc(0x10u16) != 0x238 && crc(0x20u16) != 0x238 && crc(0x40u16) != 0x238 && crc(0x80u16) != 0x238 && crc(0x100u16) != 0x238 && crc(0x200u16) != 0x238 && crc(0x400u16) != 0x238 && crc(0x800u16) != 0x238 && crc(0x1000u16) != 0x238 && crc(0x2000u16) != 0x238 && crc(0x4000u16) != 0x238 && crc(0x8000u16) != 0x238) by (bit_vector);
        let x = (1u16 << j) as u16;
        assert(x == 0x1u16 || x == 0x2u16 || x == 0x4u16 || x == 0x8u16 || x == 0x10u16 || x == 0x20u16 || x == 0x40u16 || x == 0x80u16 || x == 0x100u16 || x == 0x200u16 || x == 0x400u16 || x == 0x800u16 || x == 0x1000u16 || x == 0x2000u16 || x == 0x4000u16 || x == 0x8000u16) by (bit_vector)
            requires
                x == (1u16 << j) as u16,
                j < 16,
        ;
        let e = crc(x);
        assert(c ^ 0x168u32 != (c ^ e) ^ 0x350u32) by (bit_vector)
            requires
                e != 0x238,
        ;
    }
}

/// Where block `k` of a received stream stands, it validates exactly when
/// it came through unaltered.
proof fn lemma_received_block_ok(infos: Seq<u16>, flips: Seq<Option<u32>>, k: int)
    requires
        flips.len() == infos.len(),
        single_flips(flips),
        0 <= k < infos.len(),
    ensures
        block_ok(stream_of(received_blocks(infos, flips)), 0, k) == (flips[k] is None),
{
    let blocks = received_blocks(infos, flips);
    let slot = k % (GROUP_BLOCKS as int);
    let offset = Offset::offsets_at(slot)[0];
    let bit: u32 = match flips[k] {
        Some(b) => b,
        None => 0,
    };
    assert(flips[k] matches Some(b) ==> b < BLOCK_BITS);
    lemma_block_fits_bits(infos[k], offset, bit);
    lemma_stream_reads_back(blocks, k);
    assert(0 + k * (BLOCK_BITS as int) == BLOCK_BITS * k);
    lemma_encode_round_trip(infos[k], offset);
    match flips[k] {
        None => {},
        Some(b) => {
            lemma_single_bit_error_detected(infos[k], offset, b);
            if slot == 2 {
                lemma_flip_is_not_c_prime(infos[k], b);
            }
        },
    }
}

/// A clean stream of at least two groups, starting on a group boundary,
/// synchronises at its very first bit.
pub proof fn lemma_clean_stream_syncs_at_start(infos: Seq<u16>)
    requires
        infos.len() >= (SYNC_GROUPS * GROUP_BLOCKS) as int,
    ensures
        first_sync(stream_of(received_blocks(infos, no_flips(infos.len()))), 0) == Some(0int),
{
    lemma_altered_stream_syncs_at_start(infos, no_flips(infos.len()));
}

/// A stream whose first two groups arrive clean synchronises at its first
/// bit, whatever single-bit errors later blocks carry.
pub proof fn lemma_altered_stream_syncs_at_start(infos: Seq<u16>, flips: Seq<Option<u32>>)
    requires
        infos.len() >= (SYNC_GROUPS * GROUP_BLOCKS) as int,
        flips.len() == infos.len(),
        single_flips(flips),
        forall|k: int| 0 <= k < (SYNC_GROUPS * GROUP_BLOCKS) as int ==> #[trigger] flips[k] is None,
    ensures
        first_sync(stream_of(received_blocks(infos, flips)), 0) == Some(0int),
{
    let bits = stream_of(received_blocks(infos, flips));
    assert forall|index: int| 0 <= index < (SYNC_GROUPS * GROUP_BLOCKS) as int implies #[trigger] block_ok(
        bits,
        0,
        index,
    ) by {
        lemma_received_block_ok(infos, flips, index);
    }
    assert(synced_at(bits, 0));
}

/// Of the first `count` blocks of a received stream, those that validate
/// are the unaltered ones.
proof fn lemma_good_are_intact(infos: Seq<u16>, flips: Seq<Option<u32>>, count: int)
    requires
        flips.len() == infos.len(),
        single_flips(flips),
        0 <= count <= infos.len(),
    ensures
        good_blocks(stream_of(received_blocks(infos, flips)), 0, count) == intact(flips, count),
    decreases count,
{
    if count > 0 {
        lemma_good_are_intact(infos, flips, count - 1);
        lemma_received_block_ok(infos, flips, count - 1);
    }
}

/// A stream whose first two groups arrive clean, each later block either
/// clean or with one bit inverted, decodes from its first bit, reading every
/// block: the unaltered blocks count as good and the altered ones as bad.
pub proof fn lemma_decode_counts_altered_blocks(infos: Seq<u16>, flips: Seq<Option<u32>>)
    requires
        infos.len() >= (SYNC_GROUPS * GROUP_BLOCKS) as int,
        flips.len() == infos.len(),
        single_flips(flips),
        forall|k: int| 0 <= k < (SYNC_GROUPS * GROUP_BLOCKS) as int ==> #[trigger] flips[k] is None,
    ensures
        first_sync(stream_of(received_blocks(infos, flips)), 0) == Some(0int),
        blocks_from(stream_of(received_blocks(infos, flips)), 0) == infos.len(),
        good_blocks(
            stream_of(received_blocks(infos, flips)),
            0,
            blocks_from(stream_of(received_blocks(infos, flips)), 0),
        ) == intact(flips, infos.len() as int),
{
    lemma_altered_stream_syncs_at_start(infos, flips);
    lemma_stream_len(received_blocks(infos, flips));
    assert((BLOCK_BITS * infos.len()) as int / (BLOCK_BITS as int) == infos.len()) by (nonlinear_arith);
    lemma_good_are_intact(infos, flips, infos.len() as int);
}

} // verus!
