//! What a card says of itself, what is on it, and how fast it reads.

use vstd::prelude::*;
use vstd::string::*;
use vstd::wrapping::u32_specs::wrapping_mul;
use crate::text::{text_or, utf8_or};

verus! {

/// How deep a walk goes.
pub const MAX_DEPTH: usize = 4;

/// How many entries a walk prints.
pub const MAX_ENTRIES: usize = 300;

/// Bytes read for each figure.
pub const MEASURE_BYTES: usize = 262_144;

/// Blocks read for each figure.
pub const MEASURE_BLOCKS: u32 = 512;

/// Blocks in the longest run that is read at once.
pub const RUN_BLOCKS: u32 = 8;

/// A byte folded into a checksum.
pub open spec fn folded(sum: u32, byte: u8) -> u32 {
    wrapping_mul(sum ^ (byte as u32), 0x0100_0193)
}

/// The checksum of bytes, one after another from the seed on.
pub open spec fn checksum_spec(seed: u32, bytes: Seq<u8>) -> u32
    decreases bytes.len(),
{
    if bytes.len() == 0 {
        seed
    } else {
        folded(checksum_spec(seed, bytes.drop_last()), bytes.last())
    }
}

/// A checksum that notices a byte in the wrong place, which a plain sum does not.
pub fn checksum(seed: u32, bytes: &[u8]) -> (r: u32)
    ensures
        r == checksum_spec(seed, bytes@),
{
    let mut sum: u32 = seed;
    let mut i: usize = 0;
    assert(bytes@.take(0) =~= Seq::<u8>::empty());
    while i < bytes.len()
        invariant
            i <= bytes.len(),
            sum == checksum_spec(seed, bytes@.take(i as int)),
        decreases bytes.len() - i,
    {
        assert(bytes@.take(i + 1).drop_last() =~= bytes@.take(i as int));
        sum = (sum ^ (bytes[i] as u32)).wrapping_mul(0x0100_0193);
        i = i + 1;
    }
    assert(bytes@.take(i as int) =~= bytes@);
    sum
}

/// A checksum does not depend on how the bytes were cut into pieces: the sum of the first piece
/// is the seed for the next.
pub proof fn checksum_joins_pieces(seed: u32, a: Seq<u8>, b: Seq<u8>)
    ensures
        checksum_spec(seed, a + b) == checksum_spec(checksum_spec(seed, a), b),
    decreases b.len(),
{
    if b.len() == 0 {
        assert(a + b =~= a);
    } else {
        checksum_joins_pieces(seed, a, b.drop_last());
        assert((a + b).drop_last() =~= a + b.drop_last());
        assert((a + b).last() == b.last());
    }
}

/// Multiplying by the checksum's factor, which is odd, loses nothing: two numbers never come to
/// the same one.
proof fn factor_keeps_apart(x: u32, y: u32)
    requires
        wrapping_mul(x, 0x0100_0193) == wrapping_mul(y, 0x0100_0193),
    ensures
        x == y,
{
    let range = 0x1_0000_0000int;
    let i = x * 0x0100_0193 / range;
    let j = y * 0x0100_0193 / range;
    // The factor times 899433627 is one more than 3513497 times the range.
    let turns = 899433627 * (i - j) - 3513497 * (x - y);
    assert((x - y) * 0x0100_0193 == range * (i - j));
    assert(x - y == range * turns);
}

proof fn sums_stay_apart(a: u32, b: u32, bytes: Seq<u8>)
    requires
        a != b,
    ensures
        checksum_spec(a, bytes) != checksum_spec(b, bytes),
    decreases bytes.len(),
{
    if bytes.len() > 0 {
        sums_stay_apart(a, b, bytes.drop_last());
        let s = checksum_spec(a, bytes.drop_last());
        let t = checksum_spec(b, bytes.drop_last());
        let byte = bytes.last() as u32;
        assert(s != t ==> s ^ byte != t ^ byte) by (bit_vector);
        if folded(s, bytes.last()) == folded(t, bytes.last()) {
            factor_keeps_apart(s ^ byte, t ^ byte);
        }
    }
}

/// Two bytes folded in after a sum leave it elsewhere in the other order.
proof fn order_matters(sum: u32, a: u8, b: u8)
    requires
        a != b,
    ensures
        folded(folded(sum, a), b) != folded(folded(sum, b), a),
{
    let (p, q) = (a as u32, b as u32);
    let u = sum ^ p;
    let v = sum ^ q;
    let x = wrapping_mul(u, 0x0100_0193);
    let y = wrapping_mul(v, 0x0100_0193);
    if folded(x, b) == folded(y, a) {
        factor_keeps_apart(x ^ q, y ^ p);
        assert(x / 256 == y / 256) by (bit_vector)
            requires
                x ^ q == y ^ p,
                p < 256,
                q < 256,
        ;
        assert((sum ^ p) / 256 == (sum ^ q) / 256 && sum ^ p != sum ^ q) by (bit_vector)
            requires
                p != q,
                p < 256,
                q < 256,
        ;
        let i = u * 0x0100_0193 / 0x1_0000_0000;
        let j = v * 0x0100_0193 / 0x1_0000_0000;
        assert(x - y == (u - v) * 0x0100_0193 - 0x1_0000_0000 * (i - j));
        assert(-256 < x - y < 256);
        assert(-256 < u - v < 256);
        assert(false);
    }
}

/// A checksum notices a byte that changed, whatever comes before and after it.
pub proof fn a_changed_byte_changes_the_sum(seed: u32, before: Seq<u8>, a: u8, b: u8, after: Seq<u8>)
    requires
        a != b,
    ensures
        checksum_spec(seed, before + seq![a] + after) != checksum_spec(
            seed,
            before + seq![b] + after,
        ),
{
    let sum = checksum_spec(seed, before);
    let (p, q) = (a as u32, b as u32);
    checksum_joins_pieces(seed, before + seq![a], after);
    checksum_joins_pieces(seed, before + seq![b], after);
    assert((before + seq![a]).drop_last() =~= before);
    assert((before + seq![b]).drop_last() =~= before);
    assert(p != q ==> sum ^ p != sum ^ q) by (bit_vector);
    if folded(sum, a) == folded(sum, b) {
        factor_keeps_apart(sum ^ p, sum ^ q);
    }
    sums_stay_apart(folded(sum, a), folded(sum, b), after);
}

proof fn sum_of_two_more(seed: u32, before: Seq<u8>, a: u8, b: u8)
    ensures
        checksum_spec(seed, before + seq![a, b]) == folded(
            folded(checksum_spec(seed, before), a),
            b,
        ),
{
    let one = before + seq![a];
    let two = before + seq![a, b];
    assert(two.drop_last() =~= one);
    assert(one.drop_last() =~= before);
    assert(two.last() == b && one.last() == a);
    assert(checksum_spec(seed, one) == folded(checksum_spec(seed, before), a));
}

/// A checksum notices two neighbours that changed places, which a plain sum does not.
pub proof fn swapped_bytes_change_the_sum(seed: u32, before: Seq<u8>, a: u8, b: u8, after: Seq<u8>)
    requires
        a != b,
    ensures
        checksum_spec(seed, before + seq![a, b] + after) != checksum_spec(
            seed,
            before + seq![b, a] + after,
        ),
{
    let one = checksum_spec(seed, before + seq![a, b]);
    let other = checksum_spec(seed, before + seq![b, a]);
    assert(one != other) by {
        sum_of_two_more(seed, before, a, b);
        sum_of_two_more(seed, before, b, a);
        order_matters(checksum_spec(seed, before), a, b);
    }
    checksum_joins_pieces(seed, before + seq![a, b], after);
    checksum_joins_pieces(seed, before + seq![b, a], after);
    sums_stay_apart(one, other, after);
}

/// What a card says of itself.
#[derive(Debug)]
pub struct Identity {
    pub manufacturer: u8,
    pub name: String,
    pub revision: (u8, u8),
    pub serial: u32,
    pub year: u16,
    pub month: u8,
}

/// Reads the sixteen bytes of a card's identification register: manufacturer, five letters of
/// name, a revision in two digits, a serial number with its high byte first, and the month it
/// was made, counted in years from 2000.
pub fn identity(cid: &[u8; 16]) -> (r: Identity)
    ensures
        r.manufacturer == cid[0],
        r.name@ == utf8_or(cid@.subrange(3, 8), "?????"@),
        r.revision == ((cid[8] / 16) as u8, (cid[8] % 16) as u8),
        r.serial == cid[9] * 16777216 + cid[10] * 65536 + cid[11] * 256 + cid[12],
        r.year == 2000 + (cid[13] * 256 + cid[14]) % 4096 / 16,
        r.month == cid[14] % 16,
{
    let letters: [u8; 5] = [cid[3], cid[4], cid[5], cid[6], cid[7]];
    assert(letters@ =~= cid@.subrange(3, 8));
    let name = text_or(&letters, "?????");
    let serial: u32 = cid[9] as u32 * 16777216 + cid[10] as u32 * 65536 + cid[11] as u32 * 256
        + cid[12] as u32;
    let date: u16 = (cid[13] as u16 * 256 + cid[14] as u16) % 4096;
    Identity {
        manufacturer: cid[0],
        name,
        revision: (cid[8] / 16, cid[8] % 16),
        serial,
        year: 2000 + date / 16,
        month: (date % 16) as u8,
    }
}

/// The version of a card's data register: the top two bits count from 1.
pub fn csd_version(first: u8) -> (r: u8)
    ensures
        r == first / 64 + 1,
{
    first / 64 + 1
}

/// MiB in so many blocks of 512 bytes.
pub fn mebibytes(blocks: u32) -> (r: u32)
    ensures
        r == blocks / 2048,
{
    blocks / 2048
}

/// What a walk over the card found.
#[derive(Clone, Copy, Debug, PartialEq, Eq, Structural)]
pub struct Tally {
    pub files: usize,
    pub directories: usize,
    pub bytes: u64,
    pub printed: usize,
    pub truncated: bool,
}

/// What is done with an entry.
#[derive(Clone, Copy, Debug, PartialEq, Eq, Structural)]
pub struct Walk {
    /// Spaces to print it behind, or `None` once enough was printed.
    pub indent: Option<usize>,
    /// Whether the walk goes into it.
    pub descend: bool,
}

impl Tally {
    pub fn new() -> (r: Self)
        ensures
            r == (Tally { files: 0, directories: 0, bytes: 0, printed: 0, truncated: false }),
    {
        Tally { files: 0, directories: 0, bytes: 0, printed: 0, truncated: false }
    }

    /// Counts an entry at a depth. A directory is entered while the walk is not too deep;
    /// entries past the limit are counted and not printed.
    pub fn note(&mut self, directory: bool, size: u32, depth: usize) -> (walk: Walk)
        requires
            depth < MAX_DEPTH,
            old(self).files < usize::MAX,
            old(self).directories < usize::MAX,
            old(self).bytes + size <= u64::MAX,
        ensures
            walk.descend ==> directory,
            (walk.indent is None <==> old(self).printed >= MAX_ENTRIES),
            final(self).files + final(self).directories == old(self).files + old(self).directories + 1,
            directory ==> final(self).bytes == old(self).bytes && final(self).files == old(self).files,
            !directory ==> final(self).bytes == old(self).bytes + size && final(self).directories == old(
                self,
            ).directories,
            final(self).printed >= old(self).printed,
            walk.indent == (if old(self).printed < 300 {
                Some((depth * 2) as usize)
            } else {
                None
            }),
            walk.descend == (directory && depth + 1 < 4),
            *final(self) == (Tally {
                files: if directory {
                    old(self).files
                } else {
                    (old(self).files + 1) as usize
                },
                directories: if directory {
                    (old(self).directories + 1) as usize
                } else {
                    old(self).directories
                },
                bytes: if directory {
                    old(self).bytes
                } else {
                    (old(self).bytes + size) as u64
                },
                printed: if old(self).printed < 300 {
                    (old(self).printed + 1) as usize
                } else {
                    old(self).printed
                },
                truncated: old(self).truncated || old(self).printed >= 300,
            }),
    {
        let indent = if self.printed < MAX_ENTRIES {
            self.printed = self.printed + 1;
            Some(depth * 2)
        } else {
            self.truncated = true;
            None
        };
        if directory {
            self.directories = self.directories + 1;
        } else {
            self.files = self.files + 1;
            self.bytes = self.bytes + size as u64;
        }
        Walk { indent, descend: directory && depth + 1 < MAX_DEPTH }
    }
}

/// KiB a second, from the bytes read and the microseconds that took; no time counts as one.
pub fn throughput(bytes: u64, micros: u64) -> (r: u64)
    requires
        bytes * 1_000_000 <= u64::MAX,
        micros * 1024 <= u64::MAX,
    ensures
        r == bytes * 1_000_000 / (1024 * (if micros == 0 {
            1
        } else {
            micros as int
        })),
{
    let elapsed: u64 = if micros == 0 {
        1
    } else {
        micros
    };
    (bytes * 1_000_000) / (elapsed * 1024)
}

/// How a figure is read.
#[derive(Clone, Copy, Debug, PartialEq, Eq, Structural)]
pub enum How {
    OneBlock,
    EightBlocks,
}

/// What a measurement does next.
#[derive(Clone, Copy, Debug, PartialEq, Eq, Structural)]
pub enum Ask {
    /// Set the bus to this many MHz.
    SetRate(u32),
    /// Read this many blocks from this one on.
    Read { lba: u32, blocks: u32 },
    /// Say what a figure came to; `sum` is `None` if a read failed.
    Report { mhz: u32, how: How, sum: Option<u32> },
    /// Go back to the rate the rest of the device uses.
    DefaultRate,
}

/// The bus clocks compared, in MHz.
pub fn rates() -> (r: [u32; 3])
    ensures
        r@ == seq![20u32, 25, 40],
{
    let r: [u32; 3] = [20, 25, 40];
    assert(r@ =~= seq![20u32, 25, 40]);
    r
}

pub open spec fn mhz_spec(n: int) -> u32 {
    if n == 0 {
        20
    } else if n == 1 {
        25
    } else {
        40
    }
}

/// A measurement: the same sectors one block to a command and eight to a command, at three bus
/// clocks, each with its checksum.
#[derive(Clone, Copy, Debug, PartialEq, Eq, Structural)]
pub struct Measure {
    /// The first block that is read.
    pub start: u32,
    /// The clock measured at, of three.
    pub rate: usize,
    /// Whether the clock is set yet.
    pub set: bool,
    pub how: How,
    /// Blocks read so far.
    pub block: u32,
    pub sum: u32,
    pub failed: bool,
}

impl Measure {
    pub open spec fn wf(self) -> bool {
        &&& self.start + 511 <= u32::MAX
        &&& self.block <= 512
        &&& self.rate <= 3
        &&& self.how == How::EightBlocks ==> self.block % 8 == 0
    }

    /// Blocks the next command reads.
    pub open spec fn run_spec(self) -> int {
        match self.how {
            How::OneBlock => 1,
            How::EightBlocks => 8,
        }
    }

    pub open spec fn ask_spec(self) -> Ask {
        if self.rate >= 3 {
            Ask::DefaultRate
        } else if !self.set {
            Ask::SetRate(mhz_spec(self.rate as int))
        } else if self.failed || self.block == 512 {
            Ask::Report {
                mhz: mhz_spec(self.rate as int),
                how: self.how,
                sum: if self.failed {
                    None
                } else {
                    Some(self.sum)
                },
            }
        } else {
            Ask::Read { lba: (self.start + self.block) as u32, blocks: self.run_spec() as u32 }
        }
    }

    pub fn new(start: u32) -> (r: Self)
        requires
            start + 511 <= u32::MAX,
        ensures
            r.wf(),
            r == (Measure {
                start,
                rate: 0,
                set: false,
                how: How::OneBlock,
                block: 0,
                sum: 0,
                failed: false,
            }),
    {
        Measure { start, rate: 0, set: false, how: How::OneBlock, block: 0, sum: 0, failed: false }
    }

    /// What is done next.
    pub fn ask(&self) -> (r: Ask)
        requires
            self.wf(),
        ensures
            r == self.ask_spec(),
    {
        if self.rate >= 3 {
            return Ask::DefaultRate;
        }
        let clocks = rates();
        let mhz: u32 = clocks[self.rate];
        if !self.set {
            Ask::SetRate(mhz)
        } else if self.failed {
            Ask::Report { mhz, how: self.how, sum: None }
        } else if self.block == MEASURE_BLOCKS {
            Ask::Report { mhz, how: self.how, sum: Some(self.sum) }
        } else {
            let blocks: u32 = match self.how {
                How::OneBlock => 1,
                How::EightBlocks => RUN_BLOCKS,
            };
            Ask::Read { lba: self.start + self.block, blocks }
        }
    }

    /// The clock was set, or refused: then the next is tried.
    pub fn rate_set(&mut self, taken: bool)
        requires
            old(self).wf(),
            old(self).ask_spec() is SetRate,
        ensures
            final(self).wf(),
            *final(self) == (if taken {
                Measure { set: true, ..*old(self) }
            } else {
                Measure { rate: (old(self).rate + 1) as usize, ..*old(self) }
            }),
    {
        if taken {
            self.set = true;
        } else {
            self.rate = self.rate + 1;
        }
    }

    /// The blocks asked for were read, or not.
    pub fn read(&mut self, bytes: Option<&[u8]>)
        requires
            old(self).wf(),
            old(self).ask_spec() is Read,
            bytes is Some ==> bytes->0.len() == old(self).run_spec() * 512,
        ensures
            final(self).wf(),
            *final(self) == (match bytes {
                Some(bytes) => Measure {
                    block: (old(self).block + old(self).run_spec()) as u32,
                    sum: checksum_spec(old(self).sum, bytes@),
                    ..*old(self)
                },
                None => Measure { failed: true, ..*old(self) },
            }),
    {
        match bytes {
            Some(bytes) => {
                self.sum = checksum(self.sum, bytes);
                self.block = self.block + match self.how {
                    How::OneBlock => 1,
                    How::EightBlocks => RUN_BLOCKS,
                };
            },
            None => {
                self.failed = true;
            },
        }
    }

    /// The figure was reported: on to the next.
    pub fn reported(&mut self)
        requires
            old(self).wf(),
            old(self).ask_spec() is Report,
        ensures
            final(self).wf(),
            *final(self) == (Measure {
                start: old(self).start,
                rate: match old(self).how {
                    How::OneBlock => old(self).rate,
                    How::EightBlocks => (old(self).rate + 1) as usize,
                },
                set: old(self).how == How::OneBlock,
                how: match old(self).how {
                    How::OneBlock => How::EightBlocks,
                    How::EightBlocks => How::OneBlock,
                },
                block: 0,
                sum: 0,
                failed: false,
            }),
    {
        match self.how {
            How::OneBlock => {
                self.how = How::EightBlocks;
            },
            How::EightBlocks => {
                self.how = How::OneBlock;
                self.rate = self.rate + 1;
                self.set = false;
            },
        }
        self.block = 0;
        self.sum = 0;
        self.failed = false;
    }

    /// Whether the sum so far is that of the sectors read so far.
    pub open spec fn sums(self, sectors: Seq<u8>) -> bool {
        self.sum == checksum_spec(0, sectors.take(self.block * 512))
    }
}

/// While the card gives the same bytes for the same sectors, the sum is that of the sectors read
/// so far, however many a command brought.
pub proof fn sums_follow_the_sectors(before: Measure, sectors: Seq<u8>)
    requires
        before.wf(),
        before.ask_spec() is Read,
        sectors.len() == 262_144,
        before.sums(sectors),
    ensures
        ({
            let from = before.block * 512;
            let to = from + before.run_spec() * 512;
            let after = Measure {
                block: (before.block + before.run_spec()) as u32,
                sum: checksum_spec(before.sum, sectors.subrange(from, to)),
                ..before
            };
            after.sums(sectors)
        }),
{
    let from = before.block * 512;
    let to = from + before.run_spec() * 512;
    assert(sectors.take(to) =~= sectors.take(from) + sectors.subrange(from, to));
    checksum_joins_pieces(0, sectors.take(from), sectors.subrange(from, to));
}

/// A checksum that moves between two figures therefore means that the card gave different bytes:
/// with the same bytes every figure reports the same sum.
pub proof fn equal_bytes_give_equal_sums(a: Measure, b: Measure, sectors: Seq<u8>)
    requires
        sectors.len() == 262_144,
        a.sums(sectors),
        b.sums(sectors),
        a.block == 512,
        b.block == 512,
    ensures
        a.sum == b.sum,
        a.sum == checksum_spec(0, sectors),
{
    assert(sectors.take(262_144) =~= sectors);
}

/// A byte is folded in before the sum is multiplied: folding it into the sum, or into the seed of a
/// byte of nothing, is the same; and from nothing the sum of one byte is that byte times the factor.
pub proof fn a_byte_is_folded_in_first(seed: u32, byte: u8)
    ensures
        checksum_spec(seed, seq![byte]) == checksum_spec(seed ^ (byte as u32), seq![0u8]),
        checksum_spec(0, seq![byte]) == 16_777_619 * byte,
        checksum_spec(seed, Seq::empty()) == seed,
{
    assert(seq![byte].drop_last() =~= Seq::<u8>::empty());
    assert(seq![0u8].drop_last() =~= Seq::<u8>::empty());
    reveal_with_fuel(checksum_spec, 3);
    let wide = byte as u32;
    assert((seed ^ wide) ^ 0u32 == seed ^ wide) by (bit_vector);
    assert(0u32 ^ wide == wide) by (bit_vector);
}

/// The clocks that are compared, from the slow to the fast.
pub proof fn the_clocks_are_tried_in_order(a: int, b: int)
    requires
        0 <= a < b < 3,
    ensures
        mhz_spec(a) < mhz_spec(b),
        mhz_spec(0) == 20,
        mhz_spec(1) == 25,
        mhz_spec(2) == 40,
{
}

/// A measurement sets a clock before it reads at it, reads on from the block it came to, and never
/// past the last; it reports once all were read or one could not be, and no sum without all of them.
/// After the last clock it goes back to the usual one.
pub proof fn a_measurement_reads_each_block_in_turn(m: Measure)
    requires
        m.wf(),
    ensures
        m.ask_spec() is DefaultRate <==> m.rate == 3,
        m.rate < 3 ==> (m.ask_spec() is SetRate <==> !m.set),
        (m.ask_spec() matches Ask::SetRate(mhz) ==> mhz == mhz_spec(m.rate as int)),
        m.rate < 3 && m.set ==> (m.ask_spec() is Report <==> m.failed || m.block == 512),
        (m.ask_spec() matches Ask::Report { mhz, how, sum } ==> mhz == mhz_spec(m.rate as int)
            && how == m.how && (sum is None <==> m.failed) && (!m.failed ==> sum == Some(m.sum))),
        (m.ask_spec() matches Ask::Read { lba, blocks } ==> {
            &&& lba == m.start + m.block
            &&& lba + blocks <= m.start + 512
            &&& m.how == How::OneBlock ==> blocks == 1
            &&& m.how == How::EightBlocks ==> blocks == 8
        }),
        m.how == How::OneBlock ==> m.run_spec() == 1,
        m.how == How::EightBlocks ==> m.run_spec() == 8,
{
}

} // verus!
