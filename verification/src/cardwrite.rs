//! Writing to a card where nothing lives: a run of clusters that the allocation table marks free.
//!
//! Known patterns are written there one block at a time and as a run, read back and compared,
//! and the original bytes are put back. The card is somebody else's; here stands what is written,
//! what it has to read back as, and what comes next.

use vstd::prelude::*;
use vstd::wrapping::u32_specs::wrapping_mul;

verus! {

/// Sectors in the run that is written.
pub const RUN_SECTORS: u32 = 64;

/// Bytes in the run that is written.
pub const RUN_BYTES: usize = 32768;

/// One byte of the pattern for a sector: its first four are the sector's number, and the others
/// differ from sector to sector and by the seed.
pub open spec fn pattern_byte(lba: u32, seed: u8, index: int) -> u8 {
    if index == 0 {
        (lba % 256) as u8
    } else if index == 1 {
        (lba / 256 % 256) as u8
    } else if index == 2 {
        (lba / 65536 % 256) as u8
    } else if index == 3 {
        (lba / 16777216) as u8
    } else {
        ((wrapping_mul(lba, 31) ^ (index as u32)) as u8) ^ seed
    }
}

/// The pattern for a sector of `len` bytes.
pub open spec fn pattern(lba: u32, seed: u8, len: nat) -> Seq<u8> {
    Seq::new(len, |i: int| pattern_byte(lba, seed, i))
}

/// Fills a sector with bytes that carry their own address, so that a block which landed in the
/// wrong place reads back wrong.
pub fn fill(sector: &mut [u8], lba: u32, seed: u8)
    requires
        4 <= old(sector).len(),
    ensures
        final(sector)@ == pattern(lba, seed, old(sector)@.len()),
{
    let mixed: u32 = lba.wrapping_mul(31);
    let len: usize = sector.len();
    let mut i: usize = 0;
    while i < len
        invariant
            i <= len,
            len == sector.len(),
            4 <= len,
            mixed == wrapping_mul(lba, 31),
            forall|k: int|
                0 <= k < i ==> sector[k] == ((mixed ^ (k as u32)) as u8) ^ seed,
        decreases len - i,
    {
        sector[i] = ((mixed ^ (i as u32)) as u8) ^ seed;
        i = i + 1;
    }
    sector[0] = (lba % 256) as u8;
    sector[1] = (lba / 256 % 256) as u8;
    sector[2] = (lba / 65536 % 256) as u8;
    sector[3] = (lba / 16777216) as u8;
    assert(sector@ =~= pattern(lba, seed, len as nat));
}

/// A sector says its number: the first four bytes are that, the lowest first.
pub proof fn a_pattern_says_its_sector(lba: u32, seed: u8, len: nat)
    requires
        len >= 4,
    ensures
        ({
            let p = pattern(lba, seed, len);
            p[0] + 256 * p[1] + 65536 * p[2] + 16777216 * p[3] == lba
        }),
{
    assert(lba == lba % 256 + 256 * (lba / 256 % 256) + 65536 * (lba / 65536 % 256) + 16777216 * (
    lba / 16777216));
}

/// The patterns of two sectors differ, whatever the seeds: a sector read back from the wrong
/// place is never taken for the right one.
pub proof fn patterns_differ(a: u32, b: u32, seed_a: u8, seed_b: u8, len: nat)
    requires
        a != b,
        len >= 4,
    ensures
        pattern(a, seed_a, len) != pattern(b, seed_b, len),
{
    let p = pattern(a, seed_a, len);
    let q = pattern(b, seed_b, len);
    a_pattern_says_its_sector(a, seed_a, len);
    a_pattern_says_its_sector(b, seed_b, len);
    if p == q {
        assert(p[0] == q[0] && p[1] == q[1] && p[2] == q[2] && p[3] == q[3]);
    }
}

/// The patterns of one sector with two seeds say the same number and differ in every byte after
/// it: a stale sector is never taken for a fresh one.
pub proof fn seeds_differ_in_every_byte(lba: u32, seed_a: u8, seed_b: u8, len: nat)
    requires
        seed_a != seed_b,
    ensures
        forall|i: int|
            0 <= i < 4 && i < len ==> #[trigger] pattern(lba, seed_a, len)[i] == pattern(
                lba,
                seed_b,
                len,
            )[i],
        forall|i: int|
            4 <= i < len ==> #[trigger] pattern(lba, seed_a, len)[i] != pattern(lba, seed_b, len)[i],
{
    assert forall|i: int| 4 <= i < len implies #[trigger] pattern(lba, seed_a, len)[i] != pattern(
        lba,
        seed_b,
        len,
    )[i] by {
        let byte = (wrapping_mul(lba, 31) ^ (i as u32)) as u8;
        assert(seed_a != seed_b ==> byte ^ seed_a != byte ^ seed_b) by (bit_vector);
    }
}

/// A run of sectors, each filled for its own number.
pub open spec fn run_pattern(lba: u32, seed: u8) -> Seq<u8> {
    Seq::new(
        32768,
        |i: int| pattern_byte((lba + i / 512) as u32, seed, i % 512),
    )
}

/// The bytes of the whole run.
pub fn run_bytes(lba: u32, seed: u8) -> (r: Vec<u8>)
    requires
        lba + RUN_SECTORS - 1 <= u32::MAX,
    ensures
        r@ == run_pattern(lba, seed),
{
    let mut r: Vec<u8> = Vec::new();
    let mut sector: u32 = 0;
    while sector < RUN_SECTORS
        invariant
            sector <= RUN_SECTORS,
            lba + RUN_SECTORS - 1 <= u32::MAX,
            r.len() == sector * 512,
            forall|i: int|
                0 <= i < r.len() ==> r[i] == pattern_byte((lba + i / 512) as u32, seed, i % 512),
        decreases RUN_SECTORS - sector,
    {
        let mut block: [u8; 512] = [0; 512];
        fill(&mut block, lba + sector, seed);
        let mut i: usize = 0;
        while i < 512
            invariant
                i <= 512,
                sector < RUN_SECTORS,
                lba + RUN_SECTORS - 1 <= u32::MAX,
                block@ == pattern((lba + sector) as u32, seed, 512),
                r.len() == sector * 512 + i,
                forall|k: int|
                    0 <= k < r.len() ==> r[k] == pattern_byte(
                        (lba + k / 512) as u32,
                        seed,
                        k % 512,
                    ),
            decreases 512 - i,
        {
            assert((sector * 512 + i) / 512 == sector);
            assert((sector * 512 + i) % 512 == i);
            r.push(block[i]);
            i = i + 1;
        }
        sector = sector + 1;
    }
    assert(r@ =~= run_pattern(lba, seed));
    r
}

/// KiB a second for the run, from the microseconds it took.
pub fn rate(micros: u64) -> (r: u64)
    requires
        0 < micros <= u64::MAX / 1024,
    ensures
        r == 32768int * 1_000_000 / (micros * 1024),
{
    (RUN_BYTES as u64 * 1_000_000) / (micros * 1024)
}

/// How far the patterns are: what is written and read back next.
#[derive(Clone, Copy, Debug, PartialEq, Eq, Structural)]
pub enum PatternStage {
    /// One block.
    Single,
    /// The run in one command.
    Run,
    /// The run block by block.
    Blocks,
    Passed,
    Failed,
}

/// The patterns at a place on the card.
#[derive(Clone, Copy, Debug, PartialEq, Eq, Structural)]
pub struct Patterns {
    pub lba: u32,
    pub stage: PatternStage,
}

impl Patterns {
    /// What a stage writes, and has to read back.
    pub open spec fn bytes_spec(self) -> Seq<u8> {
        match self.stage {
            PatternStage::Single => pattern(self.lba, 0xA5, 512),
            PatternStage::Run => run_pattern(self.lba, 0x3C),
            PatternStage::Blocks => run_pattern(self.lba, 0x5A),
            _ => Seq::empty(),
        }
    }

    /// What a stage comes to: on, if the bytes came back as written, and failed otherwise.
    pub open spec fn stepped(self, back: Option<Seq<u8>>) -> Patterns {
        let good = back == Some(self.bytes_spec());
        Patterns {
            stage: match self.stage {
                PatternStage::Single => if good {
                    PatternStage::Run
                } else {
                    PatternStage::Failed
                },
                PatternStage::Run => if good {
                    PatternStage::Blocks
                } else {
                    PatternStage::Failed
                },
                PatternStage::Blocks => if good {
                    PatternStage::Passed
                } else {
                    PatternStage::Failed
                },
                done => done,
            },
            ..self
        }
    }

    pub fn new(lba: u32) -> (r: Self)
        ensures
            r == (Patterns { lba, stage: PatternStage::Single }),
    {
        Patterns { lba, stage: PatternStage::Single }
    }

    /// The bytes to write.
    pub fn bytes(&self) -> (r: Vec<u8>)
        requires
            self.lba + RUN_SECTORS - 1 <= u32::MAX,
        ensures
            r@ == self.bytes_spec(),
    {
        match self.stage {
            PatternStage::Single => {
                let mut block: [u8; 512] = [0; 512];
                fill(&mut block, self.lba, 0xA5);
                let mut r: Vec<u8> = Vec::new();
                let mut i: usize = 0;
                while i < 512
                    invariant
                        i <= 512,
                        r@ == block@.take(i as int),
                    decreases 512 - i,
                {
                    r.push(block[i]);
                    i = i + 1;
                }
                assert(block@.take(512) =~= block@);
                r
            },
            PatternStage::Run => run_bytes(self.lba, 0x3C),
            PatternStage::Blocks => run_bytes(self.lba, 0x5A),
            _ => Vec::new(),
        }
    }

    /// Takes what was read back, or that the card failed.
    pub fn step(&mut self, back: Option<&Vec<u8>>)
        requires
            old(self).lba + RUN_SECTORS - 1 <= u32::MAX,
        ensures
            *final(self) == old(self).stepped(
                match back {
                    Some(bytes) => Some(bytes@),
                    None => None,
                },
            ),
    {
        let good = match back {
            Some(bytes) => crate::upload::same_id(bytes, &self.bytes()),
            None => false,
        };
        self.stage = match self.stage {
            PatternStage::Single => if good {
                PatternStage::Run
            } else {
                PatternStage::Failed
            },
            PatternStage::Run => if good {
                PatternStage::Blocks
            } else {
                PatternStage::Failed
            },
            PatternStage::Blocks => if good {
                PatternStage::Passed
            } else {
                PatternStage::Failed
            },
            PatternStage::Passed => PatternStage::Passed,
            PatternStage::Failed => PatternStage::Failed,
        };
    }
}

/// The patterns pass exactly if all three came back as they were written.
pub proof fn patterns_pass_exactly_if_read_back(
    lba: u32,
    one: Option<Seq<u8>>,
    run: Option<Seq<u8>>,
    blocks: Option<Seq<u8>>,
)
    ensures
        (Patterns { lba, stage: PatternStage::Single }).stepped(one).stepped(run).stepped(
            blocks,
        ).stage == PatternStage::Passed <==> (one == Some(pattern(lba, 0xA5, 512)) && run == Some(
            run_pattern(lba, 0x3C),
        ) && blocks == Some(run_pattern(lba, 0x5A))),
{
}

/// How a volume is laid out on the card.
#[derive(Clone, Copy, Debug, PartialEq, Eq, Structural)]
pub struct Layout {
    pub fat32: bool,
    pub sectors_per_cluster: u32,
    /// How many clusters the data area has; they are counted from 2.
    pub clusters: u32,
    pub fat_start: u32,
    pub data_start: u32,
}

impl Layout {
    /// Every byte of the table, every block it is in and every block of the data has a number.
    pub open spec fn wf(self) -> bool {
        &&& self.sectors_per_cluster > 0
        &&& self.entry_offset(self.clusters + 2) <= u32::MAX
        &&& self.fat_start + self.entry_offset(self.clusters + 2) / 512 <= u32::MAX
        &&& self.data_start + self.clusters * self.sectors_per_cluster <= u32::MAX + 1
    }

    /// Whether a layout lies within the card's block numbers.
    pub fn in_range(&self) -> (r: bool)
        ensures
            r == self.wf(),
    {
        let clusters: u64 = self.clusters as u64;
        let per: u64 = self.sectors_per_cluster as u64;
        let table: u64 = (clusters + 2) * (if self.fat32 {
            4
        } else {
            2
        });
        proof {
            assert(clusters * per <= 0xffff_ffff * 0xffff_ffff) by (nonlinear_arith)
                requires
                    clusters <= 0xffff_ffff,
                    per <= 0xffff_ffff,
            ;
        }
        per > 0 && table <= u32::MAX as u64 && self.fat_start as u64 + table / 512 <= u32::MAX as u64
            && self.data_start as u64 + clusters * per <= u32::MAX as u64 + 1
    }

    /// Where a cluster's entry starts in the table.
    pub open spec fn entry_offset(self, cluster: int) -> int {
        cluster * (if self.fat32 {
            4int
        } else {
            2
        })
    }

    /// The block a cluster's entry is in.
    pub open spec fn entry_block(self, cluster: int) -> int {
        self.fat_start + self.entry_offset(cluster) / 512
    }
}

/// The entry at an offset of a table's sector: four bytes of which 28 bits count in FAT32, two in
/// FAT16, the lowest byte first.
pub open spec fn entry_in(sector: Seq<u8>, fat32: bool, at: int) -> u32 {
    if fat32 {
        ((sector[at] + 256 * sector[at + 1] + 65536 * sector[at + 2] + 16777216 * sector[at + 3])
            % 0x1000_0000) as u32
    } else {
        (sector[at] + 256 * sector[at + 1]) as u32
    }
}

/// The first allocation table, a sector of it at a time.
pub struct Table {
    pub layout: Layout,
    pub sector: [u8; 512],
    pub lba: Option<u32>,
}

impl Table {
    pub fn new(layout: Layout) -> (r: Self)
        ensures
            r.layout == layout,
            r.sector@ == Seq::new(512, |i: int| 0u8),
            r.lba is None,
    {
        let r = Table { layout, sector: [0; 512], lba: None };
        assert(r.sector@ =~= Seq::new(512, |i: int| 0u8));
        r
    }

    /// Forgets the sector, so that the card is asked again.
    pub fn forget(&mut self)
        ensures
            *final(self) == (Table { lba: None, ..*old(self) }),
    {
        self.lba = None;
    }

    /// The block to read before a cluster's entry is there, if it is not.
    pub fn wanted(&self, cluster: u32) -> (r: Option<u32>)
        requires
            self.layout.wf(),
            cluster <= self.layout.clusters + 1,
        ensures
            r == (if self.lba == Some(self.layout.entry_block(cluster as int) as u32) {
                None
            } else {
                Some(self.layout.entry_block(cluster as int) as u32)
            }),
    {
        let width: u32 = if self.layout.fat32 {
            4
        } else {
            2
        };
        let lba: u32 = self.layout.fat_start + cluster * width / 512;
        match self.lba {
            Some(held) => if held == lba {
                None
            } else {
                Some(lba)
            },
            None => Some(lba),
        }
    }

    /// A block of the table was read.
    pub fn loaded(&mut self, lba: u32, bytes: [u8; 512])
        ensures
            *final(self) == (Table { sector: bytes, lba: Some(lba), ..*old(self) }),
    {
        self.sector = bytes;
        self.lba = Some(lba);
    }

    /// A cluster's entry, once its block is there.
    pub fn entry(&self, cluster: u32) -> (r: u32)
        requires
            self.layout.wf(),
            cluster <= self.layout.clusters + 1,
            self.lba == Some(self.layout.entry_block(cluster as int) as u32),
        ensures
            r == entry_in(
                self.sector@,
                self.layout.fat32,
                self.layout.entry_offset(cluster as int) % 512,
            ),
    {
        if self.layout.fat32 {
            let at: usize = (cluster * 4 % 512) as usize;
            let value: u32 = self.sector[at] as u32 + 256 * self.sector[at + 1] as u32 + 65536
                * self.sector[at + 2] as u32 + 16777216 * self.sector[at + 3] as u32;
            value % 0x1000_0000
        } else {
            let at: usize = (cluster * 2 % 512) as usize;
            self.sector[at] as u32 + 256 * self.sector[at + 1] as u32
        }
    }
}

/// A search for free clusters, from the top of the volume down.
#[derive(Clone, Copy, Debug, PartialEq, Eq, Structural)]
pub struct FreeRun {
    /// The cluster whose entry is wanted; below 2 there is none.
    pub cluster: u32,
    /// Free clusters right above it.
    pub run: u32,
    /// How many are needed.
    pub needed: u32,
}

/// Whether `needed` clusters from `first` on are all free and lie in the volume.
pub open spec fn is_free_run(table: Seq<u32>, first: int, needed: int) -> bool {
    &&& 2 <= first
    &&& first + needed <= table.len()
    &&& forall|c: int| first <= c < first + needed ==> #[trigger] table[c] == 0
}

impl FreeRun {
    /// What the search knows of a table: how many clusters are free right above, and that no run
    /// long enough lies above.
    pub open spec fn knows(self, table: Seq<u32>) -> bool {
        &&& self.run < self.needed
        &&& 1 <= self.cluster
        &&& self.cluster + self.run < table.len()
        &&& forall|c: int|
            self.cluster < c <= self.cluster + self.run ==> #[trigger] table[c] == 0
        &&& self.cluster + self.run + 1 < table.len() ==> table[self.cluster + self.run + 1] != 0
        &&& forall|first: int|
            first > self.cluster ==> !#[trigger] is_free_run(table, first, self.needed as int)
    }

    /// A search from the last cluster of the volume.
    pub fn new(clusters: u32, needed: u32) -> (r: Self)
        requires
            clusters < u32::MAX,
            needed > 0,
        ensures
            r == (FreeRun { cluster: (clusters + 1) as u32, run: 0, needed }),
    {
        FreeRun { cluster: clusters + 1, run: 0, needed }
    }

    /// The cluster whose entry is wanted next, or `None` when none is left.
    pub fn wanted(&self) -> (r: Option<u32>)
        ensures
            r == (if self.cluster >= 2 {
                Some(self.cluster)
            } else {
                None
            }),
    {
        if self.cluster >= 2 {
            Some(self.cluster)
        } else {
            None
        }
    }

    /// Takes an entry. The run ends at an entry in use, and is found once it is long enough.
    pub fn feed(&mut self, entry: u32) -> (found: Option<u32>)
        requires
            old(self).cluster >= 2,
            old(self).run < old(self).needed,
        ensures
            (found matches Some(cluster) ==> entry == 0 && cluster == old(self).cluster),
            entry != 0 ==> found is None && final(self).run == 0,
            found is None ==> final(self).cluster + 1 == old(self).cluster,
            final(self).needed == old(self).needed,
            found == (if entry == 0 && old(self).run + 1 == old(self).needed {
                Some(old(self).cluster)
            } else {
                None
            }),
            found is Some ==> *final(self) == (FreeRun { run: old(self).needed, ..*old(self) }),
            found is None ==> *final(self) == (FreeRun {
                cluster: (old(self).cluster - 1) as u32,
                run: if entry == 0 {
                    (old(self).run + 1) as u32
                } else {
                    0
                },
                needed: old(self).needed,
            }),
    {
        if entry == 0 {
            self.run = self.run + 1;
            if self.run == self.needed {
                return Some(self.cluster);
            }
        } else {
            self.run = 0;
        }
        self.cluster = self.cluster - 1;
        None
    }
}

/// A search starts out knowing its table, whatever that holds.
pub proof fn search_starts_knowing(table: Seq<u32>, search: FreeRun)
    requires
        table.len() >= 2,
        search.cluster == table.len() - 1,
        search.run == 0,
        search.needed > 0,
    ensures
        search.knows(table),
{
}

/// What a search finds is the highest run there is, and a search that knew its table and goes on
/// still knows it.
pub proof fn search_finds_the_highest_run(table: Seq<u32>, before: FreeRun, after: FreeRun)
    requires
        before.knows(table),
        before.cluster >= 2,
    ensures
        table[before.cluster as int] == 0 && before.run + 1 == before.needed ==> {
            &&& is_free_run(table, before.cluster as int, before.needed as int)
            &&& forall|first: int|
                first > before.cluster ==> !#[trigger] is_free_run(
                    table,
                    first,
                    before.needed as int,
                )
        },
        !(table[before.cluster as int] == 0 && before.run + 1 == before.needed) && after == (FreeRun {
            cluster: (before.cluster - 1) as u32,
            run: if table[before.cluster as int] == 0 {
                (before.run + 1) as u32
            } else {
                0
            },
            needed: before.needed,
        }) ==> after.knows(table),
{
    let c = before.cluster as int;
    if !(table[c] == 0 && before.run + 1 == before.needed) {
        assert forall|first: int| first > c - 1 implies !#[trigger] is_free_run(
            table,
            first,
            before.needed as int,
        ) by {
            if first == c && is_free_run(table, first, before.needed as int) {
                if table[c] == 0 {
                    let end = c + before.run + 1;
                    assert(table[end] == 0);
                } else {
                    assert(table[c] == 0);
                }
            }
        }
    }
}

/// A search that comes to its end has shown that there is no run long enough.
pub proof fn exhausted_search_means_none(table: Seq<u32>, search: FreeRun, first: int)
    requires
        search.knows(table),
        search.cluster < 2,
    ensures
        !is_free_run(table, first, search.needed as int),
{
}

/// How far a write test is: what is done next.
#[derive(Clone, Copy, Debug, PartialEq, Eq, Structural)]
pub enum WriteStage {
    /// Search for free clusters.
    Search,
    /// Read what the run holds.
    Keep,
    /// Write the patterns.
    Patterns,
    /// Put back what the run held, and read it again.
    Restore,
    /// Look at a cluster's entry again.
    Table(u32),
    /// List the root.
    List,
    Done(bool),
}

/// How a stage went.
#[derive(Clone, Copy, Debug, PartialEq, Eq, Structural)]
pub enum WriteEvent {
    Error,
    Searched(Option<u32>),
    Kept,
    Patterned(bool),
    /// The run was put back; `same` says whether it reads as before.
    Restored { same: bool },
    Entry(u32),
    Listed,
}

/// A write test over a volume.
#[derive(Clone, Copy, Debug, PartialEq, Eq, Structural)]
pub struct WriteRun {
    pub layout: Layout,
    pub stage: WriteStage,
    pub first: u32,
    pub written: bool,
    pub restored: bool,
    pub still_free: bool,
}

impl WriteRun {
    /// How many clusters the run takes: as few as hold it.
    pub open spec fn needed_spec(self) -> int {
        (RUN_SECTORS + self.layout.sectors_per_cluster - 1) / self.layout.sectors_per_cluster as int
    }

    /// The first block of the run.
    pub open spec fn lba_spec(self) -> int {
        self.layout.data_start + (self.first - 2) * self.layout.sectors_per_cluster
    }

    pub open spec fn wf(self) -> bool {
        &&& self.layout.wf()
        &&& self.stage != WriteStage::Search && !(self.stage is Done) ==> 2 <= self.first
            && self.first + self.needed_spec() <= self.layout.clusters + 2
        &&& (self.stage matches WriteStage::Table(next) ==> self.first <= next < self.first
            + self.needed_spec())
    }

    pub open spec fn stepped(self, event: WriteEvent) -> WriteRun {
        let failed = WriteRun { stage: WriteStage::Done(false), ..self };
        match self.stage {
            WriteStage::Search => match event {
                WriteEvent::Searched(Some(first)) => WriteRun {
                    stage: WriteStage::Keep,
                    first,
                    ..self
                },
                _ => failed,
            },
            WriteStage::Keep => match event {
                WriteEvent::Kept => WriteRun { stage: WriteStage::Patterns, ..self },
                _ => failed,
            },
            WriteStage::Patterns => WriteRun {
                stage: WriteStage::Restore,
                written: event == WriteEvent::Patterned(true),
                ..self
            },
            WriteStage::Restore => WriteRun {
                stage: WriteStage::Table(self.first),
                restored: event == (WriteEvent::Restored { same: true }),
                ..self
            },
            WriteStage::Table(next) => WriteRun {
                stage: if next + 1 < self.first + self.needed_spec() {
                    WriteStage::Table((next + 1) as u32)
                } else {
                    WriteStage::List
                },
                still_free: self.still_free && event == WriteEvent::Entry(0),
                ..self
            },
            WriteStage::List => WriteRun {
                stage: WriteStage::Done(
                    event == WriteEvent::Listed && self.written && self.restored && self.still_free,
                ),
                ..self
            },
            WriteStage::Done(_) => self,
        }
    }

    pub fn new(layout: Layout) -> (r: Self)
        requires
            layout.wf(),
        ensures
            r.wf(),
            r == (WriteRun {
                layout,
                stage: WriteStage::Search,
                first: 0,
                written: false,
                restored: false,
                still_free: true,
            }),
    {
        WriteRun {
            layout,
            stage: WriteStage::Search,
            first: 0,
            written: false,
            restored: false,
            still_free: true,
        }
    }

    pub fn needed(&self) -> (r: u32)
        requires
            self.layout.wf(),
        ensures
            r == self.needed_spec(),
            1 <= r <= 64,
    {
        let per: u32 = self.layout.sectors_per_cluster;
        let whole: u32 = RUN_SECTORS / per;
        let rest: u32 = RUN_SECTORS % per;
        proof {
            vstd::arithmetic::div_mod::lemma_fundamental_div_mod(64, per as int);
            vstd::arithmetic::div_mod::lemma_mod_bound(64, per as int);
            let top = 64 + per - 1;
            if rest == 0 {
                assert(top == per * whole + (per - 1));
                vstd::arithmetic::div_mod::lemma_fundamental_div_mod_converse(
                    top,
                    per as int,
                    whole as int,
                    per - 1,
                );
                assert(whole >= 1) by (nonlinear_arith)
                    requires
                        64 == per * whole + rest,
                        rest == 0,
                        per >= 1,
                        whole >= 0,
                ;
            } else {
                assert(top == per * (whole + 1) + (rest - 1)) by (nonlinear_arith)
                    requires
                        64 == per * whole + rest,
                        top == 64 + per - 1,
                ;
                vstd::arithmetic::div_mod::lemma_fundamental_div_mod_converse(
                    top,
                    per as int,
                    whole + 1,
                    rest - 1,
                );
            }
            assert(whole <= 64) by (nonlinear_arith)
                requires
                    64 == per * whole + rest,
                    per >= 1,
                    rest >= 0,
                    whole >= 0,
            ;
            assert(rest > 0 ==> whole < 64) by (nonlinear_arith)
                requires
                    64 == per * whole + rest,
                    per >= 1,
                    rest >= 0,
                    whole >= 0,
            ;
        }
        if rest == 0 {
            whole
        } else {
            whole + 1
        }
    }

    /// The first block of the run.
    pub fn lba(&self) -> (r: u32)
        requires
            self.layout.wf(),
            2 <= self.first,
            self.first + self.needed_spec() <= self.layout.clusters + 2,
        ensures
            r == self.lba_spec(),
            r + RUN_SECTORS - 1 <= u32::MAX,
    {
        let per: u32 = self.layout.sectors_per_cluster;
        let ghost needed = self.needed_spec();
        proof {
            vstd::arithmetic::div_mod::lemma_fundamental_div_mod(63 + per, per as int);
            assert(needed > 0) by (nonlinear_arith)
                requires
                    63 + per == per * needed + (63 + per) % (per as int),
                    (63 + per) % (per as int) < per,
                    per > 0,
            ;
        }
        let past: u32 = self.first - 2;
        assert(past * per + 64 <= self.layout.clusters * per) by (nonlinear_arith)
            requires
                past + needed <= self.layout.clusters,
                63 + per == per * needed + (63 + per) % (per as int),
                (63 + per) % (per as int) < per,
                per > 0,
        ;
        assert(past * per >= 0) by (nonlinear_arith)
            requires
                past >= 0,
                per >= 0,
        ;
        self.layout.data_start + past * per
    }

    /// Takes how the stage went. Whatever came of the patterns, the run is put back and the table
    /// and the root are looked at.
    pub fn step(&mut self, event: WriteEvent)
        requires
            old(self).wf(),
            (event matches WriteEvent::Searched(Some(first)) ==> 2 <= first && first
                + old(self).needed_spec() <= old(self).layout.clusters + 2),
        ensures
            *final(self) == old(self).stepped(event),
            final(self).wf(),
    {
        let needed: u32 = self.needed();
        match self.stage {
            WriteStage::Search => {
                match event {
                    WriteEvent::Searched(Some(first)) => {
                        self.first = first;
                        self.stage = WriteStage::Keep;
                    },
                    _ => {
                        self.stage = WriteStage::Done(false);
                    },
                }
            },
            WriteStage::Keep => {
                self.stage = match event {
                    WriteEvent::Kept => WriteStage::Patterns,
                    _ => WriteStage::Done(false),
                };
            },
            WriteStage::Patterns => {
                self.written = match event {
                    WriteEvent::Patterned(passed) => passed,
                    _ => false,
                };
                self.stage = WriteStage::Restore;
            },
            WriteStage::Restore => {
                self.restored = match event {
                    WriteEvent::Restored { same } => same,
                    _ => false,
                };
                self.stage = WriteStage::Table(self.first);
            },
            WriteStage::Table(next) => {
                let free = match event {
                    WriteEvent::Entry(entry) => entry == 0,
                    _ => false,
                };
                self.still_free = self.still_free && free;
                self.stage = if next + 1 < self.first + needed {
                    WriteStage::Table(next + 1)
                } else {
                    WriteStage::List
                };
            },
            WriteStage::List => {
                let listed = match event {
                    WriteEvent::Listed => true,
                    _ => false,
                };
                self.stage = WriteStage::Done(
                    listed && self.written && self.restored && self.still_free,
                );
            },
            WriteStage::Done(_) => {},
        }
    }
}

/// Whatever the patterns came to, the run goes on to put the original bytes back and never ends
/// before it looked at the table.
pub proof fn a_written_run_is_always_restored(run: WriteRun, event: WriteEvent, restored: WriteEvent)
    requires
        run.stage == WriteStage::Patterns,
    ensures
        run.stepped(event).stage == WriteStage::Restore,
        run.stepped(event).stepped(restored).stage == WriteStage::Table(run.first),
{
}

/// A test passes only if the patterns came back, the original bytes are in place again, the table
/// still marks the run free and the root still lists.
pub proof fn passes_only_if_nothing_was_harmed(run: WriteRun, event: WriteEvent)
    requires
        run.stage == WriteStage::List,
    ensures
        run.stepped(event).stage == WriteStage::Done(true) <==> event == WriteEvent::Listed
            && run.written && run.restored && run.still_free,
{
}

/// Behind its number a pattern is made of three things that can be told apart: its place, which
/// alone is there in sector 0 without a seed, the seed, which turns its bits over, and 31 times the
/// sector's number, which does too.
#[verifier::spinoff_prover]
pub proof fn a_pattern_is_made_of_place_seed_and_sector(lba: u32, seed: u8, len: nat, i: int)
    requires
        4 <= i < len,
        len <= 512,
    ensures
        pattern(lba, seed, len).len() == len,
        pattern(0, 0, len)[i] == i % 256,
        pattern(lba, seed, len)[i] == pattern(lba, 0, len)[i] ^ seed,
        pattern(lba, 0, len)[i] ^ pattern(0, 0, len)[i] == 31 * lba % 256,
{
    let w = wrapping_mul(lba, 31);
    let n = i as u32;
    let byte = (w ^ n) as u8;
    assert(byte ^ 0u8 == byte) by (bit_vector);
    assert(wrapping_mul(0, 31) == 0);
    assert((0u32 ^ n) as u8 ^ 0u8 == n % 256) by (bit_vector);
    assert(((w ^ n) as u8 ^ 0u8) ^ ((0u32 ^ n) as u8 ^ 0u8) == w % 256) by (bit_vector);
    assert(w == 31 * lba % 0x1_0000_0000);
    assert(w % 256 == 31 * lba % 256);
}

/// A run is its sectors one after another, each with the pattern of its own number.
#[verifier::spinoff_prover]
pub proof fn a_run_is_its_sectors(lba: u32, seed: u8, k: int)
    requires
        0 <= k < 64,
        lba + 63 <= u32::MAX,
    ensures
        run_pattern(lba, seed).len() == 64 * 512,
        run_pattern(lba, seed).subrange(512 * k, 512 * k + 512) == pattern(
            (lba + k) as u32,
            seed,
            512,
        ),
{
    let part = run_pattern(lba, seed).subrange(512 * k, 512 * k + 512);
    assert forall|i: int| 0 <= i < 512 implies part[i] == #[trigger] pattern(
        (lba + k) as u32,
        seed,
        512,
    )[i] by {
        assert((512 * k + i) / 512 == k);
        assert((512 * k + i) % 512 == i);
    }
    assert(part =~= pattern((lba + k) as u32, seed, 512));
}

/// The entries of a table stand one behind another from its start, four bytes each in FAT32 and two
/// in FAT16, and a block holds 128 of the one or 256 of the other.
#[verifier::spinoff_prover]
pub proof fn entries_stand_one_behind_another(layout: Layout, cluster: int)
    requires
        0 <= cluster,
    ensures
        layout.entry_offset(0) == 0,
        layout.fat32 ==> layout.entry_offset(cluster + 1) == layout.entry_offset(cluster) + 4,
        !layout.fat32 ==> layout.entry_offset(cluster + 1) == layout.entry_offset(cluster) + 2,
        layout.fat32 ==> layout.entry_block(cluster) == layout.fat_start + cluster / 128,
        !layout.fat32 ==> layout.entry_block(cluster) == layout.fat_start + cluster / 256,
        layout.fat32 ==> layout.entry_offset(cluster) % 512 + 4 <= 512,
        !layout.fat32 ==> layout.entry_offset(cluster) % 512 + 2 <= 512,
{
    let per_block: int = if layout.fat32 {
        128
    } else {
        256
    };
    let block = cluster / per_block;
    let place = cluster % per_block;
    assert(cluster == per_block * block + place);
    if layout.fat32 {
        assert(layout.entry_offset(cluster) == 512 * block + 4 * place);
        assert((512 * block + 4 * place) / 512 == block);
        assert((512 * block + 4 * place) % 512 == 4 * place);
    } else {
        assert(layout.entry_offset(cluster) == 512 * block + 2 * place);
        assert((512 * block + 2 * place) / 512 == block);
        assert((512 * block + 2 * place) % 512 == 2 * place);
    }
}

/// An entry is read low byte first; in FAT32 the top four bits are not part of it.
#[verifier::spinoff_prover]
pub proof fn an_entry_is_read_low_byte_first(sector: Seq<u8>, at: int)
    ensures
        entry_in(sector, false, at) % 256 == sector[at],
        entry_in(sector, false, at) / 256 == sector[at + 1],
        entry_in(sector, true, at) < 0x1000_0000,
        entry_in(sector, true, at) % 256 == sector[at],
        entry_in(sector, true, at) / 256 % 256 == sector[at + 1],
        entry_in(sector, true, at) / 65536 % 256 == sector[at + 2],
        entry_in(sector, true, at) / 16777216 == sector[at + 3] % 16,
{
    let a = sector[at] as int;
    let b = sector[at + 1] as int;
    let c = sector[at + 2] as int;
    let d = sector[at + 3] as int;
    let low = a + 256 * b + 65536 * c;
    assert(0 <= low < 16777216);
    let word = low + 16777216 * (d % 16);
    assert(low + 16777216 * d == word + 0x1000_0000 * (d / 16));
    assert((low + 16777216 * d) % 0x1000_0000 == word);
    assert(entry_in(sector, true, at) == word);
    assert(word / 16777216 == d % 16);
    bytes_come_apart(a, b, c, d % 16);
}

#[verifier::spinoff_prover]
proof fn bytes_come_apart(a: int, b: int, c: int, d: int)
    requires
        0 <= a < 256,
        0 <= b < 256,
        0 <= c < 256,
        0 <= d < 256,
    ensures
        (a + 256 * b + 65536 * c + 16777216 * d) % 256 == a,
        (a + 256 * b + 65536 * c + 16777216 * d) / 256 % 256 == b,
        (a + 256 * b + 65536 * c + 16777216 * d) / 65536 % 256 == c,
{
    let high = b + 256 * c + 65536 * d;
    assert(a + 256 * b + 65536 * c + 16777216 * d == a + 256 * high);
    assert((a + 256 * high) / 256 == high);
    assert(high == b + 256 * (c + 256 * d));
    assert(high / 256 == c + 256 * d);
    assert((a + 256 * high) / 65536 == high / 256);
}

/// A layout is in range exactly if its clusters hold sectors, the last entry of its table lies in a
/// block that has a number, and so does the last block of its data.
pub proof fn a_layout_in_range_has_a_number_for_every_block(layout: Layout)
    ensures
        layout.wf() <==> {
            let width = if layout.fat32 {
                4int
            } else {
                2
            };
            &&& layout.sectors_per_cluster >= 1
            &&& width * (layout.clusters + 2) < 0x1_0000_0000
            &&& layout.fat_start + width * (layout.clusters + 2) / 512 < 0x1_0000_0000
            &&& layout.data_start + layout.clusters * layout.sectors_per_cluster <= 0x1_0000_0000
        },
{
}

/// A run takes as many clusters as hold it and not one more, and starts where its first cluster does:
/// the second of the volume's numbers at the start of the data, and each after it a cluster on.
pub proof fn a_run_takes_just_enough_clusters(run: WriteRun, next: WriteRun)
    requires
        run.layout.sectors_per_cluster > 0,
        next.layout == run.layout,
        next.first == run.first + 1,
    ensures
        run.needed_spec() * run.layout.sectors_per_cluster >= 64,
        (run.needed_spec() - 1) * run.layout.sectors_per_cluster < 64,
        run.first == 2 ==> run.lba_spec() == run.layout.data_start,
        next.lba_spec() == run.lba_spec() + run.layout.sectors_per_cluster,
{
    let spc = run.layout.sectors_per_cluster as int;
    let n = run.needed_spec();
    assert(n == (63 + spc) / spc);
    assert(n * spc >= 64 && (n - 1) * spc < 64) by (nonlinear_arith)
        requires
            n == (63 + spc) / spc,
            spc > 0,
    ;
    if run.first == 2 {
        assert((run.first - 2) * spc == 0) by (nonlinear_arith)
            requires
                run.first == 2,
        ;
    }
    assert((next.first - 2) * spc == (run.first - 2) * spc + spc) by (nonlinear_arith)
        requires
            next.first == run.first + 1,
    ;
}

/// Nothing is written before a run was found and what it holds was kept; where either fails, the test
/// ends there. The run is the one that was found.
pub proof fn nothing_is_written_unkept(run: WriteRun, event: WriteEvent, first: u32)
    ensures
        run.stage == WriteStage::Search ==> run.stepped(WriteEvent::Searched(Some(first))).stage
            == WriteStage::Keep && run.stepped(WriteEvent::Searched(Some(first))).first == first,
        run.stage == WriteStage::Search && !(event matches WriteEvent::Searched(Some(_)))
            ==> run.stepped(event).stage == WriteStage::Done(false),
        run.stage == WriteStage::Keep ==> (run.stepped(event).stage == WriteStage::Patterns
            <==> event == WriteEvent::Kept),
        run.stage == WriteStage::Keep && event != WriteEvent::Kept ==> run.stepped(event).stage
            == WriteStage::Done(false),
        run.stage is Done ==> run.stepped(event) == run,
        run.stage != WriteStage::Search ==> run.stepped(event).first == run.first,
        run.stepped(event).layout == run.layout,
{
}

/// What came of each part is remembered as it came: the patterns and the bytes put back only where
/// they came back the same, and the run as free only while every entry of it reads as free. Every
/// cluster of the run is looked at, one after another, before the root is.
pub proof fn what_came_of_it_is_remembered(run: WriteRun, event: WriteEvent, next: u32)
    requires
        run.wf(),
    ensures
        run.stage == WriteStage::Patterns ==> (run.stepped(event).written <==> event
            == WriteEvent::Patterned(true)),
        run.stage != WriteStage::Patterns ==> run.stepped(event).written == run.written,
        run.stage == WriteStage::Restore ==> (run.stepped(event).restored <==> event
            == (WriteEvent::Restored { same: true })),
        run.stage != WriteStage::Restore ==> run.stepped(event).restored == run.restored,
        run.stage is Table ==> (run.stepped(event).still_free <==> run.still_free && event
            == WriteEvent::Entry(0)),
        !(run.stage is Table) ==> run.stepped(event).still_free == run.still_free,
        run.stage == WriteStage::Table(next) && next + 1 < run.first + run.needed_spec()
            ==> run.stepped(event).stage == WriteStage::Table((next + 1) as u32),
        run.stage == WriteStage::Table(next) && next + 1 >= run.first + run.needed_spec()
            ==> run.stepped(event).stage == WriteStage::List,
{
}

} // verus!
