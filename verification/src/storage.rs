//! A partition of the card as a seekable stream of bytes.
//!
//! Whole sectors from a sector boundary go to the card as one run; anything else passes through
//! one cached sector, written back when a different sector is needed or on flush. The card is
//! somebody else's: each step names what to do with it next, and is told how that went.

use vstd::prelude::*;

verus! {

/// Bytes in a sector.
pub const SECTOR: usize = 512;

/// The stream: where the partition starts on the card, the position in bytes from there, and the
/// cached sector, counted from the start.
pub struct Storage {
    pub start: u32,
    pub position: u64,
    pub sector: [u8; 512],
    pub cached: Option<u32>,
    pub dirty: bool,
}

/// What a read or a write does next.
#[derive(Clone, Copy, Debug, PartialEq, Eq, Structural)]
pub enum Next {
    /// Write the cached sector to this block, then say so.
    WriteBack { lba: u32 },
    /// Read this block and hand it over.
    Load { lba: u32 },
    /// Move this many bytes between the buffer and the card, from this block on.
    Run { lba: u32, bytes: usize },
    /// Move this many bytes between the buffer and the cached sector, from this offset on.
    Copy { offset: usize, bytes: usize },
}

/// Where a seek goes.
#[derive(Clone, Copy, Debug, PartialEq, Eq, Structural)]
pub enum SeekFrom {
    Start(u64),
    Current(i64),
    End(i64),
}

/// A seek that cannot be done: from an end that is not known, or out of range.
#[derive(Clone, Copy, Debug, PartialEq, Eq, Structural)]
pub struct SeekError;

impl Storage {
    /// The sector the position is in.
    pub open spec fn index(&self) -> int {
        self.position as int / 512
    }

    /// The offset of the position into its sector.
    pub open spec fn offset(&self) -> int {
        self.position as int % 512
    }

    /// Only a cached sector can have changed.
    pub open spec fn wf(&self) -> bool {
        self.dirty ==> self.cached is Some
    }

    /// How many bytes of a buffer of `len` go as a run: whole sectors, and only from a sector
    /// boundary.
    pub open spec fn run_of(&self, len: int) -> int {
        if self.offset() == 0 {
            len / 512 * 512
        } else {
            0
        }
    }

    /// Whether the blocks of a buffer of `len` at the position, and the cached one, have numbers.
    pub open spec fn fits(&self, len: int) -> bool {
        &&& self.start + self.index() + len / 512 <= u32::MAX
        &&& self.position + len <= u64::MAX
        &&& self.cached is Some ==> self.start + self.cached->0 <= u32::MAX
    }

    /// Whether a buffer of `len` bytes can be moved at the position: the blocks it touches, and
    /// the cached one, have numbers.
    pub fn in_reach(&self, len: usize) -> (r: bool)
        ensures
            r == self.fits(len as int),
    {
        let last: u64 = self.start as u64 + self.position / 512;
        let cached: u64 = match self.cached {
            Some(cached) => self.start as u64 + cached as u64,
            None => 0,
        };
        let ends: bool = match self.position.checked_add(len as u64) {
            Some(_) => true,
            None => false,
        };
        ends && last <= u32::MAX as u64 && (len / 512) as u64 <= u32::MAX as u64 - last && cached
            <= u32::MAX as u64
    }

    /// A partition's stream, at its first byte, with nothing cached.
    pub fn new(start: u32) -> (r: Self)
        ensures
            r.start == start,
            r.position == 0,
            r.cached is None,
            !r.dirty,
            r.sector@ == Seq::new(512, |i: int| 0u8),
            r.wf(),
    {
        let r = Storage { start, position: 0, sector: [0; 512], cached: None, dirty: false };
        assert(r.sector@ =~= Seq::new(512, |i: int| 0u8));
        r
    }

    /// The sector the position is in, and the offset into it.
    pub fn here(&self) -> (r: (u32, usize))
        requires
            self.index() <= u32::MAX,
        ensures
            r.0 == self.index(),
            r.1 == self.offset(),
    {
        ((self.position / 512) as u32, (self.position % 512) as usize)
    }

    /// What getting sector `index` into the cache takes next, or `None` once it is there.
    pub open spec fn load_spec(&self, index: int) -> Option<Next> {
        if self.cached == Some(index as u32) {
            None
        } else if self.dirty && self.cached is Some {
            Some(Next::WriteBack { lba: (self.start + self.cached->0) as u32 })
        } else {
            Some(Next::Load { lba: (self.start + index) as u32 })
        }
    }

    fn load(&self, index: u32) -> (r: Option<Next>)
        requires
            self.start + index <= u32::MAX,
            self.cached is Some ==> self.start + self.cached->0 <= u32::MAX,
        ensures
            r == self.load_spec(index as int),
    {
        match self.cached {
            Some(cached) => if cached == index {
                None
            } else if self.dirty {
                Some(Next::WriteBack { lba: self.start + cached })
            } else {
                Some(Next::Load { lba: self.start + index })
            },
            None => Some(Next::Load { lba: self.start + index }),
        }
    }

    /// What has to be written before the card alone can be read: the cached sector, if it changed.
    pub open spec fn write_back_spec(&self) -> Option<Next> {
        if self.dirty && self.cached is Some {
            Some(Next::WriteBack { lba: (self.start + self.cached->0) as u32 })
        } else {
            None
        }
    }

    /// What a flush does next: writes the cached sector if it changed, and nothing otherwise.
    pub fn write_back(&self) -> (r: Option<Next>)
        requires
            self.cached is Some ==> self.start + self.cached->0 <= u32::MAX,
        ensures
            r == self.write_back_spec(),
    {
        match self.cached {
            Some(cached) => if self.dirty {
                Some(Next::WriteBack { lba: self.start + cached })
            } else {
                None
            },
            None => None,
        }
    }

    /// What a read of `len` bytes at the position does next.
    pub open spec fn read_spec(&self, len: int) -> Next {
        if self.run_of(len) > 0 {
            match self.write_back_spec() {
                Some(next) => next,
                None => Next::Run {
                    lba: (self.start + self.index()) as u32,
                    bytes: self.run_of(len) as usize,
                },
            }
        } else {
            match self.load_spec(self.index()) {
                Some(next) => next,
                None => Next::Copy {
                    offset: self.offset() as usize,
                    bytes: self.moved(len) as usize,
                },
            }
        }
    }

    /// How many bytes of a buffer of `len` one read or write moves: the run, or what is left of
    /// the sector.
    pub open spec fn moved(&self, len: int) -> int {
        if self.run_of(len) > 0 {
            self.run_of(len)
        } else if len < 512 - self.offset() {
            len
        } else {
            512 - self.offset()
        }
    }

    /// What a read into a buffer of `len` bytes does next.
    pub fn next_read(&self, len: usize) -> (next: Next)
        requires
            self.fits(len as int),
        ensures
            next == self.read_spec(len as int),
    {
        let (index, offset) = self.here();
        let whole: usize = len / SECTOR * SECTOR;
        if offset == 0 && whole > 0 {
            match self.write_back() {
                Some(next) => next,
                None => Next::Run { lba: self.start + index, bytes: whole },
            }
        } else {
            match self.load(index) {
                Some(next) => next,
                None => {
                    let left: usize = SECTOR - offset;
                    Next::Copy {
                        offset,
                        bytes: if len < left {
                            len
                        } else {
                            left
                        },
                    }
                },
            }
        }
    }

    /// Whether a run of `len` bytes at the position replaces the cached sector.
    pub open spec fn run_replaces(&self, len: int) -> bool {
        &&& self.run_of(len) > 0
        &&& self.cached is Some
        &&& self.index() <= self.cached->0 < self.index() + len / 512
    }

    /// What a write of `len` bytes at the position does next.
    pub open spec fn write_spec(&self, len: int) -> Next {
        if self.run_of(len) > 0 {
            Next::Run {
                lba: (self.start + self.index()) as u32,
                bytes: self.run_of(len) as usize,
            }
        } else {
            match self.load_spec(self.index()) {
                Some(next) => next,
                None => Next::Copy {
                    offset: self.offset() as usize,
                    bytes: self.moved(len) as usize,
                },
            }
        }
    }

    /// What a write from a buffer of `len` bytes does next. A run replaces the cached sector if
    /// that lies in it, pending changes included.
    pub fn next_write(&mut self, len: usize) -> (next: Next)
        requires
            old(self).fits(len as int),
        ensures
            next == old(self).write_spec(len as int),
            old(self).wf() ==> final(self).wf(),
            *final(self) == (if old(self).run_replaces(len as int) {
                Storage { cached: None, dirty: false, ..*old(self) }
            } else {
                *old(self)
            }),
    {
        let (index, offset) = self.here();
        let whole: usize = len / SECTOR * SECTOR;
        if offset == 0 && whole > 0 {
            let sectors: u32 = (whole / SECTOR) as u32;
            if let Some(cached) = self.cached {
                if index <= cached && cached < index + sectors {
                    self.cached = None;
                    self.dirty = false;
                }
            }
            Next::Run { lba: self.start + index, bytes: whole }
        } else {
            match self.load(index) {
                Some(next) => next,
                None => {
                    let left: usize = SECTOR - offset;
                    Next::Copy {
                        offset,
                        bytes: if len < left {
                            len
                        } else {
                            left
                        },
                    }
                },
            }
        }
    }

    /// The cached sector reached the card.
    pub fn written_back(&mut self)
        ensures
            final(self).wf(),
            *final(self) == (Storage { dirty: false, ..*old(self) }),
    {
        self.dirty = false;
    }

    /// The sector at the position was read from the card.
    pub fn loaded(&mut self, bytes: [u8; 512])
        requires
            old(self).index() <= u32::MAX,
        ensures
            final(self).wf(),
            *final(self) == (Storage {
                sector: bytes,
                cached: Some(old(self).index() as u32),
                ..*old(self)
            }),
    {
        let (index, _) = self.here();
        self.sector = bytes;
        self.cached = Some(index);
    }

    /// A run of this many bytes was moved.
    pub fn ran(&mut self, bytes: usize)
        requires
            old(self).position + bytes <= u64::MAX,
        ensures
            *final(self) == (Storage { position: (old(self).position + bytes) as u64, ..*old(self) }),
    {
        self.position = self.position + bytes as u64;
    }

    /// Moves bytes from the cached sector into the front of a buffer; says how many.
    pub fn copy_out(&mut self, buffer: &mut Vec<u8>) -> (bytes: usize)
        requires
            old(self).fits(old(buffer).len() as int),
            old(self).run_of(old(buffer).len() as int) == 0,
            old(self).cached == Some(old(self).index() as u32),
        ensures
            bytes == old(self).moved(old(buffer).len() as int),
            final(buffer)@ == old(self).sector@.subrange(
                old(self).offset(),
                old(self).offset() + bytes,
            ) + old(buffer)@.skip(bytes as int),
            *final(self) == (Storage { position: (old(self).position + bytes) as u64, ..*old(self) }),
    {
        let offset: usize = (self.position % 512) as usize;
        let left: usize = SECTOR - offset;
        let bytes: usize = if buffer.len() < left {
            buffer.len()
        } else {
            left
        };
        let ghost before = buffer@;
        let mut i: usize = 0;
        while i < bytes
            invariant
                i <= bytes,
                bytes <= buffer.len(),
                offset + bytes <= 512,
                buffer.len() == before.len(),
                forall|k: int| 0 <= k < i ==> buffer[k] == self.sector[offset + k],
                forall|k: int| i <= k < before.len() ==> buffer[k] == before[k],
            decreases bytes - i,
        {
            buffer[i] = self.sector[offset + i];
            i = i + 1;
        }
        assert(buffer@ =~= self.sector@.subrange(offset as int, offset + bytes) + before.skip(
            bytes as int,
        ));
        self.position = self.position + bytes as u64;
        bytes
    }

    /// Moves bytes from the front of a buffer into the cached sector; says how many.
    pub fn copy_in(&mut self, buffer: &Vec<u8>) -> (bytes: usize)
        requires
            old(self).fits(buffer.len() as int),
            old(self).run_of(buffer.len() as int) == 0,
            old(self).cached == Some(old(self).index() as u32),
        ensures
            final(self).wf(),
            bytes == old(self).moved(buffer.len() as int),
            final(self).sector@ == old(self).sector@.take(old(self).offset()) + buffer@.take(
                bytes as int,
            ) + old(self).sector@.skip(old(self).offset() + bytes),
            final(self).dirty,
            final(self).cached == old(self).cached,
            final(self).start == old(self).start,
            final(self).position == old(self).position + bytes,
    {
        let offset: usize = (self.position % 512) as usize;
        let left: usize = SECTOR - offset;
        let bytes: usize = if buffer.len() < left {
            buffer.len()
        } else {
            left
        };
        let ghost before = *self;
        let mut i: usize = 0;
        while i < bytes
            invariant
                i <= bytes,
                bytes <= buffer.len(),
                offset + bytes <= 512,
                self.position == before.position,
                self.cached == before.cached,
                self.start == before.start,
                forall|k: int| 0 <= k < offset ==> self.sector[k] == before.sector[k],
                forall|k: int| 0 <= k < i ==> self.sector[offset + k] == buffer[k],
                forall|k: int| offset + i <= k < 512 ==> self.sector[k] == before.sector[k],
            decreases bytes - i,
        {
            self.sector[offset + i] = buffer[i];
            i = i + 1;
        }
        assert(self.sector@ =~= before.sector@.take(offset as int) + buffer@.take(bytes as int)
            + before.sector@.skip(offset + bytes)) by {
            assert forall|k: int| offset <= k < offset + bytes implies self.sector@[k] == buffer@[k
                - offset] by {
                let j = k - offset;
                assert(self.sector[offset + j] == buffer[j]);
            }
        }
        self.dirty = true;
        self.position = self.position + bytes as u64;
        bytes
    }

    /// Goes to a position. A move from the end is refused, the end is not known; so is one that
    /// would leave the range of positions.
    pub fn seek(&mut self, to: SeekFrom) -> (r: Result<u64, SeekError>)
        ensures
            to is End ==> r is Err,
            to is Start ==> r is Ok && final(self).position == to->Start_0,
            (to matches SeekFrom::Current(by) ==> r is Ok ==> final(self).position == old(self).position
                + by),
            r is Err ==> *final(self) == *old(self),
            final(self).sector == old(self).sector && final(self).cached == old(self).cached,
            final(self).dirty == old(self).dirty && final(self).start == old(self).start,
            (match to {
                SeekFrom::Start(at) => r == Ok::<u64, SeekError>(at),
                SeekFrom::Current(by) => if 0 <= old(self).position + by <= u64::MAX {
                    r == Ok::<u64, SeekError>((old(self).position + by) as u64)
                } else {
                    r == Err::<u64, SeekError>(SeekError)
                },
                SeekFrom::End(_) => r == Err::<u64, SeekError>(SeekError),
            }),
            *final(self) == (match r {
                Ok(at) => Storage { position: at, ..*old(self) },
                Err(_) => *old(self),
            }),
    {
        let at: u64 = match to {
            SeekFrom::Start(at) => at,
            SeekFrom::Current(by) => {
                let there: i128 = self.position as i128 + by as i128;
                if there < 0 || there > u64::MAX as i128 {
                    return Err(SeekError);
                }
                there as u64
            },
            SeekFrom::End(_) => {
                return Err(SeekError);
            },
        };
        self.position = at;
        Ok(at)
    }
}

/// What the card holds, sector by sector from the start of the partition.
pub type Disk = Map<int, Seq<u8>>;

/// A card of whole sectors.
pub open spec fn is_disk(disk: Disk) -> bool {
    forall|i: int| 0 <= i ==> #[trigger] disk.dom().contains(i) && disk[i].len() == 512
}

/// The cached sector, where it did not change, is the card's.
pub open spec fn coherent(storage: &Storage, disk: Disk) -> bool {
    storage.cached is Some && !storage.dirty ==> storage.sector@ == disk[storage.cached->0 as int]
}

/// The byte of the partition at `at`: the cached sector's where it changed, the card's
/// everywhere else.
pub open spec fn byte_at(storage: &Storage, disk: Disk, at: int) -> u8 {
    if storage.dirty && storage.cached == Some((at / 512) as u32) && at / 512 <= u32::MAX {
        storage.sector@[at % 512]
    } else {
        disk[at / 512][at % 512]
    }
}

/// The card after whole sectors were written from sector `index` on.
pub open spec fn run_written(disk: Disk, index: int, bytes: Seq<u8>) -> Disk {
    Map::new(
        |i: int| disk.dom().contains(i),
        |i: int|
            if index <= i < index + bytes.len() / 512 {
                bytes.subrange((i - index) * 512, (i - index) * 512 + 512)
            } else {
                disk[i]
            },
    )
}

/// Writing the cached sector back changes no byte of the partition, and leaves the card with
/// all of them.
pub proof fn write_back_keeps_every_byte(before: Storage, after: Storage, disk: Disk, at: int)
    requires
        is_disk(disk),
        before.dirty,
        before.cached is Some,
        after == (Storage { dirty: false, ..before }),
        at >= 0,
    ensures
        ({
            let written = disk.insert(before.cached->0 as int, before.sector@);
            &&& is_disk(written)
            &&& coherent(&after, written)
            &&& byte_at(&after, written, at) == byte_at(&before, disk, at)
            &&& written[at / 512][at % 512] == byte_at(&before, disk, at)
        }),
{
}

/// Loading a sector changes no byte of the partition: it happens only once nothing in the cache
/// is unwritten.
pub proof fn load_keeps_every_byte(
    before: Storage,
    after: Storage,
    disk: Disk,
    bytes: [u8; 512],
    at: int,
)
    requires
        is_disk(disk),
        before.index() <= u32::MAX,
        before.load_spec(before.index()) is Some,
        before.load_spec(before.index())->0 is Load,
        bytes@ == disk[before.index()],
        after == (Storage { sector: bytes, cached: Some(before.index() as u32), ..before }),
        at >= 0,
        before.wf(),
    ensures
        coherent(&after, disk),
        byte_at(&after, disk, at) == byte_at(&before, disk, at),
{
}

/// What is copied out of the cache is what the partition holds at the position.
pub proof fn copy_out_reads_the_partition(storage: Storage, disk: Disk, len: int, k: int)
    requires
        is_disk(disk),
        coherent(&storage, disk),
        storage.index() <= u32::MAX,
        storage.read_spec(len) is Copy,
        storage.run_of(len) == 0,
        0 <= k < storage.moved(len),
    ensures
        storage.sector@[storage.offset() + k] == byte_at(&storage, disk, storage.position + k),
{
    assert((storage.position + k) / 512 == storage.index());
    assert((storage.position + k) % 512 == storage.offset() + k);
}

/// A run that is read straight from the card is what the partition holds there: nothing in the
/// cache is unwritten by then.
pub proof fn run_reads_the_partition(storage: Storage, disk: Disk, len: int, k: int)
    requires
        is_disk(disk),
        storage.wf(),
        storage.run_of(len) > 0,
        storage.read_spec(len) is Run,
        0 <= k < storage.run_of(len),
    ensures
        disk[storage.index() + k / 512][k % 512] == byte_at(&storage, disk, storage.position + k),
{
    assert((storage.position + k) / 512 == storage.index() + k / 512);
    assert((storage.position + k) % 512 == k % 512);
}

/// Copying into the cache writes the partition at the position and nowhere else.
pub proof fn copy_in_writes_the_partition(
    before: Storage,
    after: Storage,
    disk: Disk,
    buffer: Seq<u8>,
    at: int,
)
    requires
        is_disk(disk),
        coherent(&before, disk),
        before.index() <= u32::MAX,
        before.write_spec(buffer.len() as int) is Copy,
        before.run_of(buffer.len() as int) == 0,
        after.sector@ == before.sector@.take(before.offset()) + buffer.take(
            before.moved(buffer.len() as int),
        ) + before.sector@.skip(before.offset() + before.moved(buffer.len() as int)),
        after.dirty,
        after.cached == before.cached,
        after.start == before.start,
        at >= 0,
    ensures
        byte_at(&after, disk, at) == (if before.position <= at < before.position + before.moved(
            buffer.len() as int,
        ) {
            buffer[at - before.position]
        } else {
            byte_at(&before, disk, at)
        }),
{
    let moved = before.moved(buffer.len() as int);
    assert(before.sector@.len() == 512);
    if at / 512 == before.index() {
        assert(at - before.position == at % 512 - before.offset());
    } else {
        assert(!(before.position <= at < before.position + moved));
    }
}

/// A run writes the partition at the position and nowhere else, whatever the cache held.
pub proof fn run_writes_the_partition(
    before: Storage,
    after: Storage,
    disk: Disk,
    buffer: Seq<u8>,
    at: int,
)
    requires
        is_disk(disk),
        before.fits(buffer.len() as int),
        before.run_of(buffer.len() as int) > 0,
        after == (if before.run_replaces(buffer.len() as int) {
            Storage { cached: None, dirty: false, ..before }
        } else {
            before
        }),
        coherent(&before, disk),
        at >= 0,
    ensures
        ({
            let run = buffer.take(before.run_of(buffer.len() as int));
            let written = run_written(disk, before.index(), run);
            &&& is_disk(written)
            &&& coherent(&after, written)
            &&& byte_at(&after, written, at) == (if before.position <= at < before.position
                + run.len() {
                buffer[at - before.position]
            } else {
                byte_at(&before, disk, at)
            })
        }),
{
    let len = buffer.len() as int;
    let run = buffer.take(before.run_of(len));
    let written = run_written(disk, before.index(), run);
    assert(run.len() / 512 == len / 512);
    assert forall|i: int| 0 <= i implies #[trigger] written.dom().contains(i) && written[i].len()
        == 512 by {
        assert(disk.dom().contains(i));
        if before.index() <= i < before.index() + run.len() / 512 {
            assert(0 <= (i - before.index()) * 512);
            assert((i - before.index()) * 512 + 512 <= run.len());
        }
    }
    let i = at / 512;
    assert(disk.dom().contains(i));
    assert(written.dom().contains(i));
    if before.index() <= i < before.index() + len / 512 {
        assert(at - before.position == (i - before.index()) * 512 + at % 512);
        assert(before.position <= at < before.position + run.len());
        assert(written[i] == run.subrange(
            (i - before.index()) * 512,
            (i - before.index()) * 512 + 512,
        ));
    } else {
        assert(!(before.position <= at < before.position + run.len()));
    }
}

/// What one read of `len` bytes hands out once nothing is left to be written or loaded first.
pub open spec fn read_out(storage: &Storage, disk: Disk, len: int) -> Seq<u8> {
    if storage.run_of(len) > 0 {
        Seq::new(
            storage.run_of(len) as nat,
            |k: int| disk[storage.index() + k / 512][k % 512],
        )
    } else {
        storage.sector@.subrange(storage.offset(), storage.offset() + storage.moved(len))
    }
}

/// Whether the partition holds these bytes from `at` on.
pub open spec fn holds(storage: &Storage, disk: Disk, at: int, bytes: Seq<u8>) -> bool {
    forall|k: int| 0 <= k < bytes.len() ==> byte_at(storage, disk, at + k) == #[trigger] bytes[k]
}

/// A read hands out what the partition holds at the position, however much of it is still in
/// the cache.
pub proof fn reads_hand_out_the_partition(storage: Storage, disk: Disk, len: int)
    requires
        is_disk(disk),
        coherent(&storage, disk),
        storage.wf(),
        storage.index() <= u32::MAX,
        len >= 0,
        storage.read_spec(len) is Run || storage.read_spec(len) is Copy,
    ensures
        read_out(&storage, disk, len).len() == storage.moved(len),
        holds(&storage, disk, storage.position as int, read_out(&storage, disk, len)),
{
    let out = read_out(&storage, disk, len);
    assert(storage.sector@.len() == 512);
    assert forall|k: int| 0 <= k < out.len() implies byte_at(
        &storage,
        disk,
        storage.position + k,
    ) == #[trigger] out[k] by {
        if storage.run_of(len) > 0 {
            run_reads_the_partition(storage, disk, len, k);
        } else {
            copy_out_reads_the_partition(storage, disk, len, k);
        }
    }
}

/// A stream and its card before and after the cached sector was written back, where that was what
/// came next, and as they were where it was not.
pub open spec fn written_first(
    before: &Storage,
    disk: Disk,
    next: Next,
    after: &Storage,
    written: Disk,
) -> bool {
    if next is WriteBack {
        &&& *after == (Storage { dirty: false, ..*before })
        &&& written == disk.insert(before.cached->0 as int, before.sector@)
    } else {
        *after == *before && written == disk
    }
}

/// A stream before and after the sector at its position was loaded, where that was what came next,
/// and as it was where it was not.
pub open spec fn loaded_first(before: &Storage, disk: Disk, next: Next, after: &Storage) -> bool {
    if next is Load {
        &&& after.sector@ == disk[before.index()]
        &&& *after == (Storage {
            sector: after.sector,
            cached: Some(before.index() as u32),
            ..*before
        })
    } else {
        *after == *before
    }
}

/// The bytes of the partition from `at` on.
pub open spec fn bytes_from(storage: &Storage, disk: Disk, at: int, len: int) -> Seq<u8> {
    Seq::new(len as nat, |k: int| byte_at(storage, disk, at + k))
}

/// A read sees every earlier write, cached or not. From any state it takes at most a write-back
/// and a load before bytes move; no byte of the partition changes by them; and what is handed out
/// is what the partition holds at the position: at most what was asked for, and at least one byte
/// unless nothing was.
pub proof fn a_read_sees_every_write(
    before: Storage,
    disk: Disk,
    between: Storage,
    written: Disk,
    ready: Storage,
    len: int,
)
    requires
        is_disk(disk),
        coherent(&before, disk),
        before.wf(),
        before.index() <= u32::MAX,
        len >= 0,
        written_first(&before, disk, before.read_spec(len), &between, written),
        loaded_first(&between, written, between.read_spec(len), &ready),
    ensures
        ready.read_spec(len) is Run || ready.read_spec(len) is Copy,
        read_out(&ready, written, len) == bytes_from(
            &before,
            disk,
            before.position as int,
            before.moved(len),
        ),
        before.moved(len) <= len,
        len > 0 ==> before.moved(len) >= 1,
        ready.position == before.position,
        is_disk(written),
        coherent(&ready, written),
        ready.wf(),
        forall|at: int|
            at >= 0 ==> #[trigger] byte_at(&ready, written, at) == byte_at(&before, disk, at),
{
    assert forall|at: int| at >= 0 implies #[trigger] byte_at(&between, written, at) == byte_at(
        &before,
        disk,
        at,
    ) by {
        if before.read_spec(len) is WriteBack {
            write_back_keeps_every_byte(before, between, disk, at);
        }
    }
    if before.read_spec(len) is WriteBack {
        write_back_keeps_every_byte(before, between, disk, 0);
    }
    assert forall|at: int| at >= 0 implies #[trigger] byte_at(&ready, written, at) == byte_at(
        &before,
        disk,
        at,
    ) by {
        assert(byte_at(&between, written, at) == byte_at(&before, disk, at));
        if between.read_spec(len) is Load {
            load_keeps_every_byte(between, ready, written, ready.sector, at);
        }
    }
    if between.read_spec(len) is Load {
        load_keeps_every_byte(between, ready, written, ready.sector, 0);
    }
    reads_hand_out_the_partition(ready, written, len);
    let out = read_out(&ready, written, len);
    let want = bytes_from(&before, disk, before.position as int, before.moved(len));
    assert forall|k: int| 0 <= k < out.len() implies out[k] == want[k] by {
        assert(byte_at(&ready, written, ready.position + k) == out[k]);
    }
    assert(out =~= want);
}

/// A read gives back what a write wrote: where the partition still holds the bytes of a write, a
/// read at its position hands out as many of them as it moves, whatever of them is on the card by
/// then.
pub proof fn a_read_gives_back_a_write(
    before: Storage,
    disk: Disk,
    between: Storage,
    written: Disk,
    ready: Storage,
    len: int,
    bytes: Seq<u8>,
)
    requires
        is_disk(disk),
        coherent(&before, disk),
        before.wf(),
        before.index() <= u32::MAX,
        len >= 0,
        written_first(&before, disk, before.read_spec(len), &between, written),
        loaded_first(&between, written, between.read_spec(len), &ready),
        holds(&before, disk, before.position as int, bytes),
    ensures
        forall|k: int|
            0 <= k < bytes.len() && k < before.moved(len) ==> read_out(&ready, written, len)[k]
                == #[trigger] bytes[k],
{
    a_read_sees_every_write(before, disk, between, written, ready, len);
}

/// What a write copied into the cache is what the partition holds where it was written.
pub proof fn a_copied_write_is_held(before: Storage, after: Storage, disk: Disk, buffer: Seq<u8>)
    requires
        is_disk(disk),
        coherent(&before, disk),
        before.index() <= u32::MAX,
        before.write_spec(buffer.len() as int) is Copy,
        before.run_of(buffer.len() as int) == 0,
        after.sector@ == before.sector@.take(before.offset()) + buffer.take(
            before.moved(buffer.len() as int),
        ) + before.sector@.skip(before.offset() + before.moved(buffer.len() as int)),
        after.dirty,
        after.cached == before.cached,
        after.start == before.start,
    ensures
        coherent(&after, disk),
        after.wf(),
        holds(
            &after,
            disk,
            before.position as int,
            buffer.take(before.moved(buffer.len() as int)),
        ),
{
    let bytes = buffer.take(before.moved(buffer.len() as int));
    assert forall|k: int| 0 <= k < bytes.len() implies byte_at(&after, disk, before.position + k)
        == #[trigger] bytes[k] by {
        copy_in_writes_the_partition(before, after, disk, buffer, before.position + k);
    }
}

/// What a write moved as a run is what the partition holds where it was written.
pub proof fn a_run_written_is_held(before: Storage, after: Storage, disk: Disk, buffer: Seq<u8>)
    requires
        is_disk(disk),
        before.wf(),
        before.fits(buffer.len() as int),
        before.run_of(buffer.len() as int) > 0,
        after == (if before.run_replaces(buffer.len() as int) {
            Storage { cached: None, dirty: false, ..before }
        } else {
            before
        }),
        coherent(&before, disk),
    ensures
        ({
            let run = buffer.take(before.run_of(buffer.len() as int));
            let written = run_written(disk, before.index(), run);
            &&& is_disk(written)
            &&& coherent(&after, written)
            &&& after.wf()
            &&& holds(&after, written, before.position as int, run)
        }),
{
    let run = buffer.take(before.run_of(buffer.len() as int));
    let written = run_written(disk, before.index(), run);
    run_writes_the_partition(before, after, disk, buffer, before.position as int);
    assert forall|k: int| 0 <= k < run.len() implies byte_at(
        &after,
        written,
        before.position + k,
    ) == #[trigger] run[k] by {
        run_writes_the_partition(before, after, disk, buffer, before.position + k);
    }
}

/// A write through the cache takes at most a write-back and a load before bytes move, and no byte
/// of the partition changes by them.
pub proof fn a_write_loses_nothing_first(
    before: Storage,
    disk: Disk,
    between: Storage,
    written: Disk,
    ready: Storage,
    len: int,
)
    requires
        is_disk(disk),
        coherent(&before, disk),
        before.wf(),
        before.index() <= u32::MAX,
        len >= 0,
        before.run_of(len) == 0,
        written_first(&before, disk, before.write_spec(len), &between, written),
        loaded_first(&between, written, between.write_spec(len), &ready),
    ensures
        ready.write_spec(len) is Copy,
        ready.position == before.position,
        is_disk(written),
        coherent(&ready, written),
        ready.wf(),
        forall|at: int|
            at >= 0 ==> #[trigger] byte_at(&ready, written, at) == byte_at(&before, disk, at),
{
    a_read_sees_every_write(before, disk, between, written, ready, len);
}

/// After a flush the card alone holds every byte of the partition.
pub proof fn flushed_means_on_the_card(storage: Storage, disk: Disk, at: int)
    requires
        storage.wf(),
        storage.write_back_spec() is None,
        at >= 0,
    ensures
        disk[at / 512][at % 512] == byte_at(&storage, disk, at),
{
}

/// What comes next names the card's own blocks: the sector of the position counted from the start of
/// the partition where it is read, the cached one where that is written back, and the position's
/// offset into its sector where bytes are copied.
#[verifier::spinoff_prover]
pub proof fn what_comes_next_names_the_cards_blocks(storage: Storage, len: int)
    requires
        storage.wf(),
        0 <= len,
        storage.fits(len),
        len <= usize::MAX,
    ensures
        forall|next: Next|
            next == storage.read_spec(len) || next == storage.write_spec(len) ==> {
                &&& (#[trigger] (next is Load) ==> next->Load_lba == storage.start
                    + storage.position / 512)
                &&& (next is Run ==> next->Run_lba == storage.start + storage.position / 512
                    && next->Run_bytes == storage.moved(len) && storage.position % 512 == 0)
                &&& (next is Copy ==> next->offset == storage.position % 512 && next->Copy_bytes
                    == storage.moved(len))
                &&& (next is WriteBack ==> storage.dirty && storage.cached is Some
                    && next->WriteBack_lba == storage.start + storage.cached->0)
            },
        (storage.write_back_spec() matches Some(next) ==> next is WriteBack && next->WriteBack_lba
            == storage.start + storage.cached->0),
        storage.write_back_spec() is Some <==> storage.dirty,
{
    assert(storage.run_of(len) <= len);
    assert(storage.moved(len) <= len || len < 0);
}

/// A run is taken only from the start of a sector, and then of all the whole sectors there are;
/// anything else stays within the sector, and reaches its end where there is as much.
#[verifier::spinoff_prover]
pub proof fn as_much_as_possible_moves_at_once(storage: Storage, len: int)
    requires
        0 <= len,
    ensures
        storage.run_of(len) % 512 == 0,
        storage.position % 512 != 0 ==> storage.run_of(len) == 0,
        storage.position % 512 == 0 ==> storage.run_of(len) <= len < storage.run_of(len) + 512,
        storage.run_of(len) > 0 ==> storage.moved(len) == storage.run_of(len),
        storage.run_of(len) == 0 ==> storage.moved(len) <= len && storage.position % 512
            + storage.moved(len) <= 512,
        storage.run_of(len) == 0 && storage.moved(len) < len ==> (storage.position
            + storage.moved(len)) % 512 == 0,
{
}

/// A buffer is in reach if every block it touches, and the cached one, have numbers, and the position
/// behind it is one.
#[verifier::spinoff_prover]
pub proof fn in_reach_is_having_numbers(storage: Storage, len: int)
    requires
        0 <= len,
    ensures
        storage.fits(len) <==> storage.start + storage.position / 512 + len / 512 < 0x1_0000_0000
            && storage.position + len < 0x1_0000_0000_0000_0000 && (storage.cached matches Some(c)
            ==> storage.start + c < 0x1_0000_0000),
{
}

} // verus!
