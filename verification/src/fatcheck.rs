//! Checking a filesystem that writes with one that only reads: a directory and a file with long
//! names are made, looked at through the other, and removed again.

use vstd::prelude::*;
use vstd::string::*;

verus! {

/// The directory that is made.
pub const DIR: &'static str = "Teetotum write test";

/// The file in it: a long name that is not all ASCII.
pub const FILE: &'static str = "Long name with \u{fc}mlaut, checked.txt";

/// Three clusters and a bit, and not a multiple of a sector.
pub const FILE_BYTES: usize = 10_000;

/// A date and a time, as a filesystem stamps them.
#[derive(Clone, Copy, Debug, PartialEq, Eq, Structural)]
pub struct Stamp {
    pub year: u16,
    pub month: u8,
    pub day: u8,
    pub hour: u8,
    pub minute: u8,
    pub second: u8,
}

/// What the clock says that the writer stamps new entries with.
pub open spec fn clock_spec() -> Stamp {
    Stamp { year: 2026, month: 9, day: 15, hour: 12, minute: 0, second: 0 }
}

/// When the file is said to have been created.
pub open spec fn created_spec() -> Stamp {
    Stamp { year: 2026, month: 9, day: 15, hour: 16, minute: 10, second: 24 }
}

/// When the file is said to have been modified.
pub open spec fn modified_spec() -> Stamp {
    Stamp { year: 2024, month: 3, day: 1, hour: 9, minute: 30, second: 0 }
}

pub fn clock() -> (r: Stamp)
    ensures
        r == clock_spec(),
{
    Stamp { year: 2026, month: 9, day: 15, hour: 12, minute: 0, second: 0 }
}

pub fn created() -> (r: Stamp)
    ensures
        r == created_spec(),
{
    Stamp { year: 2026, month: 9, day: 15, hour: 16, minute: 10, second: 24 }
}

pub fn modified() -> (r: Stamp)
    ensures
        r == modified_spec(),
{
    Stamp { year: 2024, month: 3, day: 1, hour: 9, minute: 30, second: 0 }
}

/// Hands on what worked, and only that it failed of what did not.
pub fn check<T, E>(result: Result<T, E>) -> (r: Result<T, ()>)
    ensures
        r is Ok <==> result is Ok,
        result is Ok ==> r->Ok_0 == result->Ok_0,
{
    match result {
        Ok(value) => Ok(value),
        Err(_) => Err(()),
    }
}

/// The flags byte of a boot sector, whose bit 0 marks a volume that was not cleanly unmounted:
/// FAT32 keeps it elsewhere than FAT16.
pub fn volume_flags(boot: &[u8; 512], fat32: bool) -> (flags: u8)
    ensures
        flags == flags_of(boot@, fat32),
{
    if fat32 {
        boot[0x41]
    } else {
        boot[0x25]
    }
}

pub open spec fn flags_of(boot: Seq<u8>, fat32: bool) -> u8 {
    if fat32 {
        boot[0x41]
    } else {
        boot[0x25]
    }
}

/// Whether the flags are what they were.
pub fn same_flags(after: u8, before: u8) -> (r: Result<(), ()>)
    ensures
        r is Ok <==> after == before,
{
    if after != before {
        Err(())
    } else {
        Ok(())
    }
}

/// Whether everything reached the card: `lost` is set when the last cached sector could not be
/// written on the way out.
pub fn written_back(lost: bool) -> (r: Result<(), ()>)
    ensures
        r is Ok <==> !lost,
{
    if lost {
        Err(())
    } else {
        Ok(())
    }
}

/// The bytes of the file.
pub open spec fn contents_spec() -> Seq<u8> {
    Seq::new(10_000, |i: int| (i * 7 % 251) as u8)
}

pub fn contents() -> (r: Vec<u8>)
    ensures
        r@ == contents_spec(),
{
    let mut r: Vec<u8> = Vec::new();
    let mut i: usize = 0;
    while i < FILE_BYTES
        invariant
            i <= FILE_BYTES,
            r.len() == i,
            forall|k: int| 0 <= k < i ==> r[k] == (k * 7 % 251) as u8,
        decreases FILE_BYTES - i,
    {
        r.push((i * 7 % 251) as u8);
        i = i + 1;
    }
    assert(r@ =~= contents_spec());
    r
}

/// A directory entry as the reader shows it.
#[derive(Debug)]
pub struct Entry {
    pub name: String,
    pub directory: bool,
    pub size: u32,
    pub created: Option<Stamp>,
    pub modified: Option<Stamp>,
}

/// Whether the entry is the directory that was made, stamped by the clock.
pub open spec fn is_made(entry: Entry) -> bool {
    &&& entry.name@ == DIR@
    &&& entry.directory
    &&& entry.created == Some(clock_spec())
}

/// Whether the entry is the file that was written, with the stamps it was given.
pub open spec fn is_written(entry: Entry) -> bool {
    &&& entry.name@ == FILE@
    &&& entry.size == 10_000
    &&& entry.created == Some(created_spec())
    &&& entry.modified == Some(modified_spec())
}

fn stamped(stamp: Option<Stamp>, want: Stamp) -> (r: bool)
    ensures
        r == (stamp == Some(want)),
{
    match stamp {
        Some(stamp) => stamp == want,
        None => false,
    }
}

fn made(entry: &Entry) -> (r: bool)
    ensures
        r == is_made(*entry),
{
    entry.name == DIR.to_owned() && entry.directory && stamped(entry.created, clock())
}

fn written(entry: &Entry) -> (r: bool)
    ensures
        r == is_written(*entry),
{
    entry.name == FILE.to_owned() && entry.size as usize == FILE_BYTES && stamped(
        entry.created,
        created(),
    ) && stamped(entry.modified, modified())
}

fn same_bytes(a: &Vec<u8>, b: &Vec<u8>) -> (r: bool)
    ensures
        r == (a@ == b@),
{
    crate::upload::same_id(a, b)
}

/// How far a run is: what is done next.
#[derive(Clone, Copy, Debug, PartialEq, Eq, Structural)]
pub enum Stage {
    Mount,
    CountBefore,
    FlagsBefore,
    LookBefore,
    /// Make the directory and the file through the writer, and unmount it.
    Write,
    Remount,
    FlagsWritten,
    LookDirectory,
    LookFile,
    ReadBack,
    /// Remove both through the writer, and unmount it.
    Remove,
    RemountAgain,
    FlagsRemoved,
    LookAfter,
    CountAfter,
    Passed,
    Failed,
}

/// How a stage went.
#[derive(Debug)]
pub enum Event {
    Error,
    Mounted { fat32: bool },
    Counted(usize),
    Boot([u8; 512]),
    /// The directory was not found.
    NotFound,
    Found(Entry),
    /// The writer is done; `lost` says that its last sector never reached the card.
    Wrote { lost: bool },
    Bytes(Vec<u8>),
}

/// A run over the card.
#[derive(Clone, Copy, Debug, PartialEq, Eq, Structural)]
pub struct FatRun {
    pub stage: Stage,
    /// Entries in the root before anything was written.
    pub before: usize,
    /// The volume's flags before anything was written.
    pub flags: u8,
    pub fat32: bool,
    /// Whether the directory was what was made.
    pub made: bool,
}

impl FatRun {
    /// What a run comes to by an event. Only two stages go on after an error: the first look for
    /// the directory, where it only has to be missing, and the last, where it has to be not
    /// found.
    pub open spec fn stepped(self, event: Event) -> FatRun {
        let failed = FatRun { stage: Stage::Failed, ..self };
        match self.stage {
            Stage::Mount => match event {
                Event::Mounted { fat32 } => FatRun { stage: Stage::CountBefore, fat32, ..self },
                _ => failed,
            },
            Stage::CountBefore => match event {
                Event::Counted(before) => FatRun { stage: Stage::FlagsBefore, before, ..self },
                _ => failed,
            },
            Stage::FlagsBefore => match event {
                Event::Boot(boot) => FatRun {
                    stage: Stage::LookBefore,
                    flags: flags_of(boot@, self.fat32),
                    ..self
                },
                _ => failed,
            },
            Stage::LookBefore => match event {
                Event::Found(_) => failed,
                _ => FatRun { stage: Stage::Write, ..self },
            },
            Stage::Write => match event {
                Event::Wrote { lost: false } => FatRun { stage: Stage::Remount, ..self },
                _ => failed,
            },
            Stage::Remount => match event {
                Event::Mounted { fat32 } => FatRun { stage: Stage::FlagsWritten, fat32, ..self },
                _ => failed,
            },
            Stage::FlagsWritten => match event {
                Event::Boot(boot) => if flags_of(boot@, self.fat32) == self.flags {
                    FatRun { stage: Stage::LookDirectory, ..self }
                } else {
                    failed
                },
                _ => failed,
            },
            Stage::LookDirectory => match event {
                Event::Found(entry) => FatRun {
                    stage: Stage::LookFile,
                    made: is_made(entry),
                    ..self
                },
                _ => failed,
            },
            Stage::LookFile => match event {
                Event::Found(entry) => if self.made && is_written(entry) && !entry.directory {
                    FatRun { stage: Stage::ReadBack, ..self }
                } else {
                    failed
                },
                _ => failed,
            },
            Stage::ReadBack => match event {
                Event::Bytes(bytes) => if bytes@ == contents_spec() {
                    FatRun { stage: Stage::Remove, ..self }
                } else {
                    failed
                },
                _ => failed,
            },
            Stage::Remove => match event {
                Event::Wrote { lost: false } => FatRun { stage: Stage::RemountAgain, ..self },
                _ => failed,
            },
            Stage::RemountAgain => match event {
                Event::Mounted { fat32 } => FatRun { stage: Stage::FlagsRemoved, fat32, ..self },
                _ => failed,
            },
            Stage::FlagsRemoved => match event {
                Event::Boot(boot) => if flags_of(boot@, self.fat32) == self.flags {
                    FatRun { stage: Stage::LookAfter, ..self }
                } else {
                    failed
                },
                _ => failed,
            },
            Stage::LookAfter => match event {
                Event::NotFound => FatRun { stage: Stage::CountAfter, ..self },
                _ => failed,
            },
            Stage::CountAfter => match event {
                Event::Counted(after) => if after == self.before {
                    FatRun { stage: Stage::Passed, ..self }
                } else {
                    failed
                },
                _ => failed,
            },
            Stage::Passed => self,
            Stage::Failed => self,
        }
    }

    pub fn new() -> (r: Self)
        ensures
            r == FatRun::start(),
    {
        FatRun { stage: Stage::Mount, before: 0, flags: 0, fat32: false, made: false }
    }

    pub open spec fn start() -> FatRun {
        FatRun { stage: Stage::Mount, before: 0, flags: 0, fat32: false, made: false }
    }

    /// Takes how the stage went.
    pub fn step(&mut self, event: &Event)
        ensures
            *final(self) == old(self).stepped(*event),
    {
        let next = match (self.stage, event) {
            (Stage::Mount, Event::Mounted { fat32 }) => {
                self.fat32 = *fat32;
                Stage::CountBefore
            },
            (Stage::CountBefore, Event::Counted(before)) => {
                self.before = *before;
                Stage::FlagsBefore
            },
            (Stage::FlagsBefore, Event::Boot(boot)) => {
                self.flags = volume_flags(boot, self.fat32);
                Stage::LookBefore
            },
            (Stage::LookBefore, Event::Found(_)) => Stage::Failed,
            (Stage::LookBefore, _) => Stage::Write,
            (Stage::Write, Event::Wrote { lost }) => match written_back(*lost) {
                Ok(_) => Stage::Remount,
                Err(_) => Stage::Failed,
            },
            (Stage::Remount, Event::Mounted { fat32 }) => {
                self.fat32 = *fat32;
                Stage::FlagsWritten
            },
            (Stage::FlagsWritten, Event::Boot(boot)) => match same_flags(
                volume_flags(boot, self.fat32),
                self.flags,
            ) {
                Ok(_) => Stage::LookDirectory,
                Err(_) => Stage::Failed,
            },
            (Stage::LookDirectory, Event::Found(entry)) => {
                self.made = made(entry);
                Stage::LookFile
            },
            (Stage::LookFile, Event::Found(entry)) => if self.made && written(entry)
                && !entry.directory {
                Stage::ReadBack
            } else {
                Stage::Failed
            },
            (Stage::ReadBack, Event::Bytes(bytes)) => if same_bytes(bytes, &contents()) {
                Stage::Remove
            } else {
                Stage::Failed
            },
            (Stage::Remove, Event::Wrote { lost }) => match written_back(*lost) {
                Ok(_) => Stage::RemountAgain,
                Err(_) => Stage::Failed,
            },
            (Stage::RemountAgain, Event::Mounted { fat32 }) => {
                self.fat32 = *fat32;
                Stage::FlagsRemoved
            },
            (Stage::FlagsRemoved, Event::Boot(boot)) => match same_flags(
                volume_flags(boot, self.fat32),
                self.flags,
            ) {
                Ok(_) => Stage::LookAfter,
                Err(_) => Stage::Failed,
            },
            (Stage::LookAfter, Event::NotFound) => Stage::CountAfter,
            (Stage::CountAfter, Event::Counted(after)) => if *after == self.before {
                Stage::Passed
            } else {
                Stage::Failed
            },
            (Stage::Passed, _) => Stage::Passed,
            _ => Stage::Failed,
        };
        self.stage = next;
    }

    /// Where a run stands after these events.
    pub open spec fn after(self, events: Seq<Event>) -> FatRun
        decreases events.len(),
    {
        if events.len() == 0 {
            self
        } else {
            self.after(events.drop_last()).stepped(events.last())
        }
    }
}

/// The flags that a run found before anything was written.
pub open spec fn flags_before(events: Seq<Event>) -> u8 {
    flags_of(events[2]->Boot_0@, events[0]->fat32)
}

/// What has to hold of a run's `n`th event for the run to go on.
pub open spec fn good_at(events: Seq<Event>, n: int) -> bool {
    let event = events[n];
    if n == 0 || n == 5 || n == 11 {
        event is Mounted
    } else if n == 1 {
        event is Counted
    } else if n == 2 {
        event is Boot
    } else if n == 3 {
        !(event is Found)
    } else if n == 4 || n == 10 {
        event == (Event::Wrote { lost: false })
    } else if n == 6 || n == 12 {
        event matches Event::Boot(boot) && flags_of(boot@, events[n - 1]->fat32) == flags_before(
            events,
        )
    } else if n == 7 {
        event is Found
    } else if n == 8 {
        event matches Event::Found(file) && is_made(events[7]->Found_0) && is_written(file)
            && !file.directory
    } else if n == 9 {
        event matches Event::Bytes(bytes) && bytes@ == contents_spec()
    } else if n == 13 {
        event is NotFound
    } else {
        event matches Event::Counted(after) && after == events[1]->Counted_0
    }
}

/// Everything that has to hold of a run for it to pass: every stage worked, nothing was left over
/// from before, the names, stamps and bytes came back as written, no sector was lost, and the
/// flags and the number of entries are what they were.
pub open spec fn all_good(events: Seq<Event>, n: int) -> bool {
    forall|k: int| 0 <= k < n ==> #[trigger] good_at(events, k)
}

spec fn stage_at(n: int) -> Stage {
    if n == 0 {
        Stage::Mount
    } else if n == 1 {
        Stage::CountBefore
    } else if n == 2 {
        Stage::FlagsBefore
    } else if n == 3 {
        Stage::LookBefore
    } else if n == 4 {
        Stage::Write
    } else if n == 5 {
        Stage::Remount
    } else if n == 6 {
        Stage::FlagsWritten
    } else if n == 7 {
        Stage::LookDirectory
    } else if n == 8 {
        Stage::LookFile
    } else if n == 9 {
        Stage::ReadBack
    } else if n == 10 {
        Stage::Remove
    } else if n == 11 {
        Stage::RemountAgain
    } else if n == 12 {
        Stage::FlagsRemoved
    } else if n == 13 {
        Stage::LookAfter
    } else if n == 14 {
        Stage::CountAfter
    } else {
        Stage::Passed
    }
}

proof fn reaches(events: Seq<Event>, n: int)
    requires
        0 <= n <= 15,
        events.len() == 15,
    ensures
        ({
            let run = FatRun::start().after(events.take(n));
            &&& run.stage == stage_at(n) || run.stage == Stage::Failed
            &&& run.stage == stage_at(n) <==> all_good(events, n)
            &&& all_good(events, n) ==> {
                &&& n == 1 || n == 2 ==> run.fat32 == events[0]->fat32
                &&& n == 6 ==> run.fat32 == events[5]->fat32
                &&& n == 12 ==> run.fat32 == events[11]->fat32
                &&& n >= 2 ==> run.before == events[1]->Counted_0
                &&& n >= 3 ==> run.flags == flags_before(events)
                &&& n == 8 ==> run.made == is_made(events[7]->Found_0)
            }
        }),
    decreases n,
{
    if n == 0 {
        assert(events.take(0) =~= Seq::<Event>::empty());
    } else {
        reaches(events, n - 1);
        assert(events.take(n).drop_last() =~= events.take(n - 1));
        assert(events.take(n).last() == events[n - 1]);
        assert(all_good(events, n) <==> all_good(events, n - 1) && good_at(events, n - 1)) by {
            if all_good(events, n) {
                assert(good_at(events, n - 1));
            }
        }
    }
}

/// A run of fifteen events passes exactly if everything in it was good.
pub proof fn passes_exactly_if_all_good(events: Seq<Event>)
    requires
        events.len() == 15,
    ensures
        FatRun::start().after(events).stage == Stage::Passed <==> all_good(events, 15),
{
    reaches(events, 15);
    assert(events.take(15) =~= events);
}

/// Each kind of volume keeps its flags in its own place.
pub proof fn each_volume_keeps_its_flags(boot: Seq<u8>)
    requires
        boot.len() == 512,
    ensures
        flags_of(boot, true) == boot[0x41],
        flags_of(boot, false) == boot[0x25],
{
}

/// The file is longer than three clusters of 2048 and no multiple of a sector, its bytes step by
/// seven below 251, and no two neighbours are the same, nor two bytes a sector apart.
#[verifier::spinoff_prover]
pub proof fn the_contents_show_where_they_stand(i: int)
    requires
        0 <= i < 10_000,
    ensures
        contents_spec().len() == 10_000,
        contents_spec()[i] == 7 * i % 251,
        i + 1 < 10_000 ==> contents_spec()[i] != contents_spec()[i + 1],
        i + 512 < 10_000 ==> contents_spec()[i] != contents_spec()[i + 512],
{
}

/// The directory counts as made only under its name, as a directory, and stamped by the clock; the
/// file as written only under its name, in its length, and with both stamps it was given.
pub proof fn an_entry_counts_only_as_it_was_written(entry: Entry)
    ensures
        is_made(entry) <==> entry.name@ == DIR@ && entry.directory && entry.created == Some(
            Stamp { year: 2026, month: 9, day: 15, hour: 12, minute: 0, second: 0 },
        ),
        is_written(entry) <==> entry.name@ == FILE@ && entry.size == FILE_BYTES && entry.created
            == Some(Stamp { year: 2026, month: 9, day: 15, hour: 16, minute: 10, second: 24 })
            && entry.modified == Some(
            Stamp { year: 2024, month: 3, day: 1, hour: 9, minute: 30, second: 0 },
        ),
{
}

/// As long as everything is good, each thing is done in its turn: the card is looked at before
/// anything is written, written before it is read back, and read back before it is cleaned up.
pub proof fn a_good_run_does_each_thing_in_its_turn(events: Seq<Event>, n: int)
    requires
        events.len() == 15,
        0 <= n <= 15,
        all_good(events, n),
    ensures
        FatRun::start().after(events.take(n)).stage == seq![
            Stage::Mount,
            Stage::CountBefore,
            Stage::FlagsBefore,
            Stage::LookBefore,
            Stage::Write,
            Stage::Remount,
            Stage::FlagsWritten,
            Stage::LookDirectory,
            Stage::LookFile,
            Stage::ReadBack,
            Stage::Remove,
            Stage::RemountAgain,
            Stage::FlagsRemoved,
            Stage::LookAfter,
            Stage::CountAfter,
            Stage::Passed,
        ][n],
{
    reaches(events, n);
}

/// A run that is over stays as it is, and no error but a directory that cannot be looked for before
/// anything is written is passed over.
pub proof fn a_failure_is_final(run: FatRun, event: Event)
    ensures
        run.stage == Stage::Failed ==> run.stepped(event) == run,
        run.stage == Stage::Passed ==> run.stepped(event) == run,
        run.stage != Stage::LookBefore && run.stage != Stage::Passed ==> run.stepped(
            Event::Error,
        ).stage == Stage::Failed,
        run.stage == Stage::LookBefore ==> run.stepped(Event::Error).stage == Stage::Write,
{
}

} // verus!
