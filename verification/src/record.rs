//! A record that has to survive a restart and a broken sector, tried over four boots.

use vstd::prelude::*;

verus! {

/// Bytes of pattern behind a record's phase.
pub const PATTERN: usize = 64;

/// Bytes of a sector of the flash.
pub const SECTOR: usize = 4096;

/// Where a record's checksum stands in its sector.
pub const CHECKSUM_AT: usize = 12;

/// One byte of a phase's record: the phase, and behind it a pattern that differs from phase to
/// phase.
pub open spec fn record_byte(phase: u8, i: int) -> u8 {
    if i == 0 {
        phase
    } else {
        (((i - 1) * 37 % 256) as u8) ^ phase
    }
}

/// What a phase writes.
pub open spec fn record_spec(phase: u8) -> Seq<u8> {
    Seq::new(65, |i: int| record_byte(phase, i))
}

/// Fills in what a phase writes.
pub fn payload(phase: u8, buf: &mut [u8; 65])
    ensures
        final(buf)@ == record_spec(phase),
{
    buf[0] = phase;
    let mut i: usize = 0;
    while i < PATTERN
        invariant
            i <= PATTERN,
            buf[0] == phase,
            forall|k: int| 1 <= k <= i ==> buf[k] == record_byte(phase, k),
        decreases PATTERN - i,
    {
        buf[i + 1] = ((i * 37 % 256) as u8) ^ phase;
        i = i + 1;
    }
    assert(buf@ =~= record_spec(phase));
}

/// Whether what came back is what a phase writes.
pub fn matches(phase: u8, got: &[u8]) -> (r: bool)
    ensures
        r == (got@ == record_spec(phase)),
{
    if got.len() != PATTERN + 1 {
        return false;
    }
    let mut want: [u8; 65] = [0; 65];
    payload(phase, &mut want);
    let mut i: usize = 0;
    while i < PATTERN + 1
        invariant
            i <= PATTERN + 1,
            got.len() == PATTERN + 1,
            want@ == record_spec(phase),
            forall|k: int| 0 <= k < i ==> got@[k] == want@[k],
        decreases PATTERN + 1 - i,
    {
        if got[i] != want[i] {
            assert(got@[i as int] != record_spec(phase)[i as int]);
            return false;
        }
        i = i + 1;
    }
    assert(got@ =~= record_spec(phase));
    true
}

/// Whether a phase's pattern is intact.
pub fn check(phase: u8, got: &[u8]) -> (intact: bool)
    ensures
        intact == (got@ == record_spec(phase)),
{
    matches(phase, got)
}

/// A record is never taken for another phase's.
pub proof fn phases_differ(a: u8, b: u8)
    ensures
        record_spec(a) == record_spec(b) <==> a == b,
{
    assert(record_spec(a)[0] == a);
    assert(record_spec(b)[0] == b);
}

/// What a boot does once it knows the phase it finds.
#[derive(Clone, Copy, Debug, PartialEq, Eq, Structural)]
pub enum Boot {
    /// See whether the pattern is intact, where there is one; write a phase and restart.
    Write { found: u8, next: u8 },
    /// See whether the pattern is intact, clear the newest record's checksum at this address, see
    /// that the record before it comes back, write the next phase and restart.
    Damage { at: u32, alternates: bool },
    /// Nothing says where the newest record is, so it cannot be damaged.
    Stuck,
    /// See whether the pattern is intact and erase both sectors: every phase came through.
    Finish,
    /// No phase at all: erase both sectors and restart.
    StartOver,
}

/// What a boot does, by the phase it finds (0 for nothing at all) and the sector that held it.
pub open spec fn boot_spec(phase: u8, slot: Option<usize>) -> Boot {
    if phase == 0 || phase == 1 {
        Boot::Write { found: phase, next: (phase + 1) as u8 }
    } else if phase == 2 {
        match slot {
            Some(newest) => Boot::Damage {
                at: (newest * 4096 + 12) as u32,
                alternates: newest != 0,
            },
            None => Boot::Stuck,
        }
    } else if phase == 3 {
        Boot::Finish
    } else {
        Boot::StartOver
    }
}

pub fn boot(phase: u8, slot: Option<usize>) -> (r: Boot)
    requires
        slot is Some ==> slot->0 <= 1,
    ensures
        r == boot_spec(phase, slot),
{
    match phase {
        0 | 1 => Boot::Write { found: phase, next: phase + 1 },
        2 => match slot {
            Some(newest) => Boot::Damage {
                at: (newest * SECTOR + CHECKSUM_AT) as u32,
                alternates: newest != 0,
            },
            None => Boot::Stuck,
        },
        3 => Boot::Finish,
        _ => Boot::StartOver,
    }
}

/// The phase a boot leaves behind; `None` where it leaves nothing.
pub open spec fn left_behind(boot: Boot) -> Option<u8> {
    match boot {
        Boot::Write { next, .. } => Some(next),
        Boot::Damage { .. } => Some(3),
        _ => None,
    }
}

/// From an empty partition the run comes to its end in four boots, whichever sectors the records
/// lie in.
pub proof fn four_boots_end_the_run(slots: Seq<Option<usize>>)
    requires
        slots.len() == 4,
        slots[2] is Some,
    ensures
        left_behind(boot_spec(0, slots[0])) == Some(1u8),
        left_behind(boot_spec(1, slots[1])) == Some(2u8),
        left_behind(boot_spec(2, slots[2])) == Some(3u8),
        boot_spec(3, slots[3]) == Boot::Finish,
{
}

/// What comes back once the newest record is damaged.
#[derive(Clone, Copy, Debug, PartialEq, Eq, Structural)]
pub enum AfterDamage {
    /// The record before it, whole.
    Held,
    /// Something else.
    Wrong { phase: u8, len: usize },
    /// Nothing.
    Gone,
}

/// Judges what came back once the newest record was damaged, with the phase in front of it: it
/// has to be the first phase's, pattern and all.
pub fn after_damage(phase: u8, got: Option<&[u8]>) -> (r: AfterDamage)
    ensures
        r == AfterDamage::Gone <==> got is None,
        r == AfterDamage::Held ==> phase == 1,
        (r matches AfterDamage::Wrong { phase: p, len } ==> p == phase && got is Some && len
            == got->0@.len()),
        r == (match got {
            None => AfterDamage::Gone,
            Some(bytes) => if phase == 1 && bytes@ == record_spec(1) {
                AfterDamage::Held
            } else {
                AfterDamage::Wrong { phase, len: bytes@.len() as usize }
            },
        }),
{
    match got {
        None => AfterDamage::Gone,
        Some(bytes) => {
            if phase == 1 && matches(1, bytes) {
                AfterDamage::Held
            } else {
                AfterDamage::Wrong { phase, len: bytes.len() }
            }
        },
    }
}

/// A record is its phase and 64 bytes behind it: phase 0 writes every 37th number, and any other
/// phase those with its own bits turned over.
#[verifier::spinoff_prover]
pub proof fn a_record_is_its_phase_and_a_pattern(phase: u8, i: int)
    requires
        0 < i < 65,
    ensures
        record_spec(phase).len() == 65,
        record_spec(phase)[0] == phase,
        record_spec(0)[i] == 37 * (i - 1) % 256,
        record_spec(phase)[i] == record_spec(0)[i] ^ phase,
{
    let b = ((i - 1) * 37 % 256) as u8;
    assert(b ^ 0 == b) by (bit_vector);
}

/// Damage is done where the newest record has its checksum, in whichever sector it lies, and never
/// without knowing which; each other phase goes on to the next, and one past the last starts over.
pub proof fn a_boot_does_its_phases_work(phase: u8, newest: usize)
    requires
        newest <= 1,
    ensures
        boot_spec(2, Some(newest)) == (Boot::Damage {
            at: (newest * SECTOR + CHECKSUM_AT) as u32,
            alternates: newest == 1,
        }),
        boot_spec(2, None) == Boot::Stuck,
        phase < 2 ==> (boot_spec(phase, Some(newest)) matches Boot::Write { found, next } && found
            == phase && next == phase + 1),
        phase < 2 || phase > 2 ==> boot_spec(phase, Some(newest)) == boot_spec(phase, None),
        phase > 3 ==> boot_spec(phase, None) == Boot::StartOver,
        boot_spec(3, None) == Boot::Finish,
        SECTOR == 4096 && CHECKSUM_AT == 12,
{
}

} // verus!
