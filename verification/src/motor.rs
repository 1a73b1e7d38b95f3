//! The haptic driver: which actuator it drives, and which pin switches it on.

use vstd::prelude::*;

verus! {

/// The status of an output stage that is on and finds its actuator.
pub const ON: u8 = 0xE0;

/// The status of one that is off, or finds nothing.
pub const OFF: u8 = 0xE9;

#[derive(Clone, Copy, Debug, PartialEq, Eq, Structural)]
pub enum Actuator {
    Erm,
    Lra,
}

/// Why an actuator is taken for what it is taken for.
#[derive(Clone, Copy, Debug, PartialEq, Eq, Structural)]
pub enum Verdict {
    /// It calibrated as an LRA and named its frequency.
    Named,
    /// It calibrated as an LRA and as nothing else.
    Alone,
    Erm,
    /// It calibrated as both and named no frequency.
    Ambiguous,
    /// It calibrated as neither.
    Neither,
}

/// What the actuator is, by whether it calibrated as an ERM and as an LRA, and the resonance
/// period found. The calibration that passed names it; where both did, the period decides; where
/// neither did, an LRA is played to see whether anything moves.
pub open spec fn verdict_spec(erm: bool, lra: bool, period: bool) -> Verdict {
    if lra && period {
        Verdict::Named
    } else if lra && !erm {
        Verdict::Alone
    } else if lra {
        Verdict::Ambiguous
    } else if erm {
        Verdict::Erm
    } else {
        Verdict::Neither
    }
}

/// What is played.
pub open spec fn played(verdict: Verdict) -> Actuator {
    match verdict {
        Verdict::Erm | Verdict::Ambiguous => Actuator::Erm,
        _ => Actuator::Lra,
    }
}

/// Judges the two calibrations; one that could not be run did not pass.
pub fn verdict(erm: Option<bool>, lra: Option<bool>, period: Option<u32>) -> (r: (
    Actuator,
    Verdict,
))
    ensures
        r.1 == verdict_spec(erm == Some(true), lra == Some(true), period is Some),
        r.0 == played(r.1),
{
    let passed_erm = match erm {
        Some(passed) => passed,
        None => false,
    };
    let passed_lra = match lra {
        Some(passed) => passed,
        None => false,
    };
    if passed_lra && period.is_some() {
        (Actuator::Lra, Verdict::Named)
    } else if passed_lra && !passed_erm {
        (Actuator::Lra, Verdict::Alone)
    } else if passed_lra {
        (Actuator::Erm, Verdict::Ambiguous)
    } else if passed_erm {
        (Actuator::Erm, Verdict::Erm)
    } else {
        (Actuator::Lra, Verdict::Neither)
    }
}

/// Where exactly one calibration passes, it names the actuator, whatever the period says.
pub proof fn the_passing_calibration_names_the_actuator(erm: bool, lra: bool, period: bool)
    requires
        erm != lra,
    ensures
        played(verdict_spec(erm, lra, period)) == (if erm {
            Actuator::Erm
        } else {
            Actuator::Lra
        }),
{
}

/// Where both pass, the period decides: only an LRA has one.
pub proof fn the_period_decides(period: bool)
    ensures
        played(verdict_spec(true, true, period)) == (if period {
            Actuator::Lra
        } else {
            Actuator::Erm
        }),
{
}

/// What a boot does about the calibration.
#[derive(Clone, Copy, Debug, PartialEq, Eq, Structural)]
pub enum Calibrate {
    /// Write back the one that is kept: nothing buzzes.
    Restore,
    /// Run one, and keep what comes of it.
    Longest,
    /// Run a short one: there is nowhere to keep it.
    Short,
}

/// What a boot does about the calibration: one that is kept is restored, and one that can be kept
/// is worth the long time.
pub fn calibrate(kept: bool, store: bool) -> (r: Calibrate)
    ensures
        r == Calibrate::Restore <==> kept,
        r == Calibrate::Longest <==> !kept && store,
        r == Calibrate::Short <==> !kept && !store,
        r == (if kept {
            Calibrate::Restore
        } else if store {
            Calibrate::Longest
        } else {
            Calibrate::Short
        }),
{
    if kept {
        Calibrate::Restore
    } else if store {
        Calibrate::Longest
    } else {
        Calibrate::Short
    }
}

/// A resonance period in microseconds as a frequency; a period of nothing counts as one.
pub fn hertz(period: u32) -> (r: u32)
    ensures
        r == 1_000_000int / (if period == 0 {
            1
        } else {
            period as int
        }),
{
    if period == 0 {
        1_000_000
    } else {
        1_000_000 / period
    }
}

/// Whether a diagnostic found an actuator.
pub fn connected(status: u8) -> (r: bool)
    ensures
        r == (status / 8 % 2 == 0),
{
    status / 8 % 2 == 0
}

/// The actuator the feedback register is set to.
pub fn set_to(feedback: u8) -> (r: Actuator)
    ensures
        r == (if feedback < 0x80 {
            Actuator::Erm
        } else {
            Actuator::Lra
        }),
{
    if feedback < 0x80 {
        Actuator::Erm
    } else {
        Actuator::Lra
    }
}

/// What a device id says.
#[derive(Clone, Copy, Debug, PartialEq, Eq, Structural)]
pub enum Device {
    /// A DRV2605L, the one expected.
    Expected,
    /// A DRV2605.
    Older,
    Unknown(u8),
}

pub fn device(id: u8) -> (r: Device)
    ensures
        r == (match id {
            7 => Device::Expected,
            3 => Device::Older,
            _ => Device::Unknown(id),
        }),
{
    match id {
        7 => Device::Expected,
        3 => Device::Older,
        _ => Device::Unknown(id),
    }
}

/// The address to talk to: the listed one where it answers, else the one found where that does,
/// else the listed one all the same.
pub fn address(listed: u8, found: u8, listed_answers: bool, found_answers: bool) -> (r: u8)
    ensures
        listed_answers ==> r == listed,
        found_answers && !listed_answers ==> r == found,
        !found_answers ==> r == listed,
        r == (if !listed_answers && found_answers {
            found
        } else {
            listed
        }),
{
    if !listed_answers && found_answers {
        found
    } else {
        listed
    }
}

/// How an address answers a scan.
pub fn answer_words(reads: bool, writes: bool) -> (r: Option<&'static str>)
    ensures
        (match r {
            None => !reads && !writes,
            Some(words) => {
                &&& reads || writes
                &&& words@ == (if reads && writes {
                    "read and write"@
                } else if reads {
                    "read"@
                } else {
                    "write"@
                })
            },
        }),
{
    if reads && writes {
        Some("read and write")
    } else if reads {
        Some("read")
    } else if writes {
        Some("write")
    } else {
        None
    }
}

/// A register as it is listed: one that could not be read stands as 0xEE.
pub fn listed(register: Option<u8>) -> (r: u8)
    ensures
        r == (match register {
            Some(byte) => byte,
            None => 0xEE,
        }),
{
    match register {
        Some(byte) => byte,
        None => 0xEE,
    }
}

/// The register at a place of a page of sixteen.
pub fn register_at(page: u8, offset: u8) -> (r: u8)
    requires
        page < 16,
        offset < 16,
    ensures
        r == page * 16 + offset,
{
    page * 16 + offset
}

/// Which of the two harmless writes was refused.
#[derive(Clone, Copy, Debug, PartialEq, Eq, Structural)]
pub enum Refused {
    Pointer,
    Amplitude,
}

/// The harmless writes counted.
#[derive(Clone, Copy, Debug, PartialEq, Eq, Structural)]
pub struct Attempts {
    pub made: u32,
    pub pointer: u32,
    pub amplitude: u32,
    /// The attempt of the first refusal, and which write it was.
    pub first: Option<u32>,
    pub refused: Option<Refused>,
}

/// The counts once an attempt is taken.
pub open spec fn tried(before: Attempts, pointer: bool, amplitude: bool) -> Attempts {
    let first_here = before.first is None && (!pointer || !amplitude);
    Attempts {
        made: (before.made + 1) as u32,
        pointer: if pointer {
            (before.pointer + 1) as u32
        } else {
            before.pointer
        },
        amplitude: if amplitude {
            (before.amplitude + 1) as u32
        } else {
            before.amplitude
        },
        first: if first_here {
            Some(before.made)
        } else {
            before.first
        },
        refused: if first_here {
            Some(
                if pointer {
                    Refused::Amplitude
                } else {
                    Refused::Pointer
                },
            )
        } else {
            before.refused
        },
    }
}

impl Attempts {
    pub open spec fn wf(self) -> bool {
        &&& self.pointer <= self.made
        &&& self.amplitude <= self.made
        &&& self.first is Some <==> self.refused is Some
        &&& self.first is None <==> self.pointer == self.made && self.amplitude == self.made
    }

    pub fn new() -> (r: Self)
        ensures
            r == (Attempts { made: 0, pointer: 0, amplitude: 0, first: None, refused: None }),
            r.wf(),
    {
        Attempts { made: 0, pointer: 0, amplitude: 0, first: None, refused: None }
    }

    /// Takes an attempt: whether each of the two writes was acknowledged.
    pub fn note(&mut self, pointer: bool, amplitude: bool)
        requires
            old(self).wf(),
            old(self).made < u32::MAX,
        ensures
            *final(self) == tried(*old(self), pointer, amplitude),
            final(self).wf(),
    {
        if self.first.is_none() && (!pointer || !amplitude) {
            self.first = Some(self.made);
            self.refused = Some(
                if pointer {
                    Refused::Amplitude
                } else {
                    Refused::Pointer
                },
            );
        }
        if pointer {
            self.pointer = self.pointer + 1;
        }
        if amplitude {
            self.amplitude = self.amplitude + 1;
        }
        self.made = self.made + 1;
    }
}

/// The status three diagnostics agreed on; `None` where one could not be run, or where they did
/// not agree.
pub fn diagnose_three_times(runs: &[Option<u8>; 3]) -> (r: Option<u8>)
    ensures
        (r matches Some(status) ==> runs@[0] == Some(status) && runs@[1] == Some(status) && runs@[2]
            == Some(status)),
        runs@[0] is None || runs@[1] is None || runs@[2] is None ==> r is None,
        r == (if runs@[0] == runs@[1] && runs@[1] == runs@[2] {
            runs@[0]
        } else {
            None
        }),
{
    match (runs[0], runs[1], runs[2]) {
        (Some(a), Some(b), Some(c)) => if a == b && b == c {
            Some(a)
        } else {
            None
        },
        _ => None,
    }
}

/// What the diagnostic says while nobody drives the pin.
#[derive(Clone, Copy, Debug, PartialEq, Eq, Structural)]
pub enum Untouched {
    /// On by itself: the enable is not this pin's.
    On,
    /// Off until something raises it.
    Off,
    Neither(u8),
    NoAnswer,
}

pub fn untouched(status: Option<u8>) -> (r: Untouched)
    ensures
        r == Untouched::On <==> status == Some(ON),
        r == Untouched::Off <==> status == Some(OFF),
        r == Untouched::NoAnswer <==> status is None,
        r == (match status {
            Some(0xE0) => Untouched::On,
            Some(0xE9) => Untouched::Off,
            Some(other) => Untouched::Neither(other),
            None => Untouched::NoAnswer,
        }),
{
    match status {
        Some(status) => if status == ON {
            Untouched::On
        } else if status == OFF {
            Untouched::Off
        } else {
            Untouched::Neither(status)
        },
        None => Untouched::NoAnswer,
    }
}

/// What the board itself holds the pin at.
#[derive(Clone, Copy, Debug, PartialEq, Eq, Structural)]
pub enum HeldAt {
    High,
    Low,
    /// It follows the pull: nothing on the board drives it.
    Pull,
    /// It goes against the pull, which no board does.
    Inverted,
}

/// What the board holds the pin at, by its level against a pull-down and against a pull-up.
pub fn held_at(high_with_down: bool, high_with_up: bool) -> (r: HeldAt)
    ensures
        high_with_down == high_with_up ==> r == HeldAt::High || r == HeldAt::Low,
        r == HeldAt::High ==> high_with_down,
        r == HeldAt::Low ==> !high_with_up,
        r == HeldAt::Pull <==> !high_with_down && high_with_up,
        r == (match (high_with_down, high_with_up) {
            (true, true) => HeldAt::High,
            (false, false) => HeldAt::Low,
            (false, true) => HeldAt::Pull,
            (true, false) => HeldAt::Inverted,
        }),
{
    if high_with_down {
        if high_with_up {
            HeldAt::High
        } else {
            HeldAt::Inverted
        }
    } else if high_with_up {
        HeldAt::Pull
    } else {
        HeldAt::Low
    }
}

/// What driving the pin shows.
#[derive(Clone, Copy, Debug, PartialEq, Eq, Structural)]
pub enum Driven {
    /// The diagnostic never moved: the pin switches nothing.
    NotIt,
    /// On with the pin high, off with it low: an enable.
    Level,
    /// On with the pin high, and still on with it low: a strobe.
    Strobe,
    /// None of the shapes expected.
    Unexpected,
}

/// What driving the pin high, low and high again shows, after a reading with the pin untouched.
pub fn driven(
    untouched: Option<u8>,
    high: Option<u8>,
    low: Option<u8>,
    high_again: Option<u8>,
) -> (r: Driven)
    ensures
        r == Driven::Level ==> high == Some(ON) && low == Some(OFF) && high_again == Some(ON),
        r == Driven::Strobe ==> high == Some(ON) && low == Some(ON) && !(untouched == Some(ON)
            && high_again == Some(ON)),
        r == Driven::NotIt ==> untouched == high && low == high_again && high == low,
        high is None ==> r == Driven::Unexpected,
        r == (if untouched is Some && untouched == high && high == low && low == high_again {
            Driven::NotIt
        } else if high == Some(0xE0u8) && low == Some(0xE9u8) && high_again == Some(0xE0u8) {
            Driven::Level
        } else if high == Some(0xE0u8) && low == Some(0xE0u8) {
            Driven::Strobe
        } else {
            Driven::Unexpected
        }),
{
    match (untouched, high, low, high_again) {
        (Some(a), Some(b), Some(c), Some(d)) => {
            if a == b && b == c && c == d {
                return Driven::NotIt;
            }
        },
        _ => {},
    }
    match (high, low) {
        (Some(high), Some(low)) => {
            if high == ON && low == OFF {
                match high_again {
                    Some(again) => if again == ON {
                        Driven::Level
                    } else {
                        Driven::Unexpected
                    },
                    None => Driven::Unexpected,
                }
            } else if high == ON && low == ON {
                Driven::Strobe
            } else {
                Driven::Unexpected
            }
        },
        _ => Driven::Unexpected,
    }
}

/// What traffic on the pin does to the driver.
#[derive(Clone, Copy, Debug, PartialEq, Eq, Structural)]
pub enum Traffic {
    /// The driver does not notice: the pin can be both.
    Unnoticed,
    /// Idle is fine and traffic is not.
    Breaks,
    /// It works, but not every time.
    Sometimes { passed: usize },
    /// The idle line alone already reads otherwise.
    IdleReads(u8),
    NoAnswer,
}

/// How many of three diagnostics found the driver on.
pub open spec fn passes(runs: Seq<Option<u8>>) -> int {
    (if runs[0] == Some(0xE0u8) {
        1int
    } else {
        0
    }) + (if runs[1] == Some(0xE0u8) {
        1int
    } else {
        0
    }) + (if runs[2] == Some(0xE0u8) {
        1int
    } else {
        0
    })
}

fn pass(run: Option<u8>) -> (r: usize)
    ensures
        r == (if run == Some(0xE0u8) {
            1int
        } else {
            0
        }),
{
    match run {
        Some(status) => if status == ON {
            1
        } else {
            0
        },
        None => 0,
    }
}

/// What traffic does, by the status with the line idle and by three diagnostics run under
/// traffic: every one of them has to pass.
pub fn traffic(idle: Option<u8>, runs: &[Option<u8>; 3]) -> (r: Traffic)
    ensures
        r == Traffic::Unnoticed ==> idle == Some(ON) && runs@[0] == Some(ON) && runs@[1] == Some(ON)
            && runs@[2] == Some(ON),
        r == Traffic::Breaks ==> idle == Some(ON) && runs@[0] != Some(ON) && runs@[1] != Some(ON)
            && runs@[2] != Some(ON),
        (r matches Traffic::Sometimes { passed } ==> 0 < passed < 3),
        r == Traffic::NoAnswer <==> idle is None,
        r == (match idle {
            None => Traffic::NoAnswer,
            Some(status) => if status != 0xE0 {
                Traffic::IdleReads(status)
            } else if passes(runs@) == 3 {
                Traffic::Unnoticed
            } else if passes(runs@) == 0 {
                Traffic::Breaks
            } else {
                Traffic::Sometimes { passed: passes(runs@) as usize }
            },
        }),
{
    match idle {
        None => Traffic::NoAnswer,
        Some(status) => {
            if status != ON {
                return Traffic::IdleReads(status);
            }
            let passed: usize = pass(runs[0]) + pass(runs[1]) + pass(runs[2]);
            if passed == 3 {
                Traffic::Unnoticed
            } else if passed == 0 {
                Traffic::Breaks
            } else {
                Traffic::Sometimes { passed }
            }
        },
    }
}

/// One diagnostic that fails under traffic is enough for the pin not to pass as both.
pub proof fn one_failure_is_not_passed_over(runs: Seq<Option<u8>>, i: int)
    requires
        runs.len() == 3,
        0 <= i < 3,
        runs[i] != Some(0xE0u8),
    ensures
        passes(runs) < 3,
{
}

/// The bytes pushed so far once a write is over, while the driver is busy; `None` where the write
/// failed, which ends the pushing.
pub fn pumped(sent: u32, written: Option<u32>) -> (r: Option<u32>)
    requires
        written is Some ==> sent + written->0 <= u32::MAX,
    ensures
        r == (match written {
            Some(n) => Some((sent + n) as u32),
            None => None,
        }),
{
    match written {
        Some(n) => Some(sent + n),
        None => None,
    }
}

/// Each verdict has its own reason: a named frequency counts only behind a passed calibration as an
/// LRA, what passed as both without one stays open, and what passed as neither is played as an LRA.
pub proof fn each_verdict_has_its_reason(erm: bool, lra: bool, period: bool)
    ensures
        verdict_spec(erm, lra, period) == Verdict::Named <==> lra && period,
        verdict_spec(erm, lra, period) == Verdict::Alone <==> lra && !erm && !period,
        verdict_spec(erm, lra, period) == Verdict::Ambiguous <==> lra && erm && !period,
        verdict_spec(erm, lra, period) == Verdict::Erm <==> erm && !lra,
        verdict_spec(erm, lra, period) == Verdict::Neither <==> !erm && !lra,
        played(Verdict::Neither) == Actuator::Lra,
{
}

/// Every attempt is counted once, and each write under its own name only where it was acknowledged.
pub proof fn attempts_are_counted(before: Attempts, pointer: bool, amplitude: bool)
    requires
        before.wf(),
        before.made < u32::MAX,
    ensures
        ({
            let after = tried(before, pointer, amplitude);
            &&& after.made == before.made + 1
            &&& pointer ==> after.pointer == before.pointer + 1
            &&& !pointer ==> after.pointer == before.pointer
            &&& amplitude ==> after.amplitude == before.amplitude + 1
            &&& !amplitude ==> after.amplitude == before.amplitude
        }),
{
}

/// The first refusal is kept with the attempts before it and the write it refused, the pointer's where
/// both were refused; nothing after it changes that, and without one there is none.
pub proof fn the_first_refusal_is_kept(before: Attempts, pointer: bool, amplitude: bool)
    requires
        before.wf(),
        before.made < u32::MAX,
    ensures
        ({
            let after = tried(before, pointer, amplitude);
            &&& before.first is Some ==> after.first == before.first && after.refused
                == before.refused
            &&& before.first is None && pointer && amplitude ==> after.first is None
                && after.refused is None
            &&& before.first is None && !pointer ==> after.first == Some(before.made)
                && after.refused == Some(Refused::Pointer)
            &&& before.first is None && pointer && !amplitude ==> after.first == Some(before.made)
                && after.refused == Some(Refused::Amplitude)
        }),
{
}

/// Every diagnostic that finds the driver on counts, whichever of the three it is, and no other.
pub proof fn each_pass_counts(runs: Seq<Option<u8>>, i: int)
    requires
        runs.len() == 3,
        0 <= i < 3,
        runs[i] != Some(0xE0u8),
    ensures
        passes(runs.update(i, Some(0xE0u8))) == passes(runs) + 1,
        (forall|k: int| 0 <= k < 3 ==> (#[trigger] runs[k]) != Some(0xE0u8)) ==> passes(runs) == 0,
{
}

} // verus!
