//! What a frame costs.

use vstd::prelude::*;

verus! {

/// Frames before the looking loop changes the clock.
pub const SWAP_AFTER: u32 = 20;

/// The microseconds of some frames together.
pub open spec fn total(frames: Seq<Option<u64>>) -> int
    decreases frames.len(),
{
    if frames.len() == 0 {
        0
    } else {
        total(frames.drop_last()) + (match frames.last() {
            Some(micros) => micros as int,
            None => 0,
        })
    }
}

/// The mean microseconds of some frames, by what each took; none counts where one could not be
/// sent.
pub fn time(frames: &Vec<Option<u64>>) -> (r: u64)
    requires
        frames@.len() > 0,
        total(frames@) <= u64::MAX,
    ensures
        r == (if exists|i: int| 0 <= i < frames@.len() && #[trigger] frames@[i] is None {
            0
        } else {
            total(frames@) / frames@.len() as int
        }),
{
    let mut sum: u64 = 0;
    let mut i: usize = 0;
    while i < frames.len()
        invariant
            i <= frames@.len(),
            total(frames@) <= u64::MAX,
            sum == total(frames@.take(i as int)),
            forall|k: int| 0 <= k < i ==> #[trigger] frames@[k] is Some,
        decreases frames@.len() - i,
    {
        proof {
            assert(frames@.take(i + 1).drop_last() =~= frames@.take(i as int));
            part_is_less(frames@, i + 1);
        }
        match frames[i] {
            Some(micros) => {
                sum = sum + micros;
            },
            None => {
                assert(frames@[i as int] is None);
                return 0;
            },
        }
        i = i + 1;
    }
    assert(frames@.take(i as int) =~= frames@);
    let mean: u64 = sum / frames.len() as u64;
    mean
}

proof fn part_is_less(frames: Seq<Option<u64>>, n: int)
    requires
        0 <= n <= frames.len(),
    ensures
        total(frames.take(n)) <= total(frames),
    decreases frames.len(),
{
    if n < frames.len() {
        assert(frames.drop_last().take(n) =~= frames.take(n));
        part_is_less(frames.drop_last(), n);
    } else {
        assert(frames.take(n) =~= frames);
    }
}

/// Frames a second, by the microseconds of one; none where a frame takes no time at all.
pub fn per_second(micros: u64) -> (r: u64)
    ensures
        r == (if micros == 0 {
            0
        } else {
            1_000_000int / micros as int
        }),
{
    if micros == 0 {
        0
    } else {
        1_000_000 / micros
    }
}

/// The loop whose clock changes every so many frames, for the eye to compare.
#[derive(Clone, Copy, Debug, PartialEq, Eq, Structural)]
pub struct Looking {
    pub frames: u32,
    pub slow: bool,
}

impl Looking {
    pub fn new() -> (r: Self)
        ensures
            r == (Looking { frames: 0, slow: true }),
    {
        Looking { frames: 0, slow: true }
    }

    /// Takes a frame; says which clock to change to, if it changes.
    pub fn frame(&mut self) -> (change: Option<bool>)
        ensures
            *final(self) == looked(*old(self)),
            change == (if old(self).frames % 20 == 0 {
                Some(final(self).slow)
            } else {
                None
            }),
    {
        let mut change: Option<bool> = None;
        if self.frames % SWAP_AFTER == 0 {
            self.slow = !self.slow;
            change = Some(self.slow);
        }
        if self.frames == u32::MAX {
            self.frames = 0;
        } else {
            self.frames = self.frames + 1;
        }
        change
    }
}

/// The loop once a frame is taken.
pub open spec fn looked(before: Looking) -> Looking {
    Looking {
        frames: if before.frames == u32::MAX {
            0
        } else {
            (before.frames + 1) as u32
        },
        slow: if before.frames % 20 == 0 {
            !before.slow
        } else {
            before.slow
        },
    }
}

/// The loop once so many frames were taken.
pub open spec fn looked_for(frames: nat) -> Looking
    decreases frames,
{
    if frames == 0 {
        Looking { frames: 0, slow: true }
    } else {
        looked(looked_for((frames - 1) as nat))
    }
}

/// The two clocks take turns, twenty frames each, the full one first.
pub proof fn the_clocks_take_turns(frames: nat)
    requires
        0 < frames <= u32::MAX,
    ensures
        looked_for(frames).frames == frames,
        looked_for(frames).slow == ((frames - 1) / 20 % 2 == 1),
    decreases frames,
{
    if frames > 1 {
        the_clocks_take_turns((frames - 1) as nat);
        let n = frames - 1;
        if n % 20 == 0 {
            assert((n - 1) / 20 == n / 20 - 1);
        } else {
            assert((n - 1) / 20 == n / 20);
        }
    } else {
        assert(looked_for(0) == (Looking { frames: 0, slow: true }));
    }
}

/// The time of frames adds up, frame by frame; one that could not be sent adds nothing.
pub proof fn the_times_add_up(frames: Seq<Option<u64>>, micros: u64)
    ensures
        total(Seq::empty()) == 0,
        total(frames.push(Some(micros))) == total(frames) + micros,
        total(frames.push(None)) == total(frames),
{
    assert(frames.push(Some(micros)).drop_last() =~= frames);
    assert(frames.push(None).drop_last() =~= frames);
}

/// A frame is counted, round from the last number to the first, and the clock changes at every
/// twentieth and at no other.
pub proof fn the_clock_changes_every_twentieth_frame(before: Looking)
    ensures
        before.frames < u32::MAX ==> looked(before).frames == before.frames + 1,
        before.frames == u32::MAX ==> looked(before).frames == 0,
        looked(before).slow != before.slow <==> before.frames % SWAP_AFTER == 0,
        SWAP_AFTER == 20,
{
}

} // verus!
