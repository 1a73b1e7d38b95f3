//! The two contacts of the knob's encoder, and bursts of their transitions.

use vstd::prelude::*;

verus! {

/// How many transitions a burst holds.
pub const BURST: usize = 24;

/// How long the contacts stay still before a burst is over, in milliseconds.
pub const QUIET_MS: u64 = 150;

/// The two contacts as one state, A in the high bit.
pub open spec fn state_spec(a: bool, b: bool) -> int {
    (if a {
        2int
    } else {
        0
    }) + (if b {
        1int
    } else {
        0
    })
}

pub fn state_of(a: bool, b: bool) -> (r: u8)
    ensures
        r == state_spec(a, b),
{
    (if a {
        2u8
    } else {
        0
    }) + (if b {
        1u8
    } else {
        0
    })
}

/// A transition as it is shown: both contacts after it, and the milliseconds since the one
/// before.
#[derive(Clone, Copy, Debug, PartialEq, Eq, Structural)]
pub struct Transition {
    pub a: u8,
    pub b: u8,
    pub gap: u64,
}

/// The gap before a transition: none before the first, and none where the clock went back.
pub open spec fn gap_before(burst: Seq<(u8, u64)>, i: int) -> int {
    if i == 0 || burst[i].1 < burst[i - 1].1 {
        0
    } else {
        burst[i].1 - burst[i - 1].1
    }
}

/// A burst of transitions, given as the state after each and when it came.
pub fn report(burst: &[(u8, u64)]) -> (r: Vec<Transition>)
    requires
        burst.len() > 0,
    ensures
        r.len() == burst.len(),
        forall|i: int|
            0 <= i < burst.len() ==> #[trigger] r[i] == (Transition {
                a: burst[i].0 / 2,
                b: burst[i].0 % 2,
                gap: gap_before(burst@, i) as u64,
            }),
{
    let mut r: Vec<Transition> = Vec::new();
    let mut previous: u64 = burst[0].1;
    let mut i: usize = 0;
    while i < burst.len()
        invariant
            i <= burst.len(),
            burst.len() > 0,
            r.len() == i,
            previous == (if i == 0 {
                burst[0].1
            } else {
                burst[i - 1].1
            }),
            forall|k: int|
                0 <= k < i ==> #[trigger] r[k] == (Transition {
                    a: burst[k].0 / 2,
                    b: burst[k].0 % 2,
                    gap: gap_before(burst@, k) as u64,
                }),
        decreases burst.len() - i,
    {
        let (state, at) = burst[i];
        r.push(Transition { a: state / 2, b: state % 2, gap: at.saturating_sub(previous) });
        previous = at;
        i = i + 1;
    }
    r
}

/// Transitions collected until a burst is over. Times are in microseconds.
pub struct Trace {
    pub state: u8,
    /// The state after each transition, and when it came, in milliseconds.
    pub burst: Vec<(u8, u64)>,
    pub last_change: u64,
}

/// The burst once a reading is taken. What comes once it is full is not held.
pub open spec fn taken_in(burst: Seq<(u8, u64)>, before: u8, state: u8, now: u64) -> Seq<
    (u8, u64),
> {
    if state != before && burst.len() < 24 {
        burst.push((state, now / 1000))
    } else {
        burst
    }
}

/// When the contacts last moved, once a reading is taken.
pub open spec fn last_moved(last_change: u64, before: u8, state: u8, now: u64) -> u64 {
    if state != before {
        now
    } else {
        last_change
    }
}

/// Whether a burst is over: full, or quiet for long enough.
pub open spec fn over(burst: Seq<(u8, u64)>, last_change: u64, now: u64) -> bool {
    burst.len() == 24 || (burst.len() > 0 && (now - last_change) / 1000 >= 150)
}

impl Trace {
    pub open spec fn wf(&self) -> bool {
        self.burst@.len() < 24
    }

    pub fn new(state: u8, now: u64) -> (r: Self)
        ensures
            r.wf(),
            r.state == state,
            r.burst@.len() == 0,
            r.last_change == now,
    {
        Trace { state, burst: Vec::new(), last_change: now }
    }

    /// Takes a reading; hands out the burst once it is over.
    pub fn sample(&mut self, state: u8, now: u64) -> (r: Option<Vec<(u8, u64)>>)
        requires
            old(self).wf(),
            old(self).last_change <= now,
        ensures
            final(self).wf(),
            final(self).state == state,
            final(self).last_change == last_moved(
                old(self).last_change,
                old(self).state,
                state,
                now,
            ),
            ({
                let burst = taken_in(old(self).burst@, old(self).state, state, now);
                if over(burst, final(self).last_change, now) {
                    r is Some && r->0@ == burst && final(self).burst@.len() == 0
                } else {
                    r is None && final(self).burst@ == burst
                }
            }),
    {
        if state != self.state {
            self.state = state;
            self.burst.push((state, now / 1000));
            self.last_change = now;
        }
        let quiet = (now - self.last_change) / 1000 >= QUIET_MS;
        if self.burst.len() == BURST || (self.burst.len() > 0 && quiet) {
            let mut burst: Vec<(u8, u64)> = Vec::new();
            burst.append(&mut self.burst);
            Some(burst)
        } else {
            None
        }
    }
}

/// A state says which contacts are high, and no two positions of the contacts share one.
pub proof fn states_tell_the_contacts(a: bool, b: bool, c: bool, d: bool)
    ensures
        state_spec(a, b) == state_spec(c, d) <==> a == c && b == d,
{
}

/// The first contact is the high bit of a state, the second the low one.
pub proof fn the_first_contact_is_the_high_bit(a: bool, b: bool)
    ensures
        0 <= state_spec(a, b) < 4,
        a <==> state_spec(a, b) >= 2,
        b <==> state_spec(a, b) % 2 == 1,
{
}

/// A gap is the time since the transition before, and adds up with the others to the time the burst
/// took; the first has none, and no gap is negative where the clock went back.
pub proof fn gaps_are_the_times_between(burst: Seq<(u8, u64)>, i: int)
    requires
        0 <= i < burst.len(),
    ensures
        gap_before(burst, 0) == 0,
        gap_before(burst, i) >= 0,
        i > 0 && burst[i - 1].1 <= burst[i].1 ==> burst[i - 1].1 + gap_before(burst, i)
            == burst[i].1,
        i > 0 && burst[i - 1].1 > burst[i].1 ==> gap_before(burst, i) == 0,
{
}

/// A reading that changed is held with its time in milliseconds, behind those before it, while there
/// is room for it; one that did not is not. The contacts last moved when a reading last changed,
/// whether it was held or not.
#[verifier::spinoff_prover]
pub proof fn changes_are_held_while_there_is_room(
    burst: Seq<(u8, u64)>,
    before: u8,
    state: u8,
    now: u64,
    last_change: u64,
)
    ensures
        state == before ==> taken_in(burst, before, state, now) == burst && last_moved(
            last_change,
            before,
            state,
            now,
        ) == last_change,
        state != before ==> last_moved(last_change, before, state, now) == now,
        state != before && burst.len() >= BURST ==> taken_in(burst, before, state, now) == burst,
        state != before && burst.len() < BURST ==> ({
            let held = taken_in(burst, before, state, now);
            &&& held.drop_last() == burst
            &&& held.last().0 == state
            &&& 1000 * held.last().1 <= now < 1000 * held.last().1 + 1000
        }),
        BURST == 24,
{
    if state != before && burst.len() < BURST {
        assert(burst.push((state, now / 1000)).drop_last() =~= burst);
    }
}

/// A burst is over once it is full, or once there is one and the contacts stayed still for 150
/// milliseconds.
#[verifier::spinoff_prover]
pub proof fn a_burst_ends_full_or_quiet(burst: Seq<(u8, u64)>, last_change: u64, now: u64)
    requires
        burst.len() <= BURST,
        last_change <= now,
    ensures
        burst.len() == BURST ==> over(burst, last_change, now),
        burst.len() == 0 ==> !over(burst, last_change, now),
        0 < burst.len() < BURST ==> (over(burst, last_change, now) <==> now - last_change
            >= 150_000),
{
}

} // verus!
