//! What the board's pins and its bus say about how they are wired.

use vstd::prelude::*;

verus! {

/// How many readings make up one report of the edge counters.
pub const REPORT_EVERY: u32 = 1000;

/// How often each pin is read either way when the pulls are tried.
pub const ROUNDS: u32 = 8;

/// Edges counted on a set of pins.
pub struct Edges {
    pub level: Vec<bool>,
    pub edges: Vec<u32>,
    /// Readings since the last report.
    pub ticks: u32,
}

/// A pin that moved since the last report.
#[derive(Clone, Copy, Debug, PartialEq, Eq, Structural)]
pub struct Moved {
    pub pin: usize,
    pub edges: u32,
    pub high: bool,
}

/// The counters once a reading is taken.
pub open spec fn counted(edges: Seq<u32>, level: Seq<bool>, now: Seq<bool>) -> Seq<u32> {
    Seq::new(
        edges.len(),
        |i: int|
            if now[i] != level[i] {
                (edges[i] + 1) as u32
            } else {
                edges[i]
            },
    )
}

/// The pins among the first `n` that moved.
pub open spec fn moved(edges: Seq<u32>, level: Seq<bool>, n: int) -> Seq<Moved>
    decreases n,
{
    if n <= 0 {
        Seq::empty()
    } else if edges[n - 1] > 0 {
        moved(edges, level, n - 1).push(
            Moved { pin: (n - 1) as usize, edges: edges[n - 1], high: level[n - 1] },
        )
    } else {
        moved(edges, level, n - 1)
    }
}

impl Edges {
    pub open spec fn wf(&self) -> bool {
        &&& self.level@.len() == self.edges@.len()
        &&& self.ticks < 1000
        &&& forall|i: int| 0 <= i < self.edges@.len() ==> self.edges@[i] <= self.ticks
    }

    /// Starts from the levels the pins rest at.
    pub fn new(level: Vec<bool>) -> (r: Self)
        ensures
            r.wf(),
            r.level@ == level@,
            forall|i: int| 0 <= i < level@.len() ==> r.edges@[i] == 0,
            r.ticks == 0,
    {
        let mut edges: Vec<u32> = Vec::new();
        while edges.len() < level.len()
            invariant
                edges@.len() <= level@.len(),
                forall|i: int| 0 <= i < edges@.len() ==> edges@[i] == 0,
            decreases level@.len() - edges@.len(),
        {
            edges.push(0);
        }
        Edges { level, edges, ticks: 0 }
    }

    /// Takes a reading of every pin. Every thousandth hands out the pins that moved since the
    /// last report, and starts their counters over.
    pub fn sample(&mut self, now: &Vec<bool>) -> (r: Option<Vec<Moved>>)
        requires
            old(self).wf(),
            now@.len() == old(self).level@.len(),
        ensures
            final(self).wf(),
            final(self).level@ == now@,
            ({
                let edges = counted(old(self).edges@, old(self).level@, now@);
                if old(self).ticks == 999 {
                    &&& final(self).ticks == 0
                    &&& r is Some
                    &&& r->0@ == moved(edges, now@, now@.len() as int)
                    &&& forall|i: int| 0 <= i < edges.len() ==> final(self).edges@[i] == 0
                } else {
                    &&& final(self).ticks == old(self).ticks + 1
                    &&& r is None
                    &&& final(self).edges@ == edges
                }
            }),
    {
        let ghost before = *self;
        let ghost want = counted(self.edges@, self.level@, now@);
        let mut i: usize = 0;
        while i < now.len()
            invariant
                i <= now@.len(),
                now@.len() == self.level@.len() == self.edges@.len(),
                now@.len() == before.level@.len() == before.edges@.len(),
                self.ticks == before.ticks,
                before.ticks < 1000,
                want == counted(before.edges@, before.level@, now@),
                forall|k: int| 0 <= k < now@.len() ==> #[trigger] before.edges@[k] <= before.ticks,
                forall|k: int| 0 <= k < i ==> #[trigger] self.level@[k] == now@[k],
                forall|k: int| 0 <= k < i ==> #[trigger] self.edges@[k] == want[k],
                forall|k: int|
                    i <= k < now@.len() ==> #[trigger] self.level@[k] == before.level@[k],
                forall|k: int|
                    i <= k < now@.len() ==> #[trigger] self.edges@[k] == before.edges@[k],
            decreases now@.len() - i,
        {
            if now[i] != self.level[i] {
                let count: u32 = self.edges[i] + 1;
                self.edges.set(i, count);
                self.level.set(i, now[i]);
            }
            i = i + 1;
        }
        assert(self.level@ =~= now@);
        assert(self.edges@ =~= want);
        self.ticks = self.ticks + 1;
        if self.ticks < REPORT_EVERY {
            return None;
        }
        self.ticks = 0;
        let mut r: Vec<Moved> = Vec::new();
        let mut k: usize = 0;
        while k < now.len()
            invariant
                k <= now@.len(),
                now@.len() == self.level@.len() == self.edges@.len() == want.len(),
                self.level@ == now@,
                self.ticks == 0,
                r@ == moved(want, now@, k as int),
                forall|j: int| 0 <= j < k ==> self.edges@[j] == 0,
                forall|j: int| k <= j < now@.len() ==> self.edges@[j] == want[j],
            decreases now@.len() - k,
        {
            if self.edges[k] > 0 {
                r.push(Moved { pin: k, edges: self.edges[k], high: self.level[k] });
                self.edges.set(k, 0);
            }
            k = k + 1;
        }
        Some(r)
    }
}

/// What holds a pin.
#[derive(Clone, Copy, Debug, PartialEq, Eq, Structural)]
pub enum Held {
    High,
    Low,
    /// It follows the pull.
    Floating,
    /// It changes by itself: something drives it.
    Driven,
}

/// What holds a pin, by how often it read high against the pull-up and against the pull-down.
pub fn held(high_with_up: u32, high_with_down: u32) -> (r: Held)
    ensures
        r == Held::High ==> high_with_up == ROUNDS && high_with_down == ROUNDS,
        r == Held::Low ==> high_with_up == 0 && high_with_down == 0,
        r == Held::Floating ==> high_with_up == ROUNDS && high_with_down == 0,
        0 < high_with_up < ROUNDS || 0 < high_with_down < ROUNDS ==> r == Held::Driven,
        r == (if high_with_up == 8 && high_with_down == 8 {
            Held::High
        } else if high_with_up == 0 && high_with_down == 0 {
            Held::Low
        } else if high_with_up == 8 && high_with_down == 0 {
            Held::Floating
        } else {
            Held::Driven
        }),
{
    if high_with_up == ROUNDS && high_with_down == ROUNDS {
        Held::High
    } else if high_with_up == 0 && high_with_down == 0 {
        Held::Low
    } else if high_with_up == ROUNDS && high_with_down == 0 {
        Held::Floating
    } else {
        Held::Driven
    }
}

/// The addresses a bus scan asks: the seven-bit ones without the reserved ranges at either end.
pub const FIRST_ADDRESS: u8 = 0x08;

pub const LAST_ADDRESS: u8 = 0x77;

/// The address a scan asks next; the first without one before it.
pub fn next_address(asked: Option<u8>) -> (r: Option<u8>)
    ensures
        (r matches Some(next) ==> (asked matches Some(a) ==> next == a + 1 && a < LAST_ADDRESS)),
        asked is None ==> r == Some(FIRST_ADDRESS),
        r is None ==> (asked matches Some(a) && a >= LAST_ADDRESS),
        r == (match asked {
            None => Some(0x08u8),
            Some(a) => if a < 0x77 {
                Some((a + 1) as u8)
            } else {
                None
            },
        }),
{
    match asked {
        None => Some(FIRST_ADDRESS),
        Some(a) => if a < LAST_ADDRESS {
            Some(a + 1)
        } else {
            None
        },
    }
}

/// How a bus scan goes on.
#[derive(Clone, Copy, Debug, PartialEq, Eq, Structural)]
pub enum Wiring {
    /// The lines as listed.
    Listed,
    /// The two lines the other way round.
    Swapped,
    /// Nothing answers either way; the lines stay as listed.
    Silent,
}

/// How the bus is wired, by how many devices answered as listed, and how many with the lines
/// swapped. The second scan is only made, and only counts, where the first one found nothing.
pub fn wiring(listed: usize, swapped: usize) -> (r: Wiring)
    ensures
        listed > 0 <==> r == Wiring::Listed,
        r == Wiring::Swapped ==> swapped > 0,
        r == Wiring::Silent ==> listed == 0 && swapped == 0,
        r == (if listed > 0 {
            Wiring::Listed
        } else if swapped > 0 {
            Wiring::Swapped
        } else {
            Wiring::Silent
        }),
{
    if listed > 0 {
        Wiring::Listed
    } else if swapped > 0 {
        Wiring::Swapped
    } else {
        Wiring::Silent
    }
}

/// The pins of the data and the clock line.
pub fn bus_pins(wiring: Wiring) -> (r: (u8, u8))
    ensures
        r == (if wiring == Wiring::Swapped {
            (12u8, 11u8)
        } else {
            (11u8, 12u8)
        }),
{
    if wiring == Wiring::Swapped {
        (12, 11)
    } else {
        (11, 12)
    }
}

/// What a chip id of the touch controller is called, in front of which it is shown.
pub fn touch_name(chip: u8) -> (name: &'static str)
    ensures
        name@ == (match chip {
            0xB4 => " (CST816T)"@,
            0xB5 => " (CST816S)"@,
            0xB6 => " (CST816D)"@,
            _ => ""@,
        }),
{
    match chip {
        0xB4 => " (CST816T)",
        0xB5 => " (CST816S)",
        0xB6 => " (CST816D)",
        _ => "",
    }
}

/// The device id in a status byte of the haptic driver: its top three bits.
pub fn haptics_id(status: u8) -> (id: u8)
    ensures
        id == status / 32,
{
    status / 32
}

/// What the touch controller reports.
#[derive(Clone, Copy, Debug, PartialEq, Eq, Structural)]
pub enum Touched {
    /// A finger, and where.
    At { x: u16, y: u16, gesture: u8 },
    /// The finger that was there left.
    Released,
    /// No finger, and none before.
    Quiet,
}

/// Both coordinates have twelve bits: four in the low half of the high byte, eight below.
pub open spec fn twelve_bits(high: u8, low: u8) -> int {
    (high % 16) * 256 + low
}

/// Reads the six status bytes; says what is to be told, and whether a finger is there now. A
/// status that could not be read changes nothing.
pub fn read_touch(status: Option<[u8; 6]>, was_touching: bool) -> (r: (Option<Touched>, bool))
    ensures
        status is None ==> r.0 is None,
        (r.0 matches Some(Touched::At { x, y, .. }) ==> r.1 && x < 4096 && y < 4096),
        r.0 == Some(Touched::Released) ==> was_touching && !r.1,
        r.0 == Some(Touched::Quiet) ==> !was_touching && !r.1,
        status is None ==> r == (None::<Touched>, was_touching),
        status is Some ==> {
            let s = status->0@;
            &&& r.1 == (s[1] > 0)
            &&& r.0 == Some(
                if s[1] > 0 {
                    Touched::At {
                        x: twelve_bits(s[2], s[3]) as u16,
                        y: twelve_bits(s[4], s[5]) as u16,
                        gesture: s[0],
                    }
                } else if was_touching {
                    Touched::Released
                } else {
                    Touched::Quiet
                },
            )
        },
{
    match status {
        None => (None, was_touching),
        Some(s) => {
            let x: u16 = (s[2] % 16) as u16 * 256 + s[3] as u16;
            let y: u16 = (s[4] % 16) as u16 * 256 + s[5] as u16;
            if s[1] > 0 {
                (Some(Touched::At { x, y, gesture: s[0] }), true)
            } else if was_touching {
                (Some(Touched::Released), false)
            } else {
                (Some(Touched::Quiet), false)
            }
        },
    }
}

/// Whether a reading is worth telling, by where a finger was last told: one that arrives, moves or
/// leaves is, one held still is not.
pub open spec fn is_news_spec(last: Option<(u16, u16)>, told: Touched) -> bool {
    match told {
        Touched::At { x, y, .. } => last != Some((x, y)),
        Touched::Released => true,
        Touched::Quiet => false,
    }
}

pub fn is_news(last: Option<(u16, u16)>, told: Touched) -> (r: bool)
    ensures
        r == is_news_spec(last, told),
{
    match told {
        Touched::At { x, y, .. } => match last {
            Some(at) => at.0 != x || at.1 != y,
            None => true,
        },
        Touched::Released => true,
        Touched::Quiet => false,
    }
}

/// Where a finger was last told, once a reading is taken in: nowhere after it left.
pub open spec fn told_at_spec(told: Touched) -> Option<(u16, u16)> {
    match told {
        Touched::At { x, y, .. } => Some((x, y)),
        _ => None,
    }
}

pub fn told_at(told: Touched) -> (r: Option<(u16, u16)>)
    ensures
        r == told_at_spec(told),
{
    match told {
        Touched::At { x, y, .. } => Some((x, y)),
        _ => None,
    }
}

/// A finger held still is told once, whatever gesture is read with it; one that moved or came back
/// is told again.
pub proof fn a_still_finger_is_told_once(before: Touched, now: Touched)
    requires
        now is At,
    ensures
        is_news_spec(told_at_spec(before), now) <==> !(before is At && before->x == now->x
            && before->y == now->y),
{
}

/// How many polls pass between two readings of the touch controller.
pub const TOUCH_EVERY: u32 = 20;

/// What is watched while the probe holds, and what was last told of it.
#[derive(Clone, Copy, Debug, PartialEq, Eq, Structural)]
pub struct Watch {
    pub position: i32,
    pub interrupt_low: bool,
    /// Polls since the touch controller was last read.
    pub ticks: u32,
}

/// What a poll tells.
#[derive(Clone, Copy, Debug, PartialEq, Eq)]
pub struct Watched {
    /// The interrupt line went low, or high.
    pub interrupt: Option<bool>,
    /// The knob's new position, and the one told before.
    pub position: Option<(i32, i32)>,
    /// Whether the touch controller is to be read.
    pub read_touch: bool,
}

impl Watch {
    pub fn new(interrupt_low: bool) -> (r: Self)
        ensures
            r == (Watch { position: 0, interrupt_low, ticks: 0 }),
    {
        Watch { position: 0, interrupt_low, ticks: 0 }
    }

    /// Takes a poll.
    pub fn poll(&mut self, interrupt_low: bool, position: i32) -> (r: Watched)
        requires
            old(self).ticks < 20,
        ensures
            r.read_touch <==> final(self).ticks == 0,
            (r.position matches Some((now, before)) ==> now == position && before == old(self).position && now
                != before),
            r.position is None && r.read_touch ==> position == old(self).position,
            (r.interrupt matches Some(low) ==> low == interrupt_low && low != old(self).interrupt_low),
            final(self).ticks == (old(self).ticks + 1) % 20,
            final(self).interrupt_low == interrupt_low,
            final(self).position == (if old(self).ticks == 19 {
                position
            } else {
                old(self).position
            }),
            r == (Watched {
                interrupt: if interrupt_low != old(self).interrupt_low {
                    Some(interrupt_low)
                } else {
                    None
                },
                position: if old(self).ticks == 19 && position != old(self).position {
                    Some((position, old(self).position))
                } else {
                    None
                },
                read_touch: old(self).ticks == 19,
            }),
    {
        let mut interrupt: Option<bool> = None;
        if interrupt_low != self.interrupt_low {
            self.interrupt_low = interrupt_low;
            interrupt = Some(interrupt_low);
        }
        self.ticks = self.ticks + 1;
        if self.ticks < TOUCH_EVERY {
            return Watched { interrupt, position: None, read_touch: false };
        }
        self.ticks = 0;
        let mut told: Option<(i32, i32)> = None;
        if position != self.position {
            told = Some((position, self.position));
            self.position = position;
        }
        Watched { interrupt, position: told, read_touch: true }
    }
}

/// A pin's counter goes up by one where its level changed, and stays where it did not.
pub proof fn a_change_is_an_edge(edges: Seq<u32>, level: Seq<bool>, now: Seq<bool>, i: int)
    requires
        0 <= i < edges.len(),
        edges[i] < u32::MAX,
    ensures
        counted(edges, level, now).len() == edges.len(),
        now[i] == level[i] ==> counted(edges, level, now)[i] == edges[i],
        now[i] != level[i] ==> counted(edges, level, now)[i] == edges[i] + 1,
{
}

/// A report names every pin that moved, once and in order, with its own count and level, and no pin
/// that did not.
pub proof fn a_report_names_what_moved(edges: Seq<u32>, level: Seq<bool>, n: int, k: int)
    requires
        0 <= k < n <= edges.len() <= usize::MAX,
    ensures
        edges[k] > 0 ==> moved(edges, level, n).contains(
            Moved { pin: k as usize, edges: edges[k], high: level[k] },
        ),
        forall|i: int|
            0 <= i < moved(edges, level, n).len() ==> {
                let m = #[trigger] moved(edges, level, n)[i];
                m.pin < n && edges[m.pin as int] > 0 && m.edges == edges[m.pin as int] && m.high
                    == level[m.pin as int]
            },
        forall|i: int, j: int|
            0 <= i < j < moved(edges, level, n).len() ==> (#[trigger] moved(edges, level, n)[i]).pin
                < (#[trigger] moved(edges, level, n)[j]).pin,
    decreases n,
{
    let all = moved(edges, level, n);
    let before = moved(edges, level, n - 1);
    if n > 1 {
        a_report_names_what_moved(
            edges,
            level,
            n - 1,
            if k < n - 1 {
                k
            } else {
                0
            },
        );
    } else {
        assert(before.len() == 0);
    }
    if edges[k] > 0 {
        let m = Moved { pin: k as usize, edges: edges[k], high: level[k] };
        if k == n - 1 {
            assert(all.last() == m);
        } else {
            let i = choose|i: int| 0 <= i < before.len() && before[i] == m;
            assert(all[i] == m);
        }
    }
}

/// A coordinate has twelve bits: the low half of its high byte counts 256 each, and the other half
/// not at all.
#[verifier::spinoff_prover]
pub proof fn a_coordinate_has_twelve_bits(high: u8, low: u8)
    ensures
        0 <= twelve_bits(high, low) < 4096,
        twelve_bits(high, low) % 256 == low,
        twelve_bits(high, low) / 256 == high % 16,
{
}

/// A finger that left is news whatever was told before, and none at all never is; after either, the
/// next finger is news wherever it lands.
pub proof fn leaving_is_news(last: Option<(u16, u16)>, x: u16, y: u16, gesture: u8)
    ensures
        is_news_spec(last, Touched::Released),
        !is_news_spec(last, Touched::Quiet),
        told_at_spec(Touched::Released) is None,
        told_at_spec(Touched::Quiet) is None,
        told_at_spec(Touched::At { x, y, gesture }) == Some((x, y)),
        is_news_spec(None, Touched::At { x, y, gesture }),
{
}

} // verus!
