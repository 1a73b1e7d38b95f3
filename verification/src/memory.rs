//! How the spare RAM is shared out, and what the heap held while something was weighed.

use vstd::prelude::*;
use vstd::string::*;
use crate::text::{
    decimal, plus_signed, push_decimal, push_plus_signed, push_thousandths, thousandths,
};

verus! {

/// What is carved off the end of the spare RAM, in this order, each only if more than a cover's
/// bytes are left in front of it.
#[derive(Clone, Copy, Debug, PartialEq, Eq)]
pub struct Shares {
    /// Where the page a plugin runs in starts.
    pub page: Option<usize>,
    /// Where the ring's shape starts.
    pub ring: Option<usize>,
    /// Where the buffers of the share start.
    pub share: Option<usize>,
    /// Where a decoded picture starts, behind the cover's bytes, and where it ends.
    pub pixels: Option<(usize, usize)>,
}

/// What is left of `left` bytes and where a piece of `size` starts, if it was carved off.
pub open spec fn carved(left: int, keep: int, size: int) -> (int, Option<int>) {
    if left > keep + size {
        (left - size, Some(left - size))
    } else {
        (left, None)
    }
}

fn carve(left: usize, keep: usize, size: usize) -> (r: (usize, Option<usize>))
    requires
        keep + size <= usize::MAX,
    ensures
        r.0 == carved(left as int, keep as int, size as int).0,
        (r.1 matches Some(at) ==> carved(left as int, keep as int, size as int).1 == Some(at as int)),
        (r.1 is None ==> carved(left as int, keep as int, size as int).1 is None),
{
    if left > keep + size {
        (left - size, Some(left - size))
    } else {
        (left, None)
    }
}

/// Shares out `spare` bytes: a plugin's page, the ring's shape, the share's buffers, and the rest
/// for a cover of at most `cover` bytes and its pixels.
pub fn share_out(spare: usize, cover: usize, page: usize, ring: usize, share: usize) -> (r: Shares)
    requires
        cover + page <= usize::MAX,
        cover + ring <= usize::MAX,
        cover + share <= usize::MAX,
    ensures
        ({
            let (left, at) = carved(spare as int, cover as int, page as int);
            let (less, ring_at) = carved(left, cover as int, ring as int);
            let (rest, share_at) = carved(less, cover as int, share as int);
            &&& r.page is Some <==> at is Some
            &&& r.page is Some ==> r.page->0 == at->0
            &&& r.ring is Some <==> ring_at is Some
            &&& r.ring is Some ==> r.ring->0 == ring_at->0
            &&& r.share is Some <==> share_at is Some
            &&& r.share is Some ==> r.share->0 == share_at->0
            &&& r.pixels is Some <==> rest > cover
            &&& r.pixels is Some ==> r.pixels->0 == (cover, rest as usize)
        }),
        r.wf(spare, cover, page, ring, share),
{
    let (left, page_at) = carve(spare, cover, page);
    let (left, ring_at) = carve(left, cover, ring);
    let (left, share_at) = carve(left, cover, share);
    Shares {
        page: page_at,
        ring: ring_at,
        share: share_at,
        pixels: if left > cover {
            Some((cover, left))
        } else {
            None
        },
    }
}

impl Shares {
    /// The pieces lie one behind another inside the spare RAM, none of them in the cover's bytes.
    pub open spec fn wf(self, spare: usize, cover: usize, page: usize, ring: usize, share: usize) -> bool {
        let page_from = if self.page is Some {
            self.page->0
        } else {
            spare
        };
        let ring_from = if self.ring is Some {
            self.ring->0
        } else {
            page_from
        };
        let share_from = if self.share is Some {
            self.share->0
        } else {
            ring_from
        };
        &&& self.page is Some ==> page_from + page == spare && page_from > cover
        &&& self.ring is Some ==> ring_from + ring == page_from && ring_from > cover
        &&& self.share is Some ==> share_from + share == ring_from && share_from > cover
        &&& self.pixels is Some ==> self.pixels->0 == (cover, share_from) && cover < share_from
    }
}

/// What weighing something on the heap came to: what it still holds, how far it rose above where
/// it began, and how long it took in microseconds.
#[derive(Clone, Copy, Debug, PartialEq, Eq, Structural)]
pub struct Weight {
    pub held: i64,
    pub peak: usize,
    pub micros: u64,
}

/// How much ballast brings the heap up to the most it ever held, so that the next peak is the
/// weighed thing's own.
pub fn ballast(most: usize, used: usize) -> (r: usize)
    ensures
        used + r >= most,
        r > 0 ==> used + r == most,
        r == (if most > used {
            most - used
        } else {
            0
        }),
{
    most.saturating_sub(used)
}

/// With the ballast in place the heap holds at least what it ever held.
pub proof fn ballast_reaches_the_peak(most: int, used: int, lift: int)
    requires
        lift == (if most > used {
            most - used
        } else {
            0
        }),
    ensures
        used + lift >= most,
        used >= most ==> lift == 0,
{
}

/// Weighs what ran between two readings: `floor` bytes in use before it, `used` after it, and
/// the most there ever were.
pub fn weigh(floor: usize, used: usize, most: usize, micros: u64) -> (r: Weight)
    requires
        floor <= i64::MAX,
        used <= i64::MAX,
    ensures
        floor + r.held == used,
        most >= floor ==> floor + r.peak == most,
        most < floor ==> r.peak == 0,
        r.micros == micros,
        r == (Weight {
            held: (used - floor) as i64,
            peak: if most > floor {
                (most - floor) as usize
            } else {
                0
            },
            micros,
        }),
{
    Weight { held: used as i64 - floor as i64, peak: most.saturating_sub(floor), micros }
}

/// A line about a weight.
pub open spec fn weight_text(face: Seq<char>, mode: Seq<char>, point: Seq<char>, w: Weight) -> Seq<
    char,
> {
    face + " "@ + mode + " "@ + point + ": held "@ + plus_signed(w.held as int) + ", peak "@
        + decimal(w.peak as nat) + ", "@ + thousandths(w.micros as nat) + " ms"@
}

pub fn report(face: &str, mode: &str, point: &str, w: &Weight) -> (r: String)
    ensures
        r@ == weight_text(face@, mode@, point@, *w),
{
    let mut t = face.to_owned();
    t.append(" ");
    t.append(mode);
    t.append(" ");
    t.append(point);
    t.append(": held ");
    push_plus_signed(&mut t, w.held);
    t.append(", peak ");
    push_decimal(&mut t, w.peak as u64);
    t.append(", ");
    push_thousandths(&mut t, w.micros);
    t.append(" ms");
    t
}

/// How many faces are weighed, and in how many modes.
pub const WEIGHED_FACES: usize = 3;

pub const WEIGHED_MODES: usize = 3;

/// Which face and which mode a round weighs, or `None` once each face was weighed in each mode.
pub fn round_of(round: usize) -> (r: Option<(usize, usize)>)
    ensures
        r == (if round < 9 {
            Some((round / 3, round % 3))
        } else {
            None
        }),
{
    if round >= WEIGHED_FACES * WEIGHED_MODES {
        None
    } else {
        Some((round / WEIGHED_MODES, round % WEIGHED_MODES))
    }
}

/// Every face is weighed in every mode, in a round of its own.
pub proof fn every_pair_has_a_round(face: int, mode: int)
    requires
        0 <= face < 3,
        0 <= mode < 3,
    ensures
        0 <= face * 3 + mode < 9,
        (face * 3 + mode) / 3 == face,
        (face * 3 + mode) % 3 == mode,
{
}

/// Bytes still held once a plugin was unloaded; 0 means that the heap is back where it was.
pub fn left_over(base: usize, used: usize) -> (r: i64)
    requires
        base <= i64::MAX,
        used <= i64::MAX,
    ensures
        r == used - base,
{
    used as i64 - base as i64
}

/// How loading a face went.
#[derive(Clone, Copy, Debug, PartialEq, Eq, Structural)]
pub enum Loading {
    Loaded,
    /// Refused because the heap has no room for it.
    NoRoom,
    /// Refused for another reason.
    Failed,
}

/// What is made of it.
#[derive(Clone, Copy, Debug, PartialEq, Eq, Structural)]
pub enum Guarded {
    /// It loaded, as it should.
    Loaded,
    /// It loaded and should have been refused.
    TooGenerous,
    /// It was refused and should have loaded.
    TooEager,
    /// It was refused, as it should.
    Refused,
    /// It was refused, but not for its size.
    WrongReason,
}

/// Judges how loading a face went, by whether it should have loaded.
pub fn guarded(loading: Loading, expected: bool) -> (r: Guarded)
    ensures
        r == Guarded::Loaded || r == Guarded::TooGenerous <==> loading == Loading::Loaded,
        r == Guarded::Loaded || r == Guarded::TooEager <==> expected,
        r == Guarded::Refused <==> loading == Loading::NoRoom && !expected,
        r == (match (loading, expected) {
            (Loading::Loaded, true) => Guarded::Loaded,
            (Loading::Loaded, false) => Guarded::TooGenerous,
            (_, true) => Guarded::TooEager,
            (Loading::NoRoom, false) => Guarded::Refused,
            (Loading::Failed, false) => Guarded::WrongReason,
        }),
{
    match loading {
        Loading::Loaded => if expected {
            Guarded::Loaded
        } else {
            Guarded::TooGenerous
        },
        Loading::NoRoom => if expected {
            Guarded::TooEager
        } else {
            Guarded::Refused
        },
        Loading::Failed => if expected {
            Guarded::TooEager
        } else {
            Guarded::WrongReason
        },
    }
}

/// Whether another block of ballast is laid: while what is free would still do. `None` where it
/// would not from the start, and there is nothing to show.
pub fn laying(free: usize, need: usize, laid: usize) -> (r: Option<bool>)
    ensures
        r == Some(true) ==> free >= need,
        r == Some(false) ==> free < need && laid > 0,
        r is None ==> laid == 0 && free < need,
        r == (if laid == 0 && free < need {
            None
        } else {
            Some(free >= need)
        }),
{
    if laid == 0 && free < need {
        None
    } else {
        Some(free >= need)
    }
}

/// A piece is carved off the end, and only where more than what is kept stays in front of it; nothing
/// is lost either way.
pub proof fn a_piece_comes_off_the_end(left: int, keep: int, size: int)
    ensures
        carved(left, keep, size).1 is Some <==> left - size > keep,
        (carved(left, keep, size).1 matches Some(at) ==> at + size == left && carved(
            left,
            keep,
            size,
        ).0 == at),
        carved(left, keep, size).1 is None ==> carved(left, keep, size).0 == left,
{
}

/// A weight is told after the face, the mode and the point it is of: what is still held with its sign,
/// the peak in bytes, and the time in milliseconds.
pub proof fn a_weight_is_told_in_full(face: Seq<char>, mode: Seq<char>, point: Seq<char>, w: Weight)
    ensures
        weight_text(face, mode, point, w) == face + " "@ + mode + " "@ + point + ": held "@
            + plus_signed(w.held as int) + ", peak "@ + decimal(w.peak as nat) + ", "@ + thousandths(
            w.micros as nat,
        ) + " ms"@,
{
}

} // verus!
