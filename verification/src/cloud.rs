//! The cloud of points behind the menus and the player: how bright it is, which rows are cleared
//! under it, and what it costs.

use vstd::prelude::*;
use crate::overview::CloudShape;
use crate::player::{at_least, is_root};

verus! {

/// How often the meter reports, in microseconds.
pub const CLOUD_REPORT: u64 = 10_000_000;

/// Where the scattering starts, chosen by eye.
pub const CLOUD_SEED: u32 = 0x7EE7_0701;

/// A cloud as it is scattered.
#[derive(Clone, Copy, Debug, PartialEq, Eq, Structural)]
pub struct Cloud {
    pub seed: u32,
    pub points: usize,
    /// The brightness at the rim, in 256ths.
    pub peak: u16,
    /// The radius of the dark centre.
    pub core: i32,
    pub accent: u8,
}

/// A cloud of a shape: percent to 256ths is rounded.
pub fn cloud_of(shape: CloudShape) -> (r: Cloud)
    ensures
        r.seed == 0x7EE7_0701,
        r.points == shape.points,
        r.peak == (shape.brightest * 256 + 50) / 100,
        r.core == shape.centre,
        r.accent == shape.accent,
{
    Cloud {
        seed: CLOUD_SEED,
        points: shape.points as usize,
        peak: (shape.brightest as u16 * 256 + 50) / 100,
        core: shape.centre as i32,
        accent: shape.accent,
    }
}

/// The peak is the nearest there is: no other number of 256ths is closer to the percentage.
pub proof fn peak_is_rounded(percent: int, peak: int, other: int)
    requires
        0 <= percent <= 255,
        peak == (percent * 256 + 50) / 100,
    ensures
        -50 <= peak * 100 - percent * 256 <= 50,
        other * 100 - percent * 256 >= 50 || other * 100 - percent * 256 <= -50 || other == peak,
{
}

/// A run of pixels in a row, from `x` on.
#[derive(Clone, Copy, Debug, PartialEq, Eq, Structural)]
pub struct Row {
    pub x: i32,
    pub y: i32,
    pub width: u32,
}

/// Twice the distance of a row's middle, or a column's, from the middle of the screen.
pub open spec fn doubled(at: int) -> int {
    2 * at + 1 - 360
}

/// Whether a row clears the disc of `radius` in its line, with a pixel to spare at either end.
pub open spec fn clears(row: Row, radius: int) -> bool {
    &&& row.width % 2 == 0
    &&& row.width >= 2
    &&& row.x == 180 - row.width as int / 2
    &&& exists|root: int|
        #[trigger] is_root(
            root,
            at_least(4 * radius * radius - doubled(row.y as int) * doubled(row.y as int), 0),
        ) && row.width as int / 2 == root / 2 + 1
}

/// The rows that clear a disc round the middle of the screen, from its top to its foot.
pub fn clear_disc(radius: i32) -> (rows: Vec<Row>)
    requires
        0 <= radius <= 180,
    ensures
        rows.len() == 2 * radius + 2,
        forall|k: int|
            0 <= k < rows.len() ==> (#[trigger] rows[k]).y == 180 - radius - 1 + k && clears(
                rows[k],
                radius as int,
            ),
{
    let mut rows: Vec<Row> = Vec::new();
    let mut y: i32 = 180 - radius - 1;
    while y < 180 + radius + 1
        invariant
            0 <= radius <= 180,
            180 - radius - 1 <= y <= 180 + radius + 1,
            rows.len() == y - (180 - radius - 1),
            forall|k: int|
                0 <= k < rows.len() ==> (#[trigger] rows[k]).y == 180 - radius - 1 + k && clears(
                    rows[k],
                    radius as int,
                ),
        decreases 180 + radius + 1 - y,
    {
        let dy: i32 = 2 * y + 1 - 360;
        assert(0 <= 4 * radius * radius <= 4 * 180 * 180) by (nonlinear_arith)
            requires
                0 <= radius <= 180,
        ;
        assert(0 <= radius * radius <= 180 * 180) by (nonlinear_arith)
            requires
                0 <= radius <= 180,
        ;
        assert(0 <= dy * dy <= 400 * 400) by (nonlinear_arith)
            requires
                -400 <= dy <= 400,
        ;
        let left: i32 = 4 * (radius * radius) - dy * dy;
        assert(4 * (radius * radius) == 4 * radius * radius) by (nonlinear_arith);
        let inside: i32 = if left < 0 {
            0
        } else {
            left
        };
        let root: i32 = inside.isqrt();
        assert(is_root(
            root as int,
            at_least(4 * radius * radius - doubled(y as int) * doubled(y as int), 0),
        ));
        assert(root <= 360) by (nonlinear_arith)
            requires
                root * root <= 4 * 180 * 180,
                root >= 0,
        ;
        let half: i32 = root / 2 + 1;
        let row = Row { x: 180 - half, y, width: 2 * half as u32 };
        assert(row.width == 2 * half);
        assert(row.width as int / 2 == root as int / 2 + 1);
        let ghost radius_int = radius as int;
        assert(is_root(
            root as int,
            at_least(
                4 * radius_int * radius_int - doubled(row.y as int) * doubled(row.y as int),
                0,
            ),
        ));
        assert(clears(row, radius_int));
        rows.push(row);
        y = y + 1;
    }
    rows
}

/// Every pixel nearer the middle than the radius lies in its row: measured in half pixels from
/// the middle of the screen to the middle of the pixel.
pub proof fn the_disc_is_cleared(row: Row, radius: int, x: int)
    requires
        0 <= radius <= 180,
        clears(row, radius),
        doubled(x) * doubled(x) + doubled(row.y as int) * doubled(row.y as int) < 4 * radius
            * radius,
    ensures
        row.x <= x < row.x + row.width,
{
    let n = at_least(4 * radius * radius - doubled(row.y as int) * doubled(row.y as int), 0);
    let root = choose|root: int| is_root(root, n) && row.width as int / 2 == root / 2 + 1;
    let d = doubled(x);
    assert(d * d < n);
    assert(-(root + 1) < d < root + 1) by (nonlinear_arith)
        requires
            d * d < n,
            n < (root + 1) * (root + 1),
            root >= 0,
    ;
}

/// What the cloud cost over a while, summed until it is reported. Times are in microseconds.
#[derive(Clone, Copy, Debug, PartialEq, Eq, Structural)]
pub struct CloudMeter {
    pub frames: u32,
    /// Clearing and the points.
    pub ground: u64,
    /// Everything from the first pixel to the last byte sent.
    pub whole: u64,
    pub send: u64,
    pub worst: u64,
}

/// A line about what the cloud cost: tenths of frames a second, and the mean microseconds of
/// each part.
#[derive(Clone, Copy, Debug, PartialEq, Eq, Structural)]
pub struct CloudReport {
    pub frames: u64,
    pub millis: u64,
    pub tenths: u64,
    pub ground: u64,
    pub over: u64,
    pub send: u64,
    pub worst: u64,
}

impl CloudMeter {
    pub open spec fn fresh() -> CloudMeter {
        CloudMeter { frames: 0, ground: 0, whole: 0, send: 0, worst: 0 }
    }

    /// The sums after one more frame.
    pub open spec fn with(self, ground: u64, whole: u64, send: u64) -> CloudMeter {
        CloudMeter {
            frames: (self.frames + 1) as u32,
            ground: (self.ground + ground) as u64,
            whole: (self.whole + whole) as u64,
            send: (self.send + send) as u64,
            worst: if self.worst < whole {
                whole
            } else {
                self.worst
            },
        }
    }

    /// What sums come to over a window.
    pub open spec fn reported(self, window: u64) -> CloudReport {
        let millis = window / 1000;
        let ground = self.ground / self.frames as u64;
        let whole = self.whole / self.frames as u64;
        let send = self.send / self.frames as u64;
        CloudReport {
            frames: self.frames as u64,
            millis,
            tenths: (self.frames * 10_000 / (if millis == 0 {
                1
            } else {
                millis as int
            })) as u64,
            ground,
            over: if whole > ground + send {
                (whole - (ground + send)) as u64
            } else {
                0
            },
            send,
            worst: self.worst,
        }
    }

    pub fn new() -> (r: Self)
        ensures
            r == CloudMeter::fresh(),
    {
        CloudMeter { frames: 0, ground: 0, whole: 0, send: 0, worst: 0 }
    }

    /// Whether a frame still fits into the sums.
    pub open spec fn takes_spec(self, ground: u64, whole: u64, send: u64) -> bool {
        &&& self.frames < u32::MAX
        &&& self.ground + ground <= u64::MAX / 2
        &&& self.whole + whole <= u64::MAX
        &&& self.send + send <= u64::MAX / 2
    }

    pub fn takes(&self, ground: u64, whole: u64, send: u64) -> (r: bool)
        ensures
            r == self.takes_spec(ground, whole, send),
    {
        let half: u64 = u64::MAX / 2;
        self.frames < u32::MAX && ground <= half && self.ground <= half - ground && self.whole
            <= u64::MAX - whole && send <= half && self.send <= half - send
    }

    /// Adds a frame. `window` is how long the sums have run; once that is long enough they are
    /// reported and start again.
    pub fn add(&mut self, ground: u64, whole: u64, send: u64, window: u64) -> (r: Option<
        CloudReport,
    >)
        requires
            old(self).takes_spec(ground, whole, send),
        ensures
            window < CLOUD_REPORT ==> r is None && *final(self) == old(self).with(
                ground,
                whole,
                send,
            ),
            window >= CLOUD_REPORT ==> r == Some(
                old(self).with(ground, whole, send).reported(window),
            ) && *final(self) == CloudMeter::fresh(),
    {
        self.frames = self.frames + 1;
        self.ground = self.ground + ground;
        self.whole = self.whole + whole;
        self.send = self.send + send;
        if self.worst < whole {
            self.worst = whole;
        }
        if window < CLOUD_REPORT {
            return None;
        }
        let frames: u64 = self.frames as u64;
        let millis: u64 = window / 1000;
        let tenths: u64 = frames * 10_000 / (if millis == 0 {
            1
        } else {
            millis
        });
        let ground: u64 = self.ground / frames;
        let whole: u64 = self.whole / frames;
        let send: u64 = self.send / frames;
        proof {
            assert(ground <= self.ground) by {
                vstd::arithmetic::div_mod::lemma_div_is_ordered_by_denominator(
                    self.ground as int,
                    1,
                    frames as int,
                );
            }
            assert(send <= self.send) by {
                vstd::arithmetic::div_mod::lemma_div_is_ordered_by_denominator(
                    self.send as int,
                    1,
                    frames as int,
                );
            }
        }
        let over: u64 = whole.saturating_sub(ground + send);
        let report = CloudReport { frames, millis, tenths, ground, over, send, worst: self.worst };
        self.frames = 0;
        self.ground = 0;
        self.whole = 0;
        self.send = 0;
        self.worst = 0;
        Some(report)
    }
}

/// The worst frame of a window is one of its frames, and none is worse.
pub proof fn worst_is_the_worst(meter: CloudMeter, ground: u64, whole: u64, send: u64)
    ensures
        meter.with(ground, whole, send).worst >= whole,
        meter.with(ground, whole, send).worst >= meter.worst,
        meter.with(ground, whole, send).worst == whole || meter.with(ground, whole, send).worst
            == meter.worst,
{
}

/// The moment a frame of the cloud shows, in milliseconds, or `None` while it stands still.
pub fn moment(frame: u32) -> (r: Option<u32>)
    ensures
        r == (if frame == 0 {
            None
        } else {
            Some(vstd::wrapping::u32_specs::wrapping_mul(frame, 40))
        }),
{
    if frame == 0 {
        None
    } else {
        Some(frame.wrapping_mul(40))
    }
}

/// How the ground is cleared: only the disc inside the ring where a menu left the rest black
/// already, and the whole frame otherwise; and how far from the middle its points reach.
#[derive(Clone, Copy, Debug, PartialEq, Eq, Structural)]
pub struct Ground {
    pub disc_only: bool,
    pub reach: i32,
}

/// The ground under a ring with the inner radius `inner`, or under the player.
pub fn cloud_ground(ring: bool, clean: bool, inner: i32) -> (r: Ground)
    ensures
        r.disc_only ==> ring && clean,
        !ring ==> r.reach == 180,
        ring ==> r.reach == inner,
        r == (Ground {
            disc_only: ring && clean,
            reach: if ring {
                inner
            } else {
                180
            },
        }),
{
    Ground {
        disc_only: ring && clean,
        reach: if ring {
            inner
        } else {
            180
        },
    }
}

/// No row is wider than the disc asks for: a pixel in from either end lies in the disc already.
#[verifier::spinoff_prover]
pub proof fn no_row_is_wider_than_the_disc(row: Row, radius: int)
    requires
        0 <= radius <= 180,
        clears(row, radius),
        row.width >= 4,
    ensures
        ({
            let x = row.x + row.width - 2;
            doubled(x) * doubled(x) + doubled(row.y as int) * doubled(row.y as int) <= 4 * radius
                * radius
        }),
        ({
            let x = row.x + 1;
            doubled(x) * doubled(x) + doubled(row.y as int) * doubled(row.y as int) <= 4 * radius
                * radius
        }),
{
    let d = doubled(row.y as int);
    let n = at_least(4 * radius * radius - d * d, 0);
    let root = choose|root: int| is_root(root, n) && row.width as int / 2 == root / 2 + 1;
    let half = row.width as int / 2;
    let e = doubled(row.x + row.width - 2);
    let f = doubled(row.x + 1);
    assert(e == 2 * half - 3 && f == -e);
    assert(0 < e < root + 1);
    assert(e * e <= root * root && f * f == e * e) by (nonlinear_arith)
        requires
            0 < e <= root,
            f == -e,
    ;
    assert(root * root > 0) by (nonlinear_arith)
        requires
            0 < root,
    ;
}

/// Distances are measured from the middle of the screen, which lies between its two middle rows.
pub proof fn the_middle_lies_between_two_rows(at: int)
    ensures
        doubled(179) == -1,
        doubled(180) == 1,
        doubled(at + 1) == doubled(at) + 2,
        doubled(359 - at) == -doubled(at),
{
}

/// Each frame is added to the sums once, each part to its own.
pub proof fn each_part_is_summed(meter: CloudMeter, ground: u64, whole: u64, send: u64)
    requires
        meter.takes_spec(ground, whole, send),
    ensures
        ({
            let after = meter.with(ground, whole, send);
            &&& after.frames == meter.frames + 1
            &&& after.ground == meter.ground + ground
            &&& after.whole == meter.whole + whole
            &&& after.send == meter.send + send
        }),
        CloudMeter::fresh() == (CloudMeter { frames: 0, ground: 0, whole: 0, send: 0, worst: 0 }),
{
}

/// A frame is taken as long as its count and every sum have room for it.
pub proof fn a_frame_is_taken_while_there_is_room(
    meter: CloudMeter,
    ground: u64,
    whole: u64,
    send: u64,
)
    ensures
        meter.takes_spec(ground, whole, send) <==> meter.frames < 0xFFFF_FFFF && meter.ground
            + ground < 0x8000_0000_0000_0000 && meter.whole + whole < 0x1_0000_0000_0000_0000
            && meter.send + send < 0x8000_0000_0000_0000,
{
}

/// A report gives the means of its window, rounded down: of the ground and of sending, and as the
/// rest what the mean whole has over both; the worst frame as it was; and the tenths of frames a
/// second by the milliseconds it lasted.
#[verifier::spinoff_prover]
pub proof fn a_report_gives_the_means(meter: CloudMeter, window: u64)
    requires
        meter.frames > 0,
        meter.ground <= u64::MAX / 2,
        meter.send <= u64::MAX / 2,
        window >= CLOUD_REPORT,
    ensures
        ({
            let r = meter.reported(window);
            let whole = meter.whole as int / meter.frames as int;
            &&& r.frames == meter.frames
            &&& r.millis == window as int / 1000
            &&& r.millis * r.tenths <= 10_000 * meter.frames < r.millis * (r.tenths + 1)
            &&& r.ground == meter.ground as int / meter.frames as int
            &&& r.send == meter.send as int / meter.frames as int
            &&& whole >= r.ground + r.send ==> r.ground + r.send + r.over == whole
            &&& whole <= r.ground + r.send ==> r.over == 0
            &&& r.worst == meter.worst
        }),
{
    let millis = window as int / 1000;
    let n = meter.frames * 10_000;
    let q = n / millis;
    assert(millis >= 10_000);
    assert(0 <= q <= n && millis * q <= n < millis * (q + 1)) by (nonlinear_arith)
        requires
            q == n / millis,
            millis >= 1,
            n >= 0,
    ;
    let g = meter.ground as int / meter.frames as int;
    let s = meter.send as int / meter.frames as int;
    assert(0 <= g <= meter.ground) by (nonlinear_arith)
        requires
            g == meter.ground as int / meter.frames as int,
            meter.frames >= 1,
    ;
    assert(0 <= s <= meter.send) by (nonlinear_arith)
        requires
            s == meter.send as int / meter.frames as int,
            meter.frames >= 1,
    ;
}

} // verus!
