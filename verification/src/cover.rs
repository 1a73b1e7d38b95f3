//! Watching a cover arrive from the other chip: what a transfer says of itself, and a face that
//! shows its numbers with the picture behind them.

use vstd::prelude::*;
use vstd::string::*;
use crate::text::{clip, clipped, decimal, hex2, push_decimal, push_hex2, push_register, register};

verus! {

/// What a transfer just did.
#[derive(Clone, Copy, Debug, PartialEq, Eq, Structural)]
pub enum Step {
    Offered { id: u32, packets: u32 },
    Packet { packet: u32, of: u32 },
    Complete { bytes: usize },
    Refused { reason: u8 },
    Silent { bytes: usize },
}

/// One line about what just happened to the transfer.
pub open spec fn described(step: Step) -> Seq<char> {
    match step {
        Step::Offered { id, packets } => "offered: id "@ + decimal(id as nat) + ", "@ + decimal(
            packets as nat,
        ) + " packets"@,
        Step::Packet { packet, of } => "packet "@ + decimal(packet as nat) + " of "@ + decimal(
            of as nat,
        ),
        Step::Complete { bytes } => "cover complete: "@ + decimal(bytes as nat) + " bytes"@,
        Step::Refused { reason } => "refused, reason "@ + decimal(reason as nat),
        Step::Silent { bytes } => "no answer to the request, at "@ + decimal(bytes as nat)
            + " bytes"@,
    }
}

pub fn describe(step: Step) -> (r: String)
    ensures
        r@ == described(step),
{
    match step {
        Step::Offered { id, packets } => {
            let mut t = "offered: id ".to_owned();
            push_decimal(&mut t, id as u64);
            t.append(", ");
            push_decimal(&mut t, packets as u64);
            t.append(" packets");
            t
        },
        Step::Packet { packet, of } => {
            let mut t = "packet ".to_owned();
            push_decimal(&mut t, packet as u64);
            t.append(" of ");
            push_decimal(&mut t, of as u64);
            t
        },
        Step::Complete { bytes } => {
            let mut t = "cover complete: ".to_owned();
            push_decimal(&mut t, bytes as u64);
            t.append(" bytes");
            t
        },
        Step::Refused { reason } => {
            let mut t = "refused, reason ".to_owned();
            push_decimal(&mut t, reason as u64);
            t
        },
        Step::Silent { bytes } => {
            let mut t = "no answer to the request, at ".to_owned();
            push_decimal(&mut t, bytes as u64);
            t.append(" bytes");
            t
        },
    }
}

/// Whether a cover waits to be decoded after a step: from its last packet on.
pub fn waits(step: Step, waiting: bool) -> (r: bool)
    ensures
        waiting ==> r,
        step is Complete ==> r,
        !waiting && !(step is Complete) ==> !r,
        r == (waiting || step is Complete),
{
    match step {
        Step::Complete { .. } => true,
        _ => waiting,
    }
}

/// A frame from the other chip, by its command.
#[derive(Clone, Copy, Debug, PartialEq, Eq, Structural)]
pub enum Frame {
    CoverBegin,
    CoverPacket,
    CoverAborted,
    CoverPacketNeeded,
    Status,
    Metadata,
    Encoder,
    Unknown { cmd: u8 },
}

/// The command byte a frame is counted under; what is unknown goes under 0.
pub open spec fn counted_under(frame: Frame) -> int {
    match frame {
        Frame::CoverBegin => 1,
        Frame::CoverPacket => 2,
        Frame::CoverAborted => 3,
        Frame::CoverPacketNeeded => 4,
        Frame::Status => 5,
        Frame::Metadata => 6,
        Frame::Encoder => 7,
        Frame::Unknown { .. } => 0,
    }
}

/// Counts a frame, one counter for each command byte.
pub fn count_frame(counts: &mut [u32; 9], frame: Frame)
    requires
        old(counts)@[counted_under(frame)] < u32::MAX,
    ensures
        final(counts)@ == old(counts)@.update(
            counted_under(frame),
            (old(counts)@[counted_under(frame)] + 1) as u32,
        ),
{
    let n: usize = match frame {
        Frame::CoverBegin => 1,
        Frame::CoverPacket => 2,
        Frame::CoverAborted => 3,
        Frame::CoverPacketNeeded => 4,
        Frame::Status => 5,
        Frame::Metadata => 6,
        Frame::Encoder => 7,
        Frame::Unknown { .. } => 0,
    };
    counts[n] = counts[n] + 1;
}

/// What a frame leaves on the face by itself: a new track and an unknown frame are worth a line.
pub open spec fn noted(frame: Frame) -> Option<Seq<char>> {
    match frame {
        Frame::Metadata => Some("new track"@),
        Frame::Unknown { cmd } => Some("unknown frame "@ + register(cmd)),
        _ => None,
    }
}

pub fn note(frame: Frame) -> (r: Option<String>)
    ensures
        crate::screens::said(r) == noted(frame),
{
    match frame {
        Frame::Metadata => Some("new track".to_owned()),
        Frame::Unknown { cmd } => {
            let mut t = "unknown frame ".to_owned();
            push_register(&mut t, cmd);
            Some(t)
        },
        _ => None,
    }
}

/// How many filters there are to step through: the picture's own choice and three forced ones.
pub const FILTERS: usize = 4;

/// The filter after this one.
pub fn next_filter(filter: usize) -> (r: usize)
    requires
        filter < FILTERS,
    ensures
        r < FILTERS,
        filter + 1 < FILTERS ==> r == filter + 1,
        filter + 1 == FILTERS ==> r == 0,
        r == (filter + 1) % 4,
{
    (filter + 1) % FILTERS
}

/// Why a transfer ended early.
#[derive(Clone, Copy, Debug, PartialEq, Eq, Structural)]
pub enum Aborted {
    NoAnswer,
    Reason(u8),
}

/// How far a transfer is.
#[derive(Clone, Copy, Debug, PartialEq, Eq, Structural)]
pub struct Progress {
    pub done: bool,
    pub aborted: Option<Aborted>,
    pub bytes: usize,
    pub got: u32,
    pub packets: u32,
}

/// A cover that was decoded: its size, the filter that scaled it and whether that was forced, and
/// how long it took.
#[derive(Debug)]
pub struct Art {
    pub width: usize,
    pub height: usize,
    pub scaler: String,
    pub forced: bool,
    pub millis: u64,
}

/// The other chip's answer: its state and volume.
#[derive(Clone, Copy, Debug, PartialEq, Eq, Structural)]
pub struct Status {
    pub state: u8,
    pub volume: u8,
}

/// The colours of the face.
#[derive(Clone, Copy, Debug, PartialEq, Eq, Structural)]
pub enum Shade {
    Green,
    White,
    Grey,
}

/// A line of the face. A doubled line has its coordinate doubled too.
#[derive(Debug)]
pub struct FaceLine {
    pub text: String,
    pub y: i32,
    pub doubled: bool,
    pub shade: Shade,
}

/// A line of the face as contracts speak of it.
pub struct FaceLineView {
    pub text: Seq<char>,
    pub y: int,
    pub doubled: bool,
    pub shade: Shade,
}

impl View for FaceLine {
    type V = FaceLineView;

    open spec fn view(&self) -> FaceLineView {
        FaceLineView {
            text: self.text@,
            y: self.y as int,
            doubled: self.doubled,
            shade: self.shade,
        }
    }
}

pub open spec fn face_views(lines: Seq<FaceLine>) -> Seq<FaceLineView> {
    lines.map_values(|l: FaceLine| l@)
}

/// The verdict to read out, and the number behind it.
pub open spec fn verdict(progress: Option<Progress>, art: Option<&Art>) -> (Seq<char>, Seq<char>) {
    match progress {
        None => ("no BD 01 yet"@, Seq::empty()),
        Some(state) => if state.done {
            (
                decimal(state.bytes as nat) + " bytes"@,
                match art {
                    Some(art) => decimal(art.width as nat) + "x"@ + decimal(art.height as nat),
                    None => decimal(state.packets as nat) + " packets"@,
                },
            )
        } else {
            match state.aborted {
                Some(Aborted::NoAnswer) => ("no answer"@, "at "@ + decimal(state.bytes as nat)),
                Some(Aborted::Reason(reason)) => (
                    "refused"@,
                    "reason "@ + decimal(reason as nat),
                ),
                None => (
                    decimal(state.got as nat) + " of "@ + decimal(state.packets as nat),
                    "packets"@,
                ),
            }
        },
    }
}

fn verdict_of(progress: Option<Progress>, art: Option<&Art>) -> (r: (String, String))
    ensures
        (r.0@, r.1@) == verdict(progress, art),
{
    match progress {
        None => ("no BD 01 yet".to_owned(), String::new()),
        Some(state) => {
            if state.done {
                let mut bytes = String::new();
                push_decimal(&mut bytes, state.bytes as u64);
                bytes.append(" bytes");
                let mut behind = String::new();
                match art {
                    Some(art) => {
                        push_decimal(&mut behind, art.width as u64);
                        behind.append("x");
                        push_decimal(&mut behind, art.height as u64);
                    },
                    None => {
                        push_decimal(&mut behind, state.packets as u64);
                        behind.append(" packets");
                    },
                }
                (bytes, behind)
            } else {
                match state.aborted {
                    Some(Aborted::NoAnswer) => {
                        let mut at = "at ".to_owned();
                        push_decimal(&mut at, state.bytes as u64);
                        ("no answer".to_owned(), at)
                    },
                    Some(Aborted::Reason(reason)) => {
                        let mut why = "reason ".to_owned();
                        push_decimal(&mut why, reason as u64);
                        ("refused".to_owned(), why)
                    },
                    None => {
                        let mut got = String::new();
                        push_decimal(&mut got, state.got as u64);
                        got.append(" of ");
                        push_decimal(&mut got, state.packets as u64);
                        (got, "packets".to_owned())
                    },
                }
            }
        },
    }
}

/// The frames that came for covers.
pub open spec fn counters(counts: Seq<u32>) -> Seq<char> {
    "01:"@ + decimal(counts[1] as nat) + " 02:"@ + decimal(counts[2] as nat) + " 03:"@ + decimal(
        counts[3] as nat,
    )
}

fn counters_of(counts: &[u32; 9]) -> (r: String)
    ensures
        r@ == counters(counts@),
{
    let mut t = "01:".to_owned();
    push_decimal(&mut t, counts[1] as u64);
    t.append(" 02:");
    push_decimal(&mut t, counts[2] as u64);
    t.append(" 03:");
    push_decimal(&mut t, counts[3] as u64);
    t
}

/// What the first bytes of a file say it is.
pub open spec fn sniffed(head: Seq<u8>) -> Seq<char> {
    if head[0] == 0xFF && head[1] == 0xD8 && head[2] == 0xFF {
        "JPEG"@
    } else if head[0] == 0x89 && head[1] == 0x50 {
        "PNG"@
    } else {
        "unknown"@
    }
}

/// What the bytes are, once three have come, or how the picture was made from them.
pub open spec fn bytes_text(head: Seq<u8>, art: Option<&Art>) -> Seq<char> {
    match art {
        Some(art) => art.scaler@ + (if art.forced {
            "*"@
        } else {
            ""@
        }) + "  "@ + decimal(art.width as nat) + "x"@ + decimal(art.height as nat),
        None => if head.len() >= 3 {
            hex2(head[0] as int) + " "@ + hex2(head[1] as int) + " "@ + hex2(head[2] as int)
                + "  "@ + sniffed(head)
        } else {
            Seq::empty()
        },
    }
}

fn bytes_of(head: &[u8], art: Option<&Art>) -> (r: String)
    ensures
        r@ == bytes_text(head@, art),
{
    match art {
        Some(art) => {
            let mut t = art.scaler.clone();
            t.append(
                if art.forced {
                    "*"
                } else {
                    ""
                },
            );
            t.append("  ");
            push_decimal(&mut t, art.width as u64);
            t.append("x");
            push_decimal(&mut t, art.height as u64);
            t
        },
        None => {
            let mut t = String::new();
            if head.len() >= 3 {
                push_hex2(&mut t, head[0]);
                t.append(" ");
                push_hex2(&mut t, head[1]);
                t.append(" ");
                push_hex2(&mut t, head[2]);
                t.append("  ");
                let kind = if head[0] == 0xFF && head[1] == 0xD8 && head[2] == 0xFF {
                    "JPEG"
                } else if head[0] == 0x89 && head[1] == 0x50 {
                    "PNG"
                } else {
                    "unknown"
                };
                t.append(kind);
            }
            t
        },
    }
}

/// How the link stands: the other chip's state, and framing and overrun errors.
pub open spec fn status_text(status: Option<Status>, errors: (u32, u32), uptime: u64) -> Seq<char> {
    match status {
        Some(status) => "state "@ + register(status.state) + "  volume "@ + decimal(
            status.volume as nat,
        ) + "  rx "@ + decimal(errors.0 as nat) + "/"@ + decimal(errors.1 as nat) + "  up "@
            + decimal(uptime as nat) + " s"@,
        None => "the other chip has not answered"@,
    }
}

fn status_of(status: Option<Status>, errors: (u32, u32), uptime: u64) -> (r: String)
    ensures
        r@ == status_text(status, errors, uptime),
{
    match status {
        Some(status) => {
            let mut t = "state ".to_owned();
            push_register(&mut t, status.state);
            t.append("  volume ");
            push_decimal(&mut t, status.volume as u64);
            t.append("  rx ");
            push_decimal(&mut t, errors.0 as u64);
            t.append("/");
            push_decimal(&mut t, errors.1 as u64);
            t.append("  up ");
            push_decimal(&mut t, uptime);
            t.append(" s");
            t
        },
        None => "the other chip has not answered".to_owned(),
    }
}

/// A band of rows, from the first to before the second.
pub open spec fn in_band(band: (i32, i32), row: int) -> bool {
    band.0 <= row < band.1
}

/// Whether one of the bands holds the row.
pub open spec fn covers(bands: Seq<(i32, i32)>, row: int) -> bool {
    exists|i: int| 0 <= i < bands.len() && #[trigger] in_band(bands[i], row)
}

/// Bands in order with at least a row between each and the next.
pub open spec fn apart(bands: Seq<(i32, i32)>) -> bool {
    &&& forall|i: int| 0 <= i < bands.len() ==> (#[trigger] bands[i]).0 < bands[i].1
    &&& forall|i: int, j: int|
        0 <= i < j < bands.len() ==> (#[trigger] bands[i]).1 < (#[trigger] bands[j]).0
}

/// Bands in the order of their first rows.
spec fn in_order(bands: Seq<(i32, i32)>) -> bool {
    forall|i: int, j: int|
        0 <= i < j < bands.len() ==> (#[trigger] bands[i]).0 <= (#[trigger] bands[j]).0
}

proof fn covers_insert(bands: Seq<(i32, i32)>, at: int, band: (i32, i32), row: int)
    requires
        0 <= at <= bands.len(),
    ensures
        covers(bands.insert(at, band), row) == (covers(bands, row) || in_band(band, row)),
{
    let more = bands.insert(at, band);
    if in_band(band, row) {
        assert(in_band(more[at], row));
    }
    if covers(bands, row) {
        let i = choose|i: int| 0 <= i < bands.len() && #[trigger] in_band(bands[i], row);
        let j = if i < at {
            i
        } else {
            i + 1
        };
        assert(in_band(more[j], row));
    }
    if covers(more, row) {
        let j = choose|j: int| 0 <= j < more.len() && #[trigger] in_band(more[j], row);
        if j < at {
            assert(in_band(bands[j], row));
        } else if j > at {
            assert(in_band(bands[j - 1], row));
        }
    }
}

proof fn covers_push(bands: Seq<(i32, i32)>, band: (i32, i32), row: int)
    ensures
        covers(bands.push(band), row) == (covers(bands, row) || in_band(band, row)),
{
    covers_insert(bands, bands.len() as int, band, row);
    assert(bands.insert(bands.len() as int, band) =~= bands.push(band));
}

/// The bands by their first rows.
fn sorted(bands: &Vec<(i32, i32)>) -> (r: Vec<(i32, i32)>)
    requires
        forall|i: int| 0 <= i < bands.len() ==> (#[trigger] bands[i]).0 < bands[i].1,
    ensures
        in_order(r@),
        forall|i: int| 0 <= i < r.len() ==> (#[trigger] r[i]).0 < r[i].1,
        forall|row: int| covers(r@, row) == covers(bands@, row),
{
    let mut r: Vec<(i32, i32)> = Vec::new();
    let mut n: usize = 0;
    while n < bands.len()
        invariant
            n <= bands.len(),
            forall|i: int| 0 <= i < bands.len() ==> (#[trigger] bands[i]).0 < bands[i].1,
            in_order(r@),
            forall|i: int| 0 <= i < r.len() ==> (#[trigger] r[i]).0 < r[i].1,
            forall|row: int| covers(r@, row) == covers(bands@.take(n as int), row),
        decreases bands.len() - n,
    {
        let band = bands[n];
        let mut at: usize = 0;
        while at < r.len() && r[at].0 <= band.0
            invariant
                at <= r.len(),
                forall|i: int| 0 <= i < at ==> (#[trigger] r[i]).0 <= band.0,
            decreases r.len() - at,
        {
            at = at + 1;
        }
        let ghost before = r@;
        r.insert(at, band);
        proof {
            assert(bands@.take(n + 1) =~= bands@.take(n as int).push(band));
            assert forall|row: int| covers(r@, row) == covers(bands@.take(n + 1), row) by {
                covers_insert(before, at as int, band, row);
                covers_push(bands@.take(n as int), band, row);
            }
        }
        n = n + 1;
    }
    assert(bands@.take(n as int) =~= bands@);
    r
}

/// The same rows in bands that neither meet nor overlap: a row in two of them would be dimmed
/// twice, and twice as dark reads as a black stripe.
pub fn merge_bands(bands: &Vec<(i32, i32)>) -> (r: Vec<(i32, i32)>)
    requires
        forall|i: int| 0 <= i < bands.len() ==> (#[trigger] bands[i]).0 < bands[i].1,
    ensures
        apart(r@),
        forall|row: int| covers(r@, row) == covers(bands@, row),
{
    let bands_in_order = sorted(bands);
    let mut r: Vec<(i32, i32)> = Vec::new();
    let mut n: usize = 0;
    while n < bands_in_order.len()
        invariant
            n <= bands_in_order.len(),
            in_order(bands_in_order@),
            forall|i: int|
                0 <= i < bands_in_order.len() ==> (#[trigger] bands_in_order[i]).0
                    < bands_in_order[i].1,
            apart(r@),
            n > 0 ==> r.len() > 0,
            r.len() > 0 ==> n > 0 && r[r.len() - 1].0 <= bands_in_order[n - 1].0,
            forall|row: int| covers(r@, row) == covers(bands_in_order@.take(n as int), row),
        decreases bands_in_order.len() - n,
    {
        let (top, bottom) = bands_in_order[n];
        let ghost before = r@;
        let last: usize = r.len();
        if last > 0 && top <= r[last - 1].1 {
            let (was_top, was_bottom) = r[last - 1];
            let longer: i32 = if was_bottom < bottom {
                bottom
            } else {
                was_bottom
            };
            r[last - 1] = (was_top, longer);
            proof {
                assert(was_top <= top);
                assert forall|row: int| covers(r@, row) == (covers(before, row) || in_band(
                    (top, bottom),
                    row,
                )) by {
                    let rest = before.drop_last();
                    assert(before =~= rest.push((was_top, was_bottom)));
                    assert(r@ =~= rest.push((was_top, longer)));
                    covers_push(rest, (was_top, was_bottom), row);
                    covers_push(rest, (was_top, longer), row);
                }
            }
        } else {
            r.push((top, bottom));
            proof {
                assert forall|row: int| covers(r@, row) == (covers(before, row) || in_band(
                    (top, bottom),
                    row,
                )) by {
                    covers_push(before, (top, bottom), row);
                }
            }
        }
        proof {
            assert(bands_in_order@.take(n + 1) =~= bands_in_order@.take(n as int).push(
                (top, bottom),
            ));
            assert forall|row: int| covers(r@, row) == covers(bands_in_order@.take(n + 1), row) by {
                covers_push(bands_in_order@.take(n as int), (top, bottom), row);
                assert(covers(before, row) == covers(bands_in_order@.take(n as int), row));
                assert(covers(r@, row) == (covers(before, row) || in_band((top, bottom), row)));
            }
        }
        n = n + 1;
    }
    assert(bands_in_order@.take(n as int) =~= bands_in_order@);
    r
}

/// What the face knows besides the transfer.
#[derive(Debug)]
pub struct Around {
    /// The first bytes received.
    pub head: Vec<u8>,
    pub title: String,
    pub status: Option<Status>,
    /// Framing and overrun errors.
    pub errors: (u32, u32),
    pub last_action: String,
    /// Seconds the run has lasted.
    pub uptime: u64,
}

/// The face: whether it starts from black, the rows to dim in the picture behind it, and its
/// lines.
#[derive(Debug)]
pub struct CoverFace {
    pub clear: bool,
    pub dim: Vec<(i32, i32)>,
    pub lines: Vec<FaceLine>,
}

/// Adds a line, unless it says nothing.
pub open spec fn with_line(lines: Seq<FaceLineView>, line: FaceLineView) -> Seq<FaceLineView> {
    if line.text.len() == 0 {
        lines
    } else {
        lines.push(line)
    }
}

/// The verdict and the counters again, small, for when the picture takes the middle.
pub open spec fn numbers_text(
    counts: Seq<u32>,
    progress: Option<Progress>,
    art: Option<&Art>,
) -> Seq<char> {
    match art {
        Some(art) => verdict(progress, Some(art)).0 + "  "@ + counters(counts) + "  "@ + decimal(
            art.millis as nat,
        ) + " ms"@,
        None => Seq::empty(),
    }
}

/// The three lines to read out, in the middle of the face while no picture is there.
pub open spec fn middle_lines(counts: Seq<u32>, progress: Option<Progress>, art: Option<&Art>) -> Seq<
    FaceLineView,
> {
    if art is Some {
        Seq::empty()
    } else {
        let big = |text: Seq<char>, y: int|
            FaceLineView { text, y, doubled: true, shade: Shade::Green };
        let lines = with_line(Seq::empty(), big(verdict(progress, art).0, 56));
        let lines = with_line(lines, big(verdict(progress, art).1, 78));
        with_line(lines, big(counters(counts), 116))
    }
}

/// Every line of the face.
pub open spec fn face_lines(
    counts: Seq<u32>,
    progress: Option<Progress>,
    art: Option<&Art>,
    around: &Around,
) -> Seq<FaceLineView> {
    let small = |text: Seq<char>, y: int, shade: Shade|
        FaceLineView { text, y, doubled: false, shade };
    let head = if art is Some {
        Shade::Green
    } else {
        Shade::White
    };
    let lines = middle_lines(counts, progress, art);
    let lines = with_line(lines, small(bytes_text(around.head@, art), 268, head));
    let lines = with_line(lines, small(clipped(around.title@, 28), 292, Shade::White));
    let lines = with_line(lines, small(numbers_text(counts, progress, art), 306, Shade::Grey));
    let lines = with_line(
        lines,
        small(status_text(around.status, around.errors, around.uptime), 316, Shade::Grey),
    );
    with_line(lines, small(clipped(around.last_action@, 52), 326, Shade::Grey))
}

/// The rows a line stands in. Doubled, a line reaches 30 above its baseline and 10 below; the
/// small grey ones are set smaller than the others.
pub open spec fn band_of(line: FaceLineView) -> (i32, i32) {
    if line.doubled {
        ((line.y * 2 - 30) as i32, (line.y * 2 + 10) as i32)
    } else if line.shade == Shade::Grey {
        ((line.y - 8) as i32, (line.y + 3) as i32)
    } else {
        ((line.y - 15) as i32, (line.y + 5) as i32)
    }
}

pub open spec fn bands_of(lines: Seq<FaceLineView>) -> Seq<(i32, i32)> {
    lines.map_values(|l: FaceLineView| band_of(l))
}

/// Every line stands on the screen.
pub open spec fn on_screen(lines: Seq<FaceLineView>) -> bool {
    forall|i: int| 0 <= i < lines.len() ==> 15 <= (#[trigger] lines[i]).y <= 330
}

fn add_face_line(lines: &mut Vec<FaceLine>, text: String, y: i32, doubled: bool, shade: Shade)
    requires
        on_screen(face_views(old(lines)@)),
        15 <= y <= 330,
    ensures
        face_views(final(lines)@) == with_line(
            face_views(old(lines)@),
            FaceLineView { text: text@, y: y as int, doubled, shade },
        ),
        on_screen(face_views(final(lines)@)),
{
    let ghost before = lines@;
    if !text.as_str().is_empty() {
        lines.push(FaceLine { text, y, doubled, shade });
        assert(face_views(lines@) =~= face_views(before).push(
            FaceLineView { text: text@, y: y as int, doubled, shade },
        ));
    }
}

fn bands(lines: &Vec<FaceLine>) -> (r: Vec<(i32, i32)>)
    requires
        on_screen(face_views(lines@)),
    ensures
        r@ == bands_of(face_views(lines@)),
        forall|i: int| 0 <= i < r.len() ==> 0 <= (#[trigger] r[i]).0 < r[i].1,
{
    let mut r: Vec<(i32, i32)> = Vec::new();
    let mut n: usize = 0;
    while n < lines.len()
        invariant
            n <= lines.len(),
            on_screen(face_views(lines@)),
            r.len() == n,
            forall|i: int| 0 <= i < n ==> (#[trigger] r[i]) == band_of(lines[i]@),
            forall|i: int| 0 <= i < r.len() ==> 0 <= (#[trigger] r[i]).0 < r[i].1,
        decreases lines.len() - n,
    {
        let line = &lines[n];
        assert(face_views(lines@)[n as int] == line@);
        let band: (i32, i32) = if line.doubled {
            (line.y * 2 - 30, line.y * 2 + 10)
        } else {
            match line.shade {
                Shade::Grey => (line.y - 8, line.y + 3),
                _ => (line.y - 15, line.y + 5),
            }
        };
        r.push(band);
        n = n + 1;
    }
    assert(r@ =~= bands_of(face_views(lines@)));
    r
}

/// Everything a watched transfer knows, on one round face. Once a cover has arrived it is the
/// ground: the middle is given back to it, and each row that a line stands in is dimmed, once.
pub fn draw(
    counts: &[u32; 9],
    progress: Option<Progress>,
    art: Option<&Art>,
    around: &Around,
) -> (face: CoverFace)
    ensures
        face.clear == (art is None),
        face_views(face.lines@) == face_lines(counts@, progress, art, around),
        apart(face.dim@),
        forall|i: int| 0 <= i < face.dim.len() ==> 0 <= (#[trigger] face.dim[i]).0,
        art is None ==> face.dim.len() == 0,
        art is Some ==> forall|row: int|
            covers(face.dim@, row) == covers(
                bands_of(face_lines(counts@, progress, art, around)),
                row,
            ),
{
    let (verdict, behind) = verdict_of(progress, art);
    let counters = counters_of(counts);
    let mut lines: Vec<FaceLine> = Vec::new();
    assert(face_views(lines@) =~= Seq::<FaceLineView>::empty());
    let mut numbers = String::new();
    match art {
        Some(art) => {
            numbers.append(verdict.as_str());
            numbers.append("  ");
            numbers.append(counters.as_str());
            numbers.append("  ");
            push_decimal(&mut numbers, art.millis);
            numbers.append(" ms");
        },
        None => {
            add_face_line(&mut lines, verdict, 56, true, Shade::Green);
            add_face_line(&mut lines, behind, 78, true, Shade::Green);
            add_face_line(&mut lines, counters, 116, true, Shade::Green);
        },
    }
    let head = if art.is_some() {
        Shade::Green
    } else {
        Shade::White
    };
    add_face_line(&mut lines, bytes_of(&around.head, art), 268, false, head);
    add_face_line(&mut lines, clip(around.title.as_str(), 28), 292, false, Shade::White);
    add_face_line(&mut lines, numbers, 306, false, Shade::Grey);
    add_face_line(
        &mut lines,
        status_of(around.status, around.errors, around.uptime),
        316,
        false,
        Shade::Grey,
    );
    add_face_line(&mut lines, clip(around.last_action.as_str(), 52), 326, false, Shade::Grey);
    if art.is_none() {
        return CoverFace { clear: true, dim: Vec::new(), lines };
    }
    let all = bands(&lines);
    let dim = merge_bands(&all);
    assert forall|i: int| 0 <= i < dim.len() implies 0 <= (#[trigger] dim[i]).0 by {
        let row = dim[i].0 as int;
        assert(in_band(dim[i], row));
        assert(covers(all@, row));
    }
    CoverFace { clear: false, dim, lines }
}

/// No row of the picture is dimmed twice.
pub proof fn dimmed_at_most_once(dim: Seq<(i32, i32)>, i: int, j: int, row: int)
    requires
        apart(dim),
        0 <= i < dim.len(),
        0 <= j < dim.len(),
        in_band(dim[i], row),
        in_band(dim[j], row),
    ensures
        i == j,
{
    if i < j {
        assert(dim[i].1 < dim[j].0);
    } else if j < i {
        assert(dim[j].1 < dim[i].0);
    }
}

/// A step is told in the numbers it came with: of an offer its id and its packets, of a packet which
/// one of how many, of a refusal its reason, and of the end or a silence the bytes so far.
pub proof fn a_step_is_told_in_its_numbers(a: u32, b: u32, reason: u8, bytes: usize)
    ensures
        described(Step::Offered { id: a, packets: b }) == "offered: id "@ + decimal(a as nat) + ", "@
            + decimal(b as nat) + " packets"@,
        described(Step::Packet { packet: a, of: b }) == "packet "@ + decimal(a as nat) + " of "@
            + decimal(b as nat),
        described(Step::Complete { bytes }) == "cover complete: "@ + decimal(bytes as nat)
            + " bytes"@,
        described(Step::Refused { reason }) == "refused, reason "@ + decimal(reason as nat),
        described(Step::Silent { bytes }) == "no answer to the request, at "@ + decimal(
            bytes as nat,
        ) + " bytes"@,
{
}

/// Frames are counted apart: each known command has a counter of its own, the three of a cover those
/// that the face shows as 01, 02 and 03, and all that is unknown shares the one that nothing else
/// has.
pub proof fn frames_are_counted_apart(a: Frame, b: Frame, cmd: u8)
    ensures
        0 <= counted_under(a) < 9,
        counted_under(a) == counted_under(b) ==> a == b || (a is Unknown && b is Unknown),
        counted_under(Frame::CoverBegin) == 0x01,
        counted_under(Frame::CoverPacket) == 0x02,
        counted_under(Frame::CoverAborted) == 0x03,
        counted_under(Frame::CoverPacketNeeded) == 0x04,
        counted_under(Frame::Status) == 0x05,
        counted_under(Frame::Metadata) == 0x06,
        counted_under(Frame::Encoder) == 0x07,
        counted_under(Frame::Unknown { cmd }) == 0,
{
}

/// Only a new track and an unknown frame leave a line by themselves, and the latter says which
/// command it was.
pub proof fn few_frames_leave_a_line(frame: Frame, cmd: u8)
    ensures
        noted(frame) is Some <==> frame is Metadata || frame is Unknown,
        noted(Frame::Metadata) == Some("new track"@),
        noted(Frame::Unknown { cmd }) == Some("unknown frame "@ + register(cmd)),
{
}

/// The verdict follows the transfer: nothing has come, so many packets of so many, an early end with
/// its reason, or the whole, with its packets or, once it is decoded, its size.
pub proof fn the_verdict_follows_the_transfer(state: Progress, art: &Art, reason: u8)
    ensures
        verdict(None, None) == ("no BD 01 yet"@, Seq::<char>::empty()),
        !state.done && state.aborted is None ==> verdict(Some(state), None) == (
            decimal(state.got as nat) + " of "@ + decimal(state.packets as nat),
            "packets"@,
        ),
        !state.done && state.aborted == Some(Aborted::NoAnswer) ==> verdict(Some(state), None) == (
            "no answer"@,
            "at "@ + decimal(state.bytes as nat),
        ),
        !state.done && state.aborted == Some(Aborted::Reason(reason)) ==> verdict(Some(state), None)
            == ("refused"@, "reason "@ + decimal(reason as nat)),
        state.done ==> verdict(Some(state), None) == (
            decimal(state.bytes as nat) + " bytes"@,
            decimal(state.packets as nat) + " packets"@,
        ),
        state.done ==> verdict(Some(state), Some(art)) == (
            decimal(state.bytes as nat) + " bytes"@,
            decimal(art.width as nat) + "x"@ + decimal(art.height as nat),
        ),
{
}

/// The counters that are shown are those of the frames a cover is made of, and count one more after
/// each.
pub proof fn the_counters_are_the_covers(counts: Seq<u32>)
    requires
        counts.len() == 9,
    ensures
        counters(counts) == "01:"@ + decimal(
            counts[counted_under(Frame::CoverBegin)] as nat,
        ) + " 02:"@ + decimal(counts[counted_under(Frame::CoverPacket)] as nat) + " 03:"@ + decimal(
            counts[counted_under(Frame::CoverAborted)] as nat,
        ),
{
}

/// A file is known by its first bytes: a JPEG by three, a PNG by two, and anything else is unknown;
/// they stand before it in the order they came, and only once there are three.
pub proof fn a_file_is_known_by_its_first_bytes(head: Seq<u8>)
    ensures
        head.len() < 3 ==> bytes_text(head, None) == Seq::<char>::empty(),
        head.len() >= 3 ==> bytes_text(head, None) == hex2(head[0] as int) + " "@ + hex2(
            head[1] as int,
        ) + " "@ + hex2(head[2] as int) + "  "@ + sniffed(head),
        head.len() >= 3 && head.take(3) == seq![0xFFu8, 0xD8, 0xFF] ==> sniffed(head) == "JPEG"@,
        head.len() >= 3 && head.take(2) == seq![0x89u8, 0x50] ==> sniffed(head) == "PNG"@,
        head.len() >= 3 && sniffed(head) == "JPEG"@ ==> head.take(3) == seq![0xFFu8, 0xD8, 0xFF],
        head.len() >= 3 && sniffed(head) == "PNG"@ ==> head.take(2) == seq![0x89u8, 0x50],
        sniffed(head) == "JPEG"@ || sniffed(head) == "PNG"@ || sniffed(head) == "unknown"@,
{
    reveal_strlit("JPEG");
    reveal_strlit("PNG");
    reveal_strlit("unknown");
    if head.len() >= 3 && head.take(3) == seq![0xFFu8, 0xD8, 0xFF] {
        assert(head.take(3)[0] == 0xFF && head.take(3)[1] == 0xD8 && head.take(3)[2] == 0xFF);
    }
    if head.len() >= 3 && head.take(2) == seq![0x89u8, 0x50] {
        assert(head.take(2)[0] == 0x89 && head.take(2)[1] == 0x50);
    }
    if head.len() >= 3 {
        if head[0] == 0xFF && head[1] == 0xD8 && head[2] == 0xFF {
            assert(head.take(3) =~= seq![0xFFu8, 0xD8, 0xFF]);
            assert("JPEG"@.len() != "PNG"@.len());
        } else if head[0] == 0x89 && head[1] == 0x50 {
            assert(head.take(2) =~= seq![0x89u8, 0x50]);
            assert("JPEG"@.len() != "PNG"@.len());
        } else {
            assert("unknown"@.len() != "PNG"@.len());
            assert("unknown"@.len() != "JPEG"@.len());
        }
    }
}

/// Once the cover is decoded, its filter stands in place of the bytes, marked where it was forced,
/// with the size of the picture.
pub proof fn a_forced_filter_is_marked(head: Seq<u8>, art: &Art)
    ensures
        art.forced ==> bytes_text(head, Some(art)) == art.scaler@ + "*"@ + "  "@ + decimal(
            art.width as nat,
        ) + "x"@ + decimal(art.height as nat),
        !art.forced ==> bytes_text(head, Some(art)) == art.scaler@ + "  "@ + decimal(
            art.width as nat,
        ) + "x"@ + decimal(art.height as nat),
{
    reveal_strlit("");
    assert(art.scaler@ + ""@ =~= art.scaler@);
}

/// The link's line tells the other chip's state and volume, framing errors before overruns, and how
/// long the run has lasted; or that the chip has not answered.
pub proof fn the_links_line_tells_how_it_stands(status: Status, errors: (u32, u32), uptime: u64)
    ensures
        status_text(Some(status), errors, uptime) == "state "@ + register(status.state)
            + "  volume "@ + decimal(status.volume as nat) + "  rx "@ + decimal(errors.0 as nat)
            + "/"@ + decimal(errors.1 as nat) + "  up "@ + decimal(uptime as nat) + " s"@,
        status_text(None, errors, uptime) == "the other chip has not answered"@,
{
}

/// The face gives its middle to the picture: with one, none of its lines is doubled, and all stand
/// below the middle; without one the verdict and the counters stand there, doubled and green.
#[verifier::spinoff_prover]
pub proof fn the_picture_takes_the_middle(
    counts: Seq<u32>,
    progress: Option<Progress>,
    art: &Art,
    around: &Around,
    i: int,
)
    ensures
        ({
            let lines = face_lines(counts, progress, Some(art), around);
            0 <= i < lines.len() ==> !lines[i].doubled && lines[i].y >= 268
        }),
        ({
            let lines = middle_lines(counts, progress, None);
            &&& 0 <= i < lines.len() ==> lines[i].doubled && lines[i].shade == Shade::Green
                && 2 * lines[i].y <= 232
            &&& middle_lines(counts, progress, Some(art)).len() == 0
            &&& lines.len() > 0 && lines.last().text == counters(counts)
        }),
{
    reveal_strlit("01:");
}

/// No two lines of the face stand in the same row: each stands below the one before it, by more than
/// their bands reach.
#[verifier::spinoff_prover]
pub proof fn lines_of_the_face_stand_apart(
    counts: Seq<u32>,
    progress: Option<Progress>,
    art: &Art,
    around: &Around,
    i: int,
    j: int,
)
    ensures
        ({
            let lines = face_lines(counts, progress, Some(art), around);
            0 <= i < j < lines.len() ==> lines[i].y + 10 <= lines[j].y
        }),
        ({
            let lines = face_lines(counts, progress, None, around);
            0 <= i < lines.len() ==> lines[i].text.len() > 0
        }),
{
}

/// What stands on the face beside the middle, each in its place: the bytes, the title cut to what
/// fits, the numbers once the picture took their place, how the link stands, and what was done last.
#[verifier::spinoff_prover]
pub proof fn the_face_tells_the_rest(
    counts: Seq<u32>,
    progress: Option<Progress>,
    art: Option<&Art>,
    around: &Around,
    line: FaceLineView,
)
    requires
        !line.doubled,
        line.text.len() > 0,
    ensures
        face_lines(counts, progress, art, around).contains(line) <==> {
            ||| line.y == 268 && line.text == bytes_text(around.head@, art) && line.shade == (
            if art is Some {
                Shade::Green
            } else {
                Shade::White
            })
            ||| line.y == 292 && line.text == clipped(around.title@, 28) && line.shade
                == Shade::White
            ||| line.y == 306 && line.text == numbers_text(counts, progress, art) && line.shade
                == Shade::Grey
            ||| line.y == 316 && line.text == status_text(
                around.status,
                around.errors,
                around.uptime,
            ) && line.shade == Shade::Grey
            ||| line.y == 326 && line.text == clipped(around.last_action@, 52) && line.shade
                == Shade::Grey
        },
{
    let small = |text: Seq<char>, y: int, shade: Shade|
        FaceLineView { text, y, doubled: false, shade };
    let head = if art is Some {
        Shade::Green
    } else {
        Shade::White
    };
    let l0 = middle_lines(counts, progress, art);
    let a1 = small(bytes_text(around.head@, art), 268, head);
    let a2 = small(clipped(around.title@, 28), 292, Shade::White);
    let a3 = small(numbers_text(counts, progress, art), 306, Shade::Grey);
    let a4 = small(status_text(around.status, around.errors, around.uptime), 316, Shade::Grey);
    let a5 = small(clipped(around.last_action@, 52), 326, Shade::Grey);
    let l1 = with_line(l0, a1);
    let l2 = with_line(l1, a2);
    let l3 = with_line(l2, a3);
    let l4 = with_line(l3, a4);
    let l5 = with_line(l4, a5);
    assert(face_lines(counts, progress, art, around) == l5);
    a_line_is_added(l0, a1, line);
    a_line_is_added(l1, a2, line);
    a_line_is_added(l2, a3, line);
    a_line_is_added(l3, a4, line);
    a_line_is_added(l4, a5, line);
    assert(!l0.contains(line));
}

proof fn a_line_is_added(lines: Seq<FaceLineView>, added: FaceLineView, line: FaceLineView)
    ensures
        line.text.len() > 0 ==> (with_line(lines, added).contains(line) <==> lines.contains(line)
            || line == added),
{
    if added.text.len() > 0 {
        let more = lines.push(added);
        assert(more.last() == added);
        if lines.contains(line) {
            let i = choose|i: int| 0 <= i < lines.len() && lines[i] == line;
            assert(more[i] == line);
        }
        if more.contains(line) {
            let i = choose|i: int| 0 <= i < more.len() && more[i] == line;
            if i < lines.len() {
                assert(lines[i] == line);
            }
        }
    }
}

/// Behind the picture's own line the verdict, the counters and the time it took to decode are told
/// again, and only there.
pub proof fn the_numbers_are_told_again(counts: Seq<u32>, progress: Option<Progress>, art: &Art)
    ensures
        numbers_text(counts, progress, None) == Seq::<char>::empty(),
        numbers_text(counts, progress, Some(art)) == verdict(progress, Some(art)).0 + "  "@
            + counters(counts) + "  "@ + decimal(art.millis as nat) + " ms"@,
{
}

/// A line's band lies round its baseline, further above it than below; a doubled line reaches twice
/// as far as a plain one, and a small grey one less than either.
pub proof fn a_band_lies_round_its_line(line: FaceLineView)
    requires
        15 <= line.y <= 330,
    ensures
        line.doubled ==> band_of(line).0 == 2 * (line.y - 15) && band_of(line).1 == 2 * (line.y + 5),
        !line.doubled && line.shade != Shade::Grey ==> band_of(line).0 == line.y - 15
            && band_of(line).1 == line.y + 5,
        !line.doubled && line.shade == Shade::Grey ==> band_of(line).0 == line.y - 8 && band_of(
            line,
        ).1 == line.y + 3,
{
}

} // verus!
