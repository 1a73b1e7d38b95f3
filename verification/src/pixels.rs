//! Pixels as they go over the wire: two bytes each, the high byte first.

use vstd::prelude::*;

verus! {

/// Pixels across and down the screen.
pub const SIDE: usize = 360;

/// Bytes of a screen.
pub const SCREEN_BYTES: usize = 259_200;

/// A byte of a buffer of one colour.
pub open spec fn painted(colour: u16, i: int) -> u8 {
    if i % 2 == 0 {
        (colour / 256) as u8
    } else {
        (colour % 256) as u8
    }
}

/// Fills a buffer with one colour. A last byte without a partner is left alone.
pub fn paint(buffer: &mut [u8], colour: u16)
    ensures
        final(buffer)@.len() == old(buffer)@.len(),
        forall|i: int|
            0 <= i < old(buffer)@.len() / 2 * 2 ==> final(buffer)@[i] == painted(colour, i),
        old(buffer)@.len() % 2 == 1 ==> final(buffer)@.last() == old(buffer)@.last(),
{
    let ghost before = buffer@;
    let high: u8 = (colour / 256) as u8;
    let low: u8 = (colour % 256) as u8;
    let len: usize = buffer.len();
    let pixels: usize = len / 2;
    let mut n: usize = 0;
    while n < pixels
        invariant
            n <= pixels,
            pixels == len / 2,
            len == before.len(),
            buffer@.len() == before.len(),
            high == (colour / 256) as u8,
            low == (colour % 256) as u8,
            forall|i: int| 0 <= i < n * 2 ==> buffer@[i] == painted(colour, i),
            forall|i: int| n * 2 <= i < before.len() ==> buffer@[i] == before[i],
        decreases pixels - n,
    {
        buffer[n * 2] = high;
        buffer[n * 2 + 1] = low;
        n = n + 1;
    }
}

/// What a rectangle takes: how many bytes of the buffer are staged, how many go out in all, and
/// the window on the panel, both corners in it.
#[derive(Clone, Copy, Debug, PartialEq, Eq, Structural)]
pub struct Fill {
    pub staged: usize,
    pub total: usize,
    pub x: u16,
    pub y: u16,
    pub x_end: u16,
    pub y_end: u16,
}

/// What filling a rectangle takes. The buffer is repeated as often as the rectangle needs and cut
/// short at the end, in one write.
pub fn fill_rect(len: usize, x: u16, y: u16, width: u16, height: u16) -> (r: Fill)
    requires
        width > 0,
        height > 0,
        x + width <= 65536,
        y + height <= 65536,
        width * height * 2 <= usize::MAX,
    ensures
        r.staged <= len,
        r.staged <= r.total,
        (r.x_end - r.x + 1) * (r.y_end - r.y + 1) * 2 == r.total,
        r.total == width * height * 2,
        r.staged == (if len < r.total {
            len
        } else {
            r.total
        }),
        r.x == x,
        r.y == y,
        r.x_end == x + width - 1,
        r.y_end == y + height - 1,
{
    assert(width as int * height as int <= 65535 * 65535) by (nonlinear_arith)
        requires
            0 <= width <= 65535,
            0 <= height <= 65535,
    ;
    let total: usize = width as usize * height as usize * 2;
    let staged: usize = if len < total {
        len
    } else {
        total
    };
    Fill {
        staged,
        total,
        x,
        y,
        x_end: (x as u32 + width as u32 - 1) as u16,
        y_end: (y as u32 + height as u32 - 1) as u16,
    }
}

/// The bytes with those of every pixel changed over.
pub open spec fn swapped(bytes: Seq<u8>) -> Seq<u8> {
    Seq::new(
        bytes.len(),
        |i: int|
            if i % 2 == 0 && i + 1 < bytes.len() {
                bytes[i + 1]
            } else if i % 2 == 1 {
                bytes[i - 1]
            } else {
                bytes[i]
            },
    )
}

/// Changes the two bytes of every pixel over.
pub fn swap_pairs(bytes: &mut [u8])
    ensures
        final(bytes)@ == swapped(old(bytes)@),
{
    let ghost before = bytes@;
    let len: usize = bytes.len();
    let pairs: usize = len / 2;
    let mut n: usize = 0;
    while n < pairs
        invariant
            n <= pairs,
            pairs == len / 2,
            len == before.len(),
            bytes@.len() == before.len(),
            forall|i: int| 0 <= i < n * 2 ==> bytes@[i] == swapped(before)[i],
            forall|i: int| n * 2 <= i < before.len() ==> bytes@[i] == before[i],
        decreases pairs - n,
    {
        let first: u8 = bytes[n * 2];
        let second: u8 = bytes[n * 2 + 1];
        bytes[n * 2] = second;
        bytes[n * 2 + 1] = first;
        n = n + 1;
    }
    assert(bytes@ =~= swapped(before));
}

/// Changing the bytes over twice leaves them as they were.
pub proof fn swapping_twice_restores(bytes: Seq<u8>)
    ensures
        swapped(swapped(bytes)) == bytes,
{
    assert(swapped(swapped(bytes)) =~= bytes);
}

/// The band a pixel lies in: diagonal stripes twelve pixels wide, which move three pixels a
/// frame.
pub open spec fn band_spec(x: int, y: int, n: int) -> int {
    (x + y + step_of(n)) / 12 % 4
}

/// How far the stripes have walked by a frame. The count wraps round with the frames.
pub open spec fn step_of(n: int) -> int {
    3 * n % 0x1_0000_0000
}

/// A band's colour: red, green, blue or black.
pub open spec fn band_colour(band: int) -> (u8, u8) {
    if band == 0 {
        (0xF8, 0x00)
    } else if band == 1 {
        (0x07, 0xE0)
    } else if band == 2 {
        (0x00, 0x1F)
    } else {
        (0x00, 0x00)
    }
}

fn colour_of(band: usize) -> (r: (u8, u8))
    ensures
        r == band_colour(band as int),
{
    match band {
        0 => (0xF8, 0x00),
        1 => (0x07, 0xE0),
        2 => (0x00, 0x1F),
        _ => (0x00, 0x00),
    }
}

/// Draws the stripes of frame `n` over a whole screen. A band left over from an earlier frame is
/// out of step both ways at once.
pub fn draw_ground(bytes: &mut [u8], n: u32)
    requires
        old(bytes)@.len() == SCREEN_BYTES,
        step_of(n as int) + 718 <= u32::MAX,
    ensures
        final(bytes)@.len() == SCREEN_BYTES,
        forall|x: int, y: int|
            0 <= x < 360 && 0 <= y < 360 ==> (
                #[trigger] final(bytes)@[pixel_at(x, y)],
                final(bytes)@[pixel_at(x, y) + 1],
            ) == band_colour(band_spec(x, y, n as int)),
{
    let step: u32 = (n as u64 * 3 % 0x1_0000_0000) as u32;
    let mut y: usize = 0;
    while y < SIDE
        invariant
            y <= SIDE,
            bytes@.len() == SCREEN_BYTES,
            step == step_of(n as int),
            step + 718 <= u32::MAX,
            forall|cx: int, cy: int|
                0 <= cx < 360 && 0 <= cy < y ==> (
                    #[trigger] bytes@[pixel_at(cx, cy)],
                    bytes@[pixel_at(cx, cy) + 1],
                ) == band_colour(band_spec(cx, cy, n as int)),
        decreases SIDE - y,
    {
        let row: usize = y * SIDE * 2;
        let mut x: usize = 0;
        while x < SIDE
            invariant
                x <= SIDE,
                y < SIDE,
                row == y * 720,
                bytes@.len() == SCREEN_BYTES,
                step == step_of(n as int),
                step + 718 <= u32::MAX,
                forall|cx: int, cy: int|
                    0 <= cx < 360 && 0 <= cy < y ==> (
                        #[trigger] bytes@[pixel_at(cx, cy)],
                        bytes@[pixel_at(cx, cy) + 1],
                    ) == band_colour(band_spec(cx, cy, n as int)),
                forall|cx: int|
                    0 <= cx < x ==> (
                        #[trigger] bytes@[pixel_at(cx, y as int)],
                        bytes@[pixel_at(cx, y as int) + 1],
                    ) == band_colour(band_spec(cx, y as int, n as int)),
            decreases SIDE - x,
        {
            let band: usize = ((x as u32 + y as u32 + step) / 12 % 4) as usize;
            let (high, low) = colour_of(band);
            bytes[row + x * 2] = high;
            bytes[row + x * 2 + 1] = low;
            x = x + 1;
        }
        y = y + 1;
    }
}

/// Where a pixel's bytes start.
pub open spec fn pixel_at(x: int, y: int) -> int {
    y * 720 + x * 2
}

/// Whether a point lies on the picture.
pub fn ink(x: i32, y: i32) -> (r: bool)
    ensures
        r == (0 <= x < 360 && 0 <= y < 360),
{
    !(x < 0 || y < 0 || x >= 360 || y >= 360)
}

/// What a key in the monitor does to the drawing.
#[derive(Clone, Copy, Debug, PartialEq, Eq, Structural)]
pub enum Key {
    Clear,
    /// Stand the picture upright.
    Upright,
    Nothing,
}

/// What a key does: `c` or a new line clears, `0` stands the picture upright.
pub fn key(byte: u8) -> (r: Key)
    ensures
        r == Key::Upright <==> byte == 0x30,
        byte == 0x63 || byte == 0x43 ==> r == Key::Clear,
        r == Key::Clear ==> byte == 0x63 || byte == 0x43 || byte == 0x0D || byte == 0x0A,
        r == (match byte {
            0x63 | 0x43 | 0x0D | 0x0A => Key::Clear,
            0x30 => Key::Upright,
            _ => Key::Nothing,
        }),
{
    match byte {
        0x63 | 0x43 | 0x0D | 0x0A => Key::Clear,
        0x30 => Key::Upright,
        _ => Key::Nothing,
    }
}

/// Whether a reading of the screen tells a new contact, and whether a finger is down now. A
/// contact that just came down is always told, and one is told where none was known.
pub fn contact(down: bool, seen: Option<bool>) -> (r: (bool, bool))
    ensures
        r.1 <==> seen is Some,
        r.0 ==> r.1,
        seen == Some(true) ==> r.0,
        seen == Some(false) ==> (r.0 <==> !down),
        r == (match seen {
            Some(came_down) => (came_down || !down, true),
            None => (false, false),
        }),
{
    match seen {
        Some(came_down) => (came_down || !down, true),
        None => (false, false),
    }
}

/// A colour's high byte goes first.
#[verifier::spinoff_prover]
pub proof fn a_colour_goes_high_byte_first(colour: u16, i: int)
    requires
        0 <= i,
    ensures
        256 * painted(colour, 2 * i) + painted(colour, 2 * i + 1) == colour,
{
}

/// The two bytes of a pixel change places, those of no other do, and a last byte without a partner
/// stays.
#[verifier::spinoff_prover]
pub proof fn each_pixel_is_swapped(bytes: Seq<u8>, i: int)
    requires
        0 <= i,
    ensures
        swapped(bytes).len() == bytes.len(),
        2 * i + 1 < bytes.len() ==> swapped(bytes)[2 * i] == bytes[2 * i + 1] && swapped(
            bytes,
        )[2 * i + 1] == bytes[2 * i],
        2 * i + 1 == bytes.len() ==> swapped(bytes)[2 * i] == bytes[2 * i],
{
}

/// The stripes run down to the left and are twelve pixels wide: along a stripe nothing changes,
/// twelve pixels on is the next band, and the first frame begins with the first. Each frame stands
/// three pixels on from the one before.
#[verifier::spinoff_prover]
pub proof fn stripes_walk_three_pixels_a_frame(x: int, y: int, n: int)
    requires
        0 <= x,
        0 <= y,
        0 <= n < 0x5555_5555,
    ensures
        band_spec(x + 1, y, n) == band_spec(x, y + 1, n),
        band_spec(x + 12, y, n) == (band_spec(x, y, n) + 1) % 4,
        band_spec(x + 3, y, n) == band_spec(x, y, n + 1),
        x + y < 12 ==> band_spec(x, y, 0) == 0,
{
    assert(step_of(n) == 3 * n);
    assert(step_of(n + 1) == 3 * n + 3);
    assert(step_of(0) == 0);
    let along = x + y + 3 * n;
    assert((along + 12) / 12 == along / 12 + 1);
    let stripe = along / 12;
    assert((stripe + 1) % 4 == (stripe % 4 + 1) % 4);
}

/// The bands are red, green, blue and black, each of the three at its full strength and nothing else.
pub proof fn bands_are_red_green_blue_and_black(band: int)
    requires
        0 <= band < 4,
    ensures
        256 * band_colour(band).0 + band_colour(band).1 == seq![
            0b11111_000000_00000u16,
            0b00000_111111_00000,
            0b00000_000000_11111,
            0,
        ][band],
{
}

/// Pixels lie one behind another, row by row, two bytes each.
pub proof fn pixels_lie_row_by_row(x: int, y: int)
    ensures
        pixel_at(0, 0) == 0,
        pixel_at(x + 1, y) == pixel_at(x, y) + 2,
        pixel_at(0, y + 1) == pixel_at(359, y) + 2,
        pixel_at(359, 359) + 2 == SCREEN_BYTES,
{
}

/// The stripes walk three pixels a frame, round from the last number of 32 bits to the first.
pub proof fn the_walk_wraps_at_32_bits(n: int)
    requires
        0 <= n,
    ensures
        0 <= step_of(n) < 0x1_0000_0000,
        3 * n < 0x1_0000_0000 ==> step_of(n) == 3 * n,
        step_of(n + 0x1_0000_0000) == step_of(n),
{
    assert(3 * (n + 0x1_0000_0000) == 3 * n + 3 * 0x1_0000_0000);
}

} // verus!
