//! The picture in bands, and the letter that tells which way up it stands.

use vstd::prelude::*;

verus! {

/// Pixels of the panel either way.
pub const SIDE: usize = 360;

/// Rows of a band of the transfer test; six cover the panel.
pub const BAND_HEIGHT: usize = 60;

/// Bytes of such a band.
pub const BAND_BYTES: usize = 43200;

/// Rows turned at a time before they are sent.
pub const ROWS_PER_BAND: usize = 30;

/// The size of one transfer of each band, in bytes.
pub const CHUNKS: [usize; 6] = [720, 7200, 8640, 10800, 14400, 21600];

/// The colour of each band.
pub const COLOURS: [u16; 6] = [0xF800, 0xFFE0, 0x07E0, 0x07FF, 0x001F, 0xF81F];

/// A band of the transfer test.
#[derive(Clone, Copy, Debug, PartialEq, Eq, Structural)]
pub struct Band {
    pub top: u16,
    pub bottom: u16,
    pub colour: u16,
    /// Bytes of one transfer, and how many make up the band.
    pub chunk: usize,
    pub repeats: usize,
}

pub open spec fn band_spec(index: int) -> Band {
    Band {
        top: (index * 60) as u16,
        bottom: (index * 60 + 59) as u16,
        colour: COLOURS@[index],
        chunk: CHUNKS@[index],
        repeats: (43200int / CHUNKS@[index] as int) as usize,
    }
}

/// A band of the transfer test; `None` once there is none left.
pub fn band(index: usize) -> (r: Option<Band>)
    ensures
        r == (if index < 6 {
            Some(band_spec(index as int))
        } else {
            None
        }),
{
    if index >= 6 {
        return None;
    }
    proof {
        chunks_are_even(index as int);
    }
    let top: u16 = (index * BAND_HEIGHT) as u16;
    Some(
        Band {
            top,
            bottom: top + 59,
            colour: COLOURS[index],
            chunk: CHUNKS[index],
            repeats: BAND_BYTES / CHUNKS[index],
        },
    )
}

proof fn chunks_are_even(index: int)
    requires
        0 <= index < 6,
    ensures
        CHUNKS@[index] > 0,
        43200int % CHUNKS@[index] as int == 0,
{
    if index == 0 {
        assert(CHUNKS@[0] == 720 && 43200int % 720 == 0);
    } else if index == 1 {
        assert(CHUNKS@[1] == 7200 && 43200int % 7200 == 0);
    } else if index == 2 {
        assert(CHUNKS@[2] == 8640 && 43200int % 8640 == 0);
    } else if index == 3 {
        assert(CHUNKS@[3] == 10800 && 43200int % 10800 == 0);
    } else if index == 4 {
        assert(CHUNKS@[4] == 14400 && 43200int % 14400 == 0);
    } else {
        assert(CHUNKS@[5] == 21600 && 43200int % 21600 == 0);
    }
}

/// Every transfer size divides its band: nothing of the band is left over.
pub proof fn transfers_fill_their_band(index: int)
    requires
        0 <= index < 6,
    ensures
        band_spec(index).chunk * band_spec(index).repeats == (band_spec(index).bottom - band_spec(
            index,
        ).top + 1) * 720,
{
    chunks_are_even(index);
    let chunk = CHUNKS@[index] as int;
    vstd::arithmetic::div_mod::lemma_fundamental_div_mod(43200, chunk);
    assert(0 <= 43200int / chunk <= 43200) by (nonlinear_arith)
        requires
            chunk > 0,
    ;
}

/// The bands cover every row of the panel, each once.
pub proof fn every_row_has_its_band(row: int, index: int)
    requires
        0 <= row < 360,
        0 <= index < 6,
    ensures
        band_spec(index).top <= row <= band_spec(index).bottom <==> index == row / 60,
{
}

/// The first row and the number of rows of a band that is turned and sent.
pub fn turned_rows(band: usize) -> (r: Option<(usize, usize)>)
    ensures
        r == (if band < 12 {
            Some(((band * 30) as usize, 30usize))
        } else {
            None
        }),
{
    if band < SIDE / ROWS_PER_BAND {
        Some((band * ROWS_PER_BAND, ROWS_PER_BAND))
    } else {
        None
    }
}

/// A stroke of the letter, in the panel's own coordinates.
#[derive(Clone, Copy, Debug, PartialEq, Eq, Structural)]
pub struct Stroke {
    pub x: u16,
    pub y: u16,
    pub width: u16,
    pub height: u16,
    pub colour: u16,
}

pub const GROUND: u16 = 0x0009;

pub const LETTER: u16 = 0xFFFF;

pub const ORIGIN: u16 = 0xF800;

/// The ground, the stem and the two arms of an F, and a mark towards the corner where the panel
/// counts from.
pub open spec fn stroke_spec(n: int) -> Stroke {
    if n == 0 {
        Stroke { x: 0, y: 0, width: 360, height: 360, colour: 0x0009 }
    } else if n == 1 {
        Stroke { x: 130, y: 90, width: 40, height: 180, colour: 0xFFFF }
    } else if n == 2 {
        Stroke { x: 170, y: 90, width: 90, height: 40, colour: 0xFFFF }
    } else if n == 3 {
        Stroke { x: 170, y: 165, width: 60, height: 40, colour: 0xFFFF }
    } else {
        Stroke { x: 90, y: 40, width: 40, height: 40, colour: 0xF800 }
    }
}

/// The `n`th stroke drawn; `None` once all were.
pub fn stroke(n: usize) -> (r: Option<Stroke>)
    ensures
        r == (if n < 5 {
            Some(stroke_spec(n as int))
        } else {
            None
        }),
{
    match n {
        0 => Some(Stroke { x: 0, y: 0, width: 360, height: 360, colour: GROUND }),
        1 => Some(Stroke { x: 130, y: 90, width: 40, height: 180, colour: LETTER }),
        2 => Some(Stroke { x: 170, y: 90, width: 90, height: 40, colour: LETTER }),
        3 => Some(Stroke { x: 170, y: 165, width: 60, height: 40, colour: LETTER }),
        4 => Some(Stroke { x: 90, y: 40, width: 40, height: 40, colour: ORIGIN }),
        _ => None,
    }
}

/// How far a place lies from the middle of the panel, squared.
pub open spec fn off_centre(x: int, y: int) -> int {
    (x - 180) * (x - 180) + (y - 180) * (y - 180)
}

/// Every corner of every stroke of the letter lies inside the round screen.
pub proof fn the_letter_lies_on_the_round_screen(n: int, right: bool, below: bool)
    requires
        1 <= n < 5,
    ensures
        ({
            let s = stroke_spec(n);
            let x = s.x + (if right {
                s.width as int
            } else {
                0
            });
            let y = s.y + (if below {
                s.height as int
            } else {
                0
            });
            off_centre(x, y) < 180 * 180
        }),
{
    let s = stroke_spec(n);
    let dx = s.x + (if right {
        s.width as int
    } else {
        0
    }) - 180;
    let dy = s.y + (if below {
        s.height as int
    } else {
        0
    }) - 180;
    assert(dx * dx <= 90 * 90) by (nonlinear_arith)
        requires
            -90 <= dx <= 90,
    ;
    assert(dy * dy <= 140 * 140) by (nonlinear_arith)
        requires
            -140 <= dy <= 140,
    ;
}

/// No two bands have a colour or a size of transfer in common, and the transfers grow from one row of
/// pixels down the panel.
pub proof fn bands_differ(a: int, b: int)
    requires
        0 <= a < b < 6,
    ensures
        band_spec(a).colour != band_spec(b).colour,
        band_spec(a).chunk < band_spec(b).chunk,
        band_spec(a).bottom < band_spec(b).top,
        band_spec(0).chunk == 720,
        band_spec(0).top == 0,
        band_spec(5).bottom == 359,
{
}

/// The strokes make an F that reads only one way: a stem with an arm at its top and a shorter one
/// between that and its foot, both on its right, on a ground that is the whole panel; the mark stands
/// above and to the left of it.
pub proof fn the_strokes_make_an_f()
    ensures
        ({
            let ground = stroke_spec(0);
            let stem = stroke_spec(1);
            let top = stroke_spec(2);
            let arm = stroke_spec(3);
            let mark = stroke_spec(4);
            &&& ground.x == 0 && ground.y == 0 && ground.width == 360 && ground.height == 360
            &&& stem.height > 4 * stem.width
            &&& top.x == stem.x + stem.width && arm.x == stem.x + stem.width
            &&& top.y == stem.y && top.y + top.height < arm.y
            &&& arm.y + arm.height < stem.y + stem.height
            &&& arm.width < top.width && arm.height == top.height == stem.width
            &&& mark.x + mark.width <= stem.x && mark.y + mark.height <= stem.y
            &&& mark.width == mark.height
            &&& ground.colour == 0x0009 && mark.colour == 0xF800
            &&& stem.colour == 0xFFFF && top.colour == 0xFFFF && arm.colour == 0xFFFF
        }),
{
}

/// The strokes of the letter and the mark stand where they are looked for.
pub proof fn each_stroke_has_its_place(n: int)
    requires
        0 <= n < 5,
    ensures
        (stroke_spec(n).x, stroke_spec(n).y, stroke_spec(n).width, stroke_spec(n).height) == seq![
            (0u16, 0u16, 360u16, 360u16),
            (130, 90, 40, 180),
            (170, 90, 90, 40),
            (170, 165, 60, 40),
            (90, 40, 40, 40),
        ][n],
{
}

} // verus!
