//! A number in seven segments, as large as three digits fit the screen, with a bar under it.

use vstd::prelude::*;

verus! {

/// How many effects there are to step through.
pub const EFFECT_COUNT: u8 = 123;

pub const DIGIT_WIDTH: u16 = 62;

pub const DIGIT_HEIGHT: u16 = 120;

pub const STROKE: u16 = 14;

/// Between the left edges of two digits.
pub const DIGIT_PITCH: u16 = 80;

pub const DIGITS_LEFT: u16 = 69;

pub const DIGITS_TOP: u16 = 120;

/// Which segments of a digit are lit: top, upper right, lower right, bottom, lower left, upper
/// left, middle.
pub const SEGMENTS: [[bool; 7]; 10] = [
    [true, true, true, true, true, true, false],
    [false, true, true, false, false, false, false],
    [true, true, false, true, true, false, true],
    [true, true, true, true, false, false, true],
    [false, true, true, false, false, true, true],
    [true, false, true, true, false, true, true],
    [true, false, true, true, true, true, true],
    [true, true, true, false, false, false, false],
    [true, true, true, true, true, true, true],
    [true, true, true, true, false, true, true],
];

/// What a rectangle is filled with.
#[derive(Clone, Copy, Debug, PartialEq, Eq, Structural)]
pub enum Paint {
    Background,
    Digit,
    Bar,
}

/// A filled rectangle.
#[derive(Clone, Copy, Debug, PartialEq, Eq, Structural)]
pub struct Patch {
    pub x: u16,
    pub y: u16,
    pub width: u16,
    pub height: u16,
    pub paint: Paint,
}

/// The effect after so many detents, between the first and the last.
pub fn stepped(effect: u8, detents: i32) -> (r: u8)
    requires
        1 <= effect <= EFFECT_COUNT,
        effect + detents <= i32::MAX,
    ensures
        1 <= r <= EFFECT_COUNT,
        1 <= effect + detents <= EFFECT_COUNT ==> r == effect + detents,
        detents >= 0 ==> r >= effect,
        detents <= 0 ==> r <= effect,
        r == (if effect + detents < 1 {
            1
        } else if effect + detents > 123 {
            123
        } else {
            effect + detents
        }),
{
    let moved: i32 = effect as i32 + detents;
    if moved < 1 {
        1
    } else if moved > EFFECT_COUNT as i32 {
        EFFECT_COUNT
    } else {
        moved as u8
    }
}

/// Whether a segment of a digit is lit.
pub open spec fn lit(digit: int, segment: int) -> bool {
    SEGMENTS@[digit]@[segment]
}

/// Where a segment lies in a digit whose upper left corner is at `left` and `top`.
pub open spec fn segment_spec(left: int, top: int, segment: int) -> (int, int, int, int) {
    if segment == 0 {
        (left, top, 62, 14)
    } else if segment == 1 {
        (left + 48, top, 14, 60)
    } else if segment == 2 {
        (left + 48, top + 60, 14, 60)
    } else if segment == 3 {
        (left, top + 106, 62, 14)
    } else if segment == 4 {
        (left, top + 60, 14, 60)
    } else if segment == 5 {
        (left, top, 14, 60)
    } else {
        (left, top + 53, 62, 14)
    }
}

/// A segment as it is painted.
pub open spec fn patch_spec(left: int, top: int, segment: int, on: bool) -> Patch {
    let (x, y, width, height) = segment_spec(left, top, segment);
    Patch {
        x: x as u16,
        y: y as u16,
        width: width as u16,
        height: height as u16,
        paint: if on {
            Paint::Digit
        } else {
            Paint::Background
        },
    }
}

/// The decimal digit of a value at a place, the hundreds first.
pub open spec fn digit_at(value: int, index: int) -> int {
    if index == 0 {
        value / 100
    } else if index == 1 {
        value / 10 % 10
    } else {
        value % 10
    }
}

/// The first place that is drawn: a leading zero is drawn as nothing at all.
pub open spec fn first_place(value: int) -> int {
    if value >= 100 {
        0
    } else if value >= 10 {
        1
    } else {
        2
    }
}

/// The segments of a place: those of its digit, and none before the first.
pub open spec fn place_patches(value: int, index: int) -> Seq<Patch> {
    Seq::new(
        7,
        |segment: int|
            patch_spec(
                69 + index * 80,
                120,
                segment,
                index >= first_place(value) && lit(digit_at(value, index), segment),
            ),
    )
}

/// The segments of the first so many places.
spec fn places_before(value: int, index: int) -> Seq<Patch>
    decreases index,
{
    if index <= 0 {
        Seq::empty()
    } else {
        places_before(value, index - 1) + place_patches(value, index - 1)
    }
}

/// The bar: as wide a share of its track as the value is of the library.
pub open spec fn bar_patches(value: int) -> Seq<Patch> {
    let track = seq![Patch { x: 60, y: 300, width: 240, height: 10, paint: Paint::Background }];
    if value * 240 / 123 > 0 {
        track.push(
            Patch { x: 60, y: 300, width: (value * 240 / 123) as u16, height: 10, paint: Paint::Bar },
        )
    } else {
        track
    }
}

/// Everything that shows a value.
pub open spec fn number_patches(value: int) -> Seq<Patch> {
    place_patches(value, 0) + place_patches(value, 1) + place_patches(value, 2) + bar_patches(value)
}

fn segment_at(left: u16, top: u16, segment: usize, on: bool) -> (r: Patch)
    requires
        left + DIGIT_WIDTH <= u16::MAX,
        top + DIGIT_HEIGHT <= u16::MAX,
        segment < 7,
    ensures
        r == patch_spec(left as int, top as int, segment as int, on),
{
    let paint = if on {
        Paint::Digit
    } else {
        Paint::Background
    };
    let half: u16 = DIGIT_HEIGHT / 2;
    let (x, y, width, height): (u16, u16, u16, u16) = match segment {
        0 => (left, top, DIGIT_WIDTH, STROKE),
        1 => (left + DIGIT_WIDTH - STROKE, top, STROKE, half),
        2 => (left + DIGIT_WIDTH - STROKE, top + half, STROKE, half),
        3 => (left, top + DIGIT_HEIGHT - STROKE, DIGIT_WIDTH, STROKE),
        4 => (left, top + half, STROKE, half),
        5 => (left, top, STROKE, half),
        _ => (left, top + half - STROKE / 2, DIGIT_WIDTH, STROKE),
    };
    Patch { x, y, width, height, paint }
}

/// Appends the seven segments of one digit, lit ones and dark ones.
pub fn draw_digit(patches: &mut Vec<Patch>, left: u16, top: u16, lit: [bool; 7])
    requires
        left + DIGIT_WIDTH <= u16::MAX,
        top + DIGIT_HEIGHT <= u16::MAX,
    ensures
        final(patches)@ == old(patches)@ + Seq::new(
            7,
            |segment: int| patch_spec(left as int, top as int, segment, lit@[segment]),
        ),
{
    let ghost before = patches@;
    let mut segment: usize = 0;
    while segment < 7
        invariant
            segment <= 7,
            left + DIGIT_WIDTH <= u16::MAX,
            top + DIGIT_HEIGHT <= u16::MAX,
            patches@ == before + Seq::new(
                segment as nat,
                |s: int| patch_spec(left as int, top as int, s, lit@[s]),
            ),
        decreases 7 - segment,
    {
        patches.push(segment_at(left, top, segment, lit[segment]));
        segment = segment + 1;
        assert(patches@ =~= before + Seq::new(
            segment as nat,
            |s: int| patch_spec(left as int, top as int, s, lit@[s]),
        ));
    }
}

/// The rectangles that show a value: up to three digits, and the bar.
pub fn draw_number(value: u8) -> (patches: Vec<Patch>)
    ensures
        patches@ == number_patches(value as int),
{
    let digits: [u8; 3] = [value / 100, value / 10 % 10, value % 10];
    let first: usize = if digits[0] > 0 {
        0
    } else if digits[1] > 0 {
        1
    } else {
        2
    };
    let mut patches: Vec<Patch> = Vec::new();
    let mut index: usize = 0;
    while index < 3
        invariant
            index <= 3,
            digits@.len() == 3,
            forall|k: int| 0 <= k < 3 ==> #[trigger] digits@[k] == digit_at(value as int, k),
            first == first_place(value as int),
            patches@ == places_before(value as int, index as int),
        decreases 3 - index,
    {
        let left: u16 = DIGITS_LEFT + index as u16 * DIGIT_PITCH;
        assert(digits@[index as int] == digit_at(value as int, index as int));
        let lit: [bool; 7] = if index >= first {
            SEGMENTS[digits[index] as usize]
        } else {
            [false, false, false, false, false, false, false]
        };
        draw_digit(&mut patches, left, DIGITS_TOP, lit);
        index = index + 1;
        assert(patches@ =~= places_before(value as int, index as int));
    }
    reveal_with_fuel(places_before, 4);
    assert(patches@ =~= place_patches(value as int, 0) + place_patches(value as int, 1)
        + place_patches(value as int, 2));
    patches.push(Patch { x: 60, y: 300, width: 240, height: 10, paint: Paint::Background });
    let width: u16 = value as u16 * 240 / EFFECT_COUNT as u16;
    if width > 0 {
        patches.push(Patch { x: 60, y: 300, width, height: 10, paint: Paint::Bar });
    }
    assert(patches@ =~= number_patches(value as int));
    patches
}

/// Two digits never look the same.
pub proof fn digits_look_different(a: int, b: int)
    requires
        0 <= a < b < 10,
    ensures
        exists|segment: int| 0 <= segment < 7 && #[trigger] lit(a, segment) != lit(b, segment),
{
    if forall|segment: int| 0 <= segment < 7 ==> #[trigger] lit(a, segment) == lit(b, segment) {
        assert(lit(a, 0) == lit(b, 0));
        assert(lit(a, 1) == lit(b, 1));
        assert(lit(a, 2) == lit(b, 2));
        assert(lit(a, 3) == lit(b, 3));
        assert(lit(a, 4) == lit(b, 4));
        assert(lit(a, 5) == lit(b, 5));
        assert(lit(a, 6) == lit(b, 6));
    }
}

/// Every rectangle lies on the screen, and the bar never leaves its track for an effect there is.
pub proof fn patches_lie_on_the_screen(value: int, i: int)
    requires
        0 <= value <= 123,
        0 <= i < number_patches(value).len(),
    ensures
        number_patches(value)[i].x + number_patches(value)[i].width <= 360,
        number_patches(value)[i].y + number_patches(value)[i].height <= 360,
{
    let n = number_patches(value);
    assert(n.len() <= 23);
    if i < 7 {
        assert(n[i] == place_patches(value, 0)[i]);
    } else if i < 14 {
        assert(n[i] == place_patches(value, 1)[i - 7]);
    } else if i < 21 {
        assert(n[i] == place_patches(value, 2)[i - 14]);
    } else {
        assert(n[i] == bar_patches(value)[i - 21]);
    }
}

/// Whether a reading of the screen plays the effect again: a tap, or a finger that comes down.
pub fn tapped(single_tap: bool, down: Option<bool>) -> (r: bool)
    ensures
        r == (single_tap || down == Some(true)),
{
    match down {
        Some(down) => single_tap || down,
        None => single_tap,
    }
}

/// Each digit is lit as it is read: eight in every segment, nought, six and nine each without one,
/// and the others from one to the next.
pub proof fn digits_are_lit_as_they_are_read(segment: int)
    requires
        0 <= segment < 7,
    ensures
        lit(8, segment),
        lit(0, segment) <==> segment != 6,
        lit(6, segment) <==> segment != 1,
        lit(9, segment) <==> segment != 4,
        lit(1, segment) <==> segment == 1 || segment == 2,
        lit(7, segment) <==> segment == 0 || lit(1, segment),
        lit(3, segment) <==> segment == 3 || segment == 6 || lit(7, segment),
        lit(4, segment) <==> segment == 5 || segment == 6 || lit(1, segment),
        lit(5, segment) <==> segment != 1 && segment != 4,
        lit(2, segment) <==> segment != 2 && segment != 5,
{
}

/// A digit is as high and as wide wherever it stands, and the same either way: the bars at its top,
/// its foot and halfway, the uprights at its sides, one from the top to halfway and one from there to
/// the foot.
pub proof fn segments_make_a_figure_of_eight(left: int, top: int)
    ensures
        segment_spec(left, top, 0) == (left, top, 62int, 14int),
        segment_spec(left, top, 3) == (left, top + 120 - 14, 62int, 14int),
        segment_spec(left, top, 6) == (left, top + (120 - 14) / 2, 62int, 14int),
        segment_spec(left, top, 5) == (left, top, 14int, 60int),
        segment_spec(left, top, 1) == (left + 62 - 14, top, 14int, 60int),
        segment_spec(left, top, 4) == (left, top + 60, 14int, 60int),
        segment_spec(left, top, 2) == (left + 62 - 14, top + 60, 14int, 60int),
{
}

/// The digits of a value add up to it, hundreds first.
#[verifier::spinoff_prover]
pub proof fn digits_add_up(value: int)
    requires
        0 <= value < 1000,
    ensures
        100 * digit_at(value, 0) + 10 * digit_at(value, 1) + digit_at(value, 2) == value,
        0 <= digit_at(value, 0) < 10,
        0 <= digit_at(value, 1) < 10,
        0 <= digit_at(value, 2) < 10,
{
}

/// No leading zero is drawn, and nothing else is left out: the first place drawn has a digit of its
/// own, unless it is the last, and every place before it has none.
#[verifier::spinoff_prover]
pub proof fn only_leading_zeros_are_left_out(value: int, index: int)
    requires
        0 <= value < 1000,
        0 <= index < 3,
    ensures
        index < first_place(value) ==> digit_at(value, index) == 0,
        first_place(value) < 2 ==> digit_at(value, first_place(value)) != 0,
        0 <= first_place(value) <= 2,
{
}

/// A place stands 80 to the right of the one before it, all at one height; a segment of it is painted
/// as part of the digit where the digit is drawn and lit there, and as background everywhere else.
pub proof fn a_place_shows_its_digit(value: int, index: int, segment: int)
    requires
        0 <= value < 256,
        0 <= index < 3,
        0 <= segment < 7,
    ensures
        ({
            let patch = place_patches(value, index)[segment];
            let (x, y, width, height) = segment_spec(69 + 80 * index, 120, segment);
            &&& patch.x == x && patch.y == y && patch.width == width && patch.height == height
            &&& patch.paint == Paint::Digit <==> index >= first_place(value) && lit(
                digit_at(value, index),
                segment,
            )
            &&& patch.paint != Paint::Digit ==> patch.paint == Paint::Background
        }),
        number_patches(value)[7 * index + segment] == place_patches(value, index)[segment],
{
    let n = number_patches(value);
    if index == 0 {
        assert(n[segment] == place_patches(value, 0)[segment]);
    } else if index == 1 {
        assert(n[7 + segment] == place_patches(value, 1)[segment]);
    } else {
        assert(n[14 + segment] == place_patches(value, 2)[segment]);
    }
}

/// The bar starts where its track does, as high as that, and takes the same share of it as the value
/// does of the effects, cut to a whole pixel; a bar of no pixel is not drawn. It is painted over its
/// track, and after the digits.
#[verifier::spinoff_prover]
pub proof fn the_bar_shows_the_share(value: int)
    requires
        0 <= value <= 123,
    ensures
        ({
            let n = number_patches(value);
            let track = n[21];
            let bar = n[22];
            &&& track == (Patch { x: 60, y: 300, width: 240, height: 10, paint: Paint::Background })
            &&& value == 0 ==> n.len() == 22
            &&& value > 0 ==> {
                &&& n.len() == 23
                &&& bar.x == track.x && bar.y == track.y && bar.height == track.height
                &&& bar.paint == Paint::Bar
                &&& 123 * bar.width <= 240 * value < 123 * (bar.width + 1)
            }
        }),
{
    let n = number_patches(value);
    assert(n[21] == bar_patches(value)[0]);
    if value > 0 {
        assert(n[22] == bar_patches(value)[1]);
    }
}

} // verus!
