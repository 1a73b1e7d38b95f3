//! Test pictures: two rings, twelve marks like the hours of a clock, and a few words.

use vstd::prelude::*;
use vstd::string::*;
use crate::dial::quotient;
use crate::text::{decimal, push_decimal};

verus! {

/// Which picture is drawn.
#[derive(Clone, Copy, Debug, PartialEq, Eq, Structural)]
pub enum Scene {
    /// What rotation is hard on: small text, thin rings, marks every 30 degrees.
    Rotation,
    /// Something to draw on with a finger, with a plain north.
    Finger,
    /// A hand, one step of twelve a frame, over the number of the frame.
    Hand(u32),
}

/// The direction of an hour, in thousandths: right, and down.
pub open spec fn hour_spec(n: int) -> (int, int) {
    if n == 0 {
        (0, -1000)
    } else if n == 1 {
        (500, -866)
    } else if n == 2 {
        (866, -500)
    } else if n == 3 {
        (1000, 0)
    } else if n == 4 {
        (866, 500)
    } else if n == 5 {
        (500, 866)
    } else if n == 6 {
        (0, 1000)
    } else if n == 7 {
        (-500, 866)
    } else if n == 8 {
        (-866, 500)
    } else if n == 9 {
        (-1000, 0)
    } else if n == 10 {
        (-866, -500)
    } else {
        (-500, -866)
    }
}

fn hour(n: usize) -> (r: (i32, i32))
    requires
        n < 12,
    ensures
        (r.0 as int, r.1 as int) == hour_spec(n as int),
        -1000 <= r.0 <= 1000,
        -1000 <= r.1 <= 1000,
{
    match n {
        0 => (0, -1000),
        1 => (500, -866),
        2 => (866, -500),
        3 => (1000, 0),
        4 => (866, 500),
        5 => (500, 866),
        6 => (0, 1000),
        7 => (-500, 866),
        8 => (-866, 500),
        9 => (-1000, 0),
        10 => (-866, -500),
        _ => (-500, -866),
    }
}

/// A mark: where it begins and ends, and whether it is the one that stands out.
#[derive(Clone, Copy, Debug, PartialEq, Eq, Structural)]
pub struct Mark {
    pub from_x: i32,
    pub from_y: i32,
    pub to_x: i32,
    pub to_y: i32,
    pub accent: bool,
}

/// A point so far from the middle in the direction of an hour.
pub open spec fn point_spec(n: int, radius: int) -> (int, int) {
    (180 + quotient(hour_spec(n).0 * radius, 1000), 180 + quotient(hour_spec(n).1 * radius, 1000))
}

/// Whether an hour's mark stands out: twelve o'clock, or the one the hand points at.
pub open spec fn stands_out(scene: Scene, n: int) -> bool {
    match scene {
        Scene::Hand(frame) => n == frame % 12,
        _ => n == 0,
    }
}

/// How far from the middle an hour's mark begins and ends.
pub open spec fn reach(scene: Scene, n: int) -> (int, int) {
    match scene {
        Scene::Rotation => (150, if n == 0 {
            100
        } else {
            165
        }),
        Scene::Finger => (if n == 0 {
            120
        } else {
            160
        }, 176),
        Scene::Hand(_) => (if stands_out(scene, n) {
            0
        } else {
            150
        }, 165),
    }
}

pub open spec fn mark_spec(scene: Scene, n: int) -> Mark {
    let (inner, outer) = reach(scene, n);
    Mark {
        from_x: point_spec(n, inner).0 as i32,
        from_y: point_spec(n, inner).1 as i32,
        to_x: point_spec(n, outer).0 as i32,
        to_y: point_spec(n, outer).1 as i32,
        accent: stands_out(scene, n),
    }
}

/// A word of the picture, so far below the middle.
#[derive(Debug)]
pub struct Word {
    pub text: String,
    pub dy: i32,
    pub big: bool,
}

/// A word as contracts speak of it.
pub struct WordView {
    pub text: Seq<char>,
    pub dy: int,
    pub big: bool,
}

impl View for Word {
    type V = WordView;

    open spec fn view(&self) -> WordView {
        WordView { text: self.text@, dy: self.dy as int, big: self.big }
    }
}

pub open spec fn word_views(words: Seq<Word>) -> Seq<WordView> {
    words.map_values(|w: Word| w@)
}

/// The words of a picture.
pub open spec fn words_spec(scene: Scene) -> Seq<WordView> {
    match scene {
        Scene::Rotation => seq![
            WordView { text: "TeeToTum"@, dy: 0, big: true },
            WordView {
                text: "six by ten, the size rotation ruins first"@,
                dy: 24,
                big: false,
            },
            WordView { text: "the long mark is up"@, dy: -30, big: false },
        ],
        Scene::Finger => seq![
            WordView { text: "draw on the screen"@, dy: -6, big: false },
            WordView { text: "the ink stays with the picture"@, dy: 8, big: false },
        ],
        Scene::Hand(frame) => seq![
            WordView { text: decimal(frame as nat), dy: -6, big: true },
            WordView { text: "psram dma"@, dy: 14, big: false },
        ],
    }
}

/// A picture: its inner ring in white or dim, its marks and its words. The outer ring is 356
/// pixels across and dim, the inner one 240.
#[derive(Debug)]
pub struct Picture {
    pub inner_ring_dim: bool,
    pub marks: Vec<Mark>,
    pub words: Vec<Word>,
}

fn along(s: i32, radius: i32) -> (r: i32)
    requires
        -1000 <= s <= 1000,
        0 <= radius <= 176,
    ensures
        r == quotient(s * radius, 1000),
        -176 <= r <= 176,
{
    assert(-176000 <= s * radius <= 176000) by (nonlinear_arith)
        requires
            -1000 <= s <= 1000,
            0 <= radius <= 176,
    ;
    let product: i32 = s * radius;
    if product < 0 {
        -((-product) / 1000)
    } else {
        product / 1000
    }
}

fn mark(scene: Scene, n: usize) -> (r: Mark)
    requires
        n < 12,
    ensures
        r == mark_spec(scene, n as int),
{
    let accent = match scene {
        Scene::Hand(frame) => n == (frame % 12) as usize,
        _ => n == 0,
    };
    let (inner, outer): (i32, i32) = match scene {
        Scene::Rotation => (
            150,
            if accent {
                100
            } else {
                165
            },
        ),
        Scene::Finger => (
            if accent {
                120
            } else {
                160
            },
            176,
        ),
        Scene::Hand(_) => (
            if accent {
                0
            } else {
                150
            },
            165,
        ),
    };
    let (sx, sy) = hour(n);
    Mark {
        from_x: 180 + along(sx, inner),
        from_y: 180 + along(sy, inner),
        to_x: 180 + along(sx, outer),
        to_y: 180 + along(sy, outer),
        accent,
    }
}

/// `n` in decimal.
pub fn format_u32(n: u32) -> (r: String)
    ensures
        r@ == decimal(n as nat),
{
    let mut t = String::new();
    push_decimal(&mut t, n as u64);
    t
}

/// What a test picture is made of.
pub fn draw_scene(scene: Scene) -> (r: Picture)
    ensures
        r.inner_ring_dim == (scene == Scene::Finger),
        r.marks@ == Seq::new(12, |n: int| mark_spec(scene, n)),
        word_views(r.words@) == words_spec(scene),
{
    let mut marks: Vec<Mark> = Vec::new();
    let mut n: usize = 0;
    while n < 12
        invariant
            n <= 12,
            marks@ == Seq::new(n as nat, |k: int| mark_spec(scene, k)),
        decreases 12 - n,
    {
        marks.push(mark(scene, n));
        n = n + 1;
        assert(marks@ =~= Seq::new(n as nat, |k: int| mark_spec(scene, k)));
    }
    let mut words: Vec<Word> = Vec::new();
    match scene {
        Scene::Rotation => {
            words.push(Word { text: "TeeToTum".to_owned(), dy: 0, big: true });
            words.push(
                Word {
                    text: "six by ten, the size rotation ruins first".to_owned(),
                    dy: 24,
                    big: false,
                },
            );
            words.push(Word { text: "the long mark is up".to_owned(), dy: -30, big: false });
        },
        Scene::Finger => {
            words.push(Word { text: "draw on the screen".to_owned(), dy: -6, big: false });
            words.push(
                Word { text: "the ink stays with the picture".to_owned(), dy: 8, big: false },
            );
        },
        Scene::Hand(frame) => {
            words.push(Word { text: format_u32(frame), dy: -6, big: true });
            words.push(Word { text: "psram dma".to_owned(), dy: 14, big: false });
        },
    }
    assert(word_views(words@) =~= words_spec(scene));
    let inner_ring_dim = match scene {
        Scene::Finger => true,
        _ => false,
    };
    Picture { inner_ring_dim, marks, words }
}

/// Every mark lies on the screen.
pub proof fn marks_lie_on_the_screen(scene: Scene, n: int)
    requires
        0 <= n < 12,
    ensures
        0 <= mark_spec(scene, n).from_x < 360,
        0 <= mark_spec(scene, n).from_y < 360,
        0 <= mark_spec(scene, n).to_x < 360,
        0 <= mark_spec(scene, n).to_y < 360,
{
}

/// One mark stands out, and only one.
pub proof fn one_mark_stands_out(scene: Scene, n: int, m: int)
    requires
        0 <= n < 12,
        0 <= m < 12,
        stands_out(scene, n),
    ensures
        stands_out(scene, m) <==> m == n,
        mark_spec(scene, n).accent,
{
}

/// The hours stand a twelfth of a turn apart, clockwise from the top: three hours on is a quarter
/// turn, and one and two hours lie in between, all as far from the middle to within a part in ten
/// thousand.
pub proof fn hours_stand_a_twelfth_apart(n: int)
    requires
        0 <= n < 12,
    ensures
        hour_spec(0) == (0int, -1000int),
        hour_spec(1) == (500int, -866int),
        hour_spec(2) == (866int, -500int),
        hour_spec((n + 3) % 12) == (-hour_spec(n).1, hour_spec(n).0),
        999_900 <= hour_spec(n).0 * hour_spec(n).0 + hour_spec(n).1 * hour_spec(n).1 <= 1_000_000,
{
    let (x, y) = hour_spec(n);
    assert(999_900 <= x * x + y * y <= 1_000_000) by (nonlinear_arith)
        requires
            (x == 0 && (y == 1000 || y == -1000)) || (y == 0 && (x == 1000 || x == -1000)) || ((x
                == 500 || x == -500) && (y == 866 || y == -866)) || ((x == 866 || x == -866) && (y
                == 500 || y == -500)),
    ;
}

/// A point lies in the direction of its hour, less than a pixel short of its radius either way, and
/// at no radius in the middle.
#[verifier::spinoff_prover]
pub proof fn a_point_lies_along_its_hour(n: int, radius: int)
    requires
        0 <= n < 12,
        0 <= radius <= 176,
    ensures
        point_spec(n, 0) == (180int, 180int),
        -1000 < 1000 * (point_spec(n, radius).0 - 180) - hour_spec(n).0 * radius < 1000,
        -1000 < 1000 * (point_spec(n, radius).1 - 180) - hour_spec(n).1 * radius < 1000,
        hour_spec(n).0 >= 0 ==> point_spec(n, radius).0 >= 180,
        hour_spec(n).0 <= 0 ==> point_spec(n, radius).0 <= 180,
        hour_spec(n).1 >= 0 ==> point_spec(n, radius).1 >= 180,
        hour_spec(n).1 <= 0 ==> point_spec(n, radius).1 <= 180,
{
    assert(hour_spec(n).0 * 0 == 0 && hour_spec(n).1 * 0 == 0);
    let a = hour_spec(n).0 * radius;
    let b = hour_spec(n).1 * radius;
    assert(hour_spec(n).0 >= 0 ==> a >= 0) by (nonlinear_arith)
        requires
            a == hour_spec(n).0 * radius,
            0 <= radius,
    ;
    assert(hour_spec(n).0 <= 0 ==> a <= 0) by (nonlinear_arith)
        requires
            a == hour_spec(n).0 * radius,
            0 <= radius,
    ;
    assert(hour_spec(n).1 >= 0 ==> b >= 0) by (nonlinear_arith)
        requires
            b == hour_spec(n).1 * radius,
            0 <= radius,
    ;
    assert(hour_spec(n).1 <= 0 ==> b <= 0) by (nonlinear_arith)
        requires
            b == hour_spec(n).1 * radius,
            0 <= radius,
    ;
}

/// A mark runs along its hour between the two radii of its picture: short ones near the rim, and the
/// one that stands out longer than any other, in the last picture from the very middle. The mark
/// that stands out is at twelve, or where the hand points by the frame.
pub proof fn the_mark_that_stands_out_is_longest(frame: u32, n: int, m: int)
    requires
        0 <= n < 12,
        0 <= m < 12,
    ensures
        reach(Scene::Rotation, 0) == (150int, 100int),
        n > 0 ==> reach(Scene::Rotation, n) == (150int, 165int),
        reach(Scene::Finger, 0) == (120int, 176int),
        n > 0 ==> reach(Scene::Finger, n) == (160int, 176int),
        stands_out(Scene::Hand(frame), n) <==> n == frame % 12,
        n == frame % 12 ==> reach(Scene::Hand(frame), n) == (0int, 165int),
        n != frame % 12 ==> reach(Scene::Hand(frame), n) == (150int, 165int),
        stands_out(Scene::Rotation, n) <==> n == 0,
        stands_out(Scene::Finger, n) <==> n == 0,
{
}

/// A mark's ends are points along its hour at its two radii, and its colour says whether it stands
/// out.
#[verifier::spinoff_prover]
pub proof fn a_mark_runs_along_its_hour(scene: Scene, n: int)
    requires
        0 <= n < 12,
    ensures
        ({
            let mark = mark_spec(scene, n);
            let (inner, outer) = reach(scene, n);
            &&& (mark.from_x as int, mark.from_y as int) == point_spec(n, inner)
            &&& (mark.to_x as int, mark.to_y as int) == point_spec(n, outer)
            &&& mark.accent <==> stands_out(scene, n)
        }),
{
    marks_lie_on_the_screen(scene, n);
    a_point_lies_along_its_hour(n, reach(scene, n).0);
    a_point_lies_along_its_hour(n, reach(scene, n).1);
    let h = hour_spec(n);
    let (a, b) = reach(scene, n);
    assert(-1000 * 176 <= h.0 * a <= 1000 * 176 && -1000 * 176 <= h.0 * b <= 1000 * 176)
        by (nonlinear_arith)
        requires
            -1000 <= h.0 <= 1000,
            0 <= a <= 176,
            0 <= b <= 176,
    ;
    assert(-1000 * 176 <= h.1 * a <= 1000 * 176 && -1000 * 176 <= h.1 * b <= 1000 * 176)
        by (nonlinear_arith)
        requires
            -1000 <= h.1 <= 1000,
            0 <= a <= 176,
            0 <= b <= 176,
    ;
}

/// Each picture says what it is for: the first names the device and which way is up, the second what
/// a finger does, and the last counts its frames.
pub proof fn each_picture_says_what_it_is_for(frame: u32)
    ensures
        words_spec(Scene::Rotation).len() == 3,
        words_spec(Scene::Rotation)[0] == (WordView { text: "TeeToTum"@, dy: 0, big: true }),
        words_spec(Scene::Rotation)[1] == (WordView {
            text: "six by ten, the size rotation ruins first"@,
            dy: 24,
            big: false,
        }),
        words_spec(Scene::Rotation)[2] == (WordView {
            text: "the long mark is up"@,
            dy: -30,
            big: false,
        }),
        words_spec(Scene::Finger).len() == 2,
        words_spec(Scene::Finger)[0] == (WordView {
            text: "draw on the screen"@,
            dy: -6,
            big: false,
        }),
        words_spec(Scene::Finger)[1] == (WordView {
            text: "the ink stays with the picture"@,
            dy: 8,
            big: false,
        }),
        words_spec(Scene::Hand(frame)).len() == 2,
        words_spec(Scene::Hand(frame))[0] == (WordView {
            text: decimal(frame as nat),
            dy: -6,
            big: true,
        }),
        words_spec(Scene::Hand(frame))[1] == (WordView { text: "psram dma"@, dy: 14, big: false }),
{
}

} // verus!
