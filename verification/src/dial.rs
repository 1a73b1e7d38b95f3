//! A dot that runs round the rim of the screen with the knob.

use vstd::prelude::*;

verus! {

/// How far from the middle the dot runs.
pub const DOT_RADIUS: i32 = 128;

/// Half the width of the dot.
pub const DOT_HALF: i32 = 11;

/// The index mark at twelve o'clock, which the dot is measured against: a bar outside its reach.
pub const MARK_X: u16 = 174;

pub const MARK_Y: u16 = 10;

pub const MARK_WIDTH: u16 = 12;

pub const MARK_HEIGHT: u16 = 31;

/// `a` over `b`, rounded towards zero.
pub open spec fn quotient(a: int, b: int) -> int {
    if a < 0 {
        -((-a) / b)
    } else {
        a / b
    }
}

/// Bhaskara's approximation of the sine over half a circle, scaled by 1024: a quotient of
/// parabolas, cut off. At 45 and 135 degrees the cut alone would leave it more than two parts in a
/// thousand short, so there it goes up.
pub open spec fn arch(x: int) -> int {
    let over = 4 * (x * (180 - x)) * 1024;
    let under = 40500 - x * (180 - x);
    over / under + (if x == 45 || x == 135 {
        1int
    } else {
        0
    })
}

/// The sine of an angle in degrees, scaled by 1024: the arch over the first half circle, turned
/// over for the other half.
pub open spec fn sin_spec(degrees: int) -> int {
    if degrees % 360 <= 180 {
        arch(degrees % 360)
    } else {
        -arch(degrees % 360 - 180)
    }
}

proof fn arch_bounds(x: int)
    requires
        0 <= x <= 180,
    ensures
        0 <= x * (180 - x) <= 8100,
        0 <= arch(x) <= 1024,
        arch(x) == 1024 <==> x == 90,
{
    assert(0 <= x * (180 - x)) by (nonlinear_arith)
        requires
            0 <= x <= 180,
    ;
    assert(x * (180 - x) <= 8100) by (nonlinear_arith);
    let p = x * (180 - x);
    let den = 40500 - p;
    let num = 4 * p * 1024;
    assert(0 <= num / den) by (nonlinear_arith)
        requires
            num >= 0,
            den > 0,
    ;
    if x == 90 {
        arch_at(90, 8100);
    } else if x == 45 || x == 135 {
        arch_at(x, 6075);
    } else {
        assert(x * (180 - x) <= 8099) by (nonlinear_arith)
            requires
                x != 90,
        ;
        assert(num / den < 1024) by (nonlinear_arith)
            requires
                num < 1024 * den,
                den > 0,
        ;
    }
}

proof fn arch_at(x: int, product: int)
    requires
        product == x * (180 - x),
    ensures
        arch(x) == 4 * product * 1024 / (40500 - product) + (if x == 45 || x == 135 {
            1int
        } else {
            0
        }),
{
}

proof fn arch_mirrors(x: int)
    ensures
        arch(180 - x) == arch(x),
        arch(0) == 0,
        arch(180) == 0,
        arch(90) == 1024,
{
    assert((180 - x) * (180 - (180 - x)) == x * (180 - x)) by (nonlinear_arith);
    arch_at(0, 0);
    arch_at(180, 0);
    arch_at(90, 8100);
}

proof fn arch_rises(a: int, b: int)
    requires
        0 <= a <= b <= 90,
    ensures
        arch(a) <= arch(b),
{
    if a < b {
        let (p, q) = (a * (180 - a), b * (180 - b));
        assert(0 <= p <= q <= 8100) by (nonlinear_arith)
            requires
                0 <= a <= b <= 90,
                p == a * (180 - a),
                q == b * (180 - b),
        ;
        let (over_a, under_a) = (4 * p * 1024, 40500 - p);
        let (over_b, under_b) = (4 * q * 1024, 40500 - q);
        assert(over_a / under_a <= over_b / under_b) by {
            vstd::arithmetic::div_mod::lemma_div_is_ordered(over_a, over_b, under_a);
            vstd::arithmetic::div_mod::lemma_div_is_ordered_by_denominator(
                over_b,
                under_b,
                under_a,
            );
        }
        if a == 45 {
            // Past the step at 45 degrees every value is above the one it goes up to.
            assert(q >= 6164) by (nonlinear_arith)
                requires
                    46 <= b <= 90,
                    q == b * (180 - b),
            ;
            assert(p == 6075) by (nonlinear_arith)
                requires
                    a == 45,
                    p == a * (180 - a),
            ;
            arch_at(a, p);
            assert(over_a / under_a == 722) by {
                assert(24883200int / 34425 == 722);
            }
            assert(over_b / under_b >= 723) by (nonlinear_arith)
                requires
                    over_b >= 723 * under_b,
                    under_b > 0,
            ;
        }
    }
}

/// The sine of an angle in degrees, scaled by 1024.
pub fn sin_q10(degrees: i32) -> (r: i32)
    ensures
        r == sin_spec(degrees as int),
        -1024 <= r <= 1024,
{
    let within: i64 = if degrees >= 0 {
        degrees as i64 % 360
    } else {
        (degrees as i64 + 360 * 0x0100_0000) % 360
    };
    let degrees_in: i32 = within as i32;
    assert(degrees_in == degrees as int % 360);
    let x: i32 = if degrees_in <= 180 {
        degrees_in
    } else {
        degrees_in - 180
    };
    proof {
        arch_bounds(x as int);
    }
    let product: i32 = x * (180 - x);
    let over: i32 = 4 * product * 1024;
    let under: i32 = 40500 - product;
    let raised: i32 = if x == 45 || x == 135 {
        1
    } else {
        0
    };
    let value: i32 = over / under + raised;
    if degrees_in <= 180 {
        value
    } else {
        -value
    }
}

/// The cosine, which is the sine a quarter turn along.
pub fn cos_q10(degrees: i32) -> (r: i32)
    requires
        degrees <= i32::MAX - 90,
    ensures
        r == sin_spec(degrees + 90),
        -1024 <= r <= 1024,
{
    sin_q10(degrees + 90)
}

/// The top left corner of the dot for an angle, zero at twelve o'clock and growing clockwise.
pub open spec fn corner_spec(angle: int) -> (int, int) {
    (
        180 + quotient(128 * sin_spec(angle), 1024) - 11,
        180 - quotient(128 * sin_spec(angle + 90), 1024) - 11,
    )
}

pub fn dot_corner(angle: i32) -> (r: (u16, u16))
    requires
        angle <= i32::MAX - 90,
    ensures
        (r.0 as int, r.1 as int) == corner_spec(angle as int),
{
    let across: i32 = toward_zero(DOT_RADIUS * sin_q10(angle));
    let down: i32 = toward_zero(DOT_RADIUS * cos_q10(angle));
    let x: i32 = 180 + across - DOT_HALF;
    let y: i32 = 180 - down - DOT_HALF;
    (x as u16, y as u16)
}

fn toward_zero(n: i32) -> (r: i32)
    requires
        -131072 <= n <= 131072,
    ensures
        r == quotient(n as int, 1024),
        -128 <= r <= 128,
{
    if n < 0 {
        -((-n) / 1024)
    } else {
        n / 1024
    }
}

proof fn half_a_turn_turns_over(degrees: int)
    ensures
        sin_spec(degrees + 180) == -sin_spec(degrees),
{
    let d = degrees % 360;
    arch_mirrors(0);
    if d < 180 {
        assert((degrees + 180) % 360 == d + 180);
    } else {
        assert((degrees + 180) % 360 == d - 180);
    }
}

proof fn the_second_quarter_mirrors(degrees: int)
    ensures
        sin_spec(180 - degrees) == sin_spec(degrees),
{
    let d = degrees % 360;
    if d <= 180 {
        assert((180 - degrees) % 360 == 180 - d);
        arch_mirrors(d);
    } else {
        assert((180 - degrees) % 360 == 540 - d);
        arch_mirrors(d - 180);
        assert(180 - (d - 180) == 540 - d - 180);
    }
}

/// A full turn brings every value back, half a turn turns it over, and the second quarter mirrors
/// the first.
pub proof fn sine_turns(degrees: int)
    ensures
        sin_spec(degrees + 360) == sin_spec(degrees),
        sin_spec(degrees + 180) == -sin_spec(degrees),
        sin_spec(180 - degrees) == sin_spec(degrees),
{
    half_a_turn_turns_over(degrees);
    half_a_turn_turns_over(degrees + 180);
    the_second_quarter_mirrors(degrees);
}

/// The sine rises over the first quarter, and is 1024 at a quarter turn and nowhere else.
pub proof fn the_sine_peaks_once(a: int, b: int, degrees: int)
    requires
        0 <= a <= b <= 90,
    ensures
        sin_spec(a) <= sin_spec(b),
        sin_spec(degrees) == 1024 <==> degrees % 360 == 90,
        sin_spec(degrees) == -1024 <==> degrees % 360 == 270,
{
    arch_rises(a, b);
    let d = degrees % 360;
    arch_bounds(
        if d <= 180 {
            d
        } else {
            d - 180
        },
    );
}

/// The sine of each degree of the first quarter, in millionths, to the nearest.
pub const SINES: [i32; 91] = [
    0, 17452, 34899, 52336, 69756, 87156, 104528, 121869, 139173, 156434, 173648, 190809, 207912,
    224951, 241922, 258819, 275637, 292372, 309017, 325568, 342020, 358368, 374607, 390731,
    406737, 422618, 438371, 453990, 469472, 484810, 500000, 515038, 529919, 544639, 559193,
    573576, 587785, 601815, 615661, 629320, 642788, 656059, 669131, 681998, 694658, 707107,
    719340, 731354, 743145, 754710, 766044, 777146, 788011, 798636, 809017, 819152, 829038,
    838671, 848048, 857167, 866025, 874620, 882948, 891007, 898794, 906308, 913545, 920505,
    927184, 933580, 939693, 945519, 951057, 956305, 961262, 965926, 970296, 974370, 978148,
    981627, 984808, 987688, 990268, 992546, 994522, 996195, 997564, 998630, 999391, 999848,
    1000000,
];

/// Whether the sine of a degree lies within two parts in a thousand of the table's, less the
/// millionth by which the table may be off.
pub open spec fn near(degrees: int) -> bool {
    -2_046_976 < 1_000_000 * arch(degrees) - 1024 * SINES@[degrees] < 2_046_976
}

/// A degree is near, by its product, its quotient and its entry in the table.
proof fn near_at(degrees: int, product: int, value: int, sine: int)
    requires
        0 <= degrees <= 90,
        product == degrees * (180 - degrees),
        product < 40500,
        value * (40500 - product) <= 4096 * product < (value + 1) * (40500 - product),
        sine == SINES@[degrees],
        -2_046_976 < 1_000_000 * (value + (if degrees == 45 {
            1int
        } else {
            0
        })) - 1024 * sine < 2_046_976,
    ensures
        near(degrees),
{
    let under = 40500 - product;
    let rest = 4096 * product - value * under;
    assert(4096 * product == under * value + rest && 0 <= rest < under) by (nonlinear_arith)
        requires
            rest == 4096 * product - value * under,
            value * under <= 4096 * product < (value + 1) * under,
    ;
    vstd::arithmetic::div_mod::lemma_fundamental_div_mod_converse(
        4096 * product,
        under,
        value,
        rest,
    );
    arch_at(degrees, product);
}

proof fn each_degree_is_near(degrees: int)
    requires
        0 <= degrees <= 90,
    ensures
        near(degrees),
{
    near_at(0, 0, 0, 0);
    near_at(1, 179, 18, 17452);
    near_at(2, 356, 36, 34899);
    near_at(3, 531, 54, 52336);
    near_at(4, 704, 72, 69756);
    near_at(5, 875, 90, 87156);
    near_at(6, 1044, 108, 104528);
    near_at(7, 1211, 126, 121869);
    near_at(8, 1376, 144, 139173);
    near_at(9, 1539, 161, 156434);
    near_at(10, 1700, 179, 173648);
    near_at(11, 1859, 197, 190809);
    near_at(12, 2016, 214, 207912);
    near_at(13, 2171, 232, 224951);
    near_at(14, 2324, 249, 241922);
    near_at(15, 2475, 266, 258819);
    near_at(16, 2624, 283, 275637);
    near_at(17, 2771, 300, 292372);
    near_at(18, 2916, 317, 309017);
    near_at(19, 3059, 334, 325568);
    near_at(20, 3200, 351, 342020);
    near_at(21, 3339, 368, 358368);
    near_at(22, 3476, 384, 374607);
    near_at(23, 3611, 400, 390731);
    near_at(24, 3744, 417, 406737);
    near_at(25, 3875, 433, 422618);
    near_at(26, 4004, 449, 438371);
    near_at(27, 4131, 465, 453990);
    near_at(28, 4256, 480, 469472);
    near_at(29, 4379, 496, 484810);
    near_at(30, 4500, 512, 500000);
    near_at(31, 4619, 527, 515038);
    near_at(32, 4736, 542, 529919);
    near_at(33, 4851, 557, 544639);
    near_at(34, 4964, 572, 559193);
    near_at(35, 5075, 586, 573576);
    near_at(36, 5184, 601, 587785);
    near_at(37, 5291, 615, 601815);
    near_at(38, 5396, 629, 615661);
    near_at(39, 5499, 643, 629320);
    near_at(40, 5600, 657, 642788);
    near_at(41, 5699, 670, 656059);
    near_at(42, 5796, 684, 669131);
    near_at(43, 5891, 697, 681998);
    near_at(44, 5984, 710, 694658);
    near_at(45, 6075, 722, 707107);
    near_at(46, 6164, 735, 719340);
    near_at(47, 6251, 747, 731354);
    near_at(48, 6336, 759, 743145);
    near_at(49, 6419, 771, 754710);
    near_at(50, 6500, 783, 766044);
    near_at(51, 6579, 794, 777146);
    near_at(52, 6656, 805, 788011);
    near_at(53, 6731, 816, 798636);
    near_at(54, 6804, 827, 809017);
    near_at(55, 6875, 837, 819152);
    near_at(56, 6944, 847, 829038);
    near_at(57, 7011, 857, 838671);
    near_at(58, 7076, 867, 848048);
    near_at(59, 7139, 876, 857167);
    near_at(60, 7200, 885, 866025);
    near_at(61, 7259, 894, 874620);
    near_at(62, 7316, 903, 882948);
    near_at(63, 7371, 911, 891007);
    near_at(64, 7424, 919, 898794);
    near_at(65, 7475, 927, 906308);
    near_at(66, 7524, 934, 913545);
    near_at(67, 7571, 941, 920505);
    near_at(68, 7616, 948, 927184);
    near_at(69, 7659, 955, 933580);
    near_at(70, 7700, 961, 939693);
    near_at(71, 7739, 967, 945519);
    near_at(72, 7776, 973, 951057);
    near_at(73, 7811, 978, 956305);
    near_at(74, 7844, 983, 961262);
    near_at(75, 7875, 988, 965926);
    near_at(76, 7904, 993, 970296);
    near_at(77, 7931, 997, 974370);
    near_at(78, 7956, 1001, 978148);
    near_at(79, 7979, 1004, 981627);
    near_at(80, 8000, 1008, 984808);
    near_at(81, 8019, 1011, 987688);
    near_at(82, 8036, 1013, 990268);
    near_at(83, 8051, 1016, 992546);
    near_at(84, 8064, 1018, 994522);
    near_at(85, 8075, 1020, 996195);
    near_at(86, 8084, 1021, 997564);
    near_at(87, 8091, 1022, 998630);
    near_at(88, 8096, 1023, 999391);
    near_at(89, 8099, 1023, 999848);
    near_at(90, 8100, 1024, 1000000);
}

/// The sine is wrong by less than two parts in a thousand: over the first quarter by the table, and
/// everywhere else by turning and mirroring that.
pub proof fn the_sine_is_near(degrees: int)
    requires
        0 <= degrees <= 90,
    ensures
        near(degrees),
        sin_spec(degrees) == arch(degrees),
        sin_spec(180 - degrees) == arch(degrees),
        sin_spec(180 + degrees) == -arch(degrees),
        sin_spec(360 - degrees) == -arch(degrees),
{
    sine_turns(degrees);
    sine_turns(-degrees);
    sine_turns(180 - degrees);
    each_degree_is_near(degrees);
}


/// The four quarters are exact.
pub proof fn quarters_are_exact()
    ensures
        sin_spec(0) == 0,
        sin_spec(90) == 1024,
        sin_spec(180) == 0,
        sin_spec(270) == -1024,
{
    arch_mirrors(0);
}

/// Wherever the knob stands, the whole dot is on the screen.
pub proof fn the_dot_stays_on_the_screen(angle: int)
    ensures
        0 <= corner_spec(angle).0 && corner_spec(angle).0 + 22 <= 360,
        0 <= corner_spec(angle).1 && corner_spec(angle).1 + 22 <= 360,
{
    let d = angle % 360;
    let e = (angle + 90) % 360;
    arch_bounds(
        if d <= 180 {
            d
        } else {
            d - 180
        },
    );
    arch_bounds(
        if e <= 180 {
            e
        } else {
            e - 180
        },
    );
}

/// Whether a pixel is the dot's, by the angle it stands at.
pub open spec fn in_dot(angle: int, x: int, y: int) -> bool {
    let (left, top) = corner_spec(angle);
    left <= x < left + 22 && top <= y < top + 22
}

/// Whether a pixel is the mark's.
pub open spec fn in_mark(x: int, y: int) -> bool {
    MARK_X <= x < MARK_X + MARK_WIDTH && MARK_Y <= y < MARK_Y + MARK_HEIGHT
}

/// Wherever the dot stands, it shares no pixel with the index mark: erasing it never eats into the
/// mark.
pub proof fn the_dot_spares_the_mark(angle: int, x: int, y: int)
    requires
        in_dot(angle, x, y),
    ensures
        !in_mark(x, y),
{
    let e = (angle + 90) % 360;
    arch_bounds(
        if e <= 180 {
            e
        } else {
            e - 180
        },
    );
}

/// What a turn of the knob repaints.
#[derive(Clone, Copy, Debug, PartialEq, Eq)]
pub struct Moved {
    /// The angle the dot stands at, from 0 to 359.
    pub angle: i32,
    /// Where the dot is painted.
    pub dot: (u16, u16),
    /// Where the ground is painted over it first, if it moved.
    pub erase: Option<(u16, u16)>,
}

/// Moves the dot to where the knob stands, by the pulses counted and the degrees of one.
pub fn moved(drawn: (u16, u16), pulses: i32, degrees: i32) -> (r: Moved)
    requires
        i32::MIN <= pulses * degrees <= i32::MAX - 90,
    ensures
        r.angle == pulses * degrees % 360,
        (r.dot.0 as int, r.dot.1 as int) == corner_spec(pulses * degrees),
        r.erase == (if drawn == r.dot {
            None
        } else {
            Some(drawn)
        }),
{
    let angle: i32 = pulses * degrees;
    let dot = dot_corner(angle);
    let turned: i32 = if angle < 0 {
        359 - (-(angle + 1)) % 360
    } else {
        angle % 360
    };
    let erase = if drawn.0 == dot.0 && drawn.1 == dot.1 {
        None
    } else {
        Some(drawn)
    };
    Moved { angle: turned, dot, erase }
}

/// A whole turn of the knob brings the dot back to where it was.
pub proof fn a_whole_turn_brings_the_dot_back(pulses: int, revolution: int, degrees: int)
    requires
        revolution * degrees == 360,
    ensures
        corner_spec((pulses + revolution) * degrees) == corner_spec(pulses * degrees),
{
    assert((pulses + revolution) * degrees == pulses * degrees + 360) by (nonlinear_arith)
        requires
            revolution * degrees == 360,
    ;
    sine_turns(pulses * degrees);
    sine_turns(pulses * degrees + 90);
}

/// Rounding is towards zero: never further from it than the quotient, and less than one short.
pub proof fn quotients_round_towards_zero(a: int, b: int)
    requires
        b > 0,
    ensures
        a >= 0 ==> quotient(a, b) * b <= a < quotient(a, b) * b + b,
        a <= 0 ==> quotient(a, b) * b - b < a <= quotient(a, b) * b,
{
    let q = if a < 0 {
        (-a) / b
    } else {
        a / b
    };
    let n = if a < 0 {
        -a
    } else {
        a
    };
    assert(q * b <= n < q * b + b) by (nonlinear_arith)
        requires
            q == n / b,
            b > 0,
    ;
    assert((-q) * b == -(q * b)) by (nonlinear_arith);
}

/// The dot starts at twelve o'clock, 128 from the middle, and runs clockwise: a quarter turn takes
/// what it stands to the right to below, and what it stands above to the right.
#[verifier::spinoff_prover]
pub proof fn the_dot_runs_clockwise(angle: int)
    ensures
        corner_spec(0) == (180 - 11int, 180 - 128 - 11int),
        corner_spec(90) == (180 + 128 - 11int, 180 - 11int),
        corner_spec(angle + 90).0 - 169 == 169 - corner_spec(angle).1,
        corner_spec(angle + 90).1 - 169 == corner_spec(angle).0 - 169,
{
    quarters_are_exact();
    sine_turns(angle);
    assert(angle + 90 + 90 == angle + 180);
}

/// The dot stands less than a pixel from where the sine and the cosine put its middle, and never
/// further out than they do.
#[verifier::spinoff_prover]
pub proof fn the_dot_follows_the_sine(angle: int)
    ensures
        -1024 < 1024 * (corner_spec(angle).0 - 169) - 128 * sin_spec(angle) < 1024,
        -1024 < 1024 * (169 - corner_spec(angle).1) - 128 * sin_spec(angle + 90) < 1024,
        sin_spec(angle) >= 0 ==> 169 <= corner_spec(angle).0 && 8 * (corner_spec(angle).0 - 169)
            <= sin_spec(angle),
        sin_spec(angle) <= 0 ==> corner_spec(angle).0 <= 169 && sin_spec(angle) <= 8 * (corner_spec(
            angle,
        ).0 - 169),
{
}

} // verus!
