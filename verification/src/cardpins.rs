//! Looking for the memory card's pins by asking every possible assignment for an answer.

use vstd::prelude::*;

verus! {

/// The pins tried, by number: first those held high from outside, then those that float.
pub const NUMBERS: [u8; 11] = [1, 2, 3, 5, 6, 39, 42, 4, 40, 41, 48];

/// How many assignments there are.
pub const ASSIGNMENTS: usize = 840;

/// Bytes clocked out before the card is selected, which puts it into the mode asked for here.
pub const WAKING_BYTES: u8 = 10;

/// How many bytes a response is waited for.
pub const PATIENCE: u8 = 10;

/// Which pin, by its place in the list, takes which role.
#[derive(Clone, Copy, Debug, PartialEq, Eq, Structural)]
pub struct Assignment {
    pub clk: usize,
    pub cs: usize,
    pub mosi: usize,
    pub miso: usize,
}

impl Assignment {
    /// The clock floats, the others are held high, and no pin has two roles.
    pub open spec fn wf(self) -> bool {
        &&& 7 <= self.clk < 11
        &&& self.cs < 7
        &&& self.mosi < 7
        &&& self.miso < 7
        &&& self.cs != self.mosi
        &&& self.cs != self.miso
        &&& self.mosi != self.miso
    }

    /// Whether an assignment is tried before another: by the clock first, then the others in
    /// turn.
    pub open spec fn before(self, other: Self) -> bool {
        ||| self.clk < other.clk
        ||| self.clk == other.clk && self.cs < other.cs
        ||| self.clk == other.clk && self.cs == other.cs && self.mosi < other.mosi
        ||| self.clk == other.clk && self.cs == other.cs && self.mosi == other.mosi && self.miso
            < other.miso
    }
}

/// The `n`th place that is not `taken`.
pub open spec fn other_than(n: int, taken: int) -> int {
    if n < taken {
        n
    } else {
        n + 1
    }
}

/// The `n`th place that is neither of two.
pub open spec fn other_than_both(n: int, a: int, b: int) -> int {
    if a < b {
        other_than(other_than(n, a), b)
    } else {
        other_than(other_than(n, b), a)
    }
}

/// The `n`th assignment tried.
pub open spec fn assignment_spec(n: int) -> Assignment {
    let cs = n % 210 / 30;
    let mosi = other_than(n % 30 / 5, cs);
    Assignment {
        clk: (7 + n / 210) as usize,
        cs: cs as usize,
        mosi: mosi as usize,
        miso: other_than_both(n % 5, cs, mosi) as usize,
    }
}

fn skip(n: usize, taken: usize) -> (r: usize)
    requires
        n < 7,
    ensures
        r == other_than(n as int, taken as int),
{
    if n < taken {
        n
    } else {
        n + 1
    }
}

/// The `n`th assignment tried; `None` once all were.
pub fn assignment(n: usize) -> (r: Option<Assignment>)
    ensures
        r == (if n < 840 {
            Some(assignment_spec(n as int))
        } else {
            None
        }),
        r is Some ==> r->0.wf(),
{
    if n >= ASSIGNMENTS {
        return None;
    }
    let cs: usize = n % 210 / 30;
    let mosi: usize = skip(n % 30 / 5, cs);
    let miso: usize = if cs < mosi {
        skip(skip(n % 5, cs), mosi)
    } else {
        skip(skip(n % 5, mosi), cs)
    };
    Some(Assignment { clk: 7 + n / 210, cs, mosi, miso })
}

/// Assignments are tried in order, and none twice.
pub proof fn assignments_come_in_order(n: int, m: int)
    requires
        0 <= n < m < 840,
    ensures
        assignment_spec(n).before(assignment_spec(m)),
{
    let a = assignment_spec(n);
    let b = assignment_spec(m);
    assert(n == n / 210 * 210 + n % 210);
    assert(m == m / 210 * 210 + m % 210);
    assert(n % 210 == n % 210 / 30 * 30 + n % 210 % 30);
    assert(m % 210 == m % 210 / 30 * 30 + m % 210 % 30);
    assert(n % 210 % 30 == n % 30 && m % 210 % 30 == m % 30);
    assert(n % 30 == n % 30 / 5 * 5 + n % 30 % 5);
    assert(m % 30 == m % 30 / 5 * 5 + m % 30 % 5);
    assert(n % 30 % 5 == n % 5 && m % 30 % 5 == m % 5);
}

/// Where an assignment stands in the order.
pub open spec fn number_of(a: Assignment) -> int {
    let mosi = if a.mosi < a.cs {
        a.mosi as int
    } else {
        a.mosi - 1
    };
    let below = (if a.cs < a.miso {
        1int
    } else {
        0
    }) + (if a.mosi < a.miso {
        1int
    } else {
        0
    });
    (a.clk - 7) * 210 + a.cs * 30 + mosi * 5 + (a.miso - below)
}

/// Every possible assignment is tried.
pub proof fn every_assignment_is_tried(a: Assignment)
    requires
        a.wf(),
    ensures
        0 <= number_of(a) < 840,
        assignment_spec(number_of(a)) == a,
{
    let n = number_of(a);
    let low = n - (a.clk - 7) * 210 - a.cs * 30;
    let last = low % 5;
    assert(0 <= low < 30);
    assert(n / 210 == a.clk - 7);
    assert(n % 210 == a.cs * 30 + low);
    assert(n % 210 / 30 == a.cs);
    assert(n % 30 == low);
    assert(n % 5 == last);
}

/// The weight of the `i`th bit sent of a byte: the highest goes first.
pub open spec fn weight(i: int) -> int {
    if i == 0 {
        128
    } else if i == 1 {
        64
    } else if i == 2 {
        32
    } else if i == 3 {
        16
    } else if i == 4 {
        8
    } else if i == 5 {
        4
    } else if i == 6 {
        2
    } else {
        1
    }
}

/// The bits of a byte, in the order they are sent.
pub open spec fn bits_spec(byte: u8) -> Seq<bool> {
    Seq::new(8, |i: int| byte as int / weight(i) % 2 == 1)
}

/// The levels the data line takes while a byte goes out.
pub fn bits(byte: u8) -> (r: [bool; 8])
    ensures
        r@ == bits_spec(byte),
{
    let r = [
        byte / 128 % 2 == 1,
        byte / 64 % 2 == 1,
        byte / 32 % 2 == 1,
        byte / 16 % 2 == 1,
        byte / 8 % 2 == 1,
        byte / 4 % 2 == 1,
        byte / 2 % 2 == 1,
        byte % 2 == 1,
    ];
    assert(r@ =~= bits_spec(byte));
    r
}

/// What a bit read adds to the byte.
pub open spec fn worth(levels: Seq<bool>, i: int) -> int {
    if levels[i] {
        weight(i)
    } else {
        0
    }
}

/// The byte that the levels read of the other data line are.
pub open spec fn byte_spec(levels: Seq<bool>) -> int {
    worth(levels, 0) + worth(levels, 1) + worth(levels, 2) + worth(levels, 3) + worth(levels, 4)
        + worth(levels, 5) + worth(levels, 6) + worth(levels, 7)
}

fn if_set(level: bool, weight: u8) -> (r: u8)
    ensures
        r == (if level {
            weight
        } else {
            0
        }),
{
    if level {
        weight
    } else {
        0
    }
}

pub fn byte(levels: &[bool; 8]) -> (r: u8)
    ensures
        r == byte_spec(levels@),
{
    if_set(levels[0], 128) + if_set(levels[1], 64) + if_set(levels[2], 32) + if_set(levels[3], 16)
        + if_set(levels[4], 8) + if_set(levels[5], 4) + if_set(levels[6], 2) + if_set(levels[7], 1)
}

/// A byte sent over a line that hands every level back arrives unchanged.
pub proof fn a_byte_arrives_unchanged(byte: u8)
    ensures
        byte_spec(bits_spec(byte)) == byte,
{
    let b = byte as int;
    let h = b / 16;
    let l = b % 16;
    assert(b == 16 * h + l);
    assert(b / 128 == h / 8 && b / 64 == h / 4 && b / 32 == h / 2);
    assert(b / 8 % 2 == l / 8 % 2 && b / 4 % 2 == l / 4 % 2 && b / 2 % 2 == l / 2 % 2 && b % 2 == l
        % 2);
    assert(h == 8 * (h / 8 % 2) + 4 * (h / 4 % 2) + 2 * (h / 2 % 2) + h % 2);
    assert(l == 8 * (l / 8 % 2) + 4 * (l / 4 % 2) + 2 * (l / 2 % 2) + l % 2);
}

/// The bytes of a command, the idle byte in front of it included.
pub fn command(index: u8, argument: u32, crc: u8) -> (r: [u8; 7])
    ensures
        r@ == seq![
            0xFFu8,
            0x40u8 | index,
            (argument / 0x100_0000) as u8,
            (argument / 0x1_0000 % 256) as u8,
            (argument / 0x100 % 256) as u8,
            (argument % 256) as u8,
            crc,
        ],
{
    let r = [
        0xFFu8,
        0x40u8 | index,
        (argument / 0x100_0000) as u8,
        (argument / 0x1_0000 % 256) as u8,
        (argument / 0x100 % 256) as u8,
        (argument % 256) as u8,
        crc,
    ];
    assert(r@ =~= seq![
        0xFFu8,
        0x40u8 | index,
        (argument / 0x100_0000) as u8,
        (argument / 0x1_0000 % 256) as u8,
        (argument / 0x100 % 256) as u8,
        (argument % 256) as u8,
        crc,
    ]);
    r
}

/// What a byte read after a command settles, by how many were read before it: a byte with its
/// top bit clear is the response, and ten without one are silence, told as 0xFF.
pub open spec fn response_spec(before: int, byte: u8) -> Option<u8> {
    if byte < 0x80 {
        Some(byte)
    } else if before >= 9 {
        Some(0xFF)
    } else {
        None
    }
}

pub fn response(before: u8, byte: u8) -> (r: Option<u8>)
    ensures
        r == response_spec(before as int, byte),
{
    if byte < 0x80 {
        Some(byte)
    } else if before >= PATIENCE - 1 {
        Some(0xFF)
    } else {
        None
    }
}

/// What a command's response is, by all the bytes that would be read.
pub open spec fn heard(bytes: Seq<u8>, before: int) -> u8
    decreases 10 - before,
{
    if before >= 10 {
        0xFF
    } else {
        match response_spec(before, bytes[before]) {
            Some(r1) => r1,
            None => heard(bytes, before + 1),
        }
    }
}

/// A response is the first byte with its top bit clear, and a card that has none among ten bytes
/// is silent.
pub proof fn the_first_clear_byte_is_the_response(bytes: Seq<u8>, before: int, at: int)
    requires
        0 <= before <= at <= 10,
        forall|i: int| before <= i < at ==> bytes[i] >= 0x80,
        at < 10 ==> bytes[at] < 0x80,
    ensures
        heard(bytes, before) == (if at < 10 {
            bytes[at]
        } else {
            0xFFu8
        }),
    decreases 10 - before,
{
    if before < at {
        the_first_clear_byte_is_the_response(bytes, before + 1, at);
    }
}

/// Whether a response to the first command is a card's: idle, and nothing wrong.
pub fn is_card(r1: u8) -> (r: bool)
    ensures
        r == (r1 == 0x01),
{
    r1 == 0x01
}

/// The highest bit of a byte goes first, and each after it is worth half.
#[verifier::spinoff_prover]
pub proof fn the_highest_bit_goes_first(byte: u8, i: int)
    requires
        0 <= i < 7,
    ensures
        weight(0) == 128,
        weight(7) == 1,
        weight(i) == 2 * weight(i + 1),
        bits_spec(byte)[0] <==> byte >= 128,
        bits_spec(byte)[7] <==> byte % 2 == 1,
{
}

/// A byte with its top bit clear settles a response at once, and is it; any other leaves it open until
/// the tenth, which settles it as silence.
pub proof fn a_response_is_waited_for(before: int, byte: u8)
    ensures
        byte < 0x80 ==> response_spec(before, byte) == Some(byte),
        byte >= 0x80 && before < 9 ==> response_spec(before, byte) is None,
        byte >= 0x80 && before >= 9 ==> response_spec(before, byte) == Some(0xFFu8),
{
}

} // verus!
