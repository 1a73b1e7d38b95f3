//! Text that is shown or logged: numbers in decimal and hexadecimal, and the clipping that keeps
//! a line on the screen.

use vstd::prelude::*;
use vstd::string::*;

verus! {

/// The character for a digit from 0 to 15, letters in capitals.
pub open spec fn digit(d: int) -> char {
    if d < 10 {
        (48 + d) as char
    } else {
        (55 + d) as char
    }
}

/// `n` in decimal, without leading zeros.
pub open spec fn decimal(n: nat) -> Seq<char>
    decreases n,
{
    if n < 10 {
        seq![digit(n as int)]
    } else {
        decimal(n / 10).push(digit((n % 10) as int))
    }
}

/// `n` in decimal, with a minus sign below zero.
pub open spec fn signed(n: int) -> Seq<char> {
    if n < 0 {
        seq!['-'] + decimal((-n) as nat)
    } else {
        decimal(n as nat)
    }
}

/// A byte as two hexadecimal digits.
pub open spec fn hex2(b: int) -> Seq<char> {
    seq![digit(b / 16), digit(b % 16)]
}

/// The one-character text of a digit.
pub fn digit_text(d: u8) -> (r: &'static str)
    requires
        d < 16,
    ensures
        r@ == seq![digit(d as int)],
{
    proof {
        reveal_strlit("0");
        reveal_strlit("1");
        reveal_strlit("2");
        reveal_strlit("3");
        reveal_strlit("4");
        reveal_strlit("5");
        reveal_strlit("6");
        reveal_strlit("7");
        reveal_strlit("8");
        reveal_strlit("9");
        reveal_strlit("A");
        reveal_strlit("B");
        reveal_strlit("C");
        reveal_strlit("D");
        reveal_strlit("E");
        reveal_strlit("F");
    }
    match d {
        0 => "0",
        1 => "1",
        2 => "2",
        3 => "3",
        4 => "4",
        5 => "5",
        6 => "6",
        7 => "7",
        8 => "8",
        9 => "9",
        10 => "A",
        11 => "B",
        12 => "C",
        13 => "D",
        14 => "E",
        _ => "F",
    }
}

/// Appends `n` in decimal.
pub fn push_decimal(out: &mut String, n: u64)
    ensures
        final(out)@ == old(out)@ + decimal(n as nat),
    decreases n,
{
    if n < 10 {
        out.append(digit_text(n as u8));
    } else {
        push_decimal(out, n / 10);
        out.append(digit_text((n % 10) as u8));
    }
}

/// Appends `n` in decimal, with a minus sign below zero.
pub fn push_signed(out: &mut String, n: i64)
    ensures
        final(out)@ == old(out)@ + signed(n as int),
{
    if n < 0 {
        proof {
            reveal_strlit("-");
        }
        out.append("-");
        if n == i64::MIN {
            push_decimal(out, 0x8000_0000_0000_0000);
        } else {
            push_decimal(out, (-n) as u64);
        }
    } else {
        push_decimal(out, n as u64);
    }
}

/// Appends a byte as two hexadecimal digits.
pub fn push_hex2(out: &mut String, b: u8)
    ensures
        final(out)@ == old(out)@ + hex2(b as int),
{
    out.append(digit_text(b / 16));
    out.append(digit_text(b % 16));
}

/// The character for a digit from 0 to 15, letters in lower case.
pub open spec fn small_digit(d: int) -> char {
    if d < 10 {
        (48 + d) as char
    } else {
        (87 + d) as char
    }
}

/// Bytes as two lower-case hexadecimal digits each.
pub open spec fn small_hex(bytes: Seq<u8>) -> Seq<char>
    decreases bytes.len(),
{
    if bytes.len() == 0 {
        Seq::empty()
    } else {
        small_hex(bytes.drop_last()) + seq![
            small_digit(bytes.last() as int / 16),
            small_digit(bytes.last() as int % 16),
        ]
    }
}

fn small_digit_text(d: u8) -> (r: &'static str)
    requires
        d < 16,
    ensures
        r@ == seq![small_digit(d as int)],
{
    proof {
        reveal_strlit("a");
        reveal_strlit("b");
        reveal_strlit("c");
        reveal_strlit("d");
        reveal_strlit("e");
        reveal_strlit("f");
    }
    match d {
        10 => "a",
        11 => "b",
        12 => "c",
        13 => "d",
        14 => "e",
        15 => "f",
        _ => digit_text(d),
    }
}

/// A byte the way a register is written: `0x` and two lower-case hexadecimal digits.
pub open spec fn register(b: u8) -> Seq<char> {
    "0x"@ + small_hex(seq![b])
}

/// Appends a byte the way a register is written.
pub fn push_register(out: &mut String, b: u8)
    ensures
        final(out)@ == old(out)@ + register(b),
{
    out.append("0x");
    let one: [u8; 1] = [b];
    push_small_hex(out, &one);
    assert(one@ =~= seq![b]);
}

/// Appends bytes as two lower-case hexadecimal digits each.
pub fn push_small_hex(out: &mut String, bytes: &[u8])
    ensures
        final(out)@ == old(out)@ + small_hex(bytes@),
{
    let mut i: usize = 0;
    while i < bytes.len()
        invariant
            i <= bytes.len(),
            out@ == old(out)@ + small_hex(bytes@.take(i as int)),
        decreases bytes.len() - i,
    {
        assert(bytes@.take(i + 1).drop_last() =~= bytes@.take(i as int));
        out.append(small_digit_text(bytes[i] / 16));
        out.append(small_digit_text(bytes[i] % 16));
        i = i + 1;
    }
    assert(bytes@.take(i as int) =~= bytes@);
}

/// `n` in decimal, always with a sign.
pub open spec fn plus_signed(n: int) -> Seq<char> {
    if n < 0 {
        signed(n)
    } else {
        seq!['+'] + decimal(n as nat)
    }
}

/// Appends `n` in decimal, always with a sign.
pub fn push_plus_signed(out: &mut String, n: i64)
    ensures
        final(out)@ == old(out)@ + plus_signed(n as int),
{
    if n >= 0 {
        proof {
            reveal_strlit("+");
        }
        out.append("+");
    }
    push_signed(out, n);
}

/// Thousandths as a number with one decimal, cut rather than rounded.
pub open spec fn thousandths(n: nat) -> Seq<char> {
    decimal(n / 1000) + "."@ + decimal(n % 1000 / 100)
}

/// Appends thousandths as a number with one decimal.
pub fn push_thousandths(out: &mut String, n: u64)
    ensures
        final(out)@ == old(out)@ + thousandths(n as nat),
{
    push_decimal(out, n / 1000);
    out.append(".");
    push_decimal(out, n % 1000 / 100);
}

/// A Bluetooth address as people read it: the six bytes from the last to the first, in
/// hexadecimal, with colons between them.
pub open spec fn address_text(address: Seq<u8>) -> Seq<char>
    decreases address.len(),
{
    if address.len() == 0 {
        Seq::empty()
    } else if address.len() == 1 {
        hex2(address[0] as int)
    } else {
        hex2(address.last() as int) + ":"@ + address_text(address.drop_last())
    }
}

fn push_address_from(out: &mut String, address: &[u8; 6], n: usize)
    requires
        0 < n <= 6,
    ensures
        final(out)@ == old(out)@ + address_text(address@.take(n as int)),
    decreases n,
{
    push_hex2(out, address[n - 1]);
    if n > 1 {
        out.append(":");
        assert(address@.take(n as int).drop_last() =~= address@.take(n - 1));
        push_address_from(out, address, n - 1);
    }
}

/// Appends a Bluetooth address.
pub fn push_address(out: &mut String, address: &[u8; 6])
    ensures
        final(out)@ == old(out)@ + address_text(address@),
{
    push_address_from(out, address, 6);
    assert(address@.take(6) =~= address@);
}

/// `core::str::from_utf8` of std: the text that UTF-8 bytes encode, and nothing for bytes that
/// are not UTF-8.
#[verifier::external_body]
pub(crate) fn from_utf8<'a>(bytes: &'a [u8]) -> (r: Option<&'a str>)
    ensures
        r is Some <==> vstd::utf8::valid_utf8(bytes@),
        r is Some ==> r->0@ == vstd::utf8::decode_utf8(bytes@),
{
    core::str::from_utf8(bytes).ok()
}

/// What UTF-8 bytes encode, or another text for bytes that are not UTF-8.
pub open spec fn utf8_or(bytes: Seq<u8>, otherwise: Seq<char>) -> Seq<char> {
    if vstd::utf8::valid_utf8(bytes) {
        vstd::utf8::decode_utf8(bytes)
    } else {
        otherwise
    }
}

/// The text that UTF-8 bytes encode, or `otherwise`.
pub fn text_or(bytes: &[u8], otherwise: &str) -> (r: String)
    ensures
        r@ == utf8_or(bytes@, otherwise@),
{
    match from_utf8(bytes) {
        Some(text) => text.to_owned(),
        None => otherwise.to_owned(),
    }
}

/// `text` cut to `chars` characters, the last of them a `~` where something was cut.
pub open spec fn clipped(text: Seq<char>, chars: nat) -> Seq<char> {
    if text.len() <= chars {
        text
    } else {
        text.take(if chars == 0 { 0 } else { chars - 1 }).push('~')
    }
}

/// Cuts `text` to `chars` characters, with a `~` for what is missing.
pub fn clip(text: &str, chars: usize) -> (r: String)
    ensures
        r@ == clipped(text@, chars as nat),
{
    if text.unicode_len() <= chars {
        text.to_owned()
    } else {
        let kept: usize = chars.saturating_sub(1);
        let mut out = text.substring_char(0, kept).to_owned();
        proof {
            reveal_strlit("~");
        }
        out.append("~");
        out
    }
}

/// However long the text, what `clip` leaves is at most `chars` characters wide, and one where
/// no room was asked for; a text that fits is left alone.
pub proof fn clipped_fits(text: Seq<char>, chars: nat)
    ensures
        chars > 0 ==> clipped(text, chars).len() <= chars,
        clipped(text, chars).len() <= 1 || clipped(text, chars).len() <= chars,
        text.len() <= chars ==> clipped(text, chars) == text,
{
}

/// The number that decimal digits stand for.
pub open spec fn number(text: Seq<char>) -> int
    decreases text.len(),
{
    if text.len() == 0 {
        0
    } else {
        number(text.drop_last()) * 10 + (text.last() as int - 48)
    }
}

/// A number in decimal reads back as itself; it is made of decimal digits, has at least one, and
/// none of them a zero in front.
#[verifier::spinoff_prover]
pub proof fn a_decimal_reads_back(n: nat)
    ensures
        number(decimal(n)) == n,
        decimal(n).len() > 0,
        decimal(n)[0] == '0' <==> n == 0,
        n == 0 ==> decimal(n).len() == 1,
        forall|i: int| 0 <= i < decimal(n).len() ==> '0' <= #[trigger] decimal(n)[i] <= '9',
    decreases n,
{
    if n < 10 {
        assert(decimal(n) =~= seq![digit(n as int)]);
        assert(decimal(n).drop_last() =~= Seq::<char>::empty());
        assert(number(decimal(n)) == number(Seq::<char>::empty()) * 10 + n);
    } else {
        a_decimal_reads_back(n / 10);
        assert(decimal(n).drop_last() =~= decimal(n / 10));
        assert(decimal(n)[0] == decimal(n / 10)[0]);
        assert forall|i: int| 0 <= i < decimal(n).len() implies '0' <= #[trigger] decimal(n)[i]
            <= '9' by {
            if i < decimal(n).len() - 1 {
                assert(decimal(n)[i] == decimal(n / 10)[i]);
            }
        }
    }
}

/// Two numbers never look the same.
pub proof fn decimals_differ(n: nat, m: nat)
    requires
        n != m,
    ensures
        decimal(n) != decimal(m),
{
    a_decimal_reads_back(n);
    a_decimal_reads_back(m);
}

/// A sign stands in front where it is due and the size of the number after it: a minus below zero
/// in both forms, and a plus for all others only where a sign is always wanted.
pub proof fn signs_stand_in_front(n: int)
    ensures
        n >= 0 ==> signed(n) == decimal(n as nat),
        n >= 0 ==> plus_signed(n) == seq!['+'] + decimal(n as nat),
        n < 0 ==> signed(n) == seq!['-'] + decimal((0 - n) as nat),
        n < 0 ==> plus_signed(n) == signed(n),
{
}

/// What a hexadecimal digit is worth, in capitals or not.
pub open spec fn hex_worth(c: char) -> int {
    if c <= '9' {
        c as int - 48
    } else if c <= 'F' {
        c as int - 55
    } else {
        c as int - 87
    }
}

/// A byte in hexadecimal reads back as itself, from two digits in capitals.
#[verifier::spinoff_prover]
pub proof fn a_hex_byte_reads_back(b: u8)
    ensures
        hex2(b as int).len() == 2,
        hex_worth(hex2(b as int)[0]) * 16 + hex_worth(hex2(b as int)[1]) == b,
        forall|i: int|
            0 <= i < 2 ==> '0' <= #[trigger] hex2(b as int)[i] <= '9' || 'A' <= hex2(b as int)[i]
                <= 'F',
{
}

/// Bytes in lower-case hexadecimal read back as themselves, two digits each and in their order.
#[verifier::spinoff_prover]
pub proof fn small_hex_reads_back(bytes: Seq<u8>, n: int)
    requires
        0 <= n < bytes.len(),
    ensures
        small_hex(bytes).len() == 2 * bytes.len(),
        hex_worth(small_hex(bytes)[2 * n]) * 16 + hex_worth(small_hex(bytes)[2 * n + 1])
            == bytes[n],
        small_hex(bytes)[2 * n] <= '9' || 'a' <= small_hex(bytes)[2 * n] <= 'f',
        small_hex(bytes)[2 * n + 1] <= '9' || 'a' <= small_hex(bytes)[2 * n + 1] <= 'f',
    decreases bytes.len(),
{
    let rest = bytes.drop_last();
    if rest.len() > 0 {
        small_hex_reads_back(
            rest,
            if n < rest.len() {
                n
            } else {
                0
            },
        );
    } else {
        assert(small_hex(rest).len() == 0);
    }
    assert(small_hex(bytes).len() == small_hex(rest).len() + 2);
    if n < rest.len() {
        assert(small_hex(bytes)[2 * n] == small_hex(rest)[2 * n]);
        assert(small_hex(bytes)[2 * n + 1] == small_hex(rest)[2 * n + 1]);
    }
}

/// An address is read from its last byte to its first, two digits each, with a colon between any
/// two.
pub proof fn an_address_reads_backwards(address: Seq<u8>, n: int)
    requires
        0 <= n < address.len(),
    ensures
        address_text(address).len() == 3 * address.len() - 1,
        address_text(address).subrange(3 * n, 3 * n + 2) == hex2(
            address[address.len() - 1 - n] as int,
        ),
        n + 1 < address.len() ==> address_text(address)[3 * n + 2] == ':',
    decreases address.len(),
{
    reveal_strlit(":");
    let text = address_text(address);
    let rest = address.drop_last();
    if rest.len() > 0 {
        an_address_reads_backwards(
            rest,
            if n > 0 {
                n - 1
            } else {
                0
            },
        );
        assert(text =~= hex2(address.last() as int) + ":"@ + address_text(rest));
        if n > 0 {
            assert(text.subrange(3 * n, 3 * n + 2) =~= address_text(rest).subrange(
                3 * (n - 1),
                3 * (n - 1) + 2,
            ));
            if n + 1 < address.len() {
                assert(text[3 * n + 2] == address_text(rest)[3 * (n - 1) + 2]);
            }
        } else {
            assert(text.subrange(0, 2) =~= hex2(address.last() as int));
        }
    } else {
        assert(text.subrange(0, 2) =~= hex2(address[0] as int));
    }
}

/// Thousandths are written as the whole ones, a point and one digit, and what is written is never
/// more than the number and less than a tenth below it.
#[verifier::spinoff_prover]
pub proof fn thousandths_are_cut(n: nat)
    ensures
        exists|whole: nat, tenth: nat|
            tenth < 10 && thousandths(n) == #[trigger] decimal(whole) + "."@ + #[trigger] decimal(
                tenth,
            ) && 1000 * whole + 100 * tenth <= n < 1000 * whole + 100 * tenth + 100,
{
    let whole: nat = n / 1000;
    let tenth: nat = n % 1000 / 100;
    assert(thousandths(n) == decimal(whole) + "."@ + decimal(tenth));
    assert(1000 * whole + 100 * tenth <= n < 1000 * whole + 100 * tenth + 100);
}

/// A text that is cut keeps its beginning and ends in a mark that says so.
pub proof fn what_is_cut_says_so(text: Seq<char>, chars: nat)
    requires
        0 < chars < text.len(),
    ensures
        clipped(text, chars).len() == chars,
        clipped(text, chars).drop_last() == text.take(chars - 1),
        clipped(text, chars).last() == '~',
{
}

/// Bytes that encode a text give that text, and only those that do not give the other.
pub proof fn text_is_read_where_there_is_any(bytes: Seq<u8>, otherwise: Seq<char>)
    ensures
        vstd::utf8::valid_utf8(bytes) ==> utf8_or(bytes, otherwise) == vstd::utf8::decode_utf8(bytes),
        !vstd::utf8::valid_utf8(bytes) ==> utf8_or(bytes, otherwise) == otherwise,
{
}

/// A register is a byte in hexadecimal behind its mark.
pub proof fn a_register_reads_back(b: u8)
    ensures
        register(b).take(2) == "0x"@,
        register(b).len() == 4,
        hex_worth(register(b)[2]) * 16 + hex_worth(register(b)[3]) == b,
{
    reveal_strlit("0x");
    small_hex_reads_back(seq![b], 0);
    assert(register(b).take(2) =~= "0x"@);
    assert(register(b)[2] == small_hex(seq![b])[0]);
    assert(register(b)[3] == small_hex(seq![b])[1]);
}

} // verus!
