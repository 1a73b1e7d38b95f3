//! A QR code packed one bit a module, and the name of the build beside it.

use vstd::prelude::*;
use vstd::string::*;

verus! {

/// The weight of a bit in its byte: the first module is the highest bit.
pub open spec fn bit_weight(at: int) -> int {
    if at == 0 {
        128
    } else if at == 1 {
        64
    } else if at == 2 {
        32
    } else if at == 3 {
        16
    } else if at == 4 {
        8
    } else if at == 5 {
        4
    } else if at == 6 {
        2
    } else {
        1
    }
}

/// What a module adds to its byte. Past the end nothing is dark.
pub open spec fn share(modules: Seq<bool>, at: int) -> int {
    if at < modules.len() && modules[at] {
        bit_weight(at % 8)
    } else {
        0
    }
}

/// The byte of eight modules.
pub open spec fn byte_of(modules: Seq<bool>, byte: int) -> int {
    share(modules, byte * 8) + share(modules, byte * 8 + 1) + share(modules, byte * 8 + 2) + share(
        modules,
        byte * 8 + 3,
    ) + share(modules, byte * 8 + 4) + share(modules, byte * 8 + 5) + share(modules, byte * 8 + 6)
        + share(modules, byte * 8 + 7)
}

fn if_dark(modules: &Vec<bool>, at: usize, weight: u8) -> (r: u8)
    requires
        weight == bit_weight(at as int % 8),
    ensures
        r == share(modules@, at as int),
        r <= weight,
{
    if at < modules.len() && modules[at] {
        weight
    } else {
        0
    }
}

/// Packs the modules of a code, row by row, eight to a byte.
pub fn pack(modules: &Vec<bool>) -> (r: Vec<u8>)
    requires
        modules@.len() <= usize::MAX - 15,
    ensures
        r@.len() == (modules@.len() + 7) / 8,
        forall|i: int| 0 <= i < r@.len() ==> #[trigger] r@[i] == byte_of(modules@, i),
{
    let mut r: Vec<u8> = Vec::new();
    let bytes: usize = (modules.len() + 7) / 8;
    while r.len() < bytes
        invariant
            r@.len() <= bytes,
            bytes == (modules@.len() + 7) / 8,
            modules@.len() <= usize::MAX - 15,
            forall|i: int| 0 <= i < r@.len() ==> #[trigger] r@[i] == byte_of(modules@, i),
        decreases bytes - r@.len(),
    {
        let at: usize = r.len() * 8;
        let high: u8 = if_dark(modules, at, 128) + if_dark(modules, at + 1, 64) + if_dark(
            modules,
            at + 2,
            32,
        ) + if_dark(modules, at + 3, 16);
        let low: u8 = if_dark(modules, at + 4, 8) + if_dark(modules, at + 5, 4) + if_dark(
            modules,
            at + 6,
            2,
        ) + if_dark(modules, at + 7, 1);
        r.push(high + low);
    }
    r
}

/// Whether a module is dark, read back from the packed bytes.
pub open spec fn dark(packed: Seq<u8>, at: int) -> bool {
    packed[at / 8] as int / bit_weight(at % 8) % 2 == 1
}

/// Every module reads back as it was packed.
pub proof fn a_packed_code_reads_back(modules: Seq<bool>, packed: Seq<u8>, at: int)
    requires
        packed.len() == (modules.len() + 7) / 8,
        forall|i: int| 0 <= i < packed.len() ==> #[trigger] packed[i] == byte_of(modules, i),
        0 <= at < modules.len(),
    ensures
        dark(packed, at) == modules[at],
{
    let byte = at / 8;
    assert(packed[byte] == byte_of(modules, byte));
    let s = byte_of(modules, byte);
    let k = at % 8;
    assert(at == byte * 8 + k);
    let b = |j: int| if byte * 8 + j < modules.len() && modules[byte * 8 + j] {
        1int
    } else {
        0
    };
    assert(s == 128 * b(0) + 64 * b(1) + 32 * b(2) + 16 * b(3) + 8 * b(4) + 4 * b(5) + 2 * b(6) + b(
        7,
    ));
    assert(s / 128 % 2 == b(0));
    assert(s / 64 % 2 == b(1));
    assert(s / 32 % 2 == b(2));
    assert(s / 16 % 2 == b(3));
    assert(s / 8 % 2 == b(4));
    assert(s / 4 % 2 == b(5));
    assert(s / 2 % 2 == b(6));
    assert(s % 2 == b(7));
}

/// The name of a build: the commit it was made from, marked where the files differ from it.
pub fn commit(hash: Option<String>, dirty: bool) -> (r: String)
    ensures
        r@ == (match hash {
            None => "unknown"@,
            Some(hash) => if dirty {
                hash@ + "+"@
            } else {
                hash@
            },
        }),
{
    match hash {
        None => "unknown".to_owned(),
        Some(hash) => {
            let mut r = hash;
            if dirty {
                r.append("+");
            }
            r
        },
    }
}

/// The first of eight modules is the highest bit, and each after it worth half.
pub proof fn the_first_module_is_the_highest_bit(at: int)
    requires
        0 <= at < 7,
    ensures
        bit_weight(0) == 128,
        bit_weight(7) == 1,
        bit_weight(at) == 2 * bit_weight(at + 1),
{
}

/// A byte is dark exactly where its modules are, and past the last module not at all.
#[verifier::spinoff_prover]
pub proof fn a_byte_is_its_dark_modules(modules: Seq<bool>, at: int)
    requires
        0 <= at,
    ensures
        at < modules.len() && modules[at] ==> share(modules, at) == bit_weight(at % 8),
        at < modules.len() && !modules[at] ==> share(modules, at) == 0,
        at >= modules.len() ==> share(modules, at) == 0,
        0 <= byte_of(modules, at) < 256,
{
}

} // verus!
