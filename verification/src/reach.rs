//! How far into the external RAM a transfer reads: every block is filled with its own address,
//! read back and compared, and the boundary between good and bad is narrowed down.

use vstd::prelude::*;

verus! {

/// Bytes read in one go.
pub const BLOCK: usize = 4096;

/// How far apart the blocks of the sweep are.
pub const STRIDE: usize = 65536;

/// The bytes of a number, the low byte first.
pub open spec fn little_endian(n: u32, i: int) -> u8 {
    if i == 0 {
        (n % 256) as u8
    } else if i == 1 {
        (n / 256 % 256) as u8
    } else if i == 2 {
        (n / 65536 % 256) as u8
    } else {
        (n / 16777216) as u8
    }
}

/// A block filled with its own address: each word is the address changed by its place.
pub open spec fn filled(base: u32, len: nat) -> Seq<u8> {
    Seq::new(len, |i: int| little_endian(base ^ ((i / 4) as u32), i % 4))
}

/// Bytes of a block that are whole words.
pub open spec fn whole_words(len: int) -> int {
    len / 4 * 4
}

/// Fills the words of a block with its own address. Bytes past the last whole word are left.
pub fn fill_block(base: u32, block: &mut [u8])
    ensures
        final(block)@ == filled(base, whole_words(old(block)@.len() as int) as nat)
            + old(block)@.skip(whole_words(old(block)@.len() as int)),
{
    let ghost before = block@;
    let len: usize = block.len() / 4 * 4;
    let mut i: usize = 0;
    while i < len
        invariant
            i <= len,
            len == whole_words(before.len() as int),
            block@.len() == before.len(),
            i % 4 == 0,
            forall|k: int|
                0 <= k < i ==> block@[k] == little_endian(base ^ ((k / 4) as u32), k % 4),
            forall|k: int| i <= k < before.len() ==> block@[k] == before[k],
        decreases len - i,
    {
        let word: u32 = base ^ ((i / 4) as u32);
        block[i] = (word % 256) as u8;
        block[i + 1] = (word / 256 % 256) as u8;
        block[i + 2] = (word / 65536 % 256) as u8;
        block[i + 3] = (word / 16777216) as u8;
        i = i + 4;
    }
    assert(block@ =~= filled(base, len as nat) + before.skip(len as int));
}

/// The word at a place of a block.
pub open spec fn word_at(bytes: Seq<u8>, n: int) -> u32 {
    (bytes[n * 4] + 256 * bytes[n * 4 + 1] + 65536 * bytes[n * 4 + 2] + 16777216 * bytes[n * 4
        + 3]) as u32
}

/// Whether the word at a place is not the block's own.
pub open spec fn is_wrong(bytes: Seq<u8>, base: u32, n: int) -> bool {
    word_at(bytes, n) != base ^ (n as u32)
}

/// How many of the first `n` words are wrong.
pub open spec fn wrong_before(bytes: Seq<u8>, base: u32, n: int) -> int
    decreases n,
{
    if n <= 0 {
        0
    } else {
        wrong_before(bytes, base, n - 1) + (if is_wrong(bytes, base, n - 1) {
            1int
        } else {
            0
        })
    }
}

/// The address that the first wrong of the first `n` words says it came from.
pub open spec fn said_before(bytes: Seq<u8>, base: u32, n: int) -> Option<u32>
    decreases n,
{
    if n <= 0 {
        None
    } else if said_before(bytes, base, n - 1) is Some {
        said_before(bytes, base, n - 1)
    } else if is_wrong(bytes, base, n - 1) {
        Some(word_at(bytes, n - 1) ^ ((n - 1) as u32))
    } else {
        None
    }
}

/// What came back of a block.
#[derive(Clone, Copy, Debug, PartialEq, Eq, Structural)]
pub struct Landed {
    /// How many words are wrong.
    pub wrong: usize,
    /// The address the first of them says it came from.
    pub said: Option<u32>,
}

/// Compares what a transfer brought with what the block at `base` holds.
pub fn read_block(landing: &[u8], base: u32) -> (r: Landed)
    ensures
        r.wrong == wrong_before(landing@, base, landing@.len() as int / 4),
        r.said == said_before(landing@, base, landing@.len() as int / 4),
{
    let len: usize = landing.len();
    let words: usize = len / 4;
    let mut wrong: usize = 0;
    let mut said: Option<u32> = None;
    let mut n: usize = 0;
    while n < words
        invariant
            n <= words,
            len == landing@.len(),
            words == len / 4,
            wrong <= n,
            wrong == wrong_before(landing@, base, n as int),
            said == said_before(landing@, base, n as int),
        decreases words - n,
    {
        let value: u32 = landing[n * 4] as u32 + 256 * landing[n * 4 + 1] as u32 + 65536
            * landing[n * 4 + 2] as u32 + 16777216 * landing[n * 4 + 3] as u32;
        assert(value == word_at(landing@, n as int));
        if value != base ^ (n as u32) {
            wrong = wrong + 1;
            if said.is_none() {
                said = Some(value ^ (n as u32));
            }
        }
        n = n + 1;
    }
    Landed { wrong, said }
}

proof fn filled_words(base: u32, len: nat, n: int)
    requires
        0 <= n,
        n * 4 + 4 <= len,
    ensures
        word_at(filled(base, len), n) == base ^ (n as u32),
{
    let b = filled(base, len);
    let w = base ^ (n as u32);
    assert((n * 4) / 4 == n && (n * 4) % 4 == 0);
    assert((n * 4 + 1) / 4 == n && (n * 4 + 1) % 4 == 1);
    assert((n * 4 + 2) / 4 == n && (n * 4 + 2) % 4 == 2);
    assert((n * 4 + 3) / 4 == n && (n * 4 + 3) % 4 == 3);
    assert(w == w % 256 + 256 * (w / 256 % 256) + 65536 * (w / 65536 % 256) + 16777216 * (w
        / 16777216));
}

proof fn none_wrong(base: u32, len: nat, n: int)
    requires
        0 <= n <= len / 4,
    ensures
        wrong_before(filled(base, len), base, n) == 0,
    decreases n,
{
    if n > 0 {
        none_wrong(base, len, n - 1);
        filled_words(base, len, n - 1);
    }
}

/// A block that arrives as it was filled has nothing wrong in it.
pub proof fn a_whole_block_passes(base: u32, len: nat)
    ensures
        wrong_before(filled(base, len), base, len as int / 4) == 0,
{
    none_wrong(base, len, len as int / 4);
}

proof fn all_wrong(base: u32, other: u32, len: nat, n: int)
    requires
        0 <= n <= len / 4,
        base != other,
    ensures
        wrong_before(filled(other, len), base, n) == n,
        n > 0 ==> said_before(filled(other, len), base, n) == Some(other),
    decreases n,
{
    if n > 0 {
        all_wrong(base, other, len, n - 1);
        filled_words(other, len, n - 1);
        let place = (n - 1) as u32;
        assert(base != other ==> other ^ place != base ^ place) by (bit_vector);
        assert((other ^ place) ^ place == other) by (bit_vector);
        if n == 1 {
            assert(said_before(filled(other, len), base, 0) is None);
        }
    }
}

/// A block that arrives from another address is wrong in every word, and says which address that
/// is.
pub proof fn a_misread_block_names_its_source(base: u32, other: u32, len: nat)
    requires
        4 <= len,
        base != other,
    ensures
        wrong_before(filled(other, len), base, len as int / 4) == len / 4,
        said_before(filled(other, len), base, len as int / 4) == Some(other),
{
    all_wrong(base, other, len, len as int / 4);
}

/// The last block that came back whole before the first that did not.
#[derive(Clone, Copy, Debug, PartialEq, Eq, Structural)]
pub struct Sweep {
    pub last_good: Option<usize>,
    pub first_bad: Option<usize>,
}

/// A sweep once a block is taken. Once one was wrong, no later one counts.
pub open spec fn noted(sweep: Sweep, base: usize, good: bool) -> Sweep {
    if sweep.first_bad is Some {
        sweep
    } else if good {
        Sweep { last_good: Some(base), first_bad: None }
    } else {
        Sweep { last_good: sweep.last_good, first_bad: Some(base) }
    }
}

impl Sweep {
    pub fn new() -> (r: Self)
        ensures
            r == (Sweep { last_good: None, first_bad: None }),
    {
        Sweep { last_good: None, first_bad: None }
    }

    /// Takes a block of the sweep.
    pub fn note(&mut self, base: usize, good: bool)
        ensures
            *final(self) == noted(*old(self), base, good),
    {
        if self.first_bad.is_none() {
            if good {
                self.last_good = Some(base);
            } else {
                self.first_bad = Some(base);
            }
        }
    }

    /// What the sweep found.
    pub fn found(&self) -> (r: Found)
        ensures
            r == Found::NoBoundary <==> self.first_bad is None,
            (r matches Found::FirstWrong(bad) ==> self.last_good is None && self.first_bad == Some(bad)),
            (r matches Found::Between(narrow) ==> self.last_good == Some(narrow.good) && self.first_bad
                == Some(narrow.bad)),
            r == (match (self.last_good, self.first_bad) {
                (_, None) => Found::NoBoundary,
                (None, Some(bad)) => Found::FirstWrong(bad),
                (Some(good), Some(bad)) => Found::Between(Narrow { good, bad }),
            }),
    {
        match (self.last_good, self.first_bad) {
            (_, None) => Found::NoBoundary,
            (None, Some(bad)) => Found::FirstWrong(bad),
            (Some(good), Some(bad)) => Found::Between(Narrow { good, bad }),
        }
    }
}

/// The sweep over blocks that read as `reads` says, the first of them at `from`.
pub open spec fn swept(from: int, reads: Seq<bool>) -> Sweep
    decreases reads.len(),
{
    if reads.len() == 0 {
        Sweep { last_good: None, first_bad: None }
    } else {
        noted(
            swept(from, reads.drop_last()),
            (from + (reads.len() - 1) * 65536) as usize,
            reads.last(),
        )
    }
}

/// A boundary found is one: the block below read whole, the block above did not, and they are
/// neighbours of the sweep.
pub proof fn a_boundary_parts_neighbours(from: int, reads: Seq<bool>)
    requires
        from >= 0,
        from + reads.len() * 65536 <= usize::MAX,
    ensures
        swept(from, reads).first_bad is None <==> forall|i: int| 0 <= i < reads.len() ==> reads[i],
        swept(from, reads).first_bad is Some && swept(from, reads).last_good is Some ==> swept(
            from,
            reads,
        ).first_bad->0 == swept(from, reads).last_good->0 + 65536,
        swept(from, reads).first_bad is None && reads.len() > 0 ==> swept(from, reads).last_good
            == Some((from + (reads.len() - 1) * 65536) as usize),
        swept(from, reads).first_bad is None && reads.len() == 0 ==> swept(from, reads).last_good
            is None,
    decreases reads.len(),
{
    if reads.len() > 0 {
        let rest = reads.drop_last();
        a_boundary_parts_neighbours(from, rest);
        assert(forall|i: int| 0 <= i < rest.len() ==> rest[i] == reads[i]);
        if swept(from, rest).first_bad is Some {
            let i = choose|i: int| 0 <= i < rest.len() && !rest[i];
            assert(!reads[i]);
        } else if !reads.last() {
            assert(!reads[reads.len() - 1]);
        }
    }
}

/// Where the block of a round of the sweep lies, from the start; `None` once no whole block is
/// left.
pub fn block_at(round: usize, len: usize) -> (r: Option<usize>)
    requires
        round * 65536 + 4096 <= usize::MAX,
    ensures
        r == (if round * 65536 + 4096 <= len {
            Some((round * 65536) as usize)
        } else {
            None
        }),
{
    let offset: usize = round * STRIDE;
    if offset + BLOCK <= len {
        Some(offset)
    } else {
        None
    }
}

/// What a sweep found.
#[derive(Clone, Copy, Debug, PartialEq, Eq, Structural)]
pub enum Found {
    /// Every block came back whole.
    NoBoundary,
    /// The very first block was wrong.
    FirstWrong(usize),
    /// A boundary between two blocks, to be narrowed.
    Between(Narrow),
}

/// A boundary between a good block and a bad one above it.
#[derive(Clone, Copy, Debug, PartialEq, Eq, Structural)]
pub struct Narrow {
    pub good: usize,
    pub bad: usize,
}

impl Narrow {
    /// The next block to try: halfway, on a whole block; `None` once there is none between.
    pub open spec fn middle_spec(self) -> Option<int> {
        if self.bad - self.good > 4096 && (self.bad - self.good) / 2 / 4096 > 0 {
            Some(self.good + (self.bad - self.good) / 2 / 4096 * 4096)
        } else {
            None
        }
    }

    pub fn middle(&self) -> (r: Option<usize>)
        requires
            self.good < self.bad,
        ensures
            r is Some <==> self.middle_spec() is Some,
            r is Some ==> r->0 == self.middle_spec()->0,
            r is Some ==> self.good < r->0 < self.bad,
    {
        let gap: usize = self.bad - self.good;
        if gap <= BLOCK {
            return None;
        }
        let up: usize = gap / 2 / BLOCK * BLOCK;
        if up == 0 {
            None
        } else {
            Some(self.good + up)
        }
    }

    /// Takes how the block halfway read.
    pub fn feed(&mut self, middle: usize, good: bool)
        requires
            old(self).good < middle < old(self).bad,
        ensures
            *final(self) == (if good {
                Narrow { good: middle, bad: old(self).bad }
            } else {
                Narrow { good: old(self).good, bad: middle }
            }),
            final(self).good < final(self).bad,
            final(self).bad - final(self).good < old(self).bad - old(self).good,
    {
        if good {
            self.good = middle;
        } else {
            self.bad = middle;
        }
    }
}

/// While the two ends lie whole blocks apart they stay so, and once there is nothing left to try
/// they are neighbours.
pub proof fn narrowing_ends_at_neighbours(narrow: Narrow)
    requires
        narrow.good < narrow.bad,
        (narrow.bad - narrow.good) % 4096 == 0,
    ensures
        narrow.middle_spec() is None ==> narrow.bad - narrow.good == 4096,
        (narrow.middle_spec() matches Some(middle) ==> (narrow.bad - middle) % 4096 == 0 && (middle
            - narrow.good) % 4096 == 0),
{
}

/// A word is read low byte first.
#[verifier::spinoff_prover]
pub proof fn a_word_is_read_low_byte_first(bytes: Seq<u8>, n: int)
    ensures
        word_at(bytes, n) % 256 == bytes[n * 4],
        word_at(bytes, n) / 256 % 256 == bytes[n * 4 + 1],
        word_at(bytes, n) / 65536 % 256 == bytes[n * 4 + 2],
        word_at(bytes, n) / 16777216 == bytes[n * 4 + 3],
{
    let a = bytes[n * 4] as int;
    let b = bytes[n * 4 + 1] as int;
    let c = bytes[n * 4 + 2] as int;
    let d = bytes[n * 4 + 3] as int;
    let high = b + 256 * c + 65536 * d;
    assert(word_at(bytes, n) == a + 256 * high);
    assert((a + 256 * high) / 256 == high);
    assert(high == b + 256 * (c + 256 * d));
    assert(high / 256 == c + 256 * d);
    assert((a + 256 * high) / 65536 == high / 256);
}

/// Every word of a filled block is its address with the bits of its place turned over, and no byte of
/// a word that is not whole is filled.
#[verifier::spinoff_prover]
pub proof fn a_filled_word_is_its_address(base: u32, len: nat, n: int)
    requires
        0 <= n,
        n * 4 + 4 <= len,
    ensures
        filled(base, len).len() == len,
        filled(base, len)[4 * n] == (base ^ (n as u32)) % 256,
        filled(base, len)[4 * n + 1] == (base ^ (n as u32)) / 256 % 256,
        filled(base, len)[4 * n + 2] == (base ^ (n as u32)) / 65536 % 256,
        filled(base, len)[4 * n + 3] == (base ^ (n as u32)) / 16777216,
        whole_words(len as int) % 4 == 0,
        whole_words(len as int) <= len < whole_words(len as int) + 4,
{
    assert((4 * n) / 4 == n && (4 * n + 1) / 4 == n && (4 * n + 2) / 4 == n && (4 * n + 3) / 4 == n);
}

/// A word is wrong where it is not the block's address with the bits of its place turned over, and as
/// many are wrong as there are such words.
pub proof fn wrong_words_are_counted(bytes: Seq<u8>, base: u32, n: int)
    requires
        0 <= n,
    ensures
        wrong_before(bytes, base, n) == Seq::new(n as nat, |i: int| i).filter(
            |i: int| word_at(bytes, i) != base ^ (i as u32),
        ).len(),
    decreases n,
{
    reveal(Seq::filter);
    let places = Seq::new(n as nat, |i: int| i);
    if n > 0 {
        wrong_words_are_counted(bytes, base, n - 1);
        assert(places.drop_last() =~= Seq::new((n - 1) as nat, |i: int| i));
    }
}

/// What a block says of where it came from is what its first wrong word says, and nothing where none
/// is wrong.
pub proof fn the_first_wrong_word_says_its_source(bytes: Seq<u8>, base: u32, n: int, k: int)
    requires
        0 <= k <= n,
        forall|i: int| 0 <= i < k ==> word_at(bytes, i) == base ^ (i as u32),
    ensures
        k < n && word_at(bytes, k) != base ^ (k as u32) ==> said_before(bytes, base, n) == Some(
            word_at(bytes, k) ^ (k as u32),
        ),
        k == n ==> said_before(bytes, base, n) is None,
    decreases n,
{
    if n > 0 {
        if k < n {
            the_first_wrong_word_says_its_source(bytes, base, n - 1, k);
        } else {
            the_first_wrong_word_says_its_source(bytes, base, n - 1, n - 1);
        }
    }
}

/// A block that came back whole moves the good end up to it, and the first that did not ends the
/// sweep: nothing after it moves either end.
pub proof fn the_first_bad_block_ends_a_sweep(sweep: Sweep, base: usize, good: bool)
    ensures
        sweep.first_bad is Some ==> noted(sweep, base, good) == sweep,
        sweep.first_bad is None ==> noted(sweep, base, true).last_good == Some(base) && noted(
            sweep,
            base,
            true,
        ).first_bad is None,
        sweep.first_bad is None ==> noted(sweep, base, false).last_good == sweep.last_good && noted(
            sweep,
            base,
            false,
        ).first_bad == Some(base),
{
}

/// The block that is tried next lies halfway, less than a block short of it.
#[verifier::spinoff_prover]
pub proof fn the_middle_lies_halfway(narrow: Narrow)
    requires
        narrow.good < narrow.bad,
    ensures
        (narrow.middle_spec() matches Some(middle) ==> {
            &&& (middle - narrow.good) % 4096 == 0
            &&& 2 * (middle - narrow.good) <= narrow.bad - narrow.good
            &&& narrow.bad - narrow.good < 2 * (middle - narrow.good) + 8192
        }),
        narrow.middle_spec() is Some <==> narrow.bad - narrow.good >= 8192,
{
}

} // verus!
