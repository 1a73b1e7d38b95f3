//! A plugin through a slot of the plugins partition and back, one claim after another.

use vstd::prelude::*;

use crate::upload::same_id;

verus! {

/// Counts a claim that did not hold.
pub fn check(ok: bool, failed: &mut u32)
    requires
        *old(failed) < u32::MAX,
    ensures
        *final(failed) == (if ok {
            *old(failed)
        } else {
            (*old(failed) + 1) as u32
        }),
{
    if !ok {
        *failed = *failed + 1;
    }
}

/// The last slot of a partition and where it starts; `None` where no slot fits.
pub fn last_slot(partition: usize, slot: usize) -> (r: Option<(usize, usize)>)
    requires
        slot > 0,
    ensures
        r is None <==> partition < slot,
        (r matches Some((last, start)) ==> start == last * slot && partition < start + 2 * slot),
        r == (if partition / slot == 0 {
            None
        } else {
            Some(
                (
                    (partition / slot - 1) as usize,
                    ((partition / slot - 1) * slot) as usize,
                ),
            )
        }),
        (r matches Some((last, start)) ==> start + slot <= partition),
{
    let count: usize = partition / slot;
    proof {
        vstd::arithmetic::div_mod::lemma_fundamental_div_mod(partition as int, slot as int);
        assert(count == 0 <==> partition < slot) by (nonlinear_arith)
            requires
                count == partition as int / slot as int,
                0 < slot,
        ;
    }
    if count == 0 {
        return None;
    }
    let last: usize = count - 1;
    proof {
        assert(last * slot + slot == slot * count) by (nonlinear_arith)
            requires
                last == count - 1,
        ;
        assert(0 <= last * slot) by (nonlinear_arith)
            requires
                0 <= last,
                0 < slot,
        ;
    }
    Some((last, last * slot))
}

/// Bytes to write so that a module ends on a whole word.
pub fn rounded(len: usize) -> (r: usize)
    requires
        len <= usize::MAX - 3,
    ensures
        r % 4 == 0,
        len <= r < len + 4,
{
    (len + 3) / 4 * 4
}

/// What reading a slot's header gave.
#[derive(Clone, Copy, Debug, PartialEq, Eq, Structural)]
pub enum Header {
    Empty,
    Waiting,
    Accepted,
    Failed,
}

/// What a write said it wrote.
pub struct Wrote {
    pub id: Vec<u8>,
    pub len: usize,
    pub accepted: bool,
}

/// What reading a module gave.
#[derive(Clone, Copy, Debug, PartialEq, Eq, Structural)]
pub enum Module {
    /// Its bytes, and whether they are the ones written.
    Here { same: bool },
    Empty,
    /// They do not fit their hash.
    Hash,
    Failed,
}

/// One step of the round trip, with how it went.
pub enum Claim {
    /// The slot was erased and the module written without its header.
    Torn { written: bool },
    /// A slot without a header reads as empty.
    WithoutHeader { header: Header },
    /// A write names the module's id and length.
    Named { wrote: Option<Wrote>, id: Option<Vec<u8>>, len: usize },
    /// A written slot waits to be accepted.
    Waits { wrote_accepted: Option<bool>, header: Header },
    /// The module reads back byte for byte.
    ReadBack { module: Module },
    /// The signature holds on the copy.
    Signed { holds: bool },
    /// Accepting marks the header.
    Marked { done: bool, header: Header },
    /// The module's first word was zeroed.
    Zeroed { written: bool },
    /// A damaged module fails its hash.
    Damaged { module: Module },
    /// An erased slot reads as empty.
    Erased { done: bool, header: Header },
}

/// Whether a claim holds.
pub open spec fn holds(claim: Claim) -> bool {
    match claim {
        Claim::Torn { written } => written,
        Claim::WithoutHeader { header } => header == Header::Empty,
        Claim::Named { wrote, id, len } => wrote is Some && id is Some && wrote->0.id@ == id->0@
            && wrote->0.len == len,
        Claim::Waits { wrote_accepted, header } => wrote_accepted == Some(false) && header
            == Header::Waiting,
        Claim::ReadBack { module } => module == (Module::Here { same: true }),
        Claim::Signed { holds } => holds,
        Claim::Marked { done, header } => done && header == Header::Accepted,
        Claim::Zeroed { written } => written,
        Claim::Damaged { module } => module == Module::Hash,
        Claim::Erased { done, header } => done && header == Header::Empty,
    }
}

/// Judges a step of the round trip.
pub fn judge(claim: &Claim) -> (ok: bool)
    ensures
        ok == holds(*claim),
{
    match claim {
        Claim::Torn { written } => *written,
        Claim::WithoutHeader { header } => *header == Header::Empty,
        Claim::Named { wrote, id, len } => match (wrote, id) {
            (Some(wrote), Some(id)) => same_id(&wrote.id, id) && wrote.len == *len,
            _ => false,
        },
        Claim::Waits { wrote_accepted, header } => match wrote_accepted {
            Some(accepted) => !*accepted && *header == Header::Waiting,
            None => false,
        },
        Claim::ReadBack { module } => *module == (Module::Here { same: true }),
        Claim::Signed { holds } => *holds,
        Claim::Marked { done, header } => *done && *header == Header::Accepted,
        Claim::Zeroed { written } => *written,
        Claim::Damaged { module } => *module == Module::Hash,
        Claim::Erased { done, header } => *done && *header == Header::Empty,
    }
}

/// How many of the claims do not hold.
pub open spec fn failures(claims: Seq<Claim>) -> int
    decreases claims.len(),
{
    if claims.len() == 0 {
        0
    } else {
        failures(claims.drop_last()) + (if holds(claims.last()) {
            0int
        } else {
            1
        })
    }
}

/// Counts the claims that do not hold.
pub fn failed(claims: &Vec<Claim>) -> (r: u32)
    requires
        claims@.len() < u32::MAX,
    ensures
        r == failures(claims@),
{
    let mut r: u32 = 0;
    let mut i: usize = 0;
    while i < claims.len()
        invariant
            i <= claims@.len(),
            claims@.len() < u32::MAX,
            r <= i,
            r == failures(claims@.take(i as int)),
        decreases claims.len() - i,
    {
        assert(claims@.take(i + 1).drop_last() =~= claims@.take(i as int));
        check(judge(&claims[i]), &mut r);
        i = i + 1;
    }
    assert(claims@.take(i as int) =~= claims@);
    r
}

/// The round trip passes exactly if every claim holds.
pub proof fn passes_exactly_if_all_hold(claims: Seq<Claim>)
    ensures
        failures(claims) >= 0,
        failures(claims) == 0 <==> forall|i: int| 0 <= i < claims.len() ==> holds(#[trigger] claims[i]),
    decreases claims.len(),
{
    if claims.len() > 0 {
        let rest = claims.drop_last();
        passes_exactly_if_all_hold(rest);
        assert(forall|i: int| 0 <= i < rest.len() ==> rest[i] == claims[i]);
        if failures(claims) == 0 {
            assert forall|i: int| 0 <= i < claims.len() implies holds(#[trigger] claims[i]) by {
                if i < rest.len() {
                    assert(holds(rest[i]));
                }
            }
        } else if failures(rest) != 0 {
            let i = choose|i: int| 0 <= i < rest.len() && !holds(#[trigger] rest[i]);
            assert(!holds(claims[i]));
        } else {
            assert(!holds(claims[claims.len() - 1]));
        }
    }
}

/// As many fail as there are claims that do not hold.
pub proof fn failures_are_counted(claims: Seq<Claim>)
    ensures
        failures(claims) == claims.filter(|c: Claim| !holds(c)).len(),
    decreases claims.len(),
{
    reveal(Seq::filter);
    if claims.len() > 0 {
        failures_are_counted(claims.drop_last());
    }
}

/// A slot that was only begun, or erased, has to read as empty, a written one as waiting and an
/// accepted one as accepted; nothing else will do.
pub proof fn a_slots_header_follows_what_was_done(header: Header, done: bool, accepted: bool)
    ensures
        holds(Claim::WithoutHeader { header }) <==> header == Header::Empty,
        holds(Claim::Waits { wrote_accepted: Some(accepted), header }) <==> !accepted && header
            == Header::Waiting,
        !holds(Claim::Waits { wrote_accepted: None, header }),
        holds(Claim::Marked { done, header }) <==> done && header == Header::Accepted,
        holds(Claim::Erased { done, header }) <==> done && header == Header::Empty,
        holds(Claim::Torn { written: done }) <==> done,
        holds(Claim::Zeroed { written: done }) <==> done,
        holds(Claim::Signed { holds: done }) <==> done,
{
}

/// A module reads back only as the bytes that were written, and a damaged one only as one that fails
/// its hash; a write has to name the id and the length it was given.
pub proof fn a_module_reads_back_or_fails_its_hash(module: Module, wrote: Wrote, id: Vec<u8>, len: usize)
    ensures
        holds(Claim::ReadBack { module }) <==> module == (Module::Here { same: true }),
        holds(Claim::Damaged { module }) <==> module == Module::Hash,
        holds(Claim::Named { wrote: Some(wrote), id: Some(id), len }) <==> wrote.id@ == id@
            && wrote.len == len,
        !holds(Claim::Named { wrote: None, id: Some(id), len }),
        !holds(Claim::Named { wrote: Some(wrote), id: None, len }),
{
}

} // verus!
