//! The plugins: gathering them from the firmware and the slots at boot, offering those that wait,
//! and starting the one whose face is shown.

use vstd::prelude::*;
use crate::upload::{same_id, SlotHeader};

verus! {

/// Where a module's bytes are: one the firmware brings, or bytes of the spare RAM that a slot was
/// read into.
#[derive(Clone, Copy, Debug, PartialEq, Eq, Structural)]
pub enum Source {
    Bundled(usize),
    Slot { slot: usize, start: usize, len: usize },
}

/// A plugin in a slot that nobody has accepted yet.
#[derive(Debug)]
pub struct Waiting {
    pub slot: usize,
    pub start: usize,
    pub len: usize,
    /// The id its bytes give, if they give one.
    pub id: Option<Vec<u8>>,
    /// Whether it replaces a plugin with the same id once accepted.
    pub update: bool,
}

/// An id as contracts speak of it.
pub open spec fn id_view(id: Option<Vec<u8>>) -> Option<Seq<u8>> {
    match id {
        Some(id) => Some(id@),
        None => None,
    }
}

/// Ids as contracts speak of them.
pub open spec fn id_views(ids: Seq<Option<Vec<u8>>>) -> Seq<Option<Seq<u8>>> {
    ids.map_values(|id: Option<Vec<u8>>| id_view(id))
}

/// What a slot's header says.
#[derive(Debug)]
pub enum HeaderReply {
    /// The slot holds nothing.
    Empty,
    Unreadable,
    Held(SlotHeader),
}

/// What is done with a slot.
#[derive(Clone, Copy, Debug, PartialEq, Eq, Structural)]
pub enum Look {
    Skip,
    /// Read it into the spare RAM at `start`; `at` is its place in the rings, or `None` for a
    /// plugin that waits.
    Read { at: Option<usize>, start: usize, len: usize },
}

/// The plugins gathered so far.
#[derive(Debug)]
pub struct Gathered {
    pub modules: Vec<Option<Source>>,
    pub ids: Vec<Option<Vec<u8>>>,
    pub from_slot: Vec<Option<usize>>,
    /// How many places are taken.
    pub count: usize,
    pub waiting: Vec<Waiting>,
    /// Bytes of spare RAM there are, and how many are given away.
    pub spare: usize,
    pub used: usize,
    /// Slots that hold nothing.
    pub free: usize,
}

/// The first of the first `count` places that has the id.
pub open spec fn first_with(ids: Seq<Option<Seq<u8>>>, count: int, id: Seq<u8>, n: int) -> Option<
    usize,
>
    decreases count - n,
{
    if n < 0 || n >= count {
        None
    } else if ids[n] == Some(id) {
        Some(n as usize)
    } else {
        first_with(ids, count, id, n + 1)
    }
}

proof fn first_with_is_first(ids: Seq<Option<Seq<u8>>>, count: int, id: Seq<u8>, n: int)
    requires
        0 <= n <= count <= usize::MAX,
    ensures
        (first_with(ids, count, id, n) matches Some(k) ==> n <= k < count && ids[k as int] == Some(
            id,
        ) && forall|i: int| n <= i < k ==> ids[i] != Some(id)),
        (first_with(ids, count, id, n) is None ==> forall|i: int| n <= i < count ==> ids[i] != Some(
            id,
        )),
    decreases count - n,
{
    if n < count && ids[n] != Some(id) {
        first_with_is_first(ids, count, id, n + 1);
    }
}

/// Whatever else changes, tables stay well formed while no more than half of the spare RAM is
/// given away.
proof fn tables_stay_well_formed(a: Gathered, b: Gathered)
    requires
        a.wf(),
        b.modules == a.modules,
        b.ids == a.ids,
        b.from_slot == a.from_slot,
        b.count == a.count,
        b.spare == a.spare,
        b.waiting.len() <= a.places(),
        forall|w: int|
            0 <= w < b.waiting.len() ==> (#[trigger] b.waiting[w]).start + b.waiting[w].len
                <= b.used,
        a.used <= b.used,
        b.used + b.spare / 2 <= b.spare,
    ensures
        b.wf(),
{
    assert forall|n: int| 0 <= n < b.count implies (#[trigger] b.modules[n]) is Some && b.lies_in(
        n,
        0,
        b.used as int,
    ) by {
        assert(a.modules[n] is Some && a.lies_in(n, 0, a.used as int));
    }
    assert forall|n: int| 0 <= n < b.places() && (#[trigger] b.from_slot[n]) is Some implies n
        < b.count && b.id_at(n) is Some by {
        assert(a.from_slot[n] is Some ==> a.id_at(n) is Some);
    }
    assert forall|n: int, m: int|
        #![trigger b.from_slot[n], b.id_at(m)]
        0 <= m < n < b.count && b.from_slot[n] is Some implies b.id_at(m) != b.id_at(n) by {
        assert(a.from_slot[n] is Some);
        assert(a.id_at(m) != a.id_at(n));
    }
}

impl Gathered {
    /// How many places there are.
    pub open spec fn places(&self) -> int {
        self.modules.len() as int
    }

    pub open spec fn id_at(&self, n: int) -> Option<Seq<u8>> {
        id_views(self.ids@)[n]
    }

    /// Whether a plugin from a slot lies in the given range of the spare RAM.
    pub open spec fn lies_in(&self, n: int, from: int, to: int) -> bool {
        self.modules[n] matches Some(Source::Slot { start, len, .. }) ==> from <= start && start
            + len <= to
    }

    /// Each table has every place, the places past `count` are empty, at most half of the spare
    /// RAM is given away, every module read lies in what is, and a plugin from a slot is the first
    /// in the rings with its id.
    pub open spec fn wf(&self) -> bool {
        &&& self.ids.len() == self.places()
        &&& self.from_slot.len() == self.places()
        &&& self.count <= self.places()
        &&& self.waiting.len() <= self.places()
        &&& self.used + self.spare / 2 <= self.spare
        &&& forall|w: int|
            0 <= w < self.waiting.len() ==> (#[trigger] self.waiting[w]).start + self.waiting[w].len
                <= self.used
        &&& forall|n: int| self.count <= n < self.places() ==> self.modules[n] is None
        &&& forall|n: int|
            0 <= n < self.count ==> (#[trigger] self.modules[n]) is Some && self.lies_in(
                n,
                0,
                self.used as int,
            )
        &&& forall|n: int|
            0 <= n < self.places() ==> ((#[trigger] self.from_slot[n]) is Some ==> n < self.count
                && self.id_at(n) is Some)
        &&& forall|n: int|
            0 <= n < self.count ==> ((#[trigger] self.from_slot[n]) is Some ==> {
                &&& self.modules[n] matches Some(Source::Slot { slot, .. })
                &&& Some(slot) == self.from_slot[n]
            })
        &&& forall|n: int, m: int|
            #![trigger self.from_slot[n], self.id_at(m)]
            0 <= m < n < self.count && self.from_slot[n] is Some ==> self.id_at(m) != self.id_at(n)
    }

    /// Whether every plugin gathered came from a slot below `next`, each from a slot of its own, and
    /// those that wait stand in the order of their slots.
    pub open spec fn in_slot_order(&self, next: int) -> bool {
        &&& forall|n: int|
            0 <= n < self.from_slot.len() ==> ((#[trigger] self.from_slot[n]) matches Some(slot)
                ==> slot < next)
        &&& forall|n: int, m: int|
            0 <= m < n < self.from_slot.len() && (#[trigger] self.from_slot[n]) is Some ==> (
            #[trigger] self.from_slot[m]) != self.from_slot[n]
        &&& forall|w: int| 0 <= w < self.waiting.len() ==> (#[trigger] self.waiting[w]).slot < next
        &&& forall|v: int, w: int|
            0 <= v < w < self.waiting.len() ==> (#[trigger] self.waiting[v]).slot < (
            #[trigger] self.waiting[w]).slot
        &&& forall|n: int, w: int|
            0 <= n < self.from_slot.len() && 0 <= w < self.waiting.len() ==> (
            #[trigger] self.from_slot[n]) != Some((#[trigger] self.waiting[w]).slot)
    }

    /// Starts with the plugins the firmware brings, by their ids, in a table of `places`, and
    /// with `spare` bytes of RAM for those in slots.
    pub fn new(bundled: Vec<Option<Vec<u8>>>, places: usize, spare: usize) -> (r: Self)
        requires
            bundled.len() <= places,
        ensures
            r.wf(),
            r.in_slot_order(0),
            r.places() == places,
            r.count == bundled.len(),
            r.spare == spare,
            r.used == 0,
            r.free == 0,
            r.waiting.len() == 0,
            forall|n: int| 0 <= n < bundled.len() ==> r.modules[n] == Some(Source::Bundled(n as usize)),
            forall|n: int| 0 <= n < bundled.len() ==> r.id_at(n) == id_view(bundled[n]),
            forall|n: int| bundled.len() <= n < places ==> r.id_at(n) is None,
            forall|n: int| 0 <= n < places ==> r.from_slot[n] is None,
    {
        let count: usize = bundled.len();
        let ghost given = bundled@;
        let mut ids = bundled;
        let mut modules: Vec<Option<Source>> = Vec::new();
        let mut from_slot: Vec<Option<usize>> = Vec::new();
        let mut n: usize = 0;
        while n < places
            invariant
                n <= places,
                count <= places,
                given.len() == count,
                modules.len() == n,
                from_slot.len() == n,
                ids.len() == (if n < count {
                    count
                } else {
                    n
                }),
                forall|k: int| 0 <= k < count ==> ids[k] == given[k],
                forall|k: int| count <= k < n ==> ids[k] is None,
                forall|k: int| 0 <= k < n && k < count ==> modules[k] == Some(Source::Bundled(k as usize)),
                forall|k: int| count <= k < n ==> modules[k] is None,
                forall|k: int| 0 <= k < n ==> from_slot[k] is None,
            decreases places - n,
        {
            if n < count {
                modules.push(Some(Source::Bundled(n)));
            } else {
                modules.push(None);
                ids.push(None);
            }
            from_slot.push(None);
            n = n + 1;
        }
        Gathered { modules, ids, from_slot, count, waiting: Vec::new(), spare, used: 0, free: 0 }
    }

    fn first_with(&self, id: &Vec<u8>) -> (r: Option<usize>)
        requires
            self.wf(),
        ensures
            r == first_with(id_views(self.ids@), self.count as int, id@, 0),
    {
        let mut n: usize = 0;
        while n < self.count
            invariant
                n <= self.count,
                self.wf(),
                first_with(id_views(self.ids@), self.count as int, id@, 0) == first_with(
                    id_views(self.ids@),
                    self.count as int,
                    id@,
                    n as int,
                ),
            decreases self.count - n,
        {
            assert(id_views(self.ids@)[n as int] == id_view(self.ids@[n as int]));
            if let Some(held) = &self.ids[n] {
                if same_id(held, id) {
                    return Some(n);
                }
            }
            n = n + 1;
        }
        None
    }

    /// Where an accepted plugin goes in the rings: over the plugin with its id, unless that came
    /// from a slot itself, or else into the next place, if one is left.
    pub open spec fn place_for(&self, id: Seq<u8>) -> Option<usize> {
        match first_with(id_views(self.ids@), self.count as int, id, 0) {
            Some(k) => if self.from_slot[k as int] is Some {
                None
            } else {
                Some(k)
            },
            None => if self.count == self.places() {
                None
            } else {
                Some(self.count)
            },
        }
    }

    /// A plugin whose id none of the plugins gathered has gets the next place, if one is left.
    pub proof fn a_place_is_found(&self, id: Seq<u8>)
        requires
            self.wf(),
        ensures
            (forall|n: int| 0 <= n < self.count ==> #[trigger] self.id_at(n) != Some(id))
                ==> self.place_for(id) == (if self.count < self.places() {
                Some(self.count)
            } else {
                None
            }),
            (self.place_for(id) matches Some(k) ==> self.from_slot[k as int] is None && (k
                < self.count ==> self.id_at(k as int) == Some(id))),
    {
        first_with_is_first(id_views(self.ids@), self.count as int, id, 0);
        if let Some(k) = first_with(id_views(self.ids@), self.count as int, id, 0) {
            assert(self.id_at(k as int) == Some(id));
        }
    }

    /// What is done with a slot, by its header.
    pub open spec fn look_spec(&self, reply: HeaderReply) -> Look {
        match reply {
            HeaderReply::Held(header) => {
                let read = |at: Option<usize>|
                    if self.spare - self.used < self.spare / 2 + header.len {
                        Look::Skip
                    } else {
                        Look::Read { at, start: self.used, len: header.len }
                    };
                if !header.accepted {
                    if self.waiting.len() == self.places() {
                        Look::Skip
                    } else {
                        read(None)
                    }
                } else {
                    match self.place_for(header.id@) {
                        Some(at) => read(Some(at)),
                        None => Look::Skip,
                    }
                }
            },
            _ => Look::Skip,
        }
    }

    /// How many slots are told to be empty: none at all unless they were looked at, which takes
    /// the plugins' partition and RAM to read them into.
    pub fn free_told(&self, partition: bool, ram: bool) -> (r: Option<usize>)
        ensures
            r is Some ==> partition && ram && r == Some(self.free),
            r is None ==> !partition || !ram,
            r == (if partition && ram {
                Some(self.free)
            } else {
                None
            }),
    {
        if partition && ram {
            Some(self.free)
        } else {
            None
        }
    }

    /// Takes the header of the next slot. An empty slot is counted, an unreadable one passed
    /// over; a second copy of a plugin, one plugin too many and one that would take more than
    /// half of the spare RAM are skipped.
    pub fn look(&mut self, reply: &HeaderReply) -> (look: Look)
        requires
            old(self).wf(),
            old(self).free < usize::MAX,
        ensures
            final(self).wf(),
            forall|next: int| old(self).in_slot_order(next) ==> final(self).in_slot_order(next),
            look == old(self).look_spec(*reply),
            *final(self) == (Gathered {
                free: if *reply is Empty {
                    (old(self).free + 1) as usize
                } else {
                    old(self).free
                },
                ..*old(self)
            }),
            (look matches Look::Read { at: Some(k), .. } ==> k < final(self).places() && k
                <= final(self).count && final(self).from_slot[k as int] is None),
            // One that waits is read while there is a place in the queue and room in the RAM.
            (*reply matches HeaderReply::Held(header) ==> !header.accepted ==> look == (
            if old(self).waiting.len() < old(self).places() && old(self).spare - old(self).used
                >= old(self).spare / 2 + header.len {
                Look::Read { at: None, start: old(self).used, len: header.len }
            } else {
                Look::Skip
            })),
            // One that was accepted and is new is read while a place is left and it fits.
            (*reply matches HeaderReply::Held(header) ==> header.accepted && (forall|n: int|
                0 <= n < old(self).count ==> #[trigger] old(self).id_at(n) != Some(header.id@))
                ==> look == (if old(self).count < old(self).places() && old(self).spare - old(
                self,
            ).used >= old(self).spare / 2 + header.len {
                Look::Read { at: Some(old(self).count), start: old(self).used, len: header.len }
            } else {
                Look::Skip
            })),
            !(*reply is Held) ==> look == Look::Skip,
    {
        let header = match reply {
            HeaderReply::Empty => {
                let ghost before = *self;
                self.free = self.free + 1;
                proof {
                    tables_stay_well_formed(before, *self);
                }
                return Look::Skip;
            },
            HeaderReply::Unreadable => {
                return Look::Skip;
            },
            HeaderReply::Held(header) => header,
        };
        proof {
            self.a_place_is_found(header.id@);
        }
        let at: Option<usize> = if !header.accepted {
            if self.waiting.len() == self.modules.len() {
                return Look::Skip;
            }
            None
        } else {
            proof {
                first_with_is_first(id_views(self.ids@), self.count as int, header.id@, 0);
            }
            match self.first_with(&header.id) {
                Some(k) => {
                    if self.from_slot[k].is_some() {
                        return Look::Skip;
                    }
                    Some(k)
                },
                None => {
                    if self.count == self.modules.len() {
                        return Look::Skip;
                    }
                    Some(self.count)
                },
            }
        };
        if self.spare - self.used - self.spare / 2 < header.len {
            return Look::Skip;
        }
        Look::Read { at, start: self.used, len: header.len }
    }

    /// Takes an accepted plugin that was read where `look` said: the rings hold it at `at`.
    pub fn take_accepted(&mut self, slot: usize, id: Vec<u8>, at: usize, len: usize)
        requires
            old(self).wf(),
            old(self).place_for(id@) == Some(at),
            old(self).spare - old(self).used >= old(self).spare / 2 + len,
        ensures
            final(self).wf(),
            old(self).in_slot_order(slot as int) ==> final(self).in_slot_order(slot + 1),
            final(self).modules@ == old(self).modules@.update(
                at as int,
                Some(Source::Slot { slot, start: old(self).used, len }),
            ),
            id_views(final(self).ids@) == id_views(old(self).ids@).update(at as int, Some(id@)),
            final(self).from_slot@ == old(self).from_slot@.update(at as int, Some(slot)),
            final(self).count == (if at == old(self).count {
                old(self).count + 1
            } else {
                old(self).count as int
            }),
            final(self).used == old(self).used + len,
            final(self).waiting == old(self).waiting,
            final(self).spare == old(self).spare,
            final(self).free == old(self).free,
    {
        proof {
            first_with_is_first(id_views(self.ids@), self.count as int, id@, 0);
        }
        let ghost before = *self;
        self.modules[at] = Some(Source::Slot { slot, start: self.used, len });
        self.ids[at] = Some(id);
        self.from_slot[at] = Some(slot);
        self.used = self.used + len;
        if at == self.count {
            self.count = self.count + 1;
        }
        assert(id_views(self.ids@) =~= id_views(before.ids@).update(at as int, Some(id@)));
        assert forall|n: int| 0 <= n < self.count implies (#[trigger] self.modules[n]) is Some
            && self.lies_in(n, 0, self.used as int) by {
            if n != at {
                assert(before.modules[n] is Some && before.lies_in(n, 0, before.used as int));
            }
        }
        assert forall|n: int, m: int|
            #![trigger self.from_slot[n], self.id_at(m)]
            0 <= m < n < self.count && self.from_slot[n] is Some implies self.id_at(m)
            != self.id_at(n) by {
            assert(self.id_at(m) == if m == at {
                Some(id@)
            } else {
                before.id_at(m)
            });
            assert(self.id_at(n) == if n == at {
                Some(id@)
            } else {
                before.id_at(n)
            });
            if n != at {
                assert(before.from_slot[n] is Some);
                assert(before.id_at(m) != before.id_at(n));
                if m == at && at < before.count {
                    assert(before.id_at(at as int) == Some(id@));
                }
            }
        }
        assert forall|n: int| 0 <= n < self.places() && (#[trigger] self.from_slot[n]) is Some implies n
            < self.count && self.id_at(n) is Some by {
            if n != at {
                assert(before.from_slot[n] == self.from_slot[n]);
                assert(self.id_at(n) == before.id_at(n));
            }
        }
        assert forall|n: int| 0 <= n < self.count && (#[trigger] self.from_slot[n]) is Some implies {
            &&& self.modules[n] matches Some(Source::Slot { slot, .. })
            &&& Some(slot) == self.from_slot[n]
        } by {
            if n != at {
                assert(before.from_slot[n] == self.from_slot[n]);
                assert(before.modules[n] == self.modules[n]);
            }
        }
    }

    /// Takes a plugin that waits and was read where `look` said. Its bytes are kept either way;
    /// it is offered only if its signature holds.
    pub fn take_waiting(&mut self, slot: usize, len: usize, id: Option<Vec<u8>>, verified: bool)
        requires
            old(self).wf(),
            old(self).waiting.len() < old(self).places(),
            old(self).spare - old(self).used >= old(self).spare / 2 + len,
        ensures
            final(self).wf(),
            old(self).in_slot_order(slot as int) ==> final(self).in_slot_order(slot + 1),
            final(self).used == old(self).used + len,
            final(self).waiting@ == (if verified {
                old(self).waiting@.push(
                    Waiting { slot, start: old(self).used, len, id, update: false },
                )
            } else {
                old(self).waiting@
            }),
            final(self).modules == old(self).modules,
            final(self).ids == old(self).ids,
            final(self).from_slot == old(self).from_slot,
            final(self).count == old(self).count,
            final(self).spare == old(self).spare,
            final(self).free == old(self).free,
    {
        let ghost before = *self;
        if verified {
            self.waiting.push(Waiting { slot, start: self.used, len, id, update: false });
        }
        self.used = self.used + len;
        proof {
            assert forall|w: int| 0 <= w < self.waiting.len() implies (#[trigger] self.waiting[w]).start
                + self.waiting[w].len <= self.used by {
                if w < before.waiting.len() {
                    assert(self.waiting[w] == before.waiting[w]);
                }
            }
            tables_stay_well_formed(before, *self);
        }
    }

    /// Whether waiting plugin `w` updates one that the rings hold.
    pub open spec fn updates(&self, w: int) -> bool {
        exists|n: int| 0 <= n < self.count && self.waiting[w].id is Some && #[trigger] self.id_at(n)
            == id_view(self.waiting[w].id)
    }

    /// Marks every waiting plugin that updates another. Only once all slots were read are all
    /// plugins known that one can update.
    pub fn mark_updates(&mut self)
        requires
            old(self).wf(),
        ensures
            final(self).wf(),
            forall|next: int| old(self).in_slot_order(next) ==> final(self).in_slot_order(next),
            final(self).modules == old(self).modules,
            final(self).ids == old(self).ids,
            final(self).from_slot == old(self).from_slot,
            final(self).count == old(self).count,
            final(self).spare == old(self).spare,
            final(self).used == old(self).used,
            final(self).free == old(self).free,
            final(self).waiting.len() == old(self).waiting.len(),
            forall|w: int|
                0 <= w < old(self).waiting.len() ==> (#[trigger] final(self).waiting[w]) == (Waiting {
                    update: old(self).updates(w),
                    ..old(self).waiting[w]
                }),
    {
        let ghost before = *self;
        let mut w: usize = 0;
        while w < self.waiting.len()
            invariant
                w <= self.waiting.len(),
                before.wf(),
                self.waiting.len() == before.waiting.len(),
                self.ids == before.ids,
                self.count == before.count,
                self.modules == before.modules,
                self.from_slot == before.from_slot,
                self.spare == before.spare,
                self.used == before.used,
                self.free == before.free,
                forall|k: int|
                    0 <= k < w ==> (#[trigger] self.waiting[k]) == (Waiting {
                        update: before.updates(k),
                        ..before.waiting[k]
                    }),
                forall|k: int|
                    w <= k < self.waiting.len() ==> (#[trigger] self.waiting[k])
                        == before.waiting[k],
            decreases self.waiting.len() - w,
        {
            let mut update = false;
            let mut n: usize = 0;
            while n < self.count
                invariant
                    n <= self.count,
                    w < self.waiting.len(),
                    self.waiting.len() == before.waiting.len(),
                    before.wf(),
                    self.ids == before.ids,
                    self.count == before.count,
                    self.waiting[w as int] == before.waiting[w as int],
                    update == (exists|k: int|
                        0 <= k < n && before.waiting[w as int].id is Some && #[trigger] before.id_at(k)
                            == id_view(before.waiting[w as int].id)),
                decreases self.count - n,
            {
                assert(before.id_at(n as int) == id_view(self.ids@[n as int]));
                if let (Some(held), Some(id)) = (&self.ids[n], &self.waiting[w].id) {
                    if same_id(held, id) {
                        update = true;
                    }
                }
                n = n + 1;
            }
            self.waiting[w].update = update;
            w = w + 1;
        }
        proof {
            assert forall|w: int| 0 <= w < self.waiting.len() implies (#[trigger] self.waiting[w]).start
                + self.waiting[w].len <= self.used by {
                assert(before.waiting[w].start + before.waiting[w].len <= before.used);
            }
            tables_stay_well_formed(before, *self);
        }
    }
}

/// However the slots read, the rings never hold the same plugin from two slots.
pub proof fn no_plugin_from_two_slots(gathered: Gathered, n: int, m: int)
    requires
        gathered.wf(),
        0 <= m < n < gathered.count,
        gathered.from_slot[n] is Some,
        gathered.from_slot[m] is Some,
    ensures
        gathered.id_at(n) != gathered.id_at(m),
{
    assert(gathered.id_at(m) is Some);
}

/// While the slots are gathered in their order, no slot stands for two plugins, those that wait
/// rise by slot, and a slot passed over keeps all of that.
pub proof fn each_slot_is_gathered_once(gathered: Gathered, next: int, n: int, m: int)
    requires
        gathered.in_slot_order(next),
    ensures
        gathered.in_slot_order(next + 1),
        0 <= m < n < gathered.from_slot.len() && gathered.from_slot[n] is Some
            ==> gathered.from_slot[m] != gathered.from_slot[n],
        0 <= m < n < gathered.waiting.len() ==> gathered.waiting[m].slot < gathered.waiting[n].slot,
        0 <= n < gathered.from_slot.len() && 0 <= m < gathered.waiting.len()
            ==> gathered.from_slot[n] != Some(gathered.waiting[m].slot),
{
}

/// A slot's plugin is read past every plugin read before it, those in the rings and those that
/// wait, so no two share a byte.
pub proof fn modules_lie_apart(gathered: Gathered, n: int, reply: HeaderReply)
    requires
        gathered.wf(),
        gathered.look_spec(reply) is Read,
    ensures
        0 <= n < gathered.count ==> gathered.lies_in(
            n,
            0,
            gathered.look_spec(reply)->start as int,
        ),
        0 <= n < gathered.waiting.len() ==> gathered.waiting[n].start + gathered.waiting[n].len
            <= gathered.look_spec(reply)->start,
{
    if 0 <= n < gathered.count {
        assert(gathered.modules[n] is Some);
    }
    if 0 <= n < gathered.waiting.len() {
        assert(gathered.waiting[n].start + gathered.waiting[n].len <= gathered.used);
    }
}

/// A slot with a bundled plugin's id takes that plugin's place, and no place is added for it.
pub proof fn a_slot_takes_the_bundled_place(gathered: Gathered, id: Seq<u8>, n: int)
    requires
        gathered.wf(),
        0 <= n < gathered.count,
        gathered.id_at(n) == Some(id),
        gathered.from_slot[n] is None,
        forall|m: int| 0 <= m < n ==> #[trigger] gathered.id_at(m) != Some(id),
    ensures
        gathered.place_for(id) == Some(n as usize),
{
    let ids = id_views(gathered.ids@);
    first_with_is_first(ids, gathered.count as int, id, 0);
    match first_with(ids, gathered.count as int, id, 0) {
        Some(k) => {
            assert(gathered.id_at(k as int) == Some(id));
            if n < k {
                assert(ids[n] != Some(id));
            }
        },
        None => {
            assert(ids[n] != Some(id));
        },
    }
}

/// Every plugin that waits in a slot is read and offered, as long as fewer wait than there are
/// places and half of the spare RAM stays free, whatever else was gathered before it.
pub proof fn a_waiting_plugin_is_read(gathered: Gathered, header: SlotHeader)
    requires
        gathered.wf(),
        !header.accepted,
    ensures
        gathered.waiting.len() < gathered.places() && gathered.used + header.len + gathered.spare / 2
            <= gathered.spare ==> gathered.look_spec(HeaderReply::Held(header)) == (Look::Read {
            at: None,
            start: gathered.used,
            len: header.len,
        }),
        gathered.look_spec(HeaderReply::Held(header)) is Read ==> gathered.waiting.len()
            < gathered.places() && gathered.used + header.len + gathered.spare / 2
            <= gathered.spare,
{
}

/// Every accepted plugin in a slot that fits the RAM gets into the rings: into a place of its own
/// if its id is new and one is left, and over the bundled plugin of that id otherwise.
pub proof fn an_accepted_plugin_is_read(gathered: Gathered, header: SlotHeader, n: int)
    requires
        gathered.wf(),
        header.accepted,
        gathered.used + header.len + gathered.spare / 2 <= gathered.spare,
    ensures
        gathered.count < gathered.places() && (forall|m: int|
            0 <= m < gathered.count ==> #[trigger] gathered.id_at(m) != Some(header.id@))
            ==> gathered.look_spec(HeaderReply::Held(header)) == (Look::Read {
            at: Some(gathered.count),
            start: gathered.used,
            len: header.len,
        }),
        0 <= n < gathered.count && gathered.id_at(n) == Some(header.id@) && gathered.from_slot[n]
            is None && (forall|m: int|
            0 <= m < n ==> #[trigger] gathered.id_at(m) != Some(header.id@)) ==> gathered.look_spec(
            HeaderReply::Held(header),
        ) == (Look::Read { at: Some(n as usize), start: gathered.used, len: header.len }),
{
    gathered.a_place_is_found(header.id@);
    if 0 <= n < gathered.count && gathered.id_at(n) == Some(header.id@) && gathered.from_slot[n]
        is None && (forall|m: int|
        0 <= m < n ==> #[trigger] gathered.id_at(m) != Some(header.id@)) {
        a_slot_takes_the_bundled_place(gathered, header.id@, n);
    }
}

/// A plugin that would leave less than half of the spare RAM is skipped, and so is a slot that
/// holds nothing or cannot be read.
pub proof fn half_of_the_ram_is_kept(gathered: Gathered, header: SlotHeader)
    requires
        gathered.wf(),
        gathered.used + header.len + gathered.spare / 2 > gathered.spare,
    ensures
        gathered.look_spec(HeaderReply::Held(header)) == Look::Skip,
        gathered.look_spec(HeaderReply::Empty) == Look::Skip,
        gathered.look_spec(HeaderReply::Unreadable) == Look::Skip,
{
}

/// A waiting plugin is an update exactly if a plugin in the rings has its id; one whose bytes give
/// no id updates nothing.
pub proof fn an_update_has_its_plugin(gathered: Gathered, w: int, n: int)
    ensures
        gathered.waiting[w].id is None ==> !gathered.updates(w),
        0 <= n < gathered.count && (gathered.waiting[w].id matches Some(id) && gathered.id_at(n)
            == Some(id@)) ==> gathered.updates(w),
        (gathered.waiting[w].id matches Some(id) ==> (forall|m: int|
            0 <= m < gathered.count ==> #[trigger] gathered.id_at(m) != Some(id@))
            ==> !gathered.updates(w)),
{
}

/// A second slot with an id already taken from a slot is skipped.
pub proof fn a_second_slot_is_skipped(gathered: Gathered, header: SlotHeader, n: int)
    requires
        gathered.wf(),
        header.accepted,
        0 <= n < gathered.count,
        gathered.id_at(n) == Some(header.id@),
        gathered.from_slot[n] is Some,
    ensures
        gathered.look_spec(HeaderReply::Held(header)) == Look::Skip,
{
    let ids = id_views(gathered.ids@);
    first_with_is_first(ids, gathered.count as int, header.id@, 0);
    match first_with(ids, gathered.count as int, header.id@, 0) {
        Some(k) => {
            if k < n {
                assert(gathered.id_at(k as int) != gathered.id_at(n));
            } else if n < k {
                assert(ids[n] != Some(header.id@));
            }
        },
        None => {
            assert(ids[n] != Some(header.id@));
        },
    }
}

/// What a module says of itself, read without running any of it.
#[derive(Debug)]
pub struct Described {
    pub name: String,
    pub version: String,
    pub rights: String,
    /// The author's key.
    pub key: Vec<u8>,
    /// What loading it would take of the heap.
    pub heap: usize,
}

/// Whether one of the bundled plugins is signed with `key`.
pub open spec fn key_known(bundled: Seq<Option<Vec<u8>>>, key: Seq<u8>) -> bool {
    exists|n: int| 0 <= n < bundled.len() && #[trigger] id_view(bundled[n]) == Some(key)
}

/// A key is the project's exactly if a bundled plugin is signed with it.
pub proof fn a_known_key_is_bundled(bundled: Seq<Option<Vec<u8>>>, key: Seq<u8>, n: int)
    ensures
        0 <= n < bundled.len() && (bundled[n] matches Some(held) && held@ == key) ==> key_known(
            bundled,
            key,
        ),
        key_known(bundled, key) ==> exists|m: int|
            0 <= m < bundled.len() && (#[trigger] bundled[m] matches Some(held) && held@ == key),
{
    if 0 <= n < bundled.len() {
        assert(id_view(bundled[n]) == id_view(bundled[n]));
    }
    if key_known(bundled, key) {
        let m = choose|m: int| 0 <= m < bundled.len() && #[trigger] id_view(bundled[m]) == Some(key);
        assert(bundled[m] is Some);
    }
}

/// What the install dialog shows of a waiting plugin: what its module says, whether it is an
/// update, whether the project knows its author, and how much heap is free for it. `None` if the
/// module could not be read.
pub fn offer_of(
    waiting: &Waiting,
    described: Option<Described>,
    bundled_keys: &Vec<Option<Vec<u8>>>,
    free: usize,
) -> (offer: Option<crate::overview::Offer>)
    requires
        described is Some ==> described->0.key.len() >= 8,
    ensures
        offer is Some <==> described is Some,
        (offer matches Some(o) ==> {
            &&& o.slot == waiting.slot
            &&& o.update == waiting.update
            &&& o.name == described->0.name
            &&& o.version == described->0.version
            &&& o.rights == described->0.rights
            &&& o.key@ == described->0.key@.take(8)
            &&& o.known == key_known(bundled_keys@, described->0.key@)
            &&& o.heap == described->0.heap
            &&& o.free == free
        }),
{
    match described {
        None => None,
        Some(said) => {
            let mut known = false;
            let mut n: usize = 0;
            while n < bundled_keys.len()
                invariant
                    n <= bundled_keys.len(),
                    known == exists|k: int|
                        0 <= k < n && #[trigger] id_view(bundled_keys[k]) == Some(said.key@),
                decreases bundled_keys.len() - n,
            {
                if let Some(key) = &bundled_keys[n] {
                    if same_id(key, &said.key) {
                        known = true;
                    }
                    assert(id_view(bundled_keys[n as int]) == Some(key@));
                }
                n = n + 1;
            }
            let mut key: [u8; 8] = [0; 8];
            let mut i: usize = 0;
            while i < 8
                invariant
                    i <= 8,
                    said.key.len() >= 8,
                    forall|k: int| 0 <= k < i ==> key[k] == said.key[k],
                decreases 8 - i,
            {
                key[i] = said.key[i];
                i = i + 1;
            }
            assert(key@ =~= said.key@.take(8));
            Some(
                crate::overview::Offer {
                    slot: waiting.slot,
                    update: waiting.update,
                    name: said.name,
                    version: said.version,
                    key,
                    known,
                    rights: said.rights,
                    heap: said.heap,
                    free,
                },
            )
        },
    }
}

/// The plugins waiting in slots, offered one after another at boot.
#[derive(Clone, Copy, Debug, PartialEq, Eq, Structural)]
pub struct Offers {
    /// How many wait.
    pub waiting: usize,
    /// The next to be offered.
    pub next: usize,
    /// How many were accepted.
    pub accepted: usize,
}

/// What follows an offer that could or could not be made.
#[derive(Clone, Copy, Debug, PartialEq, Eq, Structural)]
pub enum AfterOffer {
    /// Open the install dialog on it.
    Open,
    /// No plugin is left to offer, and accepted ones get their places after a restart.
    Restart,
    /// Nothing was accepted: home.
    Home,
}

impl Offers {
    pub fn new(waiting: usize) -> (r: Self)
        ensures
            r.waiting == waiting,
            r.next == 0,
            r.accepted == 0,
    {
        Offers { waiting, next: 0, accepted: 0 }
    }

    /// The next waiting plugin to try, each of them once and in order.
    pub fn next(&mut self) -> (r: Option<usize>)
        ensures
            (r matches Some(n) ==> n < old(self).waiting && final(self).next == n + 1),
            final(self).accepted == old(self).accepted && final(self).waiting == old(self).waiting,
            r is None ==> old(self).next >= old(self).waiting,
            old(self).next < old(self).waiting ==> r == Some(old(self).next) && *final(self)
                == (Offers { next: (old(self).next + 1) as usize, ..*old(self) }),
            old(self).next >= old(self).waiting ==> r is None && *final(self) == *old(self),
    {
        if self.next < self.waiting {
            let n: usize = self.next;
            self.next = n + 1;
            Some(n)
        } else {
            None
        }
    }

    /// What follows once an offer was made or none was left to make.
    pub fn after(&self, offered: bool) -> (r: AfterOffer)
        ensures
            r == AfterOffer::Open <==> offered,
            r == AfterOffer::Restart ==> self.accepted > 0,
            r == AfterOffer::Home ==> self.accepted == 0,
            r == (if offered {
                AfterOffer::Open
            } else if self.accepted > 0 {
                AfterOffer::Restart
            } else {
                AfterOffer::Home
            }),
    {
        if offered {
            AfterOffer::Open
        } else if self.accepted > 0 {
            AfterOffer::Restart
        } else {
            AfterOffer::Home
        }
    }
}

/// How many of the first `n` bundled plugins are removed. One without an id is none.
pub open spec fn removed_before(installed: Seq<Option<bool>>, n: int) -> int
    decreases n,
{
    if n <= 0 {
        0
    } else {
        removed_before(installed, n - 1) + (if installed[n - 1] == Some(false) {
            1int
        } else {
            0
        })
    }
}

/// The removed are those that are known and not installed: as many as are left when all others
/// are struck out.
pub proof fn removed_are_counted(installed: Seq<Option<bool>>)
    ensures
        removed_before(installed, installed.len() as int) == installed.filter(
            |one: Option<bool>| one == Some(false),
        ).len(),
    decreases installed.len(),
{
    let gone = |one: Option<bool>| one == Some(false);
    reveal(Seq::filter);
    if installed.len() > 0 {
        let rest = installed.drop_last();
        removed_are_counted(rest);
        same_removed(installed, rest, rest.len() as int);
    }
}

proof fn same_removed(a: Seq<Option<bool>>, b: Seq<Option<bool>>, n: int)
    requires
        n <= a.len(),
        n <= b.len(),
        forall|k: int| 0 <= k < n ==> a[k] == b[k],
    ensures
        removed_before(a, n) == removed_before(b, n),
    decreases n,
{
    if n > 0 {
        same_removed(a, b, n - 1);
    }
}

/// How many bundled plugins are removed, by whether each is installed.
pub fn removed(installed: &Vec<Option<bool>>) -> (r: usize)
    ensures
        r == removed_before(installed@, installed@.len() as int),
{
    let mut r: usize = 0;
    let mut n: usize = 0;
    while n < installed.len()
        invariant
            n <= installed@.len(),
            r <= n,
            r == removed_before(installed@, n as int),
        decreases installed@.len() - n,
    {
        if let Some(installed) = installed[n] {
            if !installed {
                r = r + 1;
            }
        }
        n = n + 1;
    }
    r
}

/// A plugin read from a slot lies in a range of the spare RAM if its first byte and its last do; one
/// that the firmware brings takes none of it.
pub proof fn a_plugin_lies_between_its_ends(gathered: Gathered, n: int, from: int, to: int)
    ensures
        (gathered.modules[n] matches Some(Source::Slot { start, len, .. }) ==> (gathered.lies_in(
            n,
            from,
            to,
        ) <==> start >= from && to >= start + len)),
        !(gathered.modules[n] matches Some(Source::Slot { .. })) ==> gathered.lies_in(n, from, to),
{
}

} // verus!
