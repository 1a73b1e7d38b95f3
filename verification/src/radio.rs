//! What is heard and what is said over the air: advertisers and networks around the knob, the
//! knob's own advertisement, and the answers to a peer's writes.

use vstd::prelude::*;
use vstd::string::*;
use trouble_host::advertise::AdStructure;
use crate::screens::said;
use crate::text::from_utf8;

verus! {

/// How many advertisers a scan window keeps.
pub const BLE_MAX_DEVICES: usize = 40;

/// Milliseconds between two Wi-Fi scans, and while a face listens.
pub const SCAN_INTERVAL: u64 = 30_000;

pub const NEARBY_WIFI_GAP: u64 = 1_000;

/// Milliseconds a Bluetooth scan lasts, and while a face listens.
pub const BLE_SCAN_WINDOW: u64 = 5_000;

pub const NEARBY_BLE_WINDOW: u64 = 2_000;

/// One advertiser seen during a scan window.
#[derive(Debug)]
pub struct SeenDevice {
    pub addr: [u8; 6],
    pub rssi: i8,
    pub name: Option<String>,
}

/// Each address once, and no more than are kept.
pub open spec fn seen_wf(seen: Seq<SeenDevice>) -> bool {
    &&& seen.len() <= 40
    &&& forall|i: int, j: int|
        0 <= i < j < seen.len() ==> (#[trigger] seen[i]).addr@ != (#[trigger] seen[j]).addr@
}

/// Where an address stands in the list, if it does.
pub open spec fn seen_at(seen: Seq<SeenDevice>, addr: Seq<u8>, i: int) -> Option<int>
    decreases seen.len() - i,
{
    if i < 0 || i >= seen.len() {
        None
    } else if seen[i].addr@ == addr {
        Some(i)
    } else {
        seen_at(seen, addr, i + 1)
    }
}

proof fn seen_at_is_first(seen: Seq<SeenDevice>, addr: Seq<u8>, i: int)
    requires
        0 <= i <= seen.len(),
    ensures
        (seen_at(seen, addr, i) matches Some(k) ==> i <= k < seen.len() && seen[k].addr@ == addr),
        (seen_at(seen, addr, i) is None ==> forall|k: int|
            i <= k < seen.len() ==> (#[trigger] seen[k]).addr@ != addr),
    decreases seen.len() - i,
{
    if i < seen.len() && seen[i].addr@ != addr {
        seen_at_is_first(seen, addr, i + 1);
    }
}

pub(crate) fn same_address(a: &[u8; 6], b: &[u8; 6]) -> (r: bool)
    ensures
        r == (a@ == b@),
{
    let mut i: usize = 0;
    while i < 6
        invariant
            i <= 6,
            forall|k: int| 0 <= k < i ==> a[k] == b[k],
        decreases 6 - i,
    {
        if a[i] != b[i] {
            assert(a@[i as int] != b@[i as int]);
            return false;
        }
        i = i + 1;
    }
    assert(a@ =~= b@);
    true
}

pub(crate) fn same_key(a: &[u8; 16], b: &[u8; 16]) -> (r: bool)
    ensures
        r == (a@ == b@),
{
    let mut i: usize = 0;
    while i < 16
        invariant
            i <= 16,
            forall|k: int| 0 <= k < i ==> a[k] == b[k],
        decreases 16 - i,
    {
        if a[i] != b[i] {
            assert(a@[i as int] != b@[i as int]);
            return false;
        }
        i = i + 1;
    }
    assert(a@ =~= b@);
    true
}

/// Takes one advertising report: one entry for each address, with the strength of its last
/// report and the first name that came. An address that is new once the list is full is passed
/// over.
pub fn note_report(seen: &mut Vec<SeenDevice>, addr: [u8; 6], rssi: i8, name: Option<String>)
    requires
        seen_wf(old(seen)@),
    ensures
        // Only the entry of the address changes, and every entry keeps its own.
        forall|i: int|
            0 <= i < old(seen)@.len() ==> i < final(seen)@.len() && (#[trigger] final(seen)@[i]).addr
                == old(seen)@[i].addr,
        forall|i: int|
            0 <= i < old(seen)@.len() && old(seen)@[i].addr@ != addr@ ==> (#[trigger] final(seen)@[i])
                == old(seen)@[i],
        forall|i: int|
            0 <= i < old(seen)@.len() && old(seen)@[i].addr@ == addr@ ==> (
            #[trigger] final(seen)@[i]).rssi == rssi && (old(seen)@[i].name is Some ==> final(seen)@[i].name
                == old(seen)@[i].name) && (old(seen)@[i].name is None ==> final(seen)@[i].name == name),
        seen_wf(final(seen)@),
        final(seen)@ == (match seen_at(old(seen)@, addr@, 0) {
            Some(k) => old(seen)@.update(
                k,
                SeenDevice {
                    addr: old(seen)@[k].addr,
                    rssi,
                    name: if old(seen)@[k].name is Some {
                        old(seen)@[k].name
                    } else {
                        name
                    },
                },
            ),
            None => if old(seen)@.len() < 40 {
                old(seen)@.push(SeenDevice { addr, rssi, name })
            } else {
                old(seen)@
            },
        }),
{
    proof {
        seen_at_is_first(seen@, addr@, 0);
    }
    let ghost before = seen@;
    let mut i: usize = 0;
    while i < seen.len()
        invariant
            i <= seen.len(),
            seen@ == before,
            before == old(seen)@,
            seen_wf(before),
            seen_at(before, addr@, 0) == seen_at(before, addr@, i as int),
        decreases seen.len() - i,
    {
        if same_address(&seen[i].addr, &addr) {
            seen[i].rssi = rssi;
            if seen[i].name.is_none() {
                seen[i].name = name;
            }
            assert(seen_at(before, addr@, 0) == Some(i as int));
            return;
        }
        i = i + 1;
    }
    if seen.len() < BLE_MAX_DEVICES {
        seen.push(SeenDevice { addr, rssi, name });
    }
}

/// Whether one comes before another, strongest first, and in the order they came where they are
/// equally strong.
pub open spec fn stronger(strengths: Seq<i8>, a: int, b: int) -> bool {
    strengths[a] > strengths[b] || (strengths[a] == strengths[b] && a < b)
}

/// The order of so many strengths, strongest first; equals keep the order they came in.
pub fn order_by_strength(strengths: &Vec<i8>) -> (order: Vec<usize>)
    ensures
        order.len() == strengths.len(),
        forall|i: int| 0 <= i < order.len() ==> (#[trigger] order[i]) < strengths.len(),
        forall|k: int| 0 <= k < strengths.len() ==> #[trigger] order@.contains(k as usize),
        forall|i: int, j: int|
            0 <= i < j < order.len() ==> stronger(
                strengths@,
                (#[trigger] order[i]) as int,
                (#[trigger] order[j]) as int,
            ),
{
    let mut order: Vec<usize> = Vec::new();
    let mut n: usize = 0;
    while n < strengths.len()
        invariant
            n <= strengths.len(),
            order.len() == n,
            forall|i: int| 0 <= i < order.len() ==> (#[trigger] order[i]) < n,
            forall|k: int| 0 <= k < n ==> #[trigger] order@.contains(k as usize),
            forall|i: int, j: int|
                0 <= i < j < order.len() ==> stronger(
                    strengths@,
                    (#[trigger] order[i]) as int,
                    (#[trigger] order[j]) as int,
                ),
        decreases strengths.len() - n,
    {
        let mut at: usize = 0;
        while at < order.len() && strengths[order[at]] >= strengths[n]
            invariant
                at <= order.len(),
                n < strengths.len(),
                forall|i: int| 0 <= i < order.len() ==> (#[trigger] order[i]) < n,
                forall|i: int|
                    0 <= i < at ==> strengths@[(#[trigger] order[i]) as int] >= strengths@[n as int],
            decreases order.len() - at,
        {
            at = at + 1;
        }
        let ghost before = order@;
        order.insert(at, n);
        proof {
            assert(order@[at as int] == n);
            assert forall|k: int| 0 <= k < n + 1 implies #[trigger] order@.contains(k as usize) by {
                if k < n {
                    assert(before.contains(k as usize));
                    let i = choose|i: int| 0 <= i < before.len() && before[i] == k as usize;
                    let j = if i < at {
                        i
                    } else {
                        i + 1
                    };
                    assert(order@[j] == k as usize);
                }
            }
            assert forall|i: int, j: int| 0 <= i < j < order.len() implies stronger(
                strengths@,
                (#[trigger] order@[i]) as int,
                (#[trigger] order@[j]) as int,
            ) by {
                let bi = if i < at {
                    i
                } else {
                    i - 1
                };
                let bj = if j < at {
                    j
                } else {
                    j - 1
                };
                if i != at && j != at {
                    assert(order@[i] == before[bi] && order@[j] == before[bj]);
                } else if i == at {
                    assert(order@[j] == before[bj]);
                    assert(strengths@[before[at as int] as int] < strengths@[n as int]);
                    if bj > at {
                        assert(stronger(strengths@, before[at as int] as int, before[bj] as int));
                    }
                } else {
                    assert(order@[i] == before[bi]);
                }
            }
        }
        n = n + 1;
    }
    order
}

/// Whether a Bluetooth scan window stays open: for its time, and only while the card's network
/// is not up.
pub fn window_open(elapsed: u64, window: u64, sharing: bool) -> (r: bool)
    ensures
        r ==> elapsed < window,
        sharing ==> !r,
        !r ==> sharing || elapsed >= window,
        r == (elapsed < window && !sharing),
{
    elapsed < window && !sharing
}

/// Whether a pause goes on: for the slow time, or only for the fast one while a face listens.
pub fn pause_goes_on(elapsed: u64, slow: u64, fast: u64, listening: bool) -> (r: bool)
    ensures
        elapsed >= slow ==> !r,
        listening && elapsed >= fast ==> !r,
        elapsed < slow && elapsed < fast ==> r,
        elapsed < slow && !listening ==> r,
        r == (elapsed < slow && !(listening && elapsed >= fast)),
{
    elapsed < slow && !(listening && elapsed >= fast)
}

/// How long a Bluetooth scan lasts.
pub fn ble_window(listening: bool) -> (r: u64)
    ensures
        r == (if listening {
            2_000
        } else {
            5_000u64
        }),
{
    if listening {
        NEARBY_BLE_WINDOW
    } else {
        BLE_SCAN_WINDOW
    }
}

/// Whether the Bluetooth scan stands down: it shares the radio with a connected peer, and with the
/// access point of the share dialog.
pub fn stands_down(peer: bool, sharing: bool) -> (r: bool)
    ensures
        peer ==> r,
        sharing ==> r,
        !peer && !sharing ==> !r,
        r == (peer || sharing),
{
    peer || sharing
}

/// How many of the first `n` devices said a name.
pub open spec fn named_before(seen: Seq<SeenDevice>, n: int) -> int
    decreases n,
{
    if n <= 0 {
        0
    } else {
        named_before(seen, n - 1) + (if seen[n - 1].name is Some {
            1int
        } else {
            0
        })
    }
}

/// How many of the devices seen said a name.
pub fn named(seen: &Vec<SeenDevice>) -> (r: usize)
    ensures
        r == named_before(seen@, seen@.len() as int),
{
    let mut r: usize = 0;
    let mut n: usize = 0;
    while n < seen.len()
        invariant
            n <= seen@.len(),
            r <= n,
            r == named_before(seen@, n as int),
        decreases seen@.len() - n,
    {
        if seen[n].name.is_some() {
            r = r + 1;
        }
        n = n + 1;
    }
    r
}

/// The Wi-Fi loop: whether the access point of the share dialog is up.
#[derive(Clone, Copy, Debug, PartialEq, Eq, Structural)]
pub struct WifiScan {
    pub sharing: bool,
}

/// What a round of the Wi-Fi loop does.
#[derive(Clone, Copy, Debug, PartialEq, Eq, Structural)]
pub struct WifiRound {
    /// Bring the access point up or take it down first.
    pub access_point: Option<bool>,
    /// Scan. Never while the access point is up: a scan switches channels, which stalls a
    /// download and drops a client.
    pub scan: bool,
}

impl WifiScan {
    pub fn new() -> (r: Self)
        ensures
            !r.sharing,
    {
        WifiScan { sharing: false }
    }

    /// Starts a round, with the share dialog open or not.
    pub fn round(&mut self, wanted: bool) -> (r: WifiRound)
        ensures
            // A scan and the access point never go together.
            r.scan ==> !final(self).sharing,
            !r.scan ==> final(self).sharing,
            (r.access_point matches Some(up) ==> up == wanted && up != old(self).sharing),
            r.access_point is None ==> final(self).sharing == old(self).sharing,
            final(self).sharing == wanted,
            r == (WifiRound {
                access_point: if wanted != old(self).sharing {
                    Some(wanted)
                } else {
                    None
                },
                scan: !wanted,
            }),
    {
        let access_point = if wanted != self.sharing {
            Some(wanted)
        } else {
            None
        };
        self.sharing = wanted;
        WifiRound { access_point, scan: !wanted }
    }

    /// Whether the loop still rests after a round: until the next scan is due, sooner while a
    /// face listens, and at once when the share dialog opens or closes.
    pub fn rests(&self, elapsed: u64, listening: bool, wanted: bool) -> (r: bool)
        ensures
            wanted != self.sharing ==> !r,
            wanted == self.sharing && elapsed < 1_000 ==> r,
            elapsed >= 30_000 ==> !r,
            r == (elapsed < 30_000 && !(listening && elapsed >= 1_000) && wanted == self.sharing),
    {
        elapsed < SCAN_INTERVAL && !(listening && elapsed >= NEARBY_WIFI_GAP) && wanted
            == self.sharing
    }
}

/// A structure of an advertisement that the knob sends.
#[derive(Debug)]
pub enum AdField {
    Flags(u8),
    CompleteLocalName(Vec<u8>),
    ServiceUuids128(Vec<[u8; 16]>),
    Unknown { ty: u8, data: Vec<u8> },
}

/// Service ids one after another.
pub open spec fn uuids_bytes(uuids: Seq<[u8; 16]>) -> Seq<u8>
    decreases uuids.len(),
{
    if uuids.len() == 0 {
        Seq::empty()
    } else {
        uuids_bytes(uuids.drop_last()) + uuids.last()@
    }
}

/// How a structure is written: its length, its type and its bytes.
pub open spec fn field_bytes(field: AdField) -> Seq<u8> {
    match field {
        AdField::Flags(flags) => seq![2u8, 0x01, flags],
        AdField::CompleteLocalName(name) => seq![(name@.len() + 1) as u8, 0x09u8] + name@,
        AdField::ServiceUuids128(uuids) => seq![(uuids@.len() * 16 + 1) as u8, 0x07u8] + uuids_bytes(
            uuids@,
        ),
        AdField::Unknown { ty, data } => seq![(data@.len() + 1) as u8, ty] + data@,
    }
}

/// How structures are written, one after another.
pub open spec fn fields_bytes(fields: Seq<AdField>) -> Seq<u8>
    decreases fields.len(),
{
    if fields.len() == 0 {
        Seq::empty()
    } else {
        fields_bytes(fields.drop_last()) + field_bytes(fields.last())
    }
}

/// `AdStructure::encode_slice` of trouble-host: the structures one after another in a packet of
/// 31 bytes, each as its length, its type and its bytes. It fails if they do not fit.
#[verifier::external_body]
fn encode_fields(fields: &Vec<AdField>) -> (r: Option<Vec<u8>>)
    ensures
        r is Some <==> fields_bytes(fields@).len() <= 31,
        r is Some ==> r->0@ == fields_bytes(fields@),
{
    let structures: Vec<AdStructure> = fields.iter().map(|field| match field {
        AdField::Flags(flags) => AdStructure::Flags(*flags),
        AdField::CompleteLocalName(name) => AdStructure::CompleteLocalName(name),
        AdField::ServiceUuids128(uuids) => AdStructure::ServiceUuids128(uuids),
        AdField::Unknown { ty, data } => AdStructure::Unknown { ty: *ty, data },
    }).collect();
    let mut packet = [0u8; 31];
    let len = AdStructure::encode_slice(&structures, &mut packet).ok()?;
    Some(packet[..len].to_vec())
}

/// The flags the knob advertises with: generally discoverable, without classic Bluetooth.
pub const AD_FLAGS: u8 = 0x06;

/// The type of the structure that says what a device is.
pub const AD_TYPE_APPEARANCE: u8 = 0x19;

/// What the knob calls itself.
pub const BLE_DEVICE_NAME: &'static str = "TeeToTum";

/// The bytes of the knob's advertisement.
pub open spec fn advertisement_bytes(appearance: Seq<u8>, name: Seq<u8>) -> Seq<u8> {
    seq![2u8, 0x01, 0x06] + seq![3u8, 0x19] + appearance + seq![(name.len() + 1) as u8, 0x09u8]
        + name
}

/// The knob's advertisement: its flags, what it is, and its name. `None` if a name is so long
/// that they do not fit a packet of 31 bytes.
pub fn advertisement(appearance: [u8; 2], name: Vec<u8>) -> (r: Option<Vec<u8>>)
    ensures
        r is Some <==> name.len() <= 22,
        r is Some ==> r->0@ == advertisement_bytes(appearance@, name@),
{
    let mut data: Vec<u8> = Vec::new();
    data.push(appearance[0]);
    data.push(appearance[1]);
    assert(data@ =~= appearance@);
    let mut fields: Vec<AdField> = Vec::new();
    fields.push(AdField::Flags(AD_FLAGS));
    fields.push(AdField::Unknown { ty: AD_TYPE_APPEARANCE, data });
    fields.push(AdField::CompleteLocalName(name));
    proof {
        assert(fields@.drop_last().drop_last().drop_last() =~= Seq::<AdField>::empty());
        reveal_with_fuel(fields_bytes, 4);
        assert(fields@.drop_last().last() == fields@[1]);
        assert(fields@.drop_last().drop_last().last() == fields@[0]);
        assert(fields_bytes(fields@) =~= advertisement_bytes(appearance@, name@));
    }
    encode_fields(&fields)
}

/// The knob's answer to a scan: the service it offers, low byte first.
pub fn scan_response(service: [u8; 16]) -> (r: Option<Vec<u8>>)
    ensures
        r is Some,
        r->0@ == seq![17u8, 0x07] + service@,
{
    let mut uuids: Vec<[u8; 16]> = Vec::new();
    uuids.push(service);
    let mut fields: Vec<AdField> = Vec::new();
    fields.push(AdField::ServiceUuids128(uuids));
    proof {
        assert(fields@.drop_last() =~= Seq::<AdField>::empty());
        assert(uuids@.drop_last() =~= Seq::<[u8; 16]>::empty());
        reveal_with_fuel(fields_bytes, 2);
        reveal_with_fuel(uuids_bytes, 2);
        assert(fields_bytes(fields@) =~= seq![17u8, 0x07] + service@);
    }
    encode_fields(&fields)
}

/// What a packet carries, structure by structure: the name of a structure of type 8 or 9, which are
/// a shortened and a complete one, and `None` for any other. A length of 0 or 1 is a structure of
/// that one byte without a name; so is one that claims more than is left, of its length and its
/// type.
pub open spec fn names_in(data: Seq<u8>) -> Seq<Option<Seq<u8>>>
    decreases data.len(),
{
    if data.len() == 0 {
        Seq::empty()
    } else if data[0] < 2 || data.len() == 1 {
        seq![None] + names_in(data.skip(1))
    } else if data[0] >= data.len() {
        seq![None] + names_in(data.skip(2))
    } else {
        seq![
            if data[1] == 0x08 || data[1] == 0x09 {
                Some(data.subrange(2, data[0] + 1))
            } else {
                None
            },
        ] + names_in(data.skip(data[0] + 1))
    }
}

/// Names as contracts speak of them.
pub open spec fn name_views(names: Seq<Option<Vec<u8>>>) -> Seq<Option<Seq<u8>>> {
    names.map_values(|name: Option<Vec<u8>>| crate::plugins::id_view(name))
}

/// `AdStructure::decode` of trouble-host: the structures of a packet one after another, of each the
/// name it carries, if it does. A structure that cannot be read carries none; the next is looked
/// for behind the bytes that were taken for it.
#[verifier::external_body]
fn decode_names(data: &[u8]) -> (r: Vec<Option<Vec<u8>>>)
    ensures
        name_views(r@) == names_in(data@),
{
    AdStructure::decode(data).map(|structure| match structure {
        Ok(AdStructure::CompleteLocalName(name)) => Some(name.to_vec()),
        Ok(AdStructure::ShortenedLocalName(name)) => Some(name.to_vec()),
        Ok(_) => None,
        Err(_) => None,
    }).collect()
}

/// The first of these names that is UTF-8.
pub open spec fn first_text(names: Seq<Option<Seq<u8>>>, n: int) -> Option<Seq<char>>
    decreases names.len() - n,
{
    if n < 0 || n >= names.len() {
        None
    } else if names[n] matches Some(name) && vstd::utf8::valid_utf8(name) {
        Some(vstd::utf8::decode_utf8(names[n]->0))
    } else {
        first_text(names, n + 1)
    }
}

/// The first of these names that is UTF-8, as text.
pub fn first_name(names: &Vec<Option<Vec<u8>>>) -> (r: Option<String>)
    ensures
        said(r) == first_text(name_views(names@), 0),
{
    let mut n: usize = 0;
    while n < names.len()
        invariant
            n <= names.len(),
            first_text(name_views(names@), 0) == first_text(name_views(names@), n as int),
        decreases names.len() - n,
    {
        assert(name_views(names@)[n as int] == crate::plugins::id_view(names@[n as int]));
        if let Some(name) = &names[n] {
            if let Some(text) = from_utf8(name.as_slice()) {
                return Some(text.to_owned());
            }
        }
        n = n + 1;
    }
    None
}

/// The name in an advertisement, complete or shortened, if it carries one that is text.
pub fn local_name(data: &[u8]) -> (r: Option<String>)
    ensures
        said(r) == first_text(names_in(data@), 0),
{
    let names = decode_names(data);
    first_name(&names)
}

/// What the knob advertises is read back by a scan: the name in the packet is the knob's.
pub proof fn a_scan_reads_the_advertised_name(appearance: Seq<u8>, name: Seq<u8>)
    requires
        appearance.len() == 2,
        0 < name.len() <= 22,
        vstd::utf8::valid_utf8(name),
    ensures
        first_text(names_in(advertisement_bytes(appearance, name)), 0) == Some(
            vstd::utf8::decode_utf8(name),
        ),
{
    let data = advertisement_bytes(appearance, name);
    let second = seq![3u8, 0x19] + appearance + seq![(name.len() + 1) as u8, 0x09u8] + name;
    let third = seq![(name.len() + 1) as u8, 0x09u8] + name;
    assert(data.skip(3) =~= second);
    assert(second.skip(4) =~= third);
    assert(third.skip(name.len() as int + 2) =~= Seq::<u8>::empty());
    assert(third.subrange(2, name.len() as int + 2) =~= name);
    assert(names_in(third.skip(third[0] + 1)) =~= Seq::<Option<Seq<u8>>>::empty());
    assert(names_in(third) =~= seq![Some(name)]);
    assert(names_in(second) =~= seq![None, Some(name)]);
    assert(names_in(data) =~= seq![None, None, Some(name)]);
    reveal_with_fuel(first_text, 4);
}

/// The knob's own address, low byte first: the chip's turned round, with the two top bits that
/// mark a fixed random address.
pub fn identity_address(mac: [u8; 6]) -> (r: [u8; 6])
    ensures
        forall|i: int| 0 <= i < 5 ==> r[i] == mac[5 - i],
        r[5] == mac[0] | 0xC0,
{
    [mac[5], mac[4], mac[3], mac[2], mac[1], mac[0] | 0xC0]
}

/// A bond as the settings keep it.
#[derive(Clone, Copy, Debug, PartialEq, Eq)]
pub struct Bond {
    pub address: [u8; 6],
    pub ltk: [u8; 16],
    pub irk: Option<[u8; 16]>,
    pub level: u8,
}

/// A bond as the Bluetooth host takes it, its keys low byte first.
#[derive(Clone, Copy, Debug, PartialEq, Eq)]
pub struct HostBond {
    pub address: [u8; 6],
    pub ltk: [u8; 16],
    pub irk: Option<[u8; 16]>,
    /// Whether the peer was authenticated when the keys were made.
    pub authenticated: bool,
}

/// A bond from the settings, as the host takes it: level 2 is an authenticated one.
pub open spec fn host_bond(bond: Bond) -> HostBond {
    HostBond {
        address: bond.address,
        ltk: bond.ltk,
        irk: bond.irk,
        authenticated: bond.level == 2,
    }
}

pub fn bond_information(bond: &Bond) -> (r: HostBond)
    ensures
        r == host_bond(*bond),
{
    HostBond {
        address: bond.address,
        ltk: bond.ltk,
        irk: bond.irk,
        authenticated: bond.level == 2,
    }
}

/// A bond from the host, as the settings keep it.
pub open spec fn kept_bond(info: HostBond) -> Bond {
    Bond {
        address: info.address,
        ltk: info.ltk,
        irk: info.irk,
        level: if info.authenticated {
            2
        } else {
            1
        },
    }
}

pub fn stored_bond(info: &HostBond) -> (r: Bond)
    ensures
        r == kept_bond(*info),
{
    Bond {
        address: info.address,
        ltk: info.ltk,
        irk: info.irk,
        level: if info.authenticated {
            2
        } else {
            1
        },
    }
}

/// Whether two bonds are with the same peer: the same address and the same key that resolves it.
pub open spec fn same_peer(a: HostBond, b: HostBond) -> bool {
    &&& a.address@ == b.address@
    &&& match (a.irk, b.irk) {
        (Some(a), Some(b)) => a@ == b@,
        (None, None) => true,
        _ => false,
    }
}

/// The bonds among the first `n` that are with another peer.
pub open spec fn others_before(known: Seq<HostBond>, bond: HostBond, n: int) -> Seq<usize>
    decreases n,
{
    if n <= 0 {
        Seq::empty()
    } else if same_peer(known[n - 1], bond) {
        others_before(known, bond, n - 1)
    } else {
        others_before(known, bond, n - 1).push((n - 1) as usize)
    }
}

fn is_peer(a: &HostBond, b: &HostBond) -> (r: bool)
    ensures
        r == same_peer(*a, *b),
{
    let keys = match (&a.irk, &b.irk) {
        (Some(a), Some(b)) => same_key(a, b),
        (None, None) => true,
        _ => false,
    };
    keys && same_address(&a.address, &b.address)
}

/// The bonds to drop once a new one is made: one is kept, so one is known.
pub fn other_bonds(known: &Vec<HostBond>, bond: &HostBond) -> (r: Vec<usize>)
    ensures
        r@ == others_before(known@, *bond, known@.len() as int),
{
    let mut r: Vec<usize> = Vec::new();
    let mut n: usize = 0;
    while n < known.len()
        invariant
            n <= known@.len(),
            r@ == others_before(known@, *bond, n as int),
        decreases known@.len() - n,
    {
        if !is_peer(&known[n], bond) {
            r.push(n);
        }
        n = n + 1;
    }
    r
}

/// A bond survives a restart: what the host hands over to be kept is what it is given back, and
/// a kept bond is kept again as it was.
pub proof fn bonds_survive_a_restart(host: HostBond, kept: Bond)
    requires
        kept.level == 1 || kept.level == 2,
    ensures
        host_bond(kept_bond(host)) == host,
        kept_bond(host_bond(kept)) == kept,
{
}

/// What a peer wrote, and whether it could be read as what it should be.
#[derive(Clone, Copy, Debug, PartialEq, Eq, Structural)]
pub enum Written {
    /// A command or a piece of an upload.
    Upload { valid: bool },
    /// Which plugin of the list it wants to read.
    Select { valid: bool },
    Settings { valid: bool },
    /// Anything else, reads included.
    Other,
}

/// What a peer is answered.
#[derive(Clone, Copy, Debug, PartialEq, Eq, Structural)]
pub enum Reply {
    Accept,
    /// Accept, once the device loop took the command.
    AcceptCommand,
    ValueNotAllowed,
    WriteNotPermitted,
}

/// What a peer's request is answered. Uploads are taken only while the receive dialog is open;
/// what cannot be read is refused.
pub fn reply(written: Written, receiving: bool) -> (r: Reply)
    ensures
        written is Upload && !receiving ==> r == Reply::WriteNotPermitted,
        r == Reply::AcceptCommand ==> receiving && written == (Written::Upload { valid: true }),
        r == Reply::WriteNotPermitted ==> written is Upload && !receiving,
        r == Reply::ValueNotAllowed ==> written == (Written::Upload { valid: false }) || written == (
        Written::Select { valid: false }) || written == (Written::Settings { valid: false }),
        r == Reply::Accept ==> !(written is Upload),
        r == (match written {
            Written::Upload { valid } => if !receiving {
                Reply::WriteNotPermitted
            } else if valid {
                Reply::AcceptCommand
            } else {
                Reply::ValueNotAllowed
            },
            Written::Select { valid } | Written::Settings { valid } => if valid {
                Reply::Accept
            } else {
                Reply::ValueNotAllowed
            },
            Written::Other => Reply::Accept,
        }),
{
    match written {
        Written::Upload { valid } => if !receiving {
            Reply::WriteNotPermitted
        } else if valid {
            Reply::AcceptCommand
        } else {
            Reply::ValueNotAllowed
        },
        Written::Select { valid } => if valid {
            Reply::Accept
        } else {
            Reply::ValueNotAllowed
        },
        Written::Settings { valid } => if valid {
            Reply::Accept
        } else {
            Reply::ValueNotAllowed
        },
        Written::Other => Reply::Accept,
    }
}

/// An order by strength never puts a weaker one first, and among equals the one that came first.
pub proof fn the_strongest_come_first(strengths: Seq<i8>, a: int, b: int)
    ensures
        stronger(strengths, a, b) ==> strengths[a] >= strengths[b],
        strengths[a] > strengths[b] ==> stronger(strengths, a, b),
        strengths[a] == strengths[b] ==> (stronger(strengths, a, b) <==> a < b),
        !(stronger(strengths, a, b) && stronger(strengths, b, a)),
{
}

/// As many are named as there are devices with a name.
pub proof fn the_named_are_counted(seen: Seq<SeenDevice>, n: int)
    requires
        0 <= n <= seen.len(),
    ensures
        named_before(seen, n) == seen.take(n).filter(|d: SeenDevice| d.name is Some).len(),
    decreases n,
{
    reveal(Seq::filter);
    if n > 0 {
        the_named_are_counted(seen, n - 1);
        assert(seen.take(n).drop_last() =~= seen.take(n - 1));
    } else {
        assert(seen.take(0) =~= Seq::<SeenDevice>::empty());
    }
}

/// The advertisement is made of whole structures: flags that offer the knob to all and deny classic
/// Bluetooth, what it is, and its complete name, each behind its own length and type, and nothing
/// behind them.
pub proof fn the_advertisement_is_whole(appearance: Seq<u8>, name: Seq<u8>)
    requires
        appearance.len() == 2,
        name.len() <= 22,
    ensures
        ({
            let data = advertisement_bytes(appearance, name);
            &&& data.len() == 9 + name.len()
            &&& data[0] == 2 && data[1] == 0x01 && data[2] == 0x06
            &&& data[3] == 3 && data[4] == 0x19
            &&& data[5] == appearance[0] && data[6] == appearance[1]
            &&& data[7] == name.len() + 1 && data[8] == 0x09
            &&& data.skip(9) == name
        }),
{
    assert(advertisement_bytes(appearance, name).skip(9) =~= name);
}

/// The name that is told is one of those heard, it is text, and none heard before it is.
pub proof fn the_first_readable_name_is_told(names: Seq<Option<Seq<u8>>>, n: int, k: int)
    requires
        0 <= n <= k < names.len(),
        names[k] matches Some(name) && vstd::utf8::valid_utf8(name),
        forall|i: int|
            n <= i < k ==> ((#[trigger] names[i]) matches Some(name)
                ==> !vstd::utf8::valid_utf8(name)),
    ensures
        first_text(names, n) == Some(vstd::utf8::decode_utf8(names[k]->0)),
    decreases k - n,
{
    if n < k {
        the_first_readable_name_is_told(names, n + 1, k);
    }
}

/// Where no name that was heard is text, none is told.
pub proof fn without_a_readable_name_none_is_told(names: Seq<Option<Seq<u8>>>, n: int)
    requires
        0 <= n <= names.len(),
        forall|i: int|
            n <= i < names.len() ==> ((#[trigger] names[i]) matches Some(name)
                ==> !vstd::utf8::valid_utf8(name)),
    ensures
        first_text(names, n) is None,
    decreases names.len() - n,
{
    if n < names.len() {
        without_a_readable_name_none_is_told(names, n + 1);
    }
}

/// A bond keeps its peer's address and keys on the way to the settings and back, and its level tells
/// the host whether the peer was authenticated: at level 2 and no other.
pub proof fn a_bond_keeps_its_keys(host: HostBond, kept: Bond)
    ensures
        host_bond(kept).address == kept.address,
        host_bond(kept).ltk == kept.ltk,
        host_bond(kept).irk == kept.irk,
        host_bond(kept).authenticated <==> kept.level == 2,
        kept_bond(host).address == host.address,
        kept_bond(host).ltk == host.ltk,
        kept_bond(host).irk == host.irk,
        host.authenticated ==> kept_bond(host).level == 2,
        !host.authenticated ==> kept_bond(host).level == 1,
{
}

/// A peer is known by its address and by the key that resolves it: where either differs, it is
/// another, and the long-term key has no part in it.
pub proof fn a_peer_is_its_address_and_its_key(a: HostBond, b: HostBond)
    ensures
        a.address@ != b.address@ ==> !same_peer(a, b),
        (a.irk is Some) != (b.irk is Some) ==> !same_peer(a, b),
        a.irk is Some && b.irk is Some && a.irk->0@ != b.irk->0@ ==> !same_peer(a, b),
        a.address == b.address && a.irk == b.irk ==> same_peer(a, b),
        same_peer(a, b) == same_peer(b, a),
{
}

/// What is dropped once a new bond is made is every bond with another peer, each once and in its
/// order, and never the one with the same peer.
pub proof fn one_bond_is_kept(known: Seq<HostBond>, bond: HostBond, n: int)
    requires
        0 <= n <= known.len() <= usize::MAX,
    ensures
        forall|k: int|
            0 <= k < n ==> (#[trigger] others_before(known, bond, n).contains(k as usize)
                <==> !same_peer(known[k], bond)),
        forall|i: int|
            0 <= i < others_before(known, bond, n).len() ==> (#[trigger] others_before(
                known,
                bond,
                n,
            )[i]) < n,
        forall|i: int, j: int|
            0 <= i < j < others_before(known, bond, n).len() ==> (#[trigger] others_before(
                known,
                bond,
                n,
            )[i]) < (#[trigger] others_before(known, bond, n)[j]),
    decreases n,
{
    if n > 0 {
        one_bond_is_kept(known, bond, n - 1);
        let before = others_before(known, bond, n - 1);
        let after = others_before(known, bond, n);
        assert forall|k: int| 0 <= k < n implies (#[trigger] after.contains(k as usize)
            <==> !same_peer(known[k], bond)) by {
            if after.len() > before.len() {
                assert(after[before.len() as int] == (n - 1) as usize);
            }
            if before.contains(k as usize) {
                let i = choose|i: int| 0 <= i < before.len() && before[i] == k as usize;
                assert(after[i] == k as usize);
            }
            if k < n - 1 && after.contains(k as usize) {
                let i = choose|i: int| 0 <= i < after.len() && after[i] == k as usize;
                assert(before[i] == k as usize);
            }
        }
    }
}

} // verus!
