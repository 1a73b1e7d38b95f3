//! The menus: the ids their entries go by, and where plugins stand in the two rings.
//!
//! A ring has twelve slots, counted clockwise from twelve o'clock. The first page of each ring
//! carries entries of the firmware's own and leaves a run of slots to the plugins; every later
//! page carries only its top entry and gives the other eleven slots away.

use vstd::prelude::*;

verus! {

/// Slots in a ring.
pub const SLOTS: usize = 12;

/// The slot of the gear, left of the top entry.
pub const FIRMWARE_SLOT: usize = 11;

pub const SETTING_ABOUT: u16 = 0;

pub const SETTING_ORIENTATION: u16 = 1;

pub const SETTING_THEME: u16 = 2;

pub const SETTING_BRIGHTNESS: u16 = 3;

pub const SETTING_HAPTICS: u16 = 4;

pub const SETTING_PLAYER_ABOUT: u16 = 5;

pub const SETTING_COVER: u16 = 6;

pub const SETTING_MOTION: u16 = 7;

pub const SETTING_BACKGROUND_ABOUT: u16 = 8;

pub const SETTING_POINTS: u16 = 9;

pub const SETTING_BRIGHTEST: u16 = 10;

pub const SETTING_CENTRE: u16 = 11;

pub const SETTING_ACCENT: u16 = 12;

/// The first of the QR codes; each link has the next id.
pub const SETTING_QR: u16 = 13;

/// How many links there are.
pub const LINKS: usize = 11;

/// The dialog that offers a plugin waiting in a slot.
pub const SETTING_INSTALL: u16 = 24;

/// The dialog that receives a plugin over Bluetooth.
pub const SETTING_RECEIVE: u16 = 25;

/// The dialog that serves the card over Wi-Fi.
pub const SETTING_SHARE: u16 = 26;

pub const SETTING_APP_ABOUT: u16 = 27;

pub const SETTING_FORGET: u16 = 28;

/// The first slot for a plugin in the settings.
pub const PLUGIN_SLOT: usize = 7;

/// The first slot for a face at home.
pub const HOME_PLUGIN_SLOT: usize = 1;

pub const HOME_PLAYER_SLOT: usize = 9;

pub const HOME_SHARE_SLOT: usize = 10;

pub const SETTINGS_PLAYER_SLOT: usize = 10;

pub const SETTINGS_SHARE_SLOT: usize = FIRMWARE_SLOT;

pub const FACES_ON_FIRST_HOME_PAGE: usize = 8;

pub const PLUGINS_ON_FIRST_SETTINGS_PAGE: usize = 3;

/// The first slot for a plugin on a later page.
pub const LATER_PAGE_SLOT: usize = 1;

pub const PLUGINS_PER_LATER_PAGE: usize = 11;

/// Which link an id opens, if it is the id of one.
pub fn qr_index(id: u16) -> (r: Option<usize>)
    ensures
        r == (if SETTING_QR <= id && id < SETTING_QR + LINKS {
            Some((id - SETTING_QR) as usize)
        } else {
            None
        }),
{
    if id >= SETTING_QR && ((id - SETTING_QR) as usize) < LINKS {
        Some((id - SETTING_QR) as usize)
    } else {
        None
    }
}

/// The id of link `n`.
pub fn qr_entry(n: usize) -> (id: u16)
    requires
        n < LINKS,
    ensures
        id == SETTING_QR + n,
{
    SETTING_QR + n as u16
}

/// The ring of links, as slot and id: every link in the slot its table names.
pub fn qr_menu(slots: &Vec<usize>) -> (menu: Vec<(usize, u16)>)
    requires
        slots.len() == LINKS,
        slots[0] == 0,
    ensures
        menu.len() == LINKS,
        forall|n: int| 0 <= n < LINKS ==> menu[n] == (slots[n], (SETTING_QR + n) as u16),
{
    let mut menu: Vec<(usize, u16)> = Vec::new();
    let mut n: usize = 0;
    while n < LINKS
        invariant
            n <= LINKS,
            slots.len() == LINKS,
            menu.len() == n,
            forall|k: int| 0 <= k < n ==> menu[k] == (slots[k], (SETTING_QR + k) as u16),
        decreases LINKS - n,
    {
        menu.push((slots[n], qr_entry(n)));
        n = n + 1;
    }
    menu
}

/// Whether the device stands at home with nothing opened: one menu deep, in the home menu, with
/// no dialog over it.
pub fn at_home(depth: usize, menu_is_home: bool, opened: bool) -> (r: bool)
    ensures
        opened ==> !r,
        !menu_is_home ==> !r,
        r ==> depth == 1,
        depth == 1 && menu_is_home && !opened ==> r,
        r == (depth == 1 && menu_is_home && !opened),
{
    depth == 1 && menu_is_home && !opened
}

/// What the screen shows while no menu is up.
#[derive(Clone, Copy, Debug, PartialEq, Eq, Structural)]
pub enum Face {
    Player,
    Plugin(u8),
}

impl Default for Face {
    fn default() -> (r: Self)
        ensures
            r == Face::Player,
    {
        Face::Player
    }
}

impl Face {
    /// The id a face's entry carries: 0 for the player, the plugins from 1.
    pub open spec fn id_spec(self) -> u16 {
        match self {
            Face::Player => 0,
            Face::Plugin(n) => (n + 1) as u16,
        }
    }

    /// The face an id stands for. Only the low byte of a plugin's number is kept.
    pub open spec fn of_spec(id: u16) -> Face {
        if id == 0 {
            Face::Player
        } else {
            Face::Plugin(((id - 1) % 256) as u8)
        }
    }

    pub fn id(self) -> (r: u16)
        ensures
            r == self.id_spec(),
    {
        match self {
            Face::Player => 0,
            Face::Plugin(n) => n as u16 + 1,
        }
    }

    pub fn of(id: u16) -> (r: Self)
        ensures
            r == Face::of_spec(id),
    {
        if id == 0 {
            Face::Player
        } else {
            Face::Plugin(((id - 1) % 256) as u8)
        }
    }
}

/// Every face is found again by the id of its entry.
pub proof fn face_found_by_its_id(face: Face)
    ensures
        Face::of_spec(face.id_spec()) == face,
{
}

/// What a plugin's menu holds: its About, and whether it is installed.
#[derive(Clone, Copy, Debug, PartialEq, Eq, Structural)]
pub enum PluginSetting {
    About,
    Installed,
}

impl PluginSetting {
    /// The id of plugin `n`'s entry: `2n` for its About, `2n + 1` for whether it is installed.
    pub open spec fn id_spec(self, n: int) -> int {
        2 * n + (if self is About { 0int } else { 1 })
    }

    /// The plugin and the entry behind an id, if it is one of the first `places` plugins.
    pub open spec fn of_spec(id: u16, places: int) -> Option<(usize, PluginSetting)> {
        if id / 2 < places {
            Some(
                (
                    (id / 2) as usize,
                    if id % 2 == 0 {
                        PluginSetting::About
                    } else {
                        PluginSetting::Installed
                    },
                ),
            )
        } else {
            None
        }
    }

    pub fn id(self, n: usize) -> (r: u16)
        requires
            n < 0x8000,
        ensures
            r == self.id_spec(n as int),
    {
        let base: u16 = 2 * n as u16;
        match self {
            PluginSetting::About => base,
            PluginSetting::Installed => base + 1,
        }
    }

    pub fn of(id: u16, places: usize) -> (r: Option<(usize, Self)>)
        ensures
            r == PluginSetting::of_spec(id, places as int),
    {
        let n: usize = (id / 2) as usize;
        if n < places {
            if id % 2 == 0 {
                Some((n, PluginSetting::About))
            } else {
                Some((n, PluginSetting::Installed))
            }
        } else {
            None
        }
    }
}

/// The entries of every plugin that has a place are told apart by their ids alone.
pub proof fn plugin_setting_found_by_its_id(setting: PluginSetting, n: int, places: int)
    requires
        0 <= n < places <= 0x8000,
    ensures
        PluginSetting::of_spec(setting.id_spec(n) as u16, places) == Some((n as usize, setting)),
{
}

/// Where the `n`th plugin of a ring stands, as page and slot: on the first page while its `first`
/// places from `slot` on last, then eleven to a page.
pub open spec fn placed(n: int, first: int, slot: int) -> (int, int) {
    if n < first {
        (0, slot + n)
    } else {
        (1 + (n - first) / 11, 1 + (n - first) % 11)
    }
}

pub fn place(n: usize, first: usize, slot: usize) -> (r: (usize, usize))
    requires
        slot + first <= SLOTS,
    ensures
        (r.0 as int, r.1 as int) == placed(n as int, first as int, slot as int),
{
    if n < first {
        (0, slot + n)
    } else {
        let past: usize = n - first;
        (1 + past / PLUGINS_PER_LATER_PAGE, LATER_PAGE_SLOT + past % PLUGINS_PER_LATER_PAGE)
    }
}

/// How many pages `count` plugins take: the least number that holds them all.
pub open spec fn pages_spec(count: int, first: int) -> int {
    if count <= first {
        1
    } else {
        1 + (count - first + 10) / 11
    }
}

pub fn pages_for(count: usize, first: usize) -> (r: usize)
    ensures
        r == pages_spec(count as int, first as int),
{
    if count <= first {
        1
    } else {
        let past: usize = count - first;
        if past % PLUGINS_PER_LATER_PAGE == 0 {
            1 + past / PLUGINS_PER_LATER_PAGE
        } else {
            2 + past / PLUGINS_PER_LATER_PAGE
        }
    }
}

/// Two plugins of a ring never stand in the same place.
pub proof fn places_differ(n: int, m: int, first: int, slot: int)
    requires
        0 <= n < m,
        0 <= first,
    ensures
        placed(n, first, slot) != placed(m, first, slot),
{
}

/// Every plugin stands on one of the pages counted for the ring, in a slot the ring has, and
/// never in the slot of a later page's top entry.
pub proof fn places_lie_in_the_ring(n: int, count: int, first: int, slot: int)
    requires
        0 <= n < count,
        0 < first,
        0 < slot,
        slot + first <= SLOTS,
    ensures
        0 <= placed(n, first, slot).0 < pages_spec(count, first),
        0 < placed(n, first, slot).1 < SLOTS,
{
}

/// No page is counted that stays without a plugin, beyond the first.
pub proof fn last_page_is_used(count: int, first: int, slot: int)
    requires
        0 < count,
        0 < first,
        count > first,
    ensures
        placed(count - 1, first, slot).0 == pages_spec(count, first) - 1,
{
}

/// A place in a ring, and the plugin that stands there; `None` is the entry for receiving one.
#[derive(Clone, Copy, Debug, PartialEq, Eq, Structural)]
pub struct Placed {
    pub page: usize,
    pub slot: usize,
    pub plugin: Option<usize>,
}

/// How many of the first `n` plugins have a place.
pub open spec fn listed_before(listed: Seq<bool>, n: int) -> int
    decreases n,
{
    if n <= 0 {
        0
    } else {
        listed_before(listed, n - 1) + (if listed[n - 1] { 1int } else { 0 })
    }
}

/// The first `n` plugins laid out without gaps, in their order.
pub open spec fn laid_out(listed: Seq<bool>, n: int, first: int, slot: int) -> Seq<Placed>
    decreases n,
{
    if n <= 0 {
        Seq::empty()
    } else {
        let before = laid_out(listed, n - 1, first, slot);
        if listed[n - 1] {
            let at = placed(before.len() as int, first, slot);
            before.push(
                Placed { page: at.0 as usize, slot: at.1 as usize, plugin: Some((n - 1) as usize) },
            )
        } else {
            before
        }
    }
}

fn lay_out(listed: &Vec<bool>, first: usize, slot: usize) -> (ring: Vec<Placed>)
    requires
        slot + first <= SLOTS,
    ensures
        ring@ == laid_out(listed@, listed.len() as int, first as int, slot as int),
        ring.len() <= listed.len(),
{
    let mut ring: Vec<Placed> = Vec::new();
    let mut n: usize = 0;
    while n < listed.len()
        invariant
            n <= listed.len(),
            slot + first <= SLOTS,
            ring@ == laid_out(listed@, n as int, first as int, slot as int),
            ring.len() <= n,
        decreases listed.len() - n,
    {
        if listed[n] {
            let (page, slot) = place(ring.len(), first, slot);
            ring.push(Placed { page, slot, plugin: Some(n) });
        }
        n = n + 1;
    }
    ring
}

/// The plugins at home, in their order: those that are installed.
pub fn home_ring(installed: &Vec<bool>) -> (ring: Vec<Placed>)
    ensures
        ring@ == laid_out(
            installed@,
            installed.len() as int,
            FACES_ON_FIRST_HOME_PAGE as int,
            HOME_PLUGIN_SLOT as int,
        ),
{
    lay_out(installed, FACES_ON_FIRST_HOME_PAGE, HOME_PLUGIN_SLOT)
}

/// The settings ring's plugins, and after them the entry for receiving one.
pub open spec fn settings_laid_out(listed: Seq<bool>) -> Seq<Placed> {
    let plugins = laid_out(
        listed,
        listed.len() as int,
        PLUGINS_ON_FIRST_SETTINGS_PAGE as int,
        PLUGIN_SLOT as int,
    );
    let at = placed(
        plugins.len() as int,
        PLUGINS_ON_FIRST_SETTINGS_PAGE as int,
        PLUGIN_SLOT as int,
    );
    plugins.push(Placed { page: at.0 as usize, slot: at.1 as usize, plugin: None })
}

pub fn settings_ring(listed: &Vec<bool>) -> (ring: Vec<Placed>)
    ensures
        ring@ == settings_laid_out(listed@),
{
    let mut ring = lay_out(listed, PLUGINS_ON_FIRST_SETTINGS_PAGE, PLUGIN_SLOT);
    let (page, slot) = place(ring.len(), PLUGINS_ON_FIRST_SETTINGS_PAGE, PLUGIN_SLOT);
    ring.push(Placed { page, slot, plugin: None });
    ring
}

/// Where the entries of a laid out ring stand: the `k`th in the `k`th place.
pub proof fn laid_out_without_gaps(listed: Seq<bool>, n: int, first: int, slot: int)
    requires
        0 <= n <= listed.len(),
        0 <= first,
        0 <= slot,
        slot + first <= SLOTS,
        listed.len() < 0x8000_0000,
    ensures
        laid_out(listed, n, first, slot).len() == listed_before(listed, n),
        laid_out(listed, n, first, slot).len() <= n,
        forall|k: int|
            0 <= k < laid_out(listed, n, first, slot).len() ==> {
                let at = (#[trigger] laid_out(listed, n, first, slot)[k]);
                &&& (at.page as int, at.slot as int) == placed(k, first, slot)
                &&& at.plugin is Some
                &&& at.plugin->0 < n
                &&& listed[at.plugin->0 as int]
            },
    decreases n,
{
    if n > 0 {
        laid_out_without_gaps(listed, n - 1, first, slot);
        let before = laid_out(listed, n - 1, first, slot);
        let k = before.len() as int;
        assert(0 <= placed(k, first, slot).0 <= k + 1);
    }
}

/// No two entries of the settings ring, the one for receiving a plugin among them, share a
/// place. Nor does any of them take a slot of the firmware's own entries: 0 to 6, the player's
/// and the share's on the first page, the top one on the others.
pub proof fn settings_ring_is_sound(listed: Seq<bool>, i: int, j: int)
    requires
        listed.len() < 0x8000_0000,
        0 <= i < settings_laid_out(listed).len(),
        0 <= j < settings_laid_out(listed).len(),
    ensures
        ({
            let ring = settings_laid_out(listed);
            &&& i != j ==> (ring[i].page, ring[i].slot) != (ring[j].page, ring[j].slot)
            &&& ring[i].page < pages_spec(ring.len() as int, 3)
            &&& ring[i].page == 0 ==> PLUGIN_SLOT <= ring[i].slot < SETTINGS_PLAYER_SLOT
            &&& ring[i].page > 0 ==> 0 < ring[i].slot < SLOTS
        }),
{
    let count = settings_laid_out(listed).len() as int;
    laid_out_without_gaps(listed, listed.len() as int, 3, 7);
    places_lie_in_the_ring(i, count, 3, 7);
    places_lie_in_the_ring(j, count, 3, 7);
    if i < j {
        places_differ(i, j, 3, 7);
    } else if j < i {
        places_differ(j, i, 3, 7);
    }
}

/// No two faces at home share a place, and none stands on the player, the share or the gear.
pub proof fn home_ring_is_sound(installed: Seq<bool>, i: int, j: int)
    requires
        installed.len() < 0x8000_0000,
        0 <= i < laid_out(installed, installed.len() as int, 8, 1).len(),
        0 <= j < laid_out(installed, installed.len() as int, 8, 1).len(),
    ensures
        ({
            let ring = laid_out(installed, installed.len() as int, 8, 1);
            &&& i != j ==> (ring[i].page, ring[i].slot) != (ring[j].page, ring[j].slot)
            &&& ring[i].page < pages_spec(ring.len() as int, 8)
            &&& ring[i].page == 0 ==> HOME_PLUGIN_SLOT <= ring[i].slot < HOME_PLAYER_SLOT
            &&& ring[i].page > 0 ==> 0 < ring[i].slot < SLOTS
        }),
{
    let count = laid_out(installed, installed.len() as int, 8, 1).len() as int;
    laid_out_without_gaps(installed, installed.len() as int, 8, 1);
    places_lie_in_the_ring(i, count, 8, 1);
    places_lie_in_the_ring(j, count, 8, 1);
    if i < j {
        places_differ(i, j, 8, 1);
    } else if j < i {
        places_differ(j, i, 8, 1);
    }
}

/// The player's entry carries 0 and the plugins' the numbers after it, so no two faces share one.
pub proof fn faces_have_ids_of_their_own(a: Face, b: Face, n: u8)
    ensures
        Face::Player.id_spec() == 0,
        Face::Plugin(n).id_spec() == n + 1,
        a != b ==> a.id_spec() != b.id_spec(),
        Face::of_spec(0) == Face::Player,
        Face::of_spec((n + 1) as u16) == Face::Plugin(n),
{
}

/// A plugin's entries carry ids of their own, and an id past the last plugin's is nobody's.
pub proof fn plugins_have_ids_of_their_own(id: u16, places: int)
    requires
        0 <= places,
    ensures
        PluginSetting::of_spec(id, places) is None <==> id >= 2 * places,
        (PluginSetting::of_spec(id, places) matches Some((n, setting)) ==> n < places
            && setting.id_spec(n as int) == id),
{
}

/// A ring fills up in its order: it starts at its first slot, each plugin stands right after the one
/// before it, and a new page is begun only once the page is full, in its first free slot.
#[verifier::spinoff_prover]
pub proof fn a_ring_fills_up_in_order(n: int, first: int, slot: int)
    requires
        0 <= n,
        0 < first,
        0 < slot,
        slot + first <= SLOTS,
    ensures
        placed(0, first, slot) == (0int, slot),
        ({
            let (page, at) = placed(n, first, slot);
            let (next_page, next_at) = placed(n + 1, first, slot);
            ||| next_page == page && next_at == at + 1
            ||| {
                &&& next_page == page + 1
                &&& next_at == 1
                &&& page == 0 ==> at == slot + first - 1
                &&& page > 0 ==> at == SLOTS - 1
            }
        }),
{
}

/// A ring takes one page as long as its plugins fit on the first, and then just enough for the rest.
#[verifier::spinoff_prover]
pub proof fn pages_are_just_enough(count: int, first: int)
    requires
        0 <= count,
        0 <= first,
    ensures
        pages_spec(count, first) == 1 <==> count <= first,
        count <= first + 11 * (pages_spec(count, first) - 1),
        count > first ==> first + 11 * (pages_spec(count, first) - 2) < count,
{
}

/// Every plugin that is listed stands in the ring, after all listed before it and before all listed
/// after it.
pub proof fn every_listed_plugin_stands_in_the_ring(
    listed: Seq<bool>,
    top: int,
    n: int,
    first: int,
    slot: int,
)
    requires
        0 <= n < top <= listed.len() < 0x8000_0000,
        listed[n],
        0 <= first,
        0 <= slot,
        slot + first <= SLOTS,
    ensures
        ({
            let ring = laid_out(listed, top, first, slot);
            let k = listed_before(listed, n);
            &&& 0 <= k < ring.len()
            &&& ring[k].plugin == Some(n as usize)
            &&& (ring[k].page as int, ring[k].slot as int) == placed(k, first, slot)
        }),
    decreases top,
{
    laid_out_without_gaps(listed, top, first, slot);
    laid_out_without_gaps(listed, top - 1, first, slot);
    if n < top - 1 {
        every_listed_plugin_stands_in_the_ring(listed, top - 1, n, first, slot);
    }
}

/// The settings hold every plugin there is, and after the last of them the entry for receiving one.
pub proof fn receiving_stands_after_the_plugins(listed: Seq<bool>, k: int)
    requires
        listed.len() < 0x8000_0000,
        0 <= k < settings_laid_out(listed).len(),
    ensures
        settings_laid_out(listed).len() == listed_before(listed, listed.len() as int) + 1,
        settings_laid_out(listed)[k].plugin is None <==> k == settings_laid_out(listed).len() - 1,
        (settings_laid_out(listed)[k].page as int, settings_laid_out(listed)[k].slot as int)
            == placed(k, 3, 7),
{
    laid_out_without_gaps(listed, listed.len() as int, 3, 7);
    let last = settings_laid_out(listed).len() - 1;
    assert(0 <= placed(last, 3, 7).0 <= last + 1);
}

} // verus!
