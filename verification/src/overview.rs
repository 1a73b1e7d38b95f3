//! What the screens know, gathered from every source. Drawing is a function of this alone, so a
//! picture is sent only when one of these fields moved.

use vstd::prelude::*;
use crate::menu::Face;
use crate::upload::Received;

verus! {

/// How big the cover stands behind the player.
#[derive(Clone, Copy, Debug, PartialEq, Eq, Structural)]
pub enum CoverStyle {
    Sharp,
    Full,
}

/// Whether the cloud moves.
#[derive(Clone, Copy, Debug, PartialEq, Eq, Structural)]
pub enum Motion {
    Still,
    Moving,
}

/// How the cloud looks: how many points, how bright at the rim in percent, the radius of the
/// dark centre in pixels, and the percentage of points in the icon colour.
#[derive(Clone, Copy, Debug, PartialEq, Eq, Structural)]
pub struct CloudShape {
    pub points: u16,
    pub brightest: u8,
    pub centre: u16,
    pub accent: u8,
}

/// The picture behind the text: a background off the card, by file name, or the cover of what
/// plays, at the size it arrived in.
#[derive(Clone, Debug, PartialEq, Eq)]
pub enum Backdrop {
    Card(String),
    Cover { width: usize, height: usize },
}

/// What the settings know about a plugin.
#[derive(Clone, Debug, PartialEq, Eq)]
pub struct PluginView {
    pub id: Vec<u8>,
    pub name: String,
    /// The line from its manifest that home shows under its name.
    pub summary: String,
    pub bytes: usize,
    pub version: String,
    pub rights: String,
    /// Whether its rights include the knob.
    pub knob: bool,
    /// The slot it was installed from; `None` for a bundled plugin.
    pub slot: Option<usize>,
    /// Installed as the dialog stands.
    pub installed: bool,
    /// What loading cost, while it is loaded: microseconds, and bytes of heap.
    pub loaded: Option<(u64, usize)>,
    /// Why it was stopped, if it was.
    pub fault: Option<String>,
}

/// What the install dialog shows of a plugin waiting in a slot.
#[derive(Clone, Debug, PartialEq, Eq)]
pub struct Offer {
    pub slot: usize,
    /// Whether it replaces a plugin with the same id once accepted.
    pub update: bool,
    pub name: String,
    pub version: String,
    /// The first bytes of the author's key.
    pub key: [u8; 8],
    /// Whether a bundled plugin is signed with the same key.
    pub known: bool,
    pub rights: String,
    /// What loading it would take of the heap, and what is free.
    pub heap: usize,
    pub free: usize,
}

/// Everything the screens are drawn from.
#[derive(Clone, Debug, PartialEq, Eq)]
pub struct Overview {
    /// The version of the firmware.
    pub version: String,
    /// Seconds since boot.
    pub uptime: u32,
    /// Networks found in the most recent Wi-Fi scan.
    pub networks: u8,
    /// Whether a Bluetooth peer is connected.
    pub peer: bool,
    /// The identity address of the bonded phone.
    pub bonded: Option<[u8; 6]>,
    /// Detents counted since boot, clockwise positive.
    pub detents: i32,
    /// Quarter turns clockwise the picture stands at.
    pub orientation: usize,
    /// What the theme calls itself.
    pub theme: String,
    /// How bright the screen is, in percent.
    pub brightness: u8,
    /// How hard the motor clicks, and how hard it can.
    pub haptics: u8,
    pub haptics_max: u8,
    /// The other chip's volume, 0 to 127, or `None` while it does not answer.
    pub volume: Option<u8>,
    /// Whether the other chip reports its own encoder.
    pub companion_encoder: bool,
    /// Whether audio streams to the knob.
    pub streaming: bool,
    /// Whether a phone is connected over HID.
    pub hid: bool,
    pub cover: CoverStyle,
    /// What the cover style calls itself.
    pub cover_name: String,
    pub motion: Motion,
    /// What the motion calls itself.
    pub motion_name: String,
    pub shape: CloudShape,
    /// Microseconds the last ground of the cloud took.
    pub ground: u32,
    pub title: String,
    pub artist: String,
    /// How far the long lines stand shifted while their run lasts.
    pub run: Option<i32>,
    pub backdrop: Option<Backdrop>,
    pub face: Face,
    /// One for each place a plugin can have; `None` without a readable manifest.
    pub plugins: Vec<Option<PluginView>>,
    /// Slots that hold nothing, as read at boot.
    pub free_slots: Option<usize>,
    pub offer: Option<Offer>,
    pub received: Received,
    /// What the status of the upload says for itself, where it failed.
    pub reason: String,
    /// The card's size, `None` without a card.
    pub card: Option<String>,
    /// Whether the share dialog shows its network in words instead of as a code.
    pub share_text: bool,
}

impl Overview {
    /// The picture stands at one of four angles, and an upload is small enough to be a
    /// percentage.
    pub open spec fn wf(&self) -> bool {
        &&& self.orientation < 4
        &&& self.received.received * 100 <= usize::MAX
    }
}

} // verus!
