//! The decisions of the device loop: where a detent goes, what a press means, what a dialog's
//! buttons do, and what is asked of the other chip. Each takes what the loop knows and says what
//! it does next.

use vstd::prelude::*;
use crate::faces::COMPANION_STATE_MASK;
use crate::menu::{face_found_by_its_id, plugin_setting_found_by_its_id, qr_index, Face,
    PluginSetting, LINKS, SETTING_ACCENT, SETTING_BRIGHTEST,
    SETTING_BRIGHTNESS, SETTING_CENTRE, SETTING_COVER, SETTING_FORGET, SETTING_HAPTICS,
    SETTING_INSTALL, SETTING_MOTION, SETTING_ORIENTATION, SETTING_POINTS, SETTING_QR,
    SETTING_RECEIVE, SETTING_SHARE, SETTING_THEME};
use crate::overview::Overview;
use crate::radio::{same_address, same_key, Bond};
use crate::screens::{lines_spec, value_spec, Credentials, Owner, Place};
use crate::text::decimal;
use crate::upload::UploadStatus;

verus! {

/// The angles a picture can stand at.
pub const ORIENTATIONS: i32 = 4;

/// How many detents of one pass reach a face.
pub const KNOB_EVENTS_MAX: u32 = 8;

/// How many detents may be owed to the phone.
pub const VOLUME_PENDING_MAX: i32 = 10;

/// Status queries without an answer after which the other chip is taken as gone.
pub const STATUS_UNANSWERED: u8 = 3;

/// Milliseconds a frame of the moving cloud stands.
pub const CLOUD_FRAME: u64 = 40;

/// Milliseconds a click lasts, in a menu and elsewhere.
pub const CLICK_LENGTH_MENU: u64 = 7;

pub const CLICK_LENGTH: u64 = 12;

/// The angle after so many detents clockwise.
pub open spec fn turned_spec(orientation: int, detents: int) -> int {
    (orientation + detents) % 4
}

pub fn turned(orientation: u8, detents: i32) -> (r: u8)
    requires
        orientation + detents <= i32::MAX,
    ensures
        r == turned_spec(orientation as int, detents as int),
        r < 4,
{
    let sum: i32 = orientation as i32 + detents;
    if sum >= 0 {
        (sum % ORIENTATIONS) as u8
    } else {
        (3 - (-(sum + 1)) % ORIENTATIONS) as u8
    }
}

/// Turning back takes a turn back, and four detents are a whole turn.
pub proof fn turning_back_returns(orientation: int, detents: int)
    requires
        0 <= orientation < 4,
    ensures
        turned_spec(turned_spec(orientation, detents), -detents) == orientation,
        turned_spec(orientation, 4 * detents) == orientation,
{
}

/// Part of the cloud's shape.
#[derive(Clone, Copy, Debug, PartialEq, Eq, Structural)]
pub enum Part {
    Points,
    Brightest,
    Centre,
    Accent,
}

/// What a menu makes of the knob.
#[derive(Clone, Copy, Debug, PartialEq, Eq, Structural)]
pub enum Turn {
    /// An open dialog is turned.
    Adjust { id: u16, owner: Owner, detents: i32 },
    /// The ring moved on.
    Moved,
    /// There was nowhere to go.
    Nothing,
}

/// What a turn does.
#[derive(Clone, Copy, Debug, PartialEq, Eq, Structural)]
pub enum Turned {
    /// The picture turns.
    Orientation,
    Theme,
    Brightness,
    Haptics,
    Cover,
    Motion,
    Shape(Part),
    /// A plugin's installed state flips.
    Installed(usize),
    /// The share dialog flips between its code and words.
    ShareText,
    /// The next code is shown.
    NextCode,
    /// Nothing but the ring moved, or nothing at all.
    Ring,
}

/// What a turn in a menu does. `places` is how many plugins there can be.
pub open spec fn turn_spec(turn: Turn, places: int) -> Turned {
    match turn {
        Turn::Adjust { id, owner: Owner::Firmware, .. } => if id == SETTING_ORIENTATION {
            Turned::Orientation
        } else if id == SETTING_THEME {
            Turned::Theme
        } else if id == SETTING_BRIGHTNESS {
            Turned::Brightness
        } else if id == SETTING_HAPTICS {
            Turned::Haptics
        } else if id == SETTING_COVER {
            Turned::Cover
        } else if id == SETTING_MOTION {
            Turned::Motion
        } else if id == SETTING_POINTS {
            Turned::Shape(Part::Points)
        } else if id == SETTING_BRIGHTEST {
            Turned::Shape(Part::Brightest)
        } else if id == SETTING_CENTRE {
            Turned::Shape(Part::Centre)
        } else if id == SETTING_ACCENT {
            Turned::Shape(Part::Accent)
        } else if id == SETTING_SHARE {
            Turned::ShareText
        } else if SETTING_QR <= id < SETTING_QR + LINKS {
            Turned::NextCode
        } else {
            Turned::Ring
        },
        Turn::Adjust { id, owner: Owner::Plugin, detents } => match PluginSetting::of_spec(
            id,
            places,
        ) {
            Some((n, PluginSetting::Installed)) => if detents % 2 != 0 {
                Turned::Installed(n)
            } else {
                Turned::Ring
            },
            _ => Turned::Ring,
        },
        _ => Turned::Ring,
    }
}

pub fn turn_act(turn: Turn, places: usize) -> (r: Turned)
    ensures
        r == turn_spec(turn, places as int),
{
    match turn {
        Turn::Adjust { id, owner: Owner::Firmware, .. } => {
            if id == SETTING_ORIENTATION {
                Turned::Orientation
            } else if id == SETTING_THEME {
                Turned::Theme
            } else if id == SETTING_BRIGHTNESS {
                Turned::Brightness
            } else if id == SETTING_HAPTICS {
                Turned::Haptics
            } else if id == SETTING_COVER {
                Turned::Cover
            } else if id == SETTING_MOTION {
                Turned::Motion
            } else if id == SETTING_POINTS {
                Turned::Shape(Part::Points)
            } else if id == SETTING_BRIGHTEST {
                Turned::Shape(Part::Brightest)
            } else if id == SETTING_CENTRE {
                Turned::Shape(Part::Centre)
            } else if id == SETTING_ACCENT {
                Turned::Shape(Part::Accent)
            } else if id == SETTING_SHARE {
                Turned::ShareText
            } else if qr_index(id).is_some() {
                Turned::NextCode
            } else {
                Turned::Ring
            }
        },
        Turn::Adjust { id, owner: Owner::Plugin, detents } => match PluginSetting::of(id, places) {
            Some((n, PluginSetting::Installed)) => if detents % 2 != 0 {
                Turned::Installed(n)
            } else {
                Turned::Ring
            },
            _ => Turned::Ring,
        },
        _ => Turned::Ring,
    }
}

/// Each of the firmware's dialogs turns the setting it is for and no other: brightness turns the
/// brightness, haptics the strength of the clicks, and so on; and no other dialog turns any of
/// them.
pub proof fn each_dialog_turns_its_own_setting(id: u16, detents: i32, places: int)
    ensures
        ({
            let turned = turn_spec(Turn::Adjust { id, owner: Owner::Firmware, detents }, places);
            &&& turned == Turned::Orientation <==> id == SETTING_ORIENTATION
            &&& turned == Turned::Theme <==> id == SETTING_THEME
            &&& turned == Turned::Brightness <==> id == SETTING_BRIGHTNESS
            &&& turned == Turned::Haptics <==> id == SETTING_HAPTICS
            &&& turned == Turned::Cover <==> id == SETTING_COVER
            &&& turned == Turned::Motion <==> id == SETTING_MOTION
            &&& turned == Turned::Shape(Part::Points) <==> id == SETTING_POINTS
            &&& turned == Turned::Shape(Part::Brightest) <==> id == SETTING_BRIGHTEST
            &&& turned == Turned::Shape(Part::Centre) <==> id == SETTING_CENTRE
            &&& turned == Turned::Shape(Part::Accent) <==> id == SETTING_ACCENT
            &&& turned == Turned::ShareText <==> id == SETTING_SHARE
            &&& turned == Turned::NextCode <==> SETTING_QR <= id < SETTING_QR + LINKS
            &&& !(turned is Installed)
        }),
{
}

/// The value that a turn changes, as it is read off the screen; none where no value turns.
pub open spec fn value_turned(state: &Overview, turned: Turned) -> Option<Seq<char>> {
    match turned {
        Turned::Orientation => Some(decimal((state.orientation * 90) as nat) + " deg"@),
        Turned::Theme => Some(state.theme@),
        Turned::Brightness => Some(decimal(state.brightness as nat) + " %"@),
        Turned::Haptics => Some(
            if state.haptics == 0 {
                "Off"@
            } else {
                decimal(state.haptics as nat) + " / "@ + decimal(state.haptics_max as nat)
            },
        ),
        Turned::Cover => Some(state.cover_name@),
        Turned::Motion => Some(state.motion_name@),
        Turned::Shape(Part::Points) => Some(decimal(state.shape.points as nat)),
        Turned::Shape(Part::Brightest) => Some(decimal(state.shape.brightest as nat) + " %"@),
        Turned::Shape(Part::Centre) => Some(decimal(state.shape.centre as nat) + " px"@),
        Turned::Shape(Part::Accent) => Some(decimal(state.shape.accent as nat) + " %"@),
        Turned::Installed(n) => Some(
            if state.plugins[n as int] matches Some(view) && view.installed {
                "Yes"@
            } else {
                "No"@
            },
        ),
        _ => None,
    }
}

/// What a dialog reads is what the knob turns in it: wherever turning changes a value, that value
/// is the first line of the open dialog and stands under its entry in the ring, in the firmware's
/// menus and in the plugins'.
pub proof fn a_dialog_reads_what_the_knob_turns(
    state: &Overview,
    id: u16,
    owner: Owner,
    detents: i32,
    credentials: &Credentials,
    code: bool,
    at: &Place,
)
    requires
        at.opened == Some((id, owner)),
        at.owner == owner,
        at.selected matches Some(entry) && entry.id == Some(id),
    ensures
        ({
            let turned = turn_spec(
                Turn::Adjust { id, owner, detents },
                state.plugins.len() as int,
            );
            value_turned(state, turned) is Some ==> {
                &&& lines_spec(state, at, credentials, code).len() == 3
                &&& value_turned(state, turned) == Some(
                    lines_spec(state, at, credentials, code)[0].text,
                )
                &&& value_spec(state, at) == value_turned(state, turned)
            }
        }),
{
}

/// In a plugin's menu an odd number of detents flips whether that plugin is installed, an even
/// number leaves it, and nothing else there turns. A ring that moved on changes no setting.
pub proof fn a_plugin_is_flipped_in_its_own_menu(
    setting: PluginSetting,
    n: int,
    detents: i32,
    places: int,
)
    requires
        0 <= n < places <= 0x8000,
    ensures
        ({
            let id = setting.id_spec(n) as u16;
            let turned = turn_spec(Turn::Adjust { id, owner: Owner::Plugin, detents }, places);
            &&& setting is Installed && detents % 2 != 0 ==> turned == Turned::Installed(n as usize)
            &&& setting is About || detents % 2 == 0 ==> turned == Turned::Ring
        }),
        turn_spec(Turn::Moved, places) == Turned::Ring,
        turn_spec(Turn::Nothing, places) == Turned::Ring,
{
    plugin_setting_found_by_its_id(setting, n, places);
}

/// Whether a turn in a menu is felt: always, except where nothing moved. `changed` says whether
/// the value did, or for a code whether the ring moved on to another.
pub fn turn_is_felt(turn: Turn, turned: Turned, changed: bool) -> (r: bool)
    ensures
        turn == Turn::Nothing && !changed ==> !r,
        turn != Turn::Nothing && changed ==> r,
        turned == Turned::Ring ==> (r <==> turn != Turn::Nothing),
        turned == Turned::Brightness && !changed ==> !r,
        r == (match turned {
            Turned::Brightness | Turned::Haptics | Turned::Shape(_) | Turned::NextCode => changed,
            _ => turn != Turn::Nothing,
        }),
{
    match turned {
        Turned::Brightness => changed,
        Turned::Haptics => changed,
        Turned::Shape(_) => changed,
        Turned::NextCode => changed,
        _ => match turn {
            Turn::Nothing => false,
            _ => true,
        },
    }
}

/// Whose the detents of a pass are.
#[derive(Clone, Copy, Debug, PartialEq, Eq, Structural)]
pub enum KnobTo {
    Menu,
    /// So many events for the face on the screen, in one direction.
    Face { events: u32, clockwise: bool },
    /// The other chip works the volume by itself; it is asked where that ended up.
    Volume,
}

/// Where the detents of a pass go: to the menu while one is up, to a face that has the knob, and
/// to the volume otherwise. A backlog of detents is cut short for a face.
pub fn knob_to(detents: i32, menu_up: bool, face_has_knob: bool) -> (r: KnobTo)
    requires
        detents != 0,
    ensures
        menu_up <==> r is Menu,
        !menu_up && !face_has_knob <==> r is Volume,
        (r matches KnobTo::Face { events, clockwise } ==> {
            &&& 1 <= events <= KNOB_EVENTS_MAX
            &&& clockwise <==> detents > 0
            &&& events == KNOB_EVENTS_MAX || events == size(detents)
            &&& events <= size(detents)
        }),
        r == (if menu_up {
            KnobTo::Menu
        } else if face_has_knob {
            KnobTo::Face {
                events: {
                    let n: int = if detents < 0 {
                        -detents
                    } else {
                        detents as int
                    };
                    if n < 8 {
                        n as u32
                    } else {
                        8
                    }
                },
                clockwise: detents > 0,
            }
        } else {
            KnobTo::Volume
        }),
{
    if menu_up {
        KnobTo::Menu
    } else if face_has_knob {
        let n: u32 = magnitude(detents);
        KnobTo::Face {
            events: if n < KNOB_EVENTS_MAX {
                n
            } else {
                KNOB_EVENTS_MAX
            },
            clockwise: detents > 0,
        }
    } else {
        KnobTo::Volume
    }
}

/// Detents owed to the phone after a turn: no more than ten either way. Turning is faster than
/// the other chip takes keys, and a control that runs on after its input is worse than one that
/// stops.
pub open spec fn owed_spec(owed: int, detents: int) -> int {
    if owed + detents > 10 {
        10
    } else if owed + detents < -10 {
        -10
    } else {
        owed + detents
    }
}

pub fn owe(owed: i32, detents: i32) -> (r: i32)
    requires
        -10 <= owed <= 10,
        i32::MIN <= owed + detents <= i32::MAX,
    ensures
        r == owed_spec(owed as int, detents as int),
        -10 <= r <= 10,
{
    let wanted: i32 = owed + detents;
    if wanted > VOLUME_PENDING_MAX {
        VOLUME_PENDING_MAX
    } else if wanted < -VOLUME_PENDING_MAX {
        -VOLUME_PENDING_MAX
    } else {
        wanted
    }
}

/// Detents add up until ten are owed either way; beyond that the last turn is cut short, never
/// turned round.
pub proof fn owing_adds_up(owed: int, detents: int)
    requires
        -10 <= owed <= 10,
    ensures
        -10 <= owed_spec(owed, detents) <= 10,
        -10 <= owed + detents <= 10 ==> owed_spec(owed, detents) == owed + detents,
        detents >= 0 ==> owed <= owed_spec(owed, detents) <= owed + detents,
        detents <= 0 ==> owed + detents <= owed_spec(owed, detents) <= owed,
        owed + detents > 10 ==> owed_spec(owed, detents) == 10,
        owed + detents < -10 ==> owed_spec(owed, detents) == -10,
{
}

/// Pays one detent off: whether it is a step up, and what is still owed.
pub fn pay(owed: i32) -> (r: (bool, i32))
    requires
        -10 <= owed <= 10,
        owed != 0,
    ensures
        size(r.1) + 1 == size(owed),
        r.0 ==> r.1 >= 0,
        !r.0 ==> r.1 <= 0,
        r.0 == (owed > 0),
        r.1 == (if owed > 0 {
            owed - 1
        } else {
            owed + 1
        }),
{
    if owed > 0 {
        (true, owed - 1)
    } else {
        (false, owed + 1)
    }
}

/// What is owed is paid off in as many keys, all of them in its direction.
pub proof fn paying_ends(owed: int, keys: nat)
    requires
        -10 <= owed <= 10,
        keys == (if owed < 0 {
            -owed
        } else {
            owed
        }),
    ensures
        paid(owed, keys) == 0,
    decreases keys,
{
    if keys > 0 {
        paying_ends(
            if owed > 0 {
                owed - 1
            } else {
                owed + 1
            },
            (keys - 1) as nat,
        );
    }
}

/// What is owed after so many keys.
pub open spec fn paid(owed: int, keys: nat) -> int
    decreases keys,
{
    if keys == 0 || owed == 0 {
        owed
    } else {
        paid(
            if owed > 0 {
                owed - 1
            } else {
                owed + 1
            },
            (keys - 1) as nat,
        )
    }
}

/// A status report of the other chip.
#[derive(Clone, Copy, Debug, PartialEq, Eq, Structural)]
pub struct CompanionStatus {
    pub state: u8,
    pub volume: u8,
    pub encoder_enabled: bool,
    pub streaming: bool,
    pub hid_connected: bool,
}

/// What is known of the other chip between its reports.
#[derive(Clone, Copy, Debug, PartialEq, Eq, Structural)]
pub struct Companion {
    /// Queries since its last answer.
    pub unanswered: u8,
    /// Whether a turn's volume is still to be heard of.
    pub settling: bool,
    /// Where the volume stood before the turn.
    pub before: Option<u8>,
    /// The bits of its state that are its own, as last reported.
    pub own_bits: Option<u8>,
}

/// What a report asks for.
#[derive(Clone, Copy, Debug, PartialEq, Eq, Structural)]
pub struct StatusReply {
    /// The volume a turn began at, once the volume it ended at has come.
    pub turned_from: Option<u8>,
    /// Its own bits, if they changed.
    pub own_bits: Option<u8>,
    /// Whether it has to be told again what it should do with its encoder.
    pub set_state: bool,
}

impl Companion {
    pub fn new() -> (r: Self)
        ensures
            r == (Companion { unanswered: 0, settling: false, before: None, own_bits: None }),
    {
        Companion { unanswered: 0, settling: false, before: None, own_bits: None }
    }

    /// Takes a report into the state. What the other chip should do with its encoder is resent
    /// whenever it reports something else.
    pub fn report(&mut self, state: &mut Overview, status: CompanionStatus, wanted: u8) -> (r:
        StatusReply)
        ensures
            final(self).unanswered == 0 && !final(self).settling,
            r.turned_from is Some ==> old(self).settling && r.turned_from == old(self).before,
            (r.own_bits matches Some(bits) ==> final(self).own_bits == Some(bits) && old(self).own_bits
                != Some(bits)),
            final(state).volume == Some(status.volume),
            final(state).streaming == status.streaming,
            final(state).hid == status.hid_connected,
            final(state).companion_encoder == status.encoder_enabled,
            r == (StatusReply {
                turned_from: if old(self).settling {
                    old(self).before
                } else {
                    None
                },
                own_bits: if old(self).own_bits == Some(status.state & 0xF0) {
                    None
                } else {
                    Some(status.state & 0xF0)
                },
                set_state: status.state & COMPANION_STATE_MASK != wanted,
            }),
            *final(self) == (Companion {
                unanswered: 0,
                settling: false,
                before: if old(self).settling {
                    None
                } else {
                    old(self).before
                },
                own_bits: Some(status.state & 0xF0),
            }),
            *final(state) == (Overview {
                volume: Some(status.volume),
                companion_encoder: status.encoder_enabled,
                streaming: status.streaming,
                hid: status.hid_connected,
                ..*old(state)
            }),
    {
        let mut turned_from: Option<u8> = None;
        if self.settling {
            self.settling = false;
            turned_from = self.before;
            self.before = None;
        }
        let own: u8 = status.state & 0xF0;
        let own_bits = match self.own_bits {
            Some(was) => if was == own {
                None
            } else {
                Some(own)
            },
            None => Some(own),
        };
        self.own_bits = Some(own);
        self.unanswered = 0;
        state.volume = Some(status.volume);
        state.companion_encoder = status.encoder_enabled;
        state.streaming = status.streaming;
        state.hid = status.hid_connected;
        StatusReply { turned_from, own_bits, set_state: status.state & COMPANION_STATE_MASK != wanted }
    }

    /// Sends a status query. A chip that left three unanswered is taken as gone, and its volume
    /// is not shown any more.
    pub fn query(&mut self, state: &mut Overview)
        ensures
            old(self).unanswered >= STATUS_UNANSWERED ==> final(state).volume is None,
            old(self).unanswered < STATUS_UNANSWERED ==> final(state).volume == old(state).volume,
            final(self).unanswered >= old(self).unanswered,
            final(self).unanswered == 0 ==> old(self).unanswered == 255,
            *final(self) == (Companion {
                unanswered: if old(self).unanswered == 255 {
                    255
                } else {
                    (old(self).unanswered + 1) as u8
                },
                ..*old(self)
            }),
            *final(state) == (Overview {
                volume: if old(self).unanswered >= 3 {
                    None
                } else {
                    old(state).volume
                },
                ..*old(state)
            }),
    {
        if self.unanswered >= STATUS_UNANSWERED {
            state.volume = None;
        }
        self.unanswered = self.unanswered.saturating_add(1);
    }

    /// The knob turned the volume: where it began is kept until the chip says where it ended.
    pub fn turned(&mut self, volume: Option<u8>)
        ensures
            final(self).settling,
            old(self).settling ==> final(self).before == old(self).before,
            !old(self).settling ==> final(self).before == volume,
            final(self).unanswered == old(self).unanswered,
            *final(self) == (Companion {
                settling: true,
                before: if old(self).settling {
                    old(self).before
                } else {
                    volume
                },
                ..*old(self)
            }),
    {
        if !self.settling {
            self.before = volume;
        }
        self.settling = true;
    }
}

/// Detents either encoder on the shaft counted since the last report, and the volume keys sent.
#[derive(Clone, Copy, Debug, PartialEq, Eq, Structural)]
pub struct Turns {
    pub ours: i32,
    pub theirs: i32,
    pub asked: i32,
}

/// A turn as it is told, once the volume it ended at has come.
#[derive(Clone, Copy, Debug, PartialEq, Eq, Structural)]
pub struct TurnReport {
    pub ours: u32,
    pub theirs: u32,
    pub asked: u32,
    /// What the volume moved by.
    pub moved: i32,
}

/// A count without its direction.
pub open spec fn size(n: i32) -> int {
    if n < 0 {
        -n
    } else {
        n as int
    }
}

fn magnitude(n: i32) -> (r: u32)
    ensures
        r == size(n),
{
    if n == i32::MIN {
        0x8000_0000
    } else if n < 0 {
        (-n) as u32
    } else {
        n as u32
    }
}

impl Turns {
    pub fn new() -> (r: Self)
        ensures
            r == (Turns { ours: 0, theirs: 0, asked: 0 }),
    {
        Turns { ours: 0, theirs: 0, asked: 0 }
    }

    /// Takes detents of this side's encoder into the state. The same detents come from the other
    /// side too and are counted apart: only these move anything.
    pub fn ours(&mut self, state: &mut Overview, detents: i32)
        requires
            i32::MIN <= old(self).ours + detents <= i32::MAX,
            i32::MIN <= old(state).detents + detents <= i32::MAX,
        ensures
            *final(self) == (Turns { ours: (old(self).ours + detents) as i32, ..*old(self) }),
            *final(state) == (Overview {
                detents: (old(state).detents + detents) as i32,
                ..*old(state)
            }),
    {
        self.ours = self.ours + detents;
        state.detents = state.detents + detents;
    }

    /// Takes a detent of the other chip's encoder.
    pub fn theirs(&mut self, clockwise: bool)
        requires
            if clockwise {
                old(self).theirs < i32::MAX
            } else {
                old(self).theirs > i32::MIN
            },
        ensures
            *final(self) == (Turns {
                theirs: (old(self).theirs + (if clockwise {
                    1int
                } else {
                    -1
                })) as i32,
                ..*old(self)
            }),
    {
        if clockwise {
            self.theirs = self.theirs + 1;
        } else {
            self.theirs = self.theirs - 1;
        }
    }

    /// Takes a volume key sent.
    pub fn asked(&mut self, up: bool)
        requires
            if up {
                old(self).asked < i32::MAX
            } else {
                old(self).asked > i32::MIN
            },
        ensures
            *final(self) == (Turns {
                asked: (old(self).asked + (if up {
                    1int
                } else {
                    -1
                })) as i32,
                ..*old(self)
            }),
    {
        if up {
            self.asked = self.asked + 1;
        } else {
            self.asked = self.asked - 1;
        }
    }

    /// Takes where a turn's volume ended; tells the turn if it is known where it began, and starts
    /// the counts over.
    pub fn settled(&mut self, before: Option<u8>, volume: u8) -> (r: Option<TurnReport>)
        ensures
            r is Some <==> before is Some,
            (r matches Some(told) ==> before->0 + told.moved == volume && told.ours == size(old(self).ours)
                && told.theirs == size(old(self).theirs) && told.asked == size(old(self).asked)),
            *final(self) == (Turns { ours: 0, theirs: 0, asked: 0 }),
            r == (match before {
                Some(before) => Some(
                    TurnReport {
                        ours: size(old(self).ours) as u32,
                        theirs: size(old(self).theirs) as u32,
                        asked: size(old(self).asked) as u32,
                        moved: (volume - before) as i32,
                    },
                ),
                None => None,
            }),
    {
        let r = match before {
            Some(before) => Some(
                TurnReport {
                    ours: magnitude(self.ours),
                    theirs: magnitude(self.theirs),
                    asked: magnitude(self.asked),
                    moved: volume as i32 - before as i32,
                },
            ),
            None => None,
        };
        self.ours = 0;
        self.theirs = 0;
        self.asked = 0;
        r
    }
}

/// What a frame shows.
#[derive(Clone, Copy, Debug, PartialEq, Eq, Structural)]
pub enum Picture {
    /// A plugin's face, on black.
    Face,
    /// The player, over the picture behind it or on the cloud.
    Player { over_picture: bool },
    /// A menu, on the cloud. Whether what lies outside its ring is still the black a menu left.
    Menu { clean: bool },
}

/// What a frame shows. A menu stands before everything else; a picture is behind the player where
/// there is one and it could be brought back.
pub fn picture(menu_up: bool, face: Face, backdrop: bool, restored: bool, menu_before: bool) -> (r:
    Picture)
    ensures
        r is Menu <==> menu_up,
        r is Face <==> !menu_up && face is Plugin,
        (r matches Picture::Player { over_picture } ==> face is Player && (over_picture ==> backdrop
            && restored)),
        r == (if menu_up {
            Picture::Menu { clean: menu_before }
        } else if face != Face::Player {
            Picture::Face
        } else {
            Picture::Player { over_picture: backdrop && restored }
        }),
{
    if menu_up {
        Picture::Menu { clean: menu_before }
    } else {
        match face {
            Face::Player => Picture::Player { over_picture: backdrop && restored },
            _ => Picture::Face,
        }
    }
}

/// Whether a click that plays is cut off before the picture goes out: on the player the loop is
/// back in time, everywhere else the picture takes longer than the click.
pub fn click_ends_first(picture: Picture) -> (r: bool)
    ensures
        r == !(picture is Player),
{
    match picture {
        Picture::Player { .. } => false,
        _ => true,
    }
}

/// A gesture, in the picture's directions.
#[derive(Clone, Copy, Debug, PartialEq, Eq, Structural)]
pub enum Gesture {
    SlideLeft,
    SlideRight,
    SlideUp,
    SlideDown,
    Other,
}

/// One contact with the screen.
#[derive(Clone, Copy, Debug, PartialEq, Eq, Structural)]
pub enum Press {
    Hold,
    Tap,
    Gesture(Gesture),
}

/// What a contact does.
#[derive(Clone, Copy, Debug, PartialEq, Eq, Structural)]
pub enum Pressed {
    /// The plugin on offer waits on, and the next is offered.
    OfferNext,
    /// The QR codes open over home.
    OpenCodes,
    /// Home. An open dialog is taken back first, and out of a face the knob changes hands.
    Home { take_back: bool, ask_state: bool },
    /// The menu is tapped.
    MenuTap,
    /// The face hears a tap or a wipe.
    FaceTap,
    FaceWipe(Gesture),
    TogglePlayback,
    PreviousTrack,
    NextTrack,
    Nothing,
}

/// What is on the screen when a contact comes.
#[derive(Clone, Copy, Debug, PartialEq, Eq, Structural)]
pub struct OnScreen {
    /// Whether the install dialog offers a plugin.
    pub offered: bool,
    pub menu_up: bool,
    /// Whether that menu is home with nothing opened.
    pub at_home: bool,
    /// Whether a dialog is open.
    pub opened: bool,
    pub face: Face,
}

/// What a contact does. A long press is answered before any screen sees it: in the install
/// dialog it is Cancel, at home it opens the codes, and from everywhere else it goes home.
pub open spec fn pressed_spec(press: Press, on: OnScreen) -> Pressed {
    match press {
        Press::Hold => if on.offered {
            Pressed::OfferNext
        } else if on.menu_up && on.at_home {
            Pressed::OpenCodes
        } else {
            Pressed::Home { take_back: on.menu_up && on.opened, ask_state: !on.menu_up }
        },
        Press::Tap => if on.menu_up {
            Pressed::MenuTap
        } else if on.face != Face::Player {
            Pressed::FaceTap
        } else {
            Pressed::TogglePlayback
        },
        Press::Gesture(gesture) => if on.menu_up {
            Pressed::Nothing
        } else if on.face != Face::Player {
            if gesture == Gesture::Other {
                Pressed::Nothing
            } else {
                Pressed::FaceWipe(gesture)
            }
        } else {
            match gesture {
                Gesture::SlideLeft => Pressed::PreviousTrack,
                Gesture::SlideRight => Pressed::NextTrack,
                _ => Pressed::Nothing,
            }
        },
    }
}

pub fn pressed(press: Press, on: OnScreen) -> (r: Pressed)
    ensures
        r == pressed_spec(press, on),
{
    match press {
        Press::Hold => {
            if on.offered {
                Pressed::OfferNext
            } else if on.menu_up && on.at_home {
                Pressed::OpenCodes
            } else {
                Pressed::Home { take_back: on.menu_up && on.opened, ask_state: !on.menu_up }
            }
        },
        Press::Tap => {
            if on.menu_up {
                Pressed::MenuTap
            } else {
                match on.face {
                    Face::Player => Pressed::TogglePlayback,
                    Face::Plugin(_) => Pressed::FaceTap,
                }
            }
        },
        Press::Gesture(gesture) => {
            if on.menu_up {
                return Pressed::Nothing;
            }
            match (on.face, gesture) {
                (Face::Player, Gesture::SlideLeft) => Pressed::PreviousTrack,
                (Face::Player, Gesture::SlideRight) => Pressed::NextTrack,
                (Face::Player, _) => Pressed::Nothing,
                (Face::Plugin(_), Gesture::Other) => Pressed::Nothing,
                (Face::Plugin(_), _) => Pressed::FaceWipe(gesture),
            }
        },
    }
}

/// No face can take the way home away: while no plugin is on offer, a long press on any face
/// goes home.
pub proof fn a_long_press_goes_home(on: OnScreen)
    requires
        !on.offered,
        !on.menu_up,
    ensures
        pressed_spec(Press::Hold, on) == (Pressed::Home { take_back: false, ask_state: true }),
{
}

/// Leaving an open dialog by a long press takes it back, as Cancel would.
pub proof fn a_long_press_keeps_nothing_half_set(on: OnScreen)
    requires
        !on.offered,
        on.menu_up,
        !on.at_home,
        on.opened,
    ensures
        pressed_spec(Press::Hold, on) == (Pressed::Home { take_back: true, ask_state: false }),
{
}

/// A long press in the install dialog passes the plugin over and nothing else; at home it opens
/// the codes; and from every other menu it goes home, where only an open dialog is taken back.
pub proof fn a_long_press_in_a_menu(on: OnScreen)
    ensures
        on.offered <==> pressed_spec(Press::Hold, on) == Pressed::OfferNext,
        !on.offered && on.menu_up && on.at_home <==> pressed_spec(Press::Hold, on)
            == Pressed::OpenCodes,
        !on.offered && on.menu_up && !on.at_home ==> pressed_spec(Press::Hold, on) == (
        Pressed::Home { take_back: on.opened, ask_state: false }),
{
}

/// A tap goes to what is on the screen: to the menu while one is up, to a plugin's face, and on
/// the player it stops and starts the music.
pub proof fn a_tap_goes_to_what_is_shown(on: OnScreen)
    ensures
        pressed_spec(Press::Tap, on) == Pressed::MenuTap <==> on.menu_up,
        pressed_spec(Press::Tap, on) == Pressed::FaceTap <==> !on.menu_up && on.face is Plugin,
        pressed_spec(Press::Tap, on) == Pressed::TogglePlayback <==> !on.menu_up && on.face
            is Player,
{
}

/// A wipe does nothing in a menu. A plugin's face hears every wipe as it was made; on the player a
/// wipe to the left goes back a track, one to the right goes on to the next, and none of the others
/// does anything.
pub proof fn a_wipe_goes_to_the_face(gesture: Gesture, on: OnScreen)
    ensures
        on.menu_up ==> pressed_spec(Press::Gesture(gesture), on) == Pressed::Nothing,
        !on.menu_up && on.face is Plugin && gesture != Gesture::Other ==> pressed_spec(
            Press::Gesture(gesture),
            on,
        ) == Pressed::FaceWipe(gesture),
        pressed_spec(Press::Gesture(Gesture::Other), on) == Pressed::Nothing,
        !on.menu_up && on.face is Player ==> {
            &&& pressed_spec(Press::Gesture(gesture), on) == Pressed::PreviousTrack <==> gesture
                == Gesture::SlideLeft
            &&& pressed_spec(Press::Gesture(gesture), on) == Pressed::NextTrack <==> gesture
                == Gesture::SlideRight
            &&& gesture != Gesture::SlideLeft && gesture != Gesture::SlideRight ==> pressed_spec(
                Press::Gesture(gesture),
                on,
            ) == Pressed::Nothing
        },
{
}

/// What a menu makes of a tap.
#[derive(Clone, Copy, Debug, PartialEq, Eq, Structural)]
pub enum Tapped {
    Nothing,
    Moved,
    Open,
    /// OK in a dialog.
    Accepted { id: u16, owner: Owner },
    Cancel { id: u16, owner: Owner },
    Screen { id: u16 },
    Close,
    Touch { id: u16, owner: Owner },
}

/// What a tap in a menu does.
#[derive(Clone, Copy, Debug, PartialEq, Eq, Structural)]
pub enum TapAct {
    Nothing,
    /// A dialog opened: the settings as they stand are what its Cancel goes back to.
    Snapshot,
    /// The plugin on offer is accepted, and the next is offered.
    Accept,
    /// It is not, and the next is offered.
    Decline,
    /// The bonded phone is forgotten.
    Forget,
    /// The settings are kept.
    Keep,
    /// The settings go back to where they stood.
    TakeBack,
    /// A face starts.
    Start(Face),
    /// The menus close.
    Close,
    /// A dialog without buttons closes.
    Dismiss,
}

/// What a tap in a menu does. OK and Cancel are the firmware's in its own install and forget
/// dialogs, and everywhere else they keep and take back.
pub open spec fn tapped_spec(tapped: Tapped) -> TapAct {
    match tapped {
        Tapped::Open => TapAct::Snapshot,
        Tapped::Accepted { id, owner } => if owner == Owner::Firmware && id == SETTING_INSTALL {
            TapAct::Accept
        } else if owner == Owner::Firmware && id == SETTING_FORGET {
            TapAct::Forget
        } else {
            TapAct::Keep
        },
        Tapped::Cancel { id, owner } => if owner == Owner::Firmware && id == SETTING_INSTALL {
            TapAct::Decline
        } else {
            TapAct::TakeBack
        },
        Tapped::Screen { id } => TapAct::Start(Face::of_spec(id)),
        Tapped::Close => TapAct::Close,
        Tapped::Touch { id, owner } => if owner == Owner::Firmware && (SETTING_QR <= id
            < SETTING_QR + LINKS || id == SETTING_SHARE) {
            TapAct::Dismiss
        } else {
            TapAct::Nothing
        },
        _ => TapAct::Nothing,
    }
}

pub fn tap_act(tapped: Tapped) -> (r: TapAct)
    ensures
        r == tapped_spec(tapped),
{
    match tapped {
        Tapped::Open => TapAct::Snapshot,
        Tapped::Accepted { id, owner } => match owner {
            Owner::Firmware => if id == SETTING_INSTALL {
                TapAct::Accept
            } else if id == SETTING_FORGET {
                TapAct::Forget
            } else {
                TapAct::Keep
            },
            Owner::Plugin => TapAct::Keep,
        },
        Tapped::Cancel { id, owner } => match owner {
            Owner::Firmware => if id == SETTING_INSTALL {
                TapAct::Decline
            } else {
                TapAct::TakeBack
            },
            Owner::Plugin => TapAct::TakeBack,
        },
        Tapped::Screen { id } => TapAct::Start(Face::of(id)),
        Tapped::Close => TapAct::Close,
        Tapped::Touch { id, owner } => match owner {
            Owner::Firmware => if qr_index(id).is_some() || id == SETTING_SHARE {
                TapAct::Dismiss
            } else {
                TapAct::Nothing
            },
            Owner::Plugin => TapAct::Nothing,
        },
        _ => TapAct::Nothing,
    }
}

/// OK never takes back and Cancel never keeps, whoever's the dialog is. OK accepts the plugin in the
/// install dialog, forgets the phone in the forget dialog, and in every other dialog, a plugin's
/// among them, it keeps what was set; Cancel declines the plugin in the install dialog and takes
/// everything else back.
pub proof fn ok_keeps_and_cancel_takes_back(id: u16, owner: Owner)
    ensures
        ({
            let accepted = tapped_spec(Tapped::Accepted { id, owner });
            let cancelled = tapped_spec(Tapped::Cancel { id, owner });
            &&& accepted == TapAct::Accept <==> owner is Firmware && id == SETTING_INSTALL
            &&& accepted == TapAct::Forget <==> owner is Firmware && id == SETTING_FORGET
            &&& accepted == TapAct::Keep <==> owner is Plugin || (id != SETTING_INSTALL && id
                != SETTING_FORGET)
            &&& cancelled == TapAct::Decline <==> owner is Firmware && id == SETTING_INSTALL
            &&& cancelled == TapAct::TakeBack <==> owner is Plugin || id != SETTING_INSTALL
        }),
{
}

/// What Cancel goes back to is taken when a dialog opens and at no other time. An entry at home
/// starts the face whose id it carries; the way out closes the menus; only the codes and the share
/// dialog close at a touch; and nothing else a menu makes of a tap does anything.
pub proof fn a_tap_does_what_was_tapped(tapped: Tapped, face: Face, id: u16, owner: Owner)
    ensures
        tapped_spec(tapped) == TapAct::Snapshot <==> tapped == Tapped::Open,
        tapped_spec(Tapped::Screen { id: face.id_spec() }) == TapAct::Start(face),
        tapped_spec(tapped) is Start <==> tapped is Screen,
        tapped_spec(tapped) == TapAct::Close <==> tapped == Tapped::Close,
        tapped_spec(Tapped::Touch { id, owner }) == TapAct::Dismiss <==> owner is Firmware && (id
            == SETTING_SHARE || SETTING_QR <= id < SETTING_QR + LINKS),
        tapped_spec(tapped) == TapAct::Dismiss ==> tapped is Touch,
        tapped_spec(Tapped::Nothing) == TapAct::Nothing,
        tapped_spec(Tapped::Moved) == TapAct::Nothing,
        tapped_spec(tapped) == TapAct::Nothing ==> tapped == Tapped::Nothing || tapped
            == Tapped::Moved || tapped is Touch,
{
    face_found_by_its_id(face);
}

/// Whether the rings change: some plugin that has a view is installed now and was not, or the
/// other way round. Places without a view are `None`.
pub open spec fn rings_change_spec(now: Seq<Option<bool>>, stored: Seq<Option<bool>>) -> bool {
    exists|n: int|
        0 <= n < now.len() && now[n] is Some && stored[n] is Some && #[trigger] now[n] != stored[n]
}

pub fn rings_change(now: &Vec<Option<bool>>, stored: &Vec<Option<bool>>) -> (r: bool)
    requires
        now.len() == stored.len(),
    ensures
        r ==> exists|n: int| 0 <= n < now@.len() && #[trigger] now@[n] != stored@[n],
        !r ==> forall|n: int|
            0 <= n < now@.len() && now@[n] is Some && stored@[n] is Some ==> #[trigger] now@[n]
                == stored@[n],
        r == rings_change_spec(now@, stored@),
{
    let mut n: usize = 0;
    while n < now.len()
        invariant
            n <= now.len(),
            now.len() == stored.len(),
            forall|k: int|
                0 <= k < n && now[k] is Some && stored[k] is Some ==> #[trigger] now[k] == stored[k],
        decreases now.len() - n,
    {
        if let (Some(a), Some(b)) = (now[n], stored[n]) {
            if a != b {
                assert(now@[n as int] != stored@[n as int]);
                return true;
            }
        }
        n = n + 1;
    }
    false
}

/// What keeping the settings comes to.
#[derive(Clone, Copy, Debug, PartialEq, Eq, Structural)]
pub struct Kept {
    /// Write them: only what differs from what is kept is written.
    pub write: bool,
    /// Decode the last cover again, at its new size.
    pub redecode: bool,
    /// Restart: the rings are laid out at boot.
    pub restart: bool,
}

/// What OK in a dialog comes to: what differs from what is kept is written, a cover whose size
/// differs is decoded again, and plugins that are installed now and were not, or the other way
/// round, take a restart. `now` and `stored` say of each place with a plugin whether it is
/// installed.
pub fn keep(
    settings_differ: bool,
    cover_differs: bool,
    now: &Vec<Option<bool>>,
    stored: &Vec<Option<bool>>,
) -> (r: Kept)
    requires
        now.len() == stored.len(),
    ensures
        r.write ==> settings_differ,
        r.redecode ==> cover_differs,
        settings_differ ==> r.write,
        cover_differs ==> r.redecode,
        r == (Kept {
            write: settings_differ,
            redecode: cover_differs,
            restart: rings_change_spec(now@, stored@),
        }),
{
    Kept {
        write: settings_differ,
        redecode: cover_differs,
        restart: rings_change(now, stored),
    }
}

/// Keeping the plugins as they are restarts nothing; installing one that was not installed, or
/// removing one that was, restarts.
pub proof fn only_a_change_restarts(now: Seq<Option<bool>>, stored: Seq<Option<bool>>, n: int)
    requires
        now.len() == stored.len(),
        0 <= n < now.len(),
        now[n] is Some,
        stored[n] is Some,
    ensures
        !rings_change_spec(now, now),
        now[n] != stored[n] ==> rings_change_spec(now, stored),
{
}

/// Whether a face is handed news, and what it was handed last. News are handed once, and again
/// when they change; a face that is not on the screen is handed the latest when it comes back.
pub open spec fn hand_spec(wanted: bool, handed: Option<u32>, news: u32, runs: bool) -> (
    bool,
    Option<u32>,
) {
    if !wanted {
        (false, None)
    } else if handed != Some(news) && runs {
        (true, Some(news))
    } else {
        (false, handed)
    }
}

pub fn hand(wanted: bool, handed: Option<u32>, news: u32, runs: bool) -> (r: (bool, Option<u32>))
    ensures
        r == hand_spec(wanted, handed, news, runs),
{
    if !wanted {
        return (false, None);
    }
    let told = match handed {
        Some(last) => last == news,
        None => false,
    };
    if !told && runs {
        (true, Some(news))
    } else {
        (false, handed)
    }
}

/// News that do not change are handed over once, and once more after the face was away.
pub proof fn news_are_handed_once(handed: Option<u32>, news: u32)
    ensures
        !hand_spec(true, hand_spec(true, handed, news, true).1, news, true).0,
        hand_spec(true, hand_spec(false, handed, news, true).1, news, true).0,
{
}

/// A face that runs and wants news it has not been handed is handed them at once, and they are
/// remembered; one that does not run yet is handed nothing and nothing is taken as handed, so it
/// gets them as soon as it does; and one that does not want them is handed none.
pub proof fn news_reach_a_face(handed: Option<u32>, news: u32, runs: bool)
    ensures
        hand_spec(true, handed, news, true).0 <==> handed != Some(news),
        hand_spec(true, handed, news, true).1 == Some(news),
        hand_spec(true, handed, news, false) == (false, handed),
        hand_spec(false, handed, news, runs) == (false, None::<u32>),
{
}

/// Whether a face's pulse clicks now, and when it clicked last. The interval is the face's
/// latest, counted from the last click; without one nothing is due.
pub fn pulse(every: Option<u32>, last: Option<u64>, now: u64) -> (r: (bool, Option<u64>))
    ensures
        r.0 ==> every is Some && r.1 == Some(now),
        !r.0 ==> r.1 == (if every is Some {
            last
        } else {
            None
        }),
        every is Some && last is None ==> r.0,
        r.0 && last is Some ==> now - last->0 >= every->0,
        r == (match every {
            None => (false, None),
            Some(every) => if last is None || now >= last->0 + every {
                (true, Some(now))
            } else {
                (false, last)
            },
        }),
{
    match every {
        None => (false, None),
        Some(every) => match last {
            None => (true, Some(now)),
            Some(at) => if now >= at && now - at >= every as u64 {
                (true, Some(now))
            } else {
                (false, last)
            },
        },
    }
}

/// Which frame of the moving cloud is up, counted from 1, or 0 while it stands still or is not
/// on the screen. A file going out over Wi-Fi holds it still.
pub fn cloud_frame(moving: bool, on_cloud: bool, busy: bool, now: u64) -> (r: u32)
    requires
        now / 40 % 0x1_0000_0000 < u32::MAX,
    ensures
        r == 0 <==> !moving || !on_cloud || busy,
        r > 0 ==> r <= now / 40 + 1,
        r == (if moving && on_cloud && !busy {
            now / 40 % 0x1_0000_0000 + 1
        } else {
            0
        }),
{
    if moving && on_cloud && !busy {
        (now / CLOUD_FRAME % 0x1_0000_0000) as u32 + 1
    } else {
        0
    }
}

/// Whether the cloud is the ground: in the menus, and on the player until a cover arrives.
pub fn on_cloud(menu_up: bool, face: Face, backdrop: bool) -> (r: bool)
    ensures
        menu_up ==> r,
        face is Plugin && !menu_up ==> !r,
        backdrop && !menu_up ==> !r,
        r == (menu_up || (face == Face::Player && !backdrop)),
{
    menu_up || match face {
        Face::Player => !backdrop,
        Face::Plugin(_) => false,
    }
}

/// Whether uploads are taken: only while the receive dialog is open.
pub fn receiving(opened: Option<(u16, Owner)>) -> (r: bool)
    ensures
        r == (opened == Some((SETTING_RECEIVE, Owner::Firmware))),
{
    match opened {
        Some((id, Owner::Firmware)) => id == SETTING_RECEIVE,
        _ => false,
    }
}

/// Whether the share dialog is open.
pub fn sharing(opened: Option<(u16, Owner)>) -> (r: bool)
    ensures
        r == (opened == Some((SETTING_SHARE, Owner::Firmware))),
{
    match opened {
        Some((id, Owner::Firmware)) => id == SETTING_SHARE,
        _ => false,
    }
}

/// Whether the card is served: while the share dialog is open and a card is in.
pub fn serves(opened: Option<(u16, Owner)>, card: bool) -> (r: bool)
    ensures
        r == (card && opened == Some((SETTING_SHARE, Owner::Firmware))),
{
    card && sharing(opened)
}

/// Whether a code stands on the screen, which a camera reads best at full brightness.
pub fn code_shown(
    opened: Option<(u16, Owner)>,
    card: bool,
    network_code: bool,
    share_text: bool,
) -> (r: bool)
    ensures
        r ==> (opened matches Some((_, owner)) && owner is Firmware),
        share_text && r ==> (opened matches Some((id, _)) && id != SETTING_SHARE),
        opened is None ==> !r,
        r == (opened matches Some((id, Owner::Firmware)) && (SETTING_QR <= id < SETTING_QR + LINKS
            || (id == SETTING_SHARE && card && network_code && !share_text))),
{
    match opened {
        Some((id, Owner::Firmware)) => qr_index(id).is_some() || (id == SETTING_SHARE && card
            && network_code && !share_text),
        _ => false,
    }
}

/// What the backlight is set to with a picture, if anything: full while a code is shown, and the
/// stored level again after it.
#[derive(Clone, Copy, Debug, PartialEq, Eq, Structural)]
pub enum Light {
    Full,
    Stored,
}

pub fn light(lit: bool, code: bool, code_lit: bool) -> (r: Option<Light>)
    ensures
        r is Some ==> lit && code != code_lit,
        r == Some(Light::Full) ==> code,
        r == Some(Light::Stored) ==> !code,
        r is None ==> !lit || code == code_lit,
        r == (if lit && code != code_lit {
            Some(
                if code {
                    Light::Full
                } else {
                    Light::Stored
                },
            )
        } else {
            None
        }),
{
    if lit && code != code_lit {
        Some(
            if code {
                Light::Full
            } else {
                Light::Stored
            },
        )
    } else {
        None
    }
}

/// Which plugins of a list are installed, one bit each, the first in the lowest: places without
/// a plugin take no bit. `k` is the next bit.
pub open spec fn kept_spec(installed: Seq<Option<bool>>, n: int) -> (u16, int)
    decreases n,
{
    if n <= 0 {
        (0, 0)
    } else {
        let (bits, k) = kept_spec(installed, n - 1);
        match installed[n - 1] {
            Some(true) => (bits | (1u16 << (k as u16)), k + 1),
            Some(false) => (bits, k + 1),
            None => (bits, k),
        }
    }
}

pub fn kept_bits(installed: &Vec<Option<bool>>) -> (r: u16)
    requires
        installed.len() <= 16,
    ensures
        r == kept_spec(installed@, installed.len() as int).0,
{
    let mut bits: u16 = 0;
    let mut k: u16 = 0;
    let mut n: usize = 0;
    while n < installed.len()
        invariant
            n <= installed.len() <= 16,
            k <= n,
            (bits, k as int) == kept_spec(installed@, n as int),
        decreases installed.len() - n,
    {
        match installed[n] {
            Some(true) => {
                bits = bits | (1u16 << k);
                k = k + 1;
            },
            Some(false) => {
                k = k + 1;
            },
            None => {},
        }
        n = n + 1;
    }
    bits
}

/// How many of the first `n` places hold a plugin.
pub open spec fn held_before(installed: Seq<Option<bool>>, n: int) -> int
    decreases n,
{
    if n <= 0 {
        0
    } else {
        held_before(installed, n - 1) + (if installed[n - 1] is Some {
            1int
        } else {
            0
        })
    }
}

/// Every plugin has a bit of its own, counted from the lowest in the order of the places, and that
/// bit says whether the plugin is installed.
pub proof fn each_plugin_has_its_bit(installed: Seq<Option<bool>>, top: int, n: int)
    requires
        0 <= n < top <= installed.len() <= 16,
        installed[n] is Some,
    ensures
        kept_spec(installed, top).1 == held_before(installed, top) <= top,
        held_before(installed, n) < held_before(installed, top),
        (kept_spec(installed, top).0 >> (held_before(installed, n) as u16)) & 1u16 == (
        if installed[n] == Some(true) {
            1u16
        } else {
            0
        }),
    decreases top,
{
    bits_stay_below(installed, top);
    bits_stay_below(installed, top - 1);
    bits_stay_below(installed, n);
    let (bits, k) = kept_spec(installed, top - 1);
    let low = bits;
    let at = k as u16;
    let place = held_before(installed, n) as u16;
    if n == top - 1 {
        assert(place == at);
        assert(low < (1u32 << (at as u32)) && at < 16 ==> (low >> at) & 1u16 == 0) by (bit_vector);
        assert(at < 16 ==> ((low | (1u16 << at)) >> at) & 1u16 == 1) by (bit_vector);
    } else {
        each_plugin_has_its_bit(installed, top - 1, n);
        assert(place < at < 16 ==> ((low | (1u16 << at)) >> place) & 1u16 == (low >> place) & 1u16)
            by (bit_vector);
    }
}

proof fn bits_stay_below(installed: Seq<Option<bool>>, n: int)
    requires
        0 <= n <= installed.len() <= 16,
    ensures
        kept_spec(installed, n).1 == held_before(installed, n) <= n,
        0 <= kept_spec(installed, n).1,
        kept_spec(installed, n).0 < (1u32 << (kept_spec(installed, n).1 as u32)),
    decreases n,
{
    if n > 0 {
        bits_stay_below(installed, n - 1);
        let (bits, k) = kept_spec(installed, n - 1);
        let low = bits;
        let at = k as u16;
        let wide = k as u32;
        assert(low < (1u32 << wide) && wide < 16 && at == wide ==> (low | (1u16 << at)) < (1u32 << (
        (wide + 1) as u32))) by (bit_vector);
        assert(low < (1u32 << wide) && wide < 16 ==> low < (1u32 << ((wide + 1) as u32)))
            by (bit_vector);
    } else {
        assert(0u16 < (1u32 << 0u32)) by (bit_vector);
    }
}

/// Whether two bonds are the same.
pub open spec fn bonds_match(a: Bond, b: Bond) -> bool {
    &&& a.address@ == b.address@
    &&& a.ltk@ == b.ltk@
    &&& a.level == b.level
    &&& match (a.irk, b.irk) {
        (Some(a), Some(b)) => a@ == b@,
        (None, None) => true,
        _ => false,
    }
}

/// A bond matches itself, and two that match agree in all they hold: a phone that pairs anew, or
/// with another key or another level, is not taken for the one that is kept.
pub proof fn bonds_match_in_everything(a: Bond, b: Bond)
    ensures
        bonds_match(a, a),
        bonds_match(a, b) == bonds_match(b, a),
        bonds_match(a, b) ==> a.address@ == b.address@ && a.ltk@ == b.ltk@ && a.level == b.level && (
        a.irk is Some <==> b.irk is Some),
        a.address@ == b.address@ && a.ltk@ == b.ltk@ && a.level == b.level && a.irk == b.irk
            ==> bonds_match(a, b),
        bonds_match(a, b) && a.irk is Some ==> a.irk->0@ == b.irk->0@,
{
}

/// Whether a bond the host reports is written: encrypting with a known one reports it again, and
/// only a new one is.
pub fn bond_is_new(kept: Option<&Bond>, bond: &Bond) -> (r: bool)
    ensures
        r == !(kept matches Some(kept) && bonds_match(*kept, *bond)),
{
    match kept {
        None => true,
        Some(kept) => {
            let same_irk = match (&kept.irk, &bond.irk) {
                (Some(a), Some(b)) => same_key(a, b),
                (None, None) => true,
                _ => false,
            };
            !(same_address(&kept.address, &bond.address) && same_key(&kept.ltk, &bond.ltk)
                && kept.level == bond.level && same_irk)
        },
    }
}

/// Whether the knob restarts after an upload's command: once a slot was written or deleted.
pub fn restarts(status: UploadStatus) -> (r: bool)
    ensures
        r == (status == UploadStatus::Written || status == UploadStatus::Deleted),
{
    match status {
        UploadStatus::Written => true,
        UploadStatus::Deleted => true,
        _ => false,
    }
}

/// What is done about a finished cover.
#[derive(Clone, Copy, Debug, PartialEq, Eq, Structural)]
pub enum CoverPlan {
    /// Nothing waits, or it waits until the face that holds the heap is left.
    Wait,
    /// Decode it, after unloading the plugin that ran last if the heap is short.
    Decode { unload: bool },
}

/// What is done about a finished cover. Decoding takes heap that the plugin which ran last may
/// hold; it gives way, unless its face is on the screen.
pub open spec fn cover_plan_spec(
    waiting: bool,
    face_running: bool,
    plugin_running: bool,
    room: int,
    needed: int,
) -> CoverPlan {
    if !waiting || (face_running && room < needed) {
        CoverPlan::Wait
    } else {
        CoverPlan::Decode { unload: room < needed && plugin_running }
    }
}

pub fn cover_plan(
    waiting: bool,
    face_running: bool,
    plugin_running: bool,
    room: usize,
    needed: usize,
) -> (r: CoverPlan)
    ensures
        r == cover_plan_spec(waiting, face_running, plugin_running, room as int, needed as int),
{
    if !waiting || (face_running && room < needed) {
        CoverPlan::Wait
    } else {
        CoverPlan::Decode { unload: room < needed && plugin_running }
    }
}

/// Whether a cover is decoded, by the heap that is there once the plugin has given way: a cover
/// that still does not fit is passed over.
pub open spec fn decodes_spec(plan: CoverPlan, room: int, needed: int) -> bool {
    plan is Decode && room >= needed
}

pub fn decodes(plan: CoverPlan, room: usize, needed: usize) -> (r: bool)
    ensures
        r == decodes_spec(plan, room as int, needed as int),
{
    match plan {
        CoverPlan::Wait => false,
        CoverPlan::Decode { .. } => room >= needed,
    }
}

/// A waiting cover that fits from the start is decoded and nothing is unloaded for it; one that
/// fits once the plugin is gone is decoded after the plugin, whose face is not shown, is
/// unloaded.
pub proof fn a_cover_that_fits_is_decoded(shown: bool, running: bool, room: int, after: int, needed: int)
    ensures
        room >= needed ==> cover_plan_spec(true, shown, running, room, needed) == (
        CoverPlan::Decode { unload: false }) && decodes_spec(
            cover_plan_spec(true, shown, running, room, needed),
            room,
            needed,
        ),
        room < needed <= after && !shown ==> cover_plan_spec(true, shown, running, room, needed)
            == (CoverPlan::Decode { unload: running }) && decodes_spec(
            cover_plan_spec(true, shown, running, room, needed),
            after,
            needed,
        ),
{
}

/// A face on the screen never loses its plugin to a cover, and a cover that needs no more heap
/// than there is never waits.
pub proof fn a_shown_face_keeps_its_plugin(running: bool, room: int, needed: int)
    ensures
        cover_plan_spec(true, true, running, room, needed) != (CoverPlan::Decode { unload: true }),
        room >= needed ==> cover_plan_spec(true, true, running, room, needed) == (
        CoverPlan::Decode { unload: false }),
{
}

/// The drive for a step of the clicks, as rated voltage and overdrive clamp; step 0 is off and
/// has none.
pub open spec fn drive_spec(step: int) -> Option<(u8, u8)> {
    if step == 1 {
        Some((12, 28))
    } else if step == 2 {
        Some((15, 34))
    } else if step == 3 {
        Some((19, 42))
    } else if step == 4 {
        Some((23, 51))
    } else if step == 5 {
        Some((28, 63))
    } else if step == 6 {
        Some((34, 77))
    } else if step == 7 {
        Some((41, 94))
    } else if step == 8 {
        Some((51, 114))
    } else if step == 9 {
        Some((0x3E, 0x8C))
    } else {
        None
    }
}

pub fn drive(step: u8) -> (r: Option<(u8, u8)>)
    ensures
        r == drive_spec(step as int),
{
    match step {
        1 => Some((12, 28)),
        2 => Some((15, 34)),
        3 => Some((19, 42)),
        4 => Some((23, 51)),
        5 => Some((28, 63)),
        6 => Some((34, 77)),
        7 => Some((41, 94)),
        8 => Some((51, 114)),
        9 => Some((0x3E, 0x8C)),
        _ => None,
    }
}

/// Every step clicks harder than the one below it, on both counts.
pub proof fn every_step_is_stronger(step: int)
    requires
        1 <= step < 9,
    ensures
        drive_spec(step) is Some,
        drive_spec(step + 1) is Some,
        (drive_spec(step)->0).0 < (drive_spec(step + 1)->0).0,
        (drive_spec(step)->0).1 < (drive_spec(step + 1)->0).1,
{
}

/// The steps are geometric, each about 1.22 times the one below, up to the full drive; both
/// registers scale together, so that a click keeps its shape; and there is no step beyond the last
/// and none for off.
pub proof fn the_steps_are_geometric(step: int)
    ensures
        drive_spec(step) is Some <==> 1 <= step <= 9,
        drive_spec(9) == Some((0x3Eu8, 0x8Cu8)),
        1 <= step < 9 ==> {
            let (rated, clamp) = drive_spec(step)->0;
            let (more, most) = drive_spec(step + 1)->0;
            &&& 120 * rated <= 100 * more <= 127 * rated
            &&& 120 * clamp <= 100 * most <= 127 * clamp
        },
        1 <= step <= 9 ==> {
            let (rated, clamp) = drive_spec(step)->0;
            &&& 0x8C * rated - 0x3E * clamp < 0x8C
            &&& 0x3E * clamp - 0x8C * rated < 0x8C
        },
{
}

/// Whether a click is started: off is no click at all.
pub fn clicks(haptics: u8) -> (r: bool)
    ensures
        r == (haptics != 0),
{
    haptics != 0
}

/// Milliseconds a click lasts.
pub fn click_length(in_menu: bool) -> (r: u64)
    ensures
        r == (if in_menu {
            7u64
        } else {
            12
        }),
{
    if in_menu {
        CLICK_LENGTH_MENU
    } else {
        CLICK_LENGTH
    }
}

/// A detent clockwise is a quarter turn clockwise, from the last angle on to the first, and detents
/// add up whether they come at once or one after another.
#[verifier::spinoff_prover]
pub proof fn a_detent_is_a_quarter_turn(orientation: int, a: int, b: int)
    requires
        0 <= orientation < 4,
    ensures
        orientation < 3 ==> turned_spec(orientation, 1) == orientation + 1,
        turned_spec(3, 1) == 0,
        turned_spec(orientation, 0) == orientation,
        turned_spec(turned_spec(orientation, a), b) == turned_spec(orientation, a + b),
{
}

/// A count without its direction is the same either way.
pub proof fn a_count_has_a_size(n: i32)
    ensures
        size(n) >= 0,
        size(n) == n || size(n) == -n,
{
}

/// Nothing is decoded where no cover waits, nor while the face that holds the heap is shown; and a
/// plan to wait never decodes, however much heap there is.
pub proof fn a_cover_waits_for_its_room(shown: bool, running: bool, room: int, needed: int)
    ensures
        cover_plan_spec(false, shown, running, room, needed) == CoverPlan::Wait,
        room < needed ==> cover_plan_spec(true, true, running, room, needed) == CoverPlan::Wait,
        room < needed ==> cover_plan_spec(true, false, running, room, needed) == (
        CoverPlan::Decode { unload: running }),
        !decodes_spec(CoverPlan::Wait, room, needed),
        room < needed ==> !decodes_spec(CoverPlan::Decode { unload: running }, room, needed),
        room >= needed ==> decodes_spec(CoverPlan::Decode { unload: running }, room, needed),
{
}

/// The drive of each step, from the softest to the full one.
pub proof fn each_step_has_its_drive(step: int)
    requires
        1 <= step <= 9,
    ensures
        drive_spec(step) == Some(
            seq![
                (12u8, 28u8),
                (15, 34),
                (19, 42),
                (23, 51),
                (28, 63),
                (34, 77),
                (41, 94),
                (51, 114),
                (62, 140),
            ][step - 1],
        ),
{
}

} // verus!
