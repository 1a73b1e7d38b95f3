//! The face on the screen: which plugin it belongs to, loading and unloading that plugin, and
//! what its rights and its failures mean for the rest of the device.

use vstd::prelude::*;
use vstd::string::*;
use crate::menu::Face;
use crate::overview::{Backdrop, CloudShape, CoverStyle, Motion, Overview, PluginView};
use crate::screens::{Font, Ink, Line, LineView, views};
use crate::upload::{failed_spec, Received, UploadStatus};

verus! {

/// What the other chip is asked to do with its encoder: work the volume.
pub const COMPANION_STATE: u8 = 0x03;

/// What it is asked while the detents are this side's alone.
pub const COMPANION_STATE_SETTINGS: u8 = 0x05;

/// The bits of the other chip's state that it was asked for; the others are its own.
pub const COMPANION_STATE_MASK: u8 = 0x0F;

/// Which plugin's face it is, if it is one.
pub fn shown_index(face: Face) -> (r: Option<usize>)
    ensures
        r == (match face {
            Face::Plugin(n) => Some(n as usize),
            Face::Player => None,
        }),
{
    match face {
        Face::Plugin(n) => Some(n as usize),
        Face::Player => None,
    }
}

/// Whether the plugin whose face is on the screen is the one running.
pub fn shown_runs(running: Option<usize>, face: Face) -> (r: bool)
    ensures
        r == (face matches Face::Plugin(n) && running == Some(n as usize)),
{
    match (shown_index(face), running) {
        (Some(n), Some(m)) => n == m,
        _ => false,
    }
}

/// What the settings know about the plugin whose face is on the screen.
pub open spec fn shown_spec(state: &Overview) -> Option<PluginView> {
    match state.face {
        Face::Plugin(n) => if n < state.plugins.len() {
            state.plugins[n as int]
        } else {
            None
        },
        Face::Player => None,
    }
}

pub fn shown_view<'a>(state: &'a Overview) -> (r: Option<&'a PluginView>)
    ensures
        r is Some <==> shown_spec(state) is Some,
        r is Some ==> *r->0 == shown_spec(state)->0,
{
    match shown_index(state.face) {
        Some(n) => if n < state.plugins.len() {
            match &state.plugins[n] {
                Some(view) => Some(view),
                None => None,
            }
        } else {
            None
        },
        None => None,
    }
}

/// What the other chip is asked for: the volume, unless a menu is up or the face on the screen
/// has the knob.
pub open spec fn companion_spec(state: &Overview, menu_up: bool) -> u8 {
    if menu_up || (shown_spec(state) matches Some(view) && view.knob) {
        0x05
    } else {
        0x03
    }
}

pub fn companion_state(state: &Overview, menu_up: bool) -> (r: u8)
    ensures
        r == companion_spec(state, menu_up),
{
    let face_has_knob = match shown_view(state) {
        Some(view) => view.knob,
        None => false,
    };
    if menu_up || face_has_knob {
        COMPANION_STATE_SETTINGS
    } else {
        COMPANION_STATE
    }
}

/// One side has the knob, never both: what the other chip is asked for while a face has the
/// knob is what it is asked for while a menu is up, and differs from what it is asked for
/// otherwise.
pub proof fn one_side_has_the_knob(state: &Overview)
    ensures
        companion_spec(state, true) != 0x03,
        companion_spec(state, false) == 0x03 <==> !(shown_spec(state) matches Some(view)
            && view.knob),
{
}

/// What starting a face does.
#[derive(Clone, Copy, Debug, PartialEq, Eq, Structural)]
pub enum Start {
    /// Its plugin runs already, or there is nothing to run.
    Nothing,
    /// Load it, after unloading the one that runs, if one does.
    Load { unload: Option<usize> },
}

/// What starting plugin `n` does. `running` is the plugin that runs and whether it was stopped;
/// one that was stopped is loaded anew.
pub fn start_plugin(n: usize, modules: &Vec<bool>, running: Option<(usize, bool)>) -> (r: Start)
    ensures
        (r matches Start::Load { unload } ==> n < modules.len() && modules[n as int] && (unload is Some
            <==> running is Some)),
        (r matches Start::Load { unload: Some(m) } ==> (running->0).0 == m && (m == n ==> (running->0).1)),
        r == Start::Nothing && n < modules.len() && modules[n as int] ==> running == Some((n, false)),
        r == (if running == Some((n, false)) || n >= modules.len() || !modules[n as int] {
            Start::Nothing
        } else {
            Start::Load {
                unload: match running {
                    Some((m, _)) => Some(m),
                    None => None,
                },
            }
        }),
{
    let unload: Option<usize> = match running {
        Some((m, stopped)) => {
            if m == n && !stopped {
                return Start::Nothing;
            }
            Some(m)
        },
        None => None,
    };
    if n < modules.len() && modules[n] {
        Start::Load { unload }
    } else {
        Start::Nothing
    }
}

/// A view with what loading it came to.
pub open spec fn loaded_view(
    view: Option<PluginView>,
    loaded: Option<(u64, usize)>,
    fault: Option<String>,
) -> Option<PluginView> {
    match view {
        Some(view) => Some(PluginView { loaded, fault, ..view }),
        None => None,
    }
}

/// Notes that plugin `n` was unloaded: it is neither loaded nor stopped any more.
pub fn stop_plugin(views: &mut Vec<Option<PluginView>>, n: usize)
    requires
        n < old(views).len(),
    ensures
        final(views)@ == old(views)@.update(n as int, loaded_view(old(views)[n as int], None, None)),
{
    match &mut views[n] {
        Some(view) => {
            view.loaded = None;
            view.fault = None;
        },
        None => {},
    }
}

/// Why loading fails while no page of memory is free.
pub fn no_page() -> (r: String)
    ensures
        r@ == "no memory to run in"@,
{
    "no memory to run in".to_owned()
}

/// Notes what loading plugin `n` came to, microseconds and bytes of heap or why it was refused,
/// and says whether it runs now.
pub fn load_plugin(
    views: &mut Vec<Option<PluginView>>,
    n: usize,
    outcome: Result<(u64, usize), String>,
) -> (runs: bool)
    requires
        n < old(views).len(),
    ensures
        runs ==> outcome is Ok,
        forall|m: int| 0 <= m < old(views).len() && m != n ==> final(views)@[m] == old(views)@[m],
        (final(views)@[n as int] matches Some(view) ==> (view.fault is Some <==> outcome is Err) && (
        view.loaded is Some <==> outcome is Ok)),
        final(views)@[n as int] is Some <==> old(views)@[n as int] is Some,
        runs == (old(views)[n as int] is Some && outcome is Ok),
        final(views)@ == old(views)@.update(
            n as int,
            match outcome {
                Ok(cost) => loaded_view(old(views)[n as int], Some(cost), None),
                Err(why) => loaded_view(old(views)[n as int], None, Some(why)),
            },
        ),
{
    match &mut views[n] {
        Some(view) => match outcome {
            Ok(cost) => {
                view.loaded = Some(cost);
                view.fault = None;
                true
            },
            Err(why) => {
                view.loaded = None;
                view.fault = Some(why);
                false
            },
        },
        None => false,
    }
}

/// What loading cost in heap: how much more is in use than before, nothing if less is.
pub fn heap_cost(before: usize, after: usize) -> (r: usize)
    ensures
        after >= before ==> before + r == after,
        after <= before ==> r == 0,
        r == (if after > before {
            after - before
        } else {
            0
        }),
{
    after.saturating_sub(before)
}

/// The most heap free in any one region: an allocation cannot span two.
pub fn heap_room(free: &Vec<Option<usize>>) -> (r: usize)
    ensures
        forall|n: int| 0 <= n < free.len() && free[n] is Some ==> free[n]->0 <= r,
        r == 0 || exists|n: int| 0 <= n < free.len() && free[n] == Some(r),
{
    let mut most: usize = 0;
    let mut n: usize = 0;
    while n < free.len()
        invariant
            n <= free.len(),
            forall|k: int| 0 <= k < n && free[k] is Some ==> free[k]->0 <= most,
            most == 0 || exists|k: int| 0 <= k < n && free[k] == Some(most),
        decreases free.len() - n,
    {
        if let Some(here) = free[n] {
            if here > most {
                most = here;
                assert(free[n as int] == Some(most));
            }
        }
        n = n + 1;
    }
    most
}

/// Notes an event that a face answered: a wish to be drawn again counts the frame up, and
/// whatever stopped the plugin is shown.
pub fn deliver(state: &mut Overview, frame: &mut u32, redraw: bool, fault: Option<String>)
    ensures
        *final(frame) == (if redraw {
            vstd::wrapping::u32_specs::wrapping_add(*old(frame), 1)
        } else {
            *old(frame)
        }),
        final(state).plugins@ == (match shown_spec(old(state)) {
            Some(view) => old(state).plugins@.update(
                old(state).face->Plugin_0 as int,
                Some(PluginView { fault, ..view }),
            ),
            None => old(state).plugins@,
        }),
        *final(state) == (Overview { plugins: final(state).plugins, ..*old(state) }),
{
    if redraw {
        *frame = (*frame).wrapping_add(1);
    }
    if let Some(n) = shown_index(state.face) {
        if n < state.plugins.len() {
            match &mut state.plugins[n] {
                Some(view) => {
                    view.fault = fault;
                },
                None => {},
            }
        }
    }
}

/// What a stopped face shows: which plugin, that it stopped, and why.
pub open spec fn stopped_lines(state: &Overview) -> Seq<LineView> {
    let (name, why) = match shown_spec(state) {
        Some(view) => (
            view.name@,
            match view.fault {
                Some(why) => why@,
                None => ""@,
            },
        ),
        None => ("Plugin"@, ""@),
    };
    seq![
        LineView { dy: -34, text: name, font: Font::Large, ink: Ink::White },
        LineView { dy: 0, text: "stopped"@, font: Font::Body, ink: Ink::Value },
        LineView { dy: 28, text: why, font: Font::SmallLatin1, ink: Ink::Quiet },
    ]
}

pub fn stopped_screen(state: &Overview) -> (lines: Vec<Line>)
    ensures
        views(lines@) == stopped_lines(state),
{
    let (name, why) = match shown_view(state) {
        Some(view) => (
            view.name.clone(),
            match &view.fault {
                Some(why) => why.clone(),
                None => "".to_owned(),
            },
        ),
        None => ("Plugin".to_owned(), "".to_owned()),
    };
    let mut lines: Vec<Line> = Vec::new();
    lines.push(Line { dy: -34, text: name, font: Font::Large, ink: Ink::White });
    lines.push(Line { dy: 0, text: "stopped".to_owned(), font: Font::Body, ink: Ink::Value });
    lines.push(Line { dy: 28, text: why, font: Font::SmallLatin1, ink: Ink::Quiet });
    assert(views(lines@) =~= stopped_lines(state));
    lines
}

/// The settings that act as they are turned, in the words and numbers the screens use.
#[derive(Debug)]
pub struct Live {
    pub orientation: usize,
    pub theme: String,
    pub brightness: u8,
    pub haptics: u8,
    pub cover: CoverStyle,
    pub cover_name: String,
    pub motion: Motion,
    pub motion_name: String,
    pub shape: CloudShape,
    /// Which plugins are installed, by place.
    pub installed: Vec<bool>,
}

/// Whether the state stands where the settings do.
pub open spec fn stands_at(state: &Overview, live: &Live) -> bool {
    &&& state.orientation == live.orientation
    &&& state.theme@ == live.theme@
    &&& state.brightness == live.brightness
    &&& state.haptics == live.haptics
    &&& state.cover == live.cover
    &&& state.cover_name@ == live.cover_name@
    &&& state.motion == live.motion
    &&& state.motion_name@ == live.motion_name@
    &&& state.shape == live.shape
    &&& forall|n: int|
        0 <= n < state.plugins.len() ==> ((#[trigger] state.plugins[n]) matches Some(view)
            ==> view.installed == live.installed[n])
}

/// The state a boot starts in: the settings as they are kept, what was found on the way, and
/// nothing heard yet. The player is on the screen, over a background off the card if there is
/// one.
pub fn at_boot(
    live: Live,
    version: String,
    haptics_max: u8,
    bonded: Option<[u8; 6]>,
    plugins: Vec<Option<PluginView>>,
    free_slots: Option<usize>,
    background: Option<String>,
    card: Option<String>,
) -> (r: Overview)
    ensures
        r == (Overview {
            version,
            uptime: 0,
            networks: 0,
            peer: false,
            bonded,
            detents: 0,
            orientation: live.orientation,
            theme: live.theme,
            brightness: live.brightness,
            haptics: live.haptics,
            haptics_max,
            volume: None,
            companion_encoder: false,
            streaming: false,
            hid: false,
            cover: live.cover,
            cover_name: live.cover_name,
            motion: live.motion,
            motion_name: live.motion_name,
            shape: live.shape,
            ground: 0,
            title: r.title,
            artist: r.artist,
            run: None,
            backdrop: match background {
                Some(name) => Some(Backdrop::Card(name)),
                None => None,
            },
            face: Face::Player,
            plugins,
            free_slots,
            offer: None,
            received: failed_spec(UploadStatus::Idle),
            reason: r.reason,
            card,
            share_text: false,
        }),
        r.title@.len() == 0,
        r.artist@.len() == 0,
        r.reason@.len() == 0,
        live.orientation < 4 ==> r.wf(),
        (forall|n: int|
            0 <= n < plugins.len() ==> ((#[trigger] plugins[n]) matches Some(view)
                ==> view.installed == live.installed[n])) ==> stands_at(&r, &live),
{
    Overview {
        version,
        uptime: 0,
        networks: 0,
        peer: false,
        bonded,
        detents: 0,
        orientation: live.orientation,
        theme: live.theme,
        brightness: live.brightness,
        haptics: live.haptics,
        haptics_max,
        volume: None,
        companion_encoder: false,
        streaming: false,
        hid: false,
        cover: live.cover,
        cover_name: live.cover_name,
        motion: live.motion,
        motion_name: live.motion_name,
        shape: live.shape,
        ground: 0,
        title: String::new(),
        artist: String::new(),
        run: None,
        backdrop: match background {
            Some(name) => Some(Backdrop::Card(name)),
            None => None,
        },
        face: Face::default(),
        plugins,
        free_slots,
        offer: None,
        received: Received::default(),
        reason: String::new(),
        card,
        share_text: false,
    }
}

/// Whether two views differ at most in whether they are installed.
pub open spec fn same_but_installed(a: Option<PluginView>, b: Option<PluginView>) -> bool {
    match (a, b) {
        (Some(a), Some(b)) => a == (PluginView { installed: a.installed, ..b }),
        (None, None) => true,
        _ => false,
    }
}

/// Brings everything that follows a setting live back in line with the settings: what Cancel
/// does, and a long press out of an open dialog.
pub fn take_back(live: &Live, state: &mut Overview)
    requires
        live.installed.len() == old(state).plugins.len(),
    ensures
        stands_at(final(state), live),
        final(state).plugins.len() == old(state).plugins.len(),
        forall|n: int|
            0 <= n < old(state).plugins.len() ==> same_but_installed(
                #[trigger] final(state).plugins[n],
                old(state).plugins[n],
            ),
        *final(state) == (Overview {
            orientation: final(state).orientation,
            theme: final(state).theme,
            brightness: final(state).brightness,
            haptics: final(state).haptics,
            cover: final(state).cover,
            cover_name: final(state).cover_name,
            motion: final(state).motion,
            motion_name: final(state).motion_name,
            shape: final(state).shape,
            plugins: final(state).plugins,
            ..*old(state)
        }),
{
    state.orientation = live.orientation;
    state.theme = live.theme.clone();
    state.brightness = live.brightness;
    state.haptics = live.haptics;
    state.cover = live.cover;
    state.cover_name = live.cover_name.clone();
    state.motion = live.motion;
    state.motion_name = live.motion_name.clone();
    state.shape = live.shape;
    let ghost before = *state;
    let mut n: usize = 0;
    while n < state.plugins.len()
        invariant
            n <= state.plugins.len(),
            state.plugins.len() == before.plugins.len(),
            live.installed.len() == before.plugins.len(),
            *state == (Overview { plugins: state.plugins, ..before }),
            forall|k: int|
                0 <= k < n ==> ((#[trigger] state.plugins[k]) matches Some(view) ==> view.installed
                    == live.installed[k]),
            forall|k: int|
                0 <= k < before.plugins.len() ==> same_but_installed(
                    #[trigger] state.plugins[k],
                    before.plugins[k],
                ),
        decreases state.plugins.len() - n,
    {
        match &mut state.plugins[n] {
            Some(view) => {
                view.installed = live.installed[n];
            },
            None => {},
        }
        n = n + 1;
    }
}

/// The view on the screen is that of the plugin whose face it is, and the player has none.
pub proof fn the_shown_view_is_the_faces(state: &Overview, n: u8)
    ensures
        state.face == Face::Player ==> shown_spec(state) is None,
        state.face == Face::Plugin(n) && n < state.plugins.len() ==> shown_spec(state)
            == state.plugins[n as int],
        state.face == Face::Plugin(n) && n >= state.plugins.len() ==> shown_spec(state) is None,
{
}

/// The other chip keeps the volume only on the player or on a face without the knob, and only
/// while no menu is up; whenever this side takes the detents it is told so.
pub proof fn the_knob_is_asked_for_where_it_is_used(state: &Overview, menu_up: bool)
    ensures
        menu_up ==> companion_spec(state, menu_up) == COMPANION_STATE_SETTINGS,
        !menu_up && state.face == Face::Player ==> companion_spec(state, menu_up) == COMPANION_STATE,
        (shown_spec(state) matches Some(view) ==> view.knob ==> companion_spec(state, menu_up)
            == COMPANION_STATE_SETTINGS),
        (shown_spec(state) matches Some(view) ==> !view.knob && !menu_up ==> companion_spec(
            state,
            menu_up,
        ) == COMPANION_STATE),
        COMPANION_STATE == 0x03 && COMPANION_STATE_SETTINGS == 0x05,
{
}

/// Loading changes what a view says of loading and nothing else, and makes no view where there was
/// none.
pub proof fn loading_changes_nothing_else(
    view: Option<PluginView>,
    loaded: Option<(u64, usize)>,
    fault: Option<String>,
)
    ensures
        view is None <==> loaded_view(view, loaded, fault) is None,
        (view matches Some(was) ==> (loaded_view(view, loaded, fault) matches Some(is) && {
            &&& is.loaded == loaded
            &&& is.fault == fault
            &&& is.id == was.id && is.name == was.name && is.summary == was.summary
            &&& is.bytes == was.bytes && is.version == was.version && is.rights == was.rights
            &&& is.knob == was.knob && is.slot == was.slot && is.installed == was.installed
        })),
{
}

/// A stopped face names its plugin, says that it stopped, and why.
pub proof fn a_stopped_face_says_why(state: &Overview)
    ensures
        stopped_lines(state).len() == 3,
        stopped_lines(state)[1].text == "stopped"@,
        (shown_spec(state) matches Some(view) ==> stopped_lines(state)[0].text == view.name@ && (
        view.fault matches Some(why) ==> stopped_lines(state)[2].text == why@)),
        shown_spec(state) is None ==> stopped_lines(state)[0].text == "Plugin"@,
        stopped_lines(state)[0].dy < stopped_lines(state)[1].dy < stopped_lines(state)[2].dy,
{
}

/// A state that stands where the settings do shows each of them, and one that differs in any of
/// them does not stand there.
pub proof fn standing_there_is_standing_in_everything(state: &Overview, live: &Live, n: int)
    ensures
        stands_at(state, live) ==> {
            &&& state.orientation == live.orientation && state.theme@ == live.theme@
            &&& state.brightness == live.brightness && state.haptics == live.haptics
            &&& state.cover == live.cover && state.cover_name@ == live.cover_name@
            &&& state.motion == live.motion && state.motion_name@ == live.motion_name@
            &&& state.shape == live.shape
            &&& 0 <= n < state.plugins.len() ==> (state.plugins[n] matches Some(view)
                ==> view.installed == live.installed[n])
        },
{
}

/// Views that differ in nothing but whether they are installed are of the same plugin, and show the
/// same of it.
pub proof fn the_rest_of_a_view_is_kept(a: PluginView, b: PluginView)
    ensures
        same_but_installed(Some(a), Some(b)) ==> {
            &&& a.id == b.id && a.name == b.name && a.summary == b.summary && a.bytes == b.bytes
            &&& a.version == b.version && a.rights == b.rights && a.knob == b.knob
            &&& a.slot == b.slot && a.loaded == b.loaded && a.fault == b.fault
        },
        !same_but_installed(Some(a), None),
        !same_but_installed(None, Some(b)),
        same_but_installed(None, None),
{
}

/// The name of a stopped plugin stands above what became of it, and the reason below, each set to be
/// read as what it is.
pub proof fn a_stopped_face_is_set_to_be_read(state: &Overview)
    ensures
        stopped_lines(state)[0].dy == -34,
        stopped_lines(state)[1].dy == 0,
        stopped_lines(state)[2].dy == 28,
        stopped_lines(state)[0].font == Font::Large && stopped_lines(state)[0].ink == Ink::White,
        stopped_lines(state)[1].font == Font::Body && stopped_lines(state)[1].ink == Ink::Value,
        stopped_lines(state)[2].font == Font::SmallLatin1 && stopped_lines(state)[2].ink
            == Ink::Quiet,
        (shown_spec(state) matches Some(view) ==> view.fault is None ==> stopped_lines(state)[2].text
            == ""@),
{
}

} // verus!
