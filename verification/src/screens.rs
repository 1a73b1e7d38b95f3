//! What the screens say: the value under the selected entry of a menu, the lines of whichever
//! dialog is open, and the player. The program draws what is returned here.

use vstd::prelude::*;
use vstd::string::*;
use crate::menu::{Face, PluginSetting, qr_index, LINKS, SETTING_ABOUT, SETTING_ACCENT,
    SETTING_APP_ABOUT, SETTING_BACKGROUND_ABOUT, SETTING_BRIGHTEST, SETTING_BRIGHTNESS,
    SETTING_CENTRE, SETTING_COVER, SETTING_FORGET, SETTING_HAPTICS, SETTING_INSTALL, SETTING_MOTION,
    SETTING_ORIENTATION, SETTING_PLAYER_ABOUT, SETTING_POINTS, SETTING_QR, SETTING_RECEIVE,
    SETTING_SHARE, SETTING_THEME};
use crate::overview::{Backdrop, CoverStyle, Motion, Offer, Overview, PluginView};
use crate::text::{push_address, push_decimal, push_plus_signed, push_small_hex, push_thousandths};
use crate::upload::UploadStatus;

verus! {

/// A size of the typeface.
#[derive(Clone, Copy, Debug, PartialEq, Eq, Structural)]
pub enum Font {
    Body,
    Large,
    Small,
    SmallLatin1,
    Value,
}

/// A colour, by what it is for: the theme's for names, values and quiet text, and three of its
/// own.
#[derive(Clone, Copy, Debug, PartialEq, Eq, Structural)]
pub enum Ink {
    Name,
    Value,
    Quiet,
    LightGray,
    Gray,
    Orange,
    White,
}

/// One line of a screen, `dy` pixels below the middle it is centred on.
#[derive(Debug)]
pub struct Line {
    pub dy: i32,
    pub text: String,
    pub font: Font,
    pub ink: Ink,
}

/// A line as contracts speak of it.
pub struct LineView {
    pub dy: int,
    pub text: Seq<char>,
    pub font: Font,
    pub ink: Ink,
}

impl View for Line {
    type V = LineView;

    open spec fn view(&self) -> LineView {
        LineView { dy: self.dy as int, text: self.text@, font: self.font, ink: self.ink }
    }
}

/// Lines as contracts speak of them.
pub open spec fn views(lines: Seq<Line>) -> Seq<LineView> {
    lines.map_values(|l: Line| l@)
}

/// An optional text as contracts speak of it.
pub open spec fn said(text: Option<String>) -> Option<Seq<char>> {
    match text {
        Some(text) => Some(text@),
        None => None,
    }
}

fn add_line(lines: &mut Vec<Line>, dy: i32, text: String, font: Font, ink: Ink)
    ensures
        views(final(lines)@) == views(old(lines)@).push(
            LineView { dy: dy as int, text: text@, font, ink },
        ),
{
    let ghost before = lines@;
    lines.push(Line { dy, text, font, ink });
    assert(views(lines@) =~= views(before).push(
        LineView { dy: dy as int, text: text@, font, ink },
    ));
}

fn no_lines() -> (r: Vec<Line>)
    ensures
        views(r@) == Seq::<LineView>::empty(),
{
    let r: Vec<Line> = Vec::new();
    assert(views(r@) =~= Seq::<LineView>::empty());
    r
}

/// A heading.
pub open spec fn heading(dy: int, text: Seq<char>) -> LineView {
    LineView { dy, text, font: Font::Body, ink: Ink::Name }
}

/// A value there to be read off the screen: large, in the theme's own colour for values.
pub open spec fn reading(dy: int, text: Seq<char>) -> LineView {
    LineView { dy, text, font: Font::Large, ink: Ink::Value }
}

/// A fact.
pub open spec fn detail(dy: int, text: Seq<char>) -> LineView {
    LineView { dy, text, font: Font::Small, ink: Ink::LightGray }
}

/// A hint.
pub open spec fn quiet(dy: int, text: Seq<char>) -> LineView {
    LineView { dy, text, font: Font::Small, ink: Ink::Quiet }
}

/// A warning.
pub open spec fn warning(dy: int, text: Seq<char>) -> LineView {
    LineView { dy, text, font: Font::Small, ink: Ink::Orange }
}

/// Whose menu is up.
#[derive(Clone, Copy, Debug, PartialEq, Eq, Structural)]
pub enum Owner {
    Firmware,
    Plugin,
}

/// What an entry does.
#[derive(Clone, Copy, Debug, PartialEq, Eq, Structural)]
pub enum Kind {
    Home,
    Firmware,
    Screen(u16),
    Menu,
    Plugin,
    Setting(u16),
    Other,
}

/// The entry the ring stands on.
#[derive(Debug)]
pub struct Selected {
    pub kind: Kind,
    pub name: String,
    pub id: Option<u16>,
}

/// Where the user is in the menus.
#[derive(Debug)]
pub struct Place {
    pub owner: Owner,
    /// Whether the menu is home.
    pub home: bool,
    pub selected: Option<Selected>,
    /// The dialog that is open, and whose it is.
    pub opened: Option<(u16, Owner)>,
}

/// The access point of the share dialog, and the address to open in a browser.
#[derive(Debug)]
pub struct Credentials {
    pub ssid: String,
    pub password: String,
    pub host: String,
}

/// What a dialog shows besides lines.
#[derive(Clone, Copy, Debug, PartialEq, Eq, Structural)]
pub enum Picture {
    Nothing,
    /// The code to join the network with.
    Network,
    /// The code of a link.
    Link(usize),
}

/// A menu's screen: what stands under the selected entry's name, and the open dialog.
#[derive(Debug)]
pub struct SettingsScreen {
    pub value: Option<String>,
    pub lines: Vec<Line>,
    pub picture: Picture,
}

pub open spec fn orientation_text(state: &Overview) -> Seq<char> {
    crate::text::decimal((state.orientation * 90) as nat) + " deg"@
}

fn orientation_of(state: &Overview) -> (r: String)
    requires
        state.wf(),
    ensures
        r@ == orientation_text(state),
{
    let mut t = String::new();
    push_decimal(&mut t, (state.orientation * 90) as u64);
    t.append(" deg");
    t
}

pub open spec fn percent_text(n: nat) -> Seq<char> {
    crate::text::decimal(n) + " %"@
}

fn percent_of(n: u64) -> (r: String)
    ensures
        r@ == percent_text(n as nat),
{
    let mut t = String::new();
    push_decimal(&mut t, n);
    t.append(" %");
    t
}

pub open spec fn pixels_text(n: nat) -> Seq<char> {
    crate::text::decimal(n) + " px"@
}

fn pixels_of(n: u64) -> (r: String)
    ensures
        r@ == pixels_text(n as nat),
{
    let mut t = String::new();
    push_decimal(&mut t, n);
    t.append(" px");
    t
}

fn number_of(n: u64) -> (r: String)
    ensures
        r@ == crate::text::decimal(n as nat),
{
    let mut t = String::new();
    push_decimal(&mut t, n);
    t
}

/// How many slots are free, in words.
pub open spec fn free_text(n: nat) -> Seq<char> {
    if n == 0 {
        "no free slot"@
    } else if n == 1 {
        "1 free slot"@
    } else {
        crate::text::decimal(n) + " free slots"@
    }
}

fn free_of(n: usize) -> (r: String)
    ensures
        r@ == free_text(n as nat),
{
    if n == 0 {
        "no free slot".to_owned()
    } else if n == 1 {
        "1 free slot".to_owned()
    } else {
        let mut t = String::new();
        push_decimal(&mut t, n as u64);
        t.append(" free slots");
        t
    }
}

pub open spec fn haptics_text(state: &Overview) -> Seq<char> {
    if state.haptics == 0 {
        "Off"@
    } else {
        crate::text::decimal(state.haptics as nat) + " / "@ + crate::text::decimal(
            state.haptics_max as nat,
        )
    }
}

fn haptics_of(state: &Overview) -> (r: String)
    ensures
        r@ == haptics_text(state),
{
    if state.haptics == 0 {
        "Off".to_owned()
    } else {
        let mut t = String::new();
        push_decimal(&mut t, state.haptics as u64);
        t.append(" / ");
        push_decimal(&mut t, state.haptics_max as u64);
        t
    }
}

pub open spec fn installed_text(state: &Overview, n: int) -> Seq<char> {
    if state.plugins[n] matches Some(view) && view.installed {
        "Yes"@
    } else {
        "No"@
    }
}

fn installed_of(state: &Overview, n: usize) -> (r: &'static str)
    requires
        n < state.plugins.len(),
    ensures
        r@ == installed_text(state, n as int),
{
    match &state.plugins[n] {
        Some(view) => if view.installed {
            "Yes"
        } else {
            "No"
        },
        None => "No",
    }
}

pub open spec fn paired_text(state: &Overview) -> Seq<char> {
    if state.bonded is Some {
        "paired"@
    } else {
        "no phone"@
    }
}

fn paired_of(state: &Overview) -> (r: &'static str)
    ensures
        r@ == paired_text(state),
{
    match &state.bonded {
        Some(_) => "paired",
        None => "no phone",
    }
}

pub open spec fn card_text(state: &Overview) -> Seq<char> {
    match state.card {
        Some(size) => size@,
        None => "no card"@,
    }
}

fn card_of(state: &Overview) -> (r: String)
    ensures
        r@ == card_text(state),
{
    match &state.card {
        Some(size) => size.clone(),
        None => "no card".to_owned(),
    }
}

pub open spec fn cover_text(state: &Overview) -> Seq<char> {
    match state.cover {
        CoverStyle::Sharp => "sharp"@,
        CoverStyle::Full => "full screen"@,
    }
}

pub open spec fn motion_text(state: &Overview) -> Seq<char> {
    match state.motion {
        Motion::Still => "still"@,
        Motion::Moving => "moving"@,
    }
}

fn motion_of(state: &Overview) -> (r: &'static str)
    ensures
        r@ == motion_text(state),
{
    match state.motion {
        Motion::Still => "still",
        Motion::Moving => "moving",
    }
}

/// Where the settings stand, for the gear at home: what differs from how the device comes is
/// added to the theme and the brightness.
pub open spec fn firmware_state(state: &Overview) -> Seq<char> {
    let line = state.theme@ + " · "@ + percent_text(state.brightness as nat);
    let line = if state.orientation != 0 {
        line + " · "@ + orientation_text(state)
    } else {
        line
    };
    let line = if state.haptics == 0 {
        line + " · silent"@
    } else {
        line
    };
    if state.motion == Motion::Moving {
        line + " · moving"@
    } else {
        line
    }
}

/// What stands under the name of the selected entry at home: a state, not an explanation.
pub open spec fn home_state_spec(state: &Overview, kind: Kind) -> Option<Seq<char>> {
    match kind {
        Kind::Firmware => Some(firmware_state(state)),
        Kind::Screen(id) => match Face::of_spec(id) {
            Face::Player => Some(
                if state.title@.len() == 0 {
                    "nothing playing"@
                } else {
                    state.title@
                },
            ),
            Face::Plugin(n) => if n < state.plugins.len() {
                match state.plugins[n as int] {
                    Some(view) => if view.fault is Some {
                        Some("stopped"@)
                    } else if view.summary@.len() == 0 {
                        None
                    } else {
                        Some(view.summary@)
                    },
                    None => None,
                }
            } else {
                None
            },
        },
        Kind::Home => Some("look at github.com:\nteetotum-rs/firmware"@),
        Kind::Setting(id) => if id == SETTING_SHARE {
            Some(card_text(state))
        } else {
            None
        },
        _ => None,
    }
}

pub fn home_state(state: &Overview, kind: Kind) -> (r: Option<String>)
    requires
        state.wf(),
    ensures
        said(r) == home_state_spec(state, kind),
{
    match kind {
        Kind::Firmware => {
            let mut line = state.theme.clone();
            line.append(" · ");
            line.append(percent_of(state.brightness as u64).as_str());
            if state.orientation != 0 {
                line.append(" · ");
                line.append(orientation_of(state).as_str());
            }
            if state.haptics == 0 {
                line.append(" · silent");
            }
            match state.motion {
                Motion::Moving => {
                    line.append(" · moving");
                },
                Motion::Still => {},
            }
            Some(line)
        },
        Kind::Screen(id) => match Face::of(id) {
            Face::Player => if state.title.as_str().is_empty() {
                Some("nothing playing".to_owned())
            } else {
                Some(state.title.clone())
            },
            Face::Plugin(n) => {
                let n: usize = n as usize;
                if n < state.plugins.len() {
                    match &state.plugins[n] {
                        Some(view) => match &view.fault {
                            Some(_) => Some("stopped".to_owned()),
                            None => if view.summary.as_str().is_empty() {
                                None
                            } else {
                                Some(view.summary.clone())
                            },
                        },
                        None => None,
                    }
                } else {
                    None
                }
            },
        },
        Kind::Home => Some("look at github.com:\nteetotum-rs/firmware".to_owned()),
        Kind::Setting(id) => if id == SETTING_SHARE {
            Some(card_of(state))
        } else {
            None
        },
        _ => None,
    }
}

/// What one of the firmware's settings stands at.
pub open spec fn setting_value(state: &Overview, id: u16) -> Option<Seq<char>> {
    if id == SETTING_ABOUT {
        Some(state.version@)
    } else if id == SETTING_ORIENTATION {
        Some(orientation_text(state))
    } else if id == SETTING_THEME {
        Some(state.theme@)
    } else if id == SETTING_BRIGHTNESS {
        Some(percent_text(state.brightness as nat))
    } else if id == SETTING_HAPTICS {
        Some(haptics_text(state))
    } else if id == SETTING_COVER {
        Some(state.cover_name@)
    } else if id == SETTING_MOTION {
        Some(state.motion_name@)
    } else if id == SETTING_RECEIVE {
        match state.free_slots {
            Some(n) => Some(free_text(n as nat)),
            None => None,
        }
    } else if id == SETTING_SHARE {
        Some(card_text(state))
    } else if id == SETTING_FORGET {
        Some(paired_text(state))
    } else if id == SETTING_POINTS {
        Some(crate::text::decimal(state.shape.points as nat))
    } else if id == SETTING_BRIGHTEST {
        Some(percent_text(state.shape.brightest as nat))
    } else if id == SETTING_CENTRE {
        Some(pixels_text(state.shape.centre as nat))
    } else if id == SETTING_ACCENT {
        Some(percent_text(state.shape.accent as nat))
    } else {
        None
    }
}

fn setting_value_of(state: &Overview, id: u16) -> (r: Option<String>)
    requires
        state.wf(),
    ensures
        said(r) == setting_value(state, id),
{
    if id == SETTING_ABOUT {
        Some(state.version.clone())
    } else if id == SETTING_ORIENTATION {
        Some(orientation_of(state))
    } else if id == SETTING_THEME {
        Some(state.theme.clone())
    } else if id == SETTING_BRIGHTNESS {
        Some(percent_of(state.brightness as u64))
    } else if id == SETTING_HAPTICS {
        Some(haptics_of(state))
    } else if id == SETTING_COVER {
        Some(state.cover_name.clone())
    } else if id == SETTING_MOTION {
        Some(state.motion_name.clone())
    } else if id == SETTING_RECEIVE {
        match state.free_slots {
            Some(n) => Some(free_of(n)),
            None => None,
        }
    } else if id == SETTING_SHARE {
        Some(card_of(state))
    } else if id == SETTING_FORGET {
        Some(paired_of(state).to_owned())
    } else if id == SETTING_POINTS {
        Some(number_of(state.shape.points as u64))
    } else if id == SETTING_BRIGHTEST {
        Some(percent_of(state.shape.brightest as u64))
    } else if id == SETTING_CENTRE {
        Some(pixels_of(state.shape.centre as u64))
    } else if id == SETTING_ACCENT {
        Some(percent_of(state.shape.accent as u64))
    } else {
        None
    }
}

/// What a plugin's own setting stands at: only whether it is installed is a value.
pub open spec fn plugin_value(state: &Overview, id: u16) -> Option<Seq<char>> {
    match PluginSetting::of_spec(id, state.plugins.len() as int) {
        Some((n, PluginSetting::Installed)) => Some(installed_text(state, n as int)),
        _ => None,
    }
}

/// The first plugin from place `n` on that goes by `name`.
pub open spec fn named(plugins: Seq<Option<PluginView>>, name: Seq<char>, n: int) -> Option<
    PluginView,
>
    decreases plugins.len() - n,
{
    if n < 0 || n >= plugins.len() {
        None
    } else if plugins[n] matches Some(view) && view.name@ == name {
        plugins[n]
    } else {
        named(plugins, name, n + 1)
    }
}

/// Whether a plugin runs.
pub open spec fn running_text(view: PluginView) -> Seq<char> {
    if view.fault is Some {
        "stopped"@
    } else if view.loaded is Some {
        "loaded"@
    } else {
        "not loaded"@
    }
}

/// What an entry that leads deeper stands at. Such entries have no id; they are told apart by
/// kind and name.
pub open spec fn deeper_value(state: &Overview, kind: Kind, name: Seq<char>) -> Option<Seq<char>> {
    match kind {
        Kind::Menu => if name == "Music Player"@ {
            Some(cover_text(state))
        } else if name == "App"@ {
            Some(paired_text(state))
        } else if name == "Background"@ {
            Some(motion_text(state))
        } else {
            None
        },
        Kind::Plugin => match named(state.plugins@, name, 0) {
            Some(view) => Some(running_text(view)),
            None => None,
        },
        _ => None,
    }
}

fn deeper_value_of(state: &Overview, kind: Kind, name: &String) -> (r: Option<String>)
    ensures
        said(r) == deeper_value(state, kind, name@),
{
    match kind {
        Kind::Menu => if *name == "Music Player".to_owned() {
            match state.cover {
                CoverStyle::Sharp => Some("sharp".to_owned()),
                CoverStyle::Full => Some("full screen".to_owned()),
            }
        } else if *name == "App".to_owned() {
            Some(paired_of(state).to_owned())
        } else if *name == "Background".to_owned() {
            Some(motion_of(state).to_owned())
        } else {
            None
        },
        Kind::Plugin => {
            let mut n: usize = 0;
            while n < state.plugins.len()
                invariant
                    n <= state.plugins.len(),
                    kind == Kind::Plugin,
                    named(state.plugins@, name@, 0) == named(state.plugins@, name@, n as int),
                decreases state.plugins.len() - n,
            {
                if let Some(view) = &state.plugins[n] {
                    if view.name == *name {
                        return match (&view.fault, &view.loaded) {
                            (Some(_), _) => Some("stopped".to_owned()),
                            (None, Some(_)) => Some("loaded".to_owned()),
                            (None, None) => Some("not loaded".to_owned()),
                        };
                    }
                }
                n = n + 1;
            }
            None
        },
        _ => None,
    }
}

/// The first that is there.
pub open spec fn or_else(a: Option<Seq<char>>, b: Option<Seq<char>>) -> Option<Seq<char>> {
    if a is Some {
        a
    } else {
        b
    }
}

/// What stands under the name of the selected entry. An id means something only together with
/// its owner: a plugin's first entry has the same id as the firmware's.
pub open spec fn value_spec(state: &Overview, at: &Place) -> Option<Seq<char>> {
    match at.selected {
        None => None,
        Some(entry) => {
            let own = match (at.owner, entry.id) {
                (Owner::Firmware, Some(id)) => setting_value(state, id),
                (Owner::Plugin, Some(id)) => plugin_value(state, id),
                _ => None,
            };
            let deeper = match at.owner {
                Owner::Firmware => deeper_value(state, entry.kind, entry.name@),
                Owner::Plugin => None,
            };
            let home = if at.home {
                home_state_spec(state, entry.kind)
            } else {
                None
            };
            or_else(or_else(own, deeper), home)
        },
    }
}

fn value_of(state: &Overview, at: &Place) -> (r: Option<String>)
    requires
        state.wf(),
    ensures
        said(r) == value_spec(state, at),
{
    let entry = match &at.selected {
        Some(entry) => entry,
        None => {
            return None;
        },
    };
    let own = match (at.owner, entry.id) {
        (Owner::Firmware, Some(id)) => setting_value_of(state, id),
        (Owner::Plugin, Some(id)) => match PluginSetting::of(id, state.plugins.len()) {
            Some((n, PluginSetting::Installed)) => Some(installed_of(state, n).to_owned()),
            _ => None,
        },
        _ => None,
    };
    if own.is_some() {
        return own;
    }
    let deeper = match at.owner {
        Owner::Firmware => deeper_value_of(state, entry.kind, &entry.name),
        Owner::Plugin => None,
    };
    if deeper.is_some() {
        return deeper;
    }
    if at.home {
        home_state(state, entry.kind)
    } else {
        None
    }
}

/// A value that turns with the knob, and where its effect is seen.
pub open spec fn turned_lines(value: Seq<char>, hint: Seq<char>) -> Seq<LineView> {
    seq![reading(-14, value), quiet(16, "turn the knob"@), quiet(34, hint)]
}

fn turned(value: String, hint: &str) -> (r: Vec<Line>)
    ensures
        views(r@) == turned_lines(value@, hint@),
{
    let mut lines = no_lines();
    add_line(&mut lines, -14, value, Font::Large, Ink::Value);
    add_line(&mut lines, 16, "turn the knob".to_owned(), Font::Small, Ink::Quiet);
    add_line(&mut lines, 34, hint.to_owned(), Font::Small, Ink::Quiet);
    lines
}

/// About: the device's own state.
pub open spec fn about_lines(state: &Overview) -> Seq<LineView> {
    seq![
        heading(-38, "TeeToTum"@),
        quiet(-18, "MIT OR Apache-2.0"@),
        detail(
            0,
            "up "@ + crate::text::decimal(state.uptime as nat) + " s  wi-fi "@
                + crate::text::decimal(state.networks as nat) + " nets"@,
        ),
        detail(
            16,
            "ble "@ + (if state.peer {
                "connected"@
            } else {
                "advertising"@
            }) + "  knob "@ + crate::text::plus_signed(state.detents as int),
        ),
    ]
}

fn about(state: &Overview) -> (r: Vec<Line>)
    ensures
        views(r@) == about_lines(state),
{
    let mut lines = no_lines();
    add_line(&mut lines, -38, "TeeToTum".to_owned(), Font::Body, Ink::Name);
    add_line(&mut lines, -18, "MIT OR Apache-2.0".to_owned(), Font::Small, Ink::Quiet);
    let mut up = "up ".to_owned();
    push_decimal(&mut up, state.uptime as u64);
    up.append(" s  wi-fi ");
    push_decimal(&mut up, state.networks as u64);
    up.append(" nets");
    add_line(&mut lines, 0, up, Font::Small, Ink::LightGray);
    let mut ble = "ble ".to_owned();
    ble.append(
        if state.peer {
            "connected"
        } else {
            "advertising"
        },
    );
    ble.append("  knob ");
    push_plus_signed(&mut ble, state.detents as i64);
    add_line(&mut lines, 16, ble, Font::Small, Ink::LightGray);
    lines
}

/// The app's About: the phone that is paired, by the address its own settings show, and whether
/// it is connected.
pub open spec fn app_about_lines(state: &Overview) -> Seq<LineView> {
    seq![
        heading(-38, "App"@),
        quiet(-18, "over Bluetooth LE"@),
        detail(
            0,
            match state.bonded {
                Some(address) => "paired "@ + crate::text::address_text(address@),
                None => "no phone paired"@,
            },
        ),
        detail(
            16,
            if state.peer {
                "connected"@
            } else {
                "not connected"@
            },
        ),
    ]
}

fn app_about(state: &Overview) -> (r: Vec<Line>)
    ensures
        views(r@) == app_about_lines(state),
{
    let mut lines = no_lines();
    add_line(&mut lines, -38, "App".to_owned(), Font::Body, Ink::Name);
    add_line(&mut lines, -18, "over Bluetooth LE".to_owned(), Font::Small, Ink::Quiet);
    let bonded = match &state.bonded {
        Some(address) => {
            let mut t = "paired ".to_owned();
            push_address(&mut t, address);
            t
        },
        None => "no phone paired".to_owned(),
    };
    add_line(&mut lines, 0, bonded, Font::Small, Ink::LightGray);
    let link = if state.peer {
        "connected"
    } else {
        "not connected"
    };
    add_line(&mut lines, 16, link.to_owned(), Font::Small, Ink::LightGray);
    lines
}

/// Forgetting the phone.
pub open spec fn forget_lines(state: &Overview) -> Seq<LineView> {
    seq![
        LineView {
            dy: -14,
            text: match state.bonded {
                Some(address) => crate::text::address_text(address@),
                None => "no phone"@,
            },
            font: Font::Body,
            ink: Ink::Value,
        },
        quiet(16, "OK forgets it"@),
        quiet(34, "the app pairs anew"@),
    ]
}

fn forget(state: &Overview) -> (r: Vec<Line>)
    ensures
        views(r@) == forget_lines(state),
{
    let mut lines = no_lines();
    let bonded = match &state.bonded {
        Some(address) => {
            let mut t = String::new();
            push_address(&mut t, address);
            t
        },
        None => "no phone".to_owned(),
    };
    add_line(&mut lines, -14, bonded, Font::Body, Ink::Value);
    add_line(&mut lines, 16, "OK forgets it".to_owned(), Font::Small, Ink::Quiet);
    add_line(&mut lines, 34, "the app pairs anew".to_owned(), Font::Small, Ink::Quiet);
    lines
}

/// What stands behind the player.
pub open spec fn backdrop_text(state: &Overview) -> Seq<char> {
    match state.backdrop {
        Some(Backdrop::Card(name)) => "card  "@ + name@,
        Some(Backdrop::Cover { width, height }) => "cover  "@ + crate::text::decimal(width as nat)
            + "x"@ + crate::text::decimal(height as nat),
        None => "no cover"@,
    }
}

/// What the other chip last said of its volume and its encoder.
pub open spec fn companion_text(state: &Overview) -> Seq<char> {
    match state.volume {
        Some(volume) => "vol "@ + crate::text::decimal(volume as nat) + "  encoder "@ + (
        if state.companion_encoder {
            "on"@
        } else {
            "off"@
        }),
        None => "other chip silent"@,
    }
}

/// The player's About: the other chip's state.
pub open spec fn player_about_lines(state: &Overview) -> Seq<LineView> {
    seq![
        heading(-48, "Music Player"@),
        quiet(-28, "through the other chip"@),
        detail(-10, backdrop_text(state)),
        detail(8, companion_text(state)),
        detail(
            26,
            if state.streaming {
                "audio streaming"@
            } else {
                "no audio stream"@
            },
        ),
        detail(
            44,
            if state.hid {
                "hid connected"@
            } else {
                "hid not connected"@
            },
        ),
    ]
}

fn player_about(state: &Overview) -> (r: Vec<Line>)
    ensures
        views(r@) == player_about_lines(state),
{
    let backdrop = match &state.backdrop {
        Some(Backdrop::Card(name)) => {
            let mut t = "card  ".to_owned();
            t.append(name.as_str());
            t
        },
        Some(Backdrop::Cover { width, height }) => {
            let mut t = "cover  ".to_owned();
            push_decimal(&mut t, *width as u64);
            t.append("x");
            push_decimal(&mut t, *height as u64);
            t
        },
        None => "no cover".to_owned(),
    };
    let companion = match state.volume {
        Some(volume) => {
            let mut t = "vol ".to_owned();
            push_decimal(&mut t, volume as u64);
            t.append("  encoder ");
            t.append(
                if state.companion_encoder {
                    "on"
                } else {
                    "off"
                },
            );
            t
        },
        None => "other chip silent".to_owned(),
    };
    let stream = if state.streaming {
        "audio streaming"
    } else {
        "no audio stream"
    };
    let hid = if state.hid {
        "hid connected"
    } else {
        "hid not connected"
    };
    let mut lines = no_lines();
    add_line(&mut lines, -48, "Music Player".to_owned(), Font::Body, Ink::Name);
    add_line(&mut lines, -28, "through the other chip".to_owned(), Font::Small, Ink::Quiet);
    add_line(&mut lines, -10, backdrop, Font::Small, Ink::LightGray);
    add_line(&mut lines, 8, companion, Font::Small, Ink::LightGray);
    add_line(&mut lines, 26, stream.to_owned(), Font::Small, Ink::LightGray);
    add_line(&mut lines, 44, hid.to_owned(), Font::Small, Ink::LightGray);
    lines
}

/// The background's About: how the cloud is set, and what drawing it cost last.
pub open spec fn background_about_lines(state: &Overview) -> Seq<LineView> {
    seq![
        heading(-38, "Background"@),
        quiet(-18, "a cloud of points"@),
        detail(
            0,
            crate::text::decimal(state.shape.points as nat) + " points, "@ + crate::text::decimal(
                state.shape.brightest as nat,
            ) + " % bright"@,
        ),
        detail(
            16,
            "centre "@ + crate::text::decimal(state.shape.centre as nat) + " px, "@
                + crate::text::decimal(state.shape.accent as nat) + " % icon colour"@,
        ),
        detail(
            32,
            motion_text(state) + ", ground "@ + crate::text::thousandths(state.ground as nat)
                + " ms"@,
        ),
    ]
}

fn background_about(state: &Overview) -> (r: Vec<Line>)
    ensures
        views(r@) == background_about_lines(state),
{
    let mut lines = no_lines();
    add_line(&mut lines, -38, "Background".to_owned(), Font::Body, Ink::Name);
    add_line(&mut lines, -18, "a cloud of points".to_owned(), Font::Small, Ink::Quiet);
    let mut points = String::new();
    push_decimal(&mut points, state.shape.points as u64);
    points.append(" points, ");
    push_decimal(&mut points, state.shape.brightest as u64);
    points.append(" % bright");
    add_line(&mut lines, 0, points, Font::Small, Ink::LightGray);
    let mut centre = "centre ".to_owned();
    push_decimal(&mut centre, state.shape.centre as u64);
    centre.append(" px, ");
    push_decimal(&mut centre, state.shape.accent as u64);
    centre.append(" % icon colour");
    add_line(&mut lines, 16, centre, Font::Small, Ink::LightGray);
    let mut ground = motion_of(state).to_owned();
    ground.append(", ground ");
    push_thousandths(&mut ground, state.ground as u64);
    ground.append(" ms");
    add_line(&mut lines, 32, ground, Font::Small, Ink::LightGray);
    lines
}

/// The share of an upload that has arrived, in percent. Nothing announced counts as one byte.
pub open spec fn arrived_percent(received: int, total: int) -> int {
    received * 100 / (if total == 0 {
        1
    } else {
        total
    })
}

/// Receiving a plugin.
pub open spec fn receive_lines(state: &Overview) -> Seq<LineView> {
    let top = seq![quiet(-42, "a plugin over BLE"@)];
    let received = state.received;
    match received.status {
        UploadStatus::Idle => if state.peer {
            top.push(detail(-4, "connected"@))
        } else {
            top.push(detail(-4, "waiting for a sender"@)).push(quiet(16, "visible as TeeToTum"@))
        },
        UploadStatus::Ready => top.push(
            reading(
                -14,
                percent_text(
                    arrived_percent(received.received as int, received.total as int) as nat,
                ),
            ),
        ).push(
            detail(
                16,
                crate::text::decimal(received.received as nat) + " of "@ + crate::text::decimal(
                    received.total as nat,
                ) + " bytes"@,
            ),
        ).push(quiet(34, "into slot "@ + crate::text::decimal(received.slot as nat))),
        UploadStatus::Written => top.push(reading(-14, "written"@)).push(quiet(16, "restarting"@)),
        UploadStatus::Deleted => top.push(reading(-14, "deleted"@)).push(quiet(16, "restarting"@)),
        failed => top.push(warning(-14, state.reason@)).push(
            quiet(
                16,
                if failed == UploadStatus::NoPlugin {
                    "nothing deleted"@
                } else {
                    "send it again"@
                },
            ),
        ),
    }
}

fn receiving(state: &Overview) -> (r: Vec<Line>)
    requires
        state.wf(),
    ensures
        views(r@) == receive_lines(state),
{
    let received = &state.received;
    let mut lines = no_lines();
    add_line(&mut lines, -42, "a plugin over BLE".to_owned(), Font::Small, Ink::Quiet);
    match received.status {
        UploadStatus::Idle => {
            if state.peer {
                add_line(&mut lines, -4, "connected".to_owned(), Font::Small, Ink::LightGray);
            } else {
                add_line(
                    &mut lines,
                    -4,
                    "waiting for a sender".to_owned(),
                    Font::Small,
                    Ink::LightGray,
                );
                add_line(
                    &mut lines,
                    16,
                    "visible as TeeToTum".to_owned(),
                    Font::Small,
                    Ink::Quiet,
                );
            }
        },
        UploadStatus::Ready => {
            let whole: usize = if received.total == 0 {
                1
            } else {
                received.total
            };
            let percent: usize = received.received * 100 / whole;
            add_line(&mut lines, -14, percent_of(percent as u64), Font::Large, Ink::Value);
            let mut bytes = String::new();
            push_decimal(&mut bytes, received.received as u64);
            bytes.append(" of ");
            push_decimal(&mut bytes, received.total as u64);
            bytes.append(" bytes");
            add_line(&mut lines, 16, bytes, Font::Small, Ink::LightGray);
            let mut slot = "into slot ".to_owned();
            push_decimal(&mut slot, received.slot as u64);
            add_line(&mut lines, 34, slot, Font::Small, Ink::Quiet);
        },
        UploadStatus::Written => {
            add_line(&mut lines, -14, "written".to_owned(), Font::Large, Ink::Value);
            add_line(&mut lines, 16, "restarting".to_owned(), Font::Small, Ink::Quiet);
        },
        UploadStatus::Deleted => {
            add_line(&mut lines, -14, "deleted".to_owned(), Font::Large, Ink::Value);
            add_line(&mut lines, 16, "restarting".to_owned(), Font::Small, Ink::Quiet);
        },
        UploadStatus::NoPlugin => {
            add_line(&mut lines, -14, state.reason.clone(), Font::Small, Ink::Orange);
            add_line(&mut lines, 16, "nothing deleted".to_owned(), Font::Small, Ink::Quiet);
        },
        _ => {
            add_line(&mut lines, -14, state.reason.clone(), Font::Small, Ink::Orange);
            add_line(&mut lines, 16, "send it again".to_owned(), Font::Small, Ink::Quiet);
        },
    }
    lines
}

/// A plugin waiting to be accepted, as its module describes it. A key that no bundled plugin has
/// is said as such, and so is a plugin too large for the heap.
pub open spec fn install_lines(offer: Offer) -> Seq<LineView> {
    let owner = if offer.known {
        "project key"@
    } else {
        "unknown key"@
    };
    let owner = if offer.update {
        "update, "@ + owner
    } else {
        owner
    };
    seq![
        heading(-38, offer.name@),
        if offer.known {
            quiet(-17, owner)
        } else {
            warning(-17, owner)
        },
        detail(1, "key "@ + crate::text::small_hex(offer.key@)),
        detail(19, "rights "@ + offer.rights@),
        detail(
            37,
            if offer.heap <= offer.free {
                "v"@ + offer.version@ + "  "@ + crate::text::thousandths(offer.heap as nat)
                    + " KB heap"@
            } else {
                "too large: "@ + crate::text::thousandths(offer.heap as nat) + " KB heap"@
            },
        ),
    ]
}

fn install(offer: &Offer) -> (r: Vec<Line>)
    ensures
        views(r@) == install_lines(*offer),
{
    let mut lines = no_lines();
    add_line(&mut lines, -38, offer.name.clone(), Font::Body, Ink::Name);
    let key_is = if offer.known {
        "project key"
    } else {
        "unknown key"
    };
    let owner = if offer.update {
        let mut t = "update, ".to_owned();
        t.append(key_is);
        t
    } else {
        key_is.to_owned()
    };
    let ink = if offer.known {
        Ink::Quiet
    } else {
        Ink::Orange
    };
    add_line(&mut lines, -17, owner, Font::Small, ink);
    let mut key = "key ".to_owned();
    push_small_hex(&mut key, &offer.key);
    add_line(&mut lines, 1, key, Font::Small, Ink::LightGray);
    let mut rights = "rights ".to_owned();
    rights.append(offer.rights.as_str());
    add_line(&mut lines, 19, rights, Font::Small, Ink::LightGray);
    let mut cost = if offer.heap <= offer.free {
        let mut t = "v".to_owned();
        t.append(offer.version.as_str());
        t.append("  ");
        t
    } else {
        "too large: ".to_owned()
    };
    push_thousandths(&mut cost, offer.heap as u64);
    cost.append(" KB heap");
    add_line(&mut lines, 37, cost, Font::Small, Ink::LightGray);
    lines
}

/// A plugin's About: what its manifest says, and what loading it cost.
pub open spec fn plugin_about_lines(view: PluginView) -> Seq<LineView> {
    let (run, cost) = match (view.fault, view.loaded) {
        (Some(fault), _) => ("stopped"@, fault@),
        (None, Some((us, heap))) => (
            "loaded in "@ + crate::text::thousandths(us as nat) + " ms"@,
            crate::text::thousandths(heap as nat) + " KB heap"@,
        ),
        (None, None) => ("not loaded"@, Seq::empty()),
    };
    seq![
        heading(-48, view.name@),
        quiet(
            -28,
            match view.slot {
                Some(slot) => "from slot "@ + crate::text::decimal(slot as nat),
                None => "bundled with the firmware"@,
            },
        ),
        detail(-10, crate::text::decimal(view.bytes as nat) + " bytes"@),
        detail(8, "rights "@ + view.rights@),
        detail(26, run),
        detail(44, cost),
    ]
}

fn plugin_about(view: &PluginView) -> (r: Vec<Line>)
    ensures
        views(r@) == plugin_about_lines(*view),
{
    let (run, cost) = match (&view.fault, &view.loaded) {
        (Some(fault), _) => ("stopped".to_owned(), fault.clone()),
        (None, Some(loaded)) => {
            let mut run = "loaded in ".to_owned();
            push_thousandths(&mut run, loaded.0);
            run.append(" ms");
            let mut cost = String::new();
            push_thousandths(&mut cost, loaded.1 as u64);
            cost.append(" KB heap");
            (run, cost)
        },
        (None, None) => ("not loaded".to_owned(), String::new()),
    };
    let mut lines = no_lines();
    add_line(&mut lines, -48, view.name.clone(), Font::Body, Ink::Name);
    let from = match view.slot {
        Some(slot) => {
            let mut t = "from slot ".to_owned();
            push_decimal(&mut t, slot as u64);
            t
        },
        None => "bundled with the firmware".to_owned(),
    };
    add_line(&mut lines, -28, from, Font::Small, Ink::Quiet);
    let mut bytes = String::new();
    push_decimal(&mut bytes, view.bytes as u64);
    bytes.append(" bytes");
    add_line(&mut lines, -10, bytes, Font::Small, Ink::LightGray);
    let mut rights = "rights ".to_owned();
    rights.append(view.rights.as_str());
    add_line(&mut lines, 8, rights, Font::Small, Ink::LightGray);
    add_line(&mut lines, 26, run, Font::Small, Ink::LightGray);
    add_line(&mut lines, 44, cost, Font::Small, Ink::LightGray);
    lines
}

/// The network to join, in words.
pub open spec fn share_lines(credentials: &Credentials) -> Seq<LineView> {
    seq![
        quiet(-43, "join the network"@),
        LineView { dy: -19, text: credentials.ssid@, font: Font::Value, ink: Ink::Value },
        quiet(11, "with the password"@),
        LineView { dy: 35, text: credentials.password@, font: Font::Value, ink: Ink::Value },
        quiet(65, "then open"@),
        LineView { dy: 89, text: credentials.host@, font: Font::Value, ink: Ink::Value },
    ]
}

fn share(credentials: &Credentials) -> (r: Vec<Line>)
    ensures
        views(r@) == share_lines(credentials),
{
    let mut lines = no_lines();
    add_line(&mut lines, -43, "join the network".to_owned(), Font::Small, Ink::Quiet);
    add_line(&mut lines, -19, credentials.ssid.clone(), Font::Value, Ink::Value);
    add_line(&mut lines, 11, "with the password".to_owned(), Font::Small, Ink::Quiet);
    add_line(&mut lines, 35, credentials.password.clone(), Font::Value, Ink::Value);
    add_line(&mut lines, 65, "then open".to_owned(), Font::Small, Ink::Quiet);
    add_line(&mut lines, 89, credentials.host.clone(), Font::Value, Ink::Value);
    lines
}

/// The share dialog without a card.
pub open spec fn no_card_lines() -> Seq<LineView> {
    seq![reading(-14, "no card"@), quiet(16, "none was found at boot"@)]
}

/// The lines of one of the firmware's dialogs. `code` says whether there is a code to join the
/// network with; it stands in place of the words until the knob turns.
pub open spec fn firmware_lines(
    state: &Overview,
    id: u16,
    credentials: &Credentials,
    code: bool,
) -> Seq<LineView> {
    if id == SETTING_ABOUT {
        about_lines(state)
    } else if id == SETTING_APP_ABOUT {
        app_about_lines(state)
    } else if id == SETTING_FORGET {
        forget_lines(state)
    } else if id == SETTING_PLAYER_ABOUT {
        player_about_lines(state)
    } else if id == SETTING_BACKGROUND_ABOUT {
        background_about_lines(state)
    } else if id == SETTING_MOTION {
        turned_lines(state.motion_name@, "the cloud shows it"@)
    } else if id == SETTING_POINTS {
        turned_lines(crate::text::decimal(state.shape.points as nat), "50 a detent"@)
    } else if id == SETTING_BRIGHTEST {
        turned_lines(percent_text(state.shape.brightest as nat), "at the rim"@)
    } else if id == SETTING_CENTRE {
        turned_lines(pixels_text(state.shape.centre as nat), "no points inside it"@)
    } else if id == SETTING_ACCENT {
        turned_lines(percent_text(state.shape.accent as nat), "points in the icon colour"@)
    } else if id == SETTING_COVER {
        turned_lines(state.cover_name@, "sharp keeps 200 px"@)
    } else if id == SETTING_ORIENTATION {
        turned_lines(orientation_text(state), "About marks the top"@)
    } else if id == SETTING_THEME {
        turned_lines(state.theme@, "the ring shows it"@)
    } else if id == SETTING_BRIGHTNESS {
        turned_lines(percent_text(state.brightness as nat), "the screen shows it"@)
    } else if id == SETTING_HAPTICS {
        turned_lines(haptics_text(state), "the clicks show it"@)
    } else if id == SETTING_RECEIVE {
        receive_lines(state)
    } else if id == SETTING_INSTALL {
        match state.offer {
            Some(offer) => install_lines(offer),
            None => Seq::empty(),
        }
    } else if id == SETTING_SHARE {
        if state.card is None {
            no_card_lines()
        } else if code && !state.share_text {
            Seq::empty()
        } else {
            share_lines(credentials)
        }
    } else {
        Seq::empty()
    }
}

fn firmware_dialog(state: &Overview, id: u16, credentials: &Credentials, code: bool) -> (r: Vec<
    Line,
>)
    requires
        state.wf(),
    ensures
        views(r@) == firmware_lines(state, id, credentials, code),
{
    if id == SETTING_ABOUT {
        about(state)
    } else if id == SETTING_APP_ABOUT {
        app_about(state)
    } else if id == SETTING_FORGET {
        forget(state)
    } else if id == SETTING_PLAYER_ABOUT {
        player_about(state)
    } else if id == SETTING_BACKGROUND_ABOUT {
        background_about(state)
    } else if id == SETTING_MOTION {
        turned(state.motion_name.clone(), "the cloud shows it")
    } else if id == SETTING_POINTS {
        turned(number_of(state.shape.points as u64), "50 a detent")
    } else if id == SETTING_BRIGHTEST {
        turned(percent_of(state.shape.brightest as u64), "at the rim")
    } else if id == SETTING_CENTRE {
        turned(pixels_of(state.shape.centre as u64), "no points inside it")
    } else if id == SETTING_ACCENT {
        turned(percent_of(state.shape.accent as u64), "points in the icon colour")
    } else if id == SETTING_COVER {
        turned(state.cover_name.clone(), "sharp keeps 200 px")
    } else if id == SETTING_ORIENTATION {
        turned(orientation_of(state), "About marks the top")
    } else if id == SETTING_THEME {
        turned(state.theme.clone(), "the ring shows it")
    } else if id == SETTING_BRIGHTNESS {
        turned(percent_of(state.brightness as u64), "the screen shows it")
    } else if id == SETTING_HAPTICS {
        turned(haptics_of(state), "the clicks show it")
    } else if id == SETTING_RECEIVE {
        receiving(state)
    } else if id == SETTING_INSTALL {
        match &state.offer {
            Some(offer) => install(offer),
            None => no_lines(),
        }
    } else if id == SETTING_SHARE {
        if state.card.is_none() {
            let mut lines = no_lines();
            add_line(&mut lines, -14, "no card".to_owned(), Font::Large, Ink::Value);
            add_line(&mut lines, 16, "none was found at boot".to_owned(), Font::Small, Ink::Quiet);
            lines
        } else if code && !state.share_text {
            no_lines()
        } else {
            share(credentials)
        }
    } else {
        no_lines()
    }
}

/// The lines of one of a plugin's dialogs.
pub open spec fn plugin_lines(state: &Overview, id: u16) -> Seq<LineView> {
    match PluginSetting::of_spec(id, state.plugins.len() as int) {
        Some((n, PluginSetting::Installed)) => seq![
            reading(-14, installed_text(state, n as int)),
            quiet(16, "turn the knob"@),
            quiet(34, "OK restarts"@),
        ],
        Some((n, PluginSetting::About)) => match state.plugins[n as int] {
            Some(view) => plugin_about_lines(view),
            None => Seq::empty(),
        },
        None => Seq::empty(),
    }
}

fn plugin_dialog(state: &Overview, id: u16) -> (r: Vec<Line>)
    ensures
        views(r@) == plugin_lines(state, id),
{
    match PluginSetting::of(id, state.plugins.len()) {
        Some((n, PluginSetting::Installed)) => turned(
            installed_of(state, n).to_owned(),
            "OK restarts",
        ),
        Some((n, PluginSetting::About)) => match &state.plugins[n] {
            Some(view) => plugin_about(view),
            None => no_lines(),
        },
        None => no_lines(),
    }
}

/// The lines of the open dialog, none while no dialog is open.
pub open spec fn lines_spec(
    state: &Overview,
    at: &Place,
    credentials: &Credentials,
    code: bool,
) -> Seq<LineView> {
    match at.opened {
        Some((id, Owner::Firmware)) => firmware_lines(state, id, credentials, code),
        Some((id, Owner::Plugin)) => plugin_lines(state, id),
        None => Seq::empty(),
    }
}

/// The picture of the open dialog: the share dialog's code while the card is in and the words
/// are not asked for, and the code of whichever link is open.
pub open spec fn picture_spec(state: &Overview, at: &Place, code: bool) -> Picture {
    match at.opened {
        Some((id, Owner::Firmware)) => if id == SETTING_SHARE && state.card is Some && code
            && !state.share_text {
            Picture::Network
        } else if SETTING_QR <= id < SETTING_QR + LINKS {
            Picture::Link((id - SETTING_QR) as usize)
        } else {
            Picture::Nothing
        },
        _ => Picture::Nothing,
    }
}

/// The menus: what each setting stands at, and the body of whichever dialog is open.
pub fn settings_screen(
    state: &Overview,
    at: &Place,
    credentials: &Credentials,
    code: bool,
) -> (screen: SettingsScreen)
    requires
        state.wf(),
    ensures
        said(screen.value) == value_spec(state, at),
        views(screen.lines@) == lines_spec(state, at, credentials, code),
        screen.picture == picture_spec(state, at, code),
{
    let value = value_of(state, at);
    match at.opened {
        Some((id, Owner::Firmware)) => {
            let lines = firmware_dialog(state, id, credentials, code);
            let picture = if id == SETTING_SHARE && state.card.is_some() && code
                && !state.share_text {
                Picture::Network
            } else {
                match qr_index(id) {
                    Some(n) => Picture::Link(n),
                    None => Picture::Nothing,
                }
            };
            SettingsScreen { value, lines, picture }
        },
        Some((id, Owner::Plugin)) => SettingsScreen {
            value,
            lines: plugin_dialog(state, id),
            picture: Picture::Nothing,
        },
        None => SettingsScreen { value, lines: no_lines(), picture: Picture::Nothing },
    }
}

/// A dialog shows a picture or lines, never both.
pub proof fn pictures_stand_alone(
    state: &Overview,
    at: &Place,
    credentials: &Credentials,
    code: bool,
)
    requires
        picture_spec(state, at, code) != Picture::Nothing,
    ensures
        lines_spec(state, at, credentials, code) == Seq::<LineView>::empty(),
{
}

/// What a plugin's menu says never depends on the firmware's settings: with the same plugins the
/// same id under a plugin's menu reads the same, whatever else the state holds.
pub proof fn plugin_dialogs_read_plugins_only(a: &Overview, b: &Overview, id: u16)
    requires
        a.plugins@ == b.plugins@,
    ensures
        plugin_lines(a, id) == plugin_lines(b, id),
        plugin_value(a, id) == plugin_value(b, id),
{
}

/// Under each of the firmware's entries stands that setting's own value, and under no other entry
/// anything: the version, how far the picture is turned in degrees, the theme, the brightness in
/// percent, the strength of the clicks out of the strongest, the cover, the motion, the free slots,
/// the card, the phone, and the four parts of the cloud's shape.
pub proof fn each_entry_stands_at_its_own_value(state: &Overview, id: u16)
    ensures
        setting_value(state, SETTING_ABOUT) == Some(state.version@),
        setting_value(state, SETTING_ORIENTATION) == Some(
            crate::text::decimal((state.orientation * 90) as nat) + " deg"@,
        ),
        setting_value(state, SETTING_THEME) == Some(state.theme@),
        setting_value(state, SETTING_BRIGHTNESS) == Some(
            crate::text::decimal(state.brightness as nat) + " %"@,
        ),
        state.haptics == 0 ==> setting_value(state, SETTING_HAPTICS) == Some("Off"@),
        state.haptics != 0 ==> setting_value(state, SETTING_HAPTICS) == Some(
            crate::text::decimal(state.haptics as nat) + " / "@ + crate::text::decimal(
                state.haptics_max as nat,
            ),
        ),
        setting_value(state, SETTING_COVER) == Some(state.cover_name@),
        setting_value(state, SETTING_MOTION) == Some(state.motion_name@),
        setting_value(state, SETTING_POINTS) == Some(
            crate::text::decimal(state.shape.points as nat),
        ),
        setting_value(state, SETTING_BRIGHTEST) == Some(
            crate::text::decimal(state.shape.brightest as nat) + " %"@,
        ),
        setting_value(state, SETTING_CENTRE) == Some(
            crate::text::decimal(state.shape.centre as nat) + " px"@,
        ),
        setting_value(state, SETTING_ACCENT) == Some(
            crate::text::decimal(state.shape.accent as nat) + " %"@,
        ),
        setting_value(state, SETTING_RECEIVE) is Some <==> state.free_slots is Some,
        state.free_slots == Some(0usize) ==> setting_value(state, SETTING_RECEIVE) == Some(
            "no free slot"@,
        ),
        state.free_slots == Some(1usize) ==> setting_value(state, SETTING_RECEIVE) == Some(
            "1 free slot"@,
        ),
        (state.free_slots matches Some(n) ==> n > 1 ==> setting_value(state, SETTING_RECEIVE)
            == Some(crate::text::decimal(n as nat) + " free slots"@)),
        state.card is None ==> setting_value(state, SETTING_SHARE) == Some("no card"@),
        (state.card matches Some(size) ==> setting_value(state, SETTING_SHARE) == Some(size@)),
        setting_value(state, SETTING_FORGET) == Some(
            if state.bonded is Some {
                "paired"@
            } else {
                "no phone"@
            },
        ),
        setting_value(state, id) is Some ==> id <= SETTING_ACCENT || SETTING_RECEIVE <= id
            <= SETTING_FORGET,
        id == SETTING_PLAYER_ABOUT || id == SETTING_BACKGROUND_ABOUT || id == SETTING_APP_ABOUT
            || id == SETTING_INSTALL || SETTING_QR <= id < SETTING_QR + LINKS || id > SETTING_FORGET
            ==> setting_value(state, id) is None,
{
}

/// Whether a setting of the firmware's own turns with the knob.
pub open spec fn turns(id: u16) -> bool {
    id == SETTING_ORIENTATION || id == SETTING_THEME || id == SETTING_BRIGHTNESS || id
        == SETTING_HAPTICS || id == SETTING_COVER || id == SETTING_MOTION || id == SETTING_POINTS || id
        == SETTING_BRIGHTEST || id == SETTING_CENTRE || id == SETTING_ACCENT
}

/// The dialog of a setting that turns reads, large and in the colour for values, exactly what
/// stands under its entry, and says below it that the knob turns it. Brightness reads the
/// brightness, and so on for every one of them.
pub proof fn an_open_dialog_reads_its_setting(
    state: &Overview,
    id: u16,
    credentials: &Credentials,
    code: bool,
)
    requires
        turns(id),
    ensures
        ({
            let lines = firmware_lines(state, id, credentials, code);
            &&& lines.len() == 3
            &&& setting_value(state, id) == Some(lines[0].text)
            &&& lines[0].font == Font::Large && lines[0].ink == Ink::Value
            &&& lines[1].text == "turn the knob"@
            &&& id == SETTING_BRIGHTNESS ==> lines[0].text == crate::text::decimal(
                state.brightness as nat,
            ) + " %"@
            &&& id == SETTING_BRIGHTEST ==> lines[0].text == crate::text::decimal(
                state.shape.brightest as nat,
            ) + " %"@
            &&& id == SETTING_ACCENT ==> lines[0].text == crate::text::decimal(
                state.shape.accent as nat,
            ) + " %"@
            &&& id == SETTING_THEME ==> lines[0].text == state.theme@
            &&& id == SETTING_COVER ==> lines[0].text == state.cover_name@
            &&& id == SETTING_MOTION ==> lines[0].text == state.motion_name@
        }),
{
}

/// A dialog depends on nothing but its own setting: two states with the same value for it show the
/// same dialog, however much else they differ.
pub proof fn a_dialog_depends_on_its_setting_alone(
    a: &Overview,
    b: &Overview,
    id: u16,
    credentials: &Credentials,
    code: bool,
)
    requires
        turns(id),
        id == SETTING_ORIENTATION ==> a.orientation == b.orientation,
        id == SETTING_THEME ==> a.theme@ == b.theme@,
        id == SETTING_BRIGHTNESS ==> a.brightness == b.brightness,
        id == SETTING_HAPTICS ==> a.haptics == b.haptics && a.haptics_max == b.haptics_max,
        id == SETTING_COVER ==> a.cover_name@ == b.cover_name@,
        id == SETTING_MOTION ==> a.motion_name@ == b.motion_name@,
        id == SETTING_POINTS ==> a.shape.points == b.shape.points,
        id == SETTING_BRIGHTEST ==> a.shape.brightest == b.shape.brightest,
        id == SETTING_CENTRE ==> a.shape.centre == b.shape.centre,
        id == SETTING_ACCENT ==> a.shape.accent == b.shape.accent,
    ensures
        firmware_lines(a, id, credentials, code) == firmware_lines(b, id, credentials, code),
        setting_value(a, id) == setting_value(b, id),
{
}

/// The lines of every dialog stand below one another, none on another.
pub proof fn lines_stand_below_one_another(
    state: &Overview,
    at: &Place,
    credentials: &Credentials,
    code: bool,
    i: int,
    j: int,
)
    requires
        0 <= i < j < lines_spec(state, at, credentials, code).len(),
    ensures
        lines_spec(state, at, credentials, code)[i].dy + 15 <= lines_spec(
            state,
            at,
            credentials,
            code,
        )[j].dy,
{
}

/// The share dialog tells how to reach the card: each of the network's name, its password and the
/// address to open stands right below the words that say which it is. It says them whenever there
/// is a card and either no code to show or the words are asked for, and shows the code in their
/// place otherwise; without a card it says so.
pub proof fn the_share_dialog_tells_the_way_in(
    state: &Overview,
    at: &Place,
    credentials: &Credentials,
    code: bool,
)
    requires
        at.opened == Some((SETTING_SHARE, Owner::Firmware)),
    ensures
        ({
            let lines = lines_spec(state, at, credentials, code);
            let picture = picture_spec(state, at, code);
            &&& state.card is None ==> lines[0].text == "no card"@ && picture == Picture::Nothing
            &&& state.card is Some && code && !state.share_text <==> picture == Picture::Network
            &&& state.card is Some && (!code || state.share_text) ==> {
                &&& lines.len() == 6
                &&& lines[0].text == "join the network"@ && lines[1].text == credentials.ssid@
                &&& lines[2].text == "with the password"@ && lines[3].text == credentials.password@
                &&& lines[4].text == "then open"@ && lines[5].text == credentials.host@
                &&& lines[1].ink == Ink::Value && lines[3].ink == Ink::Value && lines[5].ink
                    == Ink::Value
            }
        }),
{
}

/// Each link's entry shows the code of that link and no other; no other dialog of the firmware's
/// but the share dialog shows a code, and no dialog of a plugin's.
pub proof fn a_link_shows_its_own_code(state: &Overview, at: &Place, code: bool, n: int)
    requires
        0 <= n < LINKS,
    ensures
        at.opened == Some(((SETTING_QR + n) as u16, Owner::Firmware)) ==> picture_spec(state, at, code)
            == Picture::Link(n as usize),
        (at.opened matches Some((id, owner)) ==> owner is Plugin || !(SETTING_QR <= id < SETTING_QR
            + LINKS || id == SETTING_SHARE) ==> picture_spec(state, at, code) == Picture::Nothing),
        at.opened is None ==> picture_spec(state, at, code) == Picture::Nothing,
{
}

/// With no dialog open there are no lines; an open one shows the lines of its owner's.
pub proof fn an_open_dialog_is_its_owners(
    state: &Overview,
    at: &Place,
    credentials: &Credentials,
    code: bool,
)
    ensures
        at.opened is None ==> lines_spec(state, at, credentials, code).len() == 0,
        (at.opened matches Some((id, owner)) ==> owner is Firmware ==> lines_spec(
            state,
            at,
            credentials,
            code,
        ) == firmware_lines(state, id, credentials, code)),
        (at.opened matches Some((id, owner)) ==> owner is Plugin ==> lines_spec(
            state,
            at,
            credentials,
            code,
        ) == plugin_lines(state, id)),
{
}

/// The receive dialog tells how an upload stands: how much of it has arrived and of how much, and
/// into which slot; that it was written or deleted and a restart follows; or why it failed, in
/// orange. While nothing is sent it says whether a sender is connected.
pub proof fn the_receive_dialog_tells_the_upload(
    state: &Overview,
    credentials: &Credentials,
    code: bool,
)
    ensures
        ({
            let lines = firmware_lines(state, SETTING_RECEIVE, credentials, code);
            let received = state.received;
            &&& lines[0].text == "a plugin over BLE"@
            &&& received.status == UploadStatus::Idle && state.peer ==> lines[1].text
                == "connected"@ && lines.len() == 2
            &&& received.status == UploadStatus::Idle && !state.peer ==> lines[1].text
                == "waiting for a sender"@ && lines[2].text == "visible as TeeToTum"@
            &&& received.status == UploadStatus::Ready ==> {
                &&& lines.len() == 4
                &&& lines[1].text == crate::text::decimal(
                    arrived_percent(received.received as int, received.total as int) as nat,
                ) + " %"@
                &&& lines[1].font == Font::Large
                &&& lines[2].text == crate::text::decimal(received.received as nat) + " of "@
                    + crate::text::decimal(received.total as nat) + " bytes"@
                &&& lines[3].text == "into slot "@ + crate::text::decimal(received.slot as nat)
            }
            &&& received.status == UploadStatus::Written ==> lines[1].text == "written"@
                && lines[2].text == "restarting"@
            &&& received.status == UploadStatus::Deleted ==> lines[1].text == "deleted"@
                && lines[2].text == "restarting"@
            &&& received.status != UploadStatus::Idle && received.status != UploadStatus::Ready
                && received.status != UploadStatus::Written && received.status
                != UploadStatus::Deleted ==> {
                &&& lines.len() == 3
                &&& lines[1].text == state.reason@ && lines[1].ink == Ink::Orange
                &&& lines[2].text == (if received.status == UploadStatus::NoPlugin {
                    "nothing deleted"@
                } else {
                    "send it again"@
                })
            }
        }),
{
}

/// An upload's percentage starts at none, is whole exactly once all of it has arrived, never falls
/// as bytes come in, and is the share that has arrived, cut to a whole number.
pub proof fn the_percentage_is_the_share_that_arrived(received: int, more: int, total: int)
    requires
        0 <= received <= more <= total,
        0 < total,
    ensures
        arrived_percent(0, total) == 0,
        arrived_percent(received, total) == 100 <==> received == total,
        0 <= arrived_percent(received, total) <= arrived_percent(more, total) <= 100,
        arrived_percent(received, total) * total <= received * 100 < (arrived_percent(received, total)
            + 1) * total,
        arrived_percent(0, 0) == 0,
{
    let a = arrived_percent(received, total);
    let b = arrived_percent(more, total);
    assert(a * total <= received * 100 < (a + 1) * total) by (nonlinear_arith)
        requires
            0 < total,
            a == received * 100 / total,
    ;
    assert(b * total <= more * 100 < (b + 1) * total) by (nonlinear_arith)
        requires
            0 < total,
            b == more * 100 / total,
    ;
    assert(0 <= a <= b <= 100) by (nonlinear_arith)
        requires
            0 < total,
            0 <= received <= more <= total,
            a * total <= received * 100 < (a + 1) * total,
            b * total <= more * 100 < (b + 1) * total,
    ;
    assert(a == 100 <==> received == total) by (nonlinear_arith)
        requires
            0 < total,
            0 <= received <= total,
            a * total <= received * 100 < (a + 1) * total,
    ;
    assert(0int * 100 / total == 0) by (nonlinear_arith)
        requires
            0 < total,
    ;
}

/// The install dialog names the plugin, the beginning of its author's key and its rights; a key
/// the project does not know is said in orange, an update is called one, and a plugin that needs
/// more heap than is free is called too large in place of its version.
pub proof fn the_install_dialog_tells_the_plugin(
    state: &Overview,
    credentials: &Credentials,
    code: bool,
)
    ensures
        ({
            let lines = firmware_lines(state, SETTING_INSTALL, credentials, code);
            &&& state.offer is None ==> lines.len() == 0
            &&& state.offer matches Some(offer) ==> {
                &&& lines.len() == 5
                &&& lines[0].text == offer.name@
                &&& offer.known && !offer.update ==> lines[1].text == "project key"@
                &&& offer.known && offer.update ==> lines[1].text == "update, "@ + "project key"@
                &&& !offer.known && !offer.update ==> lines[1].text == "unknown key"@
                &&& !offer.known && offer.update ==> lines[1].text == "update, "@ + "unknown key"@
                &&& lines[1].ink == Ink::Orange <==> !offer.known
                &&& lines[2].text == "key "@ + crate::text::small_hex(offer.key@)
                &&& lines[3].text == "rights "@ + offer.rights@
                &&& offer.heap <= offer.free ==> lines[4].text == "v"@ + offer.version@ + "  "@
                    + crate::text::thousandths(offer.heap as nat) + " KB heap"@
                &&& offer.heap > offer.free ==> lines[4].text == "too large: "@
                    + crate::text::thousandths(offer.heap as nat) + " KB heap"@
            }
        }),
{
}

/// The firmware's About tells the device's own state: how long it is up, the networks it found,
/// whether a peer is connected and the detents it counted. The app's tells the paired phone's
/// address and whether it is connected, and the forget dialog names the phone it would forget.
pub proof fn the_abouts_tell_the_device(state: &Overview, credentials: &Credentials, code: bool)
    ensures
        ({
            let own = firmware_lines(state, SETTING_ABOUT, credentials, code);
            let app = firmware_lines(state, SETTING_APP_ABOUT, credentials, code);
            let forget = firmware_lines(state, SETTING_FORGET, credentials, code);
            &&& own.len() == 4 && own[0].text == "TeeToTum"@
            &&& own[2].text == "up "@ + crate::text::decimal(state.uptime as nat) + " s  wi-fi "@
                + crate::text::decimal(state.networks as nat) + " nets"@
            &&& state.peer ==> own[3].text == "ble "@ + "connected"@ + "  knob "@
                + crate::text::plus_signed(state.detents as int)
            &&& !state.peer ==> own[3].text == "ble "@ + "advertising"@ + "  knob "@
                + crate::text::plus_signed(state.detents as int)
            &&& app.len() == 4 && app[0].text == "App"@
            &&& (state.bonded matches Some(address) ==> app[2].text == "paired "@
                + crate::text::address_text(address@) && forget[0].text
                == crate::text::address_text(address@))
            &&& state.bonded is None ==> app[2].text == "no phone paired"@ && forget[0].text
                == "no phone"@
            &&& state.peer ==> app[3].text == "connected"@
            &&& !state.peer ==> app[3].text == "not connected"@
            &&& forget.len() == 3 && forget[1].text == "OK forgets it"@
        }),
{
}

/// The player's About tells what is behind it and the other chip's volume, encoder, stream and
/// phone; the background's tells the four parts of the shape, the motion and what the ground cost.
pub proof fn the_abouts_tell_the_player_and_the_cloud(
    state: &Overview,
    credentials: &Credentials,
    code: bool,
)
    ensures
        ({
            let player = firmware_lines(state, SETTING_PLAYER_ABOUT, credentials, code);
            let cloud = firmware_lines(state, SETTING_BACKGROUND_ABOUT, credentials, code);
            &&& player.len() == 6 && player[0].text == "Music Player"@
            &&& (state.backdrop matches Some(Backdrop::Card(name)) ==> player[2].text == "card  "@
                + name@)
            &&& (state.backdrop matches Some(Backdrop::Cover { width, height }) ==> player[2].text
                == "cover  "@ + crate::text::decimal(width as nat) + "x"@ + crate::text::decimal(
                height as nat,
            ))
            &&& state.backdrop is None ==> player[2].text == "no cover"@
            &&& (state.volume matches Some(volume) ==> state.companion_encoder ==> player[3].text
                == "vol "@ + crate::text::decimal(volume as nat) + "  encoder "@ + "on"@)
            &&& (state.volume matches Some(volume) ==> !state.companion_encoder ==> player[3].text
                == "vol "@ + crate::text::decimal(volume as nat) + "  encoder "@ + "off"@)
            &&& state.volume is None ==> player[3].text == "other chip silent"@
            &&& state.streaming ==> player[4].text == "audio streaming"@
            &&& !state.streaming ==> player[4].text == "no audio stream"@
            &&& state.hid ==> player[5].text == "hid connected"@
            &&& !state.hid ==> player[5].text == "hid not connected"@
            &&& cloud.len() == 5 && cloud[0].text == "Background"@
            &&& cloud[2].text == crate::text::decimal(state.shape.points as nat) + " points, "@
                + crate::text::decimal(state.shape.brightest as nat) + " % bright"@
            &&& cloud[3].text == "centre "@ + crate::text::decimal(state.shape.centre as nat)
                + " px, "@ + crate::text::decimal(state.shape.accent as nat) + " % icon colour"@
            &&& state.motion == Motion::Still ==> cloud[4].text == "still"@ + ", ground "@
                + crate::text::thousandths(state.ground as nat) + " ms"@
            &&& state.motion == Motion::Moving ==> cloud[4].text == "moving"@ + ", ground "@
                + crate::text::thousandths(state.ground as nat) + " ms"@
        }),
{
}

/// A plugin's dialogs are about that plugin: its About names it, where it came from, its size, its
/// rights and what became of it, and its other dialog says whether it is installed, as its entry
/// does.
pub proof fn a_plugins_dialogs_are_about_it(state: &Overview, n: int)
    requires
        0 <= n < state.plugins.len() <= 0x8000,
    ensures
        ({
            let about = plugin_lines(state, (2 * n) as u16);
            let installed = plugin_lines(state, (2 * n + 1) as u16);
            &&& installed.len() == 3 && plugin_value(state, (2 * n + 1) as u16) == Some(
                installed[0].text,
            )
            &&& installed[0].text == "Yes"@ || installed[0].text == "No"@
            &&& plugin_value(state, (2 * n) as u16) is None
            &&& state.plugins[n] is None ==> about.len() == 0
            &&& (state.plugins[n] matches Some(view) ==> {
                &&& view.installed ==> installed[0].text == "Yes"@
                &&& !view.installed ==> installed[0].text == "No"@
                &&& about.len() == 6
                &&& about[0].text == view.name@
                &&& (view.slot matches Some(slot) ==> about[1].text == "from slot "@
                    + crate::text::decimal(slot as nat))
                &&& view.slot is None ==> about[1].text == "bundled with the firmware"@
                &&& about[2].text == crate::text::decimal(view.bytes as nat) + " bytes"@
                &&& about[3].text == "rights "@ + view.rights@
                &&& (view.fault matches Some(fault) ==> about[4].text == "stopped"@ && about[5].text
                    == fault@)
                &&& view.fault is None && view.loaded is None ==> about[4].text == "not loaded"@
                    && about[5].text.len() == 0
                &&& view.fault is None ==> (view.loaded matches Some((us, heap)) ==> about[4].text
                    == "loaded in "@ + crate::text::thousandths(us as nat) + " ms"@
                    && about[5].text == crate::text::thousandths(heap as nat) + " KB heap"@)
            })
        }),
{
    assert(((2 * n) as u16) / 2 == n && ((2 * n) as u16) % 2 == 0);
    assert(((2 * n + 1) as u16) / 2 == n && ((2 * n + 1) as u16) % 2 == 1);
}

/// At home the gear tells the theme and the brightness, and what differs from how the device comes;
/// the player tells what plays; a plugin tells its summary, or that it stopped; and the share entry
/// tells the card.
pub proof fn home_tells_how_things_stand(state: &Overview, n: int)
    requires
        0 <= n < state.plugins.len(),
        n < 255,
    ensures
        ({
            let gear = home_state_spec(state, Kind::Firmware)->0;
            let start = state.theme@ + " · "@ + (crate::text::decimal(state.brightness as nat)
                + " %"@);
            let turned = if state.orientation != 0 {
                start + " · "@ + (crate::text::decimal((state.orientation * 90) as nat) + " deg"@)
            } else {
                start
            };
            &&& home_state_spec(state, Kind::Firmware) is Some
            &&& state.haptics != 0 && state.motion == Motion::Still ==> gear == turned
            &&& state.haptics == 0 && state.motion == Motion::Still ==> gear == turned
                + " · silent"@
            &&& state.haptics != 0 && state.motion == Motion::Moving ==> gear == turned
                + " · moving"@
            &&& state.haptics == 0 && state.motion == Motion::Moving ==> gear == turned
                + " · silent"@ + " · moving"@
        }),
        state.title@.len() > 0 ==> home_state_spec(state, Kind::Screen(0)) == Some(state.title@),
        state.title@.len() == 0 ==> home_state_spec(state, Kind::Screen(0)) == Some(
            "nothing playing"@,
        ),
        (state.plugins[n] matches Some(view) ==> {
            &&& view.fault is Some ==> home_state_spec(state, Kind::Screen((n + 1) as u16)) == Some(
                "stopped"@,
            )
            &&& view.fault is None && view.summary@.len() > 0 ==> home_state_spec(
                state,
                Kind::Screen((n + 1) as u16),
            ) == Some(view.summary@)
            &&& view.fault is None && view.summary@.len() == 0 ==> home_state_spec(
                state,
                Kind::Screen((n + 1) as u16),
            ) is None
        }),
        state.plugins[n] is None ==> home_state_spec(state, Kind::Screen((n + 1) as u16)) is None,
        home_state_spec(state, Kind::Setting(SETTING_SHARE)) == setting_value(state, SETTING_SHARE),
{
}

/// In the firmware's rings an entry that leads deeper tells what lies there: the player's how the
/// cover stands, the app's whether a phone is paired, the background's whether it moves, and a
/// plugin's whether that plugin runs.
pub proof fn an_entry_tells_what_lies_behind_it(state: &Overview, n: int)
    requires
        0 <= n < state.plugins.len(),
        state.plugins[n] is Some,
        forall|m: int|
            0 <= m < n ==> (#[trigger] state.plugins[m] matches Some(other) ==> other.name@
                != state.plugins[n]->0.name@),
    ensures
        deeper_value(state, Kind::Menu, "Music Player"@) == Some(
            if state.cover == CoverStyle::Sharp {
                "sharp"@
            } else {
                "full screen"@
            },
        ),
        deeper_value(state, Kind::Menu, "App"@) == setting_value(state, SETTING_FORGET),
        deeper_value(state, Kind::Menu, "Background"@) == Some(
            if state.motion == Motion::Moving {
                "moving"@
            } else {
                "still"@
            },
        ),
        ({
            let view = state.plugins[n]->0;
            let tells = deeper_value(state, Kind::Plugin, view.name@);
            &&& view.fault is Some ==> tells == Some("stopped"@)
            &&& view.fault is None && view.loaded is Some ==> tells == Some("loaded"@)
            &&& view.fault is None && view.loaded is None ==> tells == Some("not loaded"@)
        }),
{
    reveal_strlit("Music Player");
    reveal_strlit("App");
    reveal_strlit("Background");
    assert("App"@.len() != "Background"@.len() && "App"@.len() != "Music Player"@.len()
        && "Background"@.len() != "Music Player"@.len());
    the_first_is_named(state.plugins@, n, 0);
}

proof fn the_first_is_named(plugins: Seq<Option<PluginView>>, n: int, from: int)
    requires
        0 <= from <= n < plugins.len(),
        plugins[n] is Some,
        forall|m: int|
            from <= m < n ==> (#[trigger] plugins[m] matches Some(other) ==> other.name@
                != plugins[n]->0.name@),
    ensures
        named(plugins, plugins[n]->0.name@, from) == plugins[n],
    decreases n - from,
{
    if from < n {
        the_first_is_named(plugins, n, from + 1);
    }
}

/// Whatever menu is up, the selected entry's own value comes first: a setting's under the
/// firmware's, whether it is installed under a plugin's. An entry without one tells what lies behind
/// it, and only at home, and only then, how things stand.
pub proof fn the_value_is_the_selected_entrys(state: &Overview, at: &Place, id: u16)
    ensures
        at.selected is None ==> value_spec(state, at) is None,
        (at.selected matches Some(entry) ==> {
            &&& at.owner is Firmware && entry.id == Some(id) && setting_value(state, id) is Some
                ==> value_spec(state, at) == setting_value(state, id)
            &&& at.owner is Plugin && entry.id == Some(id) && plugin_value(state, id) is Some
                ==> value_spec(state, at) == plugin_value(state, id)
            &&& at.owner is Firmware && entry.id is None && deeper_value(
                state,
                entry.kind,
                entry.name@,
            ) is Some ==> value_spec(state, at) == deeper_value(state, entry.kind, entry.name@)
            &&& entry.id is None && (at.owner is Plugin || deeper_value(
                state,
                entry.kind,
                entry.name@,
            ) is None) ==> value_spec(state, at) == (if at.home {
                home_state_spec(state, entry.kind)
            } else {
                None
            })
        }),
{
}

/// How far below the middle each line stands.
pub open spec fn heights(lines: Seq<LineView>) -> Seq<int> {
    lines.map_values(|l: LineView| l.dy)
}

/// Lines of one kind stand in the same places from dialog to dialog: a value that turns with its two
/// hints, an About of four lines or of six, and the others each in their own.
#[verifier::spinoff_prover]
pub proof fn every_dialog_has_its_places(
    state: &Overview,
    id: u16,
    credentials: &Credentials,
    code: bool,
)
    ensures
        ({
            let lines = heights(firmware_lines(state, id, credentials, code));
            let status = state.received.status;
            &&& turns(id) || id == SETTING_FORGET ==> lines == seq![-14int, 16, 34]
            &&& id == SETTING_ABOUT || id == SETTING_APP_ABOUT ==> lines == seq![-38int, -18, 0, 16]
            &&& id == SETTING_PLAYER_ABOUT ==> lines == seq![-48int, -28, -10, 8, 26, 44]
            &&& id == SETTING_BACKGROUND_ABOUT ==> lines == seq![-38int, -18, 0, 16, 32]
            &&& id == SETTING_INSTALL && state.offer is Some ==> lines == seq![-38int, -17, 1, 19, 37]
            &&& id == SETTING_SHARE && state.card is None ==> lines == seq![-14int, 16]
            &&& id == SETTING_SHARE && state.card is Some && (!code || state.share_text) ==> lines
                == seq![-43int, -19, 11, 35, 65, 89]
            &&& id == SETTING_RECEIVE && status == UploadStatus::Idle && state.peer ==> lines
                == seq![-42int, -4]
            &&& id == SETTING_RECEIVE && status == UploadStatus::Idle && !state.peer ==> lines
                == seq![-42int, -4, 16]
            &&& id == SETTING_RECEIVE && status == UploadStatus::Ready ==> lines
                == seq![-42int, -14, 16, 34]
            &&& id == SETTING_RECEIVE && status != UploadStatus::Idle && status
                != UploadStatus::Ready ==> lines == seq![-42int, -14, 16]
        }),
        ({
            let lines = heights(plugin_lines(state, id));
            match PluginSetting::of_spec(id, state.plugins.len() as int) {
                Some((n, PluginSetting::Installed)) => lines == seq![-14int, 16, 34],
                Some((n, PluginSetting::About)) => state.plugins[n as int] is Some ==> lines
                    == seq![-48int, -28, -10, 8, 26, 44],
                None => lines.len() == 0,
            }
        }),
{
    let lines = heights(firmware_lines(state, id, credentials, code));
    let status = state.received.status;
    if turns(id) || id == SETTING_FORGET {
        assert(lines =~= seq![-14int, 16, 34]);
    }
    if id == SETTING_ABOUT || id == SETTING_APP_ABOUT {
        assert(lines =~= seq![-38int, -18, 0, 16]);
    }
    if id == SETTING_PLAYER_ABOUT {
        assert(lines =~= seq![-48int, -28, -10, 8, 26, 44]);
    }
    if id == SETTING_BACKGROUND_ABOUT {
        assert(lines =~= seq![-38int, -18, 0, 16, 32]);
    }
    if id == SETTING_INSTALL && state.offer is Some {
        assert(lines =~= seq![-38int, -17, 1, 19, 37]);
    }
    if id == SETTING_SHARE && state.card is None {
        assert(lines =~= seq![-14int, 16]);
    }
    if id == SETTING_SHARE && state.card is Some && (!code || state.share_text) {
        assert(lines =~= seq![-43int, -19, 11, 35, 65, 89]);
    }
    if id == SETTING_RECEIVE {
        if status == UploadStatus::Idle && state.peer {
            assert(lines =~= seq![-42int, -4]);
        } else if status == UploadStatus::Idle {
            assert(lines =~= seq![-42int, -4, 16]);
        } else if status == UploadStatus::Ready {
            assert(lines =~= seq![-42int, -14, 16, 34]);
        } else {
            assert(lines =~= seq![-42int, -14, 16]);
        }
    }
    let own = heights(plugin_lines(state, id));
    match PluginSetting::of_spec(id, state.plugins.len() as int) {
        Some((n, PluginSetting::Installed)) => {
            assert(own =~= seq![-14int, 16, 34]);
        },
        Some((n, PluginSetting::About)) => {
            if state.plugins[n as int] is Some {
                assert(own =~= seq![-48int, -28, -10, 8, 26, 44]);
            }
        },
        None => {},
    }
}

/// Whether a line is set as a heading, a value to be read, a fact or a hint.
pub open spec fn set_as(line: LineView, font: Font, ink: Ink) -> bool {
    line.font == font && line.ink == ink
}

/// An About begins with its heading and a hint, and all below them are facts; a value that turns is
/// large and the hints below it are quiet; what stands on the share dialog to be typed is set to be
/// read, and the words round it are quiet.
#[verifier::spinoff_prover]
pub proof fn every_line_is_set_as_what_it_is(
    state: &Overview,
    id: u16,
    credentials: &Credentials,
    code: bool,
    i: int,
)
    requires
        0 <= i < firmware_lines(state, id, credentials, code).len(),
    ensures
        ({
            let line = firmware_lines(state, id, credentials, code)[i];
            let about = id == SETTING_ABOUT || id == SETTING_APP_ABOUT || id == SETTING_PLAYER_ABOUT
                || id == SETTING_BACKGROUND_ABOUT;
            &&& (about || id == SETTING_INSTALL) && i == 0 ==> set_as(line, Font::Body, Ink::Name)
            &&& about && i == 1 ==> set_as(line, Font::Small, Ink::Quiet)
            &&& (about || id == SETTING_INSTALL) && i >= 2 ==> set_as(
                line,
                Font::Small,
                Ink::LightGray,
            )
            &&& id == SETTING_INSTALL && i == 1 ==> line.font == Font::Small && (line.ink
                == Ink::Quiet || line.ink == Ink::Orange)
            &&& turns(id) && i == 0 ==> set_as(line, Font::Large, Ink::Value)
            &&& turns(id) && i > 0 ==> set_as(line, Font::Small, Ink::Quiet)
            &&& id == SETTING_FORGET && i == 0 ==> set_as(line, Font::Body, Ink::Value)
            &&& id == SETTING_FORGET && i > 0 ==> set_as(line, Font::Small, Ink::Quiet)
            &&& id == SETTING_SHARE && state.card is None && i == 0 ==> set_as(
                line,
                Font::Large,
                Ink::Value,
            )
            &&& id == SETTING_SHARE && state.card is Some && i % 2 == 1 ==> set_as(
                line,
                Font::Value,
                Ink::Value,
            )
            &&& id == SETTING_SHARE && state.card is Some && i % 2 == 0 ==> set_as(
                line,
                Font::Small,
                Ink::Quiet,
            )
            &&& id == SETTING_RECEIVE && i == 0 ==> set_as(line, Font::Small, Ink::Quiet)
            &&& id == SETTING_RECEIVE && i == 1 && state.received.status == UploadStatus::Idle
                ==> set_as(line, Font::Small, Ink::LightGray)
            &&& id == SETTING_RECEIVE && i == 1 && (state.received.status == UploadStatus::Written
                || state.received.status == UploadStatus::Deleted) ==> set_as(
                line,
                Font::Large,
                Ink::Value,
            )
            &&& id == SETTING_RECEIVE && i == 2 && state.received.status == UploadStatus::Ready
                ==> set_as(line, Font::Small, Ink::LightGray)
            &&& id == SETTING_RECEIVE && i == 2 && state.received.status != UploadStatus::Ready
                ==> set_as(line, Font::Small, Ink::Quiet)
            &&& id == SETTING_RECEIVE && i == 3 ==> set_as(line, Font::Small, Ink::Quiet)
        }),
{
}

/// A plugin's dialogs are set as the firmware's are.
pub proof fn a_plugins_lines_are_set_alike(state: &Overview, id: u16, i: int)
    requires
        0 <= i < plugin_lines(state, id).len(),
    ensures
        ({
            let line = plugin_lines(state, id)[i];
            let about = id % 2 == 0;
            &&& about && i == 0 ==> set_as(line, Font::Body, Ink::Name)
            &&& about && i == 1 ==> set_as(line, Font::Small, Ink::Quiet)
            &&& about && i >= 2 ==> set_as(line, Font::Small, Ink::LightGray)
            &&& !about && i == 0 ==> set_as(line, Font::Large, Ink::Value)
            &&& !about && i > 0 ==> set_as(line, Font::Small, Ink::Quiet)
            &&& !about && i == 1 ==> line.text == "turn the knob"@
            &&& !about && i == 2 ==> line.text == "OK restarts"@
        }),
{
}

/// Each dialog that turns hints at where its effect is seen or what a detent does.
pub proof fn each_dialog_hints_at_its_effect(
    state: &Overview,
    credentials: &Credentials,
    code: bool,
)
    ensures
        firmware_lines(state, SETTING_MOTION, credentials, code)[2].text == "the cloud shows it"@,
        firmware_lines(state, SETTING_POINTS, credentials, code)[2].text == "50 a detent"@,
        firmware_lines(state, SETTING_BRIGHTEST, credentials, code)[2].text == "at the rim"@,
        firmware_lines(state, SETTING_CENTRE, credentials, code)[2].text == "no points inside it"@,
        firmware_lines(state, SETTING_ACCENT, credentials, code)[2].text
            == "points in the icon colour"@,
        firmware_lines(state, SETTING_COVER, credentials, code)[2].text == "sharp keeps 200 px"@,
        firmware_lines(state, SETTING_ORIENTATION, credentials, code)[2].text
            == "About marks the top"@,
        firmware_lines(state, SETTING_THEME, credentials, code)[2].text == "the ring shows it"@,
        firmware_lines(state, SETTING_BRIGHTNESS, credentials, code)[2].text
            == "the screen shows it"@,
        firmware_lines(state, SETTING_HAPTICS, credentials, code)[2].text == "the clicks show it"@,
        firmware_lines(state, SETTING_FORGET, credentials, code)[2].text == "the app pairs anew"@,
        firmware_lines(state, SETTING_ABOUT, credentials, code)[1].text == "MIT OR Apache-2.0"@,
        firmware_lines(state, SETTING_APP_ABOUT, credentials, code)[1].text
            == "over Bluetooth LE"@,
        firmware_lines(state, SETTING_PLAYER_ABOUT, credentials, code)[1].text
            == "through the other chip"@,
        firmware_lines(state, SETTING_BACKGROUND_ABOUT, credentials, code)[1].text
            == "a cloud of points"@,
        state.card is None ==> firmware_lines(state, SETTING_SHARE, credentials, code)[1].text
            == "none was found at boot"@,
{
}

/// A dialog that is none of the firmware's has no lines.
pub proof fn no_other_dialog_has_lines(
    state: &Overview,
    id: u16,
    credentials: &Credentials,
    code: bool,
)
    requires
        !turns(id),
        id != SETTING_ABOUT,
        id != SETTING_APP_ABOUT,
        id != SETTING_PLAYER_ABOUT,
        id != SETTING_BACKGROUND_ABOUT,
        id != SETTING_FORGET,
        id != SETTING_RECEIVE,
        id != SETTING_INSTALL,
        id != SETTING_SHARE,
    ensures
        firmware_lines(state, id, credentials, code).len() == 0,
{
}

/// At home only the gear, a face, the way home and the share entry tell anything, and in the rings
/// only the three menus and the plugins there are: the rest stay quiet.
pub proof fn the_rest_stay_quiet(state: &Overview, kind: Kind, name: Seq<char>, id: u16)
    ensures
        home_state_spec(state, Kind::Home) == Some("look at github.com:\nteetotum-rs/firmware"@),
        kind == Kind::Menu || kind == Kind::Plugin || kind == Kind::Other ==> home_state_spec(
            state,
            kind,
        ) is None,
        id != SETTING_SHARE ==> home_state_spec(state, Kind::Setting(id)) is None,
        id > state.plugins.len() ==> home_state_spec(state, Kind::Screen(id)) is None || id > 256,
        kind != Kind::Menu && kind != Kind::Plugin ==> deeper_value(state, kind, name) is None,
        name != "Music Player"@ && name != "App"@ && name != "Background"@ ==> deeper_value(
            state,
            Kind::Menu,
            name,
        ) is None,
{
}

/// A plugin that no place goes by the name of is told nothing of.
pub proof fn an_unknown_name_is_nobodys(state: &Overview, name: Seq<char>, from: int)
    requires
        0 <= from <= state.plugins.len(),
        forall|m: int|
            from <= m < state.plugins.len() ==> (#[trigger] state.plugins[m] matches Some(view)
                ==> view.name@ != name),
    ensures
        named(state.plugins@, name, from) is None,
        from == 0 ==> deeper_value(state, Kind::Plugin, name) is None,
    decreases state.plugins.len() - from,
{
    if from < state.plugins.len() {
        assert(state.plugins[from] == state.plugins@[from]);
        an_unknown_name_is_nobodys(state, name, from + 1);
    }
}

} // verus!
