//! The menus, the screens and the device loop.

use teetotum_core::device::{
    bond_is_new, click_ends_first, click_length, clicks, cloud_frame, code_shown, cover_plan,
    decodes, drive, hand, keep, kept_bits, knob_to, light, on_cloud, owe, pay, picture, pressed,
    pulse, receiving, restarts, rings_change, serves, sharing, tap_act, turn_act, turn_is_felt,
    turned, Companion, CompanionStatus, CoverPlan, Gesture, Kept, KnobTo, Light, OnScreen, Part, Picture, Press,
    Pressed, StatusReply, TapAct, Tapped, Turn, TurnReport, Turned, Turns,
};
use teetotum_core::faces::{
    at_boot, companion_state, deliver, heap_cost, heap_room, load_plugin, no_page, shown_index, shown_runs,
    shown_view, start_plugin, stop_plugin, stopped_screen, take_back, Live, Start,
};
use teetotum_core::menu::{
    at_home, home_ring, pages_for, place, qr_entry, qr_index, qr_menu, settings_ring, Face,
    PluginSetting, SETTING_ABOUT, SETTING_BRIGHTNESS, SETTING_FORGET, SETTING_INSTALL,
    SETTING_ORIENTATION, SETTING_POINTS, SETTING_QR, SETTING_RECEIVE, SETTING_SHARE,
};
use teetotum_core::overview::{
    Backdrop, CloudShape, CoverStyle, Motion, Offer, Overview, PluginView,
};
use teetotum_core::player::{status_screen, Drawn, PlayerLine, Playing, Run};
use teetotum_core::plugins::{
    offer_of, removed, AfterOffer, Described, Gathered, HeaderReply, Look, Offers, Source, Waiting,
};
use teetotum_core::radio::Bond;
use teetotum_core::screens::{
    home_state, settings_screen, Credentials, Font, Ink, Kind, Owner, Picture as Code, Place,
    Selected, SettingsScreen,
};
use teetotum_core::upload::{
    accept_slot, delete_slot, deleted, replace_older, shown, Answer, Command, Flash, Listing,
    ListingEntry, Plan, Received, Receiver, Request, SlotHeader, Upload, UploadStatus,
};

fn shape() -> CloudShape {
    CloudShape { points: 600, brightest: 80, centre: 90, accent: 30 }
}

fn overview() -> Overview {
    Overview {
        version: String::from("1.2.3"),
        uptime: 61,
        networks: 4,
        peer: false,
        bonded: None,
        detents: -3,
        orientation: 0,
        theme: String::from("Amber"),
        brightness: 25,
        haptics: 5,
        haptics_max: 9,
        volume: None,
        companion_encoder: false,
        streaming: false,
        hid: false,
        cover: CoverStyle::Sharp,
        cover_name: String::from("Sharp"),
        motion: Motion::Still,
        motion_name: String::from("Still"),
        shape: shape(),
        ground: 12_340,
        title: String::new(),
        artist: String::new(),
        run: None,
        backdrop: None,
        face: Face::Player,
        plugins: Vec::new(),
        free_slots: Some(1),
        offer: None,
        received: Received::default(),
        reason: String::new(),
        card: None,
        share_text: false,
    }
}

fn plugin(name: &str, knob: bool) -> PluginView {
    PluginView {
        id: vec![1, 2, 3],
        name: String::from(name),
        summary: String::from("does things"),
        bytes: 3210,
        version: String::from("0.1.0"),
        rights: String::from("knob"),
        knob,
        slot: None,
        installed: true,
        loaded: None,
        fault: None,
    }
}

fn opened(id: u16, owner: Owner) -> Place {
    Place { owner, home: false, selected: None, opened: Some((id, owner)) }
}

fn selected(id: u16) -> Place {
    Place {
        owner: Owner::Firmware,
        home: false,
        selected: Some(Selected {
            kind: Kind::Setting(id),
            name: String::from("entry"),
            id: Some(id),
        }),
        opened: None,
    }
}

fn credentials() -> Credentials {
    Credentials {
        ssid: String::from("TeeToTum"),
        password: String::from("secret99"),
        host: String::from("192.168.4.1"),
    }
}

fn dialog(state: &Overview, at: &Place) -> SettingsScreen {
    settings_screen(state, at, &credentials(), true)
}

fn texts(screen: &SettingsScreen) -> Vec<&str> {
    screen.lines.iter().map(|line| line.text.as_str()).collect()
}

#[test]
fn a_face_is_found_by_its_id() {
    assert_eq!(Face::of(Face::Player.id()), Face::Player);
    assert_eq!(Face::of(Face::Plugin(7).id()), Face::Plugin(7));
    assert_ne!(Face::Plugin(0).id(), Face::Player.id());
}

#[test]
fn a_plugin_setting_is_found_by_its_id() {
    for n in 0..9 {
        for setting in [PluginSetting::About, PluginSetting::Installed] {
            assert_eq!(PluginSetting::of(setting.id(n), 9), Some((n, setting)));
        }
    }
    assert_eq!(PluginSetting::of(PluginSetting::About.id(9), 9), None);
}

#[test]
fn codes_are_found_by_their_entry() {
    assert_eq!(qr_index(qr_entry(0)), Some(0));
    assert_eq!(qr_index(qr_entry(10)), Some(10));
    assert_eq!(qr_index(SETTING_QR - 1), None);
    assert_eq!(qr_index(SETTING_INSTALL), None);
    let menu = qr_menu(&(0..11).collect());
    assert_eq!(menu.len(), 11);
    assert_eq!(menu[3].1, SETTING_QR + 3);
}

#[test]
fn places_fill_a_page_and_spill_onto_the_next() {
    assert_eq!(place(0, 8, 1), (0, 1));
    assert_eq!(place(7, 8, 1), (0, 8));
    assert_eq!(place(8, 8, 1), (1, 1));
    assert_eq!(place(18, 8, 1), (1, 11));
    assert_eq!(place(19, 8, 1), (2, 1));
    assert_eq!(pages_for(0, 8), 1);
    assert_eq!(pages_for(8, 8), 1);
    assert_eq!(pages_for(9, 8), 2);
    assert_eq!(pages_for(19, 8), 2);
    assert_eq!(pages_for(20, 8), 3);
}

#[test]
fn rings_have_no_gaps() {
    let home = home_ring(&vec![true, false, true]);
    let plugins: Vec<_> = home.iter().filter_map(|p| p.plugin.map(|n| (n, p.slot))).collect();
    assert_eq!(plugins, vec![(0, 1), (2, 2)]);
    let settings = settings_ring(&vec![true, true, true, true]);
    assert_eq!(settings.len(), 5);
    assert_eq!((settings[3].page, settings[3].slot, settings[3].plugin), (1, 1, Some(3)));
    assert_eq!((settings[4].page, settings[4].slot, settings[4].plugin), (1, 2, None));
}

#[test]
fn home_is_the_first_menu_with_nothing_open() {
    assert!(at_home(1, true, false));
    assert!(!at_home(2, true, false));
    assert!(!at_home(1, true, true));
    assert!(!at_home(1, false, false));
}

#[test]
fn about_says_how_the_device_is() {
    let screen = dialog(&overview(), &opened(SETTING_ABOUT, Owner::Firmware));
    assert_eq!(
        texts(&screen),
        vec!["TeeToTum", "MIT OR Apache-2.0", "up 61 s  wi-fi 4 nets", "ble advertising  knob -3"]
    );
    assert_eq!(screen.lines[0].dy, -38);
    assert_eq!(screen.lines[0].font, Font::Body);
    assert_eq!(screen.lines[1].ink, Ink::Quiet);
    assert_eq!(screen.picture, Code::Nothing);
}

#[test]
fn settings_say_what_they_stand_at() {
    let mut state = overview();
    state.orientation = 3;
    assert_eq!(dialog(&state, &selected(SETTING_ORIENTATION)).value.unwrap(), "270 deg");
    assert_eq!(dialog(&state, &selected(SETTING_BRIGHTNESS)).value.unwrap(), "25 %");
    assert_eq!(dialog(&state, &selected(SETTING_POINTS)).value.unwrap(), "600");
    assert_eq!(dialog(&state, &selected(SETTING_RECEIVE)).value.unwrap(), "1 free slot");
    assert_eq!(dialog(&state, &selected(SETTING_SHARE)).value.unwrap(), "no card");
    assert_eq!(dialog(&state, &selected(SETTING_FORGET)).value.unwrap(), "no phone");
    assert_eq!(dialog(&state, &selected(SETTING_ABOUT)).value.unwrap(), "1.2.3");
}

#[test]
fn the_receive_dialog_follows_an_upload() {
    let mut state = overview();
    let at = opened(SETTING_RECEIVE, Owner::Firmware);
    assert_eq!(
        texts(&dialog(&state, &at)),
        vec!["a plugin over BLE", "waiting for a sender", "visible as TeeToTum"]
    );
    state.received =
        Received { status: UploadStatus::Ready, slot: 2, received: 500, total: 2000 };
    assert_eq!(
        texts(&dialog(&state, &at)),
        vec!["a plugin over BLE", "25 %", "500 of 2000 bytes", "into slot 2"]
    );
    state.received.status = UploadStatus::Mismatch;
    state.reason = String::from("damaged");
    let screen = dialog(&state, &at);
    assert_eq!(texts(&screen), vec!["a plugin over BLE", "damaged", "send it again"]);
    assert_eq!(screen.lines[1].ink, Ink::Orange);
    state.received.status = UploadStatus::NoPlugin;
    assert_eq!(texts(&dialog(&state, &at))[2], "nothing deleted");
}

#[test]
fn the_install_dialog_warns_of_a_strange_key() {
    let mut state = overview();
    state.offer = Some(Offer {
        slot: 1,
        update: false,
        name: String::from("Dice"),
        version: String::from("2.0.1"),
        key: [0xde, 0xad, 0xbe, 0xef, 0, 1, 2, 3],
        known: false,
        rights: String::from("none"),
        heap: 40_960,
        free: 50_000,
    });
    let screen = dialog(&state, &opened(SETTING_INSTALL, Owner::Firmware));
    assert_eq!(
        texts(&screen),
        vec!["Dice", "unknown key", "key deadbeef00010203", "rights none", "v2.0.1  40.9 KB heap"]
    );
    assert_eq!(screen.lines[1].ink, Ink::Orange);
    if let Some(offer) = state.offer.as_mut() {
        offer.update = true;
        offer.known = true;
        offer.free = 40_000;
    }
    let screen = dialog(&state, &opened(SETTING_INSTALL, Owner::Firmware));
    assert_eq!(texts(&screen)[1], "update, project key");
    assert_eq!(texts(&screen)[4], "too large: 40.9 KB heap");
}

#[test]
fn the_share_dialog_shows_a_code_or_words() {
    let mut state = overview();
    let at = opened(SETTING_SHARE, Owner::Firmware);
    assert_eq!(texts(&dialog(&state, &at)), vec!["no card", "none was found at boot"]);
    state.card = Some(String::from("4 GB card"));
    let screen = dialog(&state, &at);
    assert_eq!(screen.picture, Code::Network);
    assert!(screen.lines.is_empty());
    state.share_text = true;
    let screen = dialog(&state, &at);
    assert_eq!(screen.picture, Code::Nothing);
    assert_eq!(
        texts(&screen),
        vec![
            "join the network",
            "TeeToTum",
            "with the password",
            "secret99",
            "then open",
            "192.168.4.1"
        ]
    );
    assert_eq!(dialog(&state, &opened(SETTING_QR + 4, Owner::Firmware)).picture, Code::Link(4));
}

#[test]
fn a_plugin_says_what_loading_cost() {
    let mut state = overview();
    state.plugins = vec![Some(plugin("Dice", true))];
    let at = opened(PluginSetting::About.id(0), Owner::Plugin);
    assert_eq!(
        texts(&dialog(&state, &at)),
        vec![
            "Dice",
            "bundled with the firmware",
            "3210 bytes",
            "rights knob",
            "not loaded",
            ""
        ]
    );
    if let Some(view) = state.plugins[0].as_mut() {
        view.slot = Some(3);
        view.loaded = Some((45_678, 23_456));
    }
    let screen = dialog(&state, &at);
    assert_eq!(texts(&screen)[1], "from slot 3");
    assert_eq!(texts(&screen)[4], "loaded in 45.6 ms");
    assert_eq!(texts(&screen)[5], "23.4 KB heap");
    let at = opened(PluginSetting::Installed.id(0), Owner::Plugin);
    assert_eq!(texts(&dialog(&state, &at)), vec!["Yes", "turn the knob", "OK restarts"]);
}

#[test]
fn home_says_states_not_explanations() {
    let mut state = overview();
    assert_eq!(home_state(&state, Kind::Firmware).unwrap(), "Amber \u{b7} 25 %");
    state.orientation = 1;
    state.haptics = 0;
    state.motion = Motion::Moving;
    assert_eq!(
        home_state(&state, Kind::Firmware).unwrap(),
        "Amber \u{b7} 25 % \u{b7} 90 deg \u{b7} silent \u{b7} moving"
    );
    let player = Kind::Screen(Face::Player.id());
    assert_eq!(home_state(&state, player).unwrap(), "nothing playing");
    state.title = String::from("Song");
    assert_eq!(home_state(&state, player).unwrap(), "Song");
    assert_eq!(home_state(&state, Kind::Screen(Face::Plugin(0).id())), None);
    state.plugins = vec![Some(plugin("Dice", false))];
    assert_eq!(
        home_state(&state, Kind::Screen(Face::Plugin(0).id())).unwrap(),
        "does things"
    );
    if let Some(view) = state.plugins[0].as_mut() {
        view.fault = Some(String::from("trap"));
    }
    assert_eq!(home_state(&state, Kind::Screen(Face::Plugin(0).id())).unwrap(), "stopped");
    assert_eq!(
        home_state(&state, Kind::Home).unwrap(),
        "look at github.com:\nteetotum-rs/firmware"
    );
    assert_eq!(home_state(&state, Kind::Setting(SETTING_SHARE)).unwrap(), "no card");
    assert_eq!(home_state(&state, Kind::Other), None);
}

#[test]
fn a_line_has_the_room_the_circle_leaves() {
    let line = PlayerLine { below: 52, ascent: 14, descent: -4 };
    // far = 52 + 9 = 61, across = isqrt(156 * 156 - 61 * 61) = isqrt(20615) = 143.
    assert_eq!(line.room(), (37, 286));
    assert_eq!(line.overflow(286), 0);
    assert_eq!(line.overflow(300), 14);
    assert_eq!(line.y(), 232);
    let outside = PlayerLine { below: 170, ascent: 0, descent: 0 };
    assert_eq!(outside.room(), (180, 0));
}

#[test]
fn a_long_line_is_shifted_or_cut() {
    let line = PlayerLine { below: 52, ascent: 14, descent: -4 };
    assert!(matches!(line.draw(100, None, Some(8)), Drawn::Centred));
    match line.draw(400, Some("A very"), Some(50)) {
        Drawn::Shifted { x, left, room } => assert_eq!((x, left, room), (37 - 50 + 200, 37, 286)),
        _ => panic!("not shifted"),
    }
    match line.draw(400, Some("A very"), Some(500)) {
        Drawn::Shifted { x, .. } => assert_eq!(x, 37 - 114 + 200),
        _ => panic!("not shifted"),
    }
    match line.draw(400, Some("A very"), None) {
        Drawn::Cut(text) => assert_eq!(text, "A very..."),
        _ => panic!("not cut"),
    }
}

#[test]
fn a_run_holds_moves_and_ends() {
    let run = |elapsed| Run { elapsed, overflow: 20 }.offset();
    assert_eq!(run(0), Some(0));
    assert_eq!(run(1_599_999), Some(0));
    assert_eq!(run(1_600_000), Some(4));
    assert_eq!(run(2_000_000), Some(20));
    assert_eq!(run(3_400_000), Some(20));
    assert_eq!(run(3_500_000), None);
    assert_eq!(Run { elapsed: 0, overflow: 0 }.offset(), None);
    assert_eq!(Run::new(true, 3, 9).overflow, 9);
    assert_eq!(Run::new(false, 3, 9).overflow, 0);
}

#[test]
fn a_run_waits_for_the_player() {
    let mut state = overview();
    let mut playing = Playing::new(0);
    assert!(playing.track(&mut state, String::from("Song"), String::from("Band"), (30, 0)));
    assert!(!playing.track(&mut state, String::from("Song"), String::from("Band"), (30, 0)));
    assert_eq!(state.title, "Song");
    assert!(playing.in_time(0));
    playing.pass(&mut state, false, 5_000_000, (30, 0));
    assert!(playing.in_time(5_000_000) && !playing.in_time(4_999_999));
    assert_eq!(playing.run.elapsed, 0);
    playing.pass(&mut state, true, 9_000_000, (30, 0));
    assert_eq!(playing.run.elapsed, 100_000);
    assert_eq!(state.run, Some(0));
    playing.pass(&mut state, true, 9_010_000, (30, 0));
    assert_eq!(playing.run.elapsed, 110_000);
    playing.pass(&mut state, false, 9_020_000, (30, 0));
    playing.pass(&mut state, true, 9_030_000, (30, 0));
    assert_eq!(playing.run.elapsed, 10_000);
}

#[test]
fn the_player_names_the_device_while_nothing_plays() {
    let mut state = overview();
    let idle = status_screen(&state, true);
    assert_eq!(idle.lines[0].text, "TeeToTum");
    assert_eq!(idle.lines.len(), 4);
    assert_eq!(idle.dim, Some((140, 248)));
    assert_eq!(idle.volume, None);
    assert!(!idle.phone);
    state.title = String::from("Song");
    state.volume = Some(200);
    state.streaming = true;
    let playing = status_screen(&state, true);
    assert!(playing.phone);
    assert!(playing.lines.is_empty());
    assert_eq!(playing.dim, Some((216, 266)));
    assert_eq!(playing.volume, Some((127, false)));
    assert_eq!(status_screen(&state, false).dim, None);
}

#[test]
fn an_upload_goes_through() {
    let mut receiver = Receiver::new();
    let ready = Flash::Ready;
    assert_eq!(receiver.receive(ready, Command::Begin), Plan::Ask(Request::FreeSlot));
    assert_eq!(
        receiver.answer(Request::FreeSlot, Answer::Free(Some(3))),
        Plan::Ask(Request::Begin { slot: 3 })
    );
    let begun = Upload { slot: 3, received: 0, total: 8 };
    assert_eq!(
        receiver.answer(Request::Begin { slot: 3 }, Answer::Begun(begun)),
        Plan::Done(Received { status: UploadStatus::Ready, slot: 3, received: 0, total: 8 })
    );
    assert_eq!(
        receiver.receive(ready, Command::Piece { offset: 4 }),
        Plan::Done(Received { status: UploadStatus::OutOfOrder, slot: 3, received: 0, total: 8 })
    );
    assert_eq!(
        receiver.receive(ready, Command::Piece { offset: 0 }),
        Plan::Ask(Request::Feed { slot: 3 })
    );
    assert_eq!(
        receiver.answer(Request::Feed { slot: 3 }, Answer::Fed(8)),
        Plan::Done(Received { status: UploadStatus::Ready, slot: 3, received: 8, total: 8 })
    );
    assert_eq!(
        receiver.receive(ready, Command::Commit),
        Plan::Ask(Request::Finish { slot: 3 })
    );
    assert_eq!(
        receiver.answer(Request::Finish { slot: 3 }, Answer::Finished),
        Plan::Done(Received { status: UploadStatus::Written, slot: 3, received: 8, total: 8 })
    );
    assert_eq!(receiver.upload, None);
}

fn status_of(plan: Plan) -> UploadStatus {
    match plan {
        Plan::Done(received) => received.status,
        Plan::Ask(_) => panic!("a request"),
    }
}

#[test]
fn uploads_fail_for_a_reason() {
    let mut receiver = Receiver::new();
    assert_eq!(
        status_of(receiver.receive(Flash::Missing, Command::Begin)),
        UploadStatus::Flash
    );
    assert_eq!(
        status_of(receiver.receive(Flash::NoPartition, Command::Commit)),
        UploadStatus::Flash
    );
    assert_eq!(
        status_of(receiver.receive(Flash::Ready, Command::Piece { offset: 0 })),
        UploadStatus::Refused
    );
    assert_eq!(
        status_of(receiver.receive(Flash::Ready, Command::Commit)),
        UploadStatus::Refused
    );
    assert_eq!(
        status_of(receiver.receive(Flash::Ready, Command::Delete { slot: 0 })),
        UploadStatus::Refused
    );
    assert_eq!(status_of(receiver.receive(Flash::Ready, Command::Abort)), UploadStatus::Idle);
    assert_eq!(
        status_of(receiver.answer(Request::FreeSlot, Answer::Free(None))),
        UploadStatus::NoSlot
    );
    assert_eq!(
        status_of(receiver.answer(Request::Begin { slot: 0 }, Answer::BadModule)),
        UploadStatus::Mismatch
    );
    receiver.upload = Some(Upload { slot: 1, received: 0, total: 4 });
    assert_eq!(
        status_of(receiver.answer(Request::Feed { slot: 1 }, Answer::BadFlash)),
        UploadStatus::Flash
    );
    assert_eq!(receiver.upload, None);
}

#[test]
fn deleting_drops_the_upload() {
    let under_way = Upload { slot: 1, received: 5, total: 9 };
    let mut receiver = Receiver { upload: Some(under_way) };
    assert_eq!(receiver.delete(2, UploadStatus::NoPlugin).status, UploadStatus::NoPlugin);
    assert_eq!(receiver.upload, Some(under_way));
    let gone = receiver.delete(2, UploadStatus::Deleted);
    assert_eq!((gone.status, gone.slot), (UploadStatus::Deleted, 2));
    assert_eq!(receiver.upload, None);
    receiver.upload = Some(under_way);
    let mut received = gone;
    assert_eq!(receiver.opened(true, &mut received), None);
    assert_eq!(receiver.opened(false, &mut received), Some(under_way));
    assert_eq!(received, Received::default());
}

fn header(id: u8, accepted: bool) -> Option<SlotHeader> {
    Some(SlotHeader { id: vec![id, 9], accepted, len: 10 })
}

#[test]
fn an_update_replaces_the_older_copies() {
    let headers = vec![header(1, true), header(2, true), None, header(1, true), header(1, false)];
    assert_eq!(replace_older(&headers, 3), vec![0]);
    assert_eq!(replace_older(&headers, 2), vec![]);
    assert_eq!(replace_older(&headers, 5), vec![]);
    assert!(accept_slot(Flash::Ready, true));
    assert!(!accept_slot(Flash::Ready, false));
    assert!(!accept_slot(Flash::Missing, true));
}

#[test]
fn a_slot_is_deleted_by_its_plugin() {
    let from_slot = vec![None, Some(4), Some(2)];
    assert_eq!(delete_slot(&from_slot, Flash::Ready, 2), Ok(2));
    assert_eq!(delete_slot(&from_slot, Flash::Ready, 7), Err(UploadStatus::NoPlugin));
    assert_eq!(delete_slot(&from_slot, Flash::NoPartition, 4), Err(UploadStatus::Flash));
    assert_eq!(deleted(true), UploadStatus::Deleted);
    assert_eq!(deleted(false), UploadStatus::Flash);
}

#[test]
fn the_list_says_where_it_ends() {
    let mut listing = Listing::new();
    listing.entries.push(vec![7, 8]);
    assert_eq!(listing.count(), 1);
    assert!(matches!(listing.entry(0), ListingEntry::Entry(bytes) if bytes == vec![7, 8]));
    assert!(matches!(listing.entry(1), ListingEntry::PastEnd { index: 1, count: 1 }));
    assert_eq!(shown(&vec![true, false, true]), vec![0, 2]);
}

#[test]
fn plugins_are_gathered_from_the_slots() {
    let mut gathered = Gathered::new(vec![Some(vec![1]), Some(vec![2])], 4, 1000);
    assert_eq!(gathered.look(&HeaderReply::Empty), Look::Skip);
    assert_eq!(gathered.look(&HeaderReply::Unreadable), Look::Skip);
    assert_eq!(gathered.free, 1);
    assert_eq!(gathered.free_told(true, true), Some(1));
    assert_eq!((gathered.free_told(false, true), gathered.free_told(true, false)), (None, None));
    let held = HeaderReply::Held(SlotHeader { id: vec![2], accepted: true, len: 100 });
    assert_eq!(gathered.look(&held), Look::Read { at: Some(1), start: 0, len: 100 });
    gathered.take_accepted(2, vec![2], 1, 100);
    assert_eq!(gathered.count, 2);
    assert_eq!(gathered.from_slot[1], Some(2));
    // The same id once more is skipped, and so is one that would take more than half.
    assert_eq!(gathered.look(&held), Look::Skip);
    let large = HeaderReply::Held(SlotHeader { id: vec![3], accepted: true, len: 401 });
    assert_eq!(gathered.look(&large), Look::Skip);
    let fits = HeaderReply::Held(SlotHeader { id: vec![3], accepted: true, len: 400 });
    assert_eq!(gathered.look(&fits), Look::Read { at: Some(2), start: 100, len: 400 });
    assert!(matches!(gathered.modules[0], Some(Source::Bundled(0))));
}

#[test]
fn a_waiting_plugin_may_be_an_update() {
    let mut gathered = Gathered::new(vec![Some(vec![1])], 4, 1000);
    let held = HeaderReply::Held(SlotHeader { id: vec![1], accepted: false, len: 50 });
    assert_eq!(gathered.look(&held), Look::Read { at: None, start: 0, len: 50 });
    gathered.take_waiting(0, 50, Some(vec![1]), true);
    gathered.take_waiting(1, 50, Some(vec![9]), true);
    gathered.take_waiting(2, 50, Some(vec![8]), false);
    gathered.mark_updates();
    let updates: Vec<bool> = gathered.waiting.iter().map(|w| w.update).collect();
    assert_eq!(updates, vec![true, false]);
}

#[test]
fn offers_come_one_by_one() {
    let mut offers = Offers::new(2);
    assert_eq!(offers.next(), Some(0));
    assert_eq!(offers.next(), Some(1));
    assert_eq!(offers.next(), None);
    assert_eq!(offers.after(true), AfterOffer::Open);
    assert_eq!(offers.after(false), AfterOffer::Home);
    offers.accepted = 1;
    assert_eq!(offers.after(false), AfterOffer::Restart);
}

#[test]
fn an_offer_knows_the_projects_key() {
    let waiting = Waiting { slot: 3, start: 0, len: 10, id: Some(vec![1]), update: true };
    let described = |key: u8| {
        Some(Described {
            name: String::from("Dice"),
            version: String::from("1.0.0"),
            rights: String::from("none"),
            key: vec![key; 32],
            heap: 1000,
        })
    };
    let keys = vec![Some(vec![5; 32]), None];
    let offer = offer_of(&waiting, described(5), &keys, 2000).unwrap();
    assert!(offer.known && offer.update);
    assert_eq!((offer.slot, offer.heap, offer.free), (3, 1000, 2000));
    assert_eq!(offer.key, [5; 8]);
    assert!(!offer_of(&waiting, described(6), &keys, 2000).unwrap().known);
    assert!(offer_of(&waiting, None, &keys, 2000).is_none());
    assert_eq!(removed(&vec![Some(true), Some(false), None, Some(false)]), 2);
}

#[test]
fn the_shown_face_is_the_running_plugin() {
    let mut state = overview();
    state.plugins = vec![None, Some(plugin("Dice", true))];
    state.face = Face::Plugin(1);
    assert_eq!(shown_index(state.face), Some(1));
    assert_eq!(shown_index(Face::Player), None);
    assert!(shown_runs(Some(1), state.face));
    assert!(!shown_runs(Some(0), state.face));
    assert_eq!(shown_view(&state).unwrap().name, "Dice");
    assert_eq!(companion_state(&state, false), 0x05);
    assert_eq!(companion_state(&state, true), 0x05);
    state.face = Face::Player;
    assert_eq!(companion_state(&state, false), 0x03);
    state.face = Face::Plugin(0);
    assert!(shown_view(&state).is_none());
}

#[test]
fn one_plugin_runs_at_a_time() {
    let modules = vec![true, false, true];
    assert_eq!(start_plugin(0, &modules, None), Start::Load { unload: None });
    assert_eq!(start_plugin(2, &modules, Some((0, false))), Start::Load { unload: Some(0) });
    assert_eq!(start_plugin(0, &modules, Some((0, false))), Start::Nothing);
    assert_eq!(start_plugin(0, &modules, Some((0, true))), Start::Load { unload: Some(0) });
    assert_eq!(start_plugin(1, &modules, None), Start::Nothing);
}

#[test]
fn loading_and_stopping_show_in_the_view() {
    let mut views = vec![Some(plugin("Dice", false))];
    assert!(load_plugin(&mut views, 0, Ok((5000, 1234))));
    assert_eq!(views[0].as_ref().unwrap().loaded, Some((5000, 1234)));
    stop_plugin(&mut views, 0);
    assert_eq!(views[0].as_ref().unwrap().loaded, None);
    assert!(!load_plugin(&mut views, 0, Err(String::from("no room"))));
    assert_eq!(views[0].as_ref().unwrap().fault.as_deref(), Some("no room"));
    assert!(!no_page().is_empty());
    assert_eq!(heap_cost(100, 250), 150);
    assert_eq!(heap_cost(250, 100), 0);
    assert_eq!(heap_room(&vec![Some(10), None, Some(30)]), 30);
    assert_eq!(heap_room(&vec![]), 0);
}

#[test]
fn a_reply_redraws_and_reports_the_fault() {
    let mut state = overview();
    state.plugins = vec![Some(plugin("Dice", false))];
    state.face = Face::Plugin(0);
    let mut frame = u32::MAX;
    deliver(&mut state, &mut frame, true, Some(String::from("trap")));
    assert_eq!(frame, 0);
    let lines = stopped_screen(&state);
    assert_eq!(lines[0].text, "Dice");
    assert_eq!(lines[1].text, "stopped");
    assert_eq!(lines[2].text, "trap");
    deliver(&mut state, &mut frame, false, None);
    assert_eq!(frame, 0);
    assert_eq!(state.plugins[0].as_ref().unwrap().fault, None);
}

#[test]
fn cancel_takes_everything_back() {
    let mut state = overview();
    state.plugins = vec![Some(plugin("Dice", false)), None];
    let live = Live {
        orientation: 2,
        theme: String::from("Sea"),
        brightness: 100,
        haptics: 9,
        cover: CoverStyle::Full,
        cover_name: String::from("Full"),
        motion: Motion::Moving,
        motion_name: String::from("Moving"),
        shape: CloudShape { points: 50, brightest: 1, centre: 2, accent: 3 },
        installed: vec![false, true],
    };
    take_back(&live, &mut state);
    assert_eq!((state.orientation, state.brightness, state.haptics), (2, 100, 9));
    assert_eq!(state.theme, "Sea");
    assert_eq!((state.cover, state.motion), (CoverStyle::Full, Motion::Moving));
    assert_eq!(state.shape.points, 50);
    assert!(!state.plugins[0].as_ref().unwrap().installed);
}

#[test]
fn the_orientation_turns_round() {
    assert_eq!(turned(0, -1), 3);
    assert_eq!(turned(3, 1), 0);
    assert_eq!(turned(1, 4), 1);
    assert_eq!(turned(turned(2, 5), -5), 2);
    assert_eq!(turned(0, i32::MIN), 0);
}

#[test]
fn a_turn_goes_to_what_is_open() {
    let adjust = |id, owner| Turn::Adjust { id, owner, detents: 1 };
    assert_eq!(
        turn_act(adjust(SETTING_ORIENTATION, Owner::Firmware), 9),
        Turned::Orientation
    );
    assert_eq!(
        turn_act(adjust(SETTING_POINTS, Owner::Firmware), 9),
        Turned::Shape(Part::Points)
    );
    assert_eq!(turn_act(adjust(SETTING_QR + 1, Owner::Firmware), 9), Turned::NextCode);
    assert_eq!(turn_act(adjust(SETTING_SHARE, Owner::Firmware), 9), Turned::ShareText);
    let installed = PluginSetting::Installed.id(2);
    assert_eq!(turn_act(adjust(installed, Owner::Plugin), 9), Turned::Installed(2));
    let twice = Turn::Adjust { id: installed, owner: Owner::Plugin, detents: 2 };
    assert_eq!(turn_act(twice, 9), Turned::Ring);
    assert!(!turn_is_felt(Turn::Nothing, Turned::Ring, true));
    let brightness = adjust(SETTING_BRIGHTNESS, Owner::Firmware);
    assert!(!turn_is_felt(brightness, Turned::Brightness, false));
    assert!(turn_is_felt(brightness, Turned::Brightness, true));
}

#[test]
fn the_knob_has_one_taker() {
    assert_eq!(knob_to(3, true, true), KnobTo::Menu);
    assert_eq!(knob_to(-3, false, true), KnobTo::Face { events: 3, clockwise: false });
    assert_eq!(knob_to(30, false, true), KnobTo::Face { events: 8, clockwise: true });
    assert_eq!(knob_to(i32::MIN, false, true), KnobTo::Face { events: 8, clockwise: false });
    assert_eq!(knob_to(1, false, false), KnobTo::Volume);
}

#[test]
fn owed_keys_are_paid_off() {
    assert_eq!(owe(8, 5), 10);
    assert_eq!(owe(-8, -5), -10);
    assert_eq!(owe(3, -1), 2);
    assert_eq!(pay(2), (true, 1));
    assert_eq!(pay(-1), (false, 0));
}

fn report(state: u8, volume: u8) -> CompanionStatus {
    CompanionStatus {
        state,
        volume,
        encoder_enabled: true,
        streaming: true,
        hid_connected: false,
    }
}

#[test]
fn the_other_chip_is_told_again() {
    let mut state = overview();
    let mut companion = Companion::new();
    assert_eq!(
        companion.report(&mut state, report(0x43, 70), 0x03),
        StatusReply { turned_from: None, own_bits: Some(0x40), set_state: false }
    );
    assert_eq!(state.volume, Some(70));
    assert!(state.streaming);
    companion.turned(Some(70));
    companion.turned(Some(90));
    assert_eq!(
        companion.report(&mut state, report(0x45, 75), 0x03),
        StatusReply { turned_from: Some(70), own_bits: None, set_state: true }
    );
    for _ in 0..3 {
        companion.query(&mut state);
        assert_eq!(state.volume, Some(75));
    }
    companion.query(&mut state);
    assert_eq!(state.volume, None);
}

#[test]
fn a_turn_is_told_once() {
    let mut state = overview();
    let mut turns = Turns::new();
    turns.ours(&mut state, -4);
    turns.theirs(false);
    turns.theirs(true);
    turns.theirs(false);
    turns.asked(false);
    assert_eq!(state.detents, -7);
    assert_eq!(
        turns.settled(Some(60), 55),
        Some(TurnReport { ours: 4, theirs: 1, asked: 1, moved: -5 })
    );
    assert_eq!(turns, Turns::new());
    assert_eq!(turns.settled(None, 55), None);
}

#[test]
fn a_frame_shows_one_thing() {
    assert_eq!(picture(true, Face::Plugin(1), true, true, true), Picture::Menu { clean: true });
    assert_eq!(picture(false, Face::Plugin(1), true, true, true), Picture::Face);
    assert_eq!(
        picture(false, Face::Player, true, false, false),
        Picture::Player { over_picture: false }
    );
    assert!(click_ends_first(Picture::Face));
    assert!(!click_ends_first(Picture::Player { over_picture: true }));
}

fn on(menu_up: bool, face: Face) -> OnScreen {
    OnScreen { offered: false, menu_up, at_home: false, opened: false, face }
}

#[test]
fn a_long_press_leads_home() {
    assert_eq!(
        pressed(Press::Hold, on(false, Face::Plugin(0))),
        Pressed::Home { take_back: false, ask_state: true }
    );
    let open = OnScreen { opened: true, ..on(true, Face::Player) };
    assert_eq!(pressed(Press::Hold, open), Pressed::Home { take_back: true, ask_state: false });
    let home = OnScreen { at_home: true, ..on(true, Face::Player) };
    assert_eq!(pressed(Press::Hold, home), Pressed::OpenCodes);
    let offered = OnScreen { offered: true, ..home };
    assert_eq!(pressed(Press::Hold, offered), Pressed::OfferNext);
}

#[test]
fn taps_and_wipes_go_to_the_screen() {
    let wipe = Press::Gesture(Gesture::SlideLeft);
    assert_eq!(pressed(Press::Tap, on(true, Face::Player)), Pressed::MenuTap);
    assert_eq!(pressed(Press::Tap, on(false, Face::Player)), Pressed::TogglePlayback);
    assert_eq!(pressed(Press::Tap, on(false, Face::Plugin(2))), Pressed::FaceTap);
    assert_eq!(pressed(wipe, on(false, Face::Player)), Pressed::PreviousTrack);
    assert_eq!(
        pressed(Press::Gesture(Gesture::SlideRight), on(false, Face::Player)),
        Pressed::NextTrack
    );
    assert_eq!(
        pressed(wipe, on(false, Face::Plugin(2))),
        Pressed::FaceWipe(Gesture::SlideLeft)
    );
    assert_eq!(pressed(wipe, on(true, Face::Player)), Pressed::Nothing);
}

#[test]
fn a_menu_tap_decides() {
    let ok = |id| Tapped::Accepted { id, owner: Owner::Firmware };
    assert_eq!(tap_act(ok(SETTING_INSTALL)), TapAct::Accept);
    assert_eq!(tap_act(ok(SETTING_FORGET)), TapAct::Forget);
    assert_eq!(tap_act(ok(SETTING_ABOUT)), TapAct::Keep);
    assert_eq!(
        tap_act(Tapped::Cancel { id: SETTING_INSTALL, owner: Owner::Firmware }),
        TapAct::Decline
    );
    assert_eq!(
        tap_act(Tapped::Cancel { id: SETTING_ABOUT, owner: Owner::Firmware }),
        TapAct::TakeBack
    );
    assert_eq!(tap_act(Tapped::Open), TapAct::Snapshot);
    assert_eq!(
        tap_act(Tapped::Screen { id: Face::Plugin(1).id() }),
        TapAct::Start(Face::Plugin(1))
    );
    assert_eq!(
        tap_act(Tapped::Touch { id: SETTING_SHARE, owner: Owner::Firmware }),
        TapAct::Dismiss
    );
    assert_eq!(tap_act(Tapped::Close), TapAct::Close);
    assert_eq!(tap_act(Tapped::Moved), TapAct::Nothing);
}

#[test]
fn settings_are_written_where_they_differ() {
    assert!(rings_change(&vec![Some(true), None], &vec![Some(false), None]));
    assert!(!rings_change(&vec![Some(true), None], &vec![Some(true), None]));
    let (now, then) = (vec![Some(true), None, Some(false)], vec![Some(false), None, Some(false)]);
    assert_eq!(
        keep(true, false, &now, &then),
        Kept { write: true, redecode: false, restart: true }
    );
    assert_eq!(
        keep(true, true, &now, &now),
        Kept { write: true, redecode: true, restart: false }
    );
    assert_eq!(
        keep(false, false, &then, &vec![Some(false), Some(true), None]),
        Kept { write: false, redecode: false, restart: false }
    );
    assert_eq!(kept_bits(&vec![Some(true), None, Some(false), Some(true)]), 0b101);
}

#[test]
fn news_go_out_once() {
    assert_eq!(hand(true, None, 4, true), (true, Some(4)));
    assert_eq!(hand(true, Some(4), 4, true), (false, Some(4)));
    assert_eq!(hand(true, Some(4), 5, true), (true, Some(5)));
    assert_eq!(hand(true, Some(4), 5, false), (false, Some(4)));
    assert_eq!(hand(false, Some(4), 5, true), (false, None));
}

#[test]
fn a_pulse_keeps_its_time() {
    assert_eq!(pulse(Some(100), None, 5), (true, Some(5)));
    assert_eq!(pulse(Some(100), Some(5), 104), (false, Some(5)));
    assert_eq!(pulse(Some(100), Some(5), 105), (true, Some(105)));
    assert_eq!(pulse(Some(100), Some(50), 40), (false, Some(50)));
    assert_eq!(pulse(None, Some(5), 500), (false, None));
}

#[test]
fn the_cloud_stands_still_unless_it_is_seen() {
    assert_eq!(cloud_frame(true, true, false, 80), 3);
    assert_eq!(cloud_frame(true, false, false, 80), 0);
    assert_eq!(cloud_frame(true, true, true, 80), 0);
    assert_eq!(cloud_frame(false, true, false, 80), 0);
    assert!(on_cloud(true, Face::Plugin(0), true));
    assert!(on_cloud(false, Face::Player, false));
    assert!(!on_cloud(false, Face::Player, true));
    assert!(!on_cloud(false, Face::Plugin(0), false));
}

#[test]
fn dialogs_open_the_radio() {
    assert!(receiving(Some((SETTING_RECEIVE, Owner::Firmware))));
    assert!(!receiving(Some((SETTING_RECEIVE, Owner::Plugin))));
    assert!(!receiving(None));
    assert!(sharing(Some((SETTING_SHARE, Owner::Firmware))));
    assert!(!sharing(Some((SETTING_RECEIVE, Owner::Firmware))));
}

#[test]
fn a_code_is_shown_brightly() {
    let share = Some((SETTING_SHARE, Owner::Firmware));
    assert!(code_shown(share, true, true, false));
    assert!(!code_shown(share, true, true, true));
    assert!(!code_shown(share, false, true, false));
    assert!(code_shown(Some((SETTING_QR, Owner::Firmware)), false, false, false));
    assert_eq!(light(true, true, false), Some(Light::Full));
    assert_eq!(light(true, false, true), Some(Light::Stored));
    assert_eq!(light(true, true, true), None);
    assert_eq!(light(false, true, false), None);
}

#[test]
fn only_a_new_bond_is_written() {
    let bond = Bond { address: [1; 6], ltk: [2; 16], irk: Some([3; 16]), level: 2 };
    assert!(bond_is_new(None, &bond));
    assert!(!bond_is_new(Some(&bond), &bond));
    assert!(bond_is_new(Some(&Bond { irk: None, ..bond }), &bond));
    assert!(bond_is_new(Some(&Bond { level: 1, ..bond }), &bond));
}

#[test]
fn a_changed_slot_restarts() {
    assert!(restarts(UploadStatus::Written));
    assert!(restarts(UploadStatus::Deleted));
    assert!(!restarts(UploadStatus::Ready));
}

#[test]
fn a_cover_waits_for_the_shown_face() {
    assert_eq!(cover_plan(true, true, true, 10, 20), CoverPlan::Wait);
    assert_eq!(cover_plan(true, false, true, 10, 20), CoverPlan::Decode { unload: true });
    assert_eq!(cover_plan(true, true, true, 20, 20), CoverPlan::Decode { unload: false });
    assert_eq!(cover_plan(true, false, false, 10, 20), CoverPlan::Decode { unload: false });
    assert_eq!(cover_plan(false, false, false, 99, 20), CoverPlan::Wait);
    let unloads = cover_plan(true, false, true, 10, 20);
    assert!(decodes(unloads, 20, 20) && !decodes(unloads, 19, 20));
    assert!(!decodes(CoverPlan::Wait, 99, 20));
}

#[test]
fn the_card_is_served_from_the_share_dialog_alone() {
    assert!(serves(Some((SETTING_SHARE, Owner::Firmware)), true));
    assert!(!serves(Some((SETTING_SHARE, Owner::Firmware)), false));
    assert!(!serves(Some((SETTING_SHARE, Owner::Plugin)), true));
    assert!(!serves(Some((SETTING_RECEIVE, Owner::Firmware)), true));
    assert!(!serves(None, true));
}

#[test]
fn a_boot_starts_from_the_settings() {
    let live = Live {
        orientation: 3,
        theme: String::from("Sea"),
        brightness: 70,
        haptics: 4,
        cover: CoverStyle::Full,
        cover_name: String::from("Full"),
        motion: Motion::Moving,
        motion_name: String::from("Moving"),
        shape: shape(),
        installed: vec![true],
    };
    let state = at_boot(
        live,
        String::from("1.2.3"),
        9,
        Some([1; 6]),
        vec![None],
        Some(2),
        Some(String::from("star.bin")),
        None,
    );
    let expected = Overview {
        uptime: 0,
        networks: 0,
        bonded: Some([1; 6]),
        detents: 0,
        orientation: 3,
        theme: String::from("Sea"),
        brightness: 70,
        haptics: 4,
        cover: CoverStyle::Full,
        cover_name: String::from("Full"),
        motion: Motion::Moving,
        motion_name: String::from("Moving"),
        ground: 0,
        backdrop: Some(Backdrop::Card(String::from("star.bin"))),
        plugins: vec![None],
        free_slots: Some(2),
        ..overview()
    };
    assert!(state == expected);
}

#[test]
fn clicks_follow_the_step() {
    assert_eq!(drive(0), None);
    assert_eq!(drive(9), Some((0x3E, 0x8C)));
    assert_eq!(drive(10), None);
    assert!(!clicks(0));
    assert!(clicks(1));
    assert_eq!(click_length(true), 7);
    assert_eq!(click_length(false), 12);
}
