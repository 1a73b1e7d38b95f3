//! The radio, the link to the other chip, and the cover that comes over it.

use teetotum_core::cover::{
    count_frame, describe, draw, merge_bands, next_filter, note, waits, Around, Art, Frame, Progress,
    Step,
};
use teetotum_core::device::CompanionStatus;
use teetotum_core::link::{
    frame, mode_of, state, worth_a_line, Frame as Said, Link,
};
use teetotum_core::radio::{
    advertisement, ble_window, bond_information, first_name, identity_address, local_name, named,
    note_report, order_by_strength, other_bonds, pause_goes_on, reply, scan_response, stands_down,
    stored_bond, window_open, Bond, HostBond, Reply, SeenDevice, WifiRound, WifiScan, Written,
};
use teetotum_core::remote::{
    action, forgets, forgetting, key, repeats, Action, Every, Forget, Gesture, Heard, KeyRun,
    KeyStep, MediaKey, Step as Hand,
};

#[test]
fn reports_are_kept_by_address() {
    let mut seen: Vec<SeenDevice> = Vec::new();
    note_report(&mut seen, [1; 6], -60, None);
    note_report(&mut seen, [2; 6], -50, Some(String::from("lamp")));
    note_report(&mut seen, [1; 6], -70, Some(String::from("door")));
    note_report(&mut seen, [1; 6], -71, Some(String::from("gate")));
    assert_eq!(seen.len(), 2);
    assert_eq!(seen[0].rssi, -71);
    assert_eq!(seen[0].name.as_deref(), Some("door"));
    assert_eq!(named(&seen), 2);
    for n in 3..60u8 {
        note_report(&mut seen, [n; 6], -80, None);
    }
    assert_eq!(seen.len(), 40);
    assert_eq!(named(&seen), 2);
}

#[test]
fn the_strongest_comes_first() {
    assert_eq!(order_by_strength(&vec![-70, -40, -70, -50]), vec![1, 3, 0, 2]);
    assert_eq!(order_by_strength(&vec![]), Vec::<usize>::new());
}

#[test]
fn windows_and_pauses_end() {
    assert!(window_open(4_999, 5_000, false));
    assert!(!window_open(5_000, 5_000, false));
    assert!(!window_open(10, 5_000, true));
    assert!(pause_goes_on(10, 25_000, 0, false));
    assert!(!pause_goes_on(10, 25_000, 0, true));
    assert!(!pause_goes_on(25_000, 25_000, 0, false));
    assert_eq!(ble_window(true), 2_000);
    assert_eq!(ble_window(false), 5_000);
    assert!(stands_down(true, false) && stands_down(false, true));
    assert!(!stands_down(false, false));
}

#[test]
fn a_shared_card_stops_the_scan() {
    let mut scan = WifiScan::new();
    assert_eq!(scan.round(false), WifiRound { access_point: None, scan: true });
    assert_eq!(scan.round(true), WifiRound { access_point: Some(true), scan: false });
    assert!(scan.rests(10, false, true));
    assert!(!scan.rests(10, false, false));
    assert_eq!(scan.round(false), WifiRound { access_point: Some(false), scan: true });
    assert!(scan.rests(999, true, false));
    assert!(!scan.rests(1_000, true, false));
    assert!(!scan.rests(30_000, false, false));
}

#[test]
fn the_advertisement_is_what_the_standard_lays_out() {
    let data = advertisement([0x41, 0x08], b"TeeToTum".to_vec()).unwrap();
    let mut expected = vec![2, 0x01, 0x06, 3, 0x19, 0x41, 0x08, 9, 0x09];
    expected.extend_from_slice(b"TeeToTum");
    assert_eq!(data, expected);
    assert_eq!(advertisement([0, 0], vec![b'x'; 23]), None);
    let service: [u8; 16] = [7; 16];
    let answer = scan_response(service).unwrap();
    assert_eq!(answer[..2], [17, 0x07]);
    assert_eq!(answer[2..], service);
}

#[test]
fn a_scan_reads_the_name_that_is_advertised() {
    let data = advertisement([0x41, 0x08], b"TeeToTum".to_vec()).unwrap();
    assert_eq!(local_name(&data).as_deref(), Some("TeeToTum"));
    assert_eq!(local_name(&[2, 0x01, 0x06]), None);
    // A shortened name counts too; one that is no text does not.
    assert_eq!(local_name(&[4, 0x08, b'a', b'b', b'c']).as_deref(), Some("abc"));
    assert_eq!(local_name(&[3, 0x09, 0xFF, 0xFE]), None);
    assert_eq!(local_name(&[]), None);
    // What cannot be read is stepped over: a length of 0 or 1, and one that claims too much.
    assert_eq!(local_name(&[0, 1, 3, 0x09, b'h', b'i']).as_deref(), Some("hi"));
    assert_eq!(local_name(&[9, 0x01, 3, 0x09, b'h', b'i']).as_deref(), Some("hi"));
    assert_eq!(local_name(&[4, 0x09, b'h', b'i']), None);
    assert_eq!(local_name(&[5]), None);
}

#[test]
fn the_first_readable_name_counts() {
    let names = vec![None, Some(vec![0xFF]), Some(b"one".to_vec()), Some(b"two".to_vec())];
    assert_eq!(first_name(&names).as_deref(), Some("one"));
    assert_eq!(first_name(&vec![None]), None);
}

#[test]
fn the_identity_is_a_fixed_random_address() {
    assert_eq!(
        identity_address([0x01, 0x23, 0x45, 0x67, 0x89, 0xAB]),
        [0xAB, 0x89, 0x67, 0x45, 0x23, 0xC1]
    );
}

#[test]
fn a_bond_comes_back_as_it_was() {
    let host = HostBond { address: [1; 6], ltk: [2; 16], irk: None, authenticated: true };
    let kept = stored_bond(&host);
    assert_eq!(kept, Bond { address: [1; 6], ltk: [2; 16], irk: None, level: 2 });
    assert_eq!(bond_information(&kept), host);
    let plain = HostBond { authenticated: false, ..host };
    assert_eq!(stored_bond(&plain).level, 1);
    assert_eq!(bond_information(&stored_bond(&plain)), plain);
}

#[test]
fn one_bond_is_known() {
    let bond = |n: u8, irk| HostBond { address: [n; 6], ltk: [n; 16], irk, authenticated: true };
    let known = vec![bond(1, None), bond(2, Some([9; 16])), bond(1, Some([9; 16]))];
    assert_eq!(other_bonds(&known, &bond(1, None)), vec![1, 2]);
    assert_eq!(other_bonds(&known, &bond(2, Some([9; 16]))), vec![0, 2]);
    assert_eq!(other_bonds(&known, &bond(3, None)), vec![0, 1, 2]);
}

#[test]
fn a_peer_is_answered() {
    assert_eq!(reply(Written::Upload { valid: true }, true), Reply::AcceptCommand);
    assert_eq!(reply(Written::Upload { valid: true }, false), Reply::WriteNotPermitted);
    assert_eq!(reply(Written::Upload { valid: false }, true), Reply::ValueNotAllowed);
    assert_eq!(reply(Written::Upload { valid: false }, false), Reply::WriteNotPermitted);
    assert_eq!(reply(Written::Select { valid: false }, false), Reply::ValueNotAllowed);
    assert_eq!(reply(Written::Select { valid: true }, false), Reply::Accept);
    assert_eq!(reply(Written::Settings { valid: false }, true), Reply::ValueNotAllowed);
    assert_eq!(reply(Written::Other, false), Reply::Accept);
}

#[test]
fn a_state_byte_says_its_mode() {
    assert_eq!(state(2, true), 0x05);
    assert_eq!(state(0, false), 0x00);
    assert_eq!(state(1, true), 0x03);
    assert_eq!(mode_of(0x05), (2, true));
    for mode in 0..8 {
        assert_eq!(mode_of(state(mode, false)), (mode, false));
    }
}

fn hear(link: &mut Link, bytes: &[u8]) -> Vec<Said> {
    bytes.iter().filter_map(|byte| link.push(*byte)).collect()
}

#[test]
fn frames_are_found_in_noise() {
    let mut link = Link::new();
    assert_eq!(hear(&mut link, &[0, 1, 2, 0xBD, 7, 0, 0]), vec![Said::Clockwise(1)]);
    assert_eq!(hear(&mut link, &[0xBD, 8, 1, 0, 0x55]), vec![Said::Anticlockwise(1)]);
    assert_eq!(hear(&mut link, &[0xBD, 7, 0, 0]), vec![Said::Clockwise(2)]);
    assert_eq!(
        hear(&mut link, &[0xBD, 5, 2, 0, 0x05, 70]),
        vec![Said::Status { state: 5, volume: 70, new: true }]
    );
    assert_eq!(
        hear(&mut link, &[0xBD, 5, 2, 0, 0x05, 70]),
        vec![Said::Status { state: 5, volume: 70, new: false }]
    );
    link.forget_status();
    assert_eq!(
        hear(&mut link, &[0xBD, 5, 2, 0, 0x05, 70]),
        vec![Said::Status { state: 5, volume: 70, new: true }]
    );
    assert_eq!(hear(&mut link, &[0xBD, 1, 1, 0, 9]), vec![Said::Cover { len: 1 }]);
    assert_eq!(hear(&mut link, &[0xBD, 99, 0, 0]), vec![Said::Other { cmd: 99, len: 0 }]);
}

#[test]
fn the_bytes_of_a_frame_stay_until_the_next() {
    let mut link = Link::new();
    let said = hear(&mut link, &[0x55, 0xBD, 99, 3, 0, 7, 8, 9]);
    assert_eq!(said, vec![Said::Other { cmd: 99, len: 3 }]);
    assert_eq!(link.buf[..7], [0xBD, 99, 3, 0, 7, 8, 9]);
    assert_eq!(hear(&mut link, &[0x55, 0x56]), vec![]);
    assert_eq!(link.buf[..7], [0xBD, 99, 3, 0, 7, 8, 9]);
    let mut long = vec![0xBD, 6, 40, 0];
    long.extend(1..=40u8);
    assert_eq!(hear(&mut link, &long), vec![Said::Other { cmd: 6, len: 40 }]);
    assert_eq!(link.buf[..], long[..36]);
}

#[test]
fn a_frame_no_sender_builds_is_thrown_away() {
    let mut link = Link::new();
    assert_eq!(hear(&mut link, &[0xBD, 7, 0xFD, 0x03]), vec![]);
    assert_eq!(hear(&mut link, &[0xBD, 7, 0, 0]), vec![Said::Clockwise(1)]);
    let mut long = vec![0xBD, 6, 0xFC, 0x03];
    long.extend(vec![0xBD; 1020]);
    assert_eq!(hear(&mut link, &long), vec![Said::Other { cmd: 6, len: 1020 }]);
    assert_eq!(hear(&mut link, &[0xBD, 7]), vec![]);
    link.reset_sync();
    assert_eq!(hear(&mut link, &[0, 0]), vec![]);
    assert_eq!(hear(&mut link, &frame(9, [1, 2, 3, 4])), vec![Said::Own]);
    assert_eq!(frame(9, [1, 2, 3, 4]), [0xA3, 9, 4, 0, 1, 2, 3, 4]);
}

#[test]
fn only_a_turn_is_counted() {
    let mut link = Link::new();
    link.events = [u32::MAX, 4];
    assert_eq!(hear(&mut link, &[0, 0xA3, 7, 0, 0]), vec![Said::Own]);
    assert_eq!(hear(&mut link, &[0xBD, 8, 0, 0]), vec![Said::Anticlockwise(5)]);
    assert_eq!(link.events, [u32::MAX, 5]);
}

#[test]
fn errors_are_told_now_and_then() {
    assert!(worth_a_line(1) && worth_a_line(8) && worth_a_line(100) && worth_a_line(200));
    assert!(!worth_a_line(9) && !worth_a_line(101));
}

#[test]
fn something_is_done_every_so_often() {
    let mut every = Every::new(100, 50);
    assert!(!every.due(99));
    assert!(every.due(130));
    assert!(!every.due(179));
    assert!(every.due(180));
}

#[test]
fn gestures_send_keys() {
    assert_eq!(action(Some(Gesture::SlideLeft)), Some(Action::QueueNext));
    assert_eq!(action(Some(Gesture::SlideRight)), Some(Action::QueuePrevious));
    assert_eq!(action(Some(Gesture::SlideDown)), Some(Action::KeyNext));
    assert_eq!(action(Some(Gesture::SlideUp)), Some(Action::SuspendStream));
    assert_eq!(action(Some(Gesture::SingleTap)), Some(Action::TogglePlayback));
    assert_eq!(action(Some(Gesture::Other)), None);
    assert_eq!(action(None), None);
}

#[test]
fn the_other_chips_knob_is_counted() {
    let mut heard = Heard::new();
    assert_eq!(heard.detent(true), 7);
    assert_eq!(heard.detent(false), 8);
    assert_eq!(heard.detent(false), 8);
    assert_eq!(heard.position, -1);
    let status = CompanionStatus {
        state: 5,
        volume: 10,
        encoder_enabled: true,
        streaming: false,
        hid_connected: false,
    };
    assert!(heard.status(status));
    assert!(!heard.status(status));
    assert!(heard.status(CompanionStatus { volume: 11, ..status }));
}

#[test]
fn forgetting_takes_a_hand() {
    assert!(forgets(true, Hand::Next));
    assert!(!forgets(false, Hand::Next));
    assert!(!forgets(true, Hand::Repeat));
    assert!(!forgets(true, Hand::Quit));
    assert_eq!(
        forgetting(true),
        vec![(Forget::Bonds, 500), (Forget::Peer, 500), (Forget::Status, 0)]
    );
    assert!(forgetting(false).is_empty());
    assert!(repeats(true, Hand::Repeat));
    assert!(!repeats(false, Hand::Repeat));
    assert!(!repeats(true, Hand::Next));
}

#[test]
fn only_a_tap_sends_a_key() {
    let mut run = KeyRun::new();
    assert_eq!(
        run.step(Hand::Repeat, 100),
        KeyStep::Send { key: MediaKey::PlayPause, press: 1, gap: None }
    );
    assert_eq!(
        run.step(Hand::Repeat, 350),
        KeyStep::Send { key: MediaKey::PlayPause, press: 2, gap: Some(250) }
    );
    for n in 1..10 {
        assert_eq!(run.step(Hand::Next, 400), KeyStep::Select(n));
    }
    assert_eq!(key(9), MediaKey::Power);
    assert_eq!(run.step(Hand::Next, 400), KeyStep::Select(0));
    assert_eq!(
        run.step(Hand::Repeat, 400),
        KeyStep::Send { key: MediaKey::PlayPause, press: 3, gap: Some(50) }
    );
    assert_eq!(run.step(Hand::Quit, 500), KeyStep::Done);
}

#[test]
fn a_transfer_is_told() {
    assert_eq!(describe(Step::Offered { id: 3, packets: 34 }), "offered: id 3, 34 packets");
    assert_eq!(describe(Step::Packet { packet: 2, of: 34 }), "packet 2 of 34");
    assert_eq!(describe(Step::Complete { bytes: 9 }), "cover complete: 9 bytes");
    assert_eq!(describe(Step::Refused { reason: 4 }), "refused, reason 4");
    assert_eq!(describe(Step::Silent { bytes: 9 }), "no answer to the request, at 9 bytes");
    assert!(waits(Step::Complete { bytes: 100 }, false));
    assert!(!waits(Step::Refused { reason: 1 }, false));
    assert!(waits(Step::Packet { packet: 1, of: 2 }, true));
    assert_eq!(next_filter(0), 1);
    assert_eq!(next_filter(3), 0);
}

#[test]
fn frames_of_a_transfer_are_counted() {
    let mut counts = [0u32; 9];
    for _ in 0..3 {
        count_frame(&mut counts, Frame::CoverPacket);
    }
    count_frame(&mut counts, Frame::Unknown { cmd: 0x22 });
    assert_eq!(counts, [1, 0, 3, 0, 0, 0, 0, 0, 0]);
    assert_eq!(note(Frame::Status), None);
    assert_eq!(note(Frame::Metadata).as_deref(), Some("new track"));
    assert_eq!(note(Frame::Unknown { cmd: 0x22 }).as_deref(), Some("unknown frame 0x22"));
}

#[test]
fn bands_are_merged_where_they_touch() {
    assert_eq!(merge_bands(&vec![(10, 20), (15, 30), (40, 50)]), vec![(10, 30), (40, 50)]);
    assert_eq!(merge_bands(&vec![]), vec![]);
}

#[test]
fn the_cover_face_dims_what_it_writes_on() {
    let around = Around {
        head: vec![0xFF, 0xD8],
        title: String::from("Song"),
        status: None,
        errors: (0, 0),
        last_action: String::from("waiting"),
        uptime: 5,
    };
    let progress = Progress { done: false, aborted: None, bytes: 512, got: 1, packets: 34 };
    let blank = draw(&[0; 9], Some(progress), None, &around);
    assert!(blank.clear && blank.dim.is_empty());
    assert_eq!(blank.lines[0].text, "1 of 34");
    assert_eq!(blank.lines[2].text, "01:0 02:0 03:0");
    assert!(blank.lines[0].doubled);
    let art = Art {
        width: 200,
        height: 200,
        scaler: String::from("nearest"),
        forced: false,
        millis: 120,
    };
    let shown = draw(&[0; 9], Some(progress), Some(&art), &around);
    assert!(!shown.clear);
    for (i, a) in shown.dim.iter().enumerate() {
        for b in &shown.dim[i + 1..] {
            assert!(a.1 <= b.0 || b.1 <= a.0);
        }
    }
    assert!(shown.lines.iter().all(|line| !line.doubled));
    assert_eq!(shown.lines[0].text, "nearest  200x200");
    assert_eq!(shown.dim[0], (253, 273));
}
