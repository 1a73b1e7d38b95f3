//! What the board was measured with.

use teetotum_core::backlight::{duty, Brightness};
use teetotum_core::bands::{band, stroke, turned_rows, Band, Stroke};
use teetotum_core::cloud::{
    clear_disc, cloud_ground, cloud_of, moment, CloudMeter, CLOUD_REPORT,
};
use teetotum_core::dial::{
    cos_q10, dot_corner, moved, sin_q10, MARK_HEIGHT, MARK_WIDTH, MARK_X, MARK_Y, SINES,
};
use teetotum_core::digits::{draw_number, stepped, tapped, Paint};
use teetotum_core::frames::{per_second, time, Looking};
use teetotum_core::memory::{
    ballast, guarded, laying, left_over, report as memory_report, round_of, share_out, weigh,
    Guarded, Loading,
};
use teetotum_core::motor::{
    address, answer_words, calibrate, connected, device, diagnose_three_times, driven, held_at,
    hertz, listed, pumped, register_at, set_to, traffic, untouched, verdict, Actuator, Attempts,
    Calibrate, Device, Driven, HeldAt, Refused, Traffic, Untouched, Verdict,
};
use teetotum_core::overview::CloudShape;
use teetotum_core::pixels::{
    contact, draw_ground, fill_rect, ink, key, paint, swap_pairs, Key,
};
use teetotum_core::quadrature::{report, state_of, Trace, Transition};
use teetotum_core::reach::{block_at, fill_block, read_block, Found, Narrow, Sweep};
use teetotum_core::record::{
    after_damage, boot, check as intact, matches as is_record, payload, AfterDamage, Boot,
};
use teetotum_core::slots::{
    check, failed, judge, last_slot, rounded, Claim, Header, Module, Wrote,
};
use teetotum_core::tone::{fill_tone, note_periods, sine};
use teetotum_core::wiring::{
    bus_pins, haptics_id, held, is_news, next_address, read_touch, told_at, touch_name, wiring,
    Edges, Held, Moved, Touched, Watch, Wiring,
};

#[test]
fn brightness_goes_with_the_square() {
    assert_eq!(duty(Brightness { step: 0 }), 0);
    assert_eq!(duty(Brightness { step: 1 }), 10);
    assert_eq!(duty(Brightness { step: 5 }), 256);
    assert_eq!(duty(Brightness { step: 10 }), 1024);
}

#[test]
fn bands_cover_the_panel() {
    assert_eq!(
        band(0),
        Some(Band { top: 0, bottom: 59, colour: 0xF800, chunk: 720, repeats: 60 })
    );
    assert_eq!(
        band(5),
        Some(Band { top: 300, bottom: 359, colour: 0xF81F, chunk: 21600, repeats: 2 })
    );
    assert_eq!(band(6), None);
    for n in 0..6 {
        let band = band(n).unwrap();
        assert_eq!(band.chunk * band.repeats, 60 * 720);
    }
    assert_eq!(turned_rows(11), Some((330, 30)));
    assert_eq!(turned_rows(12), None);
}

#[test]
fn the_letter_is_drawn_on_its_ground() {
    assert_eq!(
        stroke(0),
        Some(Stroke { x: 0, y: 0, width: 360, height: 360, colour: 0x0009 })
    );
    assert_eq!(
        stroke(2),
        Some(Stroke { x: 170, y: 90, width: 90, height: 40, colour: 0xFFFF })
    );
    assert_eq!(stroke(5), None);
}

#[test]
fn a_cloud_follows_its_shape() {
    let cloud = cloud_of(CloudShape { points: 600, brightest: 80, centre: 90, accent: 30 });
    assert_eq!(cloud.points, 600);
    assert_eq!(cloud.peak, 205);
    assert_eq!(cloud.accent, 30);
    assert_eq!(cloud.seed, 0x7EE7_0701);
    assert_eq!(moment(0), None);
    assert!(moment(1).is_some());
}

#[test]
fn a_disc_is_cleared_row_by_row() {
    let rows = clear_disc(100);
    for row in &rows {
        let dy = 2 * row.y - 359;
        for x in 0..360 {
            let dx = 2 * x - 359;
            if dx * dx + dy * dy < 4 * 100 * 100 {
                assert!(row.x <= x && x < row.x + row.width as i32);
            }
        }
    }
    assert!(!rows.is_empty());
    assert!(cloud_ground(true, true, 120).disc_only);
    assert!(!cloud_ground(true, false, 120).disc_only);
    assert!(!cloud_ground(false, true, 120).disc_only);
}

#[test]
fn a_cloud_is_reported_by_the_window() {
    let mut meter = CloudMeter::new();
    assert_eq!(meter.add(10_000, 20_000, 5_000, 100), None);
    let report = meter.add(30_000, 50_000, 7_000, CLOUD_REPORT).unwrap();
    assert_eq!(report.frames, 2);
    assert_eq!(report.worst, 50_000);
    assert_eq!(meter, CloudMeter::new());
    assert!(meter.takes(u64::MAX / 2, u64::MAX, u64::MAX / 2));
    assert!(!meter.takes(u64::MAX / 2 + 1, 0, 0));
    assert!(!meter.takes(0, 0, u64::MAX / 2 + 1));
    meter.whole = 1;
    assert!(!meter.takes(0, u64::MAX, 0));
    meter.frames = u32::MAX;
    assert!(!meter.takes(0, 0, 0));
}

#[test]
fn the_dot_runs_round() {
    assert_eq!((sin_q10(0), sin_q10(90), sin_q10(180), sin_q10(270)), (0, 1024, 0, -1024));
    assert_eq!(sin_q10(30), 512);
    assert_eq!(sin_q10(-30), -512);
    assert_eq!(cos_q10(0), 1024);
    assert_eq!(sin_q10(45), 723);
    assert_eq!(dot_corner(0), (169, 41));
    assert_eq!(dot_corner(90), (297, 169));
    assert_eq!(dot_corner(360), dot_corner(0));
    let still = moved(dot_corner(0), 30, 12);
    assert_eq!((still.angle, still.erase), (0, None));
    let back = moved(dot_corner(0), -1, 12);
    assert_eq!((back.angle, back.erase), (348, Some((169, 41))));
    assert_eq!(back.dot, dot_corner(348));
}

#[test]
fn the_sine_peaks_at_a_right_angle_alone() {
    for degrees in -360..=720i32 {
        let sine = sin_q10(degrees);
        assert_eq!(sine == 1024, degrees.rem_euclid(360) == 90, "{degrees}");
        assert_eq!(sine == -1024, degrees.rem_euclid(360) == 270, "{degrees}");
    }
    assert_eq!((sin_q10(89), sin_q10(91)), (1023, 1023));
    assert_eq!((sin_q10(269), sin_q10(271)), (-1023, -1023));
    assert_eq!((sin_q10(9), sin_q10(41)), (161, 670));
    assert_eq!((sin_q10(135), sin_q10(225), sin_q10(315)), (723, -723, -723));
    for degrees in 0..90 {
        assert!(sin_q10(degrees) <= sin_q10(degrees + 1), "{degrees}");
    }
}

#[test]
fn the_table_of_sines_is_to_the_nearest_millionth() {
    for (degrees, sine) in (0..).zip(SINES) {
        let exact = f64::from(degrees as i32).to_radians().sin() * 1_000_000.0;
        assert!((f64::from(sine) - exact).abs() <= 0.5, "{degrees}");
        assert!((1_000_000 * sin_q10(degrees) as i64 - 1024 * i64::from(sine)).abs() < 2_046_976);
    }
}

#[test]
fn a_finger_held_still_is_told_once() {
    let (first, touching) = read_touch(Some([5, 1, 0xF1, 0x68, 0x00, 0x10]), false);
    let first = first.unwrap();
    assert!(touching && is_news(None, first));
    assert!(!is_news(told_at(first), first));
    let (moved, _) = read_touch(Some([5, 1, 0xF1, 0x68, 0x00, 0x11]), true);
    let moved = moved.unwrap();
    assert!(is_news(told_at(first), moved));
    assert!(is_news(told_at(moved), Touched::Released));
    assert_eq!(told_at(Touched::Released), None);
    assert!(is_news(told_at(Touched::Released), first));
    assert!(!is_news(None, Touched::Quiet));
}

#[test]
fn the_sine_is_off_by_less_than_two_parts_in_a_thousand() {
    for degrees in -360..=720 {
        let exact = f64::from(degrees).to_radians().sin();
        assert!((f64::from(sin_q10(degrees)) / 1024.0 - exact).abs() < 0.002, "{degrees}");
    }
}

#[test]
fn the_dot_never_touches_the_mark() {
    for angle in 0..360 {
        let (x, y) = dot_corner(angle);
        let beside = x + 22 <= MARK_X || MARK_X + MARK_WIDTH <= x;
        let below = MARK_Y + MARK_HEIGHT <= y || y + 22 <= MARK_Y;
        assert!(beside || below, "{angle}");
    }
}

#[test]
fn effects_are_stepped_and_shown() {
    assert_eq!(stepped(1, -1), 1);
    assert_eq!(stepped(120, 9), 123);
    assert_eq!(stepped(60, i32::MIN), 1);
    let patches = draw_number(7);
    let lit = patches.iter().filter(|p| p.paint == Paint::Digit).count();
    assert_eq!(lit, 3);
    let bar: Vec<u16> =
        patches.iter().filter(|p| p.paint == Paint::Bar).map(|p| p.width).collect();
    assert_eq!(bar, vec![13]);
    let full = draw_number(123);
    assert_eq!(full.iter().filter(|p| p.paint == Paint::Bar).map(|p| p.width).max(), Some(240));
    assert!(tapped(true, None) && tapped(false, Some(true)));
    assert!(!tapped(false, Some(false)) && !tapped(false, None));
}

#[test]
fn frames_are_timed() {
    assert_eq!(time(&vec![Some(10), Some(20), Some(31)]), 20);
    assert_eq!(time(&vec![Some(10), None, Some(31)]), 0);
    assert_eq!(per_second(14_000), 71);
    assert_eq!(per_second(0), 0);
}

#[test]
fn clocks_take_turns() {
    let mut looking = Looking::new();
    let changes: Vec<(usize, bool)> =
        (0..60).filter_map(|n| looking.frame().map(|slow| (n, slow))).collect();
    assert_eq!(changes, vec![(0, false), (20, true), (40, false)]);
    let mut last = Looking { frames: u32::MAX, slow: false };
    assert_eq!(last.frame(), None);
    assert_eq!(last.frames, 0);
}

#[test]
fn spare_memory_is_shared_out() {
    let all = share_out(1000, 100, 64, 30, 20);
    assert_eq!(all.page, Some(936));
    assert_eq!(all.ring, Some(906));
    assert_eq!(all.share, Some(886));
    assert_eq!(all.pixels, Some((100, 886)));
    let little = share_out(100, 100, 64, 30, 20);
    assert_eq!((little.page, little.ring, little.share, little.pixels), (None, None, None, None));
}

#[test]
fn faces_are_weighed() {
    let lift = ballast(500, 300);
    assert_eq!(lift, 200);
    assert_eq!(ballast(300, 500), 0);
    let weight = weigh(100, 160, 400, 1234);
    assert_eq!((weight.held, weight.peak, weight.micros), (60, 300, 1234));
    assert_eq!(
        memory_report("dice", "eager", "first", &weight),
        "dice eager first: held +60, peak 300, 1.2 ms"
    );
    assert_eq!(round_of(0), Some((0, 0)));
    assert_eq!(round_of(8), Some((2, 2)));
    assert_eq!(round_of(9), None);
    assert_eq!(left_over(100, 90), -10);
}

#[test]
fn a_face_too_large_is_refused() {
    assert_eq!(guarded(Loading::Loaded, true), Guarded::Loaded);
    assert_eq!(guarded(Loading::Loaded, false), Guarded::TooGenerous);
    assert_eq!(guarded(Loading::NoRoom, true), Guarded::TooEager);
    assert_eq!(guarded(Loading::Failed, true), Guarded::TooEager);
    assert_eq!(guarded(Loading::NoRoom, false), Guarded::Refused);
    assert_eq!(guarded(Loading::Failed, false), Guarded::WrongReason);
    assert_eq!(laying(10, 20, 0), None);
    assert_eq!(laying(20, 20, 0), Some(true));
    assert_eq!(laying(19, 20, 3), Some(false));
}

#[test]
fn the_actuator_is_named() {
    assert_eq!(
        verdict(Some(true), Some(true), Some(6200)),
        (Actuator::Lra, Verdict::Named)
    );
    assert_eq!(verdict(Some(false), Some(true), None), (Actuator::Lra, Verdict::Alone));
    assert_eq!(verdict(Some(true), Some(false), Some(1)), (Actuator::Erm, Verdict::Erm));
    assert_eq!(verdict(Some(true), Some(true), None), (Actuator::Erm, Verdict::Ambiguous));
    assert_eq!(verdict(None, None, None), (Actuator::Lra, Verdict::Neither));
    assert_eq!(hertz(6211), 161);
    assert_eq!(hertz(0), 1_000_000);
    assert!(connected(0xE0));
    assert!(!connected(0xE9));
    assert_eq!(set_to(0x36), Actuator::Erm);
    assert_eq!(set_to(0xB6), Actuator::Lra);
    assert_eq!(calibrate(true, false), Calibrate::Restore);
    assert_eq!(calibrate(false, true), Calibrate::Longest);
    assert_eq!(calibrate(false, false), Calibrate::Short);
}

#[test]
fn the_driver_is_found() {
    assert_eq!(device(7), Device::Expected);
    assert_eq!(device(3), Device::Older);
    assert_eq!(device(4), Device::Unknown(4));
    assert_eq!(address(0x5A, 0x40, true, true), 0x5A);
    assert_eq!(address(0x5A, 0x40, false, true), 0x40);
    assert_eq!(address(0x5A, 0x40, false, false), 0x5A);
    assert_eq!(answer_words(true, true), Some("read and write"));
    assert_eq!(answer_words(true, false), Some("read"));
    assert_eq!(answer_words(false, true), Some("write"));
    assert_eq!(answer_words(false, false), None);
    assert_eq!(listed(Some(3)), 3);
    assert_eq!(listed(None), 0xEE);
    assert_eq!(register_at(15, 15), 0xFF);
}

#[test]
fn refused_writes_are_counted() {
    let mut attempts = Attempts::new();
    attempts.note(true, true);
    attempts.note(true, false);
    attempts.note(false, false);
    assert_eq!((attempts.made, attempts.pointer, attempts.amplitude), (3, 2, 1));
    assert_eq!(attempts.first, Some(1));
    assert_eq!(attempts.refused, Some(Refused::Amplitude));
}

#[test]
fn three_diagnostics_have_to_agree() {
    assert_eq!(diagnose_three_times(&[Some(0xE0), Some(0xE0), Some(0xE0)]), Some(0xE0));
    assert_eq!(diagnose_three_times(&[Some(0xE0), Some(0xE9), Some(0xE0)]), None);
    assert_eq!(diagnose_three_times(&[Some(0xE0), None, Some(0xE0)]), None);
    assert_eq!(untouched(Some(0xE0)), Untouched::On);
    assert_eq!(untouched(Some(0xE9)), Untouched::Off);
    assert_eq!(untouched(Some(1)), Untouched::Neither(1));
    assert_eq!(untouched(None), Untouched::NoAnswer);
}

#[test]
fn the_enable_pin_is_judged() {
    let (on, off) = (Some(0xE0), Some(0xE9));
    assert_eq!(driven(off, on, off, on), Driven::Level);
    assert_eq!(driven(off, on, on, off), Driven::Strobe);
    assert_eq!(driven(on, on, on, on), Driven::NotIt);
    assert_eq!(driven(None, off, off, off), Driven::Unexpected);
    assert_eq!(driven(off, on, off, None), Driven::Unexpected);
    assert_eq!(held_at(true, true), HeldAt::High);
    assert_eq!(held_at(false, false), HeldAt::Low);
    assert_eq!(held_at(false, true), HeldAt::Pull);
    assert_eq!(held_at(true, false), HeldAt::Inverted);
    assert_eq!(traffic(on, &[on, on, on]), Traffic::Unnoticed);
    assert_eq!(traffic(on, &[on, None, on]), Traffic::Sometimes { passed: 2 });
    assert_eq!(traffic(on, &[off, off, None]), Traffic::Breaks);
    assert_eq!(traffic(off, &[on, on, on]), Traffic::IdleReads(0xE9));
    assert_eq!(traffic(None, &[on, on, on]), Traffic::NoAnswer);
    assert_eq!(pumped(10, Some(5)), Some(15));
    assert_eq!(pumped(10, None), None);
}

#[test]
fn pixels_are_painted() {
    let mut buffer = [0u8; 5];
    paint(&mut buffer, 0x1234);
    assert_eq!(buffer, [0x12, 0x34, 0x12, 0x34, 0]);
    let fill = fill_rect(100, 10, 20, 30, 40);
    assert_eq!((fill.staged, fill.total), (100, 2400));
    assert_eq!((fill.x, fill.y, fill.x_end, fill.y_end), (10, 20, 39, 59));
    let mut pairs = [1u8, 2, 3, 4, 5];
    swap_pairs(&mut pairs);
    assert_eq!(pairs, [2, 1, 4, 3, 5]);
    swap_pairs(&mut pairs);
    assert_eq!(pairs, [1, 2, 3, 4, 5]);
}

#[test]
fn stripes_walk_with_the_frames() {
    let mut bytes = vec![0u8; 259_200];
    draw_ground(&mut bytes, 0);
    assert_eq!(bytes[..2], [0xF8, 0x00]);
    assert_eq!(bytes[24..26], [0x07, 0xE0]);
    draw_ground(&mut bytes, 4);
    assert_eq!(bytes[..2], [0x07, 0xE0]);
    // 0x5555_5556 * 3 wraps round to 2.
    draw_ground(&mut bytes, 0x5555_5556);
    assert_eq!(bytes[18..20], [0xF8, 0x00]);
    assert_eq!(bytes[20..22], [0x07, 0xE0]);
}

#[test]
fn a_finger_draws_on_the_picture() {
    assert!(ink(0, 359));
    assert!(!ink(-1, 0) && !ink(0, 360));
    assert_eq!(key(b'c'), Key::Clear);
    assert_eq!(key(b'\n'), Key::Clear);
    assert_eq!(key(b'0'), Key::Upright);
    assert_eq!(key(b'x'), Key::Nothing);
    assert_eq!(contact(false, Some(false)), (true, true));
    assert_eq!(contact(true, Some(false)), (false, true));
    assert_eq!(contact(true, Some(true)), (true, true));
    assert_eq!(contact(true, None), (false, false));
}

#[test]
fn a_burst_is_told_with_its_gaps() {
    assert_eq!(state_of(true, false), 2);
    assert_eq!(state_of(false, true), 1);
    let told = report(&[(2, 100), (0, 103), (1, 101)]);
    assert_eq!(
        told,
        vec![
            Transition { a: 1, b: 0, gap: 0 },
            Transition { a: 0, b: 0, gap: 3 },
            Transition { a: 0, b: 1, gap: 0 }
        ]
    );
}

#[test]
fn a_burst_ends_when_it_is_quiet_or_full() {
    let mut trace = Trace::new(3, 0);
    assert_eq!(trace.sample(3, 1_000_000), None);
    assert_eq!(trace.sample(2, 2_000_000), None);
    assert_eq!(trace.sample(2, 2_149_999), None);
    assert_eq!(trace.sample(2, 2_150_000), Some(vec![(2, 2000)]));
    assert_eq!(trace.sample(2, 9_000_000), None);
    let mut full = None;
    for n in 0..24u64 {
        assert_eq!(full, None);
        full = trace.sample((n % 2) as u8, 9_000_000 + n);
    }
    assert_eq!(full.map(|burst| burst.len()), Some(24));
    assert!(trace.burst.is_empty());
}

#[test]
fn a_block_says_where_it_came_from() {
    let mut block = vec![0u8; 4096];
    fill_block(0x3C1A_0000, &mut block);
    assert_eq!(block[..4], 0x3C1A_0000u32.to_le_bytes());
    assert_eq!(block[20..24], (0x3C1A_0000u32 ^ 5).to_le_bytes());
    let whole = read_block(&block, 0x3C1A_0000);
    assert_eq!((whole.wrong, whole.said), (0, None));
    let other = read_block(&block, 0x3C02_0000);
    assert_eq!((other.wrong, other.said), (1024, Some(0x3C1A_0000)));
    block[9] ^= 0xFF;
    assert_eq!(read_block(&block, 0x3C1A_0000).wrong, 1);
    // Bytes past the last whole word are neither filled nor compared.
    let mut short = [7u8; 10];
    fill_block(0x0102_0304, &mut short);
    assert_eq!(short, [4, 3, 2, 1, 5, 3, 2, 1, 7, 7]);
    let landed = read_block(&short, 0x0102_0304);
    assert_eq!((landed.wrong, landed.said), (0, None));
}

#[test]
fn a_boundary_is_narrowed_to_neighbours() {
    assert_eq!(block_at(0, 4095), None);
    assert_eq!(block_at(1, 65536 + 4096), Some(65536));
    assert_eq!(block_at(1, 65536 + 4095), None);
    let boundary = 1_000_000usize;
    let good = |base: usize| base + 4096 <= boundary;
    let mut sweep = Sweep::new();
    let mut round = 0;
    while let Some(base) = block_at(round, 4_000_000) {
        sweep.note(base, good(base));
        round += 1;
    }
    let mut narrow = match sweep.found() {
        Found::Between(narrow) => narrow,
        _ => panic!("no boundary"),
    };
    assert_eq!(narrow, Narrow { good: 15 * 65536, bad: 16 * 65536 });
    while let Some(middle) = narrow.middle() {
        narrow.feed(middle, good(middle));
    }
    assert!(good(narrow.good) && !good(narrow.bad));
    assert_eq!(narrow.bad - narrow.good, 4096);
    let mut whole = Sweep::new();
    whole.note(0, true);
    assert_eq!(whole.found(), Found::NoBoundary);
    let mut first = Sweep::new();
    first.note(64, false);
    first.note(128, true);
    assert_eq!(first.found(), Found::FirstWrong(64));
}

#[test]
fn a_record_is_known_by_its_phase() {
    let mut record = [0u8; 65];
    payload(3, &mut record);
    assert_eq!(record[0], 3);
    assert_eq!(record[1], 3);
    assert_eq!(record[2], 37 ^ 3);
    assert_eq!(record[64], (63u8.wrapping_mul(37)) ^ 3);
    assert!(is_record(3, &record) && intact(3, &record));
    assert!(!is_record(2, &record));
    assert!(!is_record(3, &record[..64]));
    record[40] ^= 1;
    assert!(!intact(3, &record));
}

#[test]
fn boots_go_from_phase_to_phase() {
    assert_eq!(boot(0, None), Boot::Write { found: 0, next: 1 });
    assert_eq!(boot(1, Some(0)), Boot::Write { found: 1, next: 2 });
    assert_eq!(boot(2, Some(1)), Boot::Damage { at: 4108, alternates: true });
    assert_eq!(boot(2, Some(0)), Boot::Damage { at: 12, alternates: false });
    assert_eq!(boot(2, None), Boot::Stuck);
    assert_eq!(boot(3, Some(0)), Boot::Finish);
    assert_eq!(boot(9, None), Boot::StartOver);
    let mut record = [0u8; 65];
    payload(1, &mut record);
    assert_eq!(after_damage(1, Some(&record)), AfterDamage::Held);
    assert_eq!(after_damage(1, Some(&record[1..])), AfterDamage::Wrong { phase: 1, len: 64 });
    assert_eq!(after_damage(0, None), AfterDamage::Gone);
}

#[test]
fn a_slot_makes_the_round_trip() {
    let wrote = || Some(Wrote { id: vec![1, 2], len: 9, accepted: false });
    let claims = vec![
        Claim::Torn { written: true },
        Claim::WithoutHeader { header: Header::Empty },
        Claim::Named { wrote: wrote(), id: Some(vec![1, 2]), len: 9 },
        Claim::Waits { wrote_accepted: Some(false), header: Header::Waiting },
        Claim::ReadBack { module: Module::Here { same: true } },
        Claim::Signed { holds: true },
        Claim::Marked { done: true, header: Header::Accepted },
        Claim::Zeroed { written: true },
        Claim::Damaged { module: Module::Hash },
        Claim::Erased { done: true, header: Header::Empty },
    ];
    assert_eq!(failed(&claims), 0);
    assert!(!judge(&Claim::Named { wrote: wrote(), id: None, len: 9 }));
    assert!(!judge(&Claim::Named { wrote: wrote(), id: Some(vec![1]), len: 9 }));
    assert!(!judge(&Claim::Damaged { module: Module::Here { same: true } }));
    assert_eq!(
        failed(&vec![
            Claim::Signed { holds: false },
            Claim::Torn { written: true },
            Claim::Erased { done: true, header: Header::Failed },
        ]),
        2
    );
    let mut count = 4;
    check(true, &mut count);
    check(false, &mut count);
    assert_eq!(count, 5);
    assert_eq!(last_slot(1_048_576, 65_536), Some((15, 983_040)));
    assert_eq!(last_slot(65_535, 65_536), None);
    assert_eq!((rounded(0), rounded(5), rounded(8)), (0, 8, 8));
}

#[test]
fn a_tone_is_whole_periods() {
    assert_eq!((sine(0), sine(64), sine(128), sine(192)), (0, 32767, 0, -32767));
    assert_eq!(note_periods(), [100, 80, 66, 50]);
    let mut buf = vec![0u8; 1000];
    assert_eq!(fill_tone(&mut buf, 100), 800);
    let sample = |frame: usize| i16::from_le_bytes([buf[frame * 4], buf[frame * 4 + 1]]);
    assert_eq!(sample(0), 0);
    assert_eq!(sample(25), 8191);
    assert_eq!(sample(75), -8192);
    assert_eq!(sample(7), sample(107));
    assert_eq!(buf[100..102], buf[102..104]);
    assert!(buf[800..].iter().all(|b| *b == 0));
    // No period fits, however long it is.
    assert_eq!(fill_tone(&mut buf, 251), 0);
    assert_eq!(fill_tone(&mut buf, 0x0200_0000), 0);
}

#[test]
fn moving_pins_are_told_every_second() {
    let mut edges = Edges::new(vec![true, true, false]);
    for n in 0..999 {
        assert_eq!(edges.sample(&vec![true, n % 2 == 0, false]), None);
    }
    let told = edges.sample(&vec![true, false, true]).unwrap();
    assert_eq!(
        told,
        vec![
            Moved { pin: 1, edges: 999, high: false },
            Moved { pin: 2, edges: 1, high: true }
        ]
    );
    for _ in 0..999 {
        assert_eq!(edges.sample(&vec![true, false, true]), None);
    }
    assert_eq!(edges.sample(&vec![true, false, true]), Some(vec![]));
}

#[test]
fn pulls_tell_what_holds_a_pin() {
    assert_eq!(held(8, 8), Held::High);
    assert_eq!(held(0, 0), Held::Low);
    assert_eq!(held(8, 0), Held::Floating);
    assert_eq!(held(0, 8), Held::Driven);
    assert_eq!(held(8, 3), Held::Driven);
}

#[test]
fn the_bus_is_scanned() {
    let mut addresses = Vec::new();
    let mut last = None;
    while let Some(next) = next_address(last) {
        addresses.push(next);
        last = Some(next);
    }
    assert_eq!((addresses.len(), addresses[0], addresses[111]), (112, 0x08, 0x77));
    assert_eq!(wiring(2, 0), Wiring::Listed);
    assert_eq!(wiring(0, 1), Wiring::Swapped);
    assert_eq!(wiring(0, 0), Wiring::Silent);
    assert_eq!(bus_pins(Wiring::Swapped), (12, 11));
    assert_eq!(bus_pins(Wiring::Silent), (11, 12));
    assert_eq!(touch_name(0xB6), " (CST816D)");
    assert_eq!(touch_name(0), "");
    assert_eq!(haptics_id(0xE9), 7);
}

#[test]
fn a_touch_is_read() {
    assert_eq!(
        read_touch(Some([5, 1, 0xF1, 0x68, 0x00, 0x10]), false),
        (Some(Touched::At { x: 0x168, y: 0x10, gesture: 5 }), true)
    );
    assert_eq!(read_touch(Some([0; 6]), true), (Some(Touched::Released), false));
    assert_eq!(read_touch(Some([0; 6]), false), (Some(Touched::Quiet), false));
    assert_eq!(read_touch(None, true), (None, true));
    let mut watch = Watch::new(false);
    let first = watch.poll(true, 4);
    assert_eq!((first.interrupt, first.position, first.read_touch), (Some(true), None, false));
    for _ in 0..18 {
        assert!(!watch.poll(true, 4).read_touch);
    }
    let told = watch.poll(true, 4);
    assert_eq!((told.interrupt, told.position, told.read_touch), (None, Some((4, 0)), true));
}
