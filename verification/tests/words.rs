//! Words and numbers as the screens and the log show them.

use teetotum_core::pictures::{
    around, byte_order, header_bytes, is_jpeg, join, pick, room_needed, show, Asked, Collection,
    Decoded, Name, Pick, ReadOn, Reading,
};
use teetotum_core::qr::{commit, pack};
use teetotum_core::scene::{draw_scene, format_u32, Scene};
use teetotum_core::text::{
    clip, digit_text, push_address, push_decimal, push_hex2, push_plus_signed, push_register,
    push_signed, push_small_hex, push_thousandths, text_or,
};

fn made(push: impl Fn(&mut String)) -> String {
    let mut out = String::from(">");
    push(&mut out);
    out
}

#[test]
fn numbers_are_appended() {
    assert_eq!(made(|s| push_decimal(s, 0)), ">0");
    assert_eq!(made(|s| push_decimal(s, u64::MAX)), ">18446744073709551615");
    assert_eq!(made(|s| push_signed(s, -42)), ">-42");
    assert_eq!(made(|s| push_signed(s, i64::MIN)), ">-9223372036854775808");
    assert_eq!(made(|s| push_plus_signed(s, 7)), ">+7");
    assert_eq!(made(|s| push_plus_signed(s, 0)), ">+0");
    assert_eq!(made(|s| push_plus_signed(s, -7)), ">-7");
    assert_eq!(made(|s| push_thousandths(s, 12_345)), ">12.3");
    assert_eq!(made(|s| push_thousandths(s, 99)), ">0.0");
}

#[test]
fn bytes_are_appended_in_hex() {
    assert_eq!(made(|s| push_hex2(s, 0x0A)), ">0A");
    assert_eq!(made(|s| push_register(s, 0xE9)), ">0xe9");
    assert_eq!(made(|s| push_small_hex(s, &[0, 0xAB, 0x10])), ">00ab10");
    assert_eq!(digit_text(15), "F");
}

#[test]
fn an_address_is_shown_high_byte_first() {
    let address = [0x01, 0x23, 0x45, 0x67, 0x89, 0xAB];
    assert_eq!(made(|s| push_address(s, &address)), ">AB:89:67:45:23:01");
}

#[test]
fn bytes_that_are_no_text_are_replaced() {
    assert_eq!(text_or("gr\u{fc}n".as_bytes(), "-"), "gr\u{fc}n");
    assert_eq!(text_or(&[0x67, 0xFC, 0x6E], "-"), "-");
    assert_eq!(text_or(&[], "-"), "");
}

#[test]
fn a_long_text_is_cut_by_characters() {
    assert_eq!(clip("short", 8), "short");
    assert_eq!(clip("\u{fc}ber den Wolken", 6), "\u{fc}ber ~");
    assert_eq!(clip("long", 0), "~");
}

#[test]
fn a_number_is_formatted() {
    assert_eq!(format_u32(0), "0");
    assert_eq!(format_u32(4_294_967_295), "4294967295");
}

#[test]
fn the_hand_stands_out() {
    let picture = draw_scene(Scene::Hand(15));
    assert_eq!(picture.marks.len(), 12);
    let out: Vec<usize> =
        (0..12).filter(|n| picture.marks[*n].accent).collect();
    assert_eq!(out, vec![3]);
    let hand = picture.marks[3];
    assert_eq!((hand.from_x, hand.from_y), (180, 180));
    assert_eq!((hand.to_x, hand.to_y), (345, 180));
    assert_eq!(picture.words[0].text, "15");
    assert_eq!(picture.words[1].text, "psram dma");
}

#[test]
fn marks_stay_on_the_screen() {
    for scene in [Scene::Rotation, Scene::Finger, Scene::Hand(0)] {
        for mark in draw_scene(scene).marks {
            for at in [mark.from_x, mark.from_y, mark.to_x, mark.to_y] {
                assert!((0..360).contains(&at));
            }
        }
    }
}

#[test]
fn a_name_keeps_its_first_bytes() {
    assert_eq!(Name::new("COVER.JPG").as_str(), "COVER.JPG");
    let long = "x".repeat(100);
    assert_eq!(Name::new(&long).as_str(), "x".repeat(64));
    assert_eq!(Name::new("").as_str(), "");
}

#[test]
fn a_name_is_cut_where_a_character_ends() {
    let fits = "x".repeat(62) + "\u{e9}";
    assert_eq!(Name::new(&fits).as_str(), fits);
    let cut = "x".repeat(63) + "\u{e9}";
    assert_eq!(Name::new(&cut).as_str(), "x".repeat(63));
    let wide = "\u{1f600}".repeat(20);
    assert_eq!(Name::new(&wide).as_str(), "\u{1f600}".repeat(16));
    let odd = String::from("xyz") + &wide;
    assert_eq!(Name::new(&odd).as_str(), String::from("xyz") + &"\u{1f600}".repeat(15));
}

#[test]
fn jpegs_are_known_by_their_ending() {
    assert!(is_jpeg("a.jpg"));
    assert!(is_jpeg("A.JPEG"));
    assert!(!is_jpeg("a.png"));
    assert!(!is_jpeg("jpg"));
}

#[test]
fn only_a_whole_screen_is_a_background() {
    assert_eq!(header_bytes(259_200), Some(0));
    assert_eq!(header_bytes(259_204), Some(4));
    assert_eq!(header_bytes(259_199), None);
}

#[test]
fn a_collection_takes_what_it_wants() {
    let mut jpegs = Collection::jpegs();
    assert!(!jpegs.collect(true, "folder.jpg", 0));
    assert!(!jpegs.collect(false, "b.txt", 10));
    assert!(!jpegs.collect(false, "c.jpg", 10));
    assert_eq!(jpegs.kept.len(), 1);
    assert_eq!(jpegs.kept[0].name, "c.jpg");
    assert_eq!(jpegs.kept[0].size, 10);
}

#[test]
fn pictures_are_picked_in_turn() {
    assert_eq!(pick(2, 3, true, 1), Pick::Builtin(1));
    assert_eq!(pick(2, 3, true, 4), Pick::Card(2));
    assert_eq!(pick(2, 3, true, 5), Pick::Nothing);
    assert_eq!(pick(2, 3, false, 2), Pick::Nothing);
}

#[test]
fn a_ring_goes_round_both_ways() {
    assert_eq!(around(0, -1, 5), 4);
    assert_eq!(around(4, 1, 5), 0);
    assert_eq!(around(2, -12, 5), 0);
    assert_eq!(around(0, i32::MIN, 7), 5);
}

#[test]
fn a_path_is_joined() {
    assert_eq!(join("/CLOCKBG", "A.RAW", 64), "/CLOCKBG/A.RAW");
}

#[test]
fn a_file_is_read_until_it_is_whole() {
    let mut reading = Reading::new(100);
    assert_eq!(reading.took(60), ReadOn::From(60));
    assert_eq!(reading.took(40), ReadOn::Whole);
    let mut short = Reading::new(100);
    assert_eq!(short.took(60), ReadOn::From(60));
    assert_eq!(short.took(0), ReadOn::Short);
}

#[test]
fn only_a_picture_too_large_names_its_room() {
    assert_eq!(room_needed(Asked::NoRoom { needed: 123 }), Some(123));
    assert_eq!(room_needed(Asked::BadHeaders), None);
    assert_eq!(room_needed(Asked::Decoded), None);
}

#[test]
fn a_shown_picture_has_a_caption() {
    let decoded =
        Decoded { width: 200, height: 100, bytes: 4321, micros: 150_000, name: Name::new("a.jpg") };
    let caption = show(Some(&decoded), Some((180, 20_000)), "nearest");
    assert_eq!(caption.name, "a.jpg");
    assert_eq!(caption.detail, "4 KiB  decode 150 ms  fit 20 ms");
    assert_eq!(caption.headline, "200>180 nearest");
    let short = show(Some(&decoded), None, "nearest");
    assert_eq!(short.detail, "short buffer");
    let nothing = show(None, None, "nearest");
    assert_eq!(nothing.name, "no picture");
    assert_eq!(nothing.headline, "nearest");
}

#[test]
fn byte_orders_are_named() {
    assert_eq!(byte_order(true), "swapped");
    assert_eq!(byte_order(false), "as stored");
}

#[test]
fn modules_are_packed_eight_to_a_byte() {
    let mut modules = vec![false; 9];
    modules[0] = true;
    modules[7] = true;
    modules[8] = true;
    assert_eq!(pack(&modules), vec![0x81, 0x80]);
    assert_eq!(pack(&Vec::new()), Vec::<u8>::new());
    let modules: Vec<bool> = (0..441).map(|i| i % 3 == 0).collect();
    let packed = pack(&modules);
    assert_eq!(packed.len(), 56);
    for (i, dark) in modules.iter().enumerate() {
        assert_eq!(packed[i / 8] & (0x80 >> (i % 8)) != 0, *dark);
    }
}

#[test]
fn a_build_is_named_by_its_commit() {
    assert_eq!(commit(Some(String::from("abc1234")), false), "abc1234");
    assert_eq!(commit(Some(String::from("abc1234")), true), "abc1234+");
    assert_eq!(commit(None, true), "unknown");
}
