//! The memory card: its pins, its bytes, and what is checked of it.

use teetotum_core::cardpins::{
    assignment, bits, byte, command, is_card, response, Assignment, NUMBERS,
};
use teetotum_core::cardread::{
    checksum, csd_version, identity, mebibytes, rates, throughput, Ask, How, Measure, Tally, Walk,
};
use teetotum_core::cardwrite::{
    fill, rate, run_bytes, FreeRun, Layout, PatternStage, Patterns, Table, WriteEvent, WriteRun,
    WriteStage,
};
use teetotum_core::fatcheck::{
    check, clock, contents, created, modified, same_flags, volume_flags, written_back, Entry,
    Event, FatRun, Stage, DIR, FILE,
};
use teetotum_core::storage::{Next, SeekError, SeekFrom, Storage};

#[test]
fn every_assignment_is_asked_once() {
    let mut seen: Vec<Assignment> = Vec::new();
    let mut n = 0;
    while let Some(pins) = assignment(n) {
        assert!((7..11).contains(&pins.clk));
        assert!(pins.cs < 7 && pins.mosi < 7 && pins.miso < 7);
        assert!(pins.cs != pins.mosi && pins.cs != pins.miso && pins.mosi != pins.miso);
        assert!(!seen.contains(&pins));
        seen.push(pins);
        n += 1;
    }
    assert_eq!(n, 840);
    assert_eq!(seen[0], Assignment { clk: 7, cs: 0, mosi: 1, miso: 2 });
    assert_eq!(seen[1], Assignment { clk: 7, cs: 0, mosi: 1, miso: 3 });
    assert_eq!(seen[5], Assignment { clk: 7, cs: 0, mosi: 2, miso: 1 });
    assert_eq!(seen[839], Assignment { clk: 10, cs: 6, mosi: 5, miso: 4 });
    assert_eq!(NUMBERS[seen[839].clk], 48);
}

#[test]
fn bytes_are_clocked_high_bit_first() {
    assert_eq!(bits(0x95), [true, false, false, true, false, true, false, true]);
    for value in 0..=255u8 {
        assert_eq!(byte(&bits(value)), value);
    }
}

#[test]
fn a_command_is_framed() {
    assert_eq!(command(0, 0, 0x95), [0xFF, 0x40, 0, 0, 0, 0, 0x95]);
    assert_eq!(command(8, 0x1AA, 0x87), [0xFF, 0x48, 0, 0, 0x01, 0xAA, 0x87]);
    assert_eq!(command(17, 0x1234_5678, 1)[2..6], [0x12, 0x34, 0x56, 0x78]);
}

#[test]
fn a_card_answers_within_ten_bytes() {
    assert_eq!(response(0, 0xFF), None);
    assert_eq!(response(3, 0x01), Some(0x01));
    assert_eq!(response(9, 0xFF), Some(0xFF));
    assert_eq!(response(9, 0x05), Some(0x05));
    assert!(is_card(0x01));
    assert!(!is_card(0x00));
    assert!(!is_card(0xFF));
}

#[test]
fn a_checksum_notices_the_place_of_a_byte() {
    // The FNV-1a hash of "a".
    assert_eq!(checksum(0x811C_9DC5, b"a"), 0xE40C_292C);
    assert_eq!(checksum(7, &[]), 7);
    assert_ne!(checksum(7, &[1, 2]), checksum(7, &[2, 1]));
    assert_eq!(checksum(checksum(7, b"ab"), b"cd"), checksum(7, b"abcd"));
}

#[test]
fn a_card_names_itself() {
    let cid = [
        0x03, b'S', b'D', b'S', b'C', b'1', b'6', b'G', 0x80, 0x12, 0x34, 0x56, 0x78, 0x01, 0x59, 1,
    ];
    let card = identity(&cid);
    assert_eq!(card.manufacturer, 3);
    assert_eq!(card.name, "SC16G");
    assert_eq!(card.revision, (8, 0));
    assert_eq!(card.serial, 0x1234_5678);
    assert_eq!((card.year, card.month), (2021, 9));
    let mut strange = cid;
    strange[3] = 0xFF;
    assert_eq!(identity(&strange).name, "?????");
    assert_eq!(csd_version(0x40), 2);
    assert_eq!(mebibytes(31_116_288), 15_193);
}

#[test]
fn a_walk_counts_and_stops() {
    let mut tally = Tally::new();
    assert_eq!(tally.note(true, 0, 0), Walk { indent: Some(0), descend: true });
    let deepest = tally.note(true, 0, 3);
    assert!(!deepest.descend);
    let file = tally.note(false, 1000, 1);
    assert!(!file.descend);
    assert_eq!((tally.files, tally.directories, tally.bytes), (1, 2, 1000));
}

#[test]
fn throughput_is_in_kibibytes() {
    assert_eq!(throughput(1_048_576, 1_000_000), 1024);
    assert_eq!(throughput(1024, 0), 1_000_000);
    assert_eq!(rates(), [20, 25, 40]);
}

#[test]
fn a_measurement_reads_each_figure_whole() {
    let mut measure = Measure::new(100);
    assert_eq!(measure.ask(), Ask::SetRate(20));
    measure.rate_set(true);
    let mut blocks = 0;
    let bytes: Vec<u8> = vec![0xA5; 4096];
    let mut reports = Vec::new();
    loop {
        match measure.ask() {
            Ask::SetRate(mhz) => measure.rate_set(mhz != 25),
            Ask::Read { lba, blocks: run } => {
                assert_eq!(lba, 100 + blocks % 512);
                blocks += run;
                measure.read(Some(&bytes[..run as usize * 512]));
            }
            Ask::Report { mhz, how, sum } => {
                reports.push((mhz, how, sum));
                measure.reported();
            }
            Ask::DefaultRate => break,
        }
    }
    assert_eq!(blocks, 4 * 512);
    let figures: Vec<(u32, How)> = reports.iter().map(|r| (r.0, r.1)).collect();
    assert_eq!(
        figures,
        vec![
            (20, How::OneBlock),
            (20, How::EightBlocks),
            (40, How::OneBlock),
            (40, How::EightBlocks)
        ]
    );
    assert!(reports.iter().all(|r| r.2.is_some() && r.2 == reports[0].2));
}

#[test]
fn a_pattern_carries_its_address() {
    let mut sector = [0u8; 512];
    fill(&mut sector, 0x0102_0304, 0x5A);
    assert_eq!(sector[..4], [0x04, 0x03, 0x02, 0x01]);
    let mixed = 0x0102_0304u32.wrapping_mul(31);
    assert_eq!(sector[300], (mixed ^ 300) as u8 ^ 0x5A);
    let run = run_bytes(5, 1);
    assert_eq!(run.len(), 32_768);
    assert_eq!(run[512..516], [6, 0, 0, 0]);
    assert_eq!(rate(1_000_000), 32);
}

#[test]
fn a_stale_pattern_differs_in_every_byte() {
    let (mut fresh, mut stale) = ([0u8; 512], [0u8; 512]);
    fill(&mut fresh, 0x0102_0304, 0x3C);
    fill(&mut stale, 0x0102_0304, 0x5A);
    assert_eq!(fresh[..4], stale[..4]);
    assert_eq!(fresh[..4], 0x0102_0304u32.to_le_bytes());
    assert!((4..512).all(|i| fresh[i] != stale[i]));
}

#[test]
fn a_checksum_notices_a_swap_and_a_change() {
    let plain = checksum(0, &[9, 1, 2, 7]);
    assert_ne!(plain, checksum(0, &[9, 2, 1, 7]));
    assert_ne!(plain, checksum(0, &[9, 1, 3, 7]));
}

#[test]
fn patterns_pass_if_they_read_back() {
    let mut patterns = Patterns::new(9);
    while !matches!(patterns.stage, PatternStage::Passed | PatternStage::Failed) {
        let bytes = patterns.bytes();
        patterns.step(Some(&bytes));
    }
    assert_eq!(patterns.stage, PatternStage::Passed);
    let mut broken = Patterns::new(9);
    let mut bytes = broken.bytes();
    bytes[17] ^= 1;
    broken.step(Some(&bytes));
    assert_eq!(broken.stage, PatternStage::Failed);
    let mut lost = Patterns::new(9);
    lost.step(None);
    assert_eq!(lost.stage, PatternStage::Failed);
}

fn layout(fat32: bool) -> Layout {
    Layout { fat32, sectors_per_cluster: 32, clusters: 200, fat_start: 10, data_start: 100 }
}

#[test]
fn a_table_entry_is_read_from_its_sector() {
    let mut table = Table::new(layout(true));
    assert_eq!(table.wanted(130), Some(11));
    let mut bytes = [0u8; 512];
    bytes[8..12].copy_from_slice(&[0x78, 0x56, 0x34, 0xF2]);
    table.loaded(11, bytes);
    assert_eq!(table.wanted(130), None);
    assert_eq!(table.entry(130), 0x0234_5678);
    table.forget();
    assert_eq!(table.wanted(130), Some(11));
    let mut old = Table::new(layout(false));
    old.loaded(10, bytes);
    assert_eq!(old.entry(4), 0x5678);
}

#[test]
fn the_highest_free_run_is_found() {
    // Clusters 2 to 9; 4, 5 and 8, 9 are free.
    let entries = [0u32, 0, 1, 1, 0, 0, 1, 1, 0, 0];
    let mut search = FreeRun::new(8, 2);
    let mut found = None;
    while let Some(cluster) = search.wanted() {
        found = search.feed(entries[cluster as usize]);
        if found.is_some() {
            break;
        }
    }
    assert_eq!(found, Some(8));
    let mut search = FreeRun::new(8, 3);
    let mut found = None;
    while let Some(cluster) = search.wanted() {
        found = search.feed(entries[cluster as usize]);
    }
    assert_eq!(found, None);
}

#[test]
fn a_write_test_puts_everything_back() {
    let mut run = WriteRun::new(layout(true));
    assert_eq!(run.needed(), 2);
    run.step(WriteEvent::Searched(Some(50)));
    assert_eq!(run.lba(), 100 + 48 * 32);
    run.step(WriteEvent::Kept);
    run.step(WriteEvent::Patterned(true));
    assert_eq!(run.stage, WriteStage::Restore);
    run.step(WriteEvent::Restored { same: true });
    assert_eq!(run.stage, WriteStage::Table(50));
    run.step(WriteEvent::Entry(0));
    assert_eq!(run.stage, WriteStage::Table(51));
    run.step(WriteEvent::Entry(0));
    run.step(WriteEvent::Listed);
    assert_eq!(run.stage, WriteStage::Done(true));
}

#[test]
fn a_write_test_restores_even_after_a_failure() {
    let mut run = WriteRun::new(layout(true));
    run.step(WriteEvent::Searched(Some(50)));
    run.step(WriteEvent::Kept);
    run.step(WriteEvent::Error);
    assert_eq!(run.stage, WriteStage::Restore);
    run.step(WriteEvent::Restored { same: true });
    run.step(WriteEvent::Entry(0));
    run.step(WriteEvent::Entry(0));
    run.step(WriteEvent::Listed);
    assert_eq!(run.stage, WriteStage::Done(false));
    let mut full = WriteRun::new(layout(true));
    full.step(WriteEvent::Searched(None));
    assert_eq!(full.stage, WriteStage::Done(false));
}

/// Reads or writes through the stream, with a disk of sectors behind it.
fn serve(storage: &mut Storage, disk: &mut [[u8; 512]], next: Next) -> bool {
    match next {
        Next::WriteBack { lba } => {
            disk[lba as usize] = storage.sector;
            storage.written_back();
            true
        }
        Next::Load { lba } => {
            storage.loaded(disk[lba as usize]);
            true
        }
        _ => false,
    }
}

fn read_all(storage: &mut Storage, disk: &mut [[u8; 512]], mut len: usize) -> Vec<u8> {
    let mut out = Vec::new();
    while len > 0 {
        let next = storage.next_read(len);
        if serve(storage, disk, next) {
            continue;
        }
        let moved = match next {
            Next::Run { lba, bytes } => {
                for k in 0..bytes / 512 {
                    out.extend_from_slice(&disk[lba as usize + k]);
                }
                storage.ran(bytes);
                bytes
            }
            _ => {
                let mut buffer = vec![0; len];
                let bytes = storage.copy_out(&mut buffer);
                out.extend_from_slice(&buffer[..bytes]);
                bytes
            }
        };
        len -= moved;
    }
    out
}

fn write_all(storage: &mut Storage, disk: &mut [[u8; 512]], mut bytes: &[u8]) {
    while !bytes.is_empty() {
        let next = storage.next_write(bytes.len());
        if serve(storage, disk, next) {
            continue;
        }
        let moved = match next {
            Next::Run { lba, bytes: run } => {
                for k in 0..run / 512 {
                    disk[lba as usize + k].copy_from_slice(&bytes[k * 512..k * 512 + 512]);
                }
                storage.ran(run);
                run
            }
            _ => storage.copy_in(&bytes.to_vec()),
        };
        bytes = &bytes[moved..];
    }
}

#[test]
fn a_read_hands_back_what_was_written() {
    let mut disk = vec![[0u8; 512]; 12];
    let mut storage = Storage::new(2);
    let text: Vec<u8> = (0..2000u32).map(|i| (i % 241) as u8).collect();
    assert_eq!(storage.seek(SeekFrom::Start(700)), Ok(700));
    write_all(&mut storage, &mut disk, &text);
    assert_eq!(storage.position, 2700);
    assert_eq!(storage.seek(SeekFrom::Start(700)), Ok(700));
    assert_eq!(read_all(&mut storage, &mut disk, 2000), text);
    while let Some(next) = storage.write_back() {
        assert!(serve(&mut storage, &mut disk, next));
    }
    assert!(storage.in_reach(usize::MAX / 2_000_000_000));
    storage.position = u64::from(u32::MAX - 2) * 512;
    assert!(storage.in_reach(511) && !storage.in_reach(512));
    storage.position = u64::MAX;
    assert!(!storage.in_reach(0));
    let flat: Vec<u8> = disk.concat();
    assert_eq!(flat[1024 + 700..1024 + 2700], text[..]);
    assert!(flat[..1024 + 700].iter().all(|b| *b == 0));
}

#[test]
fn seeking_stays_in_the_partition() {
    let mut storage = Storage::new(0);
    assert_eq!(storage.seek(SeekFrom::Start(100)), Ok(100));
    assert_eq!(storage.seek(SeekFrom::Current(-40)), Ok(60));
    assert_eq!(storage.seek(SeekFrom::Current(-61)), Err(SeekError));
    assert_eq!(storage.seek(SeekFrom::End(0)), Err(SeekError));
    assert_eq!(storage.position, 60);
    assert_eq!(storage.here(), (0, 60));
}

fn found(name: &str, directory: bool) -> Event {
    Event::Found(Entry {
        name: String::from(name),
        directory,
        size: 10_000,
        created: Some(if directory { clock() } else { created() }),
        modified: Some(modified()),
    })
}

fn good_events() -> Vec<Event> {
    vec![
        Event::Mounted { fat32: true },
        Event::Counted(7),
        Event::Boot([0; 512]),
        Event::NotFound,
        Event::Wrote { lost: false },
        Event::Mounted { fat32: true },
        Event::Boot([0; 512]),
        found(DIR, true),
        found(FILE, false),
        Event::Bytes(contents()),
        Event::Wrote { lost: false },
        Event::Mounted { fat32: true },
        Event::Boot([0; 512]),
        Event::NotFound,
        Event::Counted(7),
    ]
}

#[test]
fn a_filesystem_passes_if_everything_is_seen() {
    let mut run = FatRun::new();
    for event in good_events() {
        run.step(&event);
    }
    assert_eq!(run.stage, Stage::Passed);
}

#[test]
fn any_failure_fails_the_filesystem() {
    // The first look only has to find nothing, so an error there is as good as any.
    for n in (0..15).filter(|n| *n != 3) {
        let mut run = FatRun::new();
        for (k, event) in good_events().into_iter().enumerate() {
            run.step(if k == n { &Event::Error } else { &event });
        }
        assert_eq!(run.stage, Stage::Failed);
    }
    let mut run = FatRun::new();
    let mut events = good_events();
    events[14] = Event::Counted(8);
    for event in events {
        run.step(&event);
    }
    assert_eq!(run.stage, Stage::Failed);
    let mut run = FatRun::new();
    let mut events = good_events();
    events[3] = found(DIR, true);
    for event in events {
        run.step(&event);
    }
    assert_eq!(run.stage, Stage::Failed);
}

#[test]
fn flags_lie_where_the_filesystem_keeps_them() {
    let mut boot = [0u8; 512];
    boot[0x41] = 1;
    boot[0x25] = 2;
    assert_eq!(volume_flags(&boot, true), 1);
    assert_eq!(volume_flags(&boot, false), 2);
    assert_eq!(same_flags(1, 1), Ok(()));
    assert_eq!(same_flags(1, 0), Err(()));
    assert_eq!(written_back(false), Ok(()));
    assert_eq!(written_back(true), Err(()));
    assert_eq!(check::<u8, &str>(Ok(4)), Ok(4));
    assert_eq!(check::<u8, &str>(Err("x")), Err(()));
    assert_eq!(contents()[251], 0);
    assert_eq!(contents()[40], 29);
}

#[test]
fn a_layout_lies_within_the_block_numbers() {
    assert!(layout(true).in_range() && layout(false).in_range());
    assert!(!Layout { sectors_per_cluster: 0, ..layout(true) }.in_range());
    assert!(!Layout { clusters: u32::MAX / 4, ..layout(true) }.in_range());
    assert!(!Layout { fat_start: u32::MAX, ..layout(true) }.in_range());
    assert!(Layout { data_start: u32::MAX - 6399, ..layout(true) }.in_range());
    assert!(!Layout { data_start: u32::MAX - 6398, ..layout(true) }.in_range());
}
