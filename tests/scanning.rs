use undump::batch::{Batched, Pull};
use undump::format::{classify_block, classify_prefix, header_from_prefix, FormatTag, HEADER_LEN};
use undump::mode::{Mode, UsageError};
use undump::scan::{scan_one, tally};
use undump::stats::Stats;

const PNG_MAGIC: &[u8] = b"\x89PNG\r\n\x1a\n";
const GIF_MAGIC: &[u8] = b"GIF89a";

fn png_header() -> Vec<u8> {
    let mut v = PNG_MAGIC.to_vec();
    v.extend_from_slice(&[0x00, 0x00, 0x00, 0x0d, b'I', b'H', b'D', b'R']);
    v
}

fn noise() -> Vec<u8> {
    b"zq random text that no decoder claims".to_vec()
}

/// Pulls everything through a buffer of capacity `cap` in front of `items`,
/// asking the producer only when the buffer says so.
fn pull_all(items: Vec<u32>, cap: usize) -> Vec<u32> {
    let mut source = items.into_iter();
    let mut b: Batched<u32> = Batched::new(cap);
    let mut out = Vec::new();
    loop {
        let next = match b.next() {
            Pull::Item(x) => Some(x),
            Pull::Refill(n) => {
                assert_eq!(n, cap);
                let more: Vec<u32> = source.by_ref().take(n).collect();
                b.refill(more)
            }
        };
        match next {
            Some(x) => out.push(x),
            None => break,
        }
    }
    out
}

#[test]
fn batched_round_trip_capacity_one() {
    let items: Vec<u32> = (0..7).collect();
    assert_eq!(pull_all(items.clone(), 1), items);
}

#[test]
fn batched_round_trip_small_capacity() {
    let items: Vec<u32> = (10..21).collect();
    assert_eq!(pull_all(items.clone(), 4), items);
}

#[test]
fn batched_round_trip_capacity_beyond_length() {
    let items: Vec<u32> = vec![5, 3, 5, 9];
    assert_eq!(pull_all(items.clone(), 4096), items);
}

#[test]
fn batched_round_trip_empty_source() {
    assert_eq!(pull_all(Vec::new(), 3), Vec::<u32>::new());
}

#[test]
fn batched_room_and_reload() {
    let mut b: Batched<u32> = Batched::new(3);
    assert_eq!(b.room(), 3);
    b.reload(vec![1, 2]);
    assert_eq!(b.room(), 1);
    match b.next() {
        Pull::Item(x) => assert_eq!(x, 1),
        Pull::Refill(_) => panic!("buffer holds items"),
    }
    assert_eq!(b.room(), 2);
}

#[test]
fn batched_refill_with_nothing_is_the_end() {
    let mut b: Batched<u32> = Batched::new(2);
    match b.next() {
        Pull::Refill(n) => assert_eq!(n, 2),
        Pull::Item(_) => panic!("buffer is empty"),
    }
    assert_eq!(b.refill(Vec::new()), None);
}

#[test]
fn shared_cursor_hands_each_item_once() {
    // Workers take turns in an uneven pattern; each pull goes through the
    // one buffer, as under the cursor's lock.
    let items: Vec<u32> = (0..100).map(|i| i % 17).collect();
    let mut source = items.clone().into_iter();
    let mut b: Batched<u32> = Batched::new(8);
    let workers = 5;
    let mut got: Vec<Vec<u32>> = vec![Vec::new(); workers];
    let mut turn = 0usize;
    let mut finished = 0;
    while finished < workers {
        let w = (turn * 3 + turn / 7) % workers;
        turn += 1;
        let next = match b.next() {
            Pull::Item(x) => Some(x),
            Pull::Refill(n) => b.refill(source.by_ref().take(n).collect()),
        };
        match next {
            Some(x) => got[w].push(x),
            None => finished += 1,
        }
    }
    let mut all: Vec<u32> = got.into_iter().flatten().collect();
    let mut expected = items;
    all.sort();
    expected.sort();
    assert_eq!(all, expected);
}

#[test]
fn header_is_padded_with_zeros() {
    let h = header_from_prefix(b"abc");
    assert_eq!(h.len(), HEADER_LEN);
    assert_eq!(&h[..3], b"abc");
    assert!(h[3..].iter().all(|&b| b == 0));
}

#[test]
fn header_is_cut_to_length() {
    let long: Vec<u8> = (0..1000u32).map(|i| (i % 251) as u8).collect();
    let h = header_from_prefix(&long);
    assert_eq!(h, long[..HEADER_LEN].to_vec());
}

#[test]
fn classify_recognises_png_and_gif() {
    assert_eq!(classify_block(&png_header()), Some(FormatTag { code: 3 }));
    assert_eq!(classify_block(GIF_MAGIC), Some(FormatTag { code: 0 }));
    assert_ne!(classify_block(&png_header()), classify_block(GIF_MAGIC));
}

#[test]
fn classify_rejects_noise() {
    assert_eq!(classify_block(&noise()), None);
    assert_eq!(classify_prefix(&noise()), None);
    assert_eq!(classify_prefix(&[]), None);
}

#[test]
fn classify_short_prefix_still_recognised() {
    assert_eq!(classify_prefix(PNG_MAGIC), Some(FormatTag { code: 3 }));
}

#[test]
fn stats_start_empty() {
    let s = Stats::new();
    assert_eq!(s.total(), 0);
    assert!(s.counts().is_empty());
}

#[test]
fn stats_record_counts_seen_and_format() {
    let mut s = Stats::new();
    let png = FormatTag { code: 3 };
    s.record(Some(png));
    s.record(None);
    s.file();
    s.add(png);
    assert_eq!(s.total(), 3);
    assert_eq!(s.count(png), 2);
    assert_eq!(s.count(FormatTag { code: 0 }), 0);
    assert_eq!(s.counts(), vec![(png, 2)]);
}

#[test]
fn stats_counts_listed_by_code() {
    let mut s = Stats::new();
    for code in [7u8, 2, 7, 255, 0] {
        s.record(Some(FormatTag { code }));
    }
    assert_eq!(
        s.counts(),
        vec![
            (FormatTag { code: 0 }, 1),
            (FormatTag { code: 2 }, 1),
            (FormatTag { code: 7 }, 2),
            (FormatTag { code: 255 }, 1)
        ]
    );
}

#[test]
fn scan_one_counts_unopened_file_as_seen() {
    let mut s = Stats::new();
    assert_eq!(scan_one(&mut s, &None), None);
    assert_eq!(s.total(), 1);
    assert!(s.counts().is_empty());
}

#[test]
fn scan_one_counts_recognised_file() {
    let mut s = Stats::new();
    assert_eq!(scan_one(&mut s, &Some(png_header())), Some(FormatTag { code: 3 }));
    assert_eq!(s.total(), 1);
    assert_eq!(s.counts(), vec![(FormatTag { code: 3 }, 1)]);
}

#[test]
fn run_three_known_two_unknown() {
    let reads = vec![
        Some(png_header()),
        Some(noise()),
        Some(png_header()),
        Some(b"\x01\x02\x03\x04\x05".to_vec()),
        Some(png_header()),
    ];
    let s = tally(&reads);
    assert_eq!(s.total(), 5);
    assert_eq!(s.counts(), vec![(FormatTag { code: 3 }, 3)]);
}

#[test]
fn run_over_empty_directory() {
    let s = tally(&Vec::new());
    assert_eq!(s.total(), 0);
    assert!(s.counts().is_empty());
}

#[test]
fn run_total_covers_every_path() {
    let reads = vec![None, Some(Vec::new()), Some(GIF_MAGIC.to_vec()), None, Some(png_header())];
    let s = tally(&reads);
    assert_eq!(s.total(), 5);
    let classified: u64 = s.counts().iter().map(|(_, n)| *n).sum();
    assert_eq!(classified, 2);
    assert!(s.total() >= classified);
}

fn args(v: &[&str]) -> Vec<String> {
    v.iter().map(|s| s.to_string()).collect()
}

#[test]
fn mode_plain_directory() {
    assert_eq!(Mode::parse(args(&["dir"])), Ok(Mode::Dir("dir".to_string())));
}

#[test]
fn mode_recurse_flags() {
    assert_eq!(Mode::parse(args(&["-r", "d"])), Ok(Mode::Recurse("d".to_string())));
    assert_eq!(Mode::parse(args(&["--recurse", "d"])), Ok(Mode::Recurse("d".to_string())));
}

#[test]
fn mode_open_all_flags() {
    assert_eq!(Mode::parse(args(&["-o", "d"])), Ok(Mode::OpenAll("d".to_string())));
    let m = Mode::parse(args(&["--open-all", "d"])).unwrap();
    assert!(m.offload());
    assert!(m.recursive());
    assert_eq!(m.path(), "d");
}

#[test]
fn mode_missing_path() {
    assert_eq!(Mode::parse(Vec::new()), Err(UsageError::MissingPath));
}

#[test]
fn mode_bad_arguments() {
    assert_eq!(Mode::parse(args(&["-x", "d"])), Err(UsageError::BadArguments));
    assert_eq!(Mode::parse(args(&["-r", "-o", "d"])), Err(UsageError::BadArguments));
    assert_eq!(Mode::from_args("d".to_string(), args(&["-R"])), Err(UsageError::BadArguments));
}

#[test]
fn mode_plain_directory_is_not_recursive() {
    let m = Mode::from_args("d".to_string(), Vec::new()).unwrap();
    assert!(!m.recursive());
    assert!(!m.offload());
}
