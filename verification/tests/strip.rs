use iced_digraph::color::byte_value_color;
use iced_digraph::strip::{
    average_byte, effective_bytes_per_row, paint_strip, strip_row_count, Strip,
    MAX_DRAW_STRIP_ROWS, MAX_SEGMENTS_PER_ROW,
};

#[test]
fn row_counts() {
    assert_eq!(strip_row_count(0, 64), 1);
    assert_eq!(strip_row_count(1, 64), 1);
    assert_eq!(strip_row_count(64, 64), 1);
    assert_eq!(strip_row_count(65, 64), 2);
    assert_eq!(strip_row_count(10, 0), 10);
    assert_eq!(strip_row_count(usize::MAX, 1), usize::MAX);
}

#[test]
fn packing_is_kept_for_small_files() {
    assert_eq!(effective_bytes_per_row(0, 64), 1);
    assert_eq!(effective_bytes_per_row(10, 0), 1);
    assert_eq!(effective_bytes_per_row(2048 * 64, 64), 64);
    assert_eq!(effective_bytes_per_row(2048 * 64, 100), 100);
    assert_eq!(effective_bytes_per_row(usize::MAX, usize::MAX), usize::MAX);
}

#[test]
fn packing_is_raised_for_large_files() {
    assert_eq!(effective_bytes_per_row(2048 * 64 + 1, 64), 65);
    assert_eq!(effective_bytes_per_row(1_000_000, 64), 489);
    assert_eq!(effective_bytes_per_row(2049, 0), 2);
    for n in [1usize, 2047, 2048, 2049, 131_072, 131_073, 10_000_000, usize::MAX] {
        let eff = effective_bytes_per_row(n, 64);
        let rows = (n - 1) / eff + 1;
        assert!(rows <= MAX_DRAW_STRIP_ROWS);
    }
}

#[test]
fn averages_round_down() {
    assert_eq!(average_byte(&[]), 0);
    assert_eq!(average_byte(&[7]), 7);
    assert_eq!(average_byte(&[1, 2]), 1);
    assert_eq!(average_byte(&[255, 255, 254]), 254);
    assert_eq!(average_byte(&vec![200u8; 100_000]), 200);
}

#[test]
fn averages_of_large_chunks_do_not_overflow() {
    assert_eq!(average_byte(&vec![255u8; 17_000_000]), 255);
}

#[test]
fn nothing_to_show() {
    assert!(matches!(paint_strip(Some(&[]), 0, 64), Strip::Blank));
    assert!(matches!(paint_strip(None, 10, 64), Strip::Blank));
    assert!(matches!(paint_strip(None, 0, 64), Strip::Blank));
}

#[test]
fn placeholder_until_the_bytes_are_there() {
    assert!(matches!(paint_strip(Some(&[1, 2]), 3, 64), Strip::Placeholder));
    assert!(matches!(paint_strip(Some(&[1, 2, 3]), 3, 64), Strip::Bands { .. }));
}

#[test]
fn short_bands_show_each_byte() {
    let bytes: Vec<u8> = vec![0, 64, 128, 192, 255];
    match paint_strip(Some(&bytes), 5, 2) {
        Strip::Bands { rows, bands } => {
            assert_eq!(rows, 3);
            assert_eq!(bands.len(), 3);
            assert_eq!(bands[0], vec![byte_value_color(0), byte_value_color(64)]);
            assert_eq!(bands[1], vec![byte_value_color(128), byte_value_color(192)]);
            assert_eq!(bands[2], vec![byte_value_color(255)]);
        }
        _ => panic!("bands expected"),
    }
}

#[test]
fn bytes_beyond_the_file_are_not_shown() {
    match paint_strip(Some(&[9, 8, 7]), 2, 64) {
        Strip::Bands { rows, bands } => {
            assert_eq!(rows, 1);
            assert_eq!(bands, vec![vec![byte_value_color(9), byte_value_color(8)]]);
        }
        _ => panic!("bands expected"),
    }
}

#[test]
fn long_bands_merge_bytes() {
    let bytes: Vec<u8> = (0..300u32).map(|i| (i % 251) as u8).collect();
    match paint_strip(Some(&bytes), 300, 1000) {
        Strip::Bands { rows, bands } => {
            assert_eq!(rows, 1);
            assert_eq!(bands.len(), 1);
            assert_eq!(bands[0].len(), MAX_SEGMENTS_PER_ROW);
            let mut covered = 0;
            for s in 0..128usize {
                let (t0, t1) = (s * 300 / 128, (s + 1) * 300 / 128);
                assert_eq!(t0, covered);
                assert!(t0 < t1);
                assert_eq!(bands[0][s], byte_value_color(average_byte(&bytes[t0..t1])));
                covered = t1;
            }
            assert_eq!(covered, 300);
        }
        _ => panic!("bands expected"),
    }
}

#[test]
fn a_large_file_stays_small_on_screen() {
    let n = 300_000usize;
    let bytes: Vec<u8> = vec![17; n];
    match paint_strip(Some(&bytes), n, 64) {
        Strip::Bands { rows, bands } => {
            assert_eq!(rows, 2041);
            assert_eq!(bands.len(), 2041);
            for band in &bands {
                assert!(!band.is_empty() && band.len() <= MAX_SEGMENTS_PER_ROW);
                assert!(band.iter().all(|c| *c == byte_value_color(17)));
            }
        }
        _ => panic!("bands expected"),
    }
}
