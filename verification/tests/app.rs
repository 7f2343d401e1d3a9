use iced_digraph::app::{
    blank_pixels, loaded_len, modes, palettes, pick_result, scales, App, Effect, Heatmap,
    HeatmapPalette, Message, Mode, Percent, PickOutcome, RenderParams, Scale,
};
use iced_digraph::coord::Coord;
use iced_digraph::minimap::RangeChanged;
use iced_digraph::strip::Strip;

fn c(x: f32) -> Coord {
    Coord { bits: x.to_bits() }
}

fn viewer(bytes: &Vec<u8>) -> App {
    App::init("sample.bin".to_string(), bytes, HeatmapPalette::Viridis).0
}

fn loading() -> (App, Vec<u8>) {
    let mut bytes = vec![1, 2, 3];
    let mut app = viewer(&bytes);
    app.update(Some(&mut bytes), Message::FilePickResult(Ok("other.bin".to_string())));
    (app, bytes)
}

#[test]
fn initial_state() {
    let bytes = vec![1, 2, 3];
    let (app, effect) = App::init("sample.bin".to_string(), &bytes, HeatmapPalette::Viridis);
    assert_eq!(effect, Effect::RecomputeImage);
    assert_eq!(app.path, "sample.bin");
    assert_eq!(app.file_total_len, 3);
    assert!(app.active_load.is_none());
    assert_eq!(app.load_gen, 0);
    assert_eq!(app.mode, Mode::NonOverlapping);
    assert_eq!(app.palette, HeatmapPalette::Viridis);
    assert_eq!(app.scale, Scale::CantorDust);
    assert_eq!(app.cell_slider, 2);
    assert_eq!(app.rail_bytes_per_row, 64);
    assert_eq!(app.rail_strip_generation, 1);
    assert_eq!(app.range_start_norm, c(0.0));
    assert_eq!(app.range_end_norm, c(1.0));
}

#[test]
fn settings() {
    let mut bytes = vec![1, 2, 3];
    let mut app = viewer(&bytes);
    let e = app.update(Some(&mut bytes), Message::Palette(HeatmapPalette::Gray));
    assert_eq!((app.palette, e), (HeatmapPalette::Gray, Effect::RecomputeImage));
    let e = app.update(Some(&mut bytes), Message::Mode(Mode::Overlapping));
    assert_eq!((app.mode, e), (Mode::Overlapping, Effect::RecomputeImage));
    let e = app.update(Some(&mut bytes), Message::Scale(Scale::Log1p));
    assert_eq!((app.scale, e), (Scale::Log1p, Effect::RecomputeImage));
    assert_eq!(bytes, vec![1, 2, 3]);
    assert_eq!(app.rail_strip_generation, 1);
    assert_eq!(app.file_total_len, 3);
}

#[test]
fn picking_a_file() {
    let mut bytes = vec![1, 2, 3];
    let mut app = viewer(&bytes);
    assert_eq!(app.update(Some(&mut bytes), Message::PickFile), Effect::PickFile);
    app.range_start_norm = c(0.5);
    let picked = Message::FilePickResult(Ok("other.bin".to_string()));
    assert_eq!(app.update(Some(&mut bytes), picked), Effect::Nothing);
    assert!(bytes.is_empty());
    assert_eq!(app.path, "other.bin");
    assert_eq!(app.file_total_len, 0);
    assert_eq!((app.range_start_norm, app.range_end_norm), (c(0.0), c(1.0)));
    assert_eq!(app.load_gen, 1);
    assert_eq!(app.rail_strip_generation, 2);
    let key = app.subscription().unwrap();
    assert_eq!((key.gen, key.path.as_str()), (1, "other.bin"));
}

#[test]
fn picking_twice_changes_the_key() {
    let (mut app, mut bytes) = loading();
    let before = app.subscription().unwrap().gen;
    app.update(Some(&mut bytes), Message::FilePickResult(Ok("other.bin".to_string())));
    assert!(app.subscription().unwrap().gen != before);
    app.load_gen = u64::MAX;
    app.rail_strip_generation = u64::MAX;
    app.update(Some(&mut bytes), Message::FilePickResult(Ok("other.bin".to_string())));
    assert_eq!(app.subscription().unwrap().gen, 0);
    assert_eq!(app.rail_strip_generation, 0);
}

#[test]
fn canceling_changes_nothing() {
    let mut bytes = vec![1, 2, 3];
    let mut app = viewer(&bytes);
    let e = app.update(Some(&mut bytes), pick_result(PickOutcome::Canceled));
    assert_eq!(e, Effect::Nothing);
    assert_eq!(bytes, vec![1, 2, 3]);
    assert_eq!(app.path, "sample.bin");
    assert_eq!(app.file_total_len, 3);
    assert!(app.active_load.is_none());
    assert_eq!(app.rail_strip_generation, 1);
}

#[test]
fn answers_of_the_dialog() {
    match pick_result(PickOutcome::Picked("a".to_string())) {
        Message::FilePickResult(Ok(path)) => assert_eq!(path, "a"),
        _ => panic!("a path expected"),
    }
    match pick_result(PickOutcome::Canceled) {
        Message::FilePickResult(Err(reason)) => assert_eq!(reason, "canceled"),
        _ => panic!("a reason expected"),
    }
    match pick_result(PickOutcome::TaskFailed("gone".to_string())) {
        Message::FilePickResult(Err(reason)) => assert_eq!(reason, "task: gone"),
        _ => panic!("a reason expected"),
    }
}

#[test]
fn learning_the_size() {
    let (mut app, mut bytes) = loading();
    bytes.push(9);
    let e = app.update(Some(&mut bytes), Message::FileLoadMeta { total_len: 5000 });
    assert_eq!(e, Effect::Nothing);
    assert!(bytes.is_empty());
    assert!(bytes.capacity() >= 5000);
    assert_eq!(app.file_total_len, 5000);
    assert!(app.active_load.is_some());
    assert_eq!(app.rail_strip_generation, 3);
}

#[test]
fn an_empty_file_has_room() {
    let (mut app, mut bytes) = loading();
    let e = app.update(Some(&mut bytes), Message::FileLoadMeta { total_len: 0 });
    assert_eq!(e, Effect::Nothing);
    assert!(app.active_load.is_some());
}

#[test]
fn sizes_without_room_are_refused() {
    for total_len in [usize::MAX, isize::MAX as usize + 1, isize::MAX as usize] {
        let (mut app, mut bytes) = loading();
        let e = app.update(Some(&mut bytes), Message::FileLoadMeta { total_len });
        assert_eq!(e, Effect::RecomputeImage);
        assert!(bytes.is_empty());
        assert_eq!(app.file_total_len, 0);
        assert!(app.active_load.is_none());
        assert_eq!(app.rail_strip_generation, 3);
    }
}

#[test]
fn reservation_as_an_argument() {
    let (mut app, mut bytes) = loading();
    let msg = Message::FileLoadMeta { total_len: 10 };
    assert_eq!(app.apply(Some(&mut bytes), msg, false), Effect::RecomputeImage);
    assert_eq!(app.file_total_len, 0);
    assert!(app.active_load.is_none());
    let (mut app, mut bytes) = loading();
    let msg = Message::FileLoadMeta { total_len: 10 };
    assert_eq!(app.apply(Some(&mut bytes), msg, true), Effect::Nothing);
    assert_eq!(app.file_total_len, 10);
    assert!(app.active_load.is_some());
}

#[test]
fn chunks_fill_the_declared_size_only() {
    let (mut app, mut bytes) = loading();
    app.update(Some(&mut bytes), Message::FileLoadMeta { total_len: 4 });
    let generation = app.rail_strip_generation;
    assert_eq!(app.update(Some(&mut bytes), Message::FileLoadChunk(vec![1, 2])), Effect::Nothing);
    assert_eq!(app.rail_strip_generation, generation + 1);
    assert_eq!(app.update(Some(&mut bytes), Message::FileLoadChunk(vec![])), Effect::Nothing);
    assert_eq!(bytes, vec![1, 2]);
    assert_eq!(app.rail_strip_generation, generation + 1);
    app.update(Some(&mut bytes), Message::FileLoadChunk(vec![3, 4, 5]));
    assert_eq!(bytes, vec![1, 2, 3, 4]);
    assert_eq!(app.rail_strip_generation, generation + 2);
    app.update(Some(&mut bytes), Message::FileLoadChunk(vec![6]));
    assert_eq!(bytes, vec![1, 2, 3, 4]);
    assert_eq!(app.rail_strip_generation, generation + 2);
    assert_eq!(app.update(Some(&mut bytes), Message::FileLoadDone), Effect::RecomputeImage);
    assert_eq!(app.rail_strip_generation, generation + 3);
    assert!(app.active_load.is_none());
    assert_eq!(app.file_total_len, 4);
}

#[test]
fn a_failed_load_leaves_nothing() {
    let (mut app, mut bytes) = loading();
    app.update(Some(&mut bytes), Message::FileLoadMeta { total_len: 4 });
    app.update(Some(&mut bytes), Message::FileLoadChunk(vec![1, 2]));
    let e = app.update(Some(&mut bytes), Message::FileLoadErr("bad".to_string()));
    assert_eq!(e, Effect::RecomputeImage);
    assert!(bytes.is_empty());
    assert_eq!(app.file_total_len, 0);
    assert!(app.active_load.is_none());
}

#[test]
fn without_the_lock() {
    let mut app = viewer(&vec![1, 2, 3]);
    let e = app.update(None, Message::FilePickResult(Ok("x".to_string())));
    assert_eq!(e, Effect::Nothing);
    assert!(app.active_load.is_some());
    assert_eq!(app.update(None, Message::FileLoadChunk(vec![1])), Effect::Nothing);
    let e = app.update(None, Message::FileLoadMeta { total_len: 0 });
    assert_eq!(e, Effect::RecomputeImage);
    assert!(app.active_load.is_none());
    assert_eq!(app.recompute_image(None, 0, 1), Heatmap::Blank);
    assert_eq!(loaded_len(None), 0);
    assert_eq!(loaded_len(Some(&[1, 2])), 2);
    let blank = blank_pixels();
    assert_eq!((blank.width, blank.height, blank.rgba), (1, 1, vec![0, 0, 0, 255]));
}

#[test]
fn a_new_selection_is_clamped() {
    let mut bytes = vec![1, 2, 3];
    let mut app = viewer(&bytes);
    let r = RangeChanged { start: c(-0.5), end: c(1.5) };
    assert_eq!(app.update(Some(&mut bytes), Message::from(r)), Effect::RecomputeImage);
    assert_eq!((app.range_start_norm, app.range_end_norm), (c(0.0), c(1.0)));
    let r = RangeChanged { start: c(0.25), end: c(0.5) };
    app.update(Some(&mut bytes), Message::RangeChanged(r));
    assert_eq!((app.range_start_norm, app.range_end_norm), (c(0.25), c(0.5)));
}

#[test]
fn spans() {
    let app = viewer(&vec![0; 10]);
    assert_eq!(app.selection_span_bytes(7), 10);
    let (app, _) = loading();
    assert_eq!(app.selection_span_bytes(7), 0);
    let app = viewer(&Vec::new());
    assert_eq!(app.selection_span_bytes(0), 1);
    assert_eq!(app.selection_span_bytes(7), 7);
}

#[test]
fn selected_ranges() {
    let app = viewer(&vec![0; 10]);
    assert_eq!(app.selected_byte_range(10, 0, 10), (0, 10));
    assert_eq!(app.selected_byte_range(10, -5, 99), (0, 10));
    assert_eq!(app.selected_byte_range(10, 3, 7), (3, 7));
    assert_eq!(app.selected_byte_range(10, 7, 3), (7, 8));
    assert_eq!(app.selected_byte_range(10, 10, 10), (9, 10));
    assert_eq!(app.selected_byte_range(10, 0, 0), (0, 1));
    assert_eq!(app.selected_byte_range(10, i64::MAX, i64::MIN), (9, 10));
    let (app, _) = loading();
    assert_eq!(app.selected_byte_range(0, 0, 1), (0, 0));
}

#[test]
fn heatmaps() {
    let bytes: Vec<u8> = vec![0; 10];
    let mut app = viewer(&bytes);
    let render = |lo: usize, hi: usize, cell_pixels: u32| Heatmap::Render {
        lo,
        hi,
        mode: Mode::NonOverlapping,
        params: RenderParams {
            cell_pixels,
            scale: Scale::CantorDust,
            palette: HeatmapPalette::Viridis,
        },
    };
    assert_eq!(app.recompute_image(Some(&bytes), 2, 6), render(2, 6, 2));
    // Fewer bytes than declared.
    assert_eq!(app.recompute_image(Some(&bytes[..4]), 2, 6), render(2, 4, 2));
    assert_eq!(app.recompute_image(Some(&bytes[..1]), 2, 6), render(1, 1, 2));
    app.cell_slider = 0;
    assert_eq!(app.recompute_image(Some(&bytes), 2, 6), render(2, 6, 1));
    app.cell_slider = 9;
    assert_eq!(app.recompute_image(Some(&bytes), 2, 6), render(2, 6, 8));
    let empty = viewer(&Vec::new());
    assert_eq!(empty.recompute_image(Some(&[]), 0, 1), render(0, 0, 2));
}

#[test]
fn the_heatmap_waits_for_the_load() {
    let (app, bytes) = loading();
    assert_eq!(app.recompute_image(Some(&bytes), 0, 1), Heatmap::Keep);
    assert_eq!(app.recompute_image(None, 0, 1), Heatmap::Keep);
}

#[test]
fn progress() {
    let app = viewer(&vec![0; 10]);
    assert_eq!(app.load_percent(0), Percent { numerator: 0, denominator: 10 });
    assert_eq!(app.load_percent(3), Percent { numerator: 300, denominator: 10 });
    assert_eq!(app.load_percent(10), Percent { numerator: 1000, denominator: 10 });
    assert_eq!(app.load_percent(11), Percent { numerator: 1000, denominator: 10 });
    let app = viewer(&Vec::new());
    assert_eq!(app.load_percent(5), Percent { numerator: 0, denominator: 1 });
}

#[test]
fn the_window_of_a_loaded_file() {
    let mut app = viewer(&vec![0; 10]);
    let screen = app.view(10);
    assert_eq!(screen.palette, HeatmapPalette::Viridis);
    assert_eq!(screen.mode, Mode::NonOverlapping);
    assert_eq!(screen.scale, Scale::CantorDust);
    assert!(!screen.reading_size);
    assert_eq!(screen.progress, None);
    assert_eq!(screen.rail.total_len, 10);
    assert_eq!(screen.rail.row_width, c(100.0));
    assert_eq!(screen.rail.bytes_per_row, 64);
    assert_eq!(screen.rail.strip_generation, 1);
    assert_eq!(screen.rail.range_start_norm, c(0.0));
    assert_eq!(screen.rail.range_end_norm, c(1.0));
    app.rail_bytes_per_row = 0;
    assert_eq!(app.view(10).rail.bytes_per_row, 1);
    assert_eq!(viewer(&Vec::new()).view(7).rail.total_len, 7);
}

#[test]
fn the_window_during_a_load() {
    let (mut app, mut bytes) = loading();
    let screen = app.view(0);
    assert!(screen.reading_size);
    assert_eq!(screen.progress, Some(Percent { numerator: 0, denominator: 1 }));
    assert_eq!(screen.rail.total_len, 1);
    assert!(matches!(screen.rail.strip(Some(&bytes)), Strip::Placeholder));
    app.update(Some(&mut bytes), Message::FileLoadMeta { total_len: 4 });
    app.update(Some(&mut bytes), Message::FileLoadChunk(vec![1, 2, 3]));
    let screen = app.view(3);
    assert!(!screen.reading_size);
    assert_eq!(screen.progress, Some(Percent { numerator: 300, denominator: 4 }));
    assert!(matches!(screen.rail.strip(Some(&bytes)), Strip::Placeholder));
    app.update(Some(&mut bytes), Message::FileLoadChunk(vec![4]));
    assert!(matches!(app.view(4).rail.strip(Some(&bytes)), Strip::Bands { .. }));
}

#[test]
fn a_load_that_falls_short_ends_with_the_true_size() {
    let (mut app, mut bytes) = loading();
    app.update(Some(&mut bytes), Message::FileLoadMeta { total_len: 10 });
    app.update(Some(&mut bytes), Message::FileLoadChunk(vec![7, 8, 9]));
    assert!(matches!(app.view(3).rail.strip(Some(&bytes)), Strip::Placeholder));
    let generation = app.rail_strip_generation;
    app.update(Some(&mut bytes), Message::FileLoadDone);
    assert_eq!(bytes, vec![7, 8, 9]);
    assert_eq!(app.file_total_len, 3);
    assert_eq!(app.rail_strip_generation, generation + 1);
    assert_eq!(app.selection_span_bytes(3), 3);
    match app.view(3).rail.strip(Some(&bytes)) {
        Strip::Bands { rows, bands } => {
            assert_eq!(rows, 1);
            assert_eq!(bands[0].len(), 3);
        }
        _ => panic!("bands expected"),
    }
    match app.recompute_image(Some(&bytes), 0, 3) {
        Heatmap::Render { lo, hi, .. } => assert_eq!((lo, hi), (0, 3)),
        _ => panic!("a heatmap expected"),
    }
}

#[test]
fn a_load_of_nothing_ends_blank() {
    let (mut app, mut bytes) = loading();
    app.update(Some(&mut bytes), Message::FileLoadMeta { total_len: 10 });
    app.update(Some(&mut bytes), Message::FileLoadDone);
    assert_eq!(app.file_total_len, 0);
    assert!(matches!(app.view(0).rail.strip(Some(&bytes)), Strip::Blank));
}

#[test]
fn a_load_that_ends_without_the_lock_keeps_the_declared_size() {
    let (mut app, mut bytes) = loading();
    app.update(Some(&mut bytes), Message::FileLoadMeta { total_len: 10 });
    app.update(Some(&mut bytes), Message::FileLoadChunk(vec![7, 8, 9]));
    let generation = app.rail_strip_generation;
    app.update(None, Message::FileLoadChunk(vec![1]));
    assert_eq!(app.rail_strip_generation, generation);
    assert_eq!(app.update(None, Message::FileLoadDone), Effect::RecomputeImage);
    assert_eq!(app.file_total_len, 10);
    assert_eq!(app.rail_strip_generation, generation + 1);
    assert!(app.active_load.is_none());
}

#[test]
fn what_can_be_chosen() {
    assert_eq!(
        palettes(),
        vec![
            HeatmapPalette::Magma,
            HeatmapPalette::Viridis,
            HeatmapPalette::Gray,
            HeatmapPalette::Matrix,
        ]
    );
    assert_eq!(modes(), vec![Mode::Overlapping, Mode::NonOverlapping]);
    assert_eq!(scales(), vec![Scale::Log1p, Scale::CantorDust]);
}

#[test]
fn the_whole_of_a_large_file_is_selected() {
    let mut app = viewer(&Vec::new());
    app.file_total_len = 16_777_217;
    assert_eq!(app.selected_byte_range(0, 0, 16_777_217), (0, 16_777_217));
}
