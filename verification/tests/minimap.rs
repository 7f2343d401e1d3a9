use iced_digraph::coord::Coord;
use iced_digraph::minimap::{
    min_gap, ordered, ByteRangeRail, DragKind, Interaction, Motion, Press, RailAction, RailEvent,
    RailState, RangeChanged, HANDLE_HALF_BITS,
};
use iced_digraph::strip::Strip;

fn c(x: f32) -> Coord {
    Coord { bits: x.to_bits() }
}

fn rail(start: f32, end: f32) -> ByteRangeRail {
    ByteRangeRail {
        range_start_norm: c(start),
        range_end_norm: c(end),
        total_len: 1000,
        row_width: c(100.0),
        bytes_per_row: 64,
        strip_generation: 1,
    }
}

/// A press at `y` on a rail that is `h` pixels high.
fn press(rail: &ByteRangeRail, y: f32, h: f32) -> RailEvent {
    let y_start = f32::from_bits(rail.range_start_norm.bits) * h;
    let y_end = f32::from_bits(rail.range_end_norm.bits) * h;
    RailEvent::LeftPressed(Some(Press {
        y: c(y),
        y_start: c(y_start),
        y_end: c(y_end),
        start_distance: c((y - y_start).abs()),
        end_distance: c((y - y_end).abs()),
    }))
}

/// The cursor at `y` on a rail that is `h` pixels high.
fn motion(state: &RailState, y: f32, h: f32) -> RailEvent {
    let gap = 1.0 / 4096.0f32;
    let y = y.clamp(0.0, h);
    let norm = (y / h).clamp(0.0, 1.0);
    let (a, b) = (f32::from_bits(state.anchor_start.bits), f32::from_bits(state.anchor_end.bits));
    let dy = (y - f32::from_bits(state.anchor_cursor_y.bits)) / h;
    RailEvent::CursorMoved(Some(Motion {
        norm: c(norm),
        norm_plus_gap: c(norm + gap),
        norm_minus_gap: c(norm - gap),
        shifted_start: c(a + dy),
        shifted_end: c(b + dy),
        width: c(b - a),
        one_minus_width: c(1.0 - (b - a)),
    }))
}

fn published(action: Option<RailAction>) -> (f32, f32) {
    match action {
        Some(RailAction::Publish(RangeChanged { start, end })) => {
            (f32::from_bits(start.bits), f32::from_bits(end.bits))
        }
        _ => panic!("a selection expected"),
    }
}

#[test]
fn ordering() {
    assert_eq!(ordered(c(1.0), c(2.0)), (c(1.0), c(2.0)));
    assert_eq!(ordered(c(2.0), c(1.0)), (c(1.0), c(2.0)));
    assert_eq!(ordered(c(2.0), c(2.0)), (c(2.0), c(2.0)));
    let (a, b) = ordered(c(f32::NAN), c(1.0));
    assert_eq!(a, c(1.0));
    assert!(b.not_a_number());
}

#[test]
fn least_gap() {
    assert_eq!(min_gap(0), 4096);
    assert_eq!(min_gap(1), 4096);
    assert_eq!(min_gap(4096), 4096);
    assert_eq!(min_gap(4097), 4097);
    for n in [0usize, 1, 7, 4095, 4096, 4097, 1_000_000, 16_777_217] {
        let gap = (1.0 / n.max(1) as f32).min(1.0 / 4096.0);
        assert_eq!(1.0 / min_gap(n) as f32, gap);
    }
}

#[test]
fn a_new_rail_is_idle() {
    let state = RailState::default();
    assert_eq!(state.drag, None);
    assert_eq!(state.strip_gen_baked, 0);
    assert_eq!(state.anchor_start, c(0.0));
    assert_eq!(state.anchor_end, c(0.0));
    assert_eq!(state.anchor_cursor_y, c(0.0));
    assert_eq!(rail(0.0, 1.0).mouse_interaction(&state), Interaction::Crosshair);
}

#[test]
fn handles_reach_six_pixels() {
    assert_eq!(f32::from_bits(HANDLE_HALF_BITS), 6.0);
    let r = rail(0.25, 0.75);
    let mut state = RailState::default();
    assert_eq!(r.update(&mut state, press(&r, 106.0, 400.0)), Some(RailAction::Capture));
    assert_eq!(state.drag, Some(DragKind::Start));
    let mut state = RailState::default();
    assert_eq!(r.update(&mut state, press(&r, 294.0, 400.0)), Some(RailAction::Capture));
    assert_eq!(state.drag, Some(DragKind::End));
    let mut state = RailState::default();
    assert_eq!(r.update(&mut state, press(&r, 106.5, 400.0)), Some(RailAction::Capture));
    assert_eq!(state.drag, Some(DragKind::Range));
    assert_eq!(state.anchor_start, c(0.25));
    assert_eq!(state.anchor_end, c(0.75));
    assert_eq!(state.anchor_cursor_y, c(106.5));
    let mut state = RailState::default();
    assert_eq!(r.update(&mut state, press(&r, 93.0, 400.0)), None);
    assert_eq!(state, RailState::default());
}

#[test]
fn the_nearer_handle_wins() {
    let r = rail(0.5, 0.51);
    let mut state = RailState::default();
    r.update(&mut state, press(&r, 201.0, 400.0));
    assert_eq!(state.drag, Some(DragKind::Start));
    r.update(&mut state, press(&r, 203.0, 400.0));
    assert_eq!(state.drag, Some(DragKind::End));
    r.update(&mut state, press(&r, 202.0, 400.0));
    assert_eq!(state.drag, Some(DragKind::Start));
}

#[test]
fn a_press_outside_does_nothing() {
    let r = rail(0.25, 0.75);
    let mut state = RailState::default();
    assert_eq!(r.update(&mut state, RailEvent::LeftPressed(None)), None);
    assert_eq!(r.update(&mut state, RailEvent::Other), None);
    assert_eq!(state, RailState::default());
}

#[test]
fn nothing_is_published_without_a_drag() {
    let r = rail(0.25, 0.75);
    let mut state = RailState::default();
    let event = motion(&state, 10.0, 400.0);
    assert_eq!(r.update(&mut state, event), None);
    assert_eq!(r.update(&mut state, RailEvent::LeftReleased), None);
}

#[test]
fn a_drag_lasts_until_release() {
    let r = rail(0.25, 0.75);
    let mut state = RailState::default();
    r.update(&mut state, press(&r, 200.0, 400.0));
    let held = state;
    for y in [210.0, 0.0, 400.0, 37.0] {
        let event = motion(&state, y, 400.0);
        assert!(matches!(r.update(&mut state, event), Some(RailAction::Publish(_))));
        assert_eq!(r.update(&mut state, RailEvent::CursorMoved(None)), None);
        assert_eq!(r.update(&mut state, RailEvent::Other), None);
        assert_eq!(state, held);
    }
    assert_eq!(r.mouse_interaction(&state), Interaction::Grabbing);
    assert_eq!(r.update(&mut state, RailEvent::LeftReleased), Some(RailAction::Capture));
    assert_eq!(state.drag, None);
    assert_eq!(r.update(&mut state, RailEvent::LeftReleased), None);
}

#[test]
fn dragging_the_start() {
    let r = rail(0.25, 0.75);
    let mut state = RailState { drag: Some(DragKind::Start), ..RailState::default() };
    let event = motion(&state, 40.0, 400.0);
    assert_eq!(published(r.update(&mut state, event)), (0.1, 0.75));
    let event = motion(&state, 320.0, 400.0);
    assert_eq!(published(r.update(&mut state, event)), (0.8, 0.8 + 1.0 / 4096.0));
    let event = motion(&state, 400.0, 400.0);
    assert_eq!(published(r.update(&mut state, event)), (1.0, 1.0));
}

#[test]
fn dragging_the_end() {
    let r = rail(0.25, 0.75);
    let mut state = RailState { drag: Some(DragKind::End), ..RailState::default() };
    let event = motion(&state, 200.0, 400.0);
    assert_eq!(published(r.update(&mut state, event)), (0.25, 0.5));
    let event = motion(&state, 40.0, 400.0);
    assert_eq!(published(r.update(&mut state, event)), (0.1 - 1.0 / 4096.0, 0.1));
    let event = motion(&state, 0.0, 400.0);
    assert_eq!(published(r.update(&mut state, event)), (0.0, 0.0));
}

#[test]
fn a_selection_upside_down_is_put_right() {
    let r = rail(0.75, 0.25);
    let mut state = RailState { drag: Some(DragKind::Start), ..RailState::default() };
    let event = motion(&state, 200.0, 400.0);
    assert_eq!(published(r.update(&mut state, event)), (0.5, 0.75));
    assert_eq!(r.selection(), (c(0.25), c(0.75)));
}

#[test]
fn dragging_the_range() {
    let r = rail(0.25, 0.75);
    let mut state = RailState::default();
    r.update(&mut state, press(&r, 200.0, 400.0));
    let event = motion(&state, 250.0, 400.0);
    assert_eq!(published(r.update(&mut state, event)), (0.375, 0.875));
    let event = motion(&state, 0.0, 400.0);
    assert_eq!(published(r.update(&mut state, event)), (0.0, 0.5));
    let event = motion(&state, 400.0, 400.0);
    assert_eq!(published(r.update(&mut state, event)), (0.5, 1.0));
}

#[test]
fn a_dragged_range_keeps_its_length() {
    let r = rail(0.25, 0.5);
    let mut state = RailState::default();
    r.update(&mut state, press(&r, 150.0, 400.0));
    for step in 0..=80 {
        let before = state;
        let event = motion(&state, -100.0 + 7.5 * step as f32, 400.0);
        let (start, end) = published(r.update(&mut state, event));
        assert!(0.0 <= start && start <= end && end <= 1.0);
        assert!((end - start - 0.25).abs() <= 1.0e-6);
        assert_eq!(state, before);
    }
}

#[test]
fn a_dragged_range_is_moved_up_to_rounding() {
    let fine = 2.0f64.powi(-24);
    let r = rail(0.1, 0.7);
    let mut state = RailState::default();
    r.update(&mut state, press(&r, 130.0, 333.0));
    let (a, b) = (0.1f32 as f64, 0.7f32 as f64);
    for step in 0..=333 {
        let event = motion(&state, step as f32, 333.0);
        let shift = ((step as f32 - 130.0) / 333.0) as f64;
        let (start, end) = published(r.update(&mut state, event));
        let (start, end) = (start as f64, end as f64);
        assert!(0.0 <= start && start <= end && end <= 1.0);
        assert!((end - start - (b - a)).abs() <= 2.0 * fine);
        if start > 0.0 && end < 1.0 {
            assert!((start - a - shift).abs() <= fine);
            assert!((end - b - shift).abs() <= fine);
        }
    }
}

#[test]
fn a_dragged_handle_stays_in_the_rail() {
    let r = rail(0.25, 0.5);
    for kind in [DragKind::Start, DragKind::End] {
        let mut state = RailState { drag: Some(kind), ..RailState::default() };
        for step in 0..=80 {
            let before = state;
            let event = motion(&state, -100.0 + 7.5 * step as f32, 400.0);
            let (start, end) = published(r.update(&mut state, event));
            assert!(0.0 <= start && start <= end && end <= 1.0);
            assert_eq!(state, before);
        }
    }
}

#[test]
fn a_strip_is_painted_once_per_generation() {
    let mut r = rail(0.0, 1.0);
    let mut state = RailState::default();
    assert!(r.refresh(&mut state));
    assert!(!r.refresh(&mut state));
    r.strip_generation = 2;
    assert!(r.refresh(&mut state));
    assert_eq!(state.strip_gen_baked, 2);
}

#[test]
fn the_strip_of_a_rail() {
    let mut r = rail(0.0, 1.0);
    r.total_len = 130;
    assert!(matches!(r.strip(None), Strip::Blank));
    assert!(matches!(r.strip(Some(&[1, 2, 3])), Strip::Placeholder));
    match r.strip(Some(&vec![5u8; 130])) {
        Strip::Bands { rows, bands } => {
            assert_eq!(rows, 3);
            assert_eq!(bands[0].len(), 64);
            assert_eq!(bands[2].len(), 2);
        }
        _ => panic!("bands expected"),
    }
}

#[test]
fn the_strip_is_at_least_a_pixel_wide() {
    let mut r = rail(0.0, 1.0);
    assert_eq!(r.strip_width(), c(100.0));
    r.row_width = c(0.5);
    assert_eq!(r.strip_width(), c(1.0));
    r.row_width = c(f32::NAN);
    assert_eq!(r.strip_width(), c(1.0));
}
