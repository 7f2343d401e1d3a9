//! The byte rail: a vertical overview of the file with two handles that select a byte range.
//!
//! Positions on the rail are fractions of its height, 0 at the top. The rail works on coordinates
//! that were measured and computed elsewhere and decides what each event does with them.

use vstd::prelude::*;
use vstd::arithmetic::power2::pow2;
use crate::coord::{Coord, ONE_BITS, ZERO_BITS};
use crate::strip::{paint_strip, Strip};

verus! {

/// Bits of 6.0: the hit area half-thickness, in pixels, of each horizontal handle.
pub const HANDLE_HALF_BITS: u32 = 0x40c0_0000;

/// Bits of 1.0: the least width of the strip, in pixels.
pub const LEAST_WIDTH_BITS: u32 = 0x3f80_0000;

/// Files shorter than this share one least gap between the handles.
pub const GAP_DENOMINATOR: usize = 4096;

/// What a drag moves.
#[derive(Clone, Copy, PartialEq, Eq, Structural, Debug)]
pub enum DragKind {
    Start,
    End,
    Range,
}

/// A new selection, as fractions of the file.
#[derive(Clone, Copy, PartialEq, Eq, Structural, Debug)]
pub struct RangeChanged {
    pub start: Coord,
    pub end: Coord,
}

/// What the rail remembers between events.
#[derive(Clone, Copy, PartialEq, Eq, Structural, Debug)]
pub struct RailState {
    /// The drag that is under way.
    pub drag: Option<DragKind>,
    /// The selection and the cursor at the moment a drag of the whole range began.
    pub anchor_start: Coord,
    pub anchor_end: Coord,
    pub anchor_cursor_y: Coord,
    /// Generation of the strip that was painted last.
    pub strip_gen_baked: u64,
}

impl Default for RailState {
    fn default() -> (state: RailState)
        ensures
            state == (RailState {
                drag: None,
                anchor_start: crate::coord::zero(),
                anchor_end: crate::coord::zero(),
                anchor_cursor_y: crate::coord::zero(),
                strip_gen_baked: 0,
            }),
    {
        RailState {
            drag: None,
            anchor_start: Coord { bits: ZERO_BITS },
            anchor_end: Coord { bits: ZERO_BITS },
            anchor_cursor_y: Coord { bits: ZERO_BITS },
            strip_gen_baked: 0,
        }
    }
}

/// The left button went down on the rail.
#[derive(Clone, Copy, PartialEq, Eq, Structural, Debug)]
pub struct Press {
    /// Where, in pixels from the top of the rail.
    pub y: Coord,
    /// Where the two handles are.
    pub y_start: Coord,
    pub y_end: Coord,
    /// How far away the two handles are.
    pub start_distance: Coord,
    pub end_distance: Coord,
}

/// The cursor moved.
#[derive(Clone, Copy, PartialEq, Eq, Structural, Debug)]
pub struct Motion {
    /// Where to, as a fraction of the height.
    pub norm: Coord,
    /// That, a least gap farther down and farther up.
    pub norm_plus_gap: Coord,
    pub norm_minus_gap: Coord,
    /// The anchored selection, moved as far as the cursor has moved since it was anchored.
    pub shifted_start: Coord,
    pub shifted_end: Coord,
    /// The length of the anchored selection, and what it leaves of the whole.
    pub width: Coord,
    pub one_minus_width: Coord,
}

/// An event on the rail.
#[derive(Clone, Copy, PartialEq, Eq, Structural, Debug)]
pub enum RailEvent {
    /// `None`: the cursor was not on the rail.
    LeftPressed(Option<Press>),
    /// `None`: the cursor is nowhere.
    CursorMoved(Option<Motion>),
    LeftReleased,
    Other,
}

/// What the rail asks for.
#[derive(Clone, Copy, PartialEq, Eq, Structural, Debug)]
pub enum RailAction {
    /// Keep the event from everyone else.
    Capture,
    /// Announce a new selection, and keep the event from everyone else.
    Publish(RangeChanged),
}

/// The look of the cursor.
#[derive(Clone, Copy, PartialEq, Eq, Structural, Debug)]
pub enum Interaction {
    Grabbing,
    Crosshair,
}

/// The rail: each band of its strip covers `bytes_per_row` file bytes as equal-width color
/// columns.
#[derive(Clone, Copy, PartialEq, Eq, Structural, Debug)]
pub struct ByteRangeRail {
    pub range_start_norm: Coord,
    pub range_end_norm: Coord,
    /// Logical file length (metadata). While fewer bytes have been read, the strip is a
    /// placeholder.
    pub total_len: usize,
    pub row_width: Coord,
    /// Consecutive file bytes represented by one band.
    pub bytes_per_row: u32,
    /// Changes when the strip has to be painted anew.
    pub strip_generation: u64,
}

/// Two coordinates, the smaller one first.
pub open spec fn in_order(a: Coord, b: Coord) -> (Coord, Coord) {
    if a.at_most(b) {
        (a, b)
    } else {
        (b, a)
    }
}

/// Two coordinates, the smaller one first.
pub fn ordered(a: Coord, b: Coord) -> (r: (Coord, Coord))
    ensures
        r == in_order(a, b),
{
    if a.le(b) {
        (a, b)
    } else {
        (b, a)
    }
}

/// The least gap between the handles is the smaller one of the share of one byte and one part in
/// [`GAP_DENOMINATOR`]: it is 1 over what is returned here.
pub fn min_gap(byte_len: usize) -> (denominator: usize)
    ensures
        denominator >= byte_len,
        denominator >= GAP_DENOMINATOR,
        denominator == byte_len || denominator == GAP_DENOMINATOR,
{
    if byte_len < GAP_DENOMINATOR {
        GAP_DENOMINATOR
    } else {
        byte_len
    }
}

/// What a press takes hold of: a handle that is near enough, the nearer one of two and the start
/// of two equally near; else the whole range, if the press falls between the handles.
pub open spec fn grabbed(p: Press) -> Option<DragKind> {
    let half = Coord { bits: HANDLE_HALF_BITS };
    let (lo, hi) = in_order(p.y_start, p.y_end);
    let hit_start = p.start_distance.at_most(half);
    let hit_end = p.end_distance.at_most(half);
    if hit_start && (!hit_end || p.start_distance.at_most(p.end_distance)) {
        Some(DragKind::Start)
    } else if hit_end {
        Some(DragKind::End)
    } else if lo.at_most(p.y) && p.y.at_most(hi) {
        Some(DragKind::Range)
    } else {
        None
    }
}

/// The selection that a motion makes of `start..end`.
pub open spec fn dragged(kind: DragKind, start: Coord, end: Coord, m: Motion) -> RangeChanged {
    let (zero, one) = (crate::coord::zero(), crate::coord::one());
    let (s0, e0) = in_order(start, end);
    match kind {
        DragKind::Start => {
            let e = if e0.at_most(m.norm) {
                m.norm_plus_gap.least(one)
            } else {
                e0
            };
            let (s, e) = in_order(m.norm, e);
            RangeChanged { start: s, end: e }
        },
        DragKind::End => {
            let s = if m.norm.at_most(s0) {
                m.norm_minus_gap.greatest(zero)
            } else {
                s0
            };
            let (s, e) = in_order(s, m.norm);
            RangeChanged { start: s, end: e }
        },
        DragKind::Range => {
            let (s, e) = if m.shifted_start.below(zero) {
                (zero, m.width.least(one))
            } else {
                (m.shifted_start, m.shifted_end)
            };
            if one.below(e) {
                RangeChanged { start: m.one_minus_width.greatest(zero), end: one }
            } else {
                RangeChanged { start: s, end: e }
            }
        },
    }
}

impl ByteRangeRail {
    /// The state after `event`.
    pub open spec fn state_after(self, state: RailState, event: RailEvent) -> RailState {
        match event {
            RailEvent::LeftPressed(Some(p)) => match grabbed(p) {
                Some(DragKind::Range) => RailState {
                    drag: Some(DragKind::Range),
                    anchor_start: self.range_start_norm,
                    anchor_end: self.range_end_norm,
                    anchor_cursor_y: p.y,
                    ..state
                },
                Some(kind) => RailState { drag: Some(kind), ..state },
                None => state,
            },
            RailEvent::LeftReleased => RailState { drag: None, ..state },
            _ => state,
        }
    }

    /// What `event` makes the rail ask for.
    pub open spec fn action_on(self, state: RailState, event: RailEvent) -> Option<RailAction> {
        match event {
            RailEvent::LeftPressed(Some(p)) => if grabbed(p) is Some {
                Some(RailAction::Capture)
            } else {
                None
            },
            RailEvent::CursorMoved(Some(m)) => match state.drag {
                Some(kind) => Some(
                    RailAction::Publish(
                        dragged(kind, self.range_start_norm, self.range_end_norm, m),
                    ),
                ),
                None => None,
            },
            RailEvent::LeftReleased => if state.drag is Some {
                Some(RailAction::Capture)
            } else {
                None
            },
            _ => None,
        }
    }

    fn press(&self, state: &mut RailState, p: Press) -> (action: Option<RailAction>)
        ensures
            *final(state) == self.state_after(*old(state), RailEvent::LeftPressed(Some(p))),
            action == self.action_on(*old(state), RailEvent::LeftPressed(Some(p))),
    {
        let half = Coord { bits: HANDLE_HALF_BITS };
        let (lo, hi) = ordered(p.y_start, p.y_end);
        let hit_start = p.start_distance.le(half);
        let hit_end = p.end_distance.le(half);
        if hit_start && !hit_end {
            state.drag = Some(DragKind::Start);
            return Some(RailAction::Capture);
        }
        if hit_end && !hit_start {
            state.drag = Some(DragKind::End);
            return Some(RailAction::Capture);
        }
        if hit_start && hit_end {
            if p.start_distance.le(p.end_distance) {
                state.drag = Some(DragKind::Start);
            } else {
                state.drag = Some(DragKind::End);
            }
            return Some(RailAction::Capture);
        }
        if lo.le(p.y) && p.y.le(hi) {
            state.drag = Some(DragKind::Range);
            state.anchor_start = self.range_start_norm;
            state.anchor_end = self.range_end_norm;
            state.anchor_cursor_y = p.y;
            return Some(RailAction::Capture);
        }
        None
    }

    fn follow(&self, kind: DragKind, m: Motion) -> (range: RangeChanged)
        ensures
            range == dragged(kind, self.range_start_norm, self.range_end_norm, m),
    {
        let zero = Coord { bits: ZERO_BITS };
        let one = Coord { bits: ONE_BITS };
        let (s0, e0) = ordered(self.range_start_norm, self.range_end_norm);
        match kind {
            DragKind::Start => {
                let e = if e0.le(m.norm) {
                    m.norm_plus_gap.min(one)
                } else {
                    e0
                };
                let (s, e) = ordered(m.norm, e);
                RangeChanged { start: s, end: e }
            },
            DragKind::End => {
                let s = if m.norm.le(s0) {
                    m.norm_minus_gap.max(zero)
                } else {
                    s0
                };
                let (s, e) = ordered(s, m.norm);
                RangeChanged { start: s, end: e }
            },
            DragKind::Range => {
                let mut s = m.shifted_start;
                let mut e = m.shifted_end;
                if s.lt(zero) {
                    s = zero;
                    e = m.width.min(one);
                }
                if one.lt(e) {
                    e = one;
                    s = m.one_minus_width.max(zero);
                }
                RangeChanged { start: s, end: e }
            },
        }
    }

    /// Handle one event.
    pub fn update(&self, state: &mut RailState, event: RailEvent) -> (action: Option<RailAction>)
        ensures
            *final(state) == self.state_after(*old(state), event),
            action == self.action_on(*old(state), event),
    {
        match event {
            RailEvent::LeftPressed(Some(p)) => self.press(state, p),
            RailEvent::CursorMoved(Some(m)) => match state.drag {
                Some(kind) => Some(RailAction::Publish(self.follow(kind, m))),
                None => None,
            },
            RailEvent::LeftReleased => {
                let held = state.drag.is_some();
                state.drag = None;
                if held {
                    Some(RailAction::Capture)
                } else {
                    None
                }
            },
            _ => None,
        }
    }

    /// The strip that was painted last is out of date.
    pub open spec fn is_stale(self, state: RailState) -> bool {
        state.strip_gen_baked != self.strip_generation
    }

    /// `state` once the present strip has been painted.
    pub open spec fn refreshed(self, state: RailState) -> RailState {
        RailState { strip_gen_baked: self.strip_generation, ..state }
    }

    /// Whether the strip that was painted last is out of date. From here on the present one
    /// counts as painted.
    pub fn refresh(&self, state: &mut RailState) -> (stale: bool)
        ensures
            stale == self.is_stale(*old(state)),
            *final(state) == self.refreshed(*old(state)),
    {
        let stale = state.strip_gen_baked != self.strip_generation;
        if stale {
            state.strip_gen_baked = self.strip_generation;
        }
        stale
    }

    /// What the strip shows when `bytes` of the file have been read; `None` when they are out of
    /// reach.
    pub fn strip(&self, bytes: Option<&[u8]>) -> (strip: Strip)
        ensures
            crate::strip::shows(
                strip,
                match bytes {
                    Some(b) => Some(b@),
                    None => None,
                },
                self.total_len as int,
                crate::strip::at_least_one(self.bytes_per_row as int),
            ),
    {
        paint_strip(bytes, self.total_len, self.bytes_per_row)
    }

    /// The width of the strip, in pixels.
    pub fn strip_width(&self) -> (w: Coord)
        ensures
            w == self.row_width.greatest(Coord { bits: LEAST_WIDTH_BITS }),
    {
        self.row_width.max(Coord { bits: LEAST_WIDTH_BITS })
    }

    /// The selection, top end first.
    pub fn selection(&self) -> (r: (Coord, Coord))
        ensures
            r == in_order(self.range_start_norm, self.range_end_norm),
    {
        ordered(self.range_start_norm, self.range_end_norm)
    }

    /// The look of the cursor.
    pub open spec fn interaction(self, state: RailState) -> Interaction {
        if state.drag is Some {
            Interaction::Grabbing
        } else {
            Interaction::Crosshair
        }
    }

    /// The look of the cursor.
    pub fn mouse_interaction(&self, state: &RailState) -> (i: Interaction)
        ensures
            i == (if state.drag is Some {
                Interaction::Grabbing
            } else {
                Interaction::Crosshair
            }),
            i == self.interaction(*state),
    {
        if state.drag.is_some() {
            Interaction::Grabbing
        } else {
            Interaction::Crosshair
        }
    }
}

impl Motion {
    /// Every coordinate of the motion is a number.
    pub open spec fn is_numeric(self) -> bool {
        &&& !self.norm.is_nan()
        &&& !self.norm_plus_gap.is_nan()
        &&& !self.norm_minus_gap.is_nan()
        &&& !self.shifted_start.is_nan()
        &&& !self.shifted_end.is_nan()
        &&& !self.width.is_nan()
        &&& !self.one_minus_width.is_nan()
    }

    /// The motion is what binary32 arithmetic, rounding by `round`, measures of a cursor that
    /// points into the rail and has moved by `shift`, as a fraction of the height, since the
    /// selection was anchored in `state`. `gap` is the least gap.
    pub open spec fn is_measured(
        self,
        state: RailState,
        gap: Coord,
        shift: Coord,
        round: spec_fn(int) -> Coord,
    ) -> bool {
        let (start, end) = (state.anchor_start.value(), state.anchor_end.value());
        let one = crate::coord::one().value();
        &&& !self.norm.is_nan() && self.norm.unit_or_nan()
        &&& crate::coord::is_rounded(self.norm_plus_gap, self.norm.value() + gap.value(), round)
        &&& crate::coord::is_rounded(self.norm_minus_gap, self.norm.value() - gap.value(), round)
        &&& crate::coord::is_rounded(self.shifted_start, start + shift.value(), round)
        &&& crate::coord::is_rounded(self.shifted_end, end + shift.value(), round)
        &&& crate::coord::is_rounded(self.width, end - start, round)
        &&& crate::coord::is_rounded(self.one_minus_width, one - self.width.value(), round)
    }
}

/// The handles' hit area reaches 6 pixels to either side, and the strip is at least 1 pixel wide.
pub proof fn law_pixel_sizes()
    ensures
        crate::coord::stands_for(Coord { bits: HANDLE_HALF_BITS }, 6),
        crate::coord::stands_for(Coord { bits: LEAST_WIDTH_BITS }, 1),
{
    vstd::arithmetic::power2::lemma2_to64();
    crate::coord::lemma_whole_number(HANDLE_HALF_BITS, 129, 0x40_0000, 6, 21);
    crate::coord::law_zero_and_one();
}

/// Dragging a handle past the other one never turns the selection round.
pub proof fn law_handle_drag_keeps_order(kind: DragKind, start: Coord, end: Coord, m: Motion)
    requires
        kind is Start || kind is End,
        !start.is_nan(),
        !end.is_nan(),
        m.is_numeric(),
    ensures
        dragged(kind, start, end, m).start.at_most(dragged(kind, start, end, m).end),
{
}

/// The handle that is dragged follows the cursor; the other one stays where it is until it is
/// reached, and from then on keeps the least gap ahead, inside the rail.
pub proof fn law_handle_follows_cursor(start: Coord, end: Coord, m: Motion)
    requires
        !start.is_nan(),
        !end.is_nan(),
        m.is_numeric(),
        m.norm.unit_or_nan(),
        m.norm_minus_gap.at_most(m.norm),
        m.norm.at_most(m.norm_plus_gap),
    ensures
        ({
            let (s0, e0) = in_order(start, end);
            let by_start = dragged(DragKind::Start, start, end, m);
            let by_end = dragged(DragKind::End, start, end, m);
            &&& by_start.start == m.norm
            &&& by_start.end == if m.norm.below(e0) {
                e0
            } else {
                m.norm_plus_gap.least(crate::coord::one())
            }
            &&& by_end.end == m.norm
            &&& by_end.start == if s0.below(m.norm) {
                s0
            } else {
                m.norm_minus_gap.greatest(crate::coord::zero())
            }
        }),
{
}

/// Dragging a handle keeps the selection inside the rail.
pub proof fn law_handle_drag_stays_inside(kind: DragKind, start: Coord, end: Coord, m: Motion)
    requires
        kind is Start || kind is End,
        !start.is_nan() && start.unit_or_nan(),
        !end.is_nan() && end.unit_or_nan(),
        m.is_numeric(),
        m.norm.unit_or_nan(),
        m.norm_minus_gap.at_most(m.norm),
        m.norm.at_most(m.norm_plus_gap),
    ensures
        dragged(kind, start, end, m).start.unit_or_nan(),
        dragged(kind, start, end, m).end.unit_or_nan(),
{
    law_handle_follows_cursor(start, end, m);
}

/// Dragging the whole range never pushes it out of the rail.
pub proof fn law_range_drag_stays_inside(start: Coord, end: Coord, m: Motion)
    requires
        m.is_numeric(),
    ensures
        crate::coord::zero().at_most(dragged(DragKind::Range, start, end, m).start),
        dragged(DragKind::Range, start, end, m).end.at_most(crate::coord::one()),
{
}

/// A range that is dragged without reaching either end moves as a whole.
pub proof fn law_range_drag_moves_both_ends(start: Coord, end: Coord, m: Motion)
    requires
        crate::coord::zero().at_most(m.shifted_start),
        m.shifted_end.at_most(crate::coord::one()),
    ensures
        dragged(DragKind::Range, start, end, m) == (RangeChanged {
            start: m.shifted_start,
            end: m.shifted_end,
        }),
{
}

/// Dragging the whole range never turns the selection round.
pub proof fn law_range_drag_keeps_order(start: Coord, end: Coord, m: Motion)
    requires
        m.shifted_start.at_most(m.shifted_end),
        !m.width.is_nan() && m.width.unit_or_nan(),
        !m.one_minus_width.is_nan() && m.one_minus_width.unit_or_nan(),
    ensures
        dragged(DragKind::Range, start, end, m).start.at_most(
            dragged(DragKind::Range, start, end, m).end,
        ),
{
}

/// A range of the coordinates `from..to` that is dragged by `shift` keeps its length wherever it is
/// dragged to, also where it meets the top or the bottom of the rail, and moves by `shift` wherever
/// it meets neither: both up to what rounding adds, where `error` bounds the error of each single
/// coordinate of the motion. In exact arithmetic (`error == 0`) both hold exactly.
pub proof fn law_range_drag_keeps_length(
    start: Coord,
    end: Coord,
    from: Coord,
    to: Coord,
    shift: int,
    m: Motion,
    error: int,
)
    requires
        m.is_numeric(),
        m.width.unit_or_nan(),
        m.one_minus_width.unit_or_nan(),
        crate::coord::zero().at_most(m.shifted_start) && m.shifted_end.at_most(
            crate::coord::one(),
        ) ==> -error <= m.shifted_start.value() - (from.value() + shift) <= error && -error
            <= m.shifted_end.value() - (to.value() + shift) <= error,
        -error <= m.width.value() - (to.value() - from.value()) <= error,
        -error <= m.one_minus_width.value() - (crate::coord::one().value() - m.width.value())
            <= error,
    ensures
        ({
            let moved = dragged(DragKind::Range, start, end, m);
            let length = to.value() - from.value();
            let (zero, one) = (crate::coord::zero(), crate::coord::one());
            &&& -2 * error <= (moved.end.value() - moved.start.value()) - length <= 2 * error
            &&& m.shifted_start.below(zero) ==> moved.start == zero
            &&& !m.shifted_start.below(zero) && one.below(m.shifted_end) ==> moved.end == one
            &&& !m.shifted_start.below(zero) && !one.below(m.shifted_end) ==> {
                &&& -error <= (moved.start.value() - from.value()) - shift <= error
                &&& -error <= (moved.end.value() - to.value()) - shift <= error
            }
        }),
{
    crate::coord::law_zero_and_one();
}

/// While anything is dragged, every motion announces a selection that runs downwards inside the
/// rail, wherever the cursor is, and leaves the drag as it is.
pub proof fn law_drag_announces_selection_in_rail(rail: ByteRangeRail, state: RailState, m: Motion)
    requires
        state.drag is Some,
        !rail.range_start_norm.is_nan() && rail.range_start_norm.unit_or_nan(),
        !rail.range_end_norm.is_nan() && rail.range_end_norm.unit_or_nan(),
        m.is_numeric(),
        m.norm.unit_or_nan(),
        m.norm_minus_gap.at_most(m.norm),
        m.norm.at_most(m.norm_plus_gap),
        m.shifted_start.at_most(m.shifted_end),
        m.width.unit_or_nan(),
        m.one_minus_width.unit_or_nan(),
    ensures
        ({
            let event = RailEvent::CursorMoved(Some(m));
            &&& rail.action_on(state, event) matches Some(RailAction::Publish(r))
                && crate::coord::zero().at_most(r.start) && r.start.at_most(r.end) && r.end.at_most(
                crate::coord::one(),
            )
            &&& rail.state_after(state, event) == state
        }),
{
    let (start, end) = (rail.range_start_norm, rail.range_end_norm);
    law_handle_drag_keeps_order(DragKind::Start, start, end, m);
    law_handle_drag_keeps_order(DragKind::End, start, end, m);
    law_handle_drag_stays_inside(DragKind::Start, start, end, m);
    law_handle_drag_stays_inside(DragKind::End, start, end, m);
    law_range_drag_keeps_order(start, end, m);
    law_range_drag_stays_inside(start, end, m);
}

/// What binary32 arithmetic measures of a motion is in the order that the exact numbers are in.
pub proof fn law_measured_motion_is_in_order(
    state: RailState,
    m: Motion,
    gap: Coord,
    shift: Coord,
    round: spec_fn(int) -> Coord,
)
    requires
        crate::coord::rounds_to_nearest(round),
        m.is_measured(state, gap, shift, round),
        crate::coord::zero().at_most(gap),
        crate::coord::zero().at_most(state.anchor_start),
        state.anchor_start.at_most(state.anchor_end),
        state.anchor_end.at_most(crate::coord::one()),
    ensures
        m.is_numeric(),
        m.norm_minus_gap.at_most(m.norm),
        m.norm.at_most(m.norm_plus_gap),
        m.shifted_start.at_most(m.shifted_end),
        m.width.unit_or_nan(),
        m.one_minus_width.unit_or_nan(),
{
    let (zero, one) = (crate::coord::zero(), crate::coord::one());
    let (start, end) = (state.anchor_start, state.anchor_end);
    crate::coord::law_zero_and_one();
    Coord::law_order_is_numeric(zero, gap);
    Coord::law_order_is_numeric(zero, start);
    Coord::law_order_is_numeric(start, end);
    Coord::law_order_is_numeric(end, one);
    crate::coord::law_rounding_keeps_numbers(round, m.norm, m.norm);
    crate::coord::law_rounding_keeps_numbers(round, zero, zero);
    crate::coord::law_rounding_keeps_numbers(round, one, one);
    let (norm, step, moved) = (m.norm.value(), gap.value(), shift.value());
    crate::coord::law_rounding_keeps_order(round, m.norm_minus_gap, norm - step, m.norm, norm);
    crate::coord::law_rounding_keeps_order(round, m.norm, norm, m.norm_plus_gap, norm + step);
    crate::coord::law_rounding_keeps_order(
        round,
        m.shifted_start,
        start.value() + moved,
        m.shifted_end,
        end.value() + moved,
    );
    let width = end.value() - start.value();
    crate::coord::law_rounding_keeps_order(round, zero, zero.value(), m.width, width);
    crate::coord::law_rounding_keeps_order(round, m.width, width, one, one.value());
    Coord::law_order_is_numeric(zero, m.width);
    Coord::law_order_is_numeric(m.width, one);
    let rest = one.value() - m.width.value();
    crate::coord::law_rounding_keeps_order(round, zero, zero.value(), m.one_minus_width, rest);
    crate::coord::law_rounding_keeps_order(round, m.one_minus_width, rest, one, one.value());
}

/// While anything is dragged, every motion that binary32 arithmetic measures announces a selection
/// that runs downwards inside the rail, wherever the cursor is, and leaves the drag as it is.
pub proof fn law_measured_drag_announces_selection_in_rail(
    rail: ByteRangeRail,
    state: RailState,
    m: Motion,
    gap: Coord,
    shift: Coord,
    round: spec_fn(int) -> Coord,
)
    requires
        crate::coord::rounds_to_nearest(round),
        m.is_measured(state, gap, shift, round),
        crate::coord::zero().at_most(gap),
        state.drag is Some,
        !rail.range_start_norm.is_nan() && rail.range_start_norm.unit_or_nan(),
        !rail.range_end_norm.is_nan() && rail.range_end_norm.unit_or_nan(),
        crate::coord::zero().at_most(state.anchor_start),
        state.anchor_start.at_most(state.anchor_end),
        state.anchor_end.at_most(crate::coord::one()),
    ensures
        ({
            let event = RailEvent::CursorMoved(Some(m));
            &&& rail.action_on(state, event) matches Some(RailAction::Publish(r))
                && crate::coord::zero().at_most(r.start) && r.start.at_most(r.end) && r.end.at_most(
                crate::coord::one(),
            )
            &&& rail.state_after(state, event) == state
        }),
{
    law_measured_motion_is_in_order(state, m, gap, shift, round);
    law_drag_announces_selection_in_rail(rail, state, m);
}

/// Dragging the band moves it and never resizes it: of every motion that binary32 arithmetic
/// measures, the announced range is as long as the anchored one, to within 2^-23 (2^126 units), and
/// lies `shift` away from it, to within 2^-24, unless it has met the top or the bottom.
pub proof fn law_measured_range_drag_keeps_length(
    rail: ByteRangeRail,
    state: RailState,
    m: Motion,
    gap: Coord,
    shift: Coord,
    round: spec_fn(int) -> Coord,
)
    requires
        crate::coord::rounds_to_nearest(round),
        m.is_measured(state, gap, shift, round),
        crate::coord::zero().at_most(gap),
        state.drag == Some(DragKind::Range),
        crate::coord::zero().at_most(state.anchor_start),
        state.anchor_start.at_most(state.anchor_end),
        state.anchor_end.at_most(crate::coord::one()),
    ensures
        ({
            let (zero, one) = (crate::coord::zero(), crate::coord::one());
            let (start, end) = (state.anchor_start.value(), state.anchor_end.value());
            rail.action_on(state, RailEvent::CursorMoved(Some(m))) matches Some(
                RailAction::Publish(r),
            ) && {
                &&& crate::coord::distance(r.end.value() - r.start.value(), end - start) <= pow2(126)
                &&& m.shifted_start.below(zero) ==> r.start == zero
                &&& !m.shifted_start.below(zero) && one.below(m.shifted_end) ==> r.end == one
                &&& !m.shifted_start.below(zero) && !one.below(m.shifted_end) ==> {
                    &&& crate::coord::distance(r.start.value() - start, shift.value()) <= pow2(125)
                    &&& crate::coord::distance(r.end.value() - end, shift.value()) <= pow2(125)
                }
            }
        }),
{
    let (zero, one) = (crate::coord::zero(), crate::coord::one());
    let (from, to) = (state.anchor_start, state.anchor_end);
    law_measured_motion_is_in_order(state, m, gap, shift, round);
    crate::coord::law_zero_and_one();
    Coord::law_order_is_numeric(zero, from);
    Coord::law_order_is_numeric(from, to);
    Coord::law_order_is_numeric(to, one);
    Coord::law_order_is_numeric(zero, m.width);
    Coord::law_order_is_numeric(m.width, one);
    Coord::law_order_is_numeric(zero, m.shifted_start);
    Coord::law_order_is_numeric(m.shifted_start, m.shifted_end);
    Coord::law_order_is_numeric(m.shifted_end, one);
    crate::coord::law_rounding_error(round, m.width, to.value() - from.value());
    crate::coord::law_rounding_error(round, m.one_minus_width, one.value() - m.width.value());
    if zero.at_most(m.shifted_start) && m.shifted_end.at_most(one) {
        crate::coord::law_rounding_error(round, m.shifted_start, from.value() + shift.value());
        crate::coord::law_rounding_error(round, m.shifted_end, to.value() + shift.value());
    }
    vstd::arithmetic::power2::lemma_pow2_adds(1, 125);
    assert(pow2(1) == 2) by {
        vstd::arithmetic::power2::lemma2_to64();
    }
    law_range_drag_keeps_length(
        rail.range_start_norm,
        rail.range_end_norm,
        from,
        to,
        shift.value(),
        m,
        pow2(125) as int,
    );
}

/// A press within reach of a handle takes a handle, and never the farther one.
pub proof fn law_nearest_handle_wins(p: Press)
    requires
        p.start_distance.at_most(Coord { bits: HANDLE_HALF_BITS })
            || p.end_distance.at_most(Coord { bits: HANDLE_HALF_BITS }),
        !p.start_distance.is_nan(),
        !p.end_distance.is_nan(),
    ensures
        grabbed(p) == Some(
            if p.start_distance.at_most(p.end_distance) {
                DragKind::Start
            } else {
                DragKind::End
            },
        ),
{
}

/// A new selection is announced only while something is dragged, and only on a motion.
pub proof fn law_publish_only_while_dragging(
    rail: ByteRangeRail,
    state: RailState,
    event: RailEvent,
)
    ensures
        (rail.action_on(state, event) matches Some(RailAction::Publish(_))) <==> (state.drag is Some
            && (event matches RailEvent::CursorMoved(Some(_)))),
{
}

/// The state after several events; the rail may have changed from one to the next.
pub open spec fn state_after_all(
    state: RailState,
    events: Seq<(ByteRangeRail, RailEvent)>,
) -> RailState
    decreases events.len(),
{
    if events.len() == 0 {
        state
    } else {
        let (rail, event) = events.last();
        rail.state_after(state_after_all(state, events.drop_last()), event)
    }
}

/// A drag lasts from the press that began it to the release: whatever else happens in between
/// changes neither what is dragged nor where it was anchored.
pub proof fn law_drag_lasts_until_release(
    rail: ByteRangeRail,
    state: RailState,
    p: Press,
    events: Seq<(ByteRangeRail, RailEvent)>,
    last: ByteRangeRail,
)
    requires
        grabbed(p) is Some,
        forall|i: int|
            0 <= i < events.len() ==> (#[trigger] events[i]).1 is CursorMoved || events[i].1 is Other,
    ensures
        ({
            let pressed = rail.state_after(state, RailEvent::LeftPressed(Some(p)));
            let held = state_after_all(pressed, events);
            &&& held == pressed
            &&& held.drag == grabbed(p)
            &&& grabbed(p) == Some(DragKind::Range) ==> held.anchor_start == rail.range_start_norm
                && held.anchor_end == rail.range_end_norm && held.anchor_cursor_y == p.y
            &&& last.state_after(held, RailEvent::LeftReleased).drag is None
            &&& last.action_on(held, RailEvent::LeftReleased) == Some(RailAction::Capture)
        }),
    decreases events.len(),
{
    if events.len() > 0 {
        law_drag_lasts_until_release(rail, state, p, events.drop_last(), last);
    }
}

/// A strip is painted anew when its generation changes, and once only.
pub proof fn law_strip_painted_once_per_generation(
    rail: ByteRangeRail,
    later: ByteRangeRail,
    state: RailState,
)
    ensures
        later.is_stale(rail.refreshed(state)) <==> later.strip_generation != rail.strip_generation,
        rail.refreshed(state).drag == state.drag,
{
}

/// Putting two coordinates in order changes neither, and swaps them only if it has to.
pub proof fn law_in_order(a: Coord, b: Coord)
    ensures
        in_order(a, b) == (a, b) || in_order(a, b) == (b, a),
        a.at_most(b) ==> in_order(a, b) == (a, b),
        b.below(a) ==> in_order(a, b) == (b, a),
        !a.is_nan() && !b.is_nan() ==> in_order(a, b).0.value() <= in_order(a, b).1.value(),
{
    if !a.is_nan() && !b.is_nan() {
        Coord::law_order_is_numeric(a, b);
        Coord::law_order_is_numeric(b, a);
    }
}

/// The handle that is held is announced where the cursor is. The other one is announced where it
/// stands for as long as the cursor has not reached it, and after that at the least gap from the
/// cursor, inside the rail.
pub proof fn law_held_handle_follows_cursor(rail: ByteRangeRail, state: RailState, m: Motion)
    requires
        state.drag == Some(DragKind::Start) || state.drag == Some(DragKind::End),
        !rail.range_start_norm.is_nan(),
        !rail.range_end_norm.is_nan(),
        m.is_numeric(),
        m.norm.unit_or_nan(),
        m.norm_minus_gap.at_most(m.norm),
        m.norm.at_most(m.norm_plus_gap),
    ensures
        ({
            let (zero, one) = (crate::coord::zero(), crate::coord::one());
            let (start, end) = (rail.range_start_norm, rail.range_end_norm);
            let (top, bottom) = if end.below(start) {
                (end, start)
            } else {
                (start, end)
            };
            &&& rail.action_on(state, RailEvent::CursorMoved(Some(m))) matches Some(
                RailAction::Publish(r),
            )
            &&& state.drag == Some(DragKind::Start) ==> {
                &&& r.start == m.norm
                &&& m.norm.below(bottom) ==> r.end == bottom
                &&& !m.norm.below(bottom) && m.norm_plus_gap.at_most(one) ==> r.end
                    == m.norm_plus_gap
                &&& !m.norm.below(bottom) && one.below(m.norm_plus_gap) ==> r.end == one
            }
            &&& state.drag == Some(DragKind::End) ==> {
                &&& r.end == m.norm
                &&& top.below(m.norm) ==> r.start == top
                &&& !top.below(m.norm) && zero.at_most(m.norm_minus_gap) ==> r.start
                    == m.norm_minus_gap
                &&& !top.below(m.norm) && m.norm_minus_gap.below(zero) ==> r.start == zero
            }
        }),
{
}

/// The band that is held is announced where the cursor has taken it, as a whole; where that would
/// be outside, it is announced at the top or at the bottom of the rail, at its own length. Where
/// the selection stands meanwhile makes no difference.
pub proof fn law_held_band_follows_cursor(rail: ByteRangeRail, state: RailState, m: Motion)
    requires
        state.drag == Some(DragKind::Range),
        m.is_numeric(),
        m.width.unit_or_nan(),
        m.one_minus_width.unit_or_nan(),
    ensures
        ({
            let (zero, one) = (crate::coord::zero(), crate::coord::one());
            &&& rail.action_on(state, RailEvent::CursorMoved(Some(m))) matches Some(
                RailAction::Publish(r),
            )
            &&& zero.at_most(m.shifted_start) && m.shifted_end.at_most(one) ==> r.start
                == m.shifted_start && r.end == m.shifted_end
            &&& m.shifted_start.below(zero) ==> r.start == zero && r.end == m.width
            &&& zero.at_most(m.shifted_start) && one.below(m.shifted_end) ==> r.start
                == m.one_minus_width && r.end == one
        }),
{
}

/// A press within 6 pixels of a handle takes hold of the nearer one, the start of two equally near.
/// Away from both, a press between them takes hold of the whole range and anchors it where it
/// stands, and a press elsewhere does nothing. Nothing else is touched.
pub proof fn law_press_takes_hold(rail: ByteRangeRail, state: RailState, p: Press)
    requires
        !p.y.is_nan(),
        !p.y_start.is_nan(),
        !p.y_end.is_nan(),
        !p.start_distance.is_nan(),
        !p.end_distance.is_nan(),
    ensures
        ({
            let event = RailEvent::LeftPressed(Some(p));
            let (next, action) = (rail.state_after(state, event), rail.action_on(state, event));
            let reach = 6 * pow2(149);
            let (to_start, to_end) = (p.start_distance.value(), p.end_distance.value());
            let (y, y0, y1) = (p.y.value(), p.y_start.value(), p.y_end.value());
            let between = (y0 <= y <= y1) || (y1 <= y <= y0);
            &&& to_start <= reach && to_start <= to_end ==> action == Some(RailAction::Capture)
                && next == (RailState { drag: Some(DragKind::Start), ..state })
            &&& to_end <= reach && to_end < to_start ==> action == Some(RailAction::Capture) && next
                == (RailState { drag: Some(DragKind::End), ..state })
            &&& to_start > reach && to_end > reach && between ==> action == Some(
                RailAction::Capture,
            ) && next == (RailState {
                drag: Some(DragKind::Range),
                anchor_start: rail.range_start_norm,
                anchor_end: rail.range_end_norm,
                anchor_cursor_y: p.y,
                ..state
            })
            &&& to_start > reach && to_end > reach && !between ==> action is None && next == state
        }),
{
    let half = Coord { bits: HANDLE_HALF_BITS };
    law_pixel_sizes();
    Coord::law_order_is_numeric(p.start_distance, half);
    Coord::law_order_is_numeric(p.end_distance, half);
    Coord::law_order_is_numeric(p.start_distance, p.end_distance);
    Coord::law_order_is_numeric(p.y_start, p.y_end);
    Coord::law_order_is_numeric(p.y_start, p.y);
    Coord::law_order_is_numeric(p.y, p.y_start);
    Coord::law_order_is_numeric(p.y_end, p.y);
    Coord::law_order_is_numeric(p.y, p.y_end);
}

/// A release ends the drag and nothing else, and is kept from everyone else if there was one.
pub proof fn law_release_ends_drag(rail: ByteRangeRail, state: RailState)
    ensures
        rail.state_after(state, RailEvent::LeftReleased) == (RailState { drag: None, ..state }),
        rail.action_on(state, RailEvent::LeftReleased) == if state.drag is Some {
            Some(RailAction::Capture)
        } else {
            None
        },
{
}

/// Whatever is no press on the rail and no release leaves the rail as it is; and without a drag, or
/// without a cursor, it asks for nothing.
pub proof fn law_other_events_change_nothing(
    rail: ByteRangeRail,
    state: RailState,
    event: RailEvent,
)
    requires
        event == RailEvent::LeftPressed(None) || event is CursorMoved || event is Other,
    ensures
        rail.state_after(state, event) == state,
        state.drag is None || !(event matches RailEvent::CursorMoved(Some(_))) ==> rail.action_on(
            state,
            event,
        ) is None,
{
}

/// Painting the strip touches neither a drag nor its anchors; a strip counts as painted exactly
/// when its own generation is the one that was painted last.
pub proof fn law_painting_keeps_drag(rail: ByteRangeRail, state: RailState)
    ensures
        ({
            let next = rail.refreshed(state);
            &&& next.drag == state.drag
            &&& next.anchor_start == state.anchor_start
            &&& next.anchor_end == state.anchor_end
            &&& next.anchor_cursor_y == state.anchor_cursor_y
            &&& next.strip_gen_baked == rail.strip_generation
            &&& !rail.is_stale(next)
            &&& !rail.is_stale(state) <==> state.strip_gen_baked == rail.strip_generation
        }),
{
}

/// The cursor looks like a grip from the press that takes hold of something to the release, and
/// like a crosshair otherwise.
pub proof fn law_cursor_shows_drag(rail: ByteRangeRail, state: RailState, p: Press, m: Option<Motion>)
    ensures
        rail.interaction(state) is Grabbing <==> state.drag is Some,
        rail.interaction(state) is Crosshair <==> state.drag is None,
        rail.action_on(state, RailEvent::LeftPressed(Some(p))) is Some ==> rail.interaction(
            rail.state_after(state, RailEvent::LeftPressed(Some(p))),
        ) is Grabbing,
        rail.interaction(rail.state_after(state, RailEvent::CursorMoved(m))) == rail.interaction(
            state,
        ),
        rail.interaction(rail.state_after(state, RailEvent::LeftReleased)) is Crosshair,
{
}

}
