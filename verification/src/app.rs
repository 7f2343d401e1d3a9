//! The viewer: what is open, what is selected, and how messages change that.

use vstd::prelude::*;
use vstd::string::*;
use crate::coord::{Coord, ONE_BITS, ZERO_BITS};
use crate::minimap::{ByteRangeRail, RangeChanged};

verus! {

/// The colors of the heatmap.
#[derive(Clone, Copy, PartialEq, Eq, Structural, Debug)]
pub enum HeatmapPalette {
    Magma,
    Viridis,
    Gray,
    Matrix,
}

/// Which byte pairs are counted.
#[derive(Clone, Copy, PartialEq, Eq, Structural, Debug)]
pub enum Mode {
    Overlapping,
    NonOverlapping,
}

/// How counts become brightness.
#[derive(Clone, Copy, PartialEq, Eq, Structural, Debug)]
pub enum Scale {
    Log1p,
    CantorDust,
}

/// The palettes that can be chosen, in the order in which they are offered.
pub fn palettes() -> (list: Vec<HeatmapPalette>)
    ensures
        list@ == seq![
            HeatmapPalette::Magma,
            HeatmapPalette::Viridis,
            HeatmapPalette::Gray,
            HeatmapPalette::Matrix,
        ],
{
    vec![
        HeatmapPalette::Magma,
        HeatmapPalette::Viridis,
        HeatmapPalette::Gray,
        HeatmapPalette::Matrix,
    ]
}

/// The modes that can be chosen, in the order in which they are offered.
pub fn modes() -> (list: Vec<Mode>)
    ensures
        list@ == seq![Mode::Overlapping, Mode::NonOverlapping],
{
    vec![Mode::Overlapping, Mode::NonOverlapping]
}

/// The scales that can be chosen, in the order in which they are offered.
pub fn scales() -> (list: Vec<Scale>)
    ensures
        list@ == seq![Scale::Log1p, Scale::CantorDust],
{
    vec![Scale::Log1p, Scale::CantorDust]
}

/// Something that happened.
pub enum Message {
    Palette(HeatmapPalette),
    Mode(Mode),
    Scale(Scale),
    PickFile,
    /// Path from the file dialog only; the file itself is loaded afterwards.
    FilePickResult(Result<String, String>),
    FileLoadMeta { total_len: usize },
    FileLoadChunk(Vec<u8>),
    FileLoadDone,
    FileLoadErr(String),
    RangeChanged(RangeChanged),
}

impl From<RangeChanged> for Message {
    fn from(r: RangeChanged) -> (msg: Message) {
        Message::RangeChanged(r)
    }
}

impl vstd::std_specs::convert::FromSpecImpl<RangeChanged> for Message {
    open spec fn obeys_from_spec() -> bool {
        true
    }

    open spec fn from_spec(r: RangeChanged) -> Message {
        Message::RangeChanged(r)
    }
}

/// How the file dialog ended.
pub enum PickOutcome {
    Picked(String),
    Canceled,
    /// The dialog could not be run, and why.
    TaskFailed(String),
}

/// `msg` reports that the file dialog ended as `outcome` says.
pub open spec fn reports(outcome: PickOutcome, msg: Message) -> bool {
    match outcome {
        PickOutcome::Picked(path) => msg == Message::FilePickResult(Ok(path)),
        PickOutcome::Canceled => msg matches Message::FilePickResult(Err(reason)) && reason@
            == "canceled"@,
        PickOutcome::TaskFailed(e) => msg matches Message::FilePickResult(Err(reason)) && reason@
            == "task: "@ + e@,
    }
}

/// The answer to [`Effect::PickFile`].
pub fn pick_result(outcome: PickOutcome) -> (msg: Message)
    ensures
        match outcome {
            PickOutcome::Picked(path) => msg == Message::FilePickResult(Ok(path)),
            PickOutcome::Canceled => msg matches Message::FilePickResult(Err(reason)) && reason@
                == "canceled"@,
            PickOutcome::TaskFailed(e) => msg matches Message::FilePickResult(Err(reason))
                && reason@ == "task: "@ + e@,
        },
        reports(outcome, msg),
{
    match outcome {
        PickOutcome::Picked(path) => Message::FilePickResult(Ok(path)),
        PickOutcome::Canceled => Message::FilePickResult(Err("canceled".to_owned())),
        PickOutcome::TaskFailed(e) => {
            let mut reason = "task: ".to_owned();
            reason.append(e.as_str());
            Message::FilePickResult(Err(reason))
        },
    }
}

/// Identity of a file read: a read that belongs to another key is no longer wanted.
pub struct LoadStreamKey {
    pub gen: u64,
    pub path: String,
}

/// What has to be done after a message.
#[derive(Clone, Copy, PartialEq, Eq, Structural, Debug)]
pub enum Effect {
    Nothing,
    /// Ask for a file, and report the answer as [`Message::FilePickResult`].
    PickFile,
    /// Compute the heatmap anew, as [`App::recompute_image`] says.
    RecomputeImage,
}

/// How the heatmap is drawn.
#[derive(Clone, Copy, PartialEq, Eq, Structural, Debug)]
pub struct RenderParams {
    pub cell_pixels: u32,
    pub scale: Scale,
    pub palette: HeatmapPalette,
}

/// What becomes of the heatmap.
#[derive(Clone, Copy, PartialEq, Eq, Structural, Debug)]
pub enum Heatmap {
    /// It stays as it is.
    Keep,
    /// The bytes are out of reach: a blank takes its place.
    Blank,
    /// It shows the pairs among the bytes `lo..hi`.
    Render { lo: usize, hi: usize, mode: Mode, params: RenderParams },
}

/// A percentage, as a fraction.
#[derive(Clone, Copy, PartialEq, Eq, Structural, Debug)]
pub struct Percent {
    pub numerator: u128,
    pub denominator: u128,
}

/// What the window shows beside the heatmap.
#[derive(Clone, Copy, PartialEq, Eq, Structural, Debug)]
pub struct Screen {
    pub palette: HeatmapPalette,
    pub mode: Mode,
    pub scale: Scale,
    /// The size of the file that is being loaded is not known yet.
    pub reading_size: bool,
    /// How much of the file has been loaded; `None` when no load is under way.
    pub progress: Option<Percent>,
    pub rail: ByteRangeRail,
}

/// The state of the viewer. The bytes of the file are kept beside it, behind a lock: where a
/// method takes them, `None` stands for a lock that cannot be had.
pub struct App {
    pub path: String,
    /// Declared file size from metadata (selection and rail span). Equals the number of bytes
    /// read when a load is complete.
    pub file_total_len: usize,
    /// When `Some`, the file is being read for this generation and path.
    pub active_load: Option<LoadStreamKey>,
    /// Changes with each new file read.
    pub load_gen: u64,
    pub mode: Mode,
    pub palette: HeatmapPalette,
    pub scale: Scale,
    /// Pixels per edge of a heatmap cell.
    pub cell_slider: u32,
    /// File bytes represented by one band of the rail.
    pub rail_bytes_per_row: u32,
    /// Changes when bytes or rail layout change.
    pub rail_strip_generation: u64,
    /// Selection along the full file, 0 to 1 (top = start of file).
    pub range_start_norm: Coord,
    pub range_end_norm: Coord,
}

/// The next generation; the last one is followed by 0.
pub open spec fn bumped(generation: u64) -> u64 {
    if generation == u64::MAX {
        0
    } else {
        (generation + 1) as u64
    }
}

/// What is left of the bytes when the file is closed.
pub open spec fn cleared(buffer: Option<Seq<u8>>) -> Option<Seq<u8>> {
    match buffer {
        Some(_) => Some(Seq::empty()),
        None => None,
    }
}

/// `buffer` with `chunk` appended, as far as it does not outgrow `total` bytes.
pub open spec fn filled(buffer: Seq<u8>, chunk: Seq<u8>, total: int) -> Seq<u8> {
    let room = if buffer.len() < total {
        total - buffer.len()
    } else {
        0
    };
    if chunk.len() <= room {
        buffer + chunk
    } else {
        buffer + chunk.take(room)
    }
}

/// Appending to a file that is being loaded: whatever exceeds the declared size is dropped. Says
/// whether anything was appended.
fn append_chunk(bytes: &mut Vec<u8>, chunk: &Vec<u8>, total: usize) -> (grew: bool)
    ensures
        final(bytes)@ == filled(old(bytes)@, chunk@, total as int),
        grew == (final(bytes)@ != old(bytes)@),
{
    let room: usize = total.saturating_sub(bytes.len());
    let take: usize = if chunk.len() < room {
        chunk.len()
    } else {
        room
    };
    if take > 0 {
        bytes.extend_from_slice(vstd::slice::slice_subrange(chunk.as_slice(), 0, take));
    }
    assert(bytes@ =~= filled(old(bytes)@, chunk@, total as int));
    take > 0
}

/// [`Vec::try_reserve_exact`]: asks for room for `additional` further bytes, and says whether it
/// was given. The bytes themselves stay as they are, given or not. Room for none is always there;
/// a capacity of more than `isize::MAX` bytes is never given. Whether there is room for anything in
/// between is up to the machine.
#[verifier::external_body]
fn try_reserve_exact(bytes: &mut Vec<u8>, additional: usize) -> (reserved: bool)
    ensures
        final(bytes)@ == old(bytes)@,
        additional == 0 ==> reserved,
        old(bytes)@.len() + additional > isize::MAX ==> !reserved,
{
    bytes.try_reserve_exact(additional).is_ok()
}

impl App {
    /// What every message keeps: the declared size is one that a buffer can have, and the ends of
    /// the selection lie in the file.
    pub open spec fn wf(self) -> bool {
        &&& self.file_total_len <= isize::MAX
        &&& self.range_start_norm.unit_or_nan()
        &&& self.range_end_norm.unit_or_nan()
    }

    /// The state after `msg`, when the bytes are `buffer` before it. `reserved`: the room that
    /// [`Message::FileLoadMeta`] asks for has been reserved.
    pub open spec fn after(self, msg: Message, buffer: Option<Seq<u8>>, reserved: bool) -> App {
        let generation = bumped(self.rail_strip_generation);
        match msg {
            Message::Palette(palette) => App { palette, ..self },
            Message::Mode(mode) => App { mode, ..self },
            Message::Scale(scale) => App { scale, ..self },
            Message::PickFile => self,
            Message::FilePickResult(Ok(path)) => App {
                path,
                range_start_norm: crate::coord::zero(),
                range_end_norm: crate::coord::one(),
                file_total_len: 0,
                load_gen: bumped(self.load_gen),
                active_load: Some(LoadStreamKey { gen: bumped(self.load_gen), path }),
                rail_strip_generation: generation,
                ..self
            },
            Message::FilePickResult(Err(_)) => self,
            Message::FileLoadMeta { total_len } => if reserved {
                App { file_total_len: total_len, rail_strip_generation: generation, ..self }
            } else {
                App {
                    active_load: None,
                    file_total_len: 0,
                    rail_strip_generation: generation,
                    ..self
                }
            },
            Message::FileLoadChunk(chunk) => match buffer {
                Some(b) if filled(b, chunk@, self.file_total_len as int) != b => App {
                    rail_strip_generation: generation,
                    ..self
                },
                _ => self,
            },
            Message::FileLoadDone => App {
                file_total_len: match buffer {
                    Some(b) => b.len() as usize,
                    None => self.file_total_len,
                },
                active_load: None,
                rail_strip_generation: generation,
                ..self
            },
            Message::FileLoadErr(_) => App {
                active_load: None,
                file_total_len: 0,
                rail_strip_generation: generation,
                ..self
            },
            Message::RangeChanged(r) => App {
                range_start_norm: r.start.clamped(crate::coord::zero(), crate::coord::one()),
                range_end_norm: r.end.clamped(crate::coord::zero(), crate::coord::one()),
                ..self
            },
        }
    }

    /// The bytes after `msg`.
    pub open spec fn bytes_after(self, msg: Message, buffer: Option<Seq<u8>>) -> Option<Seq<u8>> {
        match msg {
            Message::FilePickResult(Ok(_)) => cleared(buffer),
            Message::FileLoadMeta { .. } => cleared(buffer),
            Message::FileLoadChunk(chunk) => match buffer {
                Some(b) => Some(filled(b, chunk@, self.file_total_len as int)),
                None => None,
            },
            Message::FileLoadErr(_) => cleared(buffer),
            _ => buffer,
        }
    }

    /// What `msg` calls for.
    pub open spec fn effect_of(msg: Message, reserved: bool) -> Effect {
        match msg {
            Message::Palette(_) => Effect::RecomputeImage,
            Message::Mode(_) => Effect::RecomputeImage,
            Message::Scale(_) => Effect::RecomputeImage,
            Message::PickFile => Effect::PickFile,
            Message::FilePickResult(_) => Effect::Nothing,
            Message::FileLoadMeta { .. } => if reserved {
                Effect::Nothing
            } else {
                Effect::RecomputeImage
            },
            Message::FileLoadChunk(_) => Effect::Nothing,
            Message::FileLoadDone => Effect::RecomputeImage,
            Message::FileLoadErr(_) => Effect::RecomputeImage,
            Message::RangeChanged(_) => Effect::RecomputeImage,
        }
    }

    /// Apply a message. `reserved`: the room that [`Message::FileLoadMeta`] asks for has been
    /// reserved in `bytes`.
    pub fn apply(&mut self, bytes: Option<&mut Vec<u8>>, msg: Message, reserved: bool) -> (effect:
        Effect)
        ensures
            *final(self) == old(self).after(
                msg,
                match bytes {
                    Some(b) => Some(b@),
                    None => None,
                },
                reserved,
            ),
            match bytes {
                Some(b) => Some(final(b)@) == old(self).bytes_after(msg, Some(b@)),
                None => true,
            },
            effect == App::effect_of(msg, reserved),
    {
        match msg {
            Message::Palette(p) => {
                self.palette = p;
                Effect::RecomputeImage
            },
            Message::Mode(m) => {
                self.mode = m;
                Effect::RecomputeImage
            },
            Message::Scale(scale) => {
                self.scale = scale;
                Effect::RecomputeImage
            },
            Message::PickFile => Effect::PickFile,
            Message::FilePickResult(Ok(path)) => {
                self.range_start_norm = Coord { bits: ZERO_BITS };
                self.range_end_norm = Coord { bits: ONE_BITS };
                self.file_total_len = 0;
                if let Some(b) = bytes {
                    b.clear();
                }
                self.load_gen = self.load_gen.wrapping_add(1);
                self.active_load = Some(LoadStreamKey { gen: self.load_gen, path: path.clone() });
                self.path = path;
                self.rail_strip_generation = self.rail_strip_generation.wrapping_add(1);
                Effect::Nothing
            },
            Message::FilePickResult(Err(_)) => Effect::Nothing,
            Message::FileLoadMeta { total_len } => {
                self.file_total_len = total_len;
                if let Some(b) = bytes {
                    b.clear();
                }
                if !reserved {
                    self.active_load = None;
                    self.file_total_len = 0;
                    self.rail_strip_generation = self.rail_strip_generation.wrapping_add(1);
                    return Effect::RecomputeImage;
                }
                self.rail_strip_generation = self.rail_strip_generation.wrapping_add(1);
                Effect::Nothing
            },
            Message::FileLoadChunk(chunk) => {
                if let Some(b) = bytes {
                    if append_chunk(b, &chunk, self.file_total_len) {
                        self.rail_strip_generation = self.rail_strip_generation.wrapping_add(1);
                    }
                }
                Effect::Nothing
            },
            Message::FileLoadDone => {
                self.active_load = None;
                if let Some(b) = bytes {
                    self.file_total_len = b.len();
                }
                self.rail_strip_generation = self.rail_strip_generation.wrapping_add(1);
                Effect::RecomputeImage
            },
            Message::FileLoadErr(_) => {
                self.active_load = None;
                if let Some(b) = bytes {
                    b.clear();
                }
                self.file_total_len = 0;
                self.rail_strip_generation = self.rail_strip_generation.wrapping_add(1);
                Effect::RecomputeImage
            },
            Message::RangeChanged(r) => {
                self.range_start_norm = r.start.clamp_unit();
                self.range_end_norm = r.end.clamp_unit();
                Effect::RecomputeImage
            },
        }
    }

    /// Whether the room that `msg` asks for can turn out to be `reserved`; `at_hand`: there is a
    /// buffer to reserve it in.
    pub open spec fn may_reserve(msg: Message, at_hand: bool, reserved: bool) -> bool {
        match msg {
            Message::FileLoadMeta { total_len } => {
                &&& reserved ==> at_hand && total_len <= isize::MAX
                &&& at_hand && total_len == 0 ==> reserved
            },
            _ => true,
        }
    }

    /// Handle a message.
    pub fn update(&mut self, bytes: Option<&mut Vec<u8>>, msg: Message) -> (effect: Effect)
        ensures
            exists|reserved: bool|
                {
                    &&& #[trigger] App::may_reserve(msg, bytes is Some, reserved)
                    &&& *final(self) == old(self).after(
                        msg,
                        match bytes {
                            Some(b) => Some(b@),
                            None => None,
                        },
                        reserved,
                    )
                    &&& effect == App::effect_of(msg, reserved)
                },
            match bytes {
                Some(b) => Some(final(b)@) == old(self).bytes_after(msg, Some(b@)),
                None => true,
            },
            old(self).wf() && (bytes matches Some(b) ==> b@.len() <= isize::MAX) ==> final(self).wf(),
    {
        match msg {
            Message::FileLoadMeta { total_len } => match bytes {
                Some(b) => {
                    b.clear();
                    let reserved = try_reserve_exact(b, total_len);
                    assert(App::may_reserve(msg, true, reserved));
                    self.apply(Some(b), Message::FileLoadMeta { total_len }, reserved)
                },
                None => {
                    assert(App::may_reserve(msg, false, false));
                    self.apply(None, Message::FileLoadMeta { total_len }, false)
                },
            },
            _ => {
                assert(App::may_reserve(msg, bytes is Some, false));
                self.apply(bytes, msg, false)
            },
        }
    }

    /// A viewer for a file of `total` bytes that have been read already.
    pub open spec fn opened(path: String, total: usize, palette: HeatmapPalette) -> App {
        App {
            path,
            file_total_len: total,
            active_load: None,
            load_gen: 0,
            mode: Mode::NonOverlapping,
            palette,
            scale: Scale::CantorDust,
            cell_slider: 2,
            rail_bytes_per_row: 64,
            rail_strip_generation: 1,
            range_start_norm: crate::coord::zero(),
            range_end_norm: crate::coord::one(),
        }
    }

    /// Start with a file whose bytes have been read already; the heatmap is still to be computed.
    pub fn init(path: String, bytes: &Vec<u8>, palette: HeatmapPalette) -> (r: (App, Effect))
        ensures
            r.0 == App::opened(path, bytes.len(), palette),
            bytes@.len() <= isize::MAX ==> r.0.wf(),
            r.1 == Effect::RecomputeImage,
    {
        let app = App {
            path,
            file_total_len: bytes.len(),
            active_load: None,
            load_gen: 0,
            mode: Mode::NonOverlapping,
            palette,
            scale: Scale::CantorDust,
            cell_slider: 2,
            rail_bytes_per_row: 64,
            rail_strip_generation: 1,
            range_start_norm: Coord { bits: ZERO_BITS },
            range_end_norm: Coord { bits: ONE_BITS },
        };
        (app, Effect::RecomputeImage)
    }

    /// The file read that is wanted at present.
    pub fn subscription(&self) -> (key: Option<&LoadStreamKey>)
        ensures
            match key {
                Some(k) => self.active_load == Some(*k),
                None => self.active_load is None,
            },
    {
        match &self.active_load {
            Some(key) => Some(key),
            None => None,
        }
    }

    /// Progress 0 to 100 while a chunked file load is active.
    pub open spec fn percent(self, loaded: int) -> (int, int) {
        if self.file_total_len == 0 {
            (0, 1)
        } else if loaded < self.file_total_len {
            (100 * loaded, self.file_total_len as int)
        } else {
            (100 * self.file_total_len, self.file_total_len as int)
        }
    }

    /// Progress 0 to 100 while a chunked file load is active.
    pub fn load_percent(&self, loaded: usize) -> (p: Percent)
        ensures
            p.numerator == self.percent(loaded as int).0,
            p.denominator == self.percent(loaded as int).1,
            p.denominator > 0,
            p.numerator <= 100 * p.denominator,
    {
        if self.file_total_len == 0 {
            return Percent { numerator: 0, denominator: 1 };
        }
        let total: u128 = self.file_total_len as u128;
        let loaded: u128 = loaded as u128;
        let part: u128 = if loaded < total {
            loaded
        } else {
            total
        };
        Percent { numerator: 100 * part, denominator: total }
    }

    /// Byte span for selection handles, in logical file coordinates.
    pub open spec fn span(self, loaded: int) -> int {
        if self.file_total_len > 0 {
            self.file_total_len as int
        } else if self.active_load is Some {
            0
        } else if loaded < 1 {
            1
        } else {
            loaded
        }
    }

    /// Byte span for selection handles, in logical file coordinates.
    pub fn selection_span_bytes(&self, loaded: usize) -> (n: usize)
        ensures
            n == self.span(loaded as int),
    {
        if self.file_total_len > 0 {
            self.file_total_len
        } else if self.active_load.is_some() {
            0
        } else if loaded < 1 {
            1
        } else {
            loaded
        }
    }

    /// The selected bytes, when `loaded` bytes have been read. `lo` and `hi` are where the two ends
    /// of the selection fall in the span, rounded outwards.
    pub fn selected_byte_range(&self, loaded: usize, lo: i64, hi: i64) -> (range: (usize, usize))
        requires
            self.file_total_len <= isize::MAX,
            loaded <= isize::MAX,
        ensures
            range.0 == selected(self.span(loaded as int), lo as int, hi as int).0,
            range.1 == selected(self.span(loaded as int), lo as int, hi as int).1,
    {
        let n: usize = self.selection_span_bytes(loaded);
        if n == 0 {
            return (0, 0);
        }
        let first: i64 = if lo < 0 {
            0
        } else if lo > n as i64 - 1 {
            n as i64 - 1
        } else {
            lo
        };
        let end: i64 = if hi < 1 {
            1
        } else if hi > n as i64 {
            n as i64
        } else {
            hi
        };
        let first: usize = first as usize;
        let mut end: usize = end as usize;
        if end <= first {
            end = if first + 1 < n {
                first + 1
            } else {
                n
            };
        }
        (first, end)
    }

    /// What becomes of the heatmap when `loaded` bytes can be read (`None`: they are out of reach)
    /// and the ends of the selection fall on `lo` and `hi`.
    pub open spec fn heatmap(self, loaded: Option<int>, lo: int, hi: int) -> Heatmap {
        if self.active_load is Some {
            Heatmap::Keep
        } else {
            match loaded {
                None => Heatmap::Blank,
                Some(loaded) => {
                    let (lo, hi) = selected(self.span(loaded), lo, hi);
                    let hi = if hi < loaded {
                        hi
                    } else {
                        loaded
                    };
                    let lo = if lo < hi {
                        lo
                    } else {
                        hi
                    };
                    Heatmap::Render {
                        lo: lo as usize,
                        hi: hi as usize,
                        mode: self.mode,
                        params: RenderParams {
                            cell_pixels: cell_edge(self.cell_slider),
                            scale: self.scale,
                            palette: self.palette,
                        },
                    }
                },
            }
        }
    }

    /// What becomes of the heatmap. `lo` and `hi` are where the two ends of the selection fall in
    /// the span, rounded outwards.
    pub fn recompute_image(&self, bytes: Option<&[u8]>, lo: i64, hi: i64) -> (map: Heatmap)
        requires
            self.file_total_len <= isize::MAX,
            bytes matches Some(b) ==> b@.len() <= isize::MAX,
        ensures
            map == self.heatmap(
                match bytes {
                    Some(b) => Some(b@.len() as int),
                    None => None,
                },
                lo as int,
                hi as int,
            ),
    {
        if self.active_load.is_some() {
            return Heatmap::Keep;
        }
        match bytes {
            None => Heatmap::Blank,
            Some(b) => {
                let loaded: usize = b.len();
                let (lo, hi) = self.selected_byte_range(loaded, lo, hi);
                let hi: usize = if hi < loaded {
                    hi
                } else {
                    loaded
                };
                let lo: usize = if lo < hi {
                    lo
                } else {
                    hi
                };
                let cell_pixels: u32 = if self.cell_slider < 1 {
                    1
                } else if self.cell_slider > 8 {
                    8
                } else {
                    self.cell_slider
                };
                Heatmap::Render {
                    lo,
                    hi,
                    mode: self.mode,
                    params: RenderParams {
                        cell_pixels,
                        scale: self.scale,
                        palette: self.palette,
                    },
                }
            },
        }
    }

    /// The length that the rail stands for.
    pub open spec fn rail_len(self, loaded: usize) -> usize {
        if self.file_total_len > 0 {
            self.file_total_len
        } else if self.active_load is Some {
            1
        } else {
            loaded
        }
    }

    /// The rail, when `loaded` bytes have been read.
    pub open spec fn rail(self, loaded: usize) -> ByteRangeRail {
        ByteRangeRail {
            range_start_norm: self.range_start_norm,
            range_end_norm: self.range_end_norm,
            total_len: self.rail_len(loaded),
            row_width: Coord { bits: RAIL_ROW_WIDTH_BITS },
            bytes_per_row: crate::strip::at_least_one(self.rail_bytes_per_row as int) as u32,
            strip_generation: self.rail_strip_generation,
        }
    }

    /// What the window shows when `loaded` bytes have been read.
    pub open spec fn screen(self, loaded: usize) -> Screen {
        Screen {
            palette: self.palette,
            mode: self.mode,
            scale: self.scale,
            reading_size: self.active_load is Some && self.file_total_len == 0,
            progress: if self.active_load is Some {
                Some(
                    Percent {
                        numerator: self.percent(loaded as int).0 as u128,
                        denominator: self.percent(loaded as int).1 as u128,
                    },
                )
            } else {
                None
            },
            rail: self.rail(loaded),
        }
    }

    /// What the window shows when `loaded` bytes have been read.
    pub fn view(&self, loaded: usize) -> (screen: Screen)
        ensures
            screen.palette == self.palette,
            screen.mode == self.mode,
            screen.scale == self.scale,
            screen.reading_size == (self.active_load is Some && self.file_total_len == 0),
            match screen.progress {
                Some(p) => self.active_load is Some && p.numerator == self.percent(loaded as int).0
                    && p.denominator == self.percent(loaded as int).1,
                None => self.active_load is None,
            },
            screen.rail == self.rail(loaded),
            screen == self.screen(loaded),
    {
        let loading = self.active_load.is_some();
        let total_len: usize = if self.file_total_len > 0 {
            self.file_total_len
        } else if loading {
            1
        } else {
            loaded
        };
        let row_width = Coord { bits: RAIL_ROW_WIDTH_BITS };
        let narrowest = Coord { bits: LEAST_ROW_WIDTH_BITS };
        let widest = Coord { bits: GREATEST_ROW_WIDTH_BITS };
        Screen {
            palette: self.palette,
            mode: self.mode,
            scale: self.scale,
            reading_size: loading && self.file_total_len == 0,
            progress: if loading {
                Some(self.load_percent(loaded))
            } else {
                None
            },
            rail: ByteRangeRail {
                range_start_norm: self.range_start_norm,
                range_end_norm: self.range_end_norm,
                total_len,
                row_width: row_width.clamp(narrowest, widest),
                bytes_per_row: if self.rail_bytes_per_row < 1 {
                    1
                } else {
                    self.rail_bytes_per_row
                },
                strip_generation: self.rail_strip_generation,
            },
        }
    }
}

/// Bits of 100.0: the width of the byte rail in pixels.
pub const RAIL_ROW_WIDTH_BITS: u32 = 0x42c8_0000;

/// Bits of 2.0 and 256.0: the limits of that width.
pub const LEAST_ROW_WIDTH_BITS: u32 = 0x4000_0000;

pub const GREATEST_ROW_WIDTH_BITS: u32 = 0x4380_0000;

/// The rail is 100 pixels wide, within its limits of 2 and 256.
pub proof fn law_row_width()
    ensures
        crate::coord::stands_for(Coord { bits: RAIL_ROW_WIDTH_BITS }, 100),
        crate::coord::stands_for(Coord { bits: LEAST_ROW_WIDTH_BITS }, 2),
        crate::coord::stands_for(Coord { bits: GREATEST_ROW_WIDTH_BITS }, 256),
        (Coord { bits: LEAST_ROW_WIDTH_BITS }).below(Coord { bits: RAIL_ROW_WIDTH_BITS }),
        (Coord { bits: RAIL_ROW_WIDTH_BITS }).below(Coord { bits: GREATEST_ROW_WIDTH_BITS }),
{
    vstd::arithmetic::power2::lemma2_to64();
    vstd::arithmetic::power2::lemma_pow2_pos(149);
    crate::coord::lemma_whole_number(RAIL_ROW_WIDTH_BITS, 133, 0x48_0000, 100, 17);
    crate::coord::lemma_whole_number(LEAST_ROW_WIDTH_BITS, 128, 0, 2, 22);
    crate::coord::lemma_whole_number(GREATEST_ROW_WIDTH_BITS, 135, 0, 256, 15);
}

/// Pixels per edge of a heatmap cell: the slider's value, held to 1 to 8.
pub open spec fn cell_edge(slider: u32) -> u32 {
    if slider < 1 {
        1
    } else if slider > 8 {
        8
    } else {
        slider
    }
}

/// The bytes selected out of `n` when the ends of the selection fall on `lo` and `hi`: the ends
/// are moved into the file, and at least one byte stays selected. Of nothing, nothing is.
pub open spec fn selected(n: int, lo: int, hi: int) -> (int, int) {
    let first = if lo < 0 {
        0
    } else if lo > n - 1 {
        n - 1
    } else {
        lo
    };
    let end = if hi < 1 {
        1
    } else if hi > n {
        n
    } else {
        hi
    };
    if n == 0 {
        (0, 0)
    } else if end <= first {
        (first, first + 1)
    } else {
        (first, end)
    }
}

/// The number of bytes that can be read.
pub fn loaded_len(bytes: Option<&[u8]>) -> (n: usize)
    ensures
        n == match bytes {
            Some(b) => b@.len() as int,
            None => 0,
        },
{
    match bytes {
        Some(b) => b.len(),
        None => 0,
    }
}

/// A picture, row by row, 4 bytes per pixel.
pub struct Pixels {
    pub width: u32,
    pub height: u32,
    pub rgba: Vec<u8>,
}

/// The blank that stands in for a heatmap: one black pixel.
pub fn blank_pixels() -> (p: Pixels)
    ensures
        p.width == 1,
        p.height == 1,
        p.rgba@ == seq![0u8, 0u8, 0u8, 255u8],
{
    let mut rgba: Vec<u8> = Vec::new();
    rgba.push(0);
    rgba.push(0);
    rgba.push(0);
    rgba.push(255);
    assert(rgba@ =~= seq![0u8, 0u8, 0u8, 255u8]);
    Pixels { width: 1, height: 1, rgba }
}

/// Every message keeps the viewer well-formed, and the buffer never outgrows the declared size.
pub proof fn law_buffer_stays_within_file(
    app: App,
    buffer: Seq<u8>,
    msg: Message,
    reserved: bool,
)
    requires
        app.wf(),
        buffer.len() <= app.file_total_len,
        App::may_reserve(msg, true, reserved),
    ensures
        app.after(msg, Some(buffer), reserved).wf(),
        app.bytes_after(msg, Some(buffer)) matches Some(b) && b.len() <= app.after(
            msg,
            Some(buffer),
            reserved,
        ).file_total_len,
{
}

/// Opening another file makes a read of its own: its generation is not the present one, and it
/// starts from an empty buffer with everything selected.
pub proof fn law_new_pick_replaces_load(app: App, buffer: Seq<u8>, path: String)
    ensures
        ({
            let msg = Message::FilePickResult(Ok(path));
            let next = app.after(msg, Some(buffer), false);
            &&& next.active_load matches Some(key) && key.gen == next.load_gen && key.gen
                != app.load_gen && key.path == path
            &&& next.path == path
            &&& next.file_total_len == 0
            &&& app.bytes_after(msg, Some(buffer)) == Some(Seq::<u8>::empty())
            &&& crate::coord::stands_for(next.range_start_norm, 0)
            &&& crate::coord::stands_for(next.range_end_norm, 1)
        }),
{
    crate::coord::law_zero_and_one();
}

/// The keys of reads follow the load generation: only opening a file changes it, and the read
/// that is under way always belongs to the present one.
pub proof fn law_active_load_has_present_generation(
    app: App,
    msg: Message,
    buffer: Option<Seq<u8>>,
    reserved: bool,
)
    requires
        app.active_load matches Some(key) ==> key.gen == app.load_gen,
    ensures
        app.after(msg, buffer, reserved).active_load matches Some(key) ==> key.gen == app.after(
            msg,
            buffer,
            reserved,
        ).load_gen,
        app.after(msg, buffer, reserved).load_gen != app.load_gen <==> (
        msg matches Message::FilePickResult(Ok(_))),
{
}

/// Calling the file dialog off changes nothing.
pub proof fn law_canceled_pick_changes_nothing(
    app: App,
    buffer: Option<Seq<u8>>,
    reason: String,
    reserved: bool,
)
    ensures
        app.after(Message::FilePickResult(Err(reason)), buffer, reserved) == app,
        app.bytes_after(Message::FilePickResult(Err(reason)), buffer) == buffer,
        App::effect_of(Message::FilePickResult(Err(reason)), reserved) == Effect::Nothing,
{
}

/// Whenever the bytes or the size of the file change, the strip is painted anew; it is painted anew
/// also after every message that opens a file, learns its size, or ends its load, and after no
/// other.
pub proof fn law_strip_generation_moves(app: App, buffer: Seq<u8>, msg: Message, reserved: bool)
    ensures
        ({
            let next = app.after(msg, Some(buffer), reserved);
            let bytes_change = app.bytes_after(msg, Some(buffer)) != Some(buffer);
            let size_changes = next.file_total_len != app.file_total_len;
            let load_moves = (msg matches Message::FilePickResult(Ok(_))) || msg is FileLoadMeta
                || msg is FileLoadDone || msg is FileLoadErr;
            &&& bytes_change || size_changes ==> next.rail_strip_generation == bumped(
                app.rail_strip_generation,
            )
            &&& next.rail_strip_generation == if bytes_change || load_moves {
                bumped(app.rail_strip_generation)
            } else {
                app.rail_strip_generation
            }
            &&& bumped(app.rail_strip_generation) != app.rail_strip_generation
        }),
{
}

/// The heatmap stands still while a load is active: no chunk makes it be computed or changes
/// anything that it depends on, and the end of the load, good or bad, makes it be computed.
pub proof fn law_heatmap_waits_for_load(
    app: App,
    msg: Message,
    buffer: Option<Seq<u8>>,
    reserved: bool,
    loaded: Option<int>,
    lo: int,
    hi: int,
)
    requires
        app.active_load is Some,
    ensures
        ({
            let next = app.after(msg, buffer, reserved);
            &&& app.heatmap(loaded, lo, hi) == Heatmap::Keep
            &&& msg is FileLoadChunk ==> App::effect_of(msg, reserved) == Effect::Nothing && next
                == (App { rail_strip_generation: next.rail_strip_generation, ..app })
            &&& next.active_load is None ==> App::effect_of(msg, reserved)
                == Effect::RecomputeImage && next.heatmap(loaded, lo, hi) != Heatmap::Keep
            &&& msg is FileLoadDone || msg is FileLoadErr ==> next.active_load is None
        }),
{
}

/// When a load is done, the size of the file is the number of bytes that were read, the rail shows
/// those bytes and no placeholder, and the heatmap is computed from exactly the selected ones.
pub proof fn law_done_load_has_true_size(
    app: App,
    buffer: Seq<u8>,
    reserved: bool,
    strip: crate::strip::Strip,
    lo: int,
    hi: int,
)
    requires
        buffer.len() <= usize::MAX,
        ({
            let rail = app.after(Message::FileLoadDone, Some(buffer), reserved).rail(
                buffer.len() as usize,
            );
            crate::strip::shows(
                strip,
                Some(buffer),
                rail.total_len as int,
                rail.bytes_per_row as int,
            )
        }),
    ensures
        ({
            let done = app.after(Message::FileLoadDone, Some(buffer), reserved);
            &&& app.bytes_after(Message::FileLoadDone, Some(buffer)) == Some(buffer)
            &&& done.file_total_len == buffer.len()
            &&& done.rail(buffer.len() as usize).total_len == buffer.len()
            &&& if buffer.len() == 0 {
                strip is Blank
            } else {
                strip is Bands
            }
            &&& buffer.len() > 0 ==> (done.heatmap(
                Some(buffer.len() as int),
                lo,
                hi,
            ) matches Heatmap::Render { lo: first, hi: end, .. } && (first as int, end as int)
                == selected(buffer.len() as int, lo, hi))
        }),
{
    let done = app.after(Message::FileLoadDone, Some(buffer), reserved);
    law_heatmap_reads_loaded_bytes(done, buffer.len() as usize, lo, hi);
}

/// A failed read leaves nothing behind: no bytes, no size, no load.
pub proof fn law_failed_load_leaves_nothing(
    app: App,
    buffer: Seq<u8>,
    reason: String,
    total_len: usize,
)
    ensures
        ({
            let failed = app.after(Message::FileLoadErr(reason), Some(buffer), false);
            let refused = app.after(Message::FileLoadMeta { total_len }, Some(buffer), false);
            &&& failed.file_total_len == 0 && failed.active_load is None
            &&& refused.file_total_len == 0 && refused.active_load is None
            &&& app.bytes_after(Message::FileLoadErr(reason), Some(buffer)) == Some(
                Seq::<u8>::empty(),
            )
            &&& app.bytes_after(Message::FileLoadMeta { total_len }, Some(buffer)) == Some(
                Seq::<u8>::empty(),
            )
        }),
{
}

/// Choosing how to look at a file, and what part of it, never touches the file or its load.
pub proof fn law_view_settings_keep_file(
    app: App,
    buffer: Option<Seq<u8>>,
    msg: Message,
    reserved: bool,
)
    requires
        msg is Palette || msg is Mode || msg is Scale || msg is RangeChanged,
    ensures
        ({
            let next = app.after(msg, buffer, reserved);
            &&& app.bytes_after(msg, buffer) == buffer
            &&& next.path == app.path
            &&& next.file_total_len == app.file_total_len
            &&& next.active_load == app.active_load
            &&& next.load_gen == app.load_gen
            &&& next.rail_strip_generation == app.rail_strip_generation
        }),
{
}

/// While a load is active and the bytes do not reach the declared size, the rail shows a
/// placeholder; once they do, it shows the file.
pub proof fn law_placeholder_until_loaded(app: App, buffer: Seq<u8>, strip: crate::strip::Strip)
    requires
        app.active_load is Some,
        buffer.len() <= app.file_total_len,
        crate::strip::shows(
            strip,
            Some(buffer),
            app.rail(buffer.len() as usize).total_len as int,
            app.rail(buffer.len() as usize).bytes_per_row as int,
        ),
    ensures
        strip is Placeholder <==> buffer.len() < app.file_total_len || app.file_total_len == 0,
        strip is Bands <==> 0 < buffer.len() == app.file_total_len,
{
}

/// A selection in a file is never empty and never leaves the file; one that reaches both ends is
/// the whole file.
pub proof fn law_selection_inside_file(n: int, lo: int, hi: int)
    requires
        n > 0,
    ensures
        0 <= selected(n, lo, hi).0 < selected(n, lo, hi).1 <= n,
        lo <= 0 && n <= hi ==> selected(n, lo, hi) == (0int, n),
        0 <= lo < hi <= n ==> selected(n, lo, hi) == (lo, hi),
{
}

/// The heatmap is computed from bytes that have been read; of a file that has been read whole,
/// from exactly the selected ones.
pub proof fn law_heatmap_reads_loaded_bytes(app: App, loaded: usize, lo: int, hi: int)
    ensures
        app.heatmap(Some(loaded as int), lo, hi) matches Heatmap::Render {
            lo: first,
            hi: end,
            params,
            ..
        } ==> first <= end <= loaded && 1 <= params.cell_pixels <= 8,
        app.active_load is None && app.file_total_len == loaded && loaded > 0 ==> (app.heatmap(
            Some(loaded as int),
            lo,
            hi,
        ) matches Heatmap::Render { lo: first, hi: end, .. } && first < end && (first as int, end as int)
            == selected(loaded as int, lo, hi)),
{
    if app.span(loaded as int) > 0 {
        law_selection_inside_file(app.span(loaded as int), lo, hi);
    }
}

/// A selection inside the file is taken over as it is.
pub proof fn law_selection_inside_rail_is_kept(
    app: App,
    r: RangeChanged,
    buffer: Option<Seq<u8>>,
    reserved: bool,
)
    requires
        r.start.unit_or_nan(),
        r.end.unit_or_nan(),
    ensures
        ({
            let next = app.after(Message::RangeChanged(r), buffer, reserved);
            next.range_start_norm == r.start && next.range_end_norm == r.end
        }),
{
}

/// Progress never goes back as bytes arrive, and is 100 percent exactly when the declared size
/// has been reached.
pub proof fn law_progress_grows(app: App, earlier: int, later: int)
    requires
        0 <= earlier <= later,
    ensures
        ({
            let ((n0, d0), (n1, d1)) = (app.percent(earlier), app.percent(later));
            &&& d0 > 0 && d1 > 0
            &&& 0 <= n0 <= 100 * d0
            &&& n0 * d1 <= n1 * d0
            &&& n1 == 100 * d1 <==> 0 < app.file_total_len <= later
        }),
{
    let ((n0, d0), (n1, d1)) = (app.percent(earlier), app.percent(later));
    assert(n0 * d1 <= n1 * d0) by (nonlinear_arith)
        requires
            n0 <= n1,
            d0 == d1,
            d0 > 0,
    ;
}

/// The chunks of a file, put together.
pub open spec fn joined(chunks: Seq<Vec<u8>>) -> Seq<u8>
    decreases chunks.len(),
{
    if chunks.len() == 0 {
        Seq::empty()
    } else {
        joined(chunks.drop_last()) + chunks.last()@
    }
}

/// The messages of a load that goes well.
pub open spec fn load_messages(total_len: usize, chunks: Seq<Vec<u8>>) -> Seq<Message> {
    seq![Message::FileLoadMeta { total_len }] + chunks.map_values(
        |c: Vec<u8>| Message::FileLoadChunk(c),
    ) + seq![Message::FileLoadDone]
}

/// The viewer and its bytes after several messages; all room asked for is there.
pub open spec fn after_all(app: App, buffer: Seq<u8>, msgs: Seq<Message>) -> (App, Seq<u8>)
    decreases msgs.len(),
{
    if msgs.len() == 0 {
        (app, buffer)
    } else {
        let (a, b) = after_all(app, buffer, msgs.drop_last());
        (
            a.after(msgs.last(), Some(b), true),
            match a.bytes_after(msgs.last(), Some(b)) {
                Some(c) => c,
                None => b,
            },
        )
    }
}

/// As much of `s` as fits in `n` bytes.
pub open spec fn at_most(s: Seq<u8>, n: int) -> Seq<u8> {
    if s.len() <= n {
        s
    } else {
        s.take(n)
    }
}

/// A load that is under way: after the size and some chunks.
proof fn lemma_chunks_fill(app: App, buffer: Seq<u8>, total_len: usize, chunks: Seq<Vec<u8>>)
    ensures
        ({
            let meta = Message::FileLoadMeta { total_len };
            let sent = seq![meta] + chunks.map_values(|c: Vec<u8>| Message::FileLoadChunk(c));
            let (a, b) = after_all(app, buffer, sent);
            &&& a == (App {
                file_total_len: total_len,
                rail_strip_generation: a.rail_strip_generation,
                ..app
            })
            &&& b == at_most(joined(chunks), total_len as int)
        }),
    decreases chunks.len(),
{
    let meta = Message::FileLoadMeta { total_len };
    let sent = seq![meta] + chunks.map_values(|c: Vec<u8>| Message::FileLoadChunk(c));
    if chunks.len() == 0 {
        assert(sent =~= seq![meta]);
        assert(sent.drop_last() =~= Seq::<Message>::empty());
        assert(after_all(app, buffer, sent.drop_last()) == (app, buffer));
    } else {
        let before = chunks.drop_last();
        let sent_before = seq![meta] + before.map_values(|c: Vec<u8>| Message::FileLoadChunk(c));
        lemma_chunks_fill(app, buffer, total_len, before);
        assert(sent.drop_last() =~= sent_before);
        assert(sent.last() == Message::FileLoadChunk(chunks.last()));
        assert(filled(
            at_most(joined(before), total_len as int),
            chunks.last()@,
            total_len as int,
        ) =~= at_most(joined(chunks), total_len as int));
    }
}

/// A load that goes well leaves in the buffer the chunks in the order in which they were read,
/// cut off at the declared size, and nothing of the file before. The size of the file is then what
/// was read: the declared size, unless the chunks fell short of it.
pub proof fn law_load_fills_buffer(
    app: App,
    buffer: Seq<u8>,
    total_len: usize,
    chunks: Seq<Vec<u8>>,
)
    ensures
        ({
            let (a, b) = after_all(app, buffer, load_messages(total_len, chunks));
            &&& b == at_most(joined(chunks), total_len as int)
            &&& a.file_total_len == b.len()
            &&& joined(chunks).len() >= total_len ==> a.file_total_len == total_len
            &&& a.active_load is None
            &&& a.path == app.path
            &&& joined(chunks).len() == total_len ==> b == joined(chunks)
        }),
{
    let meta = Message::FileLoadMeta { total_len };
    let sent = seq![meta] + chunks.map_values(|c: Vec<u8>| Message::FileLoadChunk(c));
    lemma_chunks_fill(app, buffer, total_len, chunks);
    assert(load_messages(total_len, chunks).drop_last() =~= sent);
    assert(load_messages(total_len, chunks).last() == Message::FileLoadDone);
}

/// Generations count upwards and begin again at 0 only when they run out.
pub proof fn law_generations_count(generation: u64)
    ensures
        bumped(generation) as int == (generation + 1) % 0x1_0000_0000_0000_0000,
{
}

/// What is chosen holds from then on, and choosing one setting leaves the other two alone.
pub proof fn law_settings_are_chosen(
    app: App,
    buffer: Option<Seq<u8>>,
    reserved: bool,
    palette: HeatmapPalette,
    mode: Mode,
    scale: Scale,
)
    ensures
        ({
            let next = app.after(Message::Palette(palette), buffer, reserved);
            next.palette == palette && next.mode == app.mode && next.scale == app.scale
        }),
        ({
            let next = app.after(Message::Mode(mode), buffer, reserved);
            next.palette == app.palette && next.mode == mode && next.scale == app.scale
        }),
        ({
            let next = app.after(Message::Scale(scale), buffer, reserved);
            next.palette == app.palette && next.mode == app.mode && next.scale == scale
        }),
{
}

/// Each message changes what it is about and nothing else.
pub proof fn law_messages_keep_the_rest(
    app: App,
    msg: Message,
    buffer: Option<Seq<u8>>,
    reserved: bool,
)
    ensures
        ({
            let next = app.after(msg, buffer, reserved);
            let opens = msg matches Message::FilePickResult(Ok(_));
            let loads = msg is FileLoadMeta || msg is FileLoadDone || msg is FileLoadErr;
            &&& next.cell_slider == app.cell_slider
            &&& next.rail_bytes_per_row == app.rail_bytes_per_row
            &&& !(msg is Palette) ==> next.palette == app.palette
            &&& !(msg is Mode) ==> next.mode == app.mode
            &&& !(msg is Scale) ==> next.scale == app.scale
            &&& !opens ==> next.path == app.path && next.load_gen == app.load_gen
            &&& !opens && !(msg is RangeChanged) ==> next.range_start_norm == app.range_start_norm
                && next.range_end_norm == app.range_end_norm
            &&& !opens && !loads ==> next.file_total_len == app.file_total_len && next.active_load
                == app.active_load
            &&& !opens && !(msg is FileLoadMeta) && !(msg is FileLoadErr) && !(msg is FileLoadChunk)
                ==> app.bytes_after(msg, buffer) == buffer
            &&& app.bytes_after(msg, buffer) is Some <==> buffer is Some
        }),
{
}

/// Opening a file begins a read of that very path under the generation that follows the last one.
pub proof fn law_pick_begins_next_read(
    app: App,
    buffer: Option<Seq<u8>>,
    reserved: bool,
    path: String,
)
    ensures
        ({
            let next = app.after(Message::FilePickResult(Ok(path)), buffer, reserved);
            &&& next.path == path
            &&& next.load_gen as int == (app.load_gen + 1) % 0x1_0000_0000_0000_0000
            &&& next.active_load == Some(LoadStreamKey { gen: next.load_gen, path })
            &&& next.file_total_len == 0
            &&& next.range_start_norm.value() == 0
            &&& next.range_end_norm.value() == crate::coord::one().value()
            &&& crate::coord::stands_for(next.range_end_norm, 1)
        }),
{
    crate::coord::law_zero_and_one();
}

/// The size message sets the size and empties the buffer for a load that goes on, if there is room;
/// if there is none, the load is over and nothing is left of it.
pub proof fn law_size_is_learned(app: App, buffer: Seq<u8>, total_len: usize)
    ensures
        ({
            let msg = Message::FileLoadMeta { total_len };
            let granted = app.after(msg, Some(buffer), true);
            let refused = app.after(msg, Some(buffer), false);
            &&& granted.file_total_len == total_len
            &&& granted.active_load == app.active_load
            &&& refused.file_total_len == 0
            &&& refused.active_load is None
            &&& app.bytes_after(msg, Some(buffer)) == Some(Seq::<u8>::empty())
            &&& App::effect_of(msg, true) == Effect::Nothing
            &&& App::effect_of(msg, false) == Effect::RecomputeImage
        }),
{
}

/// Room can be had only in a buffer that is at hand and for no more than `isize::MAX` bytes, and
/// for none it always can.
pub proof fn law_room_is_limited(total_len: usize, at_hand: bool, reserved: bool)
    requires
        App::may_reserve(Message::FileLoadMeta { total_len }, at_hand, reserved),
    ensures
        !at_hand || total_len > isize::MAX ==> !reserved,
        at_hand && total_len == 0 ==> reserved,
{
}

/// A chunk is appended: the bytes before it stay where they are, its own follow in order, and all
/// of them are kept but those beyond the declared size.
pub proof fn law_chunk_is_appended(app: App, buffer: Seq<u8>, chunk: Vec<u8>)
    ensures
        app.bytes_after(Message::FileLoadChunk(chunk), Some(buffer)) matches Some(next) && {
            let (had, came, total) = (buffer.len(), chunk@.len(), app.file_total_len);
            &&& had + came <= total ==> next.len() == had + came
            &&& had <= total < had + came ==> next.len() == total
            &&& total < had ==> next.len() == had
            &&& forall|i: int| 0 <= i < had ==> next[i] == buffer[i]
            &&& forall|i: int| had <= i < next.len() ==> next[i] == chunk@[i - had]
        },
{
}

/// What each message calls for: a dialog when one is asked for, a new heatmap after every choice
/// and at the end of every load, and nothing else.
pub proof fn law_effects(msg: Message, reserved: bool)
    ensures
        App::effect_of(msg, reserved) == Effect::PickFile <==> msg is PickFile,
        App::effect_of(msg, reserved) == Effect::RecomputeImage <==> {
            ||| msg is Palette || msg is Mode || msg is Scale || msg is RangeChanged
            ||| msg is FileLoadDone || msg is FileLoadErr
            ||| msg is FileLoadMeta && !reserved
        },
{
}

/// The heatmap is never out of date: whenever a message changes what it is to show, it is computed
/// anew. Sizes and chunks come only during a load.
pub proof fn law_heatmap_is_never_stale(
    app: App,
    msg: Message,
    buffer: Seq<u8>,
    reserved: bool,
    lo: int,
    hi: int,
)
    requires
        msg is FileLoadMeta || msg is FileLoadChunk ==> app.active_load is Some,
    ensures
        ({
            let next = app.after(msg, Some(buffer), reserved);
            let shown = app.heatmap(Some(buffer.len() as int), lo, hi);
            app.bytes_after(msg, Some(buffer)) matches Some(bytes) && {
                let due = next.heatmap(Some(bytes.len() as int), lo, hi);
                due != shown && due != Heatmap::Keep ==> App::effect_of(
                    msg,
                    reserved,
                ) == Effect::RecomputeImage
            }
        }),
{
}

/// The heatmap is drawn as was chosen: with the chosen pair mode, scale and palette, and with the
/// slider's cell size, as far as that lies between 1 and 8 pixels.
pub proof fn law_heatmap_follows_settings(app: App, loaded: Option<int>, lo: int, hi: int)
    ensures
        app.heatmap(loaded, lo, hi) matches Heatmap::Render { mode, params, .. } ==> {
            &&& mode == app.mode
            &&& params.scale == app.scale
            &&& params.palette == app.palette
            &&& 1 <= params.cell_pixels <= 8
            &&& 1 <= app.cell_slider <= 8 ==> params.cell_pixels == app.cell_slider
            &&& app.cell_slider < 1 ==> params.cell_pixels == 1
            &&& app.cell_slider > 8 ==> params.cell_pixels == 8
        },
{
}

/// The heatmap shows exactly those selected bytes that have been read. It stands still during a
/// load, and is blank when the bytes are out of reach.
pub proof fn law_heatmap_shows_selection(app: App, loaded: usize, lo: int, hi: int, i: int)
    ensures
        app.active_load is Some ==> app.heatmap(Some(loaded as int), lo, hi) == Heatmap::Keep
            && app.heatmap(None, lo, hi) == Heatmap::Keep,
        app.active_load is None ==> app.heatmap(None, lo, hi) == Heatmap::Blank,
        app.active_load is None ==> (app.heatmap(
            Some(loaded as int),
            lo,
            hi,
        ) matches Heatmap::Render { lo: first, hi: end, .. } && first <= end && (first <= i < end <==> {
            let (from, to) = selected(app.span(loaded as int), lo, hi);
            0 <= i < loaded && from <= i < to
        })),
{
    if app.active_load is None {
        law_selection_inside_file(app.span(loaded as int), lo, hi);
    }
}

/// The selected bytes of a file are those between the ends of the selection; where there are none,
/// the one byte at the start of the selection, or the nearest one in the file.
pub proof fn law_selected_bytes(n: int, lo: int, hi: int, i: int)
    requires
        n > 0,
        0 <= i < n,
    ensures
        ({
            let (from, to) = selected(n, lo, hi);
            &&& lo < hi && lo < n && 0 < hi ==> (from <= i < to <==> lo <= i < hi)
            &&& !(lo < hi && lo < n && 0 < hi) ==> {
                &&& to == from + 1
                &&& from <= i < to <==> i == lo || (lo < 0 && i == 0) || (lo >= n && i == n - 1)
            }
        }),
{
}

/// The selection is laid along the whole file: along its size as soon as that is known, along
/// nothing before, and without any load along the bytes there are, or one if there are none.
pub proof fn law_span_is_the_file(app: App, loaded: usize)
    ensures
        app.file_total_len > 0 ==> app.span(loaded as int) == app.file_total_len,
        app.file_total_len == 0 && app.active_load is Some ==> app.span(loaded as int) == 0,
        app.file_total_len == 0 && app.active_load is None && loaded > 0 ==> app.span(loaded as int)
            == loaded,
        app.file_total_len == 0 && app.active_load is None && loaded == 0 ==> app.span(
            loaded as int,
        ) == 1,
{
}

/// The rail shows the viewer: the selection that holds, the size of the file, its own packing and
/// generation, at a width of 100 pixels.
pub proof fn law_rail_shows_viewer(app: App, loaded: usize)
    ensures
        ({
            let rail = app.rail(loaded);
            &&& rail.range_start_norm == app.range_start_norm
            &&& rail.range_end_norm == app.range_end_norm
            &&& rail.strip_generation == app.rail_strip_generation
            &&& app.rail_bytes_per_row > 0 ==> rail.bytes_per_row == app.rail_bytes_per_row
            &&& app.rail_bytes_per_row == 0 ==> rail.bytes_per_row == 1
            &&& crate::coord::stands_for(rail.row_width, 100)
            &&& app.file_total_len > 0 ==> rail.total_len == app.file_total_len
            &&& app.file_total_len == 0 && app.active_load is Some ==> rail.total_len == 1
            &&& app.file_total_len == 0 && app.active_load is None ==> rail.total_len == loaded
        }),
{
    law_row_width();
}

/// A selection inside the rail that is announced is the one that the rail shows from then on; one
/// that reaches beyond is shown up to the end of the rail.
pub proof fn law_announced_selection_is_shown(
    app: App,
    r: RangeChanged,
    buffer: Option<Seq<u8>>,
    reserved: bool,
    loaded: usize,
)
    requires
        !r.start.is_nan(),
        !r.end.is_nan(),
    ensures
        ({
            let (zero, one) = (crate::coord::zero(), crate::coord::one());
            let rail = app.after(Message::RangeChanged(r), buffer, reserved).rail(loaded);
            &&& r.start.unit_or_nan() ==> rail.range_start_norm == r.start
            &&& r.end.unit_or_nan() ==> rail.range_end_norm == r.end
            &&& r.start.below(zero) ==> rail.range_start_norm == zero
            &&& r.end.below(zero) ==> rail.range_end_norm == zero
            &&& one.below(r.start) ==> rail.range_start_norm == one
            &&& one.below(r.end) ==> rail.range_end_norm == one
        }),
{
    crate::coord::law_zero_and_one();
}

/// Dragging a handle moves it on the screen: what the rail announces for a motion is what the rail
/// shows next, with the held handle where the cursor is.
pub proof fn law_dragged_handle_is_shown_at_cursor(
    app: App,
    state: crate::minimap::RailState,
    m: crate::minimap::Motion,
    buffer: Option<Seq<u8>>,
    reserved: bool,
    loaded: usize,
)
    requires
        state.drag == Some(crate::minimap::DragKind::Start) || state.drag == Some(
            crate::minimap::DragKind::End,
        ),
        !app.range_start_norm.is_nan() && app.range_start_norm.unit_or_nan(),
        !app.range_end_norm.is_nan() && app.range_end_norm.unit_or_nan(),
        m.is_numeric(),
        m.norm.unit_or_nan(),
        m.norm_minus_gap.at_most(m.norm),
        m.norm.at_most(m.norm_plus_gap),
    ensures
        app.rail(loaded).action_on(
            state,
            crate::minimap::RailEvent::CursorMoved(Some(m)),
        ) matches Some(crate::minimap::RailAction::Publish(r)) && {
            let rail = app.after(Message::RangeChanged(r), buffer, reserved).rail(loaded);
            &&& rail.range_start_norm == r.start && rail.range_end_norm == r.end
            &&& state.drag == Some(crate::minimap::DragKind::Start) ==> rail.range_start_norm
                == m.norm
            &&& state.drag == Some(crate::minimap::DragKind::End) ==> rail.range_end_norm == m.norm
        },
{
    let rail = app.rail(loaded);
    crate::minimap::law_held_handle_follows_cursor(rail, state, m);
    crate::minimap::law_handle_drag_stays_inside(
        crate::minimap::DragKind::Start,
        rail.range_start_norm,
        rail.range_end_norm,
        m,
    );
    crate::minimap::law_handle_drag_stays_inside(
        crate::minimap::DragKind::End,
        rail.range_start_norm,
        rail.range_end_norm,
        m,
    );
}

/// Progress is the share of the declared size that has been read, in percent; it is 0 before the
/// size is known.
pub proof fn law_progress_is_share(app: App, loaded: int)
    requires
        0 <= loaded,
    ensures
        ({
            let (n, d) = app.percent(loaded);
            let total = app.file_total_len as int;
            &&& d > 0
            &&& total == 0 ==> n == 0
            &&& 0 < total && loaded <= total ==> n * total == (100 * loaded) * d
            &&& 0 < total < loaded ==> n == 100 * d
        }),
{
}

/// A viewer starts with the whole of the file that it is given selected, with nothing to load, with
/// a strip that is still to be painted, and with the palette that it is given.
pub proof fn law_viewer_starts_with_whole_file(
    path: String,
    total: usize,
    palette: HeatmapPalette,
    state: crate::minimap::RailState,
)
    requires
        state.strip_gen_baked == 0,
    ensures
        ({
            let app = App::opened(path, total, palette);
            let rail = app.rail(total);
            &&& app.path == path
            &&& app.active_load is None
            &&& app.file_total_len == total && rail.total_len == total
            &&& crate::coord::stands_for(app.range_start_norm, 0)
            &&& crate::coord::stands_for(app.range_end_norm, 1)
            &&& rail.is_stale(state)
            &&& rail.bytes_per_row == 64
            &&& app.heatmap(Some(total as int), 0, total as int) matches Heatmap::Render {
                lo,
                hi,
                mode,
                params,
            } && lo == 0 && hi == total && mode == Mode::NonOverlapping && params.scale
                == Scale::CantorDust && params.palette == palette && params.cell_pixels == 2
        }),
{
    crate::coord::law_zero_and_one();
}

/// The window shows the settings that hold, the rail, and of a load, as long as it lasts, how much
/// of the file is there; before the size is known it says so.
pub proof fn law_window_shows_viewer(app: App, loaded: usize)
    ensures
        ({
            let screen = app.screen(loaded);
            let total = app.file_total_len;
            &&& screen.palette == app.palette
            &&& screen.mode == app.mode
            &&& screen.scale == app.scale
            &&& screen.rail.range_start_norm == app.range_start_norm
            &&& screen.rail.range_end_norm == app.range_end_norm
            &&& screen.rail.strip_generation == app.rail_strip_generation
            &&& total > 0 ==> screen.rail.total_len == total
            &&& screen.reading_size <==> app.active_load is Some && total == 0
            &&& screen.progress is Some <==> app.active_load is Some
            &&& screen.progress matches Some(p) ==> {
                &&& p.denominator > 0
                &&& p.numerator <= 100 * p.denominator
                &&& total == 0 ==> p.numerator == 0
                &&& 0 < total && loaded <= total ==> p.numerator * total == (100 * loaded)
                    * p.denominator
                &&& 0 < total < loaded ==> p.numerator == 100 * p.denominator
            }
        }),
{
    law_progress_is_share(app, loaded as int);
}

/// Choosing a setting shows at once, in the window and, unless a load is active, in the heatmap.
pub proof fn law_choice_is_shown(
    app: App,
    buffer: Option<Seq<u8>>,
    reserved: bool,
    mode: Mode,
    scale: Scale,
    palette: HeatmapPalette,
    loaded: usize,
    lo: int,
    hi: int,
)
    requires
        app.active_load is None,
    ensures
        ({
            let next = app.after(Message::Mode(mode), buffer, reserved);
            &&& next.screen(loaded).mode == mode
            &&& next.heatmap(Some(loaded as int), lo, hi) matches Heatmap::Render { mode: m, .. }
                && m == mode
        }),
        ({
            let next = app.after(Message::Scale(scale), buffer, reserved);
            &&& next.screen(loaded).scale == scale
            &&& next.heatmap(Some(loaded as int), lo, hi) matches Heatmap::Render { params, .. }
                && params.scale == scale
        }),
        ({
            let next = app.after(Message::Palette(palette), buffer, reserved);
            &&& next.screen(loaded).palette == palette
            &&& next.heatmap(Some(loaded as int), lo, hi) matches Heatmap::Render { params, .. }
                && params.palette == palette
        }),
{
}

/// A file that is picked in the dialog is read next; a dialog that ends without a file changes
/// nothing.
pub proof fn law_dialog_decides_what_is_read(
    app: App,
    buffer: Option<Seq<u8>>,
    reserved: bool,
    outcome: PickOutcome,
    msg: Message,
)
    requires
        reports(outcome, msg),
    ensures
        ({
            let next = app.after(msg, buffer, reserved);
            &&& outcome matches PickOutcome::Picked(path) ==> next.path == path
                && next.active_load == Some(LoadStreamKey { gen: next.load_gen, path })
                && next.load_gen != app.load_gen && app.bytes_after(msg, buffer) == cleared(buffer)
            &&& !(outcome is Picked) ==> next == app && app.bytes_after(msg, buffer) == buffer
            &&& App::effect_of(msg, reserved) == Effect::Nothing
        }),
{
}

}
