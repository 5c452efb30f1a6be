//! The explorer's state machine: resolution, preview/HQ switching, the
//! iteration count, palette selection, screenshot requests and the render job.
//!
//! Each frame the host reads the window and the input devices into a
//! [`FrameInput`], calls [`App::update`], performs the returned
//! [`FrameActions`], then drives the render job row batch by row batch and
//! ends the frame with [`App::finish_job_step`].
use vstd::prelude::*;

use crate::canvas::{canvas_fits, opaque_black_byte, Canvas, CanvasModel};
use crate::progressive::{batch_end, batch_rows, rows_per_batch, schedule, CursorModel, RowCursor};

verus! {

/// Iteration count of a fresh view.
pub const DEFAULT_MAX_ITER: u32 = 200;

/// Highest iteration count the user can reach.
pub const MAX_ITER_CAP: u32 = 10_000;

/// Lowest iteration count the user can reach.
pub const MIN_MAX_ITER: u32 = 50;

/// Change of the iteration count per key press.
pub const ITER_STEP: u32 = 50;

/// Idle frames after which the explorer switches to the HQ resolution.
pub const IDLE_THRESHOLD: u32 = 6;

/// Largest iteration count up to which the preview count below, which rounds
/// 35% of the count exactly, agrees with rounding `m * 0.35` in single
/// precision; above it single precision no longer rounds to the nearest
/// integer and the two may differ.
pub const PREVIEW_ITER_LIMIT: u32 = 5_991_866;

/// Number of palettes the user can pick from.
pub const PALETTE_COUNT: u8 = 6;

/// Initial preview resolution.
pub const INITIAL_PREVIEW_W: u16 = 480;

/// Initial preview resolution.
pub const INITIAL_PREVIEW_H: u16 = 270;

/// Initial HQ resolution.
pub const INITIAL_HQ_W: u16 = 1280;

/// Initial HQ resolution.
pub const INITIAL_HQ_H: u16 = 720;

/// Size of the minimap in pixels.
pub const MINIMAP_SIZE: u16 = 160;

// ---------------------------------------------------------------------------
// Iteration count
// ---------------------------------------------------------------------------

/// Iteration count used for previews: 35% of `m`, rounded half up, kept
/// between 50 and `m`; counts of 50 or less are kept as they are.
pub open spec fn preview_max_iter_spec(m: int) -> int {
    if m <= 50 {
        m
    } else {
        let r = (7 * m + 10) / 20;
        if r < 50 {
            50
        } else if r > m {
            m
        } else {
            r
        }
    }
}

/// Iteration count after the "more iterations" key.
pub open spec fn iter_up_spec(m: int) -> int {
    if m + 50 < 10_000 {
        m + 50
    } else {
        10_000
    }
}

/// Iteration count after the "fewer iterations" key.
pub open spec fn iter_down_spec(m: int) -> int {
    let d = if m >= 50 {
        m - 50
    } else {
        0
    };
    if d > 50 {
        d
    } else {
        50
    }
}

/// Iteration count used for previews: never more than the full count, at
/// least 50 of it (all of it below 50).
pub fn preview_max_iter(max_iter: u32) -> (r: u32)
    ensures
        r == preview_max_iter_spec(max_iter as int),
        (if max_iter < 50 {
            max_iter
        } else {
            50
        }) <= r <= max_iter,
{
    if max_iter <= 50 {
        return max_iter;
    }
    let reduced: u64 = (7 * (max_iter as u64) + 10) / 20;
    if reduced < 50 {
        50
    } else if reduced > max_iter as u64 {
        max_iter
    } else {
        reduced as u32
    }
}

fn iter_up(m: u32) -> (r: u32)
    requires
        m <= MAX_ITER_CAP,
    ensures
        r == iter_up_spec(m as int),
{
    let n = m + ITER_STEP;
    if n < MAX_ITER_CAP {
        n
    } else {
        MAX_ITER_CAP
    }
}

fn iter_down(m: u32) -> (r: u32)
    ensures
        r == iter_down_spec(m as int),
{
    let d = m.saturating_sub(ITER_STEP);
    if d > MIN_MAX_ITER {
        d
    } else {
        MIN_MAX_ITER
    }
}

// ---------------------------------------------------------------------------
// Render job
// ---------------------------------------------------------------------------

/// What a render job draws: its resolution, iteration count and palette.
pub struct JobParams {
    pub w: int,
    pub h: int,
    pub max_iter: int,
    pub palette: int,
}

/// Abstract state of a render job.
pub struct JobModel {
    pub params: JobParams,
    pub canvas: CanvasModel,
    pub cursor: CursorModel,
}

impl JobModel {
    /// The canvas and the cursor fit the job's resolution.
    pub open spec fn wf(self) -> bool {
        &&& self.canvas.wf()
        &&& self.cursor.wf()
        &&& self.canvas.width == self.params.w
        &&& self.canvas.height == self.params.h
        &&& self.cursor.h == self.params.h
    }

    /// A job that has drawn nothing yet: an opaque black canvas and a
    /// cursor at the start of the schedule.
    pub open spec fn fresh(self) -> bool {
        &&& self.cursor == CursorModel { h: self.params.h, next_row: 0, stage: 0, idx: 0 }
        &&& forall|i: int|
            0 <= i < self.canvas.bytes.len() ==> #[trigger] self.canvas.bytes[i]
                == opaque_black_byte(i)
    }
}

/// A render in progress: what it draws, the pixels drawn so far and the
/// rows still to draw.
pub struct RenderJob {
    w: u16,
    h: u16,
    max_iter: u32,
    palette: u8,
    image: Canvas,
    cursor: RowCursor,
}

impl View for RenderJob {
    type V = JobModel;

    closed spec fn view(&self) -> JobModel {
        JobModel {
            params: JobParams {
                w: self.w as int,
                h: self.h as int,
                max_iter: self.max_iter as int,
                palette: self.palette as int,
            },
            canvas: self.image@,
            cursor: self.cursor@,
        }
    }
}

impl RenderJob {
    /// A job that draws a `w` x `h` picture with `max_iter` iterations and
    /// palette `palette`, starting from an opaque black canvas.
    pub fn new(w: u16, h: u16, max_iter: u32, palette: u8) -> (j: Self)
        requires
            canvas_fits(w as int, h as int),
        ensures
            j@.params == (JobParams {
                w: w as int,
                h: h as int,
                max_iter: max_iter as int,
                palette: palette as int,
            }),
            j@.wf(),
            j@.fresh(),
            j@.cursor.remaining() == schedule(h as int),
    {
        let image = Canvas::new_opaque_black(w, h);
        let cursor = RowCursor::new(h);
        RenderJob { w, h, max_iter, palette, image, cursor }
    }

    /// Width of the picture.
    pub fn width(&self) -> (w: u16)
        ensures
            w as int == self@.params.w,
    {
        self.w
    }

    /// Height of the picture.
    pub fn height(&self) -> (h: u16)
        ensures
            h as int == self@.params.h,
    {
        self.h
    }

    /// Iteration count of the picture.
    pub fn max_iter(&self) -> (m: u32)
        ensures
            m as int == self@.params.max_iter,
    {
        self.max_iter
    }

    /// Palette of the picture.
    pub fn palette(&self) -> (p: u8)
        ensures
            p as int == self@.params.palette,
    {
        self.palette
    }

    /// All rows of the schedule are drawn.
    pub fn is_done(&self) -> (b: bool)
        ensures
            b == self@.cursor.done(),
    {
        self.cursor.is_done()
    }

    /// Takes the next batch of rows to draw: 6 rows for pictures at least
    /// 1024 pixels wide, 10 otherwise.
    pub fn next_rows(&mut self) -> (rows: Vec<u16>)
        requires
            old(self)@.wf(),
        ensures
            final(self)@.wf(),
            final(self)@.params == old(self)@.params,
            final(self)@.canvas == old(self)@.canvas,
            ({
                let n = if old(self)@.params.w >= 1024 {
                    6int
                } else {
                    10int
                };
                let rem = old(self)@.cursor.remaining();
                &&& rows@.len() == if n < rem.len() {
                    n
                } else {
                    rem.len() as int
                }
                &&& rows@ == rem.take(rows@.len() as int)
                &&& final(self)@.cursor.remaining() == rem.skip(rows@.len() as int)
                &&& final(self)@.cursor == batch_end(old(self)@.cursor, n as nat)
                &&& rows@ == batch_rows(old(self)@.cursor, n as nat)
            }),
            final(self)@.cursor.done() <==> final(self)@.cursor.remaining().len() == 0,
    {
        let budget = rows_per_batch(self.w);
        self.cursor.next_batch(budget)
    }

    /// Stores the drawn pixels of row `y`.
    pub fn commit_row(&mut self, y: u16, row: &[u8])
        requires
            old(self)@.wf(),
            (y as int) < old(self)@.params.h,
            row@.len() == old(self)@.params.w * 4,
        ensures
            final(self)@.wf(),
            final(self)@.params == old(self)@.params,
            final(self)@.cursor == old(self)@.cursor,
            final(self)@.canvas == old(self)@.canvas.with_row(y as int, row@),
    {
        self.image.write_row(y, row);
    }

    /// A copy of the pixels of row `y`.
    pub fn row(&self, y: u16) -> (r: Vec<u8>)
        requires
            self@.wf(),
            (y as int) < self@.params.h,
        ensures
            r@ == self@.canvas.row(y as int),
    {
        self.image.row(y)
    }

    /// The whole picture drawn so far.
    pub fn canvas(&self) -> (c: &Canvas)
        ensures
            c@ == self@.canvas,
    {
        &self.image
    }
}

// ---------------------------------------------------------------------------
// Explorer state
// ---------------------------------------------------------------------------

/// What the host read from the window and the input devices this frame.
pub struct FrameInput {
    /// Window size, rounded, at least 1: the HQ resolution.
    pub screen_w: u16,
    pub screen_h: u16,
    /// 35% of the window size, rounded, at least 200 x 112: the preview
    /// resolution.
    pub preview_w: u16,
    pub preview_h: u16,
    /// The mouse wheel turned, and the host zoomed the view.
    pub zoomed: bool,
    /// The left button is down, and the host panned the view.
    pub panned: bool,
    /// Key presses of this frame.
    pub key_up: bool,
    pub key_down: bool,
    pub key_reset: bool,
    pub key_palette: bool,
    /// The digit keys 1 to 6.
    pub digit_keys: [bool; 6],
    pub key_escape: bool,
    pub key_screenshot: bool,
    /// The preview rate limit lets a render start now.
    pub preview_slot_open: bool,
}

/// What the host does after an update.
pub struct FrameActions {
    /// Put the view's center and scale back to their initial values.
    pub reset_view: bool,
    /// The preview rate limit slot was taken: the next one opens one slot
    /// interval from now.
    pub claim_preview_slot: bool,
    /// A new render job was started; the host prepares its texture and the
    /// job's view.
    pub job_started: bool,
}

/// What a frame draws besides the fractal.
pub enum DrawPlan {
    /// Capture the screen, fractal only, and save it.
    Screenshot,
    /// Draw the HUD.
    Hud {
        /// Iteration count shown.
        max_iter: u32,
        /// Show the palette prompt.
        palette_prompt: bool,
        /// The render runs at the preview resolution.
        preview: bool,
    },
}

/// Abstract state of the explorer.
pub struct AppModel {
    pub frames: int,
    pub minimap_w: int,
    pub minimap_h: int,
    pub render_w: int,
    pub render_h: int,
    pub preview_w: int,
    pub preview_h: int,
    pub hq_w: int,
    pub hq_h: int,
    pub max_iter: int,
    pub palette: int,
    pub dirty: bool,
    pub job: Option<JobParams>,
    pub screenshot_requested: bool,
    pub palette_select_mode: bool,
    pub idle_frames: int,
}

/// The first of the digit keys `i, i + 1, ..., 5` that is down, as a palette
/// index.
pub open spec fn first_digit(keys: Seq<bool>, i: int) -> Option<int>
    decreases 6 - i,
{
    if i >= 6 || i < 0 {
        None
    } else if keys[i] {
        Some(i)
    } else {
        first_digit(keys, i + 1)
    }
}

/// The frame's input moves the view or changes the iteration count.
pub open spec fn moved(inp: FrameInput) -> bool {
    inp.zoomed || inp.panned || inp.key_up || inp.key_down || inp.key_reset
}

impl AppModel {
    /// The render runs at the preview resolution.
    pub open spec fn is_preview(self) -> bool {
        self.render_w == self.preview_w && self.render_h == self.preview_h
    }

    /// Iteration count that a render started now uses.
    pub open spec fn effective_max_iter(self, preview: bool) -> int {
        if preview {
            preview_max_iter_spec(self.max_iter)
        } else {
            self.max_iter
        }
    }

    /// The invariant of the explorer.
    pub open spec fn wf(self) -> bool {
        &&& MIN_MAX_ITER <= self.max_iter <= MAX_ITER_CAP
        &&& 0 <= self.palette < PALETTE_COUNT
        &&& canvas_fits(self.render_w, self.render_h)
        &&& canvas_fits(self.preview_w, self.preview_h)
        &&& canvas_fits(self.hq_w, self.hq_h)
        &&& self.job matches Some(j) ==> {
            &&& j.w == self.render_w
            &&& j.h == self.render_h
            &&& j.palette == self.palette
            &&& self.dirty
        }
    }

    /// Drops the current render and asks for a new one.
    pub open spec fn invalidate(self) -> AppModel {
        AppModel { dirty: true, job: None, ..self }
    }

    /// Follows a change of the window size; the render follows it when it
    /// runs at the HQ resolution.
    pub open spec fn sync_hq(self, w: int, h: int) -> AppModel {
        if w != self.hq_w || h != self.hq_h {
            let m = AppModel { hq_w: w, hq_h: h, ..self };
            if !m.is_preview() && (m.render_w != w || m.render_h != h) {
                AppModel { render_w: w, render_h: h, ..m }.invalidate()
            } else {
                m
            }
        } else {
            self
        }
    }

    /// Follows a change of the preview size; a render that ran at the
    /// previous preview resolution follows it and starts over.
    pub open spec fn sync_preview(self, w: int, h: int) -> AppModel {
        if w != self.preview_w || h != self.preview_h {
            let was_preview = self.is_preview();
            let m = AppModel { preview_w: w, preview_h: h, ..self };
            if was_preview && (m.render_w != w || m.render_h != h) {
                AppModel { render_w: w, render_h: h, ..m }.invalidate()
            } else {
                m
            }
        } else {
            self
        }
    }

    /// Applies the keys: iteration count, reset, palette selection and
    /// screenshot request.
    pub open spec fn apply_keys(self, inp: FrameInput) -> AppModel {
        let m1 = if inp.key_up {
            iter_up_spec(self.max_iter)
        } else {
            self.max_iter
        };
        let m2 = if inp.key_down {
            iter_down_spec(m1)
        } else {
            m1
        };
        let m3 = if inp.key_reset {
            DEFAULT_MAX_ITER as int
        } else {
            m2
        };
        let select = self.palette_select_mode || inp.key_palette;
        let base = AppModel {
            max_iter: m3,
            palette_select_mode: select,
            screenshot_requested: self.screenshot_requested || inp.key_screenshot,
            ..self
        };
        if select {
            match first_digit(inp.digit_keys@, 0) {
                Some(p) => AppModel { palette: p, palette_select_mode: false, ..base }.invalidate(),
                None => if inp.key_escape {
                    AppModel { palette_select_mode: false, ..base }
                } else {
                    base
                },
            }
        } else {
            base
        }
    }

    /// While the view moves the render drops to the preview resolution;
    /// otherwise one more idle frame is counted.
    pub open spec fn settle(self, moving: bool) -> AppModel {
        if moving {
            AppModel {
                idle_frames: 0,
                render_w: self.preview_w,
                render_h: self.preview_h,
                ..self
            }.invalidate()
        } else {
            AppModel { idle_frames: self.idle_frames + 1, ..self }
        }
    }

    /// After `IDLE_THRESHOLD` idle frames the render switches to the HQ
    /// resolution.
    pub open spec fn promote(self, moving: bool) -> AppModel {
        if !moving && self.idle_frames == IDLE_THRESHOLD && (self.render_w != self.hq_w
            || self.render_h != self.hq_h) {
            AppModel { render_w: self.hq_w, render_h: self.hq_h, ..self }.invalidate()
        } else {
            self
        }
    }

    /// A render may start: always at the HQ resolution, and at the preview
    /// resolution only when the rate limit lets it.
    pub open spec fn can_start(self, slot_open: bool) -> bool {
        !self.is_preview() || slot_open
    }

    /// A render starts when one is asked for, none runs and the rate limit
    /// lets it.
    pub open spec fn starts_job(self, slot_open: bool) -> bool {
        self.dirty && self.job is None && self.can_start(slot_open)
    }

    /// Starts a render when `starts_job` holds.
    pub open spec fn start(self, slot_open: bool) -> AppModel {
        if self.starts_job(slot_open) {
            AppModel {
                job: Some(
                    JobParams {
                        w: self.render_w,
                        h: self.render_h,
                        max_iter: self.effective_max_iter(self.is_preview()),
                        palette: self.palette,
                    },
                ),
                ..self
            }
        } else {
            self
        }
    }

    /// The state before the render job is started: one frame counted, the
    /// sizes followed, the keys applied and the preview/HQ switch made.
    pub open spec fn before_start(self, inp: FrameInput) -> AppModel {
        let m0 = AppModel { frames: self.frames + 1, ..self };
        m0.sync_hq(inp.screen_w as int, inp.screen_h as int).sync_preview(
            inp.preview_w as int,
            inp.preview_h as int,
        ).apply_keys(inp).settle(moved(inp)).promote(moved(inp))
    }

    /// What the next frame draws besides the fractal.
    pub open spec fn draw_plan(self) -> DrawPlan {
        if self.screenshot_requested {
            DrawPlan::Screenshot
        } else {
            DrawPlan::Hud {
                max_iter: self.max_iter as u32,
                palette_prompt: self.palette_select_mode,
                preview: self.is_preview(),
            }
        }
    }

    /// The state after drawing a frame: a screenshot request is served.
    pub open spec fn after_draw(self) -> AppModel {
        AppModel { screenshot_requested: false, ..self }
    }

    /// The state after one update.
    pub open spec fn next(self, inp: FrameInput) -> AppModel {
        self.before_start(inp).start(inp.preview_slot_open)
    }

    /// The actions of one update.
    pub open spec fn actions(self, inp: FrameInput) -> FrameActions {
        let m = self.before_start(inp);
        FrameActions {
            reset_view: inp.key_reset,
            claim_preview_slot: m.is_preview() && inp.preview_slot_open,
            job_started: m.starts_job(inp.preview_slot_open),
        }
    }
}

/// The explorer's state.
pub struct App {
    frames: u64,
    minimap_w: u16,
    minimap_h: u16,
    render_w: u16,
    render_h: u16,
    preview_w: u16,
    preview_h: u16,
    hq_w: u16,
    hq_h: u16,
    max_iter: u32,
    palette: u8,
    dirty: bool,
    render_job: Option<RenderJob>,
    screenshot_requested: bool,
    palette_select_mode: bool,
    idle_frames: u32,
}

impl View for App {
    type V = AppModel;

    closed spec fn view(&self) -> AppModel {
        AppModel {
            frames: self.frames as int,
            minimap_w: self.minimap_w as int,
            minimap_h: self.minimap_h as int,
            render_w: self.render_w as int,
            render_h: self.render_h as int,
            preview_w: self.preview_w as int,
            preview_h: self.preview_h as int,
            hq_w: self.hq_w as int,
            hq_h: self.hq_h as int,
            max_iter: self.max_iter as int,
            palette: self.palette as int,
            dirty: self.dirty,
            job: match self.render_job {
                Some(j) => Some(j@.params),
                None => None,
            },
            screenshot_requested: self.screenshot_requested,
            palette_select_mode: self.palette_select_mode,
            idle_frames: self.idle_frames as int,
        }
    }
}

impl App {
    /// The full state of the render job, pixels and cursor included.
    pub closed spec fn job_state(&self) -> Option<JobModel> {
        match self.render_job {
            Some(j) => Some(j@),
            None => None,
        }
    }

    /// The invariant of the explorer, job state included.
    pub open spec fn inv(&self) -> bool {
        &&& self@.wf()
        &&& self.job_state() is Some <==> self@.job is Some
        &&& self.job_state() matches Some(j) ==> j.wf() && Some(j.params) == self@.job
    }

    /// The initial state: preview resolution 480 x 270, HQ resolution
    /// 1280 x 720, 200 iterations, palette 0, a render asked for and none
    /// running.
    pub fn new() -> (a: Self)
        ensures
            a.inv(),
            a@ == (AppModel {
                frames: 0,
                minimap_w: MINIMAP_SIZE as int,
                minimap_h: MINIMAP_SIZE as int,
                render_w: INITIAL_PREVIEW_W as int,
                render_h: INITIAL_PREVIEW_H as int,
                preview_w: INITIAL_PREVIEW_W as int,
                preview_h: INITIAL_PREVIEW_H as int,
                hq_w: INITIAL_HQ_W as int,
                hq_h: INITIAL_HQ_H as int,
                max_iter: DEFAULT_MAX_ITER as int,
                palette: 0,
                dirty: true,
                job: None,
                screenshot_requested: false,
                palette_select_mode: false,
                idle_frames: 0,
            }),
    {
        App {
            frames: 0,
            minimap_w: MINIMAP_SIZE,
            minimap_h: MINIMAP_SIZE,
            render_w: INITIAL_PREVIEW_W,
            render_h: INITIAL_PREVIEW_H,
            preview_w: INITIAL_PREVIEW_W,
            preview_h: INITIAL_PREVIEW_H,
            hq_w: INITIAL_HQ_W,
            hq_h: INITIAL_HQ_H,
            max_iter: DEFAULT_MAX_ITER,
            palette: 0,
            dirty: true,
            render_job: None,
            screenshot_requested: false,
            palette_select_mode: false,
            idle_frames: 0,
        }
    }

    /// The render runs at the preview resolution.
    pub fn is_preview(&self) -> (b: bool)
        ensures
            b == self@.is_preview(),
    {
        self.render_w == self.preview_w && self.render_h == self.preview_h
    }

    /// Iteration count of a render started now at the preview resolution
    /// (`preview`) or at the HQ resolution.
    pub fn effective_max_iter(&self, preview: bool) -> (m: u32)
        requires
            self@.wf(),
        ensures
            m == self@.effective_max_iter(preview),
            !preview ==> m == self@.max_iter,
            preview ==> m == preview_max_iter_spec(self@.max_iter),
    {
        if preview {
            preview_max_iter(self.max_iter)
        } else {
            self.max_iter
        }
    }

    fn invalidate(&mut self)
        ensures
            final(self)@ == old(self)@.invalidate(),
            final(self).job_state() is None,
    {
        self.dirty = true;
        self.render_job = None;
    }

    /// Starts a render of the current resolution, iteration count and
    /// palette.
    fn start_render_job(&mut self)
        requires
            old(self)@.wf(),
        ensures
            final(self)@ == (AppModel {
                job: Some(
                    JobParams {
                        w: old(self)@.render_w,
                        h: old(self)@.render_h,
                        max_iter: old(self)@.effective_max_iter(old(self)@.is_preview()),
                        palette: old(self)@.palette,
                    },
                ),
                ..old(self)@
            }),
            final(self).job_state() matches Some(j) && j.wf() && j.fresh(),
    {
        let preview = self.is_preview();
        let job_max_iter = self.effective_max_iter(preview);
        self.render_job = Some(
            RenderJob::new(self.render_w, self.render_h, job_max_iter, self.palette),
        );
    }

    /// Follows the window size (HQ resolution) and the preview size.
    fn sync_sizes(&mut self, input: &FrameInput)
        requires
            old(self).inv(),
            canvas_fits(input.screen_w as int, input.screen_h as int),
            canvas_fits(input.preview_w as int, input.preview_h as int),
        ensures
            final(self).inv(),
            final(self)@ == old(self)@.sync_hq(input.screen_w as int, input.screen_h as int).sync_preview(
                input.preview_w as int,
                input.preview_h as int,
            ),
            final(self).job_state() is None || final(self).job_state() == old(self).job_state(),
    {
        let sw = input.screen_w;
        let sh = input.screen_h;
        if sw != self.hq_w || sh != self.hq_h {
            self.hq_w = sw;
            self.hq_h = sh;
            if !self.is_preview() && (self.render_w != sw || self.render_h != sh) {
                self.render_w = sw;
                self.render_h = sh;
                self.invalidate();
            }
        }
        let pw = input.preview_w;
        let ph = input.preview_h;
        if pw != self.preview_w || ph != self.preview_h {
            let was_preview = self.is_preview();
            self.preview_w = pw;
            self.preview_h = ph;
            if was_preview && (self.render_w != pw || self.render_h != ph) {
                self.render_w = pw;
                self.render_h = ph;
                self.invalidate();
            }
        }
    }

    /// The first digit key that is down, as a palette index.
    fn first_digit_key(keys: &[bool; 6]) -> (r: Option<u8>)
        ensures
            match r {
                Some(p) => first_digit(keys@, 0) == Some(p as int),
                None => first_digit(keys@, 0) is None,
            },
            r matches Some(p) ==> p < PALETTE_COUNT,
    {
        let mut i: usize = 0;
        while i < 6
            invariant
                i <= 6,
                first_digit(keys@, 0) == first_digit(keys@, i as int),
            decreases 6 - i,
        {
            if keys[i] {
                assert(keys@[i as int]);
                return Some(i as u8);
            }
            i += 1;
        }
        None
    }

    /// Applies the keys of the frame; returns whether the view moves.
    fn apply_keys(&mut self, input: &FrameInput) -> (moving: bool)
        requires
            old(self).inv(),
        ensures
            final(self).inv(),
            final(self)@ == old(self)@.apply_keys(*input),
            moving == moved(*input),
            final(self).job_state() is None || final(self).job_state() == old(self).job_state(),
    {
        let mut moving = false;
        if input.zoomed {
            moving = true;
        }
        if input.panned {
            moving = true;
        }
        if input.key_up {
            self.max_iter = iter_up(self.max_iter);
            moving = true;
        }
        if input.key_down {
            self.max_iter = iter_down(self.max_iter);
            moving = true;
        }
        if input.key_reset {
            self.max_iter = DEFAULT_MAX_ITER;
            moving = true;
        }
        if input.key_palette {
            self.palette_select_mode = true;
        }
        if input.key_screenshot {
            self.screenshot_requested = true;
        }
        if self.palette_select_mode {
            let selected = Self::first_digit_key(&input.digit_keys);
            match selected {
                Some(p) => {
                    self.palette = p;
                    self.invalidate();
                    self.palette_select_mode = false;
                },
                None => {
                    if input.key_escape {
                        self.palette_select_mode = false;
                    }
                },
            }
        }
        moving
    }

    /// Drops to the preview resolution while moving, counts idle frames
    /// otherwise, and switches to the HQ resolution after the idle threshold.
    fn settle(&mut self, moving: bool)
        requires
            old(self).inv(),
            old(self)@.idle_frames < u32::MAX,
        ensures
            final(self).inv(),
            final(self)@ == old(self)@.settle(moving).promote(moving),
            final(self).job_state() is None || final(self).job_state() == old(self).job_state(),
    {
        if moving {
            self.idle_frames = 0;
            self.invalidate();
            if self.render_w != self.preview_w || self.render_h != self.preview_h {
                self.render_w = self.preview_w;
                self.render_h = self.preview_h;
            }
        } else {
            self.idle_frames += 1;
        }
        if !moving && self.idle_frames == IDLE_THRESHOLD {
            if self.render_w != self.hq_w || self.render_h != self.hq_h {
                self.render_w = self.hq_w;
                self.render_h = self.hq_h;
                self.invalidate();
            }
        }
    }

    /// One frame of decisions; see [`AppModel::next`] and
    /// [`AppModel::actions`]. A render job that keeps running is left as it
    /// was.
    pub fn update(&mut self, input: &FrameInput) -> (act: FrameActions)
        requires
            old(self).inv(),
            old(self)@.frames < u64::MAX,
            old(self)@.idle_frames < u32::MAX,
            canvas_fits(input.screen_w as int, input.screen_h as int),
            canvas_fits(input.preview_w as int, input.preview_h as int),
        ensures
            final(self).inv(),
            final(self)@ == old(self)@.next(*input),
            act == old(self)@.actions(*input),
            act.job_started ==> (final(self).job_state() matches Some(j) && j.fresh()),
            !act.job_started && final(self)@.job is Some ==> final(self).job_state() == old(self).job_state(),
    {
        self.frames += 1;
        self.sync_sizes(input);
        let moving = self.apply_keys(input);
        self.settle(moving);

        let preview = self.is_preview();
        let claim = preview && input.preview_slot_open;
        let can_start_render = !preview || input.preview_slot_open;
        let mut started = false;
        if self.dirty && self.render_job.is_none() && can_start_render {
            self.start_render_job();
            started = true;
        }
        FrameActions { reset_view: input.key_reset, claim_preview_slot: claim, job_started: started }
    }

    /// The render job, if one runs.
    pub fn render_job(&self) -> (j: Option<&RenderJob>)
        ensures
            match j {
                Some(r) => self.job_state() == Some(r@),
                None => self.job_state() is None,
            },
    {
        self.render_job.as_ref()
    }

    /// Takes the next batch of rows of the running render job; none when no
    /// job runs. Only the job's cursor moves.
    pub fn next_job_rows(&mut self) -> (rows: Vec<u16>)
        requires
            old(self).inv(),
        ensures
            final(self).inv(),
            final(self)@ == old(self)@,
            match old(self).job_state() {
                None => rows@.len() == 0 && final(self).job_state() is None,
                Some(j) => final(self).job_state() matches Some(k) && {
                    let n = if j.params.w >= 1024 {
                        6int
                    } else {
                        10int
                    };
                    let rem = j.cursor.remaining();
                    &&& k.params == j.params
                    &&& k.canvas == j.canvas
                    &&& rows@.len() == if n < rem.len() {
                        n
                    } else {
                        rem.len() as int
                    }
                    &&& rows@ == rem.take(rows@.len() as int)
                    &&& k.cursor.remaining() == rem.skip(rows@.len() as int)
                    &&& k.cursor == batch_end(j.cursor, n as nat)
                    &&& rows@ == batch_rows(j.cursor, n as nat)
                    &&& (k.cursor.done() <==> k.cursor.remaining().len() == 0)
                },
            },
    {
        match &mut self.render_job {
            Some(job) => job.next_rows(),
            None => Vec::new(),
        }
    }

    /// Stores the drawn pixels of row `y` in the running render job.
    pub fn commit_job_row(&mut self, y: u16, row: &[u8])
        requires
            old(self).inv(),
            old(self).job_state() matches Some(j) && (y as int) < j.params.h && row@.len()
                == j.params.w * 4,
        ensures
            final(self).inv(),
            final(self)@ == old(self)@,
            final(self).job_state() matches Some(k) && old(self).job_state() matches Some(j)
                && k.params == j.params && k.cursor == j.cursor && k.canvas == j.canvas.with_row(
                y as int,
                row@,
            ),
    {
        match &mut self.render_job {
            Some(job) => job.commit_row(y, row),
            None => {},
        }
    }

    /// A copy of the pixels of row `y` of the running render job.
    pub fn job_row(&self, y: u16) -> (r: Vec<u8>)
        requires
            self.inv(),
            self.job_state() matches Some(j) && (y as int) < j.params.h,
        ensures
            self.job_state() matches Some(j) && r@ == j.canvas.row(y as int),
    {
        match &self.render_job {
            Some(job) => job.row(y),
            None => Vec::new(),
        }
    }

    /// Ends the frame's render work: a job that has drawn its whole schedule
    /// is dropped and the picture is up to date. Returns whether it ended.
    pub fn finish_job_step(&mut self) -> (finished: bool)
        requires
            old(self).inv(),
        ensures
            final(self).inv(),
            finished == (old(self).job_state() matches Some(j) && j.cursor.done()),
            finished ==> final(self)@ == (AppModel { job: None, dirty: false, ..old(self)@ }),
            !finished ==> final(self)@ == old(self)@ && final(self).job_state() == old(
                self,
            ).job_state(),
    {
        let done = match &self.render_job {
            Some(job) => job.is_done(),
            None => false,
        };
        if done {
            self.render_job = None;
            self.dirty = false;
        }
        done
    }

    /// Decides what this frame draws besides the fractal: a requested
    /// screenshot is taken (fractal only) and the request is served; else
    /// the HUD.
    pub fn draw(&mut self) -> (plan: DrawPlan)
        requires
            old(self).inv(),
        ensures
            final(self).inv(),
            plan == old(self)@.draw_plan(),
            final(self)@ == old(self)@.after_draw(),
            final(self).job_state() == old(self).job_state(),
    {
        if self.screenshot_requested {
            self.screenshot_requested = false;
            return DrawPlan::Screenshot;
        }
        DrawPlan::Hud {
            max_iter: self.max_iter,
            palette_prompt: self.palette_select_mode,
            preview: self.is_preview(),
        }
    }

    /// Frames counted so far.
    pub fn frames(&self) -> (f: u64)
        ensures
            f as int == self@.frames,
    {
        self.frames
    }

    /// Idle frames counted so far.
    pub fn idle_frames(&self) -> (f: u32)
        ensures
            f as int == self@.idle_frames,
    {
        self.idle_frames
    }

    /// Iteration count of the view.
    pub fn max_iter(&self) -> (m: u32)
        ensures
            m as int == self@.max_iter,
    {
        self.max_iter
    }

    /// Current palette.
    pub fn palette(&self) -> (p: u8)
        ensures
            p as int == self@.palette,
    {
        self.palette
    }

    /// Resolution of the render.
    pub fn render_size(&self) -> (s: (u16, u16))
        ensures
            s.0 as int == self@.render_w,
            s.1 as int == self@.render_h,
    {
        (self.render_w, self.render_h)
    }

    /// Size of the minimap.
    pub fn minimap_size(&self) -> (s: (u16, u16))
        ensures
            s.0 as int == self@.minimap_w,
            s.1 as int == self@.minimap_h,
    {
        (self.minimap_w, self.minimap_h)
    }
}

// ---------------------------------------------------------------------------
// Laws
// ---------------------------------------------------------------------------

/// One update keeps the explorer's invariant: the iteration count stays
/// within [50, 10000], the palette is one of the six, and a running render
/// job draws at the current resolution and palette while a render is asked
/// for.
pub proof fn lemma_update_keeps_invariant(m: AppModel, inp: FrameInput)
    requires
        m.wf(),
        canvas_fits(inp.screen_w as int, inp.screen_h as int),
        canvas_fits(inp.preview_w as int, inp.preview_h as int),
    ensures
        m.next(inp).wf(),
        MIN_MAX_ITER <= m.next(inp).max_iter <= MAX_ITER_CAP,
{
    let m1 = AppModel { frames: m.frames + 1, ..m };
    let m2 = m1.sync_hq(inp.screen_w as int, inp.screen_h as int);
    assert(m2.wf());
    let m3 = m2.sync_preview(inp.preview_w as int, inp.preview_h as int);
    assert(m3.wf());
    let m4 = m3.apply_keys(inp);
    lemma_first_digit_in_range(inp.digit_keys@, 0);
    assert(m4.wf());
    let m5 = m4.settle(moved(inp));
    assert(m5.wf());
    let m6 = m5.promote(moved(inp));
    assert(m6.wf());
}

proof fn lemma_first_digit_in_range(keys: Seq<bool>, i: int)
    ensures
        first_digit(keys, i) matches Some(p) ==> i <= p < 6 && keys[p],
    decreases 6 - i,
{
    if 0 <= i < 6 && !keys[i] {
        lemma_first_digit_in_range(keys, i + 1);
    }
}

/// "More iterations" then "fewer iterations" gives the count back, below
/// the cap.
pub proof fn lemma_iter_up_then_down(m: int)
    requires
        MIN_MAX_ITER <= m <= MAX_ITER_CAP - ITER_STEP,
    ensures
        iter_down_spec(iter_up_spec(m)) == m,
{
}

/// "Fewer iterations" then "more iterations" gives the count back, above
/// the floor.
pub proof fn lemma_iter_down_then_up(m: int)
    requires
        MIN_MAX_ITER + ITER_STEP <= m <= MAX_ITER_CAP,
    ensures
        iter_up_spec(iter_down_spec(m)) == m,
{
}

/// The reset key brings the iteration count back to 200 and asks the host
/// to reset the view.
pub proof fn lemma_reset(m: AppModel, inp: FrameInput)
    requires
        inp.key_reset,
    ensures
        m.next(inp).max_iter == DEFAULT_MAX_ITER,
        m.actions(inp).reset_view,
{
}

/// While the view moves the explorer renders at the preview resolution with
/// the reduced iteration count: the idle count restarts, a render is asked
/// for, and a render that starts draws the preview.
pub proof fn lemma_moving_renders_preview(m: AppModel, inp: FrameInput)
    requires
        moved(inp),
    ensures
        m.next(inp).render_w == inp.preview_w,
        m.next(inp).render_h == inp.preview_h,
        m.next(inp).idle_frames == 0,
        m.next(inp).is_preview(),
        m.next(inp).dirty,
        m.next(inp).job matches Some(j) ==> j == (JobParams {
            w: inp.preview_w as int,
            h: inp.preview_h as int,
            max_iter: preview_max_iter_spec(m.next(inp).max_iter),
            palette: m.next(inp).palette,
        }),
        m.actions(inp).job_started == (m.next(inp).job is Some),
        m.actions(inp).job_started <==> inp.preview_slot_open,
{
}

/// At the idle threshold the explorer switches to the HQ resolution, and a
/// render that starts there uses the full iteration count.
pub proof fn lemma_idle_switches_to_hq(m: AppModel, inp: FrameInput)
    requires
        !moved(inp),
        m.idle_frames + 1 == IDLE_THRESHOLD,
        inp.screen_w != inp.preview_w || inp.screen_h != inp.preview_h,
    ensures
        m.next(inp).render_w == inp.screen_w,
        m.next(inp).render_h == inp.screen_h,
        !m.next(inp).is_preview(),
        m.actions(inp).job_started ==> m.next(inp).job == Some(
            JobParams {
                w: inp.screen_w as int,
                h: inp.screen_h as int,
                max_iter: m.next(inp).max_iter,
                palette: m.next(inp).palette,
            },
        ),
{
}

/// At the preview resolution a render starts only when the rate limit lets
/// it, and then the slot is taken.
pub proof fn lemma_preview_rate_limit(m: AppModel, inp: FrameInput)
    requires
        m.actions(inp).job_started,
        m.next(inp).is_preview(),
    ensures
        inp.preview_slot_open,
        m.actions(inp).claim_preview_slot,
{
}

/// A palette key in palette-select mode picks the palette of the first
/// digit key down, leaves the mode and asks for a render in it; outside the
/// mode the palette stays.
pub proof fn lemma_palette_selection(m: AppModel, inp: FrameInput)
    requires
        m.job matches Some(j) ==> j.palette == m.palette,
    ensures
        (m.palette_select_mode || inp.key_palette) && first_digit(inp.digit_keys@, 0) is Some
            ==> {
            &&& m.next(inp).palette == first_digit(inp.digit_keys@, 0)->Some_0
            &&& !m.next(inp).palette_select_mode
            &&& m.next(inp).dirty
        },
        !(m.palette_select_mode || inp.key_palette) ==> m.next(inp).palette == m.palette
            && !m.next(inp).palette_select_mode,
        m.next(inp).job matches Some(j) ==> j.palette == m.next(inp).palette,
{
}

/// A screenshot request is served by the next frame drawn, and only once:
/// the frame after it draws the HUD again.
pub proof fn lemma_screenshot_served_once(m: AppModel)
    requires
        m.screenshot_requested,
    ensures
        m.draw_plan() is Screenshot,
        m.after_draw().draw_plan() is Hud,
        m.after_draw().after_draw() == m.after_draw(),
{
}

/// The preview iteration count never exceeds the full one, and is at least
/// 50 when the full one is.
pub proof fn lemma_preview_iterations_bounded(m: int)
    requires
        0 <= m,
    ensures
        preview_max_iter_spec(m) <= m,
        m >= MIN_MAX_ITER ==> preview_max_iter_spec(m) >= MIN_MAX_ITER,
{
}

/// The iteration count stays within [50, 10000] whatever the frame's input:
/// "more" caps it at 10000, "fewer" floors it at 50, reset sets 200, and
/// zooming and panning leave it.
pub proof fn lemma_max_iter_stays_bounded(m: AppModel, inp: FrameInput)
    requires
        MIN_MAX_ITER <= m.max_iter <= MAX_ITER_CAP,
    ensures
        MIN_MAX_ITER <= m.next(inp).max_iter <= MAX_ITER_CAP,
        !inp.key_up && !inp.key_down && !inp.key_reset ==> m.next(inp).max_iter == m.max_iter,
{
}

/// A running render job always goes with a pending render, and an update
/// never clears a pending render: only finishing a completed job does
/// (`App::finish_job_step`), and it drops the job too.
pub proof fn lemma_pending_render(m: AppModel, inp: FrameInput)
    requires
        m.job is Some ==> m.dirty,
    ensures
        m.next(inp).job is Some ==> m.next(inp).dirty,
        m.dirty ==> m.next(inp).dirty,
{
}

/// In preview, a frame that does not move the view and does not reach the
/// idle threshold keeps the render at the preview resolution, following a
/// new preview size; a change of that size drops the running job, and a
/// render that starts draws the new preview.
pub proof fn lemma_quiet_preview_follows_preview_size(m: AppModel, inp: FrameInput)
    requires
        m.is_preview(),
        !moved(inp),
        m.idle_frames + 1 != IDLE_THRESHOLD,
    ensures
        m.next(inp).preview_w == inp.preview_w,
        m.next(inp).preview_h == inp.preview_h,
        m.next(inp).render_w == inp.preview_w,
        m.next(inp).render_h == inp.preview_h,
        m.next(inp).is_preview(),
        (inp.preview_w != m.preview_w || inp.preview_h != m.preview_h) ==> {
            &&& m.next(inp).dirty
            &&& m.actions(inp).job_started == (m.next(inp).job is Some)
        },
        m.actions(inp).job_started ==> m.next(inp).job == Some(
            JobParams {
                w: inp.preview_w as int,
                h: inp.preview_h as int,
                max_iter: preview_max_iter_spec(m.next(inp).max_iter),
                palette: m.next(inp).palette,
            },
        ),
{
}

/// The state after `k` frames with the same input `q`.
pub open spec fn repeat_frames(m: AppModel, q: FrameInput, k: nat) -> AppModel
    decreases k,
{
    if k == 0 {
        m
    } else {
        repeat_frames(m, q, (k - 1) as nat).next(q)
    }
}

proof fn lemma_quiet_frames_stay_preview(m: AppModel, q: FrameInput, k: nat)
    requires
        m.is_preview(),
        m.idle_frames == 0,
        !moved(q),
        1 <= k < IDLE_THRESHOLD,
    ensures
        repeat_frames(m, q, k).is_preview(),
        repeat_frames(m, q, k).render_w == q.preview_w,
        repeat_frames(m, q, k).render_h == q.preview_h,
        repeat_frames(m, q, k).idle_frames == k,
    decreases k,
{
    if k > 1 {
        lemma_quiet_frames_stay_preview(m, q, (k - 1) as nat);
        lemma_quiet_preview_follows_preview_size(repeat_frames(m, q, (k - 1) as nat), q);
    } else {
        lemma_quiet_preview_follows_preview_size(m, q);
    }
}

/// Preview while moving, HQ after a short idle time: after a frame that
/// moves the view, five quiet frames with a fixed window render at that
/// window's preview size, and the sixth switches to the window size itself.
pub proof fn lemma_idle_after_move(m: AppModel, mv: FrameInput, q: FrameInput)
    requires
        moved(mv),
        !moved(q),
    ensures
        forall|k: nat|
            1 <= k <= 5 ==> {
                &&& #[trigger] repeat_frames(m.next(mv), q, k).is_preview()
                &&& repeat_frames(m.next(mv), q, k).render_w == q.preview_w
                &&& repeat_frames(m.next(mv), q, k).render_h == q.preview_h
            },
        repeat_frames(m.next(mv), q, 6).idle_frames == 6,
        repeat_frames(m.next(mv), q, 6).render_w == q.screen_w,
        repeat_frames(m.next(mv), q, 6).render_h == q.screen_h,
        repeat_frames(m.next(mv), q, 6).hq_w == q.screen_w,
        repeat_frames(m.next(mv), q, 6).hq_h == q.screen_h,
{
    let s0 = m.next(mv);
    lemma_moving_renders_preview(m, mv);
    assert forall|k: nat| 1 <= k <= 5 implies {
        &&& #[trigger] repeat_frames(s0, q, k).is_preview()
        &&& repeat_frames(s0, q, k).render_w == q.preview_w
        &&& repeat_frames(s0, q, k).render_h == q.preview_h
    } by {
        lemma_quiet_frames_stay_preview(s0, q, k);
    }
    lemma_quiet_frames_stay_preview(s0, q, 5);
    assert(repeat_frames(s0, q, 6) == repeat_frames(s0, q, 5).next(q));
}

/// More iterations for HQ never mean fewer for the preview, and the
/// preview keeps at least 50 of them (or all, below 50).
pub proof fn lemma_preview_iterations_monotonic(m1: int, m2: int)
    requires
        0 <= m1 <= m2,
    ensures
        preview_max_iter_spec(m1) <= preview_max_iter_spec(m2),
        (if m1 < 50 {
            m1
        } else {
            50
        }) <= preview_max_iter_spec(m1) <= m1,
{
    if m1 > 50 {
        vstd::arithmetic::div_mod::lemma_div_is_ordered(7 * m1 + 10, 7 * m2 + 10, 20);
    }
}

/// Every frame is counted, the HQ size becomes the window size and the
/// preview size the frame's preview size; a frame that moves the view
/// restarts the idle count and any other frame adds one to it.
pub proof fn lemma_frame_bookkeeping(m: AppModel, inp: FrameInput)
    ensures
        m.next(inp).frames == m.frames + 1,
        m.next(inp).hq_w == inp.screen_w,
        m.next(inp).hq_h == inp.screen_h,
        m.next(inp).preview_w == inp.preview_w,
        m.next(inp).preview_h == inp.preview_h,
        m.next(inp).idle_frames == (if inp.zoomed || inp.panned || inp.key_up || inp.key_down
            || inp.key_reset {
            0
        } else {
            m.idle_frames + 1
        }),
{
}

/// Outside preview, a window resize in either dimension takes the render to
/// the window size and asks for a new render: the old job is dropped, and a
/// job that starts draws the whole window with the full iteration count.
pub proof fn lemma_hq_follows_window(m: AppModel, inp: FrameInput)
    requires
        m.render_w != m.preview_w || m.render_h != m.preview_h,
        inp.screen_w != m.hq_w || inp.screen_h != m.hq_h,
        inp.screen_w != m.render_w || inp.screen_h != m.render_h,
        inp.screen_w != m.preview_w || inp.screen_h != m.preview_h,
        !inp.zoomed,
        !inp.panned,
        !inp.key_up,
        !inp.key_down,
        !inp.key_reset,
    ensures
        m.next(inp).render_w == inp.screen_w,
        m.next(inp).render_h == inp.screen_h,
        m.next(inp).dirty,
        m.actions(inp).job_started <==> m.next(inp).job is Some,
        m.next(inp).job matches Some(j) ==> j.w == inp.screen_w && j.h == inp.screen_h,
        inp.screen_w != inp.preview_w || inp.screen_h != inp.preview_h ==> (m.next(
            inp,
        ).job matches Some(j) ==> j.max_iter == m.max_iter),
{
}

/// The Up key adds 50 iterations, up to 10000.
pub proof fn lemma_key_up_adds_fifty(m: AppModel, inp: FrameInput)
    requires
        50 <= m.max_iter <= 10_000,
        inp.key_up,
        !inp.key_down,
        !inp.key_reset,
    ensures
        m.next(inp).max_iter == (if m.max_iter + 50 <= 10_000 {
            m.max_iter + 50
        } else {
            10_000
        }),
{
}

/// The Down key takes 50 iterations off, down to 50.
pub proof fn lemma_key_down_takes_fifty(m: AppModel, inp: FrameInput)
    requires
        50 <= m.max_iter <= 10_000,
        !inp.key_up,
        inp.key_down,
        !inp.key_reset,
    ensures
        m.next(inp).max_iter == (if m.max_iter - 50 >= 50 {
            m.max_iter - 50
        } else {
            50
        }),
{
}

/// Without Up, Down or R the iteration count stays as it is.
pub proof fn lemma_iterations_kept_without_keys(m: AppModel, inp: FrameInput)
    requires
        !inp.key_up,
        !inp.key_down,
        !inp.key_reset,
    ensures
        m.next(inp).max_iter == m.max_iter,
{
}

/// The S key asks for a screenshot at any resolution, so the next frame
/// drawn is the capture; without it a pending request stays as it was.
pub proof fn lemma_screenshot_key(m: AppModel, inp: FrameInput)
    ensures
        inp.key_screenshot ==> m.next(inp).screenshot_requested,
        inp.key_screenshot ==> m.next(inp).draw_plan() is Screenshot,
        !inp.key_screenshot ==> m.next(inp).screenshot_requested == m.screenshot_requested,
{
}

/// The host resets the view exactly on the R key; zooming and panning never
/// reset it.
pub proof fn lemma_reset_only_on_key(m: AppModel, inp: FrameInput)
    ensures
        m.actions(inp).reset_view == inp.key_reset,
{
}

/// A render that starts outside preview uses the full iteration count; one
/// that starts in preview uses the preview count, which never exceeds it.
pub proof fn lemma_job_iterations(m: AppModel, inp: FrameInput)
    ensures
        m.actions(inp).job_started ==> m.next(inp).job is Some,
        m.actions(inp).job_started && (m.next(inp).render_w != m.next(inp).preview_w
            || m.next(inp).render_h != m.next(inp).preview_h) ==> m.next(inp).job->Some_0.max_iter
            == m.next(inp).max_iter,
        m.actions(inp).job_started && m.next(inp).render_w == m.next(inp).preview_w
            && m.next(inp).render_h == m.next(inp).preview_h ==> {
            let j = m.next(inp).job->Some_0;
            &&& j.max_iter <= m.next(inp).max_iter
            &&& m.next(inp).max_iter >= 0 ==> j.max_iter == preview_max_iter_spec(m.next(inp).max_iter)
        },
        forall|p: bool| !p ==> #[trigger] m.effective_max_iter(p) == m.max_iter,
{
    let n = m.next(inp);
    if n.max_iter >= 0 {
        lemma_preview_iterations_bounded(n.max_iter);
    }
}

/// The preview count is 35% of the full count rounded to the nearest
/// integer, halves up (`20 * r` is within 10 below or 10 above `7 * m`), as
/// long as that is at least 50 and the full count is above 50.
pub proof fn lemma_preview_is_rounded_35_percent(m: int)
    requires
        m > 50,
        7 * m + 10 >= 1000,
    ensures
        20 * preview_max_iter_spec(m) <= 7 * m + 10 < 20 * preview_max_iter_spec(m) + 20,
{
}

/// The render is at the preview resolution exactly when its size equals the
/// preview size.
pub proof fn lemma_preview_means_preview_size(m: AppModel)
    ensures
        m.is_preview() <==> (m.render_w == m.preview_w && m.render_h == m.preview_h),
{
}

/// In palette-select mode (or with P this frame), the palette picked is the
/// first digit key down: that key is down and none before it is.
pub proof fn lemma_palette_is_first_digit_down(m: AppModel, inp: FrameInput)
    requires
        m.palette_select_mode || inp.key_palette,
        exists|i: int| 0 <= i < 6 && inp.digit_keys@[i],
    ensures
        0 <= m.next(inp).palette < 6,
        inp.digit_keys@[m.next(inp).palette],
        forall|i: int| 0 <= i < m.next(inp).palette ==> !inp.digit_keys@[i],
        !m.next(inp).palette_select_mode,
{
    lemma_first_digit_finds_first(inp.digit_keys@, 0);
}

proof fn lemma_first_digit_finds_first(keys: Seq<bool>, i: int)
    requires
        0 <= i <= 6,
    ensures
        (exists|k: int| i <= k < 6 && keys[k]) ==> (first_digit(keys, i) matches Some(p) && i <= p
            < 6 && keys[p] && forall|k: int| i <= k < p ==> !keys[k]),
        !(exists|k: int| i <= k < 6 && keys[k]) ==> first_digit(keys, i) is None,
    decreases 6 - i,
{
    if i < 6 {
        lemma_first_digit_finds_first(keys, i + 1);
        if !keys[i] && (exists|k: int| i <= k < 6 && keys[k]) {
            let k = choose|k: int| i <= k < 6 && keys[k];
            assert(i + 1 <= k);
        }
    }
}

/// Without a digit key the palette stays; Escape leaves palette-select
/// mode and P enters it.
pub proof fn lemma_palette_kept_without_digit(m: AppModel, inp: FrameInput)
    requires
        forall|i: int| 0 <= i < 6 ==> !inp.digit_keys@[i],
    ensures
        m.next(inp).palette == m.palette,
        m.next(inp).palette_select_mode == ((m.palette_select_mode || inp.key_palette)
            && !inp.key_escape),
{
    lemma_first_digit_finds_first(inp.digit_keys@, 0);
}

/// A pending render waits only for the preview rate limit: after an update
/// a render is pending without a job only in preview with the slot closed;
/// the slot is taken exactly when the frame ends in preview with the slot
/// open.
pub proof fn lemma_pending_render_waits_only_for_slot(m: AppModel, inp: FrameInput)
    ensures
        m.next(inp).dirty && m.next(inp).job is None ==> {
            &&& m.next(inp).render_w == m.next(inp).preview_w
            &&& m.next(inp).render_h == m.next(inp).preview_h
            &&& !inp.preview_slot_open
        },
        m.actions(inp).claim_preview_slot == (m.next(inp).render_w == m.next(inp).preview_w
            && m.next(inp).render_h == m.next(inp).preview_h && inp.preview_slot_open),
        m.actions(inp).job_started ==> m.next(inp).job is Some && (m.job is None || m.next(
            inp,
        ).dirty),
{
}

/// Without a pending screenshot the frame draws the HUD with the current
/// iteration count, the palette prompt exactly in palette-select mode, and
/// the preview label exactly at the preview size; drawing changes nothing
/// else.
pub proof fn lemma_hud_contents(m: AppModel)
    requires
        !m.screenshot_requested,
    ensures
        m.draw_plan() == (DrawPlan::Hud {
            max_iter: m.max_iter as u32,
            palette_prompt: m.palette_select_mode,
            preview: m.render_w == m.preview_w && m.render_h == m.preview_h,
        }),
        m.after_draw() == m,
{
}

/// Label of the status pill.
pub fn mode_label(preview: bool) -> (s: &'static str)
    ensures
        s@ == (if preview {
            "PREVIEW"@
        } else {
            "HQ"@
        }),
{
    if preview {
        "PREVIEW"
    } else {
        "HQ"
    }
}

} // verus!
