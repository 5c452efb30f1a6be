//! Progressive, interlaced row schedule of a render.
//!
//! A render of height `h` is drawn in seven passes grouped in three stages.
//! Stage 0 walks every fourth row, starting at offsets 0, 2, 1 and 3 in turn;
//! stage 1 walks every second row from offsets 0 and 1; stage 2 walks every
//! row. A coarse picture therefore appears quickly and is refined twice.
use vstd::prelude::*;

verus! {

/// Number of stages of a render.
pub const STAGE_COUNT: usize = 3;

/// Number of rows drawn per batch for a render of width `w`: wide renders
/// take smaller batches so that one batch stays short.
pub fn rows_per_batch(w: u16) -> (n: usize)
    ensures
        n == (if w >= 1024 { 6usize } else { 10usize }),
{
    if w >= 1024 {
        6
    } else {
        10
    }
}

/// Row step of a stage.
pub open spec fn stage_step_spec(stage: int) -> u16 {
    if stage == 0 {
        4
    } else if stage == 1 {
        2
    } else {
        1
    }
}

/// Start offsets of the passes of a stage, in the order they run.
pub open spec fn stage_offsets_spec(stage: int) -> Seq<u16> {
    if stage == 0 {
        seq![0u16, 2u16, 1u16, 3u16]
    } else if stage == 1 {
        seq![0u16, 1u16]
    } else {
        seq![0u16]
    }
}

/// Global index of the pass `idx` of `stage`; 7 once all stages are over.
pub open spec fn pass_index(stage: int, idx: int) -> int {
    if stage == 0 {
        idx
    } else if stage == 1 {
        4 + idx
    } else if stage == 2 {
        6 + idx
    } else {
        7
    }
}

/// Row step of the pass with global index `p`.
pub open spec fn pass_step(p: int) -> int {
    if p < 4 {
        4
    } else if p < 6 {
        2
    } else {
        1
    }
}

/// Start row of the pass with global index `p`.
pub open spec fn pass_offset(p: int) -> int {
    if p == 1 {
        2
    } else if p == 2 {
        1
    } else if p == 3 {
        3
    } else if p == 5 {
        1
    } else {
        0
    }
}

/// The rows `r, r + step, r + 2 * step, ...` that lie below `h`.
pub open spec fn run(r: int, step: int, h: int) -> Seq<u16>
    decreases if r < h { h - r } else { 0 },
{
    if r >= h || step <= 0 {
        seq![]
    } else {
        seq![r as u16] + run(r + step, step, h)
    }
}

/// The rows of the passes `p, p + 1, ..., 6`, one pass after the other.
pub open spec fn passes_from(p: int, h: int) -> Seq<u16>
    decreases 7 - p,
{
    if p >= 7 || p < 0 {
        seq![]
    } else {
        run(pass_offset(p), pass_step(p), h) + passes_from(p + 1, h)
    }
}

/// The whole row schedule of a render of height `h`.
pub open spec fn schedule(h: int) -> Seq<u16> {
    passes_from(0, h)
}

/// The rows `0, 1, ..., n - 1`.
pub open spec fn all_rows(n: int) -> Seq<u16> {
    Seq::new(n as nat, |i: int| i as u16)
}

/// Abstract state of a row cursor.
pub struct CursorModel {
    /// Height of the render.
    pub h: int,
    /// Row that the cursor points at.
    pub next_row: int,
    /// Current stage, 3 when all stages are over.
    pub stage: int,
    /// Index of the current pass within its stage.
    pub idx: int,
}

impl CursorModel {
    /// Global index of the current pass.
    pub open spec fn pass(self) -> int {
        pass_index(self.stage, self.idx)
    }

    /// All stages are over.
    pub open spec fn done(self) -> bool {
        self.stage >= 3
    }

    /// The cursor's indices stay inside the stage table.
    pub open spec fn wf(self) -> bool {
        &&& 0 <= self.h <= u16::MAX
        &&& 0 <= self.next_row <= u16::MAX
        &&& 0 <= self.stage <= 3
        &&& self.stage < 3 ==> 0 <= self.idx < stage_offsets_spec(self.stage).len()
        &&& self.stage == 3 ==> self.idx == 0
    }

    /// The rows that are still to come, in order.
    pub open spec fn remaining(self) -> Seq<u16> {
        if self.done() {
            seq![]
        } else {
            run(self.next_row, pass_step(self.pass()), self.h) + passes_from(self.pass() + 1, self.h)
        }
    }

    /// A measure that every move of the cursor decreases.
    pub open spec fn measure(self) -> int {
        (7 - self.pass()) * 65540 + (65540 - self.next_row)
    }
}

/// The cursor after one move: one row on within the current pass, or, when
/// that runs past the last row, the start of the next pass (the row count
/// saturates at `u16::MAX`, and stays so once all stages are over).
pub open spec fn advance_spec(m: CursorModel) -> CursorModel {
    let sum = m.next_row + stage_step_spec(m.stage) as int;
    let r = if sum > u16::MAX {
        u16::MAX as int
    } else {
        sum
    };
    if r < m.h {
        CursorModel { next_row: r, ..m }
    } else if m.idx + 1 < stage_offsets_spec(m.stage).len() {
        CursorModel { next_row: stage_offsets_spec(m.stage)[m.idx + 1] as int, idx: m.idx + 1, ..m }
    } else if m.stage + 1 < 3 {
        CursorModel {
            next_row: stage_offsets_spec(m.stage + 1)[0] as int,
            stage: m.stage + 1,
            idx: 0,
            ..m
        }
    } else {
        CursorModel { next_row: r, stage: m.stage + 1, idx: 0, ..m }
    }
}

/// One move keeps the cursor well formed and decreases its measure.
proof fn lemma_advance_measure(m: CursorModel)
    requires
        m.wf(),
        !m.done(),
    ensures
        advance_spec(m).wf(),
        advance_spec(m).h == m.h,
        0 <= advance_spec(m).measure() < m.measure(),
{
    lemma_pass_table(m.stage, m.idx);
    let a = advance_spec(m);
    if !a.done() {
        lemma_pass_table(a.stage, a.idx);
    }
}

/// The cursor after taking a batch of at most `budget` rows: moves that land
/// past the last row of a pass do not count against the budget.
pub open spec fn batch_end(m: CursorModel, budget: nat) -> CursorModel
    decreases budget, m.measure(),
    when m.wf() && m.measure() >= 0
    via batch_end_decreases
{
    if budget == 0 || m.done() {
        m
    } else if m.next_row >= m.h {
        batch_end(advance_spec(m), budget)
    } else {
        batch_end(advance_spec(m), (budget - 1) as nat)
    }
}

#[via_fn]
proof fn batch_end_decreases(m: CursorModel, budget: nat) {
    if budget != 0 && !m.done() {
        lemma_advance_measure(m);
    }
}

/// Cursor over the progressive row schedule of one render.
pub struct RowCursor {
    h: u16,
    next_row: u16,
    pass_stage: usize,
    pass_offset_idx: usize,
}

impl View for RowCursor {
    type V = CursorModel;

    closed spec fn view(&self) -> CursorModel {
        CursorModel {
            h: self.h as int,
            next_row: self.next_row as int,
            stage: self.pass_stage as int,
            idx: self.pass_offset_idx as int,
        }
    }
}

proof fn lemma_pass_table(stage: int, idx: int)
    requires
        0 <= stage < 3,
        0 <= idx < stage_offsets_spec(stage).len(),
    ensures
        pass_step(pass_index(stage, idx)) == stage_step_spec(stage) as int,
        pass_offset(pass_index(stage, idx)) == stage_offsets_spec(stage)[idx] as int,
        0 <= pass_index(stage, idx) < 7,
        idx + 1 < stage_offsets_spec(stage).len() ==> pass_index(stage, idx + 1) == pass_index(stage, idx) + 1,
        idx + 1 == stage_offsets_spec(stage).len() ==> pass_index(stage + 1, 0) == pass_index(stage, idx) + 1,
{
}

/// The stage table: for each stage its row step and the start offsets of its
/// passes.
pub fn stage_steps() -> (r: Vec<(u16, Vec<u16>)>)
    ensures
        r@.len() == STAGE_COUNT,
        forall|s: int|
            0 <= s < 3 ==> #[trigger] r@[s].0 == stage_step_spec(s) && r@[s].1@
                == stage_offsets_spec(s),
        r@[0].0 == 4 && r@[0].1@ == seq![0u16, 2u16, 1u16, 3u16],
        r@[1].0 == 2 && r@[1].1@ == seq![0u16, 1u16],
        r@[2].0 == 1 && r@[2].1@ == seq![0u16],
{
    let r = vec![(4u16, vec![0u16, 2u16, 1u16, 3u16]), (2u16, vec![0u16, 1u16]), (1u16, vec![0u16])];
    assert(r@[0].1@ =~= stage_offsets_spec(0));
    assert(r@[1].1@ =~= stage_offsets_spec(1));
    assert(r@[2].1@ =~= stage_offsets_spec(2));
    r
}

impl RowCursor {
    /// A cursor at the start of the schedule of a render of height `h`.
    pub fn new(h: u16) -> (c: Self)
        ensures
            c@ == (CursorModel { h: h as int, next_row: 0, stage: 0, idx: 0 }),
            c@.wf(),
            c@.remaining() == schedule(h as int),
            !c@.done(),
    {
        RowCursor { h, next_row: 0, pass_stage: 0, pass_offset_idx: 0 }
    }

    /// Height of the render.
    pub fn height(&self) -> (h: u16)
        ensures
            h as int == self@.h,
    {
        self.h
    }

    /// All passes are over.
    pub fn is_done(&self) -> (b: bool)
        ensures
            b == self@.done(),
    {
        self.pass_stage >= STAGE_COUNT
    }

    /// Row step and start offset of the current pass.
    pub fn current_step_and_offset(&self) -> (r: (u16, u16))
        requires
            self@.wf(),
            !self@.done(),
        ensures
            r.0 == stage_step_spec(self@.stage),
            r.1 == stage_offsets_spec(self@.stage)[self@.idx],
    {
        let stages = stage_steps();
        let step = stages[self.pass_stage].0;
        let offset = stages[self.pass_stage].1[self.pass_offset_idx];
        (step, offset)
    }

    /// Moves the cursor one row on within the current pass, or to the start
    /// of the next pass when the current one runs past the last row.
    pub fn advance_row_cursor(&mut self)
        requires
            old(self)@.wf(),
            !old(self)@.done(),
        ensures
            final(self)@ == advance_spec(old(self)@),
            final(self)@.wf(),
            final(self)@.h == old(self)@.h,
            final(self)@.measure() < old(self)@.measure(),
            old(self)@.next_row < old(self)@.h ==> old(self)@.remaining() == seq![
                old(self)@.next_row as u16,
            ] + final(self)@.remaining(),
            old(self)@.next_row >= old(self)@.h ==> old(self)@.remaining() == final(self)@.remaining(),
            old(self)@.next_row + stage_step_spec(old(self)@.stage) < old(self)@.h ==> final(self)@.stage == old(self)@.stage && final(self)@.idx == old(self)@.idx && final(self)@.next_row == old(self)@.next_row + stage_step_spec(old(self)@.stage),
            old(self)@.next_row + stage_step_spec(old(self)@.stage) >= old(self)@.h ==> final(self)@.pass() == old(self)@.pass() + 1,
            !final(self)@.done() && old(self)@.next_row + stage_step_spec(old(self)@.stage)
                >= old(self)@.h ==> final(self)@.next_row == pass_offset(final(self)@.pass()),
    {
        let ghost old_model = self@;
        proof {
            lemma_pass_table(old_model.stage, old_model.idx);
            lemma_advance_measure(old_model);
        }
        let stages = stage_steps();
        let step = stages[self.pass_stage].0;
        let n_offsets = stages[self.pass_stage].1.len();

        self.next_row = self.next_row.saturating_add(step);
        if self.next_row >= self.h {
            self.pass_offset_idx += 1;
            if self.pass_offset_idx >= n_offsets {
                self.pass_stage += 1;
                self.pass_offset_idx = 0;
            }
            if self.pass_stage < stages.len() {
                proof {
                    lemma_pass_table(self@.stage, self@.idx);
                }
                let (_, new_offset) = self.current_step_and_offset();
                self.next_row = new_offset;
            }
            proof {
                let r = old_model.next_row;
                let st = pass_step(old_model.pass());
                assert(run(r + st, st, old_model.h) =~= seq![]);
                if r < old_model.h {
                    assert(run(r, st, old_model.h) =~= seq![r as u16]);
                } else {
                    assert(run(r, st, old_model.h) =~= seq![]);
                }
                assert(passes_from(old_model.pass() + 1, old_model.h) =~= self@.remaining());
            }
        }
    }

    /// Takes the next rows of the schedule, at most `budget` of them, and
    /// moves the cursor past them. Passes that hold no row are skipped.
    pub fn next_batch(&mut self, budget: usize) -> (rows: Vec<u16>)
        requires
            old(self)@.wf(),
        ensures
            final(self)@.wf(),
            final(self)@.h == old(self)@.h,
            rows@.len() == if budget < old(self)@.remaining().len() {
                budget as int
            } else {
                old(self)@.remaining().len() as int
            },
            rows@ == old(self)@.remaining().take(rows@.len() as int),
            final(self)@.remaining() == old(self)@.remaining().skip(rows@.len() as int),
            final(self)@ == batch_end(old(self)@, budget as nat),
            rows@ == batch_rows(old(self)@, budget as nat),
            budget > 0 ==> (final(self)@.done() <==> final(self)@.remaining().len() == 0),
    {
        let mut rows: Vec<u16> = Vec::new();
        let mut rows_budget: usize = budget;
        let ghost start = self@.remaining();
        while rows_budget > 0 && self.pass_stage < STAGE_COUNT
            invariant
                self@.wf(),
                self@.h == old(self)@.h,
                start == old(self)@.remaining(),
                batch_end(self@, rows_budget as nat) == batch_end(old(self)@, budget as nat),
                start == rows@ + self@.remaining(),
                rows@.len() + rows_budget == budget,
                rows_budget < budget ==> self@.h > 0,
                rows_budget < budget ==> (self@.done() || self@.remaining().len() > 0),
            decreases self@.measure(),
        {
            if self.next_row >= self.h {
                self.advance_row_cursor();
                proof {
                    if rows_budget < budget && !self@.done() {
                        lemma_pass_nonempty(self@);
                    }
                }
                continue;
            }
            rows.push(self.next_row);
            rows_budget -= 1;
            self.advance_row_cursor();
            proof {
                assert(start == rows@ + self@.remaining());
                if !self@.done() {
                    lemma_pass_nonempty(self@);
                }
            }
        }
        proof {
            if rows_budget > 0 {
                assert(self@.remaining() =~= seq![]);
            }
            assert(rows@ =~= start.take(rows@.len() as int));
            assert(self@.remaining() =~= start.skip(rows@.len() as int));
        }
        rows
    }
}

/// One move takes the row the cursor stood on, if it lies inside the render,
/// off the front of the rows to come; and, for a render with rows, the
/// cursor is then done or still has a row to come.
proof fn lemma_advance_remaining(m: CursorModel)
    requires
        m.wf(),
        !m.done(),
    ensures
        m.next_row < m.h ==> m.remaining() == seq![m.next_row as u16] + advance_spec(m).remaining(),
        m.next_row >= m.h ==> m.remaining() == advance_spec(m).remaining(),
        m.h > 0 ==> advance_spec(m).done() || advance_spec(m).remaining().len() > 0,
{
    lemma_pass_table(m.stage, m.idx);
    lemma_advance_measure(m);
    let a = advance_spec(m);
    let r = m.next_row;
    let st = pass_step(m.pass());
    if !a.done() {
        lemma_pass_table(a.stage, a.idx);
    }
    if r + st < m.h {
        assert(a.pass() == m.pass());
        assert(a.next_row == r + st);
        assert(m.remaining() =~= seq![r as u16] + a.remaining());
    } else {
        assert(a.pass() == m.pass() + 1);
        assert(run(r + st, st, m.h) =~= seq![]);
        if r < m.h {
            assert(run(r, st, m.h) =~= seq![r as u16]);
        } else {
            assert(run(r, st, m.h) =~= seq![]);
        }
        assert(passes_from(m.pass() + 1, m.h) =~= a.remaining());
    }
    if m.h > 0 && !a.done() {
        lemma_pass_nonempty(a);
    }
}

/// The rows of one batch of at most `n` rows taken from the cursor `m`.
pub open spec fn batch_rows(m: CursorModel, n: nat) -> Seq<u16> {
    let rem = m.remaining();
    rem.take(if n < rem.len() {
        n as int
    } else {
        rem.len() as int
    })
}

/// A batch takes its rows off the front of the rows to come.
proof fn lemma_batch_end_split(m: CursorModel, n: nat)
    requires
        m.wf(),
    ensures
        batch_end(m, n).wf(),
        batch_end(m, n).h == m.h,
        m.remaining() == batch_rows(m, n) + batch_end(m, n).remaining(),
    decreases n, m.measure(),
{
    if n == 0 || m.done() {
        assert(m.remaining() =~= batch_rows(m, n) + m.remaining());
    } else {
        lemma_advance_measure(m);
        lemma_advance_remaining(m);
        let a = advance_spec(m);
        if m.next_row >= m.h {
            lemma_batch_end_split(a, n);
        } else {
            lemma_batch_end_split(a, (n - 1) as nat);
            assert(batch_rows(m, n) =~= seq![m.next_row as u16] + batch_rows(a, (n - 1) as nat));
            assert(m.remaining() =~= batch_rows(m, n) + batch_end(m, n).remaining());
        }
    }
}

/// For a render with rows: from a cursor that is done or has a row to
/// come, a batch ends at such a cursor again.
proof fn lemma_batch_end_keeps_progress(m: CursorModel, n: nat)
    requires
        m.wf(),
        m.h > 0,
        m.done() || m.remaining().len() > 0,
    ensures
        batch_end(m, n).done() || batch_end(m, n).remaining().len() > 0,
    decreases n, m.measure(),
{
    if n != 0 && !m.done() {
        lemma_advance_measure(m);
        lemma_advance_remaining(m);
        if m.next_row >= m.h {
            lemma_batch_end_keeps_progress(advance_spec(m), n);
        } else {
            lemma_batch_end_keeps_progress(advance_spec(m), (n - 1) as nat);
        }
    }
}

/// For a render without rows, a batch with a budget runs to the end.
proof fn lemma_batch_end_empty_render(m: CursorModel, n: nat)
    requires
        m.wf(),
        m.h == 0,
        n > 0,
    ensures
        batch_end(m, n).done(),
    decreases m.measure(),
{
    if !m.done() {
        lemma_advance_measure(m);
        lemma_batch_end_empty_render(advance_spec(m), n);
    }
}

/// After a batch with a budget the cursor is done exactly when no row is
/// left to come.
proof fn lemma_batch_end_done(m: CursorModel, n: nat)
    requires
        m.wf(),
        n > 0,
    ensures
        batch_end(m, n).done() <==> batch_end(m, n).remaining().len() == 0,
{
    if m.h == 0 {
        lemma_batch_end_empty_render(m, n);
    } else if !m.done() {
        lemma_advance_measure(m);
        lemma_advance_remaining(m);
        let a = advance_spec(m);
        if m.next_row >= m.h {
            lemma_batch_end_keeps_progress(a, n);
        } else {
            lemma_batch_end_keeps_progress(a, (n - 1) as nat);
        }
    }
}

/// The rows of `k` batches of at most `n` rows each, taken one after the
/// other from the cursor `m`.
pub open spec fn batches(m: CursorModel, n: nat, k: nat) -> Seq<u16>
    decreases k,
{
    if k == 0 {
        seq![]
    } else {
        batch_rows(m, n) + batches(batch_end(m, n), n, (k - 1) as nat)
    }
}

/// The cursor after `k` batches of at most `n` rows each.
pub open spec fn after_batches(m: CursorModel, n: nat, k: nat) -> CursorModel
    decreases k,
{
    if k == 0 {
        m
    } else {
        after_batches(batch_end(m, n), n, (k - 1) as nat)
    }
}

/// The cursor at the start of the schedule of a render of height `h`.
pub open spec fn start_cursor(h: int) -> CursorModel {
    CursorModel { h, next_row: 0, stage: 0, idx: 0 }
}

/// Batches taken one after the other hand out the rows to come in order:
/// what `k` batches hand out, followed by what is left, is what there was.
pub proof fn lemma_batches_in_order(m: CursorModel, n: nat, k: nat)
    requires
        m.wf(),
    ensures
        after_batches(m, n, k).wf(),
        m.remaining() == batches(m, n, k) + after_batches(m, n, k).remaining(),
    decreases k,
{
    if k > 0 {
        lemma_batch_end_split(m, n);
        lemma_batches_in_order(batch_end(m, n), n, (k - 1) as nat);
        assert(m.remaining() =~= batches(m, n, k) + after_batches(m, n, k).remaining());
    }
}

/// With a budget of at least one row, at least one batch and at least as
/// many batches as rows to come, the cursor is done.
pub proof fn lemma_batches_finish(m: CursorModel, n: nat, k: nat)
    requires
        m.wf(),
        n > 0,
        k >= 1,
        k >= m.remaining().len(),
    ensures
        after_batches(m, n, k).done(),
    decreases k,
{
    lemma_batch_end_split(m, n);
    lemma_batch_end_done(m, n);
    let e = batch_end(m, n);
    if e.done() {
        lemma_done_stays_done(e, n, (k - 1) as nat);
    } else {
        assert(e.remaining().len() > 0);
        assert(batch_rows(m, n).len() >= 1);
        lemma_batches_finish(e, n, (k - 1) as nat);
    }
}

proof fn lemma_done_stays_done(m: CursorModel, n: nat, k: nat)
    requires
        m.wf(),
        m.done(),
    ensures
        after_batches(m, n, k) == m,
    decreases k,
{
    if k > 0 {
        lemma_done_stays_done(batch_end(m, n), n, (k - 1) as nat);
    }
}

/// A whole render job: batches of at most `n` rows taken from the start of
/// the schedule until the cursor is done hand out exactly the schedule,
/// stage by stage, every row once per stage; and enough batches always get
/// there.
pub proof fn lemma_job_draws_schedule(h: u16, n: nat, k: nat)
    requires
        n > 0,
    ensures
        schedule(h as int) == batches(start_cursor(h as int), n, k) + after_batches(
            start_cursor(h as int),
            n,
            k,
        ).remaining(),
        after_batches(start_cursor(h as int), n, k).done() ==> batches(
            start_cursor(h as int),
            n,
            k,
        ) == schedule(h as int),
        k >= 1 && k >= 3 * h ==> after_batches(start_cursor(h as int), n, k).done(),
{
    lemma_schedule_len(h);
    let s = start_cursor(h as int);
    assert(s.remaining() == schedule(h as int));
    lemma_batches_in_order(s, n, k);
    if after_batches(s, n, k).done() {
        assert(batches(s, n, k) =~= schedule(h as int));
    }
    if k >= 1 && k >= 3 * h {
        lemma_batches_finish(s, n, k);
    }
}

/// A cursor that is not done holds a row still to come, provided the render
/// has a row and the cursor has not run past the last row of the final pass.
proof fn lemma_pass_nonempty(m: CursorModel)
    requires
        m.wf(),
        !m.done(),
        m.h > 0,
        m.pass() == 6 ==> m.next_row < m.h,
    ensures
        m.remaining().len() > 0,
{
    lemma_pass_table(m.stage, m.idx);
    if m.pass() < 6 {
        lemma_passes_from_last_nonempty(m.pass() + 1, m.h);
    } else {
        assert(run(m.next_row, pass_step(m.pass()), m.h).len() > 0);
    }
}

proof fn lemma_passes_from_last_nonempty(p: int, h: int)
    requires
        0 <= p <= 6,
        h > 0,
    ensures
        passes_from(p, h).len() > 0,
    decreases 7 - p,
{
    if p < 6 {
        lemma_passes_from_last_nonempty(p + 1, h);
    } else {
        assert(run(0, 1, h).len() > 0);
    }
}

/// The rows of the passes of one stage, one pass after the other.
pub open spec fn stage_rows(stage: int, h: int) -> Seq<u16> {
    if stage == 0 {
        run(0, 4, h) + run(2, 4, h) + run(1, 4, h) + run(3, 4, h)
    } else if stage == 1 {
        run(0, 2, h) + run(1, 2, h)
    } else {
        run(0, 1, h)
    }
}

/// How many times `y` occurs in `s`.
pub open spec fn occurrences(s: Seq<u16>, y: u16) -> nat {
    s.to_multiset().count(y)
}

proof fn lemma_run_occurrences(r: int, step: int, h: int, y: u16)
    requires
        0 <= r,
        0 < step,
        h <= u16::MAX + 1,
    ensures
        occurrences(run(r, step, h), y) == (if r <= y < h && (y - r) % step == 0 {
            1nat
        } else {
            0nat
        }),
    decreases if r < h { h - r } else { 0 },
{
    broadcast use vstd::seq_lib::group_to_multiset_ensures;
    broadcast use vstd::multiset::group_multiset_axioms;

    if r >= h {
        assert(run(r, step, h) =~= seq![]);
        assert(Seq::<u16>::empty().to_multiset() =~= vstd::multiset::Multiset::empty());
    } else {
        lemma_run_occurrences(r + step, step, h, y);
        let rest = run(r + step, step, h);
        vstd::seq_lib::lemma_multiset_commutative(seq![r as u16], rest);
        assert(seq![r as u16] =~= Seq::<u16>::empty().push(r as u16));
        assert(Seq::<u16>::empty().to_multiset() =~= vstd::multiset::Multiset::empty());
        let head = seq![r as u16].to_multiset();
        assert(head.count(y) == if y == r { 1nat } else { 0nat });
        assert(run(r, step, h) == seq![r as u16] + rest);
        assert(occurrences(run(r, step, h), y) == head.count(y) + occurrences(rest, y));
        if y > r {
            vstd::arithmetic::div_mod::lemma_mod_add_multiples_vanish(y - r - step, step);
            assert((y - r) % step == (y - (r + step)) % step);
            if y < r + step {
                vstd::arithmetic::div_mod::lemma_small_mod((y - r) as nat, step as nat);
            }
        } else if y == r {
            assert((y - r) % step == 0) by (nonlinear_arith)
                requires
                    y == r,
                    step > 0,
            ;
        }
    }
}

proof fn lemma_run_unit_step(r: int, h: int)
    requires
        0 <= r,
        h <= u16::MAX + 1,
    ensures
        run(r, 1, h) =~= Seq::new(if r < h { (h - r) as nat } else { 0 }, |i: int| (r + i) as u16),
    decreases if r < h { h - r } else { 0 },
{
    if r < h {
        lemma_run_unit_step(r + 1, h);
    }
}

/// The schedule is its three stages, one after the other.
pub proof fn lemma_schedule_is_stages(h: u16)
    ensures
        schedule(h as int) =~= stage_rows(0, h as int) + stage_rows(1, h as int) + stage_rows(
            2,
            h as int,
        ),
{
    reveal_with_fuel(passes_from, 8);
}

/// Each stage draws every row of the render exactly once, and nothing else.
pub proof fn lemma_stage_covers_each_row_once(stage: int, h: u16, y: u16)
    requires
        0 <= stage < 3,
    ensures
        occurrences(stage_rows(stage, h as int), y) == (if y < h { 1nat } else { 0nat }),
{
    broadcast use vstd::seq_lib::group_to_multiset_ensures;
    broadcast use vstd::multiset::group_multiset_axioms;

    let hi = h as int;
    if stage == 0 {
        lemma_run_occurrences(0, 4, hi, y);
        lemma_run_occurrences(2, 4, hi, y);
        lemma_run_occurrences(1, 4, hi, y);
        lemma_run_occurrences(3, 4, hi, y);
        vstd::seq_lib::lemma_multiset_commutative(run(0, 4, hi), run(2, 4, hi));
        vstd::seq_lib::lemma_multiset_commutative(run(0, 4, hi) + run(2, 4, hi), run(1, 4, hi));
        vstd::seq_lib::lemma_multiset_commutative(
            run(0, 4, hi) + run(2, 4, hi) + run(1, 4, hi),
            run(3, 4, hi),
        );
    } else if stage == 1 {
        lemma_run_occurrences(0, 2, hi, y);
        lemma_run_occurrences(1, 2, hi, y);
        vstd::seq_lib::lemma_multiset_commutative(run(0, 2, hi), run(1, 2, hi));
    } else {
        lemma_run_occurrences(0, 1, hi, y);
    }
}

/// Over a whole render every row is drawn exactly three times, once per
/// stage, and no row outside the render is ever drawn.
pub proof fn lemma_schedule_draws_each_row_three_times(h: u16, y: u16)
    ensures
        occurrences(schedule(h as int), y) == (if y < h { 3nat } else { 0nat }),
{
    broadcast use vstd::multiset::group_multiset_axioms;

    lemma_schedule_is_stages(h);
    lemma_stage_covers_each_row_once(0, h, y);
    lemma_stage_covers_each_row_once(1, h, y);
    lemma_stage_covers_each_row_once(2, h, y);
    let hi = h as int;
    vstd::seq_lib::lemma_multiset_commutative(stage_rows(0, hi), stage_rows(1, hi));
    vstd::seq_lib::lemma_multiset_commutative(stage_rows(0, hi) + stage_rows(1, hi), stage_rows(2, hi));
}

/// The last stage draws the rows top to bottom, each at full resolution, and
/// it closes the schedule.
pub proof fn lemma_last_stage_is_top_to_bottom(h: u16)
    ensures
        stage_rows(2, h as int) == all_rows(h as int),
        schedule(h as int) == stage_rows(0, h as int) + stage_rows(1, h as int) + all_rows(h as int),
{
    lemma_run_unit_step(0, h as int);
    assert(stage_rows(2, h as int) =~= all_rows(h as int));
    lemma_schedule_is_stages(h);
}

proof fn lemma_run_len(r: int, step: int, h: int)
    requires
        0 <= r,
        step == 1 || step == 2 || step == 4,
    ensures
        run(r, step, h).len() == if r < h {
            (h - r + step - 1) / step
        } else {
            0
        },
    decreases if r < h { h - r } else { 0 },
{
    if r < h {
        lemma_run_len(r + step, step, h);
    }
}

/// Each stage draws as many rows as the render has, and the whole schedule
/// three times as many.
pub proof fn lemma_schedule_len(h: u16)
    ensures
        stage_rows(0, h as int).len() == h,
        stage_rows(1, h as int).len() == h,
        stage_rows(2, h as int).len() == h,
        schedule(h as int).len() == 3 * h,
{
    let hi = h as int;
    lemma_run_len(0, 4, hi);
    lemma_run_len(2, 4, hi);
    lemma_run_len(1, 4, hi);
    lemma_run_len(3, 4, hi);
    lemma_run_len(0, 2, hi);
    lemma_run_len(1, 2, hi);
    lemma_run_len(0, 1, hi);
    lemma_schedule_is_stages(h);
}

/// The render opens with every fourth row from the top: the first
/// `ceil(h / 4)` rows drawn are `0, 4, 8, ...`, and the second pass starts
/// two rows down.
pub proof fn lemma_first_pass_every_fourth_row(h: u16)
    ensures
        forall|i: int|
            0 <= i && 4 * i < h ==> #[trigger] schedule(h as int)[i] == 4 * i,
        h > 2 ==> schedule(h as int)[(h as int + 3) / 4] == 2,
{
    let hi = h as int;
    lemma_run_len(0, 4, hi);
    lemma_run_len(2, 4, hi);
    reveal_with_fuel(passes_from, 2);
    assert forall|i: int| 0 <= i && 4 * i < h implies #[trigger] schedule(h as int)[i] == 4 * i by {
        lemma_run_index(0, 4, hi, i);
    }
    if h > 2 {
        lemma_run_index(2, 4, hi, 0);
    }
}

proof fn lemma_run_index(r: int, step: int, h: int, i: int)
    requires
        0 <= r,
        step == 1 || step == 2 || step == 4,
        0 <= i,
        r + step * i < h,
        h <= u16::MAX + 1,
    ensures
        i < run(r, step, h).len(),
        run(r, step, h)[i] == r + step * i,
    decreases i,
{
    lemma_run_len(r, step, h);
    if i > 0 {
        lemma_run_index(r + step, step, h, i - 1);
        assert(r + step + step * (i - 1) == r + step * i) by (nonlinear_arith);
    }
}

} // verus!
