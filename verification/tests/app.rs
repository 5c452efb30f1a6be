use fractol::app::{
    mode_label, preview_max_iter, App, DrawPlan, FrameInput, DEFAULT_MAX_ITER, MAX_ITER_CAP,
    MIN_MAX_ITER, PREVIEW_ITER_LIMIT,
};
use fractol::canvas::pack_pixels;

fn quiet(sw: u16, sh: u16, pw: u16, ph: u16) -> FrameInput {
    FrameInput {
        screen_w: sw,
        screen_h: sh,
        preview_w: pw,
        preview_h: ph,
        zoomed: false,
        panned: false,
        key_up: false,
        key_down: false,
        key_reset: false,
        key_palette: false,
        digit_keys: [false; 6],
        key_escape: false,
        key_screenshot: false,
        preview_slot_open: true,
    }
}

/// A window whose 35% preview size is the initial preview size.
fn base() -> FrameInput {
    quiet(1371, 771, 480, 270)
}

fn float_preview_max_iter(max_iter: u32) -> u32 {
    if max_iter <= 50 {
        return max_iter;
    }
    let reduced = (max_iter as f32 * 0.35).round() as u32;
    reduced.clamp(50, max_iter)
}

fn run_job_to_end(app: &mut App) -> usize {
    let mut batches = 0;
    let mut uploaded: Vec<u16> = Vec::new();
    loop {
        let (w, h) = app.render_size();
        let rows = app.next_job_rows();
        uploaded.extend(rows.iter().copied());
        for y in &rows {
            let px = vec![[1u8, 2, 3, 255]; w as usize];
            let bytes = pack_pixels(&px);
            app.commit_job_row(*y, &bytes);
            assert_eq!(app.job_row(*y), bytes);
        }
        batches += 1;
        if app.finish_job_step() {
            let mut expected: Vec<u16> = Vec::new();
            for (step, offset) in [(4u16, 0u16), (4, 2), (4, 1), (4, 3), (2, 0), (2, 1), (1, 0)] {
                let mut y = offset;
                while y < h {
                    expected.push(y);
                    y += step;
                }
            }
            assert_eq!(uploaded.len(), 3 * h as usize);
            assert_eq!(uploaded, expected);
            return batches;
        }
        assert!(batches < 10_000);
    }
}

#[test]
fn initial_state() {
    let app = App::new();
    assert_eq!(app.render_size(), (480, 270));
    assert!(app.is_preview());
    assert_eq!(app.max_iter(), DEFAULT_MAX_ITER);
    assert_eq!(app.palette(), 0);
    assert_eq!(app.minimap_size(), (160, 160));
    assert_eq!(app.frames(), 0);
    assert!(app.render_job().is_none());
}

#[test]
fn first_frame_starts_preview_render() {
    let mut app = App::new();
    let act = app.update(&base());
    assert!(act.job_started);
    assert!(act.claim_preview_slot);
    assert!(!act.reset_view);
    assert_eq!(app.frames(), 1);
    let job = app.render_job().unwrap();
    assert_eq!((job.width(), job.height()), (480, 270));
    assert_eq!(job.max_iter(), 70);
    assert_eq!(job.palette(), 0);
    assert!(job.canvas().as_bytes().chunks(4).all(|p| p == [0, 0, 0, 255]));
}

#[test]
fn preview_size_change_moves_render() {
    // In preview, a new preview size takes the render along.
    let mut app = App::new();
    let act = app.update(&quiet(1280, 720, 448, 252));
    assert_eq!(app.render_size(), (448, 252));
    assert!(app.is_preview());
    assert!(act.job_started);
    assert!(act.claim_preview_slot);
    assert_eq!(app.render_job().unwrap().max_iter(), 70);
    assert_eq!(app.render_job().unwrap().width(), 448);
}

#[test]
fn resize_while_previewing_drops_job_and_follows() {
    let mut app = App::new();
    app.update(&base());
    app.next_job_rows();
    let act = app.update(&quiet(1600, 900, 560, 315));
    assert_eq!(app.render_size(), (560, 315));
    assert!(app.is_preview());
    assert!(act.job_started);
    assert_eq!(app.next_job_rows(), vec![0, 4, 8, 12, 16, 20, 24, 28, 32, 36]);
}

#[test]
fn move_then_quiet_frames_at_new_window() {
    let mut app = App::new();
    let mut mv = base();
    mv.panned = true;
    app.update(&mv);
    let w = quiet(1600, 900, 560, 315);
    for _ in 0..5 {
        app.update(&w);
        assert!(app.is_preview());
        assert_eq!(app.render_size(), (560, 315));
    }
    app.update(&w);
    assert_eq!(app.idle_frames(), 6);
    assert_eq!(app.render_size(), (1600, 900));
    assert!(!app.is_preview());
}

#[test]
fn closed_rate_limit_delays_preview_render() {
    let mut app = App::new();
    let mut inp = base();
    inp.preview_slot_open = false;
    let act = app.update(&inp);
    assert!(!act.job_started);
    assert!(!act.claim_preview_slot);
    assert!(app.render_job().is_none());
    let act = app.update(&base());
    assert!(act.job_started);
}

#[test]
fn job_runs_to_completion() {
    let mut app = App::new();
    app.update(&base());
    let batches = run_job_to_end(&mut app);
    // 3 * 270 rows, 10 per batch.
    assert_eq!(batches, 81);
    assert!(app.render_job().is_none());
    // Nothing to render afterwards.
    let act = app.update(&base());
    assert!(!act.job_started);
    assert!(app.render_job().is_none());
}

#[test]
fn idle_switches_to_hq_after_six_frames() {
    let mut app = App::new();
    app.update(&base());
    run_job_to_end(&mut app);
    for _ in 0..4 {
        app.update(&base());
        assert!(app.is_preview());
    }
    assert_eq!(app.idle_frames(), 5);
    let act = app.update(&base());
    assert_eq!(app.idle_frames(), 6);
    assert_eq!(app.render_size(), (1371, 771));
    assert!(!app.is_preview());
    assert!(act.job_started);
    let job = app.render_job().unwrap();
    assert_eq!(job.max_iter(), 200);
    assert_eq!((job.width(), job.height()), (1371, 771));
    let rows = app.next_job_rows();
    assert_eq!(rows, vec![0, 4, 8, 12, 16, 20]);
}

#[test]
fn moving_drops_back_to_preview() {
    let mut app = App::new();
    for _ in 0..6 {
        app.update(&base());
    }
    assert!(!app.is_preview());
    let mut inp = base();
    inp.panned = true;
    let act = app.update(&inp);
    assert!(app.is_preview());
    assert_eq!(app.idle_frames(), 0);
    assert!(act.job_started);
    assert_eq!(app.render_job().unwrap().width(), 480);
}

#[test]
fn iteration_keys() {
    let mut app = App::new();
    let mut up = base();
    up.key_up = true;
    let mut down = base();
    down.key_down = true;
    app.update(&up);
    assert_eq!(app.max_iter(), 250);
    app.update(&down);
    app.update(&down);
    assert_eq!(app.max_iter(), 150);
    for _ in 0..10 {
        app.update(&down);
    }
    assert_eq!(app.max_iter(), MIN_MAX_ITER);
    for _ in 0..300 {
        app.update(&up);
    }
    assert_eq!(app.max_iter(), MAX_ITER_CAP);
    let mut reset = base();
    reset.key_reset = true;
    let act = app.update(&reset);
    assert!(act.reset_view);
    assert_eq!(app.max_iter(), DEFAULT_MAX_ITER);
}

#[test]
fn palette_selection() {
    let mut app = App::new();
    let mut digit = base();
    digit.digit_keys[2] = true;
    app.update(&digit);
    assert_eq!(app.palette(), 0);

    let mut p = base();
    p.key_palette = true;
    app.update(&p);
    assert!(matches!(app.draw(), DrawPlan::Hud { palette_prompt: true, .. }));
    let mut both = base();
    both.digit_keys[4] = true;
    both.digit_keys[2] = true;
    app.update(&both);
    assert_eq!(app.palette(), 2);
    assert!(matches!(app.draw(), DrawPlan::Hud { palette_prompt: false, .. }));
    assert_eq!(app.render_job().unwrap().palette(), 2);

    app.update(&p);
    let mut esc = base();
    esc.key_escape = true;
    app.update(&esc);
    assert!(matches!(app.draw(), DrawPlan::Hud { palette_prompt: false, .. }));
    app.update(&digit);
    assert_eq!(app.palette(), 2);
}

#[test]
fn screenshot_is_taken_once() {
    let mut app = App::new();
    let mut s = base();
    s.key_screenshot = true;
    app.update(&s);
    assert!(matches!(app.draw(), DrawPlan::Screenshot));
    match app.draw() {
        DrawPlan::Hud { max_iter, palette_prompt, preview } => {
            assert_eq!(max_iter, 200);
            assert!(!palette_prompt);
            assert!(preview);
        }
        DrawPlan::Screenshot => panic!("request served twice"),
    }
}

#[test]
fn window_resize_in_hq_follows_window() {
    let mut app = App::new();
    for _ in 0..6 {
        app.update(&base());
    }
    assert_eq!(app.render_size(), (1371, 771));
    let act = app.update(&quiet(1600, 900, 480, 270));
    assert_eq!(app.render_size(), (1600, 900));
    assert!(act.job_started);
}

#[test]
fn preview_iterations_match_float_rounding() {
    for m in 0..=PREVIEW_ITER_LIMIT {
        assert_eq!(preview_max_iter(m), float_preview_max_iter(m), "max_iter {}", m);
    }
    assert_ne!((7 * (PREVIEW_ITER_LIMIT + 1) + 10) / 20, float_preview_max_iter(PREVIEW_ITER_LIMIT + 1));
    assert_eq!(preview_max_iter(200), 70);
    assert_eq!(preview_max_iter(50), 50);
    assert_eq!(preview_max_iter(51), 50);
    assert_eq!(preview_max_iter(10), 10);
    assert_eq!(preview_max_iter(150), 53);
}

#[test]
fn mode_labels() {
    assert_eq!(mode_label(true), "PREVIEW");
    assert_eq!(mode_label(false), "HQ");
}

#[test]
fn up_then_down_restores_iterations() {
    let mut app = App::new();
    let mut up = base();
    up.key_up = true;
    let mut down = base();
    down.key_down = true;
    for _ in 0..3 {
        app.update(&down);
    }
    assert_eq!(app.max_iter(), 50);
    app.update(&up);
    app.update(&down);
    assert_eq!(app.max_iter(), 50);
    for _ in 0..200 {
        app.update(&up);
    }
    assert_eq!(app.max_iter(), 10_000);
    app.update(&down);
    app.update(&up);
    assert_eq!(app.max_iter(), 10_000);
    app.update(&down);
    assert_eq!(app.max_iter(), 9_950);
}

#[test]
fn moving_restarts_running_job() {
    let mut app = App::new();
    app.update(&base());
    let rows = app.next_job_rows();
    assert_eq!(rows, vec![0, 4, 8, 12, 16, 20, 24, 28, 32, 36]);
    let mut z = base();
    z.zoomed = true;
    // Rate limit closed: the old job is dropped and none starts yet.
    z.preview_slot_open = false;
    let act = app.update(&z);
    assert!(!act.job_started);
    assert!(app.render_job().is_none());
    assert!(!app.finish_job_step());
    z.preview_slot_open = true;
    let act = app.update(&z);
    assert!(act.job_started);
    assert_eq!(app.next_job_rows(), rows);
}

#[test]
fn preview_iterations_for_every_count() {
    let samples = [0u32, 1, 49, 50, 51, 143, 10_000, PREVIEW_ITER_LIMIT, PREVIEW_ITER_LIMIT + 1, 1 << 30, u32::MAX];
    let mut last = 0;
    for m in samples {
        let r = preview_max_iter(m);
        assert!(r <= m);
        assert!(r >= m.min(50));
        assert!(r >= last);
        last = r;
    }
    assert_eq!(preview_max_iter(u32::MAX), ((7 * u32::MAX as u64 + 10) / 20) as u32);
}
