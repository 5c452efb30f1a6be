use fractol::progressive::{rows_per_batch, stage_steps, RowCursor, STAGE_COUNT};

fn whole_schedule(h: u16, budget: usize) -> Vec<u16> {
    let mut cursor = RowCursor::new(h);
    let mut all = Vec::new();
    let mut batches = 0;
    while !cursor.is_done() {
        let rows = cursor.next_batch(budget);
        assert!(rows.len() <= budget);
        all.extend(rows);
        batches += 1;
        assert!(batches < 100_000);
    }
    all
}

#[test]
fn stage_table() {
    let t = stage_steps();
    assert_eq!(t.len(), STAGE_COUNT);
    assert_eq!(t[0], (4, vec![0, 2, 1, 3]));
    assert_eq!(t[1], (2, vec![0, 1]));
    assert_eq!(t[2], (1, vec![0]));
}

#[test]
fn batch_size_depends_on_width() {
    assert_eq!(rows_per_batch(1023), 10);
    assert_eq!(rows_per_batch(1024), 6);
    assert_eq!(rows_per_batch(1920), 6);
    assert_eq!(rows_per_batch(480), 10);
}

#[test]
fn schedule_of_eight_rows() {
    let expected: Vec<u16> = vec![
        0, 4, 2, 6, 1, 5, 3, 7, // stage 0
        0, 2, 4, 6, 1, 3, 5, 7, // stage 1
        0, 1, 2, 3, 4, 5, 6, 7, // stage 2
    ];
    assert_eq!(whole_schedule(8, 10), expected);
    assert_eq!(whole_schedule(8, 1), expected);
    assert_eq!(whole_schedule(8, 6), expected);
}

#[test]
fn schedule_of_small_heights() {
    assert_eq!(whole_schedule(0, 10), Vec::<u16>::new());
    assert_eq!(whole_schedule(1, 10), vec![0, 0, 0]);
    assert_eq!(whole_schedule(2, 10), vec![0, 1, 0, 1, 0, 1]);
    assert_eq!(whole_schedule(3, 10), vec![0, 2, 1, 0, 2, 1, 0, 1, 2]);
}

#[test]
fn every_row_three_times() {
    for h in [5u16, 17, 270, 721] {
        let all = whole_schedule(h, 10);
        assert_eq!(all.len(), 3 * h as usize);
        let mut counts = vec![0u32; h as usize];
        for y in &all {
            counts[*y as usize] += 1;
        }
        assert!(counts.iter().all(|c| *c == 3));
        let last: Vec<u16> = all[2 * h as usize..].to_vec();
        let rows: Vec<u16> = (0..h).collect();
        assert_eq!(last, rows);
    }
}

#[test]
fn done_when_nothing_remains() {
    let mut c = RowCursor::new(0);
    assert!(!c.is_done());
    let rows = c.next_batch(10);
    assert!(rows.is_empty());
    assert!(c.is_done());

    let mut c = RowCursor::new(3);
    let first = c.next_batch(9);
    assert_eq!(first, vec![0, 2, 1, 0, 2, 1, 0, 1, 2]);
    assert!(c.is_done());
}

#[test]
fn budget_zero_takes_nothing() {
    let mut c = RowCursor::new(4);
    assert!(c.next_batch(0).is_empty());
    assert_eq!(c.next_batch(2), vec![0, 2]);
}

#[test]
fn advance_moves_within_and_between_passes() {
    let mut c = RowCursor::new(6);
    assert_eq!(c.current_step_and_offset(), (4, 0));
    c.advance_row_cursor(); // row 4
    assert_eq!(c.current_step_and_offset(), (4, 0));
    c.advance_row_cursor(); // past the end: pass with offset 2
    assert_eq!(c.current_step_and_offset(), (4, 2));
    assert_eq!(c.next_batch(3), vec![2, 1, 5]);
    assert_eq!(c.current_step_and_offset(), (4, 3));
}

#[test]
fn tallest_render() {
    let all = whole_schedule(u16::MAX, 10);
    assert_eq!(all.len(), 3 * u16::MAX as usize);
    assert_eq!(*all.last().unwrap(), u16::MAX - 1);
}
