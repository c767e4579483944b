use in_one_weekend::order::batch_pixels;
use in_one_weekend::params::ThreadParameters;
use in_one_weekend::schedule::{group_cycles, line_batches, plan_cycles, LineBatch};

fn batch(line_idx: usize, num_lines: usize) -> LineBatch {
    LineBatch { line_idx, num_lines }
}

fn params(num_threads: usize, lines_per_thread: usize) -> ThreadParameters {
    ThreadParameters { num_threads, lines_per_thread }
}

#[test]
fn batches_are_cut_from_the_top() {
    assert_eq!(
        line_batches(10, 3),
        vec![batch(7, 3), batch(4, 3), batch(1, 3), batch(0, 1)]
    );
    assert_eq!(line_batches(6, 3), vec![batch(3, 3), batch(0, 3)]);
    assert_eq!(line_batches(2, 5), vec![batch(0, 2)]);
    assert_eq!(line_batches(0, 5), vec![]);
}

#[test]
fn cycles_group_batches_by_thread_count() {
    let b = vec![batch(4, 1), batch(3, 1), batch(2, 1), batch(1, 1), batch(0, 1)];
    assert_eq!(
        group_cycles(&b, 2),
        vec![
            vec![batch(4, 1), batch(3, 1)],
            vec![batch(2, 1), batch(1, 1)],
            vec![batch(0, 1)],
        ]
    );
    assert_eq!(group_cycles(&b, 9), vec![b.clone()]);
    assert_eq!(group_cycles(&vec![], 3), Vec::<Vec<LineBatch>>::new());
}

#[test]
fn plan_with_partial_last_cycle() {
    assert_eq!(
        plan_cycles(10, &params(2, 3)),
        vec![vec![batch(7, 3), batch(4, 3)], vec![batch(1, 3), batch(0, 1)]]
    );
    assert_eq!(
        plan_cycles(5, &params(4, 2)),
        vec![vec![batch(3, 2), batch(1, 2), batch(0, 1)]]
    );
    assert_eq!(
        plan_cycles(11, &params(2, 3)),
        vec![vec![batch(8, 3), batch(5, 3)], vec![batch(2, 3), batch(0, 2)]]
    );
}

#[test]
fn plan_one_line_per_cycle() {
    assert_eq!(
        plan_cycles(3, &params(1, 1)),
        vec![vec![batch(2, 1)], vec![batch(1, 1)], vec![batch(0, 1)]]
    );
}

#[test]
fn plan_of_empty_image_is_empty() {
    assert!(plan_cycles(0, &params(4, 4)).is_empty());
}

#[test]
fn plan_exact_multiple_of_cycle() {
    let plan = plan_cycles(8, &params(2, 2));
    assert_eq!(
        plan,
        vec![vec![batch(6, 2), batch(4, 2)], vec![batch(2, 2), batch(0, 2)]]
    );
}

#[test]
fn batch_pixels_go_down_rows_and_across_columns() {
    assert_eq!(
        batch_pixels(&batch(1, 2), 2),
        vec![(0, 2), (1, 2), (0, 1), (1, 1)]
    );
    assert_eq!(batch_pixels(&batch(5, 0), 3), vec![]);
    assert_eq!(batch_pixels(&batch(5, 1), 0), vec![]);
}

fn sequential_pixels(height: usize, width: usize) -> Vec<(usize, usize)> {
    let mut v = Vec::new();
    for j in (0..height).rev() {
        for i in 0..width {
            v.push((i, j));
        }
    }
    v
}

#[test]
fn parallel_plan_writes_pixels_in_sequential_order() {
    for height in 0..13 {
        for width in [0, 1, 3] {
            for threads in 1..5 {
                for lines in 1..5 {
                    let plan = plan_cycles(height, &params(threads, lines));
                    let mut written = Vec::new();
                    for cycle in &plan {
                        assert!(!cycle.is_empty() && cycle.len() <= threads);
                        for b in cycle {
                            assert!(b.num_lines >= 1 && b.num_lines <= lines);
                            written.extend(batch_pixels(b, width));
                        }
                    }
                    assert_eq!(written, sequential_pixels(height, width));
                }
            }
        }
    }
}
