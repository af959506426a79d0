use mandelbrot::escape::escape_time;
use mandelbrot::sampling::{compute_image, compute_image_sequential, compute_vertical_line};

struct Viewport {
    left: f64,
    top: f64,
    right: f64,
    bottom: f64,
    x_resolution: u32,
    y_resolution: u32,
}

fn in_mandelbrot(cx: f64, cy: f64, max_iterations: usize) -> usize {
    escape_time(
        (0.0f64, 0.0f64),
        |z: (f64, f64)| (z.0 * z.0 - z.1 * z.1 + cx, 2.0 * z.0 * z.1 + cy),
        |z: &(f64, f64)| z.0 * z.0 + z.1 * z.1 >= 4.0,
        max_iterations,
    )
}

fn sample_at(view: &Viewport, max_iterations: usize, column: u32, row: u32) -> usize {
    let x = view.left + (view.right - view.left) * (column as f64 / view.x_resolution as f64);
    let y = view.top - (view.top - view.bottom) * (row as f64 / view.y_resolution as f64);
    in_mandelbrot(x, y, max_iterations)
}

fn standard_view(x_resolution: u32, y_resolution: u32) -> Viewport {
    Viewport { left: -2.5, top: 1.0, right: 1.0, bottom: -1.0, x_resolution, y_resolution }
}

fn line_by_line<F: Fn(u32, u32) -> usize>(columns: u32, rows: u32, sample: &F) -> Vec<Vec<usize>> {
    let mut grid = Vec::new();
    for column in 0..columns {
        grid.push(compute_vertical_line(column, rows, sample));
    }
    grid
}

#[test]
fn vertical_line_runs_down_the_rows() {
    let line = compute_vertical_line(7, 5, &|column: u32, row: u32| (column * 100 + row) as usize);
    assert_eq!(line, vec![700, 701, 702, 703, 704]);
}

#[test]
fn vertical_line_of_no_rows_is_empty() {
    let line = compute_vertical_line(3, 0, &|_column: u32, _row: u32| 1usize);
    assert_eq!(line, Vec::<usize>::new());
}

#[test]
fn vertical_line_includes_the_last_row() {
    let line = compute_vertical_line(0, 4, &|_column: u32, row: u32| row as usize);
    assert_eq!(line.len(), 4);
    assert_eq!(line[3], 3);
}

#[test]
fn image_is_indexed_by_column_then_row() {
    let grid = compute_image(4, 3, &|column: u32, row: u32| (column * 10 + row) as usize);
    assert_eq!(
        grid,
        vec![vec![0, 1, 2], vec![10, 11, 12], vec![20, 21, 22], vec![30, 31, 32]]
    );
}

#[test]
fn image_includes_the_last_column_and_row() {
    let grid = compute_image(300, 7, &|column: u32, row: u32| (column as usize) * 1000 + row as usize);
    assert_eq!(grid.len(), 300);
    for column in 0..300usize {
        assert_eq!(grid[column].len(), 7);
        for row in 0..7usize {
            assert_eq!(grid[column][row], column * 1000 + row);
        }
    }
    assert_eq!(grid[299][6], 299_006);
}

#[test]
fn image_of_an_empty_frame() {
    let no_columns = compute_image(0, 5, &|_column: u32, _row: u32| 1usize);
    assert_eq!(no_columns, Vec::<Vec<usize>>::new());
    let no_rows = compute_image(3, 0, &|_column: u32, _row: u32| 1usize);
    assert_eq!(no_rows, vec![Vec::<usize>::new(), Vec::new(), Vec::new()]);
}

#[test]
fn parallel_sampling_equals_sequential_sampling() {
    let view = standard_view(96, 64);
    let sample = |column: u32, row: u32| sample_at(&view, 300, column, row);
    let parallel = compute_image(view.x_resolution, view.y_resolution, &sample);
    let sequential = compute_image_sequential(view.x_resolution, view.y_resolution, &sample);
    assert_eq!(parallel, sequential);
    assert_eq!(parallel, line_by_line(view.x_resolution, view.y_resolution, &sample));
}

#[test]
fn sequential_image_is_indexed_by_column_then_row() {
    let grid = compute_image_sequential(4, 3, &|column: u32, row: u32| (column * 10 + row) as usize);
    assert_eq!(
        grid,
        vec![vec![0, 1, 2], vec![10, 11, 12], vec![20, 21, 22], vec![30, 31, 32]]
    );
    let empty = compute_image_sequential(0, 3, &|_column: u32, _row: u32| 1usize);
    assert_eq!(empty, Vec::<Vec<usize>>::new());
}

#[test]
fn sequential_sampling_takes_a_sample_that_is_not_shared() {
    // A sample that holds a cell cannot cross threads; one thread needs no more.
    let calls = std::cell::Cell::new(0usize);
    let sample = |column: u32, row: u32| {
        calls.set(calls.get() + 1);
        (column + row) as usize
    };
    let grid = compute_image_sequential(3, 2, &sample);
    assert_eq!(grid, vec![vec![0, 1], vec![1, 2], vec![2, 3]]);
    assert_eq!(calls.get(), 6);
}

#[test]
fn parallel_sampling_is_repeatable() {
    let view = standard_view(80, 50);
    let sample = |column: u32, row: u32| sample_at(&view, 255, column, row);
    let first = compute_image(view.x_resolution, view.y_resolution, &sample);
    for _ in 0..4 {
        assert_eq!(compute_image(view.x_resolution, view.y_resolution, &sample), first);
    }
}

#[test]
fn sampled_counts_are_within_the_cap() {
    let view = standard_view(60, 40);
    let grid = compute_image(60, 40, &|column: u32, row: u32| sample_at(&view, 100, column, row));
    for line in &grid {
        for &count in line {
            assert!(count <= 100);
        }
    }
}

#[test]
fn standard_view_origin_is_inside_and_corner_escapes() {
    let cap = 255usize;
    let view = standard_view(500, 500);
    let grid = compute_image(500, 500, &|column: u32, row: u32| sample_at(&view, cap, column, row));
    assert_eq!(grid.len(), 500);
    assert!(grid.iter().all(|line| line.len() == 500));
    // x = -2.5 + 3.5 * column / 500 is nearest 0 at column 357, and
    // y = 1 - 2 * row / 500 is 0 at row 250.
    assert_eq!(grid[357][250], cap);
    // Pixel (0, 0) is the corner (-2.5, 1.0): beyond radius 2 after one step.
    assert_eq!(grid[0][0], 1);
    assert!(grid[0][0] < 3);
}
