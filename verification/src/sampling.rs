//! Sampling a frame: one iteration count for each pixel, column by column.
//!
//! A grid of counts is indexed by column and then by row. The columns do not
//! depend on each other, so they are sampled in parallel.

use rayon::iter::IntoParallelIterator;
use rayon::iter::ParallelIterator;
use vstd::prelude::*;

verus! {

/// Whether `line` holds, for each of the `rows` rows of `column`, a count that
/// `sample` returned for that pixel.
pub open spec fn column_sampled<F: Fn(u32, u32) -> usize>(
    sample: F,
    column: u32,
    rows: u32,
    line: Seq<usize>,
) -> bool {
    &&& line.len() == rows
    &&& forall|row: u32| row < rows ==> call_ensures(sample, (column, row), #[trigger] line[row as int])
}

/// Whether `grid` holds, for each pixel of a frame of `columns` by `rows`, a
/// count that `sample` returned for that pixel: one line for each column, in
/// the order of the columns.
pub open spec fn grid_sampled<F: Fn(u32, u32) -> usize>(
    sample: F,
    columns: u32,
    rows: u32,
    grid: Seq<Vec<usize>>,
) -> bool {
    &&& grid.len() == columns
    &&& forall|column: u32|
        column < columns ==> column_sampled(sample, column, rows, (#[trigger] grid[column as int])@)
}

/// Whether `sample` accepts every pixel of a frame of `columns` by `rows`.
pub open spec fn samples_frame<F: Fn(u32, u32) -> usize>(sample: F, columns: u32, rows: u32) -> bool {
    forall|column: u32, row: u32| column < columns && row < rows ==> call_requires(sample, (column, row))
}

/// Whether `sample` returns one count for each pixel.
pub open spec fn repeatable<F: Fn(u32, u32) -> usize>(sample: F) -> bool {
    forall|column: u32, row: u32, a: usize, b: usize|
        call_ensures(sample, (column, row), a) && call_ensures(sample, (column, row), b) ==> a == b
}

/// The counts of a grid, column by column.
pub open spec fn counts(grid: Seq<Vec<usize>>) -> Seq<Seq<usize>> {
    Seq::new(grid.len(), |column: int| grid[column]@)
}

/// Samples one vertical line of the frame: the pixels of `column`, from row 0
/// at the top down to row `rows - 1`.
pub fn compute_vertical_line<F: Fn(u32, u32) -> usize>(column: u32, rows: u32, sample: &F) -> (line: Vec<
    usize,
>)
    requires
        forall|row: u32| row < rows ==> call_requires(*sample, (column, row)),
    ensures
        column_sampled(*sample, column, rows, line@),
{
    let mut line: Vec<usize> = Vec::new();
    let mut row: u32 = 0;
    while row < rows
        invariant
            row <= rows,
            forall|r: u32| r < rows ==> call_requires(*sample, (column, r)),
            column_sampled(*sample, column, row, line@),
        decreases rows - row,
    {
        let iterations: usize = sample(column, row);
        line.push(iterations);
        row = row + 1;
    }
    line
}

/// Calls rayon's `into_par_iter` on the range of columns, then `map` and
/// `collect`. A parallel iterator gives what its sequential counterpart
/// gives: the collected vector has one item for each column, in the order of
/// the columns, each the line that `compute_vertical_line` returned for it.
#[verifier::external_body]
fn collect_columns<F: Fn(u32, u32) -> usize + Sync>(columns: u32, rows: u32, sample: &F) -> (grid: Vec<
    Vec<usize>,
>)
    requires
        samples_frame(*sample, columns, rows),
    ensures
        grid_sampled(*sample, columns, rows, grid@),
{
    (0..columns).into_par_iter().map(|column| compute_vertical_line(column, rows, sample)).collect()
}

/// Samples the whole frame, `x_resolution` columns by `y_resolution` rows,
/// the columns in parallel. Whatever the order in which the columns are
/// worked, the count of pixel `(column, row)` stands at `grid[column][row]`.
pub fn compute_image<F: Fn(u32, u32) -> usize + Sync>(
    x_resolution: u32,
    y_resolution: u32,
    sample: &F,
) -> (grid: Vec<Vec<usize>>)
    requires
        samples_frame(*sample, x_resolution, y_resolution),
    ensures
        grid_sampled(*sample, x_resolution, y_resolution, grid@),
{
    collect_columns(x_resolution, y_resolution, sample)
}

/// Samples the whole frame on the calling thread, one column after the other.
/// It fills the grid that `compute_image` fills.
pub fn compute_image_sequential<F: Fn(u32, u32) -> usize>(
    x_resolution: u32,
    y_resolution: u32,
    sample: &F,
) -> (grid: Vec<Vec<usize>>)
    requires
        samples_frame(*sample, x_resolution, y_resolution),
    ensures
        grid_sampled(*sample, x_resolution, y_resolution, grid@),
{
    let mut grid: Vec<Vec<usize>> = Vec::new();
    let mut column: u32 = 0;
    while column < x_resolution
        invariant
            column <= x_resolution,
            samples_frame(*sample, x_resolution, y_resolution),
            grid_sampled(*sample, column, y_resolution, grid@),
        decreases x_resolution - column,
    {
        let line: Vec<usize> = compute_vertical_line(column, y_resolution, sample);
        grid.push(line);
        column = column + 1;
    }
    grid
}

/// Sampling is deterministic: two grids sampled over one frame from a
/// repeatable `sample` hold the same counts, in whatever order, and on however
/// many threads, each was filled.
pub proof fn lemma_sampled_grids_are_equal<F: Fn(u32, u32) -> usize>(
    sample: F,
    columns: u32,
    rows: u32,
    one: Seq<Vec<usize>>,
    other: Seq<Vec<usize>>,
)
    requires
        repeatable(sample),
        grid_sampled(sample, columns, rows, one),
        grid_sampled(sample, columns, rows, other),
    ensures
        counts(one) == counts(other),
{
    assert forall|column: int| 0 <= column < columns implies one[column]@ == other[column]@ by {
        let c = column as u32;
        assert(column_sampled(sample, c, rows, one[c as int]@));
        assert(column_sampled(sample, c, rows, other[c as int]@));
        assert forall|row: int| 0 <= row < rows implies one[column]@[row] == other[column]@[row] by {
            let r = row as u32;
            assert(call_ensures(sample, (c, r), one[column]@[r as int]));
            assert(call_ensures(sample, (c, r), other[column]@[r as int]));
        }
        assert(one[column]@ =~= other[column]@);
    }
    assert(counts(one) =~= counts(other));
}

/// What a sampled grid holds, where `sample` computes `count`: the count of
/// each pixel of the frame, at its column and row.
pub proof fn lemma_sampled_grid_holds_counts<F: Fn(u32, u32) -> usize>(
    sample: F,
    count: spec_fn(u32, u32) -> usize,
    columns: u32,
    rows: u32,
    grid: Seq<Vec<usize>>,
)
    requires
        forall|column: u32, row: u32, found: usize|
            call_ensures(sample, (column, row), found) ==> found == count(column, row),
        grid_sampled(sample, columns, rows, grid),
    ensures
        grid.len() == columns,
        forall|column: u32| column < columns ==> (#[trigger] grid[column as int]).len() == rows,
        forall|column: u32, row: u32|
            column < columns && row < rows ==> grid[column as int]@[row as int] == #[trigger] count(
                column,
                row,
            ),
{
    assert forall|column: u32| column < columns implies (#[trigger] grid[column as int]).len() == rows by {
        assert(column_sampled(sample, column, rows, grid[column as int]@));
    }
    assert forall|column: u32, row: u32| column < columns && row < rows implies grid[column as int]@[row as int]
        == #[trigger] count(column, row) by {
        assert(column_sampled(sample, column, rows, grid[column as int]@));
        assert(call_ensures(sample, (column, row), grid[column as int]@[row as int]));
    }
}

} // verus!
