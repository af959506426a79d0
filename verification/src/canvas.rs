//! The pixel buffer that a rendered frame is drawn into.

use crate::palette::{color_of, pixel_color, Color};
use crate::sampling::{column_sampled, grid_sampled};
use vstd::prelude::*;

verus! {

/// A frame of RGB pixels, kept in an `image::RgbImage`. Its contracts speak of
/// it through `canvas_width`, `canvas_height` and `canvas_pixels`.
#[verifier::external_body]
pub struct Canvas {
    buffer: image::RgbImage,
}

/// The number of pixel columns of a canvas: its buffer's `width`.
pub uninterp spec fn canvas_width(canvas: Canvas) -> nat;

/// The number of pixel rows of a canvas: its buffer's `height`.
pub uninterp spec fn canvas_height(canvas: Canvas) -> nat;

/// The pixels of a canvas: the red, green and blue channel of the pixel that
/// its buffer holds at each `(column, row)`.
pub uninterp spec fn canvas_pixels(canvas: Canvas) -> Map<(int, int), (u8, u8, u8)>;

/// The three channels of a colour, in the order red, green, blue.
pub open spec fn channels(color: Color) -> (u8, u8, u8) {
    (color.red, color.green, color.blue)
}

/// The positions of a frame of `width` columns and `height` rows.
pub open spec fn frame_positions(width: nat, height: nat) -> Set<(int, int)> {
    Set::new(|p: (int, int)| 0 <= p.0 < width && 0 <= p.1 < height)
}

/// The number of bytes that a frame takes, at three bytes a pixel.
pub open spec fn frame_bytes(width: nat, height: nat) -> nat {
    3 * width * height
}

/// Whether a frame of this size can be held in memory: a buffer holds at most
/// `isize::MAX` bytes.
pub open spec fn frame_fits(width: nat, height: nat) -> bool {
    frame_bytes(width, height) <= isize::MAX
}

/// Whether a canvas has a pixel at each position of its frame, and nowhere
/// else. Every canvas that `Canvas::new` or `render` makes is whole, and
/// `plot_pixel` keeps it so.
pub open spec fn is_whole(canvas: Canvas) -> bool {
    canvas_pixels(canvas).dom() == frame_positions(canvas_width(canvas), canvas_height(canvas))
}

/// The pixels of a frame that is black all over.
pub open spec fn blank_pixels(width: nat, height: nat) -> Map<(int, int), (u8, u8, u8)> {
    Map::new(|p: (int, int)| frame_positions(width, height).contains(p), |p: (int, int)| (0u8, 0u8, 0u8))
}

/// Whether `data`, indexed by column and then by row, has a count for every
/// position of the frame.
pub open spec fn covers_frame(data: Seq<Vec<usize>>, width: nat, height: nat) -> bool {
    &&& data.len() >= width
    &&& forall|column: int| 0 <= column < width ==> (#[trigger] data[column]).len() >= height
}

/// The pixels of the frame drawn from `data`: each position has the palette's
/// colour for the count found there.
pub open spec fn drawn_pixels(data: Seq<Vec<usize>>, width: nat, height: nat) -> Map<(int, int), (u8, u8, u8)> {
    Map::new(
        |p: (int, int)| frame_positions(width, height).contains(p),
        |p: (int, int)| channels(color_of(data[p.0][p.1] as nat)),
    )
}

/// Whether `bytes` holds the pixels row by row from the top, each row from
/// the left, each pixel as its red, green and blue byte.
pub open spec fn is_raster(
    bytes: Seq<u8>,
    width: nat,
    height: nat,
    pixels: Map<(int, int), (u8, u8, u8)>,
) -> bool {
    &&& bytes.len() == frame_bytes(width, height)
    &&& forall|x: int, y: int|
        0 <= x < width && 0 <= y < height ==> {
            let at = 3 * (y * width + x);
            &&& bytes[at] == (#[trigger] pixels[(x, y)]).0
            &&& bytes[at + 1] == pixels[(x, y)].1
            &&& bytes[at + 2] == pixels[(x, y)].2
        }
}

/// Calls `image::ImageBuffer::new`, which allocates `3 * width * height` zero
/// bytes: every pixel of the frame is black. It panics where that count does
/// not fit a vector, which the bound on `frame_bytes` leaves out.
#[verifier::external_body]
fn blank(width: u32, height: u32) -> (canvas: Canvas)
    requires
        frame_fits(width as nat, height as nat),
    ensures
        canvas_width(canvas) == width,
        canvas_height(canvas) == height,
        canvas_pixels(canvas) == blank_pixels(width as nat, height as nat),
{
    Canvas { buffer: image::ImageBuffer::new(width, height) }
}

/// Calls `image::ImageBuffer::get_pixel_mut` and stores the colour through the
/// reference it returns: the pixel at `(x, y)` becomes `color`, every other
/// pixel and the size stay. It panics out of bounds, which `requires` leaves
/// out.
#[verifier::external_body]
fn put(canvas: &mut Canvas, x: u32, y: u32, color: Color)
    requires
        x < canvas_width(*old(canvas)),
        y < canvas_height(*old(canvas)),
    ensures
        canvas_width(*final(canvas)) == canvas_width(*old(canvas)),
        canvas_height(*final(canvas)) == canvas_height(*old(canvas)),
        canvas_pixels(*final(canvas)) == canvas_pixels(*old(canvas)).insert(
            (x as int, y as int),
            channels(color),
        ),
{
    *canvas.buffer.get_pixel_mut(x, y) = image::Rgb([color.red, color.green, color.blue]);
}

/// Calls `image::ImageBuffer::into_raw`, which hands out the buffer's bytes:
/// three for each pixel, red, green and blue, the pixels of a row from left to
/// right and the rows from the top down.
#[verifier::external_body]
fn raw_bytes(canvas: Canvas) -> (bytes: Vec<u8>)
    ensures
        is_raster(bytes@, canvas_width(canvas), canvas_height(canvas), canvas_pixels(canvas)),
{
    canvas.buffer.into_raw()
}

/// Colours the pixel at `(column, row)` by the palette, for the iteration
/// count that was found there.
pub fn plot_pixel(canvas: &mut Canvas, column: u32, row: u32, iterations: usize)
    requires
        column < canvas_width(*old(canvas)),
        row < canvas_height(*old(canvas)),
    ensures
        canvas_width(*final(canvas)) == canvas_width(*old(canvas)),
        canvas_height(*final(canvas)) == canvas_height(*old(canvas)),
        canvas_pixels(*final(canvas)) == canvas_pixels(*old(canvas)).insert(
            (column as int, row as int),
            channels(color_of(iterations as nat)),
        ),
        is_whole(*old(canvas)) ==> is_whole(*final(canvas)),
{
    let color: Color = pixel_color(iterations);
    put(canvas, column, row, color);
    proof {
        let frame = frame_positions(canvas_width(*old(canvas)), canvas_height(*old(canvas)));
        assert(frame.contains((column as int, row as int)));
        if is_whole(*old(canvas)) {
            assert(canvas_pixels(*canvas).dom() =~= frame);
        }
    }
}

impl Canvas {
    /// A black canvas of `width` columns and `height` rows, or `None` where a
    /// frame of that size cannot be held in memory.
    pub fn new(width: u32, height: u32) -> (made: Option<Canvas>)
        ensures
            made is Some <==> frame_fits(width as nat, height as nat),
            made matches Some(canvas) ==> {
                &&& canvas_width(canvas) == width
                &&& canvas_height(canvas) == height
                &&& canvas_pixels(canvas) == blank_pixels(width as nat, height as nat)
                &&& is_whole(canvas)
            },
    {
        if frame_fits_in_memory(width, height) {
            let canvas: Canvas = blank(width, height);
            assert(canvas_pixels(canvas).dom() =~= frame_positions(width as nat, height as nat));
            Some(canvas)
        } else {
            None
        }
    }

    /// Gives up the canvas for its bytes: three for each pixel, row by row
    /// from the top.
    pub fn into_raw(self) -> (bytes: Vec<u8>)
        ensures
            is_raster(bytes@, canvas_width(self), canvas_height(self), canvas_pixels(self)),
    {
        raw_bytes(self)
    }
}

/// Why a frame could not be drawn.
#[derive(Clone, Copy, Debug, PartialEq, Eq, Structural)]
pub enum RenderError {
    /// The frame takes more bytes than a buffer can hold.
    FrameTooLarge,
    /// The grid of counts lacks a column or a row of the frame.
    GridTooSmall,
}

/// Tells whether a frame of this size can be held in memory.
pub fn frame_fits_in_memory(width: u32, height: u32) -> (fits: bool)
    ensures
        fits == frame_fits(width as nat, height as nat),
{
    let row_bytes: u128 = 3 * (width as u128);
    assert(row_bytes * height <= 0x2_ffff_fffd * 0xffff_ffff) by (nonlinear_arith)
        requires
            row_bytes <= 0x2_ffff_fffd,
            height <= 0xffff_ffff,
    ;
    let bytes: u128 = row_bytes * (height as u128);
    assert(bytes == frame_bytes(width as nat, height as nat)) by (nonlinear_arith)
        requires
            row_bytes == 3 * width,
            bytes == row_bytes * height,
    ;
    bytes <= isize::MAX as u128
}

/// Tells whether `data` has a count for every position of the frame.
pub fn grid_covers_frame(data: &Vec<Vec<usize>>, width: u32, height: u32) -> (covers: bool)
    ensures
        covers == covers_frame(data@, width as nat, height as nat),
{
    if data.len() < width as usize {
        return false;
    }
    let mut column: u32 = 0;
    while column < width
        invariant
            column <= width,
            data@.len() >= width,
            forall|c: int| 0 <= c < column ==> (#[trigger] data@[c]).len() >= height,
        decreases width - column,
    {
        if data[column as usize].len() < height as usize {
            return false;
        }
        column = column + 1;
    }
    true
}

/// Draws the frame of `x_resolution` columns and `y_resolution` rows whose
/// iteration counts are in `data`, indexed by column and then by row: every
/// pixel of the frame gets the palette's colour for its count. Counts beyond
/// the frame are not read.
pub fn render(x_resolution: u32, y_resolution: u32, data: &Vec<Vec<usize>>) -> (result: Result<
    Canvas,
    RenderError,
>)
    ensures
        match result {
            Ok(canvas) => {
                &&& frame_fits(x_resolution as nat, y_resolution as nat)
                &&& covers_frame(data@, x_resolution as nat, y_resolution as nat)
                &&& canvas_width(canvas) == x_resolution
                &&& canvas_height(canvas) == y_resolution
                &&& canvas_pixels(canvas) == drawn_pixels(
                    data@,
                    x_resolution as nat,
                    y_resolution as nat,
                )
                &&& is_whole(canvas)
            },
            Err(RenderError::FrameTooLarge) => !frame_fits(x_resolution as nat, y_resolution as nat),
            Err(RenderError::GridTooSmall) => {
                &&& frame_fits(x_resolution as nat, y_resolution as nat)
                &&& !covers_frame(data@, x_resolution as nat, y_resolution as nat)
            },
        },
{
    if !frame_fits_in_memory(x_resolution, y_resolution) {
        return Err(RenderError::FrameTooLarge);
    }
    if !grid_covers_frame(data, x_resolution, y_resolution) {
        return Err(RenderError::GridTooSmall);
    }
    let mut canvas: Canvas = blank(x_resolution, y_resolution);
    let ghost frame = frame_positions(x_resolution as nat, y_resolution as nat);
    assert(canvas_pixels(canvas).dom() =~= frame);
    let mut column: u32 = 0;
    while column < x_resolution
        invariant
            column <= x_resolution,
            covers_frame(data@, x_resolution as nat, y_resolution as nat),
            frame == frame_positions(x_resolution as nat, y_resolution as nat),
            canvas_width(canvas) == x_resolution,
            canvas_height(canvas) == y_resolution,
            canvas_pixels(canvas).dom() == frame,
            forall|x: int, y: int|
                0 <= x < column && 0 <= y < y_resolution ==> #[trigger] canvas_pixels(canvas)[(x, y)]
                    == channels(color_of(data@[x]@[y] as nat)),
        decreases x_resolution - column,
    {
        let mut row: u32 = 0;
        while row < y_resolution
            invariant
                column < x_resolution,
                row <= y_resolution,
                covers_frame(data@, x_resolution as nat, y_resolution as nat),
                frame == frame_positions(x_resolution as nat, y_resolution as nat),
                canvas_width(canvas) == x_resolution,
                canvas_height(canvas) == y_resolution,
                canvas_pixels(canvas).dom() == frame,
                forall|x: int, y: int|
                    0 <= x < column && 0 <= y < y_resolution ==> #[trigger] canvas_pixels(canvas)[(
                        x,
                        y,
                    )] == channels(color_of(data@[x]@[y] as nat)),
                forall|y: int|
                    0 <= y < row ==> #[trigger] canvas_pixels(canvas)[(column as int, y)]
                        == channels(color_of(data@[column as int]@[y] as nat)),
            decreases y_resolution - row,
        {
            let iterations: usize = data[column as usize][row as usize];
            plot_pixel(&mut canvas, column, row, iterations);
            row = row + 1;
        }
        column = column + 1;
    }
    assert(canvas_pixels(canvas) =~= drawn_pixels(
        data@,
        x_resolution as nat,
        y_resolution as nat,
    ));
    Ok(canvas)
}

/// What was sampled can be drawn: a grid sampled over a frame has a count for
/// every position of that frame, so `render` refuses it only for its size.
pub proof fn lemma_sampled_grid_covers_frame<F: Fn(u32, u32) -> usize>(
    sample: F,
    columns: u32,
    rows: u32,
    grid: Seq<Vec<usize>>,
)
    requires
        grid_sampled(sample, columns, rows, grid),
    ensures
        covers_frame(grid, columns as nat, rows as nat),
{
    assert forall|column: int| 0 <= column < columns implies (#[trigger] grid[column]).len() >= rows by {
        let c = column as u32;
        assert(column_sampled(sample, c, rows, grid[c as int]@));
    }
}

/// From sample to pixel: in the frame drawn from a sampled grid, the pixel at
/// `(column, row)` has the palette's colour for a count that `sample`
/// returned for that pixel.
pub proof fn lemma_drawn_pixel_is_sampled<F: Fn(u32, u32) -> usize>(
    sample: F,
    columns: u32,
    rows: u32,
    grid: Seq<Vec<usize>>,
    column: u32,
    row: u32,
)
    requires
        grid_sampled(sample, columns, rows, grid),
        column < columns,
        row < rows,
    ensures
        drawn_pixels(grid, columns as nat, rows as nat).dom().contains((column as int, row as int)),
        exists|count: usize|
            {
                &&& #[trigger] call_ensures(sample, (column, row), count)
                &&& drawn_pixels(grid, columns as nat, rows as nat)[(column as int, row as int)]
                    == channels(color_of(count as nat))
            },
{
    assert(column_sampled(sample, column, rows, grid[column as int]@));
    let count = grid[column as int]@[row as int];
    assert(call_ensures(sample, (column, row), count));
    assert(frame_positions(columns as nat, rows as nat).contains((column as int, row as int)));
}

} // verus!
