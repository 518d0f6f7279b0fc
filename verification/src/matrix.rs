//! Grids: from pixels to brightness values to glyphs.

use vstd::prelude::*;
use crate::brightness::{brightness_map, brightness_of, density_index, linear_map, BrightnessMethod};
use crate::palette::{glyph_at, glyph_of, RgbTriple};

verus! {

/// Width, in pixels, to which an image is scaled down before rendering.
pub const TARGET_WIDTH: u32 = 50;

/// Height, in pixels, to which an image is scaled down before rendering.
pub const TARGET_HEIGHT: u32 = 40;

/// Channels of a pixel.
pub const CHANNELS: usize = 3;

/// An image of 8-bit RGB pixels, held in an `image::RgbImage`.
#[verifier::external_body]
pub struct Raster {
    buffer: image::RgbImage,
}

/// The rows that an image yields, top row first, each pixel as its
/// three channels.
pub uninterp spec fn image_rows(image: Raster) -> Seq<Seq<[u8; 3]>>;

/// Channel values are enough for an image of the given size: the
/// length of a row and of the whole image fit in `usize`, and there is a
/// value for every channel of every pixel.
pub open spec fn raw_fits(width: u32, height: u32, length: nat) -> bool {
    &&& CHANNELS * width <= usize::MAX
    &&& CHANNELS * width * height <= length
}

/// The rows are those of an image of the given size laid out row after
/// row, pixel after pixel, channel after channel: `width` pixels in each
/// of `height` rows, and no rows at all when the image has no columns.
pub open spec fn rows_match_raw(
    rows: Seq<Seq<[u8; 3]>>,
    width: u32,
    height: u32,
    channels: Seq<u8>,
) -> bool {
    &&& rows.len() == (if width == 0 {
        0
    } else {
        height as int
    })
    &&& forall|y: int| 0 <= y < rows.len() ==> (#[trigger] rows[y]).len() == width
    &&& forall|y: int, x: int, c: int|
        0 <= y < rows.len() && 0 <= x < width && 0 <= c < CHANNELS ==> (#[trigger] rows[y][x][c])
            == channels[(y * width + x) * CHANNELS + c]
}

/// `ImageBuffer::from_raw`: an image of the given size over the channel
/// values, if they are enough for it. Values beyond the last pixel are
/// kept and never read.
#[verifier::external_body]
fn raster_from_raw(width: u32, height: u32, channels: Vec<u8>) -> (raster: Option<Raster>)
    ensures
        raster.is_some() == raw_fits(width, height, channels@.len()),
        raster matches Some(image) ==> rows_match_raw(image_rows(image), width, height, channels@),
{
    image::RgbImage::from_raw(width, height, channels).map(|buffer| Raster { buffer })
}

/// `ImageBuffer::dimensions`: width and height. Every row that the image
/// yields has `width` pixels; it yields `height` rows when it has
/// columns, and none when it has not.
#[verifier::external_body]
fn raster_dimensions(image: &Raster) -> (size: (u32, u32))
    ensures
        forall|y: int|
            0 <= y < image_rows(*image).len() ==> (#[trigger] image_rows(*image)[y]).len()
                == size.0,
        image_rows(*image).len() == (if size.0 == 0 {
            0
        } else {
            size.1 as int
        }),
{
    image.buffer.dimensions()
}

/// `ImageBuffer::get_pixel`: the channels of the pixel in column `x` of
/// row `y`. It panics outside the image.
#[verifier::external_body]
fn raster_pixel(image: &Raster, x: u32, y: u32) -> (pixel: [u8; 3])
    requires
        y < image_rows(*image).len(),
        x < image_rows(*image)[y as int].len(),
    ensures
        pixel == image_rows(*image)[y as int][x as int],
{
    image.buffer.get_pixel(x, y).0
}

impl Raster {
    /// An image of the given size over channel values laid out row after
    /// row, pixel after pixel, red, green, blue; `None` when there are
    /// too few of them.
    pub fn from_raw(width: u32, height: u32, channels: Vec<u8>) -> (raster: Option<Raster>)
        ensures
            raster.is_some() == raw_fits(width, height, channels@.len()),
            raster matches Some(image) ==> rows_match_raw(
                image_rows(image),
                width,
                height,
                channels@,
            ),
    {
        raster_from_raw(width, height, channels)
    }
}

/// The rows of a matrix, each as a sequence of its cells.
pub open spec fn grid<T>(matrix: &Vec<Vec<T>>) -> Seq<Seq<T>> {
    Seq::new(matrix@.len(), |i: int| matrix@[i]@)
}

/// The colour that a pixel holds: red, green and blue in that order.
pub open spec fn pixel_color(pixel: [u8; 3]) -> RgbTriple {
    RgbTriple { r: pixel[0], g: pixel[1], b: pixel[2] }
}

/// Brightness of every pixel of a row.
pub open spec fn brightness_row(pixels: Seq<[u8; 3]>, method: BrightnessMethod) -> Seq<u8> {
    Seq::new(pixels.len(), |j: int| brightness_of(pixel_color(pixels[j]), method) as u8)
}

/// Brightness of every pixel of a grid, cell by cell.
pub open spec fn brightness_grid(pixels: Seq<Seq<[u8; 3]>>, method: BrightnessMethod) -> Seq<
    Seq<u8>,
> {
    Seq::new(pixels.len(), |i: int| brightness_row(pixels[i], method))
}

/// Glyph of every brightness of a row.
pub open spec fn glyph_row(levels: Seq<u8>, invert: bool) -> Seq<char> {
    Seq::new(levels.len(), |j: int| glyph_of(density_index(levels[j] as int, invert)))
}

/// Glyph of every brightness of a grid, cell by cell.
pub open spec fn glyph_grid(levels: Seq<Seq<u8>>, invert: bool) -> Seq<Seq<char>> {
    Seq::new(levels.len(), |i: int| glyph_row(levels[i], invert))
}

/// Two grids have the same number of rows, and row by row the same
/// number of cells.
pub open spec fn same_shape<A, B>(left: Seq<Seq<A>>, right: Seq<Seq<B>>) -> bool {
    &&& left.len() == right.len()
    &&& forall|i: int| 0 <= i < left.len() ==> (#[trigger] left[i]).len() == right[i].len()
}

/// The brightness grid and the glyph grid of a pixel grid.
pub open spec fn frame_of(pixels: Seq<Seq<[u8; 3]>>, method: BrightnessMethod, invert: bool) -> (
    Seq<Seq<u8>>,
    Seq<Seq<char>>,
) {
    (brightness_grid(pixels, method), glyph_grid(brightness_grid(pixels, method), invert))
}

fn brightness_of_row(row: &Vec<[u8; 3]>, method: &BrightnessMethod) -> (levels: Vec<u8>)
    ensures
        levels@ == brightness_row(row@, *method),
{
    let mut levels: Vec<u8> = Vec::new();
    let mut j: usize = 0;
    while j < row.len()
        invariant
            j <= row.len(),
            levels@.len() == j,
            forall|k: int|
                0 <= k < j ==> levels@[k] == brightness_of(pixel_color(row@[k]), *method) as u8,
        decreases row.len() - j,
    {
        let pixel: [u8; 3] = row[j];
        let color = RgbTriple { r: pixel[0], g: pixel[1], b: pixel[2] };
        let level: u8 = brightness_map(&color, method);
        levels.push(level);
        j += 1;
    }
    levels
}

fn glyphs_of_row(row: &Vec<u8>, invert: bool) -> (glyphs: Vec<char>)
    ensures
        glyphs@ == glyph_row(row@, invert),
{
    let mut glyphs: Vec<char> = Vec::new();
    let mut j: usize = 0;
    while j < row.len()
        invariant
            j <= row.len(),
            glyphs@.len() == j,
            forall|k: int|
                0 <= k < j ==> glyphs@[k] == glyph_of(density_index(row@[k] as int, invert)),
        decreases row.len() - j,
    {
        let index: usize = linear_map(row[j] as usize, invert);
        glyphs.push(glyph_at(index));
        j += 1;
    }
    glyphs
}

/// The pixels of an image, row by row.
pub fn get_pixel_matrix(img_buffer: &Raster) -> (pixel_matrix: Vec<Vec<[u8; 3]>>)
    ensures
        grid(&pixel_matrix) == image_rows(*img_buffer),
{
    let ghost rows = image_rows(*img_buffer);
    let (width, height) = raster_dimensions(img_buffer);
    let mut pixel_matrix: Vec<Vec<[u8; 3]>> = Vec::new();
    if width == 0 {
        return pixel_matrix;
    }
    let mut y: u32 = 0;
    while y < height
        invariant
            y <= height,
            rows == image_rows(*img_buffer),
            rows.len() == height,
            forall|k: int| 0 <= k < rows.len() ==> (#[trigger] rows[k]).len() == width,
            pixel_matrix@.len() == y,
            forall|k: int| 0 <= k < y ==> (#[trigger] pixel_matrix@[k])@ == rows[k],
        decreases height - y,
    {
        let mut row_pixels: Vec<[u8; 3]> = Vec::new();
        let mut x: u32 = 0;
        while x < width
            invariant
                x <= width,
                y < height,
                rows == image_rows(*img_buffer),
                rows.len() == height,
                rows[y as int].len() == width,
                row_pixels@.len() == x,
                forall|k: int| 0 <= k < x ==> row_pixels@[k] == rows[y as int][k],
            decreases width - x,
        {
            row_pixels.push(raster_pixel(img_buffer, x, y));
            x += 1;
        }
        assert(row_pixels@ =~= rows[y as int]);
        pixel_matrix.push(row_pixels);
        y += 1;
    }
    assert(grid(&pixel_matrix) =~= rows);
    pixel_matrix
}

pub fn get_brightness_matrix(
    pixel_matrix: &Vec<Vec<[u8; 3]>>,
    brightness_method: &BrightnessMethod,
) -> (brightness_matrix: Vec<Vec<u8>>)
    ensures
        grid(&brightness_matrix) == brightness_grid(grid(pixel_matrix), *brightness_method),
        same_shape(grid(&brightness_matrix), grid(pixel_matrix)),
{
    let mut brightness_matrix: Vec<Vec<u8>> = Vec::new();
    let mut i: usize = 0;
    while i < pixel_matrix.len()
        invariant
            i <= pixel_matrix.len(),
            brightness_matrix@.len() == i,
            forall|k: int|
                0 <= k < i ==> brightness_matrix@[k]@ == brightness_row(
                    pixel_matrix@[k]@,
                    *brightness_method,
                ),
        decreases pixel_matrix.len() - i,
    {
        let row: Vec<u8> = brightness_of_row(&pixel_matrix[i], brightness_method);
        brightness_matrix.push(row);
        i += 1;
    }
    brightness_matrix
}

pub fn get_ascii_matrix(brightness_matrix: &Vec<Vec<u8>>, invert: bool) -> (ascii_matrix: Vec<
    Vec<char>,
>)
    ensures
        grid(&ascii_matrix) == glyph_grid(grid(brightness_matrix), invert),
        same_shape(grid(&ascii_matrix), grid(brightness_matrix)),
{
    let mut ascii_matrix: Vec<Vec<char>> = Vec::new();
    let mut i: usize = 0;
    while i < brightness_matrix.len()
        invariant
            i <= brightness_matrix.len(),
            ascii_matrix@.len() == i,
            forall|k: int|
                0 <= k < i ==> ascii_matrix@[k]@ == glyph_row(brightness_matrix@[k]@, invert),
        decreases brightness_matrix.len() - i,
    {
        let row: Vec<char> = glyphs_of_row(&brightness_matrix[i], invert);
        ascii_matrix.push(row);
        i += 1;
    }
    ascii_matrix
}

/// Builds both grids of a frame: the brightness of every pixel, and the
/// glyph of every brightness.
pub fn build_frame(pixel_matrix: &Vec<Vec<[u8; 3]>>, method: &BrightnessMethod, invert: bool) -> (frame:
    (Vec<Vec<u8>>, Vec<Vec<char>>))
    ensures
        (grid(&frame.0), grid(&frame.1)) == frame_of(grid(pixel_matrix), *method, invert),
        same_shape(grid(&frame.0), grid(pixel_matrix)),
        same_shape(grid(&frame.1), grid(pixel_matrix)),
{
    let brightness_matrix = get_brightness_matrix(pixel_matrix, method);
    let ascii_matrix = get_ascii_matrix(&brightness_matrix, invert);
    (brightness_matrix, ascii_matrix)
}

/// Both grids of a frame have the dimensions of the pixel grid, whatever
/// its size: no rows, empty rows and ragged rows included.
pub proof fn lemma_frame_keeps_dimensions(
    pixels: Seq<Seq<[u8; 3]>>,
    method: BrightnessMethod,
    invert: bool,
)
    ensures
        same_shape(frame_of(pixels, method, invert).0, pixels),
        same_shape(frame_of(pixels, method, invert).1, pixels),
{
}

/// Every cell of a frame depends on the pixel at its own position alone.
pub proof fn lemma_frame_cell_depends_on_its_pixel(
    pixels: Seq<Seq<[u8; 3]>>,
    method: BrightnessMethod,
    invert: bool,
    i: int,
    j: int,
)
    requires
        0 <= i < pixels.len(),
        0 <= j < pixels[i].len(),
    ensures
        frame_of(pixels, method, invert).0[i][j] == brightness_of(
            pixel_color(pixels[i][j]),
            method,
        ),
        frame_of(pixels, method, invert).1[i][j] == glyph_of(
            density_index(brightness_of(pixel_color(pixels[i][j]), method), invert),
        ),
{
    let color = pixel_color(pixels[i][j]);
    crate::brightness::lemma_average_is_floor_of_mean(color);
    crate::brightness::lemma_min_max_lies_between_extremes(color);
    crate::brightness::lemma_luminosity_is_floor_of_weighted_sum(color);
}

/// Building a frame again from the same pixels, method and inversion
/// gives the same two grids: whatever two frames meet the builder's
/// contract for one input are equal.
pub proof fn lemma_frame_is_reproducible(
    pixels: Seq<Seq<[u8; 3]>>,
    method: BrightnessMethod,
    invert: bool,
    first: (Seq<Seq<u8>>, Seq<Seq<char>>),
    second: (Seq<Seq<u8>>, Seq<Seq<char>>),
)
    requires
        first == frame_of(pixels, method, invert),
        second == frame_of(pixels, method, invert),
    ensures
        first.0 == second.0,
        first.1 == second.1,
{
}

} // verus!
