//! The canvas type: an image of red, green and blue bytes.

use image::{Rgb, RgbImage};
use imageproc::drawing::draw_filled_rect_mut;
use imageproc::rect::Rect;
use vstd::prelude::*;

verus! {

/// A colour: red, green and blue.
pub type Color = (u8, u8, u8);

/// The rows of an image, top row first, each from the left.
pub type Pixels = Seq<Seq<(u8, u8, u8)>>;

/// An image held in an `image::RgbImage`. Verus sees nothing inside it:
/// what it holds goes by the names `canvas_rows` and `canvas_width`.
#[verifier::external_body]
pub struct Canvas {
    image: RgbImage,
}

/// The pixels of a canvas, row by row from the top.
pub uninterp spec fn canvas_rows(canvas: Canvas) -> Seq<Seq<(u8, u8, u8)>>;

/// The number of columns of a canvas, which its rows cannot tell when
/// there are none.
pub uninterp spec fn canvas_width(canvas: Canvas) -> nat;

/// Whether an image of this size can be allocated: three bytes to a
/// pixel, no more than `isize::MAX` in all.
pub open spec fn canvas_fits(width: u32, height: u32) -> bool {
    3 * width * height <= isize::MAX
}

/// `height` rows of `width` pixels that all hold `color`.
pub open spec fn plain(height: nat, width: nat, color: Color) -> Pixels {
    Seq::new(height, |y: int| Seq::new(width, |x: int| color))
}

/// The image `pixels` with `color` in the square of `side` pixels whose
/// top left corner is in column `x`, row `y`.
pub open spec fn with_square(pixels: Pixels, x: int, y: int, side: int, color: Color) -> Pixels {
    Seq::new(
        pixels.len(),
        |py: int|
            Seq::new(
                pixels[py].len(),
                |px: int|
                    if x <= px < x + side && y <= py < y + side {
                        color
                    } else {
                        pixels[py][px]
                    },
            ),
    )
}

/// The bytes of an image as they lie in memory: row after row, pixel
/// after pixel, red before green before blue.
pub open spec fn bytes_of(pixels: Pixels, width: nat) -> Seq<u8> {
    Seq::new(
        3 * width * pixels.len(),
        |i: int|
            {
                let pixel = pixels[(i / 3) / (width as int)][(i / 3) % (width as int)];
                if i % 3 == 0 {
                    pixel.0
                } else if i % 3 == 1 {
                    pixel.1
                } else {
                    pixel.2
                }
            },
    )
}

/// Calls `RgbImage::new`. Believed, not proved: the image has the size
/// asked for and is black all over. Sizes that make the call panic are
/// left out.
#[verifier::external_body]
pub(crate) fn blank(width: u32, height: u32) -> (canvas: Canvas)
    requires
        canvas_fits(width, height),
    ensures
        canvas_rows(canvas) == plain(height as nat, width as nat, (0u8, 0u8, 0u8)),
        canvas_width(canvas) == width,
{
    Canvas { image: RgbImage::new(width, height) }
}

/// Calls `ImageBuffer::dimensions`. Believed, not proved: it gives the
/// number of columns, then the number of rows.
#[verifier::external_body]
pub(crate) fn size_of(canvas: &Canvas) -> (size: (u32, u32))
    ensures
        size.0 == canvas_width(*canvas),
        size.1 == canvas_rows(*canvas).len(),
{
    canvas.image.dimensions()
}

/// Calls `ImageBuffer::get_pixel`. Believed, not proved: it gives the
/// pixel in that column and row. A place off the image is left out: the
/// call panics on it.
#[verifier::external_body]
pub(crate) fn pixel_at(canvas: &Canvas, x: u32, y: u32) -> (color: Color)
    requires
        x < canvas_width(*canvas),
        y < canvas_rows(*canvas).len(),
    ensures
        color == canvas_rows(*canvas)[y as int][x as int],
{
    let pixel: &Rgb<u8> = canvas.image.get_pixel(x, y);
    (pixel.0[0], pixel.0[1], pixel.0[2])
}

/// Calls `ImageBuffer::put_pixel`. Believed, not proved: that pixel
/// holds `color` afterwards and nothing else changes.
#[verifier::external_body]
pub(crate) fn put(canvas: &mut Canvas, x: u32, y: u32, color: Color)
    requires
        x < canvas_width(*old(canvas)),
        y < canvas_rows(*old(canvas)).len(),
    ensures
        canvas_rows(*final(canvas)) == canvas_rows(*old(canvas)).update(
            y as int,
            canvas_rows(*old(canvas))[y as int].update(x as int, color),
        ),
        canvas_width(*final(canvas)) == canvas_width(*old(canvas)),
{
    canvas.image.put_pixel(x, y, Rgb([color.0, color.1, color.2]));
}

/// Calls `draw_filled_rect_mut` with a square. Believed, not proved: the
/// pixels of the square hold `color` afterwards and nothing else changes.
/// Only squares that lie on the image are let in, and only images whose
/// sides fit an `i32`, in which the call computes.
#[verifier::external_body]
pub(crate) fn fill_square(canvas: &mut Canvas, x: i32, y: i32, side: u32, color: Color)
    requires
        side >= 1,
        0 <= x,
        0 <= y,
        x + side <= canvas_width(*old(canvas)) <= i32::MAX,
        y + side <= canvas_rows(*old(canvas)).len() <= i32::MAX,
    ensures
        canvas_rows(*final(canvas)) == with_square(
            canvas_rows(*old(canvas)),
            x as int,
            y as int,
            side as int,
            color,
        ),
        canvas_width(*final(canvas)) == canvas_width(*old(canvas)),
{
    draw_filled_rect_mut(
        &mut canvas.image,
        Rect::at(x, y).of_size(side, side),
        Rgb([color.0, color.1, color.2]),
    );
}

/// Calls `ImageBuffer::into_raw`. Believed, not proved: it gives the
/// bytes of the image as they lie in memory.
#[verifier::external_body]
pub(crate) fn raw_bytes(canvas: Canvas) -> (bytes: Vec<u8>)
    ensures
        bytes@ == bytes_of(canvas_rows(canvas), canvas_width(canvas)),
{
    canvas.image.into_raw()
}

impl Canvas {
    /// The pixels, row by row from the top.
    pub open spec fn view(&self) -> Pixels {
        canvas_rows(*self)
    }

    /// The number of rows.
    pub open spec fn rows(&self) -> nat {
        canvas_rows(*self).len()
    }

    /// The number of columns.
    pub open spec fn columns(&self) -> nat {
        canvas_width(*self)
    }

    /// Whether every row has as many pixels as the canvas has columns.
    pub open spec fn wf(&self) -> bool {
        forall|y: int| 0 <= y < self@.len() ==> (#[trigger] self@[y]).len() == self.columns()
    }

    /// The number of columns.
    pub fn width(&self) -> (width: u32)
        ensures
            width == self.columns(),
    {
        size_of(self).0
    }

    /// The number of rows.
    pub fn height(&self) -> (height: u32)
        ensures
            height == self.rows(),
    {
        size_of(self).1
    }

    /// The pixel in column `x`, row `y`.
    pub fn pixel(&self, x: u32, y: u32) -> (color: Color)
        requires
            x < self.columns(),
            y < self.rows(),
        ensures
            color == self@[y as int][x as int],
    {
        pixel_at(self, x, y)
    }

    /// The bytes of the image: row after row, pixel after pixel, red
    /// before green before blue.
    pub fn into_raw(self) -> (bytes: Vec<u8>)
        ensures
            bytes@ == bytes_of(self@, self.columns()),
    {
        raw_bytes(self)
    }
}

} // verus!
