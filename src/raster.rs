use vstd::prelude::*;
use image::{Rgba, RgbaImage};
use imageproc::point::Point;
use crate::color::Color;

verus! {

/// An RGBA image of image's `RgbaImage`, which Verus cannot declare: its
/// bounds name image's `Pixel` trait.
#[verifier::external_body]
pub struct Canvas {
    img: RgbaImage,
}

/// What a canvas holds: its pixels row by row, four bytes each.
pub uninterp spec fn raster(c: Canvas) -> Seq<u8>;

/// A canvas's width and height.
pub uninterp spec fn canvas_size(c: Canvas) -> (u32, u32);

/// What imageproc's polygon fill leaves on a canvas of the given size.
pub uninterp spec fn polygon_filled(canvas: Seq<u8>, size: (u32, u32), points: Seq<(i32, i32)>, color: Color) -> Seq<u8>;

/// What image's `overlay` leaves on `bottom` after alpha-blending `top` onto
/// it with its corner at `(x, y)`, cropped to the bottom image.
pub uninterp spec fn overlaid(bottom: Seq<u8>, bottom_size: (u32, u32), top: Seq<u8>, top_size: (u32, u32), x: i64, y: i64) -> Seq<u8>;

/// The raster of an all-zero (transparent black) image.
pub open spec fn blank_raster(width: u32, height: u32) -> Seq<u8> {
    Seq::new((width * height * 4) as nat, |i: int| 0u8)
}

/// Relies on image's `ImageBuffer::new`: an image of the given size whose
/// bytes are all zero. It panics when the byte count, or the byte count of
/// one row, overflows `usize`.
#[verifier::external_body]
pub(crate) fn blank_canvas(width: u32, height: u32) -> (r: Canvas)
    requires
        width * 4 <= usize::MAX,
        width * height * 4 <= usize::MAX,
    ensures
        canvas_size(r) == (width, height),
        raster(r) == blank_raster(width, height),
{
    Canvas { img: RgbaImage::new(width, height) }
}

/// Relies on `Clone` of image's `ImageBuffer`: the copy has the same size and
/// bytes.
#[verifier::external_body]
pub(crate) fn copy_canvas(c: &Canvas) -> (r: Canvas)
    ensures
        canvas_size(r) == canvas_size(*c),
        raster(r) == raster(*c),
{
    Canvas { img: c.img.clone() }
}

/// Relies on image's `ImageBuffer::as_raw`: the bytes of the image, row by
/// row.
#[verifier::external_body]
fn raw_bytes(c: &Canvas) -> (r: Vec<u8>)
    ensures
        r@ == raster(*c),
{
    c.img.as_raw().clone()
}

/// Relies on image's `ImageBuffer::dimensions`.
#[verifier::external_body]
fn dimensions(c: &Canvas) -> (r: (u32, u32))
    ensures
        r == canvas_size(*c),
{
    c.img.dimensions()
}

/// Relies on imageproc's `drawing::draw_polygon_mut`: fills the polygon in
/// place, leaving the size alone. It panics when the first and last points
/// are equal; on a canvas of no rows, where it still draws on row zero; and
/// where differences of far-apart coordinates overflow `i32`, which points
/// within the canvas's bounds rule out; and on a side of 2^31 or more, where
/// its `side as i32 - 1` overflows, so each side stays within `i32::MAX`.
#[verifier::external_body]
pub(crate) fn fill_polygon(c: &mut Canvas, points: &Vec<(i32, i32)>, color: Color)
    requires
        points.len() > 0 ==> points[0] != points[points.len() - 1],
        canvas_size(*old(c)).1 > 0,
        canvas_size(*old(c)).0 <= 0x7fff_ffff,
        canvas_size(*old(c)).1 <= 0x7fff_ffff,
        forall|i: int|
            0 <= i < points.len() ==> 0 <= (#[trigger] points[i]).0 <= canvas_size(*old(c)).0
                && 0 <= points[i].1 <= canvas_size(*old(c)).1,
    ensures
        canvas_size(*final(c)) == canvas_size(*old(c)),
        raster(*final(c)) == polygon_filled(raster(*old(c)), canvas_size(*old(c)), points@, color),
{
    let poly: Vec<Point<i32>> = points.iter().map(|p| Point::new(p.0, p.1)).collect();
    imageproc::drawing::draw_polygon_mut(&mut c.img, &poly, Rgba([color.r, color.g, color.b, color.a]))
}

/// Relies on image's `imageops::overlay`: blends `top` onto `bottom` at
/// `(x, y)`, cropping what falls outside; the bottom keeps its size.
#[verifier::external_body]
pub(crate) fn overlay_canvas(bottom: &mut Canvas, top: &Canvas, x: i64, y: i64)
    ensures
        canvas_size(*final(bottom)) == canvas_size(*old(bottom)),
        raster(*final(bottom)) == overlaid(raster(*old(bottom)), canvas_size(*old(bottom)), raster(*top), canvas_size(*top), x, y),
{
    image::imageops::overlay(&mut bottom.img, &top.img, x, y)
}

impl Canvas {
    /// The pixels, row by row, four bytes (red, green, blue, alpha) each.
    pub fn bytes(&self) -> (r: Vec<u8>)
        ensures
            r@ == raster(*self),
    {
        raw_bytes(self)
    }

    /// The width and the height.
    pub fn size(&self) -> (r: (u32, u32))
        ensures
            r == canvas_size(*self),
    {
        dimensions(self)
    }
}

} // verus!
