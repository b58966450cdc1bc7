//! Colour fields that the library can evaluate by itself: the constant colour
//! and the lookup in a decoded raster image.

use crate::scalar::{clamp, spec_clamp, Scalar, ONE, ZERO};
use crate::vec::{Color, Point3, Vec3};
use vstd::prelude::*;

verus! {

/// A colour field as a material refers to it.
#[derive(Clone, Copy, Debug, PartialEq, Eq)]
pub enum TextureRef {
    /// One colour everywhere, which the library knows.
    Solid(SolidColor),
    /// A colour field of the host's, by its handle.
    Handle(usize),
}

impl TextureRef {
    /// The field's colour at a point, where `sampled` is what the host's
    /// colour field gives there: the constant colour, or `sampled`.
    pub open spec fn spec_value(self, sampled: Color) -> Color {
        match self {
            TextureRef::Solid(s) => s.color,
            TextureRef::Handle(_) => sampled,
        }
    }

    /// The field's colour at a point. For a field of the host's, `sampled` is
    /// what the host found there; for a constant colour it does not count.
    pub fn value(&self, sampled: Color) -> (c: Color)
        ensures
            c == self.spec_value(sampled),
    {
        match self {
            TextureRef::Solid(s) => s.color,
            TextureRef::Handle(_) => sampled,
        }
    }
}

/// Two colour fields that take turns in space like the squares of a
/// chessboard.
#[derive(Clone, Copy, Debug, PartialEq, Eq)]
pub struct CheckerTexture {
    pub odd: TextureRef,
    pub even: TextureRef,
}

impl CheckerTexture {
    /// The chessboard of two constant colours, the first for the odd and the
    /// second for the even squares.
    pub fn from_colors(color: (Color, Color)) -> (r: Self)
        ensures
            r.odd == TextureRef::Solid(SolidColor { color: color.0 }),
            r.even == TextureRef::Solid(SolidColor { color: color.1 }),
    {
        CheckerTexture {
            odd: TextureRef::Solid(SolidColor::new(color.0)),
            even: TextureRef::Solid(SolidColor::new(color.1)),
        }
    }

    pub fn new(odd: TextureRef, even: TextureRef) -> (r: Self)
        ensures
            r == (CheckerTexture { odd, even }),
    {
        CheckerTexture { odd, even }
    }

    /// The field that colours a point: the odd one where `sines`, the product
    /// of the sines of the point's scaled coordinates, is negative, and the
    /// even one elsewhere.
    pub fn select(&self, sines: Scalar) -> (r: TextureRef)
        ensures
            r == if sines < ZERO {
                self.odd
            } else {
                self.even
            },
    {
        if sines < ZERO {
            return self.odd;
        }
        self.even
    }
}

/// The colours of a decoded raster image, looked up by the nearest pixel.
///
/// The image is an `image::RgbImage`, which the verifier cannot look into:
/// what it holds goes by the name [`image_rows`].
#[verifier::external_body]
pub struct ImageTexture {
    data: image::RgbImage,
}

/// The pixels of the image, row by row from the top, each row from the left,
/// each pixel as its red, green and blue sample. Every row has the image's
/// width, and there are as many rows as the image is high.
pub uninterp spec fn image_rows(texture: ImageTexture) -> Seq<Seq<(u8, u8, u8)>>;

/// The width that the image was made with, in pixels.
pub uninterp spec fn image_width(texture: ImageTexture) -> int;

/// The pixel in column `x` of row `y` of an image of the given width whose
/// samples are `samples`: three samples to a pixel, the pixels of a row side by
/// side, the rows one after the other.
pub open spec fn pixel_of(samples: Seq<u8>, width: int, x: int, y: int) -> (u8, u8, u8) {
    (
        samples[(y * width + x) * 3],
        samples[(y * width + x) * 3 + 1],
        samples[(y * width + x) * 3 + 2],
    )
}

/// The rows of an image of the given width and height whose samples are
/// `samples`.
pub open spec fn rows_of(samples: Seq<u8>, width: int, height: int) -> Seq<Seq<(u8, u8, u8)>> {
    Seq::new(
        height as nat,
        |y: int| Seq::new(width as nat, |x: int| pixel_of(samples, width, x, y)),
    )
}

/// An image of the given width and height over the given samples.
///
/// Calls `image::ImageBuffer::from_raw`. Not proved: that the call gives an
/// image exactly if there are samples enough for all pixels, three to a
/// pixel, and that the image's pixels are then the samples in their order.
#[verifier::external_body]
fn image_from_raw(width: u32, height: u32, samples: Vec<u8>) -> (r: Option<ImageTexture>)
    ensures
        r is Some <==> 3 * width * height <= samples@.len(),
        r is Some ==> image_rows(r->0) == rows_of(samples@, width as int, height as int),
        r is Some ==> image_width(r->0) == width,
{
    match image::RgbImage::from_raw(width, height, samples) {
        Some(data) => Some(ImageTexture { data }),
        None => None,
    }
}

/// The width and the height of an image.
///
/// Calls `image::ImageBuffer::dimensions`. Not proved: that the width is the
/// one the image was made with and the length of each row, and the height the
/// number of rows.
#[verifier::external_body]
fn image_dimensions(texture: &ImageTexture) -> (r: (u32, u32))
    ensures
        r.0 == image_width(*texture),
        r.1 == image_rows(*texture).len(),
        forall|y: int| 0 <= y < r.1 ==> (#[trigger] image_rows(*texture)[y]).len() == r.0,
{
    texture.data.dimensions()
}

/// The pixel in column `x` of row `y`.
///
/// Calls `image::ImageBuffer::get_pixel`, which panics outside the image. Not
/// proved: that inside the image it returns the three samples of that pixel.
#[verifier::external_body]
fn image_pixel(texture: &ImageTexture, x: u32, y: u32) -> (r: (u8, u8, u8))
    requires
        y < image_rows(*texture).len(),
        x < image_rows(*texture)[y as int].len(),
    ensures
        r == image_rows(*texture)[y as int][x as int],
{
    let p = texture.data.get_pixel(x, y);
    (p.0[0], p.0[1], p.0[2])
}

/// One colour everywhere.
#[derive(Clone, Copy, Debug, PartialEq, Eq)]
pub struct SolidColor {
    pub color: Color,
}

impl SolidColor {
    pub fn new(color: Color) -> (r: Self)
        ensures
            r.color == color,
    {
        SolidColor { color }
    }

    pub fn from_rgb(r: Scalar, g: Scalar, b: Scalar) -> (s: Self)
        ensures
            s.color == Vec3(r, g, b),
    {
        SolidColor { color: Vec3(r, g, b) }
    }

    /// The colour at surface coordinates `(u, v)` and point `p`: the same
    /// everywhere.
    pub fn value(&self, u: Scalar, v: Scalar, p: &Point3) -> (c: Color)
        ensures
            c == self.color,
    {
        self.color
    }
}

impl ImageTexture {
    /// The image's pixels.
    pub open spec fn rows(&self) -> Seq<Seq<(u8, u8, u8)>> {
        image_rows(*self)
    }

    /// The number of pixels in a row.
    pub open spec fn width(&self) -> int {
        image_width(*self)
    }

    /// The number of rows.
    pub open spec fn height(&self) -> int {
        self.rows().len() as int
    }

    /// The pixel that a lookup at column `i` of row `j` gives: the one there,
    /// or the nearest in the image where `(i, j)` is outside; none where the
    /// image has no pixel at all.
    pub open spec fn spec_texel(&self, i: int, j: int) -> Option<(u8, u8, u8)> {
        if self.width() == 0 || self.height() == 0 {
            None
        } else {
            let x = if i >= self.width() {
                self.width() - 1
            } else {
                i
            };
            let y = if j >= self.height() {
                self.height() - 1
            } else {
                j
            };
            Some(self.rows()[y][x])
        }
    }

    /// The texture of an image that the host has decoded to `samples`: three
    /// to a pixel, row by row from the top. There is none where the samples do
    /// not suffice for `width` times `height` pixels; samples beyond those play
    /// no part.
    pub fn from_raw(width: u32, height: u32, samples: Vec<u8>) -> (r: Option<Self>)
        ensures
            r is Some <==> 3 * width * height <= samples@.len(),
            r is Some ==> r->0.rows() == rows_of(samples@, width as int, height as int),
            r is Some ==> r->0.width() == width && r->0.height() == height,
    {
        image_from_raw(width, height, samples)
    }

    /// The surface coordinates brought into the unit square.
    pub fn clamp_uv(u: Scalar, v: Scalar) -> (r: (Scalar, Scalar))
        ensures
            r == (spec_clamp(u, ZERO, ONE), spec_clamp(v, ZERO, ONE)),
    {
        (clamp(u, ZERO, ONE), clamp(v, ZERO, ONE))
    }

    /// The width and the height of the image, in pixels.
    pub fn dimensions(&self) -> (r: (u32, u32))
        ensures
            r.0 == self.width(),
            r.1 == self.height(),
    {
        image_dimensions(self)
    }

    /// The pixel for column `i` of row `j`.
    ///
    /// The host scales the clamped surface coordinates by the image's width
    /// and height and cuts off the fractions; a coordinate of exactly one
    /// then points just past the last pixel, which is why a lookup outside the
    /// image goes to the nearest pixel inside. An image without pixels gives
    /// none, and the host paints cyan.
    pub fn texel(&self, i: u32, j: u32) -> (r: Option<(u8, u8, u8)>)
        ensures
            r == self.spec_texel(i as int, j as int),
    {
        let (width, height) = image_dimensions(self);
        if width == 0 || height == 0 {
            return None;
        }
        let x: u32 = if i >= width {
            width - 1
        } else {
            i
        };
        let y: u32 = if j >= height {
            height - 1
        } else {
            j
        };
        Some(image_pixel(self, x, y))
    }
}

} // verus!
