//! Decoded pictures, held through the `image` crate, with the pixel size the
//! library reads kept beside them.
//!
//! Only the functions of this module build a [`Raster`], each from the size
//! the `image` crate reports for the picture it holds.

use vstd::prelude::*;

verus! {

#[verifier::external_type_specification]
#[verifier::external_body]
pub struct ExDynamicImage(::image::DynamicImage);

/// The container formats the library accepts.
#[derive(Debug, Clone, Copy, PartialEq, Eq, Structural)]
pub enum ImageFormatKind {
    Png,
    Jpeg,
    WebP,
}

/// Pixel size (width, height) of the picture that `image::load_from_memory_with_format`
/// decodes from the bytes, or `None` when it rejects them.
pub uninterp spec fn decoded_size(bytes: Seq<u8>, format: ImageFormatKind) -> Option<(u32, u32)>;

/// Pixel size that `DynamicImage::resize` gives a picture of the given size
/// when asked to fit a `bound` x `bound` box (aspect ratio kept, rounded).
pub uninterp spec fn fitted_size(size: (u32, u32), bound: u32) -> (u32, u32);

/// `side` is less than one pixel away from `source * bound / longer`.
pub open spec fn within_one_pixel(side: u32, source: u32, bound: u32, longer: u32) -> bool {
    &&& side * longer < source * bound + longer
    &&& source * bound < side * longer + longer
}

/// The eight bytes every PNG stream starts with.
pub open spec fn png_signature() -> Seq<u8> {
    seq![0x89u8, 0x50u8, 0x4Eu8, 0x47u8, 0x0Du8, 0x0Au8, 0x1Au8, 0x0Au8]
}

/// A decoded picture and its pixel size, with where its top-left pixel
/// stands in the decoded upload while it is an unscaled cut-out of it.
pub struct Raster {
    pixels: ::image::DynamicImage,
    width: u32,
    height: u32,
    origin: Ghost<Option<(int, int)>>,
}

/// A position moved by `(dx, dy)`, when there is one.
pub open spec fn shifted(origin: Option<(int, int)>, dx: int, dy: int) -> Option<(int, int)> {
    match origin {
        Some(o) => Some((o.0 + dx, o.1 + dy)),
        None => None,
    }
}

impl Raster {
    /// Pixel size (width, height).
    pub closed spec fn size(&self) -> (u32, u32) {
        (self.width, self.height)
    }

    /// Where pixel (0, 0) of this picture stands in the decoded upload:
    /// pixel (i, j) here is pixel (i + x, j + y) there. `None` once the
    /// picture has been scaled.
    pub closed spec fn origin(&self) -> Option<(int, int)> {
        self.origin@
    }

    pub fn width(&self) -> (w: u32)
        ensures
            w == self.size().0,
    {
        self.width
    }

    pub fn height(&self) -> (h: u32)
        ensures
            h == self.size().1,
    {
        self.height
    }
}

/// Decodes `bytes` as `format` with `image::load_from_memory_with_format`.
/// Its outcome and the picture's size are named by `decoded_size`; nothing
/// else about the pixels is stated.
#[verifier::external_body]
pub(crate) fn decode_raster(bytes: &[u8], format: ImageFormatKind) -> (decoded: Option<Raster>)
    ensures
        decoded is Some <==> decoded_size(bytes@, format) is Some,
        decoded matches Some(r) ==> r.size() == decoded_size(bytes@, format)->Some_0,
        decoded matches Some(r) ==> r.origin() == Some((0int, 0int)),
{
    let format = match format {
        ImageFormatKind::Png => ::image::ImageFormat::Png,
        ImageFormatKind::Jpeg => ::image::ImageFormat::Jpeg,
        ImageFormatKind::WebP => ::image::ImageFormat::WebP,
    };
    match ::image::load_from_memory_with_format(bytes, format) {
        Ok(pixels) => Some(Raster { width: pixels.width(), height: pixels.height(), pixels, origin: Ghost(Some((0int, 0int))) }),
        Err(_) => None,
    }
}

/// `DynamicImage::crop_imm`: the cut-out of the given rectangle. Inside the
/// picture's bounds the crate does not clip it, so the cut-out has the
/// rectangle's size, and its pixel (0, 0) is the picture's pixel (x, y).
#[verifier::external_body]
pub(crate) fn crop_raster(raster: &Raster, x: u32, y: u32, width: u32, height: u32) -> (cut: Raster)
    requires
        x + width <= raster.size().0,
        y + height <= raster.size().1,
    ensures
        cut.size() == (width, height),
        cut.origin() == shifted(raster.origin(), x as int, y as int),
{
    let pixels = raster.pixels.crop_imm(x, y, width, height);
    Raster { width: pixels.width(), height: pixels.height(), pixels, origin: Ghost(shifted(raster.origin@, x as int, y as int)) }
}

/// `DynamicImage::resize` with the triangle filter into a `bound` x `bound`
/// box. The size it produces is named by `fitted_size`; the crate scales by
/// the smaller of the two ratios and keeps each side at least one pixel, so
/// both sides end between 1 and `bound`. The longer side is the one that
/// limits the ratio, and `round(side * (bound / side))` is `bound` itself
/// (the floating-point error stays far below one half), so the longer side
/// ends exactly at `bound`. The shorter side is `side * (bound / longer)`
/// rounded to the nearest integer (at least one), so it lies less than one
/// pixel away from the exact quotient.
#[verifier::external_body]
pub(crate) fn fit_raster(raster: &Raster, bound: u32) -> (fitted: Raster)
    requires
        bound >= 1,
    ensures
        fitted.size() == fitted_size(raster.size(), bound),
        1 <= fitted.size().0 <= bound,
        1 <= fitted.size().1 <= bound,
        raster.size().1 >= 1 && raster.size().0 >= raster.size().1 ==> fitted.size().0 == bound,
        raster.size().0 >= 1 && raster.size().1 >= raster.size().0 ==> fitted.size().1 == bound,
        raster.size().1 >= 1 && raster.size().0 >= raster.size().1 ==> within_one_pixel(
            fitted.size().1,
            raster.size().1,
            bound,
            raster.size().0,
        ),
        raster.size().0 >= 1 && raster.size().1 >= raster.size().0 ==> within_one_pixel(
            fitted.size().0,
            raster.size().0,
            bound,
            raster.size().1,
        ),
{
    let pixels = raster.pixels.resize(bound, bound, ::image::imageops::FilterType::Triangle);
    Raster { width: pixels.width(), height: pixels.height(), pixels, origin: Ghost(None) }
}

/// `DynamicImage::write_to` with the PNG encoder into memory. When it
/// succeeds the bytes begin with the PNG signature, which the `png` encoder
/// writes first. `write_to` first converts the picture to a colour type the
/// PNG encoder takes, and writing into a `Vec` cannot fail, so a picture of
/// at least one pixel each way is encoded; the header records its size, and
/// below 4096 pixels a side the stream decodes again within the crate's
/// default limits to a picture of that size. The pixels are not stated.
#[verifier::external_body]
pub(crate) fn encode_png_bytes(raster: &Raster) -> (encoded: Option<Vec<u8>>)
    ensures
        encoded matches Some(bytes) ==> bytes@.len() >= 8 && bytes@.subrange(0, 8) == png_signature(),
        encoded is Some || !(1 <= raster.size().0 <= 4096 && 1 <= raster.size().1 <= 4096),
        encoded matches Some(bytes) ==> (1 <= raster.size().0 <= 4096 && 1 <= raster.size().1 <= 4096 ==> decoded_size(
            bytes@,
            ImageFormatKind::Png,
        ) == Some(raster.size())),
{
    let mut buffer = std::io::Cursor::new(Vec::new());
    match raster.pixels.write_to(&mut buffer, ::image::ImageFormat::Png) {
        Ok(()) => Some(buffer.into_inner()),
        Err(_) => None,
    }
}

} // verus!
