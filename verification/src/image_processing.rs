//! Normalises uploaded avatars and logos to PNG pictures of bounded size.

use vstd::prelude::*;

use crate::error::{is_media_invalid_with, AppError};
use crate::raster::{
    crop_raster, decode_raster, decoded_size, encode_png_bytes, fit_raster, fitted_size, png_signature, shifted,
    within_one_pixel, ImageFormatKind, Raster,
};

verus! {

/// Largest accepted upload, in bytes.
pub const MAX_INPUT_BYTES: u64 = 5 * 1024 * 1024;
/// Largest side of a stored picture, in pixels.
pub const MAX_DIMENSION: u32 = 512;
/// Media type of every stored picture.
pub const OUTPUT_MIME: &'static str = "image/png";

/// What a picture is used for.
#[derive(Debug, Clone, Copy, PartialEq, Eq, Structural)]
pub enum ImageKind {
    Avatar,
    Logo,
}

/// The container format the leading bytes announce.
pub open spec fn format_of(b: Seq<u8>) -> Option<ImageFormatKind> {
    if b.len() >= 8 && b.subrange(0, 8) == png_signature() {
        Some(ImageFormatKind::Png)
    } else if b.len() >= 3 && b[0] == 0xFFu8 && b[1] == 0xD8u8 && b[2] == 0xFFu8 {
        Some(ImageFormatKind::Jpeg)
    } else if b.len() >= 12 && b[0] == 0x52u8 && b[1] == 0x49u8 && b[2] == 0x46u8 && b[3] == 0x46u8
        && b[8] == 0x57u8 && b[9] == 0x45u8 && b[10] == 0x42u8 && b[11] == 0x50u8 {
        Some(ImageFormatKind::WebP)
    } else {
        None
    }
}

/// Side of the centred square cut from a picture of the given size.
pub open spec fn square_side(size: (u32, u32)) -> u32 {
    if size.0 < size.1 { size.0 } else { size.1 }
}

/// Size after fitting into the `bound` x `bound` box; small pictures are
/// kept, never enlarged.
pub open spec fn fit_size(size: (u32, u32), bound: u32) -> (u32, u32) {
    if size.0 <= bound && size.1 <= bound { size } else { fitted_size(size, bound) }
}

/// Size of the picture that is fitted into the box: the centred square of an
/// avatar, the whole of a logo.
pub open spec fn resize_source(size: (u32, u32), kind: ImageKind) -> (u32, u32) {
    match kind {
        ImageKind::Avatar => (square_side(size), square_side(size)),
        ImageKind::Logo => size,
    }
}

/// Size of the normalised picture for a decoded picture of the given size.
pub open spec fn processed_size(size: (u32, u32), kind: ImageKind) -> (u32, u32) {
    fit_size(resize_source(size, kind), MAX_DIMENSION)
}

/// `out` is how a picture of `size` fits a `bound` x `bound` box: unchanged
/// when it already fits; otherwise the longer side becomes `bound` and the
/// shorter keeps the aspect ratio to within one pixel, never below one.
pub open spec fn fits_box(size: (u32, u32), bound: u32, out: (u32, u32)) -> bool {
    if size.0 <= bound && size.1 <= bound {
        out == size
    } else if size.0 >= size.1 {
        out.0 == bound && 1 <= out.1 <= bound && within_one_pixel(out.1, size.1, bound, size.0)
    } else {
        out.1 == bound && 1 <= out.0 <= bound && within_one_pixel(out.0, size.0, bound, size.1)
    }
}

/// The size of the picture the bytes hold, when their format is known, they
/// decode, and the picture has at least one pixel each way.
pub open spec fn picture_size(bytes: Seq<u8>) -> Option<(u32, u32)> {
    match format_of(bytes) {
        Some(f) => match decoded_size(bytes, f) {
            Some(s) => if s.0 >= 1 && s.1 >= 1 { Some(s) } else { None },
            None => None,
        },
        None => None,
    }
}

/// Decodes, crops or fits, and re-encodes an uploaded picture as PNG.
pub fn process_image_bytes(bytes: &[u8], kind: ImageKind) -> (result: Result<Vec<u8>, AppError>)
    ensures
        bytes@.len() > MAX_INPUT_BYTES ==> is_media_invalid_with(result->Err_0, "The image is larger than 5 MB."@) && result is Err,
        bytes@.len() <= MAX_INPUT_BYTES && format_of(bytes@) is None ==> result is Err
            && is_media_invalid_with(result->Err_0, "The file is not a supported image."@),
        (bytes@.len() <= MAX_INPUT_BYTES && format_of(bytes@) is Some
            && decoded_size(bytes@, format_of(bytes@)->Some_0) is None) ==> result is Err && is_media_invalid_with(result->Err_0, "The image could not be decoded."@),
        result matches Ok(png) ==> bytes@.len() <= MAX_INPUT_BYTES
            && format_of(bytes@) is Some
            && decoded_size(bytes@, format_of(bytes@)->Some_0) is Some
            && png@.len() >= 8 && png@.subrange(0, 8) == png_signature(),
        result matches Err(e) ==> e is MediaInvalid,
        (bytes@.len() <= MAX_INPUT_BYTES && picture_size(bytes@) is Some) ==> result is Ok,
        result matches Ok(png) ==> (picture_size(bytes@) is Some ==> decoded_size(png@, ImageFormatKind::Png) == Some(
            processed_size(picture_size(bytes@)->Some_0, kind),
        )),
        bytes@.len() <= MAX_INPUT_BYTES ==> (picture_size(bytes@) matches Some(s) ==> fits_box(
            resize_source(s, kind),
            MAX_DIMENSION,
            processed_size(s, kind),
        )),
{
    if bytes.len() as u64 > MAX_INPUT_BYTES {
        return Err(too_large());
    }
    let format = detect_format(bytes)?;
    let image = match decode_raster(bytes, format) {
        Some(image) => image,
        None => return Err(undecodable()),
    };
    let processed = match kind {
        ImageKind::Avatar => resize_avatar(image),
        ImageKind::Logo => resize_logo(image),
    };
    encode_png(&processed)
}

fn detect_format(bytes: &[u8]) -> (format: Result<ImageFormatKind, AppError>)
    ensures
        match format {
            Ok(f) => format_of(bytes@) == Some(f),
            Err(e) => format_of(bytes@) is None && is_media_invalid_with(e, "The file is not a supported image."@),
        },
{
    if bytes.len() >= 8 && bytes[0] == 0x89u8 && bytes[1] == 0x50u8 && bytes[2] == 0x4Eu8 && bytes[3] == 0x47u8
        && bytes[4] == 0x0Du8 && bytes[5] == 0x0Au8 && bytes[6] == 0x1Au8 && bytes[7] == 0x0Au8 {
        assert(bytes@.subrange(0, 8) =~= png_signature());
        return Ok(ImageFormatKind::Png);
    }
    assert(bytes@.len() >= 8 ==> bytes@.subrange(0, 8)[0] == bytes@[0] && bytes@.subrange(0, 8)[1] == bytes@[1]
        && bytes@.subrange(0, 8)[2] == bytes@[2] && bytes@.subrange(0, 8)[3] == bytes@[3]
        && bytes@.subrange(0, 8)[4] == bytes@[4] && bytes@.subrange(0, 8)[5] == bytes@[5]
        && bytes@.subrange(0, 8)[6] == bytes@[6] && bytes@.subrange(0, 8)[7] == bytes@[7]);
    if bytes.len() >= 3 && bytes[0] == 0xFFu8 && bytes[1] == 0xD8u8 && bytes[2] == 0xFFu8 {
        return Ok(ImageFormatKind::Jpeg);
    }
    if bytes.len() >= 12 && bytes[0] == 0x52u8 && bytes[1] == 0x49u8 && bytes[2] == 0x46u8 && bytes[3] == 0x46u8
        && bytes[8] == 0x57u8 && bytes[9] == 0x45u8 && bytes[10] == 0x42u8 && bytes[11] == 0x50u8 {
        return Ok(ImageFormatKind::WebP);
    }
    Err(AppError::media_invalid("The file is not a supported image."))
}

fn resize_avatar(image: Raster) -> (resized: Raster)
    ensures
        resized.size() == processed_size(image.size(), ImageKind::Avatar),
        square_side(image.size()) <= MAX_DIMENSION ==> resized.origin() == shifted(
            image.origin(),
            centre_offset(image.size()).0,
            centre_offset(image.size()).1,
        ),
        image.size().0 >= 1 && image.size().1 >= 1 ==> fits_box(
            resize_source(image.size(), ImageKind::Avatar),
            MAX_DIMENSION,
            resized.size(),
        ),
        image.size().0 >= 1 && image.size().1 >= 1 ==> 1 <= resized.size().0 <= MAX_DIMENSION && 1 <= resized.size().1
            <= MAX_DIMENSION,
{
    let square = center_crop_square(image);
    fit_within(square, MAX_DIMENSION)
}

fn resize_logo(image: Raster) -> (resized: Raster)
    ensures
        resized.size() == processed_size(image.size(), ImageKind::Logo),
        image.size().0 >= 1 && image.size().1 >= 1 ==> fits_box(image.size(), MAX_DIMENSION, resized.size()),
        image.size().0 >= 1 && image.size().1 >= 1 ==> 1 <= resized.size().0 <= MAX_DIMENSION && 1 <= resized.size().1
            <= MAX_DIMENSION,
{
    fit_within(image, MAX_DIMENSION)
}

/// Where the largest centred square of a picture of `size` starts: the
/// margins left and right (above and below) are equal, or the right (lower)
/// one is a pixel wider.
pub open spec fn centre_offset(size: (u32, u32)) -> (int, int) {
    ((size.0 - square_side(size)) / 2, (size.1 - square_side(size)) / 2)
}

/// The largest centred square of the picture.
fn center_crop_square(image: Raster) -> (square: Raster)
    ensures
        square.size() == (square_side(image.size()), square_side(image.size())),
        square.origin() == shifted(image.origin(), centre_offset(image.size()).0, centre_offset(image.size()).1),
{
    let width = image.width();
    let height = image.height();
    let side = if width < height { width } else { height };
    let x = (width - side) / 2;
    let y = (height - side) / 2;
    crop_raster(&image, x, y, side, side)
}

/// Shrinks the picture into a `max_dimension` square box when it exceeds it.
fn fit_within(image: Raster, max_dimension: u32) -> (fitted: Raster)
    requires
        max_dimension >= 1,
    ensures
        fitted.size() == fit_size(image.size(), max_dimension),
        fitted.size().0 <= max_dimension || fitted.size() == image.size(),
        image.size().0 <= max_dimension && image.size().1 <= max_dimension ==> fitted.origin() == image.origin(),
        image.size().0 >= 1 && image.size().1 >= 1 ==> fits_box(image.size(), max_dimension, fitted.size()),
        image.size().0 >= 1 && image.size().1 >= 1 ==> 1 <= fitted.size().0 <= max_dimension && 1 <= fitted.size().1
            <= max_dimension,
{
    if image.width() <= max_dimension && image.height() <= max_dimension {
        image
    } else {
        fit_raster(&image, max_dimension)
    }
}

fn encode_png(image: &Raster) -> (encoded: Result<Vec<u8>, AppError>)
    ensures
        encoded matches Ok(bytes) ==> bytes@.len() >= 8 && bytes@.subrange(0, 8) == png_signature(),
        (1 <= image.size().0 <= MAX_DIMENSION && 1 <= image.size().1 <= MAX_DIMENSION) ==> (encoded matches Ok(bytes)
            && decoded_size(bytes@, ImageFormatKind::Png) == Some(image.size())),
        encoded matches Err(e) ==> is_media_invalid_with(e, "The image could not be encoded."@),
{
    match encode_png_bytes(image) {
        Some(bytes) => Ok(bytes),
        None => Err(AppError::media_invalid("The image could not be encoded.")),
    }
}

/// The error for a file that could not be read.
pub fn unreadable() -> (error: AppError)
    ensures
        is_media_invalid_with(error, "The image could not be read."@),
{
    AppError::media_invalid("The image could not be read.")
}

/// The error for an upload over the size limit.
pub fn too_large() -> (error: AppError)
    ensures
        is_media_invalid_with(error, "The image is larger than 5 MB."@),
{
    AppError::media_invalid("The image is larger than 5 MB.")
}

fn undecodable() -> (error: AppError)
    ensures
        is_media_invalid_with(error, "The image could not be decoded."@),
{
    AppError::media_invalid("The image could not be decoded.")
}

/// Whether a file on disk may be processed: it must be a regular file of at
/// most the size limit; otherwise the unreadable or too-large error.
pub fn admit_image_file(is_file: bool, length: u64) -> (admitted: Result<(), AppError>)
    ensures
        admitted is Ok <==> (is_file && length <= MAX_INPUT_BYTES),
        !is_file ==> (admitted matches Err(e) && is_media_invalid_with(e, "The image could not be read."@)),
        is_file && length > MAX_INPUT_BYTES ==> (admitted matches Err(e)
            && is_media_invalid_with(e, "The image is larger than 5 MB."@)),
{
    if !is_file {
        return Err(unreadable());
    }
    if length > MAX_INPUT_BYTES {
        return Err(too_large());
    }
    Ok(())
}


/// The avatar is cut from the middle of the picture: the square of side
/// `min(width, height)` sits inside it with the margins on the two sides of
/// each axis equal, or the right (lower) one a single pixel wider.
pub proof fn law_avatar_square_is_centred(size: (u32, u32))
    ensures
        ({
            let side = square_side(size);
            let o = centre_offset(size);
            &&& side <= size.0 && side <= size.1
            &&& (side == size.0 || side == size.1)
            &&& 0 <= o.0 && o.0 + side <= size.0
            &&& 0 <= o.1 && o.1 + side <= size.1
            &&& (size.0 - side - o.0 == o.0 || size.0 - side - o.0 == o.0 + 1)
            &&& (size.1 - side - o.1 == o.1 || size.1 - side - o.1 == o.1 + 1)
        }),
{
}

} // verus!
