use image::{DynamicImage, ImageBuffer, ImageFormat, Rgb, Rgba};
use nestworth::error::{AppError, ErrorCode};
use nestworth::image_processing::{process_image_bytes, ImageKind, MAX_DIMENSION, MAX_INPUT_BYTES};

fn rgba_image(width: u32, height: u32, color: [u8; 4]) -> DynamicImage {
    DynamicImage::ImageRgba8(ImageBuffer::from_pixel(width, height, Rgba(color)))
}

fn encode(image: &DynamicImage, format: ImageFormat) -> Vec<u8> {
    let mut encoded = std::io::Cursor::new(Vec::new());
    image
        .write_to(&mut encoded, format)
        .expect("test image should encode");
    encoded.into_inner()
}

fn decoded_size(png: &[u8]) -> (u32, u32) {
    let image = image::load_from_memory(png).expect("processed png should decode");
    (image.width(), image.height())
}

#[test]
fn rejects_unsupported_bytes_as_media_invalid() {
    let error = process_image_bytes(b"not-an-image", ImageKind::Logo)
        .expect_err("unsupported bytes should fail");
    assert!(matches!(error, AppError::MediaInvalid { .. }));
    assert_eq!(error.into_command_error().code, ErrorCode::MediaInvalid);
}

#[test]
fn rejects_oversized_input_before_decode() {
    let bytes = vec![0_u8; (nestworth::image_processing::MAX_INPUT_BYTES + 1) as usize];
    let error =
        process_image_bytes(&bytes, ImageKind::Logo).expect_err("oversized input should fail");
    assert!(matches!(error, AppError::MediaInvalid { message } if message.contains("5 MB")));
}

#[test]
fn avatar_center_crops_to_square_without_upscaling() {
    let png = encode(&rgba_image(80, 40, [255, 0, 0, 255]), ImageFormat::Png);
    let processed = process_image_bytes(&png, ImageKind::Avatar).expect("png avatar");
    assert_eq!(decoded_size(&processed), (40, 40));
}

#[test]
fn logo_keeps_aspect_ratio_and_fits_max_dimension() {
    let png = encode(&rgba_image(800, 400, [0, 0, 255, 255]), ImageFormat::Png);
    let processed = process_image_bytes(&png, ImageKind::Logo).expect("png logo");
    let (width, height) = decoded_size(&processed);
    assert!(width <= MAX_DIMENSION);
    assert!(height <= MAX_DIMENSION);
    assert_eq!(width, MAX_DIMENSION);
    assert_eq!(height, 256);
}

#[test]
fn jpeg_and_webp_normalize_to_png() {
    let jpeg = encode(
        &DynamicImage::ImageRgb8(ImageBuffer::from_pixel(16, 16, Rgb([0, 255, 0]))),
        ImageFormat::Jpeg,
    );
    let webp = encode(&rgba_image(16, 16, [0, 255, 0, 255]), ImageFormat::WebP);
    let jpeg_out = process_image_bytes(&jpeg, ImageKind::Logo).expect("jpeg");
    let webp_out = process_image_bytes(&webp, ImageKind::Logo).expect("webp");
    assert!(jpeg_out.starts_with(&[0x89, 0x50, 0x4E, 0x47]));
    assert!(webp_out.starts_with(&[0x89, 0x50, 0x4E, 0x47]));
}

#[test]
fn avatar_of_large_portrait_is_square_and_bounded() {
    let png = encode(&rgba_image(600, 1200, [1, 2, 3, 255]), ImageFormat::Png);
    let processed = process_image_bytes(&png, ImageKind::Avatar).expect("large avatar");
    assert_eq!(decoded_size(&processed), (512, 512));
}

#[test]
fn small_logo_is_not_enlarged() {
    let png = encode(&rgba_image(30, 20, [9, 9, 9, 255]), ImageFormat::Png);
    let processed = process_image_bytes(&png, ImageKind::Logo).expect("small logo");
    assert_eq!(decoded_size(&processed), (30, 20));
}

#[test]
fn truncated_png_is_undecodable() {
    let mut png = encode(&rgba_image(10, 10, [1, 1, 1, 255]), ImageFormat::Png);
    png.truncate(20);
    let error = process_image_bytes(&png, ImageKind::Logo).expect_err("truncated png");
    assert!(matches!(error, AppError::MediaInvalid { message } if message.contains("decoded")));
}

#[test]
fn files_must_be_regular_and_within_the_limit() {
    assert!(nestworth::image_processing::admit_image_file(true, nestworth::image_processing::MAX_INPUT_BYTES).is_ok());
    assert!(matches!(nestworth::image_processing::admit_image_file(true, nestworth::image_processing::MAX_INPUT_BYTES + 1), Err(nestworth::error::AppError::MediaInvalid { message }) if message == "The image is larger than 5 MB."));
    assert!(matches!(nestworth::image_processing::admit_image_file(false, 1), Err(nestworth::error::AppError::MediaInvalid { message }) if message == "The image could not be read."));
}
