use std::io::Cursor;

use hdpictureconverter::canvas::{div_ceil, Image};
use hdpictureconverter::ConvertError;

fn solid_rgba(width: u32, height: u32, px: [u8; 4]) -> Vec<u8> {
    let mut data = Vec::new();
    for _ in 0..width * height {
        data.extend_from_slice(&px);
    }
    data
}

fn pixel(img: &Image, x: u32, y: u32) -> [u8; 4] {
    let base = (4 * (y * img.width + x)) as usize;
    [
        img.pixels[base],
        img.pixels[base + 1],
        img.pixels[base + 2],
        img.pixels[base + 3],
    ]
}

#[test]
fn div_ceil_rounds_up() {
    assert_eq!(div_ceil(0, 80), 0);
    assert_eq!(div_ceil(1, 80), 1);
    assert_eq!(div_ceil(80, 80), 1);
    assert_eq!(div_ceil(81, 80), 2);
    assert_eq!(div_ceil(160, 80), 2);
}

#[test]
fn padding_rounds_dimensions_up_to_tile_multiples() {
    let data = solid_rgba(100, 60, [10, 20, 30, 255]);
    let img = Image::from_rgba(100, 60, &data, "photo", "AB").unwrap();
    assert_eq!(img.width, 160);
    assert_eq!(img.height, 80);
    assert_eq!(img.width % 80, 0);
    assert_eq!(img.height % 80, 0);
    assert_eq!(img.pixels.len(), 4 * 160 * 80);
}

#[test]
fn padding_keeps_dimensions_already_multiples() {
    let data = solid_rgba(80, 160, [1, 2, 3, 255]);
    let img = Image::from_rgba(80, 160, &data, "photo", "AB").unwrap();
    assert_eq!(img.width, 80);
    assert_eq!(img.height, 160);
}

#[test]
fn opaque_source_pixels_are_preserved() {
    let data = solid_rgba(100, 60, [10, 20, 30, 255]);
    let img = Image::from_rgba(100, 60, &data, "photo", "AB").unwrap();
    assert_eq!(pixel(&img, 0, 0), [10, 20, 30, 255]);
    assert_eq!(pixel(&img, 99, 59), [10, 20, 30, 255]);
    assert_eq!(pixel(&img, 50, 30), [10, 20, 30, 255]);
}

#[test]
fn border_pixels_are_opaque_black() {
    let data = solid_rgba(100, 60, [10, 20, 30, 255]);
    let img = Image::from_rgba(100, 60, &data, "photo", "AB").unwrap();
    assert_eq!(pixel(&img, 100, 0), [0, 0, 0, 255]);
    assert_eq!(pixel(&img, 159, 79), [0, 0, 0, 255]);
    assert_eq!(pixel(&img, 0, 60), [0, 0, 0, 255]);
}

#[test]
fn transparent_pixels_blend_to_black() {
    let data = solid_rgba(80, 80, [100, 100, 100, 0]);
    let img = Image::from_rgba(80, 80, &data, "photo", "AB").unwrap();
    assert_eq!(pixel(&img, 5, 5), [0, 0, 0, 255]);
}

#[test]
fn semi_transparent_pixels_blend_over_black() {
    let data = solid_rgba(80, 80, [200, 100, 50, 128]);
    let img = Image::from_rgba(80, 80, &data, "photo", "AB").unwrap();
    assert_eq!(pixel(&img, 0, 0), [100, 50, 25, 255]);
}

#[test]
fn image_name_is_derived_from_source_name() {
    let data = solid_rgba(80, 80, [0, 0, 0, 255]);
    let img = Image::from_rgba(80, 80, &data, "my pic!.png", "AB").unwrap();
    assert_eq!(img.name, "mypicpng");
    assert_eq!(img.var_prefix, "AB");
}

#[test]
fn invalid_prefix_is_rejected_before_processing() {
    let data = solid_rgba(80, 80, [0, 0, 0, 255]);
    let err = match Image::from_rgba(80, 80, &data, "photo", "A1") {
        Err(e) => e,
        Ok(_) => panic!("expected an error"),
    };
    assert!(matches!(err, ConvertError::BadVarPrefix));
}

#[test]
fn empty_image_is_rejected() {
    let data = Vec::new();
    let err = match Image::from_rgba(0, 0, &data, "photo", "AB") {
        Err(e) => e,
        Ok(_) => panic!("expected an error"),
    };
    assert!(matches!(err, ConvertError::BadDimensions));
}

#[test]
fn decode_failure_is_reported() {
    let garbage = vec![1, 2, 3, 4, 5];
    let err = match Image::new(&garbage, "photo", "AB") {
        Err(e) => e,
        Ok(_) => panic!("expected an error"),
    };
    assert!(matches!(err, ConvertError::Decode(_)));
}

#[test]
fn decoded_image_is_padded() {
    let mut png = Vec::new();
    {
        let img = image::RgbaImage::from_pixel(100, 60, image::Rgba([10, 20, 30, 255]));
        image::DynamicImage::ImageRgba8(img)
            .write_to(&mut Cursor::new(&mut png), image::ImageFormat::Png)
            .unwrap();
    }
    let img = Image::new(&png, "photo.png", "AB").unwrap();
    assert_eq!(img.width, 160);
    assert_eq!(img.height, 80);
    assert_eq!(pixel(&img, 0, 0), [10, 20, 30, 255]);
    assert_eq!(pixel(&img, 120, 70), [0, 0, 0, 255]);
}
