use image::{DynamicImage, GrayImage, RgbImage, RgbaImage};
use paintr::raster::{Raster, Rgba};

#[test]
fn grey_image_becomes_rgba() {
    let grey = GrayImage::from_raw(2, 1, vec![7, 9]).unwrap();
    let r = Raster::from_image(DynamicImage::ImageLuma8(grey));
    assert_eq!((r.width(), r.height()), (2, 1));
    assert_eq!(r.as_rgba8(), &vec![7, 7, 7, 255, 9, 9, 9, 255]);
}

#[test]
fn rgb_image_becomes_opaque_rgba() {
    let rgb = RgbImage::from_raw(1, 2, vec![1, 2, 3, 4, 5, 6]).unwrap();
    let r = Raster::from_image(DynamicImage::ImageRgb8(rgb));
    assert_eq!((r.width(), r.height()), (1, 2));
    assert_eq!(r.get_pixel(0, 0), Rgba { r: 1, g: 2, b: 3, a: 255 });
    assert_eq!(r.get_pixel(0, 1), Rgba { r: 4, g: 5, b: 6, a: 255 });
}

#[test]
fn rgba_image_is_taken_as_it_is() {
    let bytes = vec![1, 2, 3, 4, 5, 6, 7, 8];
    let rgba = RgbaImage::from_raw(2, 1, bytes.clone()).unwrap();
    let r = Raster::from_image(DynamicImage::ImageRgba8(rgba));
    assert_eq!((r.width(), r.height()), (2, 1));
    assert_eq!(r.as_rgba8(), &bytes);
}

#[test]
fn bytes_after_the_last_pixel_are_dropped() {
    let rgba = RgbaImage::from_raw(1, 1, vec![1, 2, 3, 4, 5, 6, 7, 8, 9]).unwrap();
    let r = Raster::from_image(DynamicImage::ImageRgba8(rgba));
    assert_eq!((r.width(), r.height()), (1, 1));
    assert_eq!(r.as_rgba8(), &vec![1, 2, 3, 4]);
    let r = Raster::from_rgba8_prefix(1, 2, vec![1, 2, 3, 4, 5, 6, 7, 8, 9]).unwrap();
    assert_eq!(r.as_rgba8(), &vec![1, 2, 3, 4, 5, 6, 7, 8]);
    assert!(Raster::from_rgba8_prefix(1, 2, vec![1, 2, 3, 4, 5, 6, 7]).is_none());
}

#[test]
fn empty_image_is_an_empty_raster() {
    let r = Raster::from_image(DynamicImage::new_rgba8(0, 0));
    assert_eq!((r.width(), r.height()), (0, 0));
    let r = Raster::from_image(DynamicImage::new_luma8(3, 0));
    assert_eq!((r.width(), r.height()), (3, 0));
    assert!(r.as_rgba8().is_empty());
}

#[test]
fn blank_image_of_the_crate_is_the_blank_raster() {
    let r = Raster::from_image(DynamicImage::new_rgba8(3, 2));
    assert_eq!(r.as_rgba8(), Raster::new(3, 2).as_rgba8());
}
