use subpixel_font_generator::images::{RgbImage, RgbaImage};

#[test]
fn image_from_samples_has_the_given_size() {
    let samples: Vec<u8> = (0..3 * 5 * 2).map(|v| v as u8).collect();
    let img = RgbImage::from_samples(5, 2, &samples).unwrap();
    assert_eq!(img.width(), 5);
    assert_eq!(img.height(), 2);
}

#[test]
fn samples_are_read_row_by_row() {
    let samples: Vec<u8> = (0..3 * 5 * 2).map(|v| v as u8).collect();
    let img = RgbImage::from_samples(5, 2, &samples).unwrap();
    assert_eq!(img.get_pixel_checked(0, 0), Some((0, 1, 2)));
    assert_eq!(img.get_pixel_checked(1, 0), Some((3, 4, 5)));
    assert_eq!(img.get_pixel_checked(4, 0), Some((12, 13, 14)));
    assert_eq!(img.get_pixel_checked(0, 1), Some((15, 16, 17)));
    assert_eq!(img.get_pixel_checked(4, 1), Some((27, 28, 29)));
}

#[test]
fn samples_come_back_unchanged() {
    let samples: Vec<u8> = (0..3 * 7 * 4).map(|v| (v * 3 % 251) as u8).collect();
    let img = RgbImage::from_samples(7, 4, &samples).unwrap();
    assert_eq!(img.to_samples(), samples);
}

#[test]
fn pixel_outside_the_image_is_absent() {
    let samples = vec![9u8; 3 * 5 * 2];
    let img = RgbImage::from_samples(5, 2, &samples).unwrap();
    assert_eq!(img.get_pixel_checked(5, 0), None);
    assert_eq!(img.get_pixel_checked(0, 2), None);
    assert_eq!(img.get_pixel_checked(u32::MAX, u32::MAX), None);
}

#[test]
fn too_few_samples_make_no_image() {
    let samples = vec![0u8; 3 * 5 * 2 - 1];
    assert!(RgbImage::from_samples(5, 2, &samples).is_none());
}

#[test]
fn too_many_samples_make_no_image() {
    let samples = vec![0u8; 3 * 5 * 2 + 1];
    assert!(RgbImage::from_samples(5, 2, &samples).is_none());
}

#[test]
fn image_without_pixels_has_no_samples() {
    let wide = RgbImage::from_samples(4, 0, &[]).unwrap();
    assert_eq!((wide.width(), wide.height()), (4, 0));
    assert!(wide.to_samples().is_empty());
    let tall = RgbImage::from_samples(0, 3, &[]).unwrap();
    assert_eq!((tall.width(), tall.height()), (0, 3));
    assert_eq!(tall.get_pixel_checked(0, 0), None);
}

#[test]
fn size_that_overflows_makes_no_image() {
    assert!(RgbImage::from_samples(u32::MAX, u32::MAX, &[]).is_none());
    assert!(RgbImage::from_samples(u32::MAX, u32::MAX, &[0, 0, 0]).is_none());
}

#[test]
fn new_image_is_black() {
    let img = RgbImage::new(3, 2);
    assert_eq!(img.dimensions(), (3, 2));
    assert_eq!(img.to_samples(), vec![0u8; 18]);
    for y in 0..2 {
        for x in 0..3 {
            assert_eq!(img.get_pixel(x, y), (0, 0, 0));
        }
    }
}

#[test]
fn put_pixel_replaces_one_pixel() {
    let mut img = RgbImage::new(3, 2);
    img.put_pixel(2, 1, (7, 8, 9));
    img.put_pixel(0, 0, (1, 2, 3));
    assert_eq!(img.get_pixel(2, 1), (7, 8, 9));
    assert_eq!(img.get_pixel(0, 0), (1, 2, 3));
    assert_eq!(img.get_pixel(1, 0), (0, 0, 0));
    assert_eq!(
        img.to_samples(),
        vec![1, 2, 3, 0, 0, 0, 0, 0, 0, 0, 0, 0, 0, 0, 0, 7, 8, 9]
    );
    img.put_pixel(2, 1, (0, 0, 0));
    assert_eq!(img.get_pixel(2, 1), (0, 0, 0));
}

#[test]
fn new_rgba_image_is_transparent() {
    let mut img = RgbaImage::new(2, 2);
    assert_eq!(img.dimensions(), (2, 2));
    assert_eq!((img.width(), img.height()), (2, 2));
    assert_eq!(img.to_samples(), vec![0u8; 16]);
    img.put_pixel(1, 0, (1, 2, 3, 4));
    assert_eq!(img.get_pixel(1, 0), (1, 2, 3, 4));
    assert_eq!(img.get_pixel_checked(0, 1), Some((0, 0, 0, 0)));
    assert_eq!(img.get_pixel_checked(2, 0), None);
    assert_eq!(
        img.to_samples(),
        vec![0, 0, 0, 0, 1, 2, 3, 4, 0, 0, 0, 0, 0, 0, 0, 0]
    );
}
