use softui::color::Color;
use softui::framebuffer::Framebuffer;
use softui::geometry::Rect;
use softui::image::{image, image_from_parts, same_text, Image, ImageError, ImageFormat};

// A 2 by 2 truecolour PNG: red, green / blue, (10, 20, 30).
const PNG: [u8; 76] = [
    137, 80, 78, 71, 13, 10, 26, 10, 0, 0, 0, 13, 73, 72, 68, 82, 0, 0, 0, 2, 0, 0, 0, 2, 8, 2, 0,
    0, 0, 253, 212, 154, 115, 0, 0, 0, 19, 73, 68, 65, 84, 120, 156, 99, 248, 207, 192, 192, 0,
    194, 12, 255, 185, 68, 228, 0, 26, 88, 3, 58, 86, 99, 162, 60, 0, 0, 0, 0, 73, 69, 78, 68, 174,
    66, 96, 130,
];

// A 2 by 2 greyscale baseline JPEG.
const JPEG: [u8; 331] = [
    255, 216, 255, 224, 0, 16, 74, 70, 73, 70, 0, 1, 1, 0, 0, 1, 0, 1, 0, 0, 255, 219, 0, 67, 0, 8,
    6, 6, 7, 6, 5, 8, 7, 7, 7, 9, 9, 8, 10, 12, 20, 13, 12, 11, 11, 12, 25, 18, 19, 15, 20, 29, 26,
    31, 30, 29, 26, 28, 28, 32, 36, 46, 39, 32, 34, 44, 35, 28, 28, 40, 55, 41, 44, 48, 49, 52, 52,
    52, 31, 39, 57, 61, 56, 50, 60, 46, 51, 52, 50, 255, 192, 0, 11, 8, 0, 2, 0, 2, 1, 1, 17, 0,
    255, 196, 0, 31, 0, 0, 1, 5, 1, 1, 1, 1, 1, 1, 0, 0, 0, 0, 0, 0, 0, 0, 1, 2, 3, 4, 5, 6, 7, 8,
    9, 10, 11, 255, 196, 0, 181, 16, 0, 2, 1, 3, 3, 2, 4, 3, 5, 5, 4, 4, 0, 0, 1, 125, 1, 2, 3, 0,
    4, 17, 5, 18, 33, 49, 65, 6, 19, 81, 97, 7, 34, 113, 20, 50, 129, 145, 161, 8, 35, 66, 177,
    193, 21, 82, 209, 240, 36, 51, 98, 114, 130, 9, 10, 22, 23, 24, 25, 26, 37, 38, 39, 40, 41, 42,
    52, 53, 54, 55, 56, 57, 58, 67, 68, 69, 70, 71, 72, 73, 74, 83, 84, 85, 86, 87, 88, 89, 90, 99,
    100, 101, 102, 103, 104, 105, 106, 115, 116, 117, 118, 119, 120, 121, 122, 131, 132, 133, 134,
    135, 136, 137, 138, 146, 147, 148, 149, 150, 151, 152, 153, 154, 162, 163, 164, 165, 166, 167,
    168, 169, 170, 178, 179, 180, 181, 182, 183, 184, 185, 186, 194, 195, 196, 197, 198, 199, 200,
    201, 202, 210, 211, 212, 213, 214, 215, 216, 217, 218, 225, 226, 227, 228, 229, 230, 231, 232,
    233, 234, 241, 242, 243, 244, 245, 246, 247, 248, 249, 250, 255, 218, 0, 8, 1, 1, 0, 0, 63, 0,
    43, 255, 217,
];

#[test]
fn extension_names_the_format() {
    assert_eq!(ImageFormat::from_extension("png"), Some(ImageFormat::PNG));
    assert_eq!(ImageFormat::from_extension("jpg"), Some(ImageFormat::JPEG));
    assert_eq!(ImageFormat::from_extension("jpeg"), Some(ImageFormat::JPEG));
    assert_eq!(ImageFormat::from_extension("PNG"), None);
    assert_eq!(ImageFormat::from_extension("gif"), None);
    assert_eq!(ImageFormat::from_extension(""), None);
    assert_eq!(ImageFormat::from_extension("pn"), None);
    assert_eq!(ImageFormat::from_extension("pngx"), None);
    assert_eq!(ImageFormat::PNG.pixel_size(), 4);
    assert_eq!(ImageFormat::JPEG.pixel_size(), 3);
}

#[test]
fn same_text_compares_characters() {
    assert!(same_text("", ""));
    assert!(same_text("héllo", "héllo"));
    assert!(!same_text("hello", "hellO"));
    assert!(!same_text("hello", "hell"));
    assert!(!same_text("", "a"));
}

#[test]
fn png_is_decoded_to_four_bytes_per_pixel() {
    let img = image(&PNG, "png").unwrap();
    assert_eq!(img.format, ImageFormat::PNG);
    assert_eq!(img.area, Rect { x: 0, y: 0, width: 2, height: 2 });
    assert_eq!((img.width(), img.height()), (2, 2));
    assert_eq!(
        img.bitmap,
        vec![255, 0, 0, 255, 0, 255, 0, 255, 0, 0, 255, 255, 10, 20, 30, 255]
    );
}

// A 16 by 8 colour baseline JPEG of two flat blocks: the left one is
// (Y, Cb, Cr) = (100, 150, 90), the right one (200, 100, 160).
const COLOUR_JPEG: [u8; 161] = [
    255, 216, 255, 219, 0, 67, 0, 1, 1, 1, 1, 1, 1, 1, 1, 1, 1, 1, 1, 1, 1, 1, 1, 1, 1, 1, 1,
    1, 1, 1, 1, 1, 1, 1, 1, 1, 1, 1, 1, 1, 1, 1, 1, 1, 1, 1, 1, 1, 1, 1, 1, 1, 1, 1, 1, 1, 1,
    1, 1, 1, 1, 1, 1, 1, 1, 1, 1, 1, 1, 1, 1, 255, 192, 0, 17, 8, 0, 8, 0, 16, 3, 1, 17, 0, 2,
    17, 0, 3, 17, 0, 255, 196, 0, 22, 0, 1, 1, 1, 0, 0, 0, 0, 0, 0, 0, 0, 0, 0, 0, 0, 0, 8, 9,
    10, 255, 196, 0, 20, 16, 1, 0, 0, 0, 0, 0, 0, 0, 0, 0, 0, 0, 0, 0, 0, 0, 0, 255, 218, 0,
    12, 3, 1, 0, 2, 0, 3, 0, 0, 63, 0, 15, 150, 9, 158, 217, 2, 55, 180, 96, 255, 217,
];

fn near(a: u8, b: i32) -> bool {
    (a as i32 - b).abs() <= 3
}

#[test]
fn jpeg_is_decoded_to_three_bytes_per_pixel() {
    let img = image(&COLOUR_JPEG, "jpg").unwrap();
    assert_eq!(img.format, ImageFormat::JPEG);
    assert_eq!(img.area, Rect { x: 0, y: 0, width: 16, height: 8 });
    assert_eq!(img.bitmap.len(), 16 * 8 * 3);
    for (k, px) in img.bitmap.chunks(3).enumerate() {
        if k % 16 < 8 {
            assert!(near(px[0], 47) && near(px[1], 120) && near(px[2], 139));
        } else {
            assert!(near(px[0], 245) && near(px[1], 187) && near(px[2], 150));
        }
    }
    let again = image(&COLOUR_JPEG, "jpeg").unwrap();
    assert_eq!(again.bitmap, img.bitmap);
}

#[test]
fn greyscale_jpeg_does_not_fit_three_bytes_per_pixel() {
    assert_eq!(
        image(&JPEG, "jpg").err(),
        Some(ImageError::BadLayout { width: 2, height: 2, len: 4 })
    );
}

#[test]
fn decoded_jpeg_is_drawn_in_row_order() {
    let img = image(&COLOUR_JPEG, "jpg").unwrap();
    let mut fb = Framebuffer::new(20, 10);
    fb.draw_image(&img.bitmap, 2, 1, 16, 8, img.format);
    let left = Color::new(fb.get_pixel(2, 1).unwrap());
    let right = Color::new(fb.get_pixel(17, 8).unwrap());
    assert!(near(left.r(), 47) && near(left.g(), 120) && near(left.b(), 139));
    assert!(near(right.r(), 245) && near(right.g(), 187) && near(right.b(), 150));
    assert_eq!(fb.get_pixel(9, 4), fb.get_pixel(2, 1));
    assert_eq!(fb.get_pixel(10, 4), fb.get_pixel(17, 8));
    assert_eq!(fb.get_pixel(1, 1), Some(0));
    assert_eq!(fb.get_pixel(18, 8), Some(0));
    assert_eq!(fb.get_pixel(2, 9), Some(0));
}

#[test]
fn unknown_extension_is_refused_before_decoding() {
    assert_eq!(image(&PNG, "gif").err(), Some(ImageError::UnsupportedExtension));
    assert_eq!(image(&PNG, "").err(), Some(ImageError::UnsupportedExtension));
    assert_eq!(image(&[], "bmp").err(), Some(ImageError::UnsupportedExtension));
}

#[test]
fn broken_data_gives_the_decoders_report() {
    for (data, ext) in [(&PNG[..], "jpg"), (&JPEG[..], "png"), (&PNG[..40], "png"), (&[][..], "png")] {
        match image(data, ext) {
            Err(ImageError::Decode(report)) => assert!(!report.is_empty()),
            other => panic!("expected a decoder failure, got {:?}", other.map(|i| i.area)),
        }
    }
}

#[test]
fn decoded_parts_must_fit_the_format() {
    let ok = Image::from_decoded(ImageFormat::JPEG, 2, 1, vec![1, 2, 3, 4, 5, 6]).unwrap();
    assert_eq!(ok.area, Rect { x: 0, y: 0, width: 2, height: 1 });
    assert_eq!(ok.bitmap, vec![1, 2, 3, 4, 5, 6]);
    assert_eq!(ok.format, ImageFormat::JPEG);
    assert_eq!(
        Image::from_decoded(ImageFormat::PNG, 2, 1, vec![1, 2, 3, 4, 5, 6]).err(),
        Some(ImageError::BadLayout { width: 2, height: 1, len: 6 })
    );
    assert_eq!(
        Image::from_decoded(ImageFormat::JPEG, 2, 2, vec![0; 11]).err(),
        Some(ImageError::BadLayout { width: 2, height: 2, len: 11 })
    );
    assert_eq!(
        Image::from_decoded(ImageFormat::JPEG, usize::MAX, 0, vec![]).err(),
        Some(ImageError::BadLayout { width: usize::MAX, height: 0, len: 0 })
    );
    assert!(Image::from_decoded(ImageFormat::PNG, 0, 0, vec![]).is_ok());
    assert!(Image::from_decoded(ImageFormat::PNG, 0, 7, vec![]).is_ok());
}

#[test]
fn missing_parts_are_incomplete() {
    assert_eq!(
        image_from_parts(ImageFormat::PNG, None, Some((1, 1))).err(),
        Some(ImageError::Incomplete)
    );
    assert_eq!(
        image_from_parts(ImageFormat::PNG, Some(vec![0; 4]), None).err(),
        Some(ImageError::Incomplete)
    );
    assert_eq!(image_from_parts(ImageFormat::PNG, None, None).err(), Some(ImageError::Incomplete));
    assert_eq!(
        image_from_parts(ImageFormat::PNG, Some(vec![0; 4]), Some((1, 1))).unwrap().bitmap,
        vec![0; 4]
    );
    assert_eq!(
        image_from_parts(ImageFormat::JPEG, Some(vec![0; 4]), Some((1, 1))).err(),
        Some(ImageError::BadLayout { width: 1, height: 1, len: 4 })
    );
}

#[test]
fn draw_image_places_rows_of_pixels() {
    let img = image(&PNG, "png").unwrap();
    let mut fb = Framebuffer::new(5, 5);
    fb.fill(Color::new(0x777777));
    fb.draw_image(&img.bitmap, 1, 2, 2, 2, ImageFormat::PNG);
    assert_eq!(fb.get_pixel(1, 2), Some(0xFF0000));
    assert_eq!(fb.get_pixel(2, 2), Some(0x00FF00));
    assert_eq!(fb.get_pixel(1, 3), Some(0x0000FF));
    assert_eq!(fb.get_pixel(2, 3), Some(0x0A141E));
    for (x, y) in [(0, 2), (3, 2), (1, 1), (1, 4), (3, 3), (0, 0)] {
        assert_eq!(fb.get_pixel(x, y), Some(0x777777));
    }
}

#[test]
fn draw_image_is_clipped_and_stops_at_the_end_of_the_samples() {
    let data: Vec<u8> = (1..=18).collect();
    let mut fb = Framebuffer::new(3, 3);
    fb.draw_image(&data, 2, 1, 2, 3, ImageFormat::JPEG);
    // Pixels 0, 2 and 4 fall in column 2; pixels 1, 3 and 5 are clipped.
    assert_eq!(fb.get_pixel(2, 1), Some(0x010203));
    assert_eq!(fb.get_pixel(2, 2), Some(0x070809));
    assert_eq!(fb.get_pixel(0, 2), Some(0));
    let mut short = Framebuffer::new(4, 4);
    short.draw_image(&data[..8], 0, 0, 2, 2, ImageFormat::JPEG);
    assert_eq!(short.get_pixel(0, 0), Some(0x010203));
    assert_eq!(short.get_pixel(1, 0), Some(0x040506));
    assert_eq!(short.get_pixel(0, 1), Some(0));
    assert_eq!(short.get_pixel(1, 1), Some(0));
    let mut few = Framebuffer::new(4, 4);
    few.draw_image(&data, 0, 0, 2, 1, ImageFormat::PNG);
    assert_eq!(few.get_pixel(0, 0), Some(0x010203));
    assert_eq!(few.get_pixel(1, 0), Some(0x050607));
    assert_eq!(few.get_pixel(0, 1), Some(0));
    let mut off = Framebuffer::new(4, 4);
    off.draw_image(&data, 4, 0, usize::MAX, usize::MAX, ImageFormat::JPEG);
    off.draw_image(&[], 0, 0, 2, 2, ImageFormat::JPEG);
    assert_eq!(off.get_pixel(3, 0), Some(0));
    assert_eq!(off.get_pixel(0, 0), Some(0));
}
