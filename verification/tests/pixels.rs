use enigma_3d::pixels::{decoded_pixels, texture_pixels, texture_rgba};

fn png_bytes(width: u32, height: u32, rgba: Vec<u8>) -> Vec<u8> {
    let img = image::RgbaImage::from_raw(width, height, rgba).unwrap();
    let mut buf = std::io::Cursor::new(Vec::new());
    image::DynamicImage::ImageRgba8(img).write_to(&mut buf, image::ImageOutputFormat::Png).unwrap();
    buf.into_inner()
}

#[test]
fn texture_from_png_bytes() {
    let pixels = vec![10, 20, 30, 255, 40, 50, 60, 128];
    let (w, h, data) = texture_rgba(&png_bytes(2, 1, pixels.clone()));
    assert_eq!((w, h), (2, 1));
    assert_eq!(data, pixels);
}

#[test]
fn texture_from_garbage_is_magenta() {
    let (w, h, data) = texture_rgba(&[1, 2, 3, 4, 5]);
    assert_eq!((w, h), (1, 1));
    assert_eq!(data, vec![255, 0, 255, 255]);
    assert_eq!(texture_pixels(None), (1, 1, vec![255, 0, 255, 255]));
    assert_eq!(texture_pixels(Some((1, 2, vec![0; 8]))), (1, 2, vec![0; 8]));
}

#[test]
fn icon_from_bytes() {
    let pixels = vec![1, 2, 3, 4, 5, 6, 7, 8, 9, 10, 11, 12, 13, 14, 15, 16];
    assert_eq!(decoded_pixels(&png_bytes(2, 2, pixels.clone())), Some((2, 2, pixels)));
    assert_eq!(decoded_pixels(&[]), None);
}
