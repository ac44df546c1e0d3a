use gdrawer::picture::{decode_picture, extension_of};

/// A small picture, encoded as PNG in memory, with its RGBA pixels.
fn png_picture() -> (Vec<u8>, Vec<u8>) {
    let pixels: Vec<u8> = vec![10, 20, 30, 255, 40, 50, 60, 128, 70, 80, 90, 0];
    let picture = image::RgbaImage::from_raw(3, 1, pixels.clone()).unwrap();
    let mut bytes: Vec<u8> = Vec::new();
    picture
        .write_to(&mut std::io::Cursor::new(&mut bytes), image::ImageFormat::Png)
        .unwrap();
    (bytes, pixels)
}

#[test]
fn extension_of_paths() {
    assert_eq!(extension_of("/pics/cat.png"), "png");
    assert_eq!(extension_of("/pics/archive.tar.gz"), "gz");
    assert_eq!(extension_of("cat.JPG"), "JPG");
    assert_eq!(extension_of("/pics.d/cat"), "");
    assert_eq!(extension_of("/pics/.png"), "");
    assert_eq!(extension_of("/pics/cat."), "");
    assert_eq!(extension_of("/pics/.."), "");
    assert_eq!(extension_of(""), "");
}

#[test]
fn decodes_a_png_to_its_pixels() {
    let (bytes, pixels) = png_picture();
    assert_eq!(decode_picture(&bytes, "/pics/a.png"), Some((3, 1, pixels.clone())));
    // the extension is read without regard to case
    assert_eq!(decode_picture(&bytes, "/pics/a.PNG"), Some((3, 1, pixels)));
}

#[test]
fn unknown_extension_is_not_decoded() {
    let (bytes, _) = png_picture();
    assert_eq!(decode_picture(&bytes, "/pics/a.txt"), None);
    assert_eq!(decode_picture(&bytes, "/pics/a"), None);
    assert_eq!(decode_picture(&bytes, "/pics.png/a"), None);
}

#[test]
fn broken_bytes_are_not_decoded() {
    assert_eq!(decode_picture(&[1, 2, 3, 4], "/pics/a.png"), None);
    let (bytes, _) = png_picture();
    // PNG bytes read as a JPEG do not decode
    assert_eq!(decode_picture(&bytes, "/pics/a.jpg"), None);
}
