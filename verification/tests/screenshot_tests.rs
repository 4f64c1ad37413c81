use polyscope_render::screenshot::{
    bgra_to_rgba, extension_of, format_for_extension, prepare_image_save, save_to_buffer,
    ImageFileFormat, ScreenshotError, ScreenshotOptions,
};

#[test]
fn test_screenshot_options_default() {
    let opts = ScreenshotOptions::default();
    assert!(!opts.transparent_background);
}

#[test]
fn bgra_swaps_blue_and_red() {
    let data = [1u8, 2, 3, 4, 10, 20, 30, 40, 7, 8];
    let out = bgra_to_rgba(&data);
    assert_eq!(out, vec![3, 2, 1, 4, 30, 20, 10, 40, 7, 8]);
    assert_eq!(bgra_to_rgba(&out), data.to_vec());
}

#[test]
fn extension_is_lowercased() {
    assert_eq!(extension_of("shot.PNG"), "png");
    assert_eq!(extension_of("dir/frame.001.JpEg"), "jpeg");
    assert_eq!(extension_of("noext"), "");
    assert_eq!(extension_of(".hidden"), "");
}

#[test]
fn formats_for_extensions() {
    assert!(matches!(format_for_extension("png"), Ok(ImageFileFormat::Png)));
    assert!(matches!(format_for_extension("jpg"), Ok(ImageFileFormat::Jpeg)));
    assert!(matches!(format_for_extension("jpeg"), Ok(ImageFileFormat::Jpeg)));
    match format_for_extension("bmp") {
        Err(ScreenshotError::UnsupportedFormat(e)) => assert_eq!(e, "bmp"),
        _ => panic!("bmp must be unsupported"),
    }
}

#[test]
fn prepare_checks_size_before_format() {
    let data = vec![0u8; 8];
    match prepare_image_save("x.bmp", &data, 2, 2) {
        Err(ScreenshotError::InvalidImageData) => {}
        _ => panic!("short data must be rejected first"),
    }
    match prepare_image_save("x.bmp", &data, 2, 1) {
        Err(ScreenshotError::UnsupportedFormat(e)) => assert_eq!(e, "bmp"),
        _ => panic!("bmp must be unsupported"),
    }
    match prepare_image_save("x.JPG", &[1, 2, 3, 4], 1, 1) {
        Ok((ImageFileFormat::Jpeg, rgba)) => assert_eq!(rgba, vec![3, 2, 1, 4]),
        _ => panic!("jpg must be accepted"),
    }
    match prepare_image_save("noext", &[1, 2, 3, 4], 1, 1) {
        Err(ScreenshotError::UnsupportedFormat(e)) => assert_eq!(e, ""),
        _ => panic!("a missing extension is unsupported"),
    }
}

#[test]
fn save_to_buffer_writes_png() {
    let data = vec![255u8, 0, 0, 255, 0, 255, 0, 255, 0, 0, 255, 255, 9, 9, 9, 9];
    let png = save_to_buffer(&data, 2, 2).expect("encoding must succeed");
    assert_eq!(&png[..8], &[0x89, b'P', b'N', b'G', 0x0D, 0x0A, 0x1A, 0x0A]);
    assert!(png.len() > 8);
}

#[test]
fn save_to_buffer_rejects_short_data() {
    match save_to_buffer(&[0u8; 15], 2, 2) {
        Err(ScreenshotError::InvalidImageData) => {}
        _ => panic!("short data must be rejected"),
    }
}
