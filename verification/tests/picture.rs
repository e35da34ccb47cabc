use img2pdf::picture::{decode_file, EncodedPage, RawImage, SourceFile};

fn shaded(width: u32, height: u32) -> image::RgbImage {
    image::RgbImage::from_fn(width, height, |x, y| {
        image::Rgb([(x * 7 % 256) as u8, (y * 5 % 256) as u8, ((x + y) % 256) as u8])
    })
}

fn written(picture: image::DynamicImage, format: image::ImageOutputFormat) -> Vec<u8> {
    let mut bytes = std::io::Cursor::new(Vec::new());
    picture.write_to(&mut bytes, format).unwrap();
    bytes.into_inner()
}

fn png(width: u32, height: u32) -> Vec<u8> {
    written(image::DynamicImage::ImageRgb8(shaded(width, height)), image::ImageOutputFormat::Png)
}

fn file(extension: &str, contents: Vec<u8>) -> SourceFile {
    SourceFile { extension: Some(extension.to_string()), contents: Some(contents) }
}

fn decoded(extension: &str, contents: Vec<u8>) -> RawImage {
    decode_file(&file(extension, contents)).unwrap()
}

fn jpeg_size(page: &EncodedPage) -> (u32, u32) {
    let picture =
        image::load_from_memory_with_format(&page.data, image::ImageFormat::Jpeg).unwrap();
    (picture.width(), picture.height())
}

#[test]
fn a_png_file_decodes_to_a_picture_of_its_size() {
    let picture = decoded("png", png(40, 30));
    assert_eq!(picture.width(), 40);
    assert_eq!(picture.height(), 30);
}

#[test]
fn the_extension_is_read_without_regard_to_case() {
    assert!(decode_file(&file("PNG", png(4, 3))).is_some());
    assert!(decode_file(&file("Png", png(4, 3))).is_some());
}

#[test]
fn a_jpeg_file_decodes_under_both_of_its_extensions() {
    let bytes = written(
        image::DynamicImage::ImageRgb8(shaded(16, 8)),
        image::ImageOutputFormat::Jpeg(80),
    );
    assert_eq!(decoded("jpg", bytes.clone()).width(), 16);
    assert_eq!(decoded("jpeg", bytes).height(), 8);
}

#[test]
fn a_bmp_file_decodes() {
    let bytes = written(image::DynamicImage::ImageRgb8(shaded(5, 9)), image::ImageOutputFormat::Bmp);
    let picture = decoded("bmp", bytes);
    assert_eq!((picture.width(), picture.height()), (5, 9));
}

#[test]
fn contents_that_are_no_picture_do_not_decode() {
    assert!(decode_file(&file("png", vec![1, 2, 3, 4, 5, 6, 7, 8])).is_none());
    assert!(decode_file(&file("png", vec![])).is_none());
}

#[test]
fn a_truncated_picture_does_not_decode() {
    let mut bytes = png(40, 30);
    bytes.truncate(bytes.len() / 2);
    assert!(decode_file(&file("png", bytes)).is_none());
}

#[test]
fn a_picture_under_the_extension_of_another_format_does_not_decode() {
    assert!(decode_file(&file("jpg", png(4, 3))).is_none());
    assert!(decode_file(&file("bmp", png(4, 3))).is_none());
}

#[test]
fn a_file_with_an_unknown_extension_does_not_decode() {
    assert!(decode_file(&file("txt", png(4, 3))).is_none());
    assert!(decode_file(&file("", png(4, 3))).is_none());
    assert!(decode_file(&file("png ", png(4, 3))).is_none());
}

#[test]
fn a_file_without_an_extension_does_not_decode() {
    let source = SourceFile { extension: None, contents: Some(png(4, 3)) };
    assert!(decode_file(&source).is_none());
}

#[test]
fn a_file_that_could_not_be_read_does_not_decode() {
    let source = SourceFile { extension: Some("png".to_string()), contents: None };
    assert!(decode_file(&source).is_none());
}

#[test]
fn a_source_file_takes_its_extension_from_its_path() {
    let source = SourceFile::from_path("scans/first page.png", Some(vec![1, 2, 3]));
    assert_eq!(source.extension, Some("png".to_string()));
    assert_eq!(source.contents, Some(vec![1, 2, 3]));
    assert_eq!(SourceFile::from_path("archive.tar.JPG", None).extension, Some("JPG".to_string()));
    assert_eq!(SourceFile::from_path("scans/readme", None).extension, None);
    assert_eq!(SourceFile::from_path("scans.d/readme", None).extension, None);
    assert_eq!(SourceFile::from_path(".hidden", None).extension, None);
    assert_eq!(SourceFile::from_path("", None).contents, None);
}

#[test]
fn a_source_file_from_a_path_decodes() {
    let source = SourceFile::from_path("scans/first.png", Some(png(12, 6)));
    let picture = decode_file(&source).unwrap();
    assert_eq!((picture.width(), picture.height()), (12, 6));
}

#[test]
fn a_picture_is_compressed_at_the_target_width() {
    let page = decoded("png", png(40, 30)).encode(20, 80).unwrap();
    assert_eq!((page.width, page.height), (20, 15));
    assert_eq!(&page.data[..2], &[0xff, 0xd8]);
    assert_eq!(jpeg_size(&page), (20, 15));
}

#[test]
fn a_picture_is_enlarged_to_a_wider_target() {
    let page = decoded("png", png(10, 4)).encode(25, 80).unwrap();
    assert_eq!((page.width, page.height), (25, 10));
    assert_eq!(jpeg_size(&page), (25, 10));
}

#[test]
fn a_picture_at_its_own_width_keeps_its_size() {
    let page = decoded("png", png(33, 17)).encode(33, 80).unwrap();
    assert_eq!((page.width, page.height), (33, 17));
    assert_eq!(jpeg_size(&page), (33, 17));
}

#[test]
fn the_height_of_a_page_is_rounded_to_the_nearest_pixel() {
    assert_eq!(decoded("png", png(3, 1)).encode(1, 80).unwrap().height, 0);
    assert_eq!(decoded("png", png(3, 2)).encode(1, 80).unwrap().height, 1);
    assert_eq!(decoded("png", png(2, 1)).encode(1, 80).unwrap().height, 1);
    assert_eq!(decoded("png", png(7, 5)).encode(10, 80).unwrap().height, 7);
}

#[test]
fn scaling_takes_the_nearest_pixel() {
    let mut picture = image::RgbImage::new(16, 16);
    for (x, _, pixel) in picture.enumerate_pixels_mut() {
        *pixel = if x < 8 { image::Rgb([255, 255, 255]) } else { image::Rgb([0, 0, 0]) };
    }
    let bytes = written(image::DynamicImage::ImageRgb8(picture), image::ImageOutputFormat::Png);
    let page = decoded("png", bytes).encode(32, 100).unwrap();
    let scaled = image::load_from_memory_with_format(&page.data, image::ImageFormat::Jpeg)
        .unwrap()
        .to_rgb8();
    assert_eq!(scaled.dimensions(), (32, 32));
    assert!(scaled.get_pixel(2, 16).0[0] > 200);
    assert!(scaled.get_pixel(29, 16).0[0] < 50);
}

#[test]
fn a_higher_quality_makes_a_longer_file() {
    let picture = decoded("png", png(64, 64));
    let coarse = picture.encode(64, 10).unwrap();
    let fine = picture.encode(64, 95).unwrap();
    assert!(coarse.data.len() < fine.data.len());
}

#[test]
fn a_quality_out_of_range_is_taken_as_the_nearest_in_range() {
    let picture = decoded("png", png(32, 32));
    assert_eq!(picture.encode(32, 0).unwrap().data, picture.encode(32, 1).unwrap().data);
    assert_eq!(picture.encode(32, 255).unwrap().data, picture.encode(32, 100).unwrap().data);
}

#[test]
fn transparency_is_left_out() {
    let picture = image::RgbaImage::from_pixel(8, 8, image::Rgba([10, 200, 30, 0]));
    let bytes = written(image::DynamicImage::ImageRgba8(picture), image::ImageOutputFormat::Png);
    let page = decoded("png", bytes).encode(8, 100).unwrap();
    let compressed =
        image::load_from_memory_with_format(&page.data, image::ImageFormat::Jpeg).unwrap();
    assert_eq!(compressed.color(), image::ColorType::Rgb8);
    let pixel = compressed.to_rgb8().get_pixel(4, 4).0;
    assert!(pixel[1] > 150 && pixel[0] < 60 && pixel[2] < 80);
}

#[test]
fn a_grey_picture_is_compressed_in_colour() {
    let picture = image::GrayImage::from_pixel(8, 8, image::Luma([90]));
    let bytes = written(image::DynamicImage::ImageLuma8(picture), image::ImageOutputFormat::Png);
    let page = decoded("png", bytes).encode(8, 90).unwrap();
    let compressed =
        image::load_from_memory_with_format(&page.data, image::ImageFormat::Jpeg).unwrap();
    assert_eq!(compressed.color(), image::ColorType::Rgb8);
}

#[test]
fn a_picture_of_sixteen_bits_is_compressed() {
    let picture = image::ImageBuffer::from_pixel(6, 4, image::Rgb([65535u16, 0, 0]));
    let bytes = written(image::DynamicImage::ImageRgb16(picture), image::ImageOutputFormat::Png);
    let page = decoded("png", bytes).encode(3, 90).unwrap();
    assert_eq!(jpeg_size(&page), (3, 2));
}

#[test]
fn a_picture_too_high_for_a_jpeg_file_is_not_compressed() {
    assert!(decoded("png", png(1, 65536)).encode(1, 80).is_none());
    assert!(decoded("png", png(1, 65535)).encode(1, 80).is_some());
}

#[test]
fn a_picture_too_wide_for_a_jpeg_file_is_not_compressed() {
    assert!(decoded("png", png(2, 1)).encode(65536, 80).is_none());
}

#[test]
fn a_picture_whose_height_would_be_beyond_all_pictures_is_not_compressed() {
    assert!(decoded("png", png(1, 3)).encode(u32::MAX, 80).is_none());
}

#[test]
fn a_picture_of_float_samples_is_compressed() {
    let picture = image::Rgb32FImage::from_pixel(4, 2, image::Rgb([0.5f32, 0.25, 2.0]));
    let bytes =
        written(image::DynamicImage::ImageRgb32F(picture), image::ImageOutputFormat::OpenExr);
    let page = decoded("exr", bytes).encode(4, 90).unwrap();
    assert_eq!(jpeg_size(&page), (4, 2));
}

#[test]
fn a_picture_with_a_sample_that_is_not_a_number_is_not_compressed() {
    let mut picture = image::Rgb32FImage::from_pixel(4, 2, image::Rgb([0.5f32, 0.25, 1.0]));
    picture.put_pixel(3, 1, image::Rgb([0.5f32, f32::NAN, 1.0]));
    let bytes =
        written(image::DynamicImage::ImageRgb32F(picture), image::ImageOutputFormat::OpenExr);
    let decoded = decoded("exr", bytes);
    assert_eq!((decoded.width(), decoded.height()), (4, 2));
    assert!(decoded.encode(4, 90).is_none());
    assert!(decoded.encode(2, 90).is_none());
}
