//! Pictures: the files they come from, what the `image` crate decodes from
//! them, and the compressed form in which each is put on a page.
//!
//! The `image` crate does the decoding, the scaling and the JPEG compression.
//! A decoded picture stays inside `image::DynamicImage`; what it holds is
//! named by `image_content`, and of that this module reads the size only.

use crate::sizing::{scaled_height, scaled_height_of};
use image::GenericImageView;
use vstd::prelude::*;

verus! {

/// `image::DynamicImage`, a decoded picture. Nothing of what it holds is
/// seen here but through the functions below.
#[verifier::external_type_specification]
#[verifier::external_body]
pub struct ExDynamicImage(image::DynamicImage);

/// A decoded picture as plain values.
pub struct PictureModel {
    /// The width in pixels.
    pub width: u32,
    /// The height in pixels.
    pub height: u32,
    /// The number of samples that make a pixel: from one, for grey alone,
    /// to four, for red, green, blue and transparency.
    pub channels: u8,
    /// The number of bytes that a sample takes: one or two for a whole
    /// number, four for a float.
    pub sample_bytes: u8,
    /// The samples, pixel by pixel and row by row: a whole number as it is,
    /// a float as its bits.
    pub samples: Seq<u32>,
}

/// What an `image::DynamicImage` holds.
pub uninterp spec fn image_content(picture: image::DynamicImage) -> PictureModel;

/// What `image::ImageFormat::from_extension` followed by
/// `image::load_from_memory_with_format` makes of a file's contents and the
/// extension of its name: the picture, or nothing where the extension names
/// no format that `image` knows or the contents do not decode as that format.
pub uninterp spec fn decoding(extension: Seq<char>, contents: Seq<u8>) -> Option<PictureModel>;

/// What `image::DynamicImage::eq` says of a picture and itself. It compares
/// the samples one by one, so it is true unless a sample is a float that is
/// not a number, the one value that is unequal to itself.
pub uninterp spec fn equal_to_itself(picture: PictureModel) -> bool;

/// The JPEG bytes that `image` yields for a picture which is first scaled to
/// `width` by `height` pixels with `DynamicImage::resize_exact` and the
/// nearest-neighbour filter, then turned into 8-bit RGB with
/// `DynamicImage::to_rgb8`, then written with `ImageBuffer::write_to` as
/// `ImageOutputFormat::Jpeg(quality)`; nothing where the encoder reports an
/// error.
pub uninterp spec fn jpeg_encoding(picture: PictureModel, width: u32, height: u32, quality: u8) -> Option<
    Seq<u8>,
>;

/// The longest side, in pixels, that a JPEG file can record.
pub const MAX_JPEG_SIDE: u32 = 65535;

/// Whether a buffer of `width` by `height` pixels of sixteen bytes each, the
/// largest pixel that `image` scales with, can be allocated at all.
pub open spec fn buffer_fits(width: u32, height: u32) -> bool {
    16 * width * height <= isize::MAX
}

/// What a picture that may be missing holds.
pub open spec fn content_view(picture: Option<image::DynamicImage>) -> Option<PictureModel> {
    match picture {
        Some(picture) => Some(image_content(picture)),
        None => None,
    }
}

/// Calls `std::path::Path::extension` on the path. Where a file's name
/// begins in a path, and so what its extension is, depends on the platform's
/// path syntax: nothing is stated of the result.
#[verifier::external_body]
fn extension_of(path: &str) -> (extension: Option<String>) {
    let extension = std::path::Path::new(path).extension()?;
    Some(extension.to_str()?.to_string())
}

/// Calls `image::ImageFormat::from_extension` on the extension and, where
/// that names a format, `image::load_from_memory_with_format` on the
/// contents: together what `image::open` does with a file once its name has
/// been split and its contents have been read. Both are functions of their
/// arguments alone, so the outcome is `decoding` of them.
#[verifier::external_body]
fn decode_contents(extension: &str, contents: &[u8]) -> (picture: Option<image::DynamicImage>)
    ensures
        content_view(picture) == decoding(extension@, contents@),
{
    let format = image::ImageFormat::from_extension(extension)?;
    image::load_from_memory_with_format(contents, format).ok()
}

/// Calls `image::DynamicImage::dimensions`, which returns the width and the
/// height of the buffer that the picture holds.
#[verifier::external_body]
fn dimensions_of(picture: &image::DynamicImage) -> (size: (u32, u32))
    ensures
        size.0 == image_content(*picture).width,
        size.1 == image_content(*picture).height,
{
    picture.dimensions()
}

/// Calls `image::DynamicImage::eq` on a picture and itself.
#[verifier::external_body]
fn equals_itself(picture: &image::DynamicImage) -> (same: bool)
    ensures
        same == equal_to_itself(image_content(*picture)),
{
    picture.eq(picture)
}

/// Calls `DynamicImage::resize_exact` with `FilterType::Nearest`, then
/// `DynamicImage::to_rgb8`, then `ImageBuffer::write_to` with
/// `ImageOutputFormat::Jpeg(quality)` into a vector in memory.
///
/// `resize_exact` samples the rows and then the columns of the picture into
/// buffers that it allocates; it indexes outside the picture where the
/// picture has no pixel, and it panics where a buffer's length is more than
/// a vector can have. `to_rgb8` panics on a float sample that is not a
/// number. The `requires` leaves all three out. The encoder returns an error
/// where a side is longer than 65535 pixels.
#[verifier::external_body]
fn scale_and_compress(picture: &image::DynamicImage, width: u32, height: u32, quality: u8) -> (jpeg:
    Option<Vec<u8>>)
    requires
        equal_to_itself(image_content(*picture)),
        image_content(*picture).width >= 1,
        image_content(*picture).height >= 1,
        buffer_fits(image_content(*picture).width, height),
        buffer_fits(width, height),
    ensures
        bytes_view(jpeg) == jpeg_encoding(image_content(*picture), width, height, quality),
{
    let scaled = picture.resize_exact(width, height, image::imageops::FilterType::Nearest).to_rgb8();
    let mut bytes = std::io::Cursor::new(Vec::new());
    scaled.write_to(&mut bytes, image::ImageOutputFormat::Jpeg(quality)).ok()?;
    Some(bytes.into_inner())
}

/// The bytes of a vector that may be missing.
pub open spec fn bytes_view(bytes: Option<Vec<u8>>) -> Option<Seq<u8>> {
    match bytes {
        Some(bytes) => Some(bytes@),
        None => None,
    }
}

/// The characters of a string that may be missing.
pub open spec fn text_view(text: Option<String>) -> Option<Seq<char>> {
    match text {
        Some(text) => Some(text@),
        None => None,
    }
}

/// A file that was named as a source of a picture.
pub struct SourceFile {
    /// The extension of the file's name, which says in which format the
    /// contents are to be read, or nothing where the name has none.
    pub extension: Option<String>,
    /// What the file holds, or nothing where it could not be read.
    pub contents: Option<Vec<u8>>,
}

/// A `SourceFile` as plain values.
pub struct SourceModel {
    pub extension: Option<Seq<char>>,
    pub contents: Option<Seq<u8>>,
}

impl View for SourceFile {
    type V = SourceModel;

    open spec fn view(&self) -> SourceModel {
        SourceModel { extension: text_view(self.extension), contents: bytes_view(self.contents) }
    }
}

impl SourceFile {
    /// The source file of the given path and contents. Its extension is the
    /// one that the platform finds in the path.
    pub fn from_path(path: &str, contents: Option<Vec<u8>>) -> (file: SourceFile)
        ensures
            file.contents == contents,
    {
        SourceFile { extension: extension_of(path), contents }
    }
}

/// A decoded picture.
pub struct RawImage {
    pixels: image::DynamicImage,
}

impl View for RawImage {
    type V = PictureModel;

    closed spec fn view(&self) -> PictureModel {
        image_content(self.pixels)
    }
}

/// What a picture that may be missing holds.
pub open spec fn picture_view(picture: Option<RawImage>) -> Option<PictureModel> {
    match picture {
        Some(picture) => Some(picture@),
        None => None,
    }
}

/// The picture that a file holds: none where the file could not be read or
/// its name has no extension, and none where its contents do not decode in
/// the format that the extension names.
pub open spec fn decoded_picture(file: SourceModel) -> Option<PictureModel> {
    match (file.extension, file.contents) {
        (Some(extension), Some(contents)) => decoding(extension, contents),
        _ => None,
    }
}

/// A picture compressed for one page.
#[derive(Debug)]
pub struct EncodedPage {
    /// The picture as a JPEG file.
    pub data: Vec<u8>,
    /// The picture's width in pixels.
    pub width: u32,
    /// The picture's height in pixels.
    pub height: u32,
}

/// An `EncodedPage` as plain values.
pub struct PageModel {
    pub data: Seq<u8>,
    pub width: u32,
    pub height: u32,
}

impl View for EncodedPage {
    type V = PageModel;

    open spec fn view(&self) -> PageModel {
        PageModel { data: self.data@, width: self.width, height: self.height }
    }
}

/// The plain values of a page that may be missing.
pub open spec fn page_view(page: Option<EncodedPage>) -> Option<PageModel> {
    match page {
        Some(page) => Some(page@),
        None => None,
    }
}

impl PictureModel {
    /// Whether the picture can be brought to `target_width`: it has pixels,
    /// each sample of them is a number, neither that width nor its height at
    /// that width is more than a JPEG file can record, and the buffers that
    /// the scaling goes through can be allocated.
    pub open spec fn scalable_to(self, target_width: u32) -> bool {
        let height = scaled_height_of(self.height, target_width, self.width);
        &&& equal_to_itself(self)
        &&& self.width >= 1
        &&& self.height >= 1
        &&& target_width <= MAX_JPEG_SIDE
        &&& height <= MAX_JPEG_SIDE
        &&& buffer_fits(self.width, height as u32)
        &&& buffer_fits(target_width, height as u32)
    }

    /// The page that the picture makes at `target_width`: as wide as that, as
    /// high as its proportions ask, and compressed as JPEG at `quality`.
    /// There is none where the picture cannot be brought to that width or
    /// the encoder fails.
    pub open spec fn page_at(self, target_width: u32, quality: u8) -> Option<PageModel> {
        let height = scaled_height_of(self.height, target_width, self.width) as u32;
        if !self.scalable_to(target_width) {
            None
        } else {
            match jpeg_encoding(self, target_width, height, quality) {
                Some(data) => Some(PageModel { data, width: target_width, height }),
                None => None,
            }
        }
    }
}

impl RawImage {
    /// The picture's width in pixels.
    pub fn width(&self) -> (width: u32)
        ensures
            width == self@.width,
    {
        dimensions_of(&self.pixels).0
    }

    /// The picture's height in pixels.
    pub fn height(&self) -> (height: u32)
        ensures
            height == self@.height,
    {
        dimensions_of(&self.pixels).1
    }

    /// Scales the picture to `target_width`, keeping its proportions, and
    /// compresses it as a JPEG file of the given quality.
    pub fn encode(&self, target_width: u32, quality: u8) -> (page: Option<EncodedPage>)
        ensures
            page_view(page) == self@.page_at(target_width, quality),
    {
        let (width, height) = dimensions_of(&self.pixels);
        if width == 0 || height == 0 {
            return None;
        }
        let scaled = match scaled_height(height, target_width, width) {
            Some(scaled) => scaled,
            None => {
                return None;
            },
        };
        if target_width > MAX_JPEG_SIDE || scaled > MAX_JPEG_SIDE {
            return None;
        }
        if !buffer_can_be_allocated(width, scaled) || !buffer_can_be_allocated(target_width, scaled) {
            return None;
        }
        if !equals_itself(&self.pixels) {
            return None;
        }
        match scale_and_compress(&self.pixels, target_width, scaled, quality) {
            Some(data) => Some(EncodedPage { data, width: target_width, height: scaled }),
            None => None,
        }
    }
}

/// `buffer_fits`, computed.
fn buffer_can_be_allocated(width: u32, height: u32) -> (fits: bool)
    ensures
        fits == buffer_fits(width, height),
{
    assert(16 * width * height <= 16 * 0xffff_ffff * 0xffff_ffff) by (nonlinear_arith)
        requires
            width <= 0xffff_ffff,
            height <= 0xffff_ffff,
    ;
    let bytes: u128 = 16 * (width as u128) * (height as u128);
    bytes <= isize::MAX as u128
}

/// Decodes the picture that a file holds.
pub fn decode_file(file: &SourceFile) -> (picture: Option<RawImage>)
    ensures
        picture_view(picture) == decoded_picture(file@),
{
    match (&file.extension, &file.contents) {
        (Some(extension), Some(contents)) => match decode_contents(
            extension.as_str(),
            contents.as_slice(),
        ) {
            Some(pixels) => Some(RawImage { pixels }),
            None => None,
        },
        _ => None,
    }
}

} // verus!
