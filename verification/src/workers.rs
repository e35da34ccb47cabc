//! The two phases that run on `rayon`'s worker threads: decoding the files
//! and compressing the pictures. Each picture is worked on by itself, and
//! the outcomes come back in the order of what went in.

use crate::picture::{
    decode_file, decoded_picture, page_view, picture_view, EncodedPage, PageModel, PictureModel,
    RawImage, SourceFile,
};
use rayon::iter::{IntoParallelRefIterator, ParallelIterator};
use vstd::prelude::*;

verus! {

/// What decoding makes of each of a sequence of files.
pub open spec fn decoded_each(files: Seq<SourceFile>) -> Seq<Option<PictureModel>> {
    files.map_values(|file: SourceFile| decoded_picture(file@))
}

/// What each of a sequence of pictures that may be missing holds.
pub open spec fn picture_views(pictures: Seq<Option<RawImage>>) -> Seq<Option<PictureModel>> {
    pictures.map_values(|picture: Option<RawImage>| picture_view(picture))
}

/// The page, if any, that each of a sequence of pictures makes.
pub open spec fn pages_each(pictures: Seq<RawImage>, target_width: u32, quality: u8) -> Seq<
    Option<PageModel>,
> {
    pictures.map_values(|picture: RawImage| picture@.page_at(target_width, quality))
}

/// The plain values of each of a sequence of pages that may be missing.
pub open spec fn page_views(pages: Seq<Option<EncodedPage>>) -> Seq<Option<PageModel>> {
    pages.map_values(|page: Option<EncodedPage>| page_view(page))
}

/// Calls `rayon`'s `par_iter`, `map` and `collect` on the files, with
/// `decode_file` as what is done to each. `collect` into a vector keeps the
/// order of the items, so the outcome at each place is the one that
/// `decode_file` ensures for the file at that place.
#[verifier::external_body]
pub(crate) fn decode_each(files: &Vec<SourceFile>) -> (pictures: Vec<Option<RawImage>>)
    ensures
        picture_views(pictures@) == decoded_each(files@),
{
    files.par_iter().map(|file| decode_file(file)).collect()
}

/// Calls `rayon`'s `par_iter`, `map` and `collect` on the pictures, with
/// `RawImage::encode` as what is done to each. `collect` into a vector keeps
/// the order of the items, so the outcome at each place is the one that
/// `encode` ensures for the picture at that place.
#[verifier::external_body]
pub(crate) fn encode_each(pictures: &Vec<RawImage>, target_width: u32, quality: u8) -> (pages: Vec<
    Option<EncodedPage>,
>)
    ensures
        page_views(pages@) == pages_each(pictures@, target_width, quality),
{
    pictures.par_iter().map(|picture| picture.encode(target_width, quality)).collect()
}

} // verus!
