//! The conversion: the pictures that were read, and the document made of
//! them.

use crate::builder::{assemble, assembled, can_assemble, outcome_view, page_models, serialize, written};
use crate::error::ConvertError;
use crate::picture::{
    decoded_picture, picture_view, EncodedPage, PageModel, PictureModel, RawImage, SourceFile,
    SourceModel,
};
use crate::sizing::{target_width, target_width_of};
use crate::workers::{decode_each, decoded_each, encode_each, page_views, pages_each, picture_views};
use vstd::prelude::*;

verus! {

/// The plain values of each of a sequence of files.
pub open spec fn source_models(files: Seq<SourceFile>) -> Seq<SourceModel> {
    files.map_values(|file: SourceFile| file@)
}

/// What each of a sequence of pictures holds.
pub open spec fn picture_models(pictures: Seq<RawImage>) -> Seq<PictureModel> {
    pictures.map_values(|picture: RawImage| picture@)
}

/// The pictures that a sequence of files holds, in the order of the files.
/// A file that holds none is passed over.
pub open spec fn decoded_pictures(files: Seq<SourceModel>) -> Seq<PictureModel>
    decreases files.len(),
{
    if files.len() == 0 {
        Seq::empty()
    } else {
        match decoded_picture(files.last()) {
            Some(picture) => decoded_pictures(files.drop_last()).push(picture),
            None => decoded_pictures(files.drop_last()),
        }
    }
}

/// The widths of a sequence of pictures.
pub open spec fn widths_of(pictures: Seq<PictureModel>) -> Seq<u32> {
    pictures.map_values(|picture: PictureModel| picture.width)
}

/// The width to which a sequence of pictures is brought.
pub open spec fn common_width(pictures: Seq<PictureModel>) -> u32 {
    target_width_of(widths_of(pictures)) as u32
}

/// Whether each of the pictures makes a page at their common width.
pub open spec fn all_compress(pictures: Seq<PictureModel>, quality: u8) -> bool {
    forall|index: int|
        0 <= index < pictures.len() ==> (#[trigger] pictures[index].page_at(
            common_width(pictures),
            quality,
        )) is Some
}

/// The pages that the pictures make at their common width, in the order of
/// the pictures, where each of them makes one.
pub open spec fn compressed_pages(pictures: Seq<PictureModel>, quality: u8) -> Seq<PageModel> {
    pictures.map_values(
        |picture: PictureModel| picture.page_at(common_width(pictures), quality).unwrap(),
    )
}

/// What converting the pictures gives. Where a picture makes no page the
/// conversion fails at that. Where the document cannot be assembled of the
/// pages it fails at that. Otherwise it gives what writing out the assembled
/// document gives.
pub open spec fn conversion(pictures: Seq<PictureModel>, quality: u8) -> Result<
    Seq<u8>,
    ConvertError,
> {
    if !all_compress(pictures, quality) {
        Err(ConvertError::Encode)
    } else if !can_assemble(compressed_pages(pictures, quality)) {
        Err(ConvertError::Assembly)
    } else {
        written(assembled(compressed_pages(pictures, quality)))
    }
}

/// The pictures that are there among the outcomes of decoding, in their
/// order.
pub open spec fn present(outcomes: Seq<Option<PictureModel>>) -> Seq<PictureModel>
    decreases outcomes.len(),
{
    if outcomes.len() == 0 {
        Seq::empty()
    } else {
        match outcomes.last() {
            Some(picture) => present(outcomes.drop_last()).push(picture),
            None => present(outcomes.drop_last()),
        }
    }
}

/// The pictures that are there among the outcomes of decoding the files are
/// the pictures that the files hold.
proof fn lemma_present_are_decoded(files: Seq<SourceFile>)
    ensures
        present(decoded_each(files)) == decoded_pictures(source_models(files)),
    decreases files.len(),
{
    if files.len() > 0 {
        lemma_present_are_decoded(files.drop_last());
        assert(decoded_each(files).drop_last() =~= decoded_each(files.drop_last()));
        assert(source_models(files).drop_last() =~= source_models(files.drop_last()));
    }
}

/// A conversion from pictures to one document.
pub struct Pdf {
    imgs: Vec<RawImage>,
}

impl View for Pdf {
    type V = Seq<PictureModel>;

    /// The pictures that were read, in their order.
    closed spec fn view(&self) -> Seq<PictureModel> {
        picture_models(self.imgs@)
    }
}

impl Pdf {
    /// A conversion with no pictures yet.
    pub fn new() -> (pdf: Pdf)
        ensures
            pdf@ == Seq::<PictureModel>::empty(),
    {
        let pdf = Pdf { imgs: Vec::new() };
        assert(pdf@ =~= Seq::<PictureModel>::empty());
        pdf
    }

    /// Decodes the files and keeps the pictures of those that decode, in the
    /// order of the files, in place of the pictures held before. A file that
    /// does not decode is passed over.
    pub fn read_imgs(&mut self, files: &Vec<SourceFile>)
        ensures
            final(self)@ == decoded_pictures(source_models(files@)),
    {
        let outcomes = decode_each(files);
        let ghost all = outcomes@;
        let mut kept: Vec<RawImage> = Vec::new();
        assert(picture_views(all).take(0) =~= Seq::<Option<PictureModel>>::empty());
        assert(picture_models(kept@) =~= Seq::<PictureModel>::empty());
        for outcome in each: outcomes.into_iter()
            invariant
                each.seq() == all,
                picture_models(kept@) == present(picture_views(all).take(each.index() as int)),
        {
            let ghost before = kept@;
            let ghost at = each.index() as int;
            assert(picture_views(all).take(at + 1).drop_last() =~= picture_views(all).take(at));
            assert(picture_views(all).take(at + 1).last() == picture_view(outcome));
            match outcome {
                Some(picture) => {
                    kept.push(picture);
                    assert(picture_models(kept@) =~= picture_models(before).push(picture@));
                },
                None => {},
            }
        }
        proof {
            assert(picture_views(all).take(all.len() as int) =~= picture_views(all));
            lemma_present_are_decoded(files@);
        }
        self.imgs = kept;
    }

    /// Brings the pictures to their common width and compresses each as JPEG
    /// at `quality`. It fails where one of them cannot be scaled or
    /// compressed, and only there.
    pub fn compress(&self, quality: u8) -> (result: Result<Vec<EncodedPage>, ConvertError>)
        ensures
            result matches Ok(pages) ==> all_compress(self@, quality) && page_models(pages@)
                == compressed_pages(self@, quality),
            result matches Err(error) ==> error == ConvertError::Encode && !all_compress(
                self@,
                quality,
            ),
    {
        let mut widths: Vec<u32> = Vec::new();
        let mut index: usize = 0;
        assert(widths@ =~= widths_of(self@.take(0)));
        while index < self.imgs.len()
            invariant
                index <= self.imgs.len(),
                self@.len() == self.imgs.len(),
                widths@ == widths_of(self@.take(index as int)),
            decreases self.imgs.len() - index,
        {
            widths.push(self.imgs[index].width());
            assert(self@[index as int] == self.imgs[index as int]@);
            assert(widths@ =~= widths_of(self@.take(index + 1)));
            index += 1;
        }
        assert(self@.take(self.imgs.len() as int) =~= self@);
        let width = target_width(&widths);
        let outcomes = encode_each(&self.imgs, width, quality);
        let ghost all = outcomes@;
        assert(all.len() == self.imgs.len()) by {
            assert(page_views(all).len() == pages_each(self.imgs@, width, quality).len());
        }
        let mut pages: Vec<EncodedPage> = Vec::new();
        for outcome in each: outcomes.into_iter()
            invariant
                each.seq() == all,
                all.len() == self.imgs.len(),
                self@.len() == self.imgs.len(),
                page_views(all) == pages_each(self.imgs@, width, quality),
                width == common_width(self@),
                pages@.len() == each.index(),
                forall|earlier: int|
                    0 <= earlier < each.index() ==> self@[earlier].page_at(width, quality) == Some(
                        (#[trigger] pages@[earlier])@,
                    ),
        {
            let ghost at = each.index() as int;
            assert(page_views(all)[at] == pages_each(self.imgs@, width, quality)[at]);
            assert(self@[at] == self.imgs@[at]@);
            match outcome {
                Some(page) => {
                    pages.push(page);
                },
                None => {
                    assert(self@[at].page_at(common_width(self@), quality) is None);
                    return Err(ConvertError::Encode);
                },
            }
        }
        proof {
            assert forall|index: int| 0 <= index < self@.len() implies (#[trigger] self@[index].page_at(
                common_width(self@),
                quality,
            )) is Some by {
                assert(self@[index].page_at(width, quality) == Some(pages@[index]@));
            }
            assert(page_models(pages@) =~= compressed_pages(self@, quality)) by {
                assert forall|index: int| 0 <= index < pages@.len() implies page_models(pages@)[index]
                    == compressed_pages(self@, quality)[index] by {
                    assert(self@[index].page_at(width, quality) == Some(pages@[index]@));
                }
            }
        }
        Ok(pages)
    }

    /// Makes the document of the pictures: compresses them at `quality`,
    /// assembles the object graph with one page for each, and writes it out.
    /// The bytes are those of the PDF file.
    pub fn create(&self, quality: u8) -> (result: Result<Vec<u8>, ConvertError>)
        ensures
            outcome_view(result) == conversion(self@, quality),
    {
        let pages = match self.compress(quality) {
            Ok(pages) => pages,
            Err(error) => {
                return Err(error);
            },
        };
        let graph = match assemble(&pages) {
            Ok(graph) => graph,
            Err(error) => {
                return Err(error);
            },
        };
        serialize(graph)
    }
}

} // verus!
