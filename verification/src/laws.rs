//! What holds of every conversion: statements over the functions by which
//! the contracts of this crate speak, each proved.

use crate::builder::{
    assembled, can_assemble, can_write, catalog, catalog_id, content_id, content_stream, media_box,
    page_dictionary, page_id, page_object, page_objects, page_references, page_resources,
    page_tree, page_tree_id, picture_dictionary, picture_id, picture_stream, written,
};
use crate::error::ConvertError;
use crate::graph::{deflated, packed_value, saved_bytes, GraphModel};
use crate::objects::{
    key, lemma_with_stays_in_step, name, no_entries, Entries, ObjectId, PdfValue,
};
use crate::sizing::PIXELS_PER_INCH;
use crate::pdf::{
    all_compress, common_width, compressed_pages, conversion, decoded_pictures, widths_of,
};
use crate::picture::{decoded_picture, jpeg_encoding, PageModel, PictureModel, SourceModel};
use crate::sizing::{
    lemma_target_width_is_a_width, page_units_of, scaled_height_of, target_width_of,
};
use vstd::prelude::*;
use vstd::utf8::encode_utf8_decode_utf8;

verus! {

/// The identifier that a reader finds under `Root` in the trailer.
pub open spec fn root_of(graph: GraphModel) -> ObjectId {
    graph.trailer.values[key("Root")]->Reference_0
}

/// The entries of the dictionary that a graph holds under an identifier.
pub open spec fn entries_at(graph: GraphModel, id: ObjectId) -> Entries {
    graph.objects[id]->Dictionary_0
}

/// The identifier of the page tree, which a reader finds under `Pages` in
/// the catalog.
pub open spec fn tree_of(graph: GraphModel) -> ObjectId {
    entries_at(graph, root_of(graph)).values[key("Pages")]->Reference_0
}

/// The number of pages that the page tree declares.
pub open spec fn page_count(graph: GraphModel) -> int {
    entries_at(graph, tree_of(graph)).values[key("Count")]->Integer_0
}

/// The children that the page tree lists.
pub open spec fn kids_of(graph: GraphModel) -> Seq<PdfValue> {
    entries_at(graph, tree_of(graph)).values[key("Kids")]->Array_0
}

/// Keys that are written as different texts are different keys.
pub proof fn lemma_keys_differ(first: &str, second: &str)
    requires
        first@ != second@,
    ensures
        key(first) != key(second),
{
    reveal(key);
    encode_utf8_decode_utf8(first@);
    encode_utf8_decode_utf8(second@);
}

/// A document that can be assembled has its pages where a reader looks for
/// them, as many as the pictures and in their order: the trailer names the
/// catalog, the catalog names the page tree, and the page tree counts the
/// pages and lists them. The compression pass changes nothing of that.
pub proof fn lemma_one_page_per_picture(pages: Seq<PageModel>)
    requires
        can_assemble(pages),
    ensures
        root_of(assembled(pages).packed()) == catalog_id(pages.len() as int),
        tree_of(assembled(pages).packed()) == page_tree_id(),
        page_count(assembled(pages).packed()) == pages.len(),
        kids_of(assembled(pages).packed()) == page_references(pages.len() as int),
        forall|index: int|
            0 <= index < pages.len() ==> #[trigger] assembled(pages).packed().objects[page_id(index)]
                == page_object(pages[index], index),
{
    let graph = assembled(pages);
    let packed = graph.packed();
    let count = pages.len() as int;
    reveal(catalog);
    reveal(page_tree);
    assert(graph.objects.contains_key(catalog_id(count)));
    assert(graph.objects.contains_key(page_tree_id()));
    assert(packed.objects[catalog_id(count)] == catalog());
    assert(packed.objects[page_tree_id()] == page_tree(count));
    assert(key("Kids") != key("Count")) by {
        reveal_strlit("Kids");
        reveal_strlit("Count");
        assert("Kids"@.len() != "Count"@.len());
        lemma_keys_differ("Kids", "Count");
    }
    assert forall|index: int| 0 <= index < pages.len() implies #[trigger] packed.objects[page_id(
        index,
    )] == page_object(pages[index], index) by {
        reveal(page_dictionary);
        assert(page_objects(pages, count).contains_key(page_id(index)));
        assert(graph.objects.contains_key(page_id(index)));
        assert(graph.objects[page_id(index)] == page_object(pages[index], index));
    }
}

/// The objects of a document of `count` pages are numbered from one to three
/// for each page and two more, without a gap, and each has generation 0: no
/// identifier is given out twice.
pub proof fn lemma_identifiers(pages: Seq<PageModel>, id: ObjectId)
    requires
        can_assemble(pages),
    ensures
        assembled(pages).objects.contains_key(id) <==> id.1 == 0 && 1 <= id.0 <= 3 * pages.len()
            + 2,
        assembled(pages).packed().objects.contains_key(id) <==> assembled(pages).objects.contains_key(
            id,
        ),
        assembled(pages).max_id == 3 * pages.len() + 2,
        assembled(pages).packed().max_id == assembled(pages).max_id,
        can_write(assembled(pages)),
{
}

/// Whether a value holds a reference to the object of the given identifier,
/// at any depth.
pub open spec fn refers_to(value: PdfValue, id: ObjectId) -> bool
    decreases value,
{
    match value {
        PdfValue::Reference(target) => target == id,
        PdfValue::Array(items) => exists|at: int|
            0 <= at < items.len() && refers_to(#[trigger] items[at], id),
        PdfValue::Dictionary(entries) => exists|text: Seq<u8>|
            entries.values.contains_key(text) && refers_to(#[trigger] entries.values[text], id),
        PdfValue::Stream { dictionary, .. } => exists|text: Seq<u8>|
            dictionary.values.contains_key(text) && refers_to(
                #[trigger] dictionary.values[text],
                id,
            ),
        _ => false,
    }
}

/// Whether every reference that a graph holds, in an object or in the
/// trailer, is to an object that the graph holds.
pub open spec fn references_resolve(graph: GraphModel) -> bool {
    &&& forall|holder: ObjectId, id: ObjectId|
        graph.objects.contains_key(holder) && refers_to(#[trigger] graph.objects[holder], id)
            ==> #[trigger] graph.objects.contains_key(id)
    &&& forall|text: Seq<u8>, id: ObjectId|
        graph.trailer.values.contains_key(text) && refers_to(
            #[trigger] graph.trailer.values[text],
            id,
        ) ==> #[trigger] graph.objects.contains_key(id)
}

/// The picture of a page refers to no object.
proof fn lemma_picture_refers_to_nothing(page: PageModel, id: ObjectId)
    ensures
        !refers_to(picture_stream(page), id),
        !refers_to(packed_value(picture_stream(page), |content: Seq<u8>| deflated(content)), id),
        packed_value(picture_stream(page), |content: Seq<u8>| deflated(content))
            == picture_stream(page),
{
    reveal(picture_dictionary);
    reveal_with_fuel(refers_to, 3);
    let dictionary = picture_stream(page)->dictionary;
    assert(dictionary.values.contains_key(key("Filter")));
}

/// The instructions of a page refer to no object, before the compression
/// pass and after it.
proof fn lemma_content_refers_to_nothing(page: PageModel, id: ObjectId)
    ensures
        !refers_to(content_stream(page), id),
        !refers_to(packed_value(content_stream(page), |content: Seq<u8>| deflated(content)), id),
{
    reveal_with_fuel(refers_to, 3);
}

/// A page refers to the page tree, to its instructions and to its picture,
/// and to nothing else.
proof fn lemma_page_refers_to_its_own(page: PageModel, index: int, id: ObjectId)
    requires
        refers_to(page_object(page, index), id),
    ensures
        id == page_tree_id() || id == content_id(index) || id == picture_id(index),
{
    reveal(page_dictionary);
    reveal(page_resources);
    reveal_with_fuel(refers_to, 5);
}

/// The page tree of `count` pages refers to these pages, and to nothing
/// else.
proof fn lemma_tree_refers_to_pages(count: int, id: ObjectId)
    requires
        0 <= count,
        refers_to(page_tree(count), id),
    ensures
        exists|index: int| 0 <= index < count && id == page_id(index),
{
    reveal(page_tree);
    reveal_with_fuel(refers_to, 4);
    let entries = page_tree(count)->Dictionary_0.values;
    let text = choose|text: Seq<u8>| entries.contains_key(text) && refers_to(#[trigger] entries[text], id);
    if text == key("Count") {
    } else if text == key("Kids") {
        let kids = page_references(count);
        let at = choose|at: int| 0 <= at < kids.len() && refers_to(#[trigger] kids[at], id);
        assert(id == page_id(at));
    } else {
    }
}

/// The catalog refers to the page tree, and to nothing else.
proof fn lemma_catalog_refers_to_tree(id: ObjectId)
    requires
        refers_to(catalog(), id),
    ensures
        id == page_tree_id(),
{
    reveal(catalog);
    reveal_with_fuel(refers_to, 3);
}

/// In a document that can be assembled every reference is to an object of
/// the document, before the compression pass and after it.
pub proof fn lemma_references_resolve(pages: Seq<PageModel>)
    requires
        can_assemble(pages),
    ensures
        references_resolve(assembled(pages)),
        references_resolve(assembled(pages).packed()),
{
    let graph = assembled(pages);
    let packed = graph.packed();
    let count = pages.len() as int;
    let shorten = |content: Seq<u8>| deflated(content);
    assert(graph.objects.contains_key(page_tree_id()));
    assert forall|index: int| 0 <= index < count implies graph.objects.contains_key(
        #[trigger] page_id(index),
    ) && graph.objects.contains_key(content_id(index)) && graph.objects.contains_key(picture_id(index)) by {
        assert(page_objects(pages, count).contains_key(page_id(index)));
        assert(page_objects(pages, count).contains_key(content_id(index)));
        assert(page_objects(pages, count).contains_key(picture_id(index)));
    }
    assert forall|holder: ObjectId, id: ObjectId|
        graph.objects.contains_key(holder) && (refers_to(#[trigger] graph.objects[holder], id)
            || refers_to(packed_value(graph.objects[holder], shorten), id)) implies #[trigger] graph.objects.contains_key(
        id,
    ) by {
        if holder == catalog_id(count) {
            reveal(catalog);
            lemma_catalog_refers_to_tree(id);
        } else if holder == page_tree_id() {
            reveal(page_tree);
            lemma_tree_refers_to_pages(count, id);
        } else {
            assert(page_objects(pages, count).contains_key(holder));
            let number = holder.0 as int;
            let index = (number - 2) / 3;
            let part = (number - 2) % 3;
            if part == 0 {
                lemma_picture_refers_to_nothing(pages[index], id);
            } else if part == 1 {
                lemma_content_refers_to_nothing(pages[index], id);
            } else {
                reveal(page_dictionary);
                lemma_page_refers_to_its_own(pages[index], index, id);
            }
        }
    }
    assert forall|text: Seq<u8>, id: ObjectId|
        graph.trailer.values.contains_key(text) && refers_to(
            #[trigger] graph.trailer.values[text],
            id,
        ) implies #[trigger] graph.objects.contains_key(id) by {
        reveal_with_fuel(refers_to, 2);
    }
    assert(references_resolve(graph));
    assert forall|holder: ObjectId, id: ObjectId|
        packed.objects.contains_key(holder) && refers_to(
            #[trigger] packed.objects[holder],
            id,
        ) implies #[trigger] packed.objects.contains_key(id) by {
        assert(graph.objects.contains_key(holder));
        assert(packed.objects[holder] == packed_value(graph.objects[holder], shorten));
        assert(graph.objects.contains_key(id));
    }
}

/// Whether in every dictionary that a value holds, at any depth, the keys in
/// their order are the keys that have a value, each once.
pub open spec fn entries_in_step(value: PdfValue) -> bool
    decreases value,
{
    match value {
        PdfValue::Array(items) => forall|at: int|
            0 <= at < items.len() ==> entries_in_step(#[trigger] items[at]),
        PdfValue::Dictionary(entries) => entries.in_step() && forall|text: Seq<u8>|
            entries.values.contains_key(text) ==> entries_in_step(#[trigger] entries.values[text]),
        PdfValue::Stream { dictionary, .. } => dictionary.in_step() && forall|text: Seq<u8>|
            dictionary.values.contains_key(text) ==> entries_in_step(
                #[trigger] dictionary.values[text],
            ),
        _ => true,
    }
}

/// The dictionary of a picture has its entries in step, and the compression
/// pass leaves it so.
proof fn lemma_picture_in_step(page: PageModel)
    ensures
        entries_in_step(picture_stream(page)),
        entries_in_step(packed_value(picture_stream(page), |content: Seq<u8>| deflated(content))),
{
    reveal(picture_dictionary);
    reveal_with_fuel(entries_in_step, 2);
    let e1 = no_entries().with(key("Type"), name("XObject"));
    let e2 = e1.with(key("Subtype"), name("Image"));
    let e3 = e2.with(key("Width"), PdfValue::Integer(page.width as int));
    let e4 = e3.with(key("Height"), PdfValue::Integer(page.height as int));
    let e5 = e4.with(key("ColorSpace"), name("DeviceRGB"));
    let e6 = e5.with(key("BitsPerComponent"), PdfValue::Integer(8));
    let e7 = e6.with(key("Filter"), name("DCTDecode"));
    let e8 = e7.with(key("Interpolate"), PdfValue::Boolean(true));
    let e9 = e8.with(key("DpiX"), PdfValue::Integer(PIXELS_PER_INCH as int));
    let e10 = e9.with(key("Length"), PdfValue::Integer(page.data.len() as int));
    assert(no_entries().in_step());
    lemma_with_stays_in_step(no_entries(), key("Type"), name("XObject"));
    lemma_with_stays_in_step(e1, key("Subtype"), name("Image"));
    lemma_with_stays_in_step(e2, key("Width"), PdfValue::Integer(page.width as int));
    lemma_with_stays_in_step(e3, key("Height"), PdfValue::Integer(page.height as int));
    lemma_with_stays_in_step(e4, key("ColorSpace"), name("DeviceRGB"));
    lemma_with_stays_in_step(e5, key("BitsPerComponent"), PdfValue::Integer(8));
    lemma_with_stays_in_step(e6, key("Filter"), name("DCTDecode"));
    lemma_with_stays_in_step(e7, key("Interpolate"), PdfValue::Boolean(true));
    lemma_with_stays_in_step(e8, key("DpiX"), PdfValue::Integer(PIXELS_PER_INCH as int));
    lemma_with_stays_in_step(e9, key("Length"), PdfValue::Integer(page.data.len() as int));
    assert(picture_stream(page)->dictionary == e10);
    assert(e10.values.contains_key(key("Filter")));
}

/// The dictionary of the instructions of a page has its entries in step,
/// before the compression pass and after it.
proof fn lemma_content_in_step(page: PageModel)
    ensures
        entries_in_step(content_stream(page)),
        entries_in_step(packed_value(content_stream(page), |content: Seq<u8>| deflated(content))),
{
    reveal_with_fuel(entries_in_step, 2);
    let content = content_stream(page)->content;
    let e1 = no_entries().with(key("Length"), PdfValue::Integer(content.len() as int));
    assert(no_entries().in_step());
    lemma_with_stays_in_step(no_entries(), key("Length"), PdfValue::Integer(content.len() as int));
    assert(content_stream(page)->dictionary == e1);
    match deflated(content) {
        Some(shorter) => {
            let e2 = e1.with(key("Filter"), name("FlateDecode"));
            lemma_with_stays_in_step(e1, key("Filter"), name("FlateDecode"));
            lemma_with_stays_in_step(e2, key("Length"), PdfValue::Integer(shorter.len() as int));
        },
        None => {},
    }
}

/// The dictionaries of a page have their entries in step.
proof fn lemma_page_in_step(page: PageModel, index: int)
    ensures
        entries_in_step(page_object(page, index)),
{
    reveal(page_dictionary);
    reveal(page_resources);
    reveal_with_fuel(entries_in_step, 4);
    let across = page_units_of(page.width) as u32;
    let up = page_units_of(page.height) as u32;
    let pictures = no_entries().with(key("Image1"), PdfValue::Reference(picture_id(index)));
    let resources = no_entries().with(key("XObject"), PdfValue::Dictionary(pictures));
    assert(no_entries().in_step());
    lemma_with_stays_in_step(no_entries(), key("Image1"), PdfValue::Reference(picture_id(index)));
    lemma_with_stays_in_step(no_entries(), key("XObject"), PdfValue::Dictionary(pictures));
    assert(page_resources(picture_id(index)) == PdfValue::Dictionary(resources));
    assert(entries_in_step(PdfValue::Dictionary(pictures)));
    assert(entries_in_step(page_resources(picture_id(index))));
    assert(entries_in_step(media_box(across, up)));
    let e1 = no_entries().with(key("Type"), name("Page"));
    let e2 = e1.with(key("Parent"), PdfValue::Reference(page_tree_id()));
    let e3 = e2.with(key("Contents"), PdfValue::Reference(content_id(index)));
    let e4 = e3.with(key("Resources"), page_resources(picture_id(index)));
    let e5 = e4.with(key("MediaBox"), media_box(across, up));
    lemma_with_stays_in_step(no_entries(), key("Type"), name("Page"));
    lemma_with_stays_in_step(e1, key("Parent"), PdfValue::Reference(page_tree_id()));
    lemma_with_stays_in_step(e2, key("Contents"), PdfValue::Reference(content_id(index)));
    lemma_with_stays_in_step(e3, key("Resources"), page_resources(picture_id(index)));
    lemma_with_stays_in_step(e4, key("MediaBox"), media_box(across, up));
    assert(page_object(page, index) == PdfValue::Dictionary(e5));
}

/// The page tree and the catalog have their entries in step.
proof fn lemma_tree_and_catalog_in_step(count: int)
    requires
        0 <= count,
    ensures
        entries_in_step(page_tree(count)),
        entries_in_step(catalog()),
{
    reveal(page_tree);
    reveal(catalog);
    reveal_with_fuel(entries_in_step, 3);
    let kids = PdfValue::Array(page_references(count));
    assert(entries_in_step(kids));
    let t1 = no_entries().with(key("Type"), name("Pages"));
    let t2 = t1.with(key("Kids"), kids);
    assert(no_entries().in_step());
    lemma_with_stays_in_step(no_entries(), key("Type"), name("Pages"));
    lemma_with_stays_in_step(t1, key("Kids"), kids);
    lemma_with_stays_in_step(t2, key("Count"), PdfValue::Integer(count));
    let c1 = no_entries().with(key("Type"), name("Catalog"));
    lemma_with_stays_in_step(no_entries(), key("Type"), name("Catalog"));
    lemma_with_stays_in_step(c1, key("Pages"), PdfValue::Reference(page_tree_id()));
}

/// In a document that can be assembled every dictionary, of an object or of
/// the trailer, has its keys in step with its values, before the compression
/// pass and after it: what is written out in the order of the keys is what
/// the dictionary holds.
pub proof fn lemma_dictionaries_in_step(pages: Seq<PageModel>)
    requires
        can_assemble(pages),
    ensures
        assembled(pages).trailer.in_step(),
        assembled(pages).packed().trailer == assembled(pages).trailer,
        forall|id: ObjectId|
            assembled(pages).objects.contains_key(id) ==> entries_in_step(
                #[trigger] assembled(pages).objects[id],
            ),
        forall|id: ObjectId|
            assembled(pages).packed().objects.contains_key(id) ==> entries_in_step(
                #[trigger] assembled(pages).packed().objects[id],
            ),
{
    let graph = assembled(pages);
    let packed = graph.packed();
    let count = pages.len() as int;
    let shorten = |content: Seq<u8>| deflated(content);
    assert(no_entries().in_step());
    lemma_with_stays_in_step(no_entries(), key("Root"), PdfValue::Reference(catalog_id(count)));
    lemma_tree_and_catalog_in_step(count);
    assert forall|id: ObjectId| graph.objects.contains_key(id) implies entries_in_step(
        #[trigger] graph.objects[id],
    ) && entries_in_step(packed_value(graph.objects[id], shorten)) by {
        if id == catalog_id(count) {
            reveal(catalog);
        } else if id == page_tree_id() {
            reveal(page_tree);
        } else {
            assert(page_objects(pages, count).contains_key(id));
            let number = id.0 as int;
            let index = (number - 2) / 3;
            let part = (number - 2) % 3;
            if part == 0 {
                lemma_picture_in_step(pages[index]);
            } else if part == 1 {
                lemma_content_in_step(pages[index]);
            } else {
                reveal(page_dictionary);
                lemma_page_in_step(pages[index], index);
            }
        }
    }
    assert forall|id: ObjectId| packed.objects.contains_key(id) implies entries_in_step(
        #[trigger] packed.objects[id],
    ) by {
        assert(graph.objects.contains_key(id));
        assert(packed.objects[id] == packed_value(graph.objects[id], shorten));
    }
}

/// The number of files that hold a picture.
pub open spec fn picture_count(files: Seq<SourceModel>) -> nat {
    files.filter(|file: SourceModel| decoded_picture(file) is Some).len()
}

/// The pictures read from a sequence of files are as many as the files that
/// hold one.
pub proof fn lemma_decoded_pictures_count(files: Seq<SourceModel>)
    ensures
        decoded_pictures(files).len() == picture_count(files),
    decreases files.len(),
{
    reveal(Seq::filter);
    if files.len() > 0 {
        lemma_decoded_pictures_count(files.drop_last());
    }
}

/// A file that holds no picture is passed over: the pictures read are those
/// that are read without it.
pub proof fn lemma_file_without_picture_is_passed_over(files: Seq<SourceModel>, at: int)
    requires
        0 <= at < files.len(),
        decoded_picture(files[at]) is None,
    ensures
        decoded_pictures(files) == decoded_pictures(files.remove(at)),
    decreases files.len(),
{
    if at == files.len() - 1 {
        assert(files.remove(at) =~= files.drop_last());
    } else {
        lemma_file_without_picture_is_passed_over(files.drop_last(), at);
        assert(files.remove(at).drop_last() =~= files.drop_last().remove(at));
        assert(files.remove(at).last() == files.last());
    }
}

/// A file that holds no picture changes nothing: with it among the files
/// the conversion gives what it gives without it, be that a document or a
/// failure.
pub proof fn lemma_file_without_picture_changes_nothing(
    files: Seq<SourceModel>,
    at: int,
    quality: u8,
)
    requires
        0 <= at < files.len(),
        decoded_picture(files[at]) is None,
    ensures
        conversion(decoded_pictures(files), quality) == conversion(
            decoded_pictures(files.remove(at)),
            quality,
        ),
{
    lemma_file_without_picture_is_passed_over(files, at);
}

/// The document that is written out for the pictures, where each of them
/// makes a page and the pages can be assembled: the assembled document after
/// the compression pass.
pub open spec fn document_of(pictures: Seq<PictureModel>, quality: u8) -> GraphModel {
    assembled(compressed_pages(pictures, quality)).packed()
}

/// A document that was made of a sequence of files has exactly one page for
/// each file that holds a picture: the bytes are those of a document whose
/// page tree counts that many pages and lists that many.
pub proof fn lemma_page_for_each_picture(files: Seq<SourceModel>, quality: u8, bytes: Seq<u8>)
    requires
        conversion(decoded_pictures(files), quality) == Ok::<Seq<u8>, ConvertError>(bytes),
    ensures
        saved_bytes(document_of(decoded_pictures(files), quality)) == Some(bytes),
        page_count(document_of(decoded_pictures(files), quality)) == picture_count(files),
        kids_of(document_of(decoded_pictures(files), quality)) == page_references(
            picture_count(files) as int,
        ),
{
    let pictures = decoded_pictures(files);
    let pages = compressed_pages(pictures, quality);
    lemma_decoded_pictures_count(files);
    lemma_one_page_per_picture(pages);
}

/// Where none of the files holds a picture, neither the pictures nor the
/// assembly can make the conversion fail: the conversion gives what writing
/// out the document without pages gives, and that document counts no page
/// and lists none.
pub proof fn lemma_no_picture_no_page(files: Seq<SourceModel>, quality: u8)
    requires
        picture_count(files) == 0,
    ensures
        conversion(decoded_pictures(files), quality) == written(
            assembled(Seq::<PageModel>::empty()),
        ),
        conversion(decoded_pictures(files), quality) matches Err(error) ==> error
            == ConvertError::Serialize,
        can_write(assembled(Seq::<PageModel>::empty())),
        page_count(assembled(Seq::<PageModel>::empty()).packed()) == 0,
        kids_of(assembled(Seq::<PageModel>::empty()).packed()) == Seq::<PdfValue>::empty(),
{
    let pictures = decoded_pictures(files);
    lemma_decoded_pictures_count(files);
    assert(compressed_pages(pictures, quality) =~= Seq::<PageModel>::empty());
    lemma_one_page_per_picture(Seq::<PageModel>::empty());
    assert(page_references(0) =~= Seq::<PdfValue>::empty());
}

/// One picture that cannot be scaled or compressed makes the whole
/// conversion fail, whatever the other pictures are.
pub proof fn lemma_one_failure_fails_all(pictures: Seq<PictureModel>, quality: u8, index: int)
    requires
        0 <= index < pictures.len(),
        pictures[index].page_at(common_width(pictures), quality) is None,
    ensures
        conversion(pictures, quality) == Err::<Seq<u8>, ConvertError>(ConvertError::Encode),
{
}

/// Every page of a conversion is as wide as the common width of the
/// pictures, and as high as its picture is at that width.
pub proof fn lemma_pages_share_width(pictures: Seq<PictureModel>, quality: u8, index: int)
    requires
        all_compress(pictures, quality),
        0 <= index < pictures.len(),
    ensures
        compressed_pages(pictures, quality).len() == pictures.len(),
        compressed_pages(pictures, quality)[index].width == target_width_of(widths_of(pictures)),
        compressed_pages(pictures, quality)[index].height == scaled_height_of(
            pictures[index].height,
            common_width(pictures),
            pictures[index].width,
        ),
        jpeg_encoding(
            pictures[index],
            common_width(pictures),
            compressed_pages(pictures, quality)[index].height,
            quality,
        ) == Some(compressed_pages(pictures, quality)[index].data),
{
    assert(pictures[index].page_at(common_width(pictures), quality) is Some);
    lemma_target_width_is_a_width(widths_of(pictures));
}

/// The boundary of every page is the size of its picture in page units,
/// from the origin: `[0, 0, page_units_of(width), page_units_of(height)]`.
pub proof fn lemma_media_box(pages: Seq<PageModel>, index: int)
    requires
        can_assemble(pages),
        0 <= index < pages.len(),
    ensures
        entries_at(assembled(pages).packed(), page_id(index)).values[key("MediaBox")] == media_box(
            page_units_of(pages[index].width) as u32,
            page_units_of(pages[index].height) as u32,
        ),
        media_box(
            page_units_of(pages[index].width) as u32,
            page_units_of(pages[index].height) as u32,
        ) == PdfValue::Array(
            seq![
                PdfValue::Integer(0),
                PdfValue::Integer(0),
                PdfValue::Integer(page_units_of(pages[index].width)),
                PdfValue::Integer(page_units_of(pages[index].height)),
            ],
        ),
{
    lemma_one_page_per_picture(pages);
    reveal(page_dictionary);
    assert(assembled(pages).packed().objects[page_id(index)] == page_object(pages[index], index));
}

/// `pixels * 2.54 / 300` to the nearest whole number, a half rounded up.
pub open spec fn rounded_units_of(pixels: u32) -> int {
    (2 * pixels * 254 + 30000) / 60000
}

/// Whether `pixels * 2.54 / 300` is less than a half above a whole number,
/// so that cutting it down and rounding it give the same.
pub open spec fn rounds_down(pixels: u32) -> bool {
    2 * ((pixels * 254) % 30000) < 30000
}

/// Where the sides of a picture round down, the page units of each are the
/// nearest whole number to its length in centimetres, and only there.
pub proof fn lemma_units_round(pixels: u32)
    ensures
        rounds_down(pixels) <==> page_units_of(pixels) == rounded_units_of(pixels),
{
}

/// The boundary of a page whose sides round down is
/// `[0, 0, round(width * 2.54 / 300), round(height * 2.54 / 300)]`.
pub proof fn lemma_media_box_rounded(pages: Seq<PageModel>, index: int)
    requires
        can_assemble(pages),
        0 <= index < pages.len(),
        rounds_down(pages[index].width),
        rounds_down(pages[index].height),
    ensures
        entries_at(assembled(pages).packed(), page_id(index)).values[key("MediaBox")]
            == PdfValue::Array(
            seq![
                PdfValue::Integer(0),
                PdfValue::Integer(0),
                PdfValue::Integer(rounded_units_of(pages[index].width)),
                PdfValue::Integer(rounded_units_of(pages[index].height)),
            ],
        ),
{
    lemma_media_box(pages, index);
    lemma_units_round(pages[index].width);
    lemma_units_round(pages[index].height);
}

} // verus!
