//! The document builder: from the compressed pictures to the object graph of
//! a document with one page for each, and from the graph to bytes.
//!
//! The page tree takes the first identifier. Each picture then takes three:
//! one for the picture itself, one for the instructions that draw it, and one
//! for the page. The catalog comes last, and the trailer points to it.

use crate::error::ConvertError;
use crate::graph::{saved_bytes, GraphModel, ObjectGraph};
use crate::objects::{
    array_object, boolean_object, content_bytes, dictionary_object, encode_content,
    instructions_of, integer_object, key, name, name_object, new_dictionary, no_entries,
    object_value, reference_object, set_entry, stream_object, stream_of, values_of, Entries,
    Instruction, ObjectId, PdfValue,
};
use crate::picture::{bytes_view, EncodedPage, PageModel};
use crate::sizing::{page_units, page_units_of, PIXELS_PER_INCH};
use vstd::prelude::*;

verus! {

/// The most pages that a document can have: each takes three object numbers,
/// the page tree and the catalog take one each, writing the document out
/// takes one more, and an object number is a `u32`.
pub const MAX_PAGES: usize = 1_431_655_763;

/// The identifier of the page tree.
pub open spec fn page_tree_id() -> ObjectId {
    (1u32, 0u16)
}

/// The identifier of the picture on the page at `index`.
pub open spec fn picture_id(index: int) -> ObjectId {
    ((3 * index + 2) as u32, 0u16)
}

/// The identifier of the instructions that draw the page at `index`.
pub open spec fn content_id(index: int) -> ObjectId {
    ((3 * index + 3) as u32, 0u16)
}

/// The identifier of the page at `index`.
pub open spec fn page_id(index: int) -> ObjectId {
    ((3 * index + 4) as u32, 0u16)
}

/// The identifier of the catalog of a document of `count` pages.
pub open spec fn catalog_id(count: int) -> ObjectId {
    ((3 * count + 2) as u32, 0u16)
}

/// The dictionary of a picture of the given size: an image in RGB with
/// eight bits for each colour, compressed as JPEG, to be smoothed when it is
/// shown larger, and made at `PIXELS_PER_INCH`.
#[verifier::opaque]
pub open spec fn picture_dictionary(width: u32, height: u32) -> Entries {
    no_entries().with(key("Type"), name("XObject")).with(key("Subtype"), name("Image")).with(
        key("Width"),
        PdfValue::Integer(width as int),
    ).with(key("Height"), PdfValue::Integer(height as int)).with(
        key("ColorSpace"),
        name("DeviceRGB"),
    ).with(key("BitsPerComponent"), PdfValue::Integer(8)).with(
        key("Filter"),
        name("DCTDecode"),
    ).with(key("Interpolate"), PdfValue::Boolean(true)).with(
        key("DpiX"),
        PdfValue::Integer(PIXELS_PER_INCH as int),
    )
}

/// The picture of a page as an object: a stream of the JPEG file.
pub open spec fn picture_stream(page: PageModel) -> PdfValue {
    stream_of(picture_dictionary(page.width, page.height), page.data)
}

/// The four instructions that draw a picture over a page of `across` by `up`
/// units: keep the graphics state, stretch the unit square from the origin
/// over the page, draw the picture named `Image1`, and take the graphics
/// state back.
pub open spec fn page_instructions(across: u32, up: u32) -> Seq<Instruction> {
    seq![
        ("q"@, Seq::<PdfValue>::empty()),
        (
            "cm"@,
            seq![
                PdfValue::Integer(across as int),
                PdfValue::Integer(0),
                PdfValue::Integer(0),
                PdfValue::Integer(up as int),
                PdfValue::Integer(0),
                PdfValue::Integer(0),
            ],
        ),
        ("Do"@, seq![name("Image1")]),
        ("Q"@, Seq::<PdfValue>::empty()),
    ]
}

/// The bytes of the instructions that draw a page's picture, where they can
/// be encoded.
pub open spec fn page_content(page: PageModel) -> Option<Seq<u8>> {
    content_bytes(page_instructions(page_units_of(page.width) as u32, page_units_of(page.height) as u32))
}

/// The instructions of a page as an object: a stream of their bytes.
pub open spec fn content_stream(page: PageModel) -> PdfValue {
    stream_of(no_entries(), page_content(page).unwrap())
}

/// The boundary of a page of `across` by `up` units: from the origin to
/// that far.
pub open spec fn media_box(across: u32, up: u32) -> PdfValue {
    PdfValue::Array(
        seq![
            PdfValue::Integer(0),
            PdfValue::Integer(0),
            PdfValue::Integer(across as int),
            PdfValue::Integer(up as int),
        ],
    )
}

/// The resources of a page: its picture under the name `Image1`.
#[verifier::opaque]
pub open spec fn page_resources(picture: ObjectId) -> PdfValue {
    PdfValue::Dictionary(
        no_entries().with(
            key("XObject"),
            PdfValue::Dictionary(no_entries().with(key("Image1"), PdfValue::Reference(picture))),
        ),
    )
}

/// A page as an object: a dictionary that names the page tree as its parent,
/// its instructions, its picture as a resource, and its boundary.
#[verifier::opaque]
pub open spec fn page_dictionary(
    parent: ObjectId,
    contents: ObjectId,
    picture: ObjectId,
    across: u32,
    up: u32,
) -> PdfValue {
    PdfValue::Dictionary(
        no_entries().with(key("Type"), name("Page")).with(
            key("Parent"),
            PdfValue::Reference(parent),
        ).with(key("Contents"), PdfValue::Reference(contents)).with(
            key("Resources"),
            page_resources(picture),
        ).with(key("MediaBox"), media_box(across, up)),
    )
}

/// The page at `index` as an object.
pub open spec fn page_object(page: PageModel, index: int) -> PdfValue {
    page_dictionary(
        page_tree_id(),
        content_id(index),
        picture_id(index),
        page_units_of(page.width) as u32,
        page_units_of(page.height) as u32,
    )
}

/// References to the first `count` pages, in their order.
pub open spec fn page_references(count: int) -> Seq<PdfValue> {
    Seq::new(count as nat, |index: int| PdfValue::Reference(page_id(index)))
}

/// The page tree of a document of `count` pages: a dictionary of its kind
/// with the pages as its children, in their order, and their number.
#[verifier::opaque]
pub open spec fn page_tree(count: int) -> PdfValue {
    PdfValue::Dictionary(
        no_entries().with(key("Type"), name("Pages")).with(
            key("Kids"),
            PdfValue::Array(page_references(count)),
        ).with(key("Count"), PdfValue::Integer(count)),
    )
}

/// The catalog: a dictionary of its kind that names the page tree.
#[verifier::opaque]
pub open spec fn catalog() -> PdfValue {
    PdfValue::Dictionary(
        no_entries().with(key("Type"), name("Catalog")).with(
            key("Pages"),
            PdfValue::Reference(page_tree_id()),
        ),
    )
}

/// The object that the pages give the number `number`, which is one of the
/// three objects of one page.
pub open spec fn numbered_object(pages: Seq<PageModel>, number: int) -> PdfValue {
    let index = (number - 2) / 3;
    let part = (number - 2) % 3;
    if part == 0 {
        picture_stream(pages[index])
    } else if part == 1 {
        content_stream(pages[index])
    } else {
        page_object(pages[index], index)
    }
}

/// The objects of the first `count` pages, by identifier.
pub open spec fn page_objects(pages: Seq<PageModel>, count: int) -> Map<ObjectId, PdfValue> {
    Map::new(
        |id: ObjectId| id.1 == 0 && 2 <= id.0 <= 3 * count + 1,
        |id: ObjectId| numbered_object(pages, id.0 as int),
    )
}

/// Whether a document can be assembled from the pages: they are not too
/// many, and the instructions of each can be encoded.
pub open spec fn can_assemble(pages: Seq<PageModel>) -> bool {
    &&& pages.len() <= MAX_PAGES
    &&& forall|index: int| 0 <= index < pages.len() ==> (#[trigger] page_content(pages[index])) is Some
}

/// The object graph of the document of the given pages, which are no more
/// than `MAX_PAGES`: version 1.7, the page tree, the three objects of each
/// page, the catalog, and a trailer whose `Root` is the catalog.
pub open spec fn assembled(pages: Seq<PageModel>) -> GraphModel {
    let count = pages.len() as int;
    GraphModel {
        version: "1.7"@,
        objects: page_objects(pages, count).insert(page_tree_id(), page_tree(count)).insert(
            catalog_id(count),
            catalog(),
        ),
        trailer: no_entries().with(key("Root"), PdfValue::Reference(catalog_id(count))),
        max_id: (3 * count + 2) as u32,
        places_in_stream: true,
    }
}

/// The plain values of each of a sequence of pages.
pub open spec fn page_models(pages: Seq<EncodedPage>) -> Seq<PageModel> {
    pages.map_values(|page: EncodedPage| page@)
}

/// Whether a graph can be written out: writing takes one more object
/// number, and the number after that has to be a `u32` too.
pub open spec fn can_write(graph: GraphModel) -> bool {
    graph.max_id + 2 <= u32::MAX
}

/// What writing a graph out gives: the bytes that `lopdf` writes for the
/// graph after the compression pass, or a failure where `lopdf` reports one
/// or the graph cannot be written out.
pub open spec fn written(graph: GraphModel) -> Result<Seq<u8>, ConvertError> {
    if !can_write(graph) {
        Err(ConvertError::Serialize)
    } else {
        match saved_bytes(graph.packed()) {
            Some(bytes) => Ok(bytes),
            None => Err(ConvertError::Serialize),
        }
    }
}

/// The bytes of a result, or its error.
pub open spec fn outcome_view(result: Result<Vec<u8>, ConvertError>) -> Result<
    Seq<u8>,
    ConvertError,
> {
    match result {
        Ok(bytes) => Ok(bytes@),
        Err(error) => Err(error),
    }
}

/// Adding the three objects of the page at `index` to the objects of the
/// pages before it gives the objects of the pages up to it.
proof fn lemma_page_added(pages: Seq<PageModel>, index: int)
    requires
        0 <= index < pages.len() <= MAX_PAGES,
    ensures
        page_objects(pages, index).insert(picture_id(index), picture_stream(pages[index])).insert(
            content_id(index),
            content_stream(pages[index]),
        ).insert(page_id(index), page_object(pages[index], index)) == page_objects(
            pages,
            index + 1,
        ),
{
    let before = page_objects(pages, index);
    let after = before.insert(picture_id(index), picture_stream(pages[index])).insert(
        content_id(index),
        content_stream(pages[index]),
    ).insert(page_id(index), page_object(pages[index], index));
    assert forall|id: ObjectId| #[trigger] page_objects(pages, index + 1).contains_key(id) implies (
    after.contains_key(id) && after[id] == page_objects(pages, index + 1)[id]) by {
        if id == picture_id(index) {
        } else if id == content_id(index) {
        } else if id == page_id(index) {
        } else {
            assert(before.contains_key(id));
        }
    }
    assert(after =~= page_objects(pages, index + 1));
}

/// Makes the picture of a page as an object.
fn picture_object(page: &EncodedPage) -> (object: lopdf::Object)
    ensures
        object_value(object) == picture_stream(page@),
{
    reveal(picture_dictionary);
    let mut dictionary = new_dictionary();
    set_entry(&mut dictionary, "Type", name_object("XObject"));
    set_entry(&mut dictionary, "Subtype", name_object("Image"));
    set_entry(&mut dictionary, "Width", integer_object(page.width as i64));
    set_entry(&mut dictionary, "Height", integer_object(page.height as i64));
    set_entry(&mut dictionary, "ColorSpace", name_object("DeviceRGB"));
    set_entry(&mut dictionary, "BitsPerComponent", integer_object(8));
    set_entry(&mut dictionary, "Filter", name_object("DCTDecode"));
    set_entry(&mut dictionary, "Interpolate", boolean_object(true));
    set_entry(&mut dictionary, "DpiX", integer_object(PIXELS_PER_INCH as i64));
    stream_object(dictionary, page.data.clone())
}

/// Encodes the instructions that draw a picture over a page of `across` by
/// `up` units.
fn drawing(across: u32, up: u32) -> (bytes: Option<Vec<u8>>)
    ensures
        bytes_view(bytes) == content_bytes(page_instructions(across, up)),
{
    let matrix = vec![
        integer_object(across as i64),
        integer_object(0),
        integer_object(0),
        integer_object(up as i64),
        integer_object(0),
        integer_object(0),
    ];
    let picture = vec![name_object("Image1")];
    let operations: Vec<(&'static str, Vec<lopdf::Object>)> = vec![
        ("q", Vec::new()),
        ("cm", matrix),
        ("Do", picture),
        ("Q", Vec::new()),
    ];
    assert(instructions_of(operations@) =~~= page_instructions(across, up));
    encode_content(operations)
}

/// Makes the encoded instructions of a page into an object.
fn content_object(bytes: Vec<u8>) -> (object: lopdf::Object)
    ensures
        object_value(object) == stream_of(no_entries(), bytes@),
{
    stream_object(new_dictionary(), bytes)
}

/// Makes a page as an object.
fn page_entry(parent: ObjectId, contents: ObjectId, picture: ObjectId, across: u32, up: u32) -> (object:
    lopdf::Object)
    ensures
        object_value(object) == page_dictionary(parent, contents, picture, across, up),
{
    reveal(page_dictionary);
    reveal(page_resources);
    let mut pictures = new_dictionary();
    set_entry(&mut pictures, "Image1", reference_object(picture));
    let mut resources = new_dictionary();
    set_entry(&mut resources, "XObject", dictionary_object(pictures));
    let boundary = vec![
        integer_object(0),
        integer_object(0),
        integer_object(across as i64),
        integer_object(up as i64),
    ];
    assert(values_of(boundary@) =~= media_box(across, up)->Array_0);
    let mut page = new_dictionary();
    set_entry(&mut page, "Type", name_object("Page"));
    set_entry(&mut page, "Parent", reference_object(parent));
    set_entry(&mut page, "Contents", reference_object(contents));
    set_entry(&mut page, "Resources", dictionary_object(resources));
    set_entry(&mut page, "MediaBox", array_object(boundary));
    dictionary_object(page)
}

/// Makes the page tree of `count` pages as an object. `kids` are references
/// to the pages.
fn page_tree_object(kids: Vec<lopdf::Object>, count: usize) -> (object: lopdf::Object)
    requires
        count <= MAX_PAGES,
        values_of(kids@) == page_references(count as int),
    ensures
        object_value(object) == page_tree(count as int),
{
    reveal(page_tree);
    let mut tree = new_dictionary();
    set_entry(&mut tree, "Type", name_object("Pages"));
    set_entry(&mut tree, "Kids", array_object(kids));
    set_entry(&mut tree, "Count", integer_object(count as i64));
    dictionary_object(tree)
}

/// Makes the catalog as an object.
fn catalog_object(pages: ObjectId) -> (object: lopdf::Object)
    requires
        pages == page_tree_id(),
    ensures
        object_value(object) == catalog(),
{
    reveal(catalog);
    let mut entries = new_dictionary();
    set_entry(&mut entries, "Type", name_object("Catalog"));
    set_entry(&mut entries, "Pages", reference_object(pages));
    dictionary_object(entries)
}

/// Builds the object graph of a document with one page for each of the
/// compressed pictures, in their order.
///
/// It fails where the pages are more than `MAX_PAGES` or the drawing
/// instructions of one cannot be encoded, and only there.
pub fn assemble(pages: &Vec<EncodedPage>) -> (result: Result<ObjectGraph, ConvertError>)
    ensures
        result matches Ok(graph) ==> can_assemble(page_models(pages@)) && graph@ == assembled(
            page_models(pages@),
        ),
        result matches Err(error) ==> error == ConvertError::Assembly && !can_assemble(
            page_models(pages@),
        ),
{
    let ghost models = page_models(pages@);
    let count = pages.len();
    if count > MAX_PAGES {
        return Err(ConvertError::Assembly);
    }
    let mut graph = ObjectGraph::new("1.7");
    let tree_id = graph.reserve();
    let mut kids: Vec<lopdf::Object> = Vec::new();
    let mut index: usize = 0;
    assert(graph@.objects =~= page_objects(models, 0));
    assert(values_of(kids@) =~= page_references(0));
    while index < count
        invariant
            index <= count,
            count == pages.len(),
            count <= MAX_PAGES,
            models == page_models(pages@),
            tree_id == page_tree_id(),
            graph@.version == "1.7"@,
            graph@.trailer == no_entries(),
            graph@.max_id == 3 * index + 1,
            graph@.places_in_stream,
            graph@.objects == page_objects(models, index as int),
            values_of(kids@) == page_references(index as int),
            forall|earlier: int| 0 <= earlier < index ==> (#[trigger] page_content(models[earlier])) is Some,
        decreases count - index,
    {
        let page = &pages[index];
        assert(models[index as int] == page@);
        let across = page_units(page.width);
        let up = page_units(page.height);
        let picture = graph.add(picture_object(page));
        let contents = match drawing(across, up) {
            Some(bytes) => graph.add(content_object(bytes)),
            None => {
                assert(page_content(models[index as int]) is None);
                return Err(ConvertError::Assembly);
            },
        };
        let this_page = graph.add(page_entry(tree_id, contents, picture, across, up));
        let ghost before = kids@;
        kids.push(reference_object(this_page));
        proof {
            assert(picture == picture_id(index as int));
            assert(contents == content_id(index as int));
            assert(this_page == page_id(index as int));
            assert(values_of(kids@) =~= page_references(index + 1)) by {
                assert(values_of(kids@) =~= values_of(before).push(PdfValue::Reference(this_page)));
            }
            lemma_page_added(models, index as int);
        }
        index += 1;
    }
    graph.put(tree_id, page_tree_object(kids, count));
    let root = graph.add(catalog_object(tree_id));
    graph.put_in_trailer("Root", reference_object(root));
    proof {
        assert(root == catalog_id(count as int));
        assert(graph@.objects =~= assembled(models).objects);
        assert(graph@.trailer =~= assembled(models).trailer);
    }
    Ok(graph)
}

/// Runs the compression pass over the graph and writes it out as the bytes
/// of a PDF file.
pub fn serialize(graph: ObjectGraph) -> (result: Result<Vec<u8>, ConvertError>)
    ensures
        outcome_view(result) == written(graph@),
{
    if graph.highest() > u32::MAX - 2 {
        return Err(ConvertError::Serialize);
    }
    let mut graph = graph;
    graph.pack();
    match graph.into_bytes() {
        Some(bytes) => Ok(bytes),
        None => Err(ConvertError::Serialize),
    }
}

} // verus!
