use img2pdf::builder::{assemble, serialize};
use img2pdf::picture::EncodedPage;

fn page(data: &[u8], width: u32, height: u32) -> EncodedPage {
    EncodedPage { data: data.to_vec(), width, height }
}

fn written(pages: &Vec<EncodedPage>) -> Vec<u8> {
    serialize(assemble(pages).unwrap()).unwrap()
}

fn opened(pages: &Vec<EncodedPage>) -> lopdf::Document {
    lopdf::Document::load_mem(&written(pages)).unwrap()
}

/// The objects that the document was made of: all that the file holds but
/// the table of their places, which the writing adds as one more object.
fn objects(document: &lopdf::Document) -> Vec<(u32, &lopdf::Object)> {
    document
        .objects
        .iter()
        .filter(|(_, object)| !is_table_of_places(object))
        .map(|(id, object)| (id.0, object))
        .collect()
}

fn is_table_of_places(object: &lopdf::Object) -> bool {
    match object {
        lopdf::Object::Stream(stream) => match stream.dict.get(b"Type") {
            Ok(kind) => kind.as_name_str().unwrap() == "XRef",
            Err(_) => false,
        },
        _ => false,
    }
}

fn entry<'a>(entries: &'a lopdf::Dictionary, key: &str) -> &'a lopdf::Object {
    entries.get(key.as_bytes()).unwrap()
}

fn integers(object: &lopdf::Object) -> Vec<i64> {
    object.as_array().unwrap().iter().map(|item| item.as_i64().unwrap()).collect()
}

fn references(object: &lopdf::Object) -> Vec<lopdf::ObjectId> {
    object.as_array().unwrap().iter().map(|item| item.as_reference().unwrap()).collect()
}

#[test]
fn the_file_says_that_it_is_pdf_of_version_1_7() {
    let bytes = written(&vec![page(b"first", 300, 300)]);
    assert!(bytes.starts_with(b"%PDF-1.7\n"));
    assert!(bytes.ends_with(b"%%EOF"));
    assert_eq!(opened(&vec![]).version, "1.7");
}

#[test]
fn the_trailer_names_the_catalog_and_the_catalog_the_page_tree() {
    let document = opened(&vec![page(b"first", 300, 300), page(b"second", 600, 300)]);
    let root = entry(&document.trailer, "Root").as_reference().unwrap();
    assert_eq!(root, (8, 0));
    let catalog = document.get_dictionary(root).unwrap();
    assert_eq!(entry(catalog, "Type").as_name_str().unwrap(), "Catalog");
    assert_eq!(entry(catalog, "Pages").as_reference().unwrap(), (1, 0));
    assert_eq!(catalog.len(), 2);
}

#[test]
fn the_page_tree_lists_the_pages_in_their_order_and_counts_them() {
    let pages = vec![page(b"first", 1, 1), page(b"second", 2, 2), page(b"third", 3, 3)];
    let document = opened(&pages);
    let tree = document.get_dictionary((1, 0)).unwrap();
    assert_eq!(entry(tree, "Type").as_name_str().unwrap(), "Pages");
    assert_eq!(references(entry(tree, "Kids")), vec![(4, 0), (7, 0), (10, 0)]);
    assert_eq!(entry(tree, "Count").as_i64().unwrap(), 3);
    assert_eq!(tree.len(), 3);
    let found: Vec<lopdf::ObjectId> = document.get_pages().values().cloned().collect();
    assert_eq!(found, vec![(4, 0), (7, 0), (10, 0)]);
}

#[test]
fn a_document_holds_three_objects_for_each_page_and_two_more() {
    assert_eq!(objects(&opened(&vec![])).len(), 2);
    assert_eq!(objects(&opened(&vec![page(b"first", 1, 1)])).len(), 5);
    let seven: Vec<EncodedPage> = (0..7).map(|at| page(b"any", at, at)).collect();
    let document = opened(&seven);
    let numbers: Vec<u32> = objects(&document).iter().map(|(number, _)| *number).collect();
    assert_eq!(numbers, (1..=23).collect::<Vec<u32>>());
}

#[test]
fn a_page_names_its_parent_its_instructions_and_its_picture() {
    let document = opened(&vec![page(b"first", 300, 300), page(b"second", 600, 900)]);
    let second = document.get_dictionary((7, 0)).unwrap();
    assert_eq!(entry(second, "Type").as_name_str().unwrap(), "Page");
    assert_eq!(entry(second, "Parent").as_reference().unwrap(), (1, 0));
    assert_eq!(entry(second, "Contents").as_reference().unwrap(), (6, 0));
    let resources = entry(second, "Resources").as_dict().unwrap();
    assert_eq!(resources.len(), 1);
    let pictures = entry(resources, "XObject").as_dict().unwrap();
    assert_eq!(pictures.len(), 1);
    assert_eq!(entry(pictures, "Image1").as_reference().unwrap(), (5, 0));
    assert_eq!(integers(entry(second, "MediaBox")), vec![0, 0, 5, 7]);
    assert_eq!(second.len(), 5);
    let first = document.get_dictionary((4, 0)).unwrap();
    assert_eq!(entry(first, "Contents").as_reference().unwrap(), (3, 0));
    assert_eq!(integers(entry(first, "MediaBox")), vec![0, 0, 2, 2]);
}

#[test]
fn the_boundary_of_a_page_is_its_size_in_centimetres_cut_down() {
    let pages = vec![
        page(b"a4", 2480, 3508),
        page(b"small", 118, 119),
        page(b"none", 0, 0),
        page(b"wide", 15000, 354),
    ];
    let document = opened(&pages);
    let boundary =
        |number: u32| integers(entry(document.get_dictionary((number, 0)).unwrap(), "MediaBox"));
    assert_eq!(boundary(4), vec![0, 0, 20, 29]);
    assert_eq!(boundary(7), vec![0, 0, 0, 1]);
    assert_eq!(boundary(10), vec![0, 0, 0, 0]);
    assert_eq!(boundary(13), vec![0, 0, 127, 2]);
}

#[test]
fn where_the_size_rounds_down_the_boundary_is_the_nearest_number_of_centimetres() {
    let document = opened(&vec![page(b"first", 600, 1200), page(b"second", 119, 3000)]);
    let boundary =
        |number: u32| integers(entry(document.get_dictionary((number, 0)).unwrap(), "MediaBox"));
    assert_eq!(boundary(4), vec![0, 0, 5, 10]);
    assert_eq!(boundary(7), vec![0, 0, 1, 25]);
}

#[test]
fn the_compression_pass_leaves_a_picture_as_it_is() {
    let zeros = vec![0u8; 20000];
    let document = opened(&vec![page(&zeros, 100, 100)]);
    let picture = document.get_object((2, 0)).unwrap().as_stream().unwrap();
    assert_eq!(picture.content, zeros);
    assert_eq!(entry(&picture.dict, "Filter").as_name_str().unwrap(), "DCTDecode");
    assert_eq!(entry(&picture.dict, "Length").as_i64().unwrap(), 20000);
}

#[test]
fn the_picture_of_a_page_is_a_stream_of_the_compressed_bytes() {
    let document = opened(&vec![page(b"first", 300, 200), page(b"the second one", 640, 480)]);
    let picture = document.get_object((5, 0)).unwrap().as_stream().unwrap();
    assert_eq!(picture.content, b"the second one".to_vec());
    let entries = &picture.dict;
    assert_eq!(entry(entries, "Type").as_name_str().unwrap(), "XObject");
    assert_eq!(entry(entries, "Subtype").as_name_str().unwrap(), "Image");
    assert_eq!(entry(entries, "Width").as_i64().unwrap(), 640);
    assert_eq!(entry(entries, "Height").as_i64().unwrap(), 480);
    assert_eq!(entry(entries, "ColorSpace").as_name_str().unwrap(), "DeviceRGB");
    assert_eq!(entry(entries, "BitsPerComponent").as_i64().unwrap(), 8);
    assert_eq!(entry(entries, "Filter").as_name_str().unwrap(), "DCTDecode");
    assert_eq!(entry(entries, "Interpolate").as_bool().unwrap(), true);
    assert_eq!(entry(entries, "DpiX").as_i64().unwrap(), 300);
    assert_eq!(entry(entries, "Length").as_i64().unwrap(), 14);
    assert_eq!(entries.len(), 10);
    let first = document.get_object((2, 0)).unwrap().as_stream().unwrap();
    assert_eq!(first.content, b"first".to_vec());
    assert_eq!(entry(&first.dict, "Width").as_i64().unwrap(), 300);
}

#[test]
fn the_instructions_of_a_page_draw_its_picture_over_the_page() {
    let document = opened(&vec![page(b"first", 600, 900)]);
    let instructions = document.get_object((3, 0)).unwrap().as_stream().unwrap();
    assert_eq!(instructions.content, b"q\n5 0 0 7 0 0 cm\n/Image1 Do\nQ".to_vec());
    assert_eq!(entry(&instructions.dict, "Length").as_i64().unwrap(), 29);
    assert_eq!(instructions.dict.len(), 1);
    let operations = lopdf::content::Content::decode(&instructions.content).unwrap().operations;
    let operators: Vec<&str> = operations.iter().map(|operation| operation.operator.as_str()).collect();
    assert_eq!(operators, vec!["q", "cm", "Do", "Q"]);
    assert_eq!(operations[0].operands.len(), 0);
    assert_eq!(integers(&lopdf::Object::Array(operations[1].operands.clone())), vec![5, 0, 0, 7, 0, 0]);
    assert_eq!(operations[2].operands[0].as_name_str().unwrap(), "Image1");
    assert_eq!(operations[3].operands.len(), 0);
}

fn keys(entries: &lopdf::Dictionary) -> Vec<String> {
    entries.iter().map(|(key, _)| String::from_utf8(key.clone()).unwrap()).collect()
}

#[test]
fn the_entries_of_a_dictionary_are_written_in_the_order_in_which_they_were_set() {
    let document = opened(&vec![page(b"first", 300, 200)]);
    let picture = document.get_object((2, 0)).unwrap().as_stream().unwrap();
    assert_eq!(
        keys(&picture.dict),
        vec![
            "Type",
            "Subtype",
            "Width",
            "Height",
            "ColorSpace",
            "BitsPerComponent",
            "Filter",
            "Interpolate",
            "DpiX",
            "Length"
        ]
    );
    let first = document.get_dictionary((4, 0)).unwrap();
    assert_eq!(keys(first), vec!["Type", "Parent", "Contents", "Resources", "MediaBox"]);
    assert_eq!(keys(document.get_dictionary((1, 0)).unwrap()), vec!["Type", "Kids", "Count"]);
    assert_eq!(keys(document.get_dictionary((5, 0)).unwrap()), vec!["Type", "Pages"]);
}

#[test]
fn a_document_without_pages_has_an_empty_page_tree() {
    let document = opened(&vec![]);
    let tree = document.get_dictionary((1, 0)).unwrap();
    assert_eq!(references(entry(tree, "Kids")), vec![]);
    assert_eq!(entry(tree, "Count").as_i64().unwrap(), 0);
    assert_eq!(entry(&document.trailer, "Root").as_reference().unwrap(), (2, 0));
    assert_eq!(document.get_pages().len(), 0);
}

#[test]
fn every_reference_in_a_document_is_to_an_object_of_it() {
    let pages: Vec<EncodedPage> = (1..6).map(|at| page(b"any", at * 100, at * 50)).collect();
    let document = opened(&pages);
    let mut found = 0;
    let mut waiting: Vec<&lopdf::Object> =
        objects(&document).iter().map(|(_, object)| *object).collect();
    waiting.push(entry(&document.trailer, "Root"));
    while let Some(object) = waiting.pop() {
        match object {
            lopdf::Object::Reference(id) => {
                assert!(document.objects.contains_key(id));
                found += 1;
            }
            lopdf::Object::Array(items) => waiting.extend(items.iter()),
            lopdf::Object::Dictionary(entries) => waiting.extend(entries.iter().map(|(_, value)| value)),
            lopdf::Object::Stream(stream) => waiting.extend(stream.dict.iter().map(|(_, value)| value)),
            _ => {}
        }
    }
    assert_eq!(found, 5 * 4 + 2);
}

#[test]
fn the_same_pages_give_the_same_bytes() {
    let pages = vec![page(b"first", 300, 300), page(b"second", 600, 300)];
    assert_eq!(written(&pages), written(&pages));
    assert_ne!(written(&pages), written(&vec![page(b"second", 600, 300), page(b"first", 300, 300)]));
}

#[test]
fn assembling_leaves_the_pages_as_they_were() {
    let pages = vec![page(b"first", 300, 200)];
    let document = opened(&pages);
    assert_eq!(document.get_pages().len(), 1);
    assert_eq!(pages[0].data, b"first".to_vec());
    assert_eq!((pages[0].width, pages[0].height), (300, 200));
}
