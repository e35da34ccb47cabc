//! The object graph of a document: the indirect objects by identifier, the
//! trailer, and the counter from which identifiers are given out.
//!
//! The graph is a `lopdf::Document`. What it holds is named by `graph_of`,
//! and each function below says of one `lopdf` call what it does to the
//! graph.

use crate::objects::{key, name, no_entries, object_value, Entries, ObjectId, PdfValue};
use crate::picture::bytes_view;
use vstd::prelude::*;

verus! {

/// `lopdf::Document`, the objects and the trailer of one document.
#[verifier::external_type_specification]
#[verifier::external_body]
pub struct ExDocument(lopdf::Document);

/// What a `lopdf::Document` holds of that which is written out: its
/// version, its indirect objects, its trailer, the highest object number
/// that it has given out, and the form of its table of places.
pub uninterp spec fn graph_of(document: lopdf::Document) -> GraphModel;

/// The bytes that zlib compression at its best level, as `flate2` does it
/// for `lopdf::Stream::compress`, gives for the given bytes, or nothing
/// where it reports an error.
pub uninterp spec fn deflated(content: Seq<u8>) -> Option<Seq<u8>>;

/// The bytes that `lopdf::Document::save_to` writes for a document that
/// holds the given graph, or nothing where it reports an error.
pub uninterp spec fn saved_bytes(graph: GraphModel) -> Option<Seq<u8>>;

/// An object graph as plain values.
pub struct GraphModel {
    /// The version of the PDF specification that the document follows.
    pub version: Seq<char>,
    /// The indirect objects, by identifier.
    pub objects: Map<ObjectId, PdfValue>,
    /// The entries of the trailer.
    pub trailer: Entries,
    /// The highest object number given out so far.
    pub max_id: u32,
    /// Whether the places of the objects in the file are written as a
    /// cross-reference stream, and not as a table.
    pub places_in_stream: bool,
}

impl GraphModel {
    /// A graph of the given version that holds nothing, and whose places
    /// are written as a stream.
    pub open spec fn empty(version: Seq<char>) -> GraphModel {
        GraphModel {
            version,
            objects: Map::empty(),
            trailer: no_entries(),
            max_id: 0,
            places_in_stream: true,
        }
    }

    /// The identifier that is given out next.
    pub open spec fn next_id(self) -> ObjectId {
        ((self.max_id + 1) as u32, 0u16)
    }

    /// The graph after its next identifier was given out with no object
    /// under it.
    pub open spec fn with_reserved_id(self) -> GraphModel {
        GraphModel { max_id: self.next_id().0, ..self }
    }

    /// The graph after an object was added under its next identifier.
    pub open spec fn with_added(self, value: PdfValue) -> GraphModel {
        GraphModel {
            max_id: self.next_id().0,
            objects: self.objects.insert(self.next_id(), value),
            ..self
        }
    }

    /// The graph after an object was put under a given identifier.
    pub open spec fn with_object(self, id: ObjectId, value: PdfValue) -> GraphModel {
        GraphModel { objects: self.objects.insert(id, value), ..self }
    }

    /// The graph after an entry was put into its trailer.
    pub open spec fn with_trailer_entry(self, text: &str, value: PdfValue) -> GraphModel {
        GraphModel { trailer: self.trailer.with(key(text), value), ..self }
    }

    /// The graph after a compression pass that compresses bytes as
    /// `shorten` says: each object is replaced by its packed form.
    pub open spec fn packed_by(self, shorten: spec_fn(Seq<u8>) -> Option<Seq<u8>>) -> GraphModel {
        GraphModel {
            objects: self.objects.map_values(|value: PdfValue| packed_value(value, shorten)),
            ..self
        }
    }

    /// The graph after the compression pass.
    pub open spec fn packed(self) -> GraphModel {
        self.packed_by(|content: Seq<u8>| deflated(content))
    }
}

/// What the compression pass makes of an object. A stream that may be
/// compressed and names no filter yet is replaced by its compressed form,
/// with `FlateDecode` as its filter and its new length, where that form is
/// more than 19 bytes shorter. Every other object stays as it is.
pub open spec fn packed_value(value: PdfValue, shorten: spec_fn(Seq<u8>) -> Option<Seq<u8>>) -> PdfValue {
    match value {
        PdfValue::Stream { dictionary, content, compressible } => {
            if compressible && !dictionary.values.contains_key(key("Filter")) {
                match shorten(content) {
                    Some(shorter) => if shorter.len() + 19 < content.len() {
                        PdfValue::Stream {
                            dictionary: dictionary.with(key("Filter"), name("FlateDecode")).with(
                                key("Length"),
                                PdfValue::Integer(shorter.len() as int),
                            ),
                            content: shorter,
                            compressible,
                        }
                    } else {
                        value
                    },
                    None => value,
                }
            } else {
                value
            }
        },
        _ => value,
    }
}

/// Calls `lopdf::Document::with_version`, which gives a document of that
/// version without objects, with an empty trailer, with no identifier given
/// out, and with a cross-reference stream as the form of its table of
/// places.
#[verifier::external_body]
fn new_document(version: &str) -> (document: lopdf::Document)
    ensures
        graph_of(document) == GraphModel::empty(version@),
{
    lopdf::Document::with_version(version)
}

/// Calls `lopdf::Document::new_object_id`, which adds one to the highest
/// number given out and returns it with generation 0. The addition
/// overflows at the highest `u32`.
#[verifier::external_body]
fn reserve_id(document: &mut lopdf::Document) -> (id: ObjectId)
    requires
        graph_of(*old(document)).max_id < u32::MAX,
    ensures
        id == graph_of(*old(document)).next_id(),
        graph_of(*final(document)) == graph_of(*old(document)).with_reserved_id(),
{
    document.new_object_id()
}

/// Calls `lopdf::Document::add_object`, which adds one to the highest number
/// given out, puts the object under that number with generation 0, and
/// returns the identifier. The addition overflows at the highest `u32`.
#[verifier::external_body]
fn add_object(document: &mut lopdf::Document, object: lopdf::Object) -> (id: ObjectId)
    requires
        graph_of(*old(document)).max_id < u32::MAX,
    ensures
        id == graph_of(*old(document)).next_id(),
        graph_of(*final(document)) == graph_of(*old(document)).with_added(object_value(object)),
{
    document.add_object(object)
}

/// Calls `lopdf::Document::set_object`, which puts the object under the
/// identifier, in place of what was there, and changes nothing else.
#[verifier::external_body]
fn set_object(document: &mut lopdf::Document, id: ObjectId, object: lopdf::Object)
    ensures
        graph_of(*final(document)) == graph_of(*old(document)).with_object(
            id,
            object_value(object),
        ),
{
    document.set_object(id, object)
}

/// Calls `lopdf::Dictionary::set` on the document's trailer, which puts the
/// value under the key's bytes.
#[verifier::external_body]
fn set_trailer_entry(document: &mut lopdf::Document, text: &str, value: lopdf::Object)
    ensures
        graph_of(*final(document)) == graph_of(*old(document)).with_trailer_entry(
            text,
            object_value(value),
        ),
{
    document.trailer.set(text, value)
}

/// Calls `lopdf::Document::compress`, which calls `lopdf::Stream::compress`
/// on each stream among the objects that may be compressed. That leaves a
/// stream with a `Filter` entry alone; another it replaces by its zlib form
/// where that is more than 19 bytes shorter, and then enters `FlateDecode`
/// as `Filter` and the new `Length`.
#[verifier::external_body]
fn compress_streams(document: &mut lopdf::Document)
    ensures
        graph_of(*final(document)) == graph_of(*old(document)).packed_by(
            |content: Seq<u8>| deflated(content),
        ),
{
    document.compress()
}

/// Calls `lopdf::Document::save_to` with a vector in memory as its target.
/// It writes the version, the objects in the order of their identifiers,
/// each dictionary in the order of its entries, the table of places with the
/// trailer, and the end of the file, and reads nothing else of the document.
/// On the way it adds one to the highest object number twice, which
/// overflows from the last but one `u32` on.
#[verifier::external_body]
fn save(document: lopdf::Document) -> (bytes: Option<Vec<u8>>)
    requires
        graph_of(document).max_id + 2 <= u32::MAX,
    ensures
        bytes_view(bytes) == saved_bytes(graph_of(document)),
{
    let mut document = document;
    let mut bytes = Vec::new();
    document.save_to(&mut bytes).ok()?;
    Some(bytes)
}

/// Reads the field `max_id` of `lopdf::Document`, the highest object number
/// given out.
#[verifier::external_body]
fn highest_number(document: &lopdf::Document) -> (number: u32)
    ensures
        number == graph_of(*document).max_id,
{
    document.max_id
}

/// The object graph of one document.
pub struct ObjectGraph {
    document: lopdf::Document,
}

impl View for ObjectGraph {
    type V = GraphModel;

    closed spec fn view(&self) -> GraphModel {
        graph_of(self.document)
    }
}

impl ObjectGraph {
    /// A graph of the given version that holds nothing.
    pub(crate) fn new(version: &str) -> (graph: ObjectGraph)
        ensures
            graph@ == GraphModel::empty(version@),
    {
        ObjectGraph { document: new_document(version) }
    }

    /// The highest object number given out so far.
    pub(crate) fn highest(&self) -> (number: u32)
        ensures
            number == self@.max_id,
    {
        highest_number(&self.document)
    }

    /// Gives out the next identifier without an object under it.
    pub(crate) fn reserve(&mut self) -> (id: ObjectId)
        requires
            old(self)@.max_id < u32::MAX,
        ensures
            id == old(self)@.next_id(),
            final(self)@ == old(self)@.with_reserved_id(),
    {
        reserve_id(&mut self.document)
    }

    /// Adds an object under the next identifier.
    pub(crate) fn add(&mut self, object: lopdf::Object) -> (id: ObjectId)
        requires
            old(self)@.max_id < u32::MAX,
        ensures
            id == old(self)@.next_id(),
            final(self)@ == old(self)@.with_added(object_value(object)),
    {
        add_object(&mut self.document, object)
    }

    /// Puts an object under an identifier.
    pub(crate) fn put(&mut self, id: ObjectId, object: lopdf::Object)
        ensures
            final(self)@ == old(self)@.with_object(id, object_value(object)),
    {
        set_object(&mut self.document, id, object)
    }

    /// Puts an entry into the trailer.
    pub(crate) fn put_in_trailer(&mut self, text: &str, value: lopdf::Object)
        ensures
            final(self)@ == old(self)@.with_trailer_entry(text, object_value(value)),
    {
        set_trailer_entry(&mut self.document, text, value)
    }

    /// Runs the compression pass over the streams of the graph.
    pub(crate) fn pack(&mut self)
        ensures
            final(self)@ == old(self)@.packed(),
    {
        compress_streams(&mut self.document)
    }

    /// Writes the graph out as the bytes of a PDF file.
    pub(crate) fn into_bytes(self) -> (bytes: Option<Vec<u8>>)
        requires
            self@.max_id + 2 <= u32::MAX,
        ensures
            bytes_view(bytes) == saved_bytes(self@),
    {
        save(self.document)
    }
}

} // verus!
