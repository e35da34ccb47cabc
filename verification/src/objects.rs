//! PDF objects: the values that a document is made of, as `lopdf` holds them
//! and as the contracts of this crate speak of them.
//!
//! `lopdf::Object` and `lopdf::Dictionary` stay opaque. What one of them
//! holds is named by `object_value` and `dictionary_entries`, and each
//! function below says of one `lopdf` call what the value made holds.

use vstd::prelude::*;
use vstd::string::StringSliceAdditionalSpecFns;

verus! {

/// The number and the generation by which an indirect object is referred to.
pub type ObjectId = (u32, u16);

/// One drawing instruction: the operator and the operands before it.
pub type Instruction = (Seq<char>, Seq<PdfValue>);

/// A PDF object as a plain value.
pub enum PdfValue {
    Null,
    Boolean(bool),
    Integer(int),
    /// A real number, as the bits of the float that holds it.
    Real(u32),
    Name(Seq<u8>),
    /// A string: its bytes, and whether it is written in hexadecimal.
    String(Seq<u8>, bool),
    Reference(ObjectId),
    Array(Seq<PdfValue>),
    Dictionary(Entries),
    /// A stream: its dictionary, its bytes, and whether a compression pass
    /// over the document may replace the bytes by a compressed form.
    Stream { dictionary: Entries, content: Seq<u8>, compressible: bool },
}

/// Whether a key is another key than `text`.
pub open spec fn other_than(text: Seq<u8>) -> spec_fn(Seq<u8>) -> bool {
    |other: Seq<u8>| other != text
}

/// The entries of a dictionary: the value under each key, and the keys in
/// the order in which the entries are written out, which is the order in
/// which they were last set.
pub struct Entries {
    pub keys: Seq<Seq<u8>>,
    pub values: Map<Seq<u8>, PdfValue>,
}

impl Entries {
    /// The entries after `value` was set under `text`: it takes the place of
    /// what was under that key, and the key comes last.
    pub open spec fn with(self, text: Seq<u8>, value: PdfValue) -> Entries {
        Entries {
            keys: self.keys.filter(other_than(text)).push(text),
            values: self.values.insert(text, value),
        }
    }

    /// Whether the keys in their order are the keys that have a value, each
    /// once.
    pub open spec fn in_step(self) -> bool {
        &&& self.keys.no_duplicates()
        &&& forall|text: Seq<u8>|
            #![trigger self.keys.contains(text)]
            #![trigger self.values.contains_key(text)]
            self.keys.contains(text) <==> self.values.contains_key(text)
    }
}

/// Leaving one key out of a sequence of keys leaves the others in, and
/// brings no key in twice.
proof fn lemma_keys_without(keys: Seq<Seq<u8>>, text: Seq<u8>)
    ensures
        forall|other: Seq<u8>|
            #![trigger keys.filter(other_than(text)).contains(other)]
            #![trigger keys.contains(other)]
            keys.filter(other_than(text)).contains(other) <==> keys.contains(other) && other
                != text,
        keys.no_duplicates() ==> keys.filter(other_than(text)).no_duplicates(),
    decreases keys.len(),
{
    reveal(Seq::filter);
    let differs = other_than(text);
    let kept = keys.filter(differs);
    if keys.len() == 0 {
    } else {
        let earlier = keys.drop_last();
        lemma_keys_without(earlier, text);
        let kept_earlier = earlier.filter(differs);
        assert forall|other: Seq<u8>| kept.contains(other) <==> keys.contains(other) && other
            != text by {
            if keys.contains(other) {
                let at = choose|at: int| 0 <= at < keys.len() && keys[at] == other;
                if at < keys.len() - 1 {
                    assert(earlier[at] == other);
                    assert(earlier.contains(other));
                }
            }
            if earlier.contains(other) {
                let at = choose|at: int| 0 <= at < earlier.len() && earlier[at] == other;
                assert(keys[at] == other);
            }
            if kept_earlier.contains(other) {
                let at = choose|at: int| 0 <= at < kept_earlier.len() && kept_earlier[at] == other;
                if differs(keys.last()) {
                    assert(kept[at] == other);
                }
            }
            if differs(keys.last()) {
                assert(kept =~= kept_earlier.push(keys.last()));
                assert(kept[kept.len() - 1] == keys.last());
                if kept.contains(other) {
                    let at = choose|at: int| 0 <= at < kept.len() && kept[at] == other;
                    if at < kept.len() - 1 {
                        assert(kept_earlier[at] == other);
                    }
                }
            }
        }
        if keys.no_duplicates() {
            assert(earlier.no_duplicates());
            if differs(keys.last()) {
                assert(kept =~= kept_earlier.push(keys.last()));
                assert(!earlier.contains(keys.last())) by {
                    if earlier.contains(keys.last()) {
                        let at = choose|at: int| 0 <= at < earlier.len() && earlier[at] == keys.last();
                        assert(keys[at] == keys[keys.len() - 1]);
                    }
                }
                assert(!kept_earlier.contains(keys.last()));
                assert forall|first: int, second: int|
                    0 <= first < kept.len() && 0 <= second < kept.len() && first
                        != second implies kept[first] != kept[second] by {
                    if first == kept.len() - 1 {
                        assert(kept_earlier[second] == kept[second]);
                    } else if second == kept.len() - 1 {
                        assert(kept_earlier[first] == kept[first]);
                    } else {
                        assert(kept_earlier[first] == kept[first]);
                        assert(kept_earlier[second] == kept[second]);
                    }
                }
            }
        }
    }
}

/// Setting an entry keeps the keys and the values of a dictionary in step.
pub proof fn lemma_with_stays_in_step(entries: Entries, text: Seq<u8>, value: PdfValue)
    requires
        entries.in_step(),
    ensures
        entries.with(text, value).in_step(),
        entries.with(text, value).keys.last() == text,
{
    lemma_keys_without(entries.keys, text);
    let kept = entries.keys.filter(other_than(text));
    let after = entries.with(text, value);
    assert(after.keys =~= kept.push(text));
    assert forall|other: Seq<u8>| after.keys.contains(other) <==> after.values.contains_key(
        other,
    ) by {
        if after.keys.contains(other) {
            let at = choose|at: int| 0 <= at < after.keys.len() && after.keys[at] == other;
            if at < kept.len() {
                assert(kept[at] == other);
                assert(kept.contains(other));
                assert(entries.keys.contains(other));
                assert(entries.values.contains_key(other));
            }
        }
        if other == text {
            assert(after.keys[after.keys.len() - 1] == text);
        } else if entries.values.contains_key(other) {
            assert(entries.keys.contains(other));
            assert(kept.contains(other));
            let at = choose|at: int| 0 <= at < kept.len() && kept[at] == other;
            assert(after.keys[at] == other);
        }
    }
    assert forall|first: int, second: int|
        0 <= first < after.keys.len() && 0 <= second < after.keys.len() && first
            != second implies after.keys[first] != after.keys[second] by {
        if first == after.keys.len() - 1 {
            assert(kept[second] == after.keys[second]);
            assert(kept.contains(after.keys[second]));
        } else if second == after.keys.len() - 1 {
            assert(kept[first] == after.keys[first]);
            assert(kept.contains(after.keys[first]));
        } else {
            assert(kept[first] == after.keys[first]);
            assert(kept[second] == after.keys[second]);
        }
    }
}

/// `lopdf::Object`, one PDF object.
#[verifier::external_type_specification]
#[verifier::external_body]
pub struct ExObject(lopdf::Object);

/// `lopdf::Dictionary`, the entries of one dictionary.
#[verifier::external_type_specification]
#[verifier::external_body]
pub struct ExDictionary(lopdf::Dictionary);

/// What a `lopdf::Object` holds.
pub uninterp spec fn object_value(object: lopdf::Object) -> PdfValue;

/// What a `lopdf::Dictionary` holds: its entries in their order.
pub uninterp spec fn dictionary_entries(dictionary: lopdf::Dictionary) -> Entries;

/// The bytes that `lopdf::content::Content::encode` gives for a sequence of
/// drawing instructions, or nothing where it reports an error.
pub uninterp spec fn content_bytes(instructions: Seq<Instruction>) -> Option<Seq<u8>>;

/// The bytes of a key or a name that is written as text: the text in
/// UTF-8.
#[verifier::opaque]
pub open spec fn key(text: &str) -> Seq<u8> {
    text.spec_bytes()
}

/// The name object that is written as text.
pub open spec fn name(text: &str) -> PdfValue {
    PdfValue::Name(key(text))
}

/// A dictionary without entries.
pub open spec fn no_entries() -> Entries {
    Entries { keys: Seq::empty(), values: Map::empty() }
}

/// What each of a sequence of objects holds.
pub open spec fn values_of(objects: Seq<lopdf::Object>) -> Seq<PdfValue> {
    objects.map_values(|object: lopdf::Object| object_value(object))
}

/// An instruction as plain values.
pub open spec fn instruction_of(operation: (&'static str, Vec<lopdf::Object>)) -> Instruction {
    (operation.0@, values_of(operation.1@))
}

/// A sequence of instructions as plain values.
pub open spec fn instructions_of(operations: Seq<(&'static str, Vec<lopdf::Object>)>) -> Seq<
    Instruction,
> {
    operations.map_values(|operation: (&'static str, Vec<lopdf::Object>)| instruction_of(operation))
}

/// The stream that `lopdf::Stream::new` makes of a dictionary and bytes: it
/// enters the number of bytes under `Length` and lets the stream be
/// compressed.
pub open spec fn stream_of(dictionary: Entries, content: Seq<u8>) -> PdfValue {
    PdfValue::Stream {
        dictionary: dictionary.with(key("Length"), PdfValue::Integer(content.len() as int)),
        content,
        compressible: true,
    }
}

/// Calls `lopdf::Object::from` on a `bool`, which gives `Object::Boolean` of
/// it.
#[verifier::external_body]
pub(crate) fn boolean_object(value: bool) -> (object: lopdf::Object)
    ensures
        object_value(object) == PdfValue::Boolean(value),
{
    lopdf::Object::from(value)
}

/// Calls `lopdf::Object::from` on an `i64`, which gives `Object::Integer` of
/// it.
#[verifier::external_body]
pub(crate) fn integer_object(value: i64) -> (object: lopdf::Object)
    ensures
        object_value(object) == PdfValue::Integer(value as int),
{
    lopdf::Object::from(value)
}

/// Calls `lopdf::Object::from` on a `&str`, which gives `Object::Name` of
/// the string's bytes.
#[verifier::external_body]
pub(crate) fn name_object(text: &str) -> (object: lopdf::Object)
    ensures
        object_value(object) == name(text),
{
    lopdf::Object::from(text)
}

/// Calls `lopdf::Object::from` on an object identifier, which gives
/// `Object::Reference` of it.
#[verifier::external_body]
pub(crate) fn reference_object(id: ObjectId) -> (object: lopdf::Object)
    ensures
        object_value(object) == PdfValue::Reference(id),
{
    lopdf::Object::from(id)
}

/// Calls `lopdf::Object::from` on a vector of objects, which gives
/// `Object::Array` of it.
#[verifier::external_body]
pub(crate) fn array_object(items: Vec<lopdf::Object>) -> (object: lopdf::Object)
    ensures
        object_value(object) == PdfValue::Array(values_of(items@)),
{
    lopdf::Object::from(items)
}

/// Calls `lopdf::Object::from` on a dictionary, which gives
/// `Object::Dictionary` of it.
#[verifier::external_body]
pub(crate) fn dictionary_object(dictionary: lopdf::Dictionary) -> (object: lopdf::Object)
    ensures
        object_value(object) == PdfValue::Dictionary(dictionary_entries(dictionary)),
{
    lopdf::Object::from(dictionary)
}

/// Calls `lopdf::Stream::new` and `lopdf::Object::from` on the stream. `new`
/// sets the dictionary's `Length` to the number of bytes, keeps the bytes,
/// and marks the stream as one that may be compressed.
#[verifier::external_body]
pub(crate) fn stream_object(dictionary: lopdf::Dictionary, content: Vec<u8>) -> (object:
    lopdf::Object)
    ensures
        object_value(object) == stream_of(dictionary_entries(dictionary), content@),
{
    lopdf::Object::from(lopdf::Stream::new(dictionary, content))
}

/// Calls `lopdf::Dictionary::new`, which gives a dictionary without entries.
#[verifier::external_body]
pub(crate) fn new_dictionary() -> (dictionary: lopdf::Dictionary)
    ensures
        dictionary_entries(dictionary) == no_entries(),
{
    lopdf::Dictionary::new()
}

/// Calls `lopdf::Dictionary::set`, which puts the value under the key's
/// bytes, in place of what was there under that key, and has the key come
/// last in the order of the entries.
#[verifier::external_body]
pub(crate) fn set_entry(dictionary: &mut lopdf::Dictionary, text: &str, value: lopdf::Object)
    ensures
        dictionary_entries(*final(dictionary)) == dictionary_entries(*old(dictionary)).with(
            key(text),
            object_value(value),
        ),
{
    dictionary.set(text, value)
}

/// Makes a `lopdf::content::Operation` of each operator and its operands
/// with `Operation::new` and calls `lopdf::content::Content::encode` on
/// them, which writes the instructions one after another.
#[verifier::external_body]
pub(crate) fn encode_content(operations: Vec<(&'static str, Vec<lopdf::Object>)>) -> (bytes:
    Option<Vec<u8>>)
    ensures
        crate::picture::bytes_view(bytes) == content_bytes(instructions_of(operations@)),
{
    let operations: Vec<lopdf::content::Operation> = operations.into_iter().map(
        |(operator, operands)| lopdf::content::Operation::new(operator, operands),
    ).collect();
    lopdf::content::Content { operations }.encode().ok()
}

} // verus!
