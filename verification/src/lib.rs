//! Turns a set of raster pictures into one paginated PDF document, one page
//! per picture.
//!
//! The pictures are brought to a common width, compressed as JPEG and placed
//! on pages sized after them. Decoding, scaling and JPEG compression are the
//! `image` crate's work and the PDF object model and its byte form are
//! `lopdf`'s; what this crate decides — which pictures take part, their common
//! width, each page's size, and the object graph of the document — is verified.
//!
//! - [`sizing`]: the common width, the height of a picture at it, and the
//!   size of a page.
//! - [`picture`]: source files, decoded pictures and compressed pages.
//! - [`workers`]: the decoding and the compressing of many pictures at once.
//! - [`objects`] and [`graph`]: PDF objects and the graph of a document.
//! - [`builder`]: the graph of a document of given pages, and its bytes.
//! - [`pdf`]: the conversion from files to a document.
//! - [`error`]: the ways to fail, and how a conversion is reported.
//! - [`laws`]: what holds of every conversion.
//!
//! No file is read or written here: a caller reads the files and writes the
//! document.

use vstd::prelude::*;

pub mod builder;
pub mod error;
pub mod graph;
pub mod laws;
pub mod objects;
pub mod pdf;
pub mod picture;
pub mod sizing;
pub mod workers;

use crate::builder::outcome_view;
use crate::error::ConvertError;
use crate::pdf::{conversion, decoded_pictures, source_models, Pdf};
use crate::picture::SourceFile;

verus! {

/// Converts the files into one PDF document with a page for each file that
/// holds a picture, in the order of the files, and returns the document's
/// bytes.
pub fn convert_implement(files: Vec<SourceFile>, quality: u8) -> (result: Result<
    Vec<u8>,
    ConvertError,
>)
    ensures
        outcome_view(result) == conversion(decoded_pictures(source_models(files@)), quality),
{
    let mut doc = Pdf::new();
    doc.read_imgs(&files);
    doc.create(quality)
}

} // verus!
