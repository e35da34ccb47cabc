//! The ways a conversion can fail.

use vstd::prelude::*;
use vstd::string::StringExecFns;

verus! {

/// Why a conversion produced no document.
///
/// A picture that cannot be decoded is no error: it is left out.
#[derive(Debug, Clone, Copy, PartialEq, Eq, Structural)]
pub enum ConvertError {
    /// A decoded picture could not be scaled or compressed.
    Encode,
    /// The object graph could not be built.
    Assembly,
    /// The finished object graph could not be written out as bytes.
    Serialize,
}

impl ConvertError {
    /// The text of `message`.
    pub open spec fn message_text(self) -> Seq<char> {
        match self {
            ConvertError::Encode => "a picture could not be scaled or compressed"@,
            ConvertError::Assembly => "the document's object graph could not be built"@,
            ConvertError::Serialize => "the document could not be written out"@,
        }
    }

    /// A description of the failure for the person who asked for the conversion.
    pub fn message(&self) -> (text: String)
        ensures
            text@ == self.message_text(),
    {
        match self {
            ConvertError::Encode => "a picture could not be scaled or compressed".to_string(),
            ConvertError::Assembly => "the document's object graph could not be built".to_string(),
            ConvertError::Serialize => "the document could not be written out".to_string(),
        }
    }
}

/// The characters of a description that may be missing.
pub open spec fn description_view(description: Option<&str>) -> Option<Seq<char>> {
    match description {
        Some(description) => Some(description@),
        None => None,
    }
}

/// What is said of a conversion once it is over: `Success` where nothing
/// failed, and otherwise `Error: ` with the description of what failed.
pub open spec fn report_text(failure: Option<Seq<char>>) -> Seq<char> {
    match failure {
        None => "Success"@,
        Some(description) => "Error: "@ + description,
    }
}

/// The one line that tells the person who asked for a conversion how it
/// went. `failure` describes what failed, if anything did.
pub fn report(failure: Option<&str>) -> (text: String)
    ensures
        text@ == report_text(description_view(failure)),
{
    match failure {
        None => "Success".to_string(),
        Some(description) => "Error: ".to_string().concat(description),
    }
}

} // verus!
