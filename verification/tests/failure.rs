use img2pdf::error::{report, ConvertError};

#[test]
fn each_failure_says_what_failed() {
    assert_eq!(ConvertError::Encode.message(), "a picture could not be scaled or compressed");
    assert_eq!(ConvertError::Assembly.message(), "the document's object graph could not be built");
    assert_eq!(ConvertError::Serialize.message(), "the document could not be written out");
}

#[test]
fn failures_of_different_kinds_are_different() {
    assert_ne!(ConvertError::Encode, ConvertError::Assembly);
    assert_ne!(ConvertError::Assembly, ConvertError::Serialize);
    assert_ne!(ConvertError::Encode, ConvertError::Serialize);
    assert_eq!(ConvertError::Encode, ConvertError::Encode.clone());
}

#[test]
fn a_conversion_that_went_well_is_reported_as_a_success() {
    assert_eq!(report(None), "Success");
}

#[test]
fn a_conversion_that_failed_is_reported_with_what_failed() {
    assert_eq!(report(Some("disk full")), "Error: disk full");
    assert_eq!(report(Some("")), "Error: ");
    assert_eq!(
        report(Some(&ConvertError::Encode.message())),
        "Error: a picture could not be scaled or compressed"
    );
}
