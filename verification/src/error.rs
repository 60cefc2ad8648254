use vstd::prelude::*;

use crate::document::PdfError;
use crate::image_data_list::ImageValidationError;
use crate::input_source::PathError;

verus! {

/// The top-level error of a conversion run, wrapping the error of whichever
/// stage failed.
#[derive(Debug, PartialEq, Eq)]
pub enum AppError {
    /// Reading a source failed; the message carries the cause.
    Io(String),
    /// A path could not be used as a source.
    Path(PathError),
    /// A collection of blobs failed validation.
    ImageValidation(ImageValidationError),
    /// A document could not be assembled or persisted.
    Pdf(PdfError),
    /// A whole run found nothing to process under the named directory.
    NoItemsProcessed(String),
}

} // verus!
