use vstd::prelude::*;

verus! {

/// The service's error taxonomy: a malformed target url, a failed or
/// unusable remote fetch, and a failed image decode or re-encode.
#[derive(Clone, Copy, Debug, PartialEq, Eq, Structural)]
pub enum AppError {
    InvalidUrl,
    FetchFailed,
    ImageProcessingError,
}

impl AppError {
    /// The HTTP status code and human-readable message the boundary reports
    /// for each error.
    pub fn status_and_message(&self) -> (r: (u16, String))
        ensures
            *self == AppError::InvalidUrl ==> r.0 == 400 && r.1@ == "Invalid URL"@,
            *self == AppError::FetchFailed ==> r.0 == 400 && r.1@ == "Failed to fetch URL"@,
            *self == AppError::ImageProcessingError ==> r.0 == 500 && r.1@
                == "Failed to process image"@,
    {
        match self {
            AppError::InvalidUrl => (400, "Invalid URL".to_owned()),
            AppError::FetchFailed => (400, "Failed to fetch URL".to_owned()),
            AppError::ImageProcessingError => (500, "Failed to process image".to_owned()),
        }
    }
}

} // verus!
