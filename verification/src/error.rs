//! The error taxonomy of the lookup pipeline: one variant or type per failure
//! kind, each carrying the structured data a caller needs for diagnostics.

use vstd::prelude::*;

verus! {

/// The final path component could not be represented as valid text.
#[derive(Debug)]
pub struct PathConversionError {}

/// A failure of the name-to-size pipeline itself: either the file name does
/// not follow the `<MODEL_NAME>-init.csv` convention, or the catalog page was
/// fetched but held no usable size. Both carry the offending name.
#[derive(Debug)]
pub enum AutoGetSizeError {
    WrongFormat(String),
    SizeNotFound(String),
}

/// An HTTP GET that completed with a non-success status. Carries the
/// requested URL, the numeric status code, and the transport's human-readable
/// reason for it, when one was available.
#[derive(Debug)]
pub struct GetError {
    pub url: String,
    pub status: u16,
    pub reason: Option<String>,
}

impl GetError {
    pub fn new(url: String, status: u16, reason: Option<String>) -> (r: Self)
        ensures
            r.url == url,
            r.status == status,
            r.reason == reason,
    {
        Self { url, status, reason }
    }
}

/// The closed sum of every failure the pipeline can report.
#[derive(Debug)]
pub enum ParseError {
    /// The input path has no final component.
    PathExtraction(String),
    /// The final path component is not valid text.
    Encoding(PathConversionError),
    /// The name did not follow the convention, or the page held no size.
    Size(AutoGetSizeError),
    /// The network transport itself failed; carries its report.
    Transport(String),
    /// The remote catalog answered with a non-success status.
    RemoteLookup(GetError),
}

} // verus!
