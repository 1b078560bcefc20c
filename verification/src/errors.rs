//! Error taxonomy for decoding rider records.
//!
//! Per-record errors are always recoverable: a record that fails to decode is
//! dropped from the catalog and never aborts the batch.

use vstd::prelude::*;

verus! {

/// Failure of the elapsed-time parser.
#[derive(Clone, Copy, Debug, PartialEq, Eq, Structural)]
pub enum DurationError {
    /// The text did not reduce to exactly three numeric components.
    MalformedDuration,
}

/// Failure of the route classifier.
#[derive(Clone, Copy, Debug, PartialEq, Eq, Structural)]
pub enum RouteError {
    /// No known course marker begins the route text.
    UnknownCourse,
    /// The route names the family category, which is recognized but never
    /// admitted as a course.
    RejectedCategory,
}

/// Failure of record extraction, naming the field that failed.
#[derive(Clone, Copy, Debug, PartialEq, Eq, Structural)]
pub enum ExtractError {
    /// The first name is absent or not text.
    MissingFirstname,
    /// The last name is absent or not text.
    MissingLastname,
    /// First and last name are both present but both empty.
    NamelessRider,
    /// The elapsed-time field is absent or not text.
    MissingElapsedtime,
    /// The elapsed-time text failed to parse.
    BadDuration(DurationError),
    /// The route field is absent or not text.
    MissingRoute,
    /// The route text failed to classify.
    BadRoute(RouteError),
    /// The bib field is absent or not a non-negative integer.
    MissingBib,
    /// The external identifier is absent or not text.
    MissingId,
}

} // verus!
