//! Route classification.
//!
//! A route descriptor is a free-text string such as `"GRAN Fort Ross WC
//! Female"`. Classification evaluates a fixed set of independent patterns
//! against the whole string: five anchored course prefixes (checked in the
//! order Il Regno, Piccolo, Medio, Gran, Family), two anywhere-matches for
//! the sub-event markers, and two anchored suffixes for the gender. The
//! family category is recognized but always rejected, and a missing gender
//! marker resolves to `Male` by policy.

use vstd::prelude::*;

use crate::errors::RouteError;
use crate::text::{seq_contains, seq_ends_with, seq_starts_with, str_contains, str_ends_with,
    str_starts_with};

verus! {

/// The race category a rider is registered in. The fifth recognized
/// category, Family, is never admitted and so has no variant here.
#[derive(Clone, Copy, Debug, PartialEq, Eq, Structural)]
pub enum Course {
    IlRegno,
    Gran,
    Medio,
    Piccolo,
}

/// A rider's gender as the route descriptor states it.
#[derive(Clone, Copy, Debug, PartialEq, Eq, Structural)]
pub enum Gender {
    Male,
    Female,
}

/// The willow-creek sub-event flag: the marker `WC` occurs anywhere.
pub open spec fn spec_willow_creek(s: Seq<char>) -> bool {
    seq_contains(s, "WC"@)
}

/// The fort-Ross sub-event flag: the marker `Fort Ross` occurs anywhere.
pub open spec fn spec_fort_ross(s: Seq<char>) -> bool {
    seq_contains(s, "Fort Ross"@)
}

/// The gender a route descriptor resolves to: an anchored suffix, with
/// `Male` as the default when neither gender marker ends the string.
pub open spec fn spec_gender(s: Seq<char>) -> Gender {
    if seq_ends_with(s, "Male"@) {
        Gender::Male
    } else if seq_ends_with(s, "Female"@) {
        Gender::Female
    } else {
        Gender::Male
    }
}

/// What classifying a route descriptor yields: the first matching course
/// prefix picks the course, `FAMILY` is rejected, an unrecognized prefix
/// fails, and the flags and gender are matched independently.
pub open spec fn spec_classify(s: Seq<char>) -> Result<(Course, bool, bool, Gender), RouteError> {
    let flags_gender = (spec_willow_creek(s), spec_fort_ross(s), spec_gender(s));
    if seq_starts_with(s, "IL REGNO"@) {
        Ok((Course::IlRegno, flags_gender.0, flags_gender.1, flags_gender.2))
    } else if seq_starts_with(s, "PICCOLO"@) {
        Ok((Course::Piccolo, flags_gender.0, flags_gender.1, flags_gender.2))
    } else if seq_starts_with(s, "MEDIO"@) {
        Ok((Course::Medio, flags_gender.0, flags_gender.1, flags_gender.2))
    } else if seq_starts_with(s, "GRAN"@) {
        Ok((Course::Gran, flags_gender.0, flags_gender.1, flags_gender.2))
    } else if seq_starts_with(s, "FAMILY"@) {
        Err(RouteError::RejectedCategory)
    } else {
        Err(RouteError::UnknownCourse)
    }
}

/// Classifies a route descriptor into course, willow-creek flag, fort-Ross
/// flag and gender, or rejects it.
pub fn parse_course(text: &str) -> (res: Result<(Course, bool, bool, Gender), RouteError>)
    ensures
        res == spec_classify(text@),
{
    let wc = str_contains(text, "WC");
    let fr = str_contains(text, "Fort Ross");
    let gender = if str_ends_with(text, "Male") {
        Gender::Male
    } else if str_ends_with(text, "Female") {
        Gender::Female
    } else {
        Gender::Male
    };
    let course = if str_starts_with(text, "IL REGNO") {
        Course::IlRegno
    } else if str_starts_with(text, "PICCOLO") {
        Course::Piccolo
    } else if str_starts_with(text, "MEDIO") {
        Course::Medio
    } else if str_starts_with(text, "GRAN") {
        Course::Gran
    } else if str_starts_with(text, "FAMILY") {
        return Err(RouteError::RejectedCategory);
    } else {
        return Err(RouteError::UnknownCourse);
    };
    Ok((course, wc, fr, gender))
}

impl Course {
    /// The course's display name.
    pub fn name(&self) -> (r: &'static str)
        ensures
            *self == Course::IlRegno ==> r@ == "IlRegno"@,
            *self == Course::Gran ==> r@ == "Gran"@,
            *self == Course::Medio ==> r@ == "Medio"@,
            *self == Course::Piccolo ==> r@ == "Piccolo"@,
    {
        match self {
            Course::IlRegno => "IlRegno",
            Course::Gran => "Gran",
            Course::Medio => "Medio",
            Course::Piccolo => "Piccolo",
        }
    }
}

} // verus!
