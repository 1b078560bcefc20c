//! Rider records: the raw, loosely-typed shape a record arrives in, and the
//! fully-typed entity it is decoded into.
//!
//! A raw record models one entry of the input document: each field is
//! present with the expected primitive type, or it is not (`None` stands for
//! both an absent key and a wrongly-typed value). Extraction validates the
//! fields in a fixed order and fails on the first bad one; a decoded
//! [`Rider`] is immutable and never has both of its names empty.

use vstd::prelude::*;

use crate::duration::spec_parse_duration;
use crate::duration::parse_duration;
use crate::errors::ExtractError;
use crate::route::{spec_classify, parse_course, Course, Gender};

verus! {

/// One record of the input document, reduced to plain optional values.
/// `None` means the key is absent or its value has the wrong type.
pub struct RawRecord {
    pub firstname: Option<String>,
    pub lastname: Option<String>,
    pub elapsedtime: Option<String>,
    pub route: Option<String>,
    pub bib: Option<u64>,
    pub id: Option<String>,
}

/// The mathematical value of a decoded rider record.
pub struct RiderView {
    pub firstname: Seq<char>,
    pub lastname: Seq<char>,
    pub elapsedtime: u128,
    pub displaytime: Seq<char>,
    pub gender: Gender,
    pub course: Course,
    pub willow_creek: bool,
    pub fort_ross: bool,
    pub bib: u64,
    pub id: Seq<char>,
}

/// A decoded rider record, immutable once constructed. `elapsedtime` is the
/// parsed duration in whole seconds; `displaytime` preserves the original
/// elapsed-time text verbatim for output.
#[derive(Debug)]
pub struct Rider {
    pub firstname: String,
    pub lastname: String,
    pub elapsedtime: u128,
    pub displaytime: String,
    pub gender: Gender,
    pub course: Course,
    pub willow_creek: bool,
    pub fort_ross: bool,
    pub bib: u64,
    pub id: String,
}

impl View for Rider {
    type V = RiderView;

    open spec fn view(&self) -> RiderView {
        RiderView {
            firstname: self.firstname@,
            lastname: self.lastname@,
            elapsedtime: self.elapsedtime,
            displaytime: self.displaytime@,
            gender: self.gender,
            course: self.course,
            willow_creek: self.willow_creek,
            fort_ross: self.fort_ross,
            bib: self.bib,
            id: self.id@,
        }
    }
}

/// A rider has at least one non-empty name.
pub open spec fn has_name(v: RiderView) -> bool {
    !(v.firstname.len() == 0 && v.lastname.len() == 0)
}

/// What extracting a raw record yields: the first field that fails to
/// validate, in the fixed order first name, last name, the both-names-empty
/// check, elapsed time, route, bib, identifier; or the decoded rider.
pub open spec fn spec_extract(raw: RawRecord) -> Result<RiderView, ExtractError> {
    match raw.firstname {
        None => Err(ExtractError::MissingFirstname),
        Some(firstname) => match raw.lastname {
            None => Err(ExtractError::MissingLastname),
            Some(lastname) => if firstname@.len() == 0 && lastname@.len() == 0 {
                Err(ExtractError::NamelessRider)
            } else {
                match raw.elapsedtime {
                    None => Err(ExtractError::MissingElapsedtime),
                    Some(displaytime) => match spec_parse_duration(displaytime@) {
                        Err(e) => Err(ExtractError::BadDuration(e)),
                        Ok(elapsedtime) => match raw.route {
                            None => Err(ExtractError::MissingRoute),
                            Some(route) => match spec_classify(route@) {
                                Err(e) => Err(ExtractError::BadRoute(e)),
                                Ok(cls) => match raw.bib {
                                    None => Err(ExtractError::MissingBib),
                                    Some(bib) => match raw.id {
                                        None => Err(ExtractError::MissingId),
                                        Some(id) => Ok(
                                            RiderView {
                                                firstname: firstname@,
                                                lastname: lastname@,
                                                elapsedtime,
                                                displaytime: displaytime@,
                                                gender: cls.3,
                                                course: cls.0,
                                                willow_creek: cls.1,
                                                fort_ross: cls.2,
                                                bib,
                                                id: id@,
                                            },
                                        ),
                                    },
                                },
                            },
                        },
                    },
                }
            },
        },
    }
}

/// A rider that extraction admits always has a name.
pub proof fn lemma_extract_has_name(raw: RawRecord)
    ensures
        spec_extract(raw) is Ok ==> has_name(spec_extract(raw)->Ok_0),
{
}

impl Rider {
    /// Validates and decodes one raw record, or reports the first field
    /// that fails.
    pub fn from_raw(raw: &RawRecord) -> (res: Result<Rider, ExtractError>)
        ensures
            res is Ok <==> spec_extract(*raw) is Ok,
            res is Ok ==> res->Ok_0@ == spec_extract(*raw)->Ok_0,
            res is Err ==> res->Err_0 == spec_extract(*raw)->Err_0,
    {
        let firstname = match &raw.firstname {
            Some(s) => s.clone(),
            None => {
                return Err(ExtractError::MissingFirstname);
            },
        };
        let lastname = match &raw.lastname {
            Some(s) => s.clone(),
            None => {
                return Err(ExtractError::MissingLastname);
            },
        };
        if firstname.as_str().is_empty() && lastname.as_str().is_empty() {
            return Err(ExtractError::NamelessRider);
        }
        let displaytime = match &raw.elapsedtime {
            Some(s) => s.clone(),
            None => {
                return Err(ExtractError::MissingElapsedtime);
            },
        };
        let elapsedtime = match parse_duration(displaytime.as_str()) {
            Ok(secs) => secs,
            Err(e) => {
                return Err(ExtractError::BadDuration(e));
            },
        };
        let route = match &raw.route {
            Some(s) => s,
            None => {
                return Err(ExtractError::MissingRoute);
            },
        };
        let (course, willow_creek, fort_ross, gender) = match parse_course(route.as_str()) {
            Ok(cls) => cls,
            Err(e) => {
                return Err(ExtractError::BadRoute(e));
            },
        };
        let bib = match &raw.bib {
            Some(b) => *b,
            None => {
                return Err(ExtractError::MissingBib);
            },
        };
        let id = match &raw.id {
            Some(s) => s.clone(),
            None => {
                return Err(ExtractError::MissingId);
            },
        };
        Ok(
            Rider {
                firstname,
                lastname,
                elapsedtime,
                displaytime,
                gender,
                course,
                willow_creek,
                fort_ross,
                bib,
                id,
            },
        )
    }
}

} // verus!
