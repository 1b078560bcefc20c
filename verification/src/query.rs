//! Query running: name lookup over the ranked listing, and the choice
//! between the two output modes.
//!
//! With no name search, a query emits the whole filtered-and-ranked
//! listing. With a first- or last-name search, it keeps the ranked records
//! whose names match under Unicode canonical caseless equality — both
//! constraints must hold when both are given — each paired with its
//! position in the ranked listing; an empty result is a distinct outcome,
//! not an error.

use vstd::prelude::*;

use crate::catalog::{ref_views, rider_views, spec_courses, spec_filter_riders, Bikemonkey,
    FilterOptions};
use crate::rider::{Rider, RiderView};

verus! {

/// Unicode canonical caseless equality of two character sequences: equality
/// after normalization and default case folding. A function of the two
/// sequences alone.
pub uninterp spec fn caseless_eq(a: Seq<char>, b: Seq<char>) -> bool;

/// Relies on caseless::canonical_caseless_match_str: canonical caseless
/// matching of the two strings, a pure function of their characters.
#[verifier::external_body]
fn caseless_match(a: &str, b: &str) -> (r: bool)
    ensures
        r == caseless_eq(a@, b@),
{
    caseless::canonical_caseless_match_str(a, b)
}

/// The first-name search term, as a sequence view.
pub open spec fn spec_firstname(opts: FilterOptions) -> Option<Seq<char>> {
    match opts.firstname {
        Some(s) => Some(s@),
        None => None,
    }
}

/// The last-name search term, as a sequence view.
pub open spec fn spec_lastname(opts: FilterOptions) -> Option<Seq<char>> {
    match opts.lastname {
        Some(s) => Some(s@),
        None => None,
    }
}

/// A query with a name search term runs in lookup mode; one without runs in
/// listing mode.
pub open spec fn spec_has_name_search(opts: FilterOptions) -> bool {
    opts.firstname is Some || opts.lastname is Some
}

/// A record matches the search: each term that is present matches the
/// corresponding stored name, caselessly.
pub open spec fn name_matches(v: RiderView, firstname: Option<Seq<char>>, lastname: Option<
    Seq<char>,
>) -> bool {
    &&& (firstname is Some ==> caseless_eq(v.firstname, firstname->0))
    &&& (lastname is Some ==> caseless_eq(v.lastname, lastname->0))
}

/// The name-search test over rank-record pairs, as a first-class predicate.
pub open spec fn name_pair_pred(firstname: Option<Seq<char>>, lastname: Option<Seq<char>>) -> spec_fn(
    (int, RiderView),
) -> bool {
    |p: (int, RiderView)| name_matches(p.1, firstname, lastname)
}

/// Each record of a ranked listing paired with its position.
pub open spec fn indexed(s: Seq<RiderView>) -> Seq<(int, RiderView)> {
    Seq::new(s.len(), |i: int| (i, s[i]))
}

/// What a name lookup over a ranked listing yields: the matching records,
/// each with its position in the listing.
pub open spec fn spec_match_riders(ranked: Seq<RiderView>, firstname: Option<Seq<char>>, lastname: Option<
    Seq<char>,
>) -> Seq<(int, RiderView)> {
    indexed(ranked).filter(name_pair_pred(firstname, lastname))
}

/// The views of a sequence of position-rider pairs.
pub open spec fn pair_views(s: Seq<(usize, &Rider)>) -> Seq<(int, RiderView)> {
    s.map_values(|p: (usize, &Rider)| (p.0 as int, p.1@))
}

/// Returns whether `r`'s names match the search terms of the criteria.
fn matches_names(r: &Rider, filter_options: &FilterOptions) -> (m: bool)
    ensures
        m == name_matches(r@, spec_firstname(*filter_options), spec_lastname(*filter_options)),
{
    let first_ok = match &filter_options.firstname {
        Some(n) => caseless_match(r.firstname.as_str(), n.as_str()),
        None => true,
    };
    let last_ok = match &filter_options.lastname {
        Some(n) => caseless_match(r.lastname.as_str(), n.as_str()),
        None => true,
    };
    first_ok && last_ok
}

/// Keeps the riders of a ranked listing whose names match the search terms,
/// each paired with its position in the listing.
#[verifier::loop_isolation(false)]
pub fn match_riders<'a>(ranked: &Vec<&'a Rider>, filter_options: &FilterOptions) -> (res: Vec<
    (usize, &'a Rider),
>)
    ensures
        pair_views(res@) == spec_match_riders(
            ref_views(ranked@),
            spec_firstname(*filter_options),
            spec_lastname(*filter_options),
        ),
{
    let ghost pred = name_pair_pred(
        spec_firstname(*filter_options),
        spec_lastname(*filter_options),
    );
    let ghost rv = ref_views(ranked@);
    let mut res: Vec<(usize, &Rider)> = Vec::new();
    let mut i: usize = 0;
    while i < ranked.len()
        invariant
            i <= rv.len(),
            pair_views(res@) == indexed(rv).take(i as int).filter(pred),
        decreases rv.len() - i,
    {
        let ghost pre = indexed(rv).take(i as int);
        let ghost cur = indexed(rv).take(i as int + 1);
        let r = ranked[i];
        proof {
            assert(cur =~= pre.push((i as int, r@)));
            pre.lemma_filter_push((i as int, r@), pred);
        }
        if matches_names(r, filter_options) {
            res.push((i, r));
            assert(pair_views(res@) =~= cur.filter(pred));
        } else {
            assert(pair_views(res@) =~= cur.filter(pred));
        }
        i = i + 1;
    }
    assert(indexed(rv).take(i as int) =~= indexed(rv));
    res
}

/// The outcome of one query: the full ranked listing, or the name matches
/// with their ranks and the size of the ranked listing, or the explicit
/// empty lookup result.
pub enum QueryOutcome<'a> {
    /// Listing mode: the whole filtered-and-ranked sequence.
    Listing(Vec<&'a Rider>),
    /// Lookup mode with matches: each matching record with its position in
    /// the ranked listing, and the listing's total size.
    Matches(Vec<(usize, &'a Rider)>, usize),
    /// Lookup mode with no matching rider.
    NoMatches,
}

impl Bikemonkey {
    /// Runs one query: filters and ranks the catalog, then either emits the
    /// listing, or looks the searched name up in it.
    pub fn run_query<'a>(&'a self, filter_options: &FilterOptions) -> (out: QueryOutcome<'a>)
        ensures
            ({
                let ranked = spec_filter_riders(
                    rider_views(self.riders@),
                    spec_courses(*filter_options),
                    filter_options.gender,
                );
                let found = spec_match_riders(
                    ranked,
                    spec_firstname(*filter_options),
                    spec_lastname(*filter_options),
                );
                &&& !spec_has_name_search(*filter_options) ==> (out matches QueryOutcome::Listing(
                    l,
                ) && ref_views(l@) == ranked)
                &&& spec_has_name_search(*filter_options) && found.len() == 0 ==> out
                    is NoMatches
                &&& spec_has_name_search(*filter_options) && found.len() > 0 ==> (out matches
                QueryOutcome::Matches(entries, total) && pair_views(entries@) == found && total
                    as int == ranked.len())
            }),
    {
        let ranked = self.filter_riders(filter_options);
        if filter_options.firstname.is_none() && filter_options.lastname.is_none() {
            return QueryOutcome::Listing(ranked);
        }
        let total = ranked.len();
        let entries = match_riders(&ranked, filter_options);
        if entries.len() == 0 {
            QueryOutcome::NoMatches
        } else {
            QueryOutcome::Matches(entries, total)
        }
    }
}

} // verus!
