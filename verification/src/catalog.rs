//! The catalog of decoded riders and its filter-and-rank query.
//!
//! A [`Bikemonkey`] owns every record that survived extraction, in arrival
//! order. `filter_riders` keeps the records allowed by the criteria and
//! ranks them by elapsed time; the sort is stable, so re-running a query on
//! an unchanged catalog always yields the same order, and records with
//! equal times stay in arrival order.

use vstd::prelude::*;

use crate::ranking::{insert_by_time, insert_pos, lemma_insert_pos, lemma_sort_multiset,
    lemma_sort_sorted, lemma_sort_stable, sort_by_time, sorted_by_time, time_pred};
use crate::rider::{has_name, spec_extract, RawRecord, Rider, RiderView};
use crate::route::{Course, Gender};

verus! {

/// The criteria one query runs with: an optional set of allowed courses, an
/// optional gender, optional name search terms, and a diagnostics flag.
pub struct FilterOptions {
    pub courses: Option<Vec<Course>>,
    pub gender: Option<Gender>,
    pub debug: bool,
    pub firstname: Option<String>,
    pub lastname: Option<String>,
}

/// A record satisfies every criteria field that is present: its course is
/// in the course set, and its gender is the requested one.
pub open spec fn criteria_matches(v: RiderView, courses: Option<Seq<Course>>, gender: Option<
    Gender,
>) -> bool {
    &&& (courses is Some ==> courses->0.contains(v.course))
    &&& (gender is Some ==> gender->0 == v.gender)
}

/// The course set a criteria value allows, as sequence views.
pub open spec fn spec_courses(opts: FilterOptions) -> Option<Seq<Course>> {
    match opts.courses {
        Some(cs) => Some(cs@),
        None => None,
    }
}

/// The criteria test as a first-class predicate, shared by the contracts
/// and the proofs about them.
pub open spec fn criteria_pred(courses: Option<Seq<Course>>, gender: Option<Gender>) -> spec_fn(
    RiderView,
) -> bool {
    |v: RiderView| criteria_matches(v, courses, gender)
}

/// The views of a sequence of riders.
pub open spec fn rider_views(s: Seq<Rider>) -> Seq<RiderView> {
    s.map_values(|r: Rider| r@)
}

/// The views of a sequence of borrowed riders.
pub open spec fn ref_views(s: Seq<&Rider>) -> Seq<RiderView> {
    s.map_values(|r: &Rider| r@)
}

/// What one record contributes to the catalog: its decoded entity, or
/// nothing when extraction rejects it.
pub open spec fn extract_map() -> spec_fn(RawRecord) -> Option<RiderView> {
    |raw: RawRecord|
        match spec_extract(raw) {
            Ok(v) => Some(v),
            Err(_) => None,
        }
}

/// The catalog a batch of raw records loads into: the decoded riders, in
/// arrival order, with rejected records dropped.
pub open spec fn spec_from_records(rs: Seq<RawRecord>) -> Seq<RiderView> {
    rs.filter_map(extract_map())
}

/// What a filter query returns: the records allowed by the criteria, ranked
/// by elapsed time with arrival order breaking ties.
pub open spec fn spec_filter_riders(rs: Seq<RiderView>, courses: Option<Seq<Course>>, gender: Option<
    Gender,
>) -> Seq<RiderView> {
    sort_by_time(rs.filter(criteria_pred(courses, gender)))
}

/// Returns whether `c` is one of the courses in `cs`.
#[verifier::loop_isolation(false)]
fn course_in(cs: &Vec<Course>, c: Course) -> (r: bool)
    ensures
        r == cs@.contains(c),
{
    let mut i: usize = 0;
    while i < cs.len()
        invariant
            i <= cs@.len(),
            forall|k: int| 0 <= k < i ==> cs@[k] != c,
        decreases cs@.len() - i,
    {
        if cs[i] == c {
            return true;
        }
        i = i + 1;
    }
    false
}

/// Returns whether `r` satisfies the course and gender criteria.
fn matches_criteria(r: &Rider, filter_options: &FilterOptions) -> (m: bool)
    ensures
        m == criteria_matches(r@, spec_courses(*filter_options), filter_options.gender),
{
    let course_ok = match &filter_options.courses {
        Some(cs) => course_in(cs, r.course),
        None => true,
    };
    let gender_ok = match &filter_options.gender {
        Some(g) => r.gender == *g,
        None => true,
    };
    course_ok && gender_ok
}

/// The catalog: every successfully decoded rider, in arrival order.
pub struct Bikemonkey {
    pub riders: Vec<Rider>,
}

impl Bikemonkey {
    /// Decodes a batch of raw records, keeping the riders that validate in
    /// their arrival order and dropping the records that do not.
    #[verifier::loop_isolation(false)]
    pub fn from_records(records: &Vec<RawRecord>) -> (catalog: Bikemonkey)
        ensures
            rider_views(catalog.riders@) == spec_from_records(records@),
    {
        let mut riders: Vec<Rider> = Vec::new();
        let mut i: usize = 0;
        while i < records.len()
            invariant
                i <= records@.len(),
                rider_views(riders@) == records@.take(i as int).filter_map(extract_map()),
            decreases records@.len() - i,
        {
            let ghost pre = records@.take(i as int);
            let ghost cur = records@.take(i as int + 1);
            assert(cur.drop_last() =~= pre);
            assert(cur.last() == records@[i as int]);
            match Rider::from_raw(&records[i]) {
                Ok(r) => {
                    riders.push(r);
                    assert(rider_views(riders@) =~= cur.filter_map(extract_map()));
                },
                Err(_) => {
                    assert(rider_views(riders@) =~= cur.filter_map(extract_map()));
                },
            }
            i = i + 1;
        }
        assert(records@.take(i as int) =~= records@);
        Bikemonkey { riders }
    }

    /// Keeps the riders allowed by the criteria and ranks them by elapsed
    /// time, ascending, with arrival order breaking ties.
    #[verifier::loop_isolation(false)]
    pub fn filter_riders<'a>(&'a self, filter_options: &FilterOptions) -> (res: Vec<&'a Rider>)
        ensures
            ref_views(res@) == spec_filter_riders(
                rider_views(self.riders@),
                spec_courses(*filter_options),
                filter_options.gender,
            ),
    {
        let ghost pred = criteria_pred(spec_courses(*filter_options), filter_options.gender);
        let mut kept: Vec<&Rider> = Vec::new();
        let mut i: usize = 0;
        while i < self.riders.len()
            invariant
                i <= self.riders@.len(),
                ref_views(kept@) == rider_views(self.riders@.take(i as int)).filter(pred),
            decreases self.riders@.len() - i,
        {
            let ghost pre = rider_views(self.riders@.take(i as int));
            let ghost cur = rider_views(self.riders@.take(i as int + 1));
            let r = &self.riders[i];
            proof {
                assert(cur =~= pre.push(r@));
                pre.lemma_filter_push(r@, pred);
            }
            if matches_criteria(r, filter_options) {
                kept.push(r);
                assert(ref_views(kept@) =~= cur.filter(pred));
            } else {
                assert(ref_views(kept@) =~= cur.filter(pred));
            }
            i = i + 1;
        }
        assert(self.riders@.take(i as int) =~= self.riders@);
        let mut res: Vec<&Rider> = Vec::new();
        let mut j: usize = 0;
        while j < kept.len()
            invariant
                j <= kept@.len(),
                ref_views(res@) == sort_by_time(ref_views(kept@.take(j as int))),
            decreases kept@.len() - j,
        {
            let r = kept[j];
            let ghost out0 = ref_views(res@);
            let mut p: usize = 0;
            while p < res.len()
                invariant
                    p <= res@.len(),
                    out0 == ref_views(res@),
                    forall|k: int| 0 <= k < p ==> out0[k].elapsedtime <= r@.elapsedtime,
                decreases res@.len() - p,
            {
                if res[p].elapsedtime > r.elapsedtime {
                    break ;
                }
                p = p + 1;
            }
            assert(p < res@.len() ==> out0[p as int].elapsedtime > r@.elapsedtime);
            proof {
                lemma_insert_pos_unique(r@, out0, p as int);
                lemma_insert_pos(r@, out0);
            }
            res.insert(p, r);
            proof {
                let ghost curk = ref_views(kept@.take(j as int + 1));
                assert(curk =~= ref_views(kept@.take(j as int)).push(r@));
                assert(curk.drop_last() =~= ref_views(kept@.take(j as int)));
                assert(ref_views(res@) =~= out0.take(p as int) + seq![r@] + out0.skip(p as int));
                assert(ref_views(res@) == insert_by_time(r@, out0));
            }
            j = j + 1;
        }
        assert(kept@.take(j as int) =~= kept@);
        res
    }
}

/// A scan that stops at the first record with a strictly greater time stops
/// exactly where `insert_pos` points.
proof fn lemma_insert_pos_unique(v: RiderView, s: Seq<RiderView>, p: int)
    requires
        0 <= p <= s.len(),
        forall|k: int| 0 <= k < p ==> s[k].elapsedtime <= v.elapsedtime,
        p < s.len() ==> s[p].elapsedtime > v.elapsedtime,
    ensures
        insert_pos(v, s) == p,
    decreases s.len(),
{
    if s.len() > 0 && p > 0 {
        assert(s[0].elapsedtime <= v.elapsedtime);
        let rest = s.skip(1);
        assert(forall|k: int| 0 <= k < p - 1 ==> rest[k].elapsedtime <= v.elapsedtime);
        assert(p - 1 < rest.len() ==> rest[p - 1].elapsedtime > v.elapsedtime);
        lemma_insert_pos_unique(v, rest, p - 1);
    }
}

/// Filtering is a pure intersection: a query never returns more records
/// than the catalog holds, every returned record is one of the catalog's,
/// and every returned record satisfies all the criteria that are present.
pub proof fn lemma_filter_is_intersection(rs: Seq<RiderView>, courses: Option<Seq<Course>>, gender: Option<
    Gender,
>)
    ensures
        spec_filter_riders(rs, courses, gender).len() <= rs.len(),
        forall|k: int|
            0 <= k < spec_filter_riders(rs, courses, gender).len() ==> rs.contains(
                #[trigger] spec_filter_riders(rs, courses, gender)[k],
            ),
        forall|k: int|
            0 <= k < spec_filter_riders(rs, courses, gender).len() ==> criteria_matches(
                #[trigger] spec_filter_riders(rs, courses, gender)[k],
                courses,
                gender,
            ),
{
    broadcast use vstd::seq_lib::group_filter_ensures;
    broadcast use Seq::to_multiset_ensures;

    let pred = criteria_pred(courses, gender);
    let f = rs.filter(pred);
    let out = spec_filter_riders(rs, courses, gender);
    lemma_sort_multiset(f);
    f.to_multiset_ensures();
    out.to_multiset_ensures();
    assert forall|k: int| 0 <= k < out.len() implies rs.contains(#[trigger] out[k])
        && criteria_matches(out[k], courses, gender) by {
        assert(out.contains(out[k]));
        assert(out.to_multiset().count(out[k]) > 0);
        assert(f.contains(out[k]));
        let j = choose|j: int| 0 <= j < f.len() && f[j] == out[k];
        assert(pred(f[j]));
        assert(criteria_matches(out[k], courses, gender));
        rs.lemma_filter_contains_rev(pred, out[k]);
        assert(rs.contains(out[k]));
    }
}

/// Ranking is stable and deterministic: the filtered, ranked sequence is
/// sorted by elapsed time, and the records sharing any one elapsed time
/// appear in their arrival order, so the whole output is a function of the
/// catalog and the criteria alone.
pub proof fn lemma_ranking_stable(rs: Seq<RiderView>, courses: Option<Seq<Course>>, gender: Option<
    Gender,
>, t: u128)
    ensures
        sorted_by_time(spec_filter_riders(rs, courses, gender)),
        spec_filter_riders(rs, courses, gender).filter(time_pred(t)) == rs.filter(
            criteria_pred(courses, gender),
        ).filter(time_pred(t)),
{
    let f = rs.filter(criteria_pred(courses, gender));
    lemma_sort_sorted(f);
    lemma_sort_stable(f, t);
}

/// No nameless rider is ever admitted: every record the catalog holds after
/// loading has at least one non-empty name, whatever the raw batch held.
pub proof fn lemma_catalog_riders_named(rs: Seq<RawRecord>)
    ensures
        forall|k: int|
            0 <= k < spec_from_records(rs).len() ==> has_name(#[trigger] spec_from_records(rs)[k]),
{
    broadcast use vstd::seq_lib::group_seq_properties;

    let out = spec_from_records(rs);
    assert forall|k: int| 0 <= k < out.len() implies has_name(#[trigger] out[k]) by {
        assert(out.contains(out[k]));
        rs.lemma_filter_map_contains(extract_map(), out[k]);
        let raw = choose|raw: RawRecord| rs.contains(raw) && extract_map()(raw) == Some(out[k]);
        assert(spec_extract(raw) is Ok && spec_extract(raw)->Ok_0 == out[k]);
    }
}

} // verus!
