use bikemonkey::catalog::{Bikemonkey, FilterOptions};
use bikemonkey::errors::{DurationError, ExtractError, RouteError};
use bikemonkey::query::QueryOutcome;
use bikemonkey::rider::{RawRecord, Rider};
use bikemonkey::route::{Course, Gender};

fn raw(
    firstname: &str,
    lastname: &str,
    elapsedtime: &str,
    route: &str,
    bib: u64,
    id: &str,
) -> RawRecord {
    RawRecord {
        firstname: Some(String::from(firstname)),
        lastname: Some(String::from(lastname)),
        elapsedtime: Some(String::from(elapsedtime)),
        route: Some(String::from(route)),
        bib: Some(bib),
        id: Some(String::from(id)),
    }
}

fn no_filter() -> FilterOptions {
    FilterOptions {
        courses: None,
        gender: None,
        debug: false,
        firstname: None,
        lastname: None,
    }
}

#[test]
fn extract_decodes_a_record() {
    let r = Rider::from_raw(&raw(
        "Maria",
        "Rossi",
        "01:02:03",
        "GRAN Fort Ross WC Female",
        7,
        "abc123",
    ))
    .unwrap();
    assert_eq!(r.firstname, "Maria");
    assert_eq!(r.lastname, "Rossi");
    assert_eq!(r.elapsedtime, 3723);
    assert_eq!(r.displaytime, "01:02:03");
    assert_eq!(r.course, Course::Gran);
    assert_eq!(r.gender, Gender::Female);
    assert!(r.willow_creek);
    assert!(r.fort_ross);
    assert_eq!(r.bib, 7);
    assert_eq!(r.id, "abc123");
}

#[test]
fn extract_missing_fields() {
    let mut rec = raw("a", "b", "01:02:03", "PICCOLO", 1, "x");
    rec.firstname = None;
    assert_eq!(
        Rider::from_raw(&rec).unwrap_err(),
        ExtractError::MissingFirstname
    );

    let mut rec = raw("a", "b", "01:02:03", "PICCOLO", 1, "x");
    rec.lastname = None;
    assert_eq!(
        Rider::from_raw(&rec).unwrap_err(),
        ExtractError::MissingLastname
    );

    let mut rec = raw("a", "b", "01:02:03", "PICCOLO", 1, "x");
    rec.elapsedtime = None;
    assert_eq!(
        Rider::from_raw(&rec).unwrap_err(),
        ExtractError::MissingElapsedtime
    );

    let mut rec = raw("a", "b", "01:02:03", "PICCOLO", 1, "x");
    rec.route = None;
    assert_eq!(Rider::from_raw(&rec).unwrap_err(), ExtractError::MissingRoute);

    let mut rec = raw("a", "b", "01:02:03", "PICCOLO", 1, "x");
    rec.bib = None;
    assert_eq!(Rider::from_raw(&rec).unwrap_err(), ExtractError::MissingBib);

    let mut rec = raw("a", "b", "01:02:03", "PICCOLO", 1, "x");
    rec.id = None;
    assert_eq!(Rider::from_raw(&rec).unwrap_err(), ExtractError::MissingId);
}

#[test]
fn extract_bad_duration_and_route() {
    assert_eq!(
        Rider::from_raw(&raw("a", "b", "oops", "PICCOLO", 1, "x")).unwrap_err(),
        ExtractError::BadDuration(DurationError::MalformedDuration)
    );
    assert_eq!(
        Rider::from_raw(&raw("a", "b", "01:02:03", "FAMILY Fun Ride", 1, "x")).unwrap_err(),
        ExtractError::BadRoute(RouteError::RejectedCategory)
    );
    assert_eq!(
        Rider::from_raw(&raw("a", "b", "01:02:03", "GRAVEL", 1, "x")).unwrap_err(),
        ExtractError::BadRoute(RouteError::UnknownCourse)
    );
}

#[test]
fn nameless_rider_is_never_admitted() {
    let rec = raw("", "", "01:02:03", "PICCOLO", 1, "x");
    assert_eq!(Rider::from_raw(&rec).unwrap_err(), ExtractError::NamelessRider);

    let records = vec![
        raw("", "", "01:02:03", "PICCOLO", 1, "x"),
        raw("a", "", "01:02:03", "PICCOLO", 2, "y"),
        raw("", "b", "01:02:03", "PICCOLO", 3, "z"),
    ];
    let catalog = Bikemonkey::from_records(&records);
    assert_eq!(catalog.riders.len(), 2);
    assert!(catalog
        .riders
        .iter()
        .all(|r| !(r.firstname.is_empty() && r.lastname.is_empty())));
}

#[test]
fn bad_records_are_dropped_in_order() {
    let records = vec![
        raw("a", "a", "01:00:00", "PICCOLO", 1, "i1"),
        raw("b", "b", "nope", "PICCOLO", 2, "i2"),
        raw("c", "c", "01:00:01", "MEDIO", 3, "i3"),
    ];
    let catalog = Bikemonkey::from_records(&records);
    assert_eq!(catalog.riders.len(), 2);
    assert_eq!(catalog.riders[0].bib, 1);
    assert_eq!(catalog.riders[1].bib, 3);
}

#[test]
fn filter_is_an_intersection() {
    let records = vec![
        raw("a", "a", "01:00:00", "PICCOLO", 1, "i1"),
        raw("b", "b", "01:00:01", "MEDIO Female", 2, "i2"),
        raw("c", "c", "01:00:02", "GRAN", 3, "i3"),
        raw("d", "d", "01:00:03", "MEDIO", 4, "i4"),
    ];
    let catalog = Bikemonkey::from_records(&records);
    let mut options = no_filter();
    options.courses = Some(vec![Course::Medio]);
    let medio = catalog.filter_riders(&options);
    assert!(medio.len() <= catalog.riders.len());
    assert_eq!(medio.len(), 2);
    assert!(medio.iter().all(|r| r.course == Course::Medio));

    options.gender = Some(Gender::Female);
    let medio_female = catalog.filter_riders(&options);
    assert_eq!(medio_female.len(), 1);
    assert_eq!(medio_female[0].bib, 2);

    let everyone = catalog.filter_riders(&no_filter());
    assert_eq!(everyone.len(), 4);
}

#[test]
fn three_records_rank_stably() {
    // Arrival order: 01:02:03, 00:59:00, 01:02:03 (a tie). Ranking yields
    // the second record first, then the first, then the third.
    let records = vec![
        raw("first", "arrival", "01:02:03", "GRAN", 1, "i1"),
        raw("second", "arrival", "00:59:00", "GRAN", 2, "i2"),
        raw("third", "arrival", "01:02:03", "GRAN", 3, "i3"),
    ];
    let catalog = Bikemonkey::from_records(&records);
    let ranked = catalog.filter_riders(&no_filter());
    let bibs: Vec<u64> = ranked.iter().map(|r| r.bib).collect();
    assert_eq!(bibs, vec![2, 1, 3]);
}

#[test]
fn rerunning_a_query_is_deterministic() {
    let records = vec![
        raw("a", "a", "01:02:03", "PICCOLO", 1, "i1"),
        raw("b", "b", "00:59:00", "MEDIO", 2, "i2"),
        raw("c", "c", "01:02:03", "GRAN", 3, "i3"),
    ];
    let catalog = Bikemonkey::from_records(&records);
    let once: Vec<u64> = catalog.filter_riders(&no_filter()).iter().map(|r| r.bib).collect();
    let twice: Vec<u64> = catalog.filter_riders(&no_filter()).iter().map(|r| r.bib).collect();
    assert_eq!(once, twice);
}

#[test]
fn name_search_is_caseless() {
    // A stored "María" is found by searching "marÍa" written with a
    // decomposed capital Í: canonical caseless matching ignores case and
    // canonical composition differences.
    let records = vec![
        raw("Zoe", "Quick", "00:59:00", "GRAN", 1, "i1"),
        raw("Mar\u{00ED}a", "Rossi", "01:02:03", "GRAN", 2, "i2"),
    ];
    let catalog = Bikemonkey::from_records(&records);
    let mut options = no_filter();
    options.firstname = Some(String::from("marI\u{0301}a"));
    match catalog.run_query(&options) {
        QueryOutcome::Matches(entries, total) => {
            assert_eq!(total, 2);
            assert_eq!(entries.len(), 1);
            let (position, rider) = entries[0];
            assert_eq!(rider.bib, 2);
            // The position is within the ranked listing, not the match set.
            assert_eq!(position, 1);
        }
        _ => panic!("expected a match"),
    }
}

#[test]
fn name_search_both_terms_must_hold() {
    let records = vec![
        raw("Maria", "Rossi", "01:02:03", "GRAN", 1, "i1"),
        raw("Maria", "Bianchi", "00:59:00", "GRAN", 2, "i2"),
    ];
    let catalog = Bikemonkey::from_records(&records);
    let mut options = no_filter();
    options.firstname = Some(String::from("MARIA"));
    options.lastname = Some(String::from("rossi"));
    match catalog.run_query(&options) {
        QueryOutcome::Matches(entries, total) => {
            assert_eq!(total, 2);
            assert_eq!(entries.len(), 1);
            assert_eq!(entries[0].1.bib, 1);
        }
        _ => panic!("expected a match"),
    }
}

#[test]
fn unmatched_search_is_an_explicit_empty_outcome() {
    let records = vec![raw("Maria", "Rossi", "01:02:03", "GRAN", 1, "i1")];
    let catalog = Bikemonkey::from_records(&records);
    let mut options = no_filter();
    options.firstname = Some(String::from("nobody"));
    assert!(matches!(catalog.run_query(&options), QueryOutcome::NoMatches));
}

#[test]
fn no_name_search_lists_everyone_ranked() {
    let records = vec![
        raw("a", "a", "01:02:03", "PICCOLO", 1, "i1"),
        raw("b", "b", "00:59:00", "MEDIO", 2, "i2"),
    ];
    let catalog = Bikemonkey::from_records(&records);
    match catalog.run_query(&no_filter()) {
        QueryOutcome::Listing(ranked) => {
            assert_eq!(ranked.len(), 2);
            assert_eq!(ranked[0].bib, 2);
            assert_eq!(ranked[1].bib, 1);
        }
        _ => panic!("expected the full listing"),
    }
}

#[test]
fn empty_course_set_matches_nothing() {
    let records = vec![
        raw("a", "a", "01:00:00", "PICCOLO", 1, "i1"),
        raw("b", "b", "01:00:01", "MEDIO", 2, "i2"),
    ];
    let catalog = Bikemonkey::from_records(&records);
    let mut options = no_filter();
    options.courses = Some(vec![]);
    assert!(catalog.filter_riders(&options).is_empty());
}

#[test]
fn lookup_rank_is_within_the_filtered_listing() {
    // With a course filter, the reported position counts only the riders
    // that survived the filter.
    let records = vec![
        raw("x", "x", "00:50:00", "PICCOLO", 1, "i1"),
        raw("y", "y", "00:55:00", "MEDIO", 2, "i2"),
        raw("Maria", "Rossi", "01:02:03", "MEDIO", 3, "i3"),
    ];
    let catalog = Bikemonkey::from_records(&records);
    let mut options = no_filter();
    options.courses = Some(vec![Course::Medio]);
    options.lastname = Some(String::from("ROSSI"));
    match catalog.run_query(&options) {
        QueryOutcome::Matches(entries, total) => {
            assert_eq!(total, 2);
            assert_eq!(entries.len(), 1);
            let (position, rider) = entries[0];
            assert_eq!(rider.bib, 3);
            assert_eq!(position, 1);
        }
        _ => panic!("expected a match"),
    }
}
