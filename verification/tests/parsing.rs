use bikemonkey::duration::parse_duration;
use bikemonkey::errors::{DurationError, RouteError};
use bikemonkey::route::{parse_course, Course, Gender};

#[test]
fn duration_plain() {
    assert_eq!(parse_duration("01:02:03"), Ok(3723));
    assert_eq!(parse_duration("00:59:00"), Ok(3540));
    assert_eq!(parse_duration("0:0:0"), Ok(0));
}

#[test]
fn duration_formula() {
    // 11 * 3600 + 22 * 60 + 33
    assert_eq!(parse_duration("11:22:33"), Ok(40953));
}

#[test]
fn duration_out_of_range_components_accepted() {
    // Minutes and seconds of 60 or more are summed arithmetically.
    assert_eq!(parse_duration("99:99:99"), Ok(99 * 3600 + 99 * 60 + 99));
}

#[test]
fn duration_non_numeric_pieces_are_dropped() {
    // A piece that is not a numeral is filtered out; three numerals remain.
    assert_eq!(parse_duration("ab:1:2:3"), Ok(3723));
    assert_eq!(parse_duration("1:2:3:xyz"), Ok(3723));
}

#[test]
fn duration_signed_component() {
    assert_eq!(parse_duration("+1:02:3"), Ok(3723));
}

#[test]
fn duration_wrong_count_is_malformed() {
    assert_eq!(parse_duration(""), Err(DurationError::MalformedDuration));
    assert_eq!(parse_duration("1:2"), Err(DurationError::MalformedDuration));
    assert_eq!(parse_duration("1:2:3:4"), Err(DurationError::MalformedDuration));
    assert_eq!(parse_duration("::"), Err(DurationError::MalformedDuration));
    assert_eq!(parse_duration("ab:cd:ef"), Err(DurationError::MalformedDuration));
}

#[test]
fn duration_overflowing_component_is_dropped() {
    // A 21-digit numeral does not fit in u64, so it is filtered out.
    assert_eq!(
        parse_duration("111111111111111111111:1:2:3"),
        Ok(3723)
    );
    assert_eq!(
        parse_duration("111111111111111111111:2:3"),
        Err(DurationError::MalformedDuration)
    );
}

#[test]
fn route_il_regno_male() {
    assert_eq!(
        parse_course("IL REGNO Male"),
        Ok((Course::IlRegno, false, false, Gender::Male))
    );
}

#[test]
fn route_piccolo_default_gender() {
    assert_eq!(
        parse_course("PICCOLO"),
        Ok((Course::Piccolo, false, false, Gender::Male))
    );
}

#[test]
fn route_gran_fort_ross_wc_female() {
    assert_eq!(
        parse_course("GRAN Fort Ross WC Female"),
        Ok((Course::Gran, true, true, Gender::Female))
    );
}

#[test]
fn route_medio_wc() {
    assert_eq!(
        parse_course("MEDIO WC Male"),
        Ok((Course::Medio, true, false, Gender::Male))
    );
}

#[test]
fn route_family_is_rejected() {
    assert_eq!(
        parse_course("FAMILY Fun Ride"),
        Err(RouteError::RejectedCategory)
    );
}

#[test]
fn route_unknown_course() {
    assert_eq!(parse_course("METRIC CENTURY"), Err(RouteError::UnknownCourse));
    assert_eq!(parse_course(""), Err(RouteError::UnknownCourse));
}

#[test]
fn route_bare_il_regno_classifies() {
    // Pattern-set classification does not require tokens after the course
    // prefix: the bare prefix classifies, with the default gender.
    assert_eq!(
        parse_course("IL REGNO"),
        Ok((Course::IlRegno, false, false, Gender::Male))
    );
}

#[test]
fn route_female_suffix_without_other_markers() {
    assert_eq!(
        parse_course("PICCOLO Female"),
        Ok((Course::Piccolo, false, false, Gender::Female))
    );
}

#[test]
fn course_names() {
    assert_eq!(Course::IlRegno.name(), "IlRegno");
    assert_eq!(Course::Gran.name(), "Gran");
    assert_eq!(Course::Medio.name(), "Medio");
    assert_eq!(Course::Piccolo.name(), "Piccolo");
}
