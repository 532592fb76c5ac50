use nestworth::calendar::CalendarDate;
use nestworth::coverage::{merge_coverage, subtract_coverage, CoverageRange, CoverageTarget};

fn range(start: &str, end: &str) -> CoverageRange {
    CoverageRange::new(
        CalendarDate::parse(start).expect("start"),
        CalendarDate::parse(end).expect("end"),
    )
    .expect("range")
}

#[test]
fn adjacent_and_overlapping_ranges_merge_deterministically() {
    assert_eq!(
        merge_coverage(vec![
            range("2026-01-03", "2026-01-04"),
            range("2026-01-01", "2026-01-02"),
            range("2026-01-04", "2026-01-05"),
        ]),
        vec![range("2026-01-01", "2026-01-05")]
    );
    assert_eq!(
        merge_coverage(vec![
            range("2026-01-01", "2026-01-02"),
            range("2026-01-04", "2026-01-05")
        ]),
        vec![
            range("2026-01-01", "2026-01-02"),
            range("2026-01-04", "2026-01-05")
        ]
    );
}

#[test]
fn subtraction_returns_ordered_bounded_gaps() {
    assert_eq!(
        subtract_coverage(
            range("2026-01-01", "2026-01-10"),
            &[
                range("2026-01-03", "2026-01-04"),
                range("2026-01-07", "2026-01-08")
            ],
        ),
        vec![
            range("2026-01-01", "2026-01-02"),
            range("2026-01-05", "2026-01-06"),
            range("2026-01-09", "2026-01-10")
        ]
    );
}

#[test]
fn invalid_target_shape_is_rejected_before_sql() {
    let target = CoverageTarget {
        household_id: "household".to_owned(),
        provider_key: "other".to_owned(),
        instrument_id: None,
        currency_a: Some("USD".to_owned()),
        currency_b: Some("CNY".to_owned()),
    };
    assert!(target.validate_shape().is_err());
}

#[test]
fn fully_covered_request_has_no_gaps_and_empty_cover_is_one_gap() {
    assert!(subtract_coverage(range("2026-01-02", "2026-01-03"), &[range("2026-01-01", "2026-01-05")]).is_empty());
    assert_eq!(
        subtract_coverage(range("2026-01-02", "2026-01-03"), &[]),
        vec![range("2026-01-02", "2026-01-03")]
    );
}

#[test]
fn merging_a_merged_list_changes_nothing() {
    let merged = merge_coverage(vec![
        range("2026-02-10", "2026-02-12"),
        range("2026-01-01", "2026-01-31"),
        range("2026-02-01", "2026-02-03"),
    ]);
    assert_eq!(merged, vec![range("2026-01-01", "2026-02-03"), range("2026-02-10", "2026-02-12")]);
    assert_eq!(merge_coverage(merged.clone()), merged);
}

#[test]
fn target_shapes_and_ranges_are_checked() {
    assert_eq!(CoverageTarget::instrument("h", "yahoo_finance", "i").validate_shape().expect("instrument"), "instrument");
    assert_eq!(CoverageTarget::fx("h", "yahoo_finance", "CNY", "USD").validate_shape().expect("fx"), "fx");
    assert!(CoverageTarget::fx("h", "yahoo_finance", "USD", "CNY").validate_shape().is_err());
    assert!(CoverageTarget::instrument("h", "yahoo_finance", "").validate_shape().is_err());
    assert!(CoverageRange::new(
        CalendarDate::parse("2026-01-02").expect("start"),
        CalendarDate::parse("2026-01-01").expect("end"),
    )
    .is_err());
}

fn inverted(start: &str, end: &str) -> CoverageRange {
    CoverageRange {
        start: CalendarDate::parse(start).expect("start"),
        end: CalendarDate::parse(end).expect("end"),
    }
}

#[test]
fn merging_sorts_ranges_given_in_any_order() {
    assert_eq!(
        merge_coverage(vec![
            range("2026-03-10", "2026-03-12"),
            range("2026-01-01", "2026-01-02"),
            range("2026-03-01", "2026-03-09"),
        ]),
        vec![range("2026-01-01", "2026-01-02"), range("2026-03-01", "2026-03-12")]
    );
}

#[test]
fn an_inverted_range_covers_no_day_and_is_kept_or_absorbed() {
    assert_eq!(merge_coverage(vec![inverted("2026-01-05", "2026-01-03")]), vec![inverted("2026-01-05", "2026-01-03")]);
    assert_eq!(
        merge_coverage(vec![inverted("2026-01-05", "2026-01-03"), range("2026-01-04", "2026-01-04")]),
        vec![range("2026-01-04", "2026-01-04")]
    );
}

#[test]
fn an_inverted_request_has_no_gaps() {
    assert!(subtract_coverage(inverted("2026-01-05", "2026-01-03"), &[]).is_empty());
}

#[test]
fn a_covered_last_representable_day_leaves_no_gap() {
    assert_eq!(
        subtract_coverage(range("9999-12-30", "9999-12-31"), &[range("9999-12-31", "9999-12-31")]),
        vec![range("9999-12-30", "9999-12-30")]
    );
    assert!(subtract_coverage(range("9999-12-30", "9999-12-31"), &[range("9999-12-01", "9999-12-31")]).is_empty());
    assert_eq!(
        subtract_coverage(range("9999-12-30", "9999-12-31"), &[range("9999-12-30", "9999-12-30")]),
        vec![range("9999-12-31", "9999-12-31")]
    );
}
