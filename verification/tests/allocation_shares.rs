use nestworth::allocation::{allocate, allocate_share_bps, distribute_shares, share_bps};
use nestworth::amount::DecimalValue;

fn dec(text: &str) -> DecimalValue {
    DecimalValue::parse(text).expect("decimal")
}

fn decs(values: &[&str]) -> Vec<DecimalValue> {
    values.iter().map(|value| dec(value)).collect()
}

#[test]
fn equal_parts_give_the_leftover_point_to_the_first() {
    let shares = allocate_share_bps(&decs(&["1", "1", "1"]), dec("3")).expect("shares");
    assert_eq!(shares, vec![3334, 3333, 3333]);
    assert_eq!(shares.iter().sum::<i32>(), 10_000);
}

#[test]
fn the_largest_fraction_receives_the_leftover_point() {
    assert_eq!(allocate_share_bps(&decs(&["1", "2"]), dec("3")).expect("shares"), vec![3333, 6667]);
    assert_eq!(allocate(&decs(&["2", "1"]), dec("3")).expect("shares"), vec![6667, 3333]);
}

#[test]
fn exact_parts_need_no_leftover() {
    assert_eq!(allocate_share_bps(&decs(&["25", "75"]), dec("100")).expect("shares"), vec![2500, 7500]);
}

#[test]
fn parts_that_are_not_above_zero_receive_nothing() {
    assert_eq!(allocate(&decs(&["-1", "4"]), dec("3")).expect("shares"), vec![0, 13333]);
    assert_eq!(allocate_share_bps(&decs(&["-1", "4"]), dec("3")).expect("shares"), vec![0, 10_000]);
    assert_eq!(allocate_share_bps(&decs(&["0", "1"]), dec("1")).expect("shares"), vec![0, 10_000]);
}

#[test]
fn a_zero_whole_or_no_parts_give_zeros() {
    assert_eq!(allocate_share_bps(&decs(&["1", "2"]), dec("0")).expect("shares"), vec![0, 0]);
    assert_eq!(allocate(&decs(&["1", "2"]), dec("0.00")).expect("shares"), vec![0, 0]);
    assert!(allocate_share_bps(&Vec::new(), dec("5")).expect("shares").is_empty());
}

#[test]
fn overflowing_arithmetic_is_refused() {
    assert!(allocate_share_bps(&decs(&["79228162514264337593543950335"]), dec("1")).is_none());
    assert!(share_bps(dec("79228162514264337593543950335"), dec("1")).is_none());
}

#[test]
fn distributing_raw_shares_directly() {
    let raws = vec![Some(dec("3333.5")), None, Some(dec("6665.5"))];
    assert_eq!(distribute_shares(&raws, true).expect("shares"), vec![3334, 0, 6666]);
    let ties = vec![Some(dec("4999.50")), Some(dec("4999.5")), Some(dec("0.25"))];
    assert_eq!(distribute_shares(&ties, false).expect("shares"), vec![5000, 5000, 0]);
    let capped = vec![Some(dec("2147483647.9"))];
    assert!(distribute_shares(&capped, false).is_some());
    assert_eq!(distribute_shares(&capped, true).expect("shares"), vec![10_000]);
}

#[test]
fn a_single_share_rounds_half_to_even() {
    assert_eq!(share_bps(dec("1"), dec("3")), Some(3333));
    assert_eq!(share_bps(dec("1"), dec("32")), Some(312));
    assert_eq!(share_bps(dec("3"), dec("32")), Some(938));
    assert_eq!(share_bps(dec("2"), dec("3")), Some(6667));
    assert_eq!(share_bps(dec("-1"), dec("3")), Some(0));
    assert_eq!(share_bps(dec("5"), dec("1")), Some(10_000));
    assert_eq!(share_bps(dec("1"), dec("0")), Some(0));
}

#[test]
fn allocation_rows_keep_nonzero_totals_in_key_order() {
    let totals = vec![
        ("USD".to_owned(), dec("60.00")),
        ("EUR".to_owned(), dec("40")),
        ("CNY".to_owned(), dec("0")),
    ];
    let rows = nestworth::allocation::allocation_rows(&totals, dec("100"), "USD").expect("rows");
    assert_eq!(rows.len(), 2);
    assert_eq!(rows[0].key, "EUR");
    assert_eq!(rows[0].name.as_deref(), Some("EUR"));
    assert_eq!(rows[0].amount.amount, "40");
    assert_eq!(rows[0].amount.currency, "USD");
    assert_eq!(rows[0].share_bps, 4000);
    assert_eq!(rows[1].key, "USD");
    assert_eq!(rows[1].amount.amount, "60");
    assert_eq!(rows[1].share_bps, 6000);
}

#[test]
fn allocation_rows_of_thirds_add_up_to_the_whole() {
    let totals = vec![
        ("stock".to_owned(), dec("1")),
        ("etf".to_owned(), dec("1")),
        ("other".to_owned(), dec("1")),
    ];
    let rows = nestworth::allocation::allocation_rows(&totals, dec("3"), "EUR").expect("rows");
    let keys: Vec<&str> = rows.iter().map(|row| row.key.as_str()).collect();
    assert_eq!(keys, vec!["etf", "other", "stock"]);
    let shares: Vec<i32> = rows.iter().map(|row| row.share_bps).collect();
    assert_eq!(shares, vec![3334, 3333, 3333]);
}
