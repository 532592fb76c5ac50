use nestworth::error::AppError;
use nestworth::maintenance_observations::{latest_manual_quotes, ObservedQuote};
use nestworth::time::Timestamp;

fn quote(key: &str, source: &str, quoted_at: &str, created_at: &str, id: &str) -> ObservedQuote {
    ObservedQuote {
        key: key.to_owned(),
        source_kind: source.to_owned(),
        quoted_at: quoted_at.to_owned(),
        created_at: created_at.to_owned(),
        id: id.to_owned(),
    }
}

fn now() -> Timestamp {
    Timestamp::parse("2026-03-10T12:00:00.000Z").expect("now")
}

#[test]
fn the_latest_manual_quote_per_key_wins() {
    let rows = vec![
        quote("vti", "manual", "2026-03-01T00:00:00.000Z", "2026-03-01T00:00:00.000Z", "q1"),
        quote("vti", "manual", "2026-03-05T00:00:00.000Z", "2026-03-05T00:00:00.000Z", "q2"),
        quote("vti", "provider", "2026-03-09T00:00:00.000Z", "2026-03-09T00:00:00.000Z", "q3"),
        quote("bnd", "manual", "2026-02-01T00:00:00.000Z", "2026-02-01T00:00:00.000Z", "q4"),
        quote("vti", "manual", "2026-03-04T00:00:00.000Z", "2026-03-04T00:00:00.000Z", "q5"),
    ];
    let latest = latest_manual_quotes(&rows, &now()).expect("latest");
    assert_eq!(latest.len(), 2);
    let vti = latest.iter().find(|row| row.key == "vti").expect("vti");
    assert_eq!(vti.id, "q2");
    let bnd = latest.iter().find(|row| row.key == "bnd").expect("bnd");
    assert_eq!(bnd.quoted_at, "2026-02-01T00:00:00.000Z");
}

#[test]
fn quotes_after_now_and_ties_are_ordered_by_record_time_then_id() {
    let rows = vec![
        quote("eur", "manual", "2026-03-11T00:00:00.000Z", "2026-03-11T00:00:00.000Z", "future"),
        quote("eur", "manual", "2026-03-02T00:00:00.000Z", "2026-03-02T00:00:00.000Z", "a"),
        quote("eur", "manual", "2026-03-02T00:00:00.000Z", "2026-03-03T00:00:00.000Z", "b"),
        quote("eur", "manual", "2026-03-02T00:00:00.000Z", "2026-03-03T00:00:00.000Z", "c"),
    ];
    let latest = latest_manual_quotes(&rows, &now()).expect("latest");
    assert_eq!(latest.len(), 1);
    assert_eq!(latest[0].id, "c");
}

#[test]
fn an_unreadable_manual_instant_fails_the_read() {
    let rows = vec![quote("vti", "manual", "yesterday", "2026-03-01T00:00:00.000Z", "q1")];
    assert!(matches!(latest_manual_quotes(&rows, &now()), Err(AppError::DatabaseUnavailable)));
    let provider = vec![quote("vti", "provider", "yesterday", "2026-03-01T00:00:00.000Z", "q1")];
    assert!(latest_manual_quotes(&provider, &now()).expect("latest").is_empty());
}
