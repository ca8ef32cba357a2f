use ytup::model::VideoUploadRequest;
use ytup::schedule::{default_publish_at, month_length, release_instant, tomorrow, CivilDate};

fn date(year: i32, month: u32, day: u32) -> CivilDate {
    CivilDate { year, month, day }
}

#[test]
fn late_evening_and_just_after_midnight_both_give_next_midnight() {
    // 2024-03-10T23:59:00+01:00 and 2024-03-10T00:00:01+01:00 fall on the same local day.
    let late = default_publish_at(date(2024, 3, 10), 3600);
    let early = default_publish_at(date(2024, 3, 10), 3600);
    assert_eq!(late.as_deref(), Some("2024-03-11T00:00:00+01:00"));
    assert_eq!(early.as_deref(), Some("2024-03-11T00:00:00+01:00"));
}

#[test]
fn next_midnight_crosses_months_years_and_leap_days() {
    assert_eq!(
        default_publish_at(date(2024, 2, 28), 0).as_deref(),
        Some("2024-02-29T00:00:00+00:00")
    );
    assert_eq!(
        default_publish_at(date(2023, 2, 28), -18000).as_deref(),
        Some("2023-03-01T00:00:00-05:00")
    );
    assert_eq!(
        default_publish_at(date(2024, 12, 31), 19800).as_deref(),
        Some("2025-01-01T00:00:00+05:30")
    );
    assert_eq!(
        default_publish_at(date(2024, 4, 30), 7200).as_deref(),
        Some("2024-05-01T00:00:00+02:00")
    );
}

#[test]
fn invalid_dates_and_offsets_give_no_schedule() {
    assert_eq!(default_publish_at(date(2023, 2, 29), 0), None);
    assert_eq!(default_publish_at(date(2024, 13, 1), 0), None);
    assert_eq!(default_publish_at(date(2024, 3, 10), 86400), None);
}

#[test]
fn month_lengths_follow_the_gregorian_calendar() {
    assert_eq!(month_length(2024, 2), 29);
    assert_eq!(month_length(1900, 2), 28);
    assert_eq!(month_length(2000, 2), 29);
    assert_eq!(month_length(2023, 4), 30);
    assert_eq!(month_length(2023, 12), 31);
}

#[test]
fn tomorrow_is_an_rfc3339_midnight() {
    let stamp = tomorrow().expect("local midnight exists");
    assert_eq!(&stamp[10..19], "T00:00:00");
}

#[test]
fn years_outside_four_digits_and_odd_offsets_are_written_as_chrono_does() {
    assert_eq!(
        default_publish_at(date(9999, 12, 31), 0).as_deref(),
        Some("+10000-01-01T00:00:00+00:00")
    );
    assert_eq!(
        default_publish_at(date(-2, 12, 31), 0).as_deref(),
        Some("-0001-01-01T00:00:00+00:00")
    );
    assert_eq!(
        default_publish_at(date(2024, 3, 10), 3630).as_deref(),
        Some("2024-03-11T00:00:00+01:01")
    );
}

fn with_publish_at(p: &str) -> VideoUploadRequest {
    VideoUploadRequest {
        title: "t".to_string(),
        description: "d".to_string(),
        tags: vec![],
        category: "22".to_string(),
        privacy_status: "private".to_string(),
        publish_at: p.to_string(),
    }
}

#[test]
fn release_instant_reads_rfc3339_or_gives_none() {
    assert_eq!(
        release_instant(&with_publish_at("2024-03-11T00:00:00+01:00")),
        Some((1710111600, 0))
    );
    assert_eq!(
        release_instant(&with_publish_at("2024-03-11T00:00:00.5Z")),
        Some((1710115200, 500_000_000))
    );
    assert_eq!(release_instant(&with_publish_at("")), None);
    assert_eq!(release_instant(&with_publish_at("tomorrow")), None);
}
