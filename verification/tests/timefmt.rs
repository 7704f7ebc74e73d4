use eocc_core::timefmt::{civil_from_days, iso_timestamp_utc};

#[test]
fn days_map_to_civil_dates() {
    assert_eq!(civil_from_days(0), (1970, 1, 1));
    assert_eq!(civil_from_days(-1), (1969, 12, 31));
    assert_eq!(civil_from_days(59), (1970, 3, 1));
    assert_eq!(civil_from_days(11016), (2000, 2, 29));
    assert_eq!(civil_from_days(20089), (2025, 1, 1));
    assert_eq!(civil_from_days(-719468), (0, 3, 1));
}

#[test]
fn timestamps_are_iso_8601_in_utc() {
    assert_eq!(iso_timestamp_utc(0), "1970-01-01T00:00:00.000Z");
    assert_eq!(iso_timestamp_utc(1_735_689_600_000), "2025-01-01T00:00:00.000Z");
    assert_eq!(iso_timestamp_utc(951_782_399_999), "2000-02-28T23:59:59.999Z");
    assert_eq!(iso_timestamp_utc(951_868_800_001), "2000-03-01T00:00:00.001Z");
}
