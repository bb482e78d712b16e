use liminal_voice_core::clock::{civil_from_days, format_rfc3339};

#[test]
fn civil_dates_of_known_days() {
    assert_eq!(civil_from_days(0), (1970, 1, 1));
    assert_eq!(civil_from_days(-1), (1969, 12, 31));
    assert_eq!(civil_from_days(59), (1970, 3, 1));
    assert_eq!(civil_from_days(11_016), (2000, 2, 29));
    assert_eq!(civil_from_days(11_017), (2000, 3, 1));
    assert_eq!(civil_from_days(19_723), (2024, 1, 1));
    assert_eq!(civil_from_days(-719_468), (0, 3, 1));
    assert_eq!(civil_from_days(-719_469), (0, 2, 29));
    assert_eq!(civil_from_days(47_541), (2100, 3, 1));
    assert_eq!(civil_from_days(47_540), (2100, 2, 28));
}

#[test]
fn time_stamps_of_known_moments() {
    assert_eq!(format_rfc3339(0, 0), "1970-01-01T00:00:00.000Z");
    assert_eq!(format_rfc3339(1_704_067_200, 0), "2024-01-01T00:00:00.000Z");
    assert_eq!(format_rfc3339(1_709_251_199, 999_999_999), "2024-02-29T23:59:59.999Z");
    assert_eq!(format_rfc3339(951_782_400 + 3_661, 5_000_000), "2000-02-29T01:01:01.005Z");
    assert_eq!(format_rfc3339(253_402_300_800, 0), "10000-01-01T00:00:00.000Z");
    assert_eq!(format_rfc3339(86_399, u32::MAX), "1970-01-01T23:59:59.4294Z");
}
