use logging::timestamp::{civil_from_days, unix_nanos_to_iso8601, CivilDate};

#[test]
fn iso8601_of_the_epoch() {
    assert_eq!(unix_nanos_to_iso8601(0), "1970-01-01T00:00:00.000000000Z");
}

#[test]
fn iso8601_of_given_instants() {
    assert_eq!(unix_nanos_to_iso8601(1_650_000_000_000_000), "1970-01-20T02:20:00.000000000Z");
    assert_eq!(unix_nanos_to_iso8601(86_399_999_999_999), "1970-01-01T23:59:59.999999999Z");
    assert_eq!(unix_nanos_to_iso8601(86_400_000_000_000), "1970-01-02T00:00:00.000000000Z");
    assert_eq!(
        unix_nanos_to_iso8601(1_700_000_000_123_456_789),
        "2023-11-14T22:13:20.123456789Z"
    );
    assert_eq!(
        unix_nanos_to_iso8601(1_735_689_599_000_000_000),
        "2024-12-31T23:59:59.000000000Z"
    );
}

#[test]
fn iso8601_around_leap_days() {
    assert_eq!(unix_nanos_to_iso8601(68_169_600_000_000_000), "1972-02-29T00:00:00.000000000Z");
    assert_eq!(unix_nanos_to_iso8601(951_782_400_000_000_000), "2000-02-29T00:00:00.000000000Z");
    assert_eq!(
        unix_nanos_to_iso8601(1_709_164_799_999_999_999),
        "2024-02-28T23:59:59.999999999Z"
    );
    assert_eq!(
        unix_nanos_to_iso8601(1_709_164_800_000_000_000),
        "2024-02-29T00:00:00.000000000Z"
    );
    assert_eq!(
        unix_nanos_to_iso8601(1_709_251_200_000_000_001),
        "2024-03-01T00:00:00.000000001Z"
    );
    assert_eq!(
        unix_nanos_to_iso8601(4_107_542_400_123_456_789),
        "2100-03-01T00:00:00.123456789Z"
    );
}

#[test]
fn iso8601_of_the_last_instant() {
    assert_eq!(unix_nanos_to_iso8601(u64::MAX), "2554-07-21T23:34:33.709551615Z");
}

#[test]
fn iso8601_has_thirty_characters() {
    for ns in [0u64, 1, 999_999_999, 1_000_000_000, u64::MAX / 3, u64::MAX] {
        let text = unix_nanos_to_iso8601(ns);
        assert_eq!(text.len(), 30);
        assert!(text.ends_with('Z'));
        assert_eq!(&text[10..11], "T");
    }
}

#[test]
fn civil_from_days_on_given_days() {
    let date = |year, month, day| CivilDate { year, month, day };
    assert_eq!(civil_from_days(0), date(1970, 1, 1));
    assert_eq!(civil_from_days(58), date(1970, 2, 28));
    assert_eq!(civil_from_days(59), date(1970, 3, 1));
    assert_eq!(civil_from_days(365), date(1971, 1, 1));
    assert_eq!(civil_from_days(789), date(1972, 2, 29));
    assert_eq!(civil_from_days(790), date(1972, 3, 1));
    assert_eq!(civil_from_days(11_016), date(2000, 2, 29));
    assert_eq!(civil_from_days(11_017), date(2000, 3, 1));
    assert_eq!(civil_from_days(19_782), date(2024, 2, 29));
    assert_eq!(civil_from_days(47_540), date(2100, 2, 28));
    assert_eq!(civil_from_days(47_541), date(2100, 3, 1));
    assert_eq!(civil_from_days(213_503), date(2554, 7, 21));
    assert_eq!(civil_from_days(2_900_000), date(9909, 12, 7));
}

#[test]
fn civil_from_days_beyond_four_digit_years() {
    let date = |year, month, day| CivilDate { year, month, day };
    assert_eq!(civil_from_days(146_096), date(2369, 12, 31));
    assert_eq!(civil_from_days(146_097), date(2370, 1, 1));
    assert_eq!(civil_from_days(2_932_896), date(9999, 12, 31));
    assert_eq!(civil_from_days(2_932_897), date(10_000, 1, 1));
    assert_eq!(civil_from_days(1_000_000_000_000), date(2_737_908_976, 12, 27));
    assert_eq!(civil_from_days(u64::MAX), date(50_505_469_855_535_079, 2, 21));
}

#[test]
fn civil_from_days_counts_every_day_once() {
    let mut previous = civil_from_days(0);
    for days in 1..=150_000u64 {
        let date = civil_from_days(days);
        let next_day = date.year == previous.year && date.month == previous.month
            && date.day == previous.day + 1;
        let next_month = date.year == previous.year && date.month == previous.month + 1
            && date.day == 1 && previous.day >= 28;
        let next_year = date.year == previous.year + 1 && date.month == 1 && date.day == 1
            && previous.month == 12 && previous.day == 31;
        assert!(next_day || next_month || next_year);
        previous = date;
    }
}
