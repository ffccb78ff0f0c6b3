use herdr_mirror::clock::{civil_from_days, iso_timestamp, now_iso, reading_or_epoch};

#[test]
fn days_are_dates() {
    assert_eq!(civil_from_days(0), (1970, 1, 1));
    assert_eq!(civil_from_days(-1), (1969, 12, 31));
    assert_eq!(civil_from_days(59), (1970, 3, 1));
    assert_eq!(civil_from_days(11016), (2000, 2, 29));
    assert_eq!(civil_from_days(11017), (2000, 3, 1));
    assert_eq!(civil_from_days(19782), (2024, 2, 29));
    assert_eq!(civil_from_days(47540), (2100, 2, 28));
    assert_eq!(civil_from_days(47541), (2100, 3, 1));
    assert_eq!(civil_from_days(-719468), (0, 3, 1));
    assert_eq!(civil_from_days(-719469), (0, 2, 29));
    assert_eq!(civil_from_days(-719529), (-1, 12, 31));
}

fn is_leap(y: i64) -> bool {
    y % 4 == 0 && (y % 100 != 0 || y % 400 == 0)
}

/// Day follows day, through every month and leap year of eight centuries.
#[test]
fn each_day_follows_the_one_before() {
    let months = [31, 28, 31, 30, 31, 30, 31, 31, 30, 31, 30, 31];
    let (mut y, mut m, mut d) = civil_from_days(-146097);
    assert_eq!((y, m, d), (1570, 1, 1));
    for z in -146096..=146097 {
        let last = if m == 2 && is_leap(y) { 29 } else { months[m as usize - 1] };
        d += 1;
        if d > last {
            d = 1;
            m += 1;
        }
        if m > 12 {
            m = 1;
            y += 1;
        }
        assert_eq!(civil_from_days(z), (y, m, d));
    }
}

#[test]
fn moments_are_timestamps() {
    assert_eq!(iso_timestamp(0, 0), "1970-01-01T00:00:00.000Z");
    assert_eq!(iso_timestamp(1_000_000_000, 7), "2001-09-09T01:46:40.007Z");
    assert_eq!(iso_timestamp(1_709_251_199, 999), "2024-02-29T23:59:59.999Z");
    assert_eq!(iso_timestamp(253_402_300_800, 0), "10000-01-01T00:00:00.000Z");
}

#[test]
fn now_has_the_shape_of_a_timestamp() {
    let stamp = now_iso();
    assert_eq!(stamp.len(), 24);
    assert!(stamp.ends_with('Z'));
    assert_eq!(stamp.as_bytes()[10], b'T');
    // this was written after 2024
    assert!(stamp.as_str() > "2024");
}

/// A clock that is set before the epoch reads as the epoch.
#[test]
fn a_clock_before_the_epoch_reads_as_the_epoch() {
    assert_eq!(reading_or_epoch(None), (0, 0));
    assert_eq!(reading_or_epoch(Some((5, 7))), (5, 7));
}
