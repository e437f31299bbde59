use chrono::Datelike;
use todo_app::{Date, Timestamp};

fn at(micros: i64) -> Timestamp {
    Timestamp::from_micros(micros).unwrap()
}

#[test]
fn epoch_is_the_first_of_january_1970() {
    assert_eq!(Date::from(at(0)), Date { month: 1, day: 1, year: 1970 });
}

#[test]
fn the_microsecond_before_the_epoch_is_in_1969() {
    assert_eq!(Date::from(at(-1)), Date { month: 12, day: 31, year: 1969 });
}

#[test]
fn a_leap_day_is_found() {
    // 2024-02-29T12:00:00Z
    assert_eq!(Date::from(at(1_709_208_000_000_000)), Date { month: 2, day: 29, year: 2024 });
}

#[test]
fn the_date_changes_at_midnight_utc() {
    // 2015-05-15T00:00:00Z is 1431648000 seconds after the epoch.
    let midnight = 1_431_648_000_000_000;
    assert_eq!(Date::from(at(midnight - 1)), Date { month: 5, day: 14, year: 2015 });
    assert_eq!(Date::from(at(midnight)), Date { month: 5, day: 15, year: 2015 });
}

#[test]
fn instants_without_a_date_are_refused() {
    assert_eq!(Timestamp::from_micros(i64::MAX), None);
    assert_eq!(Timestamp::from_micros(i64::MIN), None);
}

#[test]
fn micros_are_kept() {
    assert_eq!(at(1_662_921_288_000_000).micros(), 1_662_921_288_000_000);
    assert_eq!(at(-2_208_936_075_000_000).micros(), -2_208_936_075_000_000);
}

#[test]
fn agrees_with_chrono() {
    for micros in [0i64, 1, -1, 86_399_999_999, 86_400_000_000, 951_782_400_000_000, -62_135_596_800_000_000] {
        let instant = chrono::DateTime::from_timestamp_micros(micros).unwrap();
        let date = Date::from(at(micros));
        assert_eq!((date.year, date.month, date.day), (instant.year(), instant.month(), instant.day()));
    }
}
