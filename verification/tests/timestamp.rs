use chrono::NaiveDate;
use linkview::timestamp::Timestamp;

#[test]
fn valid_dates_are_those_of_the_calendar() {
    for year in [0, 1, 4, 100, 400, 999, 1000, 1900, 2000, 2023, 2024, 9999] {
        for month in 0..=13u32 {
            for day in 0..=32u32 {
                let ours = Timestamp::new(year, month, day, 12, 30, 45);
                let theirs = NaiveDate::from_ymd_opt(year, month, day);
                assert_eq!(ours.is_some(), theirs.is_some(), "{}-{}-{}", year, month, day);
            }
        }
    }
}

#[test]
fn label_pads_every_field_with_zeros() {
    for year in [0, 7, 42, 999, 1000, 2024, 9999] {
        for (month, day) in [(1u32, 1u32), (2, 28), (9, 9), (10, 10), (12, 31)] {
            for (hour, minute, second) in [(0u32, 0u32, 0u32), (9, 9, 9), (10, 10, 10), (23, 59, 59)] {
                let at = Timestamp::new(year, month, day, hour, minute, second).unwrap();
                let expected = format!(
                    "[{:02}/{:02}/{:04} {:02}:{:02}:{:02}] ",
                    day, month, year, hour, minute, second
                );
                assert_eq!(at.format(), expected);
            }
        }
    }
}
