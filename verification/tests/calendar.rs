use chrono::NaiveDate;
use smmdb::calendar::timestamp;

fn chrono_seconds(year: u16, month: u8, day: u8, hour: u8, minute: u8) -> i64 {
    NaiveDate::from_ymd_opt(year as i32, month as u32, day as u32)
        .unwrap()
        .and_hms_opt(hour as u32, minute as u32, 0)
        .unwrap()
        .and_utc()
        .timestamp()
}

#[test]
fn timestamp_of_the_epoch_is_zero() {
    assert_eq!(timestamp(1970, 1, 1, 0, 0), Some(0));
}

#[test]
fn timestamp_known_dates() {
    assert_eq!(timestamp(2015, 5, 15, 0, 0), Some(1_431_648_000));
    assert_eq!(timestamp(2000, 2, 29, 12, 30), Some(951_827_400));
    assert_eq!(timestamp(2019, 6, 28, 23, 59), Some(1_561_766_340));
}

#[test]
fn timestamp_before_the_epoch_wraps() {
    assert_eq!(timestamp(1969, 12, 31, 23, 59), Some(u64::MAX - 59));
    assert_eq!(timestamp(0, 1, 1, 0, 0), Some((-62_167_219_200i64) as u64));
}

#[test]
fn timestamp_agrees_with_chrono() {
    let dates: [(u16, u8, u8, u8, u8); 10] = [
        (0, 1, 1, 0, 0),
        (0, 2, 29, 1, 1),
        (1, 3, 1, 0, 0),
        (1600, 2, 29, 23, 59),
        (1900, 2, 28, 0, 0),
        (1969, 7, 20, 20, 17),
        (2020, 12, 31, 23, 59),
        (2100, 3, 1, 6, 0),
        (40000, 6, 15, 12, 0),
        (65535, 12, 31, 23, 59),
    ];
    for (year, month, day, hour, minute) in dates {
        assert_eq!(
            timestamp(year, month, day, hour, minute),
            Some(chrono_seconds(year, month, day, hour, minute) as u64)
        );
    }
}

#[test]
fn timestamp_refuses_what_is_no_date() {
    assert_eq!(timestamp(2019, 2, 29, 0, 0), None);
    assert_eq!(timestamp(1900, 2, 29, 0, 0), None);
    assert_eq!(timestamp(2019, 0, 1, 0, 0), None);
    assert_eq!(timestamp(2019, 13, 1, 0, 0), None);
    assert_eq!(timestamp(2019, 4, 31, 0, 0), None);
    assert_eq!(timestamp(2019, 1, 0, 0, 0), None);
    assert_eq!(timestamp(2019, 1, 32, 0, 0), None);
}

#[test]
fn timestamp_refuses_what_is_no_time() {
    assert_eq!(timestamp(2019, 1, 1, 24, 0), None);
    assert_eq!(timestamp(2019, 1, 1, 0, 60), None);
    assert_eq!(timestamp(2019, 1, 1, 23, 59), Some(1_546_387_140));
}
