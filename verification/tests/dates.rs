use beancount_statements::date::{Date, MAX_YEAR, MIN_YEAR};

fn ymd(d: Date) -> (i32, u32, u32) {
    (d.year(), d.month(), d.day())
}

#[test]
fn date_round_trip() {
    let date = Date::parse_dmy("31.12.2023").unwrap();
    assert_eq!(ymd(date), (2023, 12, 31));
    assert_eq!(date.render(), "2023-12-31");
}

#[test]
fn date_reads_day_month_year() {
    assert_eq!(Date::parse_dmy("01.01.2024").map(ymd), Some((2024, 1, 1)));
    assert_eq!(Date::parse_dmy("29.02.2024").map(ymd), Some((2024, 2, 29)));
    assert_eq!(Date::parse_dmy("1.2.2024").map(ymd), Some((2024, 2, 1)));
}

#[test]
fn date_refuses_what_is_no_date() {
    for text in [
        "", "Coffee Shop", "4.50", "2023-12-31", "31.12", "31.12.", "31/12/2023", "32.01.2024",
        "29.02.2023", "00.01.2024", "01.13.2024", "01.01.2024 ", "01.01.2024x", "ab.cd.efgh",
    ] {
        assert_eq!(Date::parse_dmy(text), None, "{:?}", text);
    }
}

#[test]
fn date_reads_the_day_of_a_timestamp() {
    assert_eq!(Date::parse_timestamp("2024-03-05 13:45:10").map(ymd), Some((2024, 3, 5)));
    assert_eq!(Date::parse_timestamp("2023-12-31 23:59:59").map(ymd), Some((2023, 12, 31)));
    assert_eq!(Date::parse_timestamp("2024-02-29 00:00:00").map(ymd), Some((2024, 2, 29)));
}

#[test]
fn date_refuses_what_is_no_timestamp() {
    for text in [
        "", "2024-03-05", "2024-03-05T13:45:10", "05.03.2024 13:45:10", "2024-03-05 25:00:00",
        "2024-02-30 10:00:00", "2024-03-05 13:45", "2024-03-05 13:45:10 UTC",
    ] {
        assert_eq!(Date::parse_timestamp(text), None, "{:?}", text);
    }
}

#[test]
fn date_from_ymd_knows_the_calendar() {
    assert_eq!(Date::from_ymd(2024, 2, 29).map(ymd), Some((2024, 2, 29)));
    assert_eq!(Date::from_ymd(2023, 2, 29), None);
    assert_eq!(Date::from_ymd(1900, 2, 29), None);
    assert_eq!(Date::from_ymd(2000, 2, 29).map(ymd), Some((2000, 2, 29)));
    assert_eq!(Date::from_ymd(2024, 4, 31), None);
    assert_eq!(Date::from_ymd(2024, 4, 30).map(ymd), Some((2024, 4, 30)));
    assert_eq!(Date::from_ymd(2024, 13, 1), None);
    assert_eq!(Date::from_ymd(2024, 0, 1), None);
    assert_eq!(Date::from_ymd(2024, 1, 0), None);
    assert_eq!(Date::from_ymd(2024, 1, 32), None);
    assert_eq!(Date::from_ymd(-4, 2, 29).map(ymd), Some((-4, 2, 29)));
    assert_eq!(Date::from_ymd(-1, 2, 29), None);
    assert_eq!(Date::from_ymd(0, 2, 29).map(ymd), Some((0, 2, 29)));
}

#[test]
fn date_from_ymd_knows_the_range_of_years() {
    assert_eq!(MIN_YEAR, -262143);
    assert_eq!(MAX_YEAR, 262142);
    assert!(Date::from_ymd(MAX_YEAR, 12, 31).is_some());
    assert!(Date::from_ymd(MAX_YEAR + 1, 1, 1).is_none());
    assert!(Date::from_ymd(MIN_YEAR, 1, 1).is_some());
    assert!(Date::from_ymd(MIN_YEAR - 1, 12, 31).is_none());
    assert!(Date::from_ymd(i32::MAX, 1, 1).is_none());
    assert!(Date::from_ymd(i32::MIN, 1, 1).is_none());
}

#[test]
fn date_from_ymd_agrees_with_chrono() {
    let years = [
        MIN_YEAR - 1, MIN_YEAR, MIN_YEAR + 1, -401, -400, -101, -100, -5, -4, -1, 0, 1, 4, 100,
        400, 1899, 1900, 1999, 2000, 2023, 2024, 2100, 9999, 10000, MAX_YEAR - 1, MAX_YEAR,
        MAX_YEAR + 1,
    ];
    for year in years {
        for month in 0..=13u32 {
            for day in 0..=32u32 {
                let ours = Date::from_ymd(year, month, day).map(ymd);
                let theirs =
                    chrono::NaiveDate::from_ymd_opt(year, month, day).map(|_| (year, month, day));
                assert_eq!(ours, theirs, "{} {} {}", year, month, day);
            }
        }
    }
}

#[test]
fn date_is_written_year_first() {
    let text = |y: i32, m: u32, d: u32| Date::from_ymd(y, m, d).unwrap().render();
    assert_eq!(text(2024, 1, 1), "2024-01-01");
    assert_eq!(text(2023, 12, 31), "2023-12-31");
    assert_eq!(text(1000, 10, 10), "1000-10-10");
    assert_eq!(text(999, 9, 9), "0999-09-09");
    assert_eq!(text(5, 1, 2), "0005-01-02");
    assert_eq!(text(0, 1, 1), "0000-01-01");
    assert_eq!(text(9999, 12, 31), "9999-12-31");
}

#[test]
fn date_is_written_with_a_sign_outside_four_digits() {
    let text = |y: i32, m: u32, d: u32| Date::from_ymd(y, m, d).unwrap().render();
    assert_eq!(text(10000, 1, 1), "+10000-01-01");
    assert_eq!(text(MAX_YEAR, 12, 31), "+262142-12-31");
    assert_eq!(text(-1, 1, 1), "-0001-01-01");
    assert_eq!(text(-44, 3, 15), "-0044-03-15");
    assert_eq!(text(-9999, 3, 15), "-9999-03-15");
    assert_eq!(text(-10000, 3, 15), "-10000-03-15");
    assert_eq!(text(MIN_YEAR, 1, 1), "-262143-01-01");
}

#[test]
fn date_read_from_either_form_is_written_alike() {
    let a = Date::parse_dmy("05.03.2024").unwrap();
    let b = Date::parse_timestamp("2024-03-05 13:45:10").unwrap();
    assert_eq!(a, b);
    assert_eq!(a.render(), "2024-03-05");
}
