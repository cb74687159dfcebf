use jobjrnl::date::{month_length, Date};
use jobjrnl::text::{digit_of, digit_str, int_to_string, push_decimal, push_int, push_padded};

#[test]
fn it_works() {
    let result = jobjrnl::add(2, 2);
    assert_eq!(result, 4);
}

#[test]
fn add_of_zero_is_the_other() {
    assert_eq!(jobjrnl::add(0, 7), 7);
    assert_eq!(jobjrnl::add(7, 0), 7);
}

#[test]
fn parse_reads_year_month_day() {
    assert_eq!(Date::parse("2024-03-15"), Some(Date { year: 2024, month: 3, day: 15 }));
    assert_eq!(Date::parse("0000-01-01"), Some(Date { year: 0, month: 1, day: 1 }));
    assert_eq!(Date::parse("9999-12-31"), Some(Date { year: 9999, month: 12, day: 31 }));
}

#[test]
fn parse_then_render_gives_the_text_back() {
    for text in ["2024-02-29", "1999-12-31", "2000-02-29", "0001-01-01", "2023-11-30"] {
        let date = Date::parse(text).unwrap();
        assert_eq!(date.render(), text);
    }
}

#[test]
fn render_then_parse_gives_the_date_back() {
    let date = Date { year: 805, month: 7, day: 4 };
    assert_eq!(date.render(), "0805-07-04");
    assert_eq!(Date::parse(&date.render()), Some(date));
}

#[test]
fn round_trip_over_every_day_of_two_years() {
    for year in [2023u16, 2024u16] {
        let mut days = 0;
        for month in 1u8..=12 {
            for day in 1u8..=month_length(year, month) {
                let date = Date::from_ymd(year, month, day).unwrap();
                assert_eq!(Date::parse(&date.render()), Some(date));
                days += 1;
            }
        }
        assert_eq!(days, if year == 2024 { 366 } else { 365 });
    }
}

#[test]
fn parse_refuses_what_is_no_date() {
    for text in [
        "", "2024", "2024-3-15", "2024-03-5", "24-03-15", "2024/03/15", "2024-03-15 ",
        " 2024-03-15", "2024-13-01", "2024-00-10", "2024-01-00", "2024-01-32", "2023-02-29",
        "1900-02-29", "2024-04-31", "abcd-ef-gh", "2024-03-1x", "+2024-03-15", "2024-03-15T00",
        "２０２４-03-15", "not a date",
    ] {
        assert_eq!(Date::parse(text), None, "{:?}", text);
    }
}

#[test]
fn february_has_a_29th_in_leap_years_only() {
    assert_eq!(month_length(2024, 2), 29);
    assert_eq!(month_length(2023, 2), 28);
    assert_eq!(month_length(1900, 2), 28);
    assert_eq!(month_length(2000, 2), 29);
    assert_eq!(month_length(2024, 4), 30);
    assert_eq!(month_length(2024, 12), 31);
}

#[test]
fn from_ymd_gives_only_days_of_the_calendar() {
    assert_eq!(Date::from_ymd(2024, 2, 29), Some(Date { year: 2024, month: 2, day: 29 }));
    assert_eq!(Date::from_ymd(2023, 2, 29), None);
    assert_eq!(Date::from_ymd(10000, 1, 1), None);
    assert_eq!(Date::from_ymd(2024, 0, 1), None);
    assert_eq!(Date::from_ymd(2024, 13, 1), None);
    assert_eq!(Date::from_ymd(2024, 1, 0), None);
}

#[test]
fn digits_and_their_characters() {
    assert_eq!(digit_str(0), "0");
    assert_eq!(digit_str(7), "7");
    assert_eq!(digit_str(9), "9");
    assert_eq!(digit_of('0'), Some(0));
    assert_eq!(digit_of('9'), Some(9));
    assert_eq!(digit_of('a'), None);
    assert_eq!(digit_of('-'), None);
}

#[test]
fn numerals_are_decimal() {
    assert_eq!(int_to_string(0), "0");
    assert_eq!(int_to_string(7), "7");
    assert_eq!(int_to_string(10), "10");
    assert_eq!(int_to_string(1203), "1203");
    assert_eq!(int_to_string(-45), "-45");
    assert_eq!(int_to_string(i64::MAX), "9223372036854775807");
    assert_eq!(int_to_string(i64::MIN), "-9223372036854775808");
    let mut out = String::from("n=");
    push_decimal(&mut out, u64::MAX);
    assert_eq!(out, "n=18446744073709551615");
    push_int(&mut out, -1);
    assert_eq!(out, "n=18446744073709551615-1");
}

#[test]
fn padding_fills_on_the_right_and_never_cuts() {
    let mut out = String::from("[");
    push_padded(&mut out, "ab", 5);
    out.push(']');
    assert_eq!(out, "[ab   ]");
    let mut out = String::new();
    push_padded(&mut out, "abcdef", 4);
    assert_eq!(out, "abcdef");
    let mut out = String::new();
    push_padded(&mut out, "abcd", 4);
    assert_eq!(out, "abcd");
    let mut out = String::new();
    push_padded(&mut out, "", 3);
    assert_eq!(out, "   ");
    let mut out = String::new();
    push_padded(&mut out, "é", 3);
    assert_eq!(out, format!("{:<3}", "é"));
}
