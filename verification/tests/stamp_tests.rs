use rusty_todo::stamp::{date_stamp, STAMP_WIDTH};

#[test]
fn stamp_of_an_ordinary_date() {
    assert_eq!(date_stamp(2024, 3, 9), "[2024-03-09] - ");
    assert_eq!(date_stamp(1999, 12, 31), "[1999-12-31] - ");
    assert_eq!(date_stamp(2000, 1, 1), "[2000-01-01] - ");
}

#[test]
fn stamp_pads_a_short_year() {
    assert_eq!(date_stamp(0, 1, 1), "[0000-01-01] - ");
    assert_eq!(date_stamp(7, 10, 20), "[0007-10-20] - ");
    assert_eq!(date_stamp(123, 4, 5), "[0123-04-05] - ");
}

#[test]
fn stamp_keeps_a_long_year_whole() {
    assert_eq!(date_stamp(12345, 6, 7), "[12345-06-07] - ");
    assert_eq!(date_stamp(i32::MAX, 6, 7), "[2147483647-06-07] - ");
}

#[test]
fn stamp_of_a_negative_year() {
    assert_eq!(date_stamp(-5, 1, 1), "[00-5-01-01] - ");
    assert_eq!(date_stamp(-12345, 1, 1), "[-12345-01-01] - ");
    assert_eq!(date_stamp(i32::MIN, 1, 1), "[-2147483648-01-01] - ");
}

#[test]
fn stamp_of_four_digit_years_has_the_stamp_width() {
    for year in [0, 1, 99, 100, 999, 1000, 1970, 2024, 9999] {
        for (month, day) in [(1, 1), (9, 9), (10, 10), (12, 31)] {
            assert_eq!(date_stamp(year, month, day).chars().count(), STAMP_WIDTH);
        }
    }
}

#[test]
fn stamp_agrees_with_the_formatter() {
    let years = [i32::MIN, -10000, -999, -1, 0, 9, 10, 99, 100, 999, 1000, 2024, 9999, 10000, i32::MAX];
    let smalls = [0u32, 1, 9, 10, 12, 31, 99, 100, 4096, u32::MAX];
    for year in years {
        for month in smalls {
            for day in smalls {
                let expected = format!("[{:0>4}-{:0>2}-{:0>2}] - ", year, month, day);
                assert_eq!(date_stamp(year, month, day), expected);
            }
        }
    }
}
