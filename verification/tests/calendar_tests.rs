use belgian_spot_tariff_calculator::calendar::{
    check_month, days_in_month, is_leap_year, parse_belpex_date, parse_belpex_time,
};
use belgian_spot_tariff_calculator::error::{DateProblem, TariffError, TimeProblem};

fn time_problem(value: &str) -> TimeProblem {
    match parse_belpex_time(value) {
        Err(TariffError::InvalidBelpexTime { value: v, time_problem }) => {
            assert_eq!(v, value);
            time_problem
        }
        other => panic!("expected an invalid time, got {other:?}"),
    }
}

fn date_problem(value: &str) -> DateProblem {
    match parse_belpex_date(value) {
        Err(TariffError::InvalidBelpexDate { value: v, date_problem }) => {
            assert_eq!(v, value);
            date_problem
        }
        other => panic!("expected an invalid date, got {other:?}"),
    }
}

#[test]
fn parses_belpex_time() {
    assert_eq!(parse_belpex_time("23u45").unwrap(), (23, 45));
    assert_eq!(parse_belpex_time("0u00").unwrap(), (0, 0));
    assert!(parse_belpex_time("24u00").is_err());
    assert!(parse_belpex_time("12:15").is_err());
}

#[test]
fn belpex_time_is_trimmed_and_accepts_a_plus_sign() {
    assert_eq!(parse_belpex_time("  7u15\t").unwrap(), (7, 15));
    assert_eq!(parse_belpex_time("+7u+30").unwrap(), (7, 30));
    assert_eq!(parse_belpex_time("007u045").unwrap(), (7, 45));
}

#[test]
fn belpex_time_problems_are_told_apart() {
    assert_eq!(time_problem("12:15"), TimeProblem::MissingSeparator);
    assert_eq!(time_problem(""), TimeProblem::MissingSeparator);
    assert_eq!(time_problem("u15"), TimeProblem::InvalidHour);
    assert_eq!(time_problem("256u00"), TimeProblem::InvalidHour);
    assert_eq!(time_problem("1 2u00"), TimeProblem::InvalidHour);
    assert_eq!(time_problem("12u"), TimeProblem::InvalidMinute);
    assert_eq!(time_problem("12u1u5"), TimeProblem::InvalidMinute);
    assert_eq!(time_problem("12u-15"), TimeProblem::InvalidMinute);
    assert_eq!(time_problem("24u00"), TimeProblem::NotAQuarterHour);
    assert_eq!(time_problem("12u10"), TimeProblem::NotAQuarterHour);
    assert_eq!(time_problem("12u255"), TimeProblem::NotAQuarterHour);
}

#[test]
fn parses_belpex_dates() {
    assert_eq!(parse_belpex_date("01/04/2026").unwrap(), Some((1, 4, 2026)));
    assert_eq!(parse_belpex_date(" 31/12/1999 ").unwrap(), Some((31, 12, 1999)));
    assert_eq!(parse_belpex_date("").unwrap(), None);
    assert_eq!(parse_belpex_date("   ").unwrap(), None);
}

#[test]
fn belpex_date_problems_are_told_apart() {
    assert_eq!(date_problem("01-04-2026"), DateProblem::WrongShape);
    assert_eq!(date_problem("01/04"), DateProblem::WrongShape);
    assert_eq!(date_problem("01/04/20/26"), DateProblem::WrongShape);
    assert_eq!(date_problem("x/04/2026"), DateProblem::InvalidDay);
    assert_eq!(date_problem("300/04/2026"), DateProblem::InvalidDay);
    assert_eq!(date_problem("01//2026"), DateProblem::InvalidMonth);
    assert_eq!(date_problem("01/04/70000"), DateProblem::InvalidYear);
}

#[test]
fn month_lengths_follow_the_gregorian_calendar() {
    assert_eq!(days_in_month(2026, 1), Some(31));
    assert_eq!(days_in_month(2026, 4), Some(30));
    assert_eq!(days_in_month(2026, 2), Some(28));
    assert_eq!(days_in_month(2024, 2), Some(29));
    assert_eq!(days_in_month(1900, 2), Some(28));
    assert_eq!(days_in_month(2000, 2), Some(29));
    assert_eq!(days_in_month(2026, 0), None);
    assert_eq!(days_in_month(2026, 13), None);
    assert!(is_leap_year(2024));
    assert!(!is_leap_year(2100));
}

#[test]
fn only_existing_months_are_accepted() {
    assert!(check_month(1).is_ok());
    assert!(check_month(12).is_ok());
    assert!(matches!(check_month(0), Err(TariffError::InvalidMonth(0))));
    assert!(matches!(check_month(13), Err(TariffError::InvalidMonth(13))));
}

#[test]
fn written_times_read_back() {
    for h in 0u8..=23 {
        for m in [0u8, 15, 30, 45] {
            assert_eq!(parse_belpex_time(&format!("{h}u{m:02}")).unwrap(), (h, m));
            assert_eq!(parse_belpex_time(&format!(" {h:02}u{m:02} ")).unwrap(), (h, m));
        }
    }
}
