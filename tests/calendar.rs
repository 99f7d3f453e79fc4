use chrono::{Datelike, NaiveDate};
use daycal::classify::{DateUtils, Month, Weekday};
use daycal::config::CalendarConfig;
use daycal::date::CivilDate;
use daycal::range::DateRange;

fn get_naive_date(date: &str) -> NaiveDate {
    NaiveDate::parse_from_str(date, "%Y-%m-%d").unwrap()
}

fn civil(d: NaiveDate) -> CivilDate {
    CivilDate::new(d.year(), d.month(), d.day()).unwrap()
}

fn get_civil_date(date: &str) -> CivilDate {
    civil(get_naive_date(date))
}

#[test]
fn should_init_data_range() {
    let calendar_config = CalendarConfig::init(35, '-', '=', '#');
    let from = "2023-11-11";
    let to = "2023-11-20";
    let formated_from =
        NaiveDate::parse_from_str(from, &calendar_config.date_format.as_str()).unwrap();
    let formated_to = NaiveDate::parse_from_str(to, &calendar_config.date_format.as_str()).unwrap();

    let date_list = DateRange::init(from, to, &calendar_config).unwrap();
    assert_eq!(get_naive_date(from), formated_from);
    assert_eq!(get_naive_date(to), formated_to);
    assert_eq!(date_list.range.len(), 10);
    assert!(date_list.range.contains(&civil(formated_from)));
    assert!(date_list.range.contains(&civil(formated_to)))
}

#[test]
fn should_get_week_day_short_name() {
    let formated_date = get_civil_date("2023-11-21");
    let day = DateUtils::get_week_day_short_name(&formated_date);
    assert_eq!(day, Weekday::Tue);
}

#[test]
fn should_get_week_day_full_name() {
    let formatted_date = get_civil_date("2023-11-21");
    let full_day_name = DateUtils::get_week_day_full_name(&formatted_date);
    assert_eq!(full_day_name, "Tuesday")
}

#[test]
fn should_get_month_short_name() {
    let formated_date = get_civil_date("2023-11-21");
    let short_month_name = DateUtils::get_month_short_name(&formated_date);
    assert_eq!(short_month_name, Month::November);
}

#[test]
fn should_get_month_full_name() {
    let formated_date = get_civil_date("2023-11-21");
    let short_month_name = DateUtils::get_month_full_name(&formated_date);
    assert_eq!(short_month_name, "November");
}

#[test]
fn should_check_is_weekend() {
    let formated_fri = get_civil_date("2023-11-24");
    let formated_sat = get_civil_date("2023-11-25");
    let formated_sun = get_civil_date("2023-11-26");

    let sat = DateUtils::is_weekend(&formated_sat);
    assert_eq!(sat, true);
    let sun = DateUtils::is_weekend(&formated_sun);
    assert_eq!(sun, true);
    let fri = DateUtils::is_weekend(&formated_fri);
    assert_eq!(fri, false);
}
