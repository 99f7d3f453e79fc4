use daycal::classify::{DateUtils, Weekday};
use daycal::config::CalendarConfig;
use daycal::date::{is_leap, month_length, CivilDate};
use daycal::range::{DateError, DateRange};
use daycal::results::{build_day_line, lines_for_day, Results};
use daycal::text::{chars_of, contains_text, repeat_char};

fn date(y: i32, m: u32, d: u32) -> CivilDate {
    CivilDate::new(y, m, d).unwrap()
}

fn config() -> CalendarConfig {
    CalendarConfig::init(35, '-', '=', '#')
}

#[test]
fn config_builds_separators_and_marker() {
    let c = CalendarConfig::init(7, '-', '=', '#');
    assert_eq!(c.day_line_sep, "-------");
    assert_eq!(c.week_line_sep, "=======");
    assert_eq!(c.weekend_line_marker, "####");
    assert_eq!(c.date_format, "%Y-%m-%d");
    assert_eq!(c.line_length, 7);
}

#[test]
fn config_marker_ignores_width() {
    let c = CalendarConfig::init(1, 'a', 'b', '*');
    assert_eq!(c.day_line_sep, "a");
    assert_eq!(c.week_line_sep, "b");
    assert_eq!(c.weekend_line_marker, "****");
}

#[test]
fn range_spans_both_ends_in_order() {
    let r = DateRange::init("2023-11-11", "2023-11-20", &config()).unwrap();
    assert_eq!(r.range.len(), 10);
    assert_eq!(r.range[0], date(2023, 11, 11));
    assert_eq!(r.range[9], date(2023, 11, 20));
    for i in 0..9 {
        let a = r.range[i];
        let b = r.range[i + 1];
        assert!((a.year, a.month, a.day) < (b.year, b.month, b.day));
    }
}

#[test]
fn range_crosses_leap_day_and_year_end() {
    let r = DateRange::init("2023-12-30", "2024-03-01", &config()).unwrap();
    assert_eq!(r.range.len(), 2 + 31 + 29 + 1);
    assert_eq!(r.range[2], date(2024, 1, 1));
    assert_eq!(r.range[2 + 31 + 28], date(2024, 2, 29));
    assert_eq!(r.range[r.range.len() - 1], date(2024, 3, 1));
}

#[test]
fn range_of_one_day() {
    let r = DateRange::init("2024-02-29", "2024-02-29", &config()).unwrap();
    assert_eq!(r.range, vec![date(2024, 2, 29)]);
}

#[test]
fn range_reversed_is_empty() {
    let r = DateRange::init("2023-11-20", "2023-11-11", &config()).unwrap();
    assert!(r.range.is_empty());
}

#[test]
fn range_rejects_bad_from() {
    let r = DateRange::init("2023-13-01", "2023-11-11", &config());
    assert_eq!(r.err(), Some(DateError::InvalidFromDate));
    let r = DateRange::init("hello", "2023-11-11", &config());
    assert_eq!(r.err(), Some(DateError::InvalidFromDate));
}

#[test]
fn range_rejects_bad_to() {
    let r = DateRange::init("2023-11-11", "2023-11-31", &config());
    assert_eq!(r.err(), Some(DateError::InvalidToDate));
}

#[test]
fn range_between_counts_days() {
    let r = DateRange::between(date(2023, 11, 11), date(2024, 1, 1));
    assert_eq!(r.range.len(), 52);
    assert_eq!(r.range[20], date(2023, 12, 1));
}

#[test]
fn civil_date_validity() {
    assert!(CivilDate::new(2023, 2, 29).is_none());
    assert!(CivilDate::new(2024, 2, 29).is_some());
    assert!(CivilDate::new(2023, 4, 31).is_none());
    assert!(CivilDate::new(2023, 0, 1).is_none());
    assert!(CivilDate::new(2023, 12, 0).is_none());
    assert!(is_leap(2000));
    assert!(!is_leap(1900));
    assert_eq!(month_length(2023, 2), 28);
    assert_eq!(month_length(2024, 2), 29);
}

#[test]
fn weekday_of_known_dates() {
    assert_eq!(DateUtils::get_week_day_short_name(&date(2023, 11, 20)), Weekday::Mon);
    assert_eq!(DateUtils::get_week_day_short_name(&date(1, 1, 1)), Weekday::Mon);
    assert_eq!(DateUtils::get_week_day_short_name(&date(2000, 2, 29)), Weekday::Tue);
    assert_eq!(DateUtils::get_week_day_full_name(&date(2023, 11, 26)), "Sunday");
    assert_eq!(DateUtils::get_month_full_name(&date(2024, 1, 1)), "January");
}

#[test]
fn day_line_is_padded_to_width() {
    let line = build_day_line("21.11.2023", "Tuesday", 35);
    let text: String = line.iter().collect();
    assert_eq!(text, format!("{:<35}", "21.11.2023 Tuesday"));
    assert_eq!(line.len(), 35);
}

#[test]
fn day_line_is_cut_to_width() {
    let line = build_day_line("21.11.2023", "Tuesday", 13);
    let text: String = line.iter().collect();
    assert_eq!(text, "21.11.2023 Tu");
}

#[test]
fn contains_text_finds_pieces() {
    let hay = chars_of("11.11.2023 Saturday");
    assert!(contains_text(&hay, "Saturday"));
    assert!(!contains_text(&hay, "Sunday"));
    assert!(contains_text(&hay, ""));
    assert!(!contains_text(&chars_of("Mon"), "Monday"));
    assert_eq!(repeat_char('x', 3), vec!['x', 'x', 'x']);
}

#[test]
fn lines_for_weekend_day() {
    let c = config();
    let (sep, line) = lines_for_day("11.11.2023", &date(2023, 11, 11), &c);
    assert_eq!(sep, "=".repeat(35));
    assert_eq!(line, format!("{:<35}####", "11.11.2023 Saturday"));
}

#[test]
fn lines_for_first_of_month() {
    let c = config();
    let (sep, line) = lines_for_day("01.12.2023", &date(2023, 12, 1), &c);
    assert_eq!(sep, format!("{}December", "-".repeat(35)));
    assert_eq!(line, format!("{:<35}", "01.12.2023 Friday"));
    let (sep, _) = lines_for_day("01.01.2024", &date(2024, 1, 1), &c);
    assert_eq!(sep, format!("{}January", "=".repeat(35)));
}

#[test]
fn narrow_line_hides_weekday_from_separator_choice() {
    let c = CalendarConfig::init(12, '-', '=', '#');
    let (sep, line) = lines_for_day("20.11.2023", &date(2023, 11, 20), &c);
    assert_eq!(sep, "-".repeat(12));
    assert_eq!(line, "20.11.2023 M");
}

#[test]
fn results_render_date_text() {
    let c = config();
    let r = DateRange::init("2023-11-21", "2023-11-21", &c).unwrap();
    let res = Results::init(r, &c);
    assert_eq!(res.pre_formated.len(), 2);
    assert_eq!(res.pre_formated[0], "-".repeat(35));
    assert_eq!(res.pre_formated[1], format!("{:<35}", "21.11.2023 Tuesday"));
}

#[test]
fn end_to_end_listing() {
    let c = config();
    let r = DateRange::init("2023-11-11", "2024-01-01", &c).unwrap();
    let dates = r.range.clone();
    let res = Results::init(r, &c);
    assert_eq!(dates.len(), 52);
    assert_eq!(res.pre_formated.len(), 2 * 52);
    for (i, d) in dates.iter().enumerate() {
        let sep = &res.pre_formated[2 * i];
        let line = &res.pre_formated[2 * i + 1];
        let wd = DateUtils::get_week_day_short_name(d);
        let weekend = wd == Weekday::Sat || wd == Weekday::Sun;
        if weekend || wd == Weekday::Mon {
            assert!(sep.starts_with(&"=".repeat(35)));
        } else {
            assert!(sep.starts_with(&"-".repeat(35)));
        }
        if d.day == 1 {
            assert!(sep.ends_with(DateUtils::get_month_full_name(d)));
        } else {
            assert_eq!(sep.chars().count(), 35);
        }
        if weekend {
            assert!(line.ends_with("####"));
            assert_eq!(line.chars().count(), 39);
        } else {
            assert_eq!(line.chars().count(), 35);
        }
    }
    assert_eq!(res.pre_formated[0], "=".repeat(35));
    assert_eq!(res.pre_formated[1], format!("{:<35}####", "11.11.2023 Saturday"));
    assert_eq!(res.pre_formated[102], "=".repeat(35) + "January");
    assert_eq!(res.pre_formated[103], format!("{:<35}", "01.01.2024 Monday"));
}
