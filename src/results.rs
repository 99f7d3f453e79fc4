use crate::classify::{is_weekend_day, weekday_name_text, weekday_of, DateUtils, Weekday};
use crate::config::{CalendarConfig, WEEKEND_MARKER_LEN};
use crate::date::{format_date, formatted_date, month_name_text, CivilDate};
use crate::range::DateRange;
use crate::text::{chars_of, contains_text, has_substring, push_text, repeated, string_from_chars};
use vstd::prelude::*;

verus! {

/// The body of a day line: date text, a space, the weekday name, then
/// spaces, cut to exactly `width` characters.
pub open spec fn day_line_body(date_text: Seq<char>, weekday_name: Seq<char>, width: nat) -> Seq<
    char,
> {
    (date_text + seq![' '] + weekday_name + repeated(' ', width)).take(width as int)
}

/// Whether a day line body starts a week or falls on a weekend, judged by
/// the weekday words it shows.
pub open spec fn marks_week_boundary(body: Seq<char>) -> bool {
    has_substring(body, "Sunday"@) || has_substring(body, "Saturday"@) || has_substring(
        body,
        "Monday"@,
    )
}

/// A separator, followed by the month's name on the first day of a month.
pub open spec fn annotated_separator(sep: Seq<char>, d: CivilDate) -> Seq<char> {
    if d.day == 1 {
        sep + month_name_text(d.month as int)
    } else {
        sep
    }
}

/// The separator line that precedes a day line with the given body.
pub open spec fn separator_line(config: &CalendarConfig, d: CivilDate, body: Seq<char>) -> Seq<
    char,
> {
    if marks_week_boundary(body) {
        annotated_separator(config.week_line_sep@, d)
    } else {
        annotated_separator(config.day_line_sep@, d)
    }
}

/// A day line body with the weekend marker appended on weekend days.
pub open spec fn marked_day_line(config: &CalendarConfig, d: CivilDate, body: Seq<char>) -> Seq<
    char,
> {
    if is_weekend_day(d) {
        body + config.weekend_line_marker@
    } else {
        body
    }
}

/// The date as the day line shows it.
pub open spec fn day_text(d: CivilDate) -> Seq<char> {
    formatted_date(d.year as int, d.month as int, d.day as int, "%d.%m.%Y"@)
}

/// The body of the day line of a date.
pub open spec fn date_line_body(config: &CalendarConfig, d: CivilDate) -> Seq<char> {
    day_line_body(day_text(d), weekday_name_text(weekday_of(d)), config.line_length as nat)
}

/// Builds the body of a day line from the rendered date and weekday name.
pub fn build_day_line(date_text: &str, weekday_name: &str, line_length: u8) -> (r: Vec<char>)
    ensures
        r@ == day_line_body(date_text@, weekday_name@, line_length as nat),
        r@.len() == line_length,
{
    let width = line_length as usize;
    let mut full: Vec<char> = chars_of(date_text);
    full.push(' ');
    push_text(&mut full, weekday_name);
    let mut i: usize = 0;
    while i < width
        invariant
            full@ == date_text@ + seq![' '] + weekday_name@ + repeated(' ', i as nat),
            i <= width,
            width == line_length,
        decreases width - i,
    {
        full.push(' ');
        i = i + 1;
        assert(full@ =~= date_text@ + seq![' '] + weekday_name@ + repeated(' ', i as nat));
    }
    let mut r: Vec<char> = Vec::new();
    let mut j: usize = 0;
    while j < width
        invariant
            full@ == date_text@ + seq![' '] + weekday_name@ + repeated(' ', width as nat),
            full@.len() >= width,
            j <= width,
            r@ == full@.take(j as int),
        decreases width - j,
    {
        r.push(full[j]);
        j = j + 1;
        assert(r@ =~= full@.take(j as int));
    }
    r
}

/// The separator line and the day line of one date, given the date as
/// rendered for the day line.
pub fn lines_for_day(date_text: &str, date: &CivilDate, config: &CalendarConfig) -> (r: (
    String,
    String,
))
    requires
        date.wf(),
    ensures
        ({
            let body = day_line_body(
                date_text@,
                weekday_name_text(weekday_of(*date)),
                config.line_length as nat,
            );
            &&& r.0@ == separator_line(config, *date, body)
            &&& r.1@ == marked_day_line(config, *date, body)
        }),
{
    let week_full_name = DateUtils::get_week_day_full_name(date);
    let month_full_name = DateUtils::get_month_full_name(date);
    let is_weekend = DateUtils::is_weekend(date);

    let mut day_separator = chars_of(config.day_line_sep.as_str());
    let mut week_sep = chars_of(config.week_line_sep.as_str());
    if date.day == 1 {
        push_text(&mut week_sep, month_full_name);
        push_text(&mut day_separator, month_full_name);
    }

    let mut line = build_day_line(date_text, week_full_name, config.line_length);
    let should_add_weekend_sep = contains_text(&line, "Sunday") || contains_text(&line, "Saturday")
        || contains_text(&line, "Monday");

    if is_weekend {
        push_text(&mut line, config.weekend_line_marker.as_str());
    }
    let sep = if should_add_weekend_sep {
        week_sep
    } else {
        day_separator
    };
    (string_from_chars(&sep), string_from_chars(&line))
}

/// The formatted listing: a separator line, then a day line, for each date.
#[derive(Debug)]
pub struct Results {
    pub pre_formated: Vec<String>,
}

impl Results {
    pub open spec fn lists(&self, dates: Seq<CivilDate>, config: &CalendarConfig) -> bool {
        let lines = self.pre_formated@;
        &&& lines.len() == 2 * dates.len()
        &&& forall|i: int|
            0 <= i < dates.len() ==> {
                let body = #[trigger] date_line_body(config, dates[i]);
                &&& lines[2 * i]@ == separator_line(config, dates[i], body)
                &&& lines[2 * i + 1]@ == marked_day_line(config, dates[i], body)
            }
    }

    pub fn init(date_range: DateRange, calendar_config: &CalendarConfig) -> (r: Results)
        requires
            date_range.wf(),
        ensures
            r.lists(date_range@, calendar_config),
    {
        let mut results: Vec<String> = Vec::new();
        let n = date_range.range.len();
        let mut k: usize = 0;
        while k < n
            invariant
                n == date_range@.len(),
                date_range.wf(),
                k <= n,
                results@.len() == 2 * k,
                forall|i: int|
                    0 <= i < k ==> {
                        let body = #[trigger] date_line_body(calendar_config, date_range@[i]);
                        &&& results@[2 * i]@ == separator_line(
                            calendar_config,
                            date_range@[i],
                            body,
                        )
                        &&& results@[2 * i + 1]@ == marked_day_line(
                            calendar_config,
                            date_range@[i],
                            body,
                        )
                    },
            decreases n - k,
        {
            let date = &date_range.range[k];
            assert(date_range@[k as int].wf());
            let text = format_date(*date, "%d.%m.%Y");
            let (sep, line) = lines_for_day(text.as_str(), date, calendar_config);
            results.push(sep);
            results.push(line);
            k = k + 1;
        }
        Results { pre_formated: results }
    }
}

/// Every day line body is exactly `line_length` characters wide; with the
/// marker, a weekend day line is `line_length + 4` wide and any other day
/// line stays `line_length` wide.
pub proof fn lemma_day_line_widths(r: &Results, dates: Seq<CivilDate>, config: &CalendarConfig)
    requires
        config.wf(),
        r.lists(dates, config),
    ensures
        forall|i: int|
            0 <= i < dates.len() ==> (#[trigger] date_line_body(config, dates[i])).len()
                == config.line_length,
        forall|i: int|
            0 <= i < dates.len() ==> (#[trigger] r.pre_formated@[2 * i + 1])@.len() == config.line_length
                + (if is_weekend_day(dates[i]) {
                WEEKEND_MARKER_LEN as int
            } else {
                0
            }),
{
    assert forall|i: int| 0 <= i < dates.len() implies (#[trigger] r.pre_formated@[2 * i + 1])@.len()
        == config.line_length + (if is_weekend_day(dates[i]) {
        WEEKEND_MARKER_LEN as int
    } else {
        0
    }) by {
        let body = date_line_body(config, dates[i]);
        assert(body.len() == config.line_length);
    }
}

/// On the first day of a month, the separator line that precedes the day
/// line ends with the month's name, whichever of the two separators is
/// chosen.
pub proof fn lemma_month_start_annotated(config: &CalendarConfig, d: CivilDate, body: Seq<char>)
    requires
        d.day == 1,
    ensures
        ({
            let name = month_name_text(d.month as int);
            let day_sep = annotated_separator(config.day_line_sep@, d);
            let week_sep = annotated_separator(config.week_line_sep@, d);
            &&& day_sep.subrange(day_sep.len() - name.len(), day_sep.len() as int) == name
            &&& week_sep.subrange(week_sep.len() - name.len(), week_sep.len() as int) == name
            &&& separator_line(config, d, body) == day_sep || separator_line(config, d, body)
                == week_sep
        }),
{
    let name = month_name_text(d.month as int);
    let day_sep = annotated_separator(config.day_line_sep@, d);
    let week_sep = annotated_separator(config.week_line_sep@, d);
    assert(day_sep.subrange(day_sep.len() - name.len(), day_sep.len() as int) =~= name);
    assert(week_sep.subrange(week_sep.len() - name.len(), week_sep.len() as int) =~= name);
}

/// When the date text, a space and the weekday name fit in the line, the
/// day line of a Monday, Saturday or Sunday is preceded by the week
/// separator.
pub proof fn lemma_week_boundary_separated(
    config: &CalendarConfig,
    d: CivilDate,
    date_text: Seq<char>,
)
    requires
        weekday_of(d) == Weekday::Mon || weekday_of(d) == Weekday::Sat || weekday_of(d)
            == Weekday::Sun,
        date_text.len() + 1 + weekday_name_text(weekday_of(d)).len() <= config.line_length,
    ensures
        separator_line(
            config,
            d,
            day_line_body(date_text, weekday_name_text(weekday_of(d)), config.line_length as nat),
        ) == annotated_separator(config.week_line_sep@, d),
{
    let width = config.line_length as nat;
    let name = weekday_name_text(weekday_of(d));
    let body = day_line_body(date_text, name, width);
    let k: int = date_text.len() as int + 1;
    assert(body.subrange(k, k + name.len() as int) =~= name);
    assert(marks_week_boundary(body));
}

} // verus!
