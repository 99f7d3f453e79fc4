use crate::text::{repeat_char, repeated, string_from_chars};
use vstd::prelude::*;

verus! {

/// Formatting parameters of a calendar listing.
#[derive(Debug)]
pub struct CalendarConfig {
    pub date_format: String,
    pub line_length: u8,
    pub weekend_line_marker: String,
    pub week_line_sep: String,
    pub day_line_sep: String,
}

/// Number of marker characters appended to a weekend day line.
pub const WEEKEND_MARKER_LEN: usize = 4;

impl CalendarConfig {
    pub open spec fn wf(&self) -> bool {
        &&& self.date_format@ == "%Y-%m-%d"@
        &&& self.weekend_line_marker@.len() == WEEKEND_MARKER_LEN
        &&& self.week_line_sep@.len() == self.line_length
        &&& self.day_line_sep@.len() == self.line_length
    }

    pub fn init(line_length: u8, day_sep_char: char, week_sep_char: char, weekend_marker: char) -> (r:
        CalendarConfig)
        ensures
            r.wf(),
            r.line_length == line_length,
            r.day_line_sep@ == repeated(day_sep_char, line_length as nat),
            r.week_line_sep@ == repeated(week_sep_char, line_length as nat),
            r.weekend_line_marker@ == repeated(weekend_marker, WEEKEND_MARKER_LEN as nat),
    {
        let n = line_length as usize;
        let day_sep_string = string_from_chars(&repeat_char(day_sep_char, n));
        let week_sep_string = string_from_chars(&repeat_char(week_sep_char, n));
        let weekend_line_marker = string_from_chars(
            &repeat_char(weekend_marker, WEEKEND_MARKER_LEN),
        );
        CalendarConfig {
            date_format: "%Y-%m-%d".to_owned(),
            line_length,
            weekend_line_marker,
            week_line_sep: week_sep_string,
            day_line_sep: day_sep_string,
        }
    }
}

} // verus!
