use crate::date::{month_name, month_name_text, weekday_from_monday, CivilDate};
use vstd::prelude::*;

verus! {

/// A day of the week.
#[derive(Clone, Copy, Debug, PartialEq, Eq, Structural)]
pub enum Weekday {
    Mon,
    Tue,
    Wed,
    Thu,
    Fri,
    Sat,
    Sun,
}

/// A month of the year.
#[derive(Clone, Copy, Debug, PartialEq, Eq, Structural)]
pub enum Month {
    January,
    February,
    March,
    April,
    May,
    June,
    July,
    August,
    September,
    October,
    November,
    December,
}

/// The weekday with the given index, 0 for Monday up to 6 for Sunday.
pub open spec fn weekday_of_index(i: int) -> Weekday {
    if i == 0 {
        Weekday::Mon
    } else if i == 1 {
        Weekday::Tue
    } else if i == 2 {
        Weekday::Wed
    } else if i == 3 {
        Weekday::Thu
    } else if i == 4 {
        Weekday::Fri
    } else if i == 5 {
        Weekday::Sat
    } else {
        Weekday::Sun
    }
}

pub open spec fn weekday_name_text(w: Weekday) -> Seq<char> {
    match w {
        Weekday::Mon => "Monday"@,
        Weekday::Tue => "Tuesday"@,
        Weekday::Wed => "Wednesday"@,
        Weekday::Thu => "Thursday"@,
        Weekday::Fri => "Friday"@,
        Weekday::Sat => "Saturday"@,
        Weekday::Sun => "Sunday"@,
    }
}

pub open spec fn month_of_number(m: int) -> Month {
    if m == 1 {
        Month::January
    } else if m == 2 {
        Month::February
    } else if m == 3 {
        Month::March
    } else if m == 4 {
        Month::April
    } else if m == 5 {
        Month::May
    } else if m == 6 {
        Month::June
    } else if m == 7 {
        Month::July
    } else if m == 8 {
        Month::August
    } else if m == 9 {
        Month::September
    } else if m == 10 {
        Month::October
    } else if m == 11 {
        Month::November
    } else {
        Month::December
    }
}

pub open spec fn weekday_of(d: CivilDate) -> Weekday {
    weekday_of_index(d.weekday_index())
}

pub open spec fn is_weekend_day(d: CivilDate) -> bool {
    weekday_of(d) == Weekday::Sat || weekday_of(d) == Weekday::Sun
}

/// Classification of single dates.
pub struct DateUtils;

impl DateUtils {
    pub fn get_week_day_short_name(date: &CivilDate) -> (r: Weekday)
        requires
            date.wf(),
        ensures
            r == weekday_of(*date),
    {
        let i = weekday_from_monday(*date);
        if i == 0 {
            Weekday::Mon
        } else if i == 1 {
            Weekday::Tue
        } else if i == 2 {
            Weekday::Wed
        } else if i == 3 {
            Weekday::Thu
        } else if i == 4 {
            Weekday::Fri
        } else if i == 5 {
            Weekday::Sat
        } else {
            Weekday::Sun
        }
    }

    pub fn get_month_short_name(date: &CivilDate) -> (r: Month)
        requires
            date.wf(),
        ensures
            r == month_of_number(date.month as int),
    {
        let m = date.month;
        if m == 1 {
            Month::January
        } else if m == 2 {
            Month::February
        } else if m == 3 {
            Month::March
        } else if m == 4 {
            Month::April
        } else if m == 5 {
            Month::May
        } else if m == 6 {
            Month::June
        } else if m == 7 {
            Month::July
        } else if m == 8 {
            Month::August
        } else if m == 9 {
            Month::September
        } else if m == 10 {
            Month::October
        } else if m == 11 {
            Month::November
        } else {
            Month::December
        }
    }

    pub fn get_month_full_name(date: &CivilDate) -> (r: &'static str)
        requires
            date.wf(),
        ensures
            r@ == month_name_text(date.month as int),
    {
        month_name(date.month)
    }

    pub fn get_week_day_full_name(day: &CivilDate) -> (r: &'static str)
        requires
            day.wf(),
        ensures
            r@ == weekday_name_text(weekday_of(*day)),
    {
        let weekday = DateUtils::get_week_day_short_name(day);
        match weekday {
            Weekday::Mon => "Monday",
            Weekday::Tue => "Tuesday",
            Weekday::Wed => "Wednesday",
            Weekday::Thu => "Thursday",
            Weekday::Fri => "Friday",
            Weekday::Sat => "Saturday",
            Weekday::Sun => "Sunday",
        }
    }

    pub fn is_weekend(input: &CivilDate) -> (r: bool)
        requires
            input.wf(),
        ensures
            r == is_weekend_day(*input),
    {
        let day = DateUtils::get_week_day_short_name(input);
        match day {
            Weekday::Sat => true,
            Weekday::Sun => true,
            _ => false,
        }
    }
}

} // verus!
