use crate::config::CalendarConfig;
use crate::date::{
    days_from_to, following_day, lemma_last_supported_is_latest, lemma_next_day,
    lemma_number_increases, lemma_number_injective, parse_date, parsed_date, CivilDate,
};
use vstd::prelude::*;

verus! {

/// Why a date range could not be built.
#[derive(Clone, Copy, Debug, PartialEq, Eq, Structural)]
pub enum DateError {
    /// The start date does not match the format or names no calendar date.
    InvalidFromDate,
    /// The end date does not match the format or names no calendar date.
    InvalidToDate,
}

/// Number of days from `from` to `to`, both included; none when `to` is earlier.
pub open spec fn inclusive_day_count(from: CivilDate, to: CivilDate) -> int {
    if from.number() <= to.number() {
        to.number() - from.number() + 1
    } else {
        0
    }
}

/// The consecutive calendar days of an inclusive range, in ascending order.
pub struct DateRange {
    pub range: Vec<CivilDate>,
}

impl DateRange {
    pub open spec fn view(&self) -> Seq<CivilDate> {
        self.range@
    }

    /// Every element is a valid date.
    pub open spec fn wf(&self) -> bool {
        forall|i: int| 0 <= i < self.range@.len() ==> (#[trigger] self.range@[i]).wf()
    }

    /// This range holds exactly the days from `from` to `to`.
    pub open spec fn spans(&self, from: CivilDate, to: CivilDate) -> bool {
        let s = self.range@;
        &&& s.len() == inclusive_day_count(from, to)
        &&& self.wf()
        &&& forall|i: int| 0 <= i < s.len() ==> (#[trigger] s[i]).number() == from.number() + i
        &&& forall|i: int| 0 <= i < s.len() - 1 ==> #[trigger] s[i + 1] == s[i].next()
        &&& s.len() > 0 ==> s[0] == from && s[s.len() - 1] == to
    }

    /// The days from `from` to `to`, both included; empty when `to` is earlier.
    pub fn between(from: CivilDate, to: CivilDate) -> (r: DateRange)
        requires
            from.wf(),
            to.wf(),
        ensures
            r.spans(from, to),
    {
        let diff = days_from_to(from, to);
        let mut range: Vec<CivilDate> = Vec::new();
        if diff < 0 {
            return DateRange { range };
        }
        range.push(from);
        let mut cur = from;
        let mut k: i64 = 0;
        while k < diff
            invariant
                0 <= k <= diff,
                diff == to.number() - from.number(),
                from.wf(),
                to.wf(),
                range@.len() == k + 1,
                range@[0] == from,
                cur == range@[k as int],
                forall|i: int| 0 <= i < range@.len() ==> (#[trigger] range@[i]).wf(),
                forall|i: int|
                    0 <= i < range@.len() ==> (#[trigger] range@[i]).number() == from.number() + i,
                forall|i: int| 0 <= i < range@.len() - 1 ==> #[trigger] range@[i + 1] == range@[i].next(),
            decreases diff - k,
        {
            proof {
                if cur.is_last_supported() {
                    lemma_last_supported_is_latest(cur, to);
                }
                lemma_next_day(cur);
            }
            let nx = following_day(cur);
            range.push(nx);
            cur = nx;
            k = k + 1;
        }
        proof {
            lemma_number_injective(cur, to);
        }
        DateRange { range }
    }

    /// Parses both ends with the configured format and expands the range
    /// between them.
    pub fn init(from: &str, to: &str, config: &CalendarConfig) -> (r: Result<DateRange, DateError>)
        ensures
            parsed_date(from@, config.date_format@) is None ==> r == Err::<DateRange, DateError>(
                DateError::InvalidFromDate,
            ),
            parsed_date(from@, config.date_format@) is Some && parsed_date(
                to@,
                config.date_format@,
            ) is None ==> r == Err::<DateRange, DateError>(DateError::InvalidToDate),
            parsed_date(from@, config.date_format@) matches Some(f) ==> parsed_date(
                to@,
                config.date_format@,
            ) matches Some(t) ==> {
                let fd = CivilDate::from_triple(f);
                let td = CivilDate::from_triple(t);
                &&& fd.wf()
                &&& td.wf()
                &&& r matches Ok(dr) && dr.spans(fd, td)
            },
    {
        let fmt = config.date_format.as_str();
        let f = match parse_date(from, fmt) {
            Some(d) => d,
            None => return Err(DateError::InvalidFromDate),
        };
        let t = match parse_date(to, fmt) {
            Some(d) => d,
            None => return Err(DateError::InvalidToDate),
        };
        Ok(DateRange::between(f, t))
    }
}

/// A range spanning `from` to `to` with `from` not after `to` holds one day
/// more than the days between them, starts at `from`, ends at `to`, and
/// its days are in strictly ascending calendar order, each the day after
/// the one before.
pub proof fn lemma_spans_ascending(r: &DateRange, from: CivilDate, to: CivilDate)
    requires
        from.wf(),
        to.wf(),
        from.number() <= to.number(),
        r.spans(from, to),
    ensures
        r@.len() == to.number() - from.number() + 1,
        r@.contains(from),
        r@.contains(to),
        forall|i: int, j: int| 0 <= i < j < r@.len() ==> (#[trigger] r@[i]).precedes(#[trigger] r@[j]),
        forall|i: int| 0 <= i < r@.len() - 1 ==> #[trigger] r@[i + 1] == r@[i].next(),
{
    let s = r@;
    assert(s[0] == from);
    assert(s[s.len() - 1] == to);
    assert forall|i: int, j: int| 0 <= i < j < s.len() implies (#[trigger] s[i]).precedes(
        #[trigger] s[j],
    ) by {
        if !s[i].precedes(s[j]) {
            if s[j].precedes(s[i]) {
                lemma_number_increases(s[j], s[i]);
            } else {
                assert(s[i] == s[j]);
            }
        }
    }
}

} // verus!
