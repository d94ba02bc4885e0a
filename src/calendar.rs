//! Calendar days, held as day numbers (0001-01-01 is day 1).
use vstd::prelude::*;
use chrono::Datelike;

verus! {

/// Day number of 0001-01-01, the first day a `Date` can hold.
pub const FIRST_DAY: i32 = 1;

/// Day number of 9999-12-31, the last day a `Date` can hold.
pub const LAST_DAY: i32 = 3652059;

/// A calendar day between 0001-01-01 and 9999-12-31.
#[derive(Clone, Copy, Debug, PartialEq, Eq, Structural)]
pub struct Date {
    /// Days since the start of the common era; 0001-01-01 is day 1.
    pub days: i32,
}

/// How the day with day number `days` is shown in the window title
/// (weekday, day of month, month: `Mon 5 Feb`).
pub uninterp spec fn title_date_text(days: int) -> Seq<char>;

/// The day with day number `days` as `YYYY-MM-DD`.
pub uninterp spec fn iso_date_text(days: int) -> Seq<char>;

/// Relies on chrono's `NaiveDate::from_num_days_from_ce_opt`, which accepts
/// every day of years 1 to 9999, and on its `format("%a %-d %b")`.
#[verifier::external_body]
fn format_title_date(days: i32) -> (r: String)
    requires
        FIRST_DAY <= days <= LAST_DAY,
    ensures
        r@ == title_date_text(days as int),
{
    chrono::NaiveDate::from_num_days_from_ce_opt(days).unwrap().format("%a %-d %b").to_string()
}

/// Relies on chrono's `NaiveDate::from_num_days_from_ce_opt`, which accepts
/// every day of years 1 to 9999, and on `NaiveDate`'s `ToString`, which
/// writes the date as `YYYY-MM-DD`.
#[verifier::external_body]
fn format_iso_date(days: i32) -> (r: String)
    requires
        FIRST_DAY <= days <= LAST_DAY,
    ensures
        r@ == iso_date_text(days as int),
{
    chrono::NaiveDate::from_num_days_from_ce_opt(days).unwrap().to_string()
}

/// Relies on chrono's `Local::now` and `Datelike::num_days_from_ce`: the day
/// number of the current local date. It depends on the clock, so nothing is
/// promised of it.
#[verifier::external_body]
pub(crate) fn local_today_days() -> (r: i32) {
    chrono::Local::now().date_naive().num_days_from_ce()
}

impl Date {
    pub open spec fn wf(&self) -> bool {
        FIRST_DAY <= self.days <= LAST_DAY
    }

    /// The day with day number `days`, if it lies in the supported range.
    pub fn from_days(days: i32) -> (r: Option<Date>)
        ensures
            r matches Some(d) ==> d.days == days && d.wf(),
            r is None <==> !(FIRST_DAY <= days <= LAST_DAY),
    {
        if FIRST_DAY <= days && days <= LAST_DAY {
            Some(Date { days })
        } else {
            None
        }
    }

    /// The day before; the first supported day stays where it is.
    pub fn pred(&self) -> (r: Date)
        requires
            self.wf(),
        ensures
            r.wf(),
            r.days == if self.days > FIRST_DAY { self.days - 1 } else { self.days as int },
    {
        if self.days > FIRST_DAY {
            Date { days: self.days - 1 }
        } else {
            *self
        }
    }

    /// The day after; the last supported day stays where it is.
    pub fn succ(&self) -> (r: Date)
        requires
            self.wf(),
        ensures
            r.wf(),
            r.days == if self.days < LAST_DAY { self.days + 1 } else { self.days as int },
    {
        if self.days < LAST_DAY {
            Date { days: self.days + 1 }
        } else {
            *self
        }
    }

    /// The date as `YYYY-MM-DD`.
    pub fn to_iso_string(&self) -> (r: String)
        requires
            self.wf(),
        ensures
            r@ == iso_date_text(self.days as int),
    {
        format_iso_date(self.days)
    }

    /// The window title for this day: `Harvest - ` and the day as
    /// `Mon 5 Feb`.
    pub fn title(&self) -> (r: String)
        requires
            self.wf(),
        ensures
            r@ == "Harvest - "@ + title_date_text(self.days as int),
    {
        let mut r = String::from_str("Harvest - ");
        let d = format_title_date(self.days);
        r.append(d.as_str());
        r
    }
}

} // verus!
