//! The roster configuration: people, jobs, rooms and the date range,
//! together with the error kinds every fallible step reports.

use vstd::prelude::*;
use vstd::string::StringExecFns;

verus! {

/// A nurse: rotates through room/job pairs. `days` restricts the weekdays
/// worked (absence means every day); `trainee` limits which jobs may be
/// taken; `rooms` is declared in configurations but not consumed by the
/// assignment algorithm.
pub struct Nurse {
    pub name: String,
    pub days: Option<Vec<String>>,
    pub trainee: Option<bool>,
    pub rooms: Option<Vec<String>>,
}

/// A supporter: rotates through bare rooms, with an optional weekday
/// restriction.
pub struct Supporter {
    pub name: String,
    pub days: Option<Vec<String>>,
}

/// The staff being scheduled.
pub struct People {
    pub nurses: Vec<Nurse>,
    pub supporters: Vec<Supporter>,
}

/// The date range: a month name, the weekday of the first day, inclusive
/// start and end day-of-month numbers, and a year for the headers.
pub struct Dates {
    pub month: String,
    pub start_day: String,
    pub start: usize,
    pub end: usize,
    pub year: usize,
}

/// A job nurses rotate through; `for_trainees` unset counts as eligible.
pub struct NursesJob {
    pub name: String,
    pub for_trainees: Option<bool>,
}

/// The whole validated-on-entry roster description.
pub struct Config {
    pub people: People,
    pub nurses_jobs: Vec<NursesJob>,
    pub rooms: Vec<String>,
    pub dates: Dates,
    pub excel: Option<bool>,
    pub job_room_sep: Option<String>,
}

/// Every way a run can fail: the four validation errors, the two
/// pool-construction errors, and the two mid-day exhaustion errors.
#[derive(Debug)]
pub enum ErrorKind {
    InvalidMonth(String),
    InvalidWeekday(String),
    InvalidDate(usize),
    InvalidRoom(String),
    NotEnoughNurses,
    NotEnoughSupporters,
    NoJobVariantsLeft,
    NoTraineeJobVariantsLeft,
}

impl ErrorKind {
    /// A diagnostic line for the boundary layer to report.
    pub fn describe(&self) -> (r: String)
        ensures
            match self {
                ErrorKind::InvalidMonth(m) => r@ == "invalid month name: "@ + m@,
                ErrorKind::InvalidWeekday(d) => r@ == "invalid weekday name: "@ + d@,
                ErrorKind::InvalidDate(_) => r@ == "invalid date of the month"@,
                ErrorKind::InvalidRoom(x) => r@ == "invalid room name: "@ + x@,
                ErrorKind::NotEnoughNurses => r@ == "not enough nurses for the configured rooms and jobs"@,
                ErrorKind::NotEnoughSupporters => r@ == "not enough supporters for the configured rooms"@,
                ErrorKind::NoJobVariantsLeft => r@ == "no job variants left"@,
                ErrorKind::NoTraineeJobVariantsLeft => r@ == "no trainee job variants left"@,
            },
    {
        match self {
            ErrorKind::InvalidMonth(m) => {
                let mut s = String::from_str("invalid month name: ");
                s.append(m.as_str());
                s
            },
            ErrorKind::InvalidWeekday(d) => {
                let mut s = String::from_str("invalid weekday name: ");
                s.append(d.as_str());
                s
            },
            ErrorKind::InvalidDate(_) => String::from_str("invalid date of the month"),
            ErrorKind::InvalidRoom(x) => {
                let mut s = String::from_str("invalid room name: ");
                s.append(x.as_str());
                s
            },
            ErrorKind::NotEnoughNurses => String::from_str(
                "not enough nurses for the configured rooms and jobs",
            ),
            ErrorKind::NotEnoughSupporters => String::from_str(
                "not enough supporters for the configured rooms",
            ),
            ErrorKind::NoJobVariantsLeft => String::from_str("no job variants left"),
            ErrorKind::NoTraineeJobVariantsLeft => String::from_str(
                "no trainee job variants left",
            ),
        }
    }
}

/// The separator put between a room name and a job name in a label:
/// the configured one, or a single space.
pub open spec fn sep_spec(cfg: Config) -> Seq<char> {
    match cfg.job_room_sep {
        Some(s) => s@,
        None => " "@,
    }
}

/// Whether a day list contains the weekday named `wd`.
pub open spec fn days_contain(days: Seq<String>, wd: Seq<char>) -> bool {
    exists|j: int| 0 <= j < days.len() && days[j]@ == wd
}

/// A person with day list `days` rests on weekday `wd` when the list is
/// present and does not name `wd`.
pub open spec fn rests_on(days: Option<Vec<String>>, wd: Seq<char>) -> bool {
    match days {
        Some(ds) => !days_contain(ds@, wd),
        None => false,
    }
}

/// Whether `ds` names the weekday `wd`.
pub fn days_contain_exec(ds: &Vec<String>, wd: &str) -> (r: bool)
    ensures
        r == days_contain(ds@, wd@),
{
    let n = ds.len();
    let mut j: usize = 0;
    while j < n
        invariant
            j <= n,
            n == ds@.len(),
            forall|t: int| 0 <= t < j ==> ds@[t]@ != wd@,
        decreases n - j,
    {
        if crate::vocab::str_eq(ds[j].as_str(), wd) {
            return true;
        }
        j += 1;
    }
    false
}

/// One output row: a person's name and one label per working day, in
/// working-day order.
pub struct PersonRow {
    pub name: String,
    pub labels: Vec<String>,
}

} // verus!
