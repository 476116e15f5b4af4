//! Configuration validation: month and weekday names must come from the
//! fixed vocabularies, room restrictions must name configured rooms, and
//! the end day-of-month must be plausible. Checks run fail-fast, in that
//! order, and report the first offending value.

use vstd::prelude::*;
use vstd::string::StringExecFns;

use crate::config::{Config, ErrorKind, Nurse, Supporter};
use crate::vocab::{is_valid_month, is_valid_weekday, month_names, str_eq, weekday_names};

verus! {

/// The first entry of `days[i..]` that is not a weekday name.
pub open spec fn first_invalid_day(days: Seq<String>, i: int) -> Option<String>
    decreases days.len() - i,
{
    if i < 0 || i >= days.len() {
        None
    } else if !weekday_names().contains(days[i]@) {
        Some(days[i])
    } else {
        first_invalid_day(days, i + 1)
    }
}

/// The first invalid weekday name in the day lists of `ns[i..]`.
pub open spec fn nurses_day_error(ns: Seq<Nurse>, i: int) -> Option<String>
    decreases ns.len() - i,
{
    if i < 0 || i >= ns.len() {
        None
    } else {
        let here = match ns[i].days {
            Some(ds) => first_invalid_day(ds@, 0),
            None => None,
        };
        match here {
            Some(d) => Some(d),
            None => nurses_day_error(ns, i + 1),
        }
    }
}

/// The first invalid weekday name in the day lists of `ss[i..]`.
pub open spec fn supporters_day_error(ss: Seq<Supporter>, i: int) -> Option<String>
    decreases ss.len() - i,
{
    if i < 0 || i >= ss.len() {
        None
    } else {
        let here = match ss[i].days {
            Some(ds) => first_invalid_day(ds@, 0),
            None => None,
        };
        match here {
            Some(d) => Some(d),
            None => supporters_day_error(ss, i + 1),
        }
    }
}

/// Whether some configured room has the same name as `room`.
pub open spec fn room_listed(rooms: Seq<String>, room: Seq<char>) -> bool {
    exists|j: int| 0 <= j < rooms.len() && rooms[j]@ == room
}

/// The first entry of `rs[i..]` that names no configured room.
pub open spec fn first_unknown_room(rs: Seq<String>, rooms: Seq<String>, i: int) -> Option<String>
    decreases rs.len() - i,
{
    if i < 0 || i >= rs.len() {
        None
    } else if !room_listed(rooms, rs[i]@) {
        Some(rs[i])
    } else {
        first_unknown_room(rs, rooms, i + 1)
    }
}

/// The first unknown room name in the room restrictions of `ns[i..]`.
pub open spec fn nurses_room_error(ns: Seq<Nurse>, rooms: Seq<String>, i: int) -> Option<String>
    decreases ns.len() - i,
{
    if i < 0 || i >= ns.len() {
        None
    } else {
        let here = match ns[i].rooms {
            Some(rs) => first_unknown_room(rs@, rooms, 0),
            None => None,
        };
        match here {
            Some(x) => Some(x),
            None => nurses_room_error(ns, rooms, i + 1),
        }
    }
}

/// What the date checks report: the first violation among the month name,
/// the starting weekday, and every day-restriction entry, nurses first.
pub open spec fn validate_dates_spec(cfg: Config) -> Result<(), ErrorKind> {
    if !month_names().contains(cfg.dates.month@) {
        Err(ErrorKind::InvalidMonth(cfg.dates.month))
    } else if !weekday_names().contains(cfg.dates.start_day@) {
        Err(ErrorKind::InvalidWeekday(cfg.dates.start_day))
    } else {
        match nurses_day_error(cfg.people.nurses@, 0) {
            Some(d) => Err(ErrorKind::InvalidWeekday(d)),
            None => match supporters_day_error(cfg.people.supporters@, 0) {
                Some(d) => Err(ErrorKind::InvalidWeekday(d)),
                None => Ok(()),
            },
        }
    }
}

/// What the room checks report: the first room-restriction entry that
/// names no configured room.
pub open spec fn validate_rooms_spec(cfg: Config) -> Result<(), ErrorKind> {
    match nurses_room_error(cfg.people.nurses@, cfg.rooms@, 0) {
        Some(x) => Err(ErrorKind::InvalidRoom(x)),
        None => Ok(()),
    }
}

/// What full validation reports: dates, then rooms, then the bound on the
/// end day-of-month.
pub open spec fn validate_spec(cfg: Config) -> Result<(), ErrorKind> {
    match validate_dates_spec(cfg) {
        Err(e) => Err(e),
        Ok(()) => match validate_rooms_spec(cfg) {
            Err(e) => Err(e),
            Ok(()) => if cfg.dates.end >= 33 {
                Err(ErrorKind::InvalidDate(cfg.dates.end))
            } else {
                Ok(())
            },
        },
    }
}

/// The first entry of `ds` that is not a weekday name, if any.
fn find_invalid_day(ds: &Vec<String>) -> (r: Option<String>)
    ensures
        r == first_invalid_day(ds@, 0),
{
    let dn = ds.len();
    let mut k: usize = 0;
    while k < dn
        invariant
            k <= dn,
            dn == ds@.len(),
            first_invalid_day(ds@, 0) == first_invalid_day(ds@, k as int),
        decreases dn - k,
    {
        if !is_valid_weekday(ds[k].as_str()) {
            return Some(ds[k].clone());
        }
        k += 1;
    }
    None
}

/// Checks the month name, the starting weekday, and every weekday named in
/// a day restriction, nurses before supporters, fail-fast.
pub fn do_validate_dates(cfg: &Config) -> (r: Result<(), ErrorKind>)
    ensures
        r == validate_dates_spec(*cfg),
{
    if !is_valid_month(cfg.dates.month.as_str()) {
        return Err(ErrorKind::InvalidMonth(cfg.dates.month.clone()));
    }
    if !is_valid_weekday(cfg.dates.start_day.as_str()) {
        return Err(ErrorKind::InvalidWeekday(cfg.dates.start_day.clone()));
    }
    let nn = cfg.people.nurses.len();
    let mut i: usize = 0;
    while i < nn
        invariant
            i <= nn,
            nn == cfg.people.nurses@.len(),
            month_names().contains(cfg.dates.month@),
            weekday_names().contains(cfg.dates.start_day@),
            nurses_day_error(cfg.people.nurses@, 0) == nurses_day_error(cfg.people.nurses@, i as int),
        decreases nn - i,
    {
        let found = match &cfg.people.nurses[i].days {
            Some(ds) => find_invalid_day(ds),
            None => None,
        };
        if let Some(d) = found {
            return Err(ErrorKind::InvalidWeekday(d));
        }
        i += 1;
    }
    let sn = cfg.people.supporters.len();
    let mut i: usize = 0;
    while i < sn
        invariant
            i <= sn,
            sn == cfg.people.supporters@.len(),
            month_names().contains(cfg.dates.month@),
            weekday_names().contains(cfg.dates.start_day@),
            nurses_day_error(cfg.people.nurses@, 0) is None,
            supporters_day_error(cfg.people.supporters@, 0) == supporters_day_error(
                cfg.people.supporters@,
                i as int,
            ),
        decreases sn - i,
    {
        let found = match &cfg.people.supporters[i].days {
            Some(ds) => find_invalid_day(ds),
            None => None,
        };
        if let Some(d) = found {
            return Err(ErrorKind::InvalidWeekday(d));
        }
        i += 1;
    }
    Ok(())
}

/// Checks that every room named in a nurse's room restriction is one of
/// the configured rooms, fail-fast.
pub fn do_validate_rooms(cfg: &Config) -> (r: Result<(), ErrorKind>)
    ensures
        r == validate_rooms_spec(*cfg),
{
    let nn = cfg.people.nurses.len();
    let mut i: usize = 0;
    while i < nn
        invariant
            i <= nn,
            nn == cfg.people.nurses@.len(),
            nurses_room_error(cfg.people.nurses@, cfg.rooms@, 0) == nurses_room_error(
                cfg.people.nurses@,
                cfg.rooms@,
                i as int,
            ),
        decreases nn - i,
    {
        let found = match &cfg.people.nurses[i].rooms {
            Some(rs) => find_unknown_room(rs, &cfg.rooms),
            None => None,
        };
        if let Some(x) = found {
            return Err(ErrorKind::InvalidRoom(x));
        }
        i += 1;
    }
    Ok(())
}

/// The first entry of `rs` that names no room of `rooms`, if any.
fn find_unknown_room(rs: &Vec<String>, rooms: &Vec<String>) -> (r: Option<String>)
    ensures
        r == first_unknown_room(rs@, rooms@, 0),
{
    let rn = rs.len();
    let mut k: usize = 0;
    while k < rn
        invariant
            k <= rn,
            rn == rs@.len(),
            first_unknown_room(rs@, rooms@, 0) == first_unknown_room(rs@, rooms@, k as int),
        decreases rn - k,
    {
        if !room_is_listed(rooms, rs[k].as_str()) {
            return Some(rs[k].clone());
        }
        k += 1;
    }
    None
}

/// Whether `room` is the name of one of `rooms`.
fn room_is_listed(rooms: &Vec<String>, room: &str) -> (r: bool)
    ensures
        r == room_listed(rooms@, room@),
{
    let n = rooms.len();
    let mut j: usize = 0;
    while j < n
        invariant
            j <= n,
            n == rooms@.len(),
            forall|t: int| 0 <= t < j ==> rooms@[t]@ != room@,
        decreases n - j,
    {
        if str_eq(rooms[j].as_str(), room) {
            return true;
        }
        j += 1;
    }
    false
}

/// Runs every validation check: dates, rooms, then the sanity bound that
/// the end day-of-month is below 33.
pub fn do_validates(cfg: &Config) -> (r: Result<(), ErrorKind>)
    ensures
        r == validate_spec(*cfg),
{
    match do_validate_dates(cfg) {
        Err(e) => Err(e),
        Ok(()) => match do_validate_rooms(cfg) {
            Err(e) => Err(e),
            Ok(()) => {
                if cfg.dates.end >= 33 {
                    Err(ErrorKind::InvalidDate(cfg.dates.end))
                } else {
                    Ok(())
                }
            },
        },
    }
}

/// The extra line a spreadsheet-friendly output starts with, when the
/// configuration asks for one.
pub fn maybe_write_excel_sep(cfg: &Config) -> (r: Option<String>)
    ensures
        match r {
            Some(s) => cfg.excel == Some(true) && s@ == "sep=,"@,
            None => cfg.excel != Some(true),
        },
{
    match cfg.excel {
        Some(true) => Some(String::from_str("sep=,")),
        _ => None,
    }
}

} // verus!
