//! Fixed month and weekday vocabularies, and the weekday cycle that
//! drives the calendar: day-of-month `d` gets the weekday whose index is
//! the starting weekday's index advanced by `d - start`, modulo seven.

use vstd::prelude::*;
use vstd::string::StrSliceExecFns;

verus! {

/// The seven weekday names, in cycle order.
pub open spec fn weekday_names() -> Seq<Seq<char>> {
    seq!["monday"@, "tuesday"@, "wednesday"@, "thursday"@, "friday"@, "saturday"@, "sunday"@]
}

/// The twelve month names, in calendar order.
pub open spec fn month_names() -> Seq<Seq<char>> {
    seq![
        "january"@,
        "february"@,
        "march"@,
        "april"@,
        "may"@,
        "june"@,
        "july"@,
        "august"@,
        "september"@,
        "october"@,
        "november"@,
        "december"@,
    ]
}

/// Character-by-character string comparison, proved against the views.
pub fn str_eq(a: &str, b: &str) -> (r: bool)
    ensures
        r == (a@ == b@),
{
    let alen = a.unicode_len();
    let blen = b.unicode_len();
    if alen != blen {
        return false;
    }
    let mut i: usize = 0;
    while i < alen
        invariant
            i <= alen,
            alen == a@.len(),
            blen == b@.len(),
            alen == blen,
            forall|k: int| 0 <= k < i ==> a@[k] == b@[k],
        decreases alen - i,
    {
        if a.get_char(i) != b.get_char(i) {
            return false;
        }
        i += 1;
    }
    proof {
        assert(a@ =~= b@);
    }
    true
}

/// Index of `s` in the weekday vocabulary, or seven when it is not there.
pub open spec fn weekday_index(s: Seq<char>) -> int {
    if s == "monday"@ {
        0
    } else if s == "tuesday"@ {
        1
    } else if s == "wednesday"@ {
        2
    } else if s == "thursday"@ {
        3
    } else if s == "friday"@ {
        4
    } else if s == "saturday"@ {
        5
    } else if s == "sunday"@ {
        6
    } else {
        7
    }
}

/// Index of `s` in the weekday vocabulary, or `None` if it is not a weekday.
pub fn weekday_offset(s: &str) -> (r: Option<usize>)
    ensures
        match r {
            Some(i) => i < 7 && i == weekday_index(s@) && weekday_names()[i as int] == s@,
            None => !weekday_names().contains(s@) && weekday_index(s@) == 7,
        },
{
    if str_eq(s, "monday") {
        Some(0)
    } else if str_eq(s, "tuesday") {
        Some(1)
    } else if str_eq(s, "wednesday") {
        Some(2)
    } else if str_eq(s, "thursday") {
        Some(3)
    } else if str_eq(s, "friday") {
        Some(4)
    } else if str_eq(s, "saturday") {
        Some(5)
    } else if str_eq(s, "sunday") {
        Some(6)
    } else {
        proof {
            assert(forall|j: int| 0 <= j < 7 ==> weekday_names()[j] != s@);
        }
        None
    }
}

/// Whether `s` is one of the seven weekday names.
pub fn is_valid_weekday(s: &str) -> (r: bool)
    ensures
        r == weekday_names().contains(s@),
{
    let off = weekday_offset(s);
    match off {
        Some(i) => {
            proof {
                assert(weekday_names()[i as int] == s@);
            }
            true
        },
        None => false,
    }
}

/// Whether `s` is one of the twelve month names.
pub fn is_valid_month(s: &str) -> (r: bool)
    ensures
        r == month_names().contains(s@),
{
    if str_eq(s, "january") || str_eq(s, "february") || str_eq(s, "march")
        || str_eq(s, "april") || str_eq(s, "may") || str_eq(s, "june")
        || str_eq(s, "july") || str_eq(s, "august") || str_eq(s, "september")
        || str_eq(s, "october") || str_eq(s, "november") || str_eq(s, "december") {
        true
    } else {
        proof {
            assert(forall|j: int| 0 <= j < 12 ==> month_names()[j] != s@);
        }
        false
    }
}

/// Membership in the weekday vocabulary and `weekday_index` agree.
pub proof fn lemma_weekday_index(s: Seq<char>)
    ensures
        weekday_names().contains(s) <==> 0 <= weekday_index(s) < 7,
        weekday_names().contains(s) ==> weekday_names()[weekday_index(s)] == s,
{
    if 0 <= weekday_index(s) < 7 {
        assert(weekday_names()[weekday_index(s)] == s);
    }
    if weekday_names().contains(s) {
        let i = choose|i: int| 0 <= i < weekday_names().len() && weekday_names()[i] == s;
        assert(0 <= weekday_index(s) < 7);
    }
}

/// Weekday index of day-of-month `dom`, for a range starting at `start`
/// on the weekday with index `offset`.
pub open spec fn day_weekday(offset: int, start: int, dom: int) -> int {
    (offset + (dom - start)) % 7
}

/// A day is working when its weekday is not saturday (5) or sunday (6).
pub open spec fn is_working(offset: int, start: int, dom: int) -> bool {
    day_weekday(offset, start, dom) < 5
}

/// Stepping one day forward steps the weekday cycle by one, modulo seven.
pub proof fn lemma_day_weekday_step(offset: int, start: int, dom: int)
    requires
        start <= dom,
        0 <= offset < 7,
    ensures
        day_weekday(offset, start, dom + 1) == (day_weekday(offset, start, dom) + 1) % 7,
{
    vstd::arithmetic::div_mod::lemma_add_mod_noop(offset + (dom - start), 1, 7);
    assert(1int % 7 == 1);
    assert((offset + (dom + 1 - start)) == (offset + (dom - start)) + 1);
}

/// The weekday name with index `wd`.
pub fn weekday_name_str(wd: usize) -> (r: &'static str)
    requires
        wd < 7,
    ensures
        r@ == weekday_names()[wd as int],
{
    if wd == 0 {
        "monday"
    } else if wd == 1 {
        "tuesday"
    } else if wd == 2 {
        "wednesday"
    } else if wd == 3 {
        "thursday"
    } else if wd == 4 {
        "friday"
    } else if wd == 5 {
        "saturday"
    } else {
        "sunday"
    }
}

/// The working days among `[start, upto)`, in ascending order.
pub open spec fn working_doms(offset: int, start: int, upto: int) -> Seq<int>
    decreases upto - start,
{
    if upto <= start {
        Seq::empty()
    } else if is_working(offset, start, upto - 1) {
        working_doms(offset, start, upto - 1).push(upto - 1)
    } else {
        working_doms(offset, start, upto - 1)
    }
}

} // verus!
