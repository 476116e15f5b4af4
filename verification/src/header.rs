//! The header row: one `"month day, year"` column label for every working
//! day of the range, in ascending day order, weekends skipped.

use vstd::prelude::*;
use vstd::string::StringExecFns;

use crate::config::Dates;
use crate::numfmt::{dec_str, dec_string};
use crate::vocab::{day_weekday, is_working, lemma_day_weekday_step, weekday_index, weekday_names,
    weekday_offset, working_doms};

verus! {

/// The column label of working day `dom`.
pub open spec fn header_label(dates: Dates, dom: int) -> Seq<char> {
    dates.month@ + " "@ + dec_str(dom) + ", "@ + dec_str(dates.year as int)
}

/// All column labels of the range, in order: one per working day.
pub open spec fn header_labels(dates: Dates) -> Seq<Seq<char>> {
    let doms = working_doms(
        weekday_index(dates.start_day@),
        dates.start as int,
        dates.end as int + 1,
    );
    Seq::new(doms.len(), |k: int| header_label(dates, doms[k]))
}

/// Builds the ordered working-day column labels of the range.
pub fn build_header(dates: &Dates) -> (r: Vec<String>)
    requires
        weekday_names().contains(dates.start_day@),
        dates.end < 33,
    ensures
        r@.len() == header_labels(*dates).len(),
        forall|k: int| 0 <= k < r@.len() ==> r@[k]@ == header_labels(*dates)[k],
{
    let ghost offset_spec = weekday_index(dates.start_day@);
    let offset = match weekday_offset(dates.start_day.as_str()) {
        Some(o) => o,
        None => {
            proof {
                assert(false);
            }
            0
        },
    };
    let mut labels: Vec<String> = Vec::new();
    if dates.start > dates.end {
        return labels;
    }
    let mut i: usize = dates.start;
    let mut wd: usize = offset;
    while i <= dates.end
        invariant
            dates.start <= i <= dates.end + 1,
            dates.end < 33,
            offset == offset_spec,
            0 <= offset_spec < 7,
            wd == day_weekday(offset_spec, dates.start as int, i as int),
            labels@.len() == working_doms(offset_spec, dates.start as int, i as int).len(),
            forall|k: int| 0 <= k < labels@.len() ==> labels@[k]@ == header_label(
                *dates,
                working_doms(offset_spec, dates.start as int, i as int)[k],
            ),
        decreases dates.end + 1 - i,
    {
        if wd < 5 {
            let mut s = dates.month.clone();
            s.append(" ");
            let ds = dec_string(i);
            s.append(ds.as_str());
            s.append(", ");
            let ys = dec_string(dates.year);
            s.append(ys.as_str());
            proof {
                assert(s@ =~= header_label(*dates, i as int));
            }
            labels.push(s);
        }
        proof {
            lemma_day_weekday_step(offset_spec, dates.start as int, i as int);
        }
        wd = (wd + 1) % 7;
        i += 1;
    }
    labels
}

} // verus!
