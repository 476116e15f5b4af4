//! The whole run: validate the configuration, then build the header and
//! both assignment tables. Rows keep the configured person order, and
//! every row has exactly one label per working day.

use vstd::prelude::*;

use crate::config::{Config, ErrorKind, PersonRow};
use crate::header::{build_header, header_labels};
use crate::nurses::{assign_nurses, lemma_nurse_days_count, nurse_days, nurse_rows_match};
use crate::supporters::{assign_supporters, lemma_sup_days_count, sup_days, sup_rows_match};
use crate::validate::{do_validates, validate_spec};
use crate::vocab::{weekday_index, weekday_names, working_doms};

verus! {

/// The generated table: the working-day header labels, one row per nurse,
/// and one row per supporter.
pub struct RotaTable {
    pub header: Vec<String>,
    pub nurses: Vec<PersonRow>,
    pub supporters: Vec<PersonRow>,
}

/// Whether `t` is exactly the table that `cfg` describes.
pub open spec fn table_matches(cfg: Config, t: RotaTable) -> bool {
    &&& validate_spec(cfg) is Ok
    &&& t.header@.len() == header_labels(cfg.dates).len()
    &&& forall|k: int|
        0 <= k < t.header@.len() ==> (#[trigger] t.header@[k])@ == header_labels(cfg.dates)[k]
    &&& nurse_rows_match(cfg, t.nurses@)
    &&& sup_rows_match(cfg, t.supporters@)
}

/// Runs the whole pipeline: validation, the header, the nurse engine and
/// the supporter engine. On success the header and every row have one
/// entry per working day of the range.
pub fn generate_table(cfg: &Config) -> (r: Result<RotaTable, ErrorKind>)
    ensures
        match validate_spec(*cfg) {
            Err(e) => r is Err && r->Err_0 == e,
            Ok(()) => ({
                let offset = weekday_index(cfg.dates.start_day@);
                match nurse_days(*cfg, offset, cfg.dates.end as int + 1) {
                    Err(e) => r is Err && r->Err_0 == e,
                    Ok(_) => match sup_days(*cfg, offset, cfg.dates.end as int + 1) {
                        Err(e) => r is Err && r->Err_0 == e,
                        Ok(_) => r is Ok && table_matches(*cfg, r->Ok_0),
                    },
                }
            }),
        },
        r is Ok ==> ({
            let t = r->Ok_0;
            let wcount = working_doms(
                weekday_index(cfg.dates.start_day@),
                cfg.dates.start as int,
                cfg.dates.end as int + 1,
            ).len();
            &&& t.header@.len() == wcount
            &&& t.nurses@.len() == cfg.people.nurses@.len()
            &&& t.supporters@.len() == cfg.people.supporters@.len()
            &&& forall|n: int|
                0 <= n < t.nurses@.len() ==> (#[trigger] t.nurses@[n]).labels@.len() == wcount
            &&& forall|n: int|
                0 <= n < t.supporters@.len() ==> (#[trigger] t.supporters@[n]).labels@.len()
                    == wcount
        }),
{
    if let Err(e) = do_validates(cfg) {
        return Err(e);
    }
    let ghost offset = weekday_index(cfg.dates.start_day@);
    proof {
        crate::vocab::lemma_weekday_index(cfg.dates.start_day@);
    }
    let header = build_header(&cfg.dates);
    let nurses = match assign_nurses(cfg) {
        Ok(rows) => rows,
        Err(e) => {
            return Err(e);
        },
    };
    let supporters = match assign_supporters(cfg) {
        Ok(rows) => rows,
        Err(e) => {
            return Err(e);
        },
    };
    proof {
        lemma_nurse_days_count(*cfg, offset, cfg.dates.end as int + 1);
        lemma_sup_days_count(*cfg, offset, cfg.dates.end as int + 1);
    }
    Ok(RotaTable { header, nurses, supporters })
}

} // verus!
