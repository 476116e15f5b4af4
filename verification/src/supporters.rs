//! The supporter assignment engine. For each working day the room pool is
//! consumed as one shared cyclic iterator, offset by the raw day-of-month:
//! each supporter in configured order either rests (day restriction) or
//! takes the next slot, using the room name verbatim as the label.

use vstd::prelude::*;
use vstd::arithmetic::div_mod::{lemma_fundamental_div_mod, lemma_fundamental_div_mod_converse_mod};
use vstd::string::StringExecFns;

use crate::config::{days_contain_exec, rests_on, Config, ErrorKind, PersonRow, Supporter};
use crate::slots::{build_supporter_pool, supporter_pool_spec, RoomSlot};
use crate::vocab::{
    day_weekday, is_working, lemma_day_weekday_step, weekday_index, weekday_name_str,
    weekday_names, weekday_offset,
};

verus! {

/// What one supporter gets on one working day: a restricted day off, or a
/// slot taken from the shared iterator.
pub enum SupOutcome {
    DayOff,
    Taken(RoomSlot),
}

/// The supporter pool of `cfg`.
pub open spec fn sup_pool(cfg: Config) -> Seq<RoomSlot> {
    supporter_pool_spec(cfg.rooms@.len() as int, cfg.people.supporters@.len() as int)
}

/// One supporter's step on weekday `wd` with the shared iterator at
/// absolute position `pos`.
pub open spec fn sup_step(cfg: Config, wd: int, s: Supporter, pos: int) -> (SupOutcome, int) {
    if rests_on(s.days, weekday_names()[wd]) {
        (SupOutcome::DayOff, pos)
    } else {
        (SupOutcome::Taken(sup_pool(cfg)[pos % (sup_pool(cfg).len() as int)]), pos + 1)
    }
}

/// The first `n` supporters' outcomes on weekday `wd` of day `dom`, with
/// the iterator position they leave behind (it starts at the raw
/// day-of-month).
pub open spec fn sup_day_outcomes(cfg: Config, wd: int, dom: int, n: int) -> (Seq<SupOutcome>, int)
    decreases n,
{
    if n <= 0 {
        (Seq::empty(), dom)
    } else {
        let p = sup_day_outcomes(cfg, wd, dom, n - 1);
        let q = sup_step(cfg, wd, cfg.people.supporters@[n - 1], p.1);
        (p.0.push(q.0), q.1)
    }
}

/// The per-day supporter outcomes of all working days in `[start, upto)`,
/// or the pool-construction error.
pub open spec fn sup_days(cfg: Config, offset: int, upto: int) -> Result<
    Seq<Seq<SupOutcome>>,
    ErrorKind,
>
    decreases upto - cfg.dates.start,
{
    let start = cfg.dates.start as int;
    if upto <= start {
        Ok(Seq::empty())
    } else {
        match sup_days(cfg, offset, upto - 1) {
            Err(e) => Err(e),
            Ok(dayss) => {
                let dom = upto - 1;
                if is_working(offset, start, dom) {
                    if cfg.rooms@.len() > cfg.people.supporters@.len() {
                        Err(ErrorKind::NotEnoughSupporters)
                    } else {
                        Ok(
                            dayss.push(
                                sup_day_outcomes(
                                    cfg,
                                    day_weekday(offset, start, dom),
                                    dom,
                                    cfg.people.supporters@.len() as int,
                                ).0,
                            ),
                        )
                    }
                } else {
                    Ok(dayss)
                }
            },
        }
    }
}

/// The label of one supporter-day outcome: the room name verbatim, the
/// off label, or the restricted-day label.
pub open spec fn sup_outcome_label(cfg: Config, o: SupOutcome) -> Seq<char> {
    match o {
        SupOutcome::DayOff => "off-day"@,
        SupOutcome::Taken(RoomSlot::Off) => "off"@,
        SupOutcome::Taken(RoomSlot::Room { room }) => cfg.rooms@[room as int]@,
    }
}

/// A successful day hands out exactly one outcome per supporter processed.
pub proof fn lemma_sup_day_outcomes_len(cfg: Config, wd: int, dom: int, n: int)
    requires
        n >= 0,
    ensures
        sup_day_outcomes(cfg, wd, dom, n).0.len() == n,
    decreases n,
{
    if n > 0 {
        lemma_sup_day_outcomes_len(cfg, wd, dom, n - 1);
    }
}

/// A successful run yields one day of outcomes per working day.
pub proof fn lemma_sup_days_count(cfg: Config, offset: int, upto: int)
    requires
        sup_days(cfg, offset, upto) is Ok,
    ensures
        sup_days(cfg, offset, upto)->Ok_0.len() == crate::vocab::working_doms(
            offset,
            cfg.dates.start as int,
            upto,
        ).len(),
    decreases upto - cfg.dates.start,
{
    if upto > cfg.dates.start {
        lemma_sup_days_count(cfg, offset, upto - 1);
    }
}

/// A failed day swallows every later day.
pub proof fn lemma_sup_days_err(cfg: Config, offset: int, upto1: int, upto2: int)
    requires
        upto1 <= upto2,
        sup_days(cfg, offset, upto1) is Err,
    ensures
        sup_days(cfg, offset, upto2) == sup_days(cfg, offset, upto1),
    decreases upto2 - upto1,
{
    if upto2 > upto1 {
        lemma_sup_days_err(cfg, offset, upto1, upto2 - 1);
    }
}

/// Whether `rows` is exactly the supporter table of `cfg`: one row per
/// supporter, in configured order, with one label per working day.
pub open spec fn sup_rows_match(cfg: Config, rows: Seq<PersonRow>) -> bool {
    let offset = weekday_index(cfg.dates.start_day@);
    match sup_days(cfg, offset, cfg.dates.end as int + 1) {
        Ok(dayss) => {
            &&& rows.len() == cfg.people.supporters@.len()
            &&& forall|n: int|
                0 <= n < rows.len() ==> (#[trigger] rows[n]).name@
                    == cfg.people.supporters@[n].name@
            &&& forall|n: int|
                0 <= n < rows.len() ==> (#[trigger] rows[n]).labels@.len() == dayss.len()
            &&& forall|n: int, k: int|
                0 <= n < rows.len() && 0 <= k < dayss.len() ==> (
                #[trigger] rows[n].labels@[k])@ == sup_outcome_label(cfg, dayss[k][n])
        },
        Err(_) => false,
    }
}

/// Builds the per-supporter assignment rows: for every working day of the
/// range, in order, each supporter gets one label from the shared cyclic
/// room iterator, or the restricted-day label.
#[verifier::loop_isolation(false)]
pub fn assign_supporters(cfg: &Config) -> (r: Result<Vec<PersonRow>, ErrorKind>)
    requires
        weekday_names().contains(cfg.dates.start_day@),
        cfg.dates.end < 33,
    ensures
        ({
            let offset = weekday_index(cfg.dates.start_day@);
            match sup_days(*cfg, offset, cfg.dates.end as int + 1) {
                Ok(_) => r is Ok && sup_rows_match(*cfg, r->Ok_0@),
                Err(e) => r is Err && r->Err_0 == e,
            }
        }),
{
    let ghost offset_s = weekday_index(cfg.dates.start_day@);
    let offset = match weekday_offset(cfg.dates.start_day.as_str()) {
        Some(o) => o,
        None => {
            proof {
                assert(false);
            }
            0
        },
    };
    let ns = cfg.people.supporters.len();
    let nr = cfg.rooms.len();
    let start = cfg.dates.start;
    let end = cfg.dates.end;
    let ghost mut dayss: Seq<Seq<SupOutcome>> = Seq::empty();
    let mut days_labels: Vec<Vec<String>> = Vec::new();
    if start <= end {
        let mut dom: usize = start;
        let mut wd: usize = offset;
        while dom <= end
            invariant
                start <= dom <= end + 1,
                wd as int == day_weekday(offset_s, start as int, dom as int),
                wd < 7,
                sup_days(*cfg, offset_s, dom as int) == Ok::<Seq<Seq<SupOutcome>>, ErrorKind>(
                    dayss,
                ),
                days_labels@.len() == dayss.len(),
                forall|k: int| 0 <= k < dayss.len() ==> (#[trigger] dayss[k]).len() == ns,
                forall|k: int| 0 <= k < dayss.len() ==> (#[trigger] days_labels@[k])@.len() == ns,
                forall|k: int, t: int|
                    0 <= k < dayss.len() && 0 <= t < ns ==> (#[trigger] days_labels@[k]@[t])@
                        == sup_outcome_label(*cfg, dayss[k][t]),
            decreases end + 1 - dom,
        {
            if wd < 5 {
                let pool = match build_supporter_pool(cfg) {
                    Ok(p) => p,
                    Err(e) => {
                        proof {
                            lemma_sup_days_err(*cfg, offset_s, dom as int + 1, end as int + 1);
                        }
                        return Err(e);
                    },
                };
                let len = pool.len();
                let mut idx: usize = if len > 0 {
                    dom % len
                } else {
                    0
                };
                let ghost mut pos_g: int = dom as int;
                let ghost mut outs: Seq<SupOutcome> = Seq::empty();
                let mut day_out: Vec<String> = Vec::new();
                let today = weekday_name_str(wd);
                let mut i: usize = 0;
                while i < ns
                    invariant
                        i <= ns,
                        wd < 7,
                        today@ == weekday_names()[wd as int],
                        pool@ == sup_pool(*cfg),
                        len == pool@.len(),
                        len == ns,
                        sup_day_outcomes(*cfg, wd as int, dom as int, i as int) == (outs, pos_g),
                        len > 0 ==> idx < len && idx as int == pos_g % (len as int),
                        pos_g >= 0,
                        outs.len() == i,
                        day_out@.len() == i,
                        forall|t: int|
                            0 <= t < i ==> (#[trigger] day_out@[t])@ == sup_outcome_label(
                                *cfg,
                                outs[t],
                            ),
                    decreases ns - i,
                {
                    let s = &cfg.people.supporters[i];
                    let resting = match &s.days {
                        Some(ds) => !days_contain_exec(ds, today),
                        None => false,
                    };
                    if resting {
                        day_out.push(String::from_str("off-day"));
                        proof {
                            outs = outs.push(SupOutcome::DayOff);
                        }
                    } else {
                        let slot = pool[idx];
                        let lab = match slot {
                            RoomSlot::Off => String::from_str("off"),
                            RoomSlot::Room { room } => cfg.rooms[room].clone(),
                        };
                        day_out.push(lab);
                        proof {
                            let ni = len as int;
                            lemma_fundamental_div_mod(pos_g, ni);
                            let q0 = pos_g / ni;
                            if idx + 1 == len {
                                assert(pos_g + 1 == (q0 + 1) * ni + 0) by (nonlinear_arith)
                                    requires pos_g == ni * q0 + (ni - 1);
                                lemma_fundamental_div_mod_converse_mod(pos_g + 1, ni, q0 + 1, 0);
                            } else {
                                assert(pos_g + 1 == q0 * ni + (idx as int + 1)) by (nonlinear_arith)
                                    requires pos_g == ni * q0 + idx as int;
                                lemma_fundamental_div_mod_converse_mod(
                                    pos_g + 1,
                                    ni,
                                    q0,
                                    idx as int + 1,
                                );
                            }
                            outs = outs.push(SupOutcome::Taken(slot));
                            pos_g = pos_g + 1;
                        }
                        idx = if idx + 1 == len {
                            0
                        } else {
                            idx + 1
                        };
                    }
                    i += 1;
                }
                days_labels.push(day_out);
                proof {
                    dayss = dayss.push(outs);
                }
            }
            proof {
                lemma_day_weekday_step(offset_s, start as int, dom as int);
            }
            wd = (wd + 1) % 7;
            dom += 1;
        }
    }
    let ghost dayss_final = dayss;
    proof {
        assert(sup_days(*cfg, offset_s, end as int + 1) == Ok::<Seq<Seq<SupOutcome>>, ErrorKind>(
            dayss_final,
        ));
    }
    let nd = days_labels.len();
    let mut rows: Vec<PersonRow> = Vec::new();
    let mut p: usize = 0;
    while p < ns
        invariant
            p <= ns,
            nd == days_labels@.len(),
            nd == dayss_final.len(),
            rows@.len() == p,
            forall|k: int| 0 <= k < nd ==> (#[trigger] days_labels@[k])@.len() == ns,
            forall|k: int, t: int|
                0 <= k < nd && 0 <= t < ns ==> (#[trigger] days_labels@[k]@[t])@
                    == sup_outcome_label(*cfg, dayss_final[k][t]),
            forall|n: int|
                0 <= n < p ==> (#[trigger] rows@[n]).name@ == cfg.people.supporters@[n].name@,
            forall|n: int| 0 <= n < p ==> (#[trigger] rows@[n]).labels@.len() == nd,
            forall|n: int, k: int|
                0 <= n < p && 0 <= k < nd ==> (#[trigger] rows@[n].labels@[k])@
                    == sup_outcome_label(*cfg, dayss_final[k][n]),
        decreases ns - p,
    {
        let mut labels: Vec<String> = Vec::new();
        let mut k: usize = 0;
        while k < nd
            invariant
                k <= nd,
                p < ns,
                labels@.len() == k,
                forall|t: int|
                    0 <= t < k ==> (#[trigger] labels@[t])@ == days_labels@[t]@[p as int]@,
            decreases nd - k,
        {
            labels.push(days_labels[k][p].clone());
            k += 1;
        }
        rows.push(PersonRow { name: cfg.people.supporters[p].name.clone(), labels });
        p += 1;
    }
    Ok(rows)
}

} // verus!
