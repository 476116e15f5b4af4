//! The library's stated laws, each proved from the specification
//! functions that the engines' contracts use.

use vstd::prelude::*;

use crate::config::{days_contain, rests_on, Config, NursesJob, PersonRow};
use crate::nurses::{
    day_outcomes, last_eligible_below, lemma_day_outcomes_len, lemma_nurse_days_count,
    nurse_days, nurse_rows_match, nurse_window, slot_eligible, winlen_spec, Outcome,
};
use crate::slots::{
    lemma_cross_slots_len, nurse_pool_spec, supporter_pool_spec, Slot,
};
use crate::supporters::{
    lemma_sup_day_outcomes_len, lemma_sup_days_count, sup_day_outcomes, sup_days,
    sup_rows_match, SupOutcome,
};
use crate::table::{table_matches, RotaTable};
use crate::vocab::{day_weekday, is_working, weekday_index, weekday_names, working_doms};

verus! {

/// Law: whenever pool construction succeeds, the nurse pool has exactly
/// one slot per nurse, and the supporter pool exactly one per supporter.
pub proof fn lemma_pool_lengths(cfg: Config)
    requires
        cfg.rooms@.len() * cfg.nurses_jobs@.len() <= cfg.people.nurses@.len(),
        cfg.rooms@.len() <= cfg.people.supporters@.len(),
    ensures
        nurse_pool_spec(
            cfg.rooms@.len() as int,
            cfg.nurses_jobs@.len() as int,
            cfg.people.nurses@.len() as int,
        ).len() == cfg.people.nurses@.len(),
        supporter_pool_spec(cfg.rooms@.len() as int, cfg.people.supporters@.len() as int).len()
            == cfg.people.supporters@.len(),
{
    lemma_cross_slots_len(cfg.rooms@.len() as int, cfg.nurses_jobs@.len() as int);
}

/// Law: every constructed day window (of a non-empty pool) has exactly
/// the window length of the range.
pub proof fn lemma_window_length(cfg: Config, dom: int)
    requires
        cfg.rooms@.len() * cfg.nurses_jobs@.len() <= cfg.people.nurses@.len(),
        cfg.people.nurses@.len() > 0,
    ensures
        nurse_window(cfg, dom).len() == winlen_spec(cfg),
{
    lemma_cross_slots_len(cfg.rooms@.len() as int, cfg.nurses_jobs@.len() as int);
}

/// Law: on one working day, nurses without a day restriction and without
/// the trainee flag each consume exactly one slot, taken from the back of
/// the window, so no two of them receive the same window position.
pub proof fn lemma_plain_nurses_one_slot_each(cfg: Config, wd: int, w: Seq<Slot>, n: int)
    requires
        0 <= n <= cfg.people.nurses@.len(),
        n <= w.len(),
        forall|i: int|
            0 <= i < n ==> (#[trigger] cfg.people.nurses@[i]).days is None
                && cfg.people.nurses@[i].trainee != Some(true),
    ensures
        day_outcomes(cfg, wd, w, n) is Ok,
        day_outcomes(cfg, wd, w, n)->Ok_0.1 == w.take(w.len() - n),
        day_outcomes(cfg, wd, w, n)->Ok_0.0.len() == n,
        forall|i: int|
            0 <= i < n ==> day_outcomes(cfg, wd, w, n)->Ok_0.0[i] == Outcome::Assigned(
                w[w.len() - 1 - i],
            ),
    decreases n,
{
    if n == 0 {
        assert(w.take(w.len() as int) =~= w);
    } else {
        lemma_plain_nurses_one_slot_each(cfg, wd, w, n - 1);
        let prev = w.take(w.len() - (n - 1));
        assert(prev.len() == w.len() - n + 1);
        assert(prev.last() == w[w.len() - n]);
        assert(prev.drop_last() =~= w.take(w.len() - n));
    }
}

/// Law: on a successful day, any single nurse without a day restriction
/// and without the trainee flag consumes exactly one slot, the one at the
/// back of the window they face, leaving a window one slot shorter for
/// the next nurse.
pub proof fn lemma_plain_nurse_takes_back(cfg: Config, wd: int, w: Seq<Slot>, n: int, i: int)
    requires
        0 <= i < n,
        day_outcomes(cfg, wd, w, n) is Ok,
        cfg.people.nurses@[i].days is None,
        cfg.people.nurses@[i].trainee != Some(true),
    ensures
        ({
            let wi = day_outcomes(cfg, wd, w, i)->Ok_0.1;
            &&& wi.len() > 0
            &&& day_outcomes(cfg, wd, w, n)->Ok_0.0[i] == Outcome::Assigned(wi.last())
            &&& day_outcomes(cfg, wd, w, i + 1)->Ok_0.1 == wi.drop_last()
        }),
    decreases n,
{
    lemma_day_outcomes_len(cfg, wd, w, n);
    if i < n - 1 {
        assert(day_outcomes(cfg, wd, w, n - 1) is Ok);
        lemma_plain_nurse_takes_back(cfg, wd, w, n - 1, i);
        lemma_day_outcomes_len(cfg, wd, w, n - 1);
    } else {
        assert(day_outcomes(cfg, wd, w, n - 1) is Ok);
    }
}

/// A successful day keeps every earlier prefix successful.
pub proof fn lemma_day_outcomes_prefix_ok(cfg: Config, wd: int, w: Seq<Slot>, m: int, n: int)
    requires
        0 <= m <= n,
        day_outcomes(cfg, wd, w, n) is Ok,
    ensures
        day_outcomes(cfg, wd, w, m) is Ok,
    decreases n - m,
{
    if n > m {
        assert(day_outcomes(cfg, wd, w, n - 1) is Ok);
        lemma_day_outcomes_prefix_ok(cfg, wd, w, m, n - 1);
    }
}

/// Relates entry `k` of a successful nurse run to its working day.
pub proof fn lemma_nurse_days_at(cfg: Config, offset: int, upto: int, k: int)
    requires
        nurse_days(cfg, offset, upto) is Ok,
        0 <= k < working_doms(offset, cfg.dates.start as int, upto).len(),
    ensures
        ({
            let doms = working_doms(offset, cfg.dates.start as int, upto);
            let dom = doms[k];
            let day = day_outcomes(
                cfg,
                day_weekday(offset, cfg.dates.start as int, dom),
                nurse_window(cfg, dom),
                cfg.people.nurses@.len() as int,
            );
            &&& day is Ok
            &&& nurse_days(cfg, offset, upto)->Ok_0[k] == day->Ok_0.0
        }),
    decreases upto - cfg.dates.start,
{
    let start = cfg.dates.start as int;
    lemma_nurse_days_count(cfg, offset, upto);
    if upto > start {
        lemma_nurse_days_count(cfg, offset, upto - 1);
        let prevdoms = working_doms(offset, start, upto - 1);
        if is_working(offset, start, upto - 1) && k == prevdoms.len() {
        } else {
            lemma_nurse_days_at(cfg, offset, upto - 1, k);
        }
    }
}

/// One restricted nurse's outcome is the part-time day off.
pub proof fn lemma_restricted_nurse_outcome(cfg: Config, wd: int, w: Seq<Slot>, n: int, i: int)
    requires
        0 <= i < n,
        day_outcomes(cfg, wd, w, n) is Ok,
        rests_on(cfg.people.nurses@[i].days, weekday_names()[wd]),
    ensures
        day_outcomes(cfg, wd, w, n)->Ok_0.0[i] == Outcome::PartTimeOff,
    decreases n,
{
    lemma_day_outcomes_len(cfg, wd, w, n);
    if i < n - 1 {
        lemma_restricted_nurse_outcome(cfg, wd, w, n - 1, i);
        lemma_day_outcomes_len(cfg, wd, w, n - 1);
    } else {
        lemma_day_outcomes_len(cfg, wd, w, n - 1);
    }
}

/// Law: a day-restricted nurse is labelled exactly "off (part time)" on
/// every working day whose weekday is not in their restriction list,
/// whatever the rotation state.
pub proof fn lemma_restricted_nurse_label(cfg: Config, rows: Seq<PersonRow>, n: int, k: int)
    requires
        nurse_rows_match(cfg, rows),
        0 <= n < cfg.people.nurses@.len(),
        0 <= k < working_doms(
            weekday_index(cfg.dates.start_day@),
            cfg.dates.start as int,
            cfg.dates.end as int + 1,
        ).len(),
        cfg.people.nurses@[n].days is Some,
        !days_contain(
            cfg.people.nurses@[n].days->Some_0@,
            weekday_names()[day_weekday(
                weekday_index(cfg.dates.start_day@),
                cfg.dates.start as int,
                working_doms(
                    weekday_index(cfg.dates.start_day@),
                    cfg.dates.start as int,
                    cfg.dates.end as int + 1,
                )[k],
            )],
        ),
    ensures
        rows[n].labels@[k]@ == "off (part time)"@,
{
    let offset = weekday_index(cfg.dates.start_day@);
    let upto = cfg.dates.end as int + 1;
    let doms = working_doms(offset, cfg.dates.start as int, upto);
    let dom = doms[k];
    let wd = day_weekday(offset, cfg.dates.start as int, dom);
    lemma_nurse_days_count(cfg, offset, upto);
    lemma_nurse_days_at(cfg, offset, upto, k);
    lemma_restricted_nurse_outcome(
        cfg,
        wd,
        nurse_window(cfg, dom),
        cfg.people.nurses@.len() as int,
        n,
    );
}

/// Relates entry `k` of a successful supporter run to its working day.
pub proof fn lemma_sup_days_at(cfg: Config, offset: int, upto: int, k: int)
    requires
        sup_days(cfg, offset, upto) is Ok,
        0 <= k < working_doms(offset, cfg.dates.start as int, upto).len(),
    ensures
        ({
            let doms = working_doms(offset, cfg.dates.start as int, upto);
            let dom = doms[k];
            sup_days(cfg, offset, upto)->Ok_0[k] == sup_day_outcomes(
                cfg,
                day_weekday(offset, cfg.dates.start as int, dom),
                dom,
                cfg.people.supporters@.len() as int,
            ).0
        }),
    decreases upto - cfg.dates.start,
{
    let start = cfg.dates.start as int;
    lemma_sup_days_count(cfg, offset, upto);
    if upto > start {
        lemma_sup_days_count(cfg, offset, upto - 1);
        let prevdoms = working_doms(offset, start, upto - 1);
        if is_working(offset, start, upto - 1) && k == prevdoms.len() {
        } else {
            lemma_sup_days_at(cfg, offset, upto - 1, k);
        }
    }
}

/// One restricted supporter's outcome is the day off.
pub proof fn lemma_restricted_sup_outcome(cfg: Config, wd: int, dom: int, n: int, i: int)
    requires
        0 <= i < n,
        rests_on(cfg.people.supporters@[i].days, weekday_names()[wd]),
    ensures
        sup_day_outcomes(cfg, wd, dom, n).0[i] == SupOutcome::DayOff,
    decreases n,
{
    lemma_sup_day_outcomes_len(cfg, wd, dom, n - 1);
    if i < n - 1 {
        lemma_restricted_sup_outcome(cfg, wd, dom, n - 1, i);
    }
}

/// Law: a day-restricted supporter is labelled exactly "off-day" on every
/// working day whose weekday is not in their restriction list, whatever
/// the rotation state.
pub proof fn lemma_restricted_sup_label(cfg: Config, rows: Seq<PersonRow>, n: int, k: int)
    requires
        sup_rows_match(cfg, rows),
        0 <= n < cfg.people.supporters@.len(),
        0 <= k < working_doms(
            weekday_index(cfg.dates.start_day@),
            cfg.dates.start as int,
            cfg.dates.end as int + 1,
        ).len(),
        cfg.people.supporters@[n].days is Some,
        !days_contain(
            cfg.people.supporters@[n].days->Some_0@,
            weekday_names()[day_weekday(
                weekday_index(cfg.dates.start_day@),
                cfg.dates.start as int,
                working_doms(
                    weekday_index(cfg.dates.start_day@),
                    cfg.dates.start as int,
                    cfg.dates.end as int + 1,
                )[k],
            )],
        ),
    ensures
        rows[n].labels@[k]@ == "off-day"@,
{
    let offset = weekday_index(cfg.dates.start_day@);
    let upto = cfg.dates.end as int + 1;
    let doms = working_doms(offset, cfg.dates.start as int, upto);
    let dom = doms[k];
    let wd = day_weekday(offset, cfg.dates.start as int, dom);
    lemma_sup_days_count(cfg, offset, upto);
    lemma_sup_days_at(cfg, offset, upto, k);
    lemma_restricted_sup_outcome(cfg, wd, dom, cfg.people.supporters@.len() as int, n);
}

/// Law: the generated table is a function of the configuration alone; two
/// tables that both match one configuration agree on every label, so two
/// runs of the engine produce identical content and ordering.
pub proof fn lemma_table_deterministic(cfg: Config, t1: RotaTable, t2: RotaTable)
    requires
        table_matches(cfg, t1),
        table_matches(cfg, t2),
    ensures
        t1.header@.len() == t2.header@.len(),
        forall|k: int|
            0 <= k < t1.header@.len() ==> (#[trigger] t1.header@[k])@ == t2.header@[k]@,
        t1.nurses@.len() == t2.nurses@.len(),
        forall|n: int|
            0 <= n < t1.nurses@.len() ==> (#[trigger] t1.nurses@[n]).name@ == t2.nurses@[n].name@
                && t1.nurses@[n].labels@.len() == t2.nurses@[n].labels@.len(),
        forall|n: int, k: int|
            0 <= n < t1.nurses@.len() && 0 <= k < t1.nurses@[n].labels@.len() ==> (
            #[trigger] t1.nurses@[n].labels@[k])@ == t2.nurses@[n].labels@[k]@,
        t1.supporters@.len() == t2.supporters@.len(),
        forall|n: int|
            0 <= n < t1.supporters@.len() ==> (#[trigger] t1.supporters@[n]).name@
                == t2.supporters@[n].name@ && t1.supporters@[n].labels@.len()
                == t2.supporters@[n].labels@.len(),
        forall|n: int, k: int|
            0 <= n < t1.supporters@.len() && 0 <= k < t1.supporters@[n].labels@.len() ==> (
            #[trigger] t1.supporters@[n].labels@[k])@ == t2.supporters@[n].labels@[k]@,
{
}

/// The largest eligible position below `i` exists and is eligible, as
/// soon as anything below `i` is eligible.
pub proof fn lemma_last_eligible_props(jobs: Seq<NursesJob>, w: Seq<Slot>, i: int)
    requires
        0 <= i <= w.len(),
        exists|t: int| 0 <= t < i && slot_eligible(jobs, w[t]),
    ensures
        0 <= last_eligible_below(jobs, w, i) < i,
        slot_eligible(jobs, w[last_eligible_below(jobs, w, i)]),
    decreases i,
{
    if i > 0 && !slot_eligible(jobs, w[i - 1]) {
        let t = choose|t: int| 0 <= t < i && slot_eligible(jobs, w[t]);
        assert(0 <= t < i - 1 && slot_eligible(jobs, w[t]));
        lemma_last_eligible_props(jobs, w, i - 1);
    }
}

/// Law: when the trainee rule applies (the nurse is a trainee, does not
/// rest, and the window they face does not start with an off slot), the
/// slot they are assigned is trainee-eligible: a trainee never receives a
/// job marked not for trainees through that rule.
pub proof fn lemma_trainee_gets_eligible(cfg: Config, wd: int, w: Seq<Slot>, n: int, i: int)
    requires
        0 <= i < n,
        day_outcomes(cfg, wd, w, n) is Ok,
        cfg.people.nurses@[i].trainee == Some(true),
        !rests_on(cfg.people.nurses@[i].days, weekday_names()[wd]),
        day_outcomes(cfg, wd, w, i)->Ok_0.1.len() > 0,
        day_outcomes(cfg, wd, w, i)->Ok_0.1[0] != Slot::Off,
    ensures
        match day_outcomes(cfg, wd, w, n)->Ok_0.0[i] {
            Outcome::Assigned(s) => slot_eligible(cfg.nurses_jobs@, s),
            Outcome::PartTimeOff => false,
        },
    decreases n,
{
    lemma_day_outcomes_len(cfg, wd, w, n);
    lemma_day_outcomes_prefix_ok(cfg, wd, w, n - 1, n);
    lemma_day_outcomes_len(cfg, wd, w, n - 1);
    if i < n - 1 {
        lemma_trainee_gets_eligible(cfg, wd, w, n - 1, i);
    } else {
        let wi = day_outcomes(cfg, wd, w, i)->Ok_0.1;
        let jobs = cfg.nurses_jobs@;
        assert(crate::nurses::has_eligible(jobs, wi));
        let t = choose|t: int| 0 <= t < wi.len() && slot_eligible(jobs, wi[t]);
        assert(0 <= t < wi.len() && slot_eligible(jobs, wi[t]));
        lemma_last_eligible_props(jobs, wi, wi.len() as int);
    }
}

} // verus!
