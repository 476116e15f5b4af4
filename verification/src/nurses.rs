//! The nurse assignment engine. For each working day a fresh rotation
//! window is derived from the nurse pool; nurses are then visited in
//! configured order, each either resting (a personal day off), taking a
//! trainee-filtered slot, or consuming the slot at the back of the window.
//!
//! The trainee rule is deliberately asymmetric: the slot assigned is the
//! last trainee-eligible one in the window, while the slot removed from
//! the window is the first trainee-eligible one. The two can differ, so
//! one slot's label may be handed out twice on a day; tests pin this
//! behaviour exactly.

use vstd::prelude::*;
use vstd::string::StringExecFns;

use crate::config::{
    days_contain_exec, rests_on, Config, ErrorKind, Nurse, PersonRow,
};
use crate::slots::{
    build_nurse_pool, build_window, day_window, nurse_pool_spec, slot_wf, Slot,
};
use crate::vocab::{
    day_weekday, is_working, lemma_day_weekday_step, weekday_index, weekday_name_str,
    weekday_names, weekday_offset,
};

verus! {

/// What one nurse gets on one working day: a personal day off, or an
/// assigned slot.
pub enum Outcome {
    PartTimeOff,
    Assigned(Slot),
}

/// A slot a trainee may take: off, or a job not marked trainee-ineligible.
pub open spec fn slot_eligible(jobs: Seq<crate::config::NursesJob>, s: Slot) -> bool {
    match s {
        Slot::Off => true,
        Slot::Pair { room, job } => jobs[job as int].for_trainees != Some(false),
    }
}

/// Whether the window holds any trainee-eligible slot.
pub open spec fn has_eligible(jobs: Seq<crate::config::NursesJob>, w: Seq<Slot>) -> bool {
    exists|k: int| 0 <= k < w.len() && slot_eligible(jobs, w[k])
}

/// Smallest index in `w[i..]` of a trainee-eligible slot (`w.len()` when
/// there is none).
pub open spec fn first_eligible_from(jobs: Seq<crate::config::NursesJob>, w: Seq<Slot>, i: int) -> int
    decreases w.len() - i,
{
    if i < 0 || i >= w.len() {
        w.len() as int
    } else if slot_eligible(jobs, w[i]) {
        i
    } else {
        first_eligible_from(jobs, w, i + 1)
    }
}

/// Largest index below `i` of a trainee-eligible slot (`-1` when there is
/// none).
pub open spec fn last_eligible_below(jobs: Seq<crate::config::NursesJob>, w: Seq<Slot>, i: int) -> int
    decreases i,
{
    if i <= 0 {
        -1
    } else if slot_eligible(jobs, w[i - 1]) {
        i - 1
    } else {
        last_eligible_below(jobs, w, i - 1)
    }
}

/// One nurse's step on weekday `wd` against window `w`: the outcome and
/// the window left for the next nurse.
pub open spec fn nurse_step(cfg: Config, wd: int, n: Nurse, w: Seq<Slot>) -> Result<
    (Outcome, Seq<Slot>),
    ErrorKind,
> {
    if rests_on(n.days, weekday_names()[wd]) {
        Ok((Outcome::PartTimeOff, w))
    } else if n.trainee == Some(true) && w.len() > 0 && w[0] != Slot::Off {
        if has_eligible(cfg.nurses_jobs@, w) {
            Ok(
                (
                    Outcome::Assigned(w[last_eligible_below(cfg.nurses_jobs@, w, w.len() as int)]),
                    w.remove(first_eligible_from(cfg.nurses_jobs@, w, 0)),
                ),
            )
        } else {
            Err(ErrorKind::NoTraineeJobVariantsLeft)
        }
    } else if w.len() > 0 {
        Ok((Outcome::Assigned(w.last()), w.drop_last()))
    } else {
        Err(ErrorKind::NoJobVariantsLeft)
    }
}

/// The first `n` nurses' outcomes on weekday `wd`, starting from window
/// `w`, with the window they leave behind.
pub open spec fn day_outcomes(cfg: Config, wd: int, w: Seq<Slot>, n: int) -> Result<
    (Seq<Outcome>, Seq<Slot>),
    ErrorKind,
>
    decreases n,
{
    if n <= 0 {
        Ok((Seq::empty(), w))
    } else {
        match day_outcomes(cfg, wd, w, n - 1) {
            Ok(p) => match nurse_step(cfg, wd, cfg.people.nurses@[n - 1], p.1) {
                Ok(q) => Ok((p.0.push(q.0), q.1)),
                Err(e) => Err(e),
            },
            Err(e) => Err(e),
        }
    }
}

/// The window length: one less than the inclusive day count of the range.
pub open spec fn winlen_spec(cfg: Config) -> nat {
    (cfg.dates.end - cfg.dates.start) as nat
}

/// The nurse window of day `dom`.
pub open spec fn nurse_window(cfg: Config, dom: int) -> Seq<Slot> {
    day_window(
        nurse_pool_spec(
            cfg.rooms@.len() as int,
            cfg.nurses_jobs@.len() as int,
            cfg.people.nurses@.len() as int,
        ),
        dom,
        winlen_spec(cfg),
    )
}

/// The per-day nurse outcomes of all working days in `[start, upto)`,
/// or the first error met.
pub open spec fn nurse_days(cfg: Config, offset: int, upto: int) -> Result<
    Seq<Seq<Outcome>>,
    ErrorKind,
>
    decreases upto - cfg.dates.start,
{
    let start = cfg.dates.start as int;
    if upto <= start {
        Ok(Seq::empty())
    } else {
        match nurse_days(cfg, offset, upto - 1) {
            Err(e) => Err(e),
            Ok(dayss) => {
                let dom = upto - 1;
                if is_working(offset, start, dom) {
                    if cfg.rooms@.len() * cfg.nurses_jobs@.len() > cfg.people.nurses@.len() {
                        Err(ErrorKind::NotEnoughNurses)
                    } else {
                        match day_outcomes(
                            cfg,
                            day_weekday(offset, start, dom),
                            nurse_window(cfg, dom),
                            cfg.people.nurses@.len() as int,
                        ) {
                            Ok(p) => Ok(dayss.push(p.0)),
                            Err(e) => Err(e),
                        }
                    }
                } else {
                    Ok(dayss)
                }
            },
        }
    }
}

/// The label of an assigned slot: the room and job names joined by the
/// configured separator, or the literal off label.
pub open spec fn slot_label(cfg: Config, s: Slot) -> Seq<char> {
    match s {
        Slot::Off => "off"@,
        Slot::Pair { room, job } => cfg.rooms@[room as int]@ + crate::config::sep_spec(cfg)
            + cfg.nurses_jobs@[job as int].name@,
    }
}

/// The label of one nurse-day outcome.
pub open spec fn outcome_label(cfg: Config, o: Outcome) -> Seq<char> {
    match o {
        Outcome::PartTimeOff => "off (part time)"@,
        Outcome::Assigned(s) => slot_label(cfg, s),
    }
}

/// A successful day hands out exactly one outcome per nurse processed.
pub proof fn lemma_day_outcomes_len(cfg: Config, wd: int, w: Seq<Slot>, n: int)
    requires
        n >= 0,
        day_outcomes(cfg, wd, w, n) is Ok,
    ensures
        day_outcomes(cfg, wd, w, n)->Ok_0.0.len() == n,
    decreases n,
{
    if n > 0 {
        lemma_day_outcomes_len(cfg, wd, w, n - 1);
    }
}

/// A day error swallows the rest of the day.
pub proof fn lemma_day_outcomes_err(cfg: Config, wd: int, w: Seq<Slot>, i: int, n: int)
    requires
        0 <= i <= n,
        day_outcomes(cfg, wd, w, i) is Err,
    ensures
        day_outcomes(cfg, wd, w, n) == day_outcomes(cfg, wd, w, i),
    decreases n - i,
{
    if n > i {
        lemma_day_outcomes_err(cfg, wd, w, i, n - 1);
    }
}

/// A successful run yields one day of outcomes per working day.
pub proof fn lemma_nurse_days_count(cfg: Config, offset: int, upto: int)
    requires
        nurse_days(cfg, offset, upto) is Ok,
    ensures
        nurse_days(cfg, offset, upto)->Ok_0.len() == crate::vocab::working_doms(
            offset,
            cfg.dates.start as int,
            upto,
        ).len(),
    decreases upto - cfg.dates.start,
{
    if upto > cfg.dates.start {
        lemma_nurse_days_count(cfg, offset, upto - 1);
    }
}

/// A failed day swallows every later day.
pub proof fn lemma_nurse_days_err(cfg: Config, offset: int, upto1: int, upto2: int)
    requires
        upto1 <= upto2,
        nurse_days(cfg, offset, upto1) is Err,
    ensures
        nurse_days(cfg, offset, upto2) == nurse_days(cfg, offset, upto1),
    decreases upto2 - upto1,
{
    if upto2 > upto1 {
        lemma_nurse_days_err(cfg, offset, upto1, upto2 - 1);
        assert(upto2 - 1 >= upto1 > cfg.dates.start);
    }
}

/// Whether a slot may go to a trainee.
fn slot_is_eligible(jobs: &Vec<crate::config::NursesJob>, s: Slot) -> (r: bool)
    requires
        match s {
            Slot::Pair { room, job } => job < jobs@.len(),
            Slot::Off => true,
        },
    ensures
        r == slot_eligible(jobs@, s),
{
    match s {
        Slot::Off => true,
        Slot::Pair { room: _, job } => match jobs[job].for_trainees {
            Some(false) => false,
            _ => true,
        },
    }
}

/// One pass over the window: the first and the last trainee-eligible
/// positions, or `None` when no slot is eligible.
fn scan_eligible(jobs: &Vec<crate::config::NursesJob>, w: &Vec<Slot>) -> (r: Option<(usize, usize)>)
    requires
        forall|t: int|
            0 <= t < w@.len() ==> match #[trigger] w@[t] {
                Slot::Pair { room, job } => job < jobs@.len(),
                Slot::Off => true,
            },
    ensures
        match r {
            Some(fl) => {
                &&& has_eligible(jobs@, w@)
                &&& fl.0 < w@.len()
                &&& fl.1 < w@.len()
                &&& fl.0 as int == first_eligible_from(jobs@, w@, 0)
                &&& fl.1 as int == last_eligible_below(jobs@, w@, w@.len() as int)
            },
            None => !has_eligible(jobs@, w@),
        },
{
    let n = w.len();
    let mut first: Option<usize> = None;
    let mut last: Option<usize> = None;
    let mut i: usize = 0;
    while i < n
        invariant
            i <= n,
            n == w@.len(),
            forall|t: int|
                0 <= t < w@.len() ==> match #[trigger] w@[t] {
                    Slot::Pair { room, job } => job < jobs@.len(),
                    Slot::Off => true,
                },
            match first {
                Some(f) => f < i && slot_eligible(jobs@, w@[f as int]) && f as int
                    == first_eligible_from(jobs@, w@, 0),
                None => forall|t: int| 0 <= t < i ==> !slot_eligible(jobs@, w@[t]),
            },
            first is None ==> first_eligible_from(jobs@, w@, 0) == first_eligible_from(
                jobs@,
                w@,
                i as int,
            ),
            match last {
                Some(l) => l < i && slot_eligible(jobs@, w@[l as int]) && l as int
                    == last_eligible_below(jobs@, w@, i as int),
                None => last_eligible_below(jobs@, w@, i as int) == -1 && forall|t: int|
                    0 <= t < i ==> !slot_eligible(jobs@, w@[t]),
            },
        decreases n - i,
    {
        if slot_is_eligible(jobs, w[i]) {
            if first.is_none() {
                first = Some(i);
            }
            last = Some(i);
        }
        i += 1;
    }
    match (first, last) {
        (Some(f), Some(l)) => Some((f, l)),
        _ => {
            proof {
                if first is Some && last is None {
                    assert(false);
                }
            }
            None
        },
    }
}

/// The label of slot `s` under configuration `cfg`.
fn slot_label_exec(cfg: &Config, s: Slot) -> (r: String)
    requires
        slot_wf(s, cfg.rooms@.len() as int, cfg.nurses_jobs@.len() as int),
    ensures
        r@ == slot_label(*cfg, s),
{
    match s {
        Slot::Off => String::from_str("off"),
        Slot::Pair { room, job } => {
            let mut l = cfg.rooms[room].clone();
            match &cfg.job_room_sep {
                Some(sp) => l.append(sp.as_str()),
                None => l.append(" "),
            }
            l.append(cfg.nurses_jobs[job].name.as_str());
            l
        },
    }
}

/// Builds the per-nurse assignment rows: for every working day of the
/// range, in order, each nurse gets one label, derived from a fresh day
/// window consumed nurse by nurse.
#[verifier::loop_isolation(false)]
pub fn assign_nurses(cfg: &Config) -> (r: Result<Vec<PersonRow>, ErrorKind>)
    requires
        weekday_names().contains(cfg.dates.start_day@),
        cfg.dates.end < 33,
    ensures
        ({
            let offset = weekday_index(cfg.dates.start_day@);
            match nurse_days(*cfg, offset, cfg.dates.end as int + 1) {
                Ok(_) => r is Ok && nurse_rows_match(*cfg, r->Ok_0@),
                Err(e) => r is Err && r->Err_0 == e,
            }
        }),
{
    let ghost offset_s = weekday_index(cfg.dates.start_day@);
    let offset = match weekday_offset(cfg.dates.start_day.as_str()) {
        Some(o) => o,
        None => {
            proof {
                assert(false);
            }
            0
        },
    };
    let nn = cfg.people.nurses.len();
    let nr = cfg.rooms.len();
    let nj = cfg.nurses_jobs.len();
    let start = cfg.dates.start;
    let end = cfg.dates.end;
    let ghost mut dayss: Seq<Seq<Outcome>> = Seq::empty();
    let mut days_labels: Vec<Vec<String>> = Vec::new();
    if start <= end {
        let winlen = end - start;
        let mut dom: usize = start;
        let mut wd: usize = offset;
        while dom <= end
            invariant
                start <= dom <= end + 1,
                start == cfg.dates.start,
                end == cfg.dates.end,
                end < 33,
                nn == cfg.people.nurses@.len(),
                nr == cfg.rooms@.len(),
                nj == cfg.nurses_jobs@.len(),
                winlen == end - start,
                offset == offset_s,
                offset_s == weekday_index(cfg.dates.start_day@),
                0 <= offset_s < 7,
                wd as int == day_weekday(offset_s, start as int, dom as int),
                wd < 7,
                nurse_days(*cfg, offset_s, dom as int) == Ok::<Seq<Seq<Outcome>>, ErrorKind>(dayss),
                days_labels@.len() == dayss.len(),
                forall|k: int| 0 <= k < dayss.len() ==> (#[trigger] dayss[k]).len() == nn,
                forall|k: int| 0 <= k < dayss.len() ==> (#[trigger] days_labels@[k])@.len() == nn,
                forall|k: int, t: int|
                    0 <= k < dayss.len() && 0 <= t < nn ==> (#[trigger] days_labels@[k]@[t])@
                        == outcome_label(*cfg, dayss[k][t]),
            decreases end + 1 - dom,
        {
            if wd < 5 {
                let pool = match build_nurse_pool(cfg) {
                    Ok(p) => p,
                    Err(e) => {
                        proof {
                            lemma_nurse_days_err(*cfg, offset_s, dom as int + 1, end as int + 1);
                        }
                        return Err(e);
                    },
                };
                let mut window = build_window(&pool, dom, winlen);
                proof {
                    assert(window@ == nurse_window(*cfg, dom as int));
                    assert forall|t: int| 0 <= t < window@.len() implies slot_wf(
                        #[trigger] window@[t],
                        nr as int,
                        nj as int,
                    ) by {
                        if pool@.len() > 0 {
                            assert(window@[t] == pool@[(dom + t) % (pool@.len() as int)]);
                        }
                    }
                }
                let ghost w0 = window@;
                let ghost mut outs: Seq<Outcome> = Seq::empty();
                let mut day_out: Vec<String> = Vec::new();
                let today = weekday_name_str(wd);
                let mut i: usize = 0;
                while i < nn
                    invariant
                        i <= nn,
                        nn == cfg.people.nurses@.len(),
                        nr == cfg.rooms@.len(),
                        nj == cfg.nurses_jobs@.len(),
                        wd < 7,
                        today@ == weekday_names()[wd as int],
                        day_outcomes(*cfg, wd as int, w0, i as int) == Ok::<
                            (Seq<Outcome>, Seq<Slot>),
                            ErrorKind,
                        >((outs, window@)),
                        outs.len() == i,
                        day_out@.len() == i,
                        forall|t: int|
                            0 <= t < i ==> (#[trigger] day_out@[t])@ == outcome_label(
                                *cfg,
                                outs[t],
                            ),
                        forall|t: int|
                            0 <= t < window@.len() ==> slot_wf(
                                #[trigger] window@[t],
                                nr as int,
                                nj as int,
                            ),
                    decreases nn - i,
                {
                    let ghost w_before = window@;
                    let n = &cfg.people.nurses[i];
                    let resting = match &n.days {
                        Some(ds) => !days_contain_exec(ds, today),
                        None => false,
                    };
                    let ghost mut o: Outcome = Outcome::PartTimeOff;
                    if resting {
                        day_out.push(String::from_str("off (part time)"));
                    } else {
                        let is_trainee = match n.trainee {
                            Some(b) => b,
                            None => false,
                        };
                        let front_is_off = window.len() > 0 && matches!(window[0], Slot::Off);
                        if is_trainee && window.len() > 0 && !front_is_off {
                            match scan_eligible(&cfg.nurses_jobs, &window) {
                                None => {
                                    proof {
                                        assert(nurse_step(
                                            *cfg,
                                            wd as int,
                                            cfg.people.nurses@[i as int],
                                            w_before,
                                        ) == Err::<(Outcome, Seq<Slot>), ErrorKind>(
                                            ErrorKind::NoTraineeJobVariantsLeft,
                                        ));
                                        lemma_day_outcomes_err(
                                            *cfg,
                                            wd as int,
                                            w0,
                                            i as int + 1,
                                            nn as int,
                                        );
                                        lemma_nurse_days_err(
                                            *cfg,
                                            offset_s,
                                            dom as int + 1,
                                            end as int + 1,
                                        );
                                    }
                                    return Err(ErrorKind::NoTraineeJobVariantsLeft);
                                },
                                Some((f, l)) => {
                                    let assigned = window[l];
                                    window.remove(f);
                                    let lab = slot_label_exec(cfg, assigned);
                                    day_out.push(lab);
                                    proof {
                                        o = Outcome::Assigned(assigned);
                                        assert(forall|t: int|
                                            0 <= t < window@.len() ==> slot_wf(
                                                #[trigger] window@[t],
                                                nr as int,
                                                nj as int,
                                            ));
                                    }
                                },
                            }
                        } else {
                            match window.pop() {
                                None => {
                                    proof {
                                        assert(nurse_step(
                                            *cfg,
                                            wd as int,
                                            cfg.people.nurses@[i as int],
                                            w_before,
                                        ) == Err::<(Outcome, Seq<Slot>), ErrorKind>(
                                            ErrorKind::NoJobVariantsLeft,
                                        ));
                                        lemma_day_outcomes_err(
                                            *cfg,
                                            wd as int,
                                            w0,
                                            i as int + 1,
                                            nn as int,
                                        );
                                        lemma_nurse_days_err(
                                            *cfg,
                                            offset_s,
                                            dom as int + 1,
                                            end as int + 1,
                                        );
                                    }
                                    return Err(ErrorKind::NoJobVariantsLeft);
                                },
                                Some(s) => {
                                    let lab = slot_label_exec(cfg, s);
                                    day_out.push(lab);
                                    proof {
                                        o = Outcome::Assigned(s);
                                        assert(window@ == w_before.drop_last());
                                    }
                                },
                            }
                        }
                    }
                    proof {
                        assert(nurse_step(*cfg, wd as int, cfg.people.nurses@[i as int], w_before)
                            == Ok::<(Outcome, Seq<Slot>), ErrorKind>((o, window@)));
                        outs = outs.push(o);
                    }
                    i += 1;
                }
                days_labels.push(day_out);
                proof {
                    dayss = dayss.push(outs);
                }
            }
            proof {
                lemma_day_weekday_step(offset_s, start as int, dom as int);
            }
            wd = (wd + 1) % 7;
            dom += 1;
        }
    }
    let ghost dayss_final = dayss;
    proof {
        assert(nurse_days(*cfg, offset_s, end as int + 1) == Ok::<Seq<Seq<Outcome>>, ErrorKind>(
            dayss_final,
        ));
    }
    let nd = days_labels.len();
    let mut rows: Vec<PersonRow> = Vec::new();
    let mut p: usize = 0;
    while p < nn
        invariant
            p <= nn,
            nn == cfg.people.nurses@.len(),
            nd == days_labels@.len(),
            nd == dayss_final.len(),
            rows@.len() == p,
            forall|k: int| 0 <= k < nd ==> (#[trigger] days_labels@[k])@.len() == nn,
            forall|k: int, t: int|
                0 <= k < nd && 0 <= t < nn ==> (#[trigger] days_labels@[k]@[t])@ == outcome_label(
                    *cfg,
                    dayss_final[k][t],
                ),
            forall|n: int|
                0 <= n < p ==> (#[trigger] rows@[n]).name@ == cfg.people.nurses@[n].name@,
            forall|n: int| 0 <= n < p ==> (#[trigger] rows@[n]).labels@.len() == nd,
            forall|n: int, k: int|
                0 <= n < p && 0 <= k < nd ==> (#[trigger] rows@[n].labels@[k])@ == outcome_label(
                    *cfg,
                    dayss_final[k][n],
                ),
        decreases nn - p,
    {
        let mut labels: Vec<String> = Vec::new();
        let mut k: usize = 0;
        while k < nd
            invariant
                k <= nd,
                p < nn,
                nn == cfg.people.nurses@.len(),
                nd == days_labels@.len(),
                labels@.len() == k,
                forall|t: int| 0 <= t < nd ==> (#[trigger] days_labels@[t])@.len() == nn,
                forall|t: int|
                    0 <= t < k ==> (#[trigger] labels@[t])@ == days_labels@[t]@[p as int]@,
            decreases nd - k,
        {
            labels.push(days_labels[k][p].clone());
            k += 1;
        }
        rows.push(PersonRow { name: cfg.people.nurses[p].name.clone(), labels });
        p += 1;
    }
    Ok(rows)
}

/// Whether `rows` is exactly the nurse table of `cfg`: one row per nurse,
/// in configured order, with one label per working day.
pub open spec fn nurse_rows_match(cfg: Config, rows: Seq<PersonRow>) -> bool {
    let offset = weekday_index(cfg.dates.start_day@);
    match nurse_days(cfg, offset, cfg.dates.end as int + 1) {
        Ok(dayss) => {
            &&& rows.len() == cfg.people.nurses@.len()
            &&& forall|n: int|
                0 <= n < rows.len() ==> (#[trigger] rows[n]).name@ == cfg.people.nurses@[n].name@
            &&& forall|n: int|
                0 <= n < rows.len() ==> (#[trigger] rows[n]).labels@.len() == dayss.len()
            &&& forall|n: int, k: int|
                0 <= n < rows.len() && 0 <= k < dayss.len() ==> (
                #[trigger] rows[n].labels@[k])@ == outcome_label(cfg, dayss[k][n])
        },
        Err(_) => false,
    }
}

} // verus!
