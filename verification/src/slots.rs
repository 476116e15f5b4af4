//! Rotation pools and per-day windows. A pool is a fixed ordered sequence
//! of slots whose length equals the number of people scheduled; a day's
//! window is the cyclic pool rotated left by the raw day-of-month and
//! truncated to the window length.

use vstd::prelude::*;
use vstd::arithmetic::div_mod::{lemma_fundamental_div_mod, lemma_fundamental_div_mod_converse_mod};

use crate::config::{Config, ErrorKind};

verus! {

/// One nurse slot: a room/job pair, as indices into the configured room
/// and job lists, or the distinguished off placeholder.
#[derive(Clone, Copy, PartialEq, Eq, Structural, Debug)]
pub enum Slot {
    Off,
    Pair { room: usize, job: usize },
}

/// One supporter slot: a room index or the off placeholder.
#[derive(Clone, Copy, PartialEq, Eq, Structural, Debug)]
pub enum RoomSlot {
    Off,
    Room { room: usize },
}

/// A slot's indices stay inside the configured room and job lists.
pub open spec fn slot_wf(s: Slot, nrooms: int, njobs: int) -> bool {
    match s {
        Slot::Off => true,
        Slot::Pair { room, job } => room < nrooms && job < njobs,
    }
}

/// The slots of one room, one per job, in job order.
pub open spec fn room_slots(ri: int, njobs: int) -> Seq<Slot> {
    Seq::new(njobs as nat, |j: int| Slot::Pair { room: ri as usize, job: j as usize })
}

/// The room-by-job cross product: rooms outer, jobs inner, each in its
/// configured order.
pub open spec fn cross_slots(nrooms: int, njobs: int) -> Seq<Slot>
    decreases nrooms,
{
    if nrooms <= 0 {
        Seq::empty()
    } else {
        cross_slots(nrooms - 1, njobs) + room_slots(nrooms - 1, njobs)
    }
}

/// The cross product has one slot per room/job pair.
pub proof fn lemma_cross_slots_len(nrooms: int, njobs: int)
    requires
        nrooms >= 0,
        njobs >= 0,
    ensures
        cross_slots(nrooms, njobs).len() == nrooms * njobs,
    decreases nrooms,
{
    if nrooms > 0 {
        lemma_cross_slots_len(nrooms - 1, njobs);
        assert((nrooms - 1) * njobs + njobs == nrooms * njobs) by (nonlinear_arith);
    } else {
        assert(nrooms * njobs == 0) by (nonlinear_arith)
            requires nrooms == 0;
    }
}

/// The nurse pool: the cross product, then off slots up to the nurse count.
pub open spec fn nurse_pool_spec(nrooms: int, njobs: int, nnurses: int) -> Seq<Slot> {
    cross_slots(nrooms, njobs) + Seq::new((nnurses - nrooms * njobs) as nat, |k: int| Slot::Off)
}

/// The supporter pool: one slot per room, then off slots up to the
/// supporter count.
pub open spec fn supporter_pool_spec(nrooms: int, nsupporters: int) -> Seq<RoomSlot> {
    Seq::new(nrooms as nat, |k: int| RoomSlot::Room { room: k as usize }) + Seq::new(
        (nsupporters - nrooms) as nat,
        |k: int| RoomSlot::Off,
    )
}

/// The day window: `winlen` slots of the cyclic pool, starting at the raw
/// day-of-month offset (empty when the pool is empty).
pub open spec fn day_window(pool: Seq<Slot>, dom: int, winlen: nat) -> Seq<Slot> {
    if pool.len() == 0 {
        Seq::empty()
    } else {
        Seq::new(winlen, |k: int| pool[(dom + k) % (pool.len() as int)])
    }
}

/// Builds the nurse pool, or reports that the configured rooms and jobs
/// outnumber the nurses.
pub fn build_nurse_pool(cfg: &Config) -> (r: Result<Vec<Slot>, ErrorKind>)
    ensures
        match r {
            Ok(pool) => {
                let nr = cfg.rooms@.len() as int;
                let nj = cfg.nurses_jobs@.len() as int;
                let nn = cfg.people.nurses@.len() as int;
                &&& nr * nj <= nn
                &&& pool@ == nurse_pool_spec(nr, nj, nn)
                &&& pool@.len() == nn
                &&& forall|t: int| 0 <= t < pool@.len() ==> slot_wf(#[trigger] pool@[t], nr, nj)
            },
            Err(e) => {
                &&& e == ErrorKind::NotEnoughNurses
                &&& cfg.rooms@.len() * cfg.nurses_jobs@.len() > cfg.people.nurses@.len()
            },
        },
{
    let nr = cfg.rooms.len();
    let nj = cfg.nurses_jobs.len();
    let nn = cfg.people.nurses.len();
    let prod = match nr.checked_mul(nj) {
        Some(p) => p,
        None => {
            return Err(ErrorKind::NotEnoughNurses);
        },
    };
    if prod > nn {
        return Err(ErrorKind::NotEnoughNurses);
    }
    proof {
        lemma_cross_slots_len(nr as int, nj as int);
    }
    let mut pool: Vec<Slot> = Vec::new();
    let mut ri: usize = 0;
    while ri < nr
        invariant
            ri <= nr,
            pool@ == cross_slots(ri as int, nj as int),
            forall|t: int| 0 <= t < pool@.len() ==> slot_wf(#[trigger] pool@[t], nr as int, nj as int),
        decreases nr - ri,
    {
        let mut ji: usize = 0;
        while ji < nj
            invariant
                ji <= nj,
                ri < nr,
                pool@ == cross_slots(ri as int, nj as int) + Seq::new(
                    ji as nat,
                    |j: int| Slot::Pair { room: ri, job: j as usize },
                ),
                forall|t: int| 0 <= t < pool@.len() ==> slot_wf(#[trigger] pool@[t], nr as int, nj as int),
            decreases nj - ji,
        {
            pool.push(Slot::Pair { room: ri, job: ji });
            proof {
                assert(pool@ =~= cross_slots(ri as int, nj as int) + Seq::new(
                    (ji + 1) as nat,
                    |j: int| Slot::Pair { room: ri, job: j as usize },
                ));
            }
            ji += 1;
        }
        proof {
            assert(Seq::new(nj as nat, |j: int| Slot::Pair { room: ri, job: j as usize })
                =~= room_slots(ri as int, nj as int));
            assert(pool@ =~= cross_slots(ri as int + 1, nj as int));
        }
        ri += 1;
    }
    let mut k: usize = prod;
    while k < nn
        invariant
            prod <= k <= nn,
            prod == cross_slots(nr as int, nj as int).len(),
            pool@ == cross_slots(nr as int, nj as int) + Seq::new(
                (k - prod) as nat,
                |t: int| Slot::Off,
            ),
            forall|t: int| 0 <= t < pool@.len() ==> slot_wf(#[trigger] pool@[t], nr as int, nj as int),
        decreases nn - k,
    {
        pool.push(Slot::Off);
        proof {
            assert(pool@ =~= cross_slots(nr as int, nj as int) + Seq::new(
                (k + 1 - prod) as nat,
                |t: int| Slot::Off,
            ));
        }
        k += 1;
    }
    proof {
        assert(pool@ =~= nurse_pool_spec(nr as int, nj as int, nn as int));
    }
    Ok(pool)
}

/// Builds the supporter pool, or reports that the configured rooms
/// outnumber the supporters.
pub fn build_supporter_pool(cfg: &Config) -> (r: Result<Vec<RoomSlot>, ErrorKind>)
    ensures
        match r {
            Ok(pool) => {
                let nr = cfg.rooms@.len() as int;
                let ns = cfg.people.supporters@.len() as int;
                &&& nr <= ns
                &&& pool@ == supporter_pool_spec(nr, ns)
                &&& pool@.len() == ns
                &&& forall|t: int|
                    0 <= t < pool@.len() ==> match #[trigger] pool@[t] {
                        RoomSlot::Room { room } => room < nr,
                        RoomSlot::Off => true,
                    }
            },
            Err(e) => {
                &&& e == ErrorKind::NotEnoughSupporters
                &&& cfg.rooms@.len() > cfg.people.supporters@.len()
            },
        },
{
    let nr = cfg.rooms.len();
    let ns = cfg.people.supporters.len();
    if nr > ns {
        return Err(ErrorKind::NotEnoughSupporters);
    }
    let mut pool: Vec<RoomSlot> = Vec::new();
    let mut k: usize = 0;
    while k < nr
        invariant
            k <= nr,
            pool@ == Seq::new(k as nat, |t: int| RoomSlot::Room { room: t as usize }),
        decreases nr - k,
    {
        pool.push(RoomSlot::Room { room: k });
        proof {
            assert(pool@ =~= Seq::new((k + 1) as nat, |t: int| RoomSlot::Room { room: t as usize }));
        }
        k += 1;
    }
    while k < ns
        invariant
            nr <= k <= ns,
            pool@ == Seq::new(nr as nat, |t: int| RoomSlot::Room { room: t as usize }) + Seq::new(
                (k - nr) as nat,
                |t: int| RoomSlot::Off,
            ),
        decreases ns - k,
    {
        pool.push(RoomSlot::Off);
        proof {
            assert(pool@ =~= Seq::new(nr as nat, |t: int| RoomSlot::Room { room: t as usize })
                + Seq::new((k + 1 - nr) as nat, |t: int| RoomSlot::Off));
        }
        k += 1;
    }
    proof {
        assert(pool@ =~= supporter_pool_spec(nr as int, ns as int));
    }
    Ok(pool)
}

/// Builds the day window: `winlen` slots of the cyclic pool starting at
/// offset `dom`.
pub fn build_window(pool: &Vec<Slot>, dom: usize, winlen: usize) -> (r: Vec<Slot>)
    ensures
        r@ == day_window(pool@, dom as int, winlen as nat),
{
    let mut w: Vec<Slot> = Vec::new();
    let n = pool.len();
    if n == 0 {
        return w;
    }
    let mut idx: usize = dom % n;
    let mut k: usize = 0;
    while k < winlen
        invariant
            k <= winlen,
            n == pool@.len(),
            n > 0,
            idx < n,
            idx == (dom + k) % (n as int),
            w@.len() == k,
            forall|t: int| 0 <= t < k ==> w@[t] == pool@[(dom + t) % (n as int)],
        decreases winlen - k,
    {
        w.push(pool[idx]);
        proof {
            let ni = n as int;
            let a = dom as int + k as int;
            lemma_fundamental_div_mod(a, ni);
            let q0 = a / ni;
            if idx + 1 == n {
                assert(a + 1 == (q0 + 1) * ni + 0) by (nonlinear_arith)
                    requires a == ni * q0 + (ni - 1);
                lemma_fundamental_div_mod_converse_mod(a + 1, ni, q0 + 1, 0);
            } else {
                assert(a + 1 == q0 * ni + (idx as int + 1)) by (nonlinear_arith)
                    requires a == ni * q0 + idx as int;
                lemma_fundamental_div_mod_converse_mod(a + 1, ni, q0, idx as int + 1);
            }
        }
        idx = if idx + 1 == n {
            0
        } else {
            idx + 1
        };
        k += 1;
    }
    proof {
        assert(w@ =~= day_window(pool@, dom as int, winlen as nat));
    }
    w
}

} // verus!
