//! Worker-to-resource allocation.
//!
//! Idle unassigned workers are sent to the least-saturated eligible mineral
//! patch (cap two workers, relaxed to three if no patch is free), with
//! under-saturated gas extractors taking priority; if an extractor stays
//! under-saturated after the idle sweep, one mineral worker is pulled over.
//! A worker that fits nowhere falls back to scouting toward a pseudo-random
//! tile, a non-blocking degraded behavior.

use vstd::prelude::*;
use crate::ledger::{IdMap, WorkerAssignment, WorkerAssignmentType};
use crate::units::{OwnUnit, ResourceNode, UnitKind};
use crate::build_order::BuildOrderItem;
use crate::geom::{dist_sq, coord_ok};

verus! {

/// Whether the record sends its worker to gather from `res`.
pub open spec fn is_gathering_at(a: WorkerAssignment, res: usize) -> bool {
    a.assignment_type == WorkerAssignmentType::Gathering && a.target_unit == Some(res)
}

/// Number of ledger records gathering from `res`: the patch's saturation.
pub open spec fn count_gathering_at(s: Seq<(usize, WorkerAssignment)>, res: usize) -> int
    decreases s.len(),
{
    if s.len() == 0 {
        0
    } else {
        count_gathering_at(s.drop_last(), res)
            + if is_gathering_at(s.last().1, res) { 1int } else { 0int }
    }
}

pub proof fn lemma_count_gathering_bounds(s: Seq<(usize, WorkerAssignment)>, res: usize)
    ensures
        0 <= count_gathering_at(s, res) <= s.len(),
    decreases s.len(),
{
    if s.len() > 0 {
        lemma_count_gathering_bounds(s.drop_last(), res);
    }
}

/// Saturation adds up over concatenation.
pub proof fn lemma_count_gathering_concat(
    a: Seq<(usize, WorkerAssignment)>,
    b: Seq<(usize, WorkerAssignment)>,
    res: usize,
)
    ensures
        count_gathering_at(a + b, res)
            == count_gathering_at(a, res) + count_gathering_at(b, res),
    decreases b.len(),
{
    if b.len() == 0 {
        assert(a + b =~= a);
    } else {
        lemma_count_gathering_concat(a, b.drop_last(), res);
        assert((a + b).drop_last() =~= a + b.drop_last());
        assert((a + b).last() == b.last());
    }
}

/// Removing one record lowers its patch's saturation by exactly its own
/// contribution and no other patch's at all.
pub proof fn lemma_count_gathering_remove_at(
    s: Seq<(usize, WorkerAssignment)>,
    i: int,
    res: usize,
)
    requires
        0 <= i < s.len(),
    ensures
        count_gathering_at(s.subrange(0, i) + s.subrange(i + 1, s.len() as int), res)
            == count_gathering_at(s, res)
                - if is_gathering_at(s[i].1, res) { 1int } else { 0int },
{
    let a = s.subrange(0, i);
    let mid = s.subrange(i, i + 1);
    let b = s.subrange(i + 1, s.len() as int);
    assert(s =~= a + mid + b);
    lemma_count_gathering_concat(a + mid, b, res);
    lemma_count_gathering_concat(a, mid, res);
    lemma_count_gathering_concat(a, b, res);
    assert(mid.drop_last() =~= Seq::<(usize, WorkerAssignment)>::empty());
    assert(mid.last() == s[i]);
    assert(count_gathering_at(mid, res)
        == count_gathering_at(mid.drop_last(), res)
            + if is_gathering_at(mid.last().1, res) { 1int } else { 0int });
    assert(count_gathering_at(Seq::<(usize, WorkerAssignment)>::empty(), res) == 0);
}

/// Counts the records gathering from `res`: the patch's current saturation.
pub fn count_workers_at(assignments: &IdMap<WorkerAssignment>, res: usize) -> (c: usize)
    ensures
        c == count_gathering_at(assignments.entries@, res),
        c <= assignments.entries@.len(),
{
    let n = assignments.entries.len();
    let mut c: usize = 0;
    let mut i: usize = 0;
    while i < n
        invariant
            n == assignments.entries@.len(),
            i <= n,
            c <= i,
            c == count_gathering_at(assignments.entries@.subrange(0, i as int), res),
        decreases n - i,
    {
        let a = assignments.entries[i].1;
        let ghost pre = assignments.entries@.subrange(0, i as int);
        match (a.assignment_type, a.target_unit) {
            (WorkerAssignmentType::Gathering, Some(t)) => {
                if t == res {
                    c += 1;
                }
            },
            _ => {},
        }
        i += 1;
        proof {
            let cur = assignments.entries@.subrange(0, i as int);
            assert(cur.drop_last() =~= pre);
            assert(cur.last() == assignments.entries@[i - 1]);
        }
    }
    proof {
        assert(assignments.entries@.subrange(0, assignments.entries@.len() as int)
            =~= assignments.entries@);
    }
    c
}

/// Picks a mineral patch whose saturation is below `max_workers` and minimal
/// among all such patches; returns its index, or nothing when every listed
/// patch is at or over the cap.
pub fn find_least_saturated_mineral(
    minerals: &Vec<ResourceNode>,
    assignments: &IdMap<WorkerAssignment>,
    max_workers: usize,
) -> (r: Option<usize>)
    ensures
        r matches Some(ix) ==> ix < minerals@.len()
            && count_gathering_at(assignments.entries@, minerals@[ix as int].id)
                < max_workers
            && forall|j: int| 0 <= j < minerals@.len()
                ==> count_gathering_at(assignments.entries@, minerals@[ix as int].id)
                    <= count_gathering_at(
                        assignments.entries@, (#[trigger] minerals@[j]).id),
        r is None ==> forall|j: int| 0 <= j < minerals@.len()
            ==> count_gathering_at(assignments.entries@, (#[trigger] minerals@[j]).id)
                >= max_workers,
{
    let n = minerals.len();
    let mut best: Option<usize> = None;
    let mut best_count: usize = 0;
    let mut i: usize = 0;
    while i < n
        invariant
            n == minerals@.len(),
            i <= n,
            best matches Some(ix) ==> ix < i
                && best_count == count_gathering_at(
                    assignments.entries@, minerals@[ix as int].id)
                && best_count < max_workers
                && forall|j: int| 0 <= j < i
                    ==> best_count <= count_gathering_at(
                        assignments.entries@, (#[trigger] minerals@[j]).id),
            best is None ==> forall|j: int| 0 <= j < i
                ==> count_gathering_at(assignments.entries@, (#[trigger] minerals@[j]).id)
                    >= max_workers,
        decreases n - i,
    {
        let c = count_workers_at(assignments, minerals[i].id);
        if c < max_workers {
            match best {
                Some(_) => {
                    if c < best_count {
                        best = Some(i);
                        best_count = c;
                    }
                },
                None => {
                    best = Some(i);
                    best_count = c;
                },
            }
        }
        i += 1;
    }
    best
}

/// Relies on rand::random_range: returns a uniformly chosen value of the
/// given range; panics only on an empty range, which the precondition rules
/// out.  Nothing more is promised of the outcome.
#[verifier::external_body]
fn random_below(n: usize) -> (r: usize)
    requires
        n > 0,
    ensures
        r < n,
{
    rand::random_range(0..n)
}

/// Relies on std::time::SystemTime::now: milliseconds since the epoch, or 0
/// if the clock reads before it.  Nothing is promised of the outcome.
#[verifier::external_body]
fn now_millis() -> u64 {
    std::time::SystemTime::now()
        .duration_since(std::time::UNIX_EPOCH)
        .map(|d| (d.as_millis() & 0xFFFF_FFFF_FFFF_FFFF) as u64)
        .unwrap_or(0)
}

/// Picks one of the least-saturated patches below the cap uniformly at
/// random (random tie-breaking avoids gridlocks when several workers are
/// reassigned in one tick); the choice satisfies the same minimality as
/// `find_least_saturated_mineral`.
pub fn find_random_least_saturated_mineral(
    minerals: &Vec<ResourceNode>,
    assignments: &IdMap<WorkerAssignment>,
    max_workers: usize,
) -> (r: Option<usize>)
    ensures
        r matches Some(ix) ==> ix < minerals@.len()
            && count_gathering_at(assignments.entries@, minerals@[ix as int].id)
                < max_workers
            && forall|j: int| 0 <= j < minerals@.len()
                ==> count_gathering_at(assignments.entries@, minerals@[ix as int].id)
                    <= count_gathering_at(
                        assignments.entries@, (#[trigger] minerals@[j]).id),
        r is None ==> forall|j: int| 0 <= j < minerals@.len()
            ==> count_gathering_at(assignments.entries@, (#[trigger] minerals@[j]).id)
                >= max_workers,
{
    let picked = find_least_saturated_mineral(minerals, assignments, max_workers);
    let base = match picked {
        Some(ix) => ix,
        None => {
            return None;
        },
    };
    let min_count = count_workers_at(assignments, minerals[base].id);

    // gather every patch tied at the minimum
    let n = minerals.len();
    let mut ties: Vec<usize> = Vec::new();
    let mut i: usize = 0;
    while i < n
        invariant
            n == minerals@.len(),
            i <= n,
            min_count == count_gathering_at(
                assignments.entries@, minerals@[base as int].id),
            base < n,
            forall|t: int| 0 <= t < ties@.len()
                ==> (#[trigger] ties@[t]) < n
                    && count_gathering_at(
                        assignments.entries@, minerals@[ties@[t] as int].id)
                        == min_count,
        decreases n - i,
    {
        let c = count_workers_at(assignments, minerals[i].id);
        if c == min_count {
            ties.push(i);
        }
        i += 1;
    }
    if ties.len() == 0 {
        return Some(base);
    }
    let pick = random_below(ties.len());
    Some(ties[pick])
}

/// Two-stage patch selection: any patch under two workers beats every patch
/// at two or more, and no patch ever exceeds three.
pub fn select_mineral_for_worker(
    minerals: &Vec<ResourceNode>,
    assignments: &IdMap<WorkerAssignment>,
) -> (r: Option<usize>)
    ensures
        r matches Some(ix) ==> ix < minerals@.len()
            && count_gathering_at(assignments.entries@, minerals@[ix as int].id) < 3,
        // the allocator always prefers a patch under two workers
        (exists|j: int| 0 <= j < minerals@.len()
            && count_gathering_at(
                assignments.entries@, (#[trigger] minerals@[j]).id) < 2)
            ==> (r matches Some(ix)
                && count_gathering_at(
                    assignments.entries@, minerals@[ix as int].id) < 2),
        r is None ==> forall|j: int| 0 <= j < minerals@.len()
            ==> count_gathering_at(assignments.entries@, (#[trigger] minerals@[j]).id)
                >= 3,
{
    let first = find_least_saturated_mineral(minerals, assignments, 2);
    match first {
        Some(ix) => Some(ix),
        None => find_least_saturated_mineral(minerals, assignments, 3),
    }
}

} // verus!

verus! {

/// Whether some drone in the unit list carries this id.
pub open spec fn live_drone(units: Seq<OwnUnit>, id: usize) -> bool {
    exists|i: int| 0 <= i < units.len() && (#[trigger] units[i]).id == id
        && units[i].kind == UnitKind::Drone
}

/// The keep condition of the purge: a record survives only while its worker
/// exists, except building records, which survive the drone's morph into a
/// structure.
pub open spec fn record_keepable(workers: Seq<OwnUnit>, k: usize, v: WorkerAssignment) -> bool {
    crate::build_order::has_unit_id(workers, k)
        || v.assignment_type == WorkerAssignmentType::Building
}

/// Appending one record moves exactly its own patch's saturation.
pub proof fn lemma_count_gathering_push(
    s: Seq<(usize, WorkerAssignment)>,
    e: (usize, WorkerAssignment),
    res: usize,
)
    ensures
        count_gathering_at(s.push(e), res) == count_gathering_at(s, res)
            + if is_gathering_at(e.1, res) { 1int } else { 0int },
{
    assert(s.push(e).drop_last() =~= s);
    assert(s.push(e).last() == e);
}

/// Purges records whose worker no longer exists; building records survive
/// (the committed drone may have morphed into the structure).  Everything
/// keepable is kept unchanged, nothing else survives, and no patch's
/// saturation rises.
pub fn remove_dead_workers(
    assignments: &mut IdMap<WorkerAssignment>,
    workers: &Vec<OwnUnit>,
)
    requires
        old(assignments).wf(),
    ensures
        final(assignments).wf(),
        forall|k: usize, v: WorkerAssignment| #[trigger] final(assignments).has_pair(k, v)
            ==> old(assignments).has_pair(k, v) && record_keepable(workers@, k, v),
        forall|k: usize, v: WorkerAssignment| old(assignments).has_pair(k, v)
            && record_keepable(workers@, k, v)
            ==> final(assignments).has_pair(k, v),
        forall|r: usize| count_gathering_at(final(assignments).entries@, r)
            <= count_gathering_at(old(assignments).entries@, r),
{
    let n = assignments.entries.len();
    let mut kept: Vec<(usize, WorkerAssignment)> = Vec::new();
    let mut i: usize = 0;
    while i < n
        invariant
            assignments.wf(),
            assignments == old(assignments),
            n == assignments.entries@.len(),
            i <= n,
            // provenance: every kept record comes from the processed prefix
            forall|a: int| 0 <= a < kept@.len() ==> exists|j: int| 0 <= j < i
                && assignments.entries@[j] == #[trigger] kept@[a],
            // distinct keys
            forall|a: int, b: int| 0 <= a < b < kept@.len()
                ==> (#[trigger] kept@[a]).0 != (#[trigger] kept@[b]).0,
            // only keepable records are kept
            forall|a: int| 0 <= a < kept@.len()
                ==> record_keepable(workers@, (#[trigger] kept@[a]).0, kept@[a].1),
            // every keepable processed record is kept
            forall|j: int| 0 <= j < i
                && record_keepable(workers@, (#[trigger] assignments.entries@[j]).0,
                    assignments.entries@[j].1)
                ==> exists|a: int| 0 <= a < kept@.len()
                    && kept@[a] == assignments.entries@[j],
            // saturation never rises
            forall|r: usize| #[trigger] count_gathering_at(kept@, r)
                <= count_gathering_at(assignments.entries@.subrange(0, i as int), r),
        decreases n - i,
    {
        let entry = assignments.entries[i];
        let mut alive = false;
        let mut j: usize = 0;
        while j < workers.len()
            invariant
                j <= workers@.len(),
                alive ==> crate::build_order::has_unit_id(workers@, entry.0),
                !alive ==> forall|t: int| 0 <= t < j
                    ==> (#[trigger] workers@[t]).id != entry.0,
            decreases workers@.len() - j,
        {
            if workers[j].id == entry.0 {
                alive = true;
            }
            j += 1;
        }
        let keep = alive || matches!(entry.1.assignment_type, WorkerAssignmentType::Building);
        let ghost pre_kept = kept@;
        let ghost pre_sub = assignments.entries@.subrange(0, i as int);
        if keep {
            kept.push(entry);
            proof {
                assert(assignments.entries@[i as int] == entry);
                assert forall|a: int, b: int| 0 <= a < b < kept@.len()
                    implies (#[trigger] kept@[a]).0 != (#[trigger] kept@[b]).0 by {
                    if b == kept@.len() - 1 {
                        let ja = choose|ja: int| 0 <= ja < i
                            && assignments.entries@[ja] == pre_kept[a];
                        assert(assignments.entries@[ja].0 != assignments.entries@[i as int].0);
                    }
                }
            }
        }
        i += 1;
        proof {
            let cur_sub = assignments.entries@.subrange(0, i as int);
            assert(cur_sub.drop_last() =~= pre_sub);
            assert(cur_sub.last() == assignments.entries@[i - 1]);
            if keep {
                assert(kept@ == pre_kept.push(entry));
                assert forall|r: usize| #[trigger] count_gathering_at(kept@, r)
                    <= count_gathering_at(cur_sub, r) by {
                    lemma_count_gathering_push(pre_kept, entry, r);
                }
                assert forall|jj: int| 0 <= jj < i
                    && record_keepable(workers@,
                        (#[trigger] assignments.entries@[jj]).0,
                        assignments.entries@[jj].1)
                    implies exists|a: int| 0 <= a < kept@.len()
                        && kept@[a] == assignments.entries@[jj] by {
                    if jj == i - 1 {
                        assert(kept@[kept@.len() - 1] == assignments.entries@[jj]);
                    } else {
                        let a = choose|a: int| 0 <= a < pre_kept.len()
                            && pre_kept[a] == assignments.entries@[jj];
                        assert(kept@[a] == assignments.entries@[jj]);
                    }
                }
            } else {
                assert forall|r: usize| #[trigger] count_gathering_at(kept@, r)
                    <= count_gathering_at(cur_sub, r) by {
                    lemma_count_gathering_push(pre_sub, entry, r);
                }
            }
        }
    }
    proof {
        assert(assignments.entries@.subrange(0, n as int) =~= assignments.entries@);
    }
    let ghost pre = *assignments;
    assignments.entries = kept;
    proof {
        assert forall|k: usize, v: WorkerAssignment|
            #[trigger] assignments.has_pair(k, v)
            implies pre.has_pair(k, v) && record_keepable(workers@, k, v) by {
            let a = choose|a: int| 0 <= a < assignments.entries@.len()
                && assignments.entries@[a] == (k, v);
            let j = choose|j: int| 0 <= j < pre.entries@.len()
                && pre.entries@[j] == assignments.entries@[a];
        }
        assert forall|k: usize, v: WorkerAssignment| pre.has_pair(k, v)
            && record_keepable(workers@, k, v)
            implies #[trigger] assignments.has_pair(k, v) by {
            let j = choose|j: int| 0 <= j < pre.entries@.len()
                && pre.entries@[j] == (k, v);
            let a = choose|a: int| 0 <= a < assignments.entries@.len()
                && assignments.entries@[a] == pre.entries@[j];
        }
    }
}

} // verus!

verus! {

/// Whether some listed extractor carries this id.
pub open spec fn has_extractor_id(extractors: Seq<OwnUnit>, id: usize) -> bool {
    exists|i: int| 0 <= i < extractors.len() && (#[trigger] extractors[i]).id == id
}

/// What one idle worker's new record may be, judged against the ledger at
/// the moment of the assignment: the first under-saturated extractor takes
/// priority; else a mineral patch below the cap, any patch under two beating
/// every patch at two or more; else a scouting move toward a pseudo-random
/// in-map tile.
pub open spec fn spec_one_assignment_ok(
    pre: Seq<(usize, WorkerAssignment)>,
    v: WorkerAssignment,
    minerals: Seq<ResourceNode>,
    extractors: Seq<OwnUnit>,
    extractor_saturation: int,
    map_width_px: int,
    map_height_px: int,
) -> bool {
    ||| exists|e: int| 0 <= e < extractors.len()
        && count_gathering_at(pre, (#[trigger] extractors[e]).id) < extractor_saturation
        && (forall|f: int| 0 <= f < e
            ==> count_gathering_at(pre, (#[trigger] extractors[f]).id)
                >= extractor_saturation)
        && v.assignment_type == WorkerAssignmentType::Gathering
        && v.target_unit == Some(extractors[e].id)
    ||| (forall|f: int| 0 <= f < extractors.len()
            ==> count_gathering_at(pre, (#[trigger] extractors[f]).id)
                >= extractor_saturation)
        && exists|ix: int| 0 <= ix < minerals.len()
            && v.assignment_type == WorkerAssignmentType::Gathering
            && v.target_unit == Some((#[trigger] minerals[ix]).id)
            && count_gathering_at(pre, minerals[ix].id) < 3
            && ((exists|j: int| 0 <= j < minerals.len()
                    && count_gathering_at(pre, (#[trigger] minerals[j]).id) < 2)
                ==> count_gathering_at(pre, minerals[ix].id) < 2)
    ||| (forall|f: int| 0 <= f < extractors.len()
            ==> count_gathering_at(pre, (#[trigger] extractors[f]).id)
                >= extractor_saturation)
        && (forall|j: int| 0 <= j < minerals.len()
            ==> count_gathering_at(pre, (#[trigger] minerals[j]).id) >= 3)
        && v.assignment_type == WorkerAssignmentType::Scouting
        && (v.target_position matches Some(t)
            && 0 <= t.0 < map_width_px && 0 <= t.1 < map_height_px)
}

/// Assigns one idle, unassigned worker: the first under-saturated extractor,
/// else the two-stage mineral choice, else the scouting fallback.  The new
/// record is appended and characterized exactly by `spec_one_assignment_ok`.
pub fn assign_one_idle_worker(
    worker_id: usize,
    minerals: &Vec<ResourceNode>,
    extractors: &Vec<OwnUnit>,
    extractor_saturation: usize,
    map_width_px: i32,
    map_height_px: i32,
    assignments: &mut IdMap<WorkerAssignment>,
)
    requires
        old(assignments).wf(),
        !old(assignments).spec_contains_key(worker_id),
        2 <= extractor_saturation <= 3,
        map_width_px > 0,
        map_height_px > 0,
    ensures
        final(assignments).wf(),
        exists|v: WorkerAssignment|
            final(assignments).entries@ == old(assignments).entries@.push((worker_id, v))
            && #[trigger] spec_one_assignment_ok(
                old(assignments).entries@, v, minerals@, extractors@,
                extractor_saturation as int,
                map_width_px as int, map_height_px as int),
{
    // an under-saturated extractor takes priority
    let mut chosen_extractor: Option<usize> = None;
    let mut ei: usize = 0;
    while ei < extractors.len()
        invariant
            assignments.wf(),
            assignments == old(assignments),
            ei <= extractors@.len(),
            2 <= extractor_saturation <= 3,
            chosen_extractor matches Some(eid) ==> exists|e: int|
                0 <= e < extractors@.len()
                && (#[trigger] extractors@[e]).id == eid
                && count_gathering_at(assignments.entries@, eid)
                    < extractor_saturation
                && (forall|f: int| 0 <= f < e
                    ==> count_gathering_at(assignments.entries@,
                        (#[trigger] extractors@[f]).id) >= extractor_saturation),
            chosen_extractor is None ==> forall|f: int| 0 <= f < ei
                ==> count_gathering_at(assignments.entries@,
                    (#[trigger] extractors@[f]).id) >= extractor_saturation,
        decreases extractors@.len() - ei,
    {
        if matches!(chosen_extractor, None) {
            let c = count_workers_at(assignments, extractors[ei].id);
            if c < extractor_saturation {
                proof {
                    assert(count_gathering_at(assignments.entries@,
                        extractors@[ei as int].id) < extractor_saturation);
                }
                chosen_extractor = Some(extractors[ei].id);
            }
        }
        ei += 1;
    }

    match chosen_extractor {
        Some(eid) => {
            let v = WorkerAssignment::gathering(eid);
            assignments.insert(worker_id, v);
            proof {
                assert(spec_one_assignment_ok(
                    old(assignments).entries@, v, minerals@, extractors@,
                    extractor_saturation as int,
                    map_width_px as int, map_height_px as int));
            }
        },
        None => {
            match select_mineral_for_worker(minerals, assignments) {
                Some(ix) => {
                    let v = WorkerAssignment::gathering(minerals[ix].id);
                    assignments.insert(worker_id, v);
                    proof {
                        assert(spec_one_assignment_ok(
                            old(assignments).entries@, v, minerals@, extractors@,
                            extractor_saturation as int,
                            map_width_px as int, map_height_px as int));
                    }
                },
                None => {
                    // degraded fallback: scout a pseudo-random tile mixed
                    // from the worker id and the wall clock
                    let mix: u128 = (worker_id as u128) * 2_654_435_761
                        + (now_millis() as u128);
                    let tx: i32 = (mix % (map_width_px as u128)) as i32;
                    let ty: i32 = ((mix / 1_000_003) % (map_height_px as u128)) as i32;
                    let v = WorkerAssignment::scouting((tx, ty));
                    assignments.insert(worker_id, v);
                    proof {
                        assert(spec_one_assignment_ok(
                            old(assignments).entries@, v, minerals@, extractors@,
                            extractor_saturation as int,
                            map_width_px as int, map_height_px as int));
                    }
                },
            }
        },
    }
}

/// Sweeps the idle, unassigned workers: each receives a record per
/// `spec_one_assignment_ok` against the ledger of its own moment.  Existing
/// records are kept untouched, every idle listed worker ends up recorded,
/// and no patch's saturation rises past three.
pub fn assign_idle_workers(
    workers: &Vec<OwnUnit>,
    minerals: &Vec<ResourceNode>,
    extractors: &Vec<OwnUnit>,
    extractor_saturation: usize,
    map_width_px: i32,
    map_height_px: i32,
    assignments: &mut IdMap<WorkerAssignment>,
)
    requires
        old(assignments).wf(),
        2 <= extractor_saturation <= 3,
        map_width_px > 0,
        map_height_px > 0,
    ensures
        final(assignments).wf(),
        // existing records survive untouched
        forall|k: usize, v: WorkerAssignment| old(assignments).has_pair(k, v)
            ==> final(assignments).has_pair(k, v),
        // every idle listed worker is recorded afterwards
        forall|a: int| 0 <= a < workers@.len() && (#[trigger] workers@[a]).is_idle
            ==> final(assignments).spec_contains_key(workers@[a].id),
        // new records belong to idle listed workers and are never building
        forall|k: usize, v: WorkerAssignment| #[trigger] final(assignments).has_pair(k, v)
            && !old(assignments).has_pair(k, v)
            ==> (exists|a: int| 0 <= a < workers@.len()
                    && (#[trigger] workers@[a]).id == k && workers@[a].is_idle)
                && v.assignment_type != WorkerAssignmentType::Building,
        // saturation stays where it was or within the cap of three
        forall|r: usize| #[trigger] count_gathering_at(final(assignments).entries@, r)
            <= count_gathering_at(old(assignments).entries@, r)
            || count_gathering_at(final(assignments).entries@, r) <= 3,
{
    let nw = workers.len();
    let mut wi: usize = 0;
    while wi < nw
        invariant
            assignments.wf(),
            nw == workers@.len(),
            wi <= nw,
            2 <= extractor_saturation <= 3,
            map_width_px > 0,
            map_height_px > 0,
            forall|k: usize, v: WorkerAssignment| old(assignments).has_pair(k, v)
                ==> assignments.has_pair(k, v),
            forall|a: int| 0 <= a < wi && (#[trigger] workers@[a]).is_idle
                ==> assignments.spec_contains_key(workers@[a].id),
            forall|k: usize, v: WorkerAssignment| #[trigger] assignments.has_pair(k, v)
                && !old(assignments).has_pair(k, v)
                ==> (exists|a: int| 0 <= a < workers@.len()
                        && (#[trigger] workers@[a]).id == k && workers@[a].is_idle)
                    && v.assignment_type != WorkerAssignmentType::Building,
            forall|r: usize| #[trigger] count_gathering_at(assignments.entries@, r)
                <= count_gathering_at(old(assignments).entries@, r)
                || count_gathering_at(assignments.entries@, r) <= 3,
        decreases nw - wi,
    {
        let w = workers[wi];
        wi += 1;
        if !w.is_idle {
            continue;
        }
        if assignments.contains_key(w.id) {
            continue;
        }

        let ghost pre = *assignments;
        assign_one_idle_worker(
            w.id, minerals, extractors, extractor_saturation,
            map_width_px, map_height_px, assignments);
        proof {
            let v = choose|v: WorkerAssignment|
                assignments.entries@ == pre.entries@.push((w.id, v))
                && #[trigger] spec_one_assignment_ok(
                    pre.entries@, v, minerals@, extractors@,
                    extractor_saturation as int,
                    map_width_px as int, map_height_px as int);
            assert(assignments.entries@[assignments.entries@.len() - 1] == (w.id, v));
            assert(workers@[wi - 1] == w);
            // uniqueness of the new key
            assert(!pre.spec_contains_key(w.id));
            assert forall|a: int, b: int| 0 <= a < b < assignments.entries@.len()
                implies (#[trigger] assignments.entries@[a]).0
                    != (#[trigger] assignments.entries@[b]).0 by {
                if b < assignments.entries@.len() - 1 {
                    assert(assignments.entries@[a] == pre.entries@[a]);
                    assert(assignments.entries@[b] == pre.entries@[b]);
                } else {
                    assert(assignments.entries@[a] == pre.entries@[a]);
                    assert((pre.entries@[a]).0 != w.id);
                }
            }
            assert(assignments.spec_contains_key(w.id));
            // the cap
            assert forall|r: usize| #[trigger] count_gathering_at(assignments.entries@, r)
                <= count_gathering_at(old(assignments).entries@, r)
                || count_gathering_at(assignments.entries@, r) <= 3 by {
                lemma_count_gathering_push(pre.entries@, (w.id, v), r);
            }
            // provenance of every pair
            assert forall|k: usize, v2: WorkerAssignment|
                #[trigger] assignments.has_pair(k, v2)
                && !old(assignments).has_pair(k, v2)
                implies (exists|a: int| 0 <= a < workers@.len()
                        && (#[trigger] workers@[a]).id == k && workers@[a].is_idle)
                    && v2.assignment_type != WorkerAssignmentType::Building by {
                let i = choose|i: int| 0 <= i < assignments.entries@.len()
                    && assignments.entries@[i] == (k, v2);
                if i < assignments.entries@.len() - 1 {
                    assert(pre.entries@[i] == (k, v2));
                    assert(pre.has_pair(k, v2));
                } else {
                    assert(k == w.id && v2 == v);
                    assert(workers@[wi - 1].id == k && workers@[wi - 1].is_idle);
                    assert(v2.assignment_type != WorkerAssignmentType::Building);
                }
            }
            // old pairs and previously recorded workers survive the push
            assert forall|k: usize, v2: WorkerAssignment|
                pre.has_pair(k, v2) implies assignments.has_pair(k, v2) by {
                let i = choose|i: int| 0 <= i < pre.entries@.len()
                    && pre.entries@[i] == (k, v2);
                assert(assignments.entries@[i] == (k, v2));
            }
            assert forall|a: int| 0 <= a < wi && (#[trigger] workers@[a]).is_idle
                implies assignments.spec_contains_key(workers@[a].id) by {
                if a < wi - 1 {
                    let i = choose|i: int| 0 <= i < pre.entries@.len()
                        && (#[trigger] pre.entries@[i]).0 == workers@[a].id;
                    assert((assignments.entries@[i]).0 == workers@[a].id);
                }
            }
        }
    }
}

/// Pulls one mineral-gathering worker over to each extractor that is still
/// under-saturated after the idle sweep.  Keys are preserved; only gathering
/// records change, and no patch's saturation ends above its old value or
/// three.
pub fn reassign_to_undersaturated_extractors(
    extractors: &Vec<OwnUnit>,
    extractor_saturation: usize,
    assignments: &mut IdMap<WorkerAssignment>,
)
    requires
        old(assignments).wf(),
        2 <= extractor_saturation <= 3,
    ensures
        final(assignments).wf(),
        forall|k: usize| final(assignments).spec_contains_key(k)
            <==> old(assignments).spec_contains_key(k),
        // a changed record replaces a gathering record with a gathering record
        forall|k: usize, v: WorkerAssignment| #[trigger] final(assignments).has_pair(k, v)
            && !old(assignments).has_pair(k, v)
            ==> v.assignment_type == WorkerAssignmentType::Gathering
                && exists|v0: WorkerAssignment| old(assignments).has_pair(k, v0)
                    && v0.assignment_type == WorkerAssignmentType::Gathering,
        forall|k: usize, v: WorkerAssignment| old(assignments).has_pair(k, v)
            && v.assignment_type == WorkerAssignmentType::Building
            ==> final(assignments).has_pair(k, v),
        forall|r: usize| #[trigger] count_gathering_at(final(assignments).entries@, r)
            <= count_gathering_at(old(assignments).entries@, r)
            || count_gathering_at(final(assignments).entries@, r) <= 3,
{
    let ne = extractors.len();
    let mut ei: usize = 0;
    while ei < ne
        invariant
            assignments.wf(),
            ne == extractors@.len(),
            ei <= ne,
            2 <= extractor_saturation <= 3,
            forall|k: usize| assignments.spec_contains_key(k)
                <==> old(assignments).spec_contains_key(k),
            forall|k: usize, v: WorkerAssignment| #[trigger] assignments.has_pair(k, v)
                && !old(assignments).has_pair(k, v)
                ==> v.assignment_type == WorkerAssignmentType::Gathering
                    && exists|v0: WorkerAssignment| old(assignments).has_pair(k, v0)
                        && v0.assignment_type == WorkerAssignmentType::Gathering,
            forall|k: usize, v: WorkerAssignment| old(assignments).has_pair(k, v)
                && v.assignment_type == WorkerAssignmentType::Building
                ==> assignments.has_pair(k, v),
            forall|r: usize| #[trigger] count_gathering_at(assignments.entries@, r)
                <= count_gathering_at(old(assignments).entries@, r)
                || count_gathering_at(assignments.entries@, r) <= 3,
        decreases ne - ei,
    {
        let extractor_id = extractors[ei].id;
        ei += 1;
        let c = count_workers_at(assignments, extractor_id);
        if c >= extractor_saturation {
            continue;
        }

        // find a worker gathering from something that is not an extractor
        let n = assignments.entries.len();
        let mut found: Option<usize> = None;
        let mut i: usize = 0;
        while i < n
            invariant
                assignments.wf(),
                n == assignments.entries@.len(),
                i <= n,
                found matches Some(j) ==> j < n && {
                    let e = assignments.entries@[j as int];
                    e.1.assignment_type == WorkerAssignmentType::Gathering
                    && (e.1.target_unit matches Some(t)
                        && !has_extractor_id(extractors@, t))
                },
            decreases n - i,
        {
            if matches!(found, None) {
                let a = assignments.entries[i].1;
                match (a.assignment_type, a.target_unit) {
                    (WorkerAssignmentType::Gathering, Some(t)) => {
                        let mut is_extractor = false;
                        let mut x: usize = 0;
                        while x < extractors.len()
                            invariant
                                x <= extractors@.len(),
                                is_extractor ==> has_extractor_id(extractors@, t),
                                !is_extractor ==> forall|y: int| 0 <= y < x
                                    ==> (#[trigger] extractors@[y]).id != t,
                            decreases extractors@.len() - x,
                        {
                            if extractors[x].id == t {
                                is_extractor = true;
                            }
                            x += 1;
                        }
                        if !is_extractor {
                            found = Some(i);
                        }
                    },
                    _ => {},
                }
            }
            i += 1;
        }

        match found {
            Some(j) => {
                let worker_id = assignments.entries[j].0;
                let ghost pre = *assignments;
                let ghost old_pair = assignments.entries@[j as int];
                let new_assignment = WorkerAssignment::gathering(extractor_id);
                assignments.insert(worker_id, new_assignment);
                proof {
                    assert(pre.has_pair(old_pair.0, old_pair.1));
                    assert(pre.spec_contains_key(worker_id));
                    let i0 = choose|i0: int| 0 <= i0 < pre.entries@.len()
                        && (#[trigger] pre.entries@[i0]).0 == worker_id
                        && assignments.entries@ == (pre.entries@.subrange(0, i0)
                            + pre.entries@.subrange(
                                i0 + 1, pre.entries@.len() as int)).push(
                                    (worker_id, new_assignment));
                    // the removed record is the found gathering record
                    assert(pre.entries@[i0] == old_pair);
                    assert forall|r: usize|
                        #[trigger] count_gathering_at(assignments.entries@, r)
                        <= count_gathering_at(old(assignments).entries@, r)
                        || count_gathering_at(assignments.entries@, r) <= 3 by {
                        lemma_count_gathering_remove_at(pre.entries@, i0, r);
                        lemma_count_gathering_push(
                            pre.entries@.subrange(0, i0) + pre.entries@.subrange(
                                i0 + 1, pre.entries@.len() as int),
                            (worker_id, new_assignment), r);
                        lemma_count_gathering_bounds(assignments.entries@, r);
                    }
                    assert forall|k: usize, v: WorkerAssignment|
                        #[trigger] assignments.has_pair(k, v)
                        && !old(assignments).has_pair(k, v)
                        implies v.assignment_type == WorkerAssignmentType::Gathering
                            && exists|v0: WorkerAssignment| old(assignments).has_pair(k, v0)
                                && v0.assignment_type
                                    == WorkerAssignmentType::Gathering by {
                        if k != worker_id {
                            assert(pre.has_pair(k, v));
                        } else {
                            assert(v == new_assignment);
                            if pre.has_pair(k, old_pair.1)
                                && !old(assignments).has_pair(k, old_pair.1) {
                                assert(old_pair.1.assignment_type
                                    == WorkerAssignmentType::Gathering);
                            }
                        }
                    }
                }
            },
            None => {},
        }
    }
}

} // verus!

verus! {

/// Center pixel of the resource-depot footprint on base tile `b`.
pub open spec fn base_center_px(b: (i32, i32)) -> (int, int) {
    (b.0 * 32 + 64, b.1 * 32 + 48)
}

/// Whether `p` lies within twelve build tiles of some claimed base center.
pub open spec fn near_some_base(claimed: Seq<(i32, i32)>, p: (i32, i32)) -> bool {
    exists|c: int| 0 <= c < claimed.len()
        && dist_sq(p.0 as int, p.1 as int,
            base_center_px(#[trigger] claimed[c]).0,
            base_center_px(claimed[c]).1) <= 384 * 384
}

/// One tick of the worker allocator: purge stale records, sweep idle
/// unassigned workers onto resources near the claimed bases, and rebalance
/// toward under-saturated extractors.
///
/// After the call, every non-building record belongs to a worker that exists,
/// building records are kept exactly, and if no patch was over-saturated
/// before, none is after: per-patch saturation stays at most three.
pub fn update_assignments(
    my_units: &Vec<OwnUnit>,
    static_minerals: &Vec<ResourceNode>,
    base_locations: &Vec<(i32, i32)>,
    build_order: &Vec<BuildOrderItem>,
    build_order_index: usize,
    map_width_px: i32,
    map_height_px: i32,
    assignments: &mut IdMap<WorkerAssignment>,
)
    requires
        old(assignments).wf(),
        map_width_px > 0,
        map_height_px > 0,
        forall|b: int| 0 <= b < base_locations@.len()
            ==> 0 <= (#[trigger] base_locations@[b]).0 <= 1024
                && 0 <= base_locations@[b].1 <= 1024,
    ensures
        final(assignments).wf(),
        // records of vanished workers are purged within the tick, except
        // building records, which survive the drone's morph
        forall|k: usize, v: WorkerAssignment| #[trigger] final(assignments).has_pair(k, v)
            ==> live_drone(my_units@, k)
                || v.assignment_type == WorkerAssignmentType::Building,
        // building records survive exactly
        forall|k: usize, v: WorkerAssignment|
            v.assignment_type == WorkerAssignmentType::Building
            ==> (#[trigger] final(assignments).has_pair(k, v)
                <==> old(assignments).has_pair(k, v)),
        // the saturation cap is invariant
        (forall|r: usize| #[trigger] count_gathering_at(old(assignments).entries@, r) <= 3)
            ==> forall|r: usize|
                #[trigger] count_gathering_at(final(assignments).entries@, r) <= 3,
        // records of living workers are never dropped
        forall|k: usize, v: WorkerAssignment| old(assignments).has_pair(k, v)
            && live_drone(my_units@, k)
            ==> final(assignments).spec_contains_key(k),
        // every idle drone holds a record afterwards
        forall|j: int| 0 <= j < my_units@.len()
            && (#[trigger] my_units@[j]).kind == UnitKind::Drone && my_units@[j].is_idle
            ==> final(assignments).spec_contains_key(my_units@[j].id),
{
    // the worker roster: the player's drones
    let mut workers: Vec<OwnUnit> = Vec::new();
    let mut i: usize = 0;
    while i < my_units.len()
        invariant
            i <= my_units@.len(),
            forall|a: int| 0 <= a < workers@.len()
                ==> (#[trigger] workers@[a]).kind == UnitKind::Drone
                    && exists|j: int| 0 <= j < my_units@.len()
                        && my_units@[j] == workers@[a],
            forall|j: int| 0 <= j < i && (#[trigger] my_units@[j]).kind == UnitKind::Drone
                ==> exists|a: int| 0 <= a < workers@.len() && workers@[a] == my_units@[j],
        decreases my_units@.len() - i,
    {
        let u = my_units[i];
        let ghost pre_workers = workers@;
        if matches!(u.kind, UnitKind::Drone) {
            workers.push(u);
            proof {
                assert(workers@[workers@.len() - 1] == my_units@[i as int]);
            }
        }
        i += 1;
        proof {
            assert forall|j: int| 0 <= j < i
                && (#[trigger] my_units@[j]).kind == UnitKind::Drone
                implies exists|a: int| 0 <= a < workers@.len()
                    && workers@[a] == my_units@[j] by {
                if j < i - 1 {
                    let a = choose|a: int| 0 <= a < pre_workers.len()
                        && pre_workers[a] == my_units@[j];
                    assert(workers@[a] == my_units@[j]);
                } else {
                    assert(workers@[workers@.len() - 1] == my_units@[j]);
                }
            }
        }
    }

    remove_dead_workers(assignments, &workers);
    let ghost purged = *assignments;

    // bases claimed so far: the main base and every hatchery built at a
    // designated slot before the cursor
    let mut claimed: Vec<(i32, i32)> = Vec::new();
    if base_locations.len() > 0 {
        claimed.push(base_locations[0]);
    }
    let mut bi: usize = 0;
    while bi < build_order.len() && bi < build_order_index
        invariant
            bi <= build_order@.len(),
            forall|b: int| 0 <= b < base_locations@.len()
                ==> 0 <= (#[trigger] base_locations@[b]).0 <= 1024
                    && 0 <= base_locations@[b].1 <= 1024,
            forall|c: int| 0 <= c < claimed@.len()
                ==> 0 <= (#[trigger] claimed@[c]).0 <= 1024
                    && 0 <= claimed@[c].1 <= 1024,
        decreases build_order@.len() - bi,
    {
        match &build_order[bi] {
            BuildOrderItem::Unit { unit_type, base_index: Some(ix) } => {
                if matches!(unit_type, UnitKind::Hatchery) && *ix < base_locations.len() {
                    let slot: usize = *ix;
                    claimed.push(base_locations[slot]);
                }
            },
            _ => {},
        }
        bi += 1;
    }

    // resources near the claimed bases
    let mut minerals: Vec<ResourceNode> = Vec::new();
    let mut mi: usize = 0;
    while mi < static_minerals.len()
        invariant
            mi <= static_minerals@.len(),
            forall|c: int| 0 <= c < claimed@.len()
                ==> 0 <= (#[trigger] claimed@[c]).0 <= 1024
                    && 0 <= claimed@[c].1 <= 1024,
            forall|a: int| 0 <= a < minerals@.len()
                ==> exists|j: int| 0 <= j < static_minerals@.len()
                    && static_minerals@[j] == #[trigger] minerals@[a],
        decreases static_minerals@.len() - mi,
    {
        let m = static_minerals[mi];
        let mut ci: usize = 0;
        let mut near = false;
        while ci < claimed.len() && !near
            invariant
                ci <= claimed@.len(),
                forall|c: int| 0 <= c < claimed@.len()
                    ==> 0 <= (#[trigger] claimed@[c]).0 <= 1024
                        && 0 <= claimed@[c].1 <= 1024,
            decreases claimed@.len() - ci,
        {
            let b = claimed[ci];
            let center = (b.0 * 32 + 64, b.1 * 32 + 48);
            if crate::geom::distance_squared(m.pos, center) <= 384 * 384 {
                near = true;
            }
            ci += 1;
        }
        if near {
            minerals.push(m);
            proof {
                assert(minerals@[minerals@.len() - 1] == static_minerals@[mi as int]);
            }
        }
        mi += 1;
    }

    // completed extractors near the claimed bases
    let mut extractors: Vec<OwnUnit> = Vec::new();
    let mut ui: usize = 0;
    while ui < my_units.len()
        invariant
            ui <= my_units@.len(),
            forall|c: int| 0 <= c < claimed@.len()
                ==> 0 <= (#[trigger] claimed@[c]).0 <= 1024
                    && 0 <= claimed@[c].1 <= 1024,
        decreases my_units@.len() - ui,
    {
        let u = my_units[ui];
        if matches!(u.kind, UnitKind::Extractor) && u.is_completed {
            let mut ci: usize = 0;
            let mut near = false;
            while ci < claimed.len() && !near
                invariant
                    ci <= claimed@.len(),
                    forall|c: int| 0 <= c < claimed@.len()
                        ==> 0 <= (#[trigger] claimed@[c]).0 <= 1024
                            && 0 <= claimed@[c].1 <= 1024,
                decreases claimed@.len() - ci,
            {
                let b = claimed[ci];
                let center = (b.0 * 32 + 64, b.1 * 32 + 48);
                if crate::geom::distance_squared(u.pos, center) <= 384 * 384 {
                    near = true;
                }
                ci += 1;
            }
            if near {
                extractors.push(u);
            }
        }
        ui += 1;
    }

    // extractor saturation target scales with the economy
    let extractor_saturation: usize = if workers.len() > 22 { 3 } else { 2 };

    assign_idle_workers(
        &workers, &minerals, &extractors, extractor_saturation,
        map_width_px, map_height_px, assignments);
    let ghost swept = *assignments;

    reassign_to_undersaturated_extractors(&extractors, extractor_saturation, assignments);

    proof {
        // living workers' records were keepable through the purge, kept by
        // the sweep, and their keys preserved by the rebalance
        assert forall|k: usize, v: WorkerAssignment| old(assignments).has_pair(k, v)
            && live_drone(my_units@, k)
            implies assignments.spec_contains_key(k) by {
            let j = choose|j: int| 0 <= j < my_units@.len()
                && (#[trigger] my_units@[j]).id == k
                && my_units@[j].kind == UnitKind::Drone;
            let a = choose|a: int| 0 <= a < workers@.len()
                && #[trigger] workers@[a] == my_units@[j];
            assert(crate::build_order::has_unit_id(workers@, k));
            assert(record_keepable(workers@, k, v));
            assert(purged.has_pair(k, v));
            assert(swept.has_pair(k, v));
            assert(swept.spec_contains_key(k));
        }
        // idle drones were swept into the ledger, and their keys preserved
        assert forall|j: int| 0 <= j < my_units@.len()
            && (#[trigger] my_units@[j]).kind == UnitKind::Drone && my_units@[j].is_idle
            implies assignments.spec_contains_key(my_units@[j].id) by {
            let a = choose|a: int| 0 <= a < workers@.len()
                && #[trigger] workers@[a] == my_units@[j];
            assert(workers@[a].is_idle);
            assert(swept.spec_contains_key(workers@[a].id));
        }
        // purge: every surviving non-building record names a living drone
        assert forall|k: usize, v: WorkerAssignment|
            #[trigger] assignments.has_pair(k, v)
            implies live_drone(my_units@, k)
                || v.assignment_type == WorkerAssignmentType::Building by {
            if v.assignment_type != WorkerAssignmentType::Building {
                // the key was present after the idle sweep
                if !swept.has_pair(k, v) {
                    let v0 = choose|v0: WorkerAssignment| swept.has_pair(k, v0)
                        && v0.assignment_type == WorkerAssignmentType::Gathering;
                    lemma_key_is_live(&purged, &swept, &workers, my_units, k, v0);
                } else {
                    lemma_key_is_live(&purged, &swept, &workers, my_units, k, v);
                }
            }
        }
        // building records pass through every phase unchanged
        assert forall|k: usize, v: WorkerAssignment|
            v.assignment_type == WorkerAssignmentType::Building
            implies (#[trigger] assignments.has_pair(k, v)
                <==> old(assignments).has_pair(k, v)) by {
            if assignments.has_pair(k, v) {
                if !swept.has_pair(k, v) {
                    assert(false);
                }
                if !purged.has_pair(k, v) {
                    assert(false);
                }
            }
            if old(assignments).has_pair(k, v) {
                assert(record_keepable(workers@, k, v));
                assert(purged.has_pair(k, v));
                assert(swept.has_pair(k, v));
                if !assignments.has_pair(k, v) {
                    let v2 = choose|v2: WorkerAssignment|
                        assignments.has_pair(k, v2) && !swept.has_pair(k, v2)
                        && v2.assignment_type == WorkerAssignmentType::Gathering;
                    assert(false);
                }
            }
        }
    }
}

/// A worker key whose record after the sweep is not a building record names
/// a living drone.
proof fn lemma_key_is_live(
    purged: &IdMap<WorkerAssignment>,
    swept: &IdMap<WorkerAssignment>,
    workers: &Vec<OwnUnit>,
    my_units: &Vec<OwnUnit>,
    k: usize,
    v: WorkerAssignment,
)
    requires
        swept.has_pair(k, v),
        v.assignment_type != WorkerAssignmentType::Building,
        // the sweep only added idle listed workers
        forall|k2: usize, v2: WorkerAssignment| #[trigger] swept.has_pair(k2, v2)
            && !purged.has_pair(k2, v2)
            ==> (exists|a: int| 0 <= a < workers@.len()
                    && (#[trigger] workers@[a]).id == k2 && workers@[a].is_idle)
                && v2.assignment_type != WorkerAssignmentType::Building,
        // the purge kept only keepable records
        forall|k2: usize, v2: WorkerAssignment| #[trigger] purged.has_pair(k2, v2)
            ==> record_keepable(workers@, k2, v2),
        // the roster lists drones of the unit list
        forall|a: int| 0 <= a < workers@.len()
            ==> (#[trigger] workers@[a]).kind == UnitKind::Drone
                && exists|j: int| 0 <= j < my_units@.len()
                    && my_units@[j] == workers@[a],
    ensures
        live_drone(my_units@, k),
{
    if purged.has_pair(k, v) {
        assert(record_keepable(workers@, k, v));
        assert(crate::build_order::has_unit_id(workers@, k));
        let a = choose|a: int| 0 <= a < workers@.len()
            && (#[trigger] workers@[a]).id == k;
        let j = choose|j: int| 0 <= j < my_units@.len() && my_units@[j] == workers@[a];
        assert(my_units@[j].id == k && my_units@[j].kind == UnitKind::Drone);
    } else {
        let a = choose|a: int| 0 <= a < workers@.len()
            && (#[trigger] workers@[a]).id == k && workers@[a].is_idle;
        let j = choose|j: int| 0 <= j < my_units@.len() && my_units@[j] == workers@[a];
        assert(my_units@[j].id == k && my_units@[j].kind == UnitKind::Drone);
    }
}

} // verus!

verus! {

/// What the enforcement pass asks the engine to do for one worker.
#[derive(Clone, Copy, Debug, PartialEq, Eq, Structural)]
pub enum WorkerCommand {
    /// The worker's observed behavior matches its record: do nothing.
    NoAction,
    /// Issue a gather command on the resource.
    Gather(usize),
    /// Move toward the pixel position.
    MoveTo(i32, i32),
    /// Place the structure at the build tile.
    Build(UnitKind, i32, i32),
}

/// The probe `k` of the guard-unstick search: eight angles per radius, radii
/// one to ten, eight pixels per radius step.
pub open spec fn guard_probe(c: (int, int), k: int) -> (int, int) {
    let radius = k / 8 + 1;
    let step = k % 8;
    let d = radius * 8;
    let off = crate::steering::off_of_step(step);
    (c.0 + crate::geom::div_trunc(off.0 * d, 1000),
        c.1 + crate::geom::div_trunc(off.1 * d, 1000))
}

/// First walkable guard probe at or after `k`; the ideal point itself when
/// every probe fails.
pub open spec fn spec_guard_target(
    grid: &crate::pathfinder::WalkGrid, c: (int, int), k: int,
) -> (int, int)
    decreases 80 - k,
{
    if k >= 80 {
        c
    } else {
        let p = guard_probe(c, k);
        if grid.walkable_px(p.0, p.1) {
            p
        } else {
            spec_guard_target(grid, c, k + 1)
        }
    }
}

/// Ring-searches a walkable point around the ideal unstick target.
fn guard_move_target(
    grid: &crate::pathfinder::WalkGrid, c: (i32, i32),
) -> (r: (i32, i32))
    requires
        grid.wf(),
        coord_ok(c),
    ensures
        (r.0 as int, r.1 as int) == spec_guard_target(grid, (c.0 as int, c.1 as int), 0),
{
    let mut k: usize = 0;
    while k < 80
        invariant
            grid.wf(),
            coord_ok(c),
            k <= 80,
            spec_guard_target(grid, (c.0 as int, c.1 as int), 0)
                == spec_guard_target(grid, (c.0 as int, c.1 as int), k as int),
        decreases 80 - k,
    {
        let radius: i64 = (k as i64) / 8 + 1;
        let step: usize = k % 8;
        let d: i64 = radius * 8;
        let off: (i64, i64) = match step {
            0 => (1000, 0),
            1 => (707, 707),
            2 => (0, 1000),
            3 => (-707, 707),
            4 => (-1000, 0),
            5 => (-707, -707),
            6 => (0, -1000),
            _ => (707, -707),
        };
        proof {
            assert((off.0 as int, off.1 as int)
                == crate::steering::off_of_step(step as int));
            assert(-80_000 <= (off.0 as int) * (d as int) <= 80_000) by (nonlinear_arith)
                requires -1000 <= (off.0 as int) <= 1000, 0 <= (d as int) <= 80;
            assert(-80_000 <= (off.1 as int) * (d as int) <= 80_000) by (nonlinear_arith)
                requires -1000 <= (off.1 as int) <= 1000, 0 <= (d as int) <= 80;
        }
        let px: i128 = c.0 as i128 + crate::geom::div_i128((off.0 as i128) * (d as i128), 1000);
        let py: i128 = c.1 as i128 + crate::geom::div_i128((off.1 as i128) * (d as i128), 1000);
        proof {
            assert((px as int, py as int)
                == guard_probe((c.0 as int, c.1 as int), k as int));
        }
        let walkable = if px < 0 || py < 0 || px >= 8192 || py >= 8192 {
            proof {
                assert(grid.width * 8 <= 8192 && grid.height * 8 <= 8192);
            }
            false
        } else {
            grid.is_walkable_px(px as i32, py as i32)
        };
        if walkable {
            proof {
                assert(grid.walkable_px(px as int, py as int));
                assert(0 <= px && (px as int) < grid.width * 8);
                assert(0 <= py && (py as int) < grid.height * 8);
            }
            return (px as i32, py as i32);
        }
        k += 1;
    }
    c
}

/// Whether the observed order is one of the gathering or returning states in
/// which the record is considered served.
pub open spec fn is_harvest_order(o: crate::units::OrderKind) -> bool {
    o == crate::units::OrderKind::MoveToMinerals
    || o == crate::units::OrderKind::WaitForMinerals
    || o == crate::units::OrderKind::MiningMinerals
    || o == crate::units::OrderKind::Harvest1
    || o == crate::units::OrderKind::Harvest2
    || o == crate::units::OrderKind::Harvest3
    || o == crate::units::OrderKind::Harvest4
    || o == crate::units::OrderKind::MoveToGas
    || o == crate::units::OrderKind::WaitForGas
    || o == crate::units::OrderKind::HarvestGas
}

/// Compares a gathering worker's observed order with its record and decides
/// the correcting command: re-issue the gather when the worker idles or
/// harvests the wrong node, unstick a guarding worker toward walkable
/// ground, and leave returning or moving workers alone.
pub fn enforce_gathering_assignment(
    grid: &crate::pathfinder::WalkGrid,
    worker: &OwnUnit,
    target_resource: usize,
    resource_exists: bool,
) -> (r: WorkerCommand)
    requires
        grid.wf(),
        coord_ok(worker.pos),
    ensures
        r matches WorkerCommand::Gather(t) ==> t == target_resource && resource_exists,
        r matches WorkerCommand::Gather(t)
            ==> worker.order == crate::units::OrderKind::PlayerGuard
                || worker.order == crate::units::OrderKind::Stop
                || (is_harvest_order(worker.order)
                    && worker.order_target != Some(target_resource)),
        r matches WorkerCommand::MoveTo(x, y)
            ==> worker.order == crate::units::OrderKind::Guard,
        r is Build ==> false,
        // the gather is owed whenever the worker stands around or harvests
        // the wrong node while its resource still exists
        resource_exists && (worker.order == crate::units::OrderKind::PlayerGuard
            || worker.order == crate::units::OrderKind::Stop)
            ==> r == WorkerCommand::Gather(target_resource),
        resource_exists && is_harvest_order(worker.order)
            && (worker.order_target matches Some(t) && t != target_resource)
            ==> r == WorkerCommand::Gather(target_resource),
        // returning, colliding or moving workers are left alone, as is one
        // whose resource has vanished
        (worker.order == crate::units::OrderKind::ReturnMinerals
            || worker.order == crate::units::OrderKind::ReturnGas
            || worker.order == crate::units::OrderKind::ResetCollision
            || worker.order == crate::units::OrderKind::Move)
            ==> r == WorkerCommand::NoAction,
        !resource_exists ==> r == WorkerCommand::NoAction,
{
    match worker.order {
        crate::units::OrderKind::ReturnMinerals
        | crate::units::OrderKind::ReturnGas
        | crate::units::OrderKind::ResetCollision
        | crate::units::OrderKind::Move => WorkerCommand::NoAction,
        _ => {
            if !resource_exists {
                return WorkerCommand::NoAction;
            }
            match worker.order {
                crate::units::OrderKind::PlayerGuard | crate::units::OrderKind::Stop => {
                    WorkerCommand::Gather(target_resource)
                },
                crate::units::OrderKind::Guard => {
                    // nudge the stuck worker toward walkable ground
                    if worker.pos.0 < -0x3000_0000 {
                        return WorkerCommand::NoAction;
                    }
                    let ideal: (i32, i32) = (worker.pos.0 - 96, worker.pos.1);
                    if grid.is_walkable_px(ideal.0, ideal.1) {
                        WorkerCommand::NoAction
                    } else {
                        let t = guard_move_target(grid, ideal);
                        WorkerCommand::MoveTo(t.0, t.1)
                    }
                },
                o => {
                    let harvesting = matches!(o,
                        crate::units::OrderKind::MoveToMinerals
                        | crate::units::OrderKind::WaitForMinerals
                        | crate::units::OrderKind::MiningMinerals
                        | crate::units::OrderKind::Harvest1
                        | crate::units::OrderKind::Harvest2
                        | crate::units::OrderKind::Harvest3
                        | crate::units::OrderKind::Harvest4
                        | crate::units::OrderKind::MoveToGas
                        | crate::units::OrderKind::WaitForGas
                        | crate::units::OrderKind::HarvestGas);
                    if harvesting {
                        match worker.order_target {
                            Some(t) => {
                                if t != target_resource {
                                    WorkerCommand::Gather(target_resource)
                                } else {
                                    WorkerCommand::NoAction
                                }
                            },
                            None => WorkerCommand::NoAction,
                        }
                    } else {
                        WorkerCommand::NoAction
                    }
                },
            }
        },
    }
}

/// Compares a building worker's observed state with its record and decides
/// the correcting command.  The worker waits while funds are short, explores
/// toward an unconfirmed location, and places the structure once the spot is
/// confirmed buildable; a missing location is searched for and recorded, and
/// the command issued on a later tick.
pub fn enforce_building_assignment(
    worker: &OwnUnit,
    assignment: &mut WorkerAssignment,
    building_type: UnitKind,
    base_index: Option<usize>,
    base_locations: &Vec<(i32, i32)>,
    player: &crate::units::PlayerInfo,
    window: &crate::build_location::BuildWindow,
    depots: &Vec<(i32, i32)>,
    minerals: &Vec<ResourceNode>,
    geysers: &Vec<ResourceNode>,
) -> (r: WorkerCommand)
    requires
        old(assignment).assignment_type == WorkerAssignmentType::Building,
        window.wf(),
        forall|j: int| 0 <= j < depots@.len() ==> coord_ok(#[trigger] depots@[j]),
        forall|j: int| 0 <= j < minerals@.len() ==> coord_ok((#[trigger] minerals@[j]).pos),
        forall|j: int| 0 <= j < geysers@.len()
            ==> coord_ok((#[trigger] geysers@[j]).pos)
                && (#[trigger] geysers@[j]).pos.0 >= 0 && geysers@[j].pos.1 >= 0,
        depots@.len() <= 100_000,
        minerals@.len() <= 100_000,
        geysers@.len() <= 100_000,
    ensures
        final(assignment).assignment_type == WorkerAssignmentType::Building,
        final(assignment).build_order_index == old(assignment).build_order_index,
        // no placement while the worker is already placing or constructing
        (worker.order == crate::units::OrderKind::PlaceBuilding
            || worker.order == crate::units::OrderKind::ConstructingBuilding
            || worker.order == crate::units::OrderKind::DroneBuild)
            ==> r == WorkerCommand::NoAction,
        // no placement on short funds
        (player.minerals < crate::units::spec_mineral_price(building_type)
            || player.gas < crate::units::spec_gas_price(building_type))
            ==> r == WorkerCommand::NoAction,
        // a build command names the recorded position and is confirmed buildable
        r matches WorkerCommand::Build(k, tx, ty) ==> k == building_type
            && old(assignment).target_position == Some((tx, ty))
            && window.buildable_at(tx as int, ty as int),
        r is Gather ==> false,
        // a recorded position is never dropped
        old(assignment).target_position matches Some(p)
            ==> final(assignment).target_position == Some(p),
        // the placement is owed once the worker is free, funds cover the
        // price, and the recorded spot is confirmed buildable
        ({
            &&& worker.order != crate::units::OrderKind::PlaceBuilding
            &&& worker.order != crate::units::OrderKind::ConstructingBuilding
            &&& worker.order != crate::units::OrderKind::DroneBuild
            &&& player.minerals >= crate::units::spec_mineral_price(building_type)
            &&& player.gas >= crate::units::spec_gas_price(building_type)
            &&& old(assignment).target_position matches Some(p)
                && window.buildable_at(p.0 as int, p.1 as int)
        }) ==> (old(assignment).target_position matches Some(p)
            && r == WorkerCommand::Build(building_type, p.0, p.1)),
        // an unconfirmed spot sends the worker exploring toward it
        ({
            &&& worker.order != crate::units::OrderKind::PlaceBuilding
            &&& worker.order != crate::units::OrderKind::ConstructingBuilding
            &&& worker.order != crate::units::OrderKind::DroneBuild
            &&& worker.order != crate::units::OrderKind::Move
            &&& player.minerals >= crate::units::spec_mineral_price(building_type)
            &&& player.gas >= crate::units::spec_gas_price(building_type)
            &&& old(assignment).target_position matches Some(p)
                && !window.buildable_at(p.0 as int, p.1 as int)
                && 2 <= p.0 <= 100_000 && 0 <= p.1 <= 100_000
        }) ==> (old(assignment).target_position matches Some(p)
            && r == WorkerCommand::MoveTo(((p.0 - 2) * 32) as i32, ((p.1 + 3) * 32) as i32)),
{
    match worker.order {
        crate::units::OrderKind::PlaceBuilding
        | crate::units::OrderKind::ConstructingBuilding
        | crate::units::OrderKind::DroneBuild => {
            return WorkerCommand::NoAction;
        },
        _ => {},
    }

    let need_minerals = crate::units::mineral_price(building_type);
    let need_gas = crate::units::gas_price(building_type);
    if player.minerals < need_minerals || player.gas < need_gas {
        return WorkerCommand::NoAction;
    }

    let pos: (i32, i32) = match assignment.target_position {
        Some(p) => p,
        None => {
            // find a location now; the command goes out next tick
            let found: Option<(i32, i32)> = if matches!(building_type, UnitKind::Hatchery) {
                match base_index {
                    Some(ix) => {
                        if ix < base_locations.len() {
                            Some(base_locations[ix])
                        } else {
                            None
                        }
                    },
                    None => crate::build_location::get_buildable_location(
                        window, depots, minerals, geysers),
                }
            } else if matches!(building_type, UnitKind::Extractor) {
                crate::build_location::find_extractor_location(
                    window, geysers, depots, None)
            } else {
                crate::build_location::get_buildable_location(
                    window, depots, minerals, geysers)
            };
            match found {
                Some(p) => {
                    assignment.target_position = Some(p);
                },
                None => {},
            }
            return WorkerCommand::NoAction;
        },
    };

    if !window.is_buildable_at(pos.0, pos.1) {
        // unexplored or blocked: walk the worker toward the spot
        if !matches!(worker.order, crate::units::OrderKind::Move) {
            if pos.0 >= 2 && pos.0 <= 100_000 && pos.1 >= 0 && pos.1 <= 100_000 {
                return WorkerCommand::MoveTo((pos.0 - 2) * 32, (pos.1 + 3) * 32);
            }
        }
        return WorkerCommand::NoAction;
    }

    WorkerCommand::Build(building_type, pos.0, pos.1)
}

/// Reassigns a worker whose resource proved unreachable to an alternative
/// same-class resource: an extractor under two workers first, else a random
/// least-saturated mineral patch near a base, never pushing any patch past
/// two.  Returns whether a new record was written.
pub fn assign_worker_to_other_resource(
    worker_id: usize,
    assignments: &mut IdMap<WorkerAssignment>,
    minerals_near_bases: &Vec<ResourceNode>,
    extractors: &Vec<OwnUnit>,
) -> (changed: bool)
    requires
        old(assignments).wf(),
    ensures
        final(assignments).wf(),
        !changed ==> *final(assignments) == *old(assignments),
        changed ==> final(assignments).spec_contains_key(worker_id),
        forall|k: usize, v: WorkerAssignment| k != worker_id
            ==> (final(assignments).has_pair(k, v) <==> old(assignments).has_pair(k, v)),
        // the new record gathers from an alternative resource that had room
        changed ==> exists|v: WorkerAssignment|
            final(assignments).has_pair(worker_id, v)
            && v.assignment_type == WorkerAssignmentType::Gathering
            && (v.target_unit matches Some(t)
                && count_gathering_at(old(assignments).entries@, t) < 2
                && (has_extractor_id(extractors@, t)
                    || exists|j: int| 0 <= j < minerals_near_bases@.len()
                        && (#[trigger] minerals_near_bases@[j]).id == t)),
        // failure means every alternative was already occupied
        !changed ==> (forall|j: int| 0 <= j < extractors@.len()
                ==> count_gathering_at(old(assignments).entries@,
                    (#[trigger] extractors@[j]).id) >= 2)
            && (forall|j: int| 0 <= j < minerals_near_bases@.len()
                ==> count_gathering_at(old(assignments).entries@,
                    (#[trigger] minerals_near_bases@[j]).id) >= 2),
{
    // an extractor under two workers first
    let mut ei: usize = 0;
    while ei < extractors.len()
        invariant
            assignments.wf(),
            assignments == old(assignments),
            ei <= extractors@.len(),
            forall|j: int| 0 <= j < ei
                ==> count_gathering_at(assignments.entries@,
                    (#[trigger] extractors@[j]).id) >= 2,
        decreases extractors@.len() - ei,
    {
        let c = count_workers_at(assignments, extractors[ei].id);
        if c < 2 {
            proof {
                assert(has_extractor_id(extractors@, extractors@[ei as int].id));
            }
            assignments.insert(worker_id, WorkerAssignment::gathering(extractors[ei].id));
            return true;
        }
        ei += 1;
    }

    // else a random least-saturated mineral patch near a base
    match find_random_least_saturated_mineral(minerals_near_bases, assignments, 2) {
        Some(ix) => {
            assignments.insert(
                worker_id, WorkerAssignment::gathering(minerals_near_bases[ix].id));
            true
        },
        None => false,
    }
}

} // verus!
