use vstd::prelude::*;
use rayon::iter::{IntoParallelRefIterator, ParallelIterator};
use crate::digest::{dec_string, Digest};
use crate::oracle::{HashOracle, ThresholdPolicy};

verus! {

/// One cell of the infinite integer grid.
#[derive(Clone, Copy, PartialEq, Eq, Structural, Debug)]
pub struct Coords {
    pub x: i64,
    pub y: i64,
}

/// A square region: `[x, x + side_length)` × `[y, y + side_length)` from the
/// bottom-left corner. A non-positive side length denotes an empty region.
#[derive(Clone, Copy, PartialEq, Eq, Structural, Debug)]
pub struct ChunkFootprint {
    pub bottom_left: Coords,
    pub side_length: i64,
}

/// One scan request: the region to scan, the rarity class that selects the
/// digest cutoff, and the key shared by all participants of one world.
#[derive(Clone, Copy, PartialEq, Eq, Structural, Debug)]
pub struct Task {
    pub chunk_footprint: ChunkFootprint,
    pub planet_rarity: u32,
    pub planet_hash_key: u32,
}

/// A qualifying cell: its coordinates and the decimal text of its digest.
#[derive(Clone, Debug)]
pub struct Planet {
    pub coords: Coords,
    pub hash: String,
}

/// A scan result: the footprint echoed back unchanged, and every qualifying
/// cell of that footprint, each exactly once, in unspecified order.
#[derive(Clone, Debug)]
pub struct Response {
    pub chunk_footprint: ChunkFootprint,
    pub planet_locations: Vec<Planet>,
}

/// Whether cell `(x, y)` lies in the footprint.
pub open spec fn in_footprint(fp: ChunkFootprint, x: int, y: int) -> bool {
    &&& fp.bottom_left.x <= x < fp.bottom_left.x + fp.side_length
    &&& fp.bottom_left.y <= y < fp.bottom_left.y + fp.side_length
}

/// The number of cells in the footprint.
pub open spec fn area(fp: ChunkFootprint) -> int {
    if fp.side_length <= 0 {
        0
    } else {
        fp.side_length * fp.side_length
    }
}

/// Whether cell `(x, y)` qualifies under the task's key and rarity: its
/// digest lies strictly below the rarity's cutoff.
pub open spec fn qualifies<H: HashOracle, P: ThresholdPolicy>(
    oracle: H,
    policy: P,
    task: Task,
    x: int,
    y: int,
) -> bool {
    oracle.digest_spec(x, y, task.planet_hash_key as int)
        < policy.threshold_spec(task.planet_rarity as int)
}

/// The set of footprint cells that qualify under the task.
pub open spec fn qualifying_set<H: HashOracle, P: ThresholdPolicy>(
    oracle: H,
    policy: P,
    task: Task,
) -> Set<Coords> {
    Set::new(
        |c: Coords|
            in_footprint(task.chunk_footprint, c.x as int, c.y as int) && qualifies(
                oracle,
                policy,
                task,
                c.x as int,
                c.y as int,
            ),
    )
}

/// Whether one reported planet is right for the task: its cell lies in the
/// footprint and qualifies, and its hash text is the decimal rendering of
/// that cell's digest.
pub open spec fn planet_ok<H: HashOracle, P: ThresholdPolicy>(
    oracle: H,
    policy: P,
    task: Task,
    p: Planet,
) -> bool {
    &&& in_footprint(task.chunk_footprint, p.coords.x as int, p.coords.y as int)
    &&& qualifies(oracle, policy, task, p.coords.x as int, p.coords.y as int)
    &&& p.hash@ == dec_string(
        oracle.digest_spec(p.coords.x as int, p.coords.y as int, task.planet_hash_key as int) as nat,
    )
}

/// What a scan promises: the footprint is echoed unchanged; every reported
/// planet is right for the task; every qualifying cell is reported; and no
/// cell is reported twice.
pub open spec fn scan_post<H: HashOracle, P: ThresholdPolicy>(
    oracle: H,
    policy: P,
    task: Task,
    r: Response,
) -> bool {
    &&& r.chunk_footprint == task.chunk_footprint
    &&& forall|k: int|
        0 <= k < r.planet_locations@.len() ==> planet_ok(
            oracle,
            policy,
            task,
            #[trigger] r.planet_locations@[k],
        )
    &&& forall|c: Coords|
        #[trigger] qualifying_set(oracle, policy, task).contains(c) ==> exists|k: int|
            0 <= k < r.planet_locations@.len() && (#[trigger] r.planet_locations@[k]).coords == c
    &&& forall|k1: int, k2: int|
        0 <= k1 < k2 < r.planet_locations@.len() ==> (#[trigger] r.planet_locations@[k1]).coords
            != (#[trigger] r.planet_locations@[k2]).coords
}

/// The set of coordinates a response reports.
pub open spec fn match_coords(r: Response) -> Set<Coords> {
    Set::new(
        |c: Coords|
            exists|k: int|
                0 <= k < r.planet_locations@.len() && (#[trigger] r.planet_locations@[k]).coords
                    == c,
    )
}

/// Law: a scan's match set is exactly the set of qualifying footprint cells —
/// no cell is missed, none is invented.
pub proof fn lemma_scan_complete<H: HashOracle, P: ThresholdPolicy>(
    oracle: H,
    policy: P,
    task: Task,
    r: Response,
)
    requires
        scan_post(oracle, policy, task, r),
    ensures
        match_coords(r) == qualifying_set(oracle, policy, task),
{
    let m = match_coords(r);
    let q = qualifying_set(oracle, policy, task);
    assert forall|c: Coords| #[trigger] m.contains(c) implies q.contains(c) by {
        let k: int = choose|k: int|
            0 <= k < r.planet_locations@.len() && (#[trigger] r.planet_locations@[k]).coords == c;
        assert(planet_ok(oracle, policy, task, r.planet_locations@[k]));
    }
    assert forall|c: Coords| #[trigger] q.contains(c) implies m.contains(c) by {
        let k: int = choose|k: int|
            0 <= k < r.planet_locations@.len() && (#[trigger] r.planet_locations@[k]).coords == c;
        assert(r.planet_locations@[k].coords == c);
    }
    assert(m =~= q);
}

/// Law: two scans of identical inputs report identical match sets, however
/// each of them ordered its planets.
pub proof fn lemma_scan_deterministic<H: HashOracle, P: ThresholdPolicy>(
    oracle: H,
    policy: P,
    task: Task,
    r1: Response,
    r2: Response,
)
    requires
        scan_post(oracle, policy, task, r1),
        scan_post(oracle, policy, task, r2),
    ensures
        match_coords(r1) == match_coords(r2),
{
    lemma_scan_complete(oracle, policy, task, r1);
    lemma_scan_complete(oracle, policy, task, r2);
}

/// Law: over one footprint and key, a rarity with the lower cutoff qualifies
/// a subset of the cells the higher cutoff qualifies.
pub proof fn lemma_threshold_monotonic<H: HashOracle, P: ThresholdPolicy>(
    oracle: H,
    policy: P,
    task_a: Task,
    task_b: Task,
)
    requires
        task_a.chunk_footprint == task_b.chunk_footprint,
        task_a.planet_hash_key == task_b.planet_hash_key,
        policy.threshold_spec(task_a.planet_rarity as int) <= policy.threshold_spec(
            task_b.planet_rarity as int,
        ),
    ensures
        qualifying_set(oracle, policy, task_a).subset_of(qualifying_set(oracle, policy, task_b)),
{
    assert forall|c: Coords|
        qualifying_set(oracle, policy, task_a).contains(c) implies qualifying_set(
        oracle,
        policy,
        task_b,
    ).contains(c) by {}
}

/// Law: over one footprint and key, the scan under the lower cutoff reports
/// a subset of the cells the scan under the higher cutoff reports.
pub proof fn lemma_scan_monotonic<H: HashOracle, P: ThresholdPolicy>(
    oracle: H,
    policy: P,
    task_a: Task,
    task_b: Task,
    r_a: Response,
    r_b: Response,
)
    requires
        scan_post(oracle, policy, task_a, r_a),
        scan_post(oracle, policy, task_b, r_b),
        task_a.chunk_footprint == task_b.chunk_footprint,
        task_a.planet_hash_key == task_b.planet_hash_key,
        policy.threshold_spec(task_a.planet_rarity as int) <= policy.threshold_spec(
            task_b.planet_rarity as int,
        ),
    ensures
        match_coords(r_a).subset_of(match_coords(r_b)),
{
    lemma_scan_complete(oracle, policy, task_a, r_a);
    lemma_scan_complete(oracle, policy, task_b, r_b);
    lemma_threshold_monotonic(oracle, policy, task_a, task_b);
}

/// The cell a row-major enumeration of the footprint puts at position `i`.
spec fn cell_at(fp: ChunkFootprint, i: int) -> Coords {
    Coords {
        x: (fp.bottom_left.x + i / (fp.side_length as int)) as i64,
        y: (fp.bottom_left.y + i % (fp.side_length as int)) as i64,
    }
}

proof fn lemma_grid_index(s: int, a: int, b: int)
    by (nonlinear_arith)
    requires
        0 < s,
        0 <= a < s,
        0 <= b < s,
    ensures
        (a * s + b) / s == a,
        (a * s + b) % s == b,
        0 <= a * s + b < s * s,
{
}

proof fn lemma_div_mod_grid(s: int, i: int)
    by (nonlinear_arith)
    requires
        0 < s,
        0 <= i < s * s,
    ensures
        0 <= i / s < s,
        0 <= i % s < s,
        i == (i / s) * s + (i % s),
{
}

/// Enumerate every cell of the footprint, each exactly once.
///
/// An empty (non-positive side) footprint yields no cells. The bounds in the
/// `requires` only keep the rightmost column and topmost row representable.
pub fn enumerate_cells(fp: &ChunkFootprint) -> (cells: Vec<Coords>)
    requires
        fp.side_length > 0 ==> fp.bottom_left.x + fp.side_length <= i64::MAX as int + 1,
        fp.side_length > 0 ==> fp.bottom_left.y + fp.side_length <= i64::MAX as int + 1,
    ensures
        cells@.len() == area(*fp),
        forall|c: Coords| #[trigger] cells@.contains(c) <==> in_footprint(*fp, c.x as int, c.y as int),
        forall|i: int, j: int| 0 <= i < j < cells@.len() ==> cells@[i] != cells@[j],
{
    let mut cells: Vec<Coords> = Vec::new();
    if fp.side_length <= 0 {
        return cells;
    }
    let s: i64 = fp.side_length;
    let x0: i64 = fp.bottom_left.x;
    let y0: i64 = fp.bottom_left.y;
    let mut dx: i64 = 0;
    while dx < s
        invariant
            0 < s,
            0 <= dx <= s,
            s == fp.side_length,
            x0 == fp.bottom_left.x,
            y0 == fp.bottom_left.y,
            x0 + s <= i64::MAX as int + 1,
            y0 + s <= i64::MAX as int + 1,
            cells@.len() == dx * s,
            forall|i: int| 0 <= i < cells@.len() ==> #[trigger] cells@[i] == cell_at(*fp, i),
        decreases s - dx,
    {
        let mut dy: i64 = 0;
        while dy < s
            invariant
                0 < s,
                0 <= dx < s,
                0 <= dy <= s,
                s == fp.side_length,
                x0 == fp.bottom_left.x,
                y0 == fp.bottom_left.y,
                x0 + s <= i64::MAX as int + 1,
                y0 + s <= i64::MAX as int + 1,
                cells@.len() == dx * s + dy,
                forall|i: int| 0 <= i < cells@.len() ==> #[trigger] cells@[i] == cell_at(*fp, i),
            decreases s - dy,
        {
            proof {
                lemma_grid_index(s as int, dx as int, dy as int);
            }
            cells.push(Coords { x: x0 + dx, y: y0 + dy });
            dy = dy + 1;
        }
        proof {
            assert((dx as int + 1) * (s as int) == dx as int * (s as int) + s as int)
                by (nonlinear_arith);
        }
        dx = dx + 1;
    }
    proof {
        assert(cells@.len() == (s as int) * (s as int));
        assert forall|i: int, j: int| 0 <= i < j < cells@.len() implies cells@[i] != cells@[j] by {
            lemma_div_mod_grid(s as int, i);
            lemma_div_mod_grid(s as int, j);
        }
        assert forall|c: Coords| cells@.contains(c) implies in_footprint(*fp, c.x as int, c.y as int) by {
            let i: int = choose|i: int| 0 <= i < cells@.len() && cells@[i] == c;
            lemma_div_mod_grid(s as int, i);
        }
        assert forall|c: Coords| in_footprint(*fp, c.x as int, c.y as int) implies cells@.contains(c) by {
            let a: int = c.x as int - x0 as int;
            let b: int = c.y as int - y0 as int;
            lemma_grid_index(s as int, a, b);
            assert(cells@[a * (s as int) + b] == c);
        }
    }
    cells
}

/// Digest every cell under the given key, in the cells' own order.
///
/// Relies on rayon's `par_iter().map(..).collect::<Vec<_>>()`: a slice's
/// parallel iterator is indexed, `map` keeps it indexed, and collecting an
/// indexed parallel iterator into a `Vec` yields one result per input item,
/// in input order. The closure only calls the oracle's `digest` method.
#[verifier::external_body]
fn digests_parallel<H: HashOracle + Sync>(cells: &Vec<Coords>, oracle: &H, key: u32) -> (ds: Vec<
    Digest,
>)
    ensures
        ds@.len() == cells@.len(),
        forall|i: int|
            0 <= i < cells@.len() ==> (#[trigger] ds@[i]).value == oracle.digest_spec(
                cells@[i].x as int,
                cells@[i].y as int,
                key as int,
            ),
{
    cells.par_iter().map(|c| oracle.digest(c.x, c.y, key)).collect()
}

/// Scan the footprint: report exactly the qualifying cells, each once, with
/// the decimal text of its digest, and echo the footprint back unchanged.
///
/// The cutoff is computed once per scan; each cell is then digested
/// independently (in parallel) and kept exactly when its digest lies below
/// the cutoff. An empty (non-positive side) footprint yields no planets.
pub fn scan<H: HashOracle + Sync, P: ThresholdPolicy>(task: &Task, oracle: &H, policy: &P) -> (r:
    Response)
    requires
        task.chunk_footprint.side_length > 0 ==> task.chunk_footprint.bottom_left.x
            + task.chunk_footprint.side_length <= i64::MAX as int + 1,
        task.chunk_footprint.side_length > 0 ==> task.chunk_footprint.bottom_left.y
            + task.chunk_footprint.side_length <= i64::MAX as int + 1,
    ensures
        scan_post(*oracle, *policy, *task, r),
        r.planet_locations@.len() <= area(task.chunk_footprint),
        task.chunk_footprint.side_length <= 0 ==> r.planet_locations@.len() == 0,
{
    let threshold = policy.threshold(task.planet_rarity);
    let cells = enumerate_cells(&task.chunk_footprint);
    let digests = digests_parallel(&cells, oracle, task.planet_hash_key);
    let mut planets: Vec<Planet> = Vec::new();
    let n: usize = cells.len();
    let mut k: usize = 0;
    while k < n
        invariant
            k <= n,
            n == cells@.len(),
            digests@.len() == cells@.len(),
            threshold.value == policy.threshold_spec(task.planet_rarity as int),
            forall|i: int|
                0 <= i < cells@.len() ==> (#[trigger] digests@[i]).value == oracle.digest_spec(
                    cells@[i].x as int,
                    cells@[i].y as int,
                    task.planet_hash_key as int,
                ),
            forall|c: Coords| #[trigger] cells@.contains(c) <==> in_footprint(
                task.chunk_footprint,
                c.x as int,
                c.y as int,
            ),
            forall|i: int, j: int| 0 <= i < j < cells@.len() ==> cells@[i] != cells@[j],
            planets@.len() <= k,
            forall|j: int|
                0 <= j < planets@.len() ==> planet_ok(
                    *oracle,
                    *policy,
                    *task,
                    #[trigger] planets@[j],
                ),
            forall|j: int|
                0 <= j < planets@.len() ==> exists|i: int|
                    0 <= i < k && cells@[i] == (#[trigger] planets@[j]).coords,
            forall|i: int|
                0 <= i < k && (#[trigger] digests@[i]).value < threshold.value ==> exists|j: int|
                    0 <= j < planets@.len() && (#[trigger] planets@[j]).coords == cells@[i],
            forall|j1: int, j2: int|
                0 <= j1 < j2 < planets@.len() ==> (#[trigger] planets@[j1]).coords
                    != (#[trigger] planets@[j2]).coords,
        decreases n - k,
    {
        if digests[k].value < threshold.value {
            let ghost old_planets = planets@;
            let hash = digests[k].to_decimal();
            let p = Planet { coords: cells[k], hash };
            proof {
                assert(cells@.contains(cells@[k as int]));
                assert forall|j: int| 0 <= j < old_planets.len() implies (
                #[trigger] old_planets[j]).coords != cells@[k as int] by {
                    let i: int = choose|i: int|
                        0 <= i < k && cells@[i] == old_planets[j].coords;
                    assert(cells@[i] != cells@[k as int]);
                }
            }
            planets.push(p);
            proof {
                assert(planets@[planets@.len() - 1].coords == cells@[k as int]);
                assert forall|i: int|
                    0 <= i < k + 1 && (#[trigger] digests@[i]).value
                        < threshold.value implies exists|j: int|
                    0 <= j < planets@.len() && (#[trigger] planets@[j]).coords == cells@[i] by {
                    if i < k {
                        let j: int = choose|j: int|
                            0 <= j < old_planets.len() && (#[trigger] old_planets[j]).coords
                                == cells@[i];
                        assert(planets@[j].coords == cells@[i]);
                    } else {
                        assert(planets@[planets@.len() - 1].coords == cells@[i]);
                    }
                }
            }
        }
        k = k + 1;
    }
    let ghost gp: Seq<Planet> = planets@;
    let r = Response { chunk_footprint: task.chunk_footprint, planet_locations: planets };
    proof {
        assert(r.planet_locations@ == gp);
        assert forall|k2: int| 0 <= k2 < r.planet_locations@.len() implies planet_ok(
            *oracle,
            *policy,
            *task,
            #[trigger] r.planet_locations@[k2],
        ) by {
            assert(planet_ok(*oracle, *policy, *task, gp[k2]));
        }
        assert forall|k1: int, k2: int|
            0 <= k1 < k2 < r.planet_locations@.len() implies (
        #[trigger] r.planet_locations@[k1]).coords != (#[trigger] r.planet_locations@[k2]).coords by {
            assert(gp[k1].coords != gp[k2].coords);
        }
        assert forall|c: Coords|
            #[trigger] qualifying_set(*oracle, *policy, *task).contains(c) implies exists|k2: int|
            0 <= k2 < r.planet_locations@.len() && (#[trigger] r.planet_locations@[k2]).coords
                == c by {
            assert(cells@.contains(c));
            let i: int = choose|i: int| 0 <= i < cells@.len() && cells@[i] == c;
            assert(digests@[i].value < threshold.value);
            let j: int = choose|j: int| 0 <= j < gp.len() && (#[trigger] gp[j]).coords == cells@[i];
            assert(r.planet_locations@[j].coords == c);
        }
    }
    r
}

} // verus!
