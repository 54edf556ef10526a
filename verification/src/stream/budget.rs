//! Cell streaming: which cells are loaded, and the per-frame budgets for
//! loading and unloading them.

use vstd::prelude::*;
use std::collections::BTreeSet;
use std::time::Instant;
use vstd::std_specs::iter::IteratorSpec;
use vstd::std_specs::btree::spec_btree_keys_iter;
use crate::stream::grid::{occupants, square, square_in_range, CellCoord, GridPartition};
use crate::stream::timer::FrameTime;

verus! {

/// `std::time::Instant`, a reading of the monotonic clock.
#[verifier::external_type_specification]
#[verifier::external_body]
pub struct ExInstant(Instant);

/// Reads the monotonic clock with `Instant::now`. Nothing is known of the
/// reading.
#[verifier::external_body]
fn clock_now() -> (start: Instant) {
    Instant::now()
}

/// The time that has passed since `start`, from `Instant::elapsed`, in
/// nanoseconds (`Duration::as_nanos`). Nothing is known of the amount.
#[verifier::external_body]
fn clock_elapsed(start: &Instant) -> (elapsed: FrameTime) {
    FrameTime { nanos: start.elapsed().as_nanos() }
}

/// Streaming configuration: controls active and preload radii plus per-frame
/// budgets.
#[derive(Clone, Copy, Debug)]
pub struct StreamConfig {
    /// Radius (in cells) around the viewer that is fully active.
    pub active_radius: i32,
    /// Radius (in cells) around the viewer that is preloaded.
    pub preload_radius: i32,
    /// Maximum number of cells to load per frame.
    pub load_budget: usize,
    /// Maximum number of cells to unload per frame.
    pub unload_budget: usize,
}

impl Default for StreamConfig {
    fn default() -> (config: StreamConfig)
        ensures
            config.active_radius == 2,
            config.preload_radius == 4,
            config.load_budget == 4,
            config.unload_budget == 4,
    {
        StreamConfig { active_radius: 2, preload_radius: 4, load_budget: 4, unload_budget: 4 }
    }
}

/// Per-frame streaming statistics for instrumentation.
#[derive(Clone, Copy, Debug)]
pub struct StreamStats {
    pub cells_loaded_this_frame: usize,
    pub cells_unloaded_this_frame: usize,
    pub total_loaded_cells: usize,
    pub frame_time: FrameTime,
}

impl Default for StreamStats {
    fn default() -> (stats: StreamStats)
        ensures
            stats.cells_loaded_this_frame == 0,
            stats.cells_unloaded_this_frame == 0,
            stats.total_loaded_cells == 0,
            stats.frame_time.nanos == 0,
    {
        StreamStats {
            cells_loaded_this_frame: 0,
            cells_unloaded_this_frame: 0,
            total_loaded_cells: 0,
            frame_time: FrameTime::zero(),
        }
    }
}

/// The cells of a list of coordinates, as pairs.
pub open spec fn keys_of(cells: Seq<CellCoord>) -> Seq<(i32, i32)> {
    cells.map_values(|c: CellCoord| c.spec_key())
}

/// The members of a set of cells, each once.
pub fn cell_list(set: &BTreeSet<(i32, i32)>) -> (list: Vec<(i32, i32)>)
    ensures
        list@.no_duplicates(),
        list@.to_set() == set@,
        list@.len() == set@.len(),
{
    let mut list: Vec<(i32, i32)> = Vec::new();
    for cell in it: set.iter()
        invariant
            it.seq() == spec_btree_keys_iter(set).remaining(),
            list@.len() == it.index(),
            forall|j: int| 0 <= j < list@.len() ==> list@[j] == *it.seq()[j],
    {
        list.push(*cell);
    }
    proof {
        let s = spec_btree_keys_iter(set).remaining();
        assert(list@ =~= s.unref());
    }
    list
}

/// The cells of the square that come before `(x, z)`, going through the
/// square column by column.
pub open spec fn square_before(center: CellCoord, radius: i32, x: int, z: int) -> Set<(i32, i32)> {
    Set::new(
        |c: (i32, i32)| square(center, radius).contains(c) && (c.0 < x || (c.0 == x && c.1 < z)),
    )
}

/// Compute all cells within a square radius of a center cell.
pub fn cells_in_radius(center: CellCoord, radius: i32) -> (cells: BTreeSet<(i32, i32)>)
    requires
        square_in_range(center, radius),
    ensures
        cells@ == square(center, radius),
{
    let mut cells: BTreeSet<(i32, i32)> = BTreeSet::new();
    if radius < 0 {
        assert(cells@ =~= square(center, radius));
        return cells;
    }
    let x_lo: i32 = center.x - radius;
    let x_hi: i32 = center.x + radius;
    let z_lo: i32 = center.z - radius;
    let z_hi: i32 = center.z + radius;
    let mut x: i32 = x_lo;
    assert(cells@ =~= square_before(center, radius, x_lo as int, z_lo as int));
    loop
        invariant_except_break
            cells@ == square_before(center, radius, x as int, z_lo as int),
        invariant
            radius >= 0,
            x_lo == center.x - radius,
            x_hi == center.x + radius,
            z_lo == center.z - radius,
            z_hi == center.z + radius,
            x_lo <= x <= x_hi,
        ensures
            cells@ == square(center, radius),
        decreases x_hi - x,
    {
        let mut z: i32 = z_lo;
        loop
            invariant_except_break
                cells@ == square_before(center, radius, x as int, z as int),
            invariant
                radius >= 0,
                x_lo == center.x - radius,
                x_hi == center.x + radius,
                z_lo == center.z - radius,
                z_hi == center.z + radius,
                x_lo <= x <= x_hi,
                z_lo <= z <= z_hi,
            ensures
                cells@ == square_before(center, radius, x + 1, z_lo as int),
            decreases z_hi - z,
        {
            cells.insert((x, z));
            assert(cells@ =~= square_before(center, radius, x as int, z + 1));
            if z == z_hi {
                assert(square_before(center, radius, x as int, z + 1) =~= square_before(
                    center,
                    radius,
                    x + 1,
                    z_lo as int,
                ));
                break;
            }
            z = z + 1;
        }
        if x == x_hi {
            assert(square_before(center, radius, x + 1, z_lo as int) =~= square(center, radius));
            break;
        }
        x = x + 1;
    }
    cells
}

/// `picked` is a choice of at most `budget` of the `candidates`: each picked
/// cell is a candidate, none is picked twice, and candidates are left out only
/// once the budget is used up.
pub open spec fn picks_within_budget(
    picked: Seq<(i32, i32)>,
    candidates: Set<(i32, i32)>,
    budget: usize,
) -> bool {
    &&& picked.no_duplicates()
    &&& picked.len() <= budget
    &&& forall|i: int| 0 <= i < picked.len() ==> candidates.contains(#[trigger] picked[i])
    &&& picked.len() < budget ==> forall|c: (i32, i32)|
        candidates.contains(c) ==> #[trigger] picked.contains(c)
}

/// The cells that a frame may load: wanted, not loaded yet, and not empty.
pub open spec fn load_candidates(
    loaded: Set<(i32, i32)>,
    wanted: Set<(i32, i32)>,
    grid: crate::stream::grid::Cells,
) -> Set<(i32, i32)> {
    Set::new(
        |c: (i32, i32)| wanted.contains(c) && !loaded.contains(c) && occupants(grid, c).len() > 0,
    )
}

/// The cells that a frame may unload: loaded and no longer wanted.
pub open spec fn unload_candidates(loaded: Set<(i32, i32)>, wanted: Set<(i32, i32)>) -> Set<
    (i32, i32),
> {
    loaded.difference(wanted)
}

/// The first `n + 1` cells of a list are its first `n` and the one after them.
pub proof fn lemma_take_step(list: Seq<(i32, i32)>, n: int)
    requires
        0 <= n < list.len(),
    ensures
        list.take(n + 1).to_set() == list.take(n).to_set().insert(list[n]),
{
    let next = list.take(n + 1);
    let done = list.take(n);
    assert forall|c: (i32, i32)| next.to_set().contains(c) <==> done.to_set().insert(
        list[n],
    ).contains(c) by {
        if next.to_set().contains(c) {
            let j = choose|j: int| 0 <= j < next.len() && next[j] == c;
            if j < n {
                assert(done[j] == c);
            }
        }
        if done.to_set().contains(c) {
            let j = choose|j: int| 0 <= j < done.len() && done[j] == c;
            assert(next[j] == c);
        }
        if c == list[n] {
            assert(next[n] == c);
        }
    }
    assert(next.to_set() =~= done.to_set().insert(list[n]));
}

/// Tracks which cells are currently loaded and manages load/unload budgets
/// per frame.
#[derive(Debug)]
pub struct StreamState {
    pub config: StreamConfig,
    loaded_cells: BTreeSet<(i32, i32)>,
    stats: StreamStats,
}

impl StreamState {
    /// The configuration in force.
    pub closed spec fn settings(&self) -> StreamConfig {
        self.config
    }

    /// The cells that are loaded.
    pub closed spec fn loaded(&self) -> Set<(i32, i32)> {
        self.loaded_cells@
    }

    /// The statistics of the last update.
    pub closed spec fn last_stats(&self) -> StreamStats {
        self.stats
    }

    pub fn new(config: StreamConfig) -> (state: StreamState)
        ensures
            state.settings() == config,
            state.loaded() == Set::<(i32, i32)>::empty(),
            state.last_stats().cells_loaded_this_frame == 0,
            state.last_stats().cells_unloaded_this_frame == 0,
            state.last_stats().total_loaded_cells == 0,
            state.last_stats().frame_time.nanos == 0,
    {
        StreamState { config, loaded_cells: BTreeSet::new(), stats: StreamStats::default() }
    }

    /// Update streaming state based on the viewer's current cell position.
    /// Returns the cells that were loaded and unloaded this frame.
    ///
    /// At most `load_budget` cells are loaded, chosen among the cells within
    /// the preload radius that are not loaded yet and hold an entity; at most
    /// `unload_budget` cells are unloaded, chosen among the loaded cells
    /// outside the preload radius. Which cells are chosen when a budget does
    /// not cover all candidates is not fixed.
    pub fn update(&mut self, viewer_cell: CellCoord, grid: &GridPartition) -> (moved: (
        Vec<CellCoord>,
        Vec<CellCoord>,
    ))
        requires
            square_in_range(viewer_cell, old(self).settings().preload_radius),
        ensures
            final(self).settings() == old(self).settings(),
            picks_within_budget(
                keys_of(moved.0@),
                load_candidates(
                    old(self).loaded(),
                    square(viewer_cell, old(self).settings().preload_radius),
                    grid@,
                ),
                old(self).settings().load_budget,
            ),
            picks_within_budget(
                keys_of(moved.1@),
                unload_candidates(
                    old(self).loaded(),
                    square(viewer_cell, old(self).settings().preload_radius),
                ),
                old(self).settings().unload_budget,
            ),
            final(self).loaded() == old(self).loaded().union(
                keys_of(moved.0@).to_set(),
            ).difference(keys_of(moved.1@).to_set()),
            final(self).last_stats().cells_loaded_this_frame == moved.0@.len(),
            final(self).last_stats().cells_unloaded_this_frame == moved.1@.len(),
            final(self).last_stats().total_loaded_cells == final(self).loaded().len(),
    {
        let frame_start = clock_now();
        let desired = cells_in_radius(viewer_cell, self.config.preload_radius);
        let ghost wanted = square(viewer_cell, self.config.preload_radius);
        let ghost was_loaded = self.loaded();
        let ghost may_load = load_candidates(was_loaded, wanted, grid@);
        let ghost may_unload = unload_candidates(was_loaded, wanted);

        let wanted_list = cell_list(&desired);
        let mut to_load: Vec<CellCoord> = Vec::new();
        let mut i: usize = 0;
        while i < wanted_list.len() && to_load.len() < self.config.load_budget
            invariant
                0 <= i <= wanted_list@.len(),
                wanted_list@.no_duplicates(),
                wanted_list@.to_set() == wanted,
                self.loaded() == was_loaded,
                self.settings() == old(self).settings(),
                may_load == load_candidates(was_loaded, wanted, grid@),
                keys_of(to_load@).no_duplicates(),
                to_load@.len() <= self.settings().load_budget,
                forall|j: int|
                    0 <= j < to_load@.len() ==> may_load.contains(#[trigger] keys_of(to_load@)[j])
                        && exists|p: int| 0 <= p < i && wanted_list@[p] == keys_of(to_load@)[j],
                forall|p: int|
                    0 <= p < i && may_load.contains(#[trigger] wanted_list@[p]) ==> keys_of(
                        to_load@,
                    ).contains(wanted_list@[p]),
            decreases wanted_list@.len() - i,
        {
            let cell = wanted_list[i];
            let coord = CellCoord::new(cell.0, cell.1);
            let ghost before = keys_of(to_load@);
            assert(wanted_list@.to_set().contains(cell));
            if !self.loaded_cells.contains(&cell) && !grid.is_cell_empty(coord) {
                to_load.push(coord);
                proof {
                    let after = keys_of(to_load@);
                    assert(after =~= before.push(cell));
                    assert(may_load.contains(cell));
                    assert(!before.contains(cell)) by {
                        if before.contains(cell) {
                            let j = choose|j: int| 0 <= j < before.len() && before[j] == cell;
                            let p = choose|p: int| 0 <= p < i && wanted_list@[p] == before[j];
                            assert(wanted_list@[p] == wanted_list@[i as int]);
                        }
                    }
                    assert forall|p: int|
                        0 <= p < i + 1 && may_load.contains(
                            #[trigger] wanted_list@[p],
                        ) implies after.contains(wanted_list@[p]) by {
                        if p < i {
                            let j = choose|j: int|
                                0 <= j < before.len() && before[j] == wanted_list@[p];
                            assert(after[j] == wanted_list@[p]);
                        } else {
                            assert(after[before.len() as int] == cell);
                        }
                    }
                }
            }
            i = i + 1;
        }
        proof {
            let picked = keys_of(to_load@);
            if picked.len() < self.settings().load_budget {
                assert forall|c: (i32, i32)| may_load.contains(c) implies #[trigger] picked.contains(
                    c,
                ) by {
                    assert(wanted_list@.to_set().contains(c));
                    let p = choose|p: int| 0 <= p < wanted_list@.len() && wanted_list@[p] == c;
                    assert(may_load.contains(wanted_list@[p]));
                }
            }
        }

        let loaded_list = cell_list(&self.loaded_cells);
        let mut to_unload: Vec<CellCoord> = Vec::new();
        let mut k: usize = 0;
        while k < loaded_list.len() && to_unload.len() < self.config.unload_budget
            invariant
                0 <= k <= loaded_list@.len(),
                loaded_list@.no_duplicates(),
                loaded_list@.to_set() == was_loaded,
                desired@ == wanted,
                self.loaded() == was_loaded,
                self.settings() == old(self).settings(),
                may_unload == unload_candidates(was_loaded, wanted),
                keys_of(to_unload@).no_duplicates(),
                to_unload@.len() <= self.settings().unload_budget,
                forall|j: int|
                    0 <= j < to_unload@.len() ==> may_unload.contains(
                        #[trigger] keys_of(to_unload@)[j],
                    ) && exists|p: int| 0 <= p < k && loaded_list@[p] == keys_of(to_unload@)[j],
                forall|p: int|
                    0 <= p < k && may_unload.contains(#[trigger] loaded_list@[p]) ==> keys_of(
                        to_unload@,
                    ).contains(loaded_list@[p]),
            decreases loaded_list@.len() - k,
        {
            let cell = loaded_list[k];
            let ghost before = keys_of(to_unload@);
            assert(loaded_list@.to_set().contains(cell));
            if !desired.contains(&cell) {
                to_unload.push(CellCoord::new(cell.0, cell.1));
                proof {
                    let after = keys_of(to_unload@);
                    assert(after =~= before.push(cell));
                    assert(may_unload.contains(cell));
                    assert(!before.contains(cell)) by {
                        if before.contains(cell) {
                            let j = choose|j: int| 0 <= j < before.len() && before[j] == cell;
                            let p = choose|p: int| 0 <= p < k && loaded_list@[p] == before[j];
                            assert(loaded_list@[p] == loaded_list@[k as int]);
                        }
                    }
                    assert forall|p: int|
                        0 <= p < k + 1 && may_unload.contains(
                            #[trigger] loaded_list@[p],
                        ) implies after.contains(loaded_list@[p]) by {
                        if p < k {
                            let j = choose|j: int|
                                0 <= j < before.len() && before[j] == loaded_list@[p];
                            assert(after[j] == loaded_list@[p]);
                        } else {
                            assert(after[before.len() as int] == cell);
                        }
                    }
                }
            }
            k = k + 1;
        }
        proof {
            let picked = keys_of(to_unload@);
            if picked.len() < self.settings().unload_budget {
                assert forall|c: (i32, i32)|
                    may_unload.contains(c) implies #[trigger] picked.contains(c) by {
                    assert(loaded_list@.to_set().contains(c));
                    let p = choose|p: int| 0 <= p < loaded_list@.len() && loaded_list@[p] == c;
                    assert(may_unload.contains(loaded_list@[p]));
                }
            }
        }

        let ghost load_keys = keys_of(to_load@);
        let ghost unload_keys = keys_of(to_unload@);
        let mut a: usize = 0;
        while a < to_load.len()
            invariant
                0 <= a <= to_load@.len(),
                load_keys == keys_of(to_load@),
                self.settings() == old(self).settings(),
                self.last_stats() == old(self).last_stats(),
                self.loaded() == was_loaded.union(load_keys.take(a as int).to_set()),
            decreases to_load@.len() - a,
        {
            proof {
                lemma_take_step(load_keys, a as int);
            }
            self.loaded_cells.insert(to_load[a].key());
            assert(self.loaded() =~= was_loaded.union(load_keys.take(a + 1).to_set()));
            a = a + 1;
        }
        assert(load_keys.take(a as int) =~= load_keys);
        let ghost grown = self.loaded();
        let mut b: usize = 0;
        while b < to_unload.len()
            invariant
                0 <= b <= to_unload@.len(),
                unload_keys == keys_of(to_unload@),
                self.settings() == old(self).settings(),
                self.loaded() == grown.difference(unload_keys.take(b as int).to_set()),
            decreases to_unload@.len() - b,
        {
            proof {
                lemma_take_step(unload_keys, b as int);
            }
            self.loaded_cells.remove(&to_unload[b].key());
            assert(self.loaded() =~= grown.difference(unload_keys.take(b + 1).to_set()));
            b = b + 1;
        }
        assert(unload_keys.take(b as int) =~= unload_keys);

        self.stats = StreamStats {
            cells_loaded_this_frame: to_load.len(),
            cells_unloaded_this_frame: to_unload.len(),
            total_loaded_cells: self.loaded_cells.len(),
            frame_time: clock_elapsed(&frame_start),
        };
        (to_load, to_unload)
    }

    /// Get the set of currently active cells (within active_radius of the
    /// viewer).
    pub fn active_cells(&self, viewer_cell: CellCoord) -> (active: BTreeSet<(i32, i32)>)
        requires
            square_in_range(viewer_cell, self.settings().active_radius),
        ensures
            active@ == self.loaded().intersect(square(viewer_cell, self.settings().active_radius)),
    {
        let wanted = cells_in_radius(viewer_cell, self.config.active_radius);
        let list = cell_list(&self.loaded_cells);
        let mut active: BTreeSet<(i32, i32)> = BTreeSet::new();
        let mut i: usize = 0;
        while i < list.len()
            invariant
                0 <= i <= list@.len(),
                list@.to_set() == self.loaded(),
                wanted@ == square(viewer_cell, self.config.active_radius),
                forall|c: (i32, i32)|
                    active@.contains(c) <==> wanted@.contains(c) && exists|j: int|
                        0 <= j < i && #[trigger] list@[j] == c,
            decreases list@.len() - i,
        {
            if wanted.contains(&list[i]) {
                active.insert(list[i]);
            }
            i = i + 1;
        }
        proof {
            assert forall|c: (i32, i32)| active@.contains(c) <==> self.loaded().intersect(
                wanted@,
            ).contains(c) by {
                if self.loaded().contains(c) {
                    assert(list@.to_set().contains(c));
                    let j = choose|j: int| 0 <= j < list@.len() && list@[j] == c;
                    assert(list@[j] == c);
                }
                if active@.contains(c) {
                    let j = choose|j: int| 0 <= j < i && #[trigger] list@[j] == c;
                    assert(list@.contains(c));
                }
            }
            assert(active@ =~= self.loaded().intersect(wanted@));
        }
        active
    }

    /// Get all currently loaded cells.
    pub fn loaded_cells(&self) -> (cells: &BTreeSet<(i32, i32)>)
        ensures
            cells@ == self.loaded(),
    {
        &self.loaded_cells
    }

    /// Get statistics from the last update.
    pub fn stats(&self) -> (stats: &StreamStats)
        ensures
            *stats == self.last_stats(),
    {
        &self.stats
    }

    /// Check if a cell is currently loaded.
    pub fn is_loaded(&self, coord: CellCoord) -> (loaded: bool)
        ensures
            loaded == self.loaded().contains(coord.spec_key()),
    {
        self.loaded_cells.contains(&coord.key())
    }
}

} // verus!
