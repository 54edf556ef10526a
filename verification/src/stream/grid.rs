//! Fixed-size grid partition: which entities stand in which cell.

use vstd::prelude::*;
use std::collections::{BTreeMap, BTreeSet};
use vstd::std_specs::iter::IteratorSpec;
use vstd::std_specs::btree::spec_btree_keys_iter;
use crate::common::EntityId;

verus! {

/// A 2D cell coordinate in the world grid (the vertical axis is ignored).
#[derive(Clone, Copy, Debug, PartialEq, Eq, Hash, Structural)]
pub struct CellCoord {
    pub x: i32,
    pub z: i32,
}

impl CellCoord {
    /// The coordinate as the pair `(x, z)`, the form in which sets and maps of
    /// cells hold it.
    pub open spec fn spec_key(self) -> (i32, i32) {
        (self.x, self.z)
    }

    pub fn new(x: i32, z: i32) -> (c: CellCoord)
        ensures
            c == (CellCoord { x, z }),
    {
        CellCoord { x, z }
    }

    /// The coordinate as the pair `(x, z)`.
    pub fn key(self) -> (k: (i32, i32))
        ensures
            k == self.spec_key(),
    {
        (self.x, self.z)
    }
}

/// The cells within `radius` of `center` along both axes: a square of side
/// `2 * radius + 1`, empty if `radius` is negative.
pub open spec fn square(center: CellCoord, radius: i32) -> Set<(i32, i32)> {
    Set::new(
        |c: (i32, i32)|
            center.x - radius <= c.0 <= center.x + radius && center.z - radius <= c.1 <= center.z
                + radius,
    )
}

/// The square around `center` lies within the coordinate range.
pub open spec fn square_in_range(center: CellCoord, radius: i32) -> bool {
    radius >= 0 ==> i32::MIN <= center.x - radius && center.x + radius <= i32::MAX && i32::MIN
        <= center.z - radius && center.z + radius <= i32::MAX
}

/// Bit pattern of positive infinity, the largest binary32 value.
pub const F32_INFINITY_BITS: u32 = 0x7f80_0000;

/// The bit pattern is that of a binary32 value greater than zero: the sign
/// bit is clear, the value is not zero, and it is not a NaN.
pub open spec fn is_positive_f32(bits: u32) -> bool {
    0 < bits <= F32_INFINITY_BITS
}

/// A grid as contracts see it: the entities that stand in each occupied cell.
pub type Cells = Map<(i32, i32), Set<u128>>;

/// The entities in cell `k`: none if the cell is not occupied.
pub open spec fn occupants(cells: Cells, k: (i32, i32)) -> Set<u128> {
    if cells.contains_key(k) {
        cells[k]
    } else {
        Set::empty()
    }
}

/// Every placement of the grid, as a set of (cell, entity) pairs.
pub open spec fn placement_set(cells: Cells) -> Set<((i32, i32), u128)> {
    Set::new(|p: ((i32, i32), u128)| occupants(cells, p.0).contains(p.1))
}

/// The grid after placing entity `id` in cell `k`.
pub open spec fn place(cells: Cells, k: (i32, i32), id: u128) -> Cells {
    cells.insert(k, occupants(cells, k).insert(id))
}

/// The grid that holds the first `n` of the given placements.
pub open spec fn grid_of(placements: Seq<(CellCoord, EntityId)>, n: int) -> Cells
    decreases n,
{
    if n <= 0 {
        Map::empty()
    } else {
        place(
            grid_of(placements, n - 1),
            placements[n - 1].0.spec_key(),
            placements[n - 1].1.0,
        )
    }
}

/// The entities within `radius` cells of `center`.
pub open spec fn occupants_within(cells: Cells, center: CellCoord, radius: i32) -> Set<u128> {
    Set::new(
        |id: u128|
            exists|k: (i32, i32)| square(center, radius).contains(k) && #[trigger] occupants(
                cells,
                k,
            ).contains(id),
    )
}

/// The entities of the cells of the square that come before `(x, z)`, going
/// through the square column by column.
pub open spec fn occupants_before(
    cells: Cells,
    center: CellCoord,
    radius: i32,
    x: int,
    z: int,
) -> Set<u128> {
    Set::new(
        |id: u128|
            exists|k: (i32, i32)|
                square(center, radius).contains(k) && (k.0 < x || (k.0 == x && k.1 < z))
                    && #[trigger] occupants(cells, k).contains(id),
    )
}

/// The members of a set of entity identifiers, each once.
pub fn id_list(set: &BTreeSet<u128>) -> (list: Vec<u128>)
    ensures
        list@.no_duplicates(),
        list@.to_set() == set@,
        list@.len() == set@.len(),
{
    let mut list: Vec<u128> = Vec::new();
    for id in it: set.iter()
        invariant
            it.seq() == spec_btree_keys_iter(set).remaining(),
            list@.len() == it.index(),
            forall|j: int| 0 <= j < list@.len() ==> list@[j] == *it.seq()[j],
    {
        list.push(*id);
    }
    proof {
        let s = spec_btree_keys_iter(set).remaining();
        assert(list@ =~= s.unref());
    }
    list
}

/// Adds every member of `source` to `target`.
pub fn extend_ids(target: &mut BTreeSet<u128>, source: &BTreeSet<u128>)
    ensures
        final(target)@ == old(target)@.union(source@),
{
    let list = id_list(source);
    let mut i: usize = 0;
    while i < list.len()
        invariant
            0 <= i <= list@.len(),
            target@ == old(target)@.union(list@.take(i as int).to_set()),
        decreases list@.len() - i,
    {
        target.insert(list[i]);
        proof {
            let done = list@.take(i as int);
            let next = list@.take(i + 1);
            assert(next =~= done.push(list@[i as int]));
            assert forall|id: u128| next.to_set().contains(id) <==> (done.to_set().contains(id)
                || id == list@[i as int]) by {
                if next.to_set().contains(id) {
                    let j = choose|j: int| 0 <= j < next.len() && next[j] == id;
                    if j < i {
                        assert(done[j] == id);
                    }
                }
                if done.to_set().contains(id) {
                    let j = choose|j: int| 0 <= j < done.len() && done[j] == id;
                    assert(next[j] == id);
                }
                if id == list@[i as int] {
                    assert(next[i as int] == id);
                }
            }
            assert(target@ =~= old(target)@.union(next.to_set()));
        }
        i = i + 1;
    }
    proof {
        assert(list@.take(i as int) =~= list@);
    }
}

/// Fixed-size grid partitioning of the world.
///
/// Entities are assigned to cells by their position; cells can be queried by
/// coordinate or within a radius of a cell. The cell size is a binary32 value
/// held as its bit pattern.
#[derive(Debug)]
pub struct GridPartition {
    cell_size: u32,
    cells: BTreeMap<(i32, i32), BTreeSet<u128>>,
    placements: usize,
}

impl View for GridPartition {
    type V = Cells;

    closed spec fn view(&self) -> Cells {
        self.cells@.map_values(|s: BTreeSet<u128>| s@)
    }
}

impl GridPartition {
    #[verifier::type_invariant]
    spec fn well_formed(&self) -> bool {
        &&& forall|k: (i32, i32)| #[trigger]
            self.cells@.contains_key(k) ==> self.cells@[k]@.len() > 0 && self.cells@[k]@.finite()
        &&& placement_set(self@).finite()
        &&& self.placements == placement_set(self@).len()
    }

    /// The cell size that the grid was made with, as a bit pattern.
    pub closed spec fn spec_cell_size(&self) -> u32 {
        self.cell_size
    }

    /// Create a new grid partition with the given cell size, a binary32 value
    /// greater than zero.
    pub fn new(cell_size: u32) -> (grid: GridPartition)
        requires
            is_positive_f32(cell_size),
        ensures
            grid@ == Map::<(i32, i32), Set<u128>>::empty(),
            grid.spec_cell_size() == cell_size,
    {
        let cells: BTreeMap<(i32, i32), BTreeSet<u128>> = BTreeMap::new();
        proof {
            let shown = cells@.map_values(|s: BTreeSet<u128>| s@);
            assert(shown =~= Map::<(i32, i32), Set<u128>>::empty());
            assert(placement_set(shown) =~= Set::empty());
        }
        GridPartition { cell_size, cells, placements: 0 }
    }

    /// Cell size used for this partition.
    pub fn cell_size(&self) -> (size: u32)
        ensures
            size == self.spec_cell_size(),
    {
        self.cell_size
    }

    /// Rebuild the entire grid from the cell of every entity.
    pub fn rebuild(&mut self, placements: &[(CellCoord, EntityId)])
        ensures
            final(self)@ == grid_of(placements@, placements@.len() as int),
            final(self).spec_cell_size() == old(self).spec_cell_size(),
    {
        let mut cells: BTreeMap<(i32, i32), BTreeSet<u128>> = BTreeMap::new();
        let mut count: usize = 0;
        let mut i: usize = 0;
        let ghost mut shown: Cells = Map::empty();
        proof {
            assert(placement_set(shown) =~= Set::empty());
            assert(cells@.map_values(|s: BTreeSet<u128>| s@) =~= shown);
        }
        while i < placements.len()
            invariant
                0 <= i <= placements@.len(),
                shown == grid_of(placements@, i as int),
                cells@.map_values(|s: BTreeSet<u128>| s@) == shown,
                forall|k: (i32, i32)| #[trigger]
                    cells@.contains_key(k) ==> cells@[k]@.len() > 0 && cells@[k]@.finite(),
                placement_set(shown).finite(),
                count == placement_set(shown).len(),
                count <= i,
            decreases placements@.len() - i,
        {
            let k = placements[i].0.key();
            let id = placements[i].1.0;
            let mut set = match cells.remove(&k) {
                Some(s) => s,
                None => BTreeSet::new(),
            };
            assert(set@ == occupants(shown, k));
            let fresh = set.insert(id);
            cells.insert(k, set);
            proof {
                let next = place(shown, k, id);
                assert(cells@.map_values(|s: BTreeSet<u128>| s@) =~= next);
                assert(placement_set(next) =~= placement_set(shown).insert((k, id)));
                assert(fresh == !placement_set(shown).contains((k, id)));
                shown = next;
            }
            if fresh {
                count = count + 1;
            }
            i = i + 1;
        }
        *self = GridPartition { cell_size: self.cell_size, cells, placements: count };
    }

    /// Get all entity IDs in a specific cell.
    pub fn entities_in_cell(&self, coord: CellCoord) -> (ids: BTreeSet<u128>)
        ensures
            ids@ == occupants(self@, coord.spec_key()),
    {
        match self.cells.get(&coord.key()) {
            Some(set) => set.clone(),
            None => BTreeSet::new(),
        }
    }

    /// Get all entity IDs within a radius (in cells) of a center cell.
    pub fn entities_in_radius(&self, center: CellCoord, radius: i32) -> (ids: BTreeSet<u128>)
        requires
            square_in_range(center, radius),
        ensures
            ids@ == occupants_within(self@, center, radius),
    {
        let mut ids: BTreeSet<u128> = BTreeSet::new();
        if radius < 0 {
            assert(ids@ =~= occupants_within(self@, center, radius));
            return ids;
        }
        let x_lo: i32 = center.x - radius;
        let x_hi: i32 = center.x + radius;
        let z_lo: i32 = center.z - radius;
        let z_hi: i32 = center.z + radius;
        let mut x: i32 = x_lo;
        assert(ids@ =~= occupants_before(self@, center, radius, x_lo as int, z_lo as int));
        loop
            invariant_except_break
                ids@ == occupants_before(self@, center, radius, x as int, z_lo as int),
            invariant
                radius >= 0,
                x_lo == center.x - radius,
                x_hi == center.x + radius,
                z_lo == center.z - radius,
                z_hi == center.z + radius,
                x_lo <= x <= x_hi,
            ensures
                ids@ == occupants_within(self@, center, radius),
            decreases x_hi - x,
        {
            let mut z: i32 = z_lo;
            loop
                invariant_except_break
                    ids@ == occupants_before(self@, center, radius, x as int, z as int),
                invariant
                    radius >= 0,
                    x_lo == center.x - radius,
                    x_hi == center.x + radius,
                    z_lo == center.z - radius,
                    z_hi == center.z + radius,
                    x_lo <= x <= x_hi,
                    z_lo <= z <= z_hi,
                ensures
                    ids@ == occupants_before(self@, center, radius, x + 1, z_lo as int),
                decreases z_hi - z,
            {
                let ghost before = ids@;
                match self.cells.get(&(x, z)) {
                    Some(set) => {
                        extend_ids(&mut ids, set);
                    },
                    None => {},
                }
                proof {
                    assert(ids@ == before.union(occupants(self@, (x, z))));
                    assert(ids@ =~= occupants_before(self@, center, radius, x as int, z + 1));
                }
                if z == z_hi {
                    assert(occupants_before(self@, center, radius, x as int, z + 1)
                        =~= occupants_before(self@, center, radius, x + 1, z_lo as int));
                    break;
                }
                z = z + 1;
            }
            if x == x_hi {
                assert(occupants_before(self@, center, radius, x + 1, z_lo as int)
                    =~= occupants_within(self@, center, radius));
                break;
            }
            x = x + 1;
        }
        ids
    }

    /// Whether a cell holds no entity.
    pub fn is_cell_empty(&self, coord: CellCoord) -> (empty: bool)
        ensures
            empty == (occupants(self@, coord.spec_key()).len() == 0),
    {
        proof {
            use_type_invariant(self);
        }
        !self.cells.contains_key(&coord.key())
    }

    /// Number of non-empty cells.
    pub fn cell_count(&self) -> (n: usize)
        ensures
            n == self@.dom().len(),
            forall|k: (i32, i32)| self@.dom().contains(k) <==> occupants(self@, k).len() > 0,
    {
        proof {
            use_type_invariant(self);
            assert(self@.dom() =~= self.cells@.dom());
        }
        self.cells.len()
    }

    /// Total number of entity placements across all cells.
    pub fn total_placements(&self) -> (n: usize)
        ensures
            n == placement_set(self@).len(),
    {
        proof {
            use_type_invariant(self);
        }
        self.placements
    }
}

} // verus!
