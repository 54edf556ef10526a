use worldspace::common::EntityId;
use worldspace::stream::grid::{CellCoord, GridPartition};

fn cell_of(x: f32, z: f32, cell_size: f32) -> CellCoord {
    CellCoord::new((x / cell_size).floor() as i32, (z / cell_size).floor() as i32)
}

#[test]
fn rebuild_from_world() {
    // One entity at the origin, one at x = 20: cells (0,0) and (1,0).
    let placements =
        vec![(cell_of(0.0, 0.0, 16.0), EntityId(1)), (cell_of(20.0, 0.0, 16.0), EntityId(2))];

    let mut grid = GridPartition::new(16.0f32.to_bits());
    grid.rebuild(&placements);

    assert_eq!(grid.cell_count(), 2);
    assert_eq!(grid.total_placements(), 2);
}

#[test]
fn entities_in_cell() {
    let id = EntityId::new();
    let mut grid = GridPartition::new(16.0f32.to_bits());
    grid.rebuild(&[(cell_of(0.0, 0.0, 16.0), id)]);

    let entities = grid.entities_in_cell(CellCoord::new(0, 0));
    assert!(entities.contains(&id.0));
}

#[test]
fn entities_in_radius() {
    let id1 = EntityId::new();
    let id2 = EntityId::new();
    let mut grid = GridPartition::new(16.0f32.to_bits());
    grid.rebuild(&[(cell_of(0.0, 0.0, 16.0), id1), (cell_of(20.0, 0.0, 16.0), id2)]);

    let nearby = grid.entities_in_radius(CellCoord::new(0, 0), 1);
    assert!(nearby.contains(&id1.0));
    assert!(nearby.contains(&id2.0));

    let far = grid.entities_in_radius(CellCoord::new(10, 10), 0);
    assert!(far.is_empty());
}

#[test]
fn empty_cell_returns_empty_set() {
    let grid = GridPartition::new(16.0f32.to_bits());
    assert!(grid.entities_in_cell(CellCoord::new(99, 99)).is_empty());
}

#[test]
fn rebuild_replaces_what_was_there() {
    let mut grid = GridPartition::new(2.5f32.to_bits());
    grid.rebuild(&[(CellCoord::new(0, 0), EntityId(1)), (CellCoord::new(0, 0), EntityId(2))]);
    assert_eq!(grid.cell_count(), 1);
    assert_eq!(grid.total_placements(), 2);
    assert!(!grid.is_cell_empty(CellCoord::new(0, 0)));
    assert!(grid.is_cell_empty(CellCoord::new(0, 1)));

    // The same entity twice in one cell is one placement.
    grid.rebuild(&[
        (CellCoord::new(4, -4), EntityId(7)),
        (CellCoord::new(4, -4), EntityId(7)),
        (CellCoord::new(-1, 3), EntityId(7)),
    ]);
    assert_eq!(grid.cell_count(), 2);
    assert_eq!(grid.total_placements(), 2);
    assert!(grid.entities_in_cell(CellCoord::new(0, 0)).is_empty());
    assert_eq!(grid.cell_size(), 2.5f32.to_bits());

    grid.rebuild(&[]);
    assert_eq!(grid.cell_count(), 0);
    assert_eq!(grid.total_placements(), 0);
}

#[test]
fn radius_query_collects_every_cell_of_the_square() {
    let mut grid = GridPartition::new(1.0f32.to_bits());
    let mut placements = Vec::new();
    let mut next: u128 = 1;
    for x in -3..=3 {
        for z in -3..=3 {
            placements.push((CellCoord::new(x, z), EntityId(next)));
            next += 1;
        }
    }
    grid.rebuild(&placements);
    assert_eq!(grid.entities_in_radius(CellCoord::new(0, 0), 0).len(), 1);
    assert_eq!(grid.entities_in_radius(CellCoord::new(0, 0), 1).len(), 9);
    assert_eq!(grid.entities_in_radius(CellCoord::new(0, 0), 3).len(), 49);
    assert_eq!(grid.entities_in_radius(CellCoord::new(3, 3), 1).len(), 4);
    assert!(grid.entities_in_radius(CellCoord::new(0, 0), -1).is_empty());
}
