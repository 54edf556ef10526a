use worldspace::common::EntityId;
use worldspace::stream::budget::{cells_in_radius, StreamConfig, StreamState};
use worldspace::stream::grid::{CellCoord, GridPartition};
use worldspace::stream::timer::{FrameTime, FrameTimer};

/// The cell of each of `count` entities placed `spacing` apart along the x
/// axis, for cells of size 16.
fn line_of_entities(count: usize, spacing: f32) -> Vec<(CellCoord, EntityId)> {
    let mut placements = Vec::new();
    for i in 0..count {
        let x = i as f32 * spacing;
        let cell = CellCoord::new((x / 16.0).floor() as i32, (0.0f32 / 16.0).floor() as i32);
        placements.push((cell, EntityId(i as u128 + 1)));
    }
    placements
}

fn grid_with_entities(count: usize, spacing: f32) -> GridPartition {
    let mut grid = GridPartition::new(16.0f32.to_bits());
    grid.rebuild(&line_of_entities(count, spacing));
    grid
}

#[test]
fn stream_config_defaults() {
    let config = StreamConfig::default();
    assert_eq!(config.active_radius, 2);
    assert_eq!(config.preload_radius, 4);
    assert_eq!(config.load_budget, 4);
    assert_eq!(config.unload_budget, 4);
}

#[test]
fn stream_loads_cells_within_budget() {
    let grid = grid_with_entities(20, 8.0);

    let config =
        StreamConfig { active_radius: 1, preload_radius: 2, load_budget: 2, unload_budget: 2 };
    let mut state = StreamState::new(config);

    let viewer = CellCoord::new(0, 0);
    let (loaded, _unloaded) = state.update(viewer, &grid);

    // Should respect load budget of 2
    assert!(loaded.len() <= 2);
    assert_eq!(state.stats().cells_loaded_this_frame, loaded.len());
}

#[test]
fn stream_unloads_when_viewer_moves() {
    let grid = grid_with_entities(20, 8.0);

    let config =
        StreamConfig { active_radius: 1, preload_radius: 1, load_budget: 100, unload_budget: 100 };
    let mut state = StreamState::new(config);

    // Load around origin
    state.update(CellCoord::new(0, 0), &grid);
    let loaded_at_origin = state.loaded_cells().len();
    assert!(loaded_at_origin > 0);

    // Move far away - cells at origin should unload
    let (_loaded, unloaded) = state.update(CellCoord::new(100, 100), &grid);
    assert!(!unloaded.is_empty() || state.loaded_cells().is_empty());
}

#[test]
fn active_cells_subset_of_loaded() {
    let grid = grid_with_entities(10, 8.0);

    let config =
        StreamConfig { active_radius: 1, preload_radius: 3, load_budget: 100, unload_budget: 100 };
    let mut state = StreamState::new(config);

    let viewer = CellCoord::new(0, 0);
    state.update(viewer, &grid);

    let active = state.active_cells(viewer);
    for cell in &active {
        assert!(state.is_loaded(CellCoord::new(cell.0, cell.1)));
    }
}

#[test]
fn frame_timer_tracks_history() {
    let mut timer = FrameTimer::new(3);
    timer.record(FrameTime::from_millis(10));
    timer.record(FrameTime::from_millis(20));
    timer.record(FrameTime::from_millis(30));

    assert_eq!(timer.count(), 3);
    assert_eq!(timer.average(), FrameTime::from_millis(20));
    assert_eq!(timer.max(), FrameTime::from_millis(30));
    assert_eq!(timer.min(), FrameTime::from_millis(10));
}

#[test]
fn frame_timer_wraps_around() {
    let mut timer = FrameTimer::new(2);
    timer.record(FrameTime::from_millis(10));
    timer.record(FrameTime::from_millis(20));
    timer.record(FrameTime::from_millis(30)); // overwrites first

    assert_eq!(timer.count(), 2);
    // Should contain 20 and 30
    assert_eq!(timer.average(), FrameTime::from_millis(25));
}

#[test]
fn frame_timer_without_samples_reports_zero() {
    let timer = FrameTimer::new(4);
    assert_eq!(timer.count(), 0);
    assert_eq!(timer.average(), FrameTime::zero());
    assert_eq!(timer.max(), FrameTime::zero());
    assert_eq!(timer.min(), FrameTime::zero());
    let none = FrameTimer::new(0);
    assert_eq!(none.count(), 0);
    assert_eq!(none.average(), FrameTime::zero());
}

#[test]
fn frame_timer_average_rounds_down() {
    let mut timer = FrameTimer::new(3);
    timer.record(FrameTime::from_nanos(1));
    timer.record(FrameTime::from_nanos(1));
    assert_eq!(timer.count(), 2);
    assert_eq!(timer.average().as_nanos(), 1);
    timer.record(FrameTime::from_nanos(3));
    // (1 + 1 + 3) / 3, rounded down
    assert_eq!(timer.average().as_nanos(), 1);
    assert_eq!(timer.max().as_nanos(), 3);
    assert_eq!(timer.min().as_nanos(), 1);
    // The fourth sample overwrites the first slot.
    timer.record(FrameTime::from_nanos(10));
    assert_eq!(timer.count(), 3);
    assert_eq!(timer.average().as_nanos(), 4);
    assert_eq!(timer.min().as_nanos(), 1);
    assert_eq!(timer.max().as_nanos(), 10);
}

#[test]
fn frame_time_units() {
    assert_eq!(FrameTime::from_millis(20).as_nanos(), 20_000_000);
    assert_eq!(FrameTime::from_millis(u64::MAX).as_nanos(), u64::MAX as u128 * 1_000_000);
    assert_eq!(FrameTime::zero(), FrameTime::from_nanos(0));
}

#[test]
fn cells_in_radius_is_a_square() {
    let cells = cells_in_radius(CellCoord::new(3, -2), 1);
    assert_eq!(cells.len(), 9);
    for x in 2..=4 {
        for z in -3..=-1 {
            assert!(cells.contains(&(x, z)));
        }
    }
    assert_eq!(cells_in_radius(CellCoord::new(0, 0), 0).len(), 1);
    assert!(cells_in_radius(CellCoord::new(0, 0), -1).is_empty());
    assert_eq!(cells_in_radius(CellCoord::new(i32::MAX - 2, i32::MIN + 2), 2).len(), 25);
}

#[test]
fn update_loads_only_occupied_cells_and_counts_them() {
    // Entities in cells (0,0), (1,0) and (5,0).
    let mut grid = GridPartition::new(16.0f32.to_bits());
    grid.rebuild(&[
        (CellCoord::new(0, 0), EntityId(1)),
        (CellCoord::new(1, 0), EntityId(2)),
        (CellCoord::new(5, 0), EntityId(3)),
    ]);
    let config =
        StreamConfig { active_radius: 0, preload_radius: 1, load_budget: 10, unload_budget: 10 };
    let mut state = StreamState::new(config);
    let (loaded, unloaded) = state.update(CellCoord::new(0, 0), &grid);
    let mut keys: Vec<(i32, i32)> = loaded.iter().map(|c| (c.x, c.z)).collect();
    keys.sort();
    assert_eq!(keys, vec![(0, 0), (1, 0)]);
    assert!(unloaded.is_empty());
    assert!(state.is_loaded(CellCoord::new(0, 0)));
    assert!(state.is_loaded(CellCoord::new(1, 0)));
    assert!(!state.is_loaded(CellCoord::new(5, 0)));
    assert_eq!(state.stats().total_loaded_cells, 2);
    assert_eq!(state.stats().cells_unloaded_this_frame, 0);

    // Nothing new to load on a second update from the same cell.
    let (loaded, unloaded) = state.update(CellCoord::new(0, 0), &grid);
    assert!(loaded.is_empty() && unloaded.is_empty());

    // The viewer moves to (5,0): both old cells leave, the new one comes.
    let (loaded, unloaded) = state.update(CellCoord::new(5, 0), &grid);
    assert_eq!(loaded, vec![CellCoord::new(5, 0)]);
    assert_eq!(unloaded.len(), 2);
    assert_eq!(state.stats().total_loaded_cells, 1);
    let active = state.active_cells(CellCoord::new(5, 0));
    assert_eq!(active.len(), 1);
    assert!(active.contains(&(5, 0)));
}

#[test]
fn update_respects_the_unload_budget() {
    let mut grid = GridPartition::new(16.0f32.to_bits());
    grid.rebuild(&line_of_entities(8, 16.0));
    let config =
        StreamConfig { active_radius: 0, preload_radius: 8, load_budget: 100, unload_budget: 3 };
    let mut state = StreamState::new(config);
    state.update(CellCoord::new(0, 0), &grid);
    assert_eq!(state.loaded_cells().len(), 8);
    let (_loaded, unloaded) = state.update(CellCoord::new(1000, 1000), &grid);
    assert_eq!(unloaded.len(), 3);
    assert_eq!(state.loaded_cells().len(), 5);
    assert_eq!(state.stats().cells_unloaded_this_frame, 3);
}
