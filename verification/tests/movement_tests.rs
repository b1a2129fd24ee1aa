//! Unit tests for movement rules and the grid model.

use grid_tactics::components::{Faction, GridPosition};
use grid_tactics::resources::{GridMap, WorldPos};
use grid_tactics::systems::{GameWorld, MoveError};

fn world_10x10() -> GameWorld {
    GameWorld::new(GridMap::new(10, 10, 64))
}

/// Player units cannot move onto tiles occupied by other units.
#[test]
fn test_player_collision_detection() {
    let mut w = world_10x10();
    let player1 = w.add_unit(Faction::Player, GridPosition::new(2, 2)).unwrap();
    let _player2 = w.add_unit(Faction::Player, GridPosition::new(2, 3)).unwrap();
    w.unit_selection_system(GridPosition::new(2, 2));

    // Verify initial positions
    assert_eq!(w.units[0].pos, GridPosition::new(2, 2));
    assert_eq!(w.units[1].pos, GridPosition::new(2, 3));

    // Try to move player1 to (2,3) where player2 is located:
    // collision detection must prevent this.
    let r = w.try_move(player1, GridPosition::new(2, 3));
    assert!(matches!(r, Err(MoveError::TileOccupied)));

    // Verify positions haven't changed (movement blocked by collision)
    assert_eq!(w.units[0].pos, GridPosition::new(2, 2));
    assert_eq!(w.units[1].pos, GridPosition::new(2, 3));
}

/// Enemy units cannot move onto tiles occupied by other units.
#[test]
fn test_ai_collision_detection() {
    let mut w = world_10x10();
    w.turn_state = grid_tactics::TurnState::EnemyTurn;
    w.turn_manager.active_faction = Faction::Enemy;
    let _ai_unit = w.add_unit(Faction::Enemy, GridPosition::new(5, 5)).unwrap();
    let _player_unit = w.add_unit(Faction::Player, GridPosition::new(4, 5)).unwrap();

    let ai_pos = w.units[0].pos;
    let player_pos = w.units[1].pos;
    assert_eq!(ai_pos, GridPosition::new(5, 5));
    assert_eq!(player_pos, GridPosition::new(4, 5));

    // They should be adjacent
    assert_eq!(ai_pos.distance_to(&player_pos), 1);

    // The tile the enemy would like is occupied by the player unit.
    let target = GridPosition::new(4, 5);
    let is_occupied = w.units.iter().any(|u| u.pos == target);
    assert!(is_occupied, "Target position should be occupied by player unit");

    // The enemy acts but may not collide: positions remain distinct.
    w.ai_movement_system();
    assert_ne!(w.units[0].pos, w.units[1].pos);
}

/// Units can move to empty adjacent tiles.
#[test]
fn test_valid_movement() {
    let mut w = world_10x10();
    let unit = w.add_unit(Faction::Player, GridPosition::new(5, 5)).unwrap();
    w.unit_selection_system(GridPosition::new(5, 5));

    w.try_move(unit, GridPosition::new(5, 6)).unwrap();

    assert_eq!(w.units[0].pos, GridPosition::new(5, 6));
}

/// `adjacent` returns the correct neighbors.
#[test]
fn test_grid_position_adjacent() {
    let pos = GridPosition::new(5, 5);
    let adjacent = pos.adjacent();

    assert_eq!(adjacent.len(), 4);
    assert!(adjacent.contains(&GridPosition::new(6, 5))); // right
    assert!(adjacent.contains(&GridPosition::new(4, 5))); // left
    assert!(adjacent.contains(&GridPosition::new(5, 6))); // up
    assert!(adjacent.contains(&GridPosition::new(5, 4))); // down
}

/// `distance_to` calculates Manhattan distance correctly.
#[test]
fn test_manhattan_distance() {
    let pos1 = GridPosition::new(2, 2);
    let pos2 = GridPosition::new(5, 6);

    // Manhattan distance = |5-2| + |6-2| = 3 + 4 = 7
    assert_eq!(pos1.distance_to(&pos2), 7);

    // Distance should be symmetric
    assert_eq!(pos2.distance_to(&pos1), 7);

    // Distance to self should be 0
    assert_eq!(pos1.distance_to(&pos1), 0);
}

/// Grid and world coordinates round-trip.
#[test]
fn test_grid_world_conversion() {
    let grid_map = GridMap::default();
    let grid_pos = GridPosition::new(5, 5);

    // Convert to world and back
    let world_pos = grid_map.grid_to_world(&grid_pos);
    let back_to_grid = grid_map.world_to_grid(world_pos);

    // Should round-trip correctly
    assert_eq!(back_to_grid, grid_pos);
}

/// Bounds checking of the standard board.
#[test]
fn test_grid_bounds() {
    let grid_map = GridMap::default();

    // Valid positions
    assert!(grid_map.is_in_bounds(&GridPosition::new(0, 0)));
    assert!(grid_map.is_in_bounds(&GridPosition::new(9, 9)));
    assert!(grid_map.is_in_bounds(&GridPosition::new(5, 5)));

    // Invalid positions (out of bounds of the 10 by 10 board)
    assert!(!grid_map.is_in_bounds(&GridPosition::new(-1, 0)));
    assert!(!grid_map.is_in_bounds(&GridPosition::new(0, -1)));
    assert!(!grid_map.is_in_bounds(&GridPosition::new(10, 0)));
    assert!(!grid_map.is_in_bounds(&GridPosition::new(0, 10)));
}

/// The exact world coordinates of a tile center on the standard board.
#[test]
fn test_grid_to_world_center() {
    let grid_map = GridMap::default();
    let w = grid_map.grid_to_world(&GridPosition::new(5, 5));
    assert_eq!(w, WorldPos { x: 352, y: 352 });
    assert_eq!(grid_map.world_to_grid(WorldPos { x: 352, y: 352 }), GridPosition::new(5, 5));
}

/// The round trip holds for every in-bounds position of the standard board.
#[test]
fn test_round_trip_all_positions() {
    let grid_map = GridMap::default();
    for x in 0..10 {
        for y in 0..10 {
            let p = GridPosition::new(x, y);
            assert_eq!(grid_map.world_to_grid(grid_map.grid_to_world(&p)), p);
        }
    }
}
