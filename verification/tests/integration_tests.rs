//! Integration tests for gameplay scenarios: several rules run together.

use grid_tactics::TurnState;
use grid_tactics::components::{Faction, GridPosition};
use grid_tactics::resources::GridMap;
use grid_tactics::systems::GameWorld;

fn create_test_world() -> GameWorld {
    GameWorld::new(GridMap::default())
}

fn enter_enemy_turn(w: &mut GameWorld) {
    w.turn_state = TurnState::EnemyTurn;
    w.turn_manager.active_faction = Faction::Enemy;
}

/// A unit can only move once per turn.
#[test]
fn test_unit_cannot_move_twice_in_one_turn() {
    let mut w = create_test_world();
    let unit_id = w.add_unit(Faction::Player, GridPosition::new(5, 5)).unwrap();
    w.unit_selection_system(GridPosition::new(5, 5));

    // Verify initial position
    assert_eq!(w.units[0].pos, GridPosition::new(5, 5));

    // First move: to (5, 6)
    w.try_move(unit_id, GridPosition::new(5, 6)).unwrap();

    // Verify unit moved to (5, 6)
    assert_eq!(w.units[0].pos, GridPosition::new(5, 6));
    assert!(w.units[0].status.has_acted, "Unit should be marked as having acted");

    // Try to move again to (5, 7) - this must NOT work
    let second = w.try_move(unit_id, GridPosition::new(5, 7));
    assert!(second.is_err());

    assert!(w.units[0].status.has_acted, "Unit should still be marked as acted");
    assert_eq!(w.units[0].pos, GridPosition::new(5, 6));
}

/// Selection and the valid-move query work together.
#[test]
fn test_selection_updates_highlights() {
    let mut w = create_test_world();
    let _unit1 = w.add_unit(Faction::Player, GridPosition::new(2, 2)).unwrap();
    let _unit2 = w.add_unit(Faction::Player, GridPosition::new(5, 5)).unwrap();

    // Select first unit
    w.unit_selection_system(GridPosition::new(2, 2));
    let highlight_count_1 = w.highlight_movement_system().len();
    assert!(highlight_count_1 > 0, "Should have highlights after selecting unit1");

    // Now select second unit; highlights follow the new selection
    w.unit_selection_system(GridPosition::new(5, 5));
    let highlight_count_2 = w.highlight_movement_system().len();
    assert!(highlight_count_2 > 0, "Should have highlights after selecting unit2");
}

/// The turn passes to the enemy exactly when all player units have acted.
#[test]
fn test_turn_transition_after_all_units_move() {
    let mut w = create_test_world();

    // Verify starting in PlayerTurn
    assert_eq!(w.turn_state, TurnState::PlayerTurn);

    let _player1 = w.add_unit(Faction::Player, GridPosition::new(2, 2)).unwrap();
    let _player2 = w.add_unit(Faction::Player, GridPosition::new(3, 3)).unwrap();

    // No unit has acted: still PlayerTurn
    w.check_turn_end_system(16);
    assert_eq!(w.turn_state, TurnState::PlayerTurn);

    // Mark first unit as acted: still PlayerTurn (one unit hasn't acted)
    w.units[0].status.has_acted = true;
    w.check_turn_end_system(16);
    assert_eq!(w.turn_state, TurnState::PlayerTurn);

    // Mark second unit as acted: must transition to EnemyTurn
    w.units[1].status.has_acted = true;
    w.check_turn_end_system(16);
    assert_eq!(
        w.turn_state,
        TurnState::EnemyTurn,
        "Should transition to EnemyTurn after all player units acted"
    );
}

/// Enemy units move toward the nearest player unit.
#[test]
fn test_ai_moves_toward_player() {
    let mut w = create_test_world();
    enter_enemy_turn(&mut w);

    let _ai_unit = w.add_unit(Faction::Enemy, GridPosition::new(7, 7)).unwrap();
    let _player = w.add_unit(Faction::Player, GridPosition::new(2, 2)).unwrap();

    // Get initial distance
    let player_pos = GridPosition::new(2, 2);
    let initial_distance = w.units[0].pos.distance_to(&player_pos);

    // Run the enemy phase - AI should move
    w.ai_movement_system();

    // Verify AI moved closer
    let new_distance = w.units[0].pos.distance_to(&player_pos);
    assert!(
        new_distance < initial_distance,
        "AI should move closer to player. Was at distance {}, now at {}",
        initial_distance,
        new_distance
    );

    // Verify AI marked as acted
    assert!(w.units[0].status.has_acted, "AI unit should be marked as acted after moving");
}

/// Units cannot end a tick on the same tile.
#[test]
fn test_collision_prevents_movement() {
    let mut w = create_test_world();
    let _unit1 = w.add_unit(Faction::Player, GridPosition::new(5, 5)).unwrap();
    let _unit2 = w.add_unit(Faction::Player, GridPosition::new(5, 6)).unwrap();
    w.unit_selection_system(GridPosition::new(5, 5));

    // Verify initial positions
    assert_eq!(w.units[0].pos, GridPosition::new(5, 5));
    assert_eq!(w.units[1].pos, GridPosition::new(5, 6));

    // A click on the occupied neighbor is rejected by collision detection.
    w.tick(Some(GridPosition::new(5, 6)), 16);

    let pos1 = w.units[0].pos;
    let pos2 = w.units[1].pos;
    assert_ne!(pos1, pos2, "Units should not occupy the same tile");
}

/// The valid-move query only offers unoccupied tiles.
#[test]
fn test_highlights_exclude_occupied_tiles() {
    let mut w = create_test_world();
    let _player = w.add_unit(Faction::Player, GridPosition::new(5, 5)).unwrap();

    // Block three of the four adjacent tiles
    let _e1 = w.add_unit(Faction::Enemy, GridPosition::new(6, 5)).unwrap(); // Right
    let _e2 = w.add_unit(Faction::Enemy, GridPosition::new(5, 6)).unwrap(); // Up
    let _e3 = w.add_unit(Faction::Enemy, GridPosition::new(4, 5)).unwrap(); // Left

    // Only (5, 4) should be free
    w.unit_selection_system(GridPosition::new(5, 5));

    let highlights = w.highlight_movement_system();
    let highlight_count = highlights.len();
    assert_eq!(
        highlight_count, 1,
        "Should only highlight the one unoccupied adjacent tile, found {}",
        highlight_count
    );
    assert_eq!(highlights[0], GridPosition::new(5, 4));
}
