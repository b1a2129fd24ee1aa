//! Tests of the stated properties on concrete values: one scenario per rule,
//! one input per error, and exact expected values for the formulas.

use grid_tactics::TurnState;
use grid_tactics::components::{
    Faction, GridPosition, Stats, Tile, TileType, TurnStatus,
};
use grid_tactics::resources::{
    EnemyTurnTimer, GridMap, SelectionState, TurnManager, WorldPos,
};
use grid_tactics::systems::{GameWorld, MoveError, setup_grid};

fn world_10x10() -> GameWorld {
    GameWorld::new(GridMap::new(10, 10, 64))
}

fn enter_enemy_turn(w: &mut GameWorld) {
    w.turn_state = TurnState::EnemyTurn;
    w.turn_manager.active_faction = Faction::Enemy;
}

/// The four neighbors come in the fixed order right, left, up, down, also
/// for positions whose neighbors leave the board.
#[test]
fn adjacent_exact_order() {
    let adj = GridPosition::new(0, 0).adjacent();
    assert_eq!(
        adj,
        vec![
            GridPosition::new(1, 0),
            GridPosition::new(-1, 0),
            GridPosition::new(0, 1),
            GridPosition::new(0, -1),
        ]
    );
}

/// Manhattan distance with negative coordinates, and symmetry there.
#[test]
fn manhattan_with_negative_coordinates() {
    let a = GridPosition::new(-3, 4);
    let b = GridPosition::new(2, -1);
    assert_eq!(a.distance_to(&b), 10);
    assert_eq!(b.distance_to(&a), 10);
}

/// Exact centers of the corner tiles on the standard board.
#[test]
fn grid_to_world_corners() {
    let m = GridMap::default();
    assert_eq!(m.grid_to_world(&GridPosition::new(0, 0)), WorldPos { x: 32, y: 32 });
    assert_eq!(m.grid_to_world(&GridPosition::new(9, 9)), WorldPos { x: 608, y: 608 });
}

/// World coordinates anywhere within a tile map to that tile, and negative
/// world coordinates floor toward the lower tile.
#[test]
fn world_to_grid_floors() {
    let m = GridMap::default();
    assert_eq!(m.world_to_grid(WorldPos { x: 0, y: 0 }), GridPosition::new(0, 0));
    assert_eq!(m.world_to_grid(WorldPos { x: 63, y: 63 }), GridPosition::new(0, 0));
    assert_eq!(m.world_to_grid(WorldPos { x: 64, y: 127 }), GridPosition::new(1, 1));
    assert_eq!(m.world_to_grid(WorldPos { x: -1, y: -65 }), GridPosition::new(-1, -2));
}

/// A selected unit with all four neighbors free moves once, is then spent,
/// and a second request in the same phase is rejected without effect.
#[test]
fn move_once_then_rejected() {
    let mut w = world_10x10();
    let id = w.add_unit(Faction::Player, GridPosition::new(5, 5)).unwrap();
    w.unit_selection_system(GridPosition::new(5, 5));

    assert_eq!(w.try_move(id, GridPosition::new(5, 6)), Ok(()));
    assert!(w.units[0].status.has_acted);
    assert_eq!(w.try_move(id, GridPosition::new(5, 7)), Err(MoveError::AlreadyActed));
    assert_eq!(w.units[0].pos, GridPosition::new(5, 6));
}

/// Each rejection reason comes exactly on its own input.
#[test]
fn move_error_variants() {
    let mut w = world_10x10();
    let id = w.add_unit(Faction::Player, GridPosition::new(0, 0)).unwrap();
    let other = w.add_unit(Faction::Player, GridPosition::new(0, 1)).unwrap();

    // Nothing selected yet
    assert_eq!(w.try_move(id, GridPosition::new(1, 0)), Err(MoveError::NoSelection));

    w.unit_selection_system(GridPosition::new(0, 0));

    // A unit that is not the selection is rejected the same way
    assert_eq!(w.try_move(other, GridPosition::new(1, 1)), Err(MoveError::NoSelection));

    // Not adjacent (diagonal)
    assert_eq!(w.try_move(id, GridPosition::new(1, 1)), Err(MoveError::InvalidTarget));

    // Adjacent but off the board
    assert_eq!(w.try_move(id, GridPosition::new(-1, 0)), Err(MoveError::OutOfBounds));

    // Adjacent but occupied
    assert_eq!(w.try_move(id, GridPosition::new(0, 1)), Err(MoveError::TileOccupied));

    // Nothing changed along the way
    assert_eq!(w.units[0].pos, GridPosition::new(0, 0));
    assert!(!w.units[0].status.has_acted);
}

/// Placement is refused off the board and on taken tiles.
#[test]
fn add_unit_rejections() {
    let mut w = world_10x10();
    w.add_unit(Faction::Player, GridPosition::new(4, 4)).unwrap();
    assert_eq!(
        w.add_unit(Faction::Enemy, GridPosition::new(4, 4)),
        Err(MoveError::TileOccupied)
    );
    assert_eq!(
        w.add_unit(Faction::Enemy, GridPosition::new(10, 4)),
        Err(MoveError::OutOfBounds)
    );
    assert_eq!(w.units.len(), 1);
}

/// Clicking an enemy unit changes no selection; clicking an empty tile
/// retains the one already made.
#[test]
fn selection_rules() {
    let mut w = world_10x10();
    w.add_unit(Faction::Player, GridPosition::new(2, 2)).unwrap();
    w.add_unit(Faction::Enemy, GridPosition::new(7, 7)).unwrap();

    // Enemy units are never selectable
    w.unit_selection_system(GridPosition::new(7, 7));
    assert_eq!(w.selection.selected_unit, None);

    // A player unit is
    w.unit_selection_system(GridPosition::new(2, 2));
    assert_eq!(w.selection.selected_unit, Some(0));

    // An empty tile retains the prior selection
    w.unit_selection_system(GridPosition::new(5, 5));
    assert_eq!(w.selection.selected_unit, Some(0));

    // The enemy tile also retains it
    w.unit_selection_system(GridPosition::new(7, 7));
    assert_eq!(w.selection.selected_unit, Some(0));
}

/// Selecting a second unit implicitly deselects the first.
#[test]
fn selection_is_exclusive() {
    let mut w = world_10x10();
    w.add_unit(Faction::Player, GridPosition::new(2, 2)).unwrap();
    w.add_unit(Faction::Player, GridPosition::new(3, 3)).unwrap();
    w.unit_selection_system(GridPosition::new(2, 2));
    assert_eq!(w.selection.selected_unit, Some(0));
    w.unit_selection_system(GridPosition::new(3, 3));
    assert_eq!(w.selection.selected_unit, Some(1));
}

/// The enemy turn ends only once the pacing delay has elapsed AND all enemy
/// units have acted; an elapsed timer alone does nothing.
#[test]
fn enemy_turn_needs_timer_and_actions() {
    let mut w = world_10x10();
    enter_enemy_turn(&mut w);
    w.add_unit(Faction::Enemy, GridPosition::new(7, 7)).unwrap();

    // Timer elapses, but the enemy unit has not acted: no transition.
    w.check_turn_end_system(5000);
    assert_eq!(w.turn_state, TurnState::EnemyTurn);

    // All enemies acted, but on a fresh timer: no transition.
    w.enemy_timer.elapsed_ms = 0;
    w.units[0].status.has_acted = true;
    w.check_turn_end_system(100);
    assert_eq!(w.turn_state, TurnState::EnemyTurn);

    // Both conditions met: the turn passes back to the player.
    w.check_turn_end_system(5000);
    assert_eq!(w.turn_state, TurnState::PlayerTurn);
    // Entering the player turn begins the next counted turn.
    assert_eq!(w.turn_manager.current_turn, 2);
    assert_eq!(w.turn_manager.active_faction, Faction::Player);
    // The player unit flags were reset on entry (none here), the enemy's kept.
    assert!(w.units[0].status.has_acted);
}

/// Handing the turn to the enemy restarts the pacing timer and lets enemy
/// units act again.
#[test]
fn entering_enemy_turn_resets() {
    let mut w = world_10x10();
    w.add_unit(Faction::Player, GridPosition::new(2, 2)).unwrap();
    w.add_unit(Faction::Enemy, GridPosition::new(7, 7)).unwrap();
    w.units[0].status.has_acted = true;
    w.units[1].status.has_acted = true;
    w.enemy_timer.elapsed_ms = 1234;

    w.check_turn_end_system(16);
    assert_eq!(w.turn_state, TurnState::EnemyTurn);
    assert_eq!(w.enemy_timer.elapsed_ms, 0);
    assert!(!w.units[1].status.has_acted, "enemy flags reset on phase entry");
    assert!(w.units[0].status.has_acted, "player flags untouched");
    assert_eq!(w.turn_manager.active_faction, Faction::Enemy);
    assert_eq!(w.turn_manager.current_turn, 1);
}

/// An enemy at distance 10 steps to a neighbor at distance 9, never to one
/// at distance 10 or more.
#[test]
fn pursuit_strictly_improves() {
    let mut w = world_10x10();
    enter_enemy_turn(&mut w);
    w.add_unit(Faction::Enemy, GridPosition::new(7, 7)).unwrap();
    w.add_unit(Faction::Player, GridPosition::new(2, 2)).unwrap();
    assert_eq!(GridPosition::new(7, 7).distance_to(&GridPosition::new(2, 2)), 10);

    w.ai_movement_system();

    let new_pos = w.units[0].pos;
    assert_eq!(new_pos.distance_to(&GridPosition::new(2, 2)), 9);
    assert!(new_pos == GridPosition::new(6, 7) || new_pos == GridPosition::new(7, 6));
}

/// A fully blocked enemy acts in place and does not move.
#[test]
fn pursuit_blocked_stays() {
    let mut w = world_10x10();
    enter_enemy_turn(&mut w);
    w.add_unit(Faction::Enemy, GridPosition::new(0, 0)).unwrap();
    w.add_unit(Faction::Player, GridPosition::new(1, 0)).unwrap();
    w.add_unit(Faction::Player, GridPosition::new(0, 1)).unwrap();

    w.ai_movement_system();

    assert_eq!(w.units[0].pos, GridPosition::new(0, 0));
    assert!(w.units[0].status.has_acted);
}

/// The standard roster: two player units and two enemy units on their tiles.
#[test]
fn spawn_units_roster() {
    let mut w = world_10x10();
    w.spawn_units();
    assert_eq!(w.units.len(), 4);
    assert_eq!(w.units[0].unit.faction, Faction::Player);
    assert_eq!(w.units[0].pos, GridPosition::new(2, 2));
    assert_eq!(w.units[1].unit.faction, Faction::Player);
    assert_eq!(w.units[1].pos, GridPosition::new(3, 2));
    assert_eq!(w.units[2].unit.faction, Faction::Enemy);
    assert_eq!(w.units[2].pos, GridPosition::new(6, 7));
    assert_eq!(w.units[3].unit.faction, Faction::Enemy);
    assert_eq!(w.units[3].pos, GridPosition::new(7, 7));
    assert!(w.units.iter().all(|u| !u.status.has_acted));
}

/// A little run of the whole pipeline: select by clicking the unit, move by
/// clicking a neighbor on the next tick, and watch the turn pass once the
/// roster is spent.
#[test]
fn tick_pipeline_runs() {
    let mut w = world_10x10();
    w.add_unit(Faction::Player, GridPosition::new(2, 2)).unwrap();

    // Clicking the unit selects it; the same click is no move target.
    w.tick(Some(GridPosition::new(2, 2)), 16);
    assert_eq!(w.selection.selected_unit, Some(0));
    assert_eq!(w.units[0].pos, GridPosition::new(2, 2));

    // Clicking a free neighbor moves the unit; with the whole (one-unit)
    // roster spent, the turn then passes to the enemy.
    w.tick(Some(GridPosition::new(2, 3)), 16);
    assert_eq!(w.units[0].pos, GridPosition::new(2, 3));
    assert_eq!(w.turn_state, TurnState::EnemyTurn);
    assert_eq!(w.turn_manager.active_faction, Faction::Enemy);
}

/// The turn counter advances only on the enemy-to-player wrap.
#[test]
fn turn_manager_counts_on_wrap() {
    let mut tm = TurnManager::default();
    assert_eq!(tm.current_turn, 1);
    assert_eq!(tm.active_faction, Faction::Player);
    tm.next_turn();
    assert_eq!(tm.current_turn, 1);
    assert_eq!(tm.active_faction, Faction::Enemy);
    tm.next_turn();
    assert_eq!(tm.current_turn, 2);
    assert_eq!(tm.active_faction, Faction::Player);
}

/// The pacing timer accumulates, finishes at its duration, and restarts.
#[test]
fn enemy_timer_behavior() {
    let mut t = EnemyTurnTimer::default();
    assert_eq!(t.duration_ms, 2000);
    assert!(!t.finished());
    t.tick(1999);
    assert!(!t.finished());
    t.tick(1);
    assert!(t.finished());
    t.reset();
    assert_eq!(t.elapsed_ms, 0);
    assert!(!t.finished());
}

/// The tile registry hands back what was registered, last write winning.
#[test]
fn tile_registry() {
    let mut m = GridMap::new(10, 10, 64);
    assert_eq!(m.get_tile(&GridPosition::new(3, 4)), None);
    m.register_tile(GridPosition::new(3, 4), 77);
    assert_eq!(m.get_tile(&GridPosition::new(3, 4)), Some(77));
    m.register_tile(GridPosition::new(3, 4), 88);
    assert_eq!(m.get_tile(&GridPosition::new(3, 4)), Some(88));
    assert_eq!(m.get_tile(&GridPosition::new(4, 3)), None);
}

/// Board setup registers one tile per cell, row by row.
#[test]
fn setup_grid_registers_all() {
    let mut m = GridMap::new(10, 10, 64);
    let ids: Vec<u64> = (0..100).collect();
    setup_grid(&mut m, &ids);
    assert_eq!(m.get_tile(&GridPosition::new(0, 0)), Some(0));
    assert_eq!(m.get_tile(&GridPosition::new(9, 0)), Some(9));
    assert_eq!(m.get_tile(&GridPosition::new(0, 1)), Some(10));
    assert_eq!(m.get_tile(&GridPosition::new(9, 9)), Some(99));
    assert_eq!(m.get_tile(&GridPosition::new(10, 0)), None);
}

/// The dormant data types hold what their constructors say.
#[test]
fn component_constructors() {
    let grass = Tile::new_grass();
    assert!(grass.walkable);
    assert_eq!(grass.tile_type, TileType::Grass);

    let water = Tile::new_water();
    assert!(!water.walkable);
    assert_eq!(water.tile_type, TileType::Water);

    let s = Stats::new(20, 5, 3);
    assert_eq!(s.max_hp, 20);
    assert_eq!(s.current_hp, 20);
    assert_eq!(s.attack, 5);
    assert_eq!(s.defense, 3);
    assert!(s.is_alive());
    assert!(!Stats { max_hp: 20, current_hp: 0, attack: 5, defense: 3 }.is_alive());

    let ts = TurnStatus::default();
    assert!(!ts.has_acted && !ts.has_moved);

    let sel = SelectionState::default();
    assert_eq!(sel.selected_unit, None);
    assert_eq!(sel.hovered_tile, None);
}

/// The phase label shown to the player.
#[test]
fn turn_state_labels() {
    assert_eq!(TurnState::PlayerTurn.label(), "Player Turn");
    assert_eq!(TurnState::EnemyTurn.label(), "Enemy Turn");
    assert_eq!(TurnState::default(), TurnState::PlayerTurn);
}
