//! Whole-simulation state: the grid map with its tile registry and
//! coordinate conversions, turn bookkeeping, the selection, and the enemy
//! phase timer.

use vstd::prelude::*;

use crate::components::{Faction, GridPosition};

verus! {

/// A point in world (pixel) coordinates, in whole pixels.
#[derive(Debug, Clone, Copy, PartialEq, Eq, Structural)]
pub struct WorldPos {
    pub x: i64,
    pub y: i64,
}

/// Tile registry entries as a map from grid coordinates to tile identities;
/// a later registration for the same cell replaces the earlier one.
pub open spec fn tile_map_of(s: Seq<((i32, i32), u64)>) -> Map<(i32, i32), u64>
    decreases s.len(),
{
    if s.len() == 0 {
        Map::empty()
    } else {
        tile_map_of(s.drop_last()).insert(s.last().0, s.last().1)
    }
}

/// The registration that wins for a cell: the latest one, if any.
pub open spec fn tile_get_of(s: Seq<((i32, i32), u64)>, key: (i32, i32)) -> Option<u64>
    decreases s.len(),
{
    if s.len() == 0 {
        None
    } else if s.last().0 == key {
        Some(s.last().1)
    } else {
        tile_get_of(s.drop_last(), key)
    }
}

/// The latest registration for a cell is exactly the map's value there.
pub proof fn lemma_tile_get_is_map(s: Seq<((i32, i32), u64)>, key: (i32, i32))
    ensures
        tile_get_of(s, key) == (if tile_map_of(s).contains_key(key) {
            Some(tile_map_of(s)[key])
        } else {
            None::<u64>
        }),
    decreases s.len(),
{
    if s.len() > 0 {
        lemma_tile_get_is_map(s.drop_last(), key);
    }
}

/// The grid: its dimensions in cells, the edge length of a tile in pixels,
/// and a registry from grid coordinates to tile identities.
#[derive(Debug)]
pub struct GridMap {
    pub width: i32,
    pub height: i32,
    pub tile_size: i32,
    pub tiles: Vec<((i32, i32), u64)>,
}

impl GridMap {
    /// Dimensions are non-negative and tiles have a positive edge length.
    pub open spec fn wf(self) -> bool {
        &&& self.width >= 0
        &&& self.height >= 0
        &&& self.tile_size >= 1
    }

    /// The tile registry as a map.
    pub open spec fn tiles_view(self) -> Map<(i32, i32), u64> {
        tile_map_of(self.tiles@)
    }

    pub open spec fn in_bounds_spec(self, pos: GridPosition) -> bool {
        0 <= pos.x < self.width && 0 <= pos.y < self.height
    }

    /// Center of a tile in world coordinates.
    pub open spec fn grid_to_world_spec(self, pos: GridPosition) -> WorldPos {
        WorldPos {
            x: (pos.x * self.tile_size + self.tile_size as int / 2) as i64,
            y: (pos.y * self.tile_size + self.tile_size as int / 2) as i64,
        }
    }

    /// The grid column a world x coordinate falls in (floor division).
    pub open spec fn world_to_grid_x(self, world_pos: WorldPos) -> int {
        world_pos.x as int / self.tile_size as int
    }

    /// The grid row a world y coordinate falls in (floor division).
    pub open spec fn world_to_grid_y(self, world_pos: WorldPos) -> int {
        world_pos.y as int / self.tile_size as int
    }

    pub fn new(width: i32, height: i32, tile_size: i32) -> (r: Self)
        requires
            width >= 0,
            height >= 0,
            tile_size >= 1,
        ensures
            r.wf(),
            r.width == width,
            r.height == height,
            r.tile_size == tile_size,
            r.tiles_view() == Map::<(i32, i32), u64>::empty(),
    {
        GridMap { width, height, tile_size, tiles: Vec::new() }
    }

    /// Convert world coordinates to the grid cell containing them.
    /// Coordinates outside the grid convert all the same; the result is then
    /// simply out of bounds.
    pub fn world_to_grid(&self, world_pos: WorldPos) -> (r: GridPosition)
        requires
            self.wf(),
            i32::MIN <= self.world_to_grid_x(world_pos) <= i32::MAX,
            i32::MIN <= self.world_to_grid_y(world_pos) <= i32::MAX,
        ensures
            r.x == self.world_to_grid_x(world_pos),
            r.y == self.world_to_grid_y(world_pos),
    {
        let ts: i64 = self.tile_size as i64;
        let qx: i64 = world_pos.x.checked_div_euclid(ts).unwrap();
        let qy: i64 = world_pos.y.checked_div_euclid(ts).unwrap();
        GridPosition { x: qx as i32, y: qy as i32 }
    }

    /// Convert a grid position to world coordinates of the tile's center.
    pub fn grid_to_world(&self, grid_pos: &GridPosition) -> (r: WorldPos)
        requires
            self.wf(),
        ensures
            r == self.grid_to_world_spec(*grid_pos),
    {
        proof {
            assert(-0x4000_0000_0000_0000 <= grid_pos.x as int * self.tile_size as int
                <= 0x4000_0000_0000_0000) by (nonlinear_arith)
                requires
                    -0x8000_0000 <= grid_pos.x as int <= 0x7fff_ffff,
                    1 <= self.tile_size as int <= 0x7fff_ffff,
            ;
            assert(-0x4000_0000_0000_0000 <= grid_pos.y as int * self.tile_size as int
                <= 0x4000_0000_0000_0000) by (nonlinear_arith)
                requires
                    -0x8000_0000 <= grid_pos.y as int <= 0x7fff_ffff,
                    1 <= self.tile_size as int <= 0x7fff_ffff,
            ;
        }
        let ts: i64 = self.tile_size as i64;
        let half: i64 = ts / 2;
        WorldPos { x: grid_pos.x as i64 * ts + half, y: grid_pos.y as i64 * ts + half }
    }

    /// Whether a grid position lies on the board.
    pub fn is_in_bounds(&self, pos: &GridPosition) -> (r: bool)
        ensures
            r == self.in_bounds_spec(*pos),
    {
        pos.x >= 0 && pos.x < self.width && pos.y >= 0 && pos.y < self.height
    }

    /// Record the tile identity standing at a grid position; a later
    /// registration for the same cell replaces the earlier one.
    pub fn register_tile(&mut self, pos: GridPosition, entity: u64)
        ensures
            final(self).width == old(self).width,
            final(self).height == old(self).height,
            final(self).tile_size == old(self).tile_size,
            final(self).tiles_view() == old(self).tiles_view().insert((pos.x, pos.y), entity),
    {
        self.tiles.push(((pos.x, pos.y), entity));
        proof {
            assert(self.tiles@.drop_last() =~= old(self).tiles@);
        }
    }

    /// Look up the tile identity registered at a grid position.
    pub fn get_tile(&self, pos: &GridPosition) -> (r: Option<u64>)
        ensures
            r == (if self.tiles_view().contains_key((pos.x, pos.y)) {
                Some(self.tiles_view()[(pos.x, pos.y)])
            } else {
                None::<u64>
            }),
    {
        let key: (i32, i32) = (pos.x, pos.y);
        let ghost full = self.tiles@;
        let mut i: usize = self.tiles.len();
        proof {
            assert(full.take(i as int) =~= full);
        }
        while i > 0
            invariant
                i <= full.len(),
                full == self.tiles@,
                key == (pos.x, pos.y),
                tile_get_of(full, key) == tile_get_of(full.take(i as int), key),
            decreases i,
        {
            i = i - 1;
            let entry = self.tiles[i];
            proof {
                assert(full.take(i as int + 1).drop_last() =~= full.take(i as int));
                assert(full.take(i as int + 1).last() == full[i as int]);
            }
            if entry.0.0 == key.0 && entry.0.1 == key.1 {
                proof {
                    assert(entry == full[i as int]);
                    assert(entry.0 == key);
                    assert(full.take(i as int + 1).len() > 0);
                    assert(tile_get_of(full.take(i as int + 1), key) == Some(entry.1));
                    assert(tile_get_of(full, key) == Some(entry.1));
                    lemma_tile_get_is_map(full, key);
                }
                return Some(entry.1);
            }
            proof {
                assert(full[i as int].0 != key);
            }
        }
        proof {
            assert(full.take(0) =~= Seq::<((i32, i32), u64)>::empty());
            lemma_tile_get_is_map(full, key);
        }
        None
    }
}

impl Default for GridMap {
    /// The standard board: 10 by 10 cells of 64 pixels.
    fn default() -> (r: Self)
        ensures
            r.wf(),
            r.width == crate::constants::GRID_WIDTH,
            r.height == crate::constants::GRID_HEIGHT,
            r.tile_size == crate::constants::TILE_SIZE,
            r.tiles_view() == Map::<(i32, i32), u64>::empty(),
    {
        GridMap::new(crate::constants::GRID_WIDTH, crate::constants::GRID_HEIGHT, crate::constants::TILE_SIZE)
    }
}

/// Round trip of the coordinate conversions: converting any grid position to
/// the world coordinates of its tile center and back yields the same grid
/// position.
pub proof fn lemma_grid_round_trip(m: GridMap, p: GridPosition)
    requires
        m.wf(),
    ensures
        m.world_to_grid_x(m.grid_to_world_spec(p)) == p.x,
        m.world_to_grid_y(m.grid_to_world_spec(p)) == p.y,
{
    let ts = m.tile_size as int;
    let half = ts / 2;
    assert(0 <= half < ts);
    assert(-0x4000_0000_0000_0000 <= p.x as int * ts <= 0x4000_0000_0000_0000) by (nonlinear_arith)
        requires
            -0x8000_0000 <= p.x as int <= 0x7fff_ffff,
            1 <= ts <= 0x7fff_ffff,
    ;
    assert(-0x4000_0000_0000_0000 <= p.y as int * ts <= 0x4000_0000_0000_0000) by (nonlinear_arith)
        requires
            -0x8000_0000 <= p.y as int <= 0x7fff_ffff,
            1 <= ts <= 0x7fff_ffff,
    ;
    vstd::arithmetic::div_mod::lemma_div_multiples_vanish_fancy(p.x as int, half, ts);
    vstd::arithmetic::div_mod::lemma_div_multiples_vanish_fancy(p.y as int, half, ts);
    assert(ts * (p.x as int) == p.x as int * ts) by (nonlinear_arith);
    assert(ts * (p.y as int) == p.y as int * ts) by (nonlinear_arith);
}

/// Turn counter and active side. Mirrors the turn state machine: the counter
/// advances when the enemy hands the turn back to the player.
#[derive(Debug, Clone, Copy, PartialEq, Eq, Structural)]
pub struct TurnManager {
    pub current_turn: u32,
    pub active_faction: Faction,
}

impl Default for TurnManager {
    /// The simulation starts at turn 1 with the player active.
    fn default() -> (r: Self)
        ensures
            r.current_turn == 1,
            r.active_faction == Faction::Player,
    {
        TurnManager { current_turn: 1, active_faction: Faction::Player }
    }
}

impl TurnManager {
    /// Hand the turn to the other side; entering a player turn begins the
    /// next counted turn.
    pub fn next_turn(&mut self)
        requires
            old(self).active_faction == Faction::Enemy ==> old(self).current_turn < u32::MAX,
        ensures
            old(self).active_faction == Faction::Player ==> *final(self) == (TurnManager {
                current_turn: old(self).current_turn,
                active_faction: Faction::Enemy,
            }),
            old(self).active_faction == Faction::Enemy ==> *final(self) == (TurnManager {
                current_turn: (old(self).current_turn + 1) as u32,
                active_faction: Faction::Player,
            }),
    {
        self.active_faction = match self.active_faction {
            Faction::Player => Faction::Enemy,
            Faction::Enemy => {
                self.current_turn = self.current_turn + 1;
                Faction::Player
            },
        };
    }
}

/// Which unit is selected, if any, and which tile the pointer hovers.
/// The selected unit is a weak reference by identity: every use re-validates
/// that the unit exists, is a player unit, and may still act.
#[derive(Debug, Clone, Copy, PartialEq, Eq, Structural)]
pub struct SelectionState {
    pub selected_unit: Option<u64>,
    pub hovered_tile: Option<GridPosition>,
}

impl Default for SelectionState {
    fn default() -> (r: Self)
        ensures
            r.selected_unit is None,
            r.hovered_tile is None,
    {
        SelectionState { selected_unit: None, hovered_tile: None }
    }
}

impl SelectionState {
    pub fn clear_selection(&mut self)
        ensures
            final(self).selected_unit is None,
            final(self).hovered_tile == old(self).hovered_tile,
    {
        self.selected_unit = None;
    }

    pub fn select_unit(&mut self, entity: u64)
        ensures
            final(self).selected_unit == Some(entity),
            final(self).hovered_tile == old(self).hovered_tile,
    {
        self.selected_unit = Some(entity);
    }
}

/// Pacing timer for the enemy phase: the phase may end only once the fixed
/// delay has elapsed. It is restarted every time the enemy phase is entered.
#[derive(Debug, Clone, Copy, PartialEq, Eq, Structural)]
pub struct EnemyTurnTimer {
    pub elapsed_ms: u64,
    pub duration_ms: u64,
}

impl Default for EnemyTurnTimer {
    fn default() -> (r: Self)
        ensures
            r.elapsed_ms == 0,
            r.duration_ms == crate::constants::ENEMY_TURN_DELAY_MS,
    {
        EnemyTurnTimer { elapsed_ms: 0, duration_ms: crate::constants::ENEMY_TURN_DELAY_MS }
    }
}

impl EnemyTurnTimer {
    /// The fixed delay has fully elapsed.
    pub open spec fn finished_spec(self) -> bool {
        self.elapsed_ms >= self.duration_ms
    }

    /// Advance the timer by a time delta, saturating rather than wrapping.
    pub fn tick(&mut self, delta_ms: u64)
        ensures
            final(self).duration_ms == old(self).duration_ms,
            final(self).elapsed_ms == (if old(self).elapsed_ms + delta_ms <= u64::MAX {
                (old(self).elapsed_ms + delta_ms) as u64
            } else {
                u64::MAX
            }),
    {
        self.elapsed_ms = self.elapsed_ms.saturating_add(delta_ms);
    }

    /// Restart the delay from zero.
    pub fn reset(&mut self)
        ensures
            final(self).elapsed_ms == 0,
            final(self).duration_ms == old(self).duration_ms,
    {
        self.elapsed_ms = 0;
    }

    pub fn finished(&self) -> (r: bool)
        ensures
            r == self.finished_spec(),
    {
        self.elapsed_ms >= self.duration_ms
    }
}

} // verus!
