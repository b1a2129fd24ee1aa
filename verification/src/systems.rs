//! The per-tick rules of the simulation: spawning, selection, movement
//! validation, the greedy pursuit of enemy units, and the turn hand-off.
//!
//! All rules operate on one explicit state struct, [`GameWorld`], and are
//! invoked in a fixed order once per tick (see [`GameWorld::tick`]): selection,
//! player movement, enemy movement, turn-completion check. The caller feeds in
//! a resolved grid click and a time delta; no rule here performs input or
//! rendering work.

use vstd::prelude::*;

use crate::TurnState;
use crate::components::{Faction, GridPosition, TurnStatus, Unit, adj_seq, adjacent_spec, manhattan};
use crate::resources::{EnemyTurnTimer, GridMap, SelectionState, TurnManager};

verus! {

/// One combatant's live record: identity, side, position on the grid, and
/// per-phase flags.
#[derive(Debug, Clone, Copy, PartialEq, Eq, Structural)]
pub struct UnitState {
    pub id: u64,
    pub unit: Unit,
    pub pos: GridPosition,
    pub status: TurnStatus,
}

/// Why a requested move was rejected. Rejections are expected outcomes of
/// invalid input or blocked paths, never faults: a rejected move changes
/// nothing.
#[derive(Debug, Clone, Copy, PartialEq, Eq, Structural)]
pub enum MoveError {
    /// The unit is not the currently selected unit, or the selection does not
    /// refer to a live player unit.
    NoSelection,
    /// The unit already acted this phase.
    AlreadyActed,
    /// The target is not one of the four 4-connected neighbors.
    InvalidTarget,
    /// The target lies off the board.
    OutOfBounds,
    /// Another unit stands on the target tile.
    TileOccupied,
}

/// The faction whose units act in a phase.
pub open spec fn turn_faction(t: TurnState) -> Faction {
    match t {
        TurnState::PlayerTurn => Faction::Player,
        TurnState::EnemyTurn => Faction::Enemy,
    }
}

/// Some unit stands at `pos`.
pub open spec fn occupied_at(units: Seq<UnitState>, pos: GridPosition) -> bool {
    exists|i: int| 0 <= i < units.len() && (#[trigger] units[i]).pos == pos
}

/// Some unit other than the one at index `skip` stands at `pos`.
pub open spec fn occupied_at_other(units: Seq<UnitState>, pos: GridPosition, skip: int) -> bool {
    exists|i: int| 0 <= i < units.len() && i != skip && (#[trigger] units[i]).pos == pos
}

/// Every unit of faction `f` has acted this phase.
pub open spec fn faction_all_acted(units: Seq<UnitState>, f: Faction) -> bool {
    forall|i: int|
        0 <= i < units.len() && (#[trigger] units[i]).unit.faction == f
            ==> units[i].status.has_acted
}

/// Some unit carries identity `id`.
pub open spec fn has_unit_id(units: Seq<UnitState>, id: u64) -> bool {
    exists|i: int| 0 <= i < units.len() && (#[trigger] units[i]).id == id
}

/// The index of the unit carrying identity `id`; meaningful only under
/// `has_unit_id`, and unique once identities are distinct.
pub open spec fn index_of_id(units: Seq<UnitState>, id: u64) -> int {
    choose|i: int| 0 <= i < units.len() && (#[trigger] units[i]).id == id
}

/// Well-formedness of a unit roster on a grid: every unit stands on the
/// board, no two units share an identity, and no two units share a tile.
pub open spec fn units_wf(units: Seq<UnitState>, grid: GridMap) -> bool {
    &&& forall|i: int| 0 <= i < units.len() ==> grid.in_bounds_spec((#[trigger] units[i]).pos)
    &&& forall|i: int, j: int|
        0 <= i < units.len() && 0 <= j < units.len() && i != j
            ==> (#[trigger] units[i]).id != (#[trigger] units[j]).id
    &&& forall|i: int, j: int|
        0 <= i < units.len() && 0 <= j < units.len() && i != j
            ==> (#[trigger] units[i]).pos != (#[trigger] units[j]).pos
}

/// The whole simulation state for one run.
#[derive(Debug)]
pub struct GameWorld {
    pub grid: GridMap,
    pub units: Vec<UnitState>,
    pub selection: SelectionState,
    pub turn_state: TurnState,
    pub turn_manager: TurnManager,
    pub enemy_timer: EnemyTurnTimer,
    /// Identity that the next spawned unit will receive.
    pub next_unit_id: u64,
}

impl GameWorld {
    /// The state invariant: a well-formed grid and roster, fresh identities
    /// ahead of every spawned unit, and turn bookkeeping that mirrors the
    /// turn state machine.
    pub open spec fn wf(self) -> bool {
        &&& self.grid.wf()
        &&& units_wf(self.units@, self.grid)
        &&& forall|i: int|
            0 <= i < self.units@.len() ==> (#[trigger] self.units@[i]).id < self.next_unit_id
        &&& self.turn_manager.active_faction == turn_faction(self.turn_state)
    }

    /// A fresh simulation on the given grid: no units, nothing selected, the
    /// player's turn at count 1.
    pub fn new(grid: GridMap) -> (r: Self)
        requires
            grid.wf(),
        ensures
            r.wf(),
            r.grid == grid,
            r.units@.len() == 0,
            r.selection.selected_unit is None,
            r.turn_state == TurnState::PlayerTurn,
            r.turn_manager.current_turn == 1,
            r.enemy_timer.elapsed_ms == 0,
            r.enemy_timer.duration_ms == crate::constants::ENEMY_TURN_DELAY_MS,
            r.next_unit_id == 0,
    {
        GameWorld {
            grid,
            units: Vec::new(),
            selection: SelectionState::default(),
            turn_state: TurnState::PlayerTurn,
            turn_manager: TurnManager::default(),
            enemy_timer: EnemyTurnTimer::default(),
            next_unit_id: 0,
        }
    }
}

impl GameWorld {
    /// Place a new unit of `faction` at `pos`, handing it a fresh identity.
    /// The placement is rejected if the tile is off the board or already
    /// taken, so the no-two-units-per-tile invariant is established at
    /// creation and never afterwards in doubt.
    pub fn add_unit(&mut self, faction: Faction, pos: GridPosition) -> (r: Result<
        u64,
        MoveError,
    >)
        requires
            old(self).wf(),
            old(self).next_unit_id < u64::MAX,
        ensures
            final(self).wf(),
            final(self).grid == old(self).grid,
            final(self).selection == old(self).selection,
            final(self).turn_state == old(self).turn_state,
            final(self).turn_manager == old(self).turn_manager,
            final(self).enemy_timer == old(self).enemy_timer,
            match r {
                Ok(id) => {
                    &&& old(self).grid.in_bounds_spec(pos)
                    &&& !occupied_at(old(self).units@, pos)
                    &&& id == old(self).next_unit_id
                    &&& final(self).next_unit_id == old(self).next_unit_id + 1
                    &&& final(self).units@ == old(self).units@.push(
                        UnitState {
                            id,
                            unit: Unit { faction },
                            pos,
                            status: TurnStatus { has_acted: false, has_moved: false },
                        },
                    )
                },
                Err(e) => {
                    &&& *final(self) == *old(self)
                    &&& (e == MoveError::OutOfBounds <==> !old(self).grid.in_bounds_spec(pos))
                    &&& (e == MoveError::TileOccupied <==> old(self).grid.in_bounds_spec(pos)
                        && occupied_at(old(self).units@, pos))
                    &&& (e == MoveError::OutOfBounds || e == MoveError::TileOccupied)
                },
            },
    {
        if !self.grid.is_in_bounds(&pos) {
            return Err(MoveError::OutOfBounds);
        }
        if is_occupied(&self.units, pos) {
            return Err(MoveError::TileOccupied);
        }
        let id = self.next_unit_id;
        self.units.push(
            UnitState {
                id,
                unit: Unit { faction },
                pos,
                status: TurnStatus { has_acted: false, has_moved: false },
            },
        );
        self.next_unit_id = self.next_unit_id + 1;
        proof {
            let pre = old(self).units@;
            let post = self.units@;
            assert forall|i: int, j: int|
                0 <= i < post.len() && 0 <= j < post.len() && i != j implies (#[trigger] post[i]).id
                != (#[trigger] post[j]).id && (#[trigger] post[i]).pos != (
            #[trigger] post[j]).pos by {
                if i < pre.len() && j < pre.len() {
                } else if i < pre.len() {
                    assert(post[j] == post.last());
                    assert(pre[i].id < old(self).next_unit_id);
                } else {
                    assert(post[i] == post.last());
                    assert(pre[j].id < old(self).next_unit_id);
                }
            }
        }
        Ok(id)
    }

    /// Spawn the standard roster: two player units at (2, 2) and (3, 2), and
    /// two enemy units at (6, 7) and (7, 7), none of which has acted.
    pub fn spawn_units(&mut self)
        requires
            old(self).wf(),
            old(self).units@.len() == 0,
            old(self).grid.width >= 8,
            old(self).grid.height >= 8,
            old(self).next_unit_id <= u64::MAX - 4,
        ensures
            final(self).wf(),
            final(self).grid == old(self).grid,
            final(self).selection == old(self).selection,
            final(self).turn_state == old(self).turn_state,
            final(self).turn_manager == old(self).turn_manager,
            final(self).enemy_timer == old(self).enemy_timer,
            final(self).units@.len() == 4,
            final(self).units@[0] == (UnitState {
                id: old(self).next_unit_id,
                unit: Unit { faction: Faction::Player },
                pos: GridPosition { x: 2, y: 2 },
                status: TurnStatus { has_acted: false, has_moved: false },
            }),
            final(self).units@[1] == (UnitState {
                id: (old(self).next_unit_id + 1) as u64,
                unit: Unit { faction: Faction::Player },
                pos: GridPosition { x: 3, y: 2 },
                status: TurnStatus { has_acted: false, has_moved: false },
            }),
            final(self).units@[2] == (UnitState {
                id: (old(self).next_unit_id + 2) as u64,
                unit: Unit { faction: Faction::Enemy },
                pos: GridPosition { x: 6, y: 7 },
                status: TurnStatus { has_acted: false, has_moved: false },
            }),
            final(self).units@[3] == (UnitState {
                id: (old(self).next_unit_id + 3) as u64,
                unit: Unit { faction: Faction::Enemy },
                pos: GridPosition { x: 7, y: 7 },
                status: TurnStatus { has_acted: false, has_moved: false },
            }),
    {
        let r1 = self.add_unit(Faction::Player, GridPosition { x: 2, y: 2 });
        proof {
            assert(r1 is Ok);
        }
        let r2 = self.add_unit(Faction::Player, GridPosition { x: 3, y: 2 });
        proof {
            assert(r2 is Ok);
        }
        let r3 = self.add_unit(Faction::Enemy, GridPosition { x: 6, y: 7 });
        proof {
            assert(r3 is Ok);
        }
        let r4 = self.add_unit(Faction::Enemy, GridPosition { x: 7, y: 7 });
        proof {
            assert(r4 is Ok);
        }
    }
}

/// Register one tile identity for every cell of the board, row by row:
/// the cell (x, y) receives `tile_ids[y * width + x]`. Registrations for
/// positions off the board are untouched.
pub fn setup_grid(grid_map: &mut GridMap, tile_ids: &Vec<u64>)
    requires
        old(grid_map).wf(),
        tile_ids@.len() == old(grid_map).width * old(grid_map).height,
    ensures
        final(grid_map).wf(),
        final(grid_map).width == old(grid_map).width,
        final(grid_map).height == old(grid_map).height,
        final(grid_map).tile_size == old(grid_map).tile_size,
        forall|a: i32, b: i32|
            0 <= a < old(grid_map).width && 0 <= b < old(grid_map).height ==> {
                &&& #[trigger] final(grid_map).tiles_view().contains_key((a, b))
                &&& final(grid_map).tiles_view()[(a, b)] == tile_ids@[b * old(grid_map).width + a]
            },
        forall|k: (i32, i32)|
            !(0 <= k.0 < old(grid_map).width && 0 <= k.1 < old(grid_map).height) ==> {
                &&& (#[trigger] final(grid_map).tiles_view().contains_key(k) <==> old(grid_map).tiles_view().contains_key(k))
                &&& old(grid_map).tiles_view().contains_key(k) ==> final(grid_map).tiles_view()[k] == old(grid_map).tiles_view()[k]
            },
{
    let width = grid_map.width;
    let height = grid_map.height;
    let n: usize = tile_ids.len();
    let mut y: i32 = 0;
    while y < height
        invariant
            grid_map.wf(),
            width == grid_map.width,
            height == grid_map.height,
            grid_map.tile_size == old(grid_map).tile_size,
            0 <= y <= height,
            tile_ids@.len() == width * height,
            n == tile_ids@.len(),
            forall|a: i32, b: i32|
                0 <= a < width && 0 <= b < y ==> {
                    &&& #[trigger] grid_map.tiles_view().contains_key((a, b))
                    &&& grid_map.tiles_view()[(a, b)] == tile_ids@[b * width + a]
                },
            forall|k: (i32, i32)|
                !(0 <= k.0 < width && 0 <= k.1 < y) ==> {
                    &&& (#[trigger] grid_map.tiles_view().contains_key(k) <==> old(grid_map).tiles_view().contains_key(k))
                    &&& old(grid_map).tiles_view().contains_key(k) ==> grid_map.tiles_view()[k]
                        == old(grid_map).tiles_view()[k]
                },
        decreases height - y,
    {
        let mut x: i32 = 0;
        while x < width
            invariant
                grid_map.wf(),
                width == grid_map.width,
                height == grid_map.height,
                grid_map.tile_size == old(grid_map).tile_size,
                0 <= y < height,
                0 <= x <= width,
                tile_ids@.len() == width * height,
                n == tile_ids@.len(),
                forall|a: i32, b: i32|
                    0 <= a < width && (0 <= b < y || (b == y && 0 <= a < x)) ==> {
                        &&& #[trigger] grid_map.tiles_view().contains_key((a, b))
                        &&& grid_map.tiles_view()[(a, b)] == tile_ids@[b * width + a]
                    },
                forall|k: (i32, i32)|
                    !(0 <= k.0 < width && (0 <= k.1 < y || (k.1 == y && 0 <= k.0 < x))) ==> {
                        &&& (#[trigger] grid_map.tiles_view().contains_key(k) <==> old(grid_map).tiles_view().contains_key(k))
                        &&& old(grid_map).tiles_view().contains_key(k) ==> grid_map.tiles_view()[k]
                            == old(grid_map).tiles_view()[k]
                    },
            decreases width - x,
        {
            proof {
                assert(y * width + x < width * height && 0 <= y * width + x
                    && y as int * width as int + x <= (height - 1) * width + (width - 1)) by (
                nonlinear_arith)
                    requires
                        0 <= x < width,
                        0 <= y < height,
                ;
            }
            let idx: usize = (y as usize) * (width as usize) + (x as usize);
            grid_map.register_tile(GridPosition { x, y }, tile_ids[idx]);
            x = x + 1;
        }
        y = y + 1;
    }
}

/// First unit standing at `pos`, if any.
fn find_unit_at(units: &Vec<UnitState>, pos: GridPosition) -> (r: Option<usize>)
    ensures
        match r {
            Some(i) => i < units@.len() && units@[i as int].pos == pos && forall|j: int|
                0 <= j < i ==> (#[trigger] units@[j]).pos != pos,
            None => !occupied_at(units@, pos),
        },
{
    let mut i: usize = 0;
    while i < units.len()
        invariant
            i <= units@.len(),
            forall|j: int| 0 <= j < i ==> (#[trigger] units@[j]).pos != pos,
        decreases units@.len() - i,
    {
        if units[i].pos.x == pos.x && units[i].pos.y == pos.y {
            return Some(i);
        }
        i = i + 1;
    }
    None
}

/// Index of the unit carrying identity `id`, if it exists.
fn find_index_by_id(units: &Vec<UnitState>, id: u64) -> (r: Option<usize>)
    ensures
        match r {
            Some(i) => i < units@.len() && units@[i as int].id == id,
            None => !has_unit_id(units@, id),
        },
{
    let mut i: usize = 0;
    while i < units.len()
        invariant
            i <= units@.len(),
            forall|j: int| 0 <= j < i ==> (#[trigger] units@[j]).id != id,
        decreases units@.len() - i,
    {
        if units[i].id == id {
            return Some(i);
        }
        i = i + 1;
    }
    None
}

/// Whether any unit stands at `pos`.
fn is_occupied(units: &Vec<UnitState>, pos: GridPosition) -> (r: bool)
    ensures
        r == occupied_at(units@, pos),
{
    match find_unit_at(units, pos) {
        Some(_) => true,
        None => false,
    }
}

/// Whether any unit other than the one at index `skip` stands at `pos`.
fn is_occupied_excluding(units: &Vec<UnitState>, pos: GridPosition, skip: usize) -> (r: bool)
    ensures
        r == occupied_at_other(units@, pos, skip as int),
{
    let mut i: usize = 0;
    while i < units.len()
        invariant
            i <= units@.len(),
            forall|j: int| 0 <= j < i && j != skip ==> (#[trigger] units@[j]).pos != pos,
        decreases units@.len() - i,
    {
        if i != skip && units[i].pos.x == pos.x && units[i].pos.y == pos.y {
            return true;
        }
        i = i + 1;
    }
    false
}

/// Whether every unit of faction `f` has acted this phase.
fn all_acted(units: &Vec<UnitState>, f: Faction) -> (r: bool)
    ensures
        r == faction_all_acted(units@, f),
{
    let mut i: usize = 0;
    while i < units.len()
        invariant
            i <= units@.len(),
            forall|j: int|
                0 <= j < i && (#[trigger] units@[j]).unit.faction == f
                    ==> units@[j].status.has_acted,
        decreases units@.len() - i,
    {
        if units[i].unit.faction == f && !units[i].status.has_acted {
            return false;
        }
        i = i + 1;
    }
    true
}

impl GameWorld {
    /// Selection re-validated against the roster: the id refers to a live
    /// player unit.
    pub open spec fn selection_valid_for(self, unit_id: u64) -> bool {
        &&& self.selection.selected_unit == Some(unit_id)
        &&& has_unit_id(self.units@, unit_id)
        &&& self.units@[index_of_id(self.units@, unit_id)].unit.faction == Faction::Player
    }

    /// The ordered admission checks of a move request, first failure first:
    /// the unit must be the (re-validated) selection, must not have acted,
    /// the target must be 4-adjacent, on the board, and unoccupied.
    pub open spec fn move_checks(self, unit_id: u64, target: GridPosition) -> Result<
        (),
        MoveError,
    > {
        let i = index_of_id(self.units@, unit_id);
        if !self.selection_valid_for(unit_id) {
            Err(MoveError::NoSelection)
        } else if self.units@[i].status.has_acted {
            Err(MoveError::AlreadyActed)
        } else if !adjacent_spec(self.units@[i].pos, target) {
            Err(MoveError::InvalidTarget)
        } else if !self.grid.in_bounds_spec(target) {
            Err(MoveError::OutOfBounds)
        } else if occupied_at(self.units@, target) {
            Err(MoveError::TileOccupied)
        } else {
            Ok(())
        }
    }

    /// Handle a primary click for selection. Clicking a player unit selects
    /// it and implicitly deselects any other; clicking an enemy unit is a
    /// no-op; clicking an empty tile retains the prior selection, so that the
    /// same click can still be taken as a movement target.
    pub fn unit_selection_system(&mut self, click: GridPosition)
        requires
            old(self).wf(),
        ensures
            final(self).wf(),
            final(self).grid == old(self).grid,
            final(self).units == old(self).units,
            final(self).turn_state == old(self).turn_state,
            final(self).turn_manager == old(self).turn_manager,
            final(self).enemy_timer == old(self).enemy_timer,
            final(self).next_unit_id == old(self).next_unit_id,
            final(self).selection.hovered_tile == old(self).selection.hovered_tile,
            (exists|i: int|
                0 <= i < old(self).units@.len() && (#[trigger] old(self).units@[i]).pos == click
                    && old(self).units@[i].unit.faction == Faction::Player) ==> (exists|i: int|
                0 <= i < old(self).units@.len() && (#[trigger] old(self).units@[i]).pos == click
                    && old(self).units@[i].unit.faction == Faction::Player && final(self).selection.selected_unit == Some(old(self).units@[i].id)),
            !(exists|i: int|
                0 <= i < old(self).units@.len() && (#[trigger] old(self).units@[i]).pos == click
                    && old(self).units@[i].unit.faction == Faction::Player) ==> final(self).selection.selected_unit == old(self).selection.selected_unit,
    {
        match find_unit_at(&self.units, click) {
            Some(i) => {
                let who = self.units[i];
                if who.unit.faction == Faction::Player {
                    self.selection.select_unit(who.id);
                } else {
                    proof {
                        assert forall|j: int|
                            0 <= j < self.units@.len() && (#[trigger] self.units@[j]).pos == click
                                implies self.units@[j].unit.faction != Faction::Player by {
                            assert(self.units@[j].pos == self.units@[i as int].pos);
                        }
                    }
                }
            },
            None => {},
        }
    }

    /// Ask the selected unit `unit_id` to step onto `target`. On success the
    /// unit stands on `target` and has acted; on rejection nothing changes,
    /// and the error names the first check that failed.
    ///
    /// This is the only path by which a player unit's position changes.
    pub fn try_move(&mut self, unit_id: u64, target: GridPosition) -> (r: Result<(), MoveError>)
        requires
            old(self).wf(),
        ensures
            final(self).wf(),
            final(self).grid == old(self).grid,
            final(self).selection == old(self).selection,
            final(self).turn_state == old(self).turn_state,
            final(self).turn_manager == old(self).turn_manager,
            final(self).enemy_timer == old(self).enemy_timer,
            final(self).next_unit_id == old(self).next_unit_id,
            r == old(self).move_checks(unit_id, target),
            r is Ok ==> final(self).units@ == moved_units(
                old(self).units@,
                index_of_id(old(self).units@, unit_id),
                target,
            ),
            r is Err ==> final(self).units == old(self).units,
    {
        let sel_ok = match self.selection.selected_unit {
            Some(s) => s == unit_id,
            None => false,
        };
        if !sel_ok {
            return Err(MoveError::NoSelection);
        }
        let idx = match find_index_by_id(&self.units, unit_id) {
            Some(i) => i,
            None => {
                return Err(MoveError::NoSelection);
            },
        };
        proof {
            assert(has_unit_id(self.units@, unit_id));
            let c = index_of_id(self.units@, unit_id);
            assert(0 <= c < self.units@.len() && self.units@[c].id == unit_id);
            assert(c == idx as int);
        }
        let who = self.units[idx];
        if !(who.unit.faction == Faction::Player) {
            return Err(MoveError::NoSelection);
        }
        if who.status.has_acted {
            return Err(MoveError::AlreadyActed);
        }
        let dx: i64 = target.x as i64 - who.pos.x as i64;
        let dy: i64 = target.y as i64 - who.pos.y as i64;
        let adj = (dx == 1 && dy == 0) || (dx == -1 && dy == 0) || (dx == 0 && dy == 1) || (dx == 0
            && dy == -1);
        proof {
            assert(adj == adjacent_spec(who.pos, target));
        }
        if !adj {
            return Err(MoveError::InvalidTarget);
        }
        if !self.grid.is_in_bounds(&target) {
            return Err(MoveError::OutOfBounds);
        }
        if is_occupied(&self.units, target) {
            return Err(MoveError::TileOccupied);
        }
        self.units[idx] = UnitState {
            id: who.id,
            unit: who.unit,
            pos: target,
            status: TurnStatus { has_acted: true, has_moved: who.status.has_moved },
        };
        proof {
            let pre = old(self).units@;
            let post = self.units@;
            assert forall|i: int, j: int|
                0 <= i < post.len() && 0 <= j < post.len() && i != j implies (#[trigger] post[i]).pos
                != (#[trigger] post[j]).pos by {
                if i != idx as int && j != idx as int {
                    assert(post[i] == pre[i] && post[j] == pre[j]);
                } else if i == idx as int {
                    assert(post[j] == pre[j]);
                    assert(!occupied_at(pre, target));
                    assert(pre[j].pos != target);
                } else {
                    assert(post[i] == pre[i]);
                    assert(!occupied_at(pre, target));
                    assert(pre[i].pos != target);
                }
            }
        }
        Ok(())
    }

    /// Handle a primary click as a movement request for the selected unit.
    /// Runs only during the player phase; outside it, or with nothing
    /// selected, the click changes nothing. A rejected move also changes
    /// nothing: an invalid click is a no-op, never a fault.
    pub fn movement_system(&mut self, click: GridPosition)
        requires
            old(self).wf(),
        ensures
            final(self).wf(),
            final(self).grid == old(self).grid,
            final(self).selection == old(self).selection,
            final(self).turn_state == old(self).turn_state,
            final(self).turn_manager == old(self).turn_manager,
            final(self).enemy_timer == old(self).enemy_timer,
            final(self).next_unit_id == old(self).next_unit_id,
            old(self).turn_state != TurnState::PlayerTurn ==> final(self).units == old(self).units,
            old(self).turn_state == TurnState::PlayerTurn ==> match old(
                self,
            ).selection.selected_unit {
                Some(id) => if old(self).move_checks(id, click) is Ok {
                    final(self).units@ == moved_units(
                        old(self).units@,
                        index_of_id(old(self).units@, id),
                        click,
                    )
                } else {
                    final(self).units == old(self).units
                },
                None => final(self).units == old(self).units,
            },
    {
        if !(self.turn_state == TurnState::PlayerTurn) {
            return;
        }
        let id = match self.selection.selected_unit {
            Some(id) => id,
            None => {
                return;
            },
        };
        let _ = self.try_move(id, click);
    }

    /// Where the dry-run query for valid moves starts from: the index of the
    /// re-validated selected player unit, during the player phase only.
    pub open spec fn highlight_source(self) -> Option<int> {
        let id = self.selection.selected_unit->Some_0;
        if self.turn_state == TurnState::PlayerTurn && self.selection.selected_unit is Some
            && has_unit_id(self.units@, id) && self.units@[index_of_id(
            self.units@,
            id,
        )].unit.faction == Faction::Player {
            Some(index_of_id(self.units@, id))
        } else {
            None
        }
    }

    /// The valid movement destinations of the selected unit, computed by the
    /// same rules as the movement check but without mutating anything: the
    /// 4-adjacent tiles that are on the board and unoccupied. Empty outside
    /// the player phase or without a valid selection.
    pub fn highlight_movement_system(&self) -> (r: Vec<GridPosition>)
        requires
            self.wf(),
        ensures
            r@.no_duplicates(),
            forall|q: GridPosition|
                #[trigger] r@.contains(q) <==> (self.highlight_source() matches Some(i)
                    && adjacent_spec(self.units@[i].pos, q) && self.grid.in_bounds_spec(q)
                    && !occupied_at(self.units@, q)),
    {
        let mut r: Vec<GridPosition> = Vec::new();
        if !(self.turn_state == TurnState::PlayerTurn) {
            return r;
        }
        let id = match self.selection.selected_unit {
            Some(id) => id,
            None => {
                return r;
            },
        };
        let idx = match find_index_by_id(&self.units, id) {
            Some(i) => i,
            None => {
                return r;
            },
        };
        proof {
            assert(has_unit_id(self.units@, id));
            let c = index_of_id(self.units@, id);
            assert(0 <= c < self.units@.len() && self.units@[c].id == id);
            assert(c == idx as int);
        }
        let who = self.units[idx];
        if !(who.unit.faction == Faction::Player) {
            return r;
        }
        let adj = who.pos.adjacent();
        let ghost src = idx as int;
        let mut k: usize = 0;
        while k < 4
            invariant
                self.wf(),
                k <= 4,
                adj@.len() == 4,
                0 <= src < self.units@.len(),
                self.highlight_source() == Some(src),
                forall|m: int| 0 <= m < 4 ==> adjacent_spec(self.units@[src].pos, #[trigger] adj@[m]),
                forall|p: GridPosition|
                    adjacent_spec(self.units@[src].pos, p) ==> adj@.contains(p),
                forall|m: int, m2: int| 0 <= m < m2 < 4 ==> adj@[m] != adj@[m2],
                r@.no_duplicates(),
                forall|q: GridPosition|
                    #[trigger] r@.contains(q) <==> exists|m: int|
                        0 <= m < k && adj@[m] == q && self.grid.in_bounds_spec(#[trigger] adj@[m])
                            && !occupied_at(self.units@, adj@[m]),
            decreases 4 - k,
        {
            let cand = adj[k];
            let ghost pre_r = r@;
            if self.grid.is_in_bounds(&cand) && !is_occupied(&self.units, cand) {
                r.push(cand);
                proof {
                    assert(r@ == pre_r.push(cand));
                    assert(!pre_r.contains(cand)) by {
                        if pre_r.contains(cand) {
                            let m = choose|m: int|
                                0 <= m < k && adj@[m] == cand && self.grid.in_bounds_spec(adj@[m])
                                    && !occupied_at(self.units@, adj@[m]);
                            assert(adj@[m] != adj@[k as int]);
                        }
                    }
                    assert forall|i: int, j: int|
                        0 <= i < r@.len() && 0 <= j < r@.len() && i != j implies r@[i] != r@[j] by {
                        if i < pre_r.len() && j < pre_r.len() {
                        } else if j == pre_r.len() {
                            assert(r@[i] == pre_r[i] && pre_r.contains(pre_r[i]));
                        } else if i == pre_r.len() {
                            assert(r@[j] == pre_r[j] && pre_r.contains(pre_r[j]));
                        }
                    }
                    assert(r@.no_duplicates());
                    assert forall|q: GridPosition| #[trigger] r@.contains(q) implies exists|m: int|
                        0 <= m < k + 1 && adj@[m] == q && self.grid.in_bounds_spec(
                            #[trigger] adj@[m],
                        ) && !occupied_at(self.units@, adj@[m]) by {
                        if q == cand {
                            assert(adj@[k as int] == q);
                        } else {
                            let i0 = choose|i0: int| 0 <= i0 < r@.len() && r@[i0] == q;
                            assert(i0 < pre_r.len());
                            assert(pre_r[i0] == q);
                            assert(pre_r.contains(q));
                        }
                    }
                    assert forall|q: GridPosition|
                        (exists|m: int|
                            0 <= m < k + 1 && adj@[m] == q && self.grid.in_bounds_spec(
                                #[trigger] adj@[m],
                            ) && !occupied_at(self.units@, adj@[m])) implies #[trigger] r@.contains(
                        q,
                    ) by {
                        let m = choose|m: int|
                            0 <= m < k + 1 && adj@[m] == q && self.grid.in_bounds_spec(adj@[m])
                                && !occupied_at(self.units@, adj@[m]);
                        if m < k {
                            assert(pre_r.contains(q));
                            let i0 = choose|i0: int| 0 <= i0 < pre_r.len() && pre_r[i0] == q;
                            assert(r@[i0] == q);
                        } else {
                            assert(r@[pre_r.len() as int] == cand);
                        }
                    }
                }
            } else {
                proof {
                    assert forall|q: GridPosition|
                        (exists|m: int|
                            0 <= m < k + 1 && adj@[m] == q && self.grid.in_bounds_spec(
                                #[trigger] adj@[m],
                            ) && !occupied_at(self.units@, adj@[m])) implies #[trigger] r@.contains(
                        q,
                    ) by {
                        let m = choose|m: int|
                            0 <= m < k + 1 && adj@[m] == q && self.grid.in_bounds_spec(adj@[m])
                                && !occupied_at(self.units@, adj@[m]);
                        assert(m < k);
                    }
                }
            }
            k = k + 1;
        }
        proof {
            assert forall|q: GridPosition| #[trigger] r@.contains(q) implies (
            self.highlight_source() matches Some(i) && adjacent_spec(self.units@[i].pos, q)
                && self.grid.in_bounds_spec(q) && !occupied_at(self.units@, q)) by {
                let m = choose|m: int|
                    0 <= m < 4 && adj@[m] == q && self.grid.in_bounds_spec(adj@[m]) && !occupied_at(
                        self.units@,
                        adj@[m],
                    );
            }
            assert forall|q: GridPosition|
                (self.highlight_source() matches Some(i) && adjacent_spec(self.units@[i].pos, q)
                    && self.grid.in_bounds_spec(q) && !occupied_at(self.units@, q)) implies #[trigger] r@.contains(
                q,
            ) by {
                assert(adj@.contains(q));
                let m = choose|m: int| 0 <= m < adj@.len() && adj@[m] == q;
                assert(0 <= m < 4 && adj@[m] == q && self.grid.in_bounds_spec(adj@[m])
                    && !occupied_at(self.units@, adj@[m]));
            }
        }
        r
    }
}

/// A roster with the phase flags of faction `f` reset: its units have not
/// acted; everything else is untouched.
pub open spec fn reset_faction(units: Seq<UnitState>, f: Faction) -> Seq<UnitState> {
    Seq::new(
        units.len(),
        |i: int|
            if units[i].unit.faction == f {
                UnitState {
                    id: units[i].id,
                    unit: units[i].unit,
                    pos: units[i].pos,
                    status: TurnStatus { has_acted: false, has_moved: units[i].status.has_moved },
                }
            } else {
                units[i]
            },
    )
}

/// A phase timer advanced by a delta, saturating rather than wrapping.
pub open spec fn ticked_timer(t: EnemyTurnTimer, delta_ms: u64) -> EnemyTurnTimer {
    EnemyTurnTimer {
        elapsed_ms: if t.elapsed_ms + delta_ms <= u64::MAX {
            (t.elapsed_ms + delta_ms) as u64
        } else {
            u64::MAX
        },
        duration_ms: t.duration_ms,
    }
}

impl GameWorld {
    /// Begin the player phase: every player unit may act again. Enemy units
    /// are untouched.
    pub fn start_player_turn(&mut self)
        requires
            old(self).wf(),
        ensures
            final(self).wf(),
            final(self).grid == old(self).grid,
            final(self).selection == old(self).selection,
            final(self).turn_state == old(self).turn_state,
            final(self).turn_manager == old(self).turn_manager,
            final(self).enemy_timer == old(self).enemy_timer,
            final(self).next_unit_id == old(self).next_unit_id,
            final(self).units@ == reset_faction(old(self).units@, Faction::Player),
    {
        reset_faction_flags(&mut self.units, Faction::Player);
        proof {
            lemma_reset_faction_wf(old(self).units@, self.units@, self.grid, Faction::Player);
        }
    }

    /// Begin the enemy phase: restart the pacing timer and let every enemy
    /// unit act again. Player units are untouched. The timer is restarted
    /// every time this phase is entered and never persists across phases.
    pub fn start_enemy_turn(&mut self)
        requires
            old(self).wf(),
        ensures
            final(self).wf(),
            final(self).grid == old(self).grid,
            final(self).selection == old(self).selection,
            final(self).turn_state == old(self).turn_state,
            final(self).turn_manager == old(self).turn_manager,
            final(self).next_unit_id == old(self).next_unit_id,
            final(self).enemy_timer.elapsed_ms == 0,
            final(self).enemy_timer.duration_ms == old(self).enemy_timer.duration_ms,
            final(self).units@ == reset_faction(old(self).units@, Faction::Enemy),
    {
        self.enemy_timer.reset();
        reset_faction_flags(&mut self.units, Faction::Enemy);
        proof {
            lemma_reset_faction_wf(old(self).units@, self.units@, self.grid, Faction::Enemy);
        }
    }

    /// End-of-phase check, run once per tick after all movement.
    ///
    /// During the player phase the turn passes to the enemy exactly when
    /// every player unit has acted. During the enemy phase the timer first
    /// advances by `delta_ms`; the turn passes back to the player exactly
    /// when the pacing delay has elapsed and every enemy unit has acted — an
    /// elapsed timer alone, with enemy units still unacted, changes nothing.
    ///
    /// A hand-off performs the entering phase's start-of-phase work
    /// ([`Self::start_player_turn`] or [`Self::start_enemy_turn`]) and moves
    /// the turn bookkeeping in step.
    pub fn check_turn_end_system(&mut self, delta_ms: u64)
        requires
            old(self).wf(),
            old(self).turn_state == TurnState::EnemyTurn ==> old(self).turn_manager.current_turn
                < u32::MAX,
        ensures
            final(self).wf(),
            final(self).grid == old(self).grid,
            final(self).selection == old(self).selection,
            final(self).next_unit_id == old(self).next_unit_id,
            old(self).turn_state == TurnState::PlayerTurn ==> {
                if faction_all_acted(old(self).units@, Faction::Player) {
                    &&& final(self).turn_state == TurnState::EnemyTurn
                    &&& final(self).units@ == reset_faction(old(self).units@, Faction::Enemy)
                    &&& final(self).enemy_timer == (EnemyTurnTimer {
                        elapsed_ms: 0,
                        duration_ms: old(self).enemy_timer.duration_ms,
                    })
                    &&& final(self).turn_manager == (TurnManager {
                        current_turn: old(self).turn_manager.current_turn,
                        active_faction: Faction::Enemy,
                    })
                } else {
                    *final(self) == *old(self)
                }
            },
            old(self).turn_state == TurnState::EnemyTurn ==> {
                if ticked_timer(old(self).enemy_timer, delta_ms).finished_spec()
                    && faction_all_acted(old(self).units@, Faction::Enemy) {
                    &&& final(self).turn_state == TurnState::PlayerTurn
                    &&& final(self).units@ == reset_faction(old(self).units@, Faction::Player)
                    &&& final(self).enemy_timer == ticked_timer(old(self).enemy_timer, delta_ms)
                    &&& final(self).turn_manager == (TurnManager {
                        current_turn: (old(self).turn_manager.current_turn + 1) as u32,
                        active_faction: Faction::Player,
                    })
                } else {
                    &&& final(self).turn_state == old(self).turn_state
                    &&& final(self).units == old(self).units
                    &&& final(self).enemy_timer == ticked_timer(old(self).enemy_timer, delta_ms)
                    &&& final(self).turn_manager == old(self).turn_manager
                    &&& final(self).selection == old(self).selection
                }
            },
    {
        match self.turn_state {
            TurnState::PlayerTurn => {
                if all_acted(&self.units, Faction::Player) {
                    self.turn_state = TurnState::EnemyTurn;
                    self.turn_manager.next_turn();
                    self.start_enemy_turn();
                }
            },
            TurnState::EnemyTurn => {
                self.enemy_timer.tick(delta_ms);
                if self.enemy_timer.finished() && all_acted(&self.units, Faction::Enemy) {
                    self.turn_state = TurnState::PlayerTurn;
                    self.turn_manager.next_turn();
                    self.start_player_turn();
                }
            },
        }
    }
}

/// Clear the has-acted flag of every unit of faction `f` in place.
fn reset_faction_flags(units: &mut Vec<UnitState>, f: Faction)
    ensures
        final(units)@ == reset_faction(old(units)@, f),
{
    let n = units.len();
    let mut i: usize = 0;
    while i < n
        invariant
            n == units@.len(),
            i <= n,
            units@.len() == old(units)@.len(),
            forall|j: int| i <= j < n ==> units@[j] == old(units)@[j],
            forall|j: int| 0 <= j < i ==> units@[j] == reset_faction(old(units)@, f)[j],
        decreases n - i,
    {
        let u = units[i];
        if u.unit.faction == f {
            units[i] = UnitState {
                id: u.id,
                unit: u.unit,
                pos: u.pos,
                status: TurnStatus { has_acted: false, has_moved: u.status.has_moved },
            };
        }
        i = i + 1;
    }
    proof {
        assert(units@ =~= reset_faction(old(units)@, f));
    }
}

/// Resetting phase flags moves no unit and renames none, so roster
/// well-formedness carries over.
proof fn lemma_reset_faction_wf(pre: Seq<UnitState>, post: Seq<UnitState>, grid: GridMap, f: Faction)
    requires
        units_wf(pre, grid),
        post == reset_faction(pre, f),
    ensures
        units_wf(post, grid),
        post.len() == pre.len(),
        forall|i: int|
            0 <= i < pre.len() ==> (#[trigger] post[i]).id == pre[i].id && post[i].pos == pre[i].pos
                && post[i].unit == pre[i].unit,
{
    assert forall|i: int|
        0 <= i < pre.len() implies (#[trigger] post[i]).id == pre[i].id && post[i].pos == pre[i].pos
        && post[i].unit == pre[i].unit by {
        assert(post[i] == reset_faction(pre, f)[i]);
    }
}

/// A roster after the unit at index `i` stepped onto `target`: it stands
/// there and has acted; everything else is untouched.
pub open spec fn moved_units(units: Seq<UnitState>, i: int, target: GridPosition) -> Seq<
    UnitState,
> {
    units.update(
        i,
        UnitState {
            id: units[i].id,
            unit: units[i].unit,
            pos: target,
            status: TurnStatus { has_acted: true, has_moved: units[i].status.has_moved },
        },
    )
}

/// Some player unit exists to pursue.
pub open spec fn has_player(units: Seq<UnitState>) -> bool {
    exists|i: int| 0 <= i < units.len() && (#[trigger] units[i]).unit.faction == Faction::Player
}

/// Unit `k` is the pursuit target chosen from `from`: a player unit at
/// minimal Manhattan distance, the first such in roster order.
pub open spec fn is_chosen_target(units: Seq<UnitState>, from: GridPosition, k: int) -> bool {
    &&& 0 <= k < units.len()
    &&& units[k].unit.faction == Faction::Player
    &&& forall|j: int|
        0 <= j < units.len() && (#[trigger] units[j]).unit.faction == Faction::Player
            ==> manhattan(from, units[j].pos) >= manhattan(from, units[k].pos)
    &&& forall|j: int|
        0 <= j < k && (#[trigger] units[j]).unit.faction == Faction::Player ==> manhattan(
            from,
            units[j].pos,
        ) > manhattan(from, units[k].pos)
}

/// Tile `c` is open to the unit at index `i`: on the board, and under no
/// other unit either in the pre-phase snapshot of positions or in the roster
/// `units`. Checking both keeps simultaneous enemy decisions consistent: no
/// unit steps into a tile another enemy only just vacated, and none onto a
/// tile another enemy only just took.
pub open spec fn ai_candidate_open(
    units: Seq<UnitState>,
    snapshot: Seq<GridPosition>,
    i: int,
    grid: GridMap,
    c: GridPosition,
) -> bool {
    &&& grid.in_bounds_spec(c)
    &&& !(exists|m: int| 0 <= m < snapshot.len() && m != i && (#[trigger] snapshot[m]) == c)
    &&& !occupied_at_other(units, c, i)
}

/// What the pursuit step of the unit at index `i` may have done, given the
/// roster `units` it decided over: either it stayed because no open neighbor
/// came strictly closer to the target, or it stepped onto the first open
/// neighbor of minimal, strictly smaller distance.
pub open spec fn ai_outcome_ok(
    units: Seq<UnitState>,
    snapshot: Seq<GridPosition>,
    i: int,
    grid: GridMap,
    target: GridPosition,
    newpos: GridPosition,
) -> bool {
    let from = units[i].pos;
    let adj = adj_seq(from);
    let d0 = manhattan(from, target);
    if newpos == from {
        forall|j: int|
            0 <= j < 4 && ai_candidate_open(units, snapshot, i, grid, #[trigger] adj[j])
                ==> manhattan(adj[j], target) >= d0
    } else {
        exists|m: int|
            #![auto]
            0 <= m < 4 && adj[m] == newpos && ai_candidate_open(units, snapshot, i, grid, newpos)
                && manhattan(newpos, target) < d0 && (forall|j: int|
                0 <= j < 4 && ai_candidate_open(units, snapshot, i, grid, #[trigger] adj[j])
                    ==> manhattan(adj[j], target) >= manhattan(newpos, target)) && (forall|j: int|
                0 <= j < m && ai_candidate_open(units, snapshot, i, grid, #[trigger] adj[j])
                    ==> manhattan(adj[j], target) > manhattan(newpos, target))
    }
}

/// Manhattan distance, exactly, in a width that cannot overflow.
fn manhattan_dist(a: GridPosition, b: GridPosition) -> (r: i64)
    ensures
        r == manhattan(a, b),
{
    let dx: i64 = a.x as i64 - b.x as i64;
    let dy: i64 = a.y as i64 - b.y as i64;
    let adx: i64 = if dx < 0 {
        -dx
    } else {
        dx
    };
    let ady: i64 = if dy < 0 {
        -dy
    } else {
        dy
    };
    adx + ady
}

/// The pursuit target for an enemy at `from`: the first player unit at
/// minimal Manhattan distance, or nothing when no player unit exists.
fn nearest_player(units: &Vec<UnitState>, from: GridPosition) -> (r: Option<usize>)
    ensures
        match r {
            Some(k) => is_chosen_target(units@, from, k as int),
            None => !has_player(units@),
        },
{
    let mut best: Option<usize> = None;
    let mut best_d: i64 = 0;
    let mut i: usize = 0;
    while i < units.len()
        invariant
            i <= units@.len(),
            match best {
                Some(k) => {
                    &&& (k as int) < i
                    &&& units@[k as int].unit.faction == Faction::Player
                    &&& best_d == manhattan(from, units@[k as int].pos)
                    &&& forall|j: int|
                        0 <= j < i && (#[trigger] units@[j]).unit.faction == Faction::Player
                            ==> manhattan(from, units@[j].pos) >= best_d
                    &&& forall|j: int|
                        0 <= j < k && (#[trigger] units@[j]).unit.faction == Faction::Player
                            ==> manhattan(from, units@[j].pos) > best_d
                },
                None => forall|j: int|
                    0 <= j < i ==> (#[trigger] units@[j]).unit.faction != Faction::Player,
            },
        decreases units@.len() - i,
    {
        let u = units[i];
        if u.unit.faction == Faction::Player {
            let d = manhattan_dist(from, u.pos);
            let take = match best {
                Some(_) => d < best_d,
                None => true,
            };
            if take {
                best = Some(i);
                best_d = d;
            }
        }
        i = i + 1;
    }
    best
}

/// Whether the snapshot places any unit other than the one at index `skip`
/// on `pos`.
fn snapshot_occupied_excluding(snapshot: &Vec<GridPosition>, pos: GridPosition, skip: usize) -> (r:
    bool)
    ensures
        r == exists|m: int|
            0 <= m < snapshot@.len() && m != skip && (#[trigger] snapshot@[m]) == pos,
{
    let mut i: usize = 0;
    while i < snapshot.len()
        invariant
            i <= snapshot@.len(),
            forall|m: int| 0 <= m < i && m != skip ==> (#[trigger] snapshot@[m]) != pos,
        decreases snapshot@.len() - i,
    {
        if i != skip && snapshot[i].x == pos.x && snapshot[i].y == pos.y {
            return true;
        }
        i = i + 1;
    }
    false
}

/// The greedy step choice of the unit at index `i` toward `target`: among
/// the four neighbors in enumeration order, the first open one at minimal
/// Manhattan distance to the target, and only if that distance is strictly
/// below the unit's current one; otherwise no step.
fn best_pursuit_step(
    units: &Vec<UnitState>,
    snapshot: &Vec<GridPosition>,
    grid: &GridMap,
    i: usize,
    target: GridPosition,
) -> (r: Option<GridPosition>)
    requires
        i < units@.len(),
        i32::MIN < units@[i as int].pos.x < i32::MAX,
        i32::MIN < units@[i as int].pos.y < i32::MAX,
    ensures
        ({
            let from = units@[i as int].pos;
            let adj = adj_seq(from);
            let d0 = manhattan(from, target);
            match r {
                Some(c) => exists|m: int|
                    #![auto]
                    0 <= m < 4 && adj[m] == c && ai_candidate_open(
                        units@,
                        snapshot@,
                        i as int,
                        *grid,
                        c,
                    ) && manhattan(c, target) < d0 && (forall|j: int|
                        0 <= j < 4 && ai_candidate_open(
                            units@,
                            snapshot@,
                            i as int,
                            *grid,
                            #[trigger] adj[j],
                        ) ==> manhattan(adj[j], target) >= manhattan(c, target)) && (forall|j: int|
                        0 <= j < m && ai_candidate_open(
                            units@,
                            snapshot@,
                            i as int,
                            *grid,
                            #[trigger] adj[j],
                        ) ==> manhattan(adj[j], target) > manhattan(c, target)),
                None => forall|j: int|
                    0 <= j < 4 && ai_candidate_open(
                        units@,
                        snapshot@,
                        i as int,
                        *grid,
                        #[trigger] adj_seq(from)[j],
                    ) ==> manhattan(adj_seq(from)[j], target) >= d0,
            }
        }),
{
    let from = units[i].pos;
    let adj = from.adjacent();
    let d0 = manhattan_dist(from, target);
    let mut best: Option<usize> = None;
    let mut best_d: i64 = d0;
    let mut k: usize = 0;
    while k < 4
        invariant
            k <= 4,
            i < units@.len(),
            from == units@[i as int].pos,
            adj@ == adj_seq(from),
            adj@.len() == 4,
            d0 == manhattan(from, target),
            match best {
                Some(m) => {
                    &&& (m as int) < k
                    &&& ai_candidate_open(units@, snapshot@, i as int, *grid, adj@[m as int])
                    &&& best_d == manhattan(adj@[m as int], target)
                    &&& best_d < d0
                    &&& forall|j: int|
                        0 <= j < k && ai_candidate_open(
                            units@,
                            snapshot@,
                            i as int,
                            *grid,
                            #[trigger] adj@[j],
                        ) ==> manhattan(adj@[j], target) >= best_d
                    &&& forall|j: int|
                        0 <= j < m && ai_candidate_open(
                            units@,
                            snapshot@,
                            i as int,
                            *grid,
                            #[trigger] adj@[j],
                        ) ==> manhattan(adj@[j], target) > best_d
                },
                None => {
                    &&& best_d == d0
                    &&& forall|j: int|
                        0 <= j < k && ai_candidate_open(
                            units@,
                            snapshot@,
                            i as int,
                            *grid,
                            #[trigger] adj@[j],
                        ) ==> manhattan(adj@[j], target) >= d0
                },
            },
        decreases 4 - k,
    {
        let c = adj[k];
        let open = grid.is_in_bounds(&c) && !snapshot_occupied_excluding(snapshot, c, i)
            && !is_occupied_excluding(units, c, i);
        proof {
            assert(open == ai_candidate_open(units@, snapshot@, i as int, *grid, c));
        }
        if open {
            let d = manhattan_dist(c, target);
            if d < best_d {
                best = Some(k);
                best_d = d;
            }
        }
        k = k + 1;
    }
    match best {
        Some(m) => Some(adj[m]),
        None => None,
    }
}

/// The target choice depends only on factions and player positions, so a
/// roster in which enemies have moved but players stand still chooses the
/// same target.
proof fn lemma_chosen_target_stable(
    a: Seq<UnitState>,
    b: Seq<UnitState>,
    from: GridPosition,
    k: int,
)
    requires
        a.len() == b.len(),
        forall|t: int| 0 <= t < a.len() ==> (#[trigger] a[t]).unit.faction == b[t].unit.faction,
        forall|t: int|
            0 <= t < a.len() && (#[trigger] a[t]).unit.faction == Faction::Player ==> a[t].pos
                == b[t].pos,
        is_chosen_target(a, from, k),
    ensures
        is_chosen_target(b, from, k),
{
    assert forall|j: int|
        0 <= j < b.len() && (#[trigger] b[j]).unit.faction == Faction::Player implies manhattan(
        from,
        b[j].pos,
    ) >= manhattan(from, b[k].pos) by {
        assert(a[j].unit.faction == Faction::Player);
        assert(a[j].pos == b[j].pos && a[k].pos == b[k].pos);
        assert(manhattan(from, a[j].pos) >= manhattan(from, a[k].pos));
    }
    assert forall|j: int|
        0 <= j < k && (#[trigger] b[j]).unit.faction == Faction::Player implies manhattan(
        from,
        b[j].pos,
    ) > manhattan(from, b[k].pos) by {
        assert(a[j].unit.faction == Faction::Player);
        assert(a[j].pos == b[j].pos && a[k].pos == b[k].pos);
        assert(manhattan(from, a[j].pos) > manhattan(from, a[k].pos));
    }
}

/// Whether a player unit exists depends only on the factions.
proof fn lemma_has_player_stable(a: Seq<UnitState>, b: Seq<UnitState>)
    requires
        a.len() == b.len(),
        forall|t: int| 0 <= t < a.len() ==> (#[trigger] a[t]).unit.faction == b[t].unit.faction,
    ensures
        has_player(a) == has_player(b),
{
    if has_player(a) {
        let i = choose|i: int|
            0 <= i < a.len() && (#[trigger] a[i]).unit.faction == Faction::Player;
        assert(b[i].unit.faction == Faction::Player);
    }
    if has_player(b) {
        let i = choose|i: int|
            0 <= i < b.len() && (#[trigger] b[i]).unit.faction == Faction::Player;
        assert(a[i].unit.faction == Faction::Player);
    }
}

impl GameWorld {
    /// Let the unacted enemy unit at index `i` take its one action for the
    /// phase: pursue the nearest player unit by one greedy step if an open
    /// neighbor comes strictly closer, and count as having acted either way.
    /// With no player unit to pursue, the unit merely acts in place.
    ///
    /// `snapshot` is the roster's positions as they stood when the enemy
    /// phase movement began; candidate tiles are refused when taken in the
    /// snapshot or in the present roster.
    pub fn ai_take_action(&mut self, i: usize, snapshot: &Vec<GridPosition>)
        requires
            old(self).wf(),
            i < old(self).units@.len(),
            old(self).units@[i as int].unit.faction == Faction::Enemy,
            !old(self).units@[i as int].status.has_acted,
        ensures
            final(self).wf(),
            final(self).grid == old(self).grid,
            final(self).selection == old(self).selection,
            final(self).turn_state == old(self).turn_state,
            final(self).turn_manager == old(self).turn_manager,
            final(self).enemy_timer == old(self).enemy_timer,
            final(self).next_unit_id == old(self).next_unit_id,
            final(self).units@.len() == old(self).units@.len(),
            forall|j: int|
                0 <= j < old(self).units@.len() && j != i ==> final(self).units@[j] == old(
                    self,
                ).units@[j],
            final(self).units@[i as int].id == old(self).units@[i as int].id,
            final(self).units@[i as int].unit == old(self).units@[i as int].unit,
            final(self).units@[i as int].status.has_moved == old(
                self,
            ).units@[i as int].status.has_moved,
            final(self).units@[i as int].status.has_acted,
            !has_player(old(self).units@) ==> final(self).units@[i as int].pos == old(
                self,
            ).units@[i as int].pos,
            has_player(old(self).units@) ==> exists|k: int|
                #![auto]
                is_chosen_target(old(self).units@, old(self).units@[i as int].pos, k)
                    && ai_outcome_ok(
                    old(self).units@,
                    snapshot@,
                    i as int,
                    old(self).grid,
                    old(self).units@[k].pos,
                    final(self).units@[i as int].pos,
                ),
    {
        let u = self.units[i];
        match nearest_player(&self.units, u.pos) {
            None => {
                self.units[i] = UnitState {
                    id: u.id,
                    unit: u.unit,
                    pos: u.pos,
                    status: TurnStatus { has_acted: true, has_moved: u.status.has_moved },
                };
                proof {
                    assert(self.units@ =~= old(self).units@.update(
                        i as int,
                        self.units@[i as int],
                    ));
                    assert forall|a: int, b: int|
                        0 <= a < self.units@.len() && 0 <= b < self.units@.len() && a != b implies (
                        #[trigger] self.units@[a]).pos != (#[trigger] self.units@[b]).pos && (
                        self.units@[a]).id != (self.units@[b]).id by {
                        assert(old(self).units@[a].pos != old(self).units@[b].pos);
                        assert(old(self).units@[a].id != old(self).units@[b].id);
                    }
                }
            },
            Some(t) => {
                let target = self.units[t].pos;
                proof {
                    assert(self.grid.in_bounds_spec(self.units@[i as int].pos));
                }
                let step = best_pursuit_step(&self.units, snapshot, &self.grid, i, target);
                match step {
                    None => {
                        self.units[i] = UnitState {
                            id: u.id,
                            unit: u.unit,
                            pos: u.pos,
                            status: TurnStatus { has_acted: true, has_moved: u.status.has_moved },
                        };
                        proof {
                            assert forall|a: int, b: int|
                                0 <= a < self.units@.len() && 0 <= b < self.units@.len() && a != b
                                implies (#[trigger] self.units@[a]).pos != (
                            #[trigger] self.units@[b]).pos && (self.units@[a]).id != (
                            self.units@[b]).id by {
                                assert(old(self).units@[a].pos != old(self).units@[b].pos);
                                assert(old(self).units@[a].id != old(self).units@[b].id);
                            }
                            assert(ai_outcome_ok(
                                old(self).units@,
                                snapshot@,
                                i as int,
                                old(self).grid,
                                old(self).units@[t as int].pos,
                                self.units@[i as int].pos,
                            ));
                        }
                    },
                    Some(c) => {
                        proof {
                            let from = old(self).units@[i as int].pos;
                            let adj = adj_seq(from);
                            let m = choose|m: int|
                                #![auto]
                                0 <= m < 4 && adj[m] == c && ai_candidate_open(
                                    old(self).units@,
                                    snapshot@,
                                    i as int,
                                    old(self).grid,
                                    c,
                                ) && manhattan(c, target) < manhattan(from, target);
                            assert(c != from);
                        }
                        self.units[i] = UnitState {
                            id: u.id,
                            unit: u.unit,
                            pos: c,
                            status: TurnStatus { has_acted: true, has_moved: u.status.has_moved },
                        };
                        proof {
                            assert(!occupied_at_other(old(self).units@, c, i as int));
                            assert forall|a: int, b: int|
                                0 <= a < self.units@.len() && 0 <= b < self.units@.len() && a != b
                                implies (#[trigger] self.units@[a]).pos != (
                            #[trigger] self.units@[b]).pos && (self.units@[a]).id != (
                            self.units@[b]).id by {
                                assert(old(self).units@[a].id != old(self).units@[b].id);
                                if a == i {
                                    assert(self.units@[b] == old(self).units@[b]);
                                    assert(old(self).units@[b].pos != c);
                                } else if b == i {
                                    assert(self.units@[a] == old(self).units@[a]);
                                    assert(old(self).units@[a].pos != c);
                                } else {
                                    assert(old(self).units@[a].pos != old(self).units@[b].pos);
                                }
                            }
                            assert(ai_outcome_ok(
                                old(self).units@,
                                snapshot@,
                                i as int,
                                old(self).grid,
                                old(self).units@[t as int].pos,
                                self.units@[i as int].pos,
                            ));
                        }
                    },
                }
            },
        }
    }
}

/// What one enemy phase did to the unit at index `j`, stated over the
/// roster before the phase (`pre`) and after it (`post`). With no player to
/// pursue the unit stood still. Otherwise, toward its chosen target, it
/// either stepped to a strictly closer neighbor — the first, in enumeration
/// order, of minimal distance among the neighbors open through the phase —
/// or stood still, and then no neighbor open through the phase offered a
/// strictly closer step.
pub open spec fn ai_unit_outcome(
    pre: Seq<UnitState>,
    post: Seq<UnitState>,
    j: int,
    grid: GridMap,
) -> bool {
    if !has_player(pre) {
        post[j].pos == pre[j].pos
    } else {
        exists|k: int|
            #![auto]
            is_chosen_target(pre, pre[j].pos, k) && ai_end_outcome(pre, post, j, grid, pre[k].pos)
    }
}

/// Tile `c` is open to the unit at index `j` through the whole phase: on the
/// board, and under no other unit either before the phase or after it. Such
/// a tile was necessarily open at the moment the unit decided, whatever the
/// other enemies did around that moment.
pub open spec fn ai_open_through(
    pre: Seq<UnitState>,
    post: Seq<UnitState>,
    j: int,
    grid: GridMap,
    c: GridPosition,
) -> bool {
    &&& grid.in_bounds_spec(c)
    &&& !occupied_at_other(pre, c, j)
    &&& !occupied_at_other(post, c, j)
}

/// The movement half of [`ai_unit_outcome`], for a fixed target.
pub open spec fn ai_end_outcome(
    pre: Seq<UnitState>,
    post: Seq<UnitState>,
    j: int,
    grid: GridMap,
    target: GridPosition,
) -> bool {
    let from = pre[j].pos;
    let d0 = manhattan(from, target);
    if post[j].pos == from {
        forall|m: int|
            0 <= m < 4 && ai_open_through(pre, post, j, grid, #[trigger] adj_seq(from)[m])
                ==> manhattan(adj_seq(from)[m], target) >= d0
    } else {
        exists|m: int|
            #![auto]
            0 <= m < 4 && adj_seq(from)[m] == post[j].pos && ai_open_through(
                pre,
                post,
                j,
                grid,
                post[j].pos,
            ) && manhattan(post[j].pos, target) < d0 && (forall|c: int|
                0 <= c < 4 && ai_open_through(pre, post, j, grid, #[trigger] adj_seq(from)[c])
                    ==> manhattan(adj_seq(from)[c], target) >= manhattan(post[j].pos, target)) && (
            forall|c: int|
                0 <= c < m && ai_open_through(pre, post, j, grid, #[trigger] adj_seq(from)[c])
                    ==> manhattan(adj_seq(from)[c], target) > manhattan(post[j].pos, target))
    }
}

/// What one enemy phase did to the whole roster: players untouched, enemies
/// that had already acted untouched, every enemy counted as acted, and every
/// enemy that still had its action bound by [`ai_unit_outcome`].
pub open spec fn ai_phase_ok(pre: Seq<UnitState>, post: Seq<UnitState>, grid: GridMap) -> bool {
    &&& post.len() == pre.len()
    &&& forall|j: int|
        0 <= j < pre.len() && (#[trigger] pre[j]).unit.faction != Faction::Enemy ==> post[j]
            == pre[j]
    &&& forall|j: int|
        0 <= j < pre.len() && (#[trigger] pre[j]).unit.faction == Faction::Enemy
            && pre[j].status.has_acted ==> post[j] == pre[j]
    &&& forall|j: int|
        0 <= j < pre.len() && (#[trigger] pre[j]).unit.faction == Faction::Enemy ==> {
            &&& post[j].id == pre[j].id
            &&& post[j].unit == pre[j].unit
            &&& post[j].status.has_moved == pre[j].status.has_moved
            &&& post[j].status.has_acted
        }
    &&& forall|j: int|
        0 <= j < pre.len() && (#[trigger] pre[j]).unit.faction == Faction::Enemy
            && !pre[j].status.has_acted ==> ai_unit_outcome(pre, post, j, grid)
}

/// A settled unit's outcome is not disturbed when a later unit `j` — still
/// standing where `pre` put it — takes its own action: tiles it leaves were
/// occupied in `pre`, tiles it takes are occupied afterwards, so the settled
/// unit's stay-condition still holds of the newer roster.
proof fn lemma_ai_outcome_preserved(
    pre: Seq<UnitState>,
    a: Seq<UnitState>,
    b: Seq<UnitState>,
    m: int,
    j: int,
    grid: GridMap,
)
    requires
        pre.len() == a.len(),
        a.len() == b.len(),
        0 <= m < pre.len(),
        0 <= j < pre.len(),
        m != j,
        forall|t: int| 0 <= t < a.len() && t != j ==> (#[trigger] a[t]) == b[t],
        a[j] == pre[j],
        b[j].pos == pre[j].pos || !occupied_at_other(a, b[j].pos, j),
        ai_unit_outcome(pre, a, m, grid),
    ensures
        ai_unit_outcome(pre, b, m, grid),
{
    if !has_player(pre) {
        assert(b[m] == a[m]);
    } else {
        let k = choose|k: int|
            #![auto]
            is_chosen_target(pre, pre[m].pos, k) && ai_end_outcome(pre, a, m, grid, pre[k].pos);
        let target = pre[k].pos;
        let from = pre[m].pos;
        assert(b[m] == a[m]);
        assert forall|tile: GridPosition|
            !occupied_at_other(b, tile, m) && !occupied_at_other(pre, tile, m) implies
            !occupied_at_other(a, tile, m) by {
            if occupied_at_other(a, tile, m) {
                let t = choose|t: int| 0 <= t < a.len() && t != m && (#[trigger] a[t]).pos == tile;
                if t == j {
                    assert(pre[t].pos == tile);
                } else {
                    assert(b[t].pos == tile);
                }
            }
        }
        if a[m].pos == from {
            assert forall|c: int|
                0 <= c < 4 && ai_open_through(pre, b, m, grid, #[trigger] adj_seq(from)[c])
                implies manhattan(adj_seq(from)[c], target) >= manhattan(from, target) by {
                assert(ai_open_through(pre, a, m, grid, adj_seq(from)[c]));
            }
        } else {
            let newpos = a[m].pos;
            let mi = choose|mi: int|
                #![auto]
                0 <= mi < 4 && adj_seq(from)[mi] == newpos && ai_open_through(
                    pre,
                    a,
                    m,
                    grid,
                    newpos,
                ) && manhattan(newpos, target) < manhattan(from, target) && (forall|c: int|
                    0 <= c < 4 && ai_open_through(pre, a, m, grid, #[trigger] adj_seq(from)[c])
                        ==> manhattan(adj_seq(from)[c], target) >= manhattan(newpos, target)) && (
                forall|c: int|
                    0 <= c < mi && ai_open_through(pre, a, m, grid, #[trigger] adj_seq(from)[c])
                        ==> manhattan(adj_seq(from)[c], target) > manhattan(newpos, target));
            assert(!occupied_at_other(b, newpos, m)) by {
                if occupied_at_other(b, newpos, m) {
                    let t = choose|t: int|
                        0 <= t < b.len() && t != m && (#[trigger] b[t]).pos == newpos;
                    if t != j {
                        assert(a[t].pos == newpos);
                    } else {
                        // b[j] cannot stand on the tile m moved to: either j
                        // never moved and pre put it elsewhere, or j's own
                        // destination was unoccupied among the others of `a`.
                        if b[j].pos == pre[j].pos {
                            assert(occupied_at_other(pre, newpos, m));
                        } else {
                            assert(a[m].pos == b[j].pos);
                            assert(occupied_at_other(a, b[j].pos, j));
                        }
                    }
                }
            }
            assert(ai_open_through(pre, b, m, grid, newpos));
            assert forall|c: int|
                0 <= c < 4 && ai_open_through(pre, b, m, grid, #[trigger] adj_seq(from)[c])
                implies manhattan(adj_seq(from)[c], target) >= manhattan(newpos, target) by {
                assert(ai_open_through(pre, a, m, grid, adj_seq(from)[c]));
            }
            assert forall|c: int|
                0 <= c < mi && ai_open_through(pre, b, m, grid, #[trigger] adj_seq(from)[c])
                implies manhattan(adj_seq(from)[c], target) > manhattan(newpos, target) by {
                assert(ai_open_through(pre, a, m, grid, adj_seq(from)[c]));
            }
        }
        assert(ai_end_outcome(pre, b, m, grid, target));
    }
}

impl GameWorld {
    /// The enemy phase movement, run once per tick during the enemy turn
    /// only: each enemy unit that has not yet acted, in roster order, takes
    /// its one pursuit action (see [`Self::ai_take_action`]). Positions are
    /// snapshotted before any unit moves, so all decisions of one tick see a
    /// consistent world. Outside the enemy turn nothing changes.
    pub fn ai_movement_system(&mut self)
        requires
            old(self).wf(),
        ensures
            final(self).wf(),
            final(self).grid == old(self).grid,
            final(self).selection == old(self).selection,
            final(self).turn_state == old(self).turn_state,
            final(self).turn_manager == old(self).turn_manager,
            final(self).enemy_timer == old(self).enemy_timer,
            final(self).next_unit_id == old(self).next_unit_id,
            old(self).turn_state != TurnState::EnemyTurn ==> *final(self) == *old(self),
            old(self).turn_state == TurnState::EnemyTurn ==> ai_phase_ok(
                old(self).units@,
                final(self).units@,
                old(self).grid,
            ),
    {
        if !(self.turn_state == TurnState::EnemyTurn) {
            return;
        }
        let ghost pre = self.units@;
        let n = self.units.len();
        let mut snapshot: Vec<GridPosition> = Vec::new();
        let mut i: usize = 0;
        while i < n
            invariant
                n == self.units@.len(),
                self.units@ == pre,
                i <= n,
                snapshot@.len() == i,
                forall|m: int| 0 <= m < i ==> (#[trigger] snapshot@[m]) == pre[m].pos,
            decreases n - i,
        {
            snapshot.push(self.units[i].pos);
            i = i + 1;
        }
        let mut j: usize = 0;
        while j < n
            invariant
                self.wf(),
                pre == old(self).units@,
                n == pre.len(),
                n == self.units@.len(),
                self.grid == old(self).grid,
                self.selection == old(self).selection,
                self.turn_state == old(self).turn_state,
                self.turn_manager == old(self).turn_manager,
                self.enemy_timer == old(self).enemy_timer,
                self.next_unit_id == old(self).next_unit_id,
                snapshot@.len() == n,
                forall|m: int| 0 <= m < n ==> (#[trigger] snapshot@[m]) == pre[m].pos,
                j <= n,
                forall|m: int| j <= m < n ==> (#[trigger] self.units@[m]) == pre[m],
                forall|m: int|
                    0 <= m < j && (#[trigger] pre[m]).unit.faction != Faction::Enemy
                        ==> self.units@[m] == pre[m],
                forall|m: int|
                    0 <= m < j && (#[trigger] pre[m]).unit.faction == Faction::Enemy
                        && pre[m].status.has_acted ==> self.units@[m] == pre[m],
                forall|m: int|
                    0 <= m < j && (#[trigger] pre[m]).unit.faction == Faction::Enemy ==> {
                        &&& (#[trigger] self.units@[m]).id == pre[m].id
                        &&& self.units@[m].unit == pre[m].unit
                        &&& self.units@[m].status.has_moved == pre[m].status.has_moved
                        &&& self.units@[m].status.has_acted
                    },
                forall|m: int|
                    0 <= m < j && (#[trigger] pre[m]).unit.faction == Faction::Enemy
                        && !pre[m].status.has_acted ==> ai_unit_outcome(
                        pre,
                        self.units@,
                        m,
                        old(self).grid,
                    ),
            decreases n - j,
        {
            let u = self.units[j];
            if u.unit.faction == Faction::Enemy && !u.status.has_acted {
                let ghost mid = self.units@;
                self.ai_take_action(j, &snapshot);
                proof {
                    let post = self.units@;
                    assert forall|t: int|
                        0 <= t < n implies (#[trigger] mid[t]).unit.faction
                        == pre[t].unit.faction by {
                        if t >= j {
                            assert(mid[t] == pre[t]);
                        } else if pre[t].unit.faction == Faction::Enemy {
                            assert(mid[t].unit == pre[t].unit);
                        } else {
                            assert(mid[t] == pre[t]);
                        }
                    }
                    assert forall|t: int|
                        0 <= t < n && (#[trigger] pre[t]).unit.faction == Faction::Player implies
                        mid[t].pos == pre[t].pos by {
                        assert(mid[t] == pre[t]);
                    }
                    lemma_has_player_stable(mid, pre);
                    if has_player(pre) {
                        let k = choose|k: int|
                            #![auto]
                            is_chosen_target(mid, mid[j as int].pos, k) && ai_outcome_ok(
                                mid,
                                snapshot@,
                                j as int,
                                old(self).grid,
                                mid[k].pos,
                                post[j as int].pos,
                            );
                        assert(mid[j as int] == pre[j as int]);
                        let from = pre[j as int].pos;
                        lemma_chosen_target_stable(mid, pre, from, k);
                        assert(pre[k].unit.faction == Faction::Player);
                        assert(mid[k] == pre[k]);
                        let target = pre[k].pos;
                        let d0 = manhattan(from, target);
                        assert forall|tile: GridPosition|
                            old(self).grid.in_bounds_spec(tile) && !occupied_at_other(
                                pre,
                                tile,
                                j as int,
                            ) && !occupied_at_other(post, tile, j as int) implies ai_candidate_open(
                            mid,
                            snapshot@,
                            j as int,
                            old(self).grid,
                            tile,
                        ) by {
                            assert(!(exists|m2: int|
                                0 <= m2 < snapshot@.len() && m2 != j && (#[trigger] snapshot@[m2])
                                    == tile)) by {
                                if exists|m2: int|
                                    0 <= m2 < snapshot@.len() && m2 != j && (
                                    #[trigger] snapshot@[m2]) == tile {
                                    let m2 = choose|m2: int|
                                        0 <= m2 < snapshot@.len() && m2 != j && (
                                        #[trigger] snapshot@[m2]) == tile;
                                    assert(pre[m2].pos == tile);
                                }
                            }
                            assert(!occupied_at_other(mid, tile, j as int)) by {
                                if occupied_at_other(mid, tile, j as int) {
                                    let t = choose|t: int|
                                        0 <= t < mid.len() && t != j && (#[trigger] mid[t]).pos
                                            == tile;
                                    if t > j {
                                        assert(mid[t] == pre[t]);
                                    } else {
                                        assert(post[t] == mid[t]);
                                    }
                                }
                            }
                        }
                        if post[j as int].pos == from {
                            assert forall|c: int|
                                0 <= c < 4 && ai_open_through(
                                    pre,
                                    post,
                                    j as int,
                                    old(self).grid,
                                    #[trigger] adj_seq(from)[c],
                                ) implies manhattan(adj_seq(from)[c], target) >= d0 by {
                                assert(ai_candidate_open(
                                    mid,
                                    snapshot@,
                                    j as int,
                                    old(self).grid,
                                    adj_seq(from)[c],
                                ));
                            }
                            assert(ai_end_outcome(pre, post, j as int, old(self).grid, target));
                        } else {
                            let newpos = post[j as int].pos;
                            let m = choose|m: int|
                                #![auto]
                                0 <= m < 4 && adj_seq(from)[m] == newpos && ai_candidate_open(
                                    mid,
                                    snapshot@,
                                    j as int,
                                    old(self).grid,
                                    newpos,
                                ) && manhattan(newpos, target) < d0 && (forall|c: int|
                                    0 <= c < 4 && ai_candidate_open(
                                        mid,
                                        snapshot@,
                                        j as int,
                                        old(self).grid,
                                        #[trigger] adj_seq(from)[c],
                                    ) ==> manhattan(adj_seq(from)[c], target) >= manhattan(
                                        newpos,
                                        target,
                                    )) && (forall|c: int|
                                    0 <= c < m && ai_candidate_open(
                                        mid,
                                        snapshot@,
                                        j as int,
                                        old(self).grid,
                                        #[trigger] adj_seq(from)[c],
                                    ) ==> manhattan(adj_seq(from)[c], target) > manhattan(
                                        newpos,
                                        target,
                                    ));
                            assert(!occupied_at_other(pre, newpos, j as int)) by {
                                if occupied_at_other(pre, newpos, j as int) {
                                    let m2 = choose|m2: int|
                                        0 <= m2 < pre.len() && m2 != j && (#[trigger] pre[m2]).pos
                                            == newpos;
                                    assert(snapshot@[m2] == newpos);
                                }
                            }
                            assert(!occupied_at_other(post, newpos, j as int)) by {
                                if occupied_at_other(post, newpos, j as int) {
                                    let t = choose|t: int|
                                        0 <= t < post.len() && t != j && (#[trigger] post[t]).pos
                                            == newpos;
                                    assert(self.units@[t].pos != self.units@[j as int].pos);
                                }
                            }
                            assert(ai_open_through(pre, post, j as int, old(self).grid, newpos));
                            assert forall|c: int|
                                0 <= c < 4 && ai_open_through(
                                    pre,
                                    post,
                                    j as int,
                                    old(self).grid,
                                    #[trigger] adj_seq(from)[c],
                                ) implies manhattan(adj_seq(from)[c], target) >= manhattan(
                                newpos,
                                target,
                            ) by {
                                assert(ai_candidate_open(
                                    mid,
                                    snapshot@,
                                    j as int,
                                    old(self).grid,
                                    adj_seq(from)[c],
                                ));
                            }
                            assert forall|c: int|
                                0 <= c < m && ai_open_through(
                                    pre,
                                    post,
                                    j as int,
                                    old(self).grid,
                                    #[trigger] adj_seq(from)[c],
                                ) implies manhattan(adj_seq(from)[c], target) > manhattan(
                                newpos,
                                target,
                            ) by {
                                assert(ai_candidate_open(
                                    mid,
                                    snapshot@,
                                    j as int,
                                    old(self).grid,
                                    adj_seq(from)[c],
                                ));
                            }
                            assert(ai_end_outcome(pre, post, j as int, old(self).grid, target));
                        }
                        assert(ai_unit_outcome(pre, post, j as int, old(self).grid));
                    } else {
                        assert(post[j as int].pos == pre[j as int].pos);
                        assert(ai_unit_outcome(pre, post, j as int, old(self).grid));
                    }
                    assert(!occupied_at_other(mid, post[j as int].pos, j as int)) by {
                        if occupied_at_other(mid, post[j as int].pos, j as int) {
                            let t = choose|t: int|
                                0 <= t < mid.len() && t != j && (#[trigger] mid[t]).pos == post[j as int].pos;
                            assert(post[t] == mid[t]);
                            assert(self.units@[t].pos != self.units@[j as int].pos);
                        }
                    }
                    assert forall|m: int|
                        0 <= m < j && (#[trigger] pre[m]).unit.faction == Faction::Enemy
                            && !pre[m].status.has_acted implies ai_unit_outcome(
                        pre,
                        post,
                        m,
                        old(self).grid,
                    ) by {
                        lemma_ai_outcome_preserved(pre, mid, post, m, j as int, old(self).grid);
                    }
                }
            }
            j = j + 1;
        }
    }
}

/// The selection outcome of one click: what
/// [`GameWorld::unit_selection_system`] promises of its pre and post states.
pub open spec fn selection_step(pre: GameWorld, post: GameWorld, click: GridPosition) -> bool {
    &&& post.grid == pre.grid
    &&& post.units == pre.units
    &&& post.turn_state == pre.turn_state
    &&& post.turn_manager == pre.turn_manager
    &&& post.enemy_timer == pre.enemy_timer
    &&& post.next_unit_id == pre.next_unit_id
    &&& post.selection.hovered_tile == pre.selection.hovered_tile
    &&& (exists|i: int|
        0 <= i < pre.units@.len() && (#[trigger] pre.units@[i]).pos == click
            && pre.units@[i].unit.faction == Faction::Player) ==> (exists|i: int|
        0 <= i < pre.units@.len() && (#[trigger] pre.units@[i]).pos == click
            && pre.units@[i].unit.faction == Faction::Player && post.selection.selected_unit
            == Some(pre.units@[i].id))
    &&& !(exists|i: int|
        0 <= i < pre.units@.len() && (#[trigger] pre.units@[i]).pos == click
            && pre.units@[i].unit.faction == Faction::Player) ==> post.selection.selected_unit
        == pre.selection.selected_unit
}

/// The movement outcome of one click: what [`GameWorld::movement_system`]
/// promises of its pre and post states.
pub open spec fn movement_step(pre: GameWorld, post: GameWorld, click: GridPosition) -> bool {
    &&& post.grid == pre.grid
    &&& post.selection == pre.selection
    &&& post.turn_state == pre.turn_state
    &&& post.turn_manager == pre.turn_manager
    &&& post.enemy_timer == pre.enemy_timer
    &&& post.next_unit_id == pre.next_unit_id
    &&& pre.turn_state != TurnState::PlayerTurn ==> post.units == pre.units
    &&& pre.turn_state == TurnState::PlayerTurn ==> match pre.selection.selected_unit {
        Some(id) => if pre.move_checks(id, click) is Ok {
            post.units@ == moved_units(pre.units@, index_of_id(pre.units@, id), click)
        } else {
            post.units == pre.units
        },
        None => post.units == pre.units,
    }
}

/// The enemy-phase outcome: what [`GameWorld::ai_movement_system`] promises
/// of its pre and post states.
pub open spec fn ai_step(pre: GameWorld, post: GameWorld) -> bool {
    &&& post.grid == pre.grid
    &&& post.selection == pre.selection
    &&& post.turn_state == pre.turn_state
    &&& post.turn_manager == pre.turn_manager
    &&& post.enemy_timer == pre.enemy_timer
    &&& post.next_unit_id == pre.next_unit_id
    &&& pre.turn_state != TurnState::EnemyTurn ==> post == pre
    &&& pre.turn_state == TurnState::EnemyTurn ==> ai_phase_ok(pre.units@, post.units@, pre.grid)
}

/// The turn hand-off outcome for one time delta: what
/// [`GameWorld::check_turn_end_system`] promises of its pre and post states.
pub open spec fn turn_step(pre: GameWorld, post: GameWorld, delta_ms: u64) -> bool {
    &&& post.grid == pre.grid
    &&& post.selection == pre.selection
    &&& post.next_unit_id == pre.next_unit_id
    &&& pre.turn_state == TurnState::PlayerTurn ==> {
        if faction_all_acted(pre.units@, Faction::Player) {
            &&& post.turn_state == TurnState::EnemyTurn
            &&& post.units@ == reset_faction(pre.units@, Faction::Enemy)
            &&& post.enemy_timer == (EnemyTurnTimer {
                elapsed_ms: 0,
                duration_ms: pre.enemy_timer.duration_ms,
            })
            &&& post.turn_manager == (TurnManager {
                current_turn: pre.turn_manager.current_turn,
                active_faction: Faction::Enemy,
            })
        } else {
            post == pre
        }
    }
    &&& pre.turn_state == TurnState::EnemyTurn ==> {
        if ticked_timer(pre.enemy_timer, delta_ms).finished_spec() && faction_all_acted(
            pre.units@,
            Faction::Enemy,
        ) {
            &&& post.turn_state == TurnState::PlayerTurn
            &&& post.units@ == reset_faction(pre.units@, Faction::Player)
            &&& post.enemy_timer == ticked_timer(pre.enemy_timer, delta_ms)
            &&& post.turn_manager == (TurnManager {
                current_turn: (pre.turn_manager.current_turn + 1) as u32,
                active_faction: Faction::Player,
            })
        } else {
            &&& post.turn_state == pre.turn_state
            &&& post.units == pre.units
            &&& post.enemy_timer == ticked_timer(pre.enemy_timer, delta_ms)
            &&& post.turn_manager == pre.turn_manager
        }
    }
}

impl GameWorld {
    /// One simulation tick, in the fixed order that the sequencing
    /// invariants require: selection, player movement (both fed the same
    /// resolved click, if any), enemy movement, then the turn-completion
    /// check with this tick's time delta. No other order is offered.
    ///
    /// The chained `exists` pins the tick's effect to its inputs: the final
    /// state is reachable from the old one by exactly the four stages'
    /// promised outcomes, in order. Without a click the two input stages
    /// fall away.
    pub fn tick(&mut self, click: Option<GridPosition>, delta_ms: u64)
        requires
            old(self).wf(),
            old(self).turn_manager.current_turn < u32::MAX,
        ensures
            final(self).wf(),
            final(self).grid == old(self).grid,
            final(self).next_unit_id == old(self).next_unit_id,
            final(self).units@.len() == old(self).units@.len(),
            forall|i: int|
                0 <= i < old(self).units@.len() ==> (#[trigger] final(self).units@[i]).id == old(
                    self,
                ).units@[i].id && final(self).units@[i].unit == old(self).units@[i].unit,
            forall|i: int, j: int|
                0 <= i < final(self).units@.len() && 0 <= j < final(self).units@.len() && i != j
                    ==> (#[trigger] final(self).units@[i]).pos != (#[trigger] final(self).units@[j]).pos,
            match click {
                Some(p) => exists|s1: GameWorld, s2: GameWorld, s3: GameWorld|
                    #![auto]
                    selection_step(*old(self), s1, p) && movement_step(s1, s2, p) && ai_step(s2, s3)
                        && turn_step(s3, *final(self), delta_ms),
                None => exists|s3: GameWorld|
                    #![auto]
                    ai_step(*old(self), s3) && turn_step(s3, *final(self), delta_ms),
            },
    {
        let ghost s0 = *self;
        let ghost mut sa = *self;
        match click {
            Some(p) => {
                self.unit_selection_system(p);
                proof {
                    sa = *self;
                }
                self.movement_system(p);
            },
            None => {},
        }
        let ghost s2 = *self;
        proof {
            assert forall|i: int|
                0 <= i < s0.units@.len() implies (#[trigger] s2.units@[i]).id == s0.units@[i].id
                && s2.units@[i].unit == s0.units@[i].unit by {}
        }
        self.ai_movement_system();
        let ghost s3 = *self;
        proof {
            assert forall|i: int|
                0 <= i < s2.units@.len() implies (#[trigger] s3.units@[i]).id == s2.units@[i].id
                && s3.units@[i].unit == s2.units@[i].unit by {
                if s2.turn_state == TurnState::EnemyTurn {
                    if s2.units@[i].unit.faction == Faction::Enemy {
                    } else {
                        assert(s3.units@[i] == s2.units@[i]);
                    }
                }
            }
        }
        self.check_turn_end_system(delta_ms);
        proof {
            let s4 = *self;
            assert forall|i: int|
                0 <= i < s3.units@.len() implies (#[trigger] s4.units@[i]).id == s3.units@[i].id
                && s4.units@[i].unit == s3.units@[i].unit by {
                if s4.units@ == reset_faction(s3.units@, Faction::Player) {
                    assert(s4.units@[i] == reset_faction(s3.units@, Faction::Player)[i]);
                } else if s4.units@ == reset_faction(s3.units@, Faction::Enemy) {
                    assert(s4.units@[i] == reset_faction(s3.units@, Faction::Enemy)[i]);
                }
            }
            assert(turn_step(s3, s4, delta_ms));
            assert(ai_step(s2, s3));
            match click {
                Some(p) => {
                    assert(selection_step(s0, sa, p));
                    assert(movement_step(sa, s2, p));
                },
                None => {
                    assert(s2 == s0);
                    assert(ai_step(s0, s3));
                },
            }
        }
    }
}

/// Mutual exclusion of tiles: in a well-formed world no two units occupy
/// the same grid position. Every operation of the simulation proves that it
/// keeps the world well-formed, so this holds after any tick, for any
/// sequence of valid moves.
pub proof fn lemma_no_shared_tile(w: GameWorld, i: int, j: int)
    requires
        w.wf(),
        0 <= i < w.units@.len(),
        0 <= j < w.units@.len(),
        i != j,
    ensures
        w.units@[i].pos != w.units@[j].pos,
{
}

} // verus!
