//! Per-entity data of the simulation: grid coordinates, tiles, units and
//! their turn status.

use vstd::prelude::*;

verus! {

/// A position on the grid in whole cells, distinct from world (pixel)
/// coordinates.
#[derive(Debug, Clone, Copy, PartialEq, Eq, Hash, Structural)]
pub struct GridPosition {
    pub x: i32,
    pub y: i32,
}

/// Manhattan distance |dx| + |dy| between two grid positions.
pub open spec fn manhattan(a: GridPosition, b: GridPosition) -> int {
    vstd::math::abs(a.x - b.x) as int + vstd::math::abs(a.y - b.y) as int
}

/// True when `b` is one of the four 4-connected neighbors of `a`.
pub open spec fn adjacent_spec(a: GridPosition, b: GridPosition) -> bool {
    ||| b.x == a.x + 1 && b.y == a.y
    ||| b.x == a.x - 1 && b.y == a.y
    ||| b.x == a.x && b.y == a.y + 1
    ||| b.x == a.x && b.y == a.y - 1
}

/// The four 4-connected neighbors of `p` in the fixed enumeration order
/// right, left, up, down; meaningful when `p` is not at the numeric edge of
/// the coordinate type.
pub open spec fn adj_seq(p: GridPosition) -> Seq<GridPosition> {
    seq![
        GridPosition { x: (p.x + 1) as i32, y: p.y },
        GridPosition { x: (p.x - 1) as i32, y: p.y },
        GridPosition { x: p.x, y: (p.y + 1) as i32 },
        GridPosition { x: p.x, y: (p.y - 1) as i32 },
    ]
}

impl GridPosition {
    pub fn new(x: i32, y: i32) -> (r: Self)
        ensures
            r == (GridPosition { x, y }),
    {
        GridPosition { x, y }
    }

    /// The four 4-connected neighbors (no diagonals), in the order
    /// right, left, up, down.
    pub fn adjacent(&self) -> (r: Vec<GridPosition>)
        requires
            i32::MIN < self.x < i32::MAX,
            i32::MIN < self.y < i32::MAX,
        ensures
            r@ == adj_seq(*self),
            r@.len() == 4,
            r@[0] == (GridPosition { x: (self.x + 1) as i32, y: self.y }),
            r@[1] == (GridPosition { x: (self.x - 1) as i32, y: self.y }),
            r@[2] == (GridPosition { x: self.x, y: (self.y + 1) as i32 }),
            r@[3] == (GridPosition { x: self.x, y: (self.y - 1) as i32 }),
            forall|k: int| 0 <= k < 4 ==> adjacent_spec(*self, #[trigger] r@[k]),
            forall|p: GridPosition| adjacent_spec(*self, p) ==> r@.contains(p),
    {
        let r = vec![
            GridPosition { x: self.x + 1, y: self.y },
            GridPosition { x: self.x - 1, y: self.y },
            GridPosition { x: self.x, y: self.y + 1 },
            GridPosition { x: self.x, y: self.y - 1 },
        ];
        proof {
            assert(r@ =~= adj_seq(*self));
            assert forall|p: GridPosition| adjacent_spec(*self, p) implies r@.contains(p) by {
                if p.x == self.x + 1 && p.y == self.y {
                    assert(r@[0] == p);
                } else if p.x == self.x - 1 && p.y == self.y {
                    assert(r@[1] == p);
                } else if p.x == self.x && p.y == self.y + 1 {
                    assert(r@[2] == p);
                } else {
                    assert(r@[3] == p);
                }
            }
        }
        r
    }

    /// Manhattan distance to another position.
    pub fn distance_to(&self, other: &GridPosition) -> (r: u32)
        requires
            manhattan(*self, *other) <= u32::MAX,
        ensures
            r == manhattan(*self, *other),
    {
        let dx: i64 = self.x as i64 - other.x as i64;
        let dy: i64 = self.y as i64 - other.y as i64;
        let adx: i64 = if dx < 0 { -dx } else { dx };
        let ady: i64 = if dy < 0 { -dy } else { dy };
        (adx + ady) as u32
    }
}

/// Symmetry and identity of the Manhattan distance: the distance is the same
/// in both directions, is zero from a position to itself, and is zero only
/// for identical positions.
pub proof fn lemma_manhattan_properties(a: GridPosition, b: GridPosition)
    ensures
        manhattan(a, b) == manhattan(b, a),
        manhattan(a, a) == 0,
        manhattan(a, b) == 0 ==> a == b,
        manhattan(a, b) >= 0,
{
}

/// Terrain kinds. Only grass is spawned by the current content; water and
/// mountain exist as data.
#[derive(Debug, Clone, Copy, PartialEq, Eq, Structural)]
pub enum TileType {
    Grass,
    Water,
    Mountain,
}

/// A terrain tile: whether units may stand on it, and its kind.
#[derive(Debug, Clone, Copy, PartialEq, Eq, Structural)]
pub struct Tile {
    pub walkable: bool,
    pub tile_type: TileType,
}

impl Tile {
    pub fn new_grass() -> (r: Self)
        ensures
            r.walkable,
            r.tile_type == TileType::Grass,
    {
        Tile { walkable: true, tile_type: TileType::Grass }
    }

    pub fn new_water() -> (r: Self)
        ensures
            !r.walkable,
            r.tile_type == TileType::Water,
    {
        Tile { walkable: false, tile_type: TileType::Water }
    }
}

/// The two sides. A unit's faction is fixed at creation and never changes.
#[derive(Debug, Clone, Copy, PartialEq, Eq, Structural)]
pub enum Faction {
    Player,
    Enemy,
}

impl Faction {
    /// Only player units can be selected by a click.
    pub open spec fn is_selectable(self) -> bool {
        self == Faction::Player
    }

    /// Enemy units are driven by the pursuit policy.
    pub open spec fn is_ai_controlled(self) -> bool {
        self == Faction::Enemy
    }
}

/// Identity of a combatant: which faction it fights for.
#[derive(Debug, Clone, Copy, PartialEq, Eq, Structural)]
pub struct Unit {
    pub faction: Faction,
}

/// Per-unit flags for the current phase. `has_acted` gates whether the unit
/// may still act this phase; `has_moved` is dormant data that no rule reads.
#[derive(Debug, Clone, Copy, PartialEq, Eq, Structural)]
pub struct TurnStatus {
    pub has_acted: bool,
    pub has_moved: bool,
}

impl Default for TurnStatus {
    /// A fresh unit has not acted and not moved.
    fn default() -> (r: Self)
        ensures
            !r.has_acted,
            !r.has_moved,
    {
        TurnStatus { has_acted: false, has_moved: false }
    }
}

/// Marker: the unit is currently selected. The authoritative record is the
/// selection state; this tag mirrors it for presentation.
#[derive(Debug, Clone, Copy, PartialEq, Eq, Structural)]
pub struct Selected;

/// Marker: the entity can be hovered over by the pointer.
#[derive(Debug, Clone, Copy, PartialEq, Eq, Structural)]
pub struct Hoverable;

/// Marker: the unit is moved by the pursuit policy, not by clicks.
#[derive(Debug, Clone, Copy, PartialEq, Eq, Structural)]
pub struct AIControlled;

/// Combat statistics. Dormant data: no rule in this core consumes them.
#[derive(Debug, Clone, Copy, PartialEq, Eq, Structural)]
pub struct Stats {
    pub max_hp: i32,
    pub current_hp: i32,
    pub attack: i32,
    pub defense: i32,
}

impl Stats {
    pub fn new(max_hp: i32, attack: i32, defense: i32) -> (r: Self)
        ensures
            r == (Stats { max_hp, current_hp: max_hp, attack, defense }),
    {
        Stats { max_hp, current_hp: max_hp, attack, defense }
    }

    pub fn is_alive(&self) -> (r: bool)
        ensures
            r == (self.current_hp > 0),
    {
        self.current_hp > 0
    }
}

} // verus!
