use vstd::prelude::*;

verus! {

/// The kind of a map cell.
#[derive(Debug, Clone, Copy, PartialEq, Eq, Structural)]
pub enum CellType {
    Walkable,
    Wall,
    Water,
    Cliff,
    Npc,
    Warp,
    Snipable,
    Icetrap,
    Basilica,
    Landmine,
    NoChat,
    Novice,
}

/// Walkable cells: plain ground, NPC spots, warps and novice ground.
pub open spec fn spec_cell_walkable(t: CellType) -> bool {
    t == CellType::Walkable || t == CellType::Npc || t == CellType::Warp || t == CellType::Novice
}

/// Cells that block line of sight: walls and cliffs.
pub open spec fn spec_cell_sight_blocking(t: CellType) -> bool {
    t == CellType::Wall || t == CellType::Cliff
}

/// One cell of a map grid.
#[derive(Debug, Clone, Copy)]
pub struct Cell {
    pub x: u16,
    pub y: u16,
    pub cell_type: CellType,
    pub flags: u32,
}

impl Cell {
    pub fn new(x: u16, y: u16, cell_type: CellType) -> (c: Self)
        ensures
            c.x == x,
            c.y == y,
            c.cell_type == cell_type,
            c.flags == 0,
    {
        Cell { x, y, cell_type, flags: 0 }
    }

    pub fn is_walkable(&self) -> (b: bool)
        ensures
            b == spec_cell_walkable(self.cell_type),
    {
        match self.cell_type {
            CellType::Walkable | CellType::Npc | CellType::Warp | CellType::Novice => true,
            _ => false,
        }
    }

    pub fn is_sight_blocking(&self) -> (b: bool)
        ensures
            b == spec_cell_sight_blocking(self.cell_type),
    {
        match self.cell_type {
            CellType::Wall | CellType::Cliff => true,
            _ => false,
        }
    }

    pub fn is_water(&self) -> (b: bool)
        ensures
            b == (self.cell_type == CellType::Water),
    {
        self.cell_type == CellType::Water
    }
}

impl Default for Cell {
    fn default() -> (c: Self)
        ensures
            c.x == 0 && c.y == 0 && c.cell_type == CellType::Walkable && c.flags == 0,
    {
        Cell::new(0, 0, CellType::Walkable)
    }
}

} // verus!
