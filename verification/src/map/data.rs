//! Map grids and the database of loaded maps.

use vstd::prelude::*;
use super::cell::{Cell, CellType, spec_cell_walkable};
use crate::rng::GameRng;
use crate::strmap::StrMap;
use crate::text::owned;
use super::gat::{GatError, GatParser, gat_valid, gat_width, gat_height, gat_cell_type, spec_gat_error};

verus! {

/// The data a character is created from.
#[derive(Debug, Clone)]
pub struct CharacterData {
    pub char_id: u32,
    pub account_id: u32,
    pub name: String,
    pub job: u16,
    pub level: u16,
    pub base_level: u16,
    pub base_exp: u64,
    pub job_level: u16,
    pub job_exp: u64,
    pub hp: u32,
    pub max_hp: u32,
    pub sp: u32,
    pub max_sp: u32,
    pub str: u16,
    pub agi: u16,
    pub vit: u16,
    pub int: u16,
    pub dex: u16,
    pub luk: u16,
    pub zeny: u32,
    pub last_map: String,
    pub last_x: i32,
    pub last_y: i32,
    pub save_map: String,
    pub save_x: i32,
    pub save_y: i32,
}

/// A map: its name, its size and its grid of cells, indexed `cells[y][x]`.
#[derive(Debug, Clone)]
pub struct MapData {
    pub name: String,
    pub width: u16,
    pub height: u16,
    pub cells: Vec<Vec<Cell>>,
}

impl MapData {
    /// Whether `(x, y)` names a cell of the grid.
    pub open spec fn in_grid(&self, x: int, y: int) -> bool {
        0 <= y < self.cells@.len() && 0 <= x < self.cells@[y]@.len()
    }

    /// The cell at `(x, y)`.
    pub open spec fn cell_at(&self, x: int, y: int) -> Cell {
        self.cells@[y]@[x]
    }

    /// Whether `(x, y)` is a walkable cell of the grid.
    pub open spec fn spec_walkable(&self, x: int, y: int) -> bool {
        self.in_grid(x, y) && spec_cell_walkable(self.cell_at(x, y).cell_type)
    }

    /// The grid has `height` rows of `width` cells, each cell knowing its own place.
    pub open spec fn well_formed(&self) -> bool {
        &&& self.cells@.len() == self.height
        &&& forall|y: int| 0 <= y < self.height ==> (#[trigger] self.cells@[y])@.len() == self.width
        &&& forall|x: int, y: int|
            0 <= x < self.width && 0 <= y < self.height ==> {
                &&& (#[trigger] self.cell_at(x, y)).x == x
                &&& self.cell_at(x, y).y == y
            }
    }

    /// Same name, size and grid shape.
    pub open spec fn same_shape(&self, other: &MapData) -> bool {
        &&& self.name@ == other.name@
        &&& self.width == other.width
        &&& self.height == other.height
        &&& self.cells@.len() == other.cells@.len()
        &&& forall|y: int| 0 <= y < self.cells@.len() ==> (#[trigger] self.cells@[y])@.len() == other.cells@[y]@.len()
    }

    /// A `width` x `height` map whose cells are all plain walkable ground.
    pub fn new(name: &str, width: u16, height: u16) -> (m: Self)
        ensures
            m.name@ == name@,
            m.width == width,
            m.height == height,
            m.well_formed(),
            forall|x: int, y: int| 0 <= x < width && 0 <= y < height ==> {
                &&& (#[trigger] m.cell_at(x, y)).cell_type == CellType::Walkable
                &&& m.cell_at(x, y).flags == 0
            },
    {
        let mut cells: Vec<Vec<Cell>> = Vec::new();
        let mut y: u16 = 0;
        while y < height
            invariant
                y <= height,
                cells@.len() == y,
                forall|j: int| 0 <= j < y ==> (#[trigger] cells@[j])@.len() == width,
                forall|i: int, j: int| 0 <= i < width && 0 <= j < y ==> {
                    &&& (#[trigger] cells@[j]@[i]).x == i
                    &&& cells@[j]@[i].y == j
                    &&& cells@[j]@[i].cell_type == CellType::Walkable
                    &&& cells@[j]@[i].flags == 0
                },
            decreases height - y,
        {
            let mut row: Vec<Cell> = Vec::new();
            let mut x: u16 = 0;
            while x < width
                invariant
                    x <= width,
                    row@.len() == x,
                    forall|i: int| 0 <= i < x ==> {
                        &&& (#[trigger] row@[i]).x == i
                        &&& row@[i].y == y
                        &&& row@[i].cell_type == CellType::Walkable
                        &&& row@[i].flags == 0
                    },
                decreases width - x,
            {
                row.push(Cell::new(x, y, CellType::Walkable));
                x = x + 1;
            }
            cells.push(row);
            y = y + 1;
        }
        MapData { name: owned(name), width, height, cells }
    }

    /// The cell at `(x, y)`, if the grid has one there.
    pub fn get_cell(&self, x: u16, y: u16) -> (r: Option<&Cell>)
        ensures
            match r {
                Some(c) => self.in_grid(x as int, y as int) && *c == self.cell_at(x as int, y as int),
                None => !self.in_grid(x as int, y as int),
            },
    {
        let yi = y as usize;
        let xi = x as usize;
        if yi < self.cells.len() && xi < self.cells[yi].len() {
            Some(&self.cells[yi][xi])
        } else {
            None
        }
    }

    /// A mutable reference to the cell at `(x, y)`, if the grid has one there.
    pub fn get_cell_mut(&mut self, x: u16, y: u16) -> (r: Option<&mut Cell>)
        ensures
            match r {
                Some(c) => {
                    &&& old(self).in_grid(x as int, y as int)
                    &&& *c == old(self).cell_at(x as int, y as int)
                    &&& final(self).name == old(self).name
                    &&& final(self).width == old(self).width
                    &&& final(self).height == old(self).height
                    &&& final(self).cells@ == old(self).cells@.update(y as int,
                        final(self).cells@[y as int])
                    &&& final(self).cells@[y as int]@ == old(self).cells@[y as int]@.update(x as int, *final(c))
                },
                None => !old(self).in_grid(x as int, y as int) && *final(self) == *old(self),
            },
    {
        let yi = y as usize;
        let xi = x as usize;
        if yi < self.cells.len() && xi < self.cells[yi].len() {
            Some(&mut self.cells[yi][xi])
        } else {
            None
        }
    }

    /// Whether `(x, y)` is a walkable cell; outside the grid nothing is walkable.
    pub fn is_walkable(&self, x: u16, y: u16) -> (b: bool)
        ensures
            b == self.spec_walkable(x as int, y as int),
    {
        match self.get_cell(x, y) {
            Some(c) => c.is_walkable(),
            None => false,
        }
    }

    /// Changes the kind of the cell at `(x, y)`; outside the grid nothing changes.
    pub fn set_cell(&mut self, x: u16, y: u16, cell_type: CellType)
        ensures
            final(self).same_shape(old(self)),
            forall|i: int, j: int| #[trigger] old(self).in_grid(i, j) ==> final(self).cell_at(i, j) == (
                if i == x && j == y {
                    Cell { cell_type: cell_type, ..old(self).cell_at(i, j) }
                } else {
                    old(self).cell_at(i, j)
                }),
            old(self).well_formed() ==> final(self).well_formed(),
            old(self).well_formed() ==> forall|i: int, j: int| 0 <= i < old(self).width && 0 <= j < old(self).height ==>
                (#[trigger] final(self).cell_at(i, j)).cell_type == (
                if i == x && j == y { cell_type } else { old(self).cell_at(i, j).cell_type }),
    {
        let yi = y as usize;
        let xi = x as usize;
        if yi < self.cells.len() && xi < self.cells[yi].len() {
            self.cells[yi][xi].cell_type = cell_type;
        }
        proof {
            lemma_cell_update_keeps_form(*old(self), *self, |i: int, j: int| i == x && j == y, cell_type);
        }
    }

    /// A walkable position drawn from `rng`, tried up to a hundred times.
    pub fn random_walkable_pos<R: GameRng>(&self, rng: &R) -> (r: Option<(u16, u16)>)
        requires
            self.width > 0,
            self.height > 0,
        ensures
            r matches Some(p) ==> p.0 < self.width && p.1 < self.height
                && self.spec_walkable(p.0 as int, p.1 as int)
                && exists|seed: u32| p == #[trigger] spec_candidate_position(self.width, self.height, seed),
            (forall|x: int, y: int| 0 <= x < self.width && 0 <= y < self.height ==> #[trigger] self.spec_walkable(x, y)) ==> r is Some,
    {
        let mut attempt: u32 = 0;
        while attempt < 100
            invariant
                self.width > 0,
                self.height > 0,
                (forall|x: int, y: int| 0 <= x < self.width && 0 <= y < self.height ==> #[trigger] self.spec_walkable(x, y)) ==> attempt == 0,
            decreases 100 - attempt,
        {
            let seed = rng.rand_range(0, u32::MAX).wrapping_add(attempt * 7919);
            let (x, y) = candidate_position(self.width, self.height, seed);
            let walkable = self.is_walkable(x, y);
            proof {
                if forall|x2: int, y2: int| 0 <= x2 < self.width && 0 <= y2 < self.height ==> #[trigger] self.spec_walkable(x2, y2) {
                    assert(self.spec_walkable(x as int, y as int));
                }
            }
            if walkable {
                return Some((x, y));
            }
            attempt = attempt + 1;
        }
        None
    }
}

/// Changing the kind of some cells of a well-formed map keeps it well-formed,
/// and the cells of the grid then have the new kind exactly where they were touched.
pub proof fn lemma_cell_update_keeps_form(before: MapData, after: MapData, touched: spec_fn(int, int) -> bool, t: CellType)
    requires
        after.same_shape(&before),
        forall|i: int, j: int| #[trigger] before.in_grid(i, j) ==> after.cell_at(i, j) == (
            if touched(i, j) { Cell { cell_type: t, ..before.cell_at(i, j) } } else { before.cell_at(i, j) }),
    ensures
        before.well_formed() ==> after.well_formed(),
        before.well_formed() ==> forall|i: int, j: int| 0 <= i < before.width && 0 <= j < before.height ==>
            (#[trigger] after.cell_at(i, j)).cell_type == (if touched(i, j) { t } else { before.cell_at(i, j).cell_type }),
{
    if before.well_formed() {
        assert forall|i: int, j: int| 0 <= i < before.width && 0 <= j < before.height implies
            (#[trigger] after.cell_at(i, j)).x == i && after.cell_at(i, j).y == j
            && after.cell_at(i, j).cell_type == (if touched(i, j) { t } else { before.cell_at(i, j).cell_type }) by {
            assert(before.cells@[j]@.len() == before.width);
            assert(before.in_grid(i, j));
        }
        assert forall|j: int| 0 <= j < after.height implies (#[trigger] after.cells@[j])@.len() == after.width by {
            assert(before.cells@[j]@.len() == before.width);
        }
    }
}

/// The position a random seed selects on a `width` x `height` map.
pub open spec fn spec_candidate_position(width: u16, height: u16, seed: u32) -> (u16, u16) {
    ((seed % (width as u32)) as u16, ((seed / (width as u32)) % (height as u32)) as u16)
}

/// The position a random seed selects: `seed mod width` across and
/// `(seed / width) mod height` down.
pub fn candidate_position(width: u16, height: u16, seed: u32) -> (p: (u16, u16))
    requires
        width > 0,
        height > 0,
    ensures
        p == spec_candidate_position(width, height, seed),
        p.0 < width,
        p.1 < height,
{
    let w = width as u32;
    let h = height as u32;
    ((seed % w) as u16, ((seed / w) % h) as u16)
}

} // verus!

verus! {

/// Which cells of a rectangle a fill touches.
#[derive(Clone, Copy, PartialEq, Eq, Structural)]
pub enum FillPattern {
    /// Every cell.
    All,
    /// Cells whose `x + y` is a multiple of three.
    DiagThird,
    /// Cells whose `x` is a multiple of five.
    EveryFifthColumn,
    /// Cells on the rectangle's border.
    Outline,
}

/// Whether a fill of the rectangle `x0..x1` by `y0..y1` with `pattern` touches `(x, y)`.
pub open spec fn spec_fill_touches(pattern: FillPattern, x0: int, x1: int, y0: int, y1: int, x: int, y: int) -> bool {
    &&& x0 <= x < x1
    &&& y0 <= y < y1
    &&& match pattern {
        FillPattern::All => true,
        FillPattern::DiagThird => (x + y) % 3 == 0,
        FillPattern::EveryFifthColumn => x % 5 == 0,
        FillPattern::Outline => x == x0 || x == x1 - 1 || y == y0 || y == y1 - 1,
    }
}

fn fill_touches(pattern: FillPattern, x0: u16, x1: u16, y0: u16, y1: u16, x: u16, y: u16) -> (b: bool)
    ensures
        b == spec_fill_touches(pattern, x0 as int, x1 as int, y0 as int, y1 as int, x as int, y as int),
{
    if !(x0 <= x && x < x1 && y0 <= y && y < y1) {
        return false;
    }
    match pattern {
        FillPattern::All => true,
        FillPattern::DiagThird => ((x as u32) + (y as u32)) % 3 == 0,
        FillPattern::EveryFifthColumn => x % 5 == 0,
        FillPattern::Outline => x == x0 || x == x1 - 1 || y == y0 || y == y1 - 1,
    }
}

impl MapData {
    /// Sets the kind of the cells of a rectangle that `pattern` selects.
    pub fn fill(&mut self, pattern: FillPattern, x0: u16, x1: u16, y0: u16, y1: u16, cell_type: CellType)
        ensures
            final(self).same_shape(old(self)),
            forall|i: int, j: int| #[trigger] old(self).in_grid(i, j) ==> final(self).cell_at(i, j) == (
                if spec_fill_touches(pattern, x0 as int, x1 as int, y0 as int, y1 as int, i, j) {
                    Cell { cell_type: cell_type, ..old(self).cell_at(i, j) }
                } else {
                    old(self).cell_at(i, j)
                }),
            old(self).well_formed() ==> final(self).well_formed(),
            old(self).well_formed() ==> forall|i: int, j: int| 0 <= i < old(self).width && 0 <= j < old(self).height ==>
                (#[trigger] final(self).cell_at(i, j)).cell_type == (
                if spec_fill_touches(pattern, x0 as int, x1 as int, y0 as int, y1 as int, i, j) {
                    cell_type
                } else {
                    old(self).cell_at(i, j).cell_type
                }),
    {
        let mut y = y0;
        while y < y1
            invariant
                y0 <= y,
                y <= y1 || y == y0,
                self.same_shape(old(self)),
                forall|i: int, j: int| #[trigger] old(self).in_grid(i, j) ==> self.cell_at(i, j) == (
                    if spec_fill_touches(pattern, x0 as int, x1 as int, y0 as int, y1 as int, i, j) && j < y {
                        Cell { cell_type: cell_type, ..old(self).cell_at(i, j) }
                    } else {
                        old(self).cell_at(i, j)
                    }),
            decreases y1 - y,
        {
            let mut x = x0;
            while x < x1
                invariant
                    y0 <= y < y1,
                    x0 <= x,
                    x <= x1 || x == x0,
                    self.same_shape(old(self)),
                    forall|i: int, j: int| #[trigger] old(self).in_grid(i, j) ==> self.cell_at(i, j) == (
                        if spec_fill_touches(pattern, x0 as int, x1 as int, y0 as int, y1 as int, i, j)
                            && (j < y || (j == y && i < x)) {
                            Cell { cell_type: cell_type, ..old(self).cell_at(i, j) }
                        } else {
                            old(self).cell_at(i, j)
                        }),
                decreases x1 - x,
            {
                let ghost prev = *self;
                if fill_touches(pattern, x0, x1, y0, y1, x, y) {
                    self.set_cell(x, y, cell_type);
                }
                proof {
                    assert forall|i: int, j: int| #[trigger] old(self).in_grid(i, j) implies self.cell_at(i, j) == (
                        if spec_fill_touches(pattern, x0 as int, x1 as int, y0 as int, y1 as int, i, j)
                            && (j < y || (j == y && i < x + 1)) {
                            Cell { cell_type: cell_type, ..old(self).cell_at(i, j) }
                        } else {
                            old(self).cell_at(i, j)
                        }) by {
                        assert(prev.cells@[j]@.len() == old(self).cells@[j]@.len());
                        assert(prev.in_grid(i, j));
                    }
                }
                x = x + 1;
            }
            y = y + 1;
        }
        proof {
            lemma_cell_update_keeps_form(*old(self), *self,
                |i: int, j: int| spec_fill_touches(pattern, x0 as int, x1 as int, y0 as int, y1 as int, i, j), cell_type);
        }
    }
}

} // verus!

verus! {

/// Whether `(x, y)` lies on the border of an `n` x `n` map.
pub open spec fn on_square_border(n: int, x: int, y: int) -> bool {
    x == 0 || x == n - 1 || y == 0 || y == n - 1
}

/// The novice field `new_1-1.gat` (200 x 200): walled border, a central
/// lake, a forest in the north, a row of NPCs and a warp.
pub open spec fn new_1_1_layout(x: int, y: int) -> CellType {
    if x == 100 && y == 10 {
        CellType::Warp
    } else if 95 <= x < 105 && y == 150 {
        CellType::Npc
    } else if 30 <= x < 60 && 150 <= y < 170 && (x + y) % 3 == 0 {
        CellType::Wall
    } else if 80 <= x < 120 && 80 <= y < 120 {
        CellType::Water
    } else if on_square_border(200, x, y) {
        CellType::Wall
    } else {
        CellType::Walkable
    }
}

/// The city `prontera.gat` (300 x 300): walled border, a castle with an
/// entrance inside a moat, a market of NPCs, a warp and four exits.
pub open spec fn prontera_layout(x: int, y: int) -> CellType {
    if 145 <= x < 155 && (y == 1 || y == 298) {
        CellType::Warp
    } else if 145 <= y < 155 && (x == 1 || x == 298) {
        CellType::Warp
    } else if x == 150 && y == 280 {
        CellType::Warp
    } else if 100 <= x < 130 && 50 <= y < 70 && x % 5 == 0 {
        CellType::Npc
    } else if 125 <= x < 175 && 125 <= y < 175 && (x == 125 || x == 174 || y == 125 || y == 174) {
        CellType::Water
    } else if (x == 150 || x == 151) && y == 169 {
        CellType::Walkable
    } else if 130 <= x < 170 && 130 <= y < 170 && (x == 130 || x == 169 || y == 130 || y == 169) {
        CellType::Wall
    } else if on_square_border(300, x, y) {
        CellType::Wall
    } else {
        CellType::Walkable
    }
}

/// The dungeon `prt_sewb1.gat` (100 x 100): walled border, four inner
/// walls with three openings each, a channel of water and an entry warp.
pub open spec fn prt_sewb1_layout(x: int, y: int) -> CellType {
    if x == 50 && y == 5 {
        CellType::Warp
    } else if 5 <= x < 95 && y == 50 {
        CellType::Water
    } else if (x == 20 || x == 40 || x == 60 || x == 80) && ((20 <= y < 25) || (45 <= y < 50) || (70 <= y < 75)) {
        CellType::Walkable
    } else if (x == 20 || x == 40 || x == 60 || x == 80) && 10 <= y < 90 {
        CellType::Wall
    } else if on_square_border(100, x, y) {
        CellType::Wall
    } else {
        CellType::Walkable
    }
}

/// `m` is a well-formed `n` x `n` map called `name` whose cells follow `layout`.
pub open spec fn has_layout(m: MapData, name: Seq<char>, n: int, layout: spec_fn(int, int) -> CellType) -> bool {
    &&& m.name@ == name
    &&& m.width == n
    &&& m.height == n
    &&& m.well_formed()
    &&& forall|x: int, y: int| 0 <= x < n && 0 <= y < n ==> (#[trigger] m.cell_at(x, y)).cell_type == layout(x, y)
}

impl MapData {
    fn wall_square_border(&mut self, n: u16)
        requires
            old(self).well_formed(),
            old(self).width == n,
            old(self).height == n,
            n >= 1,
        ensures
            final(self).same_shape(old(self)),
            final(self).well_formed(),
            forall|i: int, j: int| 0 <= i < n && 0 <= j < n ==> (#[trigger] final(self).cell_at(i, j)).cell_type == (
                if on_square_border(n as int, i, j) { CellType::Wall } else { old(self).cell_at(i, j).cell_type }),
    {
        self.fill(FillPattern::All, 0, n, 0, 1, CellType::Wall);
        self.fill(FillPattern::All, 0, n, n - 1, n, CellType::Wall);
        self.fill(FillPattern::All, 0, 1, 0, n, CellType::Wall);
        self.fill(FillPattern::All, n - 1, n, 0, n, CellType::Wall);
    }
}

fn default_new_1_1() -> (m: MapData)
    ensures
        has_layout(m, "new_1-1.gat"@, 200, |x: int, y: int| new_1_1_layout(x, y)),
{
    let mut m = MapData::new("new_1-1.gat", 200, 200);
    m.wall_square_border(200);
    m.fill(FillPattern::All, 80, 120, 80, 120, CellType::Water);
    m.fill(FillPattern::DiagThird, 30, 60, 150, 170, CellType::Wall);
    m.fill(FillPattern::All, 95, 105, 150, 151, CellType::Npc);
    m.set_cell(100, 10, CellType::Warp);
    m
}

fn default_prontera() -> (m: MapData)
    ensures
        has_layout(m, "prontera.gat"@, 300, |x: int, y: int| prontera_layout(x, y)),
{
    let mut m = MapData::new("prontera.gat", 300, 300);
    m.wall_square_border(300);
    m.fill(FillPattern::Outline, 130, 170, 130, 170, CellType::Wall);
    m.set_cell(150, 169, CellType::Walkable);
    m.set_cell(151, 169, CellType::Walkable);
    m.fill(FillPattern::Outline, 125, 175, 125, 175, CellType::Water);
    m.fill(FillPattern::EveryFifthColumn, 100, 130, 50, 70, CellType::Npc);
    m.set_cell(150, 280, CellType::Warp);
    m.fill(FillPattern::All, 145, 155, 1, 2, CellType::Warp);
    m.fill(FillPattern::All, 145, 155, 298, 299, CellType::Warp);
    m.fill(FillPattern::All, 1, 2, 145, 155, CellType::Warp);
    m.fill(FillPattern::All, 298, 299, 145, 155, CellType::Warp);
    m
}

fn default_prt_sewb1() -> (m: MapData)
    ensures
        has_layout(m, "prt_sewb1.gat"@, 100, |x: int, y: int| prt_sewb1_layout(x, y)),
{
    let mut m = MapData::new("prt_sewb1.gat", 100, 100);
    m.wall_square_border(100);
    m.fill(FillPattern::All, 20, 21, 10, 90, CellType::Wall);
    m.fill(FillPattern::All, 40, 41, 10, 90, CellType::Wall);
    m.fill(FillPattern::All, 60, 61, 10, 90, CellType::Wall);
    m.fill(FillPattern::All, 80, 81, 10, 90, CellType::Wall);
    let ghost walled = m;
    let gaps: [u16; 3] = [20, 45, 70];
    let mut g: usize = 0;
    while g < 3
        invariant
            g <= 3,
            gaps@ == seq![20u16, 45u16, 70u16],
            m.same_shape(&walled),
            m.well_formed(),
            walled.width == 100,
            walled.height == 100,
            forall|i: int, j: int| 0 <= i < 100 && 0 <= j < 100 ==> (#[trigger] m.cell_at(i, j)).cell_type == (
                if (i == 20 || i == 40 || i == 60 || i == 80)
                    && ((g > 0 && 20 <= j < 25) || (g > 1 && 45 <= j < 50) || (g > 2 && 70 <= j < 75)) {
                    CellType::Walkable
                } else {
                    walled.cell_at(i, j).cell_type
                }),
        decreases 3 - g,
    {
        let gap_start = gaps[g];
        assert(gap_start == (if g == 0 { 20u16 } else if g == 1 { 45u16 } else { 70u16 }));
        m.fill(FillPattern::All, 20, 21, gap_start, gap_start + 5, CellType::Walkable);
        m.fill(FillPattern::All, 40, 41, gap_start, gap_start + 5, CellType::Walkable);
        m.fill(FillPattern::All, 60, 61, gap_start, gap_start + 5, CellType::Walkable);
        m.fill(FillPattern::All, 80, 81, gap_start, gap_start + 5, CellType::Walkable);
        g = g + 1;
    }
    m.fill(FillPattern::All, 5, 95, 50, 51, CellType::Water);
    m.set_cell(50, 5, CellType::Warp);
    m
}

} // verus!

verus! {

/// The maps the server knows, by name.
pub struct MapDatabase {
    maps: StrMap<MapData>,
}

impl View for MapDatabase {
    type V = Map<Seq<char>, MapData>;

    closed spec fn view(&self) -> Map<Seq<char>, MapData> {
        self.maps@
    }
}

impl MapDatabase {
    /// An empty database.
    pub fn empty() -> (db: Self)
        ensures
            db@ == Map::<Seq<char>, MapData>::empty(),
    {
        MapDatabase { maps: StrMap::new() }
    }

    /// The built-in world: the novice field, the city and the sewer dungeon.
    pub fn new() -> (db: Self)
        ensures
            spec_builtin_maps(db@),
    {
        let mut db = MapDatabase::empty();
        db.init_default_maps();
        db
    }

    /// The maps the server starts with, given those read from its map
    /// directory: those, or the built-in world when none could be read. The
    /// flag tells whether the built-in world was taken (and is to be saved
    /// to the directory for next time).
    pub fn or_builtin(loaded: MapDatabase) -> (r: (MapDatabase, bool))
        ensures
            r.1 == (loaded@.len() == 0),
            r.1 ==> spec_builtin_maps(r.0@),
            !r.1 ==> r.0@ == loaded@,
    {
        if loaded.len() == 0 {
            (MapDatabase::new(), true)
        } else {
            (loaded, false)
        }
    }

    fn init_default_maps(&mut self)
        ensures
            final(self)@ == old(self)@.insert("new_1-1.gat"@, final(self)@["new_1-1.gat"@])
                .insert("prontera.gat"@, final(self)@["prontera.gat"@])
                .insert("prt_sewb1.gat"@, final(self)@["prt_sewb1.gat"@]),
            has_layout(final(self)@["new_1-1.gat"@], "new_1-1.gat"@, 200, |x: int, y: int| new_1_1_layout(x, y)),
            has_layout(final(self)@["prontera.gat"@], "prontera.gat"@, 300, |x: int, y: int| prontera_layout(x, y)),
            has_layout(final(self)@["prt_sewb1.gat"@], "prt_sewb1.gat"@, 100, |x: int, y: int| prt_sewb1_layout(x, y)),
    {
        proof {
            reveal_strlit("new_1-1.gat");
            reveal_strlit("prontera.gat");
            reveal_strlit("prt_sewb1.gat");
        }
        let new_1 = default_new_1_1();
        self.maps.insert(owned("new_1-1.gat"), new_1);
        let prontera = default_prontera();
        self.maps.insert(owned("prontera.gat"), prontera);
        let sewer = default_prt_sewb1();
        self.maps.insert(owned("prt_sewb1.gat"), sewer);
        assert("new_1-1.gat"@ != "prontera.gat"@) by {
            reveal_strlit("new_1-1.gat");
            reveal_strlit("prontera.gat");
            assert("new_1-1.gat"@[0] != "prontera.gat"@[0]);
        }
        assert("new_1-1.gat"@ != "prt_sewb1.gat"@) by {
            reveal_strlit("new_1-1.gat");
            reveal_strlit("prt_sewb1.gat");
            assert("new_1-1.gat"@[0] != "prt_sewb1.gat"@[0]);
        }
        assert("prontera.gat"@ != "prt_sewb1.gat"@) by {
            reveal_strlit("prontera.gat");
            reveal_strlit("prt_sewb1.gat");
            assert("prontera.gat"@[2] != "prt_sewb1.gat"@[2]);
        }
    }

    /// The map with the given name.
    pub fn get(&self, map_name: &str) -> (r: Option<&MapData>)
        ensures
            match r {
                Some(m) => self@.contains_key(map_name@) && *m == self@[map_name@],
                None => !self@.contains_key(map_name@),
            },
    {
        self.maps.get(map_name)
    }

    /// The map with the given name, for changing it in place.
    pub fn get_mut(&mut self, map_name: &str) -> (r: Option<&mut MapData>)
        ensures
            match r {
                Some(m) => old(self)@.contains_key(map_name@) && *m == old(self)@[map_name@]
                    && final(self)@ == old(self)@.insert(map_name@, *final(m)),
                None => !old(self)@.contains_key(map_name@) && final(self)@ == old(self)@,
            },
    {
        self.maps.get_mut(map_name)
    }

    /// Every map, in the order they were added.
    pub fn all(&self) -> (r: Vec<&MapData>)
        ensures
            r@.len() == self@.len(),
            forall|i: int| 0 <= i < r@.len() ==> self@.contains_value(*#[trigger] r@[i]),
            forall|k: Seq<char>| #[trigger] self@.contains_key(k) ==> exists|i: int| 0 <= i < r@.len() && *r@[i] == self@[k],
            exists|names: Seq<Seq<char>>| #[trigger] spec_lists_each_once(self@, names, r@),
    {
        let r = self.maps.value_list();
        proof {
            let names = self.maps.keys();
            assert forall|k: Seq<char>| #[trigger] self@.contains_key(k) implies exists|i: int| 0 <= i < r@.len() && *r@[i] == self@[k] by {
                assert(names.contains(k));
                let i = choose|i: int| 0 <= i < names.len() && names[i] == k;
                assert(*r@[i] == self@[names[i]]);
            }
            assert(spec_lists_each_once(self@, names, r@));
        }
        r
    }

    /// The number of maps.
    pub fn len(&self) -> (n: usize)
        ensures
            n == self@.len(),
    {
        self.maps.len()
    }

    /// Adds a map under its own name, replacing any map of that name.
    pub fn insert(&mut self, map_data: MapData)
        ensures
            final(self)@ == old(self)@.insert(map_data.name@, map_data),
    {
        let name = map_data.name.clone();
        self.maps.insert(name, map_data);
    }

    /// Reads a `.gat` file's bytes and adds the map, named after `name` with ".gat".
    pub fn load_from_bytes(&mut self, name: &str, data: &[u8]) -> (r: Result<(), GatError>)
        ensures
            r is Ok <==> gat_valid(data@),
            r is Ok ==> final(self)@.dom() == old(self)@.dom().insert(name@ + ".gat"@)
                && has_gat_content(final(self)@[name@ + ".gat"@], data@)
                && final(self)@[name@ + ".gat"@].name@ == name@ + ".gat"@
                && forall|k: Seq<char>| k != name@ + ".gat"@ && old(self)@.contains_key(k) ==> #[trigger] final(self)@[k] == old(self)@[k],
            r is Err ==> final(self)@ == old(self)@,
            r matches Err(e) ==> spec_gat_error(data@, e),
    {
        match GatParser::parse_bytes(data, name) {
            Ok(map_data) => {
                self.insert(map_data);
                Ok(())
            },
            Err(e) => Err(e),
        }
    }
}

/// `maps` is the built-in world: the novice field, the city and the sewer
/// dungeon, each with its layout.
pub open spec fn spec_builtin_maps(maps: Map<Seq<char>, MapData>) -> bool {
    &&& maps.dom() == set!["new_1-1.gat"@, "prontera.gat"@, "prt_sewb1.gat"@]
    &&& has_layout(maps["new_1-1.gat"@], "new_1-1.gat"@, 200, |x: int, y: int| new_1_1_layout(x, y))
    &&& has_layout(maps["prontera.gat"@], "prontera.gat"@, 300, |x: int, y: int| prontera_layout(x, y))
    &&& has_layout(maps["prt_sewb1.gat"@], "prt_sewb1.gat"@, 100, |x: int, y: int| prt_sewb1_layout(x, y))
}

/// `maps` lists, under the distinct names `names` (one per entry), every
/// map of `m`, each once.
pub open spec fn spec_lists_each_once(m: Map<Seq<char>, MapData>, names: Seq<Seq<char>>, maps: Seq<&MapData>) -> bool {
    &&& names.len() == maps.len()
    &&& names.no_duplicates()
    &&& forall|i: int| 0 <= i < maps.len() ==> m.contains_key(names[i]) && *#[trigger] maps[i] == m[names[i]]
    &&& forall|k: Seq<char>| #[trigger] m.contains_key(k) ==> names.contains(k)
}

/// `m` is the map that the well-formed file `d` describes.
pub open spec fn has_gat_content(m: MapData, d: Seq<u8>) -> bool {
    &&& m.width == gat_width(d)
    &&& m.height == gat_height(d)
    &&& m.well_formed()
    &&& forall|x: int, y: int| 0 <= x < m.width && 0 <= y < m.height ==> {
        &&& (#[trigger] m.cell_at(x, y)).cell_type == gat_cell_type(d, x, y)
        &&& m.cell_at(x, y).flags == 0
    }
}

} // verus!
