//! Dense two-dimensional tile storage.

use vstd::arithmetic::div_mod::{lemma_fundamental_div_mod, lemma_mod_pos_bound};
use vstd::prelude::*;

verus! {

/// What a cell of the map holds.
#[derive(Debug, Clone, Copy, PartialEq, Eq, Structural)]
pub enum Tile {
    Wall,
    Floor,
}

/// The mathematical content of a [`Grid`]: its extent and its tiles, row by row.
pub struct GridView {
    pub width: nat,
    pub height: nat,
    pub tiles: Seq<Tile>,
}

impl GridView {
    /// Whether the grid is not empty, its sides can be held in a `u32`, and
    /// it holds one tile for each cell.
    pub open spec fn wf(self) -> bool {
        &&& 0 < self.width <= u32::MAX
        &&& 0 < self.height <= u32::MAX
        &&& self.tiles.len() == self.width * self.height
    }

    /// Whether `(x, y)` names a cell of the grid.
    pub open spec fn contains(self, x: int, y: int) -> bool {
        0 <= x < self.width && 0 <= y < self.height
    }

    /// The tile at `(x, y)`; meaningful only where `contains(x, y)`.
    pub open spec fn at(self, x: int, y: int) -> Tile {
        self.tiles[x + self.width * y]
    }

    /// What a lookup at `(x, y)` gives: the tile, or nothing outside the grid.
    pub open spec fn lookup(self, x: int, y: int) -> Option<Tile> {
        if self.contains(x, y) {
            Some(self.at(x, y))
        } else {
            None
        }
    }

    /// The grid with the tile at `(x, y)` replaced by `tile`.
    pub open spec fn put(self, x: int, y: int, tile: Tile) -> GridView {
        GridView { tiles: self.tiles.update(x + self.width * y, tile), ..self }
    }

    /// Whether a ray or a step is stopped at `(x, y)`: by a wall, or by the
    /// edge of the grid, which counts as one.
    pub open spec fn blocked(self, x: int, y: int) -> bool {
        self.lookup(x, y) != Some(Tile::Floor)
    }

    /// What a side that faces `(x, y)` counts: one where `(x, y)` lies
    /// outside the grid or is floor, nothing where it is a wall.
    pub open spec fn side_open(self, x: int, y: int) -> nat {
        if !self.contains(x, y) || self.at(x, y) == Tile::Floor {
            1
        } else {
            0
        }
    }

    /// The number of open sides of the tile at `(x, y)`: of its four sides,
    /// those that face outside the grid or a floor tile.
    pub open spec fn openings(self, x: int, y: int) -> nat {
        self.side_open(x - 1, y) + self.side_open(x + 1, y) + self.side_open(x, y - 1)
            + self.side_open(x, y + 1)
    }
}

/// A rectangle of tiles, `width` by `height`, both positive.
#[derive(Debug)]
pub struct Grid {
    width: u32,
    height: u32,
    tiles: Vec<Tile>,
}

impl View for Grid {
    type V = GridView;

    closed spec fn view(&self) -> GridView {
        GridView { width: self.width as nat, height: self.height as nat, tiles: self.tiles@ }
    }
}

/// The row-major position of a cell lies inside the storage.
pub proof fn lemma_cell_index(x: int, y: int, width: int, height: int)
    requires
        0 <= x < width,
        0 <= y < height,
    ensures
        0 <= width * y,
        0 <= x + width * y < width * height,
{
    assert(width * y >= 0) by (nonlinear_arith)
        requires
            width > 0,
            y >= 0,
    ;
    assert(width * y + width <= width * height) by (nonlinear_arith)
        requires
            width > 0,
            0 <= y < height,
    ;
}

/// Distinct cells have distinct row-major positions.
pub proof fn lemma_cell_index_injective(x1: int, y1: int, x2: int, y2: int, width: int)
    requires
        0 <= x1 < width,
        0 <= x2 < width,
        x1 + width * y1 == x2 + width * y2,
    ensures
        x1 == x2,
        y1 == y2,
{
    assert(y1 == y2) by (nonlinear_arith)
        requires
            0 <= x1 < width,
            0 <= x2 < width,
            x1 + width * y1 == x2 + width * y2,
    ;
}

/// Replacing a tile changes that cell and no other.
pub proof fn lemma_put_changes_one_cell(grid: GridView, x: int, y: int, tile: Tile)
    requires
        grid.wf(),
        grid.contains(x, y),
    ensures
        grid.put(x, y, tile).wf(),
        grid.put(x, y, tile).width == grid.width,
        grid.put(x, y, tile).height == grid.height,
        forall|u: int, v: int|
            grid.contains(u, v) ==> #[trigger] grid.put(x, y, tile).at(u, v) == if u == x && v
                == y {
                tile
            } else {
                grid.at(u, v)
            },
{
    let width = grid.width as int;
    let after = grid.put(x, y, tile);
    lemma_cell_index(x, y, width, grid.height as int);
    assert forall|u: int, v: int| grid.contains(u, v) implies #[trigger] after.at(u, v) == if u
        == x && v == y {
        tile
    } else {
        grid.at(u, v)
    } by {
        lemma_cell_index(u, v, width, grid.height as int);
        if u + width * v == x + width * y {
            lemma_cell_index_injective(u, v, x, y, width);
        }
    }
}

/// Grids of one extent that hold the same tile in every cell are equal.
pub proof fn lemma_cells_make_the_grid(a: GridView, b: GridView)
    requires
        a.wf(),
        b.wf(),
        a.width == b.width,
        a.height == b.height,
        forall|x: int, y: int| a.contains(x, y) ==> a.at(x, y) == b.at(x, y),
    ensures
        a == b,
{
    let width = a.width as int;
    let height = a.height as int;
    assert forall|i: int| 0 <= i < a.tiles.len() implies a.tiles[i] == b.tiles[i] by {
        lemma_fundamental_div_mod(i, width);
        lemma_mod_pos_bound(i, width);
        let (x, y) = (i % width, i / width);
        assert(0 <= y < height) by (nonlinear_arith)
            requires
                0 <= x < width,
                i == width * y + x,
                0 <= i < width * height,
        ;
        assert(a.contains(x, y));
        assert(a.at(x, y) == b.at(x, y));
    }
    assert(a.tiles =~= b.tiles);
}

impl Grid {
    /// Every grid is well formed.
    #[verifier::type_invariant]
    pub open spec fn well_formed(self) -> bool {
        self@.wf()
    }

    /// Where the cell `(x, y)` stands in the row-major storage.
    fn position(&self, x: u32, y: u32) -> (i: usize)
        requires
            self@.contains(x as int, y as int),
        ensures
            i == x + self@.width * y,
            i < self.tiles@.len(),
            self.tiles@.len() == self@.width * self@.height,
    {
        proof {
            use_type_invariant(self);
            lemma_cell_index(x as int, y as int, self.width as int, self.height as int);
            assert(self.tiles@.len() == self.tiles.len());
        }
        x as usize + self.width as usize * y as usize
    }

    /// A grid of `w` by `h` tiles, each of them `fill`.
    pub fn new(w: u32, h: u32, fill: Tile) -> (grid: Grid)
        requires
            w > 0,
            h > 0,
            w * h <= usize::MAX,
        ensures
            grid@.wf(),
            grid@.width == w,
            grid@.height == h,
            grid@.tiles == Seq::new((w * h) as nat, |i: int| fill),
    {
        assert(w * h <= u32::MAX * u32::MAX) by (nonlinear_arith)
            requires
                w <= u32::MAX,
                h <= u32::MAX,
        ;
        let cells: u64 = w as u64 * h as u64;
        let tiles = vec![fill; cells as usize];
        assert(tiles@ =~= Seq::new((w * h) as nat, |i: int| fill));
        Grid { width: w, height: h, tiles }
    }

    /// The number of columns.
    pub fn width(&self) -> (w: u32)
        ensures
            w == self@.width,
            self@.wf(),
    {
        proof {
            use_type_invariant(self);
        }
        self.width
    }

    /// The number of rows.
    pub fn height(&self) -> (h: u32)
        ensures
            h == self@.height,
            self@.wf(),
    {
        proof {
            use_type_invariant(self);
        }
        self.height
    }

    /// The tile at `(x, y)`, or `None` where the grid has no such cell.
    pub fn get(&self, x: u32, y: u32) -> (tile: Option<&Tile>)
        ensures
            match tile {
                Some(t) => self@.lookup(x as int, y as int) == Some(*t),
                None => self@.lookup(x as int, y as int) is None,
            },
    {
        proof {
            use_type_invariant(self);
        }
        if x < self.width && y < self.height {
            let i = self.position(x, y);
            Some(&self.tiles[i])
        } else {
            None
        }
    }

    /// The tile at `(x, y)` for writing, or `None` where the grid has no such
    /// cell. The grid ends as it began but for what is written to that tile.
    pub fn get_mut(&mut self, x: u32, y: u32) -> (tile: Option<&mut Tile>)
        ensures
            match tile {
                Some(t) => {
                    &&& old(self)@.lookup(x as int, y as int) == Some(*t)
                    &&& final(self)@ == old(self)@.put(x as int, y as int, *final(t))
                },
                None => {
                    &&& old(self)@.lookup(x as int, y as int) is None
                    &&& final(self)@ == old(self)@
                },
            },
    {
        proof {
            use_type_invariant(&*self);
        }
        if x < self.width && y < self.height {
            let i = self.position(x, y);
            Some(&mut self.tiles[i])
        } else {
            None
        }
    }

    /// Replaces the tile at `(x, y)`, which must be a cell of the grid.
    pub fn set(&mut self, x: u32, y: u32, tile: Tile)
        requires
            old(self)@.contains(x as int, y as int),
        ensures
            final(self)@ == old(self)@.put(x as int, y as int, tile),
            final(self)@.wf(),
            forall|u: int, v: int|
                old(self)@.contains(u, v) ==> #[trigger] final(self)@.at(u, v) == if u == x && v
                    == y {
                    tile
                } else {
                    old(self)@.at(u, v)
                },
    {
        proof {
            use_type_invariant(&*self);
            lemma_put_changes_one_cell(self@, x as int, y as int, tile);
        }
        let i = self.position(x, y);
        self.tiles[i] = tile;
    }

    /// Whether the cell `(x, y)` is floor; nothing outside the grid is.
    fn is_floor(&self, x: u32, y: u32) -> (floor: bool)
        ensures
            floor == (self@.lookup(x as int, y as int) == Some(Tile::Floor)),
    {
        match self.get(x, y) {
            Some(Tile::Floor) => true,
            _ => false,
        }
    }

    /// Whether a ray or a step that reaches `(x, y)` is stopped there: the
    /// cell is a wall, or lies outside the grid.
    pub fn blocked(&self, x: u32, y: u32) -> (stopped: bool)
        ensures
            stopped == self@.blocked(x as int, y as int),
    {
        !self.is_floor(x, y)
    }

    /// Whether a side that faces the cell `(x, y)` is open: the cell is
    /// floor, or lies outside the grid.
    fn faces_opening(&self, x: u32, y: u32) -> (open: bool)
        ensures
            open == (self@.side_open(x as int, y as int) == 1),
    {
        match self.get(x, y) {
            Some(Tile::Wall) => false,
            _ => true,
        }
    }

    /// The number of open sides of the tile at `(x, y)`, for a floor tile;
    /// `None` for a wall and outside the grid.
    ///
    /// Each of the four sides is counted by itself. A side is open where it
    /// faces outside the grid, and where the neighbour on that side is floor.
    pub fn openings(&self, x: u32, y: u32) -> (count: Option<u32>)
        ensures
            count == if self@.lookup(x as int, y as int) == Some(Tile::Floor) {
                Some(self@.openings(x as int, y as int) as u32)
            } else {
                None
            },
            count matches Some(n) ==> n <= 4,
    {
        proof {
            use_type_invariant(self);
        }
        if !self.is_floor(x, y) {
            return None;
        }
        let mut count: u32 = 0;
        if x == 0 || self.faces_opening(x - 1, y) {
            count += 1;
        }
        if self.faces_opening(x + 1, y) {
            count += 1;
        }
        if y == 0 || self.faces_opening(x, y - 1) {
            count += 1;
        }
        if self.faces_opening(x, y + 1) {
            count += 1;
        }
        Some(count)
    }
}

} // verus!
