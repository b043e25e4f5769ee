//! Stitches the tiles of a satellite image into one full-resolution buffer.
//!
//! Each tile has a cell of the grid to itself, and the cells do not overlap:
//! placing a tile changes no pixel of any other cell. The [`Assembler`] takes
//! the tiles one by one, in any order, and hands out the mosaic only once
//! every cell is filled.

use crate::config::GridSpec;
use crate::raster::{in_rect, Raster, RasterView, Rgb};
use vstd::prelude::*;

verus! {

/// One decoded tile, tagged with its cell of the grid.
#[derive(Debug)]
pub struct Tile {
    pub row: u32,
    pub col: u32,
    pub pixels: Raster,
}

/// Why a tile could not be had.
#[derive(Debug, Clone, Copy, PartialEq, Eq, Structural)]
pub enum FetchError {
    /// The request did not reach the service or the answer did not arrive.
    Network,
    /// No answer came in time.
    Timeout,
    /// The service answered with this status instead of the tile.
    Status(u16),
    /// The answer is no image, or an image with fewer rows than it announces.
    Malformed,
    /// The image is not a tile: it has another size, or is not plain RGB.
    DimensionMismatch,
}

/// Why no mosaic was assembled.
#[derive(Debug, Clone, Copy, PartialEq, Eq, Structural)]
pub enum AssemblyError {
    /// A tile could not be fetched.
    Fetch(FetchError),
    /// The grid has no tiles, or tiles without pixels, or an edge beyond 32 bits.
    InvalidGrid,
    /// The mosaic does not fit the machine's address space.
    GridTooLarge,
    /// The tile's cell lies outside the grid.
    OffGrid,
    /// The tile does not have the grid's tile size.
    WrongSize,
    /// The tile's cell already holds a tile.
    Occupied,
    /// The tile is tagged with another cell than the one it was fetched for.
    Misplaced,
    /// Not every cell holds a tile yet.
    Incomplete,
}

/// Whether the cell `(row, col)` of `mosaic`, cut into cells of `edge`
/// pixels, equals `tile` pixel for pixel.
pub open spec fn region_matches(mosaic: RasterView, edge: int, row: int, col: int, tile: RasterView) -> bool {
    forall|x: int, y: int|
        0 <= x < edge && 0 <= y < edge ==> mosaic.pixel(col * edge + x, row * edge + y) == #[trigger] tile.pixel(
            x,
            y,
        )
}

/// Whether pixel `(x, y)` lies in the cell `(row, col)`.
pub open spec fn in_cell(x: int, y: int, edge: int, row: int, col: int) -> bool {
    in_rect(x, y, col * edge, row * edge, edge, edge)
}

/// The mathematical content of an [`Assembler`].
pub struct AssemblerView {
    pub grid: GridSpec,
    /// The mosaic as far as it has been filled.
    pub mosaic: RasterView,
    /// The tiles placed so far, by `(row, col)`.
    pub tiles: Map<(int, int), RasterView>,
}

impl AssemblerView {
    /// The mosaic has the grid's size, and each cell that holds a tile shows
    /// that tile.
    pub open spec fn wf(self) -> bool {
        &&& self.grid.valid()
        &&& self.mosaic.wf()
        &&& self.mosaic.width == self.grid.spec_edge()
        &&& self.mosaic.height == self.grid.spec_edge()
        &&& forall|row: int, col: int| #[trigger]
            self.tiles.dom().contains((row, col)) ==> {
                &&& self.grid.has_cell(row, col)
                &&& self.tiles[(row, col)].wf()
                &&& self.tiles[(row, col)].width == self.grid.tile_edge
                &&& self.tiles[(row, col)].height == self.grid.tile_edge
                &&& region_matches(self.mosaic, self.grid.tile_edge as int, row, col, self.tiles[(row, col)])
            }
    }

    /// Every cell holds a tile.
    pub open spec fn complete(self) -> bool {
        forall|row: int, col: int| self.grid.has_cell(row, col) ==> #[trigger] self.tiles.dom().contains((row, col))
    }

    /// The error with which `tile` is refused, if it is.
    pub open spec fn refusal(self, tile: Tile) -> Option<AssemblyError> {
        if !self.grid.has_cell(tile.row as int, tile.col as int) {
            Some(AssemblyError::OffGrid)
        } else if tile.pixels@.width != self.grid.tile_edge || tile.pixels@.height != self.grid.tile_edge {
            Some(AssemblyError::WrongSize)
        } else if self.tiles.dom().contains((tile.row as int, tile.col as int)) {
            Some(AssemblyError::Occupied)
        } else {
            None
        }
    }
}

/// The mosaic while it is being assembled.
pub struct Assembler {
    grid: GridSpec,
    mosaic: Raster,
    /// For each cell, row by row, whether it holds a tile.
    placed: Vec<bool>,
    tiles: Ghost<Map<(int, int), RasterView>>,
}

impl View for Assembler {
    type V = AssemblerView;

    closed spec fn view(&self) -> AssemblerView {
        AssemblerView { grid: self.grid, mosaic: self.mosaic@, tiles: self.tiles@ }
    }
}

/// Position of the cell `(row, col)` in a row-by-row list of cells.
pub open spec fn cell_index(count: int, row: int, col: int) -> int {
    row * count + col
}

/// Two different cells of one row or column of cells share no pixel
/// coordinate.
pub proof fn lemma_cells_apart(a: int, b: int, edge: int, x: int)
    requires
        a != b,
        0 <= x < edge,
    ensures
        a * edge + x < b * edge || a * edge + x >= b * edge + edge,
{
    if a < b {
        assert(a * edge + edge <= b * edge) by (nonlinear_arith)
            requires
                a < b,
                0 <= edge,
        ;
    } else {
        assert(a * edge >= b * edge + edge) by (nonlinear_arith)
            requires
                a > b,
                0 <= edge,
        ;
    }
}

/// A cell of the grid lies inside the mosaic.
pub proof fn lemma_cell_fits(count: int, edge: int, cell: int)
    requires
        0 <= cell < count,
        0 <= edge,
    ensures
        0 <= cell * edge,
        cell * edge + edge <= count * edge,
{
    assert(0 <= cell * edge && cell * edge + edge <= count * edge) by (nonlinear_arith)
        requires
            0 <= cell < count,
            0 <= edge,
    ;
}

/// Tiles in different cells do not touch: a pixel of one cell lies in no
/// other.
pub proof fn lemma_cells_disjoint(edge: int, row: int, col: int, other_row: int, other_col: int, x: int, y: int)
    requires
        !(row == other_row && col == other_col),
        0 <= x < edge,
        0 <= y < edge,
    ensures
        !in_cell(other_col * edge + x, other_row * edge + y, edge, row, col),
{
    if col != other_col {
        lemma_cells_apart(other_col, col, edge, x);
    } else {
        lemma_cells_apart(other_row, row, edge, y);
    }
}

/// Every pixel of the mosaic lies in a cell of the grid.
pub proof fn lemma_pixel_in_cell(count: int, edge: int, x: int)
    requires
        0 < edge,
        0 <= x < count * edge,
    ensures
        0 <= x / edge < count,
        0 <= x % edge < edge,
        x == (x / edge) * edge + x % edge,
{
    vstd::arithmetic::div_mod::lemma_fundamental_div_mod(x, edge);
    vstd::arithmetic::div_mod::lemma_mod_bound(x, edge);
    assert(edge * (x / edge) == (x / edge) * edge) by (nonlinear_arith);
    assert(0 <= x / edge < count) by (nonlinear_arith)
        requires
            0 < edge,
            0 <= x < count * edge,
            x == (x / edge) * edge + x % edge,
            0 <= x % edge < edge,
    ;
}

/// The order in which the tiles were placed leaves no trace: two finished
/// mosaics of one grid that hold the same tiles are the same.
pub proof fn lemma_order_is_irrelevant(a: AssemblerView, b: AssemblerView)
    requires
        a.wf(),
        b.wf(),
        a.complete(),
        b.complete(),
        a.grid == b.grid,
        a.tiles == b.tiles,
    ensures
        a.mosaic == b.mosaic,
{
    let e = a.grid.tile_edge as int;
    let count = a.grid.tile_count as int;
    assert forall|x: int, y: int| a.mosaic.contains(x, y) implies #[trigger] a.mosaic.pixel(x, y)
        == b.mosaic.pixel(x, y) by {
        lemma_pixel_in_cell(count, e, x);
        lemma_pixel_in_cell(count, e, y);
        let row = y / e;
        let col = x / e;
        assert(a.grid.has_cell(row, col));
        assert(a.tiles.dom().contains((row, col)));
        assert(b.tiles.dom().contains((row, col)));
        let t = a.tiles[(row, col)];
        assert(region_matches(a.mosaic, e, row, col, t));
        assert(region_matches(b.mosaic, e, row, col, t));
        assert(a.mosaic.pixel(col * e + x % e, row * e + y % e) == t.pixel(x % e, y % e));
        assert(b.mosaic.pixel(col * e + x % e, row * e + y % e) == t.pixel(x % e, y % e));
    }
    crate::raster::lemma_pixels_determine_bytes(a.mosaic, b.mosaic);
}

impl Assembler {
    /// The assembler's content is consistent.
    pub closed spec fn wf(&self) -> bool {
        &&& self@.wf()
        &&& self.mosaic.wf()
        &&& self.placed@.len() == self.grid.tile_count * self.grid.tile_count
        &&& forall|row: int, col: int|
            self.grid.has_cell(row, col) ==> (#[trigger] self.tiles@.dom().contains((row, col))
                <==> self.placed@[cell_index(self.grid.tile_count as int, row, col)])
    }

    /// What [`Assembler::wf`] says of the content.
    pub proof fn lemma_wf(&self)
        requires
            self.wf(),
        ensures
            self@.wf(),
    {
    }

    /// An assembler for `grid`, with a black mosaic and no tile placed.
    pub fn new(grid: GridSpec) -> (out: Result<Assembler, AssemblyError>)
        ensures
            match out {
                Ok(a) => {
                    &&& grid.valid()
                    &&& 3 * (grid.spec_edge() * grid.spec_edge()) <= usize::MAX
                    &&& a.wf()
                    &&& a@.grid == grid
                    &&& a@.tiles == Map::<(int, int), RasterView>::empty()
                    &&& a@.mosaic.is_solid(Rgb { r: 0, g: 0, b: 0 })
                },
                Err(e) => e == (if !grid.valid() {
                    AssemblyError::InvalidGrid
                } else {
                    AssemblyError::GridTooLarge
                }) && (grid.valid() ==> 3 * (grid.spec_edge() * grid.spec_edge()) > usize::MAX),
            },
    {
        if !grid.is_valid() {
            return Err(AssemblyError::InvalidGrid);
        }
        let edge = grid.edge();
        let mosaic = match Raster::new(edge, edge) {
            Some(m) => m,
            None => {
                return Err(AssemblyError::GridTooLarge);
            },
        };
        proof {
            let c = grid.tile_count as int;
            let e = grid.tile_edge as int;
            assert(c * c <= (c * e) * (c * e)) by (nonlinear_arith)
                requires
                    1 <= c,
                    1 <= e,
            ;
        }
        let cells: usize = grid.tile_count as usize * grid.tile_count as usize;
        let placed: Vec<bool> = vec![false; cells];
        let a = Assembler { grid, mosaic, placed, tiles: Ghost(Map::empty()) };
        proof {
            assert forall|row: int, col: int| a.grid.has_cell(row, col) implies (#[trigger] a.tiles@.dom().contains(
                (row, col),
            ) <==> a.placed@[cell_index(a.grid.tile_count as int, row, col)]) by {
                crate::raster::lemma_cell_bound(col, row, grid.tile_count as int, grid.tile_count as int);
            }
        }
        Ok(a)
    }

    /// The grid that is being filled.
    pub fn grid(&self) -> (g: GridSpec)
        ensures
            g == self@.grid,
    {
        self.grid
    }

    /// Whether the cell `(row, col)` holds a tile; `false` outside the grid.
    pub fn is_placed(&self, row: u32, col: u32) -> (b: bool)
        requires
            self.wf(),
        ensures
            b == (self@.grid.has_cell(row as int, col as int) && self@.tiles.dom().contains(
                (row as int, col as int),
            )),
    {
        if row >= self.grid.tile_count || col >= self.grid.tile_count {
            return false;
        }
        proof {
            crate::raster::lemma_cell_bound(
                col as int,
                row as int,
                self.grid.tile_count as int,
                self.grid.tile_count as int,
            );
        }
        let cells: usize = self.placed.len();
        let i: usize = row as usize * self.grid.tile_count as usize + col as usize;
        self.placed[i]
    }

    /// Copies `tile` into its cell of the mosaic.
    ///
    /// A tile outside the grid, of another size than the grid's tiles, or for
    /// a cell that holds a tile already, is refused, and the mosaic stays as it
    /// is. No pixel outside the tile's cell is changed.
    pub fn place(&mut self, tile: &Tile) -> (out: Result<(), AssemblyError>)
        requires
            old(self).wf(),
            tile.pixels.wf(),
        ensures
            final(self).wf(),
            final(self)@.grid == old(self)@.grid,
            match out {
                Ok(_) => {
                    &&& old(self)@.refusal(*tile) is None
                    &&& final(self)@.tiles == old(self)@.tiles.insert(
                        (tile.row as int, tile.col as int),
                        tile.pixels@,
                    )
                    &&& forall|x: int, y: int|
                        old(self)@.mosaic.contains(x, y) && !in_cell(
                            x,
                            y,
                            old(self)@.grid.tile_edge as int,
                            tile.row as int,
                            tile.col as int,
                        ) ==> #[trigger] final(self)@.mosaic.pixel(x, y) == old(self)@.mosaic.pixel(x, y)
                },
                Err(e) => old(self)@.refusal(*tile) == Some(e) && final(self)@ == old(self)@,
            },
    {
        let count = self.grid.tile_count;
        let edge = self.grid.tile_edge;
        if tile.row >= count || tile.col >= count {
            return Err(AssemblyError::OffGrid);
        }
        if tile.pixels.width() != edge || tile.pixels.height() != edge {
            return Err(AssemblyError::WrongSize);
        }
        if self.is_placed(tile.row, tile.col) {
            return Err(AssemblyError::Occupied);
        }
        let ghost before = self@;
        let ghost e = edge as int;
        let ghost row = tile.row as int;
        let ghost col = tile.col as int;
        proof {
            lemma_cell_fits(count as int, e, row);
            lemma_cell_fits(count as int, e, col);
            crate::raster::lemma_cell_bound(col, row, count as int, count as int);
        }
        let x0: u32 = tile.col * edge;
        let y0: u32 = tile.row * edge;
        let done = self.mosaic.overlay_at(&tile.pixels, x0, y0);
        let cells: usize = self.placed.len();
        let i: usize = tile.row as usize * count as usize + tile.col as usize;
        self.placed.set(i, true);
        proof {
            self.tiles@ = self.tiles@.insert((row, col), tile.pixels@);
            let after = self@;
            assert forall|r: int, c: int| #[trigger] after.tiles.dom().contains((r, c)) implies {
                &&& after.grid.has_cell(r, c)
                &&& after.tiles[(r, c)].wf()
                &&& after.tiles[(r, c)].width == after.grid.tile_edge
                &&& after.tiles[(r, c)].height == after.grid.tile_edge
                &&& region_matches(after.mosaic, e, r, c, after.tiles[(r, c)])
            } by {
                if r == row && c == col {
                    assert forall|x: int, y: int| 0 <= x < e && 0 <= y < e implies after.mosaic.pixel(
                        c * e + x,
                        r * e + y,
                    ) == #[trigger] after.tiles[(r, c)].pixel(x, y) by {
                        assert(before.mosaic.contains(c * e + x, r * e + y));
                    }
                } else {
                    assert(before.tiles.dom().contains((r, c)));
                    let t = before.tiles[(r, c)];
                    assert(region_matches(before.mosaic, e, r, c, t));
                    assert forall|x: int, y: int| 0 <= x < e && 0 <= y < e implies after.mosaic.pixel(
                        c * e + x,
                        r * e + y,
                    ) == #[trigger] t.pixel(x, y) by {
                        lemma_cells_disjoint(e, row, col, r, c, x, y);
                        lemma_cell_fits(count as int, e, r);
                        lemma_cell_fits(count as int, e, c);
                        assert(before.mosaic.contains(c * e + x, r * e + y));
                        assert(before.mosaic.pixel(c * e + x, r * e + y) == t.pixel(x, y));
                    }
                }
            }
            assert forall|r: int, c: int| self.grid.has_cell(r, c) implies (#[trigger] self.tiles@.dom().contains(
                (r, c),
            ) <==> self.placed@[cell_index(count as int, r, c)]) by {
                crate::raster::lemma_cell_bound(c, r, count as int, count as int);
                if cell_index(count as int, r, c) == cell_index(count as int, row, col) {
                    crate::raster::lemma_cell_injective(c, r, col, row, count as int);
                }
                assert(before.tiles.dom().contains((r, c)) <==> old(self).placed@[cell_index(
                    count as int,
                    r,
                    c,
                )]);
            }
        }
        Ok(())
    }

    /// Whether every cell holds a tile.
    pub fn is_complete(&self) -> (b: bool)
        requires
            self.wf(),
        ensures
            b == self@.complete(),
    {
        let count = self.grid.tile_count;
        let mut row: u32 = 0;
        while row < count
            invariant
                row <= count,
                count == self.grid.tile_count,
                self.wf(),
                forall|r: int, c: int|
                    0 <= r < row && 0 <= c < count ==> #[trigger] self@.tiles.dom().contains((r, c)),
            decreases count - row,
        {
            let mut col: u32 = 0;
            while col < count
                invariant
                    col <= count,
                    row < count,
                    count == self.grid.tile_count,
                    self.wf(),
                    forall|r: int, c: int|
                        0 <= r < row && 0 <= c < count ==> #[trigger] self@.tiles.dom().contains((r, c)),
                    forall|c: int| 0 <= c < col ==> #[trigger] self@.tiles.dom().contains((row as int, c)),
                decreases count - col,
            {
                if !self.is_placed(row, col) {
                    assert(self@.grid.has_cell(row as int, col as int));
                    return false;
                }
                col = col + 1;
            }
            row = row + 1;
        }
        true
    }

    /// Hands out the mosaic once every cell holds its tile.
    pub fn finish(self) -> (out: Result<Raster, AssemblyError>)
        requires
            self.wf(),
        ensures
            match out {
                Ok(m) => {
                    &&& self@.complete()
                    &&& m@ == self@.mosaic
                    &&& m.wf()
                    &&& m@.width == self@.grid.spec_edge()
                    &&& m@.height == self@.grid.spec_edge()
                    &&& forall|row: int, col: int|
                        self@.grid.has_cell(row, col) ==> region_matches(
                            m@,
                            self@.grid.tile_edge as int,
                            row,
                            col,
                            #[trigger] self@.tiles[(row, col)],
                        )
                },
                Err(e) => !self@.complete() && e == AssemblyError::Incomplete,
            },
    {
        if !self.is_complete() {
            return Err(AssemblyError::Incomplete);
        }
        proof {
            let v = self@;
            assert forall|row: int, col: int| v.grid.has_cell(row, col) implies region_matches(
                v.mosaic,
                v.grid.tile_edge as int,
                row,
                col,
                #[trigger] v.tiles[(row, col)],
            ) by {
                assert(v.tiles.dom().contains((row, col)));
            }
        }
        Ok(self.mosaic)
    }
}

/// Whether `t` is a tile that `fetch` can give for the cell `(row, col)`,
/// tagged with that cell, and the cell of `mosaic` shows it pixel for pixel.
pub open spec fn shows_fetched<F: Fn(u32, u32) -> Result<Tile, FetchError>>(
    fetch: F,
    grid: GridSpec,
    mosaic: RasterView,
    row: int,
    col: int,
    t: Tile,
) -> bool {
    &&& call_ensures(fetch, (row as u32, col as u32), Ok::<Tile, FetchError>(t))
    &&& t.row == row
    &&& t.col == col
    &&& region_matches(mosaic, grid.tile_edge as int, row, col, t.pixels@)
}

/// Whether `fetch` can give, for the cell `(row, col)`, the tile `t`, which
/// does not belong there: it is tagged with another cell or has another
/// size than the grid's tiles.
pub open spec fn fetched_unfit<F: Fn(u32, u32) -> Result<Tile, FetchError>>(
    fetch: F,
    grid: GridSpec,
    row: u32,
    col: u32,
    t: Tile,
    e: AssemblyError,
) -> bool {
    &&& grid.has_cell(row as int, col as int)
    &&& call_ensures(fetch, (row, col), Ok::<Tile, FetchError>(t))
    &&& e == (if t.row != row || t.col != col {
        AssemblyError::Misplaced
    } else {
        AssemblyError::WrongSize
    })
    &&& (t.row != row || t.col != col || t.pixels@.width != grid.tile_edge || t.pixels@.height
        != grid.tile_edge)
}

/// Whether `fetch` can fail with `e` for the cell `(row, col)`.
pub open spec fn fetch_fails<F: Fn(u32, u32) -> Result<Tile, FetchError>>(
    fetch: F,
    grid: GridSpec,
    row: u32,
    col: u32,
    e: FetchError,
) -> bool {
    grid.has_cell(row as int, col as int) && call_ensures(fetch, (row, col), Err::<Tile, FetchError>(e))
}

/// Whether `fetch` gives, for every cell of the grid, nothing but tiles
/// that belong there.
pub open spec fn never_fails<F: Fn(u32, u32) -> Result<Tile, FetchError>>(fetch: F, grid: GridSpec) -> bool {
    forall|row: u32, col: u32, out: Result<Tile, FetchError>|
        grid.has_cell(row as int, col as int) && #[trigger] call_ensures(fetch, (row, col), out) ==> {
            &&& out matches Ok(t)
            &&& t.row == row
            &&& t.col == col
            &&& t.pixels@.width == grid.tile_edge
            &&& t.pixels@.height == grid.tile_edge
        }
}

/// Fetches the tile of every cell of `grid`, row by row, and stitches them.
///
/// The first tile that cannot be fetched, or that does not belong in the
/// cell it was fetched for, ends the assembly with its error: no mosaic is
/// handed out unless every cell shows the tile that was fetched for it.
pub fn assemble<F: Fn(u32, u32) -> Result<Tile, FetchError>>(grid: GridSpec, fetch: F) -> (out: Result<
    Raster,
    AssemblyError,
>)
    requires
        forall|row: u32, col: u32|
            grid.has_cell(row as int, col as int) ==> call_requires(fetch, (row, col)),
        forall|row: u32, col: u32, t: Tile|
            call_ensures(fetch, (row, col), Ok::<Tile, FetchError>(t)) ==> t.pixels.wf(),
    ensures
        match out {
            Ok(m) => {
                &&& grid.valid()
                &&& m.wf()
                &&& m@.width == grid.spec_edge()
                &&& m@.height == grid.spec_edge()
                &&& forall|row: int, col: int|
                    grid.has_cell(row, col) ==> exists|t: Tile| #[trigger]
                        shows_fetched(fetch, grid, m@, row, col, t)
            },
            Err(e) => match e {
                AssemblyError::InvalidGrid => !grid.valid(),
                AssemblyError::GridTooLarge => grid.valid() && 3 * (grid.spec_edge() * grid.spec_edge())
                    > usize::MAX,
                AssemblyError::Fetch(fe) => exists|row: u32, col: u32| #[trigger]
                    fetch_fails(fetch, grid, row, col, fe),
                AssemblyError::Misplaced | AssemblyError::WrongSize => exists|row: u32, col: u32, t: Tile|
                 #[trigger]
                    fetched_unfit(fetch, grid, row, col, t, e),
                _ => false,
            },
        },
        grid.valid() && 3 * (grid.spec_edge() * grid.spec_edge()) <= usize::MAX && never_fails(fetch, grid)
            ==> out is Ok,
{
    let mut assembler = match Assembler::new(grid) {
        Ok(a) => a,
        Err(e) => {
            return Err(e);
        },
    };
    let count = grid.tile_count;
    let ghost mut got: Map<(int, int), Tile> = Map::empty();
    let mut row: u32 = 0;
    while row < count
        invariant
            row <= count,
            count == grid.tile_count,
            assembler.wf(),
            assembler@.grid == grid,
            forall|r: u32, c: u32| grid.has_cell(r as int, c as int) ==> call_requires(fetch, (r, c)),
            forall|r: u32, c: u32, t: Tile|
                call_ensures(fetch, (r, c), Ok::<Tile, FetchError>(t)) ==> t.pixels.wf(),
            forall|r: int, c: int| #[trigger]
                assembler@.tiles.dom().contains((r, c)) <==> grid.has_cell(r, c) && r < row,
            forall|r: int, c: int| #[trigger]
                assembler@.tiles.dom().contains((r, c)) ==> {
                    &&& call_ensures(fetch, (r as u32, c as u32), Ok::<Tile, FetchError>(got[(r, c)]))
                    &&& got[(r, c)].row == r
                    &&& got[(r, c)].col == c
                    &&& got[(r, c)].pixels@ == assembler@.tiles[(r, c)]
                },
        decreases count - row,
    {
        let mut col: u32 = 0;
        while col < count
            invariant
                col <= count,
                row < count,
                count == grid.tile_count,
                assembler.wf(),
                assembler@.grid == grid,
                forall|r: u32, c: u32| grid.has_cell(r as int, c as int) ==> call_requires(fetch, (r, c)),
                forall|r: u32, c: u32, t: Tile|
                    call_ensures(fetch, (r, c), Ok::<Tile, FetchError>(t)) ==> t.pixels.wf(),
                forall|r: int, c: int| #[trigger]
                    assembler@.tiles.dom().contains((r, c)) <==> grid.has_cell(r, c) && (r < row || (r
                        == row && c < col)),
                forall|r: int, c: int| #[trigger]
                    assembler@.tiles.dom().contains((r, c)) ==> {
                        &&& call_ensures(fetch, (r as u32, c as u32), Ok::<Tile, FetchError>(got[(r, c)]))
                        &&& got[(r, c)].row == r
                        &&& got[(r, c)].col == c
                        &&& got[(r, c)].pixels@ == assembler@.tiles[(r, c)]
                    },
            decreases count - col,
        {
            assert(grid.has_cell(row as int, col as int));
            let tile = match fetch(row, col) {
                Ok(tile) => tile,
                Err(e) => {
                    assert(fetch_fails(fetch, grid, row, col, e));
                    return Err(AssemblyError::Fetch(e));
                },
            };
            if tile.row != row || tile.col != col {
                assert(fetched_unfit(fetch, grid, row, col, tile, AssemblyError::Misplaced));
                return Err(AssemblyError::Misplaced);
            }
            match assembler.place(&tile) {
                Ok(_) => {},
                Err(e) => {
                    assert(fetched_unfit(fetch, grid, row, col, tile, AssemblyError::WrongSize));
                    return Err(e);
                },
            }
            proof {
                got = got.insert((row as int, col as int), tile);
            }
            col = col + 1;
        }
        row = row + 1;
    }
    proof {
        assembler.lemma_wf();
    }
    let ghost filled = assembler@;
    match assembler.finish() {
        Ok(m) => {
            proof {
                assert forall|r: int, c: int| grid.has_cell(r, c) implies exists|t: Tile| #[trigger]
                    shows_fetched(fetch, grid, m@, r, c, t) by {
                    assert(filled.tiles.dom().contains((r, c)));
                    assert(shows_fetched(fetch, grid, m@, r, c, got[(r, c)]));
                }
            }
            Ok(m)
        },
        Err(e) => {
            // every cell was filled above
            assert(filled.complete());
            Err(e)
        },
    }
}

} // verus!
