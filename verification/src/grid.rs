//! The ghost model of a board: a width, a height and the tiles in row-major
//! order, with everything the contracts of [`crate::board`] say about them.

use vstd::prelude::*;
use crate::tile::{Tile, TileState, TileType};

verus! {

/// One for a bomb, zero for any other tile.
pub open spec fn bomb_weight(tile: Tile) -> nat {
    if tile.is_bomb() {
        1
    } else {
        0
    }
}

/// The number of bombs among `tiles`.
pub open spec fn count_bombs(tiles: Seq<Tile>) -> nat
    decreases tiles.len(),
{
    if tiles.len() == 0 {
        0
    } else {
        bomb_weight(tiles.first()) + count_bombs(tiles.drop_first())
    }
}

/// The position of the tile that has exactly `n` bomb-free tiles before it
/// and is itself no bomb. Where `tiles` holds `n` bomb-free tiles or fewer,
/// the result is `tiles.len()`.
pub open spec fn nth_free(tiles: Seq<Tile>, n: nat) -> nat
    decreases tiles.len(),
{
    if tiles.len() == 0 {
        0
    } else if tiles.first().is_bomb() {
        1 + nth_free(tiles.drop_first(), n)
    } else if n == 0 {
        0
    } else {
        1 + nth_free(tiles.drop_first(), (n - 1) as nat)
    }
}

/// What a board is, mathematically.
pub struct Grid {
    pub width: nat,
    pub height: nat,
    /// The tiles row by row: the tile at `(x, y)` is `tiles[y * width + x]`.
    pub tiles: Seq<Tile>,
}

impl Grid {
    /// There is exactly one tile per coordinate.
    pub open spec fn wf(self) -> bool {
        self.tiles.len() == self.width * self.height
    }

    /// Whether `(x, y)` names a tile of the grid.
    pub open spec fn in_range(self, x: int, y: int) -> bool {
        0 <= x < self.width && 0 <= y < self.height
    }

    /// Where the tile at `(x, y)` stands in `tiles`.
    pub open spec fn index_of(self, x: int, y: int) -> int {
        y * self.width + x
    }

    /// The tile at `(x, y)`.
    pub open spec fn tile(self, x: int, y: int) -> Tile
        recommends
            self.in_range(x, y),
    {
        self.tiles[self.index_of(x, y)]
    }

    /// The tile at `(x, y)`, or `None` for a coordinate off the grid.
    pub open spec fn get(self, x: int, y: int) -> Option<Tile> {
        if self.in_range(x, y) {
            Some(self.tile(x, y))
        } else {
            None
        }
    }

    /// One if `(x, y)` is on the grid, zero if not.
    pub open spec fn cell_at(self, x: int, y: int) -> nat {
        if self.in_range(x, y) {
            1
        } else {
            0
        }
    }

    /// One if `(x, y)` is on the grid and holds a bomb, zero if not.
    pub open spec fn bomb_at(self, x: int, y: int) -> nat {
        if self.in_range(x, y) {
            bomb_weight(self.tile(x, y))
        } else {
            0
        }
    }

    /// How many of the columns `x - 1`, `x` and `x + 1` are on a grid of
    /// `count` columns, for a column `x` that is on it. The same goes for rows.
    pub open spec fn span(count: nat, x: int) -> int {
        3 - (if x == 0 {
            1int
        } else {
            0int
        }) - (if x == count - 1 {
            1int
        } else {
            0int
        })
    }

    /// How many of the eight coordinates around `(x, y)` are on the grid.
    pub open spec fn neighbor_cells(self, x: int, y: int) -> nat {
        self.cell_at(x - 1, y - 1) + self.cell_at(x - 1, y) + self.cell_at(x - 1, y + 1)
            + self.cell_at(x, y - 1) + self.cell_at(x, y + 1) + self.cell_at(x + 1, y - 1)
            + self.cell_at(x + 1, y) + self.cell_at(x + 1, y + 1)
    }

    /// How many of the eight coordinates around `(x, y)` are on the grid and
    /// hold a bomb.
    pub open spec fn neighbor_bombs(self, x: int, y: int) -> nat {
        self.bomb_at(x - 1, y - 1) + self.bomb_at(x - 1, y) + self.bomb_at(x - 1, y + 1)
            + self.bomb_at(x, y - 1) + self.bomb_at(x, y + 1) + self.bomb_at(x + 1, y - 1)
            + self.bomb_at(x + 1, y) + self.bomb_at(x + 1, y + 1)
    }

    /// The number of bombs on the grid.
    pub open spec fn bomb_count(self) -> nat {
        count_bombs(self.tiles)
    }

    /// The number of tiles that hold no bomb.
    pub open spec fn free_count(self) -> int {
        self.tiles.len() - count_bombs(self.tiles)
    }

    /// Every tile is hidden.
    pub open spec fn all_hidden(self) -> bool {
        forall|i: int|
            0 <= i < self.tiles.len() ==> (#[trigger] self.tiles[i]).state == TileState::Hidden
    }

    /// Every empty tile carries the number of bombs around it.
    pub open spec fn counts_exact(self) -> bool {
        forall|x: int, y: int| self.in_range(x, y) ==> #[trigger] self.exact_at(x, y)
    }

    /// The tile at `(x, y)` is a bomb, or carries the number of bombs around it.
    pub open spec fn exact_at(self, x: int, y: int) -> bool {
        self.tile(x, y).tile_type matches TileType::Empty(count) ==> count == self.neighbor_bombs(
            x,
            y,
        )
    }

    /// The grid of the given size on which every tile is empty, counts zero
    /// bombs around it and is hidden.
    pub open spec fn blank(width: nat, height: nat) -> Grid {
        Grid { width, height, tiles: Seq::new(width * height, |i: int| Tile::spec_default()) }
    }

    /// The grid with the tile at position `i` of `tiles` replaced.
    pub open spec fn with_tile_at(self, i: int, tile: Tile) -> Grid {
        Grid { width: self.width, height: self.height, tiles: self.tiles.update(i, tile) }
    }

    /// The grid with the type of the tile at `(x, y)` replaced.
    pub open spec fn with_type(self, x: int, y: int, tile_type: TileType) -> Grid {
        self.with_tile_at(
            self.index_of(x, y),
            Tile { tile_type, state: self.tile(x, y).state },
        )
    }

    /// The grid with the state of the tile at `(x, y)` replaced.
    pub open spec fn with_state(self, x: int, y: int, state: TileState) -> Grid {
        self.with_tile_at(
            self.index_of(x, y),
            Tile { tile_type: self.tile(x, y).tile_type, state },
        )
    }

    /// The grid after the reveal button was pressed on the tile at `(x, y)`:
    /// a hidden tile becomes visible, any other tile stays as it is.
    pub open spec fn reveal_tile(self, x: int, y: int) -> Grid {
        self.with_state(x, y, self.tile(x, y).state.revealed())
    }

    /// The grid after the flag button was pressed on the tile at `(x, y)`:
    /// a hidden tile is flagged, a flagged tile is hidden again, a visible
    /// tile stays as it is.
    pub open spec fn flag_tile(self, x: int, y: int) -> Grid {
        self.with_state(x, y, self.tile(x, y).state.toggled())
    }

    /// The grid with a bomb at position `i` of `tiles`.
    pub open spec fn with_bomb_at(self, i: int) -> Grid {
        self.with_tile_at(i, Tile { tile_type: TileType::Bomb, state: self.tiles[i].state })
    }

    /// Two grids of one size hold the same types of tile at the same places:
    /// they differ in nothing but what the player sees.
    pub open spec fn same_types(self, other: Grid) -> bool {
        &&& self.width == other.width
        &&& self.height == other.height
        &&& self.tiles.len() == other.tiles.len()
        &&& forall|i: int|
            0 <= i < self.tiles.len() ==> (#[trigger] self.tiles[i]).tile_type
                == other.tiles[i].tile_type
    }

    /// Two grids of one size hold their bombs at the same places.
    pub open spec fn same_bombs(self, other: Grid) -> bool {
        &&& self.width == other.width
        &&& self.height == other.height
        &&& self.tiles.len() == other.tiles.len()
        &&& forall|i: int|
            0 <= i < self.tiles.len() ==> (#[trigger] self.tiles[i]).is_bomb()
                == other.tiles[i].is_bomb()
    }
}

/// A coordinate on the grid has a position in `tiles`.
pub proof fn lemma_index_in_bounds(grid: Grid, x: int, y: int)
    requires
        grid.wf(),
        grid.in_range(x, y),
    ensures
        0 <= grid.index_of(x, y) < grid.tiles.len(),
{
    let w = grid.width as int;
    let h = grid.height as int;
    assert(0 <= y * w && y * w + w <= h * w) by (nonlinear_arith)
        requires
            0 <= y < h,
            0 <= w,
    ;
}

/// Two coordinates on the grid with one position in `tiles` are the same.
pub proof fn lemma_index_injective(grid: Grid, x1: int, y1: int, x2: int, y2: int)
    requires
        grid.in_range(x1, y1),
        grid.in_range(x2, y2),
        grid.index_of(x1, y1) == grid.index_of(x2, y2),
    ensures
        x1 == x2,
        y1 == y2,
{
    let w = grid.width as int;
    assert(y1 == y2) by (nonlinear_arith)
        requires
            0 <= x1 < w,
            0 <= x2 < w,
            y1 * w + x1 == y2 * w + x2,
    ;
}

/// A sequence holds no more bombs than tiles.
pub proof fn lemma_count_bombs_bound(tiles: Seq<Tile>)
    ensures
        count_bombs(tiles) <= tiles.len(),
    decreases tiles.len(),
{
    if tiles.len() > 0 {
        lemma_count_bombs_bound(tiles.drop_first());
    }
}

/// A sequence counts no bomb exactly if it holds none, and as many bombs as
/// tiles exactly if it holds nothing else.
pub proof fn lemma_count_bombs_uniform(tiles: Seq<Tile>)
    ensures
        count_bombs(tiles) == 0 <==> forall|i: int|
            0 <= i < tiles.len() ==> !(#[trigger] tiles[i]).is_bomb(),
        count_bombs(tiles) == tiles.len() <==> forall|i: int|
            0 <= i < tiles.len() ==> (#[trigger] tiles[i]).is_bomb(),
    decreases tiles.len(),
{
    if tiles.len() > 0 {
        let rest = tiles.drop_first();
        lemma_count_bombs_uniform(rest);
        lemma_count_bombs_bound(rest);
        if count_bombs(tiles) == 0 {
            assert forall|i: int| 0 <= i < tiles.len() implies !(#[trigger] tiles[i]).is_bomb() by {
                if i > 0 {
                    assert(!rest[i - 1].is_bomb());
                }
            }
        }
        if count_bombs(tiles) == tiles.len() {
            assert forall|i: int| 0 <= i < tiles.len() implies (#[trigger] tiles[i]).is_bomb() by {
                if i > 0 {
                    assert(rest[i - 1].is_bomb());
                }
            }
        }
    }
}

/// Replacing one tile changes the number of bombs by what the two tiles weigh.
pub proof fn lemma_count_bombs_update(tiles: Seq<Tile>, i: int, tile: Tile)
    requires
        0 <= i < tiles.len(),
    ensures
        count_bombs(tiles.update(i, tile)) + bomb_weight(tiles[i]) == count_bombs(tiles)
            + bomb_weight(tile),
    decreases tiles.len(),
{
    if i == 0 {
        assert(tiles.update(i, tile).drop_first() =~= tiles.drop_first());
    } else {
        assert(tiles.update(i, tile).drop_first() =~= tiles.drop_first().update(i - 1, tile));
        lemma_count_bombs_update(tiles.drop_first(), i - 1, tile);
    }
}

/// Where more than `n` tiles are free of bombs, `nth_free` names one of them.
pub proof fn lemma_nth_free(tiles: Seq<Tile>, n: nat)
    requires
        n + count_bombs(tiles) < tiles.len(),
    ensures
        nth_free(tiles, n) < tiles.len(),
        !tiles[nth_free(tiles, n) as int].is_bomb(),
    decreases tiles.len(),
{
    let rest = tiles.drop_first();
    if tiles.first().is_bomb() {
        lemma_nth_free(rest, n);
    } else if n > 0 {
        lemma_nth_free(rest, (n - 1) as nat);
    }
}

/// Grids that hold their bombs at the same places count the same number of
/// bombs around every coordinate.
pub proof fn lemma_same_bombs_same_neighbors(a: Grid, b: Grid, x: int, y: int)
    requires
        a.wf(),
        a.same_bombs(b),
    ensures
        a.neighbor_bombs(x, y) == b.neighbor_bombs(x, y),
{
    lemma_same_bombs_at(a, b, x - 1, y - 1);
    lemma_same_bombs_at(a, b, x - 1, y);
    lemma_same_bombs_at(a, b, x - 1, y + 1);
    lemma_same_bombs_at(a, b, x, y - 1);
    lemma_same_bombs_at(a, b, x, y + 1);
    lemma_same_bombs_at(a, b, x + 1, y - 1);
    lemma_same_bombs_at(a, b, x + 1, y);
    lemma_same_bombs_at(a, b, x + 1, y + 1);
}

/// Grids that hold their bombs at the same places agree on whether a
/// coordinate holds one.
proof fn lemma_same_bombs_at(a: Grid, b: Grid, x: int, y: int)
    requires
        a.wf(),
        a.same_bombs(b),
    ensures
        a.bomb_at(x, y) == b.bomb_at(x, y),
{
    if a.in_range(x, y) {
        lemma_index_in_bounds(a, x, y);
    }
}

/// Replacing the tile at `(x, y)` changes that tile and no other.
pub proof fn lemma_with_tile(grid: Grid, x: int, y: int, tile: Tile)
    requires
        grid.wf(),
        grid.in_range(x, y),
    ensures
        ({
            let after = grid.with_tile_at(grid.index_of(x, y), tile);
            &&& after.wf()
            &&& after.tile(x, y) == tile
            &&& forall|i: int, j: int|
                grid.in_range(i, j) && !(i == x && j == y) ==> #[trigger] after.tile(i, j)
                    == grid.tile(i, j)
        }),
{
    let after = grid.with_tile_at(grid.index_of(x, y), tile);
    lemma_index_in_bounds(grid, x, y);
    assert forall|i: int, j: int| grid.in_range(i, j) && !(i == x && j == y) implies #[trigger] after.tile(
        i,
        j,
    ) == grid.tile(i, j) by {
        lemma_index_in_bounds(grid, i, j);
        if grid.index_of(i, j) == grid.index_of(x, y) {
            lemma_index_injective(grid, i, j, x, y);
        }
    }
}

/// Writing the exact number of bombs around it into an empty tile moves no
/// bomb, changes no state and leaves every tile exact that was exact before.
pub proof fn lemma_count_written(grid: Grid, x: int, y: int)
    requires
        grid.wf(),
        grid.in_range(x, y),
        !grid.tile(x, y).is_bomb(),
    ensures
        ({
            let after = grid.with_type(x, y, TileType::Empty(grid.neighbor_bombs(x, y) as u8));
            &&& after.wf()
            &&& after.same_bombs(grid)
            &&& after.bomb_count() == grid.bomb_count()
            &&& after.exact_at(x, y)
            &&& forall|i: int|
                0 <= i < grid.tiles.len() ==> (#[trigger] after.tiles[i]).state
                    == grid.tiles[i].state
            &&& forall|i: int, j: int|
                grid.in_range(i, j) && grid.exact_at(i, j) ==> #[trigger] after.exact_at(i, j)
        }),
{
    let written = Tile {
        tile_type: TileType::Empty(grid.neighbor_bombs(x, y) as u8),
        state: grid.tile(x, y).state,
    };
    lemma_index_in_bounds(grid, x, y);
    lemma_with_tile(grid, x, y, written);
    lemma_count_bombs_update(grid.tiles, grid.index_of(x, y), written);
}

/// Flagging a tile twice gives back the grid as it was: a hidden tile is
/// hidden again, a flagged tile flagged again.
pub proof fn lemma_flag_twice(grid: Grid, x: int, y: int)
    requires
        grid.wf(),
        grid.in_range(x, y),
    ensures
        grid.flag_tile(x, y).flag_tile(x, y) == grid,
{
    lemma_index_in_bounds(grid, x, y);
    assert(grid.flag_tile(x, y).flag_tile(x, y).tiles =~= grid.tiles);
}

/// Flagging a visible tile changes nothing.
pub proof fn lemma_flag_visible(grid: Grid, x: int, y: int)
    requires
        grid.wf(),
        grid.in_range(x, y),
        grid.tile(x, y).state == TileState::Visable,
    ensures
        grid.flag_tile(x, y) == grid,
{
    lemma_index_in_bounds(grid, x, y);
    assert(grid.flag_tile(x, y).tiles =~= grid.tiles);
}

/// Revealing a tile that is not hidden, flagged or visible already, changes
/// nothing; revealing a second time never does.
pub proof fn lemma_reveal_settled(grid: Grid, x: int, y: int)
    requires
        grid.wf(),
        grid.in_range(x, y),
    ensures
        grid.tile(x, y).state != TileState::Hidden ==> grid.reveal_tile(x, y) == grid,
        grid.reveal_tile(x, y).reveal_tile(x, y) == grid.reveal_tile(x, y),
{
    lemma_index_in_bounds(grid, x, y);
    if grid.tile(x, y).state != TileState::Hidden {
        assert(grid.reveal_tile(x, y).tiles =~= grid.tiles);
    }
    assert(grid.reveal_tile(x, y).reveal_tile(x, y).tiles =~= grid.reveal_tile(x, y).tiles);
}

/// Around a tile the grid holds up to eight others: all but itself of the
/// columns and rows next to it that are on the grid, which makes three for a
/// corner, five for an edge and eight inside. A coordinate off the grid
/// never counts as a bomb.
pub proof fn lemma_neighbor_bounds(grid: Grid, x: int, y: int)
    ensures
        grid.neighbor_bombs(x, y) <= grid.neighbor_cells(x, y) <= 8,
        grid.in_range(x, y) ==> grid.neighbor_cells(x, y) + 1 == Grid::span(grid.width, x)
            * Grid::span(grid.height, y),
{
    if grid.in_range(x, y) {
        let columns = Grid::span(grid.width, x);
        let rows = Grid::span(grid.height, y);
        assert(columns * rows == if columns == 1 {
            rows
        } else if columns == 2 {
            2 * rows
        } else {
            3 * rows
        }) by (nonlinear_arith)
            requires
                1 <= columns <= 3,
        ;
    }
}

/// Sequences that hold their bombs at the same places hold the same number of them.
pub proof fn lemma_count_bombs_same(a: Seq<Tile>, b: Seq<Tile>)
    requires
        a.len() == b.len(),
        forall|i: int| 0 <= i < a.len() ==> (#[trigger] a[i]).is_bomb() == b[i].is_bomb(),
    ensures
        count_bombs(a) == count_bombs(b),
    decreases a.len(),
{
    if a.len() > 0 {
        lemma_count_bombs_same(a.drop_first(), b.drop_first());
    }
}

/// Grids that differ only in what the player sees hold the same number of
/// bombs, and the counts on the one are exact if those on the other are.
pub proof fn lemma_same_types(a: Grid, b: Grid)
    requires
        a.wf(),
        a.same_types(b),
    ensures
        b.wf(),
        a.same_bombs(b),
        a.bomb_count() == b.bomb_count(),
        a.counts_exact() == b.counts_exact(),
{
    lemma_count_bombs_same(a.tiles, b.tiles);
    assert forall|x: int, y: int| a.in_range(x, y) implies a.exact_at(x, y) == b.exact_at(x, y) by {
        lemma_index_in_bounds(a, x, y);
        lemma_same_bombs_same_neighbors(a, b, x, y);
    }
}

/// What the player does to a tile changes what is seen of it and nothing
/// else: after a reveal or a flag every tile is of the type it was.
pub proof fn lemma_state_keeps_types(grid: Grid, x: int, y: int, state: TileState)
    requires
        grid.wf(),
        grid.in_range(x, y),
    ensures
        grid.with_state(x, y, state).wf(),
        grid.with_state(x, y, state).same_types(grid),
{
    lemma_index_in_bounds(grid, x, y);
}

/// A grid with as many bombs as tiles holds a bomb on every tile.
pub proof fn lemma_full_grid(grid: Grid)
    requires
        grid.wf(),
        grid.bomb_count() == grid.width * grid.height,
    ensures
        forall|x: int, y: int| grid.in_range(x, y) ==> (#[trigger] grid.tile(x, y)).is_bomb(),
{
    lemma_count_bombs_uniform(grid.tiles);
    assert forall|x: int, y: int| grid.in_range(x, y) implies (#[trigger] grid.tile(x, y)).is_bomb() by {
        lemma_index_in_bounds(grid, x, y);
    }
}

/// On a grid without a bomb and with exact counts every tile is empty and
/// counts zero bombs around it.
pub proof fn lemma_bombless_grid(grid: Grid)
    requires
        grid.wf(),
        grid.bomb_count() == 0,
        grid.counts_exact(),
    ensures
        forall|x: int, y: int|
            grid.in_range(x, y) ==> (#[trigger] grid.tile(x, y)).tile_type == TileType::Empty(0),
{
    lemma_count_bombs_uniform(grid.tiles);
    assert forall|x: int, y: int| grid.in_range(x, y) implies (#[trigger] grid.tile(
        x,
        y,
    )).tile_type == TileType::Empty(0) by {
        lemma_index_in_bounds(grid, x, y);
        lemma_same_bombs_same_neighbors(grid, Grid::blank(grid.width, grid.height), x, y);
        lemma_blank_has_no_bombs(grid.width, grid.height, x, y);
        assert(grid.exact_at(x, y));
    }
}

/// Around no coordinate of a blank grid is there a bomb.
proof fn lemma_blank_has_no_bombs(width: nat, height: nat, x: int, y: int)
    ensures
        Grid::blank(width, height).neighbor_bombs(x, y) == 0,
{
    let blank = Grid::blank(width, height);
    assert forall|i: int, j: int| blank.bomb_at(i, j) == 0 by {
        if blank.in_range(i, j) {
            lemma_index_in_bounds(blank, i, j);
        }
    }
}

} // verus!
