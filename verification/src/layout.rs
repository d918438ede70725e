//! Where the tiles stand in world space: a board is centred on the origin,
//! and every tile takes a square of [`TILE_SIZE`] world units.

use vstd::prelude::*;
use crate::board::{Board, BoardError};
use crate::grid::Grid;
use crate::input::{
    press, tiles_on_grid, Action, Bound, Outcome, Position, Selectable, SelectableTile,
    SpriteUpdate, TileEntity,
};

verus! {

/// The length of a tile's side, in world units.
pub const TILE_SIZE: i64 = 80;

/// Half the length of a tile's side.
pub const HALF_TILE: i64 = 40;

/// The world coordinate at which column `index` of `count` columns begins.
/// Rows are laid out in the same way.
pub open spec fn spec_tile_origin(count: u32, index: int) -> int {
    TILE_SIZE * index - HALF_TILE * count
}

/// The column of `count` columns in which the world coordinate lies, if it
/// lies in one of them. Rows are found in the same way.
pub open spec fn tile_at(count: u32, coordinate: int) -> int {
    (coordinate + HALF_TILE * count) / (TILE_SIZE as int)
}

/// `position` lies on a board of the given size.
pub open spec fn on_board(width: u32, height: u32, position: Position) -> bool {
    &&& spec_tile_origin(width, 0) <= position.x < spec_tile_origin(width, width as int)
    &&& spec_tile_origin(height, 0) <= position.y < spec_tile_origin(height, height as int)
}

/// `bound` is the region of the tile at `(x, y)` on a board of the given
/// size: a square with the sides of a tile.
pub open spec fn is_region_of(bound: Bound, width: u32, height: u32, x: int, y: int) -> bool {
    &&& bound.bottom_left().x == spec_tile_origin(width, x)
    &&& bound.bottom_left().y == spec_tile_origin(height, y)
    &&& bound.top_right().x == spec_tile_origin(width, x) + TILE_SIZE
    &&& bound.top_right().y == spec_tile_origin(height, y) + TILE_SIZE
}

/// `entity` stands for the tile at `(x, y)` on a board of the given size,
/// and can be selected in the region of that tile.
pub open spec fn is_entity_of(entity: SelectableTile, width: u32, height: u32, x: int, y: int) -> bool {
    &&& entity.tile.x == x
    &&& entity.tile.y == y
    &&& is_region_of(entity.selectable.bound(), width, height, x, y)
}

/// Where the entity of the tile at `(x, y)` stands in the list of a board
/// with `height` rows: the list goes column by column.
pub open spec fn entity_index(height: u32, x: int, y: int) -> int {
    x * height + y
}

/// `tiles` holds one entity per tile of a board of the given size, column
/// by column, each with the region of its tile.
pub open spec fn is_layout(tiles: Seq<SelectableTile>, width: u32, height: u32) -> bool {
    &&& tiles.len() == width * height
    &&& forall|x: int, y: int|
        0 <= x < width && 0 <= y < height ==> is_entity_of(
            tiles[#[trigger] entity_index(height, x, y)],
            width,
            height,
            x,
            y,
        )
}

/// What one press at `position` does on a board of the given size whose
/// entities are laid out by [`selectable_tiles`]: the action is applied to
/// the tile under the pointer, and to nothing if the pointer is off the board.
pub open spec fn press_on_layout(
    action: Action,
    grid: Grid,
    width: u32,
    height: u32,
    position: Position,
) -> Outcome {
    if on_board(width, height, position) {
        let x = tile_at(width, position.x as int);
        let y = tile_at(height, position.y as int);
        Outcome {
            grid: action.apply(grid, x, y),
            updates: match action.sprite(grid.tile(x, y)) {
                Some(index) => seq![
                    SpriteUpdate { entity: entity_index(height, x, y) as usize, index },
                ],
                None => Seq::empty(),
            },
        }
    } else {
        Outcome { grid, updates: Seq::empty() }
    }
}

/// Returns the world coordinate at which column `index` of `count` columns begins.
pub fn tile_origin(count: u32, index: u32) -> (origin: i64)
    ensures
        origin == spec_tile_origin(count, index as int),
{
    let min: i64 = -(HALF_TILE * (count as i64));
    min + TILE_SIZE * (index as i64)
}

/// Returns the region of the tile at `(x, y)` on a board of the given size.
pub fn tile_bound(width: u32, height: u32, x: u32, y: u32) -> (bound: Bound)
    ensures
        bound.wf(),
        is_region_of(bound, width, height, x as int, y as int),
{
    let left = tile_origin(width, x);
    let bottom = tile_origin(height, y);
    Bound::new(
        Position { x: left, y: bottom },
        Position { x: left + TILE_SIZE, y: bottom + TILE_SIZE },
    )
}

/// Returns the middle of the tile at `(x, y)` on a board of the given size,
/// where its sprite is drawn.
pub fn tile_center(width: u32, height: u32, x: u32, y: u32) -> (center: Position)
    ensures
        center.x == spec_tile_origin(width, x as int) + HALF_TILE,
        center.y == spec_tile_origin(height, y as int) + HALF_TILE,
{
    Position { x: tile_origin(width, x) + HALF_TILE, y: tile_origin(height, y) + HALF_TILE }
}

/// An entity of an earlier column stands before every entity of a later one.
proof fn lemma_entity_index(height: u32, x: int, y: int, columns: int)
    requires
        0 <= x < columns,
        0 <= y < height,
    ensures
        0 <= entity_index(height, x, y) < columns * height,
{
    assert(0 <= x * height && x * height + height <= columns * height) by (nonlinear_arith)
        requires
            0 <= x < columns,
            0 <= height,
    ;
}

/// Returns one entity per tile of a board of the given size, column by
/// column, each with the region of its tile.
pub fn selectable_tiles(width: u32, height: u32) -> (tiles: Vec<SelectableTile>)
    requires
        width * height <= usize::MAX,
    ensures
        is_layout(tiles@, width, height),
        forall|k: int|
            0 <= k < tiles.len() ==> (#[trigger] tiles[k]).tile.x < width && tiles[k].tile.y
                < height,
{
    let mut tiles: Vec<SelectableTile> = Vec::new();
    for x in 0..width
        invariant
            tiles.len() == x * height,
            forall|k: int|
                0 <= k < tiles.len() ==> (#[trigger] tiles[k]).tile.x < width && tiles[k].tile.y
                    < height,
            forall|i: int, j: int|
                0 <= i < x && 0 <= j < height ==> is_entity_of(
                    tiles[#[trigger] entity_index(height, i, j)],
                    width,
                    height,
                    i,
                    j,
                ),
    {
        for y in 0..height
            invariant
                x < width,
                tiles.len() == x * height + y,
                forall|k: int|
                    0 <= k < tiles.len() ==> (#[trigger] tiles[k]).tile.x < width
                        && tiles[k].tile.y < height,
                forall|i: int, j: int|
                    0 <= j < height && (0 <= i < x || (i == x && j < y)) ==> is_entity_of(
                        tiles[#[trigger] entity_index(height, i, j)],
                        width,
                        height,
                        i,
                        j,
                    ),
        {
            let bound = tile_bound(width, height, x, y);
            let ghost before = tiles@;
            tiles.push(
                SelectableTile {
                    selectable: Selectable::new(bound.bottom_left(), bound.top_right()),
                    tile: TileEntity { x: x as usize, y: y as usize },
                },
            );
            proof {
                assert forall|i: int, j: int|
                    0 <= j < height && (0 <= i < x || (i == x && j < y + 1)) implies is_entity_of(
                    tiles[#[trigger] entity_index(height, i, j)],
                    width,
                    height,
                    i,
                    j,
                ) by {
                    if i < x {
                        lemma_entity_index(height, i, j, x as int);
                    } else if j < y {
                        assert(tiles[entity_index(height, i, j)] == before[entity_index(
                            height,
                            i,
                            j,
                        )]);
                    }
                }
            }
        }
        assert((x + 1) * height == x * height + height) by (nonlinear_arith);
    }
    tiles
}

/// Generates a random board and the entities of its tiles. Each entity
/// stands for a tile of the board, so the clicks on it can be applied.
pub fn spawn_tiles(width: u32, height: u32, mine_count: u32) -> (result: Result<
    (Board, Vec<SelectableTile>),
    BoardError,
>)
    requires
        width * height <= usize::MAX,
    ensures
        result is Ok <==> mine_count <= width * height,
        result matches Ok((board, tiles)) ==> {
            &&& board@.wf()
            &&& board@.width == width
            &&& board@.height == height
            &&& board@.bomb_count() == mine_count
            &&& board@.all_hidden()
            &&& board@.counts_exact()
            &&& tiles_on_grid(tiles@, board@)
            &&& is_layout(tiles@, width, height)
        },
        result matches Err(error) ==> error == BoardError::TooManyMines,
{
    match Board::generate_board(width as usize, height as usize, mine_count) {
        Ok(board) => Ok((board, selectable_tiles(width, height))),
        Err(error) => Err(error),
    }
}

/// Every position on the board lies in the region of a tile of the board,
/// the one that [`tile_at`] names.
pub proof fn lemma_region_found(bound: Bound, width: u32, height: u32, position: Position)
    requires
        on_board(width, height, position),
        is_region_of(
            bound,
            width,
            height,
            tile_at(width, position.x as int),
            tile_at(height, position.y as int),
        ),
    ensures
        0 <= tile_at(width, position.x as int) < width,
        0 <= tile_at(height, position.y as int) < height,
        bound.contains(position),
{
}

/// No position lies in the regions of two tiles: where the regions of
/// `(x1, y1)` and `(x2, y2)` both hold it, the two are one tile.
pub proof fn lemma_regions_disjoint(
    first: Bound,
    second: Bound,
    width: u32,
    height: u32,
    x1: int,
    y1: int,
    x2: int,
    y2: int,
    position: Position,
)
    requires
        is_region_of(first, width, height, x1, y1),
        is_region_of(second, width, height, x2, y2),
        first.contains(position),
        second.contains(position),
    ensures
        x1 == x2,
        y1 == y2,
{
}

/// A position on the right edge of a tile's region lies in the region of the
/// tile to its right, not in the tile's own; likewise for the top edge and
/// the tile above.
pub proof fn lemma_shared_edge(
    own: Bound,
    right: Bound,
    above: Bound,
    width: u32,
    height: u32,
    x: int,
    y: int,
    position: Position,
)
    requires
        is_region_of(own, width, height, x, y),
        is_region_of(right, width, height, x + 1, y),
        is_region_of(above, width, height, x, y + 1),
    ensures
        position.x == own.top_right().x && own.bottom_left().y <= position.y < own.top_right().y
            ==> !own.contains(position) && right.contains(position),
        position.y == own.top_right().y && own.bottom_left().x <= position.x < own.top_right().x
            ==> !own.contains(position) && above.contains(position),
{
}

/// Every place in the list of entities belongs to one tile of the board.
proof fn lemma_entity_of_index(width: u32, height: u32, k: int)
    requires
        0 <= k < width * height,
    ensures
        height > 0,
        0 <= k / (height as int) < width,
        0 <= k % (height as int) < height,
        entity_index(height, k / (height as int), k % (height as int)) == k,
{
    let h = height as int;
    assert(h > 0) by (nonlinear_arith)
        requires
            0 <= k < width * h,
            0 <= h,
    ;
    let q = k / h;
    assert(q < width) by (nonlinear_arith)
        requires
            q * h + k % h == k,
            0 <= k % h,
            k < width * h,
            h > 0,
    ;
}

/// [`lemma_press_on_layout`] for the first `n` entities of the list.
proof fn lemma_press_on_layout_prefix(
    action: Action,
    grid: Grid,
    tiles: Seq<SelectableTile>,
    width: u32,
    height: u32,
    position: Position,
    n: nat,
)
    requires
        is_layout(tiles, width, height),
        n <= tiles.len(),
    ensures
        press(action, grid, tiles, position, n) == if on_board(width, height, position)
            && entity_index(
            height,
            tile_at(width, position.x as int),
            tile_at(height, position.y as int),
        ) < n {
            press_on_layout(action, grid, width, height, position)
        } else {
            Outcome { grid, updates: Seq::empty() }
        },
    decreases n,
{
    if n > 0 {
        let k = n - 1;
        lemma_press_on_layout_prefix(action, grid, tiles, width, height, position, k as nat);
        // Entity `k` stands for the tile at `(k / height, k % height)`: its region
        // holds the position exactly if that is the tile under the pointer.
        lemma_entity_of_index(width, height, k);
    }
}

/// On a board whose entities are laid out by [`selectable_tiles`], a press
/// hits the one tile under the pointer, and no tile if the pointer is off
/// the board.
pub proof fn lemma_press_on_layout(
    action: Action,
    grid: Grid,
    tiles: Seq<SelectableTile>,
    width: u32,
    height: u32,
    position: Position,
)
    requires
        is_layout(tiles, width, height),
    ensures
        press(action, grid, tiles, position, tiles.len()) == press_on_layout(
            action,
            grid,
            width,
            height,
            position,
        ),
{
    lemma_press_on_layout_prefix(action, grid, tiles, width, height, position, tiles.len());
    if on_board(width, height, position) {
        let x = tile_at(width, position.x as int);
        let y = tile_at(height, position.y as int);
        lemma_entity_index(height, x, y, width as int);
    }
}

} // verus!
