//! The board: a rectangular grid of tiles, the bombs placed on it at random
//! and the number of bombs around every empty tile.

use std::ops::Index;
use vstd::prelude::*;
use crate::grid::{
    lemma_count_bombs_uniform, lemma_count_bombs_update, lemma_count_written,
    lemma_index_in_bounds, lemma_nth_free, nth_free, Grid,
};
use crate::random::random_below;
use crate::tile::{Tile, TileState, TileType, FLAGGED_INDEX, HIDDEN_INDEX};
use rand::thread_rng;

verus! {

/// Why a board could not be generated.
#[derive(Clone, Copy, Debug, PartialEq, Eq, Structural)]
pub enum BoardError {
    /// More bombs were asked for than the board has tiles.
    TooManyMines,
}

/// A struct that contains the tiles that make up a board.
#[derive(Debug)]
pub struct Board {
    width: usize,
    height: usize,
    tiles: Vec<Tile>,
}

impl View for Board {
    type V = Grid;

    closed spec fn view(&self) -> Grid {
        Grid { width: self.width as nat, height: self.height as nat, tiles: self.tiles@ }
    }
}

impl Index<(usize, usize)> for Board {
    type Output = Tile;

    /// The tile at `(x, y)`, which the caller knows to be on the board.
    fn index(&self, index: (usize, usize)) -> (tile: &Tile)
        ensures
            *tile == self@.tile(index.0 as int, index.1 as int),
    {
        let i = self.offset(index.0, index.1);
        &self.tiles[i]
    }
}

impl vstd::std_specs::core::IndexSpecImpl<(usize, usize)> for Board {
    open spec fn index_req(&self, index: &(usize, usize)) -> bool {
        self@.in_range(index.0 as int, index.1 as int)
    }
}

impl Board {
    /// A board holds exactly one tile per coordinate.
    #[verifier::type_invariant]
    pub open spec fn wf(&self) -> bool {
        self@.wf()
    }

    /// Returns the width of the board.
    pub fn width(&self) -> (width: usize)
        ensures
            width == self@.width,
    {
        self.width
    }

    /// Returns the height of the board.
    pub fn height(&self) -> (height: usize)
        ensures
            height == self@.height,
    {
        self.height
    }

    /// Returns a Board with the given width and height, on which every tile
    /// is empty and hidden.
    pub fn new(width: usize, height: usize) -> (board: Board)
        requires
            width * height <= usize::MAX,
        ensures
            board@ == Grid::blank(width as nat, height as nat),
    {
        let total: usize = width * height;
        let mut tiles: Vec<Tile> = Vec::new();
        while tiles.len() < total
            invariant
                tiles.len() <= total,
                forall|i: int| 0 <= i < tiles.len() ==> tiles[i] == Tile::spec_default(),
            decreases total - tiles.len(),
        {
            tiles.push(Tile::default());
        }
        assert(tiles@ =~= Grid::blank(width as nat, height as nat).tiles);
        Board { width, height, tiles }
    }

    /// Where the tile at `(x, y)` stands in `tiles`.
    fn offset(&self, x: usize, y: usize) -> (i: usize)
        requires
            self@.in_range(x as int, y as int),
        ensures
            i == self@.index_of(x as int, y as int),
            i < self.tiles.len(),
    {
        proof {
            use_type_invariant(self);
            lemma_index_in_bounds(self@, x as int, y as int);
            assert(self.tiles@.len() == self.tiles.len());
        }
        y * self.width + x
    }

    /// Indexes into a board. If the index is out of range [`None`] will be returned.
    pub fn get(&self, x: i128, y: i128) -> (tile: Option<&Tile>)
        ensures
            match tile {
                Some(tile) => self@.get(x as int, y as int) == Some(*tile),
                None => self@.get(x as int, y as int) is None,
            },
    {
        if x < 0 || y < 0 {
            return None;
        }
        if x >= self.width as i128 || y >= self.height as i128 {
            None
        } else {
            Some(&self[(x as usize, y as usize)])
        }
    }

    /// Sets a tile to have a bomb.
    pub fn set_bomb(&mut self, x: usize, y: usize)
        requires
            old(self)@.in_range(x as int, y as int),
        ensures
            final(self)@ == old(self)@.with_type(x as int, y as int, TileType::Bomb),
    {
        proof {
            use_type_invariant(&*self);
        }
        let i = self.offset(x, y);
        self.tiles[i].tile_type = TileType::Bomb;
    }

    /// Sets what the player sees of the tile at `(x, y)`.
    pub fn set_state(&mut self, x: usize, y: usize, state: TileState)
        requires
            old(self)@.in_range(x as int, y as int),
        ensures
            final(self)@ == old(self)@.with_state(x as int, y as int, state),
    {
        proof {
            use_type_invariant(&*self);
        }
        let i = self.offset(x, y);
        self.tiles[i].state = state;
    }

    /// Returns what the player sees of the tile at `(x, y)`.
    pub fn get_state(&self, x: usize, y: usize) -> (state: TileState)
        requires
            self@.in_range(x as int, y as int),
        ensures
            state == self@.tile(x as int, y as int).state,
    {
        let i = self.offset(x, y);
        self.tiles[i].state
    }

    /// One if `(x, y)` is on the board and holds a bomb, zero if not.
    fn bomb_at(&self, x: i128, y: i128) -> (bombs: u8)
        ensures
            bombs == self@.bomb_at(x as int, y as int),
    {
        match self.get(x, y) {
            Some(tile) => if tile.is_bomb() {
                1
            } else {
                0
            },
            None => 0,
        }
    }

    /// Counts the bombs on the eight tiles around `(x, y)`, leaving out the
    /// neighbors that would lie off the board.
    pub fn neighbor_bombs(&self, x: usize, y: usize) -> (bombs: u8)
        ensures
            bombs == self@.neighbor_bombs(x as int, y as int),
            bombs <= 8,
    {
        let x = x as i128;
        let y = y as i128;
        self.bomb_at(x - 1, y - 1) + self.bomb_at(x - 1, y) + self.bomb_at(x - 1, y + 1)
            + self.bomb_at(x, y - 1) + self.bomb_at(x, y + 1) + self.bomb_at(x + 1, y - 1)
            + self.bomb_at(x + 1, y) + self.bomb_at(x + 1, y + 1)
    }

    /// Calculates how many neighboring bombs a tile has, and makes the tile
    /// an empty one that carries the number.
    pub fn calc_neighbors(&mut self, x: usize, y: usize)
        requires
            old(self)@.in_range(x as int, y as int),
        ensures
            final(self)@ == old(self)@.with_type(
                x as int,
                y as int,
                TileType::Empty(old(self)@.neighbor_bombs(x as int, y as int) as u8),
            ),
    {
        proof {
            use_type_invariant(&*self);
        }
        let neighbor_bombs = self.neighbor_bombs(x, y);
        let i = self.offset(x, y);
        self.tiles[i].tile_type = TileType::Empty(neighbor_bombs);
    }

    /// Sets the tile to a bomb that has exactly `n` bomb-free tiles before
    /// it, row by row, and is no bomb yet.
    pub fn set_nth_free_bomb(&mut self, n: usize)
        requires
            n < old(self)@.free_count(),
        ensures
            final(self)@ == old(self)@.with_bomb_at(nth_free(old(self)@.tiles, n as nat) as int),
    {
        proof {
            use_type_invariant(&*self);
            lemma_nth_free(self.tiles@, n as nat);
            assert(self.tiles@.skip(0) =~= self.tiles@);
        }
        let ghost target = nth_free(self.tiles@, n as nat);
        let mut i: usize = 0;
        let mut remaining: usize = n;
        while self.tiles[i].is_bomb() || remaining > 0
            invariant
                *self == *old(self),
                i + nth_free(self.tiles@.skip(i as int), remaining as nat) == target,
                target < self.tiles.len(),
            decreases self.tiles.len() - i,
        {
            proof {
                assert(self.tiles@.skip(i as int).drop_first() =~= self.tiles@.skip(i + 1));
            }
            if !self.tiles[i].is_bomb() {
                remaining -= 1;
            }
            i += 1;
        }
        self.tiles[i].tile_type = TileType::Bomb;
    }

    /// Writes into every empty tile the number of bombs around it.
    pub fn calc_all_neighbors(&mut self)
        ensures
            final(self)@.same_bombs(old(self)@),
            final(self)@.bomb_count() == old(self)@.bomb_count(),
            forall|i: int|
                0 <= i < old(self)@.tiles.len() ==> (#[trigger] final(self)@.tiles[i]).state == old(
                    self,
                )@.tiles[i].state,
            final(self)@.counts_exact(),
    {
        proof {
            use_type_invariant(&*self);
        }
        let width = self.width;
        let height = self.height;
        for x in 0..width
            invariant
                self.wf(),
                self.width == width,
                self.height == height,
                self@.same_bombs(old(self)@),
                self@.bomb_count() == old(self)@.bomb_count(),
                forall|i: int|
                    0 <= i < self@.tiles.len() ==> (#[trigger] self@.tiles[i]).state == old(
                        self,
                    )@.tiles[i].state,
                forall|i: int, j: int|
                    self@.in_range(i, j) && i < x ==> #[trigger] self@.exact_at(i, j),
        {
            for y in 0..height
                invariant
                    x < width,
                    self.wf(),
                    self.width == width,
                    self.height == height,
                    self@.same_bombs(old(self)@),
                    self@.bomb_count() == old(self)@.bomb_count(),
                    forall|i: int|
                        0 <= i < self@.tiles.len() ==> (#[trigger] self@.tiles[i]).state == old(
                            self,
                        )@.tiles[i].state,
                    forall|i: int, j: int|
                        self@.in_range(i, j) && (i < x || (i == x && j < y))
                            ==> #[trigger] self@.exact_at(i, j),
            {
                if !self[(x, y)].is_bomb() {
                    proof {
                        lemma_count_written(self@, x as int, y as int);
                    }
                    self.calc_neighbors(x, y);
                }
            }
        }
    }

    /// Generates a random board with the given width, height and number of
    /// mines, every tile hidden. More mines than tiles are refused.
    ///
    /// Each mine goes to a coordinate drawn at random. Where that tile holds
    /// a mine already, the draw is not repeated until it may succeed: the
    /// mine goes to one of the free tiles, drawn at random among them. With
    /// even draws every free tile is then as likely as any other, as if the
    /// coordinate had been drawn again and again, and the work is bounded
    /// whatever is drawn.
    pub fn generate_board(width: usize, height: usize, mine_count: u32) -> (result: Result<
        Board,
        BoardError,
    >)
        requires
            width * height <= usize::MAX,
        ensures
            result is Ok <==> mine_count <= width * height,
            result matches Ok(board) ==> {
                &&& board@.wf()
                &&& board@.width == width
                &&& board@.height == height
                &&& board@.bomb_count() == mine_count
                &&& board@.all_hidden()
                &&& board@.counts_exact()
            },
            result matches Err(error) ==> error == BoardError::TooManyMines,
    {
        let total: usize = width * height;
        if mine_count as usize > total {
            return Err(BoardError::TooManyMines);
        }
        let mut board: Board = Board::new(width, height);
        let mut placed_bombs: u32 = 0;
        let mut rng = thread_rng();
        proof {
            lemma_count_bombs_uniform(board@.tiles);
        }

        while placed_bombs < mine_count
            invariant
                board.wf(),
                board.width == width,
                board.height == height,
                total == width * height,
                mine_count <= total,
                placed_bombs <= mine_count,
                board@.bomb_count() == placed_bombs,
                board@.all_hidden(),
            decreases mine_count - placed_bombs,
        {
            assert(width > 0 && height > 0) by (nonlinear_arith)
                requires
                    width * height > 0,
            ;
            let x = random_below(&mut rng, width);
            let y = random_below(&mut rng, height);

            if !board[(x, y)].is_bomb() {
                proof {
                    lemma_index_in_bounds(board@, x as int, y as int);
                    lemma_count_bombs_update(
                        board@.tiles,
                        board@.index_of(x as int, y as int),
                        Tile { tile_type: TileType::Bomb, state: board@.tile(x as int, y as int).state },
                    );
                }
                board.set_bomb(x, y);
            } else {
                let n = random_below(&mut rng, total - placed_bombs as usize);
                proof {
                    lemma_nth_free(board@.tiles, n as nat);
                    let target = nth_free(board@.tiles, n as nat) as int;
                    lemma_count_bombs_update(
                        board@.tiles,
                        target,
                        Tile { tile_type: TileType::Bomb, state: board@.tiles[target].state },
                    );
                }
                board.set_nth_free_bomb(n);
            }
            placed_bombs += 1;
        }

        board.calc_all_neighbors();
        Ok(board)
    }

    /// Presses the reveal button on the tile at `(x, y)`. A hidden tile
    /// becomes visible, and the sprite index that shows its content is
    /// returned. A flagged or visible tile stays as it is, and `None` is
    /// returned.
    pub fn reveal_tile(&mut self, x: usize, y: usize) -> (index: Option<usize>)
        requires
            old(self)@.in_range(x as int, y as int),
        ensures
            final(self)@ == old(self)@.reveal_tile(x as int, y as int),
            old(self)@.tile(x as int, y as int).state != TileState::Hidden ==> final(self)@ == old(
                self,
            )@,
            index == old(self)@.tile(x as int, y as int).reveal_index(),
    {
        proof {
            use_type_invariant(&*self);
            lemma_index_in_bounds(self@, x as int, y as int);
        }
        let tile = self[(x, y)];
        match tile.state {
            TileState::Hidden => {
                self.set_state(x, y, TileState::Visable);
                Some(tile.tile_type.display_index())
            },
            _ => {
                assert(self@.reveal_tile(x as int, y as int).tiles =~= self@.tiles);
                None
            },
        }
    }

    /// Presses the flag button on the tile at `(x, y)`. A hidden tile is
    /// flagged and a flagged tile hidden again, and the sprite index of the
    /// new marker is returned. A visible tile stays as it is, and `None` is
    /// returned.
    pub fn flag_tile(&mut self, x: usize, y: usize) -> (index: Option<usize>)
        requires
            old(self)@.in_range(x as int, y as int),
        ensures
            final(self)@ == old(self)@.flag_tile(x as int, y as int),
            old(self)@.tile(x as int, y as int).state == TileState::Visable ==> final(self)@
                == old(self)@,
            index == old(self)@.tile(x as int, y as int).flag_index(),
    {
        proof {
            use_type_invariant(&*self);
            lemma_index_in_bounds(self@, x as int, y as int);
        }
        match self.get_state(x, y) {
            TileState::Hidden => {
                self.set_state(x, y, TileState::Flagged);
                Some(FLAGGED_INDEX)
            },
            TileState::Flagged => {
                self.set_state(x, y, TileState::Hidden);
                Some(HIDDEN_INDEX)
            },
            TileState::Visable => {
                assert(self@.flag_tile(x as int, y as int).tiles =~= self@.tiles);
                None
            },
        }
    }
}

impl Default for Board {
    /// The board without a tile.
    fn default() -> (board: Board)
        ensures
            board@ == Grid::blank(0, 0),
    {
        Board::new(0, 0)
    }
}

} // verus!
