//! The logic core of a grid-based mine-clearing puzzle.
//!
//! [`board::Board`] owns a rectangular grid of [`tile::Tile`]s, places bombs
//! at random and writes into every empty tile the number of bombs around it.
//! [`input`] follows the mouse buttons from one update cycle to the next,
//! turns what it reads into click events, finds the tiles under the pointer
//! and reveals or flags them on the board. [`layout`] gives every tile its
//! region in world space.
//!
//! Every function is verified against a contract over the ghost model in
//! [`grid`], and the properties that hold across functions are proved there
//! and beside the functions they speak of. The draws of random numbers are
//! made by the `rand` crate: what [`random`] says of them is taken on trust.

pub mod board;
pub mod grid;
pub mod input;
pub mod layout;
pub mod random;
pub mod tile;
