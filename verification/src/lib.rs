//! A sliding puzzle on ice: ducks slide across a grid of tiles until
//! something stops them, eat the bread they land on, and may fall through
//! weakened ice. A level is won when no bread is left.
//!
//! The crate holds the rules only:
//! - [`level`]: the grid, its symbols, the bread on it, the table of levels
//!   and the stacks of the history;
//! - [`text`]: the grid as text, one row per line;
//! - [`player`]: the ducks, of one cell and of two by two cells;
//! - [`slide`]: the rules of a slide, stated over the grid;
//! - [`movement`]: the slide itself, and the wave that a duck pushes through
//!   its neighbours;
//! - [`spawn`]: the ducks that the symbols of a grid stand for;
//! - [`census`]: why every duck is found again after a move;
//! - [`session`]: a game in progress, with moves, undo and the change of
//!   levels;
//! - [`utils`]: directions and the stack.
pub mod census;
pub mod level;
pub mod movement;
pub mod player;
pub mod session;
pub mod slide;
pub mod spawn;
pub mod text;
pub mod utils;
