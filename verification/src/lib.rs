//! The rules of a grid-based snake game, without any front end.
//!
//! * `pair`, `coord`, `direction`, `inputtype`: points, headings and
//!   inputs.
//! * `grid`: the board and its two coordinate systems.
//! * `snake`: the body of the snake as a run of linked segments.
//! * `model`: the game as a state machine on mathematical values.
//! * `game`: the game state that a program holds, and its update engine.
//! * `layout`: states with a snake laid out along given cells.
//! * `invariants`, `counting`, `laws`: what holds of every state and of
//!   every tick.
//! * `keys`, `render`, `rect`, `raster`: what a front end needs besides its
//!   drawing: the meaning of keys, the board as text, and the arithmetic of
//!   tiles and pixel buffers.

pub mod coord;
pub mod counting;
pub mod direction;
pub mod game;
pub mod grid;
pub mod inputtype;
pub mod invariants;
pub mod keys;
pub mod laws;
pub mod layout;
pub mod model;
pub mod pair;
pub mod raster;
pub mod rect;
pub mod render;
pub mod snake;
