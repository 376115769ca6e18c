//! Conway's Game of Life on a fixed grid with hard edges: the board and its
//! generation rule, the pattern text it can be read from, and the small
//! state machines that decide when the board moves on and when the pointer
//! may draw on it. Window, clock and event queue belong to the host; it
//! hands in plain events and times and gets back what to draw.

pub mod board;
pub mod cell;
pub mod engine;
pub mod frame;
pub mod game;
pub mod grid;
pub mod input;
pub mod pattern;
pub mod play;
pub mod scenes;
