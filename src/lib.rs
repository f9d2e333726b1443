//! Emulation core of a terminal: an escape-sequence decoder, the screen and grid
//! model that decoded commands mutate, and the plain data that flows between them.

pub mod color;
pub mod font;
pub mod grid;
pub mod inline;
pub mod laws;
pub mod render;
pub mod screen;
pub mod tty;
pub mod window;
