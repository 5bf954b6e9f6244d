//! Rendering of primitive and compound values as text, and the demonstration
//! routines that build values of each shape and produce the lines they print.
pub mod buffer;
pub mod demos;
pub mod render;
