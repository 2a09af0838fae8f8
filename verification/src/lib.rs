//! Verified core of a terminal component: colour themes and their text
//! encoding, grid layout for rendering, and the terminal's input/event model.

pub mod text;
pub mod color;
pub mod ansi;
pub mod theme;
pub mod theme_manager;
mod presets;
pub mod font;
pub mod fragments;
pub mod regions;
pub mod selection;
pub mod grid;
pub mod input;
pub mod terminal;
