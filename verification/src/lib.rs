//! Core of a terminal hex viewer: byte classification, grid rendering into
//! draw commands, scroll navigation and extraction of printable strings.

pub mod classify;
pub mod text;
pub mod extract;
pub mod input;
pub mod navigation;
pub mod render;
