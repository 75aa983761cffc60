//! Text analysis and editor-side decision logic of a grammar-checking text editor.
pub mod bridge;
pub mod interop;
pub mod languatool;
pub mod startup;
pub mod text;
pub mod ui;
