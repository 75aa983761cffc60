//! An earlier form of the highlighter, whose recommendations locate their spans by start and
//! end.
pub mod bridge;
