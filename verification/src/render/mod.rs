//! Rendering of a snapshot for people.

pub mod text;
