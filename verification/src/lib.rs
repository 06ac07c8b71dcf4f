//! Verified core of the terminal layout bridge: it turns a document's node tree and the
//! fragments that layout produced for it into a compact tree of nodes that a terminal
//! front end can draw, each node carrying its kind, its box and the handful of computed
//! style properties that matter on a character grid.

pub mod channel;
pub mod display;
pub mod dom;
pub mod fragments;
pub mod geometry;
pub mod style;
pub mod terminal;
pub mod tree;
