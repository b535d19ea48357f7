//! A verified selection tool for a vector-path editor.
//!
//! The tool interprets pointer and keyboard gestures to select, move and
//! nudge entities (on-curve points, off-curve handles, guides, segment
//! endpoints) of a 2-D design document. Its contracts pin down the drag
//! state machine, the selection-set updates each gesture performs, and the
//! edit classification handed to an undo system.

pub mod entity;
pub mod geometry;
pub mod selection;
pub mod session;
pub mod tool;
