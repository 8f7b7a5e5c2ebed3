//! An inline terminal compositor for live, revisable text streams.
//!
//! The crate renders an animated transcript into a bounded region of a
//! terminal without disturbing the surrounding scrollback.  It is built
//! from four verified pieces:
//!
//! - a cell grid with a differential renderer that computes the minimal
//!   column-addressed operations turning the previously committed frame
//!   into the current one, and a frame planner that drives it with
//!   relative cursor motion only ([`inline_term`]);
//! - a streaming text model that classifies every character of a revisable
//!   source stream as frozen, settled or volatile, keeps the fade anchor
//!   stable across pure appends, and owns the listening/editing mode
//!   machine ([`ui`]);
//! - the compositor that lays a status glyph, the wrapped text regions and
//!   an optional controls line into the grid ([`ui`]);
//! - small display widgets and the kernels of the direct line-based
//!   renderer ([`widgets`], [`render`]).
//!
//! All terminal and audio I/O stays outside the crate: a caller applies
//! the returned operation lists ([`ops`]) to its terminal and feeds the
//! sampled source text and key presses back in as plain values.

pub mod cell;
pub mod inline_term;
pub mod ops;
pub mod render;
pub mod ui;
pub mod widgets;
