//! Terminal "digital rain" screensaver widgets.
//!
//! The crate renders an animated rain of falling glyph columns plus a set of
//! overlay widgets (an animated border, a selectable menu list, a large
//! block-digit countdown, and a dim ambient background) into an owned
//! character-cell buffer.  Every widget mutates only the cells inside the
//! rectangle it is given, and every render operation carries a contract that
//! pins down the resulting buffer contents cell by cell.
//!
//! Timing is threaded explicitly: each render call receives the current time
//! in milliseconds, and all state mutation is gated on elapsed-time checks,
//! so the drawing path itself is a pure function of the widget state.

pub mod background;
pub mod border;
pub mod buffer;
pub mod countdown;
pub mod glyph;
pub mod list;
pub mod rain;
pub mod rect;
mod rng;
