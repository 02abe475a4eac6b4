//! The LAUNCHER VIEW's drawing, up to the terminal: what every row says, in
//! which colors, where it goes and what a click on it means.

pub mod card;
pub mod board;
pub mod count;
pub mod crumb;
pub mod details;
pub mod header;
pub mod pane_strip;
pub mod picker_view;
pub mod rows;
pub mod span;
pub mod strip;
