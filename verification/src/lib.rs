//! The launcher of a terminal front end for coding agents: the sessions of a
//! project as a grid of cards, the pane that reads the session under the
//! cursor, the project tabs across the header, the prompt box with its
//! pickers, and the guard that spots a checkout mixing changes that have to
//! ship apart.
//!
//! The library holds the rules and the layout; reading git, the terminal and
//! the daemon is left to the program around it.

pub mod folders;
pub mod grid;
pub mod keys;
pub mod launcher;
pub mod layout;
pub mod model;
pub mod order;
pub mod pane;
pub mod picker;
pub mod split_guard;
pub mod state;
pub mod text;
pub mod view;
pub mod views;
