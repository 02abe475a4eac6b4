//! The LAUNCHER VIEW's keys and clicks. Every arm calls one function per
//! intent: a card chosen by key or by pointer lands through one `select`, a
//! session is stepped into through one `enter_pane`, and the box opens through
//! one `open_box` — so the key and the click end in the same state.

pub mod aim;
pub mod strip_keys;
pub mod projects;
pub mod tabs;
pub mod cards;
pub mod menus;
pub mod boxes;
pub mod action;
