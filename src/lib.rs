//! A keyboard-driven terminal launcher: menu records, the menu model with its
//! cursor and layout, the terminal-mode protocol, and the navigation state
//! machine that drives nested menus.
pub mod text;
pub mod item;
pub mod menu;
pub mod render;
pub mod terminal;
pub mod session;
