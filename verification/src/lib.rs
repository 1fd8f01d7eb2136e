//! An interactive terminal file browser's core: directory listings
//! (filtered, sorted, with a synthetic ".." entry), the navigation state
//! and its transitions, the pure projection of that state onto a terminal
//! frame, and the key-to-transition dispatch. Reading directories, the
//! terminal itself and the editor process live outside the library and
//! hand it plain values.

pub mod dispatch;
pub mod entry;
pub mod listing;
pub mod nav;
pub mod order;
pub mod paths;
pub mod render;
pub mod timefmt;
pub mod trusted;
