//! Sessions of a pseudo-terminal server.

pub mod display;
pub mod history;
pub mod ids;
pub mod keys;
pub mod manager;
pub mod session;
pub mod terminal;
pub mod tools;
pub mod wait;
