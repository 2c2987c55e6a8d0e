//! A small todo-list engine.
//!
//! A list is an ordered sequence of one-line text records. A pending record
//! may start with a fixed-width priority tag; a done record starts with a
//! date stamp. Every operation here works on lists held in memory and says in
//! its contract exactly what the list holds afterwards; reading and writing
//! the backing files is left to the caller.

pub mod codec;
pub mod stamp;
pub mod store;
pub mod commands;
pub mod utils;
