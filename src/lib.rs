//! A jukebox controller's core: the commands that input sources send, the music
//! library and its glob filters, the play queue, tag bindings and their place in
//! the configuration document, and the engine that interprets each command.
pub mod bindings;
pub mod command;
pub mod config;
pub mod crabbox;
pub mod glob;
pub mod gpio;
pub mod library;
pub mod persist;
pub mod queue;
pub mod rfid;
pub mod state;
pub mod tag;
pub mod text;
pub mod web;
