//! Verified core of a screen-mirroring key-mapper: a small scripting
//! language (parser and interpreter), the wire formats exchanged with the
//! device server, and the decisions taken by the web configuration API.

pub mod assoc;
pub mod config;
pub mod mapping;
pub mod mask;
pub mod text;
pub mod script;
pub mod scrcpy;
pub mod utils;
pub mod video;
pub mod web;
