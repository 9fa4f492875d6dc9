//! Verified core of an Intel High Definition Audio controller driver.
//!
//! The crate holds the decisions of the driver as functions on plain values:
//! register programs, the command rings, codec topology decoding, the search
//! for an output path and the cyclic stream refill. Touching hardware is left
//! to the caller, which performs the register programs and hands back what it
//! read.

pub mod bus;
pub mod codec;
pub mod command;
pub mod context;
pub mod endpoint;
pub mod error;
mod fence;
pub mod format;
pub mod graph;
pub mod hda;
pub mod immediate;
pub mod model;
pub mod node_map;
pub mod path;
pub mod registers;
pub mod ring;
pub mod search;
pub mod setup;
pub mod stream;
pub mod table;
pub mod tone;
pub mod widget;
pub mod window;
