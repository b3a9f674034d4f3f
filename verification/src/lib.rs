//! The verified core of the Crynn browser: its local persistent data
//! store and the decisions of the layers around it.
//!
//! The library decides and accounts; it performs no I/O. Every operation
//! that needs the disk, the network or another process takes what was
//! read as an argument and reports what has to be written.

pub mod bidi;
pub mod clock;
pub mod downloads;
pub mod email;
pub mod engine_bridge;
pub mod memory_profiler;
pub mod network;
pub mod seq_lemmas;
pub mod settings;
pub mod shell;
pub mod storage;
pub mod text;
pub mod url_utils;
pub mod vpn;
pub mod web_url;
