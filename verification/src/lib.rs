//! Real-time monitoring of Tenstorrent hardware: the verified core.
//!
//! The library holds the state of every telemetry backend, the decoding of what
//! the hardware and its tools report, the terminal that the dashboard runs in,
//! and the decisions of the command line. Input and output lie with the
//! application.

use vstd::prelude::*;

pub mod backend;
pub mod cli;
pub mod config;
pub mod document;
pub mod error;
pub mod keyboard;
pub mod logging;
pub mod maps;
pub mod models;
pub mod screen;
pub mod terminal;
pub mod text;

verus! {

/// The version of the library.
pub const VERSION: &'static str = "0.6.0";

/// The name of the library.
pub const NAME: &'static str = "tt-toplike";

/// The name and the version, as they are shown at the start.
pub fn version_banner() -> (s: String)
    ensures
        s@ == "🦀 "@ + NAME@ + " v"@ + VERSION@,
{
    let mut s = "🦀 ".to_owned();
    s.append(NAME);
    s.append(" v");
    s.append(VERSION);
    s
}

/// A logger that lets messages of a level through.
pub fn init_logging(level: logging::LevelFilter) -> (logger: logging::BufferedLogger)
    ensures
        logger.wf(),
        logger.buffer@.len() == 0,
        logger.level == level,
        !logger.stderr_disabled,
{
    logging::init_logging_with_buffer(level)
}

} // verus!
