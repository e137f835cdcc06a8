//! Verified core of a safe API over OpenROAD's OpenDB design database.
//!
//! The database itself is native code and is driven from outside this crate; what lives here is
//! every decision the API makes around it: typed errors and path handling, the composed ECO
//! edits (buffer and antenna-diode insertion, manual placement) as step machines that say which
//! database operation comes next, the read-only reports (cell frequency table, disconnected pins,
//! Verilog header) and the command-line grammar of the tools built on it.

pub mod error;
pub mod text;
pub mod ops;
pub mod insertion;
pub mod eco;
pub mod placement;
pub mod report;
pub mod cli;

pub use error::{Error, ErrorView};
