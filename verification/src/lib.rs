//! The logic of six small command-line tools, with contracts that Verus
//! proves: a terminal-color demo, a date-difference calculator, a command
//! timer, an archive extractor, a directory-tree printer and a port killer.
//!
//! Every tool's decisions, parsing and texts live here, as functions from
//! plain values to plain values. Reading directories, running commands and
//! printing are left to the caller.

pub mod calendar;
pub mod clock;
pub mod colors;
pub mod datediff;
pub mod decimal;
pub mod entries;
pub mod estimate;
pub mod extract;
pub mod ftree;
pub mod killport;
pub mod paths;
pub mod text;
