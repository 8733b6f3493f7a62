//! Verified core of a small desktop shell around the Inkscape command-line
//! exporter.
//!
//! The library holds the logic that is worth proving: the argument model that
//! turns three export-format toggles into the exact `--export-type=...`
//! command-line flag (and parses it back), the search-path scan that picks the
//! first directory holding the executable, and the worker state machine that
//! decides, message by message, which export processes are launched.
//!
//! Window rendering, the file-picker dialog, the message channel and the
//! process spawn itself are ordinary I/O and live outside this crate.

pub mod args;
pub mod builder;
pub mod cmd;
pub mod discovery;
pub mod text;
pub mod worker;
