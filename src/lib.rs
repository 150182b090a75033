//! Shifting the timestamps of a subtitle file by a fixed number of milliseconds.
//!
//! `timestamp` reads, writes and shifts single `HH:MM:SS,mmm` timestamps; `line` applies
//! that to the timing lines of a file; `run` decides the steps of rewriting a file so that
//! its earlier content is never lost.
pub mod line;
pub mod run;
pub mod timestamp;
