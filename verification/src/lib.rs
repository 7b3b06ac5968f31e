//! Interactive process killer, verified core.
//!
//! The pipeline: take a snapshot of the process table, encode each process as
//! one fixed-layout text row, shuffle the rows, hand them to an interactive
//! fuzzy filter, then recover the process id from whatever row text comes
//! back and act on a fresh snapshot.  Everything that computes or decides
//! lives here; the filter surface, the system calls and the terminal output
//! live in the surrounding binary.

pub mod controller;
pub mod encode;
pub mod laws;
pub mod resolve;
pub mod shuffle;
pub mod snapshot;
pub mod text;
