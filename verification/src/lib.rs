//! Display and history engine of a terminal dashboard for a device link:
//! a bounded log of styled, timestamped entries, a decoder for ANSI colour
//! codes, safe rendering of control characters, and scroll state with
//! auto-follow.

pub mod color;
pub mod chars;
pub mod ansi;
pub mod escape;
pub mod timestamp;
pub mod entry;
pub mod scroll;
pub mod history;
pub mod cli;
pub mod bluetooth;
