//! Verified core of an SSH wrapper that forwards the local clipboard to the
//! remote side when Ctrl+V is pressed.
//!
//! The library decides; the program around it performs the I/O:
//! - [`proxy::forward`] splits terminal input at Ctrl+V into writes and pastes,
//! - [`proxy::paste`] turns clipboard content into what is typed remotely,
//! - [`proxy::destination`] finds the ssh destination among ssh's arguments,
//! - [`proxy::command`] builds the argument lists of the ssh invocations,
//! - [`clipboard`] chooses what a paste delivers,
//! - [`terminal`] tracks what a terminal session holds and must give back.
pub mod clipboard;
pub mod proxy;
pub mod terminal;
