//! The rules of an interactive maintenance menu for Arch-based hosts: which hosts are
//! accepted, how the package helper is found, how an answer to the prompt is read, and
//! how the program moves from its start to its exit code.
//!
//! Nothing here touches the machine. The caller reads files, probes paths, starts
//! scripts and prints; the functions of this crate decide, on plain values.

pub mod config;
pub mod distro;
pub mod flow;
pub mod helper;
pub mod locator;
pub mod menu;
pub mod status;
pub mod text;
