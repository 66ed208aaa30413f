//! Collecting the LLDP interfaces and neighbors of this machine.
pub mod ffi;
pub mod tool;
pub mod logs;
