//! Collecting the PCI devices of this machine.
pub mod config;
pub mod errors;
pub mod pci;
