//! Collecting the LLDP neighbors of switches over SNMP.
pub mod config;
pub mod transport;
pub mod parse;
pub mod topology;
