//! Collecting the readings of GPUs.
pub mod collector;
pub mod fields;
pub mod pod_resource_mapper;
pub mod metrics;
