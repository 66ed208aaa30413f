pub mod clickhouse_any_table;
pub mod clickhouse_metrics;
pub mod clock;
pub mod dcgm;
pub mod lldp;
pub mod log;
pub mod metric;
pub mod number;
pub mod pci;
pub mod process;
pub mod prometheus;
pub mod schema;
pub mod share;
pub mod snmp;
pub mod split;
pub mod table;
pub mod text;
