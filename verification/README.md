# telemetry_collectors

Collectors of telemetry for clusters of machines, and the sinks that deliver it:

- `snmp` asks switches for their LLDP neighbors with the SNMP command line tools.
- `lldp` asks the machine itself, through the LLDP control library or `lldptool`.
- `pci` lists PCI devices with their link speeds.
- `dcgm` reads GPUs and names the containers that they were given to.
- `prometheus` finds scrape targets in a Kubernetes cluster, scrapes them and tags
  what they tell with metadata of pods, nodes and services.
- `clickhouse_metrics` turns metrics into rows of a ClickHouse table.
- `clickhouse_any_table` sends log events to the table that each of them names.

`text`, `split`, `number` and `table` hold the operations on strings and the ordered
map that the others share; `log`, `metric` and `schema` hold the events.

## Layout

`src/` is a library that Verus verifies. It decides what is asked next and what the
answers mean: commands and requests leave it as values, and answers come back as
values. Contracts are stated over sequences of characters, maps and sequences of
events. Proof functions whose names begin with `law_` state what holds across
several operations.

`app/` runs the commands, reads the files, loads the libraries and talks to the
services. It is ordinary Rust.

## What is trusted

- `text.rs`: `String::push`.
- `share.rs`: `Arc::clone`.
- `process.rs`: `String::from_utf8` and `String::from_utf8_lossy`.
- `clock.rs`: `chrono::Utc::now`.
- `pci/errors.rs`: `{:?}` of a string.
- `prometheus/uri.rs`: `http::Uri`.
