//! Verified core of the Spektra broadcast-monitoring system: the RDS block
//! layer, the alarm lifecycle, live inspection sessions, report scheduling,
//! calendar arithmetic for partitions and rollups, and the server's own
//! health counters.
pub mod rds;
pub mod live;
pub mod text;
pub mod enums;
pub mod alarms;
pub mod visibility;
pub mod orders;
pub mod series;
pub mod clock;
pub mod ingest;
pub mod ops;
pub mod emulator;
pub mod source;
pub mod config;
pub mod panel;
pub mod templates;
pub mod random;
pub mod identity;
pub mod auth;
pub mod calendar;
pub mod numbers;
pub mod partitions;
pub mod rollup;
pub mod pages;
pub mod journal;
pub mod admin;
pub mod notify;
pub mod events;
pub mod agent;
