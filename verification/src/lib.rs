//! Packet classification, routing and telemetry for the SVM XDP packet router.
//!
//! The kernel side of the router inspects Ethernet/IPv4/UDP frames addressed to
//! the shred port, drops malformed shred packets, routes the others by their
//! source identifier and records a log entry for every shred-port packet. The
//! userspace side decodes those log entries and renders Prometheus metrics.

pub mod codec;
pub mod action;
pub mod common;
pub mod drop_reason;
pub mod router;
pub mod text;
pub mod metrics;
pub mod packet_log;
pub mod laws;
