//! Verified core of a small device-monitoring daemon.
//!
//! The daemon persists an edge-triggered counter and a pressure-like
//! computed value into a fixed-layout binary state file of five
//! four-byte big-endian fields, polling two hardware status channels.
//! This crate holds the verified logic: the state file's layout with
//! its read, write and initialize contract, the extraction of readings
//! from the probe's status payloads, and the per-iteration decisions of
//! the two monitors. Field values are carried as the `u32` bit patterns
//! of their four stored bytes; the process around the library performs
//! the probe invocation, the file handling, the threads, and the
//! floating-point arithmetic on field values, none of which verified
//! code can hold.

pub mod codec;
pub mod monitor;
pub mod probe;
pub mod store;
