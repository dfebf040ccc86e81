//! Wake-on-LAN coordination library: building the wake datagram, estimating
//! how long a device takes to come up, classifying reachability probes, and
//! coordinating any number of watchers that wait for the probe's outcome.

pub mod auth;
pub mod config;
pub mod error;
pub mod ping;
pub mod start;
pub mod status;
pub mod storage;
pub mod text;
pub mod wol;
