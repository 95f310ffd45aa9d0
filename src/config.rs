//! Settings of the capture, GPS and ignore-list components.
use vstd::prelude::*;

verus! {

/// NIC, channel plan and database file of the capture.
#[derive(Clone, Debug)]
pub struct CaptureConfig {
    pub interface: String,
    pub channels: Vec<u8>,
    pub hop_interval_ms: u64,
    pub database: String,
}

/// Where the gpsd-compatible server listens, and whether to use it.
#[derive(Clone, Debug)]
pub struct GpsConfig {
    pub enabled: bool,
    pub host: String,
    pub port: u16,
}

/// Files holding the ignored MACs and SSIDs.
#[derive(Clone, Debug)]
pub struct IgnoreListsConfig {
    pub mac: String,
    pub ssid: String,
}

} // verus!
