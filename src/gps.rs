//! Client settings for a gpsd-compatible position server.
use vstd::prelude::*;

verus! {

/// Seconds to wait before reconnecting after the server is lost.
pub const GPS_RETRY_SECS: u64 = 5;

/// Where to reach the position server.
pub struct GpsClient {
    pub host: String,
    pub port: u16,
}

impl GpsClient {
    pub fn new(host: String, port: u16) -> (r: GpsClient)
        ensures
            r.host == host,
            r.port == port,
    {
        GpsClient { host, port }
    }
}

} // verus!
