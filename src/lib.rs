//! Passive Wi-Fi probe-request sensor: frame decoding, filtering, signal
//! tracking and surveillance scoring, with their contracts proved by Verus.
pub mod radiotap;
pub mod text;
pub mod frame;
pub mod capabilities;
pub mod keyset;
pub mod ignore;
pub mod store;
pub mod analysis;
pub mod channels;
pub mod oui;
pub mod distance;
pub mod devices;
pub mod pipeline;
pub mod config;
pub mod gps;
pub mod validation;
pub mod iface;
