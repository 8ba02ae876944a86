//! Bridge logic between a radio-direction-finding sensor, a mesh-radio text
//! channel, and a Cursor-on-Target (CoT) XML consumer.
//!
//! The library holds the protocol and data-modeling logic: the CoT event
//! model and its deterministic XML wire encoding, the direction-of-arrival
//! report parser and maximum selection, and the mesh relay packet codec.
//! Network transports (HTTP polling, TCP publishing, the mesh device driver)
//! live outside the library and hand it plain values.
use vstd::prelude::*;

pub mod bytes;
pub mod clock;
pub mod cot;
pub mod doa;
pub mod mesh;
pub mod numfmt;

verus! {

/// Field of view, in degrees, reported for the direction-finding sensor.
pub const DEFAULT_FOV_DEGREES: u32 = 8;

/// Range, in meters, reported for the direction-finding sensor.
pub const DEFAULT_RANGE_METERS: i32 = 10000;

/// Seconds after `start` at which a published CoT event goes stale.
pub const STALE_WINDOW_SECS: i64 = 3600;

/// Seconds between two polls of the direction-finding receiver.
pub const POLL_INTERVAL_SECS: u64 = 5;

/// A normalized direction-finding observation: the signal of interest of a
/// radio direction-of-arrival sensor, ready to become one CoT event.
pub struct RDoASOI {
    pub s_contact: String,
    pub s_fov: u32,
    pub s_range: i32,
    pub azimuth: i32,
    pub uid: String,
}

/// The error taxonomy of the relay: transport failures on a network or
/// device path, unparseable numeric text, and mesh payloads of an
/// unexpected shape.
#[derive(Clone, Copy, PartialEq, Eq, Structural, Debug)]
pub enum RelayError {
    Transport,
    Format,
    Protocol,
}

/// The static configuration a finding inherits beyond its azimuth.
pub struct RelayConfig {
    pub contact: String,
    pub uid: String,
    pub fov_degrees: u32,
    pub range_meters: i32,
}

impl Default for RelayConfig {
    /// The hard defaults of the deployed relay.
    fn default() -> (r: Self)
        ensures
            r.contact@ == "doa-alpha"@,
            r.uid@ == "sig-0"@,
            r.fov_degrees == DEFAULT_FOV_DEGREES,
            r.range_meters == DEFAULT_RANGE_METERS,
    {
        RelayConfig {
            contact: String::from_str("doa-alpha"),
            uid: String::from_str("sig-0"),
            fov_degrees: DEFAULT_FOV_DEGREES,
            range_meters: DEFAULT_RANGE_METERS,
        }
    }
}

/// Synthesize the finding for an azimuth: the bearing joined with the
/// configured contact, identifier, field of view and range.
pub fn finding_for_azimuth(cfg: &RelayConfig, azimuth: i32) -> (soi: RDoASOI)
    ensures
        soi.azimuth == azimuth,
        soi.s_contact@ == cfg.contact@,
        soi.uid@ == cfg.uid@,
        soi.s_fov == cfg.fov_degrees,
        soi.s_range == cfg.range_meters,
{
    RDoASOI {
        s_contact: cfg.contact.clone(),
        s_fov: cfg.fov_degrees,
        s_range: cfg.range_meters,
        azimuth,
        uid: cfg.uid.clone(),
    }
}

} // verus!
