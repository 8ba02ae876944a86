//! The mesh relay channel adapter: outbound azimuth packets, the inbound
//! packet model, and the relay decision that turns an inbound packet into a
//! finding.
//!
//! The device driver (serial transport, handshake, link framing) stays
//! outside the library; packets cross this boundary as plain values.
use vstd::prelude::*;

use crate::numfmt::{dec_int, parse_azimuth, parsed_azimuth, push_dec_i32};
use crate::{finding_for_azimuth, RDoASOI, RelayConfig};

verus! {

/// The mesh application port that carries plain-text messages; only inbound
/// packets addressed to it are of interest.
pub const TEXT_MESSAGE_PORT: u32 = 1;

/// The mesh radio device: its serial device path.
pub struct MeshRadio {
    pub serial_port: String,
}

/// The sweep generator's state: the azimuth the next outbound packet
/// carries.
pub struct DoASensorState {
    pub azimuth: i32,
}

/// The payload of an inbound application-data packet.
pub enum MeshPayload {
    /// A decoded payload, addressed to an application port.
    Decoded { port: u32, data: Vec<u8> },
    /// An encrypted payload the relay cannot read.
    Encrypted,
    /// A packet that carried no payload at all.
    Missing,
}

/// The kinds of inbound packet the mesh session produces.
pub enum InboundPacket {
    /// Channel configuration traffic.
    ChannelInfo,
    /// Node bookkeeping traffic.
    NodeInfo,
    /// An application data packet.
    AppData { payload: MeshPayload },
    /// Anything else the device emits.
    Other,
}

impl DoASensorState {
    /// The text of the outbound packet for this state: exactly the decimal
    /// string of the azimuth, no surrounding whitespace or punctuation.
    pub fn packet_text(&self) -> (r: String)
        ensures
            r@ == dec_int(self.azimuth as int),
    {
        let mut out = String::new();
        push_dec_i32(&mut out, self.azimuth);
        proof {
            assert(out@ =~= dec_int(self.azimuth as int));
        }
        out
    }

    /// Step the sweep: the azimuth advances one degree and wraps to zero
    /// past the last bearing.
    pub fn advance(&mut self)
        requires
            0 <= old(self).azimuth < 360,
        ensures
            final(self).azimuth == if old(self).azimuth == 359 {
                0int
            } else {
                old(self).azimuth + 1
            },
    {
        if self.azimuth == 359 {
            self.azimuth = 0;
        } else {
            self.azimuth = self.azimuth + 1;
        }
    }
}

/// One sweep step is exactly increment modulo the full circle, so the
/// sweep transmits bearing zero again after each 360 packets.
pub proof fn lemma_sweep_step_is_mod(a: int)
    requires
        0 <= a < 360,
    ensures
        (if a == 359 {
            0int
        } else {
            a + 1
        }) == (a + 1) % 360,
{
}

/// The azimuth an inbound packet yields: only a decoded application payload
/// on the text-message port, whose text parses as an integer azimuth,
/// produces one; every other packet is skipped.
pub open spec fn azimuth_of_packet(p: InboundPacket) -> Option<i32> {
    match p {
        InboundPacket::AppData { payload: MeshPayload::Decoded { port, data } } => {
            if port == TEXT_MESSAGE_PORT {
                parsed_azimuth(data@)
            } else {
                None
            }
        },
        _ => None,
    }
}

/// The relay decision for one inbound packet: the finding to publish, with
/// the packet's azimuth and the configured identity, or nothing exactly
/// when the packet yields no azimuth.
pub fn handle_inbound(cfg: &RelayConfig, p: &InboundPacket) -> (r: Option<RDoASOI>)
    ensures
        match r {
            Some(soi) => {
                &&& azimuth_of_packet(*p) == Some(soi.azimuth)
                &&& soi.s_contact@ == cfg.contact@
                &&& soi.uid@ == cfg.uid@
                &&& soi.s_fov == cfg.fov_degrees
                &&& soi.s_range == cfg.range_meters
            },
            None => azimuth_of_packet(*p) is None,
        },
{
    match p {
        InboundPacket::AppData { payload: MeshPayload::Decoded { port, data } } => {
            if *port == TEXT_MESSAGE_PORT {
                match parse_azimuth(data.as_slice()) {
                    Some(az) => Some(finding_for_azimuth(cfg, az)),
                    None => None,
                }
            } else {
                None
            }
        },
        _ => None,
    }
}

} // verus!
