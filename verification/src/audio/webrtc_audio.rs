//! Signalling commands for the WebRTC audio sessions, and the RTP clock of
//! the Opus stream sent to each.
use vstd::prelude::*;

verus! {

/// Commands sent from the WebSocket handler to the WebRTC manager task.
#[derive(Debug)]
pub enum WebRtcCommand {
    /// Browser sent an SDP offer to start streaming.
    Offer { session_id: String, sdp: String },
    /// Browser sent an ICE candidate.
    IceCandidate {
        session_id: String,
        candidate: String,
        sdp_mid: Option<String>,
        sdp_mline_index: Option<u16>,
    },
    /// Browser requested session teardown.
    Stop { session_id: String },
}

impl WebRtcCommand {
    /// The session the command is for.
    pub fn session_id(&self) -> (r: &String)
        ensures
            r@ == match self {
                WebRtcCommand::Offer { session_id, .. } => session_id@,
                WebRtcCommand::IceCandidate { session_id, .. } => session_id@,
                WebRtcCommand::Stop { session_id } => session_id@,
            },
    {
        match self {
            WebRtcCommand::Offer { session_id, .. } => session_id,
            WebRtcCommand::IceCandidate { session_id, .. } => session_id,
            WebRtcCommand::Stop { session_id } => session_id,
        }
    }
}

/// Samples per channel in one 20 ms Opus frame at 48 kHz: the RTP timestamp
/// step of one packet.
pub const SAMPLES_PER_FRAME: u32 = 960;

/// The RTP timestamp and sequence number of the next packet of a stream.
#[derive(Debug, Clone, Copy, PartialEq, Eq)]
pub struct RtpClock {
    pub timestamp: u32,
    pub sequence: u16,
}

/// The clock after `dropped` frames were lost before encoding: the timestamp
/// moves on by their samples and the sequence number by their count (both
/// wrapping), so the receiver's jitter buffer stays in step with real time.
pub fn skip_frames(c: RtpClock, dropped: u32) -> (r: RtpClock)
    ensures
        r.timestamp == (c.timestamp + 960 * dropped) % 0x1_0000_0000,
        r.sequence == (c.sequence + dropped) % 0x1_0000,
{
    let step: u64 = SAMPLES_PER_FRAME as u64;
    assert(step == 960);
    let ts: u64 = (c.timestamp as u64 + step * dropped as u64) % 0x1_0000_0000u64;
    let seq: u64 = (c.sequence as u64 + dropped as u64) % 0x1_0000u64;
    RtpClock { timestamp: ts as u32, sequence: seq as u16 }
}

/// The clock after one packet was sent: one frame of samples and one
/// sequence number on (both wrapping).
pub fn next_packet(c: RtpClock) -> (r: RtpClock)
    ensures
        r.timestamp == (c.timestamp + 960) % 0x1_0000_0000,
        r.sequence == (c.sequence + 1) % 0x1_0000,
{
    skip_frames(c, 1)
}

/// The RTP version field of every packet.
pub const RTP_VERSION: u8 = 2;

/// The dynamic RTP payload type the Opus track is negotiated with.
pub const OPUS_PAYLOAD_TYPE: u8 = 111;

/// The RTP header fields of the packet sent at a clock reading.
#[derive(Debug, Clone, Copy, PartialEq, Eq)]
pub struct RtpHeaderFields {
    pub version: u8,
    pub payload_type: u8,
    pub sequence_number: u16,
    pub timestamp: u32,
}

/// The header of the packet sent at `c`: RTP version 2, payload type 111
/// (Opus), and the clock's sequence number and timestamp.
pub fn rtp_header(c: RtpClock) -> (r: RtpHeaderFields)
    ensures
        r.version == 2,
        r.payload_type == 111,
        r.sequence_number == c.sequence,
        r.timestamp == c.timestamp,
{
    RtpHeaderFields {
        version: RTP_VERSION,
        payload_type: OPUS_PAYLOAD_TYPE,
        sequence_number: c.sequence,
        timestamp: c.timestamp,
    }
}

} // verus!
