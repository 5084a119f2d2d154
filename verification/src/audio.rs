//! Audio side: the parsers and decisions behind the PipeWire / PulseAudio
//! plumbing, AirPlay and Chromecast output, and line-in.
pub mod airplay;
pub mod capture;
pub mod line_in;
pub mod pipeline;
pub mod cast_stream;
pub mod chromecast;
pub mod filter_chain;
pub mod webrtc_audio;
