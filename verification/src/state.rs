//! Shared status values: the adapter status, the playback status and the
//! current track.
pub mod config;

use vstd::prelude::*;

use crate::text::{eq_str, chars_of, lowercase, to_lowercase};

verus! {

/// Status of the Bluetooth adapter.
#[derive(Debug, Clone, PartialEq, Eq)]
pub enum BluetoothStatus {
    Ready,
    Scanning,
    Unavailable,
    Error(String),
}

impl Default for BluetoothStatus {
    fn default() -> (r: Self)
        ensures
            r is Unavailable,
    {
        BluetoothStatus::Unavailable
    }
}

impl BluetoothStatus {
    /// A variant-by-variant copy.
    pub fn duplicate(&self) -> (r: Self)
        ensures
            r == *self,
    {
        match self {
            BluetoothStatus::Ready => BluetoothStatus::Ready,
            BluetoothStatus::Scanning => BluetoothStatus::Scanning,
            BluetoothStatus::Unavailable => BluetoothStatus::Unavailable,
            BluetoothStatus::Error(m) => BluetoothStatus::Error(m.clone()),
        }
    }

    /// The status word reported by `/api/status`: the snake-case variant
    /// name, and "unavailable" for an error (whose serialized form is not a
    /// plain word).
    pub fn label(&self) -> (r: &'static str)
        ensures
            r@ == match self {
                BluetoothStatus::Ready => "ready"@,
                BluetoothStatus::Scanning => "scanning"@,
                BluetoothStatus::Unavailable => "unavailable"@,
                BluetoothStatus::Error(_) => "unavailable"@,
            },
    {
        match self {
            BluetoothStatus::Ready => "ready",
            BluetoothStatus::Scanning => "scanning",
            BluetoothStatus::Unavailable => "unavailable",
            BluetoothStatus::Error(_) => "unavailable",
        }
    }
}

/// Playback status of the connected media player.
#[derive(Debug, Clone, Copy, PartialEq, Eq, Structural)]
pub enum PlaybackStatus {
    Playing,
    Paused,
    Stopped,
    Unknown,
}

impl Default for PlaybackStatus {
    fn default() -> (r: Self)
        ensures
            r == PlaybackStatus::Unknown,
    {
        PlaybackStatus::Unknown
    }
}

/// The status a lowercased BlueZ `Status` value stands for.
pub open spec fn playback_status_of(lower: Seq<char>) -> PlaybackStatus {
    if lower == "playing"@ {
        PlaybackStatus::Playing
    } else if lower == "paused"@ {
        PlaybackStatus::Paused
    } else if lower == "stopped"@ {
        PlaybackStatus::Stopped
    } else {
        PlaybackStatus::Unknown
    }
}

impl PlaybackStatus {
    /// The status of an already lowercased BlueZ `Status` value.
    pub fn from_lowercase(lower: &str) -> (r: Self)
        ensures
            r == playback_status_of(lower@),
    {
        let cs = chars_of(lower);
        if eq_str(&cs, "playing") {
            PlaybackStatus::Playing
        } else if eq_str(&cs, "paused") {
            PlaybackStatus::Paused
        } else if eq_str(&cs, "stopped") {
            PlaybackStatus::Stopped
        } else {
            PlaybackStatus::Unknown
        }
    }

    /// The status of a BlueZ `MediaPlayer1.Status` value, ignoring case.
    pub fn from_bluez(s: &str) -> (r: Self)
        ensures
            r == playback_status_of(lowercase(s@)),
    {
        let lower = to_lowercase(s);
        PlaybackStatus::from_lowercase(lower.as_str())
    }
}

/// Metadata of the track being played.
#[derive(Debug, Clone)]
pub struct TrackInfo {
    pub title: String,
    pub artist: String,
    pub album: String,
    pub duration_ms: u64,
    /// Current playback position in milliseconds.
    pub position_ms: u64,
    pub track_number: Option<u32>,
    /// URL path for album artwork, if available.
    pub artwork_url: Option<String>,
}

/// A track as plain values.
pub struct TrackView {
    pub title: Seq<char>,
    pub artist: Seq<char>,
    pub album: Seq<char>,
    pub duration_ms: u64,
    pub position_ms: u64,
    pub track_number: Option<u32>,
    pub artwork_url: Option<Seq<char>>,
}

impl View for TrackInfo {
    type V = TrackView;

    open spec fn view(&self) -> TrackView {
        TrackView {
            title: self.title@,
            artist: self.artist@,
            album: self.album@,
            duration_ms: self.duration_ms,
            position_ms: self.position_ms,
            track_number: self.track_number,
            artwork_url: self.artwork_url.deep_view(),
        }
    }
}

impl TrackInfo {
    /// A field-by-field copy.
    pub fn duplicate(&self) -> (r: Self)
        ensures
            r@ == self@,
    {
        TrackInfo {
            title: self.title.clone(),
            artist: self.artist.clone(),
            album: self.album.clone(),
            duration_ms: self.duration_ms,
            position_ms: self.position_ms,
            track_number: self.track_number,
            artwork_url: match &self.artwork_url {
                Some(u) => Some(u.clone()),
                None => None,
            },
        }
    }
}

pub open spec fn track_view(t: Option<TrackInfo>) -> Option<TrackView> {
    match t {
        Some(x) => Some(x@),
        None => None,
    }
}

} // verus!
