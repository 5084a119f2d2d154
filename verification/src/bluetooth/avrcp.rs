//! AVRCP media control: the player path, the poll rate, and tracking the
//! playback status and track the player reports.
use vstd::prelude::*;

use crate::bluetooth::constants::{AVRCP_POLL_ACTIVE_MS, AVRCP_POLL_IDLE_MS};
use crate::state::{PlaybackStatus, TrackInfo, TrackView, track_view};
use crate::text::{
    append_str, chars_of, chars_eq, replace_char, replace_char_exec, string_of, extend_chars,
};

verus! {

/// Commands for AVRCP playback control.
#[derive(Debug, Clone, Copy, PartialEq, Eq, Structural)]
pub enum AvrcpCommand {
    Play,
    Pause,
    Stop,
    Next,
    Previous,
}

pub open spec fn method_of(cmd: AvrcpCommand) -> Seq<char> {
    match cmd {
        AvrcpCommand::Play => "Play"@,
        AvrcpCommand::Pause => "Pause"@,
        AvrcpCommand::Stop => "Stop"@,
        AvrcpCommand::Next => "Next"@,
        AvrcpCommand::Previous => "Previous"@,
    }
}

impl AvrcpCommand {
    /// The `org.bluez.MediaPlayer1` method the command calls.
    pub fn method(&self) -> (r: &'static str)
        ensures
            r@ == method_of(*self),
    {
        match self {
            AvrcpCommand::Play => "Play",
            AvrcpCommand::Pause => "Pause",
            AvrcpCommand::Stop => "Stop",
            AvrcpCommand::Next => "Next",
            AvrcpCommand::Previous => "Previous",
        }
    }
}

/// How often the media player is polled: fast while a device is connected
/// or streaming, slowly otherwise.
pub fn poll_interval_ms(has_connected: bool) -> (r: u64)
    ensures
        r == (if has_connected {
            AVRCP_POLL_ACTIVE_MS
        } else {
            AVRCP_POLL_IDLE_MS
        }),
{
    if has_connected {
        AVRCP_POLL_ACTIVE_MS
    } else {
        AVRCP_POLL_IDLE_MS
    }
}

/// The D-Bus path of a device's media player.
pub open spec fn player_path_of(adapter: Seq<char>, address: Seq<char>) -> Seq<char> {
    "/org/bluez/"@ + adapter + "/dev_"@ + replace_char(address, ':', '_') + "/player0"@
}

/// The D-Bus path of a device's media player.
pub fn player_path(adapter: &str, address: &str) -> (r: String)
    ensures
        r@ == player_path_of(adapter@, address@),
{
    let mut v: Vec<char> = Vec::new();
    append_str(&mut v, "/org/bluez/");
    append_str(&mut v, adapter);
    append_str(&mut v, "/dev_");
    let ac = chars_of(address);
    let u = replace_char_exec(&ac, ':', '_');
    extend_chars(&mut v, &u);
    append_str(&mut v, "/player0");
    string_of(&v)
}

/// The entries of a `MediaPlayer1.Track` dictionary, each present when the
/// dictionary holds it with the expected type (a duration given as 32 bits
/// is widened).
#[derive(Debug, Clone)]
pub struct TrackFields {
    pub title: Option<String>,
    pub artist: Option<String>,
    pub album: Option<String>,
    pub duration: Option<u64>,
    pub track_number: Option<u32>,
}

/// The track a `Track` dictionary describes: none without a non-empty
/// title; missing text fields are empty, a missing duration is zero, and the
/// position and artwork are not known yet.
pub open spec fn track_of(
    title: Option<Seq<char>>,
    artist: Option<Seq<char>>,
    album: Option<Seq<char>>,
    duration: Option<u64>,
    track_number: Option<u32>,
) -> Option<TrackView> {
    match title {
        Some(t) => if t.len() == 0 {
            None
        } else {
            Some(
                TrackView {
                    title: t,
                    artist: match artist {
                        Some(a) => a,
                        None => Seq::empty(),
                    },
                    album: match album {
                        Some(a) => a,
                        None => Seq::empty(),
                    },
                    duration_ms: match duration {
                        Some(d) => d,
                        None => 0,
                    },
                    position_ms: 0,
                    track_number,
                    artwork_url: None,
                },
            )
        },
        None => None,
    }
}

fn or_empty(s: Option<String>) -> (r: String)
    ensures
        r@ == match s {
            Some(x) => x@,
            None => Seq::<char>::empty(),
        },
{
    match s {
        Some(x) => x,
        None => String::new(),
    }
}

/// Parse track metadata from the entries of the BlueZ `Track` property.
pub fn parse_track_info(fields: TrackFields) -> (r: Option<TrackInfo>)
    ensures
        track_view(r) == track_of(
            fields.title.deep_view(),
            fields.artist.deep_view(),
            fields.album.deep_view(),
            fields.duration,
            fields.track_number,
        ),
{
    let title = match fields.title {
        Some(t) => t,
        None => {
            return None;
        },
    };
    let tc = chars_of(title.as_str());
    if tc.len() == 0 {
        return None;
    }
    Some(
        TrackInfo {
            title,
            artist: or_empty(fields.artist),
            album: or_empty(fields.album),
            duration_ms: match fields.duration {
                Some(d) => d,
                None => 0,
            },
            position_ms: 0,
            track_number: fields.track_number,
            artwork_url: None,
        },
    )
}

/// A new track is announced when one side has a track and the other has
/// none, or when the title or artist differ.
pub open spec fn track_differs(last: Option<TrackView>, new: Option<TrackView>) -> bool {
    match (last, new) {
        (None, None) => false,
        (Some(a), Some(b)) => a.title != b.title || a.artist != b.artist,
        _ => true,
    }
}

/// Whether the polled track differs from the last one announced.
pub fn track_changed(last: &Option<TrackInfo>, new: &Option<TrackInfo>) -> (r: bool)
    ensures
        r == track_differs(track_view(*last), track_view(*new)),
{
    match (last, new) {
        (None, None) => false,
        (Some(a), Some(b)) => {
            let at = chars_of(a.title.as_str());
            let bt = chars_of(b.title.as_str());
            let aa = chars_of(a.artist.as_str());
            let ba = chars_of(b.artist.as_str());
            !chars_eq(&at, &bt) || !chars_eq(&aa, &ba)
        },
        _ => true,
    }
}

/// The path clients fetch album artwork from.
pub const ARTWORK_URL: &'static str = "/api/artwork";

/// The MIME type of an artwork file: PNG for a `.png` path, else JPEG.
pub fn artwork_mime(path: &str) -> (r: &'static str)
    ensures
        r@ == (if path@.len() >= 4 && path@.skip(path@.len() - 4) == ".png"@ {
            "image/png"@
        } else {
            "image/jpeg"@
        }),
{
    let pc = chars_of(path);
    let ext = chars_of(".png");
    proof {
        reveal_strlit(".png");
    }
    if pc.len() >= 4 {
        let tail = &pc[pc.len() - 4..pc.len()];
        assert(tail@ =~= path@.skip(path@.len() - 4));
        if chars_eq(tail, &ext) {
            return "image/png";
        }
    }
    "image/jpeg"
}

/// The last playback status and track announced to clients.
pub struct PlayerTracker {
    last_status: PlaybackStatus,
    last_track: Option<TrackInfo>,
}

impl PlayerTracker {
    pub closed spec fn status_spec(&self) -> PlaybackStatus {
        self.last_status
    }

    pub closed spec fn track_spec(&self) -> Option<TrackView> {
        track_view(self.last_track)
    }

    pub fn new() -> (r: Self)
        ensures
            r.status_spec() == PlaybackStatus::Unknown,
            r.track_spec() is None,
    {
        PlayerTracker { last_status: PlaybackStatus::Unknown, last_track: None }
    }

    /// Record a polled status; true when it differs from the last one (and
    /// must be announced).
    pub fn observe_status(&mut self, status: PlaybackStatus) -> (changed: bool)
        ensures
            changed == (status != old(self).status_spec()),
            final(self).status_spec() == status,
            final(self).track_spec() == old(self).track_spec(),
    {
        if status != self.last_status {
            self.last_status = status;
            true
        } else {
            false
        }
    }

    /// Whether a polled track is a change to announce.
    pub fn track_is_new(&self, track: &Option<TrackInfo>) -> (r: bool)
        ensures
            r == track_differs(self.track_spec(), track_view(*track)),
    {
        track_changed(&self.last_track, track)
    }

    /// Announce `track`: it becomes the last track, with the artwork URL set
    /// when artwork was found. Returns the track as announced.
    pub fn announce(&mut self, track: Option<TrackInfo>, has_artwork: bool) -> (r: Option<TrackInfo>)
        ensures
            track_view(r) == match track_view(track) {
                Some(t) => Some(
                    if has_artwork {
                        TrackView { artwork_url: Some(ARTWORK_URL@), ..t }
                    } else {
                        t
                    },
                ),
                None => None,
            },
            final(self).track_spec() == track_view(r),
            final(self).status_spec() == old(self).status_spec(),
    {
        let announced = match track {
            Some(mut t) => {
                if has_artwork {
                    t.artwork_url = Some(String::from_str(ARTWORK_URL));
                }
                Some(t)
            },
            None => None,
        };
        self.last_track = match &announced {
            Some(t) => Some(t.duplicate()),
            None => None,
        };
        announced
    }
}

} // verus!
