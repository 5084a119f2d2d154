//! Routing of application events to WebSocket clients: which message kind
//! an event becomes, and which client sessions receive WebRTC signalling.
use vstd::prelude::*;

use crate::bluetooth::device::DeviceState;
use crate::bluetooth::discovery::DeviceEvent;
use crate::text::{chars_eq, chars_of};

verus! {

/// The kinds of application event published on the event bus.
#[derive(Debug, Clone, Copy, PartialEq, Eq, Structural)]
pub enum EventKind {
    BluetoothStatusChanged,
    DeviceDiscovered,
    DeviceStateChanged,
    DeviceRemoved,
    StreamStarted,
    StreamStopped,
    EqChanged,
    SpectrumData,
    TrackChanged,
    PlaybackStatusChanged,
    LineInActivated,
    LineInDeactivated,
    WebRtcAnswer,
    WebRtcIceCandidate,
    CastDeviceDiscovered,
    CastDeviceRemoved,
    CastSessionStarted,
    CastSessionStopped,
    CastError,
    AirPlayDeviceDiscovered,
    AirPlayDeviceRemoved,
    AirPlaySessionStarted,
    AirPlaySessionStopped,
    AirPlayError,
    Error,
    ServiceStopping,
    StateSnapshot,
}

/// The kinds of message sent to a WebSocket client.
#[derive(Debug, Clone, Copy, PartialEq, Eq, Structural)]
pub enum WsKind {
    DeviceStateChanged,
    EqChanged,
    TrackChanged,
    PlaybackStatusChanged,
    SpectrumData,
    BluetoothStatusChanged,
    WebrtcAnswer,
    WebrtcIceCandidate,
    CastDeviceDiscovered,
    CastDeviceRemoved,
    CastSessionStarted,
    CastSessionStopped,
    CastError,
    AirPlayDeviceDiscovered,
    AirPlayDeviceRemoved,
    AirPlaySessionStarted,
    AirPlaySessionStopped,
    AirPlayError,
    /// Line-in switched on (`true`) or off (`false`).
    LineInChanged { active: bool },
}

/// The message a client with session `ws_session` gets for an event of this
/// kind, if any. A device's discovery and the start of its stream are sent
/// as device-state changes; WebRTC answers and ICE candidates go only to the
/// session they belong to (`event_session`); removals, stream stops,
/// generic errors, shutdown and snapshots are not forwarded.
pub open spec fn ws_route_of(kind: EventKind, event_session: Seq<char>, ws_session: Seq<char>) -> Option<WsKind> {
    match kind {
        EventKind::BluetoothStatusChanged => Some(WsKind::BluetoothStatusChanged),
        EventKind::DeviceDiscovered => Some(WsKind::DeviceStateChanged),
        EventKind::DeviceStateChanged => Some(WsKind::DeviceStateChanged),
        EventKind::StreamStarted => Some(WsKind::DeviceStateChanged),
        EventKind::EqChanged => Some(WsKind::EqChanged),
        EventKind::SpectrumData => Some(WsKind::SpectrumData),
        EventKind::TrackChanged => Some(WsKind::TrackChanged),
        EventKind::PlaybackStatusChanged => Some(WsKind::PlaybackStatusChanged),
        EventKind::LineInActivated => Some(WsKind::LineInChanged { active: true }),
        EventKind::LineInDeactivated => Some(WsKind::LineInChanged { active: false }),
        EventKind::WebRtcAnswer => if event_session == ws_session {
            Some(WsKind::WebrtcAnswer)
        } else {
            None
        },
        EventKind::WebRtcIceCandidate => if event_session == ws_session {
            Some(WsKind::WebrtcIceCandidate)
        } else {
            None
        },
        EventKind::CastDeviceDiscovered => Some(WsKind::CastDeviceDiscovered),
        EventKind::CastDeviceRemoved => Some(WsKind::CastDeviceRemoved),
        EventKind::CastSessionStarted => Some(WsKind::CastSessionStarted),
        EventKind::CastSessionStopped => Some(WsKind::CastSessionStopped),
        EventKind::CastError => Some(WsKind::CastError),
        EventKind::AirPlayDeviceDiscovered => Some(WsKind::AirPlayDeviceDiscovered),
        EventKind::AirPlayDeviceRemoved => Some(WsKind::AirPlayDeviceRemoved),
        EventKind::AirPlaySessionStarted => Some(WsKind::AirPlaySessionStarted),
        EventKind::AirPlaySessionStopped => Some(WsKind::AirPlaySessionStopped),
        EventKind::AirPlayError => Some(WsKind::AirPlayError),
        EventKind::DeviceRemoved => None,
        EventKind::StreamStopped => None,
        EventKind::Error => None,
        EventKind::ServiceStopping => None,
        EventKind::StateSnapshot => None,
    }
}

/// The message kind a client with session `ws_session_id` gets for an event
/// of kind `kind`; `event_session` is the session a WebRTC event belongs to
/// (ignored for other events).
pub fn ws_route(kind: EventKind, event_session: &str, ws_session_id: &str) -> (r: Option<WsKind>)
    ensures
        r == ws_route_of(kind, event_session@, ws_session_id@),
        (kind == EventKind::WebRtcAnswer || kind == EventKind::WebRtcIceCandidate) ==> (r is Some
            <==> event_session@ == ws_session_id@),
{
    match kind {
        EventKind::BluetoothStatusChanged => Some(WsKind::BluetoothStatusChanged),
        EventKind::DeviceDiscovered => Some(WsKind::DeviceStateChanged),
        EventKind::DeviceStateChanged => Some(WsKind::DeviceStateChanged),
        EventKind::StreamStarted => Some(WsKind::DeviceStateChanged),
        EventKind::EqChanged => Some(WsKind::EqChanged),
        EventKind::SpectrumData => Some(WsKind::SpectrumData),
        EventKind::TrackChanged => Some(WsKind::TrackChanged),
        EventKind::PlaybackStatusChanged => Some(WsKind::PlaybackStatusChanged),
        EventKind::LineInActivated => Some(WsKind::LineInChanged { active: true }),
        EventKind::LineInDeactivated => Some(WsKind::LineInChanged { active: false }),
        EventKind::WebRtcAnswer | EventKind::WebRtcIceCandidate => {
            let a = chars_of(event_session);
            let b = chars_of(ws_session_id);
            if !chars_eq(&a, &b) {
                None
            } else if kind == EventKind::WebRtcAnswer {
                Some(WsKind::WebrtcAnswer)
            } else {
                Some(WsKind::WebrtcIceCandidate)
            }
        },
        EventKind::CastDeviceDiscovered => Some(WsKind::CastDeviceDiscovered),
        EventKind::CastDeviceRemoved => Some(WsKind::CastDeviceRemoved),
        EventKind::CastSessionStarted => Some(WsKind::CastSessionStarted),
        EventKind::CastSessionStopped => Some(WsKind::CastSessionStopped),
        EventKind::CastError => Some(WsKind::CastError),
        EventKind::AirPlayDeviceDiscovered => Some(WsKind::AirPlayDeviceDiscovered),
        EventKind::AirPlayDeviceRemoved => Some(WsKind::AirPlayDeviceRemoved),
        EventKind::AirPlaySessionStarted => Some(WsKind::AirPlaySessionStarted),
        EventKind::AirPlaySessionStopped => Some(WsKind::AirPlaySessionStopped),
        EventKind::AirPlayError => Some(WsKind::AirPlayError),
        EventKind::DeviceRemoved | EventKind::StreamStopped | EventKind::Error
        | EventKind::ServiceStopping | EventKind::StateSnapshot => None,
    }
}

/// The payload of a device-state message: which device, the name to show
/// and its state.
#[derive(Debug)]
pub struct DeviceStateData {
    pub address: String,
    pub name: String,
    pub state: DeviceState,
}

/// The device-state payload a device event is sent to clients as: a
/// discovery shows the device as discovered under its name (the signal
/// strength is not sent); a state change shows the new state; the start of a
/// stream shows the device as streaming with an empty name, which the page
/// does not put over the name it already shows. Removals and stream stops
/// send no device-state message.
pub fn device_state_data(ev: &DeviceEvent) -> (r: Option<DeviceStateData>)
    ensures
        match *ev {
            DeviceEvent::Discovered { address, name, .. } => r matches Some(d) && d.address@
                == address@ && d.name@ == name@ && d.state == DeviceState::Discovered,
            DeviceEvent::StateChanged { address, name, state } => r matches Some(d) && d.address@
                == address@ && d.name@ == name@ && d.state == state,
            DeviceEvent::StreamStarted { address, .. } => r matches Some(d) && d.address@
                == address@ && d.name@ == Seq::<char>::empty() && d.state == DeviceState::AudioActive,
            DeviceEvent::Removed { .. } => r is None,
            DeviceEvent::StreamStopped { .. } => r is None,
        },
{
    match ev {
        DeviceEvent::Discovered { address, name, .. } => Some(
            DeviceStateData {
                address: address.clone(),
                name: name.clone(),
                state: DeviceState::Discovered,
            },
        ),
        DeviceEvent::StateChanged { address, name, state } => Some(
            DeviceStateData { address: address.clone(), name: name.clone(), state: *state },
        ),
        DeviceEvent::StreamStarted { address, .. } => Some(
            DeviceStateData {
                address: address.clone(),
                name: String::new(),
                state: DeviceState::AudioActive,
            },
        ),
        DeviceEvent::Removed { .. } => None,
        DeviceEvent::StreamStopped { .. } => None,
    }
}

} // verus!
