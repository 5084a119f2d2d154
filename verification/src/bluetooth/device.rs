//! Device classification (BLE vs Classic), the device state machine, and
//! the per-device record.
use vstd::prelude::*;

use crate::bluetooth::codecs::AudioCodec;
use crate::text::{chars_of, eq_str, lowercase, to_lowercase};

verus! {

/// Classification of a Bluetooth device based on its discovery signals.
///
/// The default is `Classic`: absent positive BLE signals, audio-capable
/// devices stay visible.
#[derive(Debug, Clone, Copy, PartialEq, Eq, Structural)]
pub enum DeviceKind {
    /// Classic Bluetooth (BR/EDR) — candidate for A2DP audio sources.
    Classic,
    /// Bluetooth Low Energy — mostly irrelevant for audio.
    Ble,
}

impl Default for DeviceKind {
    fn default() -> (r: Self)
        ensures
            r == DeviceKind::Classic,
    {
        DeviceKind::Classic
    }
}

/// Classic service UUIDs that imply BR/EDR (non-exhaustive): A2DP sink and
/// source, AVRCP target and controller, HFP/HSP, audio source/sink, SPP.
pub open spec fn classic_uuids() -> Seq<Seq<char>> {
    seq![
        "0000110b-0000-1000-8000-00805f9b34fb"@,
        "0000110a-0000-1000-8000-00805f9b34fb"@,
        "0000110c-0000-1000-8000-00805f9b34fb"@,
        "0000110e-0000-1000-8000-00805f9b34fb"@,
        "0000111e-0000-1000-8000-00805f9b34fb"@,
        "0000111f-0000-1000-8000-00805f9b34fb"@,
        "00001108-0000-1000-8000-00805f9b34fb"@,
        "00001131-0000-1000-8000-00805f9b34fb"@,
        "0000110d-0000-1000-8000-00805f9b34fb"@,
        "00001101-0000-1000-8000-00805f9b34fb"@,
    ]
}

pub open spec fn has_classic_uuid_spec(uuids: Seq<String>) -> bool {
    exists|i: int| 0 <= i < uuids.len() && classic_uuids().contains(lowercase(#[trigger] uuids[i]@))
}

pub open spec fn has_a2dp_source_uuid_spec(uuids: Seq<String>) -> bool {
    exists|i: int|
        0 <= i < uuids.len() && lowercase(#[trigger] uuids[i]@)
            == "0000110a-0000-1000-8000-00805f9b34fb"@
}

pub open spec fn is_random_address(address_type: Option<Seq<char>>) -> bool {
    match address_type {
        Some(t) => t == "random"@,
        None => false,
    }
}

/// First match wins: a Class of Device or a Classic service UUID means
/// Classic; a `random` address type or a GAP appearance means BLE; otherwise
/// Classic.
pub open spec fn classify(
    address_type: Option<Seq<char>>,
    class_of_device: Option<u32>,
    uuids: Seq<String>,
    has_appearance: bool,
) -> DeviceKind {
    if class_of_device is Some {
        DeviceKind::Classic
    } else if has_classic_uuid_spec(uuids) {
        DeviceKind::Classic
    } else if is_random_address(address_type) {
        DeviceKind::Ble
    } else if has_appearance {
        DeviceKind::Ble
    } else {
        DeviceKind::Classic
    }
}

/// Classify a device as BLE or Classic from best-effort BlueZ signals.
pub fn classify_device(
    address_type: Option<&str>,
    class_of_device: Option<u32>,
    uuids: &[String],
    has_appearance: bool,
) -> (r: DeviceKind)
    ensures
        r == classify(address_type.deep_view(), class_of_device, uuids@, has_appearance),
{
    if class_of_device.is_some() {
        return DeviceKind::Classic;
    }
    if has_classic_uuid(uuids) {
        return DeviceKind::Classic;
    }
    let random = match address_type {
        Some(t) => {
            let tc = chars_of(t);
            eq_str(&tc, "random")
        },
        None => false,
    };
    if random {
        return DeviceKind::Ble;
    }
    if has_appearance {
        return DeviceKind::Ble;
    }
    DeviceKind::Classic
}

/// Whether a UUID, already lowercased, is one of the Classic service UUIDs.
pub fn is_classic_uuid(lower_uuid: &str) -> (r: bool)
    ensures
        r == classic_uuids().contains(lower_uuid@),
{
    let lower = chars_of(lower_uuid);
    let lower = lower.as_slice();
    let r = eq_str(lower, "0000110b-0000-1000-8000-00805f9b34fb") || eq_str(
        lower,
        "0000110a-0000-1000-8000-00805f9b34fb",
    ) || eq_str(lower, "0000110c-0000-1000-8000-00805f9b34fb") || eq_str(
        lower,
        "0000110e-0000-1000-8000-00805f9b34fb",
    ) || eq_str(lower, "0000111e-0000-1000-8000-00805f9b34fb") || eq_str(
        lower,
        "0000111f-0000-1000-8000-00805f9b34fb",
    ) || eq_str(lower, "00001108-0000-1000-8000-00805f9b34fb") || eq_str(
        lower,
        "00001131-0000-1000-8000-00805f9b34fb",
    ) || eq_str(lower, "0000110d-0000-1000-8000-00805f9b34fb") || eq_str(
        lower,
        "00001101-0000-1000-8000-00805f9b34fb",
    );
    proof {
        let u = classic_uuids();
        if r {
            assert(u.contains(lower@)) by {
                if lower@ == u[0] {
                } else if lower@ == u[1] {
                } else if lower@ == u[2] {
                } else if lower@ == u[3] {
                } else if lower@ == u[4] {
                } else if lower@ == u[5] {
                } else if lower@ == u[6] {
                } else if lower@ == u[7] {
                } else if lower@ == u[8] {
                } else {
                    assert(lower@ == u[9]);
                }
            }
        } else {
            assert forall|i: int| 0 <= i < u.len() implies u[i] != lower@ by {
            }
        }
    }
    r
}

/// Classic Bluetooth service UUIDs that imply BR/EDR (non-exhaustive).
/// Presence of any of these means the device is definitely Classic.
pub fn has_classic_uuid(uuids: &[String]) -> (r: bool)
    ensures
        r == has_classic_uuid_spec(uuids@),
{
    let mut i: usize = 0;
    while i < uuids.len()
        invariant
            0 <= i <= uuids@.len(),
            forall|j: int| 0 <= j < i ==> !classic_uuids().contains(lowercase(#[trigger] uuids@[j]@)),
        decreases uuids.len() - i,
    {
        let lower = to_lowercase(uuids[i].as_str());
        if is_classic_uuid(lower.as_str()) {
            assert(classic_uuids().contains(lowercase(uuids@[i as int]@)));
            return true;
        }
        i = i + 1;
    }
    false
}

/// Whether a UUID, already lowercased, is the A2DP source UUID.
pub fn is_a2dp_source_uuid(lower_uuid: &str) -> (r: bool)
    ensures
        r == (lower_uuid@ == "0000110a-0000-1000-8000-00805f9b34fb"@),
{
    let lc = chars_of(lower_uuid);
    eq_str(&lc, "0000110a-0000-1000-8000-00805f9b34fb")
}

/// Check whether the device UUIDs advertise A2DP source support.
pub fn has_a2dp_source_uuid(uuids: &[String]) -> (r: bool)
    ensures
        r == has_a2dp_source_uuid_spec(uuids@),
{
    let mut i: usize = 0;
    while i < uuids.len()
        invariant
            0 <= i <= uuids@.len(),
            forall|j: int|
                0 <= j < i ==> lowercase(#[trigger] uuids@[j]@)
                    != "0000110a-0000-1000-8000-00805f9b34fb"@,
        decreases uuids.len() - i,
    {
        let lower = to_lowercase(uuids[i].as_str());
        if is_a2dp_source_uuid(lower.as_str()) {
            assert(lowercase(uuids@[i as int]@) == "0000110a-0000-1000-8000-00805f9b34fb"@);
            return true;
        }
        i = i + 1;
    }
    false
}

#[derive(Debug, Clone, Copy, PartialEq, Eq, Structural)]
pub enum DeviceState {
    Disconnected,
    Discovered,
    Pairing,
    Paired,
    Connected,
    ProfileNegotiated,
    PipewireSourceReady,
    AudioActive,
}

/// The legal transitions of the device state machine.
pub open spec fn transition_allowed(from: DeviceState, to: DeviceState) -> bool {
    match (from, to) {
        (DeviceState::Disconnected, DeviceState::Discovered) => true,
        (DeviceState::Discovered, DeviceState::Pairing) => true,
        (DeviceState::Discovered, DeviceState::Paired) => true,
        (DeviceState::Discovered, DeviceState::Connected) => true,
        (DeviceState::Discovered, DeviceState::Disconnected) => true,
        (DeviceState::Pairing, DeviceState::Paired) => true,
        (DeviceState::Pairing, DeviceState::Disconnected) => true,
        (DeviceState::Paired, DeviceState::Connected) => true,
        (DeviceState::Paired, DeviceState::Disconnected) => true,
        (DeviceState::Connected, DeviceState::ProfileNegotiated) => true,
        (DeviceState::Connected, DeviceState::AudioActive) => true,
        (DeviceState::Connected, DeviceState::Disconnected) => true,
        (DeviceState::ProfileNegotiated, DeviceState::PipewireSourceReady) => true,
        (DeviceState::ProfileNegotiated, DeviceState::AudioActive) => true,
        (DeviceState::ProfileNegotiated, DeviceState::Disconnected) => true,
        (DeviceState::PipewireSourceReady, DeviceState::AudioActive) => true,
        (DeviceState::PipewireSourceReady, DeviceState::Disconnected) => true,
        (DeviceState::AudioActive, DeviceState::Connected) => true,
        (DeviceState::AudioActive, DeviceState::Disconnected) => true,
        _ => false,
    }
}

/// The variant name, as `{:?}` prints it.
pub open spec fn state_name(s: DeviceState) -> Seq<char> {
    match s {
        DeviceState::Disconnected => "Disconnected"@,
        DeviceState::Discovered => "Discovered"@,
        DeviceState::Pairing => "Pairing"@,
        DeviceState::Paired => "Paired"@,
        DeviceState::Connected => "Connected"@,
        DeviceState::ProfileNegotiated => "ProfileNegotiated"@,
        DeviceState::PipewireSourceReady => "PipewireSourceReady"@,
        DeviceState::AudioActive => "AudioActive"@,
    }
}

pub open spec fn transition_error(from: DeviceState, to: DeviceState) -> Seq<char> {
    "Invalid device state transition: "@ + state_name(from) + " → "@ + state_name(to)
}

impl DeviceState {
    pub fn name(&self) -> (r: &'static str)
        ensures
            r@ == state_name(*self),
    {
        match self {
            DeviceState::Disconnected => "Disconnected",
            DeviceState::Discovered => "Discovered",
            DeviceState::Pairing => "Pairing",
            DeviceState::Paired => "Paired",
            DeviceState::Connected => "Connected",
            DeviceState::ProfileNegotiated => "ProfileNegotiated",
            DeviceState::PipewireSourceReady => "PipewireSourceReady",
            DeviceState::AudioActive => "AudioActive",
        }
    }

    /// Validate that a transition from the current state to `to` is legal.
    pub fn can_transition_to(&self, to: &DeviceState) -> (r: bool)
        ensures
            r == transition_allowed(*self, *to),
    {
        match (self, to) {
            (DeviceState::Disconnected, DeviceState::Discovered)
            | (DeviceState::Discovered, DeviceState::Pairing)
            | (DeviceState::Discovered, DeviceState::Paired)
            | (DeviceState::Discovered, DeviceState::Connected)
            | (DeviceState::Discovered, DeviceState::Disconnected)
            | (DeviceState::Pairing, DeviceState::Paired)
            | (DeviceState::Pairing, DeviceState::Disconnected)
            | (DeviceState::Paired, DeviceState::Connected)
            | (DeviceState::Paired, DeviceState::Disconnected)
            | (DeviceState::Connected, DeviceState::ProfileNegotiated)
            | (DeviceState::Connected, DeviceState::AudioActive)
            | (DeviceState::Connected, DeviceState::Disconnected)
            | (DeviceState::ProfileNegotiated, DeviceState::PipewireSourceReady)
            | (DeviceState::ProfileNegotiated, DeviceState::AudioActive)
            | (DeviceState::ProfileNegotiated, DeviceState::Disconnected)
            | (DeviceState::PipewireSourceReady, DeviceState::AudioActive)
            | (DeviceState::PipewireSourceReady, DeviceState::Disconnected)
            | (DeviceState::AudioActive, DeviceState::Connected)
            | (DeviceState::AudioActive, DeviceState::Disconnected) => true,
            _ => false,
        }
    }

    /// Move to `to` if the transition is legal; otherwise leave the state
    /// unchanged and report the refused transition.
    pub fn transition(&mut self, to: DeviceState) -> (r: Result<(), String>)
        ensures
            transition_allowed(*old(self), to) ==> r is Ok && *final(self) == to,
            !transition_allowed(*old(self), to) ==> *final(self) == *old(self) && (r matches Err(
                msg,
            ) && msg@ == transition_error(*old(self), to)),
    {
        if self.can_transition_to(&to) {
            *self = to;
            Ok(())
        } else {
            let mut msg = String::from_str("Invalid device state transition: ");
            msg.append(self.name());
            msg.append(" → ");
            msg.append(to.name());
            Err(msg)
        }
    }
}

/// From every state but `Disconnected`, a device can always be disconnected.
pub proof fn lemma_disconnect_always_allowed(s: DeviceState)
    requires
        s != DeviceState::Disconnected,
    ensures
        transition_allowed(s, DeviceState::Disconnected),
{
}

/// Streaming can stop without dropping the connection: from `AudioActive` a
/// device may fall back to `Connected` or disconnect, and nothing else; and
/// from `Connected` it may start streaming again.
pub proof fn lemma_streaming_falls_back_to_connected(to: DeviceState)
    ensures
        transition_allowed(DeviceState::AudioActive, to) <==> (to == DeviceState::Connected || to
            == DeviceState::Disconnected),
        transition_allowed(DeviceState::Connected, DeviceState::AudioActive),
{
}

/// A device reaches `AudioActive` from every connected stage, and every
/// stage short of streaming is entered from exactly the stages before it.
pub proof fn lemma_connection_stages(from: DeviceState)
    ensures
        transition_allowed(from, DeviceState::AudioActive) <==> (from == DeviceState::Connected
            || from == DeviceState::ProfileNegotiated || from == DeviceState::PipewireSourceReady),
        transition_allowed(from, DeviceState::Connected) <==> (from == DeviceState::Discovered
            || from == DeviceState::Paired || from == DeviceState::AudioActive),
        transition_allowed(from, DeviceState::Discovered) <==> from == DeviceState::Disconnected,
{
}

/// No state transitions to itself, and a disconnected device can only be
/// rediscovered.
pub proof fn lemma_transition_shape(from: DeviceState, to: DeviceState)
    ensures
        transition_allowed(from, to) ==> from != to,
        from == DeviceState::Disconnected && transition_allowed(from, to) ==> to
            == DeviceState::Discovered,
{
}

/// What the receiver knows about one Bluetooth device.
#[derive(Debug, Clone)]
pub struct DeviceInfo {
    pub address: String,
    pub name: String,
    pub state: DeviceState,
    pub rssi: Option<i16>,
    pub trusted: bool,
    pub has_a2dp: bool,
    pub codec: Option<AudioCodec>,
    /// When the device was last seen, in milliseconds since the Unix epoch.
    pub last_seen: i64,
    pub pipewire_node: Option<String>,
    /// Best-effort classification: BLE vs Classic Bluetooth.
    pub device_type: DeviceKind,
    /// Best-effort flag: device advertises the A2DP source UUID.
    pub is_a2dp_source: bool,
}

pub fn clone_string_opt(o: &Option<String>) -> (r: Option<String>)
    ensures
        r == *o,
{
    match o {
        Some(s) => Some(s.clone()),
        None => None,
    }
}

impl DeviceInfo {
    /// A field-for-field copy.
    pub fn clone_info(&self) -> (r: DeviceInfo)
        ensures
            r == *self,
    {
        DeviceInfo {
            address: self.address.clone(),
            name: self.name.clone(),
            state: self.state,
            rssi: self.rssi,
            trusted: self.trusted,
            has_a2dp: self.has_a2dp,
            codec: self.codec,
            last_seen: self.last_seen,
            pipewire_node: clone_string_opt(&self.pipewire_node),
            device_type: self.device_type,
            is_a2dp_source: self.is_a2dp_source,
        }
    }

    /// A freshly discovered device, seen at `now_ms` (milliseconds since the
    /// Unix epoch).
    pub fn new(address: String, name: String, now_ms: i64) -> (r: Self)
        ensures
            r.address@ == address@,
            r.last_seen == now_ms,
            r.name@ == name@,
            r.state == DeviceState::Discovered,
            r.rssi is None,
            !r.trusted,
            !r.has_a2dp,
            r.codec is None,
            r.pipewire_node is None,
            r.device_type == DeviceKind::Classic,
            !r.is_a2dp_source,
    {
        DeviceInfo {
            address,
            name,
            state: DeviceState::Discovered,
            rssi: None,
            trusted: false,
            has_a2dp: false,
            codec: None,
            last_seen: now_ms,
            pipewire_node: None,
            device_type: DeviceKind::Classic,
            is_a2dp_source: false,
        }
    }
}

} // verus!
