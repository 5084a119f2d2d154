//! Decisions of the Bluetooth adapter manager: the scan state machine, the
//! device-state updates from each property poll, and the names and addresses
//! read back from BlueZ, `pactl` and `hcitool`.
use vstd::prelude::*;

use crate::bluetooth::device::DeviceState;
use crate::bluetooth::discovery::{is_mac_address, unresolved_name};
use crate::state::BluetoothStatus;
use crate::text::{
    append_str, chars_eq, chars_of, replace_char, replace_char_exec, starts_with,
    starts_with_exec, string_of, trim, trim_bounds,
};

verus! {

/// Commands that can be sent to the Bluetooth manager from the web API.
#[derive(Debug)]
pub enum BluetoothCommand {
    StartScan,
    StopScan,
    Connect { address: String },
    Disconnect { address: String },
    Remove { address: String },
    SetName { name: String },
    /// Ask every device whose friendly name is not resolved yet for it.
    ResolveNames,
}

/// What the manager's loop hands to the scan state machine.
#[derive(Debug)]
pub enum ManagerEvent {
    /// A command arrived.
    Command(BluetoothCommand),
    /// The command channel closed.
    ChannelClosed,
    /// Discovery was started as asked.
    DiscoveryStarted,
    /// Starting discovery failed with this message.
    DiscoveryFailed { message: String },
    /// The discovery stream ended by itself.
    DiscoveryEnded,
    /// The periodic property poll ran; whether some device now streams audio.
    Polled { audio_active: bool },
}

/// What the manager's loop does in response.
#[derive(Debug)]
pub struct ManagerAction {
    /// Start discovery, then report how that went.
    pub start_discovery: bool,
    /// Stop discovery (the D-Bus `StopDiscovery` call).
    pub stop_discovery: bool,
    /// Record and publish this adapter status.
    pub status: Option<BluetoothStatus>,
    /// Carry out this device or adapter command.
    pub command: Option<BluetoothCommand>,
    /// Leave the loop.
    pub shutdown: bool,
}

pub open spec fn no_action(a: ManagerAction) -> bool {
    !a.start_discovery && !a.stop_discovery && a.status is None && a.command is None
        && !a.shutdown
}

fn action(
    start_discovery: bool,
    stop_discovery: bool,
    status: Option<BluetoothStatus>,
    command: Option<BluetoothCommand>,
    shutdown: bool,
) -> (r: ManagerAction)
    ensures
        r.start_discovery == start_discovery,
        r.stop_discovery == stop_discovery,
        r.status == status,
        r.command == command,
        r.shutdown == shutdown,
{
    ManagerAction { start_discovery, stop_discovery, status, command, shutdown }
}

/// Whether discovery is running. Scanning starts only once discovery has
/// started; it stops on request, when the discovery stream ends, and as soon
/// as a device streams audio (scanning and A2DP share the radio). A report
/// that starting discovery failed is ignored while discovery runs.
pub struct ScanControl {
    scanning: bool,
}

impl ScanControl {
    pub closed spec fn scanning_spec(&self) -> bool {
        self.scanning
    }

    /// Discovery is not running at first.
    pub fn new() -> (r: Self)
        ensures
            !r.scanning_spec(),
    {
        ScanControl { scanning: false }
    }

    pub fn is_scanning(&self) -> (r: bool)
        ensures
            r == self.scanning_spec(),
    {
        self.scanning
    }

    /// Take one event and say what to do.
    pub fn step(&mut self, event: ManagerEvent) -> (a: ManagerAction)
        ensures
            scan_step(*old(self), event, *final(self), a),
    {
        match event {
            ManagerEvent::Command(BluetoothCommand::StartScan) => {
                if self.scanning {
                    action(false, false, Some(BluetoothStatus::Scanning), None, false)
                } else {
                    action(true, false, None, None, false)
                }
            },
            ManagerEvent::Command(BluetoothCommand::StopScan) => {
                let was = self.scanning;
                self.scanning = false;
                action(false, was, Some(BluetoothStatus::Ready), None, false)
            },
            ManagerEvent::Command(c) => action(false, false, None, Some(c), false),
            ManagerEvent::ChannelClosed => action(false, false, None, None, true),
            ManagerEvent::DiscoveryStarted => {
                self.scanning = true;
                action(false, false, Some(BluetoothStatus::Scanning), None, false)
            },
            ManagerEvent::DiscoveryFailed { message } => {
                if self.scanning {
                    // A start is only asked for while discovery is off, so a
                    // failure report now is stale: discovery keeps running.
                    return action(false, false, None, None, false);
                }
                let mut v: Vec<char> = Vec::new();
                append_str(&mut v, "Discovery failed: ");
                append_str(&mut v, message.as_str());
                action(false, false, Some(BluetoothStatus::Error(string_of(&v))), None, false)
            },
            ManagerEvent::DiscoveryEnded => {
                if self.scanning {
                    self.scanning = false;
                    action(false, true, Some(BluetoothStatus::Ready), None, false)
                } else {
                    action(false, false, None, None, false)
                }
            },
            ManagerEvent::Polled { audio_active } => {
                if self.scanning && audio_active {
                    self.scanning = false;
                    action(false, true, Some(BluetoothStatus::Ready), None, false)
                } else {
                    action(false, false, None, None, false)
                }
            },
        }
    }
}

/// One step of the scan state machine: the scan state `before` and `after`
/// the event, and the action taken.
pub open spec fn scan_step(before: ScanControl, event: ManagerEvent, after: ScanControl, a: ManagerAction) -> bool {
    match event {
        ManagerEvent::Command(BluetoothCommand::StartScan) => if before.scanning_spec() {
            after.scanning_spec() && a.status == Some(BluetoothStatus::Scanning)
                && !a.start_discovery && !a.stop_discovery && a.command is None
                && !a.shutdown
        } else {
            !after.scanning_spec() && a.start_discovery && !a.stop_discovery
                && a.status is None && a.command is None && !a.shutdown
        },
        ManagerEvent::Command(BluetoothCommand::StopScan) => !after.scanning_spec()
            && a.stop_discovery == before.scanning_spec() && a.status == Some(
            BluetoothStatus::Ready,
        ) && !a.start_discovery && a.command is None && !a.shutdown,
        ManagerEvent::Command(c) => after.scanning_spec()
            == before.scanning_spec() && a.command == Some(c) && !a.start_discovery
            && !a.stop_discovery && a.status is None && !a.shutdown,
        ManagerEvent::ChannelClosed => after.scanning_spec()
            == before.scanning_spec() && a.shutdown && !a.start_discovery
            && !a.stop_discovery && a.status is None && a.command is None,
        ManagerEvent::DiscoveryStarted => after.scanning_spec() && a.status == Some(
            BluetoothStatus::Scanning,
        ) && !a.start_discovery && !a.stop_discovery && a.command is None && !a.shutdown,
        ManagerEvent::DiscoveryFailed { message } => if before.scanning_spec() {
            after.scanning_spec() && no_action(a)
        } else {
            &&& !after.scanning_spec()
            &&& a.status matches Some(BluetoothStatus::Error(m)) && m@
                == "Discovery failed: "@ + message@
            &&& !a.start_discovery && !a.stop_discovery && a.command is None
                && !a.shutdown
        },
        ManagerEvent::DiscoveryEnded => if before.scanning_spec() {
            !after.scanning_spec() && a.stop_discovery && a.status == Some(
                BluetoothStatus::Ready,
            ) && !a.start_discovery && a.command is None && !a.shutdown
        } else {
            !after.scanning_spec() && no_action(a)
        },
        ManagerEvent::Polled { audio_active } => if before.scanning_spec()
            && audio_active {
            !after.scanning_spec() && a.stop_discovery && a.status == Some(
                BluetoothStatus::Ready,
            ) && !a.start_discovery && a.command is None && !a.shutdown
        } else {
            after.scanning_spec() == before.scanning_spec() && no_action(a)
        },
    }
}

/// The adapter status after an action: the one it records, if any.
pub open spec fn status_after(status: BluetoothStatus, a: ManagerAction) -> BluetoothStatus {
    match a.status {
        Some(s) => s,
        None => status,
    }
}

/// The reported status is `Scanning` exactly while discovery runs: this holds
/// at first (discovery is off and the status is not `Scanning`) and every
/// step keeps it.
pub proof fn lemma_status_tracks_scanning(
    before: ScanControl,
    event: ManagerEvent,
    after: ScanControl,
    a: ManagerAction,
    status: BluetoothStatus,
)
    requires
        scan_step(before, event, after, a),
        (status == BluetoothStatus::Scanning) == before.scanning_spec(),
    ensures
        (status_after(status, a) == BluetoothStatus::Scanning) == after.scanning_spec(),
{
}

/// The state a device moves to after a property poll: a discovered device
/// that BlueZ reports connected becomes connected; a connected or streaming
/// device that BlueZ reports disconnected becomes disconnected.
pub open spec fn polled_state(connected: bool, state: DeviceState) -> Option<DeviceState> {
    if connected && state == DeviceState::Discovered {
        Some(DeviceState::Connected)
    } else if !connected && state != DeviceState::Disconnected && state
        != DeviceState::Discovered {
        Some(DeviceState::Disconnected)
    } else {
        None
    }
}

/// The state change a property poll calls for, if any.
pub fn poll_state_update(connected: bool, state: DeviceState) -> (r: Option<DeviceState>)
    ensures
        r == polled_state(connected, state),
{
    if connected && state == DeviceState::Discovered {
        Some(DeviceState::Connected)
    } else if !connected && state != DeviceState::Disconnected && state
        != DeviceState::Discovered {
        Some(DeviceState::Disconnected)
    } else {
        None
    }
}

/// A connected device whose audio source appeared in PipeWire is streaming.
pub fn audio_source_update(state: DeviceState) -> (r: Option<DeviceState>)
    ensures
        r == (if state == DeviceState::Connected {
            Some(DeviceState::AudioActive)
        } else {
            None
        }),
{
    if state == DeviceState::Connected {
        Some(DeviceState::AudioActive)
    } else {
        None
    }
}

/// The name recorded for a newly discovered device: its alias, unless that
/// is empty or MAC-shaped (not resolved yet).
pub fn discovered_name(alias: String) -> (r: String)
    ensures
        r@ == (if unresolved_name(alias@) {
            Seq::<char>::empty()
        } else {
            alias@
        }),
{
    let ac = chars_of(alias.as_str());
    if ac.len() == 0 || is_mac_address(alias.as_str()) {
        String::new()
    } else {
        alias
    }
}

/// Whether a polled alias should replace the recorded name: it is resolved
/// and differs from it.
pub fn alias_replaces_name(alias: &str, name: &str) -> (r: bool)
    ensures
        r == (!unresolved_name(alias@) && alias@ != name@),
{
    let ac = chars_of(alias);
    let nc = chars_of(name);
    ac.len() > 0 && !is_mac_address(alias) && !chars_eq(&ac, &nc)
}

/// The friendly name `hcitool name` printed: its output trimmed, unless that
/// is empty or MAC-shaped.
pub fn resolved_hcitool_name(stdout: &str) -> (r: Option<String>)
    ensures
        r.deep_view() == (if unresolved_name(trim(stdout@)) {
            None
        } else {
            Some(trim(stdout@))
        }),
{
    let cs = chars_of(stdout);
    let (a, b) = trim_bounds(&cs);
    let name = string_of(&cs[a..b]);
    let nc = chars_of(name.as_str());
    if nc.len() == 0 || is_mac_address(name.as_str()) {
        None
    } else {
        Some(name)
    }
}

/// Number of bytes of the UTF-8 encoding of `c`.
pub open spec fn utf8_width(c: char) -> nat {
    if (c as u32) < 0x80 {
        1
    } else if (c as u32) < 0x800 {
        2
    } else if (c as u32) < 0x10000 {
        3
    } else {
        4
    }
}

/// Number of bytes of the UTF-8 encoding of `s`.
pub open spec fn utf8_len(s: Seq<char>) -> nat
    decreases s.len(),
{
    if s.len() == 0 {
        0
    } else {
        utf8_len(s.drop_last()) + utf8_width(s.last())
    }
}

/// The address in a PipeWire Bluetooth source name
/// (`bluez_input.44_4A_DB_B4_E7_0D` → `44:4A:DB:B4:E7:0D`): the first 17
/// characters after the prefix, when they take 17 bytes, with `_` turned
/// into `:`.
pub open spec fn address_of_bt_source(source: Seq<char>) -> Option<Seq<char>> {
    let rest = if starts_with(source, "bluez_input."@) {
        Some(source.skip(12))
    } else if starts_with(source, "bluez_source."@) {
        Some(source.skip(13))
    } else {
        None
    };
    match rest {
        Some(name) => {
            let mac = name.take(if name.len() < 17 {
                name.len() as int
            } else {
                17
            });
            if utf8_len(mac) == 17 {
                Some(replace_char(mac, '_', ':'))
            } else {
                None
            }
        },
        None => None,
    }
}

fn utf8_len_exec(s: &[char]) -> (n: usize)
    requires
        s@.len() <= 17,
    ensures
        n == utf8_len(s@),
{
    let mut n: usize = 0;
    let mut i: usize = 0;
    proof {
        assert(s@.take(0) =~= Seq::<char>::empty());
    }
    while i < s.len()
        invariant
            0 <= i <= s@.len(),
            s@.len() <= 17,
            n == utf8_len(s@.take(i as int)),
            n <= 4 * i,
        decreases s.len() - i,
    {
        let c = s[i] as u32;
        let w: usize = if c < 0x80 {
            1
        } else if c < 0x800 {
            2
        } else if c < 0x10000 {
            3
        } else {
            4
        };
        proof {
            assert(s@.take(i + 1).drop_last() =~= s@.take(i as int));
        }
        n = n + w;
        i = i + 1;
    }
    assert(s@.take(s@.len() as int) =~= s@);
    n
}

/// Extract the MAC address from a bluez source name.
pub fn extract_address_from_bt_source(source: &str) -> (r: Option<String>)
    ensures
        r.deep_view() == address_of_bt_source(source@),
{
    let cs = chars_of(source);
    let input = chars_of("bluez_input.");
    let output = chars_of("bluez_source.");
    proof {
        reveal_strlit("bluez_input.");
        reveal_strlit("bluez_source.");
    }
    let start: usize = if starts_with_exec(&cs, &input) {
        12
    } else if starts_with_exec(&cs, &output) {
        13
    } else {
        return None;
    };
    let name = &cs[start..cs.len()];
    assert(name@ =~= source@.skip(start as int));
    let take = if name.len() < 17 {
        name.len()
    } else {
        17
    };
    let mac = &name[0..take];
    assert(mac@ =~= name@.take(take as int));
    if utf8_len_exec(mac) == 17 {
        let v = replace_char_exec(mac, '_', ':');
        Some(string_of(&v))
    } else {
        None
    }
}

} // verus!
