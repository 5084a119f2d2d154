//! Discovery helpers and the device registry: what the receiver records
//! when a device is discovered, renamed, changes state, streams or goes away,
//! and the event each change announces.
use vstd::prelude::*;

use crate::bluetooth::codecs::AudioCodec;
use crate::bluetooth::device::{
    clone_string_opt, classify, classify_device, has_a2dp_source_uuid, has_a2dp_source_uuid_spec, has_classic_uuid, has_classic_uuid_spec,
    DeviceInfo, DeviceKind, DeviceState,
};
use crate::text::{
    chars_eq, chars_of, char_is_hex_digit, contains, contains_exec, eq_str, is_hex_digit,
    lowercase, range_views, split, split_ranges, starts_with, starts_with_exec,
    to_lowercase,
};

verus! {

// ---------------------------------------------------------------------------
// Helpers
// ---------------------------------------------------------------------------

/// The separator a MAC-shaped string uses: `:` if present, else `-`.
pub open spec fn mac_separator(s: Seq<char>) -> Option<char> {
    if contains(s, seq![':']) {
        Some(':')
    } else if contains(s, seq!['-']) {
        Some('-')
    } else {
        None
    }
}

pub open spec fn is_hex_pair(p: Seq<char>) -> bool {
    p.len() == 2 && is_hex_digit(p[0]) && is_hex_digit(p[1])
}

/// Six pairs of hex digits separated by `:` (or, absent any `:`, by `-`).
pub open spec fn is_mac(s: Seq<char>) -> bool {
    match mac_separator(s) {
        Some(sep) => split(s, sep).len() == 6 && forall|i: int|
            0 <= i < 6 ==> is_hex_pair(#[trigger] split(s, sep)[i]),
        None => false,
    }
}

/// Check if a string looks like a MAC address (colon or dash separated).
/// BlueZ returns `XX-XX-XX-XX-XX-XX` as the alias when no friendly name is
/// known, while internal addresses use `XX:XX:XX:XX:XX:XX`.
pub fn is_mac_address(s: &str) -> (r: bool)
    ensures
        r == is_mac(s@),
{
    let c = chars_of(s);
    let sep: char = if contains_exec(&c, &[':']) {
        ':'
    } else if contains_exec(&c, &['-']) {
        '-'
    } else {
        proof {
            assert(seq![':'] =~= [':']@);
            assert(seq!['-'] =~= ['-']@);
        }
        return false;
    };
    proof {
        assert(seq![':'] =~= [':']@);
        assert(seq!['-'] =~= ['-']@);
    }
    let parts = split_ranges(&c, sep);
    if parts.len() != 6 {
        return false;
    }
    let ghost views = range_views(c@, parts@);
    let mut i: usize = 0;
    while i < 6
        invariant
            0 <= i <= 6,
            parts@.len() == 6,
            c@ == s@,
            mac_separator(s@) == Some(sep),
            views == split(c@, sep),
            views == range_views(c@, parts@),
            forall|k: int| 0 <= k < parts@.len() ==> #[trigger] parts@[k].0 <= parts@[k].1
                && parts@[k].1 <= c@.len(),
            forall|k: int| 0 <= k < i ==> is_hex_pair(#[trigger] views[k]),
        decreases 6 - i,
    {
        let (a, b) = parts[i];
        assert(views[i as int] == c@.subrange(a as int, b as int));
        if b - a != 2 || !char_is_hex_digit(c[a]) || !char_is_hex_digit(c[a + 1]) {
            assert(!is_hex_pair(views[i as int]));
            return false;
        }
        i = i + 1;
    }
    true
}

pub open spec fn is_a2dp_uuid_spec(u: Seq<char>) -> bool {
    u == "0000110b-0000-1000-8000-00805f9b34fb"@ || u == "0000110a-0000-1000-8000-00805f9b34fb"@
}

pub open spec fn has_a2dp(uuids: Seq<String>) -> bool {
    exists|i: int| 0 <= i < uuids.len() && is_a2dp_uuid_spec(lowercase(#[trigger] uuids[i]@))
}

/// Whether a UUID, already lowercased, is the A2DP sink or source UUID.
pub fn is_a2dp_uuid(lower_uuid: &str) -> (r: bool)
    ensures
        r == is_a2dp_uuid_spec(lower_uuid@),
{
    let lc = chars_of(lower_uuid);
    eq_str(&lc, "0000110b-0000-1000-8000-00805f9b34fb") || eq_str(
        &lc,
        "0000110a-0000-1000-8000-00805f9b34fb",
    )
}

/// Check if a set of UUIDs contains A2DP-related profiles.
pub fn has_a2dp_uuid(uuids: &[String]) -> (r: bool)
    ensures
        r == has_a2dp(uuids@),
{
    let mut i: usize = 0;
    while i < uuids.len()
        invariant
            0 <= i <= uuids@.len(),
            forall|j: int| 0 <= j < i ==> !is_a2dp_uuid_spec(lowercase(#[trigger] uuids@[j]@)),
        decreases uuids.len() - i,
    {
        let lower = to_lowercase(uuids[i].as_str());
        if is_a2dp_uuid(lower.as_str()) {
            assert(is_a2dp_uuid_spec(lowercase(uuids@[i as int]@)));
            return true;
        }
        i = i + 1;
    }
    false
}

pub open spec fn bluez_node_prefixes() -> Seq<Seq<char>> {
    seq!["bluez_input."@, "bluez_source."@, "api.bluez5."@]
}

pub open spec fn is_bluetooth_node(name: Seq<char>) -> bool {
    exists|i: int| 0 <= i < 3 && starts_with(name, #[trigger] bluez_node_prefixes()[i])
}

/// Check if a PipeWire node name matches a known Bluetooth audio prefix.
pub fn is_bluetooth_audio_node(node_name: &str) -> (r: bool)
    ensures
        r == is_bluetooth_node(node_name@),
{
    let n = chars_of(node_name);
    let p0 = chars_of("bluez_input.");
    let p1 = chars_of("bluez_source.");
    let p2 = chars_of("api.bluez5.");
    let r = starts_with_exec(&n, &p0) || starts_with_exec(&n, &p1) || starts_with_exec(&n, &p2);
    proof {
        let ps = bluez_node_prefixes();
        assert(ps[0] == p0@ && ps[1] == p1@ && ps[2] == p2@);
        if !r {
            assert forall|i: int| 0 <= i < 3 implies !starts_with(n@, #[trigger] ps[i]) by {
            }
        }
    }
    r
}

/// Extra signals collected at discovery time used to classify the device
/// as BLE vs Classic Bluetooth. All fields are best-effort.
#[derive(Debug, Clone)]
pub struct DiscoverySignals {
    /// BlueZ AddressType ("public" or "random").
    pub address_type: Option<String>,
    /// Class of Device — only present for BR/EDR devices.
    pub class_of_device: Option<u32>,
    /// GAP Appearance — typically only present for LE devices.
    pub has_appearance: bool,
}

impl Default for DiscoverySignals {
    fn default() -> (r: Self)
        ensures
            r.address_type is None,
            r.class_of_device is None,
            !r.has_appearance,
    {
        DiscoverySignals { address_type: None, class_of_device: None, has_appearance: false }
    }
}

pub open spec fn signals_kind(uuids: Seq<String>, signals: DiscoverySignals) -> DeviceKind {
    classify(signals.address_type.deep_view(), signals.class_of_device, uuids, signals.has_appearance)
}

fn signals_classify(uuids: &[String], signals: &DiscoverySignals) -> (r: DeviceKind)
    ensures
        r == signals_kind(uuids@, *signals),
{
    match &signals.address_type {
        Some(t) => classify_device(
            Some(t.as_str()),
            signals.class_of_device,
            uuids,
            signals.has_appearance,
        ),
        None => classify_device(None, signals.class_of_device, uuids, signals.has_appearance),
    }
}

// ---------------------------------------------------------------------------
// Registry
// ---------------------------------------------------------------------------

/// What a registry change announces.
#[derive(Debug, Clone)]
pub enum DeviceEvent {
    Discovered { address: String, name: String, rssi: Option<i16> },
    StateChanged { address: String, name: String, state: DeviceState },
    Removed { address: String },
    StreamStarted { address: String, codec: AudioCodec },
    StreamStopped { address: String },
}

/// The known devices, at most one per address, and the device that is
/// streaming audio, if any (always one of the known devices).
pub struct DeviceRegistry {
    devices: Vec<DeviceInfo>,
    active_device: Option<String>,
}

pub open spec fn has_address(devs: Seq<DeviceInfo>, a: Seq<char>) -> bool {
    exists|i: int| 0 <= i < devs.len() && (#[trigger] devs[i]).address@ == a
}

pub open spec fn at_address(devs: Seq<DeviceInfo>, a: Seq<char>, i: int) -> bool {
    0 <= i < devs.len() && devs[i].address@ == a
}

pub open spec fn distinct_addresses(devs: Seq<DeviceInfo>) -> bool {
    forall|i: int, j: int|
        0 <= i < devs.len() && 0 <= j < devs.len() && i != j ==> (#[trigger] devs[i]).address@
            != (#[trigger] devs[j]).address@
}

pub open spec fn registry_ok(devs: Seq<DeviceInfo>, active: Option<String>) -> bool {
    &&& distinct_addresses(devs)
    &&& (active matches Some(a) ==> has_address(devs, a@))
}

/// A positive Classic signal: a Class of Device, or a Classic service UUID.
pub open spec fn classic_signal(uuids: Seq<String>, signals: DiscoverySignals) -> bool {
    signals.class_of_device is Some || has_classic_uuid_spec(uuids)
}

/// Kind recorded when a device is discovered: a device counts as BLE until a
/// positive Classic signal is seen, and stays Classic from then on. A device
/// seen for the first time counts as BLE before the scan.
pub open spec fn kind_after_discovery(old: DeviceKind, classic: bool) -> DeviceKind {
    if old == DeviceKind::Classic || classic {
        DeviceKind::Classic
    } else {
        DeviceKind::Ble
    }
}

/// Kind recorded by a property re-read: only BLE → Classic upgrades.
pub open spec fn kind_after_refresh(old: DeviceKind, fresh: DeviceKind) -> DeviceKind {
    if old == DeviceKind::Ble && fresh == DeviceKind::Classic {
        DeviceKind::Classic
    } else {
        old
    }
}

/// Once Classic, a device stays Classic whatever later scans report.
pub proof fn lemma_classic_is_sticky(classic: bool, fresh: DeviceKind)
    ensures
        kind_after_discovery(DeviceKind::Classic, classic) == DeviceKind::Classic,
        kind_after_refresh(DeviceKind::Classic, fresh) == DeviceKind::Classic,
{
}

/// Addresses of the devices whose name is unresolved, in order.
pub open spec fn unresolved_addresses_of(devs: Seq<DeviceInfo>) -> Seq<Seq<char>>
    decreases devs.len(),
{
    if devs.len() == 0 {
        Seq::empty()
    } else {
        let r = unresolved_addresses_of(devs.drop_last());
        if unresolved_name(devs.last().name@) {
            r.push(devs.last().address@)
        } else {
            r
        }
    }
}

/// A device the rest of the receiver should treat as connected.
pub open spec fn is_connected_state(s: DeviceState) -> bool {
    s == DeviceState::Connected || s == DeviceState::AudioActive
}

/// `i` is the first position of a connected or audio-active device.
pub open spec fn first_connected_at(devs: Seq<DeviceInfo>, i: int) -> bool {
    &&& 0 <= i < devs.len()
    &&& is_connected_state(devs[i].state)
    &&& forall|j: int| 0 <= j < i ==> !is_connected_state((#[trigger] devs[j]).state)
}

/// Empty or MAC-shaped: a name BlueZ has not resolved yet.
pub open spec fn unresolved_name(n: Seq<char>) -> bool {
    n.len() == 0 || is_mac(n)
}

impl DeviceRegistry {
    /// At most one device per address; the active device is a known one.
    pub open spec fn wf(&self) -> bool {
        registry_ok(self.devs(), self.active())
    }

    /// The known devices, in order of first discovery.
    pub closed spec fn devs(&self) -> Seq<DeviceInfo> {
        self.devices@
    }

    /// The device streaming audio, if any.
    pub closed spec fn active(&self) -> Option<String> {
        self.active_device
    }

    pub fn new() -> (r: Self)
        ensures
            r.devs().len() == 0,
            r.active() is None,
            r.wf(),
    {
        DeviceRegistry { devices: Vec::new(), active_device: None }
    }

    pub fn devices(&self) -> (r: &Vec<DeviceInfo>)
        ensures
            r@ == self.devs(),
    {
        &self.devices
    }

    pub fn active_device(&self) -> (r: Option<String>)
        ensures
            r.deep_view() == self.active().deep_view(),
    {
        match &self.active_device {
            Some(a) => Some(a.clone()),
            None => None,
        }
    }

    pub fn len(&self) -> (r: usize)
        ensures
            r == self.devs().len(),
    {
        self.devices.len()
    }

    fn index_of(&self, address: &[char]) -> (r: Option<usize>)
        ensures
            match r {
                Some(i) => at_address(self.devs(), address@, i as int),
                None => !has_address(self.devs(), address@),
            },
    {
        let mut i: usize = 0;
        while i < self.devices.len()
            invariant
                0 <= i <= self.devices@.len(),
                forall|j: int| 0 <= j < i ==> (#[trigger] self.devices@[j]).address@ != address@,
            decreases self.devices.len() - i,
        {
            let a = chars_of(self.devices[i].address.as_str());
            if chars_eq(&a, address) {
                return Some(i);
            }
            i = i + 1;
        }
        None
    }

    /// The device with this address, if known.
    pub fn get(&self, address: &str) -> (r: Option<&DeviceInfo>)
        ensures
            match r {
                Some(d) => exists|i: int| at_address(self.devs(), address@, i) && self.devs()[i] == *d,
                None => !has_address(self.devs(), address@),
            },
    {
        let a = chars_of(address);
        match self.index_of(&a) {
            Some(i) => Some(&self.devices[i]),
            None => None,
        }
    }

    /// Record a discovered device: add it if unknown, with the kind its
    /// signals give; keep a known name when the new one is empty; take the new
    /// RSSI and A2DP flag; keep the A2DP source flag once seen; let a BLE
    /// device become Classic but never the reverse. Announces the device with
    /// its resolved name.
    pub fn handle_device_discovered(
        &mut self,
        address: String,
        name: String,
        rssi: Option<i16>,
        uuids: &[String],
        signals: &DiscoverySignals,
        now_ms: i64,
    ) -> (ev: DeviceEvent)
        requires
            old(self).wf(),
        ensures
            final(self).wf(),
            final(self).active() == old(self).active(),
            has_address(old(self).devs(), address@) ==> final(self).devs().len() == old(self).devs().len(),
            !has_address(old(self).devs(), address@) ==> final(self).devs().len() == old(self).devs().len()
                + 1 && final(self).devs().last().address@ == address@ && final(self).devs().last().state
                == DeviceState::Discovered && final(self).devs().last().name@ == name@
                && final(self).devs().last().device_type == (if classic_signal(uuids@, *signals) {
                DeviceKind::Classic
            } else {
                DeviceKind::Ble
            }) && !final(self).devs().last().trusted && final(self).devs().last().codec is None
                && final(self).devs().last().pipewire_node is None,
            exists|i: int|
                {
                    &&& at_address(final(self).devs(), address@, i)
                    &&& #[trigger] final(self).devs()[i].rssi == rssi
                    &&& final(self).devs()[i].last_seen == now_ms
                    &&& final(self).devs()[i].has_a2dp == has_a2dp(uuids@)
                    &&& (forall|j: int|
                        0 <= j < final(self).devs().len() && j != i ==> final(self).devs()[j] == old(self).devs()[j])
                    &&& (at_address(old(self).devs(), address@, i) ==> {
                        let d = old(self).devs()[i];
                        &&& final(self).devs()[i].name@ == (if name@.len() > 0 {
                            name@
                        } else {
                            d.name@
                        })
                        &&& final(self).devs()[i].is_a2dp_source == (d.is_a2dp_source
                            || has_a2dp_source_uuid_spec(uuids@))
                        &&& final(self).devs()[i].device_type == kind_after_discovery(
                            d.device_type,
                            classic_signal(uuids@, *signals),
                        )
                        &&& final(self).devs()[i].state == d.state
                        &&& final(self).devs()[i].trusted == d.trusted
                        &&& final(self).devs()[i].codec == d.codec
                        &&& final(self).devs()[i].pipewire_node == d.pipewire_node
                    })
                    &&& (!has_address(old(self).devs(), address@) ==> final(self).devs()[i].is_a2dp_source
                        == has_a2dp_source_uuid_spec(uuids@))
                    &&& ev matches DeviceEvent::Discovered { address: a, name: n, rssi: r } && a@
                        == address@ && n@ == final(self).devs()[i].name@ && r == rssi
                },
    {
        let ghost orig = self.devices@;
        let has = has_a2dp_uuid(uuids);
        let is_source = has_a2dp_source_uuid(uuids);
        let classic = signals.class_of_device.is_some() || has_classic_uuid(uuids);
        let addr_chars = chars_of(address.as_str());
        let name_empty = name.as_str().is_empty();
        let idx = self.index_of(&addr_chars);
        let i = match idx {
            Some(i) => i,
            None => {
                let mut d = DeviceInfo::new(address.clone(), name.clone(), now_ms);
                // A fresh device starts as BLE: only a positive Classic signal
                // makes it Classic.
                d.device_type = DeviceKind::Ble;
                let ghost before = self.devices@;
                self.devices.push(d);
                proof {
                    assert forall|p: int, q: int|
                        0 <= p < self.devices@.len() && 0 <= q < self.devices@.len() && p != q
                            implies (#[trigger] self.devices@[p]).address@
                            != (#[trigger] self.devices@[q]).address@ by {
                        if p < before.len() && q < before.len() {
                            assert(self.devices@[p] == before[p]);
                            assert(self.devices@[q] == before[q]);
                        } else if p < before.len() {
                            assert(self.devices@[p] == before[p]);
                        } else {
                            assert(self.devices@[q] == before[q]);
                        }
                    }
                    if let Some(a) = &self.active_device {
                        let k = choose|k: int| 0 <= k < before.len() && (#[trigger] before[k]).address@ == a@;
                        assert(self.devices@[k] == before[k]);
                    }
                }
                self.devices.len() - 1
            },
        };
        let ghost mid = self.devices@;
        let mut d = self.devices[i].clone_info();
        if !name_empty {
            d.name = name;
        }
        d.rssi = rssi;
        d.has_a2dp = has;
        if is_source {
            d.is_a2dp_source = true;
        }
        if classic {
            d.device_type = DeviceKind::Classic;
        }
        d.last_seen = now_ms;
        let resolved = d.name.clone();
        assert(d.address@ == address@);
        self.devices.set(i, d);
        proof {
            assert forall|p: int, q: int|
                0 <= p < self.devices@.len() && 0 <= q < self.devices@.len() && p != q
                    implies (#[trigger] self.devices@[p]).address@
                    != (#[trigger] self.devices@[q]).address@ by {
                assert(self.devices@[p].address@ == mid[p].address@);
                assert(self.devices@[q].address@ == mid[q].address@);
            }
            if let Some(a) = &self.active_device {
                let k = choose|k: int| 0 <= k < mid.len() && (#[trigger] mid[k]).address@ == a@;
                assert(self.devices@[k].address@ == mid[k].address@);
            }
        }
        proof {
            let fin = self.devices@;
            assert(fin[i as int].address@ == address@);
            assert(fin[i as int].rssi == rssi);
            assert forall|j: int| 0 <= j < fin.len() && j != i implies fin[j] == orig[j] by {
                assert(fin[j] == mid[j]);
            }
            if has_address(orig, address@) {
                assert(i < orig.len());
                assert(mid[i as int] == orig[i as int]);
            } else {
                assert(i == orig.len());
            }
            assert(at_address(fin, address@, i as int));
        }
        DeviceEvent::Discovered { address, name: resolved, rssi }
    }

    fn replace_at(&mut self, i: usize, d: DeviceInfo)
        requires
            old(self).wf(),
            i < old(self).devs().len(),
            d.address@ == old(self).devs()[i as int].address@,
        ensures
            final(self).wf(),
            final(self).devs() == old(self).devs().update(i as int, d),
            final(self).active() == old(self).active(),
    {
        let ghost before = self.devices@;
        self.devices.set(i, d);
        proof {
            assert forall|p: int, q: int|
                0 <= p < self.devices@.len() && 0 <= q < self.devices@.len() && p != q
                    implies (#[trigger] self.devices@[p]).address@
                    != (#[trigger] self.devices@[q]).address@ by {
                assert(self.devices@[p].address@ == before[p].address@);
                assert(self.devices@[q].address@ == before[q].address@);
            }
            if let Some(a) = &self.active_device {
                let k = choose|k: int| 0 <= k < before.len() && (#[trigger] before[k]).address@ == a@;
                assert(self.devices@[k].address@ == before[k].address@);
            }
        }
    }

    /// Re-classify a known device from a fresh property read: BLE may become
    /// Classic, never the reverse; the A2DP source flag, once set, stays.
    pub fn refresh_classification(
        &mut self,
        address: &str,
        uuids: &[String],
        signals: &DiscoverySignals,
    )
        requires
            old(self).wf(),
        ensures
            final(self).wf(),
            final(self).active() == old(self).active(),
            !has_address(old(self).devs(), address@) ==> final(self).devs() == old(self).devs(),
            forall|i: int|
                #[trigger] at_address(old(self).devs(), address@, i) ==> final(self).devs()
                    == old(self).devs().update(
                    i,
                    DeviceInfo {
                        device_type: kind_after_refresh(
                            old(self).devs()[i].device_type,
                            signals_kind(uuids@, *signals),
                        ),
                        is_a2dp_source: old(self).devs()[i].is_a2dp_source
                            || has_a2dp_source_uuid_spec(uuids@),
                        ..old(self).devs()[i]
                    },
                ),
    {
        let new_kind = signals_classify(uuids, signals);
        let new_source = has_a2dp_source_uuid(uuids);
        let a = chars_of(address);
        if let Some(i) = self.index_of(&a) {
            let mut d = self.devices[i].clone_info();
            if d.device_type == DeviceKind::Ble && new_kind == DeviceKind::Classic {
                d.device_type = DeviceKind::Classic;
            }
            if new_source {
                d.is_a2dp_source = true;
            }
            self.replace_at(i, d);
            proof {
                assert forall|k: int| #[trigger] at_address(old(self).devs(), address@, k) implies k
                    == i by {
                }
            }
        }
    }

    /// Rename a known device. Empty or MAC-shaped names are refused (they
    /// mean BlueZ has not resolved the name yet), as is a name equal to the
    /// current one; otherwise the change is announced with the device state.
    pub fn update_device_name(&mut self, address: &str, name: String) -> (ev: Option<DeviceEvent>)
        requires
            old(self).wf(),
        ensures
            final(self).wf(),
            final(self).active() == old(self).active(),
            (unresolved_name(name@) || !has_address(old(self).devs(), address@)) ==> final(self).devs() == old(self).devs() && ev is None,
            forall|i: int|
                #[trigger] at_address(old(self).devs(), address@, i) && !unresolved_name(name@)
                    ==> if old(self).devs()[i].name@ == name@ {
                    final(self).devs() == old(self).devs() && ev is None
                } else {
                    &&& final(self).devs() == old(self).devs().update(
                        i,
                        DeviceInfo { name: name, ..old(self).devs()[i] },
                    )
                    &&& ev matches Some(DeviceEvent::StateChanged { address: a, name: n, state: st })
                    &&& a@ == address@ && n@ == name@ && st == old(self).devs()[i].state
                },
    {
        let nc = chars_of(name.as_str());
        if nc.len() == 0 || is_mac_address(name.as_str()) {
            return None;
        }
        let a = chars_of(address);
        match self.index_of(&a) {
            Some(i) => {
                let current = chars_of(self.devices[i].name.as_str());
                if chars_eq(&current, &nc) {
                    proof {
                        assert forall|k: int| #[trigger] at_address(old(self).devs(), address@, k)
                            implies k == i by {
                        }
                    }
                    return None;
                }
                let state = self.devices[i].state;
                let announced = name.clone();
                let mut d = self.devices[i].clone_info();
                d.name = name;
                self.replace_at(i, d);
                proof {
                    assert forall|k: int| #[trigger] at_address(old(self).devs(), address@, k)
                        implies k == i by {
                    }
                }
                Some(DeviceEvent::StateChanged { address: String::from_str(address), name: announced, state })
            },
            None => None,
        }
    }

    /// Move a known device to `new_state` (even along a transition the state
    /// machine does not list: BlueZ can skip states). Audio-active makes it
    /// the active device; disconnecting the active device clears it.
    pub fn update_device_state(&mut self, address: &str, new_state: DeviceState) -> (ev: Option<
        DeviceEvent,
    >)
        requires
            old(self).wf(),
        ensures
            final(self).wf(),
            !has_address(old(self).devs(), address@) ==> final(self).devs() == old(self).devs()
                && final(self).active() == old(self).active() && ev is None,
            forall|i: int|
                #[trigger] at_address(old(self).devs(), address@, i) ==> if old(self).devs()[i].state
                    == new_state {
                    final(self).devs() == old(self).devs() && final(self).active() == old(self).active() && ev is None
                } else {
                    &&& final(self).devs() == old(self).devs().update(
                        i,
                        DeviceInfo { state: new_state, ..old(self).devs()[i] },
                    )
                    &&& final(self).active().deep_view() == if new_state
                        == DeviceState::AudioActive {
                        Some(address@)
                    } else if new_state == DeviceState::Disconnected && old(self).active().deep_view() == Some(address@) {
                        None
                    } else {
                        old(self).active().deep_view()
                    }
                    &&& (new_state != DeviceState::AudioActive && !(new_state
                        == DeviceState::Disconnected && old(self).active().deep_view() == Some(
                        address@,
                    ))) ==> final(self).active() == old(self).active()
                    &&& ev matches Some(DeviceEvent::StateChanged { address: a, name: n, state: st })
                    &&& a@ == address@ && n@ == old(self).devs()[i].name@ && st == new_state
                },
    {
        let a = chars_of(address);
        match self.index_of(&a) {
            Some(i) => {
                proof {
                    assert forall|k: int| #[trigger] at_address(old(self).devs(), address@, k)
                        implies k == i by {
                    }
                }
                if self.devices[i].state == new_state {
                    return None;
                }
                let name = self.devices[i].name.clone();
                let mut d = self.devices[i].clone_info();
                d.state = new_state;
                self.replace_at(i, d);
                if new_state == DeviceState::AudioActive {
                    self.active_device = Some(String::from_str(address));
                    assert(at_address(self.devices@, address@, i as int));
                } else if new_state == DeviceState::Disconnected {
                    let clear = match &self.active_device {
                        Some(cur) => {
                            let cc = chars_of(cur.as_str());
                            chars_eq(&cc, &a)
                        },
                        None => false,
                    };
                    if clear {
                        self.active_device = None;
                    }
                }
                Some(DeviceEvent::StateChanged { address: String::from_str(address), name, state: new_state })
            },
            None => None,
        }
    }

    /// Forget a device; if it was the active device, there is none.
    pub fn remove_device(&mut self, address: &str) -> (ev: Option<DeviceEvent>)
        requires
            old(self).wf(),
        ensures
            final(self).wf(),
            !has_address(old(self).devs(), address@) ==> final(self).devs() == old(self).devs()
                && final(self).active() == old(self).active() && ev is None,
            forall|i: int|
                #[trigger] at_address(old(self).devs(), address@, i) ==> {
                    &&& final(self).devs() == old(self).devs().remove(i)
                    &&& final(self).active().deep_view() == if old(self).active().deep_view()
                        == Some(address@) {
                        None
                    } else {
                        old(self).active().deep_view()
                    }
                    &&& old(self).active().deep_view() != Some(address@) ==> final(self).active()
                        == old(self).active()
                    &&& ev matches Some(DeviceEvent::Removed { address: a }) && a@ == address@
                },
    {
        let a = chars_of(address);
        match self.index_of(&a) {
            Some(i) => {
                proof {
                    assert forall|k: int| #[trigger] at_address(old(self).devs(), address@, k)
                        implies k == i by {
                    }
                }
                let ghost before = self.devices@;
                let clear = match &self.active_device {
                    Some(cur) => {
                        let cc = chars_of(cur.as_str());
                        chars_eq(&cc, &a)
                    },
                    None => false,
                };
                let new_active = if clear {
                    None
                } else {
                    clone_string_opt(&self.active_device)
                };
                let mut devices = Vec::new();
                std::mem::swap(&mut devices, &mut self.devices);
                devices.remove(i);
                self.devices = devices;
                self.active_device = new_active;
                proof {
                    let after = self.devices@;
                    assert(after =~= before.remove(i as int));
                    assert forall|p: int, q: int|
                        0 <= p < after.len() && 0 <= q < after.len() && p != q implies (
                        #[trigger] after[p]).address@ != (#[trigger] after[q]).address@ by {
                        let p0 = if p < i {
                            p
                        } else {
                            p + 1
                        };
                        let q0 = if q < i {
                            q
                        } else {
                            q + 1
                        };
                        assert(after[p] == before[p0]);
                        assert(after[q] == before[q0]);
                    }
                    if let Some(act) = &self.active_device {
                        let k = choose|k: int|
                            0 <= k < before.len() && (#[trigger] before[k]).address@ == act@;
                        assert(k != i);
                        let k2 = if k < i {
                            k
                        } else {
                            k - 1
                        };
                        assert(after[k2] == before[k]);
                    }
                }
                Some(DeviceEvent::Removed { address: String::from_str(address) })
            },
            None => None,
        }
    }

    /// The media endpoint started a stream for a device: a known device
    /// becomes audio-active with that codec and is the active device.
    pub fn stream_started(&mut self, address: &str, codec: AudioCodec) -> (ev: DeviceEvent)
        requires
            old(self).wf(),
        ensures
            final(self).wf(),
            !has_address(old(self).devs(), address@) ==> final(self).devs() == old(self).devs()
                && final(self).active() == old(self).active(),
            forall|i: int|
                #[trigger] at_address(old(self).devs(), address@, i) ==> final(self).devs()
                    == old(self).devs().update(
                    i,
                    DeviceInfo {
                        state: DeviceState::AudioActive,
                        codec: Some(codec),
                        ..old(self).devs()[i]
                    },
                ) && final(self).active().deep_view() == Some(address@),
            ev matches DeviceEvent::StreamStarted { address: a, codec: c } && a@ == address@ && c
                == codec,
    {
        let a = chars_of(address);
        if let Some(i) = self.index_of(&a) {
            proof {
                assert forall|k: int| #[trigger] at_address(old(self).devs(), address@, k) implies k
                    == i by {
                }
            }
            let mut d = self.devices[i].clone_info();
            d.state = DeviceState::AudioActive;
            d.codec = Some(codec);
            self.replace_at(i, d);
            self.active_device = Some(String::from_str(address));
            assert(at_address(self.devices@, address@, i as int));
        }
        DeviceEvent::StreamStarted { address: String::from_str(address), codec }
    }

    /// The media endpoint stopped a device's stream: a known device returns
    /// to connected with no codec; the active device is cleared if it was it.
    pub fn stream_stopped(&mut self, address: &str) -> (ev: DeviceEvent)
        requires
            old(self).wf(),
        ensures
            final(self).wf(),
            !has_address(old(self).devs(), address@) ==> final(self).devs() == old(self).devs()
                && final(self).active() == old(self).active(),
            forall|i: int|
                #[trigger] at_address(old(self).devs(), address@, i) ==> {
                    &&& final(self).devs() == old(self).devs().update(
                        i,
                        DeviceInfo {
                            state: DeviceState::Connected,
                            codec: None,
                            ..old(self).devs()[i]
                        },
                    )
                    &&& final(self).active().deep_view() == if old(self).active().deep_view()
                        == Some(address@) {
                        None
                    } else {
                        old(self).active().deep_view()
                    }
                    &&& old(self).active().deep_view() != Some(address@) ==> final(self).active()
                        == old(self).active()
                },
            ev matches DeviceEvent::StreamStopped { address: a } && a@ == address@,
    {
        let a = chars_of(address);
        if let Some(i) = self.index_of(&a) {
            proof {
                assert forall|k: int| #[trigger] at_address(old(self).devs(), address@, k) implies k
                    == i by {
                }
            }
            let mut d = self.devices[i].clone_info();
            d.state = DeviceState::Connected;
            d.codec = None;
            self.replace_at(i, d);
            let clear = match &self.active_device {
                Some(cur) => {
                    let cc = chars_of(cur.as_str());
                    chars_eq(&cc, &a)
                },
                None => false,
            };
            if clear {
                self.active_device = None;
            }
        }
        DeviceEvent::StreamStopped { address: String::from_str(address) }
    }

    /// Whether some device is streaming audio.
    pub fn has_active_audio_stream(&self) -> (r: bool)
        ensures
            r == exists|i: int|
                0 <= i < self.devs().len() && (#[trigger] self.devs()[i]).state
                    == DeviceState::AudioActive,
    {
        let mut i: usize = 0;
        while i < self.devices.len()
            invariant
                0 <= i <= self.devices@.len(),
                forall|j: int|
                    0 <= j < i ==> (#[trigger] self.devices@[j]).state != DeviceState::AudioActive,
            decreases self.devices.len() - i,
        {
            if self.devices[i].state == DeviceState::AudioActive {
                assert(self.devs()[i as int].state == DeviceState::AudioActive);
                return true;
            }
            i = i + 1;
        }
        false
    }

    /// Whether there is an active device or a connected or audio-active one.
    pub fn has_connected_device(&self) -> (r: bool)
        ensures
            r == (self.active() is Some || exists|i: int|
                0 <= i < self.devs().len() && is_connected_state(
                    (#[trigger] self.devs()[i]).state,
                )),
    {
        if self.active_device.is_some() {
            return true;
        }
        match self.first_connected() {
            Some(_) => true,
            None => false,
        }
    }

    fn first_connected(&self) -> (r: Option<usize>)
        ensures
            match r {
                Some(i) => i < self.devs().len() && is_connected_state(self.devs()[i as int].state)
                    && forall|j: int|
                    0 <= j < i ==> !is_connected_state((#[trigger] self.devs()[j]).state),
                None => forall|j: int|
                    0 <= j < self.devs().len() ==> !is_connected_state(
                        (#[trigger] self.devs()[j]).state,
                    ),
            },
    {
        let mut i: usize = 0;
        while i < self.devices.len()
            invariant
                0 <= i <= self.devices@.len(),
                forall|j: int|
                    0 <= j < i ==> !is_connected_state((#[trigger] self.devices@[j]).state),
            decreases self.devices.len() - i,
        {
            let st = self.devices[i].state;
            if st == DeviceState::Connected || st == DeviceState::AudioActive {
                return Some(i);
            }
            i = i + 1;
        }
        None
    }

    /// Address of the device media commands go to: the active device, else
    /// the first connected or audio-active device.
    pub fn player_address(&self) -> (r: Option<String>)
        ensures
            self.active() is Some ==> r.deep_view() == self.active().deep_view(),
            self.active() is None && r is Some ==> exists|i: int|
                #[trigger] at_address(self.devs(), r->0@, i) && first_connected_at(self.devs(), i),
            self.active() is None && r is None ==> forall|j: int|
                0 <= j < self.devs().len() ==> !is_connected_state(
                    (#[trigger] self.devs()[j]).state,
                ),
    {
        match &self.active_device {
            Some(a) => Some(a.clone()),
            None => match self.first_connected() {
                Some(i) => {
                    let a = self.devices[i].address.clone();
                    assert(at_address(self.devs(), a@, i as int));
                    assert(first_connected_at(self.devs(), i as int));
                    let out = Some(a);
                    assert(at_address(self.devs(), out->0@, i as int));
                    assert(exists|k: int|
                        #[trigger] at_address(self.devs(), out->0@, k) && first_connected_at(self.devs(), k));
                    out
                },
                None => {
                    assert(forall|j: int|
                        0 <= j < self.devs().len() ==> !is_connected_state(
                            (#[trigger] self.devs()[j]).state,
                        ));
                    None
                },
            },
        }
    }

    /// Addresses of the devices whose name is still empty or MAC-shaped, in
    /// registry order.
    pub fn unresolved_addresses(&self) -> (r: Vec<String>)
        ensures
            r.deep_view() == unresolved_addresses_of(self.devs()),
    {
        let mut r: Vec<String> = Vec::new();
        let mut i: usize = 0;
        proof {
            assert(self.devices@.take(0) =~= Seq::<DeviceInfo>::empty());
            assert(r.deep_view() =~= Seq::<Seq<char>>::empty());
        }
        while i < self.devices.len()
            invariant
                0 <= i <= self.devices@.len(),
                r.deep_view() == unresolved_addresses_of(self.devices@.take(i as int)),
            decreases self.devices.len() - i,
        {
            let d = &self.devices[i];
            let nc = chars_of(d.name.as_str());
            let unresolved = nc.len() == 0 || is_mac_address(d.name.as_str());
            let ghost before = r.deep_view();
            if unresolved {
                r.push(d.address.clone());
                assert(r.deep_view() =~= before.push(d.address@));
            }
            assert(self.devices@.take(i + 1).drop_last() =~= self.devices@.take(i as int));
            i = i + 1;
        }
        assert(self.devices@.take(self.devices@.len() as int) =~= self.devices@);
        r
    }
}

} // verus!
