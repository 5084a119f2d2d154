//! Chromecast output: devices from mDNS records, the directory of discovered
//! devices, the stream URL, and the heartbeat and receiver checks.
use vstd::prelude::*;

use crate::text::{
    append_str, chars_eq, chars_of, contains, contains_exec, decimal, decimal_chars, eq_str,
    extend_chars, string_of,
};

verus! {

/// The app id of the Default Media Receiver.
pub const DEFAULT_MEDIA_RECEIVER_APP_ID: &'static str = "CC1AD845";

/// Consecutive heartbeat failures after which the session counts as lost.
pub const MAX_HEARTBEAT_FAILURES: u32 = 3;

/// A discovered Chromecast.
#[derive(Debug, Clone)]
pub struct CastDeviceInfo {
    pub id: String,
    pub name: String,
    pub address: String,
    pub port: u16,
    pub model: String,
}

/// A Chromecast as plain values.
pub struct CastView {
    pub id: Seq<char>,
    pub name: Seq<char>,
    pub address: Seq<char>,
    pub port: u16,
    pub model: Seq<char>,
}

impl View for CastDeviceInfo {
    type V = CastView;

    open spec fn view(&self) -> CastView {
        CastView {
            id: self.id@,
            name: self.name@,
            address: self.address@,
            port: self.port,
            model: self.model@,
        }
    }
}

impl CastDeviceInfo {
    /// A field-by-field copy.
    pub fn duplicate(&self) -> (r: Self)
        ensures
            r@ == self@,
    {
        CastDeviceInfo {
            id: self.id.clone(),
            name: self.name.clone(),
            address: self.address.clone(),
            port: self.port,
            model: self.model.clone(),
        }
    }
}

pub open spec fn cast_views(devs: Seq<CastDeviceInfo>) -> Seq<CastView> {
    devs.map_values(|d: CastDeviceInfo| d@)
}

/// The device a resolved `_googlecast._tcp` service describes: none without
/// an IPv4 address; the name from the `fn` property, else the full service
/// name; the model from `md`, else "Chromecast"; the id from `id`, else
/// `address:port`.
pub open spec fn cast_device_of(
    ipv4: Option<Seq<char>>,
    port: u16,
    fullname: Seq<char>,
    friendly_name: Option<Seq<char>>,
    model: Option<Seq<char>>,
    id: Option<Seq<char>>,
) -> Option<CastView> {
    match ipv4 {
        None => None,
        Some(addr) => Some(
            CastView {
                id: match id {
                    Some(i) => i,
                    None => addr + ":"@ + decimal(port as nat),
                },
                name: match friendly_name {
                    Some(n) => n,
                    None => fullname,
                },
                address: addr,
                port,
                model: match model {
                    Some(m) => m,
                    None => "Chromecast"@,
                },
            },
        ),
    }
}

/// Build the device for a resolved mDNS service from its first IPv4 address,
/// port, full name and `fn` / `md` / `id` TXT properties.
pub fn cast_device_from_service(
    ipv4: Option<String>,
    port: u16,
    fullname: &str,
    friendly_name: Option<String>,
    model: Option<String>,
    id: Option<String>,
) -> (r: Option<CastDeviceInfo>)
    ensures
        match r {
            Some(d) => cast_device_of(
                ipv4.deep_view(),
                port,
                fullname@,
                friendly_name.deep_view(),
                model.deep_view(),
                id.deep_view(),
            ) == Some(d@),
            None => cast_device_of(
                ipv4.deep_view(),
                port,
                fullname@,
                friendly_name.deep_view(),
                model.deep_view(),
                id.deep_view(),
            ) is None,
        },
{
    let addr = match ipv4 {
        Some(a) => a,
        None => {
            return None;
        },
    };
    let id = match id {
        Some(i) => i,
        None => {
            let mut v: Vec<char> = Vec::new();
            append_str(&mut v, addr.as_str());
            append_str(&mut v, ":");
            let digits = decimal_chars(port as u64);
            extend_chars(&mut v, &digits);
            string_of(&v)
        },
    };
    let name = match friendly_name {
        Some(n) => n,
        None => String::from_str(fullname),
    };
    let model = match model {
        Some(m) => m,
        None => String::from_str("Chromecast"),
    };
    Some(CastDeviceInfo { id, name, address: addr, port, model })
}

/// The URL the Chromecast is told to play: the MP3 stream of this server.
pub open spec fn stream_url_of(local_ip: Seq<char>, port: u16) -> Seq<char> {
    "http://"@ + local_ip + ":"@ + decimal(port as nat) + "/api/stream/audio.mp3"@
}

/// The URL the Chromecast is told to play.
pub fn stream_url(local_ip: &str, port: u16) -> (r: String)
    ensures
        r@ == stream_url_of(local_ip@, port),
{
    let mut v: Vec<char> = Vec::new();
    append_str(&mut v, "http://");
    append_str(&mut v, local_ip);
    append_str(&mut v, ":");
    let digits = decimal_chars(port as u64);
    extend_chars(&mut v, &digits);
    append_str(&mut v, "/api/stream/audio.mp3");
    string_of(&v)
}

/// Whether a receiver status lists the Default Media Receiver among its
/// running applications.
pub fn has_default_receiver(app_ids: &[String]) -> (r: bool)
    ensures
        r == exists|i: int|
            0 <= i < app_ids@.len() && (#[trigger] app_ids@[i])@
                == DEFAULT_MEDIA_RECEIVER_APP_ID@,
{
    let mut i: usize = 0;
    while i < app_ids.len()
        invariant
            0 <= i <= app_ids@.len(),
            forall|j: int|
                0 <= j < i ==> (#[trigger] app_ids@[j])@ != DEFAULT_MEDIA_RECEIVER_APP_ID@,
        decreases app_ids.len() - i,
    {
        let a = chars_of(app_ids[i].as_str());
        if eq_str(&a, DEFAULT_MEDIA_RECEIVER_APP_ID) {
            return true;
        }
        i = i + 1;
    }
    false
}

/// Consecutive heartbeat failures of a session.
pub struct HeartbeatMonitor {
    failures: u32,
}

impl HeartbeatMonitor {
    pub closed spec fn failures_spec(&self) -> u32 {
        self.failures
    }

    pub open spec fn wf(&self) -> bool {
        self.failures_spec() < MAX_HEARTBEAT_FAILURES
    }

    pub fn new() -> (r: Self)
        ensures
            r.wf(),
            r.failures_spec() == 0,
    {
        HeartbeatMonitor { failures: 0 }
    }

    /// Record one heartbeat: a success resets the count; a failure adds one.
    /// Returns whether the connection is now lost (three failures in a row).
    pub fn record(&mut self, ok: bool) -> (lost: bool)
        requires
            old(self).wf(),
        ensures
            lost == (!ok && old(self).failures_spec() + 1 >= MAX_HEARTBEAT_FAILURES),
            ok ==> final(self).failures_spec() == 0,
            !ok ==> final(self).failures_spec() == old(self).failures_spec() + 1,
            !lost ==> final(self).wf(),
    {
        if ok {
            self.failures = 0;
            false
        } else {
            self.failures = self.failures + 1;
            self.failures >= MAX_HEARTBEAT_FAILURES
        }
    }
}

/// The entry of `ds` with id `id`, if any.
pub open spec fn lookup_id(ds: Seq<CastView>, id: Seq<char>) -> Option<CastView> {
    if exists|i: int| 0 <= i < ds.len() && (#[trigger] ds[i]).id == id {
        Some(ds[choose|i: int| 0 <= i < ds.len() && (#[trigger] ds[i]).id == id])
    } else {
        None
    }
}

pub open spec fn distinct_ids(ds: Seq<CastView>) -> bool {
    forall|i: int, j: int|
        0 <= i < ds.len() && 0 <= j < ds.len() && i != j ==> (#[trigger] ds[i]).id
            != (#[trigger] ds[j]).id
}

/// A removed service matches a device whose name or id occurs in the
/// service's full name.
pub open spec fn removal_matches(fullname: Seq<char>, d: CastView) -> bool {
    contains(fullname, d.name) || contains(fullname, d.id)
}

/// The Chromecasts discovered so far, one per id, in order of first
/// discovery.
pub struct CastDirectory {
    devices: Vec<CastDeviceInfo>,
}

impl CastDirectory {
    pub closed spec fn entries(&self) -> Seq<CastView> {
        cast_views(self.devices@)
    }

    pub open spec fn wf(&self) -> bool {
        distinct_ids(self.entries())
    }

    pub open spec fn lookup(&self, id: Seq<char>) -> Option<CastView> {
        lookup_id(self.entries(), id)
    }

    pub fn new() -> (r: Self)
        ensures
            r.wf(),
            r.entries().len() == 0,
    {
        let r = CastDirectory { devices: Vec::new() };
        assert(r.entries() =~= Seq::<CastView>::empty());
        r
    }

    fn position(&self, id: &str) -> (r: Option<usize>)
        requires
            self.wf(),
        ensures
            match r {
                Some(i) => i < self.entries().len() && self.entries()[i as int].id == id@,
                None => forall|i: int|
                    0 <= i < self.entries().len() ==> (#[trigger] self.entries()[i]).id != id@,
            },
    {
        let ic = chars_of(id);
        let mut i: usize = 0;
        while i < self.devices.len()
            invariant
                0 <= i <= self.devices@.len(),
                ic@ == id@,
                forall|k: int| 0 <= k < i ==> (#[trigger] self.entries()[k]).id != id@,
            decreases self.devices.len() - i,
        {
            let dc = chars_of(self.devices[i].id.as_str());
            if chars_eq(&dc, &ic) {
                return Some(i);
            }
            i = i + 1;
        }
        None
    }

    /// Record a discovered device; one already known under the same id is
    /// replaced in place.
    pub fn insert(&mut self, device: CastDeviceInfo)
        requires
            old(self).wf(),
        ensures
            final(self).wf(),
            final(self).lookup(device.id@) == Some(device@),
            forall|n: Seq<char>| n != device.id@ ==> final(self).lookup(n) == old(self).lookup(n),
            lookup_id(old(self).entries(), device.id@) is Some ==> final(self).entries().len()
                == old(self).entries().len(),
            lookup_id(old(self).entries(), device.id@) is None ==> final(self).entries()
                == old(self).entries().push(device@),
    {
        let ghost before = self.entries();
        let ghost dv = device@;
        match self.position(device.id.as_str()) {
            Some(i) => {
                self.devices.set(i, device);
                proof {
                    assert(self.entries() =~= before.update(i as int, dv));
                    assert forall|n: Seq<char>| n != dv.id implies #[trigger] lookup_id(
                        self.entries(),
                        n,
                    ) == lookup_id(before, n) by {
                        if exists|k: int| 0 <= k < before.len() && (#[trigger] before[k]).id == n {
                            let k = choose|k: int| 0 <= k < before.len() && (#[trigger] before[k]).id == n;
                            assert(self.entries()[k].id == n);
                        }
                        if exists|k: int|
                            0 <= k < self.entries().len() && (#[trigger] self.entries()[k]).id == n {
                            let k = choose|k: int|
                                0 <= k < self.entries().len() && (#[trigger] self.entries()[k]).id == n;
                            assert(before[k].id == n);
                        }
                    }
                    assert(self.entries()[i as int].id == dv.id);
                }
            },
            None => {
                self.devices.push(device);
                proof {
                    assert(self.entries() =~= before.push(dv));
                    assert forall|n: Seq<char>| n != dv.id implies #[trigger] lookup_id(
                        self.entries(),
                        n,
                    ) == lookup_id(before, n) by {
                        if exists|k: int| 0 <= k < before.len() && (#[trigger] before[k]).id == n {
                            let k = choose|k: int| 0 <= k < before.len() && (#[trigger] before[k]).id == n;
                            assert(self.entries()[k].id == n);
                        }
                    }
                    assert(self.entries()[before.len() as int].id == dv.id);
                }
            },
        }
    }

    /// The device recorded under `id`.
    pub fn get(&self, id: &str) -> (r: Option<CastDeviceInfo>)
        requires
            self.wf(),
        ensures
            match r {
                Some(d) => self.lookup(id@) == Some(d@),
                None => self.lookup(id@) is None,
            },
    {
        match self.position(id) {
            Some(i) => Some(self.devices[i].duplicate()),
            None => None,
        }
    }

    /// The device a connect request names, or the error reported for an
    /// unknown one.
    pub fn connect_target(&self, id: &str) -> (r: Result<CastDeviceInfo, String>)
        requires
            self.wf(),
        ensures
            match r {
                Ok(d) => self.lookup(id@) == Some(d@),
                Err(e) => self.lookup(id@) is None && e@ == "Device not found: "@ + id@,
            },
    {
        match self.get(id) {
            Some(d) => Ok(d),
            None => {
                let mut v: Vec<char> = Vec::new();
                append_str(&mut v, "Device not found: ");
                append_str(&mut v, id);
                Err(string_of(&v))
            },
        }
    }

    /// Forget the first device the removed service `fullname` matches, and
    /// return its id.
    pub fn remove_matching(&mut self, fullname: &str) -> (r: Option<String>)
        requires
            old(self).wf(),
        ensures
            final(self).wf(),
            match r {
                Some(id) => exists|i: int|
                    0 <= i < old(self).entries().len() && (forall|j: int|
                        0 <= j < i ==> !removal_matches(fullname@, #[trigger] old(self).entries()[j]))
                        && removal_matches(fullname@, old(self).entries()[i])
                        && old(self).entries()[i].id == id@ && final(self).entries()
                        == old(self).entries().remove(i),
                None => final(self).entries() == old(self).entries() && forall|j: int|
                    0 <= j < old(self).entries().len() ==> !removal_matches(
                        fullname@,
                        #[trigger] old(self).entries()[j],
                    ),
            },
    {
        let fc = chars_of(fullname);
        let mut i: usize = 0;
        while i < self.devices.len()
            invariant
                0 <= i <= self.devices@.len(),
                fc@ == fullname@,
                self.entries() == old(self).entries(),
                self.devices@ == old(self).devices@,
                self.wf(),
                forall|j: int| 0 <= j < i ==> !removal_matches(fullname@, #[trigger] self.entries()[j]),
            decreases self.devices.len() - i,
        {
            let nc = chars_of(self.devices[i].name.as_str());
            let ic = chars_of(self.devices[i].id.as_str());
            if contains_exec(&fc, &nc) || contains_exec(&fc, &ic) {
                let ghost before = self.entries();
                let ghost before_devs = self.devices@;
                let removed = self.devices.remove(i);
                proof {
                    assert(self.devices@ == before_devs.remove(i as int));
                    assert(self.entries() =~= before.remove(i as int));
                    assert forall|p: int, q: int|
                        0 <= p < self.entries().len() && 0 <= q < self.entries().len() && p != q
                            implies (#[trigger] self.entries()[p]).id != (
                        #[trigger] self.entries()[q]).id by {
                        let pp = if p < i { p } else { p + 1 };
                        let qq = if q < i { q } else { q + 1 };
                        assert(self.entries()[p] == before[pp]);
                        assert(self.entries()[q] == before[qq]);
                    }
                    assert(removal_matches(fullname@, before[i as int]));
                    assert(before[i as int].id == removed.id@);
                }
                return Some(removed.id);
            }
            i = i + 1;
        }
        None
    }

    /// The recorded devices, in order of first discovery.
    pub fn devices(&self) -> (r: Vec<CastDeviceInfo>)
        ensures
            cast_views(r@) == self.entries(),
    {
        let mut r: Vec<CastDeviceInfo> = Vec::new();
        let mut i: usize = 0;
        while i < self.devices.len()
            invariant
                0 <= i <= self.devices@.len(),
                cast_views(r@) == self.entries().take(i as int),
            decreases self.devices.len() - i,
        {
            let d = self.devices[i].duplicate();
            let ghost before = r@;
            r.push(d);
            proof {
                assert(cast_views(before).len() == before.len());
                assert(before.len() == i);
                assert(r@ == before.push(d));
                assert forall|k: int| 0 <= k < i + 1 implies cast_views(r@)[k]
                    == self.entries().take(i + 1)[k] by {
                    if k < i {
                        assert(r@[k] == before[k]);
                        assert(cast_views(before)[k] == before[k]@);
                    }
                }
                assert(cast_views(r@) =~= self.entries().take(i + 1));
            }
            i = i + 1;
        }
        assert(self.entries().take(self.devices@.len() as int) =~= self.entries());
        r
    }
}

} // verus!
