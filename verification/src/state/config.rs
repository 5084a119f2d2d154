//! Configuration and its layered, field-by-field merging.
use vstd::prelude::*;

verus! {

/// Service configuration.
#[derive(Debug, Clone)]
pub struct Config {
    pub port: u16,
    pub adapter: String,
    pub device_name: String,
    pub auto_pair: bool,
    pub max_devices: usize,
}

impl Default for Config {
    fn default() -> (r: Self)
        ensures
            r.port == 8080,
            r.adapter@ == "hci0"@,
            r.device_name@ == "SoundSync"@,
            r.auto_pair,
            r.max_devices == 1,
    {
        Config {
            port: 8080,
            adapter: String::from_str("hci0"),
            device_name: String::from_str("SoundSync"),
            auto_pair: true,
            max_devices: 1,
        }
    }
}

/// A configuration file's settings: each field is set only when the file
/// sets it.
#[derive(Debug, Clone)]
pub struct PartialConfig {
    pub port: Option<u16>,
    pub adapter: Option<String>,
    pub device_name: Option<String>,
    pub auto_pair: Option<bool>,
    pub max_devices: Option<usize>,
}

/// A configuration as plain values.
pub struct ConfigView {
    pub port: u16,
    pub adapter: Seq<char>,
    pub device_name: Seq<char>,
    pub auto_pair: bool,
    pub max_devices: usize,
}

impl View for Config {
    type V = ConfigView;

    open spec fn view(&self) -> ConfigView {
        ConfigView {
            port: self.port,
            adapter: self.adapter@,
            device_name: self.device_name@,
            auto_pair: self.auto_pair,
            max_devices: self.max_devices,
        }
    }
}

/// A partial configuration as plain values.
pub struct PartialView {
    pub port: Option<u16>,
    pub adapter: Option<Seq<char>>,
    pub device_name: Option<Seq<char>>,
    pub auto_pair: Option<bool>,
    pub max_devices: Option<usize>,
}

impl View for PartialConfig {
    type V = PartialView;

    open spec fn view(&self) -> PartialView {
        PartialView {
            port: self.port,
            adapter: self.adapter.deep_view(),
            device_name: self.device_name.deep_view(),
            auto_pair: self.auto_pair,
            max_devices: self.max_devices,
        }
    }
}

pub open spec fn or_else<T>(o: Option<T>, d: T) -> T {
    match o {
        Some(v) => v,
        None => d,
    }
}

/// `c` with the fields that `p` sets replaced.
pub open spec fn merged(p: PartialView, c: ConfigView) -> ConfigView {
    ConfigView {
        port: or_else(p.port, c.port),
        adapter: or_else(p.adapter, c.adapter),
        device_name: or_else(p.device_name, c.device_name),
        auto_pair: or_else(p.auto_pair, c.auto_pair),
        max_devices: or_else(p.max_devices, c.max_devices),
    }
}

/// The settings of `lower` overridden by those of `upper`.
pub open spec fn layered(lower: PartialView, upper: PartialView) -> PartialView {
    PartialView {
        port: if upper.port is Some { upper.port } else { lower.port },
        adapter: if upper.adapter is Some { upper.adapter } else { lower.adapter },
        device_name: if upper.device_name is Some { upper.device_name } else { lower.device_name },
        auto_pair: if upper.auto_pair is Some { upper.auto_pair } else { lower.auto_pair },
        max_devices: if upper.max_devices is Some { upper.max_devices } else { lower.max_devices },
    }
}

impl PartialConfig {
    /// Merge this partial config into a full config, overriding only the
    /// fields that are explicitly set.
    pub fn merge_into(self, config: &mut Config)
        ensures
            final(config)@ == merged(self@, old(config)@),
    {
        if let Some(port) = self.port {
            config.port = port;
        }
        if let Some(adapter) = self.adapter {
            config.adapter = adapter;
        }
        if let Some(device_name) = self.device_name {
            config.device_name = device_name;
        }
        if let Some(auto_pair) = self.auto_pair {
            config.auto_pair = auto_pair;
        }
        if let Some(max_devices) = self.max_devices {
            config.max_devices = max_devices;
        }
    }
}

/// Merging two files in turn is merging their layering once: a later file
/// overrides exactly the fields it sets, and every other field keeps what the
/// earlier layers gave it.
pub proof fn lemma_layered_merge(first: PartialView, second: PartialView, c: ConfigView)
    ensures
        merged(second, merged(first, c)) == merged(layered(first, second), c),
{
}

/// Merging a file that sets nothing leaves the configuration unchanged.
pub proof fn lemma_empty_merge(c: ConfigView)
    ensures
        merged(
            PartialView {
                port: None,
                adapter: None,
                device_name: None,
                auto_pair: None,
                max_devices: None,
            },
            c,
        ) == c,
{
}

/// Merging the same file twice is merging it once.
pub proof fn lemma_merge_idempotent(p: PartialView, c: ConfigView)
    ensures
        merged(p, merged(p, c)) == merged(p, c),
{
}

} // verus!
