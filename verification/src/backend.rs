//! Telemetry backends: what they share, and the state of each.

use vstd::prelude::*;

use crate::backend::remote_ext::{RemoteInference, RemoteProc};
use crate::models::{Device, SmbusTelemetry, Telemetry};

pub mod ane;
pub mod blocks;
pub mod discovery;
pub mod factory;
pub mod gpu;
pub mod host;
pub mod hwmon;
pub mod hybrid;
pub mod json;
pub mod luwen;
pub mod mock;
pub mod parts;
pub mod pcie_counters;
pub mod remote_ext;
pub mod serve;
pub mod smbus_smooth;
pub mod sysfs;
pub mod ws;

verus! {

/// What every backend serves. Detecting devices and refreshing the readings is
/// input and output, and lies with the application.
pub trait TelemetryBackend {
    /// The devices, in order.
    spec fn device_list(&self) -> Seq<Device>;

    /// The telemetry of the devices, by index.
    spec fn telemetry_map(&self) -> Map<usize, Telemetry>;

    /// The SMBUS telemetry of the devices, by index.
    spec fn smbus_map(&self) -> Map<usize, SmbusTelemetry>;

    /// What the backend calls itself.
    spec fn info_text(&self) -> Seq<char>;

    /// The last snapshot as `tt-smi` printed it.
    spec fn snapshot_text(&self) -> Option<Seq<char>>;

    /// The devices that the backend monitors.
    fn devices(&self) -> (devices: &Vec<Device>)
        ensures
            devices@ == self.device_list(),
    ;

    /// The current telemetry of a device.
    fn telemetry(&self, device_idx: usize) -> (t: Option<&Telemetry>)
        ensures
            match t {
                Some(t) => self.telemetry_map().contains_key(device_idx) && *t
                    == self.telemetry_map()[device_idx],
                None => !self.telemetry_map().contains_key(device_idx),
            },
    ;

    /// The current SMBUS telemetry of a device.
    fn smbus_telemetry(&self, device_idx: usize) -> (s: Option<&SmbusTelemetry>)
        ensures
            match s {
                Some(s) => self.smbus_map().contains_key(device_idx) && *s
                    == self.smbus_map()[device_idx],
                None => !self.smbus_map().contains_key(device_idx),
            },
    ;

    /// A line that names the backend.
    fn backend_info(&self) -> (s: String)
        ensures
            s@ == self.info_text(),
    ;

    /// The last snapshot as `tt-smi` printed it, where the backend has one.
    fn snapshot_json(&self) -> (s: Option<String>)
        ensures
            crate::text::opt_text(s) == self.snapshot_text(),
    ;

    /// The number of devices.
    fn device_count(&self) -> (n: usize)
        ensures
            n == self.device_list().len(),
    {
        self.devices().len()
    }

    /// Whether there is telemetry of a device.
    fn has_telemetry(&self, device_idx: usize) -> (r: bool)
        ensures
            r == self.telemetry_map().contains_key(device_idx),
    {
        self.telemetry(device_idx).is_some()
    }

    /// Whether there is SMBUS telemetry of a device.
    fn has_smbus_telemetry(&self, device_idx: usize) -> (r: bool)
        ensures
            r == self.smbus_map().contains_key(device_idx),
    {
        self.smbus_telemetry(device_idx).is_some()
    }

    /// The processes that a remote sender streams. Only a backend that reads
    /// from one has any.
    fn remote_processes(&self) -> (r: Option<Vec<RemoteProc>>)
        default_ensures
            r is None,
    {
        None
    }

    /// The inference workloads that a remote sender streams. Only a backend
    /// that reads from one has any.
    fn remote_inference(&self) -> (r: Option<Vec<RemoteInference>>)
        default_ensures
            r is None,
    {
        None
    }
}

/// Settings that every backend takes.
#[derive(Clone, Copy, Debug, PartialEq, Eq, Structural)]
pub struct BackendConfig {
    /// How often to refresh, in milliseconds.
    pub update_interval_ms: u64,
    /// How many failed updates in a row to bear.
    pub max_consecutive_errors: usize,
    /// How long to wait for a reading, in milliseconds.
    pub read_timeout_ms: u64,
    /// Whether to log details.
    pub verbose: bool,
}

impl Default for BackendConfig {
    fn default() -> (config: Self)
        ensures
            config == (BackendConfig {
                update_interval_ms: 100,
                max_consecutive_errors: 10,
                read_timeout_ms: 5000,
                verbose: false,
            }),
    {
        BackendConfig {
            update_interval_ms: 100,
            max_consecutive_errors: 10,
            read_timeout_ms: 5000,
            verbose: false,
        }
    }
}

impl BackendConfig {
    /// The default settings.
    pub fn new() -> (config: Self)
        ensures
            config == (BackendConfig {
                update_interval_ms: 100,
                max_consecutive_errors: 10,
                read_timeout_ms: 5000,
                verbose: false,
            }),
    {
        Self::default()
    }

    /// The same settings with another interval.
    pub fn with_interval(self, interval_ms: u64) -> (config: Self)
        ensures
            config == (BackendConfig { update_interval_ms: interval_ms, ..self }),
    {
        let mut config = self;
        config.update_interval_ms = interval_ms;
        config
    }

    /// The same settings with another bound on errors.
    pub fn with_max_errors(self, max_errors: usize) -> (config: Self)
        ensures
            config == (BackendConfig { max_consecutive_errors: max_errors, ..self }),
    {
        let mut config = self;
        config.max_consecutive_errors = max_errors;
        config
    }

    /// The same settings with another read timeout.
    pub fn with_read_timeout_ms(self, read_timeout_ms: u64) -> (config: Self)
        ensures
            config == (BackendConfig { read_timeout_ms, ..self }),
    {
        let mut config = self;
        config.read_timeout_ms = read_timeout_ms;
        config
    }

    /// The same settings with details logged.
    pub fn verbose(self) -> (config: Self)
        ensures
            config == (BackendConfig { verbose: true, ..self }),
    {
        let mut config = self;
        config.verbose = true;
        config
    }
}

} // verus!
