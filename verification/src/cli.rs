//! What the command line asks for.

use vstd::prelude::*;

use crate::config::AnimationProfile;
use crate::logging::LevelFilter;
use crate::text::str_eq;

verus! {

/// Where the telemetry comes from.
#[derive(Clone, Copy, Debug, PartialEq, Eq, Structural)]
pub enum BackendType {
    /// The first that works.
    Auto,
    /// Simulated devices.
    Mock,
    /// The `tt-smi` tool.
    Json,
    /// The chips themselves.
    Luwen,
    /// The sensors of the kernel.
    Sysfs,
    /// The sensors of the kernel, with what `tt-smi` knows beyond them.
    Hybrid,
    /// The processor of this machine.
    Host,
    /// A remote box. It is entered only by `--remote`.
    Remote,
}

/// What is shown.
#[derive(Clone, Copy, Debug, PartialEq, Eq, Structural)]
pub enum VisualizationMode {
    /// A table.
    Normal,
    /// A starfield.
    Starfield,
    /// The Memory Castle.
    Castle,
    /// The Memory Flow.
    Flow,
    /// Everything, with a hero.
    Arcade,
}

/// The arguments of the command line.
#[derive(Debug)]
pub struct Cli {
    pub backend: BackendType,
    /// `--mock`, with the number of devices, or 0 where it gives none.
    pub mock: Option<usize>,
    pub json: bool,
    pub host: bool,
    /// The target of `--remote`.
    pub remote: Option<String>,
    pub tt_smi_path: String,
    /// How often to refresh, in milliseconds.
    pub interval: u64,
    /// The devices to monitor, or all.
    pub devices: Option<Vec<usize>>,
    pub verbose: bool,
    pub quiet: bool,
    pub mock_devices: usize,
    pub max_errors: usize,
    /// How long to wait for a reading, in milliseconds.
    pub timeout: u64,
    pub mode: Option<VisualizationMode>,
    pub profile: AnimationProfile,
    pub visualize: bool,
    pub workload: bool,
    pub print: bool,
    pub bench: bool,
    pub throttle: bool,
    pub idle_on_blur: bool,
}

/// Whether the processes to show are those that use Tenstorrent hardware: they
/// are where the backend reads such hardware in this machine.
pub fn backend_shows_only_tt(bt: BackendType) -> (r: bool)
    ensures
        r == !(bt == BackendType::Host || bt == BackendType::Mock || bt == BackendType::Remote),
{
    match bt {
        BackendType::Host => false,
        BackendType::Mock => false,
        BackendType::Remote => false,
        _ => true,
    }
}

/// The backend that the arguments ask for: a shortcut goes before `--backend`.
pub open spec fn requested_backend(cli: Cli) -> BackendType {
    if cli.mock is Some {
        BackendType::Mock
    } else if cli.json {
        BackendType::Json
    } else if cli.host {
        BackendType::Host
    } else if cli.remote is Some {
        BackendType::Remote
    } else {
        cli.backend
    }
}

/// What a backend is called.
pub open spec fn backend_label(bt: BackendType) -> Seq<char> {
    match bt {
        BackendType::Auto => "Auto-detect"@,
        BackendType::Mock => "Mock"@,
        BackendType::Json => "JSON (tt-smi)"@,
        BackendType::Luwen => "Luwen (Direct HW)"@,
        BackendType::Sysfs => "Sysfs (hwmon sensors)"@,
        BackendType::Hybrid => "Hybrid (sysfs + tt-smi cache)"@,
        BackendType::Host => "Host (CPU/RAM via sysinfo)"@,
        BackendType::Remote => "Remote (WebSocket QuietBox)"@,
    }
}

/// The views of a list of texts.
pub open spec fn texts(v: Seq<String>) -> Seq<Seq<char>> {
    v.map_values(|s: String| s@)
}

/// The warnings that the arguments give rise to.
pub open spec fn argument_warnings(cli: Cli) -> Seq<Seq<char>> {
    (if requested_backend(cli) == BackendType::Mock && cli.tt_smi_path@ != "tt-smi"@ {
        seq!["Warning: --tt-smi-path ignored when using mock backend"@]
    } else {
        Seq::empty()
    }) + (if requested_backend(cli) != BackendType::Mock && cli.mock_devices != 3 && cli.mock
        is None {
        seq!["Warning: --mock-devices ignored when not using mock backend"@]
    } else {
        Seq::empty()
    })
}

impl Cli {
    /// The arguments as they were parsed, with the shortcuts resolved.
    pub fn parse_args(parsed: Cli) -> (cli: Self)
        ensures
            cli == (Cli { backend: requested_backend(parsed), ..parsed }),
    {
        let mut cli = parsed;
        cli.backend = cli.effective_backend();
        cli
    }

    /// The backend that the arguments ask for.
    pub fn effective_backend(&self) -> (bt: BackendType)
        ensures
            bt == requested_backend(*self),
    {
        if self.mock.is_some() {
            BackendType::Mock
        } else if self.json {
            BackendType::Json
        } else if self.host {
            BackendType::Host
        } else if self.remote.is_some() {
            BackendType::Remote
        } else {
            self.backend
        }
    }

    /// How many devices to simulate: those of `--mock`, or of `--mock-devices`.
    pub fn effective_mock_devices(&self) -> (n: usize)
        ensures
            n == match self.mock {
                Some(k) => if k > 0 { k } else { self.mock_devices },
                None => self.mock_devices,
            },
    {
        match self.mock {
            Some(n) => if n > 0 {
                n
            } else {
                self.mock_devices
            },
            None => self.mock_devices,
        }
    }

    /// Which log messages are let through.
    pub fn log_level(&self) -> (level: LevelFilter)
        ensures
            level == if self.quiet {
                LevelFilter::Off
            } else if self.verbose {
                LevelFilter::Debug
            } else {
                LevelFilter::Warn
            },
    {
        if self.quiet {
            LevelFilter::Off
        } else if self.verbose {
            LevelFilter::Debug
        } else {
            LevelFilter::Warn
        }
    }

    /// Whether a device is to be monitored.
    pub fn should_monitor_device(&self, device_idx: usize) -> (r: bool)
        ensures
            r == match self.devices {
                Some(v) => v@.contains(device_idx),
                None => true,
            },
    {
        match &self.devices {
            Some(v) => {
                for i in 0..v.len()
                    invariant
                        self.devices == Some(*v),
                        forall|k: int| 0 <= k < i ==> #[trigger] v@[k] != device_idx,
                {
                    if v[i] == device_idx {
                        assert(v@[i as int] == device_idx);
                        return true;
                    }
                }
                false
            },
            None => true,
        }
    }

    /// What the backend that the arguments ask for is called.
    pub fn backend_name(&self) -> (s: &'static str)
        ensures
            s@ == backend_label(requested_backend(*self)),
    {
        match self.effective_backend() {
            BackendType::Auto => "Auto-detect",
            BackendType::Mock => "Mock",
            BackendType::Json => "JSON (tt-smi)",
            BackendType::Luwen => "Luwen (Direct HW)",
            BackendType::Sysfs => "Sysfs (hwmon sensors)",
            BackendType::Hybrid => "Hybrid (sysfs + tt-smi cache)",
            BackendType::Host => "Host (CPU/RAM via sysinfo)",
            BackendType::Remote => "Remote (WebSocket QuietBox)",
        }
    }

    /// The arguments of a benchmark that draws off screen.
    pub fn bench_default() -> (cli: Self)
        ensures
            cli.backend == BackendType::Mock,
            cli.mock == Some(0usize),
            !cli.json,
            !cli.host,
            cli.remote is None,
            cli.tt_smi_path@ == "tt-smi"@,
            cli.interval == 100,
            cli.devices is None,
            !cli.verbose,
            cli.quiet,
            cli.mock_devices == 3,
            cli.max_errors == 10,
            cli.timeout == 5000,
            cli.mode is None,
            cli.profile == AnimationProfile::Normal,
            !cli.visualize,
            !cli.workload,
            !cli.print,
            cli.bench,
            !cli.throttle,
            !cli.idle_on_blur,
    {
        Cli {
            backend: BackendType::Mock,
            mock: Some(0),
            json: false,
            host: false,
            remote: None,
            tt_smi_path: "tt-smi".to_owned(),
            interval: 100,
            devices: None,
            verbose: false,
            quiet: true,
            mock_devices: 3,
            max_errors: 10,
            timeout: 5000,
            mode: None,
            profile: AnimationProfile::Normal,
            visualize: false,
            workload: false,
            print: false,
            bench: true,
            throttle: false,
            idle_on_blur: false,
        }
    }

    /// Whether the arguments can be followed: direct access must be compiled
    /// in where it is asked for.
    pub fn validate(&self, luwen_enabled: bool) -> (r: Result<(), String>)
        ensures
            r is Err <==> !luwen_enabled && requested_backend(*self) == BackendType::Luwen,
            r matches Err(e) ==> e@
                == "Luwen backend not enabled. Rebuild with: cargo build --features luwen-backend"@,
    {
        if !luwen_enabled {
            if let BackendType::Luwen = self.effective_backend() {
                return Err(
                    "Luwen backend not enabled. Rebuild with: cargo build --features luwen-backend".to_owned(),
                );
            }
        }
        Ok(())
    }

    /// The warnings that the arguments give rise to.
    pub fn warnings(&self) -> (w: Vec<String>)
        ensures
            texts(w@) == argument_warnings(*self),
    {
        let mock = match self.effective_backend() {
            BackendType::Mock => true,
            _ => false,
        };
        let mut w: Vec<String> = Vec::new();
        if mock && !str_eq(self.tt_smi_path.as_str(), "tt-smi") {
            w.push("Warning: --tt-smi-path ignored when using mock backend".to_owned());
        }
        if !mock && self.mock_devices != 3 && self.mock.is_none() {
            w.push("Warning: --mock-devices ignored when not using mock backend".to_owned());
        }
        assert(texts(w@) =~= argument_warnings(*self));
        w
    }
}

/// Once the shortcuts are resolved, resolving them again changes nothing.
pub proof fn law_shortcuts_resolve_once(cli: Cli)
    ensures
        requested_backend(Cli { backend: requested_backend(cli), ..cli }) == requested_backend(cli),
{
}

/// A shortcut goes before `--backend`, and `--mock` before `--json`, that before
/// `--host`, and that before `--remote`; without any the backend is the one that was
/// named.
pub proof fn law_shortcuts_go_first(cli: Cli)
    ensures
        cli.mock is Some ==> requested_backend(cli) == BackendType::Mock,
        cli.mock is None && cli.json ==> requested_backend(cli) == BackendType::Json,
        cli.mock is None && !cli.json && cli.host ==> requested_backend(cli) == BackendType::Host,
        cli.mock is None && !cli.json && !cli.host && cli.remote is Some ==> requested_backend(cli)
            == BackendType::Remote,
        cli.mock is None && !cli.json && !cli.host && cli.remote is None ==> requested_backend(cli)
            == cli.backend,
{
}

/// Each backend goes by its own name.
pub proof fn law_backends_have_their_names(bt: BackendType)
    ensures
        bt == BackendType::Auto <==> backend_label(bt) == "Auto-detect"@,
        bt == BackendType::Mock <==> backend_label(bt) == "Mock"@,
        bt == BackendType::Json <==> backend_label(bt) == "JSON (tt-smi)"@,
        bt == BackendType::Luwen <==> backend_label(bt) == "Luwen (Direct HW)"@,
        bt == BackendType::Sysfs <==> backend_label(bt) == "Sysfs (hwmon sensors)"@,
        bt == BackendType::Hybrid <==> backend_label(bt) == "Hybrid (sysfs + tt-smi cache)"@,
        bt == BackendType::Host <==> backend_label(bt) == "Host (CPU/RAM via sysinfo)"@,
        bt == BackendType::Remote <==> backend_label(bt) == "Remote (WebSocket QuietBox)"@,
{
    reveal_strlit("Auto-detect");
    reveal_strlit("Mock");
    reveal_strlit("JSON (tt-smi)");
    reveal_strlit("Luwen (Direct HW)");
    reveal_strlit("Sysfs (hwmon sensors)");
    reveal_strlit("Hybrid (sysfs + tt-smi cache)");
    reveal_strlit("Host (CPU/RAM via sysinfo)");
    reveal_strlit("Remote (WebSocket QuietBox)");
    assert("Auto-detect"@[0] == 'A');
    assert("Mock"@[0] == 'M');
    assert("JSON (tt-smi)"@[0] == 'J');
    assert("Luwen (Direct HW)"@[0] == 'L');
    assert("Sysfs (hwmon sensors)"@[0] == 'S');
    assert("Hybrid (sysfs + tt-smi cache)"@[1] == 'y');
    assert("Host (CPU/RAM via sysinfo)"@[1] == 'o');
    assert("Hybrid (sysfs + tt-smi cache)"@[0] == 'H');
    assert("Host (CPU/RAM via sysinfo)"@[0] == 'H');
    assert("Remote (WebSocket QuietBox)"@[0] == 'R');
}

/// There is a warning for each argument that is not used: the path of `tt-smi` with
/// simulated devices, and the number of devices without them.
pub proof fn law_unused_arguments_are_warned_of(cli: Cli)
    ensures
        argument_warnings(cli).contains("Warning: --tt-smi-path ignored when using mock backend"@)
            <==> requested_backend(cli) == BackendType::Mock && cli.tt_smi_path@ != "tt-smi"@,
        argument_warnings(cli).contains(
            "Warning: --mock-devices ignored when not using mock backend"@,
        ) <==> requested_backend(cli) != BackendType::Mock && cli.mock_devices != 3,
        argument_warnings(cli).len() <= 1,
{
    reveal_strlit("Warning: --tt-smi-path ignored when using mock backend");
    reveal_strlit("Warning: --mock-devices ignored when not using mock backend");
    let w = argument_warnings(cli);
    let path = "Warning: --tt-smi-path ignored when using mock backend"@;
    let devices = "Warning: --mock-devices ignored when not using mock backend"@;
    assert(path[11] == 't' && devices[11] == 'm');
    if requested_backend(cli) == BackendType::Mock && cli.tt_smi_path@ != "tt-smi"@ {
        assert(w =~= seq![path]);
        assert(w[0] == path);
    } else if requested_backend(cli) != BackendType::Mock && cli.mock_devices != 3 {
        assert(w =~= seq![devices]);
        assert(w[0] == devices);
    } else {
        assert(w.len() == 0);
    }
}

} // verus!
