//! Which backend to create, and which comes next.

use vstd::prelude::*;

use crate::cli::{BackendType, Cli};
use crate::error::{BackendError, BackendResult};
use crate::text;

verus! {

/// What kind of system the library runs on.
#[derive(Clone, Copy, Debug, PartialEq, Eq, Structural)]
pub enum Platform {
    /// A system with the sensors that the kernel of Linux exports.
    Linux,
    /// Any other.
    Other,
}

/// The backend that the cycle starts with.
pub open spec fn cycle_start(platform: Platform) -> BackendType {
    match platform {
        Platform::Linux => BackendType::Hybrid,
        Platform::Other => BackendType::Json,
    }
}

/// The backend that follows another. Direct access and remote boxes are left
/// but never entered.
pub open spec fn following(platform: Platform, current: BackendType) -> BackendType {
    match current {
        BackendType::Hybrid => match platform {
            Platform::Linux => BackendType::Sysfs,
            Platform::Other => BackendType::Json,
        },
        BackendType::Sysfs => BackendType::Json,
        BackendType::Json => BackendType::Mock,
        BackendType::Luwen => BackendType::Mock,
        BackendType::Mock => BackendType::Host,
        BackendType::Host => cycle_start(platform),
        BackendType::Auto => cycle_start(platform),
        BackendType::Remote => cycle_start(platform),
    }
}

/// The backend that follows another on a platform.
pub fn next_backend_on(platform: Platform, current: BackendType) -> (next: BackendType)
    ensures
        next == following(platform, current),
{
    let start = match platform {
        Platform::Linux => BackendType::Hybrid,
        Platform::Other => BackendType::Json,
    };
    match current {
        BackendType::Hybrid => match platform {
            Platform::Linux => BackendType::Sysfs,
            Platform::Other => BackendType::Json,
        },
        BackendType::Sysfs => BackendType::Json,
        BackendType::Json => BackendType::Mock,
        BackendType::Luwen => BackendType::Mock,
        BackendType::Mock => BackendType::Host,
        BackendType::Host => start,
        BackendType::Auto => start,
        BackendType::Remote => start,
    }
}

/// The backend that follows another on Linux.
pub fn next_backend(current: BackendType) -> (next: BackendType)
    ensures
        next == following(Platform::Linux, current),
{
    next_backend_on(Platform::Linux, current)
}

/// The backend so many places behind another.
pub open spec fn following_by(platform: Platform, current: BackendType, n: nat) -> BackendType
    decreases n,
{
    if n == 0 {
        current
    } else {
        following(platform, following_by(platform, current, (n - 1) as nat))
    }
}

/// How many backends are tried before giving up.
pub const MAX_SWITCH_ATTEMPTS: usize = 7;

/// The backend to switch to after so many have failed to start: the next in the
/// cycle, until all have been tried.
pub fn switch_to_next_backend(
    platform: Platform,
    current: BackendType,
    failures: usize,
) -> (r: BackendResult<BackendType>)
    ensures
        r is Ok <==> failures < MAX_SWITCH_ATTEMPTS,
        r matches Ok(bt) ==> bt == following_by(platform, current, (failures + 1) as nat),
        r matches Err(e) ==> (e matches BackendError::Initialization(m) && m@
            == "Failed to initialize any backend after trying all options"@),
{
    if failures >= MAX_SWITCH_ATTEMPTS {
        return Err(
            BackendError::Initialization(
                "Failed to initialize any backend after trying all options".to_owned(),
            ),
        );
    }
    let mut bt = next_backend_on(platform, current);
    assert(following_by(platform, current, 0) == current);
    for i in 0..failures
        invariant
            bt == following_by(platform, current, (i + 1) as nat),
    {
        bt = next_backend_on(platform, bt);
    }
    Ok(bt)
}

/// The backends that are tried in turn where none is asked for.
pub open spec fn detection_order(platform: Platform) -> Seq<BackendType> {
    match platform {
        Platform::Linux => seq![BackendType::Hybrid, BackendType::Json, BackendType::Mock],
        Platform::Other => seq![BackendType::Json, BackendType::Mock],
    }
}

/// The backends that are tried in turn where none is asked for. Direct access
/// is never among them.
pub fn auto_order(platform: Platform) -> (order: Vec<BackendType>)
    ensures
        order@ == detection_order(platform),
{
    let mut order: Vec<BackendType> = Vec::new();
    match platform {
        Platform::Linux => {
            order.push(BackendType::Hybrid);
        },
        Platform::Other => {},
    }
    order.push(BackendType::Json);
    order.push(BackendType::Mock);
    assert(order@ =~= detection_order(platform));
    order
}

/// The backends that the monitor tries in turn at startup where none is asked
/// for: the sensors of the kernel disturb nothing, and come first.
pub open spec fn launch_order(platform: Platform) -> Seq<BackendType> {
    match platform {
        Platform::Linux => seq![BackendType::Sysfs, BackendType::Json, BackendType::Mock],
        Platform::Other => seq![BackendType::Json, BackendType::Mock],
    }
}

/// The backends that the monitor tries in turn at startup where none is asked
/// for. Direct access is never among them.
pub fn startup_order(platform: Platform) -> (order: Vec<BackendType>)
    ensures
        order@ == launch_order(platform),
{
    let mut order: Vec<BackendType> = Vec::new();
    match platform {
        Platform::Linux => {
            order.push(BackendType::Sysfs);
        },
        Platform::Other => {},
    }
    order.push(BackendType::Json);
    order.push(BackendType::Mock);
    assert(order@ =~= launch_order(platform));
    order
}

/// What to create.
#[derive(Debug)]
pub enum BackendPlan {
    /// The first that starts of a list.
    FirstOf(Vec<BackendType>),
    /// So many simulated devices.
    Mock(usize),
    /// `tt-smi` at a path.
    Json(String),
    /// The chips themselves.
    Luwen,
    /// The sensors of the kernel.
    Sysfs,
    /// The sensors of the kernel, and `tt-smi` at a path.
    Hybrid(String),
    /// The processor of this machine.
    Host,
    /// A remote box, by the target that was given.
    Remote(String),
}

/// Whether a plan is the one for a backend.
pub open spec fn plan_fits(
    plan: BackendPlan,
    backend_type: BackendType,
    platform: Platform,
    args: Cli,
) -> bool {
    match backend_type {
        BackendType::Auto => plan matches BackendPlan::FirstOf(order) && order@ == detection_order(
            platform,
        ),
        BackendType::Mock => plan == BackendPlan::Mock(
            match args.mock {
                Some(k) => if k > 0 { k } else { args.mock_devices },
                None => args.mock_devices,
            },
        ),
        BackendType::Json => plan matches BackendPlan::Json(p) && p@ == args.tt_smi_path@,
        BackendType::Luwen => plan is Luwen,
        BackendType::Sysfs => plan is Sysfs,
        BackendType::Hybrid => plan matches BackendPlan::Hybrid(p) && p@ == args.tt_smi_path@,
        BackendType::Host => plan is Host,
        BackendType::Remote => plan matches BackendPlan::Remote(t) && Some(t@) == text::opt_text(
            args.remote,
        ),
    }
}

/// What to create for a backend. Direct access must be compiled in, and a remote
/// box needs a target.
pub fn create_backend(
    backend_type: BackendType,
    platform: Platform,
    luwen_enabled: bool,
    args: &Cli,
) -> (r: BackendResult<BackendPlan>)
    ensures
        match r {
            Ok(plan) => {
                &&& plan_fits(plan, backend_type, platform, *args)
                &&& backend_type == BackendType::Luwen ==> luwen_enabled
                &&& backend_type == BackendType::Remote ==> args.remote is Some
            },
            Err(e) => {
                ||| backend_type == BackendType::Luwen && !luwen_enabled && (e
                    matches BackendError::Initialization(m) && m@
                    == "Luwen backend not compiled (requires --features luwen-backend)"@)
                ||| backend_type == BackendType::Remote && args.remote is None && (e
                    matches BackendError::Initialization(m) && m@
                    == "Remote backend requires --remote <HOST:PORT>"@)
            },
        },
{
    match backend_type {
        BackendType::Auto => Ok(BackendPlan::FirstOf(auto_order(platform))),
        BackendType::Mock => Ok(BackendPlan::Mock(args.effective_mock_devices())),
        BackendType::Json => Ok(BackendPlan::Json(args.tt_smi_path.clone())),
        BackendType::Luwen => if luwen_enabled {
            Ok(BackendPlan::Luwen)
        } else {
            Err(
                BackendError::Initialization(
                    "Luwen backend not compiled (requires --features luwen-backend)".to_owned(),
                ),
            )
        },
        BackendType::Sysfs => Ok(BackendPlan::Sysfs),
        BackendType::Hybrid => Ok(BackendPlan::Hybrid(args.tt_smi_path.clone())),
        BackendType::Host => Ok(BackendPlan::Host),
        BackendType::Remote => match &args.remote {
            Some(t) => Ok(BackendPlan::Remote(t.clone())),
            None => Err(
                BackendError::Initialization("Remote backend requires --remote <HOST:PORT>".to_owned()),
            ),
        },
    }
}

/// The cycle never enters direct access or a remote box, nor detection, however
/// often it is followed and wherever it starts.
pub proof fn law_launch_only_backends_are_never_entered(
    platform: Platform,
    current: BackendType,
    n: nat,
)
    requires
        n > 0,
    ensures
        following_by(platform, current, n) != BackendType::Luwen,
        following_by(platform, current, n) != BackendType::Remote,
        following_by(platform, current, n) != BackendType::Auto,
{
}

/// On Linux the cycle has five backends and comes back to each.
pub proof fn law_linux_cycle_is_closed(current: BackendType)
    requires
        current == BackendType::Hybrid || current == BackendType::Sysfs || current
            == BackendType::Json || current == BackendType::Mock || current == BackendType::Host,
    ensures
        following_by(Platform::Linux, current, 5) == current,
{
    reveal_with_fuel(following_by, 6);
}

/// Elsewhere it has three.
pub proof fn law_other_cycle_is_closed(current: BackendType)
    requires
        current == BackendType::Json || current == BackendType::Mock || current
            == BackendType::Host,
    ensures
        following_by(Platform::Other, current, 3) == current,
{
    reveal_with_fuel(following_by, 4);
}

/// Switching tries every backend of the cycle before it gives up, wherever it
/// starts.
pub proof fn law_switching_tries_the_whole_cycle(current: BackendType, wanted: BackendType)
    requires
        wanted == BackendType::Hybrid || wanted == BackendType::Sysfs || wanted
            == BackendType::Json || wanted == BackendType::Mock || wanted == BackendType::Host,
    ensures
        exists|failures: nat|
            failures < MAX_SWITCH_ATTEMPTS && wanted == #[trigger] following_by(
                Platform::Linux,
                current,
                failures + 1,
            ),
{
    reveal_with_fuel(following_by, 8);
    let f = |k: nat| following_by(Platform::Linux, current, k + 1);
    assert(f(0) == wanted || f(1) == wanted || f(2) == wanted || f(3) == wanted || f(4) == wanted
        || f(5) == wanted || f(6) == wanted);
    assert(following_by(Platform::Linux, current, 0nat + 1) == f(0));
    assert(following_by(Platform::Linux, current, 1nat + 1) == f(1));
    assert(following_by(Platform::Linux, current, 2nat + 1) == f(2));
    assert(following_by(Platform::Linux, current, 3nat + 1) == f(3));
    assert(following_by(Platform::Linux, current, 4nat + 1) == f(4));
    assert(following_by(Platform::Linux, current, 5nat + 1) == f(5));
    assert(following_by(Platform::Linux, current, 6nat + 1) == f(6));
}

/// Neither detection nor the monitor's startup tries direct access or a remote
/// box, and both end with the simulated devices.
pub proof fn law_detection_is_safe(platform: Platform)
    ensures
        !detection_order(platform).contains(BackendType::Luwen),
        !detection_order(platform).contains(BackendType::Remote),
        detection_order(platform).last() == BackendType::Mock,
        !launch_order(platform).contains(BackendType::Luwen),
        !launch_order(platform).contains(BackendType::Remote),
        launch_order(platform).last() == BackendType::Mock,
{
}

/// The order of the cycle: on Linux the combined backend, the sensors, `tt-smi`, the
/// simulated devices and the processor; elsewhere without the first two. Direct access
/// is left for the simulated devices, detection and a remote box for the start.
pub proof fn law_cycle_goes_in_order(platform: Platform)
    ensures
        following(Platform::Linux, BackendType::Hybrid) == BackendType::Sysfs,
        following(Platform::Other, BackendType::Hybrid) == BackendType::Json,
        following(platform, BackendType::Sysfs) == BackendType::Json,
        following(platform, BackendType::Json) == BackendType::Mock,
        following(platform, BackendType::Luwen) == BackendType::Mock,
        following(platform, BackendType::Mock) == BackendType::Host,
        following(platform, BackendType::Host) == (if platform == Platform::Linux {
            BackendType::Hybrid
        } else {
            BackendType::Json
        }),
        following(platform, BackendType::Auto) == following(platform, BackendType::Host),
        following(platform, BackendType::Remote) == following(platform, BackendType::Host),
        MAX_SWITCH_ATTEMPTS == 7,
{
}

/// Detection tries the combined backend first, and the monitor's startup the sensors,
/// where there are sensors, then both `tt-smi`, then the simulated devices.
pub proof fn law_detection_goes_in_order()
    ensures
        detection_order(Platform::Linux) == seq![
            BackendType::Hybrid,
            BackendType::Json,
            BackendType::Mock,
        ],
        launch_order(Platform::Linux) == seq![
            BackendType::Sysfs,
            BackendType::Json,
            BackendType::Mock,
        ],
        detection_order(Platform::Other) == seq![BackendType::Json, BackendType::Mock],
        launch_order(Platform::Other) == seq![BackendType::Json, BackendType::Mock],
{
}

/// What is created is the backend that was asked for, with the arguments that are its
/// own.
pub proof fn law_plans_carry_their_arguments(
    plan: BackendPlan,
    backend_type: BackendType,
    platform: Platform,
    args: Cli,
)
    requires
        plan_fits(plan, backend_type, platform, args),
    ensures
        plan is FirstOf <==> backend_type == BackendType::Auto,
        plan is Mock <==> backend_type == BackendType::Mock,
        plan is Json <==> backend_type == BackendType::Json,
        plan is Luwen <==> backend_type == BackendType::Luwen,
        plan is Sysfs <==> backend_type == BackendType::Sysfs,
        plan is Hybrid <==> backend_type == BackendType::Hybrid,
        plan is Host <==> backend_type == BackendType::Host,
        plan is Remote <==> backend_type == BackendType::Remote,
        plan matches BackendPlan::FirstOf(order) ==> order@ == detection_order(platform),
        plan matches BackendPlan::Mock(n) ==> n == if args.mock is Some && args.mock->0 > 0 {
            args.mock->0
        } else {
            args.mock_devices
        },
        plan matches BackendPlan::Json(path) ==> path@ == args.tt_smi_path@,
        plan matches BackendPlan::Hybrid(path) ==> path@ == args.tt_smi_path@,
        plan matches BackendPlan::Remote(target) ==> args.remote is Some && target@
            == args.remote->0@,
{
}

} // verus!
