//! State of the backend that reads a remote box over a WebSocket.
//!
//! The application owns the connection and notes what comes in. Each frame is
//! a snapshot as `tt-smi -s` prints it, to which an extension may have been
//! added.

use std::collections::HashMap;

use vstd::prelude::*;

use crate::backend::json;
use crate::backend::json::{parse_tt_smi_snapshot, ParsedSnapshot};
use crate::backend::remote_ext;
use crate::backend::remote_ext::{parse_extension, RemoteInference, RemoteProc, TtToplikeExt};
use crate::backend::{BackendConfig, TelemetryBackend};
use crate::error::{BackendError, BackendResult};
use crate::maps;
use crate::maps::move_capped;
use crate::models::{Device, SmbusTelemetry, Telemetry};
use crate::text;
use crate::text::{
    append_decimal, find_first, find_last, parse_unsigned, slice_of, string_of, trim_chars,
};

verus! {

broadcast use vstd::std_specs::hash::group_hash_axioms;

/// How many devices of a remote box are kept.
pub const MAX_REMOTE_DEVICES: usize = 256;

/// The port of a target that names none.
pub const DEFAULT_PORT: u16 = 8000;

// Targets

/// The port that a text denotes.
pub open spec fn port_of(s: Seq<char>) -> Option<nat> {
    text::unsigned_value(text::trimmed(s), 10, 0xffff)
}

/// Host and port with a port that is a text.
pub open spec fn with_port(host: Seq<char>, port: Seq<char>) -> Result<(Seq<char>, nat), Seq<char>> {
    match port_of(port) {
        Some(p) => Ok((host, p)),
        None => Err("invalid remote port: "@ + port),
    }
}

/// The host and the port of a target, or why it has none: `HOST`, `HOST:PORT`,
/// `[ADDRESS]` or `[ADDRESS]:PORT`.
pub open spec fn target_parts(spec: Seq<char>) -> Result<(Seq<char>, nat), Seq<char>> {
    let s = text::trimmed(spec);
    if s.len() == 0 {
        Err("--remote requires a HOST:PORT (or HOST)"@)
    } else if s[0] == '[' {
        let rest = s.skip(1);
        let k = text::first_of(rest, ']');
        let tail = rest.skip(k + 1);
        if k == rest.len() {
            Err("malformed IPv6 remote address: "@ + s)
        } else if tail.len() == 0 {
            Ok((rest.take(k), DEFAULT_PORT as nat))
        } else if tail[0] == ':' {
            with_port(rest.take(k), tail.skip(1))
        } else {
            Err("malformed remote address: "@ + s)
        }
    } else {
        let k = text::last_of(s, ':');
        if k > 0 {
            with_port(s.take(k), s.skip(k + 1))
        } else {
            Ok((s, DEFAULT_PORT as nat))
        }
    }
}

/// Whether a result is a host and a port, or the error of that message.
pub open spec fn parts_match(
    r: BackendResult<(String, u16)>,
    expected: Result<(Seq<char>, nat), Seq<char>>,
) -> bool {
    match (r, expected) {
        (Ok((host, port)), Ok((h, p))) => host@ == h && port == p,
        (Err(BackendError::Initialization(m)), Err(e)) => m@ == e,
        _ => false,
    }
}

fn complaint(what: &str, s: &[char]) -> (e: BackendError)
    ensures
        e matches BackendError::Initialization(m) && m@ == what@ + s@,
{
    let mut m = what.to_owned();
    let t = string_of(s);
    m.append(t.as_str());
    BackendError::Initialization(m)
}

fn join_port(host: &[char], port: &[char]) -> (r: BackendResult<(String, u16)>)
    ensures
        parts_match(r, with_port(host@, port@)),
{
    let p = string_of(port);
    let t = trim_chars(p.as_str());
    match parse_unsigned(t.as_slice(), 10, 0xffff) {
        Some(n) => Ok((string_of(host), n as u16)),
        None => Err(complaint("invalid remote port: ", port)),
    }
}

/// The host and the port of a target.
pub fn split_host_port(spec: &str) -> (r: BackendResult<(String, u16)>)
    ensures
        parts_match(r, target_parts(spec@)),
{
    let s = trim_chars(spec);
    let n: usize = s.len();
    if n == 0 {
        return Err(
            BackendError::Initialization("--remote requires a HOST:PORT (or HOST)".to_owned()),
        );
    }
    if s[0] == '[' {
        let rest = slice_of(s.as_slice(), 1, n);
        assert(rest@ =~= s@.skip(1));
        let len: usize = rest.len();
        match find_first(rest.as_slice(), ']') {
            None => Err(complaint("malformed IPv6 remote address: ", s.as_slice())),
            Some(k) => {
                let host = slice_of(rest.as_slice(), 0, k);
                assert(host@ =~= rest@.take(k as int));
                let ghost tail = rest@.skip(k as int + 1);
                if k + 1 == len {
                    Ok((string_of(host.as_slice()), DEFAULT_PORT))
                } else if rest[k + 1] == ':' {
                    assert(tail[0] == ':');
                    let port = slice_of(rest.as_slice(), k + 2, len);
                    assert(port@ =~= tail.skip(1));
                    join_port(host.as_slice(), port.as_slice())
                } else {
                    assert(tail[0] != ':');
                    Err(complaint("malformed remote address: ", s.as_slice()))
                }
            },
        }
    } else {
        match find_last(s.as_slice(), ':') {
            Some(k) => if k > 0 {
                let host = slice_of(s.as_slice(), 0, k);
                assert(host@ =~= s@.take(k as int));
                let port = slice_of(s.as_slice(), k + 1, n);
                assert(port@ =~= s@.skip(k as int + 1));
                join_port(host.as_slice(), port.as_slice())
            } else {
                Ok((string_of(s.as_slice()), DEFAULT_PORT))
            },
            None => Ok((string_of(s.as_slice()), DEFAULT_PORT)),
        }
    }
}

// What the connection delivers

/// What the connection has delivered. Only the newest frame is kept.
#[derive(Debug)]
pub struct Shared {
    /// The newest frame.
    pub latest: Option<String>,
    /// Counts the frames. It starts over after the largest number.
    pub generation: u64,
    /// Whether the connection stands.
    pub connected: bool,
    /// When the newest frame came, in milliseconds.
    pub last_frame_at: Option<u64>,
    /// What last went wrong.
    pub last_error: Option<String>,
}

/// What happens on the connection.
#[derive(Debug)]
pub enum WsEvent {
    /// It was established.
    Connected,
    /// It could not be established, and why.
    ConnectFailed(String),
    /// A frame of text came.
    Frame(String),
    /// Something came that is no text.
    Other,
    /// The sender closed it.
    Closed,
    /// Reading failed, and why.
    StreamError(String),
    /// It ended.
    Ended,
}

/// What to do next on the connection.
#[derive(Clone, Copy, Debug, PartialEq, Eq, Structural)]
pub enum WsAction {
    /// Read on.
    Read,
    /// Wait, and connect again.
    Reconnect,
}

/// What an event makes of what was delivered, and what to do next.
pub open spec fn event_effect(before: Shared, event: WsEvent, now_ms: u64, after: Shared) -> bool {
    match event {
        WsEvent::Connected => after == (Shared { connected: true, ..before }),
        WsEvent::ConnectFailed(e) => {
            &&& after == (Shared { connected: false, last_error: after.last_error, ..before })
            &&& text::opt_text(after.last_error) == Some("connect error: "@ + e@)
        },
        WsEvent::Frame(f) => after == (Shared {
            latest: Some(f),
            generation: next_generation(before.generation),
            last_frame_at: Some(now_ms),
            ..before
        }),
        WsEvent::Other => after == before,
        WsEvent::Closed => after == (Shared { connected: false, ..before }),
        WsEvent::StreamError(e) => {
            &&& after == (Shared { connected: false, last_error: after.last_error, ..before })
            &&& text::opt_text(after.last_error) == Some("stream error: "@ + e@)
        },
        WsEvent::Ended => after == (Shared { connected: false, ..before }),
    }
}

/// The number of the next frame.
pub open spec fn next_generation(n: u64) -> u64 {
    if n == u64::MAX { 0 } else { (n + 1) as u64 }
}

fn labelled(label: &str, detail: &String) -> (s: String)
    ensures
        s@ == label@ + detail@,
{
    let mut s = label.to_owned();
    s.append(detail.as_str());
    s
}

impl Shared {
    /// Nothing delivered yet.
    pub fn new() -> (s: Self)
        ensures
            s.latest is None,
            s.generation == 0,
            !s.connected,
            s.last_frame_at is None,
            s.last_error is None,
    {
        Shared {
            latest: None,
            generation: 0,
            connected: false,
            last_frame_at: None,
            last_error: None,
        }
    }

    /// Takes a frame.
    pub fn set_frame(&mut self, frame: String, now_ms: u64)
        ensures
            *final(self) == (Shared {
                latest: Some(frame),
                generation: next_generation(old(self).generation),
                last_frame_at: Some(now_ms),
                ..*old(self)
            }),
    {
        self.latest = Some(frame);
        self.last_frame_at = Some(now_ms);
        self.generation = self.generation.wrapping_add(1);
    }

    /// Notes an error.
    pub fn set_error(&mut self, message: String)
        ensures
            *final(self) == (Shared { last_error: Some(message), ..*old(self) }),
    {
        self.last_error = Some(message);
    }

    /// Takes what happened on the connection.
    pub fn on_event(&mut self, event: WsEvent, now_ms: u64) -> (action: WsAction)
        ensures
            event_effect(*old(self), event, now_ms, *final(self)),
            action == WsAction::Read <==> (event is Connected || event is Frame || event is Other),
    {
        match event {
            WsEvent::Connected => {
                self.connected = true;
                WsAction::Read
            },
            WsEvent::ConnectFailed(e) => {
                self.connected = false;
                self.set_error(labelled("connect error: ", &e));
                WsAction::Reconnect
            },
            WsEvent::Frame(f) => {
                self.set_frame(f, now_ms);
                WsAction::Read
            },
            WsEvent::Other => WsAction::Read,
            WsEvent::Closed => {
                self.connected = false;
                WsAction::Reconnect
            },
            WsEvent::StreamError(e) => {
                self.set_error(labelled("stream error: ", &e));
                self.connected = false;
                WsAction::Reconnect
            },
            WsEvent::Ended => {
                self.connected = false;
                WsAction::Reconnect
            },
        }
    }

    /// A copy.
    pub fn dup(&self) -> (r: Self)
        ensures
            r == *self,
    {
        Shared {
            latest: match &self.latest {
                Some(s) => Some(s.clone()),
                None => None,
            },
            generation: self.generation,
            connected: self.connected,
            last_frame_at: self.last_frame_at,
            last_error: match &self.last_error {
                Some(s) => Some(s.clone()),
                None => None,
            },
        }
    }
}

// Freshness

/// The age beyond which a frame is stale, in seconds: three intervals, and no
/// less than five.
pub open spec fn stale_after(interval_secs: nat) -> nat {
    if interval_secs * 3 > u64::MAX {
        u64::MAX as nat
    } else if interval_secs * 3 > 5 {
        interval_secs * 3
    } else {
        5
    }
}

/// How a stream with a newest frame of that age is called.
pub open spec fn staleness(age_secs: nat, interval_secs: nat) -> Seq<char> {
    if age_secs > stale_after(interval_secs) { "stale"@ } else { "connected"@ }
}

/// How a stream with a newest frame of that age is called.
pub fn staleness_word(age_secs: u64, interval_secs: u64) -> (word: &'static str)
    ensures
        word@ == staleness(age_secs as nat, interval_secs as nat),
{
    let tripled: u64 = match interval_secs.checked_mul(3) {
        Some(t) => t,
        None => u64::MAX,
    };
    let threshold: u64 = if tripled > 5 { tripled } else { 5 };
    if age_secs > threshold {
        "stale"
    } else {
        "connected"
    }
}

// The backend

/// Serves a remote box.
#[derive(Debug)]
pub struct WsBackend {
    pub host: String,
    pub port: u16,
    pub url: String,
    pub config: BackendConfig,
    pub devices: Vec<Device>,
    pub telemetry: HashMap<usize, Telemetry>,
    pub smbus: HashMap<usize, SmbusTelemetry>,
    /// The extension of the frame that was last taken over.
    pub remote_ext: Option<TtToplikeExt>,
    /// What the connection has delivered.
    pub shared: Shared,
    /// The number of the frame that was last looked at.
    pub last_gen: u64,
    /// The current time, in milliseconds on the clock of the frames.
    pub now_ms: u64,
}

/// The address of the stream of a host.
pub open spec fn stream_url(host: Seq<char>, port: nat) -> Seq<char> {
    "ws://"@ + host + ":"@ + text::decimal(port) + "/telemetry"@
}

/// Whether a backend is new.
pub open spec fn fresh_ws(b: WsBackend, host: Seq<char>, port: nat, config: BackendConfig) -> bool {
    &&& b.host@ == host
    &&& b.port == port
    &&& b.url@ == stream_url(host, port)
    &&& b.config == config
    &&& b.devices@.len() == 0
    &&& b.telemetry@ == Map::<usize, Telemetry>::empty()
    &&& b.smbus@ == Map::<usize, SmbusTelemetry>::empty()
    &&& b.remote_ext is None
    &&& b.shared.latest is None
    &&& b.shared.generation == 0
    &&& !b.shared.connected
    &&& b.shared.last_frame_at is None
    &&& b.shared.last_error is None
    &&& b.last_gen == 0
    &&& b.now_ms == 0
}

/// The devices after the first `n` of `more`: each whose index is not there is
/// added, until there are as many as are kept.
pub open spec fn appended_capped(devices: Seq<Device>, more: Seq<Device>, n: nat) -> Seq<Device>
    decreases n,
{
    if n == 0 {
        devices
    } else {
        let before = appended_capped(devices, more, (n - 1) as nat);
        if before.len() >= MAX_REMOTE_DEVICES || json::has_index(before, more[n - 1].index) {
            before
        } else {
            before.push(more[n - 1])
        }
    }
}

/// Whether a backend has taken a snapshot over.
pub open spec fn snapshot_merged(
    before: WsBackend,
    parsed: ParsedSnapshot,
    after: WsBackend,
) -> bool {
    &&& after.devices@ == appended_capped(before.devices@, parsed.devices@, parsed.devices@.len())
    &&& maps::moved_capped(
        before.telemetry@,
        parsed.telemetry@,
        MAX_REMOTE_DEVICES as nat,
        after.telemetry@,
    )
    &&& maps::moved_capped(
        before.smbus@,
        parsed.smbus@,
        MAX_REMOTE_DEVICES as nat,
        after.smbus@,
    )
}

/// Whether two backends differ only in what frames fill.
pub open spec fn same_setup(a: WsBackend, b: WsBackend) -> bool {
    &&& a.host == b.host
    &&& a.port == b.port
    &&& a.url == b.url
    &&& a.config == b.config
    &&& a.now_ms == b.now_ms
}

/// The view of an optional extension.
pub open spec fn opt_ext(e: Option<TtToplikeExt>) -> Option<remote_ext::ExtView> {
    match e {
        Some(x) => Some(x@),
        None => None,
    }
}

/// Whether a frame was delivered that was not looked at.
pub open spec fn has_fresh_frame(b: WsBackend) -> bool {
    b.shared.generation != b.last_gen && b.shared.latest is Some
}

/// What the newest frame makes of a backend: nothing where it was looked at; a
/// snapshot is taken over, with its extension or the want of one; a frame that
/// is no snapshot leaves everything that is served, and its error is noted.
pub open spec fn latest_applied(before: WsBackend, after: WsBackend) -> bool {
    let frame = (before.shared.latest->0)@;
    &&& same_setup(before, after)
    &&& after.last_gen == before.shared.generation
    &&& !has_fresh_frame(before) ==> after == (WsBackend {
        last_gen: before.shared.generation,
        ..before
    })
    &&& has_fresh_frame(before) && json::text_sources(frame) is Some ==> {
        &&& exists|parsed: ParsedSnapshot| #[trigger]
            json::snapshot_of(parsed, frame) && snapshot_merged(before, parsed, after)
        &&& opt_ext(after.remote_ext) == remote_ext::frame_extension(frame)
        &&& after.shared == before.shared
    }
    &&& has_fresh_frame(before) && json::text_sources(frame) is None ==> {
        &&& after == (WsBackend {
            shared: (Shared { last_error: after.shared.last_error, ..before.shared }),
            last_gen: before.shared.generation,
            ..before
        })
        &&& exists|e: BackendError| #[trigger]
            json::is_parse_error(e, frame) && text::opt_text(after.shared.last_error) == Some(
                "frame parse error: "@ + e.text(),
            )
    }
}

impl WsBackend {
    /// A backend for a host and a port, with the default settings.
    pub fn new(host: &str, port: u16) -> (b: Self)
        ensures
            fresh_ws(
                b,
                host@,
                port as nat,
                (BackendConfig {
                    update_interval_ms: 100,
                    max_consecutive_errors: 10,
                    read_timeout_ms: 5000,
                    verbose: false,
                }),
            ),
    {
        Self::with_config(host, port, BackendConfig::default())
    }

    /// A backend for a host and a port.
    pub fn with_config(host: &str, port: u16, config: BackendConfig) -> (b: Self)
        ensures
            fresh_ws(b, host@, port as nat, config),
    {
        let mut url = "ws://".to_owned();
        url.append(host);
        url.append(":");
        append_decimal(&mut url, port as u64);
        url.append("/telemetry");
        WsBackend {
            host: host.to_owned(),
            port,
            url,
            config,
            devices: Vec::new(),
            telemetry: HashMap::new(),
            smbus: HashMap::new(),
            remote_ext: None,
            shared: Shared::new(),
            last_gen: 0,
            now_ms: 0,
        }
    }

    /// A backend for a target.
    pub fn from_host_port(spec: &str, config: BackendConfig) -> (r: BackendResult<Self>)
        ensures
            match (r, target_parts(spec@)) {
                (Ok(b), Ok((host, port))) => fresh_ws(b, host, port, config),
                (Err(BackendError::Initialization(m)), Err(e)) => m@ == e,
                _ => false,
            },
    {
        match split_host_port(spec) {
            Ok((host, port)) => Ok(Self::with_config(host.as_str(), port, config)),
            Err(e) => Err(e),
        }
    }

    /// Takes over what the connection has delivered, and the time.
    pub fn observe(&mut self, shared: Shared, now_ms: u64)
        ensures
            *final(self) == (WsBackend { shared, now_ms, ..*old(self) }),
    {
        self.shared = shared;
        self.now_ms = now_ms;
    }

    fn knows_index(&self, index: usize) -> (r: bool)
        ensures
            r == json::has_index(self.devices@, index),
    {
        for i in 0..self.devices.len()
            invariant
                forall|k: int| 0 <= k < i ==> (#[trigger] self.devices@[k]).index != index,
        {
            if self.devices[i].index == index {
                assert(self.devices@[i as int].index == index);
                return true;
            }
        }
        false
    }

    /// Takes a snapshot over, up to the number of devices that are kept.
    pub fn merge_parsed(&mut self, parsed: ParsedSnapshot)
        ensures
            snapshot_merged(*old(self), parsed, *final(self)),
            same_setup(*old(self), *final(self)),
            final(self).remote_ext == old(self).remote_ext,
            final(self).shared == old(self).shared,
            final(self).last_gen == old(self).last_gen,
    {
        let ghost start = self.devices@;
        let ghost more = parsed.devices@;
        for device in it: parsed.devices
            invariant
                it.seq() == more,
                start == old(self).devices@,
                self.devices@ == appended_capped(start, more, it.index() as nat),
                same_setup(*old(self), *self),
                self.telemetry == old(self).telemetry,
                self.smbus == old(self).smbus,
                self.remote_ext == old(self).remote_ext,
                self.shared == old(self).shared,
                self.last_gen == old(self).last_gen,
        {
            assert(more[it.index() as int] == device);
            if self.devices.len() < MAX_REMOTE_DEVICES && !self.knows_index(device.index) {
                self.devices.push(device);
            }
        }
        move_capped(&mut self.telemetry, parsed.telemetry, MAX_REMOTE_DEVICES);
        move_capped(&mut self.smbus, parsed.smbus, MAX_REMOTE_DEVICES);
    }

    /// Takes the newest frame over, unless it was looked at before. A frame
    /// that is no snapshot is an error, noted once, and changes nothing that is
    /// served.
    pub fn apply_latest(&mut self) -> (r: BackendResult<bool>)
        ensures
            latest_applied(*old(self), *final(self)),
            match r {
                Ok(applied) => {
                    &&& applied == has_fresh_frame(*old(self))
                    &&& applied ==> json::text_sources((old(self).shared.latest->0)@) is Some
                },
                Err(e) => {
                    &&& has_fresh_frame(*old(self))
                    &&& json::text_sources((old(self).shared.latest->0)@) is None
                    &&& json::is_parse_error(e, (old(self).shared.latest->0)@)
                },
            },
    {
        if self.shared.generation == self.last_gen {
            return Ok(false);
        }
        self.last_gen = self.shared.generation;
        let frame = match &self.shared.latest {
            Some(f) => f.clone(),
            None => return Ok(false),
        };
        match parse_tt_smi_snapshot(frame.as_str()) {
            Ok(parsed) => {
                self.merge_parsed(parsed);
                self.remote_ext = parse_extension(frame.as_str());
                Ok(true)
            },
            Err(e) => {
                let m = e.message();
                self.shared.set_error(labelled("frame parse error: ", &m));
                Err(e)
            },
        }
    }

    /// Takes the newest frame over. There is nothing to do where none is new.
    pub fn update(&mut self) -> (r: BackendResult<()>)
        ensures
            latest_applied(*old(self), *final(self)),
            r is Err <==> has_fresh_frame(*old(self)) && json::text_sources(
                (old(self).shared.latest->0)@,
            ) is None,
            r matches Err(e) ==> json::is_parse_error(e, (old(self).shared.latest->0)@),
    {
        match self.apply_latest() {
            Ok(_) => Ok(()),
            Err(e) => Err(e),
        }
    }

    /// One step of waiting for the first frame: whether a frame came that
    /// tells of a device.
    pub fn init_step(&mut self) -> (ready: bool)
        ensures
            latest_applied(*old(self), *final(self)),
            ready <==> {
                &&& has_fresh_frame(*old(self))
                &&& json::text_sources((old(self).shared.latest->0)@) is Some
                &&& final(self).devices@.len() > 0
            },
    {
        match self.apply_latest() {
            Ok(applied) => applied && self.devices.len() > 0,
            Err(_) => false,
        }
    }

    /// How long to wait for the first frame, in milliseconds.
    pub fn init_wait_ms(&self) -> (ms: u64)
        ensures
            ms == if self.config.read_timeout_ms < 1000 {
                1000
            } else {
                self.config.read_timeout_ms
            },
    {
        if self.config.read_timeout_ms < 1000 {
            1000
        } else {
            self.config.read_timeout_ms
        }
    }

    /// How long to wait before connecting again, in milliseconds.
    pub fn reconnect_ms(&self) -> (ms: u64)
        ensures
            ms == if self.config.read_timeout_ms < 500 {
                500
            } else if self.config.read_timeout_ms > 5000 {
                5000
            } else {
                self.config.read_timeout_ms
            },
    {
        if self.config.read_timeout_ms < 500 {
            500
        } else if self.config.read_timeout_ms > 5000 {
            5000
        } else {
            self.config.read_timeout_ms
        }
    }

    /// The error where no first frame came in time.
    pub fn init_timed_out(&self) -> (e: BackendError)
        ensures
            e matches BackendError::Initialization(m) && m@
                == "WsBackend: timed out connecting to "@ + self.url@ + " ("@ + (
            match self.shared.last_error {
                Some(s) => s@,
                None => "no telemetry frame received"@,
            }) + ")"@,
    {
        let mut m = "WsBackend: timed out connecting to ".to_owned();
        m.append(self.url.as_str());
        m.append(" (");
        match &self.shared.last_error {
            Some(s) => m.append(s.as_str()),
            None => m.append("no telemetry frame received"),
        }
        m.append(")");
        BackendError::Initialization(m)
    }

    /// The age of the newest frame, in seconds.
    pub open spec fn frame_age(&self) -> Option<nat> {
        match self.shared.last_frame_at {
            Some(t) => Some(
                if self.now_ms < t {
                    0
                } else {
                    ((self.now_ms - t) / 1000) as nat
                },
            ),
            None => None,
        }
    }
}

impl TelemetryBackend for WsBackend {
    open spec fn device_list(&self) -> Seq<Device> {
        self.devices@
    }

    open spec fn telemetry_map(&self) -> Map<usize, Telemetry> {
        self.telemetry@
    }

    open spec fn smbus_map(&self) -> Map<usize, SmbusTelemetry> {
        self.smbus@
    }

    /// The remote box and how fresh its stream is.
    open spec fn info_text(&self) -> Seq<char> {
        let at = "remote QuietBox @ "@ + self.host@ + ":"@ + text::decimal(self.port as nat) + " ("@;
        let count = text::decimal(self.devices@.len()) + " device(s))"@;
        if !self.shared.connected {
            at + "disconnected, "@ + count
        } else {
            match self.frame_age() {
                Some(age) => at + staleness(age, self.config.update_interval_ms as nat / 1000)
                    + ", last frame "@ + text::decimal(age) + "s ago, "@ + count,
                None => at + "connected, awaiting first frame, "@ + count,
            }
        }
    }

    open spec fn snapshot_text(&self) -> Option<Seq<char>> {
        text::opt_text(self.shared.latest)
    }

    fn devices(&self) -> (devices: &Vec<Device>) {
        &self.devices
    }

    fn telemetry(&self, device_idx: usize) -> (t: Option<&Telemetry>) {
        self.telemetry.get(&device_idx)
    }

    fn smbus_telemetry(&self, device_idx: usize) -> (s: Option<&SmbusTelemetry>) {
        self.smbus.get(&device_idx)
    }

    fn backend_info(&self) -> (s: String) {
        let mut s = "remote QuietBox @ ".to_owned();
        s.append(self.host.as_str());
        s.append(":");
        append_decimal(&mut s, self.port as u64);
        s.append(" (");
        if !self.shared.connected {
            s.append("disconnected, ");
        } else {
            match self.shared.last_frame_at {
                Some(t) => {
                    let age: u64 = if self.now_ms < t { 0 } else { (self.now_ms - t) / 1000 };
                    s.append(staleness_word(age, self.config.update_interval_ms / 1000));
                    s.append(", last frame ");
                    append_decimal(&mut s, age);
                    s.append("s ago, ");
                },
                None => {
                    s.append("connected, awaiting first frame, ");
                },
            }
        }
        append_decimal(&mut s, self.devices.len() as u64);
        s.append(" device(s))");
        assert(s@ =~= self.info_text());
        s
    }

    /// The newest frame as it came, though it may not have been taken over.
    fn snapshot_json(&self) -> (s: Option<String>) {
        match &self.shared.latest {
            Some(f) => Some(f.clone()),
            None => None,
        }
    }

    /// The processes of the extension that was last read.
    fn remote_processes(&self) -> (r: Option<Vec<RemoteProc>>)
        ensures
            remote_ext::opt_procs(r) == match opt_ext(self.remote_ext) {
                Some(e) => e.processes,
                None => None,
            },
    {
        match &self.remote_ext {
            Some(e) => match &e.processes {
                Some(v) => Some(remote_ext::copy_procs(v)),
                None => None,
            },
            None => None,
        }
    }

    /// The inference workloads of the extension that was last read.
    fn remote_inference(&self) -> (r: Option<Vec<RemoteInference>>)
        ensures
            remote_ext::opt_inference(r) == match opt_ext(self.remote_ext) {
                Some(e) => e.inference,
                None => None,
            },
    {
        match &self.remote_ext {
            Some(e) => match &e.inference {
                Some(v) => Some(remote_ext::copy_workloads(v)),
                None => None,
            },
            None => None,
        }
    }
}

// Laws

/// However many devices and frames a remote box sends, no more are kept than
/// the limit, and those that are kept stay.
pub proof fn law_remote_state_is_bounded(devices: Seq<Device>, more: Seq<Device>, n: nat)
    requires
        devices.len() <= MAX_REMOTE_DEVICES,
        n <= more.len(),
    ensures
        devices.len() <= appended_capped(devices, more, n).len() <= MAX_REMOTE_DEVICES,
        forall|i: int|
            0 <= i < devices.len() ==> #[trigger] appended_capped(devices, more, n)[i] == devices[i],
    decreases n,
{
    if n > 0 {
        law_remote_state_is_bounded(devices, more, (n - 1) as nat);
    }
}

/// The maps of readings are bounded in the same way.
pub proof fn law_remote_readings_are_bounded<V>(
    before: Map<usize, V>,
    more: Map<usize, V>,
    after: Map<usize, V>,
)
    requires
        maps::moved_capped(before, more, MAX_REMOTE_DEVICES as nat, after),
        before.len() <= MAX_REMOTE_DEVICES,
    ensures
        after.len() <= MAX_REMOTE_DEVICES,
{
}

/// Below the limit the devices are those that a local snapshot would leave.
pub proof fn law_small_boxes_are_served_whole(devices: Seq<Device>, more: Seq<Device>, n: nat)
    requires
        devices.len() + n <= MAX_REMOTE_DEVICES,
        n <= more.len(),
    ensures
        appended_capped(devices, more, n) == json::appended(devices, more, n),
        json::appended(devices, more, n).len() <= devices.len() + n,
    decreases n,
{
    if n > 0 {
        law_small_boxes_are_served_whole(devices, more, (n - 1) as nat);
    }
}

/// A frame that was looked at is not looked at again: a second update without a
/// new frame changes nothing.
pub proof fn law_updates_are_idempotent(before: WsBackend, once: WsBackend, twice: WsBackend)
    requires
        latest_applied(before, once),
        latest_applied(once, twice),
    ensures
        twice == once,
{
}

/// A frame without an extension leaves no process and no workload of an earlier
/// one.
pub proof fn law_extension_is_that_of_the_frame(before: WsBackend, after: WsBackend)
    requires
        latest_applied(before, after),
        has_fresh_frame(before),
        json::text_sources((before.shared.latest->0)@) is Some,
        remote_ext::frame_extension((before.shared.latest->0)@) is None,
    ensures
        after.remote_ext is None,
{
}

/// A stream that is stale stays so as its newest frame ages, and no stream is
/// stale before five seconds.
pub proof fn law_staleness_grows(age: nat, later: nat, interval_secs: nat)
    requires
        age <= later,
    ensures
        age > stale_after(interval_secs) ==> later > stale_after(interval_secs),
        age <= 5 ==> staleness(age, interval_secs) == "connected"@,
        age <= interval_secs * 3 && age <= u64::MAX ==> staleness(age, interval_secs)
            == "connected"@,
{
}

/// A target is taken apart where it was put together: a host and a port with a
/// colon between, whatever colons the host has itself. A host without a colon, and
/// an address in brackets without a port, get the usual port.
pub proof fn law_targets_come_apart(host: Seq<char>, port: nat)
    requires
        host.len() > 0,
        !text::is_white(host[0]),
        !text::is_white(host.last()),
        port <= 65535,
    ensures
        host[0] != '[' ==> target_parts(host + ":"@ + text::decimal(port)) == Ok::<
            (Seq<char>, nat),
            Seq<char>,
        >((host, port)),
        host[0] != '[' && !host.contains(':') ==> target_parts(host) == Ok::<
            (Seq<char>, nat),
            Seq<char>,
        >((host, 8000)),
        !host.contains(']') ==> target_parts("["@ + host + "]:"@ + text::decimal(port)) == Ok::<
            (Seq<char>, nat),
            Seq<char>,
        >((host, port)),
        !host.contains(']') ==> target_parts("["@ + host + "]"@) == Ok::<
            (Seq<char>, nat),
            Seq<char>,
        >((host, 8000)),
{
    reveal_strlit(":");
    reveal_strlit("[");
    reveal_strlit("]");
    reveal_strlit("]:");
    let none = Seq::<char>::empty();
    let d = text::decimal(port);
    text::lemma_decimal_is_digits(port);
    text::law_decimal_reads_back(port);
    assert(text::digit_value(d[0], 10) is Some);
    assert(port_of(d) == Some(port));
    let full = host + ":"@ + d;
    assert(full =~= host + seq![':'] + d);
    assert(full.last() == d[d.len() - 1]);
    text::law_trimming_leaves_the_text(none, full, none);
    assert(none + full + none =~= full);
    text::lemma_last_of_join(host, ':', d);
    assert(full.take(host.len() as int) =~= host);
    assert(full.skip(host.len() as int + 1) =~= d);
    text::law_trimming_leaves_the_text(none, host, none);
    assert(none + host + none =~= host);
    if !host.contains(':') {
        text::lemma_last_of_join(none, ':', host);
    }
    if !host.contains(']') {
        let tail = seq![':'] + d;
        let both = "["@ + host + "]:"@ + d;
        assert(both.last() == d[d.len() - 1]);
        assert(both[0] == '[');
        text::law_trimming_leaves_the_text(none, both, none);
        assert(none + both + none =~= both);
        assert(both.skip(1) =~= host + seq![']'] + tail);
        text::lemma_first_of_join(host, ']', tail);
        assert(both.skip(1).take(host.len() as int) =~= host);
        assert(both.skip(1).skip(host.len() as int + 1) =~= tail);
        assert(tail.skip(1) =~= d);
        let bare = "["@ + host + "]"@;
        assert(bare.last() == ']');
        assert(bare[0] == '[');
        text::law_trimming_leaves_the_text(none, bare, none);
        assert(none + bare + none =~= bare);
        assert(bare.skip(1) =~= host + seq![']'] + none);
        text::lemma_first_of_join(host, ']', none);
        assert(bare.skip(1).take(host.len() as int) =~= host);
        assert(bare.skip(1).skip(host.len() as int + 1) =~= none);
    }
}

/// A port that is no number of 16 bits is refused, with the text that was to be
/// one, and so is an empty target.
pub proof fn law_bad_ports_are_refused(host: Seq<char>, port: nat)
    requires
        host.len() > 0,
        !text::is_white(host[0]),
        host[0] != '[',
        port > 65535,
    ensures
        target_parts(host + ":"@ + text::decimal(port)) == Err::<(Seq<char>, nat), Seq<char>>(
            "invalid remote port: "@ + text::decimal(port),
        ),
        target_parts(Seq::empty()) is Err,
{
    reveal_strlit(":");
    let none = Seq::<char>::empty();
    let d = text::decimal(port);
    text::lemma_decimal_is_digits(port);
    text::law_decimal_reads_back(port);
    assert(text::digit_value(d[0], 10) is Some);
    let full = host + ":"@ + d;
    assert(full =~= host + seq![':'] + d);
    assert(full.last() == d[d.len() - 1]);
    text::law_trimming_leaves_the_text(none, full, none);
    assert(none + full + none =~= full);
    text::lemma_last_of_join(host, ':', d);
    assert(full.take(host.len() as int) =~= host);
    assert(full.skip(host.len() as int + 1) =~= d);
    text::law_trimming_leaves_the_text(none, none, none);
    assert(none + none + none =~= none);
}

/// A frame is kept as it came, with the time at which it came, and counts as a
/// new one; it says nothing of the connection. What ends the connection leaves the
/// newest frame, and what fails is noted.
pub proof fn law_events_do_what_they_say(before: Shared, event: WsEvent, now_ms: u64, after: Shared)
    requires
        event_effect(before, event, now_ms, after),
    ensures
        event matches WsEvent::Frame(f) ==> {
            &&& after.latest == Some(f)
            &&& after.last_frame_at == Some(now_ms)
            &&& after.generation != before.generation
            &&& before.generation < u64::MAX ==> after.generation == before.generation + 1
            &&& after.connected == before.connected
            &&& after.last_error == before.last_error
        },
        !(event is Frame) ==> {
            &&& after.latest == before.latest
            &&& after.last_frame_at == before.last_frame_at
            &&& after.generation == before.generation
        },
        event is Connected ==> after.connected && after.last_error == before.last_error,
        event is Closed || event is Ended ==> !after.connected && after.last_error
            == before.last_error,
        event matches WsEvent::ConnectFailed(e) ==> !after.connected && after.last_error is Some
            && after.last_error->0@ == "connect error: "@ + e@,
        event matches WsEvent::StreamError(e) ==> !after.connected && after.last_error is Some
            && after.last_error->0@ == "stream error: "@ + e@,
        event is Other ==> after == before,
{
}

/// A stream is stale just when its newest frame is older than five seconds and
/// than three intervals.
pub proof fn law_stale_is_older_than_three_intervals(age: nat, interval_secs: nat)
    requires
        interval_secs * 3 <= u64::MAX,
    ensures
        age > 5 && age > 3 * interval_secs ==> staleness(age, interval_secs) == "stale"@,
        age <= 5 || age <= 3 * interval_secs ==> staleness(age, interval_secs) == "connected"@,
        "stale"@ != "connected"@,
{
    reveal_strlit("stale");
    reveal_strlit("connected");
    assert("stale"@.len() != "connected"@.len());
}

/// Of a snapshot that leaves room, every reading is served, under its own index
/// and over the one before; a reading that the snapshot does not have stays.
pub proof fn law_remote_readings_are_served(
    before: WsBackend,
    parsed: ParsedSnapshot,
    after: WsBackend,
    idx: usize,
)
    requires
        snapshot_merged(before, parsed, after),
    ensures
        after.telemetry@.len() < 256 && parsed.telemetry@.contains_key(idx)
            ==> after.telemetry@.contains_key(idx),
        after.smbus@.len() < 256 && parsed.smbus@.contains_key(idx) ==> after.smbus@.contains_key(
            idx,
        ),
        before.telemetry@.contains_key(idx) ==> after.telemetry@.contains_key(idx),
        before.smbus@.contains_key(idx) ==> after.smbus@.contains_key(idx),
        after.telemetry@.contains_key(idx) && parsed.telemetry@.contains_key(idx)
            ==> after.telemetry@[idx] == parsed.telemetry@[idx],
        after.telemetry@.contains_key(idx) && !parsed.telemetry@.contains_key(idx)
            ==> before.telemetry@.contains_key(idx) && after.telemetry@[idx]
            == before.telemetry@[idx],
        after.smbus@.contains_key(idx) && parsed.smbus@.contains_key(idx) ==> after.smbus@[idx]
            == parsed.smbus@[idx],
        after.smbus@.contains_key(idx) && !parsed.smbus@.contains_key(idx)
            ==> before.smbus@.contains_key(idx) && after.smbus@[idx] == before.smbus@[idx],
        before.telemetry@.len() <= 256 ==> after.telemetry@.len() <= 256,
        before.smbus@.len() <= 256 ==> after.smbus@.len() <= 256,
{
}

/// The newest frame is what is served: a new one that is a snapshot brings its
/// devices, readings and extension; one that is none, or that was looked at,
/// leaves everything that is served.
pub proof fn law_new_frames_are_served_once(before: WsBackend, after: WsBackend)
    requires
        latest_applied(before, after),
    ensures
        after.last_gen == before.shared.generation,
        before.shared.generation == before.last_gen || before.shared.latest is None || json::text_sources(
            (before.shared.latest->0)@,
        ) is None ==> {
            &&& after.devices == before.devices
            &&& after.telemetry == before.telemetry
            &&& after.smbus == before.smbus
            &&& after.remote_ext == before.remote_ext
        },
        before.shared.generation != before.last_gen && before.shared.latest is Some
            && json::text_sources((before.shared.latest->0)@) is Some ==> {
            &&& exists|parsed: ParsedSnapshot| #[trigger]
                json::snapshot_of(parsed, (before.shared.latest->0)@) && snapshot_merged(
                    before,
                    parsed,
                    after,
                )
            &&& opt_ext(after.remote_ext) == remote_ext::frame_extension(
                (before.shared.latest->0)@,
            )
        },
{
}

/// The address of a stream holds the target that it was made from, which leads back to
/// the same host and port.
pub proof fn law_addresses_hold_their_target(host: Seq<char>, port: nat)
    requires
        host.len() > 0,
        host[0] != '[',
        !text::is_white(host[0]),
        !text::is_white(host.last()),
        port <= 65535,
    ensures
        ({
            let target = host + ":"@ + text::decimal(port);
            &&& stream_url(host, port) == "ws://"@ + target + "/telemetry"@
            &&& target_parts(target) == Ok::<(Seq<char>, nat), Seq<char>>((host, port))
        }),
{
    law_targets_come_apart(host, port);
    assert(stream_url(host, port) =~= "ws://"@ + (host + ":"@ + text::decimal(port))
        + "/telemetry"@);
}

/// The age of a frame is in whole seconds, and a frame is never younger than new; the
/// frames are numbered in turn.
pub proof fn law_frames_age_in_seconds(b: WsBackend, at: u64, n: u64)
    requires
        b.shared.last_frame_at == Some(at),
    ensures
        b.frame_age() matches Some(age) && {
            &&& at <= b.now_ms ==> age * 1000 <= b.now_ms - at < (age + 1) * 1000
            &&& at > b.now_ms ==> age == 0
        },
        n < u64::MAX ==> next_generation(n) == n + 1,
        next_generation(n) != n,
{
}

} // verus!
