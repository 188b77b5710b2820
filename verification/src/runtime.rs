//! The run-time state of one managed backend and the decisions of its
//! lifecycle: starting, watching, health, input and stopping. The process
//! itself, its pipes and the waiting are handled by the caller, which reports
//! what happened back to these functions.

use vstd::prelude::*;
use crate::json::JsonValue;
use crate::kind::{BackendKind, BackendStatus, status_name};
use crate::logs::{LogBuffer, MAX_LOG_LINES, last_n};
use crate::text::{
    blank, clone_opt, decimal, decimal_string, is_blank, opt_view, trim_end, trim_end_seq,
};
use crate::json::views;
use crate::outside::{lossy_text, utf8_lossy};
use crate::text::push_char;

verus! {

/// What a managed backend is, abstractly: its configuration and the state
/// of its process.
pub struct RuntimeState {
    pub config: BackendConfig,
    pub status: BackendStatus,
    pub pid: Option<u32>,
    pub last_error: Option<Seq<char>>,
    /// Whether a launched process is considered running.
    pub running: bool,
    /// Whether the standard input of the process is open for writing.
    pub accepts_input: bool,
    /// Whether a child process is held (and so can be waited on or killed).
    pub has_child: bool,
    pub logs: Seq<Seq<char>>,
}

/// Declares std's `SystemTime` so that log lines can carry their time.
#[verifier::external_type_specification]
#[verifier::external_body]
pub struct ExSystemTime(std::time::SystemTime);

/// A log line with the time it was taken.
#[derive(Debug)]
pub struct BackendLogLine {
    pub timestamp: std::time::SystemTime,
    pub message: String,
}

/// Text with its line breaks made `\n`: each `\r\n` becomes `\n`, then each
/// remaining `\r` becomes `\n` (what `.replace("\r\n", "\n").replace('\r', "\n")`
/// gives).
pub open spec fn normalize_breaks(s: Seq<char>) -> Seq<char>
    decreases s.len(),
{
    if s.len() == 0 {
        Seq::empty()
    } else if s[0] == '\r' && s.len() > 1 && s[1] == '\n' {
        normalize_breaks(s.drop_first())
    } else if s[0] == '\r' {
        seq!['\n'] + normalize_breaks(s.drop_first())
    } else {
        seq![s[0]] + normalize_breaks(s.drop_first())
    }
}

/// The log line made of a chunk read from an output stream of the process:
/// the prefix, a space and the chunk's text with its line breaks made `\n`;
/// nothing for an empty chunk.
pub open spec fn stream_line(prefix: Seq<char>, chunk: Seq<u8>) -> Option<Seq<char>> {
    let text = normalize_breaks(utf8_lossy(chunk));
    if text.len() == 0 {
        None
    } else {
        Some(prefix + " "@ + text)
    }
}

/// The log line of a stream that could not be read.
pub open spec fn stream_failure_line(prefix: Seq<char>, detail: Seq<char>) -> Seq<char> {
    prefix + " Failed to read stream: "@ + detail
}

/// How a watched process ended.
pub enum ProcessExit {
    /// The process exited; `description` is how its exit status reads.
    Exited { success: bool, description: String },
    /// Waiting on the process failed; `description` is the failure.
    WatchFailed { description: String },
}

/// How to launch the process of a backend.
pub struct LaunchPlan {
    pub program: String,
    pub args: Vec<String>,
    pub working_dir: Option<String>,
    /// Environment variables, applied in order (a later one overrides an
    /// earlier one with the same name).
    pub env: Vec<(String, String)>,
    /// Whether the process must be created without a console window.
    pub hide_window: bool,
    /// Whether the standard input, output and error of the process are
    /// piped (the input to take what is sent, the outputs to be logged).
    pub piped_stdio: bool,
    /// Whether the process is killed when its handle is dropped.
    pub kill_on_drop: bool,
}

/// Where to poll for readiness after a launch.
pub struct HealthProbe {
    pub url: String,
    pub timeout_ms: u64,
}

/// The configuration of a managed backend.
pub struct BackendConfig {
    pub id: String,
    pub name: String,
    pub kind: BackendKind,
    pub start_command: String,
    pub start_args: Option<Vec<String>>,
    pub working_dir: Option<String>,
    pub host: String,
    pub port: u16,
    pub health_path: String,
    pub api_key: Option<String>,
    pub env_json: Option<JsonValue>,
    pub auto_restart: bool,
    pub startup_timeout_ms: u64,
}

/// The runtime record of a managed backend: its configuration and the state
/// of its process.
pub struct ManagedBackend {
    config: BackendConfig,
    status: BackendStatus,
    pid: Option<u32>,
    last_error: Option<String>,
    running: bool,
    accepts_input: bool,
    has_child: bool,
    logs: LogBuffer,
}

impl View for ManagedBackend {
    type V = RuntimeState;

    closed spec fn view(&self) -> RuntimeState {
        RuntimeState {
            config: self.config,
            status: self.status,
            pid: self.pid,
            last_error: opt_view(self.last_error),
            running: self.running,
            accepts_input: self.accepts_input,
            has_child: self.has_child,
            logs: self.logs@,
        }
    }
}

/// The state of a backend with configuration `config` that has not been
/// started.
pub open spec fn idle_state(config: BackendConfig) -> RuntimeState {
    RuntimeState {
        config,
        status: BackendStatus::Stopped,
        pid: None,
        last_error: None,
        running: false,
        accepts_input: false,
        has_child: false,
        logs: Seq::empty(),
    }
}

/// `logs` after appending `line`.
pub open spec fn logged(logs: Seq<Seq<char>>, line: Seq<char>) -> Seq<Seq<char>> {
    last_n(logs.push(line), MAX_LOG_LINES as nat)
}

/// `{:?}` of an optional process id.
pub open spec fn pid_debug(pid: Option<u32>) -> Seq<char> {
    match pid {
        Some(p) => "Some("@ + decimal(p as nat) + ")"@,
        None => "None"@,
    }
}

pub open spec fn already_message(name: Seq<char>, st: BackendStatus) -> Seq<char> {
    "Backend "@ + name + " is already "@ + status_name(st)
}

pub open spec fn starting_line(name: Seq<char>) -> Seq<char> {
    "Starting backend "@ + name + "..."@
}

pub open spec fn started_line(name: Seq<char>, pid: Option<u32>) -> Seq<char> {
    "Backend "@ + name + " started (pid: "@ + pid_debug(pid) + ")"@
}

pub open spec fn stopping_line(name: Seq<char>) -> Seq<char> {
    "Stopping backend "@ + name + "..."@
}

pub open spec fn stopped_line(name: Seq<char>) -> Seq<char> {
    "Backend "@ + name + " stopped"@
}

pub open spec fn kill_error_line(detail: Seq<char>) -> Seq<char> {
    "Error killing process: "@ + detail
}

pub open spec fn not_running_message(name: Seq<char>) -> Seq<char> {
    "Backend "@ + name + " is not running"@
}

pub open spec fn no_input_message(name: Seq<char>) -> Seq<char> {
    "Backend "@ + name + " does not accept input"@
}

pub open spec fn input_line(input: Seq<char>) -> Seq<char> {
    "[in] "@ + trim_end_seq(input)
}

pub open spec fn spawn_failure_message(detail: Seq<char>) -> Seq<char> {
    "Failed to spawn process: "@ + detail
}

pub open spec fn health_timeout_message() -> Seq<char> {
    "Health check failed or timeout"@
}

pub open spec fn exit_message(description: Seq<char>) -> Seq<char> {
    "Process exited: "@ + description
}

pub open spec fn exit_error_line(description: Seq<char>) -> Seq<char> {
    "Process exited with error: "@ + description
}

pub open spec fn watch_failure_message(description: Seq<char>) -> Seq<char> {
    "Failed to watch process: "@ + description
}

/// Whether text ends a line.
pub open spec fn ends_line(s: Seq<char>) -> bool {
    s.len() > 0 && (s.last() == '\n' || s.last() == '\r')
}

/// Whether input can be written, and the line ending to write after it.
pub open spec fn input_decision(
    st: RuntimeState,
    name: Seq<char>,
    input: Seq<char>,
    windows: bool,
) -> Result<Option<Seq<char>>, Seq<char>> {
    if !st.running {
        Err(not_running_message(name))
    } else if !st.accepts_input {
        Err(no_input_message(name))
    } else if ends_line(input) {
        Ok(None)
    } else if windows {
        Ok(Some("\r\n"@))
    } else {
        Ok(Some("\n"@))
    }
}

/// Whether the arguments call for launching the command directly rather
/// than through a shell.
pub open spec fn launches_directly(args: Option<Vec<String>>) -> bool {
    args matches Some(a) && a@.len() > 0
}

/// The string-valued members of an environment object, in order.
pub open spec fn string_members(entries: Seq<(String, JsonValue)>) -> Seq<(Seq<char>, Seq<char>)>
    decreases entries.len(),
{
    if entries.len() == 0 {
        Seq::empty()
    } else {
        let rest = string_members(entries.drop_last());
        match entries.last().1 {
            JsonValue::Str(v) => rest.push((entries.last().0@, v@)),
            _ => rest,
        }
    }
}

/// The variables taken from the configured environment object.
pub open spec fn configured_env(env: Option<JsonValue>) -> Seq<(Seq<char>, Seq<char>)> {
    match env {
        Some(JsonValue::Object(entries)) => string_members(entries@),
        _ => Seq::empty(),
    }
}

/// Whether an API key is configured (present and not empty).
pub open spec fn has_api_key(api_key: Option<String>) -> bool {
    api_key matches Some(k) && k@.len() > 0
}

/// The environment of a launch: the configured string variables, then
/// `PORT` when a port is set, `HOST` when a host is given, and the API key
/// under the three names that backends read it from.
pub open spec fn launch_env(b: BackendConfig) -> Seq<(Seq<char>, Seq<char>)> {
    let base = configured_env(b.env_json);
    let with_port = if b.port > 0 {
        base.push(("PORT"@, decimal(b.port as nat)))
    } else {
        base
    };
    let with_host = if !blank(b.host@) {
        with_port.push(("HOST"@, b.host@))
    } else {
        with_port
    };
    if has_api_key(b.api_key) {
        let k = b.api_key->Some_0@;
        with_host.push(("API_KEY"@, k)).push(("OPENAI_API_KEY"@, k)).push(
            ("ANTHROPIC_API_KEY"@, k),
        )
    } else {
        with_host
    }
}

/// The views of a list of name/value pairs.
pub open spec fn pair_views(v: Seq<(String, String)>) -> Seq<(Seq<char>, Seq<char>)> {
    v.map_values(|p: (String, String)| (p.0@, p.1@))
}

/// The readiness URL polled after a launch.
pub open spec fn startup_health_url(b: BackendConfig) -> Seq<char> {
    "http://"@ + b.host@ + ":"@ + decimal(b.port as nat) + b.health_path@
}

/// Whether a launched backend counts as running at once, without polling.
pub open spec fn ready_without_probe(b: BackendConfig) -> bool {
    b.port == 0 || blank(b.health_path@)
}

/// Whether a start is refused: the backend is already running or starting.
pub open spec fn start_refused(st: RuntimeState) -> bool {
    st.status == BackendStatus::Running || st.status == BackendStatus::Starting
}

/// The state once a start has begun.
pub open spec fn start_begun(st: RuntimeState) -> RuntimeState {
    RuntimeState {
        status: BackendStatus::Starting,
        last_error: None,
        logs: logged(st.logs, starting_line(st.config.name@)),
        ..st
    }
}

/// The state once a process was launched.
pub open spec fn spawned(st: RuntimeState, pid: Option<u32>, accepts_input: bool) -> RuntimeState {
    RuntimeState { pid, accepts_input, running: true, has_child: true, ..st }
}

/// The state once the launch is complete.
pub open spec fn start_finished(st: RuntimeState) -> RuntimeState {
    RuntimeState {
        status: if ready_without_probe(st.config) {
            BackendStatus::Running
        } else {
            st.status
        },
        logs: logged(st.logs, started_line(st.config.name@, st.pid)),
        ..st
    }
}

/// The state once readiness polling has ended.
pub open spec fn health_wait_finished(st: RuntimeState, healthy: bool) -> RuntimeState {
    if healthy {
        RuntimeState { status: BackendStatus::Running, ..st }
    } else {
        RuntimeState {
            status: BackendStatus::Error,
            last_error: Some(health_timeout_message()),
            ..st
        }
    }
}

/// The state once a health check result was recorded.
pub open spec fn health_recorded(st: RuntimeState, ok: bool, message: Option<Seq<char>>) -> RuntimeState {
    if ok {
        RuntimeState {
            status: if st.running || st.pid is Some {
                BackendStatus::Running
            } else {
                st.status
            },
            last_error: None,
            ..st
        }
    } else {
        RuntimeState {
            status: if !st.running && st.pid is None {
                BackendStatus::Error
            } else {
                st.status
            },
            last_error: message,
            ..st
        }
    }
}

/// The state once the end of the watched process was recorded.
pub open spec fn exit_recorded(st: RuntimeState, exit: ProcessExit) -> RuntimeState {
    let ended = RuntimeState { running: false, pid: None, has_child: false, ..st };
    match exit {
        ProcessExit::Exited { success, description } => if success {
            RuntimeState {
                status: BackendStatus::Stopped,
                logs: logged(st.logs, exit_message(description@)),
                ..ended
            }
        } else {
            RuntimeState {
                status: BackendStatus::Error,
                last_error: Some(exit_message(description@)),
                logs: logged(st.logs, exit_error_line(description@)),
                ..ended
            }
        },
        ProcessExit::WatchFailed { description } => RuntimeState {
            status: BackendStatus::Error,
            last_error: Some(watch_failure_message(description@)),
            logs: logged(st.logs, watch_failure_message(description@)),
            ..ended
        },
    }
}

/// The state once a stop has begun.
pub open spec fn stop_begun(st: RuntimeState) -> RuntimeState {
    RuntimeState {
        status: BackendStatus::Stopping,
        running: false,
        accepts_input: false,
        has_child: false,
        logs: logged(st.logs, stopping_line(st.config.name@)),
        ..st
    }
}

/// The state once a stop is complete.
pub open spec fn stop_finished(st: RuntimeState, kill_error: Option<Seq<char>>) -> RuntimeState {
    RuntimeState {
        status: BackendStatus::Stopped,
        pid: None,
        logs: match kill_error {
            Some(e) => logged(logged(st.logs, kill_error_line(e)), stopped_line(st.config.name@)),
            None => logged(st.logs, stopped_line(st.config.name@)),
        },
        ..st
    }
}

/// Something that happened to a backend, as reported to its record.
pub enum BackendEvent {
    BeginStart,
    Spawned { pid: Option<u32>, accepts_input: bool },
    FinishStart,
    HealthWaitFinished { healthy: bool },
    HealthResult { ok: bool, message: Option<String> },
    Exited { exit: ProcessExit },
    BeginStop,
    FinishStop { kill_error: Option<String> },
    InputWritten { input: String },
    Log { line: String },
}

/// What the record answers to an event.
pub enum EventOutcome {
    /// To `BeginStart`: whether the start may go on.
    Started(Result<(), String>),
    /// To `FinishStart`: where to poll for readiness, if anywhere.
    Probe(Option<HealthProbe>),
    /// To `BeginStop`: whether there is a process to kill.
    HadChild(bool),
    /// To `FinishStop`.
    Stopped(Result<(), String>),
    /// To every other event.
    Done,
}

/// The state after an event.
pub open spec fn event_step(st: RuntimeState, ev: BackendEvent) -> RuntimeState {
    match ev {
        BackendEvent::BeginStart => if start_refused(st) {
            st
        } else {
            start_begun(st)
        },
        BackendEvent::Spawned { pid, accepts_input } => spawned(st, pid, accepts_input),
        BackendEvent::FinishStart => start_finished(st),
        BackendEvent::HealthWaitFinished { healthy } => health_wait_finished(st, healthy),
        BackendEvent::HealthResult { ok, message } => health_recorded(st, ok, opt_view(message)),
        BackendEvent::Exited { exit } => exit_recorded(st, exit),
        BackendEvent::BeginStop => stop_begun(st),
        BackendEvent::FinishStop { kill_error } => stop_finished(st, opt_view(kill_error)),
        BackendEvent::InputWritten { input } => RuntimeState {
            logs: logged(st.logs, input_line(input@)),
            ..st
        },
        BackendEvent::Log { line } => RuntimeState { logs: logged(st.logs, line@), ..st },
    }
}

/// Whether `out` is the answer to `ev` in state `st`.
pub open spec fn event_answer(st: RuntimeState, ev: BackendEvent, out: EventOutcome) -> bool {
    match ev {
        BackendEvent::BeginStart => out matches EventOutcome::Started(r) && if start_refused(st) {
            r matches Err(e) && e@ == already_message(st.config.name@, st.status)
        } else {
            r is Ok
        },
        BackendEvent::FinishStart => out matches EventOutcome::Probe(p) && if ready_without_probe(
            st.config,
        ) {
            p is None
        } else {
            p matches Some(pr) && pr.url@ == startup_health_url(st.config) && pr.timeout_ms
                == st.config.startup_timeout_ms
        },
        BackendEvent::BeginStop => out matches EventOutcome::HadChild(b) && b == st.has_child,
        BackendEvent::FinishStop { .. } => out matches EventOutcome::Stopped(r) && r is Ok,
        _ => out is Done,
    }
}

/// Normalizing line breaks never empties a text.
pub proof fn lemma_normalize_keeps_text(s: Seq<char>)
    ensures
        s.len() > 0 ==> normalize_breaks(s).len() > 0,
    decreases s.len(),
{
    if s.len() > 1 && s[0] == '\r' && s[1] == '\n' {
        lemma_normalize_keeps_text(s.drop_first());
    }
}

/// Makes the line breaks of a text `\n`.
pub fn normalize_line_breaks(s: &str) -> (r: String)
    ensures
        r@ == normalize_breaks(s@),
{
    let v = crate::text::chars_of(s);
    let mut r = String::new();
    let mut i: usize = 0;
    assert(v@.skip(0) =~= v@);
    while i < v.len()
        invariant
            i <= v@.len(),
            normalize_breaks(v@) == r@ + normalize_breaks(v@.skip(i as int)),
        decreases v@.len() - i,
    {
        let ghost rest = v@.skip(i as int);
        assert(rest[0] == v@[i as int]);
        assert(rest.drop_first() =~= v@.skip(i + 1));
        if v[i] == '\r' && i + 1 < v.len() && v[i + 1] == '\n' {
            assert(rest[1] == v@[i + 1]);
        } else if v[i] == '\r' {
            push_char(&mut r, '\n');
        } else {
            push_char(&mut r, v[i]);
        }
        i = i + 1;
    }
    assert(v@.skip(v@.len() as int) =~= Seq::<char>::empty());
    assert(r@ =~= r@ + Seq::<char>::empty());
    r
}

/// The log line made of a chunk read from an output stream of the process,
/// if the chunk has any text.
pub fn stream_log_line(prefix: &str, chunk: &[u8]) -> (r: Option<String>)
    ensures
        opt_view(r) == stream_line(prefix@, chunk@),
        chunk@.len() > 0 ==> r is Some,
{
    let raw = lossy_text(chunk);
    let text = normalize_line_breaks(raw.as_str());
    proof {
        lemma_normalize_keeps_text(raw@);
    }
    if text.as_str().is_empty() {
        None
    } else {
        let mut line = String::from_str(prefix);
        line.append(" ");
        line.append(text.as_str());
        Some(line)
    }
}

/// The log line of a stream that could not be read.
pub fn stream_failure_log_line(prefix: &str, detail: &str) -> (r: String)
    ensures
        r@ == stream_failure_line(prefix@, detail@),
{
    let mut line = String::from_str(prefix);
    line.append(" Failed to read stream: ");
    line.append(detail);
    line
}

/// Writes `{:?}` of an optional process id.
fn pid_debug_string(pid: Option<u32>) -> (r: String)
    ensures
        r@ == pid_debug(pid),
{
    match pid {
        Some(p) => {
            let mut s = String::from_str("Some(");
            let d = decimal_string(p as u64);
            s.append(d.as_str());
            s.append(")");
            s
        },
        None => String::from_str("None"),
    }
}

/// The string-valued members of an environment object.
fn string_member_pairs(entries: &Vec<(String, JsonValue)>) -> (r: Vec<(String, String)>)
    ensures
        pair_views(r@) == string_members(entries@),
{
    let mut r: Vec<(String, String)> = Vec::new();
    let mut i: usize = 0;
    while i < entries.len()
        invariant
            i <= entries@.len(),
            pair_views(r@) == string_members(entries@.take(i as int)),
        decreases entries@.len() - i,
    {
        assert(entries@.take(i + 1).drop_last() =~= entries@.take(i as int));
        match &entries[i].1 {
            JsonValue::Str(v) => {
                r.push((entries[i].0.clone(), v.clone()));
            },
            _ => {},
        }
        i = i + 1;
        assert(pair_views(r@) =~= string_members(entries@.take(i as int)));
    }
    assert(entries@.take(entries@.len() as int) =~= entries@);
    r
}

fn push_pair(env: &mut Vec<(String, String)>, name: &str, value: &str)
    ensures
        pair_views(final(env)@) == pair_views(old(env)@).push((name@, value@)),
{
    env.push((String::from_str(name), String::from_str(value)));
    assert(pair_views(env@) =~= pair_views(old(env)@).push((name@, value@)));
}

impl ManagedBackend {
    /// A backend with the given configuration whose process has not been
    /// started.
    pub fn new(
        id: String,
        name: String,
        kind: BackendKind,
        start_command: String,
        start_args: Option<Vec<String>>,
        working_dir: Option<String>,
        host: String,
        port: u16,
        health_path: String,
        api_key: Option<String>,
        env_json: Option<JsonValue>,
        auto_restart: bool,
        startup_timeout_ms: u64,
    ) -> (r: ManagedBackend)
        ensures
            r@ == idle_state(
                BackendConfig {
                    id,
                    name,
                    kind,
                    start_command,
                    start_args,
                    working_dir,
                    host,
                    port,
                    health_path,
                    api_key,
                    env_json,
                    auto_restart,
                    startup_timeout_ms,
                },
            ),
    {
        let config = BackendConfig {
            id,
            name,
            kind,
            start_command,
            start_args,
            working_dir,
            host,
            port,
            health_path,
            api_key,
            env_json,
            auto_restart,
            startup_timeout_ms,
        };
        ManagedBackend {
            config,
            status: BackendStatus::Stopped,
            pid: None,
            last_error: None,
            running: false,
            accepts_input: false,
            has_child: false,
            logs: LogBuffer::new(),
        }
    }

    /// The configuration.
    pub fn config(&self) -> (r: &BackendConfig)
        ensures
            *r == self@.config,
    {
        &self.config
    }

    /// The current status.
    pub fn status(&self) -> (r: BackendStatus)
        ensures
            r == self@.status,
    {
        self.status
    }

    /// The id of the running process, if any.
    pub fn pid(&self) -> (r: Option<u32>)
        ensures
            r == self@.pid,
    {
        self.pid
    }

    /// The last error recorded, if any.
    pub fn last_error(&self) -> (r: Option<String>)
        ensures
            opt_view(r) == self@.last_error,
    {
        clone_opt(&self.last_error)
    }

    /// The log lines held, oldest first.
    pub fn logs(&self) -> (r: Vec<String>)
        ensures
            views(r@) == self@.logs,
    {
        self.logs.lines()
    }

    /// Whether a launched process is considered running.
    pub fn is_running(&self) -> (r: bool)
        ensures
            r == self@.running,
    {
        self.running
    }

    /// Appends a line to the log.
    pub fn log(&mut self, message: String)
        ensures
            final(self)@ == (RuntimeState { logs: logged(old(self)@.logs, message@), ..old(self)@ }),
    {
        self.logs.push(message);
    }

    fn set_status(&mut self, status: BackendStatus)
        ensures
            final(self)@ == (RuntimeState { status, ..old(self)@ }),
    {
        self.status = status;
    }

    /// Records the outcome of a health check. A success marks a launched
    /// backend running and clears the last error; a failure records its
    /// message and marks the backend failed when no process is known.
    pub fn set_health_result(&mut self, ok: bool, message: Option<String>)
        ensures
            final(self)@ == health_recorded(old(self)@, ok, opt_view(message)),
    {
        if ok {
            if self.running || self.pid.is_some() {
                self.set_status(BackendStatus::Running);
            }
            self.last_error = None;
        } else {
            self.last_error = message;
            if !self.running && self.pid.is_none() {
                self.set_status(BackendStatus::Error);
            }
        }
    }

    /// Begins a start: refused while the backend is running or starting;
    /// otherwise the backend becomes starting with no error.
    pub fn begin_start(&mut self) -> (r: Result<(), String>)
        ensures
            start_refused(old(self)@) ==> (r matches Err(e) && final(self)@ == old(self)@
                && e@ == already_message(old(self)@.config.name@, old(self)@.status)),
            !start_refused(old(self)@) ==> r is Ok && final(self)@ == start_begun(old(self)@),
    {
        let current = self.status;
        if current == BackendStatus::Running || current == BackendStatus::Starting {
            let mut e = String::from_str("Backend ");
            e.append(self.config.name.as_str());
            e.append(" is already ");
            e.append(current.as_str());
            return Err(e);
        }
        self.set_status(BackendStatus::Starting);
        self.last_error = None;
        let mut line = String::from_str("Starting backend ");
        line.append(self.config.name.as_str());
        line.append("...");
        self.log(line);
        Ok(())
    }

    /// How to launch this backend: the command with its arguments when
    /// arguments are given, else the command line through the platform's
    /// shell; the working directory; the environment; and always with piped
    /// standard streams and killed when dropped.
    pub fn launch_plan(&self, windows: bool) -> (r: LaunchPlan)
        ensures
            launches_directly(self@.config.start_args) ==> {
                &&& r.program@ == self@.config.start_command@
                &&& views(r.args@) == views(self@.config.start_args->Some_0@)
            },
            (self@.config.start_args is Some && self@.config.start_args->Some_0@.len() > 0) ==> {
                &&& r.program@ == self@.config.start_command@
                &&& views(r.args@) == views(self@.config.start_args->Some_0@)
            },
            (self@.config.start_args is None || self@.config.start_args->Some_0@.len() == 0) ==> {
                &&& r.program@ == (if windows { "cmd"@ } else { "sh"@ })
                &&& views(r.args@) == seq![
                    if windows { "/C"@ } else { "-lc"@ },
                    self@.config.start_command@,
                ]
            },
            !launches_directly(self@.config.start_args) && windows ==> {
                &&& r.program@ == "cmd"@
                &&& views(r.args@) == seq!["/C"@, self@.config.start_command@]
            },
            !launches_directly(self@.config.start_args) && !windows ==> {
                &&& r.program@ == "sh"@
                &&& views(r.args@) == seq!["-lc"@, self@.config.start_command@]
            },
            opt_view(r.working_dir) == opt_view(self@.config.working_dir),
            pair_views(r.env@) == launch_env(self@.config),
            r.hide_window == windows,
            r.piped_stdio,
            r.kill_on_drop,
    {
        let direct = match &self.config.start_args {
            Some(a) => a.len() > 0,
            None => false,
        };
        let mut args: Vec<String> = Vec::new();
        let program;
        if direct {
            program = self.config.start_command.clone();
            match &self.config.start_args {
                Some(a) => {
                    args = crate::logs::clone_strings(a);
                },
                None => {},
            }
        } else if windows {
            program = String::from_str("cmd");
            args.push(String::from_str("/C"));
            args.push(self.config.start_command.clone());
            assert(views(args@) =~= seq!["/C"@, self.config.start_command@]);
        } else {
            program = String::from_str("sh");
            args.push(String::from_str("-lc"));
            args.push(self.config.start_command.clone());
            assert(views(args@) =~= seq!["-lc"@, self.config.start_command@]);
        }
        let mut env: Vec<(String, String)> = match &self.config.env_json {
            Some(JsonValue::Object(entries)) => string_member_pairs(entries),
            _ => Vec::new(),
        };
        assert(pair_views(env@) == configured_env(self.config.env_json)) by {
            if !(self.config.env_json matches Some(JsonValue::Object(_))) {
                assert(pair_views(env@) =~= Seq::<(Seq<char>, Seq<char>)>::empty());
            }
        }
        if self.config.port > 0 {
            let p = decimal_string(self.config.port as u64);
            push_pair(&mut env, "PORT", p.as_str());
        }
        if !is_blank(self.config.host.as_str()) {
            push_pair(&mut env, "HOST", self.config.host.as_str());
        }
        match &self.config.api_key {
            Some(k) => {
                if !k.as_str().is_empty() {
                    push_pair(&mut env, "API_KEY", k.as_str());
                    push_pair(&mut env, "OPENAI_API_KEY", k.as_str());
                    push_pair(&mut env, "ANTHROPIC_API_KEY", k.as_str());
                }
            },
            None => {},
        }
        LaunchPlan {
            program,
            args,
            working_dir: clone_opt(&self.config.working_dir),
            env,
            hide_window: windows,
            piped_stdio: true,
            kill_on_drop: true,
        }
    }

    /// The message with which a failed launch is reported. The backend's
    /// state is left as it is.
    pub fn spawn_failure(&self, detail: &str) -> (r: String)
        ensures
            r@ == spawn_failure_message(detail@),
    {
        let mut e = String::from_str("Failed to spawn process: ");
        e.append(detail);
        e
    }

    /// Records a launched process: its id, whether its input is open, and
    /// that it is running.
    pub fn record_spawn(&mut self, pid: Option<u32>, accepts_input: bool)
        ensures
            final(self)@ == spawned(old(self)@, pid, accepts_input),
    {
        self.pid = pid;
        self.accepts_input = accepts_input;
        self.running = true;
        self.has_child = true;
    }

    /// Completes a launch: without a port or health path the backend is
    /// running at once; otherwise the readiness URL to poll is returned. The
    /// start is logged either way.
    pub fn finish_start(&mut self) -> (r: Option<HealthProbe>)
        ensures
            final(self)@ == start_finished(old(self)@),
            ready_without_probe(old(self)@.config) ==> r is None,
            !ready_without_probe(old(self)@.config) ==> (r matches Some(p) && p.url@
                == startup_health_url(old(self)@.config) && p.timeout_ms
                == old(self)@.config.startup_timeout_ms),
    {
        let probe = if self.config.port == 0 || is_blank(self.config.health_path.as_str()) {
            self.set_status(BackendStatus::Running);
            None
        } else {
            let mut url = String::from_str("http://");
            url.append(self.config.host.as_str());
            url.append(":");
            let p = decimal_string(self.config.port as u64);
            url.append(p.as_str());
            url.append(self.config.health_path.as_str());
            Some(HealthProbe { url, timeout_ms: self.config.startup_timeout_ms })
        };
        let mut line = String::from_str("Backend ");
        line.append(self.config.name.as_str());
        line.append(" started (pid: ");
        let d = pid_debug_string(self.pid);
        line.append(d.as_str());
        line.append(")");
        self.log(line);
        probe
    }

    /// Whether polling for readiness goes on: only while the process runs.
    pub fn keeps_probing(&self) -> (r: bool)
        ensures
            r == self@.running,
    {
        self.running
    }

    /// Records the end of readiness polling: healthy means running;
    /// otherwise the backend failed to start.
    pub fn finish_health_wait(&mut self, healthy: bool)
        ensures
            final(self)@ == health_wait_finished(old(self)@, healthy),
    {
        if healthy {
            self.set_status(BackendStatus::Running);
        } else {
            self.set_status(BackendStatus::Error);
            self.last_error = Some(String::from_str("Health check failed or timeout"));
        }
    }

    /// Whether the process watcher goes on: while the process is running
    /// and held.
    pub fn watch_continues(&self) -> (r: bool)
        ensures
            r == (self@.running && self@.has_child),
    {
        self.running && self.has_child
    }

    /// Records the end of the watched process: it no longer runs and has no
    /// id; a clean exit leaves the backend stopped, any other end failed.
    pub fn record_exit(&mut self, exit: ProcessExit)
        ensures
            final(self)@ == exit_recorded(old(self)@, exit),
    {
        self.running = false;
        self.pid = None;
        self.has_child = false;
        match exit {
            ProcessExit::Exited { success, description } => {
                if success {
                    self.set_status(BackendStatus::Stopped);
                    let mut line = String::from_str("Process exited: ");
                    line.append(description.as_str());
                    self.log(line);
                } else {
                    self.set_status(BackendStatus::Error);
                    let mut e = String::from_str("Process exited: ");
                    e.append(description.as_str());
                    self.last_error = Some(e);
                    let mut line = String::from_str("Process exited with error: ");
                    line.append(description.as_str());
                    self.log(line);
                }
            },
            ProcessExit::WatchFailed { description } => {
                self.set_status(BackendStatus::Error);
                let mut e = String::from_str("Failed to watch process: ");
                e.append(description.as_str());
                self.last_error = Some(e.clone());
                self.log(e);
            },
        }
    }

    /// Begins a stop: the backend is stopping, no longer running, its input
    /// is closed and its process released. Returns whether there was a
    /// process to kill.
    pub fn begin_stop(&mut self) -> (had_child: bool)
        ensures
            had_child == old(self)@.has_child,
            final(self)@ == stop_begun(old(self)@),
    {
        self.set_status(BackendStatus::Stopping);
        let mut line = String::from_str("Stopping backend ");
        line.append(self.config.name.as_str());
        line.append("...");
        self.log(line);
        self.running = false;
        self.accepts_input = false;
        let had_child = self.has_child;
        self.has_child = false;
        had_child
    }

    /// Completes a stop, after the process was killed (or killing it
    /// failed, which is logged): the backend is stopped and has no process.
    pub fn finish_stop(&mut self, kill_error: Option<String>) -> (r: Result<(), String>)
        ensures
            r is Ok,
            final(self)@ == stop_finished(old(self)@, opt_view(kill_error)),
    {
        match kill_error {
            Some(e) => {
                let mut line = String::from_str("Error killing process: ");
                line.append(e.as_str());
                self.log(line);
            },
            None => {},
        }
        self.pid = None;
        self.set_status(BackendStatus::Stopped);
        let mut line = String::from_str("Backend ");
        line.append(self.config.name.as_str());
        line.append(" stopped");
        self.log(line);
        Ok(())
    }

    /// Decides whether input can be sent: refused unless the process runs
    /// and its input is open. On success returns the line ending to write
    /// after the input, if the input does not end a line already.
    pub fn prepare_input(&self, input: &str, windows: bool) -> (r: Result<Option<&'static str>, String>)
        ensures
            match r {
                Ok(nl) => input_decision(self@, self@.config.name@, input@, windows) == Ok::<
                    Option<Seq<char>>,
                    Seq<char>,
                >(match nl {
                    Some(t) => Some(t@),
                    None => None,
                }),
                Err(e) => input_decision(self@, self@.config.name@, input@, windows) == Err::<
                    Option<Seq<char>>,
                    Seq<char>,
                >(e@),
            },
    {
        if !self.running {
            let mut e = String::from_str("Backend ");
            e.append(self.config.name.as_str());
            e.append(" is not running");
            return Err(e);
        }
        if !self.accepts_input {
            let mut e = String::from_str("Backend ");
            e.append(self.config.name.as_str());
            e.append(" does not accept input");
            return Err(e);
        }
        let v = crate::text::chars_of(input);
        let ends_line = v.len() > 0 && (v[v.len() - 1] == '\n' || v[v.len() - 1] == '\r');
        if ends_line {
            Ok(None)
        } else if windows {
            Ok(Some("\r\n"))
        } else {
            Ok(Some("\n"))
        }
    }

    /// Logs input that was written to the process.
    pub fn record_input(&mut self, input: &str)
        ensures
            final(self)@ == (RuntimeState {
                logs: logged(old(self)@.logs, input_line(input@)),
                ..old(self)@
            }),
    {
        let mut line = String::from_str("[in] ");
        let t = trim_end(input);
        line.append(t.as_str());
        self.log(line);
    }

    /// Applies an event to the record and answers it.
    pub fn handle_event(&mut self, ev: BackendEvent) -> (out: EventOutcome)
        ensures
            final(self)@ == event_step(old(self)@, ev),
            event_answer(old(self)@, ev, out),
    {
        match ev {
            BackendEvent::BeginStart => EventOutcome::Started(self.begin_start()),
            BackendEvent::Spawned { pid, accepts_input } => {
                self.record_spawn(pid, accepts_input);
                EventOutcome::Done
            },
            BackendEvent::FinishStart => EventOutcome::Probe(self.finish_start()),
            BackendEvent::HealthWaitFinished { healthy } => {
                self.finish_health_wait(healthy);
                EventOutcome::Done
            },
            BackendEvent::HealthResult { ok, message } => {
                self.set_health_result(ok, message);
                EventOutcome::Done
            },
            BackendEvent::Exited { exit } => {
                self.record_exit(exit);
                EventOutcome::Done
            },
            BackendEvent::BeginStop => EventOutcome::HadChild(self.begin_stop()),
            BackendEvent::FinishStop { kill_error } => EventOutcome::Stopped(
                self.finish_stop(kill_error),
            ),
            BackendEvent::InputWritten { input } => {
                self.record_input(input.as_str());
                EventOutcome::Done
            },
            BackendEvent::Log { line } => {
                self.log(line);
                EventOutcome::Done
            },
        }
    }
}

/// Stopping settles a backend whatever its state: it is stopped, holds no
/// process, has no process id, takes no input, keeps its configuration and
/// can be started again.
pub proof fn lemma_stop_settles(st: RuntimeState, kill_error: Option<Seq<char>>)
    ensures
        stop_finished(stop_begun(st), kill_error).status == BackendStatus::Stopped,
        stop_finished(stop_begun(st), kill_error).pid is None,
        !stop_finished(stop_begun(st), kill_error).running,
        !stop_finished(stop_begun(st), kill_error).accepts_input,
        !stop_finished(stop_begun(st), kill_error).has_child,
        stop_finished(stop_begun(st), kill_error).config == st.config,
        !start_refused(stop_finished(stop_begun(st), kill_error)),
{
}

/// A restart (a stop, then a start) always gets as far as starting, with the
/// last error cleared.
pub proof fn lemma_restart_begins_start(st: RuntimeState, kill_error: Option<Seq<char>>)
    ensures
        !start_refused(stop_finished(stop_begun(st), kill_error)),
        start_begun(stop_finished(stop_begun(st), kill_error)).status == BackendStatus::Starting,
        start_begun(stop_finished(stop_begun(st), kill_error)).last_error is None,
{
}

/// A start is refused exactly while the backend is running or starting.
pub proof fn lemma_start_refused_iff_active(st: RuntimeState)
    ensures
        start_refused(st) <==> (st.status == BackendStatus::Running || st.status
            == BackendStatus::Starting),
{
}

/// Once the watched process has ended the backend no longer runs, has no
/// process id, and can be started again; it is stopped exactly when the
/// process exited successfully.
pub proof fn lemma_exit_allows_start(st: RuntimeState, exit: ProcessExit)
    ensures
        !exit_recorded(st, exit).running,
        exit_recorded(st, exit).pid is None,
        !start_refused(exit_recorded(st, exit)),
        (exit_recorded(st, exit).status == BackendStatus::Stopped) <==> (exit matches ProcessExit::Exited { success, .. } && success),
{
}

/// A successful health check of a launched process marks the backend
/// running with no error.
pub proof fn lemma_health_after_spawn(
    st: RuntimeState,
    pid: Option<u32>,
    accepts_input: bool,
    message: Option<Seq<char>>,
)
    ensures
        health_recorded(spawned(st, pid, accepts_input), true, message).status
            == BackendStatus::Running,
        health_recorded(spawned(st, pid, accepts_input), true, message).last_error is None,
{
}

/// A failed health check records its message and never changes the status
/// of a backend whose process is running or known.
pub proof fn lemma_failed_check_keeps_live_status(st: RuntimeState, message: Option<Seq<char>>)
    requires
        st.running || st.pid is Some,
    ensures
        health_recorded(st, false, message).status == st.status,
        health_recorded(st, false, message).last_error == message,
{
}

/// No lifecycle step changes the configuration of a backend.
pub proof fn lemma_steps_keep_config(
    st: RuntimeState,
    pid: Option<u32>,
    accepts_input: bool,
    ok: bool,
    message: Option<Seq<char>>,
    exit: ProcessExit,
    kill_error: Option<Seq<char>>,
)
    ensures
        start_begun(st).config == st.config,
        spawned(st, pid, accepts_input).config == st.config,
        start_finished(st).config == st.config,
        health_wait_finished(st, ok).config == st.config,
        health_recorded(st, ok, message).config == st.config,
        exit_recorded(st, exit).config == st.config,
        stop_begun(st).config == st.config,
        stop_finished(st, kill_error).config == st.config,
{
}

/// A logged line always leaves at most `MAX_LOG_LINES` lines, the newest
/// being that line.
pub proof fn lemma_logged_bounded(logs: Seq<Seq<char>>, line: Seq<char>)
    ensures
        logged(logs, line).len() <= MAX_LOG_LINES,
        logged(logs, line).last() == line,
{
}


/// A stopped backend refuses input until it is started again.
pub proof fn lemma_no_input_after_stop(
    st: RuntimeState,
    kill_error: Option<Seq<char>>,
    input: Seq<char>,
    windows: bool,
)
    ensures
        input_decision(stop_finished(stop_begun(st), kill_error), st.config.name@, input, windows)
            == Err::<Option<Seq<char>>, Seq<char>>(not_running_message(st.config.name@)),
{
}

/// Arguments decide how a backend is launched: any non-empty list, a single
/// argument included, launches the command directly with exactly those
/// arguments; only absent or empty arguments go through the shell.
pub proof fn lemma_arguments_launch_directly(args: Option<Vec<String>>)
    ensures
        (args matches Some(a) && a@.len() >= 1) ==> launches_directly(args),
        !launches_directly(args) ==> (args is None || args->Some_0@.len() == 0),
{
}

/// A recorded health result as an event: after a success the backend has no
/// last error, and one whose process runs or has a process id is running;
/// after a failure its last error is the failure's message, and a backend
/// with no process at all is in error. Nothing else about the process
/// changes.
pub proof fn lemma_health_event(st: RuntimeState, ok: bool, message: Option<String>)
    ensures
        ({
            let after = event_step(st, BackendEvent::HealthResult { ok, message });
            &&& ok ==> after.last_error is None
            &&& ok && (st.running || st.pid is Some) ==> after.status == BackendStatus::Running
            &&& ok && !st.running && st.pid is None ==> after.status == st.status
            &&& !ok ==> after.last_error == opt_view(message)
            &&& !ok && !st.running && st.pid is None ==> after.status == BackendStatus::Error
            &&& !ok && (st.running || st.pid is Some) ==> after.status == st.status
            &&& after.pid == st.pid
            &&& after.running == st.running
            &&& after.has_child == st.has_child
            &&& after.config == st.config
        }),
{
}

/// A process end as an event: afterwards the backend does not run, holds no
/// process and has no process id; it is stopped exactly when the process
/// exited successfully, and otherwise in error with a last error that says
/// how it ended.
pub proof fn lemma_exit_event(st: RuntimeState, exit: ProcessExit)
    ensures
        ({
            let after = event_step(st, BackendEvent::Exited { exit });
            &&& !after.running
            &&& after.pid is None
            &&& !after.has_child
            &&& (after.status == BackendStatus::Stopped) <==> (exit matches ProcessExit::Exited { success, .. } && success)
            &&& after.status != BackendStatus::Stopped ==> after.status == BackendStatus::Error
            &&& match exit {
                ProcessExit::Exited { success, description } => if success {
                    after.last_error == st.last_error
                } else {
                    &&& after.last_error == Some("Process exited: "@ + description@)
                    &&& after.logs.last() == "Process exited with error: "@ + description@
                },
                ProcessExit::WatchFailed { description } => after.last_error == Some(
                    "Failed to watch process: "@ + description@,
                ),
            }
            &&& after.config == st.config
        }),
{
    match exit {
        ProcessExit::Exited { success, description } => {
            if success {
                lemma_logged_bounded(st.logs, exit_message(description@));
            } else {
                lemma_logged_bounded(st.logs, exit_error_line(description@));
            }
        },
        ProcessExit::WatchFailed { description } => {
            lemma_logged_bounded(st.logs, watch_failure_message(description@));
        },
    }
}

/// Finishing a stop as an event leaves the backend stopped with no process
/// id; a stop reported as events (begun, then finished) settles it: stopped,
/// not running, holding no process, taking no input and with no process id.
pub proof fn lemma_stop_events(st: RuntimeState, kill_error: Option<String>)
    ensures
        event_step(st, BackendEvent::FinishStop { kill_error }).status == BackendStatus::Stopped,
        event_step(st, BackendEvent::FinishStop { kill_error }).pid is None,
        ({
            let after = event_step(
                event_step(st, BackendEvent::BeginStop),
                BackendEvent::FinishStop { kill_error },
            );
            &&& after.status == BackendStatus::Stopped
            &&& after.pid is None
            &&& !after.running
            &&& !after.accepts_input
            &&& !after.has_child
            &&& after.config == st.config
        }),
{
}

/// The start of a backend as events: a start is refused, changing nothing,
/// exactly while the backend is running or starting, and otherwise leaves it
/// starting with no last error; a launched process makes it running with
/// that process id and input; finishing the launch makes it running at once
/// when it has no port or no health path, and leaves it as it was otherwise;
/// the end of readiness polling makes it running when it answered, else in
/// error with the timeout message.
pub proof fn lemma_start_events(st: RuntimeState, pid: Option<u32>, accepts_input: bool, healthy: bool)
    ensures
        ({
            let after = event_step(st, BackendEvent::BeginStart);
            &&& (st.status == BackendStatus::Running || st.status == BackendStatus::Starting)
                ==> after == st
            &&& !(st.status == BackendStatus::Running || st.status == BackendStatus::Starting)
                ==> after.status == BackendStatus::Starting && after.last_error is None
                && after.pid == st.pid && after.running == st.running
        }),
        ({
            let after = event_step(st, BackendEvent::Spawned { pid, accepts_input });
            &&& after.running
            &&& after.has_child
            &&& after.pid == pid
            &&& after.accepts_input == accepts_input
            &&& after.status == st.status
        }),
        ({
            let after = event_step(st, BackendEvent::FinishStart);
            &&& (st.config.port == 0 || blank(st.config.health_path@)) ==> after.status
                == BackendStatus::Running
            &&& !(st.config.port == 0 || blank(st.config.health_path@)) ==> after.status
                == st.status
            &&& after.pid == st.pid
            &&& after.running == st.running
        }),
        ({
            let after = event_step(st, BackendEvent::HealthWaitFinished { healthy });
            &&& healthy ==> after.status == BackendStatus::Running && after.last_error
                == st.last_error
            &&& !healthy ==> after.status == BackendStatus::Error && after.last_error == Some(
                "Health check failed or timeout"@,
            )
            &&& after.pid == st.pid
            &&& after.running == st.running
        }),
{
}

/// Beginning a stop as an event leaves the backend stopping, with its
/// process no longer running, held or taking input.
pub proof fn lemma_begin_stop_event(st: RuntimeState)
    ensures
        ({
            let after = event_step(st, BackendEvent::BeginStop);
            &&& after.status == BackendStatus::Stopping
            &&& !after.running
            &&& !after.accepts_input
            &&& !after.has_child
            &&& after.pid == st.pid
            &&& after.config == st.config
        }),
{
}

/// A log line, or a written input, as an event only adds its line to the
/// log: the newest line is that line and nothing else changes.
pub proof fn lemma_log_events(st: RuntimeState, line: String, input: String)
    ensures
        ({
            let after = event_step(st, BackendEvent::Log { line });
            &&& after.logs.last() == line@
            &&& after.logs.len() <= MAX_LOG_LINES
            &&& after == RuntimeState { logs: after.logs, ..st }
        }),
        ({
            let after = event_step(st, BackendEvent::InputWritten { input });
            &&& after.logs.last() == "[in] "@ + trim_end_seq(input@)
            &&& after == RuntimeState { logs: after.logs, ..st }
        }),
{
    lemma_logged_bounded(st.logs, line@);
    lemma_logged_bounded(st.logs, input_line(input@));
}

/// The environment of a launch starts with the configured string variables
/// and adds `PORT` (the port in decimal) when a port is set, `HOST` when the
/// host is not blank, and the API key as `API_KEY`, `OPENAI_API_KEY` and
/// `ANTHROPIC_API_KEY` when a non-empty key is configured; nothing else.
pub proof fn lemma_launch_env_variables(b: BackendConfig)
    ensures
        ({
            let env = launch_env(b);
            let base = configured_env(b.env_json);
            let key_given = b.api_key is Some && b.api_key->Some_0@.len() > 0;
            &&& env.take(base.len() as int) == base
            &&& env.len() == base.len() + (if b.port > 0 { 1int } else { 0 }) + (if !blank(b.host@) {
                1int
            } else {
                0
            }) + (if key_given { 3int } else { 0 })
            &&& b.port > 0 ==> env.contains(("PORT"@, decimal(b.port as nat)))
            &&& !blank(b.host@) ==> env.contains(("HOST"@, b.host@))
            &&& key_given ==> env.contains(("API_KEY"@, b.api_key->Some_0@))
            &&& key_given ==> env.contains(("OPENAI_API_KEY"@, b.api_key->Some_0@))
            &&& key_given ==> env.contains(("ANTHROPIC_API_KEY"@, b.api_key->Some_0@))
        }),
{
    let env = launch_env(b);
    let base = configured_env(b.env_json);
    let p = if b.port > 0 { 1int } else { 0 };
    let h = if !blank(b.host@) { 1int } else { 0 };
    assert(env.take(base.len() as int) =~= base);
    if b.port > 0 {
        assert(env[base.len() as int] == ("PORT"@, decimal(b.port as nat)));
    }
    if !blank(b.host@) {
        assert(env[base.len() + p] == ("HOST"@, b.host@));
    }
    if has_api_key(b.api_key) {
        let k = b.api_key->Some_0@;
        assert(env[base.len() + p + h] == ("API_KEY"@, k));
        assert(env[base.len() + p + h + 1] == ("OPENAI_API_KEY"@, k));
        assert(env[base.len() + p + h + 2] == ("ANTHROPIC_API_KEY"@, k));
    }
}

} // verus!
