//! What the user interface sends and is shown: requests to create and update
//! backends, the information shown for a backend, health checks, model
//! listings and the environment file of a backend's working directory.

use vstd::prelude::*;
use vstd::utf8::{decode_utf8, encode_utf8, is_char_boundary};
use crate::json::{JsonValue, extract_model_ids, ids_named, listing_items, strictly_sorted, views};
use crate::kind::{BackendKind, BackendStatus, kind_name, parse_kind, status_name, unknown_kind_message};
use crate::outside::{
    adds_separator, is_path_separator, join_path, json_document, json_error_text, json_string_list, json_text, json_text_of_strings,
    may_be_verbatim, parse_json, parse_string_list,
};
use crate::store::{
    self, NewBackend, UpdateStatement, env_text, insert_values, read_env, stored_env,
    update_statement,
};
use crate::text::{
    blank, decimal, decimal_string, is_blank, lemma_trim_idempotent, opt_view, trim,
    trim_seq,
};

verus! {

broadcast use vstd::utf8::encode_utf8_decode_utf8;

/// A request to create a backend.
pub struct CreateBackendRequest {
    pub name: String,
    pub kind: String,
    pub start_command: String,
    pub start_args: Option<Vec<String>>,
    pub working_dir: Option<String>,
    pub host: Option<String>,
    pub port: Option<u16>,
    pub health_path: Option<String>,
    pub api_key: Option<String>,
    pub env_json: Option<JsonValue>,
    pub auto_restart: Option<bool>,
    pub startup_timeout_ms: Option<u64>,
}

/// A request to change some fields of a backend.
pub struct UpdateBackendRequest {
    pub name: Option<String>,
    pub start_command: Option<String>,
    pub start_args: Option<Vec<String>>,
    pub working_dir: Option<String>,
    pub host: Option<String>,
    pub port: Option<u16>,
    pub health_path: Option<String>,
    pub api_key: Option<String>,
    pub env_json: Option<JsonValue>,
    pub auto_restart: Option<bool>,
    pub startup_timeout_ms: Option<u64>,
    pub enabled: Option<bool>,
}

/// What is shown of a backend: its stored fields and, when it is known at
/// run time, its run-time status.
pub struct BackendInfo {
    pub id: String,
    pub name: String,
    pub kind: String,
    pub enabled: bool,
    pub managed: bool,
    pub start_command: String,
    pub start_args: Option<Vec<String>>,
    pub working_dir: Option<String>,
    pub host: String,
    pub port: u16,
    pub health_path: String,
    pub api_key: Option<String>,
    pub env_json: Option<JsonValue>,
    pub auto_restart: bool,
    pub startup_timeout_ms: u64,
    pub status: String,
    pub pid: Option<u32>,
    pub last_error: Option<String>,
    pub created_at: i64,
    pub updated_at: i64,
}

/// The result of a health check.
pub struct BackendHealthResult {
    pub ok: bool,
    pub url: String,
    pub status: Option<u16>,
    pub latency_ms: u128,
    pub message: String,
    pub backend: BackendInfo,
}

/// The models that a backend lists.
pub struct BackendModelsResult {
    pub url: String,
    pub models: Vec<String>,
}

/// The environment file of a working directory.
pub struct BackendEnvFile {
    pub path: String,
    pub exists: bool,
    pub content: String,
}

/// The default host of a new backend.
pub open spec fn default_host() -> Seq<char> {
    "127.0.0.1"@
}

/// The default startup timeout of a new backend, in milliseconds.
pub const DEFAULT_STARTUP_TIMEOUT_MS: u64 = 10000;

/// The longest response text, in bytes, that messages quote.
pub const DISPLAY_LIMIT: usize = 240;

/// `s` with its views taken, for optional string slices.
pub open spec fn opt_str_view(o: Option<&str>) -> Option<Seq<char>> {
    match o {
        Some(s) => Some(s@),
        None => None,
    }
}

/// A trimmed, non-empty text, or nothing.
pub open spec fn cleaned(value: Option<Seq<char>>) -> Option<Seq<char>> {
    match value {
        Some(v) => if trim_seq(v).len() > 0 {
            Some(trim_seq(v))
        } else {
            None
        },
        None => None,
    }
}

/// Whether `value`, trimmed, can be cut at `max_len` bytes: it is not
/// longer, or the cut falls between characters.
pub open spec fn display_cut_ok(value: Seq<char>, max_len: usize) -> bool {
    let b = encode_utf8(trim_seq(value));
    b.len() <= max_len || is_char_boundary(b, max_len as int)
}

/// `value` trimmed, and cut after `max_len` bytes with `...` appended when it
/// is longer than that.
pub open spec fn display_text(value: Seq<char>, max_len: usize) -> Seq<char> {
    let t = trim_seq(value);
    let b = encode_utf8(t);
    if b.len() <= max_len {
        t
    } else {
        decode_utf8(b.subrange(0, max_len as int)) + "..."@
    }
}

/// The path part of a health URL: `/` for a blank path, else the path with a
/// leading `/` added when it has none.
pub open spec fn health_path_part(path: Seq<char>) -> Seq<char> {
    let p = if blank(path) {
        "/"@
    } else {
        path
    };
    if p.len() > 0 && p[0] == '/' {
        p
    } else {
        "/"@ + p
    }
}

/// The health URL of a stored backend, or why there is none.
pub open spec fn health_url(b: store::ManagedBackend) -> Result<Seq<char>, Seq<char>> {
    if b.port == 0 {
        Err("Port is required to run a health check"@)
    } else {
        Ok("http://"@ + b.host@ + ":"@ + decimal(b.port as nat) + health_path_part(b.health_path@))
    }
}

/// Whether an HTTP status code means success (200 to 299).
pub open spec fn success_code(code: u16) -> bool {
    200 <= code <= 299
}

/// The message of a health check that got a response with status `status`
/// (as written for display) and, when it failed, body `body`.
pub open spec fn health_message(code: u16, status: Seq<char>, body: Seq<char>) -> Seq<char> {
    if success_code(code) {
        "Health check OK ("@ + status + ")"@
    } else if blank(body) {
        "Health check failed ("@ + status + ")"@
    } else {
        "Health check failed ("@ + status + "): "@ + display_text(body, DISPLAY_LIMIT)
    }
}

/// Whether the stored arguments `c` are the readable JSON text `t`, parsed.
pub open spec fn args_match(c: Option<Vec<String>>, t: Option<String>) -> bool {
    match c {
        Some(a) => t matches Some(text) && json_string_list(text@) == Some(views(a@)),
        None => t matches Some(text) ==> json_string_list(text@) is None,
    }
}

/// Arguments read back: where a row holds the arguments as text that parses
/// to a list (as the text that `insert_values` and `update_statement` write
/// does), the backend shown for that row has exactly those arguments.
pub proof fn lemma_stored_args_read_back(
    args: Seq<Seq<char>>,
    stored: Option<String>,
    shown: Option<Vec<String>>,
)
    requires
        stored matches Some(t) && json_string_list(t@) == Some(args),
        args_match(shown, stored),
    ensures
        shown matches Some(s) && views(s@) == args,
{
}

/// Whether `info` shows the stored backend `b`, with the run-time state
/// `runtime` when it is known.
pub open spec fn shows(
    info: BackendInfo,
    b: store::ManagedBackend,
    runtime: Option<(BackendStatus, Option<u32>, Option<String>)>,
) -> bool {
    &&& info.id@ == b.id@
    &&& info.name@ == b.name@
    &&& info.kind@ == b.kind@
    &&& info.enabled == b.enabled
    &&& info.managed == b.managed
    &&& info.start_command@ == b.start_command@
    &&& args_match(info.start_args, b.start_args)
    &&& opt_view(info.working_dir) == opt_view(b.working_dir)
    &&& info.host@ == b.host@
    &&& info.port == b.port
    &&& info.health_path@ == b.health_path@
    &&& opt_view(info.api_key) == opt_view(b.api_key)
    &&& info.env_json == stored_env(b)
    &&& info.auto_restart == b.auto_restart
    &&& info.startup_timeout_ms == b.startup_timeout_ms
    &&& info.created_at == b.created_at
    &&& info.updated_at == b.updated_at
    &&& match runtime {
        Some((st, pid, err)) => {
            &&& info.status@ == status_name(st)
            &&& info.pid == pid
            &&& opt_view(info.last_error) == opt_view(err)
        },
        None => {
            &&& info.status@ == status_name(BackendStatus::Stopped)
            &&& info.pid is None
            &&& opt_view(info.last_error) == opt_view(b.last_error)
        },
    }
}

/// An optional string, trimmed, when it is not blank.
pub fn clean_optional_string(value: Option<&str>) -> (r: Option<String>)
    ensures
        opt_view(r) == cleaned(opt_str_view(value)),
{
    match value {
        Some(v) => {
            let t = trim(v);
            if t.as_str().is_empty() {
                None
            } else {
                Some(t)
            }
        },
        None => None,
    }
}

/// Whether `trim_for_display(value, max_len)` can cut `value` (it cannot
/// when the cut would fall inside a character).
pub fn display_cut_is_clean(value: &str, max_len: usize) -> (r: bool)
    ensures
        r == display_cut_ok(value@, max_len),
{
    let t = trim(value);
    let n = t.as_str().as_bytes().len();
    n <= max_len || t.as_str().is_char_boundary(max_len)
}

/// `value` trimmed, and cut after `max_len` bytes with `...` appended when it
/// is longer than that.
pub fn trim_for_display(value: &str, max_len: usize) -> (r: String)
    requires
        display_cut_ok(value@, max_len),
    ensures
        r@ == display_text(value@, max_len),
{
    let t = trim(value);
    if t.as_str().as_bytes().len() <= max_len {
        t
    } else {
        let (head, _) = t.as_str().split_at(max_len);
        assert(head@ == decode_utf8(encode_utf8(t@).subrange(0, max_len as int))) by {
            assert(decode_utf8(encode_utf8(head@)) == head@);
        }
        let mut r = String::from_str(head);
        r.append("...");
        r
    }
}

/// The URL on which a stored backend answers health checks.
pub fn backend_health_url(backend: &store::ManagedBackend) -> (r: Result<String, String>)
    ensures
        match r {
            Ok(u) => health_url(*backend) == Ok::<Seq<char>, Seq<char>>(u@),
            Err(e) => health_url(*backend) == Err::<Seq<char>, Seq<char>>(e@),
        },
{
    if backend.port == 0 {
        return Err(String::from_str("Port is required to run a health check"));
    }
    let path = if is_blank(backend.health_path.as_str()) {
        String::from_str("/")
    } else {
        backend.health_path.clone()
    };
    let v = crate::text::chars_of(path.as_str());
    let path = if v.len() > 0 && v[0] == '/' {
        path
    } else {
        let mut p = String::from_str("/");
        p.append(path.as_str());
        p
    };
    let mut url = String::from_str("http://");
    url.append(backend.host.as_str());
    url.append(":");
    let port = decimal_string(backend.port as u64);
    url.append(port.as_str());
    url.append(path.as_str());
    Ok(url)
}

/// The URL on which a stored backend lists its models, or why there is none.
pub fn models_url(backend: &store::ManagedBackend) -> (r: Result<String, String>)
    ensures
        backend.port == 0 ==> (r matches Err(e) && e@ == "Port is required to list models"@),
        backend.port != 0 ==> (r matches Ok(u) && u@ == "http://"@ + backend.host@ + ":"@
            + decimal(backend.port as nat) + "/v1/models"@),
{
    if backend.port == 0 {
        return Err(String::from_str("Port is required to list models"));
    }
    let mut url = String::from_str("http://");
    url.append(backend.host.as_str());
    url.append(":");
    let port = decimal_string(backend.port as u64);
    url.append(port.as_str());
    url.append("/v1/models");
    Ok(url)
}

/// The bearer token sent with requests to a backend: its API key, when it
/// has a non-empty one.
pub fn bearer_token(api_key: &Option<String>) -> (r: Option<String>)
    ensures
        match *api_key {
            Some(k) => if k@.len() > 0 {
                opt_view(r) == Some(k@)
            } else {
                r is None
            },
            None => r is None,
        },
{
    match api_key {
        Some(k) => if k.as_str().is_empty() {
            None
        } else {
            Some(k.clone())
        },
        None => None,
    }
}

/// Whether an HTTP status code means success (200 to 299).
pub fn is_success(code: u16) -> (r: bool)
    ensures
        r == success_code(code),
{
    200 <= code && code <= 299
}

/// The outcome of a health check that got a response: whether it succeeded,
/// and its message. `status` is the status as written for display; `body` is
/// read only when the check failed.
pub fn health_check_message(code: u16, status: &str, body: &str) -> (r: (bool, String))
    requires
        success_code(code) || display_cut_ok(body@, DISPLAY_LIMIT),
    ensures
        r.0 == success_code(code),
        r.1@ == health_message(code, status@, body@),
{
    if is_success(code) {
        let mut m = String::from_str("Health check OK (");
        m.append(status);
        m.append(")");
        (true, m)
    } else if is_blank(body) {
        let mut m = String::from_str("Health check failed (");
        m.append(status);
        m.append(")");
        (false, m)
    } else {
        let mut m = String::from_str("Health check failed (");
        m.append(status);
        m.append("): ");
        let d = trim_for_display(body, DISPLAY_LIMIT);
        m.append(d.as_str());
        (false, m)
    }
}

/// The message of a health check whose request failed.
pub fn health_request_failure(detail: &str) -> (r: String)
    ensures
        r@ == "Health check failed: "@ + detail@,
{
    let mut m = String::from_str("Health check failed: ");
    m.append(detail);
    m
}

/// The message of a model listing answered with a failure status.
pub fn models_failure_message(status: &str, body: &str) -> (r: String)
    requires
        display_cut_ok(body@, DISPLAY_LIMIT),
    ensures
        r@ == "Models request failed ("@ + status@ + "): "@ + display_text(body@, DISPLAY_LIMIT),
{
    let mut m = String::from_str("Models request failed (");
    m.append(status);
    m.append("): ");
    let d = trim_for_display(body, DISPLAY_LIMIT);
    m.append(d.as_str());
    m
}

/// How a health check went: whether it succeeded, the status code when a
/// response came, and the message.
pub struct HealthOutcome {
    pub ok: bool,
    pub status: Option<u16>,
    pub message: String,
}

impl HealthOutcome {
    /// The error that a health check records on the backend: none when it
    /// succeeded, else its message.
    pub fn recorded_error(&self) -> (r: Option<String>)
        ensures
            self.ok ==> r is None,
            !self.ok ==> opt_view(r) == Some(self.message@),
    {
        if self.ok {
            None
        } else {
            Some(self.message.clone())
        }
    }
}

/// The outcome of a health check answered with the status `code` (written
/// `status` for display); `body` is read only when the check failed.
pub fn health_answered(code: u16, status: &str, body: &str) -> (r: HealthOutcome)
    requires
        success_code(code) || display_cut_ok(body@, DISPLAY_LIMIT),
    ensures
        r.ok == success_code(code),
        r.status == Some(code),
        r.message@ == health_message(code, status@, body@),
{
    let (ok, message) = health_check_message(code, status, body);
    HealthOutcome { ok, status: Some(code), message }
}

/// The outcome of a health check whose request failed with `detail`.
pub fn health_unanswered(detail: &str) -> (r: HealthOutcome)
    ensures
        !r.ok,
        r.status is None,
        r.message@ == "Health check failed: "@ + detail@,
{
    HealthOutcome { ok: false, status: None, message: health_request_failure(detail) }
}

/// The result of a health check: its outcome, the URL checked, how long it
/// took, and the backend as shown after the outcome was recorded.
pub fn health_result(outcome: HealthOutcome, url: String, latency_ms: u128, backend: BackendInfo) -> (r: BackendHealthResult)
    ensures
        r.ok == outcome.ok,
        r.url == url,
        r.status == outcome.status,
        r.latency_ms == latency_ms,
        r.message == outcome.message,
        r.backend == backend,
{
    BackendHealthResult {
        ok: outcome.ok,
        url,
        status: outcome.status,
        latency_ms,
        message: outcome.message,
        backend,
    }
}

/// The message of a model listing whose request could not be sent.
pub fn models_request_failure(detail: &str) -> (r: String)
    ensures
        r@ == "Failed to list models: "@ + detail@,
{
    let mut m = String::from_str("Failed to list models: ");
    m.append(detail);
    m
}

/// The message of a model listing whose answer could not be read.
pub fn models_read_failure(detail: &str) -> (r: String)
    ensures
        r@ == "Failed to read models response: "@ + detail@,
{
    let mut m = String::from_str("Failed to read models response: ");
    m.append(detail);
    m
}

/// The models listed in an answer with the status `code` (written `status`
/// for display): a failure status is reported with the body, else the body
/// is read as a listing.
pub fn models_response(url: String, code: u16, status: &str, body: &str) -> (r: Result<BackendModelsResult, String>)
    requires
        success_code(code) || display_cut_ok(body@, DISPLAY_LIMIT),
    ensures
        !success_code(code) ==> (r matches Err(e) && e@ == "Models request failed ("@ + status@
            + "): "@ + display_text(body@, DISPLAY_LIMIT)),
        success_code(code) ==> match json_document(body@) {
            Some(v) => r matches Ok(m) && m.url == url && strictly_sorted(views(m.models@))
                && views(m.models@).to_set() == ids_named(listing_items(v), listing_items(v).len() as int),
            None => r matches Err(e) && e@ == "Invalid models JSON: "@ + json_error_text(body@),
        },
{
    if !is_success(code) {
        return Err(models_failure_message(status, body));
    }
    models_from_body(url, body)
}

/// Whether an update first stops and forgets the backend: it does when the
/// backend is known at run time, so that its next start reads the updated
/// row.
pub fn resets_before_update(runtime: &Option<(BackendStatus, Option<u32>, Option<String>)>) -> (r: bool)
    ensures
        r == runtime.is_some(),
{
    runtime.is_some()
}

/// The models that a listing document names, sorted and each once, with the
/// URL they were listed from.
pub fn models_result(url: String, value: &JsonValue) -> (r: BackendModelsResult)
    ensures
        r.url == url,
        strictly_sorted(views(r.models@)),
        views(r.models@).to_set() == ids_named(listing_items(*value), listing_items(*value).len() as int),
{
    BackendModelsResult { url, models: extract_model_ids(value) }
}

/// The information shown for a stored backend that is not known at run time.
pub fn from_row(b: store::ManagedBackend) -> (r: BackendInfo)
    ensures
        shows(r, b, None),
{
    from_row_with_runtime(b, None)
}

/// The information shown for a stored backend: its stored fields (the
/// arguments and the environment read from their JSON text, unreadable ones
/// shown as none), and the run-time status, process id and last error when
/// it is known at run time, else `stopped`, none, and the stored last error.
pub fn from_row_with_runtime(
    b: store::ManagedBackend,
    runtime: Option<(BackendStatus, Option<u32>, Option<String>)>,
) -> (r: BackendInfo)
    ensures
        shows(r, b, runtime),
{
    let start_args = match &b.start_args {
        Some(t) => parse_string_list(t.as_str()),
        None => None,
    };
    let env_json = read_env(&b.env_json);
    let (status, pid, last_error) = match runtime {
        Some((st, pid, err)) => (String::from_str(st.as_str()), pid, err),
        None => (String::from_str(BackendStatus::Stopped.as_str()), None, b.last_error),
    };
    BackendInfo {
        id: b.id,
        name: b.name,
        kind: b.kind,
        enabled: b.enabled,
        managed: b.managed,
        start_command: b.start_command,
        start_args,
        working_dir: b.working_dir,
        host: b.host,
        port: b.port,
        health_path: b.health_path,
        api_key: b.api_key,
        env_json,
        auto_restart: b.auto_restart,
        startup_timeout_ms: b.startup_timeout_ms,
        status,
        pid,
        last_error,
        created_at: b.created_at,
        updated_at: b.updated_at,
    }
}

/// The models that a backend lists, read from the body of its answer: the
/// body must be JSON, else the reading's error is reported.
pub fn models_from_body(url: String, body: &str) -> (r: Result<BackendModelsResult, String>)
    ensures
        match json_document(body@) {
            Some(v) => r matches Ok(m) && m.url == url && strictly_sorted(views(m.models@))
                && views(m.models@).to_set() == ids_named(listing_items(v), listing_items(v).len() as int),
            None => r matches Err(e) && e@ == "Invalid models JSON: "@ + json_error_text(body@),
        },
{
    match parse_json(body) {
        Ok(v) => Ok(models_result(url, &v)),
        Err(e) => {
            let mut m = String::from_str("Invalid models JSON: ");
            m.append(e.as_str());
            Err(m)
        },
    }
}

/// The path of the environment file of a directory: `.env` joined to it as
/// the platform joins paths, so with a separator between them where the
/// directory needs one. For a directory that may carry a Windows
/// verbatim prefix nothing is said of the path (Windows normalizes it).
pub fn env_file_location(dir: &str) -> (r: String)
    ensures
        !may_be_verbatim(dir@) ==> {
            &&& dir@.len() + 4 <= r@.len() <= dir@.len() + 5
            &&& r@.take(dir@.len() as int) == dir@
            &&& r@.skip(r@.len() - 4) == ".env"@
            &&& r@.len() == dir@.len() + 5 ==> is_path_separator(r@[dir@.len() as int])
            &&& dir@.len() > 0 && dir@.last() == '/' ==> r@.len() == dir@.len() + 4
            &&& adds_separator(dir@) ==> r@.len() == dir@.len() + 5
        },
{
    proof {
        reveal_strlit(".env");
    }
    join_path(dir, ".env")
}

/// What reading an environment file gave: its content, nothing because it
/// does not exist, or a failure with its description.
pub enum EnvFileRead {
    Read(String),
    Missing,
    Failed(String),
}

/// The environment file at `path`, from what reading it gave: a missing file
/// is shown as existing with no content, a failed read is an error.
pub fn env_file_from_read(path: String, read: EnvFileRead) -> (r: Result<BackendEnvFile, String>)
    ensures
        match read {
            EnvFileRead::Read(c) => r matches Ok(f) && f.path == path && f.exists && f.content == c,
            EnvFileRead::Missing => r matches Ok(f) && f.path == path && !f.exists && f.content@
                == Seq::<char>::empty(),
            EnvFileRead::Failed(d) => r matches Err(e) && e@ == "Failed to read .env: "@ + d@,
        },
{
    match read {
        EnvFileRead::Read(content) => Ok(BackendEnvFile { path, exists: true, content }),
        EnvFileRead::Missing => Ok(BackendEnvFile { path, exists: false, content: String::new() }),
        EnvFileRead::Failed(d) => {
            let mut m = String::from_str("Failed to read .env: ");
            m.append(d.as_str());
            Err(m)
        },
    }
}

/// The message of an environment file that could not be written.
pub fn env_write_failure(detail: &str) -> (r: String)
    ensures
        r@ == "Failed to write .env: "@ + detail@,
{
    let mut m = String::from_str("Failed to write .env: ");
    m.append(detail);
    m
}

/// The information shown for each stored backend, in order, each with its
/// run-time state (`runtimes[i]` belongs to `rows[i]`).
pub fn infos_with_runtime(
    rows: Vec<store::ManagedBackend>,
    runtimes: Vec<Option<(BackendStatus, Option<u32>, Option<String>)>>,
) -> (r: Vec<BackendInfo>)
    requires
        rows.len() == runtimes.len(),
    ensures
        r.len() == rows.len(),
        forall|i: int| 0 <= i < rows.len() ==> shows(#[trigger] r@[i], rows@[i], runtimes@[i]),
{
    let ghost rows0 = rows@;
    let ghost rts0 = runtimes@;
    let mut rows = rows;
    let mut runtimes = runtimes;
    let mut r: Vec<BackendInfo> = Vec::new();
    while rows.len() > 0
        invariant
            rows.len() == runtimes.len(),
            rows.len() + r.len() == rows0.len(),
            rows0.len() == rts0.len(),
            rows@ == rows0.take(rows.len() as int),
            runtimes@ == rts0.take(runtimes.len() as int),
            forall|j: int| 0 <= j < r.len() ==> shows(#[trigger] r@[j], rows0[rows.len() + j], rts0[rows.len() + j]),
        decreases rows.len(),
    {
        let ghost n = rows.len() as int;
        let b = rows.pop().unwrap();
        let rt = runtimes.pop().unwrap();
        assert(b == rows0[n - 1]);
        assert(rt == rts0[n - 1]);
        let info = from_row_with_runtime(b, rt);
        let ghost before = r@;
        r.insert(0, info);
        assert forall|j: int| 0 <= j < r.len() implies shows(#[trigger] r@[j], rows0[rows.len() + j], rts0[rows.len() + j]) by {
            if j > 0 {
                assert(r@[j] == before[j - 1]);
            }
        }
        assert(rows@ =~= rows0.take(rows.len() as int));
        assert(runtimes@ =~= rts0.take(runtimes.len() as int));
    }
    r
}

fn as_opt_str(o: &Option<String>) -> (r: Option<&str>)
    ensures
        opt_str_view(r) == opt_view(*o),
{
    match o {
        Some(s) => Some(s.as_str()),
        None => None,
    }
}

/// The values of a new backend from a creation request: the kind must be
/// known; the host defaults to `127.0.0.1`, the port to 0, the health path to
/// empty, auto-restart to off and the startup timeout to 10 seconds; the API
/// key is kept trimmed when it is not blank.
pub fn create_values(req: &CreateBackendRequest) -> (r: Result<NewBackend, String>)
    ensures
        match r {
            Ok(v) => {
                &&& parse_kind(req.kind@) is Some
                &&& store::is_backend_id(v.id@)
                &&& v.name@ == req.name@
                &&& v.kind@ == kind_name(parse_kind(req.kind@)->Some_0)
                &&& v.start_command@ == req.start_command@
                &&& opt_view(v.start_args) == match req.start_args {
                    Some(a) => Some(json_text_of_strings(views(a@))),
                    None => None::<Seq<char>>,
                }
                &&& opt_view(v.working_dir) == opt_view(req.working_dir)
                &&& v.host@ == match req.host {
                    Some(h) => h@,
                    None => default_host(),
                }
                &&& v.port == match req.port {
                    Some(p) => p,
                    None => 0u16,
                }
                &&& v.health_path@ == match req.health_path {
                    Some(h) => h@,
                    None => Seq::<char>::empty(),
                }
                &&& opt_view(v.api_key) == cleaned(opt_view(req.api_key))
                &&& opt_view(v.env_json) == env_text(req.env_json)
                &&& req.start_args matches Some(a) ==> (v.start_args matches Some(t)
                    && json_string_list(t@) == Some(views(a@)))
                &&& v.auto_restart == match req.auto_restart {
                    Some(a) => a,
                    None => false,
                }
                &&& v.startup_timeout_ms == match req.startup_timeout_ms {
                    Some(t) => t,
                    None => DEFAULT_STARTUP_TIMEOUT_MS,
                }
            },
            Err(e) => {
                &&& parse_kind(req.kind@) is None
                &&& e@ == "Invalid backend kind: "@ + unknown_kind_message(req.kind@)
            },
        },
{
    let kind = match BackendKind::from_str(req.kind.as_str()) {
        Ok(k) => k,
        Err(e) => {
            let mut m = String::from_str("Invalid backend kind: ");
            m.append(e.as_str());
            return Err(m);
        },
    };
    let api_key = clean_optional_string(as_opt_str(&req.api_key));
    let host = match &req.host {
        Some(h) => h.as_str(),
        None => "127.0.0.1",
    };
    let health_path = match &req.health_path {
        Some(h) => h.as_str(),
        None => "",
    };
    let port = match req.port {
        Some(p) => p,
        None => 0,
    };
    let auto_restart = match req.auto_restart {
        Some(a) => a,
        None => false,
    };
    let timeout = match req.startup_timeout_ms {
        Some(t) => t,
        None => DEFAULT_STARTUP_TIMEOUT_MS,
    };
    proof {
        reveal_strlit("");
    }
    Ok(
        insert_values(
            req.name.as_str(),
            kind.as_str(),
            req.start_command.as_str(),
            req.start_args.as_ref(),
            as_opt_str(&req.working_dir),
            host,
            port,
            health_path,
            as_opt_str(&api_key),
            req.env_json.as_ref(),
            auto_restart,
            timeout,
        ),
    )
}

/// The statement that applies an update request to the backend `id`.
pub fn update_values(id: &str, req: &UpdateBackendRequest) -> (r: UpdateStatement)
    ensures
        ({
            let sets = store::changes(
                opt_view(req.name),
                opt_view(req.start_command),
                store::args_text(req.start_args),
                opt_view(req.working_dir),
                opt_view(req.host),
                req.port,
                opt_view(req.health_path),
                opt_view(req.api_key),
                env_text(req.env_json),
                req.auto_restart,
                req.startup_timeout_ms,
                req.enabled,
            );
            &&& r.sql@ == store::update_sql(sets)
            &&& views(r.params@) == sets.map_values(|p: (Seq<char>, Seq<char>)| p.1).push(id@)
        }),
{
    update_statement(
        id,
        as_opt_str(&req.name),
        as_opt_str(&req.start_command),
        req.start_args.as_ref(),
        as_opt_str(&req.working_dir),
        as_opt_str(&req.host),
        req.port,
        as_opt_str(&req.health_path),
        as_opt_str(&req.api_key),
        req.env_json.as_ref(),
        req.auto_restart,
        req.startup_timeout_ms,
        req.enabled,
    )
}

/// The directory whose environment file is meant: the working directory,
/// trimmed, which must not be blank.
pub fn env_file_dir(working_dir: &str) -> (r: Result<String, String>)
    ensures
        match r {
            Ok(d) => trim_seq(working_dir@).len() > 0 && d@ == trim_seq(working_dir@),
            Err(e) => trim_seq(working_dir@).len() == 0 && e@ == "Working directory is required"@,
        },
{
    let t = trim(working_dir);
    if t.as_str().is_empty() {
        Err(String::from_str("Working directory is required"))
    } else {
        Ok(t)
    }
}

/// Checks the directory of an environment file: it must exist and be a
/// directory, as the caller found it to be.
pub fn check_env_dir(dir: &str, exists: bool, is_dir: bool) -> (r: Result<(), String>)
    ensures
        !exists ==> (r matches Err(e) && e@ == "Working directory does not exist: "@ + dir@),
        exists && !is_dir ==> (r matches Err(e) && e@ == "Working directory is not a folder: "@
            + dir@),
        exists && is_dir ==> r is Ok,
{
    if !exists {
        let mut m = String::from_str("Working directory does not exist: ");
        m.append(dir);
        return Err(m);
    }
    if !is_dir {
        let mut m = String::from_str("Working directory is not a folder: ");
        m.append(dir);
        return Err(m);
    }
    Ok(())
}


/// Cleaning is idempotent, and what it keeps is never blank at either end.
pub proof fn lemma_cleaned_idempotent(value: Option<Seq<char>>)
    ensures
        cleaned(cleaned(value)) == cleaned(value),
        cleaned(value) matches Some(v) ==> trim_seq(v) == v && v.len() > 0,
{
    if let Some(v) = value {
        lemma_trim_idempotent(v);
    }
}

/// A health URL's path always begins with `/`.
pub proof fn lemma_health_path_part_rooted(path: Seq<char>)
    ensures
        health_path_part(path).len() > 0,
        health_path_part(path)[0] == '/',
{
    reveal_strlit("/");
}

/// Text that fits is shown whole (trimmed); shown text never has blanks
/// around it when it fits.
pub proof fn lemma_display_short(value: Seq<char>, max_len: usize)
    requires
        encode_utf8(trim_seq(value)).len() <= max_len,
    ensures
        display_text(value, max_len) == trim_seq(value),
        trim_seq(display_text(value, max_len)) == display_text(value, max_len),
{
    lemma_trim_idempotent(value);
}

} // verus!
