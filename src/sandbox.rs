//! The sandbox: its configuration, the per-invocation state that mediates
//! every host call, and the rules that turn a guest's exit into a result.
//!
//! Running a guest alternates between the WebAssembly runtime and the host.
//! The host side of each step is decided here: [`SandboxState::mediate`]
//! answers a request or names the one operation the host may perform for
//! it, the response functions turn the operation's outcome into a response,
//! and [`SandboxState::finish`] classifies how the guest stopped.

use crate::api::{
    entry_views, file_read_view, DataView, DirEntry, HostRequest, HostResponse, LogLevel,
    PluginActionResult, PluginLog, RequestView, ResponseData, ResponseView,
};
use crate::base64::encode;
use crate::error::PluginError;
use crate::path::{normal_form, normalize, path_within};
use crate::permissions::{allows, Permission, PermissionSet, PermissionView};
use crate::text::{decimal, push_decimal, push_str};
use vstd::prelude::*;
use vstd::string::StringExecFns;

verus! {

/// Default memory ceiling: 64 MiB.
pub const DEFAULT_MEMORY_LIMIT: u64 = 64 * 1024 * 1024;

/// Default wall-clock deadline: 30 seconds.
pub const DEFAULT_TIMEOUT_MS: u64 = 30_000;

/// Default instruction budget.
pub const DEFAULT_FUEL_LIMIT: u64 = 100_000_000;

/// The grants every sandbox starts with: the time and randomness.
pub open spec fn default_grants() -> Set<PermissionView> {
    set![PermissionView::Time, PermissionView::Random]
}

/// Limits and grants for running one plugin.
#[derive(Debug)]
pub struct SandboxConfig {
    /// Memory ceiling in bytes.
    pub memory_limit: u64,
    /// Wall-clock deadline in milliseconds.
    pub timeout_ms: u64,
    /// Instruction budget; `None` runs unmetered.
    pub fuel_limit: Option<u64>,
    pub permissions: PermissionSet,
    /// Working directory for file operations.
    pub work_dir: Option<String>,
}

impl SandboxConfig {
    /// The default configuration.
    pub fn new() -> (r: SandboxConfig)
        ensures
            r.memory_limit == DEFAULT_MEMORY_LIMIT,
            r.timeout_ms == DEFAULT_TIMEOUT_MS,
            r.fuel_limit == Some(DEFAULT_FUEL_LIMIT),
            r.permissions@ == default_grants(),
            r.work_dir is None,
    {
        let permissions = PermissionSet::empty().with(Permission::Time).with(Permission::Random);
        assert(permissions@ =~= default_grants());
        SandboxConfig {
            memory_limit: DEFAULT_MEMORY_LIMIT,
            timeout_ms: DEFAULT_TIMEOUT_MS,
            fuel_limit: Some(DEFAULT_FUEL_LIMIT),
            permissions,
            work_dir: None,
        }
    }

    /// This configuration with a memory ceiling of `bytes`.
    pub fn with_memory_limit(self, bytes: u64) -> (r: SandboxConfig)
        ensures
            r == (SandboxConfig { memory_limit: bytes, ..self }),
    {
        SandboxConfig { memory_limit: bytes, ..self }
    }

    /// This configuration with a deadline of `ms` milliseconds.
    pub fn with_timeout(self, ms: u64) -> (r: SandboxConfig)
        ensures
            r == (SandboxConfig { timeout_ms: ms, ..self }),
    {
        SandboxConfig { timeout_ms: ms, ..self }
    }

    /// This configuration with an instruction budget of `fuel`.
    pub fn with_fuel(self, fuel: u64) -> (r: SandboxConfig)
        ensures
            r == (SandboxConfig { fuel_limit: Some(fuel), ..self }),
    {
        SandboxConfig { fuel_limit: Some(fuel), ..self }
    }

    /// This configuration with one more grant.
    pub fn with_permission(self, perm: Permission) -> (r: SandboxConfig)
        ensures
            r.memory_limit == self.memory_limit,
            r.timeout_ms == self.timeout_ms,
            r.fuel_limit == self.fuel_limit,
            r.permissions@ == self.permissions@.insert(perm@),
            r.work_dir == self.work_dir,
    {
        let SandboxConfig { memory_limit, timeout_ms, fuel_limit, permissions, work_dir } = self;
        SandboxConfig {
            memory_limit,
            timeout_ms,
            fuel_limit,
            permissions: permissions.with(perm),
            work_dir,
        }
    }

    /// This configuration with working directory `dir`.
    pub fn with_work_dir(self, dir: String) -> (r: SandboxConfig)
        ensures
            r == (SandboxConfig { work_dir: Some(dir), ..self }),
    {
        SandboxConfig { work_dir: Some(dir), ..self }
    }
}

impl Clone for SandboxConfig {
    fn clone(&self) -> (r: SandboxConfig)
        ensures
            r.memory_limit == self.memory_limit,
            r.timeout_ms == self.timeout_ms,
            r.fuel_limit == self.fuel_limit,
            r.permissions@ == self.permissions@,
            r.work_dir == self.work_dir,
    {
        SandboxConfig {
            memory_limit: self.memory_limit,
            timeout_ms: self.timeout_ms,
            fuel_limit: self.fuel_limit,
            permissions: self.permissions.clone(),
            work_dir: match &self.work_dir {
                Some(d) => Some(d.clone()),
                None => None,
            },
        }
    }
}

impl Default for SandboxConfig {
    fn default() -> (r: SandboxConfig)
        ensures
            r.memory_limit == DEFAULT_MEMORY_LIMIT,
            r.timeout_ms == DEFAULT_TIMEOUT_MS,
            r.fuel_limit == Some(DEFAULT_FUEL_LIMIT),
            r.permissions@ == default_grants(),
            r.work_dir is None,
    {
        SandboxConfig::new()
    }
}

/// An operation the host performs for a guest once mediation allowed it.
#[derive(Debug, Clone)]
pub enum HostOp {
    ReadFile { path: String },
    WriteFile { path: String, content: Vec<u8> },
    ListDir { path: String },
    GetEnv { name: String },
    CurrentTime,
    GenerateUuid,
}

pub enum OpView {
    ReadFile(Seq<char>),
    WriteFile(Seq<char>, Seq<u8>),
    ListDir(Seq<char>),
    GetEnv(Seq<char>),
    CurrentTime,
    GenerateUuid,
}

impl View for HostOp {
    type V = OpView;

    open spec fn view(&self) -> OpView {
        match self {
            HostOp::ReadFile { path } => OpView::ReadFile(path@),
            HostOp::WriteFile { path, content } => OpView::WriteFile(path@, content@),
            HostOp::ListDir { path } => OpView::ListDir(path@),
            HostOp::GetEnv { name } => OpView::GetEnv(name@),
            HostOp::CurrentTime => OpView::CurrentTime,
            HostOp::GenerateUuid => OpView::GenerateUuid,
        }
    }
}

/// What mediation decided for one request.
#[derive(Debug, Clone)]
pub enum Mediation {
    /// Answer the guest with this response; nothing else happens.
    Respond(HostResponse),
    /// Perform this operation, then answer with its outcome.
    Perform(HostOp),
}

pub enum MediationView {
    Respond(ResponseView),
    Perform(OpView),
}

impl View for Mediation {
    type V = MediationView;

    open spec fn view(&self) -> MediationView {
        match self {
            Mediation::Respond(r) => MediationView::Respond(r@),
            Mediation::Perform(op) => MediationView::Perform(op@),
        }
    }
}

/// Milliseconds from `start` to `now`; none where the clock reads earlier.
pub open spec fn elapsed(start: u64, now: u64) -> int {
    if now >= start {
        now - start
    } else {
        0
    }
}

pub open spec fn past_deadline(start: u64, timeout_ms: u64, now: u64) -> bool {
    elapsed(start, now) > timeout_ms
}

/// The message a guest receives once its deadline has passed.
pub open spec fn timeout_text(timeout_ms: u64) -> Seq<char> {
    "timeout: plugin execution exceeded "@ + decimal(timeout_ms as nat) + "ms"@
}

pub open spec fn request_path(req: RequestView) -> Seq<char> {
    match req {
        RequestView::ReadFile(p) => p,
        RequestView::WriteFile(p, _) => p,
        RequestView::ListDir(p) => p,
        _ => Seq::empty(),
    }
}

/// The path a request is judged and served by: the filesystem's resolution
/// of it where there is one, else the path as given.
pub open spec fn effective_path(req: RequestView, resolved: Option<Seq<char>>) -> Seq<char> {
    match resolved {
        Some(c) => c,
        None => request_path(req),
    }
}

/// The permission a request needs, judged on the path `eff`; `None` for
/// requests that need none.
pub open spec fn requirement(req: RequestView, eff: Seq<char>) -> Option<PermissionView> {
    match req {
        RequestView::ReadFile(_) => Some(PermissionView::ReadPath(eff)),
        RequestView::ListDir(_) => Some(PermissionView::ReadPath(eff)),
        RequestView::WriteFile(_, _) => Some(PermissionView::WritePath(eff)),
        RequestView::GetEnv(name) => Some(PermissionView::Env(name)),
        RequestView::Log(_, _) => None,
        RequestView::CurrentTime => Some(PermissionView::Time),
        RequestView::GenerateUuid => Some(PermissionView::Random),
    }
}

/// What a denial names, given the requested path in resolved form: never
/// what the filesystem resolved it to.
pub open spec fn denial_text(req: RequestView, eff: Seq<char>) -> Seq<char> {
    match req {
        RequestView::ReadFile(_) => "read "@ + eff,
        RequestView::ListDir(_) => "read "@ + eff,
        RequestView::WriteFile(_, _) => "write "@ + eff,
        RequestView::GetEnv(name) => "env $"@ + name,
        RequestView::CurrentTime => "time"@,
        _ => "random"@,
    }
}

/// The operation an allowed request asks for.
pub open spec fn granted_op(req: RequestView, eff: Seq<char>) -> OpView {
    match req {
        RequestView::ReadFile(_) => OpView::ReadFile(eff),
        RequestView::ListDir(_) => OpView::ListDir(eff),
        RequestView::WriteFile(_, content) => OpView::WriteFile(eff, content),
        RequestView::GetEnv(name) => OpView::GetEnv(name),
        RequestView::CurrentTime => OpView::CurrentTime,
        _ => OpView::GenerateUuid,
    }
}

/// The decision for one request, given the grants and whether the deadline
/// has passed. A path is judged and served in one form, the resolved form
/// of its effective path; a denial names the path as requested.
pub open spec fn mediation(
    grants: Set<PermissionView>,
    timed_out: bool,
    timeout_ms: u64,
    req: RequestView,
    resolved: Option<Seq<char>>,
) -> MediationView {
    let eff = normal_form(effective_path(req, resolved));
    if timed_out {
        MediationView::Respond(ResponseView::Error(timeout_text(timeout_ms)))
    } else {
        match requirement(req, eff) {
            None => MediationView::Respond(ResponseView::Success(None)),
            Some(p) => if allows(grants, p) {
                MediationView::Perform(granted_op(req, eff))
            } else {
                MediationView::Respond(
                    ResponseView::PermissionDenied(denial_text(req, normal_form(request_path(req)))),
                )
            },
        }
    }
}

pub open spec fn opt_view(s: Option<String>) -> Option<Seq<char>> {
    match s {
        Some(v) => Some(v@),
        None => None,
    }
}

pub open spec fn log_views(v: Seq<(LogLevel, String)>) -> Seq<(LogLevel, Seq<char>)> {
    v.map_values(|e: (LogLevel, String)| (e.0, e.1@))
}

/// How a guest stopped running.
#[derive(Debug, Clone)]
pub enum GuestExit {
    /// The entry point returned.
    Returned,
    /// The guest trapped with `message`; `fuel_left` is the remaining
    /// instruction budget where the run was metered.
    Trapped { message: String, fuel_left: Option<u64> },
}

pub enum ExitView {
    Returned,
    Trapped(Seq<char>, Option<u64>),
}

impl View for GuestExit {
    type V = ExitView;

    open spec fn view(&self) -> ExitView {
        match self {
            GuestExit::Returned => ExitView::Returned,
            GuestExit::Trapped { message, fuel_left } => ExitView::Trapped(message@, *fuel_left),
        }
    }
}

/// How an invocation ends.
pub enum Outcome {
    Completed,
    ResourceLimitExceeded,
    Timeout,
    Failed(Seq<char>),
}

/// The end of an invocation: a trap with the budget spent is a resource
/// failure; past the deadline the invocation times out; another trap is an
/// execution failure. A guest that returns completes, unless a host call
/// already found its deadline passed.
pub open spec fn outcome(expired: bool, late: bool, exit: ExitView) -> Outcome {
    match exit {
        ExitView::Trapped(_, Some(0)) => Outcome::ResourceLimitExceeded,
        ExitView::Trapped(message, _) => if expired || late {
            Outcome::Timeout
        } else {
            Outcome::Failed(message)
        },
        ExitView::Returned => if expired {
            Outcome::Timeout
        } else {
            Outcome::Completed
        },
    }
}

pub open spec fn completion_text(action: Seq<char>) -> Seq<char> {
    "Action '"@ + action + "' completed"@
}

/// A request is served only where the grants cover the permission it needs;
/// before the deadline, where they do not, the answer is a denial and
/// nothing is performed.
pub proof fn lemma_served_only_when_covered(
    grants: Set<PermissionView>,
    timed_out: bool,
    timeout_ms: u64,
    req: RequestView,
    resolved: Option<Seq<char>>,
)
    ensures
        ({
            let eff = normal_form(effective_path(req, resolved));
            let m = mediation(grants, timed_out, timeout_ms, req, resolved);
            &&& m is Perform ==> requirement(req, eff) is Some && allows(
                grants,
                requirement(req, eff)->0,
            )
            &&& (!timed_out && requirement(req, eff) is Some && !allows(
                grants,
                requirement(req, eff)->0,
            )) ==> m == MediationView::Respond(
                ResponseView::PermissionDenied(denial_text(req, normal_form(request_path(req)))),
            )
        }),
{
}

/// A read whose path lies within a granted read root is served, on that
/// path in resolved form.
pub proof fn lemma_granted_read_served(
    grants: Set<PermissionView>,
    timeout_ms: u64,
    root: Seq<char>,
    path: Seq<char>,
    resolved: Option<Seq<char>>,
)
    requires
        grants.contains(PermissionView::ReadPath(root)),
        path_within(root, normal_form(effective_path(RequestView::ReadFile(path), resolved))),
    ensures
        mediation(grants, false, timeout_ms, RequestView::ReadFile(path), resolved)
            == MediationView::Perform(
            OpView::ReadFile(normal_form(effective_path(RequestView::ReadFile(path), resolved))),
        ),
{
    crate::permissions::lemma_granted_read_allowed(
        grants,
        root,
        normal_form(effective_path(RequestView::ReadFile(path), resolved)),
    );
}

/// A read whose path lies within no granted read root is denied, whether
/// or not the file exists.
pub proof fn lemma_ungranted_read_denied(
    grants: Set<PermissionView>,
    timeout_ms: u64,
    path: Seq<char>,
    resolved: Option<Seq<char>>,
)
    requires
        forall|root: Seq<char>|
            grants.contains(PermissionView::ReadPath(root)) ==> !path_within(
                root,
                normal_form(effective_path(RequestView::ReadFile(path), resolved)),
            ),
    ensures
        mediation(grants, false, timeout_ms, RequestView::ReadFile(path), resolved)
            == MediationView::Respond(
            ResponseView::PermissionDenied("read "@ + normal_form(path)),
        ),
{
    crate::permissions::lemma_ungranted_read_denied(
        grants,
        normal_form(effective_path(RequestView::ReadFile(path), resolved)),
    );
}

/// A host call made past the deadline is refused with the timeout message,
/// and the invocation then ends in `Timeout`, unless its instruction budget
/// ran out.
pub proof fn lemma_deadline_breach_times_out(
    grants: Set<PermissionView>,
    expired: bool,
    start_ms: u64,
    timeout_ms: u64,
    now_ms: u64,
    req: RequestView,
    resolved: Option<Seq<char>>,
    late: bool,
    exit: ExitView,
)
    requires
        past_deadline(start_ms, timeout_ms, now_ms),
        !(exit matches ExitView::Trapped(_, Some(0))),
    ensures
        mediation(grants, expired || past_deadline(start_ms, timeout_ms, now_ms), timeout_ms, req, resolved)
            == MediationView::Respond(ResponseView::Error(timeout_text(timeout_ms))),
        outcome(expired || past_deadline(start_ms, timeout_ms, now_ms), late, exit) == Outcome::Timeout,
{
}

/// A guest that traps with its instruction budget spent ends in
/// `ResourceLimitExceeded`, whatever the clock says.
pub proof fn lemma_spent_budget_exceeds_limit(expired: bool, late: bool, message: Seq<char>)
    ensures
        outcome(expired, late, ExitView::Trapped(message, Some(0))) == Outcome::ResourceLimitExceeded,
{
}

/// With no grants, every request that needs a permission is denied,
/// time and randomness included.
pub proof fn lemma_no_grants_deny_all(
    timeout_ms: u64,
    req: RequestView,
    resolved: Option<Seq<char>>,
)
    requires
        requirement(req, normal_form(effective_path(req, resolved))) is Some,
    ensures
        mediation(Set::empty(), false, timeout_ms, req, resolved) == MediationView::Respond(
            ResponseView::PermissionDenied(denial_text(req, normal_form(request_path(req)))),
        ),
{
    crate::permissions::lemma_empty_set_allows_nothing(
        requirement(req, normal_form(effective_path(req, resolved)))->0,
    );
}

/// The state of one invocation: its grants, the guest's log, and its clock.
#[derive(Debug)]
pub struct SandboxState {
    pub permissions: PermissionSet,
    pub logs: Vec<(LogLevel, String)>,
    pub work_dir: Option<String>,
    /// Clock reading, in milliseconds, when the invocation began.
    pub start_ms: u64,
    pub timeout_ms: u64,
    /// Whether a host call found the deadline passed.
    pub expired: bool,
}

/// Relies on `chrono::Utc::now`, read as Unix seconds (`DateTime::timestamp`)
/// and as RFC 3339 text (`DateTime::to_rfc3339`).
#[verifier::external_body]
fn clock_now() -> (r: (i64, String)) {
    let now = chrono::Utc::now();
    (now.timestamp(), now.to_rfc3339())
}

/// Relies on `uuid::Uuid::new_v4` and its `Display`, the hyphenated form of
/// 36 characters.
#[verifier::external_body]
fn random_uuid() -> (r: String)
    ensures
        r@.len() == 36,
{
    uuid::Uuid::new_v4().to_string()
}

impl SandboxState {
    /// A fresh state for one invocation that begins at `now_ms`.
    pub fn new(config: &SandboxConfig, now_ms: u64) -> (r: SandboxState)
        ensures
            r.permissions@ == config.permissions@,
            r.logs@.len() == 0,
            r.work_dir == config.work_dir,
            r.start_ms == now_ms,
            r.timeout_ms == config.timeout_ms,
            !r.expired,
            elapsed(r.start_ms, now_ms) == 0,
    {
        SandboxState {
            permissions: config.permissions.clone(),
            logs: Vec::new(),
            work_dir: match &config.work_dir {
                Some(d) => Some(d.clone()),
                None => None,
            },
            start_ms: now_ms,
            timeout_ms: config.timeout_ms,
            expired: false,
        }
    }

    /// Fails with `Timeout` where the deadline has passed at `now_ms`.
    pub fn check_timeout(&self, now_ms: u64) -> (r: Result<(), PluginError>)
        ensures
            r is Ok <==> !past_deadline(self.start_ms, self.timeout_ms, now_ms),
            r is Err ==> r == Err::<(), PluginError>(PluginError::Timeout(self.timeout_ms)),
    {
        if now_ms >= self.start_ms && now_ms - self.start_ms > self.timeout_ms {
            Err(PluginError::Timeout(self.timeout_ms))
        } else {
            Ok(())
        }
    }

    /// Fails with `PermissionDenied` where no grant covers `perm`.
    pub fn check_permission(&self, perm: &Permission) -> (r: Result<(), PluginError>)
        ensures
            r is Ok <==> allows(self.permissions@, perm@),
            match r {
                Err(PluginError::PermissionDenied(d)) => d@ == crate::permissions::describe(perm@),
                Err(_) => false,
                Ok(_) => true,
            },
    {
        if self.permissions.check(perm) {
            Ok(())
        } else {
            Err(PluginError::PermissionDenied(perm.description()))
        }
    }

    /// Decides one host call made at `now_ms`. `resolved` is the
    /// filesystem's resolution of the request's path, where it has one.
    /// Past the deadline every call is refused without effect; a call that
    /// needs a permission no grant covers is denied; a log line is recorded.
    pub fn mediate(&mut self, request: HostRequest, resolved: Option<String>, now_ms: u64) -> (r:
        Mediation)
        ensures
            ({
                let timed_out = old(self).expired || past_deadline(
                    old(self).start_ms,
                    old(self).timeout_ms,
                    now_ms,
                );
                &&& r@ == mediation(
                    old(self).permissions@,
                    timed_out,
                    old(self).timeout_ms,
                    request@,
                    opt_view(resolved),
                )
                &&& final(self).expired == timed_out
                &&& log_views(final(self).logs@) == match request@ {
                    RequestView::Log(level, message) => if timed_out {
                        log_views(old(self).logs@)
                    } else {
                        log_views(old(self).logs@).push((level, message))
                    },
                    _ => log_views(old(self).logs@),
                }
            }),
            final(self).permissions == old(self).permissions,
            final(self).work_dir == old(self).work_dir,
            final(self).start_ms == old(self).start_ms,
            final(self).timeout_ms == old(self).timeout_ms,
    {
        if self.expired || self.check_timeout(now_ms).is_err() {
            self.expired = true;
            let mut m = String::new();
            push_str(&mut m, "timeout: plugin execution exceeded ");
            push_decimal(&mut m, self.timeout_ms);
            push_str(&mut m, "ms");
            assert(m@ =~= timeout_text(self.timeout_ms));
            return Mediation::Respond(HostResponse::error(m));
        }
        let ghost req = request@;
        match request {
            HostRequest::ReadFile { path } => {
                let judged = match &resolved {
                    Some(c) => normalize(c.as_str()),
                    None => normalize(path.as_str()),
                };
                if self.permissions.check(&Permission::read_path(judged.clone())) {
                    Mediation::Perform(HostOp::ReadFile { path: judged })
                } else {
                    let shown = normalize(path.as_str());
                    Mediation::Respond(HostResponse::permission_denied(labelled("read ", &shown)))
                }
            },
            HostRequest::ListDir { path } => {
                let judged = match &resolved {
                    Some(c) => normalize(c.as_str()),
                    None => normalize(path.as_str()),
                };
                if self.permissions.check(&Permission::read_path(judged.clone())) {
                    Mediation::Perform(HostOp::ListDir { path: judged })
                } else {
                    let shown = normalize(path.as_str());
                    Mediation::Respond(HostResponse::permission_denied(labelled("read ", &shown)))
                }
            },
            HostRequest::WriteFile { path, content } => {
                let judged = match &resolved {
                    Some(c) => normalize(c.as_str()),
                    None => normalize(path.as_str()),
                };
                if self.permissions.check(&Permission::write_path(judged.clone())) {
                    Mediation::Perform(HostOp::WriteFile { path: judged, content })
                } else {
                    let shown = normalize(path.as_str());
                    Mediation::Respond(HostResponse::permission_denied(labelled("write ", &shown)))
                }
            },
            HostRequest::GetEnv { name } => {
                let label = labelled("env $", &name);
                if self.permissions.check(&Permission::env(name.clone())) {
                    Mediation::Perform(HostOp::GetEnv { name })
                } else {
                    Mediation::Respond(HostResponse::permission_denied(label))
                }
            },
            HostRequest::Log { level, message } => {
                let ghost before = self.logs@;
                self.logs.push((level, message));
                assert(log_views(self.logs@) =~= log_views(before).push((level, req->Log_1)));
                Mediation::Respond(HostResponse::success())
            },
            HostRequest::CurrentTime => {
                if self.permissions.check(&Permission::Time) {
                    Mediation::Perform(HostOp::CurrentTime)
                } else {
                    Mediation::Respond(HostResponse::permission_denied(String::from_str("time")))
                }
            },
            HostRequest::GenerateUuid => {
                if self.permissions.check(&Permission::Random) {
                    Mediation::Perform(HostOp::GenerateUuid)
                } else {
                    Mediation::Respond(HostResponse::permission_denied(String::from_str("random")))
                }
            },
        }
    }

    /// The result of the invocation of `action`, given how the guest
    /// stopped at `now_ms`.
    pub fn finish(&self, action: &str, exit: GuestExit, now_ms: u64) -> (r: Result<
        PluginActionResult,
        PluginError,
    >)
        ensures
            match outcome(
                self.expired,
                past_deadline(self.start_ms, self.timeout_ms, now_ms),
                exit@,
            ) {
                Outcome::Completed => match r {
                    Ok(res) => {
                        &&& res.success
                        &&& res.message@ == completion_text(action@)
                        &&& res.output is None
                        &&& res.logs@.len() == self.logs@.len()
                        &&& forall|i: int|
                            0 <= i < res.logs@.len() ==> res.logs@[i].level == self.logs@[i].0
                                && res.logs@[i].message == self.logs@[i].1
                    },
                    Err(_) => false,
                },
                Outcome::ResourceLimitExceeded => match r {
                    Err(PluginError::ResourceLimitExceeded(m)) => m@ == "Instruction limit exceeded"@,
                    _ => false,
                },
                Outcome::Timeout => r == Err::<PluginActionResult, PluginError>(
                    PluginError::Timeout(self.timeout_ms),
                ),
                Outcome::Failed(message) => match r {
                    Err(PluginError::ExecutionFailed(m)) => m@ == message,
                    _ => false,
                },
            },
    {
        let late = self.check_timeout(now_ms).is_err();
        match exit {
            GuestExit::Trapped { message, fuel_left } => {
                if let Some(0) = fuel_left {
                    let mut m = String::new();
                    push_str(&mut m, "Instruction limit exceeded");
                    Err(PluginError::ResourceLimitExceeded(m))
                } else if self.expired || late {
                    Err(PluginError::Timeout(self.timeout_ms))
                } else {
                    Err(PluginError::ExecutionFailed(message))
                }
            },
            GuestExit::Returned => {
                if self.expired {
                    return Err(PluginError::Timeout(self.timeout_ms));
                }
                let (stamp, _) = clock_now();
                let mut logs: Vec<PluginLog> = Vec::new();
                for i in 0..self.logs.len()
                    invariant
                        logs@.len() == i,
                        forall|j: int|
                            0 <= j < i ==> logs@[j].level == self.logs@[j].0 && logs@[j].message
                                == self.logs@[j].1,
                {
                    logs.push(
                        PluginLog {
                            level: self.logs[i].0,
                            message: self.logs[i].1.clone(),
                            timestamp: stamp,
                        },
                    );
                }
                let mut m = String::new();
                push_str(&mut m, "Action '");
                push_str(&mut m, action);
                push_str(&mut m, "' completed");
                Ok(PluginActionResult { success: true, message: m, output: None, logs })
            },
        }
    }
}

/// `label` followed by `text`.
fn labelled(label: &str, text: &str) -> (r: String)
    ensures
        r@ == label@ + text@,
{
    let mut m = String::new();
    push_str(&mut m, label);
    push_str(&mut m, text);
    m
}

/// The error the guest sees when entry point `action` does not exist.
pub fn missing_action(action: &str) -> (r: PluginError)
    ensures
        match r {
            PluginError::ExecutionFailed(m) => m@ == "Action '"@ + action@ + "' not found"@,
            _ => false,
        },
{
    let mut m = String::new();
    push_str(&mut m, "Action '");
    push_str(&mut m, action);
    push_str(&mut m, "' not found");
    PluginError::ExecutionFailed(m)
}

/// The error for a module that could not be instantiated, with the
/// runtime's `message`.
pub fn instantiation_failed(message: String) -> (r: PluginError)
    ensures
        r == PluginError::LoadFailed(message),
{
    PluginError::LoadFailed(message)
}

/// The response to reading `content` from a file.
pub fn file_read(content: &[u8]) -> (r: HostResponse)
    ensures
        r@ == file_read_view(content@),
{
    let text = encode(content);
    HostResponse::success_with_data(
        ResponseData::FileContent { content: text, size: content.len() as u64 },
    )
}

/// The response to writing `count` bytes.
pub fn file_written(count: usize) -> (r: HostResponse)
    ensures
        r@ == ResponseView::Success(Some(DataView::BytesWritten(count as u64))),
{
    HostResponse::success_with_data(ResponseData::BytesWritten { bytes_written: count as u64 })
}

/// The response to listing a directory.
pub fn dir_listed(entries: Vec<DirEntry>) -> (r: HostResponse)
    ensures
        r@ == ResponseView::Success(Some(DataView::Entries(entry_views(entries@)))),
{
    HostResponse::success_with_data(ResponseData::Entries { entries })
}

/// The response to reading an environment variable; `None` where it is unset.
pub fn env_read(value: Option<String>) -> (r: HostResponse)
    ensures
        r@ == ResponseView::Success(Some(DataView::EnvValue(opt_view(value)))),
{
    HostResponse::success_with_data(ResponseData::EnvValue { value })
}

/// What precedes the reason when an operation fails.
pub open spec fn failure_prefix(op: OpView) -> Seq<char> {
    match op {
        OpView::ReadFile(_) => "Failed to read file: "@,
        OpView::WriteFile(_, _) => "Failed to write file: "@,
        OpView::ListDir(_) => "Failed to list directory: "@,
        _ => "Failed: "@,
    }
}

/// The response to an operation that failed for `reason`.
pub fn op_failed(op: &HostOp, reason: &str) -> (r: HostResponse)
    ensures
        r@ == ResponseView::Error(failure_prefix(op@) + reason@),
{
    let prefix = match op {
        HostOp::ReadFile { .. } => "Failed to read file: ",
        HostOp::WriteFile { .. } => "Failed to write file: ",
        HostOp::ListDir { .. } => "Failed to list directory: ",
        _ => "Failed: ",
    };
    HostResponse::error(labelled(prefix, reason))
}

/// The response to a time request: the current time.
pub fn current_time() -> (r: HostResponse)
    ensures
        r@ is Success,
        match r@ {
            ResponseView::Success(Some(DataView::Time(_, _))) => true,
            _ => false,
        },
{
    let (timestamp, iso) = clock_now();
    HostResponse::success_with_data(ResponseData::Time { timestamp, iso })
}

/// The response to a UUID request: a fresh random UUID.
pub fn new_uuid() -> (r: HostResponse)
    ensures
        match r@ {
            ResponseView::Success(Some(DataView::Uuid(u))) => u.len() == 36,
            _ => false,
        },
{
    HostResponse::success_with_data(ResponseData::Uuid { uuid: random_uuid() })
}

#[verifier::external_type_specification]
#[verifier::external_body]
pub struct ExEngine(wasmtime::Engine);

#[verifier::external_type_specification]
#[verifier::external_body]
pub struct ExModule(wasmtime::Module);

/// Relies on `wasmtime::Engine::new`, configured by `Config::consume_fuel`
/// and `Config::epoch_interruption`: an engine that meters instructions
/// where `metered` holds and whose guests can be interrupted at epoch
/// boundaries, or the runtime's message where it cannot be built.
#[verifier::external_body]
fn build_engine(metered: bool) -> (r: Result<wasmtime::Engine, String>) {
    let mut config = wasmtime::Config::new();
    config.consume_fuel(metered);
    config.epoch_interruption(true);
    wasmtime::Engine::new(&config).map_err(|e| e.to_string())
}

/// Relies on `wasmtime::Module::new`: the compiled module, or the runtime's
/// message where `wasm` is not a valid module.
#[verifier::external_body]
fn compile_module(engine: &wasmtime::Engine, wasm: &[u8]) -> (r: Result<wasmtime::Module, String>) {
    wasmtime::Module::new(engine, wasm).map_err(|e| e.to_string())
}

/// Relies on `wasmtime::Module::exports`: each export's name, and whether it
/// is a function, in the module's order.
#[verifier::external_body]
pub(crate) fn module_exports(module: &wasmtime::Module) -> (r: Vec<(String, bool)>) {
    module.exports().map(|e| (e.name().to_string(), e.ty().func().is_some())).collect()
}

/// A WebAssembly engine bound to one sandbox configuration.
pub struct Sandbox {
    engine: wasmtime::Engine,
    config: SandboxConfig,
}

impl Sandbox {
    pub closed spec fn spec_config(&self) -> SandboxConfig {
        self.config
    }

    /// A sandbox for `config`; the engine meters instructions where the
    /// configuration has a budget, and lets a runner interrupt a guest
    /// whose deadline has passed.
    pub fn new(config: SandboxConfig) -> (r: Result<Sandbox, PluginError>)
        ensures
            match r {
                Ok(s) => s.spec_config() == config,
                Err(e) => e is Wasm,
            },
    {
        match build_engine(config.fuel_limit.is_some()) {
            Ok(engine) => Ok(Sandbox { engine, config }),
            Err(m) => Err(PluginError::Wasm(m)),
        }
    }

    /// A sandbox with the default configuration.
    pub fn with_defaults() -> (r: Result<Sandbox, PluginError>)
        ensures
            match r {
                Ok(s) => s.spec_config().timeout_ms == DEFAULT_TIMEOUT_MS
                    && s.spec_config().memory_limit == DEFAULT_MEMORY_LIMIT
                    && s.spec_config().fuel_limit == Some(DEFAULT_FUEL_LIMIT)
                    && s.spec_config().permissions@ == default_grants(),
                Err(e) => e is Wasm,
            },
    {
        Sandbox::new(SandboxConfig::new())
    }

    /// Compiles `wasm`; a module that does not compile is a load failure.
    pub fn load_module(&self, wasm: &[u8]) -> (r: Result<wasmtime::Module, PluginError>)
        ensures
            match r {
                Ok(_) => true,
                Err(PluginError::LoadFailed(m)) => exists|reason: Seq<char>|
                    m@ == "Failed to compile WASM module: "@ + reason,
                Err(_) => false,
            },
    {
        match compile_module(&self.engine, wasm) {
            Ok(module) => Ok(module),
            Err(reason) => Err(PluginError::LoadFailed(labelled("Failed to compile WASM module: ", &reason))),
        }
    }

    /// The configuration this sandbox runs with.
    pub fn config(&self) -> (r: &SandboxConfig)
        ensures
            *r == self.spec_config(),
    {
        &self.config
    }

    /// The engine guest modules are compiled and run with.
    pub fn engine(&self) -> &wasmtime::Engine {
        &self.engine
    }
}

/// Builds a [`Sandbox`] step by step from the default configuration.
pub struct SandboxBuilder {
    pub config: SandboxConfig,
}

impl SandboxBuilder {
    /// A builder holding the default configuration.
    pub fn new() -> (r: SandboxBuilder)
        ensures
            r.config.memory_limit == DEFAULT_MEMORY_LIMIT,
            r.config.timeout_ms == DEFAULT_TIMEOUT_MS,
            r.config.fuel_limit == Some(DEFAULT_FUEL_LIMIT),
            r.config.permissions@ == default_grants(),
            r.config.work_dir is None,
    {
        SandboxBuilder { config: SandboxConfig::new() }
    }

    pub fn memory_limit(self, bytes: u64) -> (r: SandboxBuilder)
        ensures
            r.config == (SandboxConfig { memory_limit: bytes, ..self.config }),
    {
        SandboxBuilder { config: self.config.with_memory_limit(bytes) }
    }

    pub fn timeout(self, ms: u64) -> (r: SandboxBuilder)
        ensures
            r.config == (SandboxConfig { timeout_ms: ms, ..self.config }),
    {
        SandboxBuilder { config: self.config.with_timeout(ms) }
    }

    pub fn fuel(self, fuel: u64) -> (r: SandboxBuilder)
        ensures
            r.config == (SandboxConfig { fuel_limit: Some(fuel), ..self.config }),
    {
        SandboxBuilder { config: self.config.with_fuel(fuel) }
    }

    pub fn permission(self, perm: Permission) -> (r: SandboxBuilder)
        ensures
            r.config.memory_limit == self.config.memory_limit,
            r.config.timeout_ms == self.config.timeout_ms,
            r.config.fuel_limit == self.config.fuel_limit,
            r.config.permissions@ == self.config.permissions@.insert(perm@),
            r.config.work_dir == self.config.work_dir,
    {
        SandboxBuilder { config: self.config.with_permission(perm) }
    }

    pub fn permissions(self, perms: PermissionSet) -> (r: SandboxBuilder)
        ensures
            r.config == (SandboxConfig { permissions: perms, ..self.config }),
    {
        SandboxBuilder { config: SandboxConfig { permissions: perms, ..self.config } }
    }

    pub fn work_dir(self, dir: String) -> (r: SandboxBuilder)
        ensures
            r.config == (SandboxConfig { work_dir: Some(dir), ..self.config }),
    {
        SandboxBuilder { config: self.config.with_work_dir(dir) }
    }

    /// The sandbox for the configuration built so far.
    pub fn build(self) -> (r: Result<Sandbox, PluginError>)
        ensures
            match r {
                Ok(s) => s.spec_config() == self.config,
                Err(e) => e is Wasm,
            },
    {
        Sandbox::new(self.config)
    }
}

} // verus!
