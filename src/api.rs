//! The host-call protocol between a guest and the host, and the values a
//! plugin invocation produces.

use crate::base64::encoded;
use crate::permissions::{PermissionSet, PermissionView};
use vstd::prelude::*;
use vstd::string::StringExecFns;

verus! {

/// Version of the plugin interface that this host implements.
pub const API_VERSION: &'static str = "0.1.0";

/// Severity of a guest log line.
#[derive(Debug, Clone, Copy, PartialEq, Eq, Structural)]
pub enum LogLevel {
    Debug,
    Info,
    Warn,
    Error,
}

/// A request from a guest to the host.
#[derive(Debug, Clone)]
pub enum HostRequest {
    /// Read a file (needs `ReadPath`).
    ReadFile { path: String },
    /// Write a file (needs `WritePath`).
    WriteFile { path: String, content: Vec<u8> },
    /// List a directory (needs `ReadPath`).
    ListDir { path: String },
    /// Read an environment variable (needs `Env` or `AllEnv`).
    GetEnv { name: String },
    /// Append to the invocation's log (needs nothing).
    Log { level: LogLevel, message: String },
    /// Read the current time (needs `Time`).
    CurrentTime,
    /// Make a random UUID (needs `Random`).
    GenerateUuid,
}

pub enum RequestView {
    ReadFile(Seq<char>),
    WriteFile(Seq<char>, Seq<u8>),
    ListDir(Seq<char>),
    GetEnv(Seq<char>),
    Log(LogLevel, Seq<char>),
    CurrentTime,
    GenerateUuid,
}

impl View for HostRequest {
    type V = RequestView;

    open spec fn view(&self) -> RequestView {
        match self {
            HostRequest::ReadFile { path } => RequestView::ReadFile(path@),
            HostRequest::WriteFile { path, content } => RequestView::WriteFile(path@, content@),
            HostRequest::ListDir { path } => RequestView::ListDir(path@),
            HostRequest::GetEnv { name } => RequestView::GetEnv(name@),
            HostRequest::Log { level, message } => RequestView::Log(*level, message@),
            HostRequest::CurrentTime => RequestView::CurrentTime,
            HostRequest::GenerateUuid => RequestView::GenerateUuid,
        }
    }
}

/// One entry of a directory listing.
#[derive(Debug, Clone)]
pub struct DirEntry {
    pub name: String,
    pub is_dir: bool,
}

/// The payload of a successful response.
#[derive(Debug, Clone)]
pub enum ResponseData {
    /// File bytes in base64, and how many bytes they are.
    FileContent { content: String, size: u64 },
    BytesWritten { bytes_written: u64 },
    Entries { entries: Vec<DirEntry> },
    /// The variable's value, or `None` where it is not set.
    EnvValue { value: Option<String> },
    /// Unix seconds, and the same instant in RFC 3339.
    Time { timestamp: i64, iso: String },
    Uuid { uuid: String },
}

pub enum DataView {
    FileContent(Seq<char>, u64),
    BytesWritten(u64),
    Entries(Seq<(Seq<char>, bool)>),
    EnvValue(Option<Seq<char>>),
    Time(i64, Seq<char>),
    Uuid(Seq<char>),
}

pub open spec fn entry_views(v: Seq<DirEntry>) -> Seq<(Seq<char>, bool)> {
    v.map_values(|e: DirEntry| (e.name@, e.is_dir))
}

impl View for ResponseData {
    type V = DataView;

    open spec fn view(&self) -> DataView {
        match self {
            ResponseData::FileContent { content, size } => DataView::FileContent(content@, *size),
            ResponseData::BytesWritten { bytes_written } => DataView::BytesWritten(*bytes_written),
            ResponseData::Entries { entries } => DataView::Entries(entry_views(entries@)),
            ResponseData::EnvValue { value } => DataView::EnvValue(
                match value {
                    Some(v) => Some(v@),
                    None => None,
                },
            ),
            ResponseData::Time { timestamp, iso } => DataView::Time(*timestamp, iso@),
            ResponseData::Uuid { uuid } => DataView::Uuid(uuid@),
        }
    }
}

/// The host's answer to a request.
#[derive(Debug, Clone)]
pub enum HostResponse {
    Success { data: Option<ResponseData> },
    Error { message: String },
    /// The request needed a permission that was not granted.
    PermissionDenied { permission: String },
}

pub enum ResponseView {
    Success(Option<DataView>),
    Error(Seq<char>),
    PermissionDenied(Seq<char>),
}

impl View for HostResponse {
    type V = ResponseView;

    open spec fn view(&self) -> ResponseView {
        match self {
            HostResponse::Success { data } => ResponseView::Success(
                match data {
                    Some(d) => Some(d@),
                    None => None,
                },
            ),
            HostResponse::Error { message } => ResponseView::Error(message@),
            HostResponse::PermissionDenied { permission } => ResponseView::PermissionDenied(
                permission@,
            ),
        }
    }
}

/// The response to a successful read of `content`.
pub open spec fn file_read_view(content: Seq<u8>) -> ResponseView {
    ResponseView::Success(Some(DataView::FileContent(encoded(content), content.len() as u64)))
}

impl HostResponse {
    /// Success without data.
    pub fn success() -> (r: HostResponse)
        ensures
            r@ == ResponseView::Success(None),
    {
        HostResponse::Success { data: None }
    }

    /// Success carrying `data`.
    pub fn success_with_data(data: ResponseData) -> (r: HostResponse)
        ensures
            r@ == ResponseView::Success(Some(data@)),
    {
        HostResponse::Success { data: Some(data) }
    }

    /// An error with `message`.
    pub fn error(message: String) -> (r: HostResponse)
        ensures
            r@ == ResponseView::Error(message@),
    {
        HostResponse::Error { message }
    }

    /// A denial naming the refused `permission`.
    pub fn permission_denied(permission: String) -> (r: HostResponse)
        ensures
            r@ == ResponseView::PermissionDenied(permission@),
    {
        HostResponse::PermissionDenied { permission }
    }
}

/// A log line a guest produced, stamped in Unix seconds.
#[derive(Debug, Clone, PartialEq)]
pub struct PluginLog {
    pub level: LogLevel,
    pub message: String,
    pub timestamp: i64,
}

/// What one invocation of a plugin action produced.
#[derive(Debug, Clone, PartialEq)]
pub struct PluginActionResult {
    pub success: bool,
    pub message: String,
    /// Output data as JSON text; `None` where the plugin gave none.
    pub output: Option<String>,
    pub logs: Vec<PluginLog>,
}

impl PluginActionResult {
    /// A successful result with `message` and nothing else.
    pub fn success(message: String) -> (r: PluginActionResult)
        ensures
            r.success,
            r.message == message,
            r.output is None,
            r.logs@.len() == 0,
    {
        PluginActionResult { success: true, message, output: None, logs: Vec::new() }
    }

    /// A failed result with `message` and nothing else.
    pub fn failure(message: String) -> (r: PluginActionResult)
        ensures
            !r.success,
            r.message == message,
            r.output is None,
            r.logs@.len() == 0,
    {
        PluginActionResult { success: false, message, output: None, logs: Vec::new() }
    }

    /// This result with `output` set.
    pub fn with_output(self, output: String) -> (r: PluginActionResult)
        ensures
            r.success == self.success,
            r.message == self.message,
            r.output == Some(output),
            r.logs == self.logs,
    {
        PluginActionResult { output: Some(output), ..self }
    }

    /// The result in the shape the workflow runner consumes.
    pub fn into_action_result(self) -> (r: ActionResult)
        ensures
            r.success == self.success,
            r.message == self.message,
            r.output == self.output,
            r.affected_paths@.len() == 0,
    {
        ActionResult {
            success: self.success,
            message: self.message,
            output: self.output,
            affected_paths: Vec::new(),
        }
    }
}

/// The result of one workflow action.
#[derive(Debug, Clone, PartialEq)]
pub struct ActionResult {
    pub success: bool,
    pub message: String,
    /// Output data as JSON text; `None` where the action gave none.
    pub output: Option<String>,
    pub affected_paths: Vec<String>,
}

/// Descriptive data about a loaded plugin.
#[derive(Debug, Clone)]
pub struct PluginMetadata {
    pub id: String,
    /// Display name.
    pub name: String,
    /// Plugin version (semver).
    pub version: String,
    pub description: Option<String>,
    pub author: Option<String>,
    /// SPDX licence identifier.
    pub license: Option<String>,
    /// Version of the plugin interface the plugin was built for.
    pub api_version: String,
    pub required_permissions: PermissionSet,
    /// Free-form entries: keys with JSON text values.
    pub extra: Vec<(String, String)>,
}

impl PluginMetadata {
    /// Metadata with the given identity and nothing else.
    pub fn new(id: String, name: String, version: String) -> (r: PluginMetadata)
        ensures
            r.id == id,
            r.name == name,
            r.version == version,
            r.description is None,
            r.author is None,
            r.license is None,
            r.api_version@ == API_VERSION@,
            r.required_permissions@ == Set::<PermissionView>::empty(),
            r.extra@.len() == 0,
    {
        PluginMetadata {
            id,
            name,
            version,
            description: None,
            author: None,
            license: None,
            api_version: String::from_str(API_VERSION),
            required_permissions: PermissionSet::empty(),
            extra: Vec::new(),
        }
    }

    pub fn with_description(self, desc: String) -> (r: PluginMetadata)
        ensures
            r == (PluginMetadata { description: Some(desc), ..self }),
    {
        PluginMetadata { description: Some(desc), ..self }
    }

    pub fn with_author(self, author: String) -> (r: PluginMetadata)
        ensures
            r == (PluginMetadata { author: Some(author), ..self }),
    {
        PluginMetadata { author: Some(author), ..self }
    }

    pub fn with_license(self, license: String) -> (r: PluginMetadata)
        ensures
            r == (PluginMetadata { license: Some(license), ..self }),
    {
        PluginMetadata { license: Some(license), ..self }
    }

    pub fn with_permissions(self, perms: PermissionSet) -> (r: PluginMetadata)
        ensures
            r == (PluginMetadata { required_permissions: perms, ..self }),
    {
        PluginMetadata { required_permissions: perms, ..self }
    }
}

} // verus!
