//! Errors of the plugin subsystem.

use crate::text::{decimal, push_decimal, push_str};
use vstd::prelude::*;

verus! {

/// What can go wrong when loading, finding or running a plugin.
#[derive(Debug, Clone, PartialEq, Eq)]
pub enum PluginError {
    NotFound(String),
    LoadFailed(String),
    ExecutionFailed(String),
    PermissionDenied(String),
    ResourceLimitExceeded(String),
    /// The invocation ran past its deadline, in milliseconds.
    Timeout(u64),
    InvalidFormat(String),
    SandboxError(String),
    /// A payload could not be (de)serialised; the serialiser's message.
    Serialization(String),
    /// An I/O operation failed; the operating system's message.
    Io(String),
    /// The WebAssembly runtime failed; its message.
    Wasm(String),
    VersionMismatch { expected: String, got: String },
    Other(String),
}

/// The text that describes an error.
pub open spec fn error_text(e: PluginError) -> Seq<char> {
    match e {
        PluginError::NotFound(m) => "Plugin not found: "@ + m@,
        PluginError::LoadFailed(m) => "Plugin load failed: "@ + m@,
        PluginError::ExecutionFailed(m) => "Plugin execution failed: "@ + m@,
        PluginError::PermissionDenied(m) => "Permission denied: "@ + m@,
        PluginError::ResourceLimitExceeded(m) => "Resource limit exceeded: "@ + m@,
        PluginError::Timeout(ms) => "Timeout: plugin execution exceeded "@ + decimal(ms as nat)
            + "ms"@,
        PluginError::InvalidFormat(m) => "Invalid plugin format: "@ + m@,
        PluginError::SandboxError(m) => "Sandbox error: "@ + m@,
        PluginError::Serialization(m) => "Serialization error: "@ + m@,
        PluginError::Io(m) => "IO error: "@ + m@,
        PluginError::Wasm(m) => "WASM error: "@ + m@,
        PluginError::VersionMismatch { expected, got } => "Plugin API version mismatch: expected "@
            + expected@ + ", got "@ + got@,
        PluginError::Other(m) => m@,
    }
}

impl PluginError {
    /// The text that describes this error.
    pub fn message(&self) -> (r: String)
        ensures
            r@ == error_text(*self),
    {
        let mut s = String::new();
        match self {
            PluginError::NotFound(m) => {
                push_str(&mut s, "Plugin not found: ");
                push_str(&mut s, m.as_str());
            },
            PluginError::LoadFailed(m) => {
                push_str(&mut s, "Plugin load failed: ");
                push_str(&mut s, m.as_str());
            },
            PluginError::ExecutionFailed(m) => {
                push_str(&mut s, "Plugin execution failed: ");
                push_str(&mut s, m.as_str());
            },
            PluginError::PermissionDenied(m) => {
                push_str(&mut s, "Permission denied: ");
                push_str(&mut s, m.as_str());
            },
            PluginError::ResourceLimitExceeded(m) => {
                push_str(&mut s, "Resource limit exceeded: ");
                push_str(&mut s, m.as_str());
            },
            PluginError::Timeout(ms) => {
                push_str(&mut s, "Timeout: plugin execution exceeded ");
                push_decimal(&mut s, *ms);
                push_str(&mut s, "ms");
            },
            PluginError::InvalidFormat(m) => {
                push_str(&mut s, "Invalid plugin format: ");
                push_str(&mut s, m.as_str());
            },
            PluginError::SandboxError(m) => {
                push_str(&mut s, "Sandbox error: ");
                push_str(&mut s, m.as_str());
            },
            PluginError::Serialization(m) => {
                push_str(&mut s, "Serialization error: ");
                push_str(&mut s, m.as_str());
            },
            PluginError::Io(m) => {
                push_str(&mut s, "IO error: ");
                push_str(&mut s, m.as_str());
            },
            PluginError::Wasm(m) => {
                push_str(&mut s, "WASM error: ");
                push_str(&mut s, m.as_str());
            },
            PluginError::VersionMismatch { expected, got } => {
                push_str(&mut s, "Plugin API version mismatch: expected ");
                push_str(&mut s, expected.as_str());
                push_str(&mut s, ", got ");
                push_str(&mut s, got.as_str());
            },
            PluginError::Other(m) => push_str(&mut s, m.as_str()),
        }
        s
    }
}

} // verus!
