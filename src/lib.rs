//! Capability-restricted execution of WebAssembly plugins.
//!
//! A plugin runs in a sandbox that holds a set of grants ([`permissions`]).
//! Every request the guest makes of the host ([`api::HostRequest`]) is
//! mediated on its own ([`sandbox::SandboxState::mediate`]): past the
//! deadline it is refused, a request that needs a permission no grant
//! covers is denied, and otherwise the host is told the one operation it may
//! perform. Paths are judged after resolution ([`path`]), so `..` cannot
//! climb out of a granted directory. How a guest stops decides the end of
//! its invocation: a spent instruction budget, a passed deadline, a trap, or
//! completion. Loaded plugins live in a registry ([`host::PluginHost`]).

pub mod adapter;
pub mod api;
pub mod base64;
pub mod config;
pub mod error;
pub mod host;
pub mod path;
pub mod permissions;
pub mod sandbox;
pub mod text;

pub use error::PluginError;
pub use host::{PluginHost, PluginInstance};
pub use permissions::{Permission, PermissionSet};
pub use sandbox::{Sandbox, SandboxConfig};
