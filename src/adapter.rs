//! A plugin invocation presented as one step of a workflow's actions.

use crate::api::{ActionResult, PluginActionResult};
use crate::error::{error_text, PluginError};
use crate::host::{PluginHost, PluginInstance};
use crate::text::push_str;
use std::sync::Arc;
use vstd::prelude::*;
use vstd::string::StringExecFns;

verus! {

/// Errors of workflow actions.
#[derive(Debug, Clone, PartialEq, Eq)]
pub enum Error {
    /// An I/O operation failed; the operating system's message.
    Io(String),
    Config(String),
    Workflow(String),
    ActionFailed { action: String, reason: String },
    InvalidPattern(String),
    Watch(String),
    /// A payload could not be (de)serialised; the serialiser's message.
    Serialization(String),
    Other(String),
}

/// An action that runs `action_name` of plugin `plugin_id` through a
/// registry, with plugin-specific settings.
pub struct PluginActionWrapper {
    plugin_id: String,
    action_name: String,
    config: Vec<(String, String)>,
    host: Option<Arc<PluginHost>>,
}

impl PluginActionWrapper {
    #[verifier::type_invariant]
    spec fn host_well_formed(&self) -> bool {
        match self.host {
            Some(h) => h.wf(),
            None => true,
        }
    }

    pub closed spec fn spec_plugin_id(&self) -> Seq<char> {
        self.plugin_id@
    }

    pub closed spec fn spec_action(&self) -> Seq<char> {
        self.action_name@
    }

    pub closed spec fn spec_config(&self) -> Seq<(String, String)> {
        self.config@
    }

    pub closed spec fn spec_host(&self) -> Option<Map<Seq<char>, Seq<Seq<char>>>> {
        match self.host {
            Some(h) => Some(h@),
            None => None,
        }
    }

    /// An action without a registry yet.
    pub fn new(plugin_id: String, action_name: String, config: Vec<(String, String)>) -> (r:
        PluginActionWrapper)
        ensures
            r.spec_plugin_id() == plugin_id@,
            r.spec_action() == action_name@,
            r.spec_config() == config@,
            r.spec_host() is None,
    {
        PluginActionWrapper { plugin_id, action_name, config, host: None }
    }

    /// This action, dispatching through `host`.
    pub fn with_host(self, host: Arc<PluginHost>) -> (r: PluginActionWrapper)
        requires
            host.wf(),
        ensures
            r.spec_plugin_id() == self.spec_plugin_id(),
            r.spec_action() == self.spec_action(),
            r.spec_config() == self.spec_config(),
            r.spec_host() == Some(host@),
    {
        let PluginActionWrapper { plugin_id, action_name, config, host: _ } = self;
        PluginActionWrapper { plugin_id, action_name, config, host: Some(host) }
    }

    /// The action's name: the plugin action it runs.
    pub fn name(&self) -> (r: &str)
        ensures
            r@ == self.spec_action(),
    {
        self.action_name.as_str()
    }

    pub fn plugin_id(&self) -> (r: &str)
        ensures
            r@ == self.spec_plugin_id(),
    {
        self.plugin_id.as_str()
    }

    /// The plugin-specific settings handed to the plugin.
    pub fn config(&self) -> (r: &[(String, String)])
        ensures
            r@ == self.spec_config(),
    {
        self.config.as_slice()
    }

    /// Fails where the plugin id or the action name is empty.
    pub fn validate(&self) -> (r: Result<(), Error>)
        ensures
            self.spec_plugin_id().len() == 0 ==> match r {
                Err(Error::Config(m)) => m@ == "Plugin ID cannot be empty"@,
                _ => false,
            },
            self.spec_plugin_id().len() > 0 && self.spec_action().len() == 0 ==> match r {
                Err(Error::Config(m)) => m@ == "Action name cannot be empty"@,
                _ => false,
            },
            self.spec_plugin_id().len() > 0 && self.spec_action().len() > 0 ==> r is Ok,
    {
        if self.plugin_id.as_str().is_empty() {
            return Err(Error::Config(String::from_str("Plugin ID cannot be empty")));
        }
        if self.action_name.as_str().is_empty() {
            return Err(Error::Config(String::from_str("Action name cannot be empty")));
        }
        Ok(())
    }

    fn failed(&self, reason: String) -> (r: Error)
        ensures
            match r {
                Error::ActionFailed { action, reason: why } => action@ == self.spec_action()
                    && why == reason,
                _ => false,
            },
    {
        Error::ActionFailed { action: self.action_name.clone(), reason }
    }

    /// The plugin instance an invocation of this action runs. Fails where no
    /// registry is set, or where the registry has no such plugin or action;
    /// the failure names this action and the reason.
    pub fn prepare(&self) -> (r: Result<&PluginInstance, Error>)
        ensures
            self.spec_host() is None ==> match r {
                Err(Error::ActionFailed { action, reason }) => action@ == self.spec_action()
                    && reason@ == "Plugin host not configured"@,
                _ => false,
            },
            match self.spec_host() {
                Some(m) => {
                    &&& !m.contains_key(self.spec_plugin_id()) ==> match r {
                        Err(Error::ActionFailed { action, reason }) => action@ == self.spec_action()
                            && reason@ == "Plugin not found: "@ + self.spec_plugin_id(),
                        _ => false,
                    }
                    &&& m.contains_key(self.spec_plugin_id()) && m[self.spec_plugin_id()].contains(
                        self.spec_action(),
                    ) ==> match r {
                        Ok(p) => p.spec_id() == self.spec_plugin_id(),
                        _ => false,
                    }
                    &&& m.contains_key(self.spec_plugin_id()) && !m[self.spec_plugin_id()].contains(
                        self.spec_action(),
                    ) ==> match r {
                        Err(Error::ActionFailed { action, reason }) => action@ == self.spec_action()
                            && reason@ == "Plugin execution failed: "@ + ("Plugin '"@
                            + self.spec_plugin_id() + "' does not have action '"@
                            + self.spec_action() + "'"@),
                        _ => false,
                    }
                },
                None => true,
            },
    {
        proof {
            use_type_invariant(self);
        }
        match &self.host {
            None => Err(self.failed(String::from_str("Plugin host not configured"))),
            Some(host) => {
                let h: &PluginHost = &**host;
                match h.resolve_action(self.plugin_id.as_str(), self.action_name.as_str()) {
                    Ok(p) => Ok(p),
                    Err(e) => Err(self.failed(e.message())),
                }
            },
        }
    }

    /// The workflow result of an invocation that produced `outcome`: the
    /// plugin's result, or a failure of this action with the error's text.
    pub fn complete(&self, outcome: Result<PluginActionResult, PluginError>) -> (r: Result<
        ActionResult,
        Error,
    >)
        ensures
            match outcome {
                Ok(res) => match r {
                    Ok(a) => a.success == res.success && a.message == res.message && a.output
                        == res.output && a.affected_paths@.len() == 0,
                    Err(_) => false,
                },
                Err(e) => match r {
                    Err(Error::ActionFailed { action, reason }) => action@ == self.spec_action()
                        && reason@ == error_text(e),
                    _ => false,
                },
            },
    {
        match outcome {
            Ok(res) => Ok(res.into_action_result()),
            Err(e) => Err(self.failed(e.message())),
        }
    }
}

} // verus!
