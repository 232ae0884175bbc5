//! The plugin registry: configurations for loading plugins, loaded
//! instances, and the collection of instances keyed by id.

use crate::api::PluginMetadata;
use crate::error::PluginError;
use crate::permissions::Permission;
use crate::sandbox::{module_exports, opt_view, Sandbox, SandboxConfig};
use crate::text::push_str;
use vstd::prelude::*;
use vstd::string::StringExecFns;

verus! {

/// The stem of a path's final component, as `std::path::Path::file_stem`
/// gives it.
pub uninterp spec fn file_stem_of(path: Seq<char>) -> Option<Seq<char>>;

/// The extension of a path's final component, as
/// `std::path::Path::extension` gives it.
pub uninterp spec fn extension_of(path: Seq<char>) -> Option<Seq<char>>;

/// Relies on `std::path::Path::file_stem`: the final component without its
/// extension, where the path has a final component.
#[verifier::external_body]
fn path_stem(path: &str) -> (r: Option<String>)
    ensures
        opt_view(r) == file_stem_of(path@),
{
    std::path::Path::new(path).file_stem().map(|s| s.to_string_lossy().into_owned())
}

/// Relies on `std::path::Path::extension`: the text after the final `.` of
/// the final component, where there is one.
#[verifier::external_body]
fn path_extension(path: &str) -> (r: Option<String>)
    ensures
        opt_view(r) == extension_of(path@),
{
    std::path::Path::new(path).extension().map(|s| s.to_string_lossy().into_owned())
}

/// The id a plugin is registered under: the one configured, else the file
/// stem of its path, else `unknown`.
pub open spec fn plugin_id_for(path: Seq<char>, id: Option<Seq<char>>) -> Seq<char> {
    match id {
        Some(i) => i,
        None => match file_stem_of(path) {
            Some(stem) => stem,
            None => "unknown"@,
        },
    }
}

/// Whether a file is a plugin module: its extension is `wasm`.
pub open spec fn is_module_file(path: Seq<char>) -> bool {
    extension_of(path) == Some("wasm"@)
}

/// Whether `path` names a plugin module.
pub fn is_plugin_file(path: &str) -> (r: bool)
    ensures
        r == is_module_file(path@),
{
    match path_extension(path) {
        Some(ext) => {
            let wasm = String::from_str("wasm");
            ext == wasm
        },
        None => false,
    }
}

/// The value last set for `key` among `entries`.
pub open spec fn setting(entries: Seq<(String, String)>, key: Seq<char>) -> Option<Seq<char>>
    decreases entries.len(),
{
    if entries.len() == 0 {
        None
    } else if entries.last().0@ == key {
        Some(entries.last().1@)
    } else {
        setting(entries.drop_last(), key)
    }
}

/// How to load one plugin.
#[derive(Debug)]
pub struct PluginConfig {
    /// Path of the module file.
    pub path: String,
    /// Id to register the plugin under; derived from the path where absent.
    pub id: Option<String>,
    pub enabled: bool,
    pub sandbox: SandboxConfig,
    /// Plugin-specific settings: keys with JSON text values; a later entry
    /// overrides an earlier one with the same key.
    pub config: Vec<(String, String)>,
}

fn copy_opt(s: &Option<String>) -> (r: Option<String>)
    ensures
        r == *s,
{
    match s {
        Some(v) => Some(v.clone()),
        None => None,
    }
}

impl Clone for PluginConfig {
    fn clone(&self) -> (r: PluginConfig)
        ensures
            r.path == self.path,
            r.id == self.id,
            r.enabled == self.enabled,
            r.sandbox.memory_limit == self.sandbox.memory_limit,
            r.sandbox.timeout_ms == self.sandbox.timeout_ms,
            r.sandbox.fuel_limit == self.sandbox.fuel_limit,
            r.sandbox.permissions@ == self.sandbox.permissions@,
            r.sandbox.work_dir == self.sandbox.work_dir,
            r.config@ == self.config@,
    {
        let mut config: Vec<(String, String)> = Vec::new();
        for i in 0..self.config.len()
            invariant
                config@ == self.config@.take(i as int),
        {
            config.push((self.config[i].0.clone(), self.config[i].1.clone()));
            assert(config@ =~= self.config@.take(i + 1));
        }
        assert(self.config@.take(self.config@.len() as int) =~= self.config@);
        PluginConfig {
            path: self.path.clone(),
            id: copy_opt(&self.id),
            enabled: self.enabled,
            sandbox: self.sandbox.clone(),
            config,
        }
    }
}

impl PluginConfig {
    /// Loading the module at `path`, enabled, with the default sandbox; the
    /// id is the file stem of `path`.
    pub fn new(path: String) -> (r: PluginConfig)
        ensures
            r.path == path,
            opt_view(r.id) == file_stem_of(path@),
            r.enabled,
            r.sandbox.memory_limit == crate::sandbox::DEFAULT_MEMORY_LIMIT,
            r.sandbox.timeout_ms == crate::sandbox::DEFAULT_TIMEOUT_MS,
            r.sandbox.fuel_limit == Some(crate::sandbox::DEFAULT_FUEL_LIMIT),
            r.sandbox.permissions@ == crate::sandbox::default_grants(),
            r.sandbox.work_dir is None,
            r.config@.len() == 0,
    {
        let id = path_stem(path.as_str());
        PluginConfig { path, id, enabled: true, sandbox: SandboxConfig::new(), config: Vec::new() }
    }

    pub fn with_id(self, id: String) -> (r: PluginConfig)
        ensures
            r == (PluginConfig { id: Some(id), ..self }),
    {
        PluginConfig { id: Some(id), ..self }
    }

    pub fn with_enabled(self, enabled: bool) -> (r: PluginConfig)
        ensures
            r == (PluginConfig { enabled, ..self }),
    {
        PluginConfig { enabled, ..self }
    }

    pub fn with_permission(self, perm: Permission) -> (r: PluginConfig)
        ensures
            r.path == self.path,
            r.id == self.id,
            r.enabled == self.enabled,
            r.sandbox.permissions@ == self.sandbox.permissions@.insert(perm@),
            r.sandbox.memory_limit == self.sandbox.memory_limit,
            r.sandbox.timeout_ms == self.sandbox.timeout_ms,
            r.sandbox.fuel_limit == self.sandbox.fuel_limit,
            r.config == self.config,
    {
        let PluginConfig { path, id, enabled, sandbox, config } = self;
        PluginConfig { path, id, enabled, sandbox: sandbox.with_permission(perm), config }
    }

    pub fn with_memory_limit(self, bytes: u64) -> (r: PluginConfig)
        ensures
            r.path == self.path,
            r.id == self.id,
            r.enabled == self.enabled,
            r.sandbox == (SandboxConfig { memory_limit: bytes, ..self.sandbox }),
            r.config == self.config,
    {
        let PluginConfig { path, id, enabled, sandbox, config } = self;
        PluginConfig { path, id, enabled, sandbox: sandbox.with_memory_limit(bytes), config }
    }

    pub fn with_timeout(self, ms: u64) -> (r: PluginConfig)
        ensures
            r.path == self.path,
            r.id == self.id,
            r.enabled == self.enabled,
            r.sandbox == (SandboxConfig { timeout_ms: ms, ..self.sandbox }),
            r.config == self.config,
    {
        let PluginConfig { path, id, enabled, sandbox, config } = self;
        PluginConfig { path, id, enabled, sandbox: sandbox.with_timeout(ms), config }
    }

    /// This configuration with `key` set to the JSON text `value`.
    pub fn with_config(self, key: String, value: String) -> (r: PluginConfig)
        ensures
            r.path == self.path,
            r.id == self.id,
            r.enabled == self.enabled,
            r.sandbox == self.sandbox,
            setting(r.config@, key@) == Some(value@),
            forall|k: Seq<char>| k != key@ ==> setting(r.config@, k) == setting(self.config@, k),
    {
        let PluginConfig { path, id, enabled, sandbox, mut config } = self;
        let ghost before = config@;
        config.push((key, value));
        assert(config@.drop_last() =~= before);
        PluginConfig { path, id, enabled, sandbox, config }
    }

    /// The id this plugin is registered under.
    pub fn get_id(&self) -> (r: String)
        ensures
            r@ == plugin_id_for(self.path@, opt_view(self.id)),
    {
        match &self.id {
            Some(id) => id.clone(),
            None => match path_stem(self.path.as_str()) {
                Some(stem) => stem,
                None => String::from_str("unknown"),
            },
        }
    }
}

/// Whether an export name is internal: it starts with `_`.
pub open spec fn hidden(name: Seq<char>) -> bool {
    name.len() > 0 && name[0] == '_'
}

/// The callable actions among a module's exports: the functions whose names
/// are not internal, in order.
pub open spec fn callable_names(exports: Seq<(Seq<char>, bool)>) -> Seq<Seq<char>>
    decreases exports.len(),
{
    if exports.len() == 0 {
        Seq::empty()
    } else {
        let rest = callable_names(exports.drop_last());
        let (name, is_func) = exports.last();
        if is_func && !hidden(name) {
            rest.push(name)
        } else {
            rest
        }
    }
}

pub open spec fn string_views(v: Seq<String>) -> Seq<Seq<char>> {
    v.map_values(|s: String| s@)
}

pub open spec fn export_views(v: Seq<(String, bool)>) -> Seq<(Seq<char>, bool)> {
    v.map_values(|e: (String, bool)| (e.0@, e.1))
}

/// No callable action is internal.
pub proof fn lemma_callable_names_not_hidden(exports: Seq<(Seq<char>, bool)>)
    ensures
        forall|i: int|
            0 <= i < callable_names(exports).len() ==> !hidden(#[trigger] callable_names(exports)[i]),
    decreases exports.len(),
{
    if exports.len() > 0 {
        lemma_callable_names_not_hidden(exports.drop_last());
        let rest = callable_names(exports.drop_last());
        assert forall|i: int| 0 <= i < callable_names(exports).len() implies !hidden(
            #[trigger] callable_names(exports)[i],
        ) by {
            if i < rest.len() {
                assert(callable_names(exports)[i] == rest[i]);
            }
        }
    }
}

/// The callable actions among `exports` (name, is-a-function).
pub fn callable_actions(exports: &Vec<(String, bool)>) -> (r: Vec<String>)
    ensures
        string_views(r@) == callable_names(export_views(exports@)),
{
    let mut out: Vec<String> = Vec::new();
    let ghost ev = export_views(exports@);
    assert(ev.take(0) =~= Seq::<(Seq<char>, bool)>::empty());
    for i in 0..exports.len()
        invariant
            ev == export_views(exports@),
            string_views(out@) == callable_names(ev.take(i as int)),
    {
        proof {
            assert(ev.take(i + 1).drop_last() =~= ev.take(i as int));
        }
        let (name, is_func) = (&exports[i].0, exports[i].1);
        let internal = !name.as_str().is_empty() && name.as_str().get_char(0) == '_';
        if is_func && !internal {
            let ghost before = out@;
            out.push(name.clone());
            assert(string_views(out@) =~= string_views(before).push(name@));
        }
    }
    assert(ev.take(exports.len() as int) =~= ev);
    out
}

/// A plugin whose module is compiled and ready to run.
pub struct PluginInstance {
    config: PluginConfig,
    metadata: PluginMetadata,
    module: wasmtime::Module,
    sandbox: Sandbox,
    actions: Vec<String>,
}

impl PluginInstance {
    pub closed spec fn spec_id(&self) -> Seq<char> {
        self.metadata.id@
    }

    pub closed spec fn spec_actions(&self) -> Seq<Seq<char>> {
        string_views(self.actions@)
    }

    /// The instance is registered under the id its configuration gives, and
    /// that configuration is enabled.
    pub closed spec fn id_from_config(&self) -> bool {
        &&& self.metadata.id@ == plugin_id_for(self.config.path@, opt_view(self.config.id))
        &&& self.config.enabled
    }

    /// The id the plugin is registered under.
    pub fn id(&self) -> (r: &str)
        ensures
            r@ == self.spec_id(),
    {
        self.metadata.id.as_str()
    }

    pub fn metadata(&self) -> (r: &PluginMetadata)
        ensures
            r.id@ == self.spec_id(),
    {
        &self.metadata
    }

    /// The callable actions, in the module's order.
    pub fn actions(&self) -> (r: &[String])
        ensures
            string_views(r@) == self.spec_actions(),
    {
        self.actions.as_slice()
    }

    /// Whether `action` is one of the callable actions.
    pub fn has_action(&self, action: &str) -> (r: bool)
        ensures
            r == self.spec_actions().contains(action@),
    {
        let ghost acts = self.spec_actions();
        let target = String::from_str(action);
        for i in 0..self.actions.len()
            invariant
                acts == string_views(self.actions@),
                target@ == action@,
                forall|j: int| 0 <= j < i ==> acts[j] != action@,
        {
            if self.actions[i].eq(&target) {
                assert(acts[i as int] == action@);
                return true;
            }
        }
        false
    }

    /// Succeeds where `action` is callable; else names the plugin and action.
    pub fn check_action(&self, action: &str) -> (r: Result<(), PluginError>)
        ensures
            r is Ok <==> self.spec_actions().contains(action@),
            match r {
                Err(PluginError::ExecutionFailed(m)) => m@ == "Plugin '"@ + self.spec_id()
                    + "' does not have action '"@ + action@ + "'"@,
                Err(_) => false,
                Ok(_) => true,
            },
    {
        if self.has_action(action) {
            Ok(())
        } else {
            let mut m = String::new();
            push_str(&mut m, "Plugin '");
            push_str(&mut m, self.metadata.id.as_str());
            push_str(&mut m, "' does not have action '");
            push_str(&mut m, action);
            push_str(&mut m, "'");
            Err(PluginError::ExecutionFailed(m))
        }
    }

    /// How the plugin was loaded.
    pub fn config(&self) -> &PluginConfig {
        &self.config
    }

    /// The compiled module.
    pub fn module(&self) -> &wasmtime::Module {
        &self.module
    }

    /// The sandbox the plugin runs in.
    pub fn sandbox(&self) -> &Sandbox {
        &self.sandbox
    }
}

pub open spec fn unique_ids(s: Seq<PluginInstance>) -> bool {
    forall|i: int, j: int|
        0 <= i < s.len() && 0 <= j < s.len() && i != j ==> s[i].spec_id() != s[j].spec_id()
}

/// The instances of `s` as a map from id to callable actions.
pub open spec fn registry_map(s: Seq<PluginInstance>) -> Map<Seq<char>, Seq<Seq<char>>> {
    Map::new(
        |id: Seq<char>| exists|i: int| 0 <= i < s.len() && s[i].spec_id() == id,
        |id: Seq<char>|
            s[choose|i: int| 0 <= i < s.len() && s[i].spec_id() == id].spec_actions(),
    )
}

proof fn lemma_registry_at(s: Seq<PluginInstance>, i: int)
    requires
        unique_ids(s),
        0 <= i < s.len(),
    ensures
        registry_map(s).contains_key(s[i].spec_id()),
        registry_map(s)[s[i].spec_id()] == s[i].spec_actions(),
{
    let id = s[i].spec_id();
    assert(registry_map(s).contains_key(id));
    let k = choose|k: int| 0 <= k < s.len() && s[k].spec_id() == id;
    assert(k == i);
}

proof fn lemma_registry_push(s: Seq<PluginInstance>, x: PluginInstance)
    requires
        unique_ids(s),
        !registry_map(s).contains_key(x.spec_id()),
    ensures
        unique_ids(s.push(x)),
        registry_map(s.push(x)) == registry_map(s).insert(x.spec_id(), x.spec_actions()),
{
    let t = s.push(x);
    assert forall|i: int, j: int|
        0 <= i < t.len() && 0 <= j < t.len() && i != j implies t[i].spec_id() != t[j].spec_id() by {
        if i < s.len() && j < s.len() {
        } else if i == s.len() {
            assert(registry_map(s).contains_key(t[j].spec_id()));
        } else {
            assert(registry_map(s).contains_key(t[i].spec_id()));
        }
    }
    let m = registry_map(s).insert(x.spec_id(), x.spec_actions());
    assert forall|id: Seq<char>| #[trigger] registry_map(t).contains_key(id) <==> m.contains_key(id) by {
        if registry_map(s).contains_key(id) {
            let k = choose|k: int| 0 <= k < s.len() && s[k].spec_id() == id;
            assert(t[k].spec_id() == id);
        }
        if registry_map(t).contains_key(id) && id != x.spec_id() {
            let k = choose|k: int| 0 <= k < t.len() && t[k].spec_id() == id;
            assert(s[k].spec_id() == id);
        }
        assert(t[s.len() as int].spec_id() == x.spec_id());
    }
    assert forall|id: Seq<char>| #[trigger] m.contains_key(id) implies registry_map(t)[id] == m[id] by {
        if id == x.spec_id() {
            lemma_registry_at(t, s.len() as int);
        } else {
            let k = choose|k: int| 0 <= k < s.len() && s[k].spec_id() == id;
            assert(t[k] == s[k]);
            lemma_registry_at(t, k);
            lemma_registry_at(s, k);
        }
    }
    assert(registry_map(t) =~= m);
}

proof fn lemma_registry_remove(s: Seq<PluginInstance>, i: int)
    requires
        unique_ids(s),
        0 <= i < s.len(),
    ensures
        unique_ids(s.remove(i)),
        registry_map(s.remove(i)) == registry_map(s).remove(s[i].spec_id()),
{
    let t = s.remove(i);
    let gone = s[i].spec_id();
    assert forall|a: int, b: int|
        0 <= a < t.len() && 0 <= b < t.len() && a != b implies t[a].spec_id() != t[b].spec_id() by {
        let a2 = if a < i { a } else { a + 1 };
        let b2 = if b < i { b } else { b + 1 };
        assert(t[a] == s[a2] && t[b] == s[b2]);
    }
    let m = registry_map(s).remove(gone);
    assert forall|id: Seq<char>| #[trigger] registry_map(t).contains_key(id) <==> m.contains_key(id) by {
        if registry_map(t).contains_key(id) {
            let k = choose|k: int| 0 <= k < t.len() && t[k].spec_id() == id;
            let k2 = if k < i { k } else { k + 1 };
            assert(s[k2].spec_id() == id);
        }
        if m.contains_key(id) {
            let k = choose|k: int| 0 <= k < s.len() && s[k].spec_id() == id;
            assert(k != i);
            let k2 = if k < i { k } else { k - 1 };
            assert(t[k2].spec_id() == id);
        }
    }
    assert forall|id: Seq<char>| #[trigger] m.contains_key(id) implies registry_map(t)[id] == m[id] by {
        let k = choose|k: int| 0 <= k < s.len() && s[k].spec_id() == id;
        assert(k != i);
        let k2 = if k < i { k } else { k - 1 };
        assert(t[k2] == s[k]);
        lemma_registry_at(t, k2);
        lemma_registry_at(s, k);
    }
    assert(registry_map(t) =~= m);
}

/// The id a load outcome registered, if it succeeded.
pub open spec fn outcome_id(o: (String, Result<String, PluginError>)) -> Option<Seq<char>> {
    match o.1 {
        Ok(id) => Some(id@),
        Err(_) => None,
    }
}

/// The ids of the successful loads among `outcomes`.
pub open spec fn loaded_ids(outcomes: Seq<(String, Result<String, PluginError>)>) -> Set<Seq<char>> {
    Set::new(
        |id: Seq<char>|
            exists|i: int| 0 <= i < outcomes.len() && outcome_id(#[trigger] outcomes[i]) == Some(id),
    )
}

proof fn lemma_loaded_ids_push(
    s: Seq<(String, Result<String, PluginError>)>,
    x: (String, Result<String, PluginError>),
)
    ensures
        loaded_ids(s.push(x)) == match outcome_id(x) {
            Some(id) => loaded_ids(s).insert(id),
            None => loaded_ids(s),
        },
{
    let t = s.push(x);
    let m = match outcome_id(x) {
        Some(id) => loaded_ids(s).insert(id),
        None => loaded_ids(s),
    };
    assert forall|id: Seq<char>| loaded_ids(t).contains(id) <==> m.contains(id) by {
        if loaded_ids(s).contains(id) {
            let i = choose|i: int| 0 <= i < s.len() && outcome_id(#[trigger] s[i]) == Some(id);
            assert(t[i] == s[i]);
        }
        if loaded_ids(t).contains(id) {
            let i = choose|i: int| 0 <= i < t.len() && outcome_id(#[trigger] t[i]) == Some(id);
            if i < s.len() {
                assert(t[i] == s[i]);
            }
        }
        assert(t[s.len() as int] == x);
    }
    assert(loaded_ids(t) =~= m);
}

/// The loaded plugins, keyed by id.
pub struct PluginHost {
    plugins: Vec<PluginInstance>,
    default_sandbox_config: SandboxConfig,
    search_paths: Vec<String>,
}

impl View for PluginHost {
    type V = Map<Seq<char>, Seq<Seq<char>>>;

    /// Each loaded plugin's id, with its callable actions.
    closed spec fn view(&self) -> Map<Seq<char>, Seq<Seq<char>>> {
        registry_map(self.plugins@)
    }
}

/// An error a load of an enabled configuration can end in: the engine could
/// not be built, or the module did not compile.
pub open spec fn load_error(e: PluginError) -> bool {
    match e {
        PluginError::Wasm(_) => true,
        PluginError::LoadFailed(m) => exists|reason: Seq<char>|
            m@ == "Failed to compile WASM module: "@ + reason,
        _ => false,
    }
}

/// No action of any instance of `s` is internal.
pub open spec fn actions_visible(s: Seq<PluginInstance>) -> bool {
    forall|i: int, j: int|
        0 <= i < s.len() && 0 <= j < s[i].spec_actions().len() ==> !hidden(
            #[trigger] s[i].spec_actions()[j],
        )
}

impl PluginHost {
    /// No two loaded plugins share an id, each is registered under the id
    /// its configuration gives, and no registered action is internal.
    pub closed spec fn wf(&self) -> bool {
        &&& unique_ids(self.plugins@)
        &&& forall|i: int| 0 <= i < self.plugins@.len() ==> #[trigger] self.plugins@[i].id_from_config()
        &&& actions_visible(self.plugins@)
    }

    pub closed spec fn spec_search_paths(&self) -> Seq<Seq<char>> {
        string_views(self.search_paths@)
    }

    /// A registry with no plugins.
    pub fn new() -> (r: Result<PluginHost, PluginError>)
        ensures
            match r {
                Ok(h) => h.wf() && h@ == Map::<Seq<char>, Seq<Seq<char>>>::empty()
                    && h.spec_search_paths().len() == 0,
                Err(_) => false,
            },
    {
        let h = PluginHost {
            plugins: Vec::new(),
            default_sandbox_config: SandboxConfig::new(),
            search_paths: Vec::new(),
        };
        assert(h@ =~= Map::<Seq<char>, Seq<Seq<char>>>::empty());
        Ok(h)
    }

    /// Adds a directory to look for plugin modules in.
    pub fn add_search_path(&mut self, path: String)
        requires
            old(self).wf(),
        ensures
            final(self).wf(),
            final(self)@ == old(self)@,
            final(self).spec_search_paths() == old(self).spec_search_paths().push(path@),
    {
        let ghost before = self.search_paths@;
        self.search_paths.push(path);
        assert(string_views(self.search_paths@) =~= string_views(before).push(path@));
    }

    /// The directories to look for plugin modules in.
    pub fn search_paths(&self) -> (r: &[String])
        ensures
            string_views(r@) == self.spec_search_paths(),
    {
        self.search_paths.as_slice()
    }

    pub fn set_default_sandbox_config(&mut self, config: SandboxConfig)
        requires
            old(self).wf(),
        ensures
            final(self).wf(),
            final(self)@ == old(self)@,
            final(self).spec_search_paths() == old(self).spec_search_paths(),
    {
        self.default_sandbox_config = config;
    }

    fn position(&self, id: &str) -> (r: Option<usize>)
        ensures
            match r {
                Some(i) => i < self.plugins@.len() && self.plugins@[i as int].spec_id() == id@,
                None => !self@.contains_key(id@),
            },
    {
        let target = String::from_str(id);
        for i in 0..self.plugins.len()
            invariant
                target@ == id@,
                forall|j: int| 0 <= j < i ==> self.plugins@[j].spec_id() != id@,
        {
            if self.plugins[i].metadata.id.eq(&target) {
                return Some(i);
            }
        }
        None
    }

    /// Loads the module `wasm` under `config`. A disabled configuration is
    /// refused; a module that does not compile is a load failure and leaves
    /// the registry as it was. A plugin already loaded under the same id is
    /// replaced. The registered actions are the module's exported functions
    /// whose names do not start with `_`.
    pub fn load_plugin(&mut self, config: PluginConfig, wasm: &[u8]) -> (r: Result<
        String,
        PluginError,
    >)
        requires
            old(self).wf(),
        ensures
            final(self).wf(),
            final(self).spec_search_paths() == old(self).spec_search_paths(),
            !config.enabled ==> match r {
                Err(PluginError::LoadFailed(m)) => m@ == "Plugin is disabled"@,
                _ => false,
            },
            config.enabled ==> match r {
                Err(e) => load_error(e),
                Ok(_) => true,
            },
            match r {
                Ok(id) => {
                    &&& config.enabled
                    &&& id@ == plugin_id_for(config.path@, opt_view(config.id))
                    &&& final(self)@ == old(self)@.insert(id@, final(self)@[id@])
                    &&& forall|i: int|
                        0 <= i < final(self)@[id@].len() ==> !hidden(final(self)@[id@][i])
                },
                Err(_) => final(self)@ == old(self)@,
            },
    {
        if !config.enabled {
            return Err(PluginError::LoadFailed(String::from_str("Plugin is disabled")));
        }
        let plugin_id = config.get_id();
        let sandbox = match Sandbox::new(config.sandbox.clone()) {
            Ok(s) => s,
            Err(e) => return Err(e),
        };
        let module = match sandbox.load_module(wasm) {
            Ok(m) => m,
            Err(e) => return Err(e),
        };
        let metadata = PluginMetadata::new(
            plugin_id.clone(),
            plugin_id.clone(),
            String::from_str("0.1.0"),
        );
        let exports = module_exports(&module);
        let actions = callable_actions(&exports);
        proof {
            lemma_callable_names_not_hidden(export_views(exports@));
        }
        let instance = PluginInstance { config, metadata, module, sandbox, actions };
        let ghost acts = instance.spec_actions();
        assert(instance.id_from_config());
        match self.position(plugin_id.as_str()) {
            Some(i) => {
                proof {
                    lemma_registry_remove(self.plugins@, i as int);
                }
                let ghost before = self.plugins@;
                self.plugins.remove(i);
                assert forall|j: int| 0 <= j < self.plugins@.len() implies #[trigger] self.plugins@[j].id_from_config() by {
                    let j2 = if j < i { j } else { j + 1 };
                    assert(self.plugins@[j] == before[j2]);
                }
                assert forall|a: int, b: int|
                    0 <= a < self.plugins@.len() && 0 <= b < self.plugins@[a].spec_actions().len()
                        implies !hidden(#[trigger] self.plugins@[a].spec_actions()[b]) by {
                    let a2 = if a < i { a } else { a + 1 };
                    assert(self.plugins@[a] == before[a2]);
                }
            },
            None => {},
        }
        proof {
            lemma_registry_push(self.plugins@, instance);
        }
        let ghost before = self.plugins@;
        self.plugins.push(instance);
        assert forall|j: int| 0 <= j < self.plugins@.len() implies #[trigger] self.plugins@[j].id_from_config() by {
            if j < before.len() {
                assert(self.plugins@[j] == before[j]);
            }
        }
        assert forall|a: int, b: int|
            0 <= a < self.plugins@.len() && 0 <= b < self.plugins@[a].spec_actions().len()
                implies !hidden(#[trigger] self.plugins@[a].spec_actions()[b]) by {
            if a < before.len() {
                assert(self.plugins@[a] == before[a]);
            }
        }
        proof {
            assert(self@ =~= old(self)@.insert(plugin_id@, acts));
        }
        Ok(plugin_id)
    }

    /// Loads the module `wasm` found at `path`, with the default configuration.
    pub fn load_plugin_from_path(&mut self, path: String, wasm: &[u8]) -> (r: Result<
        String,
        PluginError,
    >)
        requires
            old(self).wf(),
        ensures
            final(self).wf(),
            final(self).spec_search_paths() == old(self).spec_search_paths(),
            match r {
                Ok(id) => {
                    &&& id@ == plugin_id_for(path@, file_stem_of(path@))
                    &&& final(self)@ == old(self)@.insert(id@, final(self)@[id@])
                },
                Err(e) => final(self)@ == old(self)@ && load_error(e),
            },
    {
        let config = PluginConfig::new(path);
        self.load_plugin(config, wasm)
    }

    /// Removes the plugin `id`; `NotFound` where none is loaded under it.
    pub fn unload_plugin(&mut self, id: &str) -> (r: Result<(), PluginError>)
        requires
            old(self).wf(),
        ensures
            final(self).wf(),
            final(self).spec_search_paths() == old(self).spec_search_paths(),
            old(self)@.contains_key(id@) ==> r is Ok && final(self)@ == old(self)@.remove(id@),
            !old(self)@.contains_key(id@) ==> final(self)@ == old(self)@ && match r {
                Err(PluginError::NotFound(m)) => m@ == id@,
                _ => false,
            },
    {
        match self.position(id) {
            Some(i) => {
                proof {
                    lemma_registry_remove(self.plugins@, i as int);
                }
                let ghost before = self.plugins@;
                self.plugins.remove(i);
                assert forall|j: int| 0 <= j < self.plugins@.len() implies #[trigger] self.plugins@[j].id_from_config() by {
                    let j2 = if j < i { j } else { j + 1 };
                    assert(self.plugins@[j] == before[j2]);
                }
                assert forall|a: int, b: int|
                    0 <= a < self.plugins@.len() && 0 <= b < self.plugins@[a].spec_actions().len()
                        implies !hidden(#[trigger] self.plugins@[a].spec_actions()[b]) by {
                    let a2 = if a < i { a } else { a + 1 };
                    assert(self.plugins@[a] == before[a2]);
                }
                Ok(())
            },
            None => Err(PluginError::NotFound(String::from_str(id))),
        }
    }

    /// The plugin loaded under `id`.
    pub fn get_plugin(&self, id: &str) -> (r: Option<&PluginInstance>)
        requires
            self.wf(),
        ensures
            match r {
                Some(p) => self@.contains_key(id@) && p.spec_id() == id@ && p.spec_actions()
                    == self@[id@],
                None => !self@.contains_key(id@),
            },
    {
        match self.position(id) {
            Some(i) => {
                proof {
                    lemma_registry_at(self.plugins@, i as int);
                }
                Some(&self.plugins[i])
            },
            None => None,
        }
    }

    /// The loaded plugins.
    pub fn plugins(&self) -> (r: &[PluginInstance])
        requires
            self.wf(),
        ensures
            registry_map(r@) == self@,
            unique_ids(r@),
    {
        self.plugins.as_slice()
    }

    /// The number of loaded plugins.
    pub fn plugin_count(&self) -> (r: usize)
        requires
            self.wf(),
        ensures
            r == self@.len(),
    {
        proof {
            let s = self.plugins@;
            let ids = s.map_values(|p: PluginInstance| p.spec_id());
            assert(ids.no_duplicates());
            ids.unique_seq_to_set();
            assert forall|id: Seq<char>| ids.to_set().contains(id) <==> self@.dom().contains(id) by {
                if self@.dom().contains(id) {
                    let k = choose|k: int| 0 <= k < s.len() && s[k].spec_id() == id;
                    assert(ids[k] == id);
                }
            }
            assert(ids.to_set() =~= self@.dom());
        }
        self.plugins.len()
    }

    /// The plugin `plugin_id`, where it has the callable `action`: what an
    /// invocation of `action` runs. `NotFound` where no plugin is loaded
    /// under `plugin_id`; `ExecutionFailed` where it lacks the action.
    pub fn resolve_action(&self, plugin_id: &str, action: &str) -> (r: Result<
        &PluginInstance,
        PluginError,
    >)
        requires
            self.wf(),
        ensures
            !self@.contains_key(plugin_id@) ==> match r {
                Err(PluginError::NotFound(m)) => m@ == plugin_id@,
                _ => false,
            },
            self@.contains_key(plugin_id@) && !self@[plugin_id@].contains(action@) ==> match r {
                Err(PluginError::ExecutionFailed(m)) => m@ == "Plugin '"@ + plugin_id@
                    + "' does not have action '"@ + action@ + "'"@,
                _ => false,
            },
            self@.contains_key(plugin_id@) && self@[plugin_id@].contains(action@) ==> match r {
                Ok(p) => p.spec_id() == plugin_id@ && p.spec_actions() == self@[plugin_id@],
                _ => false,
            },
    {
        match self.get_plugin(plugin_id) {
            None => Err(PluginError::NotFound(String::from_str(plugin_id))),
            Some(p) => match p.check_action(action) {
                Ok(()) => Ok(p),
                Err(e) => Err(e),
            },
        }
    }

    /// The plugins that have the callable `action`, in load order.
    pub fn find_plugins_with_action(&self, action: &str) -> (r: Vec<&PluginInstance>)
        requires
            self.wf(),
        ensures
            forall|i: int|
                0 <= i < r@.len() ==> self@.contains_key(r@[i].spec_id()) && r@[i].spec_actions()
                    == self@[r@[i].spec_id()] && r@[i].spec_actions().contains(action@),
            forall|id: Seq<char>|
                self@.contains_key(id) && #[trigger] self@[id].contains(action@) ==> exists|i: int|
                    0 <= i < r@.len() && r@[i].spec_id() == id,
            forall|i: int, j: int|
                0 <= i < j < r@.len() ==> r@[i].spec_id() != r@[j].spec_id(),
            hidden(action@) ==> r@.len() == 0,
    {
        let mut out: Vec<&PluginInstance> = Vec::new();
        let ghost mut idx: Seq<int> = Seq::empty();
        for k in 0..self.plugins.len()
            invariant
                self.wf(),
                idx.len() == out@.len(),
                forall|i: int| 0 <= i < idx.len() ==> 0 <= #[trigger] idx[i] < k && out@[i] == self.plugins@[idx[i]],
                forall|i: int, j: int| 0 <= i < j < idx.len() ==> idx[i] < idx[j],
                hidden(action@) ==> out@.len() == 0,
                forall|i: int|
                    0 <= i < out@.len() ==> self@.contains_key(out@[i].spec_id())
                        && out@[i].spec_actions() == self@[out@[i].spec_id()]
                        && out@[i].spec_actions().contains(action@),
                forall|j: int|
                    0 <= j < k && #[trigger] self.plugins@[j].spec_actions().contains(action@)
                        ==> exists|i: int| 0 <= i < out@.len() && out@[i].spec_id() == self.plugins@[j].spec_id(),
        {
            proof {
                lemma_registry_at(self.plugins@, k as int);
            }
            if self.plugins[k].has_action(action) {
                let ghost before = out@;
                out.push(&self.plugins[k]);
                proof {
                    let acts = self.plugins@[k as int].spec_actions();
                    let b = choose|b: int| 0 <= b < acts.len() && acts[b] == action@;
                    assert(!hidden(acts[b]));
                    idx = idx.push(k as int);
                    assert forall|i: int| 0 <= i < idx.len() implies 0 <= #[trigger] idx[i] < k + 1
                        && out@[i] == self.plugins@[idx[i]] by {
                        if i < before.len() {
                            assert(out@[i] == before[i]);
                        }
                    }
                    assert forall|j: int|
                        0 <= j < k + 1 && #[trigger] self.plugins@[j].spec_actions().contains(action@)
                            implies exists|i: int| 0 <= i < out@.len() && out@[i].spec_id() == self.plugins@[j].spec_id() by {
                        if j < k {
                            let i = choose|i: int| 0 <= i < before.len() && before[i].spec_id() == self.plugins@[j].spec_id();
                            assert(out@[i] == before[i]);
                        } else {
                            assert(out@[before.len() as int] == self.plugins@[j]);
                        }
                    }
                }
            }
        }
        proof {
            assert forall|id: Seq<char>|
                self@.contains_key(id) && #[trigger] self@[id].contains(action@) implies exists|i: int|
                    0 <= i < out@.len() && out@[i].spec_id() == id by {
                let j = choose|j: int| 0 <= j < self.plugins@.len() && self.plugins@[j].spec_id() == id;
                lemma_registry_at(self.plugins@, j);
            }
            assert forall|i: int, j: int| 0 <= i < j < out@.len() implies out@[i].spec_id()
                != out@[j].spec_id() by {
                assert(idx[i] < idx[j]);
                assert(out@[i] == self.plugins@[idx[i]] && out@[j] == self.plugins@[idx[j]]);
            }
        }
        out
    }

    /// Loads every plugin module among `found`, the files in the search
    /// paths with their contents, in order. Files that are not modules are
    /// not attempted. The result holds one outcome per module file, in
    /// order: its path, with the id it was registered under or the error
    /// its load ended in. The registry changes by the successful loads only.
    pub fn discover_plugins(&mut self, found: Vec<(String, Vec<u8>)>) -> (r: Vec<
        (String, Result<String, PluginError>),
    >)
        requires
            old(self).wf(),
        ensures
            final(self).wf(),
            final(self).spec_search_paths() == old(self).spec_search_paths(),
            ({
                let modules = found@.filter(|f: (String, Vec<u8>)| is_module_file(f.0@));
                &&& r@.len() == modules.len()
                &&& forall|i: int|
                    0 <= i < r@.len() ==> (#[trigger] r@[i]).0 == modules[i].0 && match r@[i].1 {
                        Ok(id) => id@ == plugin_id_for(r@[i].0@, file_stem_of(r@[i].0@)),
                        Err(e) => load_error(e),
                    }
            }),
            final(self)@.dom() == old(self)@.dom().union(loaded_ids(r@)),
            forall|k: Seq<char>|
                old(self)@.contains_key(k) && !loaded_ids(r@).contains(k) ==> final(self)@[k]
                    == old(self)@[k],
    {
        let mut outcomes: Vec<(String, Result<String, PluginError>)> = Vec::new();
        assert(found@.take(0).filter(|f: (String, Vec<u8>)| is_module_file(f.0@)) =~= Seq::<
            (String, Vec<u8>),
        >::empty());
        assert(self@.dom() =~= old(self)@.dom().union(loaded_ids(outcomes@)));
        for k in 0..found.len()
            invariant
                self.wf(),
                self.spec_search_paths() == old(self).spec_search_paths(),
                ({
                    let modules = found@.take(k as int).filter(
                        |f: (String, Vec<u8>)| is_module_file(f.0@),
                    );
                    &&& outcomes@.len() == modules.len()
                    &&& forall|i: int|
                        0 <= i < outcomes@.len() ==> (#[trigger] outcomes@[i]).0 == modules[i].0
                            && match outcomes@[i].1 {
                            Ok(id) => id@ == plugin_id_for(
                                outcomes@[i].0@,
                                file_stem_of(outcomes@[i].0@),
                            ),
                            Err(e) => load_error(e),
                        }
                }),
                self@.dom() == old(self)@.dom().union(loaded_ids(outcomes@)),
                forall|key: Seq<char>|
                    old(self)@.contains_key(key) && !loaded_ids(outcomes@).contains(key)
                        ==> self@[key] == old(self)@[key],
        {
            proof {
                reveal(Seq::filter);
                assert(found@.take(k + 1).drop_last() =~= found@.take(k as int));
                assert(found@.take(k + 1).last() == found@[k as int]);
            }
            let path = &found[k].0;
            if is_plugin_file(path.as_str()) {
                let ghost before = self@;
                let ghost prev = outcomes@;
                let outcome = self.load_plugin_from_path(path.clone(), found[k].1.as_slice());
                outcomes.push((path.clone(), outcome));
                proof {
                    lemma_loaded_ids_push(prev, outcomes@.last());
                    assert forall|i: int| 0 <= i < prev.len() implies #[trigger] outcomes@[i] == prev[i] by {}
                    match outcomes@.last().1 {
                        Ok(id) => {
                            assert(self@.dom() =~= old(self)@.dom().union(loaded_ids(outcomes@)));
                        },
                        Err(_) => {
                            assert(self@.dom() =~= old(self)@.dom().union(loaded_ids(outcomes@)));
                        },
                    }
                }
            }
        }
        assert(found@.take(found.len() as int) =~= found@);
        outcomes
    }

    /// Loads plugin `id` again from its configuration and `wasm`. Where the
    /// new load fails the plugin already loaded stays in place.
    pub fn reload_plugin(&mut self, id: &str, wasm: &[u8]) -> (r: Result<(), PluginError>)
        requires
            old(self).wf(),
        ensures
            final(self).wf(),
            final(self).spec_search_paths() == old(self).spec_search_paths(),
            !old(self)@.contains_key(id@) ==> final(self)@ == old(self)@ && match r {
                Err(PluginError::NotFound(m)) => m@ == id@,
                _ => false,
            },
            old(self)@.contains_key(id@) ==> match r {
                Err(e) => load_error(e),
                Ok(_) => true,
            },
            r is Err ==> final(self)@ == old(self)@,
            r is Ok ==> final(self)@.dom() == old(self)@.dom(),
    {
        let config = match self.position(id) {
            Some(i) => {
                proof {
                    assert(self.plugins@[i as int].id_from_config());
                    lemma_registry_at(self.plugins@, i as int);
                }
                self.plugins[i].config.clone()
            },
            None => return Err(PluginError::NotFound(String::from_str(id))),
        };
        assert(plugin_id_for(config.path@, opt_view(config.id)) == id@);
        match self.load_plugin(config, wasm) {
            Ok(_) => Ok(()),
            Err(e) => Err(e),
        }
    }
}

} // verus!
