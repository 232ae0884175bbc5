//! The serialised plugin configuration and the sandbox it describes.

use crate::permissions::{lemma_push_to_set, Permission, PermissionSet, PermissionView};
use crate::sandbox::{
    default_grants, SandboxConfig, DEFAULT_FUEL_LIMIT, DEFAULT_MEMORY_LIMIT, DEFAULT_TIMEOUT_MS,
};
use vstd::prelude::*;

verus! {

/// Limits and grants of one plugin, as a configuration file states them.
#[derive(Debug, Clone)]
pub struct PluginSandboxConfig {
    /// Memory ceiling in bytes.
    pub memory_limit: u64,
    /// Wall-clock deadline in milliseconds.
    pub timeout_ms: u64,
    /// Paths the plugin may read.
    pub read_paths: Vec<String>,
    /// Paths the plugin may write.
    pub write_paths: Vec<String>,
    /// Environment variables the plugin may read.
    pub env_vars: Vec<String>,
}

/// How to load one plugin, as a configuration file states it.
#[derive(Debug, Clone)]
pub struct PluginLoadConfig {
    /// Path of the module file.
    pub path: String,
    /// Id to register the plugin under; the file stem where absent.
    pub id: Option<String>,
    pub enabled: bool,
    pub sandbox: PluginSandboxConfig,
}

/// The kind of grant a list of a configuration file stands for.
#[derive(Clone, Copy, PartialEq, Eq, Structural)]
enum GrantKind {
    Read,
    Write,
    Env,
}

spec fn grant(kind: GrantKind, s: Seq<char>) -> PermissionView {
    match kind {
        GrantKind::Read => PermissionView::ReadPath(s),
        GrantKind::Write => PermissionView::WritePath(s),
        GrantKind::Env => PermissionView::Env(s),
    }
}

spec fn grants(kind: GrantKind, items: Seq<String>) -> Set<PermissionView> {
    items.map_values(|s: String| grant(kind, s@)).to_set()
}

pub open spec fn read_grants(paths: Seq<String>) -> Set<PermissionView> {
    paths.map_values(|p: String| PermissionView::ReadPath(p@)).to_set()
}

pub open spec fn write_grants(paths: Seq<String>) -> Set<PermissionView> {
    paths.map_values(|p: String| PermissionView::WritePath(p@)).to_set()
}

pub open spec fn env_grants(names: Seq<String>) -> Set<PermissionView> {
    names.map_values(|n: String| PermissionView::Env(n@)).to_set()
}

/// Adds a grant of `kind` for each of `items` to `perms`.
fn add_all(perms: &mut PermissionSet, items: &Vec<String>, kind: GrantKind)
    ensures
        final(perms)@ == old(perms)@.union(grants(kind, items@)),
{
    let ghost f = |s: String| grant(kind, s@);
    let ghost start = perms@;
    assert(items@.take(0).map_values(f).to_set() =~= Set::<PermissionView>::empty());
    for i in 0..items.len()
        invariant
            f == (|s: String| grant(kind, s@)),
            perms@ == start.union(items@.take(i as int).map_values(f).to_set()),
    {
        let item = items[i].clone();
        let p = match kind {
            GrantKind::Read => Permission::read_path(item),
            GrantKind::Write => Permission::write_path(item),
            GrantKind::Env => Permission::env(item),
        };
        perms.add(p);
        proof {
            let before = items@.take(i as int).map_values(f);
            assert(items@.take(i + 1).map_values(f) =~= before.push(f(items@[i as int])));
            lemma_push_to_set(before, f(items@[i as int]));
            assert(perms@ =~= start.union(items@.take(i + 1).map_values(f).to_set()));
        }
    }
    assert(items@.take(items.len() as int) =~= items@);
}

impl PluginSandboxConfig {
    /// The sandbox configuration this describes: its limits, the default
    /// instruction budget, and the grants time, randomness, a read grant
    /// for each read path, a write grant for each write path and an
    /// environment grant for each variable.
    pub fn to_sandbox_config(&self) -> (r: SandboxConfig)
        ensures
            r.memory_limit == self.memory_limit,
            r.timeout_ms == self.timeout_ms,
            r.fuel_limit == Some(DEFAULT_FUEL_LIMIT),
            r.permissions@ == default_grants().union(read_grants(self.read_paths@)).union(
                write_grants(self.write_paths@),
            ).union(env_grants(self.env_vars@)),
            r.work_dir is None,
    {
        let mut permissions = PermissionSet::empty().with(Permission::Time).with(Permission::Random);
        assert(permissions@ =~= default_grants());
        add_all(&mut permissions, &self.read_paths, GrantKind::Read);
        add_all(&mut permissions, &self.write_paths, GrantKind::Write);
        add_all(&mut permissions, &self.env_vars, GrantKind::Env);
        proof {
            assert(self.read_paths@.map_values(|s: String| grant(GrantKind::Read, s@))
                =~= self.read_paths@.map_values(|p: String| PermissionView::ReadPath(p@)));
            assert(self.write_paths@.map_values(|s: String| grant(GrantKind::Write, s@))
                =~= self.write_paths@.map_values(|p: String| PermissionView::WritePath(p@)));
            assert(self.env_vars@.map_values(|s: String| grant(GrantKind::Env, s@))
                =~= self.env_vars@.map_values(|n: String| PermissionView::Env(n@)));
        }
        SandboxConfig {
            memory_limit: self.memory_limit,
            timeout_ms: self.timeout_ms,
            fuel_limit: Some(DEFAULT_FUEL_LIMIT),
            permissions,
            work_dir: None,
        }
    }
}

impl Default for PluginSandboxConfig {
    fn default() -> (r: PluginSandboxConfig)
        ensures
            r.memory_limit == DEFAULT_MEMORY_LIMIT,
            r.timeout_ms == DEFAULT_TIMEOUT_MS,
            r.read_paths@.len() == 0,
            r.write_paths@.len() == 0,
            r.env_vars@.len() == 0,
    {
        PluginSandboxConfig {
            memory_limit: DEFAULT_MEMORY_LIMIT,
            timeout_ms: DEFAULT_TIMEOUT_MS,
            read_paths: Vec::new(),
            write_paths: Vec::new(),
            env_vars: Vec::new(),
        }
    }
}

} // verus!
