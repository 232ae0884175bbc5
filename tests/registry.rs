use rpa_plugin::config::PluginSandboxConfig;
use rpa_plugin::error::PluginError;
use rpa_plugin::host::{callable_actions, is_plugin_file, PluginConfig, PluginHost};
use rpa_plugin::permissions::Permission;
use rpa_plugin::sandbox::{
    Sandbox, SandboxBuilder, SandboxConfig, DEFAULT_FUEL_LIMIT, DEFAULT_MEMORY_LIMIT,
    DEFAULT_TIMEOUT_MS,
};

fn s(v: &str) -> String {
    v.to_string()
}

/// An empty module.
fn empty_module() -> Vec<u8> {
    vec![0x00, 0x61, 0x73, 0x6d, 0x01, 0x00, 0x00, 0x00]
}

/// A module exporting `run` and `_init`, both `() -> i32`, and a memory.
fn module_with_exports() -> Vec<u8> {
    let mut m = empty_module();
    m.extend_from_slice(&[0x01, 0x05, 0x01, 0x60, 0x00, 0x01, 0x7f]);
    m.extend_from_slice(&[0x03, 0x03, 0x02, 0x00, 0x00]);
    m.extend_from_slice(&[0x05, 0x03, 0x01, 0x00, 0x01]);
    m.extend_from_slice(&[
        0x07, 0x18, 0x03, 0x03, b'r', b'u', b'n', 0x00, 0x00, 0x05, b'_', b'i', b'n', b'i', b't',
        0x00, 0x01, 0x06, b'm', b'e', b'm', b'o', b'r', b'y', 0x02, 0x00,
    ]);
    m.extend_from_slice(&[0x0a, 0x0b, 0x02, 0x04, 0x00, 0x41, 0x00, 0x0b, 0x04, 0x00, 0x41, 0x00, 0x0b]);
    m
}

#[test]
fn test_plugin_config() {
    let config = PluginConfig::new(s("/path/to/plugin.wasm"))
        .with_id(s("my-plugin"))
        .with_memory_limit(32 * 1024 * 1024)
        .with_permission(Permission::read_path(s("/tmp")));

    assert_eq!(config.get_id(), "my-plugin");
    assert!(config.enabled);
}

#[test]
fn test_plugin_host_creation() {
    let host = PluginHost::new();
    assert!(host.is_ok());
}

#[test]
fn test_sandbox_config_default() {
    let config = SandboxConfig::default();
    assert_eq!(config.memory_limit, DEFAULT_MEMORY_LIMIT);
    assert_eq!(config.timeout_ms, DEFAULT_TIMEOUT_MS);
}

#[test]
fn test_sandbox_builder() {
    let sandbox = SandboxBuilder::new()
        .memory_limit(32 * 1024 * 1024)
        .timeout(10_000)
        .permission(Permission::read_path(s("/tmp")))
        .build();

    assert!(sandbox.is_ok());
}

#[test]
fn test_sandbox_creation() {
    let sandbox = Sandbox::with_defaults();
    assert!(sandbox.is_ok());
}

#[test]
fn plugin_id_falls_back_to_file_stem() {
    assert_eq!(PluginConfig::new(s("/plugins/resize.wasm")).get_id(), "resize");
    let mut c = PluginConfig::new(s("/"));
    c.id = None;
    assert_eq!(c.get_id(), "unknown");
}

#[test]
fn default_sandbox_grants_time_and_random() {
    let c = SandboxConfig::new();
    assert_eq!(c.fuel_limit, Some(DEFAULT_FUEL_LIMIT));
    assert_eq!(c.permissions.len(), 2);
    assert!(c.permissions.check(&Permission::Time));
    assert!(c.permissions.check(&Permission::Random));
    assert!(!c.permissions.check(&Permission::env(s("HOME"))));
}

#[test]
fn discovery_loads_valid_modules_only() {
    let mut host = PluginHost::new().unwrap();
    let found = vec![
        (s("/p/a.wasm"), empty_module()),
        (s("/p/b.wasm"), b"not a module".to_vec()),
        (s("/p/c.txt"), empty_module()),
    ];
    let outcomes = host.discover_plugins(found);
    assert_eq!(outcomes.len(), 2);
    assert_eq!(outcomes[0], (s("/p/a.wasm"), Ok(s("a"))));
    assert_eq!(outcomes[1].0, "/p/b.wasm");
    assert!(matches!(outcomes[1].1, Err(PluginError::LoadFailed(_))));
    assert_eq!(host.plugin_count(), 1);
    assert!(host.get_plugin("a").is_some());
    assert!(host.get_plugin("b").is_none());
    assert!(host.get_plugin("c").is_none());
    assert!(is_plugin_file("x.wasm"));
    assert!(!is_plugin_file("x.txt"));
    assert!(!is_plugin_file("wasm"));
}

#[test]
fn internal_exports_are_not_actions() {
    let exports = vec![(s("run"), true), (s("_init"), true), (s("memory"), false), (s("go"), true)];
    assert_eq!(callable_actions(&exports), vec![s("run"), s("go")]);

    let mut host = PluginHost::new().unwrap();
    let id = host.load_plugin(PluginConfig::new(s("/p/tool.wasm")), &module_with_exports()).unwrap();
    assert_eq!(id, "tool");
    let p = host.get_plugin("tool").unwrap();
    assert_eq!(p.actions(), &[s("run")]);
    assert!(p.has_action("run"));
    assert!(!p.has_action("_init"));
    assert!(!p.has_action("memory"));
    assert_eq!(host.find_plugins_with_action("run").len(), 1);
    assert!(host.find_plugins_with_action("_init").is_empty());
    host.load_plugin(PluginConfig::new(s("/q/second.wasm")), &module_with_exports()).unwrap();
    let both = host.find_plugins_with_action("run");
    assert_eq!(both.len(), 2);
    assert_ne!(both[0].id(), both[1].id());
}

#[test]
fn registry_lookups_and_errors() {
    let mut host = PluginHost::new().unwrap();
    let disabled = PluginConfig::new(s("/p/off.wasm")).with_enabled(false);
    assert_eq!(host.load_plugin(disabled, &empty_module()), Err(PluginError::LoadFailed(s("Plugin is disabled"))));
    host.load_plugin(PluginConfig::new(s("/p/tool.wasm")), &module_with_exports()).unwrap();
    assert!(host.resolve_action("tool", "run").is_ok());
    assert!(matches!(host.resolve_action("nope", "run"), Err(PluginError::NotFound(ref m)) if m == "nope"));
    match host.resolve_action("tool", "_init") {
        Err(PluginError::ExecutionFailed(m)) => assert_eq!(m, "Plugin 'tool' does not have action '_init'"),
        _ => panic!("expected a missing action"),
    }
    assert_eq!(host.unload_plugin("nope"), Err(PluginError::NotFound(s("nope"))));
    assert_eq!(host.unload_plugin("tool"), Ok(()));
    assert_eq!(host.plugin_count(), 0);
}

#[test]
fn failed_reload_keeps_the_plugin() {
    let mut host = PluginHost::new().unwrap();
    host.load_plugin(PluginConfig::new(s("/p/tool.wasm")), &module_with_exports()).unwrap();
    assert!(host.reload_plugin("tool", b"garbage").is_err());
    assert!(host.get_plugin("tool").unwrap().has_action("run"));
    assert!(host.reload_plugin("tool", &empty_module()).is_ok());
    assert!(host.get_plugin("tool").unwrap().actions().is_empty());
    assert_eq!(host.reload_plugin("ghost", &empty_module()), Err(PluginError::NotFound(s("ghost"))));
}

#[test]
fn loading_same_id_replaces() {
    let mut host = PluginHost::new().unwrap();
    host.load_plugin(PluginConfig::new(s("/p/tool.wasm")), &module_with_exports()).unwrap();
    host.load_plugin(PluginConfig::new(s("/q/tool.wasm")), &empty_module()).unwrap();
    assert_eq!(host.plugin_count(), 1);
    assert!(host.get_plugin("tool").unwrap().actions().is_empty());
}

#[test]
fn configured_sandbox_derives_grants() {
    let cfg = PluginSandboxConfig {
        memory_limit: 1024,
        timeout_ms: 50,
        read_paths: vec![s("/in")],
        write_paths: vec![s("/out")],
        env_vars: vec![s("HOME")],
    };
    let sc = cfg.to_sandbox_config();
    assert_eq!(sc.memory_limit, 1024);
    assert_eq!(sc.timeout_ms, 50);
    assert_eq!(sc.fuel_limit, Some(DEFAULT_FUEL_LIMIT));
    assert_eq!(sc.permissions.len(), 5);
    assert!(sc.permissions.check(&Permission::read_path(s("/in/a"))));
    assert!(sc.permissions.check(&Permission::write_path(s("/out/b"))));
    assert!(!sc.permissions.check(&Permission::write_path(s("/in/a"))));
    assert!(sc.permissions.check(&Permission::env(s("HOME"))));
    assert!(!sc.permissions.check(&Permission::env(s("PATH"))));
    assert!(sc.permissions.check(&Permission::Time));
    let d = PluginSandboxConfig::default();
    assert_eq!(d.memory_limit, DEFAULT_MEMORY_LIMIT);
    assert_eq!(d.timeout_ms, DEFAULT_TIMEOUT_MS);
}
