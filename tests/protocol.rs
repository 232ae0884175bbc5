use rpa_plugin::adapter::{Error, PluginActionWrapper};
use rpa_plugin::api::{HostResponse, PluginActionResult, PluginMetadata, ResponseData, API_VERSION};
use rpa_plugin::base64::{decode, encode};
use rpa_plugin::error::PluginError;
use rpa_plugin::host::{PluginConfig, PluginHost};
use rpa_plugin::permissions::{Permission, PermissionSet};
use std::sync::Arc;

fn s(v: &str) -> String {
    v.to_string()
}

#[test]
fn base64_decoding() {
    assert_eq!(decode(""), Some(vec![]));
    assert_eq!(decode("Zg=="), Some(b"f".to_vec()));
    assert_eq!(decode("Zm8="), Some(b"fo".to_vec()));
    assert_eq!(decode("Zm9v"), Some(b"foo".to_vec()));
    assert_eq!(decode("Zm9vYmFy"), Some(b"foobar".to_vec()));
    assert_eq!(decode("aGk="), Some(b"hi".to_vec()));
    assert_eq!(decode("Zg="), None);
    assert_eq!(decode("Zh=="), None);
    assert_eq!(decode("Zg==Zg=="), None);
    assert_eq!(decode("Z!=="), None);
    assert_eq!(decode("Zm9"), None);
}

#[test]
fn base64_round_trip() {
    let all: Vec<u8> = (0..=255u8).collect();
    for n in 0..all.len() {
        let part = &all[..n];
        assert_eq!(decode(&encode(part)), Some(part.to_vec()));
    }
    let text = encode(b"payload bytes");
    assert_ne!(text.as_bytes(), b"payload bytes");
}

#[test]
fn error_messages() {
    assert_eq!(PluginError::NotFound(s("x")).message(), "Plugin not found: x");
    assert_eq!(PluginError::LoadFailed(s("bad")).message(), "Plugin load failed: bad");
    assert_eq!(PluginError::Timeout(50).message(), "Timeout: plugin execution exceeded 50ms");
    assert_eq!(
        PluginError::VersionMismatch { expected: s("0.1.0"), got: s("0.2.0") }.message(),
        "Plugin API version mismatch: expected 0.1.0, got 0.2.0"
    );
    assert_eq!(PluginError::Other(s("plain")).message(), "plain");
    assert_eq!(PluginError::ResourceLimitExceeded(s("fuel")).message(), "Resource limit exceeded: fuel");
}

#[test]
fn response_constructors() {
    assert!(matches!(HostResponse::success(), HostResponse::Success { data: None }));
    assert!(matches!(
        HostResponse::success_with_data(ResponseData::BytesWritten { bytes_written: 3 }),
        HostResponse::Success { data: Some(ResponseData::BytesWritten { bytes_written: 3 }) }
    ));
    assert!(matches!(HostResponse::error(s("e")), HostResponse::Error { ref message } if message == "e"));
    assert!(matches!(
        HostResponse::permission_denied(s("read /x")),
        HostResponse::PermissionDenied { ref permission } if permission == "read /x"
    ));
}

#[test]
fn action_results() {
    let r = PluginActionResult::success(s("done")).with_output(s("{\"n\":1}"));
    assert!(r.success);
    assert_eq!(r.output.as_deref(), Some("{\"n\":1}"));
    let a = r.into_action_result();
    assert!(a.success);
    assert_eq!(a.message, "done");
    assert!(a.affected_paths.is_empty());
    let f = PluginActionResult::failure(s("no"));
    assert!(!f.success && f.logs.is_empty() && f.output.is_none());
}

#[test]
fn metadata_defaults() {
    let m = PluginMetadata::new(s("id"), s("Name"), s("1.2.3"))
        .with_description(s("d"))
        .with_author(s("a"))
        .with_license(s("MIT"))
        .with_permissions(PermissionSet::empty().with(Permission::Time));
    assert_eq!(m.api_version, API_VERSION);
    assert_eq!(m.description.as_deref(), Some("d"));
    assert_eq!(m.license.as_deref(), Some("MIT"));
    assert_eq!(m.required_permissions.len(), 1);
}

#[test]
fn adapter_validation() {
    let ok = PluginActionWrapper::new(s("p"), s("run"), vec![]);
    assert_eq!(ok.validate(), Ok(()));
    assert_eq!(ok.name(), "run");
    let no_id = PluginActionWrapper::new(s(""), s("run"), vec![]);
    assert_eq!(no_id.validate(), Err(Error::Config(s("Plugin ID cannot be empty"))));
    let no_action = PluginActionWrapper::new(s("p"), s(""), vec![]);
    assert_eq!(no_action.validate(), Err(Error::Config(s("Action name cannot be empty"))));
}

#[test]
fn adapter_dispatch() {
    let w = PluginActionWrapper::new(s("tool"), s("run"), vec![(s("k"), s("1"))]);
    assert_eq!(w.config().len(), 1);
    match w.prepare() {
        Err(Error::ActionFailed { action, reason }) => {
            assert_eq!(action, "run");
            assert_eq!(reason, "Plugin host not configured");
        }
        _ => panic!("expected a missing host"),
    }
    let mut host = PluginHost::new().unwrap();
    let module = vec![0x00, 0x61, 0x73, 0x6d, 0x01, 0x00, 0x00, 0x00];
    host.load_plugin(PluginConfig::new(s("/p/other.wasm")), &module).unwrap();
    let w = w.with_host(Arc::new(host));
    match w.prepare() {
        Err(Error::ActionFailed { reason, .. }) => assert_eq!(reason, "Plugin not found: tool"),
        _ => panic!("expected an unknown plugin"),
    }
    let mut host = PluginHost::new().unwrap();
    host.load_plugin(PluginConfig::new(s("/p/tool.wasm")), &module).unwrap();
    let missing = PluginActionWrapper::new(s("tool"), s("run"), vec![]).with_host(Arc::new(host));
    match missing.prepare() {
        Err(Error::ActionFailed { reason, .. }) => assert_eq!(
            reason,
            "Plugin execution failed: Plugin 'tool' does not have action 'run'"
        ),
        _ => panic!("expected a missing action"),
    }
    let done = w.complete(Ok(PluginActionResult::success(s("fine")))).unwrap();
    assert!(done.success);
    assert_eq!(done.message, "fine");
    assert_eq!(
        w.complete(Err(PluginError::Timeout(50))),
        Err(Error::ActionFailed { action: s("run"), reason: s("Timeout: plugin execution exceeded 50ms") })
    );
}
