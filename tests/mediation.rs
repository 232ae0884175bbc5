use rpa_plugin::api::{DirEntry, HostRequest, HostResponse, LogLevel, ResponseData};
use rpa_plugin::base64::encode;
use rpa_plugin::error::PluginError;
use rpa_plugin::permissions::{Permission, PermissionSet};
use rpa_plugin::sandbox::{
    current_time, dir_listed, env_read, file_read, file_written, missing_action, new_uuid,
    op_failed, GuestExit, HostOp, Mediation, SandboxConfig, SandboxState, DEFAULT_MEMORY_LIMIT,
    DEFAULT_TIMEOUT_MS,
};

fn s(v: &str) -> String {
    v.to_string()
}

fn state(perms: Vec<Permission>, timeout_ms: u64, now: u64) -> SandboxState {
    let config = SandboxConfig {
        memory_limit: DEFAULT_MEMORY_LIMIT,
        timeout_ms,
        fuel_limit: Some(1000),
        permissions: PermissionSet::new(perms),
        work_dir: None,
    };
    SandboxState::new(&config, now)
}

fn denied_text(m: &Mediation) -> Option<String> {
    match m {
        Mediation::Respond(HostResponse::PermissionDenied { permission }) => Some(permission.clone()),
        _ => None,
    }
}

#[test]
fn granted_read_happy_path() {
    let mut st = state(vec![Permission::read_path(s("/tmp/in")), Permission::Time], 30_000, 0);
    let m = st.mediate(HostRequest::ReadFile { path: s("/tmp/in/a.txt") }, None, 1);
    match m {
        Mediation::Perform(HostOp::ReadFile { path }) => assert_eq!(path, "/tmp/in/a.txt"),
        other => panic!("unexpected {:?}", other),
    }
    match file_read(b"hi") {
        HostResponse::Success { data: Some(ResponseData::FileContent { content, size }) } => {
            assert_eq!(content, "aGk=");
            assert_eq!(size, 2);
        }
        other => panic!("unexpected {:?}", other),
    }
}

#[test]
fn path_escape_is_denied() {
    let mut st = state(vec![Permission::read_path(s("/tmp/in"))], 30_000, 0);
    let m = st.mediate(HostRequest::ReadFile { path: s("/tmp/in/../etc/passwd") }, None, 1);
    assert_eq!(denied_text(&m).as_deref(), Some("read /tmp/etc/passwd"));
    let m = st.mediate(HostRequest::ReadFile { path: s("/tmp/in/../../etc/passwd") }, None, 1);
    assert_eq!(denied_text(&m).as_deref(), Some("read /etc/passwd"));
}

#[test]
fn symlink_resolving_outside_the_grant_is_denied() {
    let mut st = state(vec![Permission::read_path(s("/tmp/in"))], 30_000, 0);
    let m = st.mediate(
        HostRequest::ReadFile { path: s("/tmp/in/link") },
        Some(s("/etc/shadow")),
        1,
    );
    assert_eq!(denied_text(&m).as_deref(), Some("read /tmp/in/link"));
    let m = st.mediate(
        HostRequest::ReadFile { path: s("/elsewhere/link") },
        Some(s("/tmp/in/real.txt")),
        2,
    );
    assert!(matches!(m, Mediation::Perform(HostOp::ReadFile { ref path }) if path == "/tmp/in/real.txt"));
}

#[test]
fn denial_regardless_of_existence() {
    let mut st = state(vec![Permission::read_path(s("/tmp/in"))], 30_000, 0);
    for p in ["/etc/passwd", "/no/such/file", "/tmp/inbox/a", "relative/a.txt"] {
        let m = st.mediate(HostRequest::ReadFile { path: s(p) }, None, 1);
        assert!(denied_text(&m).is_some(), "{}", p);
        let m = st.mediate(HostRequest::ListDir { path: s(p) }, None, 1);
        assert!(denied_text(&m).is_some(), "{}", p);
    }
}

#[test]
fn write_needs_write_grant() {
    let mut st = state(vec![Permission::read_path(s("/out")), Permission::write_path(s("/out/w"))], 30_000, 0);
    let m = st.mediate(HostRequest::WriteFile { path: s("/out/x"), content: vec![1, 2] }, None, 1);
    assert_eq!(denied_text(&m).as_deref(), Some("write /out/x"));
    let m = st.mediate(HostRequest::WriteFile { path: s("/out/w/new.txt"), content: vec![1, 2] }, None, 1);
    match m {
        Mediation::Perform(HostOp::WriteFile { path, content }) => {
            assert_eq!(path, "/out/w/new.txt");
            assert_eq!(content, vec![1, 2]);
        }
        other => panic!("unexpected {:?}", other),
    }
}

#[test]
fn deadline_breach() {
    let mut st = state(vec![Permission::Time], 50, 0);
    let m = st.mediate(HostRequest::CurrentTime, None, 10);
    assert!(matches!(m, Mediation::Perform(HostOp::CurrentTime)));
    let m = st.mediate(HostRequest::CurrentTime, None, 60);
    match m {
        Mediation::Respond(HostResponse::Error { message }) => {
            assert_eq!(message, "timeout: plugin execution exceeded 50ms")
        }
        other => panic!("unexpected {:?}", other),
    }
    assert!(st.expired);
    let m = st.mediate(HostRequest::Log { level: LogLevel::Info, message: s("late") }, None, 61);
    assert!(matches!(m, Mediation::Respond(HostResponse::Error { .. })));
    assert!(st.logs.is_empty());
    assert_eq!(st.finish("run", GuestExit::Returned, 70), Err(PluginError::Timeout(50)));
}

#[test]
fn deadline_boundary() {
    let st = state(vec![], 50, 100);
    assert!(st.check_timeout(150).is_ok());
    assert_eq!(st.check_timeout(151), Err(PluginError::Timeout(50)));
    assert!(st.check_timeout(20).is_ok());
}

#[test]
fn fuel_exhaustion() {
    let st = state(vec![], 30_000, 0);
    let r = st.finish("spin", GuestExit::Trapped { message: s("all fuel consumed"), fuel_left: Some(0) }, 5);
    assert_eq!(r, Err(PluginError::ResourceLimitExceeded(s("Instruction limit exceeded"))));
    let r = st.finish("spin", GuestExit::Trapped { message: s("unreachable"), fuel_left: Some(7) }, 5);
    assert_eq!(r, Err(PluginError::ExecutionFailed(s("unreachable"))));
    let r = st.finish("spin", GuestExit::Trapped { message: s("interrupt"), fuel_left: None }, 40_000);
    assert_eq!(r, Err(PluginError::Timeout(30_000)));
}

#[test]
fn fresh_invocation_state() {
    let config = SandboxConfig::new().with_timeout(50);
    let st = SandboxState::new(&config, 1234);
    assert!(st.logs.is_empty());
    assert!(!st.expired);
    assert_eq!(st.start_ms, 1234);
    assert!(st.check_timeout(1234).is_ok());
    assert!(st.permissions.check(&Permission::Time));
}

#[test]
fn logs_are_kept_in_order() {
    let mut st = state(vec![], 30_000, 0);
    let m = st.mediate(HostRequest::Log { level: LogLevel::Warn, message: s("one") }, None, 1);
    assert!(matches!(m, Mediation::Respond(HostResponse::Success { data: None })));
    st.mediate(HostRequest::Log { level: LogLevel::Debug, message: s("two") }, None, 2);
    let r = st.finish("act", GuestExit::Returned, 3).unwrap();
    assert!(r.success);
    assert_eq!(r.message, "Action 'act' completed");
    assert_eq!(r.logs.len(), 2);
    assert_eq!(r.logs[0].level, LogLevel::Warn);
    assert_eq!(r.logs[0].message, "one");
    assert_eq!(r.logs[1].message, "two");
}

#[test]
fn all_env_covers_specific_variables() {
    let mut st = state(vec![Permission::AllEnv], 30_000, 0);
    for name in ["HOME", "PATH"] {
        let m = st.mediate(HostRequest::GetEnv { name: s(name) }, None, 1);
        assert!(matches!(m, Mediation::Perform(HostOp::GetEnv { name: ref n }) if n == name));
    }
    let m = st.mediate(HostRequest::ReadFile { path: s("/anywhere") }, None, 1);
    assert_eq!(denied_text(&m).as_deref(), Some("read /anywhere"));
}

#[test]
fn no_grants_deny_time_and_random() {
    let mut st = state(vec![], 30_000, 0);
    let m = st.mediate(HostRequest::CurrentTime, None, 1);
    assert_eq!(denied_text(&m).as_deref(), Some("time"));
    let m = st.mediate(HostRequest::GenerateUuid, None, 1);
    assert_eq!(denied_text(&m).as_deref(), Some("random"));
    let m = st.mediate(HostRequest::GetEnv { name: s("HOME") }, None, 1);
    assert_eq!(denied_text(&m).as_deref(), Some("env $HOME"));
}

#[test]
fn base64_vectors() {
    assert_eq!(encode(b""), "");
    assert_eq!(encode(b"f"), "Zg==");
    assert_eq!(encode(b"fo"), "Zm8=");
    assert_eq!(encode(b"foo"), "Zm9v");
    assert_eq!(encode(b"foobar"), "Zm9vYmFy");
    assert_eq!(encode(&[0xff, 0xfe, 0x00]), "//4A");
}

#[test]
fn operation_responses() {
    match file_written(5) {
        HostResponse::Success { data: Some(ResponseData::BytesWritten { bytes_written }) } => {
            assert_eq!(bytes_written, 5)
        }
        other => panic!("unexpected {:?}", other),
    }
    match env_read(None) {
        HostResponse::Success { data: Some(ResponseData::EnvValue { value }) } => assert!(value.is_none()),
        other => panic!("unexpected {:?}", other),
    }
    match dir_listed(vec![DirEntry { name: s("a"), is_dir: true }]) {
        HostResponse::Success { data: Some(ResponseData::Entries { entries }) } => {
            assert_eq!(entries.len(), 1);
            assert!(entries[0].is_dir);
        }
        other => panic!("unexpected {:?}", other),
    }
    let op = HostOp::ReadFile { path: s("/x") };
    match op_failed(&op, "No such file") {
        HostResponse::Error { message } => assert_eq!(message, "Failed to read file: No such file"),
        other => panic!("unexpected {:?}", other),
    }
    match op_failed(&HostOp::ListDir { path: s("/x") }, "denied") {
        HostResponse::Error { message } => assert_eq!(message, "Failed to list directory: denied"),
        other => panic!("unexpected {:?}", other),
    }
}

#[test]
fn time_and_uuid_responses() {
    match current_time() {
        HostResponse::Success { data: Some(ResponseData::Time { timestamp, iso }) } => {
            assert!(timestamp > 1_600_000_000);
            assert!(iso.contains('T'));
        }
        other => panic!("unexpected {:?}", other),
    }
    match new_uuid() {
        HostResponse::Success { data: Some(ResponseData::Uuid { uuid }) } => {
            assert_eq!(uuid.len(), 36);
            assert_eq!(uuid.chars().nth(14), Some('4'));
        }
        other => panic!("unexpected {:?}", other),
    }
}

#[test]
fn missing_entry_point_message() {
    assert_eq!(missing_action("go"), PluginError::ExecutionFailed(s("Action 'go' not found")));
}
