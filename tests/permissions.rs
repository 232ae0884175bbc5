use rpa_plugin::path::{normalize, within};
use rpa_plugin::permissions::{Permission, PermissionCheck, PermissionSet};

fn s(v: &str) -> String {
    v.to_string()
}

#[test]
fn test_path_permission_coverage() {
    let granted = Permission::read_path(s("/home/user/data"));
    let requested = Permission::read_path(s("/home/user/data/file.txt"));

    assert!(granted.covers(&requested));
}

#[test]
fn test_permission_set() {
    let set = PermissionSet::empty()
        .with(Permission::read_path(s("/tmp")))
        .with(Permission::Time)
        .with(Permission::Random);

    assert!(set.check(&Permission::read_path(s("/tmp/file.txt"))));
    assert!(set.check(&Permission::Time));
    assert!(!set.check(&Permission::write_path(s("/tmp"))));
}

#[test]
fn test_all_env_covers_specific() {
    let set = PermissionSet::empty().with(Permission::AllEnv);

    assert!(set.check(&Permission::env(s("HOME"))));
    assert!(set.check(&Permission::env(s("PATH"))));
}

#[test]
fn path_equal_to_root_is_allowed() {
    let g = Permission::read_path(s("/tmp/in"));
    assert!(g.covers(&Permission::read_path(s("/tmp/in"))));
    assert!(g.covers(&Permission::read_path(s("/tmp/in/"))));
}

#[test]
fn path_one_byte_longer_than_root_is_denied() {
    let g = Permission::read_path(s("/tmp/in"));
    assert!(!g.covers(&Permission::read_path(s("/tmp/inx"))));
    assert!(!g.covers(&Permission::read_path(s("/tmp/i"))));
}

#[test]
fn dot_dot_escape_is_denied() {
    let g = Permission::read_path(s("/tmp/in"));
    assert!(!g.covers(&Permission::read_path(s("/tmp/in/../etc/passwd"))));
    assert!(g.covers(&Permission::read_path(s("/tmp/in/sub/../a.txt"))));
    assert!(!g.covers(&Permission::read_path(s("tmp/in/a.txt"))));
}

#[test]
fn coverage_is_reflexive_and_transitive_on_paths() {
    let a = Permission::write_path(s("/data"));
    let b = Permission::write_path(s("/data/x"));
    let c = Permission::write_path(s("/data/x/y.txt"));
    assert!(a.covers(&a) && b.covers(&b) && c.covers(&c));
    assert!(a.covers(&b) && b.covers(&c) && a.covers(&c));
    assert!(!c.covers(&a));
    assert!(!a.covers(&Permission::read_path(s("/data/x"))));
    for p in [Permission::AllEnv, Permission::Time, Permission::Random, Permission::env(s("X"))] {
        assert!(p.covers(&p.clone()));
    }
}

#[test]
fn all_env_covers_every_variable_but_not_files() {
    let all = Permission::AllEnv;
    assert!(all.covers(&Permission::env(s("HOME"))));
    assert!(all.covers(&Permission::env(s(""))));
    assert!(!all.covers(&Permission::read_path(s("/anywhere"))));
    assert!(!Permission::env(s("HOME")).covers(&Permission::env(s("PATH"))));
}

#[test]
fn network_without_port_covers_every_port() {
    let any = Permission::network(s("example.org"), None);
    assert!(any.covers(&Permission::network(s("example.org"), Some(443))));
    assert!(!any.covers(&Permission::network(s("example.com"), Some(443))));
    let one = Permission::network(s("example.org"), Some(80));
    assert!(!one.covers(&Permission::network(s("example.org"), Some(443))));
    assert!(one.covers(&Permission::network(s("example.org"), Some(80))));
}

#[test]
fn empty_set_permits_nothing() {
    let set = PermissionSet::empty();
    assert!(set.is_empty());
    assert_eq!(set.len(), 0);
    for p in [
        Permission::Time,
        Permission::Random,
        Permission::AllEnv,
        Permission::env(s("HOME")),
        Permission::read_path(s("/")),
        Permission::write_path(s("/tmp")),
    ] {
        assert!(!set.check(&p));
    }
}

#[test]
fn descriptions() {
    assert_eq!(Permission::read_path(s("/tmp/a")).description(), "read /tmp/a");
    assert_eq!(Permission::write_path(s("/tmp/a")).description(), "write /tmp/a");
    assert_eq!(Permission::env(s("HOME")).description(), "env $HOME");
    assert_eq!(Permission::AllEnv.description(), "all environment variables");
    assert_eq!(Permission::network(s("h"), Some(8080)).description(), "network h:8080");
    assert_eq!(Permission::network(s("h"), None).description(), "network h");
    assert_eq!(Permission::Execute { command: s("ls") }.description(), "execute ls");
    assert_eq!(Permission::Time.description(), "current time");
    assert_eq!(Permission::Random.description(), "random/UUID generation");
}

#[test]
fn set_keeps_each_grant_once() {
    let set = PermissionSet::new(vec![
        Permission::Time,
        Permission::Time,
        Permission::read_path(s("/a")),
        Permission::read_path(s("/a")),
        Permission::read_path(s("/b")),
    ]);
    assert_eq!(set.len(), 3);
    assert_eq!(set.iter().len(), 3);
    assert!(!set.is_empty());
    let mut grown = set.clone();
    grown.add(Permission::Time);
    assert_eq!(grown.len(), 3);
    grown.add(Permission::Random);
    assert_eq!(grown.len(), 4);
}

#[test]
fn check_all_and_missing() {
    let granted = PermissionSet::empty().with(Permission::read_path(s("/data"))).with(Permission::Time);
    let wanted = PermissionSet::empty()
        .with(Permission::read_path(s("/data/in")))
        .with(Permission::Time)
        .with(Permission::Random)
        .with(Permission::write_path(s("/data")));
    assert!(!granted.check_all(&wanted));
    let missing = granted.missing(&wanted);
    assert_eq!(missing.len(), 2);
    assert!(missing.iter().any(|p| p.same_as(&Permission::Random)));
    assert!(missing.iter().any(|p| p.same_as(&Permission::write_path(s("/data")))));
    let fine = PermissionSet::empty().with(Permission::read_path(s("/data/x")));
    assert!(granted.check_all(&fine));
    assert!(granted.missing(&fine).is_empty());
}

#[test]
fn permission_check_constructors() {
    let ok = PermissionCheck::allowed(Permission::Time);
    assert!(ok.granted && ok.reason.is_none());
    let no = PermissionCheck::denied(Permission::Random, s("not granted"));
    assert!(!no.granted);
    assert_eq!(no.reason.as_deref(), Some("not granted"));
}

#[test]
fn path_normalisation() {
    assert_eq!(normalize("/tmp/in/../etc/passwd"), "/tmp/etc/passwd");
    assert_eq!(normalize("/tmp/in/../../etc/passwd"), "/etc/passwd");
    assert_eq!(normalize("/a//b/./c/"), "/a/b/c");
    assert_eq!(normalize("/../x"), "/x");
    assert_eq!(normalize("../a/b/.."), "../a");
    assert!(within("/a/b", "/a/b/c"));
    assert!(!within("/a/b", "/a/bc"));
}
