//! Permissions: declarative capability grants, the coverage relation between
//! a granted and a requested permission, and sets of grants.

use crate::path::{lemma_within_reflexive, path_within, within};
use crate::text::{push_decimal, push_str};
use vstd::prelude::*;

verus! {

/// One capability grant.
#[derive(Debug, Clone)]
pub enum Permission {
    /// Read access to a file or directory and everything below it.
    ReadPath { path: String },
    /// Write access to a file or directory and everything below it.
    WritePath { path: String },
    /// Access to one environment variable.
    Env { name: String },
    /// Access to every environment variable.
    AllEnv,
    /// Network access to a host, on one port or (with `None`) on any.
    Network { host: String, port: Option<u16> },
    /// Running an external command.
    Execute { command: String },
    /// Reading the current time.
    Time,
    /// Random numbers and UUIDs.
    Random,
}

/// What a [`Permission`] grants, with its strings as character sequences.
pub enum PermissionView {
    ReadPath(Seq<char>),
    WritePath(Seq<char>),
    Env(Seq<char>),
    AllEnv,
    Network(Seq<char>, Option<u16>),
    Execute(Seq<char>),
    Time,
    Random,
}

impl View for Permission {
    type V = PermissionView;

    open spec fn view(&self) -> PermissionView {
        match self {
            Permission::ReadPath { path } => PermissionView::ReadPath(path@),
            Permission::WritePath { path } => PermissionView::WritePath(path@),
            Permission::Env { name } => PermissionView::Env(name@),
            Permission::AllEnv => PermissionView::AllEnv,
            Permission::Network { host, port } => PermissionView::Network(host@, *port),
            Permission::Execute { command } => PermissionView::Execute(command@),
            Permission::Time => PermissionView::Time,
            Permission::Random => PermissionView::Random,
        }
    }
}

/// Whether the grant `g` authorises the request `r`.
pub open spec fn covers(g: PermissionView, r: PermissionView) -> bool {
    g == r || match (g, r) {
        (PermissionView::ReadPath(a), PermissionView::ReadPath(b)) => path_within(a, b),
        (PermissionView::WritePath(a), PermissionView::WritePath(b)) => path_within(a, b),
        (PermissionView::AllEnv, PermissionView::Env(_)) => true,
        (PermissionView::Network(h1, None), PermissionView::Network(h2, _)) => h1 == h2,
        _ => false,
    }
}

/// The human-readable description of a permission.
pub open spec fn describe(p: PermissionView) -> Seq<char> {
    match p {
        PermissionView::ReadPath(path) => "read "@ + path,
        PermissionView::WritePath(path) => "write "@ + path,
        PermissionView::Env(name) => "env $"@ + name,
        PermissionView::AllEnv => "all environment variables"@,
        PermissionView::Network(host, Some(port)) => "network "@ + host + ":"@ + crate::text::decimal(
            port as nat,
        ),
        PermissionView::Network(host, None) => "network "@ + host,
        PermissionView::Execute(command) => "execute "@ + command,
        PermissionView::Time => "current time"@,
        PermissionView::Random => "random/UUID generation"@,
    }
}

/// Whether some grant of `set` authorises `r`.
pub open spec fn allows(set: Set<PermissionView>, r: PermissionView) -> bool {
    exists|g: PermissionView| set.contains(g) && covers(g, r)
}

pub open spec fn permission_views(v: Seq<Permission>) -> Seq<PermissionView> {
    v.map_values(|p: Permission| p@)
}

impl Permission {
    /// Read access to `path`.
    pub fn read_path(path: String) -> (r: Permission)
        ensures
            r@ == PermissionView::ReadPath(path@),
    {
        Permission::ReadPath { path }
    }

    /// Write access to `path`.
    pub fn write_path(path: String) -> (r: Permission)
        ensures
            r@ == PermissionView::WritePath(path@),
    {
        Permission::WritePath { path }
    }

    /// Access to the environment variable `name`.
    pub fn env(name: String) -> (r: Permission)
        ensures
            r@ == PermissionView::Env(name@),
    {
        Permission::Env { name }
    }

    /// Network access to `host`, on `port` or on any port.
    pub fn network(host: String, port: Option<u16>) -> (r: Permission)
        ensures
            r@ == PermissionView::Network(host@, port),
    {
        Permission::Network { host, port }
    }

    /// A copy with the same view.
    pub fn duplicate(&self) -> (r: Permission)
        ensures
            r@ == self@,
    {
        match self {
            Permission::ReadPath { path } => Permission::ReadPath { path: path.clone() },
            Permission::WritePath { path } => Permission::WritePath { path: path.clone() },
            Permission::Env { name } => Permission::Env { name: name.clone() },
            Permission::AllEnv => Permission::AllEnv,
            Permission::Network { host, port } => Permission::Network {
                host: host.clone(),
                port: *port,
            },
            Permission::Execute { command } => Permission::Execute { command: command.clone() },
            Permission::Time => Permission::Time,
            Permission::Random => Permission::Random,
        }
    }

    /// Whether the two permissions are the same grant.
    pub fn same_as(&self, other: &Permission) -> (r: bool)
        ensures
            r == (self@ == other@),
    {
        match (self, other) {
            (Permission::ReadPath { path: a }, Permission::ReadPath { path: b }) => a.eq(b),
            (Permission::WritePath { path: a }, Permission::WritePath { path: b }) => a.eq(b),
            (Permission::Env { name: a }, Permission::Env { name: b }) => a.eq(b),
            (Permission::AllEnv, Permission::AllEnv) => true,
            (
                Permission::Network { host: h1, port: p1 },
                Permission::Network { host: h2, port: p2 },
            ) => {
                let same_port = match (p1, p2) {
                    (Some(x), Some(y)) => *x == *y,
                    (None, None) => true,
                    _ => false,
                };
                same_port && h1.eq(h2)
            },
            (Permission::Execute { command: a }, Permission::Execute { command: b }) => a.eq(b),
            (Permission::Time, Permission::Time) => true,
            (Permission::Random, Permission::Random) => true,
            _ => false,
        }
    }

    /// Whether this grant authorises `requested`.
    pub fn covers(&self, requested: &Permission) -> (r: bool)
        ensures
            r == covers(self@, requested@),
    {
        if self.same_as(requested) {
            return true;
        }
        match (self, requested) {
            (Permission::ReadPath { path: g }, Permission::ReadPath { path: q }) => within(
                g.as_str(),
                q.as_str(),
            ),
            (Permission::WritePath { path: g }, Permission::WritePath { path: q }) => within(
                g.as_str(),
                q.as_str(),
            ),
            (Permission::AllEnv, Permission::Env { .. }) => true,
            (Permission::Network { host: h1, port: None }, Permission::Network { host: h2, .. }) => {
                h1.eq(h2)
            },
            _ => false,
        }
    }

    /// A human-readable description.
    pub fn description(&self) -> (r: String)
        ensures
            r@ == describe(self@),
    {
        let mut s = String::new();
        match self {
            Permission::ReadPath { path } => {
                push_str(&mut s, "read ");
                push_str(&mut s, path.as_str());
            },
            Permission::WritePath { path } => {
                push_str(&mut s, "write ");
                push_str(&mut s, path.as_str());
            },
            Permission::Env { name } => {
                push_str(&mut s, "env $");
                push_str(&mut s, name.as_str());
            },
            Permission::AllEnv => push_str(&mut s, "all environment variables"),
            Permission::Network { host, port } => {
                push_str(&mut s, "network ");
                push_str(&mut s, host.as_str());
                if let Some(p) = port {
                    push_str(&mut s, ":");
                    push_decimal(&mut s, *p as u64);
                }
            },
            Permission::Execute { command } => {
                push_str(&mut s, "execute ");
                push_str(&mut s, command.as_str());
            },
            Permission::Time => push_str(&mut s, "current time"),
            Permission::Random => push_str(&mut s, "random/UUID generation"),
        }
        s
    }
}

/// A set of grants; no two of its entries are the same grant.
#[derive(Debug)]
pub struct PermissionSet {
    permissions: Vec<Permission>,
}

impl View for PermissionSet {
    type V = Set<PermissionView>;

    closed spec fn view(&self) -> Set<PermissionView> {
        permission_views(self.permissions@).to_set()
    }
}

impl PermissionSet {
    #[verifier::type_invariant]
    spec fn distinct(&self) -> bool {
        permission_views(self.permissions@).no_duplicates()
    }

    /// The set with no grants.
    pub fn empty() -> (r: PermissionSet)
        ensures
            r@ == Set::<PermissionView>::empty(),
    {
        let r = PermissionSet { permissions: Vec::new() };
        assert(permission_views(r.permissions@).to_set() =~= Set::<PermissionView>::empty());
        r
    }

    /// The set of the given grants.
    pub fn new(perms: Vec<Permission>) -> (r: PermissionSet)
        ensures
            r@ == permission_views(perms@).to_set(),
    {
        let mut r = PermissionSet::empty();
        let mut rest = perms;
        let ghost all = permission_views(rest@);
        let mut taken: Vec<Permission> = Vec::new();
        let mut i: usize = 0;
        while i < rest.len()
            invariant
                i <= rest.len(),
                all == permission_views(rest@),
                r@ == all.take(i as int).to_set(),
            decreases rest.len() - i,
        {
            let p = rest[i].duplicate();
            r.add(p);
            proof {
                assert(all.take(i + 1) =~= all.take(i as int).push(all[i as int]));
                lemma_push_to_set(all.take(i as int), all[i as int]);
            }
            i = i + 1;
        }
        assert(all.take(rest.len() as int) =~= all);
        r
    }

    /// Adds a grant; a grant already present is not added twice.
    pub fn add(&mut self, perm: Permission)
        ensures
            final(self)@ == old(self)@.insert(perm@),
    {
        proof {
            use_type_invariant(&*self);
        }
        let ghost before = permission_views(self.permissions@);
        let mut i: usize = 0;
        while i < self.permissions.len()
            invariant
                i <= self.permissions.len(),
                before == permission_views(self.permissions@),
                forall|j: int| 0 <= j < i ==> before[j] != perm@,
            decreases self.permissions.len() - i,
        {
            if self.permissions[i].same_as(&perm) {
                assert(before[i as int] == perm@);
                assert(before.to_set().contains(perm@));
                assert(before.to_set().insert(perm@) =~= before.to_set());
                return;
            }
            i = i + 1;
        }
        let mut grown: Vec<Permission> = Vec::new();
        for j in 0..self.permissions.len()
            invariant
                before == permission_views(self.permissions@),
                permission_views(grown@) == before.take(j as int),
        {
            let q = self.permissions[j].duplicate();
            assert(q@ == before[j as int]);
            let ghost prev = grown@;
            grown.push(q);
            assert(permission_views(grown@) =~= permission_views(prev).push(q@));
            assert(before.take(j + 1) =~= before.take(j as int).push(before[j as int]));
        }
        let ghost pv = perm@;
        grown.push(perm);
        proof {
            let after = permission_views(grown@);
            assert(before.take(before.len() as int) =~= before);
            assert(after =~= before.push(pv));
            lemma_push_to_set(before, pv);
            assert forall|a: int, b: int| 0 <= a < after.len() && 0 <= b < after.len() && a != b
                implies after[a] != after[b] by {
                if a < before.len() && b < before.len() {
                }
            }
        }
        *self = PermissionSet { permissions: grown };
    }

    /// This set with one more grant.
    pub fn with(self, perm: Permission) -> (r: PermissionSet)
        ensures
            r@ == self@.insert(perm@),
    {
        let mut s = self;
        s.add(perm);
        s
    }

    /// Whether some grant of this set authorises `requested`.
    pub fn check(&self, requested: &Permission) -> (r: bool)
        ensures
            r == allows(self@, requested@),
    {
        let ghost ps = permission_views(self.permissions@);
        for i in 0..self.permissions.len()
            invariant
                ps == permission_views(self.permissions@),
                forall|j: int| 0 <= j < i ==> !covers(ps[j], requested@),
        {
            if self.permissions[i].covers(requested) {
                assert(ps.to_set().contains(ps[i as int]));
                return true;
            }
        }
        assert forall|g: PermissionView| ps.to_set().contains(g) implies !covers(g, requested@) by {
            let j = choose|j: int| 0 <= j < ps.len() && ps[j] == g;
        }
        false
    }

    /// Whether every grant of `requested` is authorised by this set.
    pub fn check_all(&self, requested: &PermissionSet) -> (r: bool)
        ensures
            r == (forall|p: PermissionView| requested@.contains(p) ==> allows(self@, p)),
    {
        let ghost qs = permission_views(requested.permissions@);
        for i in 0..requested.permissions.len()
            invariant
                qs == permission_views(requested.permissions@),
                forall|j: int| 0 <= j < i ==> allows(self@, qs[j]),
        {
            if !self.check(&requested.permissions[i]) {
                assert(qs.to_set().contains(qs[i as int]));
                return false;
            }
        }
        assert forall|p: PermissionView| qs.to_set().contains(p) implies allows(self@, p) by {
            let j = choose|j: int| 0 <= j < qs.len() && qs[j] == p;
        }
        true
    }

    /// The grants of `requested` that this set does not authorise, each once.
    pub fn missing(&self, requested: &PermissionSet) -> (r: Vec<Permission>)
        ensures
            permission_views(r@).no_duplicates(),
            permission_views(r@).to_set() == requested@.filter(|p: PermissionView| !allows(self@, p)),
    {
        proof {
            use_type_invariant(requested);
        }
        let ghost qs = permission_views(requested.permissions@);
        let mut out: Vec<Permission> = Vec::new();
        for i in 0..requested.permissions.len()
            invariant
                qs == permission_views(requested.permissions@),
                qs.no_duplicates(),
                permission_views(out@).no_duplicates(),
                forall|x: PermissionView| permission_views(out@).contains(x) <==> (exists|j: int|
                    0 <= j < i && qs[j] == x && !allows(self@, x)),
        {
            if !self.check(&requested.permissions[i]) {
                let ghost before = permission_views(out@);
                let p = requested.permissions[i].duplicate();
                out.push(p);
                proof {
                    let after = permission_views(out@);
                    assert(after =~= before.push(qs[i as int]));
                    assert(!before.contains(qs[i as int]));
                    assert forall|a: int, b: int| 0 <= a < after.len() && 0 <= b < after.len() && a
                        != b implies after[a] != after[b] by {
                        if a < before.len() && b < before.len() {
                        } else if a == before.len() {
                            assert(before.contains(after[b]));
                        } else {
                            assert(before.contains(after[a]));
                        }
                    }
                    assert forall|x: PermissionView| after.contains(x) <==> (exists|j: int|
                        0 <= j < i + 1 && qs[j] == x && !allows(self@, x)) by {
                        if after.contains(x) {
                            let k = choose|k: int| 0 <= k < after.len() && after[k] == x;
                            if k < before.len() {
                                assert(before.contains(x));
                            }
                        }
                        if exists|j: int| 0 <= j < i + 1 && qs[j] == x && !allows(self@, x) {
                            let j = choose|j: int| 0 <= j < i + 1 && qs[j] == x && !allows(self@, x);
                            if j < i {
                                assert(before.contains(x));
                                let k = choose|k: int| 0 <= k < before.len() && before[k] == x;
                                assert(after[k] == x);
                            } else {
                                assert(after[before.len() as int] == x);
                            }
                        }
                    }
                }
            } else {
                proof {
                    assert forall|x: PermissionView| permission_views(out@).contains(x) <==> (exists|
                        j: int|
                        0 <= j < i + 1 && qs[j] == x && !allows(self@, x)) by {
                        if exists|j: int| 0 <= j < i + 1 && qs[j] == x && !allows(self@, x) {
                            let j = choose|j: int| 0 <= j < i + 1 && qs[j] == x && !allows(self@, x);
                            if j == i {
                                assert(false);
                            }
                        }
                    }
                }
            }
        }
        proof {
            let f = requested@.filter(|p: PermissionView| !allows(self@, p));
            assert forall|x: PermissionView| permission_views(out@).to_set().contains(x) <==> f.contains(x) by {
                if f.contains(x) {
                    let j = choose|j: int| 0 <= j < qs.len() && qs[j] == x;
                }
            }
            assert(permission_views(out@).to_set() =~= f);
        }
        out
    }

    /// Whether the set holds no grant.
    pub fn is_empty(&self) -> (r: bool)
        ensures
            r == (self@ == Set::<PermissionView>::empty()),
    {
        let ghost ps = permission_views(self.permissions@);
        if self.permissions.len() == 0 {
            assert(ps.to_set() =~= Set::<PermissionView>::empty());
            true
        } else {
            assert(ps.to_set().contains(ps[0]));
            false
        }
    }

    /// The number of grants.
    pub fn len(&self) -> (r: usize)
        ensures
            r == self@.len(),
    {
        proof {
            use_type_invariant(self);
            permission_views(self.permissions@).unique_seq_to_set();
        }
        self.permissions.len()
    }

    /// The grants, each once, in the order they were added.
    pub fn iter(&self) -> (r: &[Permission])
        ensures
            permission_views(r@).no_duplicates(),
            permission_views(r@).to_set() == self@,
    {
        proof {
            use_type_invariant(self);
        }
        self.permissions.as_slice()
    }
}

impl Clone for PermissionSet {
    fn clone(&self) -> (r: PermissionSet)
        ensures
            r@ == self@,
    {
        proof {
            use_type_invariant(self);
        }
        let ghost ps = permission_views(self.permissions@);
        let mut copy: Vec<Permission> = Vec::new();
        for j in 0..self.permissions.len()
            invariant
                ps == permission_views(self.permissions@),
                permission_views(copy@) == ps.take(j as int),
        {
            let q = self.permissions[j].duplicate();
            let ghost prev = copy@;
            copy.push(q);
            assert(permission_views(copy@) =~= permission_views(prev).push(q@));
            assert(ps.take(j + 1) =~= ps.take(j as int).push(ps[j as int]));
        }
        assert(ps.take(ps.len() as int) =~= ps);
        PermissionSet { permissions: copy }
    }
}

pub(crate) proof fn lemma_push_to_set(s: Seq<PermissionView>, x: PermissionView)
    ensures
        s.push(x).to_set() == s.to_set().insert(x),
{
    assert forall|y: PermissionView| s.push(x).to_set().contains(y) <==> s.to_set().insert(x).contains(y) by {
        if s.push(x).contains(y) && y != x {
            let k = choose|k: int| 0 <= k < s.push(x).len() && s.push(x)[k] == y;
            assert(s[k] == y);
        }
        if s.contains(y) {
            let k = choose|k: int| 0 <= k < s.len() && s[k] == y;
            assert(s.push(x)[k] == y);
        }
        if y == x {
            assert(s.push(x)[s.len() as int] == y);
        }
    }
    assert(s.push(x).to_set() =~= s.to_set().insert(x));
}

/// The outcome of checking one permission.
#[derive(Debug, Clone)]
pub struct PermissionCheck {
    pub granted: bool,
    pub permission: Permission,
    pub reason: Option<String>,
}

impl PermissionCheck {
    /// A check that passed.
    pub fn allowed(permission: Permission) -> (r: PermissionCheck)
        ensures
            r.granted,
            r.permission == permission,
            r.reason is None,
    {
        PermissionCheck { granted: true, permission, reason: None }
    }

    /// A check that failed, with its reason.
    pub fn denied(permission: Permission, reason: String) -> (r: PermissionCheck)
        ensures
            !r.granted,
            r.permission == permission,
            r.reason == Some(reason),
    {
        PermissionCheck { granted: false, permission, reason: Some(reason) }
    }
}

/// Every permission covers itself.
pub proof fn lemma_covers_reflexive(p: PermissionView)
    ensures
        covers(p, p),
{
}

/// For paths, coverage follows directory prefixes transitively: a grant that
/// covers a path covers whatever that path covers.
pub proof fn lemma_path_coverage_transitive(a: PermissionView, b: PermissionView, c: PermissionView)
    requires
        a is ReadPath || a is WritePath,
        covers(a, b),
        covers(b, c),
    ensures
        covers(a, c),
{
    match (a, b, c) {
        (PermissionView::ReadPath(x), PermissionView::ReadPath(y), PermissionView::ReadPath(z)) => {
            lemma_within_reflexive(x);
            lemma_within_reflexive(y);
            crate::path::lemma_within_transitive(x, y, z);
        },
        (
            PermissionView::WritePath(x),
            PermissionView::WritePath(y),
            PermissionView::WritePath(z),
        ) => {
            lemma_within_reflexive(x);
            lemma_within_reflexive(y);
            crate::path::lemma_within_transitive(x, y, z);
        },
        _ => {},
    }
}

/// `AllEnv` covers access to every single environment variable.
pub proof fn lemma_all_env_covers_env(name: Seq<char>)
    ensures
        covers(PermissionView::AllEnv, PermissionView::Env(name)),
{
}

/// The empty set authorises nothing, time and randomness included.
pub proof fn lemma_empty_set_allows_nothing(r: PermissionView)
    ensures
        !allows(Set::empty(), r),
{
}

/// A read below a granted read root is authorised.
pub proof fn lemma_granted_read_allowed(set: Set<PermissionView>, root: Seq<char>, path: Seq<char>)
    requires
        set.contains(PermissionView::ReadPath(root)),
        path_within(root, path),
    ensures
        allows(set, PermissionView::ReadPath(path)),
{
    assert(covers(PermissionView::ReadPath(root), PermissionView::ReadPath(path)));
}

/// A read outside every granted read root is refused, whatever the filesystem holds.
pub proof fn lemma_ungranted_read_denied(set: Set<PermissionView>, path: Seq<char>)
    requires
        forall|root: Seq<char>|
            set.contains(PermissionView::ReadPath(root)) ==> !path_within(root, path),
    ensures
        !allows(set, PermissionView::ReadPath(path)),
{
    assert forall|g: PermissionView| set.contains(g) implies !covers(g, PermissionView::ReadPath(path)) by {
        if let PermissionView::ReadPath(root) = g {
            lemma_within_reflexive(path);
        }
    }
}

} // verus!
