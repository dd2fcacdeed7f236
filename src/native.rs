//! The supervisor's registry: the tracked instances with their ports, the
//! instances quarantined as broken, and the two port allocators. Every
//! tracked instance holds its port and RCON port exclusively, and the
//! allocators hold exactly those.

use std::ops::Range;
use vstd::prelude::*;

use crate::instance::{InstanceEnv, LoadError};
use crate::model::{Error, Ports, PortsInfo};
use crate::utils::{after_free, after_take, free_outcome, take_outcome, Indices, PoolView};

verus! {

/// A tracked instance and the ports reserved for it.
#[derive(Debug)]
pub struct Server {
    pub name: String,
    pub ports: Ports,
}

/// What the registry holds.
pub struct ServersView {
    /// Tracked instances by name, with their ports.
    pub servers: Map<Seq<char>, Ports>,
    /// Names of instances whose manifest could not be used.
    pub broken: Set<Seq<char>>,
    pub ports: PoolView,
    pub rcons: PoolView,
}

/// The characters of each string.
pub open spec fn names_of(v: Seq<String>) -> Seq<Seq<char>> {
    v.map_values(|s: String| s@)
}

/// What the supervisor does with one directory found at startup.
#[derive(Debug, Clone, Copy, PartialEq, Eq, Structural)]
pub enum StartupAction {
    /// Not an instance directory.
    Ignore,
    /// Start the loaded instance; its ports are reserved.
    Track,
    /// The manifest is missing: remove the directory.
    Purge,
    /// Keep the directory, listed as broken, for a manual recovery.
    Quarantine,
}

/// The allocators hold exactly the ports of the tracked instances, and no
/// two instances share a port or an RCON port.
pub open spec fn reserved(m: Map<Seq<char>, Ports>, ports: PoolView, rcons: PoolView) -> bool {
    &&& forall|p: u16| #[trigger]
        ports.taken.contains(p) <==> exists|k: Seq<char>| #[trigger]
            m.contains_key(k) && m[k].port == p
    &&& forall|p: u16| #[trigger]
        rcons.taken.contains(p) <==> exists|k: Seq<char>| #[trigger]
            m.contains_key(k) && m[k].rcon == p
    &&& forall|k1: Seq<char>, k2: Seq<char>|
        #![trigger m.contains_key(k1), m.contains_key(k2)]
        m.contains_key(k1) && m.contains_key(k2) && k1 != k2 ==> m[k1].port != m[k2].port
            && m[k1].rcon != m[k2].rcon
    &&& forall|p: u16| #[trigger] ports.taken.contains(p) ==> ports.in_range(p)
    &&& forall|p: u16| #[trigger] rcons.taken.contains(p) ==> rcons.in_range(p)
}

/// Whether both ports of `p` can be reserved.
pub open spec fn ports_free(v: ServersView, p: Ports) -> bool {
    take_outcome(v.ports, p.port) is Ok && take_outcome(v.rcons, p.rcon) is Ok
}

/// The outcome of `new_server(name, ports, path_exists)`.
pub open spec fn new_server_outcome(v: ServersView, name: Seq<char>, p: Ports, path_exists: bool) -> Result<(), Error> {
    if path_exists || v.servers.contains_key(name) {
        Err(Error::NameInUse)
    } else if !ports_free(v, p) {
        Err(Error::PortsUnavailable)
    } else {
        Ok(())
    }
}

/// The registry with `name` tracked on ports `p`, both reserved.
pub open spec fn with_server(v: ServersView, name: Seq<char>, p: Ports) -> ServersView {
    ServersView {
        servers: v.servers.insert(name, p),
        ports: after_take(v.ports, p.port),
        rcons: after_take(v.rcons, p.rcon),
        ..v
    }
}

/// The registry with `name` no longer tracked and its ports released.
pub open spec fn without_server(v: ServersView, name: Seq<char>) -> ServersView {
    ServersView {
        servers: v.servers.remove(name),
        ports: after_free(v.ports, v.servers[name].port),
        rcons: after_free(v.rcons, v.servers[name].rcon),
        ..v
    }
}

/// The outcome of moving the game port of `name` to `port`.
pub open spec fn alter_outcome(v: ServersView, name: Seq<char>, port: Option<u16>) -> Result<(), Error> {
    if !v.servers.contains_key(name) {
        Err(Error::NotFound)
    } else {
        match port {
            Some(q) => if q != v.servers[name].port {
                take_outcome(v.ports, q)
            } else {
                Ok(())
            },
            None => Ok(()),
        }
    }
}

/// The registry after a successful move of the game port of `name` to `q`.
pub open spec fn with_port(v: ServersView, name: Seq<char>, q: u16) -> ServersView {
    ServersView {
        servers: v.servers.insert(name, Ports { port: q, ..v.servers[name] }),
        ports: after_free(after_take(v.ports, q), v.servers[name].port),
        ..v
    }
}

proof fn lemma_reserved_insert(m: Map<Seq<char>, Ports>, ports: PoolView, rcons: PoolView, name: Seq<char>, p: Ports)
    requires
        reserved(m, ports, rcons),
        !m.contains_key(name),
        take_outcome(ports, p.port) is Ok,
        take_outcome(rcons, p.rcon) is Ok,
    ensures
        reserved(m.insert(name, p), after_take(ports, p.port), after_take(rcons, p.rcon)),
{
    let m2 = m.insert(name, p);
    let ports2 = after_take(ports, p.port);
    let rcons2 = after_take(rcons, p.rcon);
    assert forall|q: u16| #[trigger] ports2.taken.contains(q) <==> exists|k: Seq<char>| #[trigger]
        m2.contains_key(k) && m2[k].port == q by {
        if ports2.taken.contains(q) && q != p.port {
            let k = choose|k: Seq<char>| #[trigger] m.contains_key(k) && m[k].port == q;
            assert(m2.contains_key(k) && m2[k].port == q);
        }
        if ports2.taken.contains(q) && q == p.port {
            assert(m2.contains_key(name) && m2[name].port == q);
        }
    }
    assert forall|q: u16| #[trigger] rcons2.taken.contains(q) <==> exists|k: Seq<char>| #[trigger]
        m2.contains_key(k) && m2[k].rcon == q by {
        if rcons2.taken.contains(q) && q != p.rcon {
            let k = choose|k: Seq<char>| #[trigger] m.contains_key(k) && m[k].rcon == q;
            assert(m2.contains_key(k) && m2[k].rcon == q);
        }
        if rcons2.taken.contains(q) && q == p.rcon {
            assert(m2.contains_key(name) && m2[name].rcon == q);
        }
    }
    assert forall|k1: Seq<char>, k2: Seq<char>|
        m2.contains_key(k1) && m2.contains_key(k2) && k1 != k2 implies m2[k1].port != m2[k2].port
        && m2[k1].rcon != m2[k2].rcon by {
        if k1 == name {
            assert(ports.taken.contains(m[k2].port));
            assert(rcons.taken.contains(m[k2].rcon));
        } else if k2 == name {
            assert(ports.taken.contains(m[k1].port));
            assert(rcons.taken.contains(m[k1].rcon));
        }
    }
}

proof fn lemma_reserved_remove(m: Map<Seq<char>, Ports>, ports: PoolView, rcons: PoolView, name: Seq<char>)
    requires
        reserved(m, ports, rcons),
        m.contains_key(name),
    ensures
        free_outcome(ports, m[name].port) is Ok,
        free_outcome(rcons, m[name].rcon) is Ok,
        reserved(m.remove(name), after_free(ports, m[name].port), after_free(rcons, m[name].rcon)),
{
    let p = m[name];
    assert(ports.taken.contains(p.port));
    assert(rcons.taken.contains(p.rcon));
    let m2 = m.remove(name);
    let ports2 = after_free(ports, p.port);
    let rcons2 = after_free(rcons, p.rcon);
    assert forall|q: u16| #[trigger] ports2.taken.contains(q) <==> exists|k: Seq<char>| #[trigger]
        m2.contains_key(k) && m2[k].port == q by {
        if ports2.taken.contains(q) {
            let k = choose|k: Seq<char>| #[trigger] m.contains_key(k) && m[k].port == q;
            assert(m2.contains_key(k) && m2[k].port == q);
        }
        if exists|k: Seq<char>| #[trigger] m2.contains_key(k) && m2[k].port == q {
            let k = choose|k: Seq<char>| #[trigger] m2.contains_key(k) && m2[k].port == q;
            assert(m.contains_key(k) && k != name);
        }
    }
    assert forall|q: u16| #[trigger] rcons2.taken.contains(q) <==> exists|k: Seq<char>| #[trigger]
        m2.contains_key(k) && m2[k].rcon == q by {
        if rcons2.taken.contains(q) {
            let k = choose|k: Seq<char>| #[trigger] m.contains_key(k) && m[k].rcon == q;
            assert(m2.contains_key(k) && m2[k].rcon == q);
        }
        if exists|k: Seq<char>| #[trigger] m2.contains_key(k) && m2[k].rcon == q {
            let k = choose|k: Seq<char>| #[trigger] m2.contains_key(k) && m2[k].rcon == q;
            assert(m.contains_key(k) && k != name);
        }
    }
}

proof fn lemma_reserved_move_port(m: Map<Seq<char>, Ports>, ports: PoolView, rcons: PoolView, name: Seq<char>, q: u16)
    requires
        reserved(m, ports, rcons),
        m.contains_key(name),
        q != m[name].port,
        take_outcome(ports, q) is Ok,
    ensures
        free_outcome(after_take(ports, q), m[name].port) is Ok,
        reserved(
            m.insert(name, Ports { port: q, ..m[name] }),
            after_free(after_take(ports, q), m[name].port),
            rcons,
        ),
{
    let old_p = m[name];
    let m2 = m.insert(name, Ports { port: q, ..old_p });
    let ports1 = after_take(ports, q);
    assert(ports.taken.contains(old_p.port));
    let ports2 = after_free(ports1, old_p.port);
    assert forall|r: u16| #[trigger] ports2.taken.contains(r) <==> exists|k: Seq<char>| #[trigger]
        m2.contains_key(k) && m2[k].port == r by {
        if ports2.taken.contains(r) && r != q {
            let k = choose|k: Seq<char>| #[trigger] m.contains_key(k) && m[k].port == r;
            assert(k != name);
            assert(m2.contains_key(k) && m2[k].port == r);
        }
        if ports2.taken.contains(r) && r == q {
            assert(m2.contains_key(name) && m2[name].port == r);
        }
        if exists|k: Seq<char>| #[trigger] m2.contains_key(k) && m2[k].port == r {
            let k = choose|k: Seq<char>| #[trigger] m2.contains_key(k) && m2[k].port == r;
            if k != name {
                assert(m.contains_key(k) && m[k].port == r);
            }
        }
    }
    assert forall|r: u16| #[trigger] rcons.taken.contains(r) <==> exists|k: Seq<char>| #[trigger]
        m2.contains_key(k) && m2[k].rcon == r by {
        if rcons.taken.contains(r) {
            let k = choose|k: Seq<char>| #[trigger] m.contains_key(k) && m[k].rcon == r;
            assert(m2.contains_key(k) && m2[k].rcon == r);
        }
        if exists|k: Seq<char>| #[trigger] m2.contains_key(k) && m2[k].rcon == r {
            let k = choose|k: Seq<char>| #[trigger] m2.contains_key(k) && m2[k].rcon == r;
            assert(m.contains_key(k) && m[k].rcon == r);
        }
    }
    assert forall|k1: Seq<char>, k2: Seq<char>|
        m2.contains_key(k1) && m2.contains_key(k2) && k1 != k2 implies m2[k1].port != m2[k2].port
        && m2[k1].rcon != m2[k2].rcon by {
        if k1 == name {
            assert(ports.taken.contains(m[k2].port));
        } else if k2 == name {
            assert(ports.taken.contains(m[k1].port));
        }
    }
}

/// The supervisor's bookkeeping of instances and ports.
pub struct Servers {
    servers_dir: String,
    rcon_range: Indices,
    port_range: Indices,
    timeout: u64,
    password: String,
    servers: Vec<Server>,
    index: Ghost<Map<Seq<char>, Ports>>,
    broken: Vec<String>,
}

impl View for Servers {
    type V = ServersView;

    closed spec fn view(&self) -> ServersView {
        ServersView {
            servers: self.index@,
            broken: names_of(self.broken@).to_set(),
            ports: self.port_range@,
            rcons: self.rcon_range@,
        }
    }
}

impl Servers {
    /// The registry's internal consistency.
    pub closed spec fn wf(&self) -> bool {
        &&& self.port_range.wf()
        &&& self.rcon_range.wf()
        &&& forall|i: int, j: int|
            0 <= i < j < self.servers@.len() ==> self.servers@[i].name@ != self.servers@[j].name@
        &&& forall|i: int|
            0 <= i < self.servers@.len() ==> #[trigger] self.index@.contains_key(
                self.servers@[i].name@,
            ) && self.index@[self.servers@[i].name@] == self.servers@[i].ports
        &&& forall|k: Seq<char>| #[trigger]
            self.index@.contains_key(k) ==> exists|i: int|
                0 <= i < self.servers@.len() && #[trigger] self.servers@[i].name@ == k
        &&& reserved(self.index@, self.port_range@, self.rcon_range@)
        &&& forall|i: int, j: int|
            0 <= i < j < self.broken@.len() ==> self.broken@[i]@ != self.broken@[j]@
    }

    /// The configured root directory of the instances.
    pub closed spec fn root(&self) -> Seq<char> {
        self.servers_dir@
    }

    /// Seconds that instances wait before connecting RCON and for a graceful stop.
    pub closed spec fn stop_timeout(&self) -> u64 {
        self.timeout
    }

    /// The shared RCON password.
    pub closed spec fn secret(&self) -> Seq<char> {
        self.password@
    }

    /// A consistent registry keeps every tracked instance's ports reserved
    /// for it alone.
    pub proof fn lemma_ports_reserved(&self)
        requires
            self.wf(),
        ensures
            reserved(self@.servers, self@.ports, self@.rcons),
    {
    }

    /// An empty registry over the given directory and port ranges.
    pub fn new(path: String, rcon_range: Range<u16>, port_range: Range<u16>, timeout: u64, password: String) -> (r: Self)
        ensures
            r.wf(),
            r@.servers == Map::<Seq<char>, Ports>::empty(),
            r@.broken == Set::<Seq<char>>::empty(),
            r@.ports == (PoolView { start: port_range.start, end: port_range.end, taken: Set::empty() }),
            r@.rcons == (PoolView { start: rcon_range.start, end: rcon_range.end, taken: Set::empty() }),
            r.root() == path@,
            r.stop_timeout() == timeout,
            r.secret() == password@,
    {
        let r = Servers {
            servers_dir: path,
            rcon_range: Indices::new(rcon_range),
            port_range: Indices::new(port_range),
            timeout,
            password,
            servers: Vec::new(),
            index: Ghost(Map::empty()),
            broken: Vec::new(),
        };
        assert(r@.broken =~= Set::<Seq<char>>::empty());
        r
    }

    /// The settings that every instance of this registry shares.
    pub fn env(&self) -> (r: InstanceEnv)
        ensures
            r.timeout == self.stop_timeout(),
            r.password@ == self.secret(),
    {
        InstanceEnv { timeout: self.timeout, password: self.password.clone() }
    }

    /// The directory of the instance called `name`: `<root>/<name>`.
    pub fn name_to_path(&self, name: &String) -> (r: String)
        ensures
            r@ == self.root() + seq!['/'] + name@,
    {
        proof {
            reveal_strlit("/");
        }
        let dir = self.servers_dir.clone();
        let with_sep = dir.concat("/");
        with_sep.concat(name.as_str())
    }

    /// Where `name` stands among the tracked instances.
    fn position(&self, name: &String) -> (r: Option<usize>)
        requires
            self.wf(),
        ensures
            r is Some ==> r->Some_0 < self.servers@.len() && self.servers@[r->Some_0 as int].name@
                == name@,
            r is None ==> !self@.servers.contains_key(name@),
    {
        let mut i: usize = 0;
        while i < self.servers.len()
            invariant
                i <= self.servers@.len(),
                forall|j: int| 0 <= j < i ==> self.servers@[j].name@ != name@,
            decreases self.servers@.len() - i,
        {
            if self.servers[i].name == *name {
                return Some(i);
            }
            i += 1;
        }
        None
    }

    /// Whether an instance called `name` is tracked.
    pub fn is_tracked(&self, name: &String) -> (r: bool)
        requires
            self.wf(),
        ensures
            r == self@.servers.contains_key(name@),
    {
        self.position(name).is_some()
    }

    /// The ports of the tracked instance called `name`.
    pub fn ports_of(&self, name: &String) -> (r: Option<Ports>)
        requires
            self.wf(),
        ensures
            r is Some <==> self@.servers.contains_key(name@),
            r is Some ==> r->Some_0 == self@.servers[name@],
    {
        match self.position(name) {
            Some(i) => {
                assert(self.index@.contains_key(self.servers@[i as int].name@));
                Some(self.servers[i].ports)
            },
            None => None,
        }
    }

    /// Whether `name` is listed as broken.
    fn broken_position(&self, name: &String) -> (r: Option<usize>)
        requires
            self.wf(),
        ensures
            r is Some ==> r->Some_0 < self.broken@.len() && self.broken@[r->Some_0 as int]@ == name@,
            r is Some ==> self@.broken.contains(name@),
            r is None ==> !self@.broken.contains(name@),
    {
        let mut i: usize = 0;
        while i < self.broken.len()
            invariant
                i <= self.broken@.len(),
                forall|j: int| 0 <= j < i ==> self.broken@[j]@ != name@,
            decreases self.broken@.len() - i,
        {
            if self.broken[i] == *name {
                assert(names_of(self.broken@)[i as int] == name@);
                assert(names_of(self.broken@).contains(name@));
                return Some(i);
            }
            i += 1;
        }
        proof {
            if self@.broken.contains(name@) {
                let j = choose|j: int| 0 <= j < self.broken@.len() && #[trigger] names_of(self.broken@)[j] == name@;
                assert(self.broken@[j]@ == name@);
            }
        }
        None
    }

    /// Reserves both ports of `p`, or neither.
    fn take_ports(&mut self, p: Ports) -> (r: bool)
        requires
            old(self).port_range.wf(),
            old(self).rcon_range.wf(),
        ensures
            final(self).port_range.wf(),
            final(self).rcon_range.wf(),
            r == ports_free(old(self)@, p),
            r ==> final(self).port_range@ == after_take(old(self).port_range@, p.port)
                && final(self).rcon_range@ == after_take(old(self).rcon_range@, p.rcon),
            !r ==> final(self).port_range@ == old(self).port_range@ && final(self).rcon_range@
                == old(self).rcon_range@,
            final(self).servers == old(self).servers,
            final(self).index == old(self).index,
            final(self).broken == old(self).broken,
            final(self).servers_dir == old(self).servers_dir,
            final(self).timeout == old(self).timeout,
            final(self).password == old(self).password,
    {
        if self.port_range.try_take(p.port).is_err() {
            return false;
        }
        if self.rcon_range.try_take(p.rcon).is_err() {
            let _ = self.port_range.free(p.port);
            assert(self.port_range@.taken =~= old(self).port_range@.taken);
            assert(self.port_range@ == old(self).port_range@);
            return false;
        }
        true
    }

    /// Tracks `name` on ports that `take_ports` has just reserved.
    fn add_instance(&mut self, name: String, p: Ports)
        requires
            old(self).port_range.wf(),
            old(self).rcon_range.wf(),
            forall|i: int, j: int| 0 <= i < j < old(self).servers@.len() ==> old(self).servers@[i].name@
                != old(self).servers@[j].name@,
            forall|i: int| 0 <= i < old(self).servers@.len() ==> #[trigger] old(self).index@.contains_key(
                old(self).servers@[i].name@,
            ) && old(self).index@[old(self).servers@[i].name@] == old(self).servers@[i].ports,
            forall|k: Seq<char>| #[trigger] old(self).index@.contains_key(k) ==> exists|i: int|
                0 <= i < old(self).servers@.len() && #[trigger] old(self).servers@[i].name@ == k,
            forall|i: int, j: int| 0 <= i < j < old(self).broken@.len() ==> old(self).broken@[i]@
                != old(self).broken@[j]@,
            !old(self).index@.contains_key(name@),
            reserved(old(self).index@.insert(name@, p), old(self).port_range@, old(self).rcon_range@),
        ensures
            final(self).wf(),
            final(self)@ == (ServersView { servers: old(self)@.servers.insert(name@, p), ..old(self)@ }),
            final(self).root() == old(self).root(),
    {
        let ghost n = name@;
        self.servers.push(Server { name, ports: p });
        self.index = Ghost(self.index@.insert(n, p));
        assert forall|k: Seq<char>| #[trigger] self.index@.contains_key(k) implies exists|i: int|
            0 <= i < self.servers@.len() && #[trigger] self.servers@[i].name@ == k by {
            if k == n {
                assert(self.servers@[self.servers@.len() - 1].name@ == k);
            } else {
                let i = choose|i: int| 0 <= i < old(self).servers@.len() && #[trigger] old(self).servers@[i].name@ == k;
                assert(self.servers@[i].name@ == k);
            }
        }
        assert forall|i: int| 0 <= i < self.servers@.len() implies #[trigger] self.index@.contains_key(
            self.servers@[i].name@,
        ) && self.index@[self.servers@[i].name@] == self.servers@[i].ports by {
            if i < old(self).servers@.len() {
                assert(old(self).index@.contains_key(old(self).servers@[i].name@));
            }
        }
    }

    /// Stops tracking the instance at position `i` and releases its ports.
    fn remove_at(&mut self, i: usize) -> (r: Ports)
        requires
            old(self).wf(),
            i < old(self).servers@.len(),
        ensures
            final(self).wf(),
            r == old(self)@.servers[old(self).servers@[i as int].name@],
            final(self)@ == without_server(old(self)@, old(self).servers@[i as int].name@),
            final(self).root() == old(self).root(),
    {
        let ghost n = self.servers@[i as int].name@;
        proof {
            assert(self.index@.contains_key(self.servers@[i as int].name@));
            lemma_reserved_remove(self.index@, self.port_range@, self.rcon_range@, n);
        }
        let srv = self.servers.remove(i);
        let p = srv.ports;
        let _ = self.port_range.free(p.port);
        let _ = self.rcon_range.free(p.rcon);
        self.index = Ghost(self.index@.remove(n));
        assert forall|k: Seq<char>| #[trigger] self.index@.contains_key(k) implies exists|j: int|
            0 <= j < self.servers@.len() && #[trigger] self.servers@[j].name@ == k by {
            let j = choose|j: int| 0 <= j < old(self).servers@.len() && #[trigger] old(self).servers@[j].name@ == k;
            if j < i {
                assert(self.servers@[j].name@ == k);
            } else {
                assert(j != i);
                assert(self.servers@[j - 1].name@ == k);
            }
        }
        assert forall|j: int| 0 <= j < self.servers@.len() implies #[trigger] self.index@.contains_key(
            self.servers@[j].name@,
        ) && self.index@[self.servers@[j].name@] == self.servers@[j].ports by {
            if j < i {
                assert(old(self).index@.contains_key(old(self).servers@[j].name@));
            } else {
                assert(old(self).index@.contains_key(old(self).servers@[j + 1].name@));
            }
        }
        assert forall|a: int, b: int| 0 <= a < b < self.servers@.len() implies self.servers@[a].name@
            != self.servers@[b].name@ by {
            let a0 = if a < i { a } else { a + 1 };
            let b0 = if b < i { b } else { b + 1 };
            assert(self.servers@[a] == old(self).servers@[a0]);
            assert(self.servers@[b] == old(self).servers@[b0]);
        }
        p
    }

    /// Provisions bookkeeping for a new instance called `name` on ports `p`.
    /// Fails with `NameInUse` when its directory exists (`path_exists`) or
    /// the name is tracked, and with `PortsUnavailable` when either port
    /// cannot be reserved; a failure changes nothing.
    pub fn new_server(&mut self, name: String, p: Ports, path_exists: bool) -> (r: Result<(), Error>)
        requires
            old(self).wf(),
        ensures
            final(self).wf(),
            final(self).root() == old(self).root(),
            r == new_server_outcome(old(self)@, name@, p, path_exists),
            r is Ok ==> final(self)@ == with_server(old(self)@, name@, p),
            r is Err ==> final(self)@ == old(self)@,
    {
        if path_exists || self.is_tracked(&name) {
            return Err(Error::NameInUse);
        }
        if !self.take_ports(p) {
            return Err(Error::PortsUnavailable);
        }
        proof {
            lemma_reserved_insert(self.index@, old(self).port_range@, old(self).rcon_range@, name@, p);
        }
        self.add_instance(name, p);
        Ok(())
    }

    /// Stops tracking `name` and releases its ports, which are returned; the
    /// caller then kills the instance and removes its directory. Fails with
    /// `NotFound`, changing nothing, when the name is not tracked.
    pub fn delete_server(&mut self, name: &String) -> (r: Result<Ports, Error>)
        requires
            old(self).wf(),
        ensures
            final(self).wf(),
            final(self).root() == old(self).root(),
            !old(self)@.servers.contains_key(name@) ==> r == Err::<Ports, Error>(Error::NotFound)
                && final(self)@ == old(self)@,
            old(self)@.servers.contains_key(name@) ==> r == Ok::<Ports, Error>(
                old(self)@.servers[name@],
            ) && final(self)@ == without_server(old(self)@, name@),
    {
        match self.position(name) {
            Some(i) => Ok(self.remove_at(i)),
            None => Err(Error::NotFound),
        }
    }

    /// Stops tracking `name`, if it is tracked, and releases its ports. Used
    /// when provisioning fails; the caller removes the directory.
    pub fn nuke(&mut self, name: &String) -> (r: Option<Ports>)
        requires
            old(self).wf(),
        ensures
            final(self).wf(),
            final(self).root() == old(self).root(),
            !old(self)@.servers.contains_key(name@) ==> r is None && final(self)@ == old(self)@,
            old(self)@.servers.contains_key(name@) ==> r == Some(old(self)@.servers[name@])
                && final(self)@ == without_server(old(self)@, name@),
    {
        match self.position(name) {
            Some(i) => Some(self.remove_at(i)),
            None => None,
        }
    }

    /// Moves the game port of `name` to `port`: the new port is reserved
    /// before the old one is released, so a failure (`NotFound`, or the
    /// allocator's `OutOfRange` / `AlreadyTaken`) leaves everything as it was.
    pub fn alter_server(&mut self, name: &String, port: Option<u16>) -> (r: Result<(), Error>)
        requires
            old(self).wf(),
        ensures
            final(self).wf(),
            final(self).root() == old(self).root(),
            r == alter_outcome(old(self)@, name@, port),
            r is Err ==> final(self)@ == old(self)@,
            r is Ok && port is Some && port->Some_0 != old(self)@.servers[name@].port ==> final(self)@ == with_port(old(self)@, name@, port->Some_0),
            r is Ok && !(port is Some && port->Some_0 != old(self)@.servers[name@].port)
                ==> final(self)@ == old(self)@,
    {
        let i = match self.position(name) {
            Some(i) => i,
            None => return Err(Error::NotFound),
        };
        let q = match port {
            Some(q) => q,
            None => return Ok(()),
        };
        let old_ports = self.servers[i].ports;
        if q == old_ports.port {
            return Ok(());
        }
        let taken = self.port_range.try_take(q);
        if taken.is_err() {
            return taken;
        }
        proof {
            lemma_reserved_move_port(self.index@, old(self).port_range@, self.rcon_range@, name@, q);
        }
        let _ = self.port_range.free(old_ports.port);
        let new_ports = Ports { port: q, rcon: old_ports.rcon };
        self.servers.set(i, Server { name: name.clone(), ports: new_ports });
        self.index = Ghost(self.index@.insert(name@, new_ports));
        assert forall|k: Seq<char>| #[trigger] self.index@.contains_key(k) implies exists|j: int|
            0 <= j < self.servers@.len() && #[trigger] self.servers@[j].name@ == k by {
            let j = choose|j: int| 0 <= j < old(self).servers@.len() && #[trigger] old(self).servers@[j].name@ == k;
            assert(self.servers@[j].name@ == k);
        }
        assert forall|j: int| 0 <= j < self.servers@.len() implies #[trigger] self.index@.contains_key(
            self.servers@[j].name@,
        ) && self.index@[self.servers@[j].name@] == self.servers@[j].ports by {
            assert(old(self).index@.contains_key(old(self).servers@[j].name@));
        }
        Ok(())
    }

    /// Lists `name` as broken, once.
    fn quarantine(&mut self, name: String)
        requires
            old(self).wf(),
        ensures
            final(self).wf(),
            final(self)@ == (ServersView { broken: old(self)@.broken.insert(name@), ..old(self)@ }),
            final(self).root() == old(self).root(),
    {
        match self.broken_position(&name) {
            Some(_) => {
                assert(old(self)@.broken.insert(name@) =~= old(self)@.broken);
            },
            None => {
                let ghost n = name@;
                self.broken.push(name);
                let ghost now = names_of(self.broken@);
                let ghost before = names_of(old(self).broken@);
                assert forall|i: int| 0 <= i < before.len() implies #[trigger] before[i] != n by {
                    if before[i] == n {
                        assert(before.contains(n));
                    }
                }
                assert forall|i: int, j: int| 0 <= i < j < self.broken@.len() implies self.broken@[i]@
                    != self.broken@[j]@ by {
                    if j == self.broken@.len() - 1 {
                        assert(before[i] != n);
                    } else {
                        assert(old(self).broken@[i]@ != old(self).broken@[j]@);
                    }
                }
                assert(now =~= before.push(n));
                assert forall|s: Seq<char>| #[trigger] self@.broken.contains(s) == old(self)@.broken.insert(n).contains(s) by {
                    if now.contains(s) && s != n {
                        let j = choose|j: int| 0 <= j < now.len() && now[j] == s;
                        assert(before[j] == s);
                    }
                    if before.contains(s) {
                        let j = choose|j: int| 0 <= j < before.len() && before[j] == s;
                        assert(now[j] == s);
                    }
                    if s == n {
                        assert(now[now.len() - 1] == s);
                    }
                }
                assert(self@.broken =~= old(self)@.broken.insert(n));
                assert forall|k: Seq<char>| #[trigger] self.index@.contains_key(k) implies exists|i: int|
                    0 <= i < self.servers@.len() && #[trigger] self.servers@[i].name@ == k by {
                    assert(old(self).index@.contains_key(k));
                    let i = choose|i: int| 0 <= i < old(self).servers@.len() && #[trigger] old(self).servers@[i].name@ == k;
                    assert(self.servers@[i].name@ == k);
                }
            },
        }
    }

    /// Decides what to do with the directory `name` found at startup, from
    /// the outcome of loading it. A loaded instance is tracked when its name
    /// is new and both its ports can be reserved, and is listed as broken
    /// otherwise; an unparsable manifest is listed as broken; a missing one
    /// means the directory is to be removed.
    pub fn register_loaded(&mut self, name: String, loaded: Result<Ports, LoadError>) -> (r: StartupAction)
        requires
            old(self).wf(),
        ensures
            final(self).wf(),
            final(self).root() == old(self).root(),
            loaded == Err::<Ports, LoadError>(LoadError::PathIsNotDir) ==> r == StartupAction::Ignore
                && final(self)@ == old(self)@,
            loaded == Err::<Ports, LoadError>(LoadError::NoManifest) ==> r == StartupAction::Purge
                && final(self)@ == old(self)@,
            loaded == Err::<Ports, LoadError>(LoadError::BadManifest) ==> r
                == StartupAction::Quarantine && final(self)@ == (ServersView {
                broken: old(self)@.broken.insert(name@),
                ..old(self)@
            }),
            loaded is Ok && !old(self)@.servers.contains_key(name@) && ports_free(old(self)@, loaded->Ok_0)
                ==> r == StartupAction::Track && final(self)@ == with_server(
                old(self)@,
                name@,
                loaded->Ok_0,
            ),
            loaded is Ok && !(!old(self)@.servers.contains_key(name@) && ports_free(
                old(self)@,
                loaded->Ok_0,
            )) ==> r == StartupAction::Quarantine && final(self)@ == (ServersView {
                broken: old(self)@.broken.insert(name@),
                ..old(self)@
            }),
    {
        match loaded {
            Ok(p) => {
                let ghost n = name@;
                if self.is_tracked(&name) {
                    self.quarantine(name);
                    return StartupAction::Quarantine;
                }
                if !self.take_ports(p) {
                    self.quarantine(name);
                    return StartupAction::Quarantine;
                }
                proof {
                    lemma_reserved_insert(self.index@, old(self).port_range@, old(self).rcon_range@, n, p);
                }
                self.add_instance(name, p);
                StartupAction::Track
            },
            Err(LoadError::PathIsNotDir) => StartupAction::Ignore,
            Err(LoadError::NoManifest) => StartupAction::Purge,
            Err(LoadError::BadManifest) => {
                self.quarantine(name);
                StartupAction::Quarantine
            },
        }
    }

    /// Whether `name` is listed as broken.
    pub fn is_broken(&self, name: &String) -> (r: bool)
        requires
            self.wf(),
        ensures
            r == self@.broken.contains(name@),
    {
        self.broken_position(name).is_some()
    }

    /// Brings the broken instance `name` back, tracked on ports `p`, when it
    /// is listed as broken, not tracked and both ports are free. Fails with
    /// `NotFound` when it is not listed as broken, `NameInUse` when the name
    /// is tracked, and `PortsUnavailable` when either port cannot be
    /// reserved; a failure changes nothing.
    pub fn renew_server(&mut self, name: String, p: Ports) -> (r: Result<(), Error>)
        requires
            old(self).wf(),
        ensures
            final(self).wf(),
            final(self).root() == old(self).root(),
            !old(self)@.broken.contains(name@) ==> r == Err::<(), Error>(Error::NotFound),
            old(self)@.broken.contains(name@) && old(self)@.servers.contains_key(name@) ==> r == Err::<
                (),
                Error,
            >(Error::NameInUse),
            old(self)@.broken.contains(name@) && !old(self)@.servers.contains_key(name@) && !ports_free(
                old(self)@,
                p,
            ) ==> r == Err::<(), Error>(Error::PortsUnavailable),
            old(self)@.broken.contains(name@) && !old(self)@.servers.contains_key(name@) && ports_free(
                old(self)@,
                p,
            ) ==> r is Ok,
            r is Err ==> final(self)@ == old(self)@,
            r is Ok ==> old(self)@.broken.contains(name@) && final(self)@ == (ServersView {
                broken: old(self)@.broken.remove(name@),
                ..with_server(old(self)@, name@, p)
            }),
    {
        let b = match self.broken_position(&name) {
            Some(b) => b,
            None => return Err(Error::NotFound),
        };
        if self.is_tracked(&name) {
            return Err(Error::NameInUse);
        }
        if !self.take_ports(p) {
            return Err(Error::PortsUnavailable);
        }
        let ghost n = name@;
        let ghost pre = self.broken@;
        self.broken.remove(b);
        proof {
            lemma_reserved_insert(self.index@, old(self).port_range@, old(self).rcon_range@, n, p);
            assert forall|i: int, j: int| 0 <= i < j < self.broken@.len() implies self.broken@[i]@
                != self.broken@[j]@ by {
                let i0 = if i < b { i } else { i + 1 };
                let j0 = if j < b { j } else { j + 1 };
                assert(self.broken@[i] == pre[i0]);
                assert(self.broken@[j] == pre[j0]);
            }
            assert forall|s: Seq<char>| #[trigger] self@.broken.contains(s) == old(self)@.broken.remove(n).contains(s) by {
                if self@.broken.contains(s) {
                    let j = choose|j: int| 0 <= j < self.broken@.len() && #[trigger] names_of(self.broken@)[j] == s;
                    let j0 = if j < b { j } else { j + 1 };
                    assert(pre[j0] == self.broken@[j]);
                    assert(names_of(old(self).broken@)[j0] == s);
                }
                if old(self)@.broken.remove(n).contains(s) {
                    let j = choose|j: int| 0 <= j < pre.len() && #[trigger] names_of(old(self).broken@)[j] == s;
                    assert(j != b);
                    let j1 = if j < b { j } else { j - 1 };
                    assert(self.broken@[j1] == pre[j]);
                    assert(names_of(self.broken@)[j1] == s);
                }
            }
            assert(self@.broken =~= old(self)@.broken.remove(n));
            assert forall|k: Seq<char>| #[trigger] self.index@.contains_key(k) implies exists|i: int|
                0 <= i < self.servers@.len() && #[trigger] self.servers@[i].name@ == k by {
                assert(old(self).index@.contains_key(k));
                let i = choose|i: int| 0 <= i < old(self).servers@.len() && #[trigger] old(self).servers@[i].name@ == k;
                assert(self.servers@[i].name@ == k);
            }
        }
        self.add_instance(name, p);
        Ok(())
    }

    /// The names of the broken instances, each once.
    pub fn broken(&self) -> (r: Vec<String>)
        requires
            self.wf(),
        ensures
            names_of(r@).to_set() == self@.broken,
            names_of(r@).no_duplicates(),
    {
        let mut out: Vec<String> = Vec::new();
        let mut i: usize = 0;
        while i < self.broken.len()
            invariant
                i <= self.broken@.len(),
                out@.len() == i,
                forall|j: int| 0 <= j < i ==> out@[j]@ == self.broken@[j]@,
            decreases self.broken@.len() - i,
        {
            out.push(self.broken[i].clone());
            i += 1;
        }
        assert(names_of(out@) =~= names_of(self.broken@));
        assert forall|a: int, b: int| 0 <= a < out@.len() && 0 <= b < out@.len() && a != b implies names_of(out@)[a] != names_of(out@)[b] by {
            if a < b {
                assert(self.broken@[a]@ != self.broken@[b]@);
            } else {
                assert(self.broken@[b]@ != self.broken@[a]@);
            }
        }
        out
    }

    /// The ports in use and the two configured ranges.
    pub fn ports_info(&self) -> (r: PortsInfo)
        requires
            self.wf(),
        ensures
            r.ports@.to_set() == self@.ports.taken,
            r.rcons@.to_set() == self@.rcons.taken,
            r.ports@.no_duplicates(),
            r.rcons@.no_duplicates(),
            r.port_limits@ == seq![self@.ports.start, self@.ports.end],
            r.rcon_limits@ == seq![self@.rcons.start, self@.rcons.end],
    {
        let pr = self.port_range.range();
        let rr = self.rcon_range.range();
        let r = PortsInfo {
            ports: self.port_range.taken(),
            rcons: self.rcon_range.taken(),
            port_limits: [pr.start, pr.end],
            rcon_limits: [rr.start, rr.end],
        };
        assert(r.port_limits@ =~= seq![self@.ports.start, self@.ports.end]);
        assert(r.rcon_limits@ =~= seq![self@.rcons.start, self@.rcons.end]);
        r
    }
}

/// A request for a new instance whose port is reserved by another tracked
/// instance fails with `PortsUnavailable` (its name being new and free on
/// disk), and the failure leaves both allocators as they were.
pub proof fn lemma_new_server_port_conflict(v: ServersView, name: Seq<char>, p: Ports, other: Seq<char>)
    requires
        reserved(v.servers, v.ports, v.rcons),
        !v.servers.contains_key(name),
        v.servers.contains_key(other),
        v.servers[other].port == p.port || v.servers[other].rcon == p.rcon,
    ensures
        new_server_outcome(v, name, p, false) == Err::<(), Error>(Error::PortsUnavailable),
{
    if v.servers[other].port == p.port {
        assert(v.ports.taken.contains(p.port));
    } else {
        assert(v.rcons.taken.contains(p.rcon));
    }
}

} // verus!
