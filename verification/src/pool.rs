//! Bookkeeping of a pool of connections per address: which connection an
//! acquisition reuses, when it opens a new one and when it waits. Opening
//! connections and waiting are done by the application.

use vstd::prelude::*;
use crate::error::MadrpcError;
use crate::named_map::{distinct_keys, find_key, key_index, lemma_key_index};

verus! {

/// Limits of a connection pool.
#[derive(Debug, Clone, Copy)]
pub struct PoolConfig {
    /// Maximum connections per address
    pub max_connections: usize,
    /// Time allowed to acquire a connection (milliseconds)
    pub acquire_timeout_ms: u64,
}

impl Default for PoolConfig {
    /// Ten connections per address, 30 s to acquire one.
    fn default() -> (c: Self)
        ensures
            c.max_connections == 10,
            c.acquire_timeout_ms == 30000,
    {
        PoolConfig { max_connections: 10, acquire_timeout_ms: 30000 }
    }
}

/// What an acquisition does next.
#[derive(Debug)]
pub enum AcquireStep<C> {
    /// Hand out this pooled connection
    Reuse(C),
    /// Open a new connection and register it
    Connect,
    /// The address is at its limit: wait, then try again
    Wait,
}

/// The pooled connections of `addr` (none for an unknown address).
pub open spec fn conns_of<C>(s: Seq<(String, Vec<C>)>, addr: Seq<char>) -> Seq<C> {
    if key_index(s, addr) >= 0 {
        s[key_index(s, addr)].1@
    } else {
        Seq::empty()
    }
}

/// The availability count of `addr`, if it has one.
pub open spec fn avail_of(s: Seq<(String, usize)>, addr: Seq<char>) -> Option<usize> {
    if key_index(s, addr) >= 0 {
        Some(s[key_index(s, addr)].1)
    } else {
        None
    }
}

/// `t` is `s` with the entry of `addr` holding `v` (replaced in place, or
/// appended when absent); every other entry is kept.
pub open spec fn entry_set<V>(s: Seq<(String, V)>, t: Seq<(String, V)>, addr: Seq<char>, v: V) -> bool {
    &&& key_index(s, addr) >= 0 ==> {
        &&& t.len() == s.len()
        &&& t[key_index(s, addr)].0 == s[key_index(s, addr)].0
        &&& t[key_index(s, addr)].1 == v
        &&& forall|j: int| 0 <= j < s.len() && j != key_index(s, addr) ==> t[j] == s[j]
    }
    &&& key_index(s, addr) < 0 ==> {
        &&& t.len() == s.len() + 1
        &&& t.drop_last() == s
        &&& t.last().0@ == addr
        &&& t.last().1 == v
    }
}

/// `t` is `s` with the connections of `addr` being `v` (replaced in place,
/// or appended when absent); every other entry is kept.
pub open spec fn conns_set<C>(s: Seq<(String, Vec<C>)>, t: Seq<(String, Vec<C>)>, addr: Seq<char>, v: Seq<C>) -> bool {
    &&& key_index(s, addr) >= 0 ==> {
        &&& t.len() == s.len()
        &&& t[key_index(s, addr)].0 == s[key_index(s, addr)].0
        &&& t[key_index(s, addr)].1@ == v
        &&& forall|j: int| 0 <= j < s.len() && j != key_index(s, addr) ==> t[j] == s[j]
    }
    &&& key_index(s, addr) < 0 ==> {
        &&& t.len() == s.len() + 1
        &&& t.drop_last() == s
        &&& t.last().0@ == addr
        &&& t.last().1@ == v
    }
}

/// Per-address pooled connections and availability counts.
#[derive(Debug)]
pub struct PoolState<C> {
    connections: Vec<(String, Vec<C>)>,
    available: Vec<(String, usize)>,
    config: PoolConfig,
}

impl<C> PoolState<C> {
    /// The pooled connections, by address.
    pub closed spec fn connections_spec(&self) -> Seq<(String, Vec<C>)> {
        self.connections@
    }

    /// The availability counts, by address.
    pub closed spec fn available_spec(&self) -> Seq<(String, usize)> {
        self.available@
    }

    /// The limits.
    pub closed spec fn config_spec(&self) -> PoolConfig {
        self.config
    }

    /// Addresses are distinct in both tables, and no address holds more than
    /// `max_connections` pooled connections.
    pub open spec fn wf(&self) -> bool {
        &&& distinct_keys(self.connections_spec())
        &&& distinct_keys(self.available_spec())
        &&& forall|i: int| 0 <= i < self.connections_spec().len()
            ==> (#[trigger] self.connections_spec()[i]).1@.len() <= self.config_spec().max_connections
    }

    /// An empty pool with `config`.
    pub fn new(config: PoolConfig) -> (p: Self)
        ensures
            p.wf(),
            p.connections_spec().len() == 0,
            p.available_spec().len() == 0,
            p.config_spec() == config,
    {
        PoolState { connections: Vec::new(), available: Vec::new(), config }
    }

    /// The limits.
    pub fn config(&self) -> (c: PoolConfig)
        ensures
            c == self.config_spec(),
    {
        self.config
    }

    /// The error of an acquisition that ran out of time.
    pub fn timeout_error(&self) -> (e: MadrpcError)
        ensures
            e == MadrpcError::PoolTimeout(self.config_spec().acquire_timeout_ms),
    {
        MadrpcError::PoolTimeout(self.config.acquire_timeout_ms)
    }

    /// Number of pooled connections of `addr`.
    pub fn connection_count(&self, addr: &str) -> (n: usize)
        ensures
            n == conns_of(self.connections_spec(), addr@).len(),
    {
        match find_key(&self.connections, addr) {
            Some(i) => self.connections[i].1.len(),
            None => 0,
        }
    }

    /// The availability count of `addr`, if it has one.
    pub fn available_count(&self, addr: &str) -> (r: Option<usize>)
        ensures
            r == avail_of(self.available_spec(), addr@),
    {
        match find_key(&self.available, addr) {
            Some(i) => Some(self.available[i].1),
            None => None,
        }
    }

    /// One step of acquiring a connection to `addr`. When `addr` is marked
    /// available and has pooled connections, the most recently pooled one
    /// is taken out and handed back; when it is marked available with none
    /// pooled, its mark is cleared. Then, with nothing handed back, a new
    /// connection is to be opened if `addr` has fewer than
    /// `max_connections`, else the caller waits.
    pub fn acquire_step(&mut self, addr: &str) -> (step: AcquireStep<C>)
        requires
            old(self).wf(),
        ensures
            final(self).wf(),
            final(self).config_spec() == old(self).config_spec(),
            ({
                let cs = old(self).connections_spec();
                let av = old(self).available_spec();
                let marked = avail_of(av, addr@) matches Some(n) && n > 0 && key_index(cs, addr@) >= 0;
                let pooled = conns_of(cs, addr@);
                if marked && pooled.len() > 0 {
                    &&& step == AcquireStep::Reuse(pooled.last())
                    &&& conns_set(cs, final(self).connections_spec(), addr@, pooled.drop_last())
                    &&& final(self).available_spec() == av
                } else {
                    &&& final(self).connections_spec() == cs
                    &&& if marked {
                        entry_set(av, final(self).available_spec(), addr@, 0usize)
                    } else {
                        final(self).available_spec() == av
                    }
                    &&& step == if pooled.len() < old(self).config_spec().max_connections {
                        AcquireStep::<C>::Connect
                    } else {
                        AcquireStep::<C>::Wait
                    }
                }
            }),
    {
        let ghost cs = self.connections@;
        let ghost av = self.available@;
        proof {
            lemma_key_index(cs, addr@);
            lemma_key_index(av, addr@);
        }
        let ai = find_key(&self.available, addr);
        let avail = match ai {
            Some(i) => self.available[i].1,
            None => 0,
        };
        if avail > 0 {
            match find_key(&self.connections, addr) {
                Some(ci) => {
                    if self.connections[ci].1.len() > 0 {
                        let (key, mut conns) = self.connections.remove(ci);
                        let conn = conns.pop().unwrap();
                        self.connections.insert(ci, (key, conns));
                        proof {
                            assert(self.connections@.len() == cs.len());
                            assert forall|x: int, y: int| 0 <= x < y < self.connections@.len()
                                implies self.connections@[x].0@ != self.connections@[y].0@ by {
                                assert(cs[x].0@ != cs[y].0@);
                            }
                        }
                        return AcquireStep::Reuse(conn);
                    }
                    let i = ai.unwrap();
                    let (key, _) = self.available.remove(i);
                    self.available.insert(i, (key, 0));
                    proof {
                        assert forall|x: int, y: int| 0 <= x < y < self.available@.len()
                            implies self.available@[x].0@ != self.available@[y].0@ by {
                            assert(av[x].0@ != av[y].0@);
                        }
                    }
                },
                None => {},
            }
        }
        let count = match find_key(&self.connections, addr) {
            Some(ci) => self.connections[ci].1.len(),
            None => 0,
        };
        if count < self.config.max_connections {
            AcquireStep::Connect
        } else {
            AcquireStep::Wait
        }
    }

    /// Registers a newly opened connection to `addr` as pooled, and gives
    /// `addr` an availability count of zero if it had none. A connection is
    /// registered only where `acquire_step` asked for one: `addr` is below its
    /// limit.
    pub fn register(&mut self, addr: &str, conn: C)
        requires
            old(self).wf(),
            conns_of(old(self).connections_spec(), addr@).len() < old(self).config_spec().max_connections,
        ensures
            final(self).wf(),
            final(self).config_spec() == old(self).config_spec(),
            conns_set(
                old(self).connections_spec(),
                final(self).connections_spec(),
                addr@,
                conns_of(old(self).connections_spec(), addr@).push(conn),
            ),
            avail_of(old(self).available_spec(), addr@) is Some ==> final(self).available_spec() == old(self).available_spec(),
            avail_of(old(self).available_spec(), addr@) is None ==> entry_set(
                old(self).available_spec(),
                final(self).available_spec(),
                addr@,
                0usize,
            ),
    {
        let ghost cs = self.connections@;
        let ghost av = self.available@;
        proof {
            lemma_key_index(cs, addr@);
            lemma_key_index(av, addr@);
        }
        match find_key(&self.connections, addr) {
            Some(ci) => {
                let (key, mut conns) = self.connections.remove(ci);
                conns.push(conn);
                self.connections.insert(ci, (key, conns));
                proof {
                    assert forall|x: int, y: int| 0 <= x < y < self.connections@.len()
                        implies self.connections@[x].0@ != self.connections@[y].0@ by {
                        assert(cs[x].0@ != cs[y].0@);
                    }
                }
            },
            None => {
                let mut conns: Vec<C> = Vec::new();
                conns.push(conn);
                self.connections.push((addr.to_owned(), conns));
                proof {
                    assert(self.connections@.drop_last() =~= cs);
                    assert forall|x: int, y: int| 0 <= x < y < self.connections@.len()
                        implies self.connections@[x].0@ != self.connections@[y].0@ by {
                        if y == cs.len() {
                            assert(cs[x].0@ != addr@);
                        } else {
                            assert(cs[x].0@ != cs[y].0@);
                        }
                    }
                    assert(conns_of(cs, addr@) =~= Seq::<C>::empty());
                }
            },
        }
        if find_key(&self.available, addr).is_none() {
            self.available.push((addr.to_owned(), 0));
            proof {
                assert(self.available@.drop_last() =~= av);
                assert forall|x: int, y: int| 0 <= x < y < self.available@.len()
                    implies self.available@[x].0@ != self.available@[y].0@ by {
                    if y == av.len() {
                        assert(av[x].0@ != addr@);
                    } else {
                        assert(av[x].0@ != av[y].0@);
                    }
                }
            }
        }
    }

    /// Releases a connection to `addr`: its availability count, if it has
    /// one, goes up by one. The connection itself is not pooled again.
    pub fn release(&mut self, addr: &str)
        requires
            old(self).wf(),
            avail_of(old(self).available_spec(), addr@) matches Some(n) ==> n < usize::MAX,
        ensures
            final(self).wf(),
            final(self).config_spec() == old(self).config_spec(),
            final(self).connections_spec() == old(self).connections_spec(),
            match avail_of(old(self).available_spec(), addr@) {
                Some(n) => entry_set(old(self).available_spec(), final(self).available_spec(), addr@, (n + 1) as usize),
                None => final(self).available_spec() == old(self).available_spec(),
            },
    {
        let ghost av = self.available@;
        proof {
            lemma_key_index(av, addr@);
        }
        match find_key(&self.available, addr) {
            Some(i) => {
                let (key, n) = self.available.remove(i);
                self.available.insert(i, (key, n + 1));
                proof {
                    assert forall|x: int, y: int| 0 <= x < y < self.available@.len()
                        implies self.available@[x].0@ != self.available@[y].0@ by {
                        assert(av[x].0@ != av[y].0@);
                    }
                }
            },
            None => {},
        }
    }
}

/// A pool never holds more than `max_connections` connections for one
/// address: every operation keeps `wf`, which bounds each address.
pub proof fn lemma_pool_limit<C>(p: &PoolState<C>, addr: Seq<char>)
    requires
        p.wf(),
    ensures
        conns_of(p.connections_spec(), addr).len() <= p.config_spec().max_connections,
{
    lemma_key_index(p.connections_spec(), addr);
    if key_index(p.connections_spec(), addr) >= 0 {
        assert(p.connections_spec()[key_index(p.connections_spec(), addr)].1@.len() <= p.config_spec().max_connections);
    }
}

} // verus!
