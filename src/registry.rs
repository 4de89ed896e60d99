//! The registry: connection names mapped to pools of the matching backend.
use vstd::prelude::*;
use vstd::string::*;
use crate::config::{ConnectionConfig, DatabaseKind};
use crate::pool::{
    build_pg_pool, build_sqlite_pool, checkout_pg, checkout_sqlite, PgPool,
    PgPooledConnection, SqlitePool, SqlitePooledConnection,
};

verus! {

/// What can go wrong while building the registry or checking a connection out.
#[derive(Debug)]
pub enum McmError {
    /// A pool could not be built for a configuration of this backend.
    ConnectionError { db: DatabaseKind, error: String },
    /// No connection of that name is registered.
    InvalidConnectionNameError { db: DatabaseKind, conn_name: String },
    /// The name is registered, but for another backend than the one asked for.
    InvalidConnectionTypeError { db: DatabaseKind },
    /// The pool of that name could not hand out a connection.
    R2D2Error { db: DatabaseKind, conn_name: String, error: String },
}

impl McmError {
    pub open spec fn is_connection_error(&self, kind: DatabaseKind) -> bool {
        match self {
            McmError::ConnectionError { db, .. } => *db == kind,
            _ => false,
        }
    }

    pub open spec fn is_invalid_name(&self, kind: DatabaseKind, name: Seq<char>) -> bool {
        match self {
            McmError::InvalidConnectionNameError { db, conn_name } => *db == kind && conn_name@
                == name,
            _ => false,
        }
    }

    pub open spec fn is_invalid_type(&self, kind: DatabaseKind) -> bool {
        match self {
            McmError::InvalidConnectionTypeError { db } => *db == kind,
            _ => false,
        }
    }

    pub open spec fn is_checkout_error(&self, kind: DatabaseKind, name: Seq<char>) -> bool {
        match self {
            McmError::R2D2Error { db, conn_name, .. } => *db == kind && conn_name@ == name,
            _ => false,
        }
    }
}

/// A pool tagged with the backend whose driver it serves.
#[derive(Clone)]
pub enum MultiConnectionPool {
    Pg(PgPool),
    Sqlite(SqlitePool),
}

impl MultiConnectionPool {
    pub open spec fn kind(&self) -> DatabaseKind {
        match self {
            MultiConnectionPool::Pg(_) => DatabaseKind::Postgres,
            MultiConnectionPool::Sqlite(_) => DatabaseKind::SQLite,
        }
    }

    /// The connection string and the size the pool was built with.
    pub open spec fn target(&self) -> (Seq<char>, u32) {
        match self {
            MultiConnectionPool::Pg(p) => (p.url(), p.max_size()),
            MultiConnectionPool::Sqlite(p) => (p.url(), p.max_size()),
        }
    }
}

/// The registry that a sequence of `(name, value)` registrations leaves: a later
/// registration of a name replaces an earlier one.
pub open spec fn registry_of<V>(s: Seq<(Seq<char>, V)>) -> Map<Seq<char>, V>
    decreases s.len(),
{
    if s.len() == 0 {
        Map::empty()
    } else {
        registry_of(s.drop_last()).insert(s.last().0, s.last().1)
    }
}

/// The `(name, backend)` registrations that a sequence of configurations makes.
pub open spec fn config_entries(cfgs: Seq<ConnectionConfig>) -> Seq<(Seq<char>, DatabaseKind)> {
    cfgs.map_values(|c: ConnectionConfig| (c@.connection_name, c@.database))
}

/// The `(name, (connection string, pool size))` registrations that a sequence of
/// configurations makes.
pub open spec fn config_targets(cfgs: Seq<ConnectionConfig>) -> Seq<(Seq<char>, (Seq<char>, u32))> {
    cfgs.map_values(
        |c: ConnectionConfig| (c@.connection_name, (c.spec_conn_url(), c@.connection_count)),
    )
}

pub open spec fn unique_names<V>(s: Seq<(Seq<char>, V)>) -> bool {
    forall|i: int, j: int| 0 <= i < j < s.len() ==> s[i].0 != s[j].0
}

/// The names registered are exactly the names that occur in the sequence.
pub proof fn lemma_registry_dom<V>(s: Seq<(Seq<char>, V)>, n: Seq<char>)
    ensures
        registry_of(s).dom().finite(),
        registry_of(s).contains_key(n) <==> exists|i: int| 0 <= i < s.len() && s[i].0 == n,
    decreases s.len(),
{
    if s.len() > 0 {
        let d = s.drop_last();
        lemma_registry_dom(d, n);
        if registry_of(s).contains_key(n) && n != s.last().0 {
            let i = choose|i: int| 0 <= i < d.len() && d[i].0 == n;
            assert(s[i].0 == n);
        }
        if exists|i: int| 0 <= i < s.len() && s[i].0 == n {
            let i = choose|i: int| 0 <= i < s.len() && s[i].0 == n;
            if i < d.len() {
                assert(d[i].0 == n);
            }
        }
    }
}

/// A name that no later registration repeats keeps the backend it was registered with.
pub proof fn lemma_registry_last<V>(s: Seq<(Seq<char>, V)>, i: int)
    requires
        0 <= i < s.len(),
        forall|j: int| i < j < s.len() ==> s[j].0 != s[i].0,
    ensures
        registry_of(s).contains_key(s[i].0),
        registry_of(s)[s[i].0] == s[i].1,
    decreases s.len(),
{
    if i < s.len() - 1 {
        let d = s.drop_last();
        assert forall|j: int| i < j < d.len() implies d[j].0 != d[i].0 by {
            assert(s[j].0 != s[i].0);
        }
        lemma_registry_last(d, i);
    }
}

/// Without repeated names, the registry holds one name per registration.
proof fn lemma_registry_len<V>(s: Seq<(Seq<char>, V)>)
    requires
        unique_names(s),
    ensures
        registry_of(s).dom().len() == s.len(),
    decreases s.len(),
{
    if s.len() > 0 {
        let d = s.drop_last();
        assert(unique_names(d)) by {
            assert forall|i: int, j: int| 0 <= i < j < d.len() implies d[i].0 != d[j].0 by {
                assert(s[i].0 != s[j].0);
            }
        }
        lemma_registry_len(d);
        lemma_registry_dom(d, s.last().0);
        if registry_of(d).contains_key(s.last().0) {
            let i = choose|i: int| 0 <= i < d.len() && d[i].0 == s.last().0;
            assert(s[i].0 == s[s.len() - 1].0);
        }
    }
}

/// Dropping an earlier registration of a name changes nothing once it is registered anew.
proof fn lemma_registry_remove<V>(s: Seq<(Seq<char>, V)>, i: int, n: Seq<char>, k: V)
    requires
        0 <= i < s.len(),
        s[i].0 == n,
    ensures
        registry_of(s.remove(i)).insert(n, k) == registry_of(s).insert(n, k),
    decreases s.len(),
{
    let d = s.drop_last();
    if i == s.len() - 1 {
        assert(s.remove(i) =~= d);
        assert(registry_of(s.remove(i)).insert(n, k) =~= registry_of(s).insert(n, k));
    } else {
        lemma_registry_remove(d, i, n, k);
        assert(s.remove(i) =~= d.remove(i).push(s.last()));
        assert(s.remove(i).drop_last() =~= d.remove(i));
        let a = registry_of(d.remove(i));
        let b = registry_of(d);
        let l = s.last();
        assert(a.insert(l.0, l.1).insert(n, k) =~= b.insert(l.0, l.1).insert(n, k)) by {
            assert(a.insert(n, k) =~= b.insert(n, k));
            if l.0 != n {
                assert(a.insert(l.0, l.1).insert(n, k) =~= a.insert(n, k).insert(l.0, l.1));
                assert(b.insert(l.0, l.1).insert(n, k) =~= b.insert(n, k).insert(l.0, l.1));
            } else {
                assert(a.insert(l.0, l.1).insert(n, k) =~= a.insert(n, k));
                assert(b.insert(l.0, l.1).insert(n, k) =~= b.insert(n, k));
            }
        }
    }
}

/// A registry built from configurations holds exactly the distinct names among them, each
/// under the backend, connection string and pool size of the last configuration of that name.
pub proof fn lemma_build_keeps_last_of_each_name(cfgs: Seq<ConnectionConfig>, i: int)
    requires
        0 <= i < cfgs.len(),
    ensures
        registry_of(config_entries(cfgs)).dom().finite(),
        registry_of(config_entries(cfgs)).contains_key(cfgs[i]@.connection_name),
        (forall|j: int| i < j < cfgs.len() ==> cfgs[j]@.connection_name != cfgs[i]@.connection_name)
            ==> registry_of(config_entries(cfgs))[cfgs[i]@.connection_name] == cfgs[i]@.database
            && registry_of(config_targets(cfgs))[cfgs[i]@.connection_name] == (
            cfgs[i].spec_conn_url(),
            cfgs[i]@.connection_count,
        ),
        forall|n: Seq<char>| #[trigger]
            registry_of(config_entries(cfgs)).contains_key(n) <==> exists|j: int|
                0 <= j < cfgs.len() && cfgs[j]@.connection_name == n,
{
    let s = config_entries(cfgs);
    lemma_registry_dom(s, cfgs[i]@.connection_name);
    assert(s[i].0 == cfgs[i]@.connection_name);
    assert forall|n: Seq<char>| #[trigger]
        registry_of(s).contains_key(n) <==> exists|j: int|
            0 <= j < cfgs.len() && cfgs[j]@.connection_name == n by {
        lemma_registry_dom(s, n);
        if registry_of(s).contains_key(n) {
            let j = choose|j: int| 0 <= j < s.len() && s[j].0 == n;
            assert(cfgs[j]@.connection_name == n);
        }
        if exists|j: int| 0 <= j < cfgs.len() && cfgs[j]@.connection_name == n {
            let j = choose|j: int| 0 <= j < cfgs.len() && cfgs[j]@.connection_name == n;
            assert(s[j].0 == n);
        }
    }
    if forall|j: int| i < j < cfgs.len() ==> cfgs[j]@.connection_name != cfgs[i]@.connection_name {
        assert forall|j: int| i < j < s.len() implies s[j].0 != s[i].0 by {
            assert(cfgs[j]@.connection_name != cfgs[i]@.connection_name);
        }
        lemma_registry_last(s, i);
        let t = config_targets(cfgs);
        assert forall|j: int| i < j < t.len() implies t[j].0 != t[i].0 by {
            assert(cfgs[j]@.connection_name != cfgs[i]@.connection_name);
        }
        lemma_registry_last(t, i);
    }
}

/// The names of a sequence of configurations, in order, repeats included.
pub open spec fn config_names(cfgs: Seq<ConnectionConfig>) -> Seq<Seq<char>> {
    cfgs.map_values(|c: ConnectionConfig| c@.connection_name)
}

/// A registry built from configurations holds one entry per distinct name among them.
pub proof fn lemma_build_counts_distinct_names(cfgs: Seq<ConnectionConfig>)
    ensures
        registry_of(config_entries(cfgs)).dom() == config_names(cfgs).to_set(),
        registry_of(config_entries(cfgs)).dom().len() == config_names(cfgs).to_set().len(),
{
    let s = config_entries(cfgs);
    let names = config_names(cfgs);
    assert forall|n: Seq<char>| #[trigger]
        registry_of(s).dom().contains(n) <==> names.to_set().contains(n) by {
        lemma_registry_dom(s, n);
        if registry_of(s).contains_key(n) {
            let j = choose|j: int| 0 <= j < s.len() && s[j].0 == n;
            assert(names[j] == n);
        }
        if names.contains(n) {
            let j = choose|j: int| 0 <= j < names.len() && names[j] == n;
            assert(s[j].0 == n);
        }
    }
    assert(registry_of(s).dom() =~= names.to_set());
}


/// The outcome of building one configuration's pool: the pool, or the builder's error
/// as a `ConnectionError` of the configuration's backend.
pub fn pool_or_error<P>(db: DatabaseKind, built: Result<P, String>) -> (r: Result<P, McmError>)
    ensures
        r == match built {
            Ok(p) => Ok::<P, McmError>(p),
            Err(error) => Err(McmError::ConnectionError { db, error }),
        },
{
    match built {
        Ok(p) => Ok(p),
        Err(error) => Err(McmError::ConnectionError { db, error }),
    }
}

/// The outcome of checking a connection out of the pool registered under `name`: the
/// connection, or the pool's error as an `R2D2Error`.
pub fn lease_or_error<C>(db: DatabaseKind, name: String, leased: Result<C, String>) -> (r: Result<
    C,
    McmError,
>)
    ensures
        r == match leased {
            Ok(c) => Ok::<C, McmError>(c),
            Err(error) => Err(McmError::R2D2Error { db, conn_name: name, error }),
        },
{
    match leased {
        Ok(c) => Ok(c),
        Err(error) => Err(McmError::R2D2Error { db, conn_name: name, error }),
    }
}

/// The registry: each name maps to one pool, tagged with its backend.
#[derive(Clone)]
pub struct MultiConnectionManager {
    entries: Vec<(String, MultiConnectionPool)>,
}

impl MultiConnectionManager {
    /// The registrations held, in order, as `(name, backend)`.
    pub closed spec fn entries_view(&self) -> Seq<(Seq<char>, DatabaseKind)> {
        self.entries@.map_values(|e: (String, MultiConnectionPool)| (e.0@, e.1.kind()))
    }

    /// The registrations held, in order, as `(name, (connection string, pool size))`.
    pub closed spec fn targets_view(&self) -> Seq<(Seq<char>, (Seq<char>, u32))> {
        self.entries@.map_values(|e: (String, MultiConnectionPool)| (e.0@, e.1.target()))
    }

    /// The backend each registered name maps to.
    pub closed spec fn kinds(&self) -> Map<Seq<char>, DatabaseKind> {
        registry_of(self.entries_view())
    }

    /// The connection string and pool size each registered name maps to.
    pub closed spec fn targets(&self) -> Map<Seq<char>, (Seq<char>, u32)> {
        registry_of(self.targets_view())
    }

    /// Each name is held once.
    pub closed spec fn wf(&self) -> bool {
        unique_names(self.entries_view())
    }

    fn empty() -> (r: Self)
        ensures
            r.wf(),
            r.kinds() == Map::<Seq<char>, DatabaseKind>::empty(),
            r.targets() == Map::<Seq<char>, (Seq<char>, u32)>::empty(),
    {
        let r = MultiConnectionManager { entries: Vec::new() };
        assert(r.entries_view() =~= Seq::<(Seq<char>, DatabaseKind)>::empty());
        assert(r.targets_view() =~= Seq::<(Seq<char>, (Seq<char>, u32))>::empty());
        r
    }

    fn position(&self, name: &String) -> (r: Option<usize>)
        requires
            self.wf(),
        ensures
            match r {
                Some(i) => i < self.entries@.len() && self.entries_view()[i as int].0 == name@
                    && self.kinds().contains_key(name@) && self.kinds()[name@]
                    == self.entries@[i as int].1.kind() && self.targets().contains_key(name@)
                    && self.targets()[name@] == self.entries@[i as int].1.target(),
                None => !self.kinds().contains_key(name@) && !self.targets().contains_key(name@),
            },
    {
        let mut i: usize = 0;
        while i < self.entries.len()
            invariant
                self.wf(),
                0 <= i <= self.entries@.len(),
                forall|j: int| 0 <= j < i ==> self.entries_view()[j].0 != name@,
            decreases self.entries@.len() - i,
        {
            if self.entries[i].0 == *name {
                proof {
                    let v = self.entries_view();
                    assert(unique_names(v));
                    assert forall|j: int| i < j < v.len() implies v[j].0 != v[i as int].0 by {
                        assert(v[i as int].0 != v[j].0);
                    }
                    lemma_registry_last(v, i as int);
                    let t = self.targets_view();
                    assert forall|j: int| i < j < t.len() implies t[j].0 != t[i as int].0 by {
                        assert(v[i as int].0 != v[j].0);
                    }
                    lemma_registry_last(t, i as int);
                }
                return Some(i);
            }
            i += 1;
        }
        proof {
            lemma_registry_dom(self.entries_view(), name@);
            lemma_registry_dom(self.targets_view(), name@);
            if self.targets().contains_key(name@) {
                let j = choose|j: int|
                    0 <= j < self.targets_view().len() && self.targets_view()[j].0 == name@;
                assert(self.entries_view()[j].0 == name@);
            }
        }
        None
    }

    /// Registers `pool` under `name`, replacing any earlier pool of that name.
    fn insert(&mut self, name: String, pool: MultiConnectionPool)
        requires
            old(self).wf(),
        ensures
            final(self).wf(),
            final(self).kinds() == old(self).kinds().insert(name@, pool.kind()),
            final(self).targets() == old(self).targets().insert(name@, pool.target()),
    {
        let ghost v0 = self.entries_view();
        let ghost t0 = self.targets_view();
        let ghost n = name@;
        let ghost k = pool.kind();
        let ghost t = pool.target();
        let pos = self.position(&name);
        match pos {
            Some(i) => {
                self.entries.remove(i);
                proof {
                    assert(self.entries_view() =~= v0.remove(i as int));
                    assert(self.targets_view() =~= t0.remove(i as int));
                    lemma_registry_remove(v0, i as int, n, k);
                    assert(t0[i as int].0 == n);
                    lemma_registry_remove(t0, i as int, n, t);
                }
            },
            None => {
                proof {
                    lemma_registry_dom(v0, n);
                }
            },
        }
        let ghost v1 = self.entries_view();
        let ghost t1 = self.targets_view();
        self.entries.push((name, pool));
        proof {
            assert(self.entries_view() =~= v1.push((n, k)));
            assert(self.entries_view().drop_last() =~= v1);
            assert(self.targets_view() =~= t1.push((n, t)));
            assert(self.targets_view().drop_last() =~= t1);
            lemma_registry_dom(v1, n);
            assert forall|a: int, b: int|
                0 <= a < b < self.entries_view().len() implies self.entries_view()[a].0
                != self.entries_view()[b].0 by {
                if b == v1.len() {
                    assert(v1[a].0 == self.entries_view()[a].0);
                } else {
                    match pos {
                        Some(i) => {
                            let ai = if a < i { a } else { a + 1 };
                            let bi = if b < i { b } else { b + 1 };
                            assert(v1[a] == v0[ai]);
                            assert(v1[b] == v0[bi]);
                        },
                        None => {},
                    }
                }
            }
            match pos {
                Some(i) => {
                    assert forall|j: int| 0 <= j < v1.len() implies v1[j].0 != n by {
                        let ji = if j < i { j } else { j + 1 };
                        assert(v1[j] == v0[ji]);
                    }
                },
                None => {},
            }
        }
    }

    /// Builds one pool per configuration, in order, from its connection string and pool
    /// size, and registers it under the configuration's name; a later configuration of a
    /// name replaces an earlier one. The first pool that cannot be built ends the whole
    /// build with its error.
    ///
    /// Pools are built for Postgres and SQLite. diesel's MySQL driver needs the
    /// libmysqlclient C library, which this crate does not build against, so a MySQL
    /// configuration fails the build with a `ConnectionError`.
    pub fn new(value: Vec<ConnectionConfig>) -> (r: Result<Self, McmError>)
        requires
            forall|i: int| 0 <= i < value@.len() ==> value@[i]@.connection_count > 0,
        ensures
            match r {
                Ok(m) => {
                    &&& m.wf()
                    &&& m.kinds() == registry_of(config_entries(value@))
                    &&& m.targets() == registry_of(config_targets(value@))
                    &&& forall|i: int|
                        0 <= i < value@.len() ==> value@[i]@.database != DatabaseKind::MySQL
                },
                Err(e) => exists|i: int|
                    0 <= i < value@.len() && e.is_connection_error(value@[i]@.database),
            },
            (exists|i: int| 0 <= i < value@.len() && value@[i]@.database == DatabaseKind::MySQL)
                ==> r is Err,
    {
        let mut manager = MultiConnectionManager::empty();
        let mut i: usize = 0;
        while i < value.len()
            invariant
                0 <= i <= value@.len(),
                forall|j: int| 0 <= j < value@.len() ==> value@[j]@.connection_count > 0,
                manager.wf(),
                manager.kinds() == registry_of(config_entries(value@.take(i as int))),
                manager.targets() == registry_of(config_targets(value@.take(i as int))),
                forall|j: int| 0 <= j < i ==> value@[j]@.database != DatabaseKind::MySQL,
            decreases value@.len() - i,
        {
            let config = &value[i];
            let db = config.database();
            let built: Result<MultiConnectionPool, String> = match db {
                DatabaseKind::Postgres => match build_pg_pool(
                    config.conn_url(),
                    config.connection_count(),
                ) {
                    Ok(pool) => Ok(MultiConnectionPool::Pg(pool)),
                    Err(error) => Err(error),
                },
                DatabaseKind::SQLite => match build_sqlite_pool(
                    config.conn_url(),
                    config.connection_count(),
                ) {
                    Ok(pool) => Ok(MultiConnectionPool::Sqlite(pool)),
                    Err(error) => Err(error),
                },
                DatabaseKind::MySQL => Err(String::from_str("no MySQL driver is linked")),
            };
            match pool_or_error(db, built) {
                Ok(pool) => {
                    manager.insert(String::from_str(config.connection_name()), pool);
                },
                Err(e) => {
                    return Err(e);
                },
            }
            proof {
                let s = config_entries(value@.take(i + 1));
                assert(s.drop_last() =~= config_entries(value@.take(i as int)));
                assert(s.last() == (value@[i as int]@.connection_name, value@[i as int]@.database));
                let t = config_targets(value@.take(i + 1));
                assert(t.drop_last() =~= config_targets(value@.take(i as int)));
                assert(t.last() == (
                    value@[i as int]@.connection_name,
                    (value@[i as int].spec_conn_url(), value@[i as int]@.connection_count),
                ));
            }
            i += 1;
        }
        assert(value@.take(i as int) =~= value@);
        Ok(manager)
    }

    /// The number of names registered.
    pub fn len(&self) -> (r: usize)
        requires
            self.wf(),
        ensures
            r == self.kinds().dom().len(),
    {
        proof {
            lemma_registry_len(self.entries_view());
        }
        self.entries.len()
    }

    /// The backend under which `name` is registered, if it is.
    pub fn kind_of(&self, name: &str) -> (r: Option<DatabaseKind>)
        requires
            self.wf(),
        ensures
            r == (if self.kinds().contains_key(name@) {
                Some(self.kinds()[name@])
            } else {
                None
            }),
    {
        let key = String::from_str(name);
        match self.position(&key) {
            Some(i) => match &self.entries[i].1 {
                MultiConnectionPool::Pg(_) => Some(DatabaseKind::Postgres),
                MultiConnectionPool::Sqlite(_) => Some(DatabaseKind::SQLite),
            },
            None => None,
        }
    }

    /// The connection string and pool size of the pool registered under `name`, if any.
    pub fn target_of(&self, name: &str) -> (r: Option<(&str, u32)>)
        requires
            self.wf(),
        ensures
            match r {
                Some((url, size)) => self.targets().contains_key(name@) && self.targets()[name@]
                    == (url@, size),
                None => !self.targets().contains_key(name@),
            },
    {
        let key = String::from_str(name);
        match self.position(&key) {
            Some(i) => match &self.entries[i].1 {
                MultiConnectionPool::Pg(p) => Some((p.connection_url(), p.size())),
                MultiConnectionPool::Sqlite(p) => Some((p.connection_url(), p.size())),
            },
            None => None,
        }
    }

    // A `get_mysql_conn` accessor would stand beside these two. It needs diesel's `mysql`
    // feature, whose mysqlclient-sys build script stops with "Did not find a compatible
    // version of libmysqlclient" unless that C library can be found through pkg-config or
    // mysql_config; without it no MySQL pool can exist, and `new` refuses MySQL configurations.

    /// Checks out a Postgres connection from the pool registered under `name`.
    pub fn get_pg_conn(&self, name: &str) -> (r: Result<PgPooledConnection, McmError>)
        requires
            self.wf(),
        ensures
            match r {
                Ok(_) => self.kinds().contains_key(name@) && self.kinds()[name@]
                    == DatabaseKind::Postgres,
                Err(e) => if !self.kinds().contains_key(name@) {
                    e.is_invalid_name(DatabaseKind::Postgres, name@)
                } else if self.kinds()[name@] != DatabaseKind::Postgres {
                    e.is_invalid_type(DatabaseKind::Postgres)
                } else {
                    e.is_checkout_error(DatabaseKind::Postgres, name@)
                },
            },
    {
        let key = String::from_str(name);
        match self.position(&key) {
            None => Err(
                McmError::InvalidConnectionNameError { db: DatabaseKind::Postgres, conn_name: key },
            ),
            Some(i) => match &self.entries[i].1 {
                MultiConnectionPool::Pg(pool) => lease_or_error(
                    DatabaseKind::Postgres,
                    key,
                    checkout_pg(pool),
                ),
                _ => Err(McmError::InvalidConnectionTypeError { db: DatabaseKind::Postgres }),
            },
        }
    }

    /// Checks out a SQLite connection from the pool registered under `name`.
    pub fn get_sqlite_conn(&self, name: &str) -> (r: Result<SqlitePooledConnection, McmError>)
        requires
            self.wf(),
        ensures
            match r {
                Ok(_) => self.kinds().contains_key(name@) && self.kinds()[name@]
                    == DatabaseKind::SQLite,
                Err(e) => if !self.kinds().contains_key(name@) {
                    e.is_invalid_name(DatabaseKind::SQLite, name@)
                } else if self.kinds()[name@] != DatabaseKind::SQLite {
                    e.is_invalid_type(DatabaseKind::SQLite)
                } else {
                    e.is_checkout_error(DatabaseKind::SQLite, name@)
                },
            },
    {
        let key = String::from_str(name);
        match self.position(&key) {
            None => Err(
                McmError::InvalidConnectionNameError { db: DatabaseKind::SQLite, conn_name: key },
            ),
            Some(i) => match &self.entries[i].1 {
                MultiConnectionPool::Sqlite(pool) => lease_or_error(
                    DatabaseKind::SQLite,
                    key,
                    checkout_sqlite(pool),
                ),
                _ => Err(McmError::InvalidConnectionTypeError { db: DatabaseKind::SQLite }),
            },
        }
    }
}

} // verus!
