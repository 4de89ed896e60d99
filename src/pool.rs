//! The pooling primitive: diesel's r2d2 pools, one per backend driver, and the
//! connections they lease.
use vstd::prelude::*;
use diesel::r2d2::{ConnectionManager, Pool, PooledConnection};
use diesel::{PgConnection, SqliteConnection};

verus! {

/// An r2d2 pool of Postgres connections.
#[verifier::external_body]
pub struct PgHandle {
    pool: Pool<ConnectionManager<PgConnection>>,
}

impl Clone for PgHandle {
    /// Relies on r2d2's `Pool::clone`: a second handle to the same pool.
    #[verifier::external_body]
    fn clone(&self) -> Self {
        PgHandle { pool: self.pool.clone() }
    }
}

/// An r2d2 pool of SQLite connections.
#[verifier::external_body]
pub struct SqliteHandle {
    pool: Pool<ConnectionManager<SqliteConnection>>,
}

impl Clone for SqliteHandle {
    /// Relies on r2d2's `Pool::clone`: a second handle to the same pool.
    #[verifier::external_body]
    fn clone(&self) -> Self {
        SqliteHandle { pool: self.pool.clone() }
    }
}

/// A Postgres connection leased from its pool; it goes back when dropped.
#[verifier::external_body]
pub struct PgPooledConnection {
    pub conn: PooledConnection<ConnectionManager<PgConnection>>,
}

/// A SQLite connection leased from its pool; it goes back when dropped.
#[verifier::external_body]
pub struct SqlitePooledConnection {
    pub conn: PooledConnection<ConnectionManager<SqliteConnection>>,
}

/// A pool together with the connection string and the size it was built with.
#[derive(Clone)]
pub struct BuiltPool<H> {
    handle: H,
    url: String,
    max_size: u32,
}

impl<H> BuiltPool<H> {
    /// The connection string the pool connects to.
    pub closed spec fn url(&self) -> Seq<char> {
        self.url@
    }

    /// The most connections the pool holds at once.
    pub closed spec fn max_size(&self) -> u32 {
        self.max_size
    }

    pub fn connection_url(&self) -> (r: &str)
        ensures
            r@ == self.url(),
    {
        self.url.as_str()
    }

    pub fn size(&self) -> (r: u32)
        ensures
            r == self.max_size(),
    {
        self.max_size
    }
}

pub type PgPool = BuiltPool<PgHandle>;

pub type SqlitePool = BuiltPool<SqliteHandle>;

/// Relies on r2d2's `Pool::builder().max_size(n).build(manager)` with diesel's
/// Postgres `ConnectionManager::new(url)`: a pool of at most `max_size` connections
/// to `url`, or the builder's error as text. The builder panics on a size of 0.
#[verifier::external_body]
pub(crate) fn build_pg_pool(url: String, max_size: u32) -> (r: Result<PgPool, String>)
    requires
        max_size > 0,
    ensures
        r matches Ok(p) ==> p.url() == url@ && p.max_size() == max_size,
{
    let manager = ConnectionManager::<PgConnection>::new(url.clone());
    match Pool::builder().max_size(max_size).build(manager) {
        Ok(pool) => Ok(BuiltPool { handle: PgHandle { pool }, url, max_size }),
        Err(err) => Err(err.to_string()),
    }
}

/// Relies on r2d2's `Pool::builder().max_size(n).build(manager)` with diesel's
/// SQLite `ConnectionManager::new(url)`: a pool of at most `max_size` connections
/// to `url`, or the builder's error as text. The builder panics on a size of 0.
#[verifier::external_body]
pub(crate) fn build_sqlite_pool(url: String, max_size: u32) -> (r: Result<SqlitePool, String>)
    requires
        max_size > 0,
    ensures
        r matches Ok(p) ==> p.url() == url@ && p.max_size() == max_size,
{
    let manager = ConnectionManager::<SqliteConnection>::new(url.clone());
    match Pool::builder().max_size(max_size).build(manager) {
        Ok(pool) => Ok(BuiltPool { handle: SqliteHandle { pool }, url, max_size }),
        Err(err) => Err(err.to_string()),
    }
}

/// Relies on r2d2's `Pool::get`: checks a connection out of a Postgres pool, or
/// gives the pool's error as text.
#[verifier::external_body]
pub(crate) fn checkout_pg(pool: &PgPool) -> (r: Result<PgPooledConnection, String>) {
    match pool.handle.pool.get() {
        Ok(conn) => Ok(PgPooledConnection { conn }),
        Err(err) => Err(err.to_string()),
    }
}

/// Relies on r2d2's `Pool::get`: checks a connection out of a SQLite pool, or
/// gives the pool's error as text.
#[verifier::external_body]
pub(crate) fn checkout_sqlite(pool: &SqlitePool) -> (r: Result<SqlitePooledConnection, String>) {
    match pool.handle.pool.get() {
        Ok(conn) => Ok(SqlitePooledConnection { conn }),
        Err(err) => Err(err.to_string()),
    }
}

} // verus!
