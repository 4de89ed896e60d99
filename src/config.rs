//! Connection configurations and the backend-specific connection strings they produce.
use vstd::prelude::*;
use vstd::string::*;

verus! {

/// The database engines a configuration can target.
#[derive(Clone, Copy, Debug, PartialEq, Eq, Structural)]
pub enum DatabaseKind {
    Postgres,
    MySQL,
    SQLite,
}

/// One named connection target.
#[derive(Debug)]
pub struct ConnectionConfig {
    connection_name: String,
    database: DatabaseKind,
    database_name: String,
    database_host_url: String,
    schema: Option<String>,
    connection_count: u32,
    options: Option<String>,
}

/// What a configuration holds, as mathematical values.
pub struct ConnectionConfigView {
    pub connection_name: Seq<char>,
    pub database: DatabaseKind,
    pub database_name: Seq<char>,
    pub database_host_url: Seq<char>,
    pub schema: Option<Seq<char>>,
    pub connection_count: u32,
    pub options: Option<Seq<char>>,
}

impl View for ConnectionConfig {
    type V = ConnectionConfigView;

    closed spec fn view(&self) -> ConnectionConfigView {
        ConnectionConfigView {
            connection_name: self.connection_name@,
            database: self.database,
            database_name: self.database_name@,
            database_host_url: self.database_host_url@,
            schema: opt_view(self.schema),
            connection_count: self.connection_count,
            options: opt_view(self.options),
        }
    }
}

/// The literal a file-backed host URL holds to ask for an in-memory database.
pub open spec fn memory_sentinel() -> Seq<char> {
    ":memory:"@
}

/// The schemas every search path falls back to, after the tenant's own.
pub open spec fn default_search_path() -> Seq<char> {
    "$user,public"@
}

/// The start of the search-path directive, up to the first schema it names.
pub open spec fn search_path_directive() -> Seq<char> {
    "options=-c%20search_path%3D"@
}

pub open spec fn opt_view(o: Option<String>) -> Option<Seq<char>> {
    match o {
        Some(s) => Some(s@),
        None => None,
    }
}

/// `host/db?[options&]options=-c%20search_path%3D[schema,]$user,public`
pub open spec fn pg_url(
    host: Seq<char>,
    db: Seq<char>,
    schema: Option<Seq<char>>,
    options: Option<Seq<char>>,
) -> Seq<char> {
    let opts = match options {
        Some(o) => o + "&"@,
        None => Seq::empty(),
    };
    let sch = match schema {
        Some(s) => s + ","@,
        None => Seq::empty(),
    };
    host + "/"@ + db + "?"@ + opts + search_path_directive() + sch + default_search_path()
}

/// `host/db[?options]`; the schema is the database itself on this backend.
pub open spec fn mysql_url(host: Seq<char>, db: Seq<char>, options: Option<Seq<char>>) -> Seq<char> {
    match options {
        Some(o) => host + "/"@ + db + "?"@ + o,
        None => host + "/"@ + db,
    }
}

/// The in-memory sentinel as it stands, else the host path followed by the file name.
pub open spec fn sqlite_url(host: Seq<char>, db: Seq<char>) -> Seq<char> {
    if host == memory_sentinel() {
        host
    } else {
        host + db
    }
}

pub open spec fn ends_with(s: Seq<char>, suffix: Seq<char>) -> bool {
    suffix.len() <= s.len() && s.subrange(s.len() - suffix.len(), s.len() as int) == suffix
}

impl ConnectionConfig {
    /// The connection string this configuration stands for.
    pub open spec fn spec_conn_url(&self) -> Seq<char> {
        let c = self@;
        match c.database {
            DatabaseKind::Postgres => pg_url(
                c.database_host_url,
                c.database_name,
                c.schema,
                c.options,
            ),
            DatabaseKind::MySQL => mysql_url(c.database_host_url, c.database_name, c.options),
            DatabaseKind::SQLite => sqlite_url(c.database_host_url, c.database_name),
        }
    }

    /// Collects the fields of a configuration; nothing is checked here.
    pub fn new(
        connection_name: String,
        database: DatabaseKind,
        database_name: String,
        database_host_url: String,
        schema: Option<String>,
        connection_count: u32,
        options: Option<String>,
    ) -> (r: Self)
        ensures
            r@ == (ConnectionConfigView {
                connection_name: connection_name@,
                database,
                database_name: database_name@,
                database_host_url: database_host_url@,
                schema: opt_view(schema),
                connection_count,
                options: opt_view(options),
            }),
    {
        ConnectionConfig {
            connection_name,
            database,
            database_name,
            database_host_url,
            schema,
            connection_count,
            options,
        }
    }

    pub fn connection_name(&self) -> (r: &str)
        ensures
            r@ == self@.connection_name,
    {
        self.connection_name.as_str()
    }

    pub fn database(&self) -> (r: DatabaseKind)
        ensures
            r == self@.database,
    {
        self.database
    }

    pub fn database_name(&self) -> (r: &str)
        ensures
            r@ == self@.database_name,
    {
        self.database_name.as_str()
    }

    pub fn database_host_url(&self) -> (r: &str)
        ensures
            r@ == self@.database_host_url,
    {
        self.database_host_url.as_str()
    }

    pub fn schema(&self) -> (r: Option<&str>)
        ensures
            match r {
                Some(s) => self@.schema == Some(s@),
                None => self@.schema is None,
            },
    {
        match &self.schema {
            Some(s) => Some(s.as_str()),
            None => None,
        }
    }

    pub fn connection_count(&self) -> (r: u32)
        ensures
            r == self@.connection_count,
    {
        self.connection_count
    }

    pub fn options(&self) -> (r: Option<&str>)
        ensures
            match r {
                Some(s) => self@.options == Some(s@),
                None => self@.options is None,
            },
    {
        match &self.options {
            Some(s) => Some(s.as_str()),
            None => None,
        }
    }

    /// Builds the backend-specific connection string.
    pub fn conn_url(&self) -> (r: String)
        ensures
            r@ == self.spec_conn_url(),
    {
        match self.database {
            DatabaseKind::Postgres => self.pg_conn_url(),
            DatabaseKind::MySQL => self.mysql_conn_url(),
            DatabaseKind::SQLite => self.sqlite_conn_url(),
        }
    }

    fn pg_conn_url(&self) -> (r: String)
        ensures
            r@ == pg_url(
                self@.database_host_url,
                self@.database_name,
                self@.schema,
                self@.options,
            ),
    {
        let mut url = self.database_host_url.clone();
        url.append("/");
        url.append(self.database_name.as_str());
        url.append("?");
        match &self.options {
            Some(configs) => {
                url.append(configs.as_str());
                url.append("&");
            },
            None => {},
        }
        url.append("options=-c%20search_path%3D");
        match &self.schema {
            Some(sch) => {
                url.append(sch.as_str());
                url.append(",");
            },
            None => {},
        }
        url.append("$user,public");
        url
    }

    fn mysql_conn_url(&self) -> (r: String)
        ensures
            r@ == mysql_url(self@.database_host_url, self@.database_name, self@.options),
    {
        let mut url = self.database_host_url.clone();
        url.append("/");
        url.append(self.database_name.as_str());
        if let Some(configs) = &self.options {
            url.append("?");
            url.append(configs.as_str());
        }
        url
    }

    fn sqlite_conn_url(&self) -> (r: String)
        ensures
            r@ == sqlite_url(self@.database_host_url, self@.database_name),
    {
        let memory = String::from_str(":memory:");
        if self.database_host_url == memory {
            return self.database_host_url.clone();
        }
        let mut url = self.database_host_url.clone();
        url.append(self.database_name.as_str());
        url
    }
}

proof fn lemma_ends_with_concat(a: Seq<char>, b: Seq<char>)
    ensures
        ends_with(a + b, b),
{
    assert((a + b).subrange(a.len() as int, (a + b).len() as int) =~= b);
}

/// Without a schema or options, a search-path-capable connection string always ends
/// with the default fallback schemas.
pub proof fn lemma_pg_url_ends_with_default(c: ConnectionConfig)
    requires
        c@.database == DatabaseKind::Postgres,
        c@.schema is None,
        c@.options is None,
    ensures
        ends_with(c.spec_conn_url(), search_path_directive() + default_search_path()),
{
    let host = c@.database_host_url;
    let db = c@.database_name;
    let pre = host + "/"@ + db + "?"@;
    assert(c.spec_conn_url() =~= pre + (search_path_directive() + default_search_path()));
    lemma_ends_with_concat(pre, search_path_directive() + default_search_path());
}

/// A tenant schema is the first schema of the search path, ahead of the default
/// fallback schemas, whatever the options.
pub proof fn lemma_pg_url_schema_first(c: ConnectionConfig, s: Seq<char>)
    requires
        c@.database == DatabaseKind::Postgres,
        c@.schema == Some(s),
    ensures
        ends_with(c.spec_conn_url(), search_path_directive() + s + ","@ + default_search_path()),
{
    let host = c@.database_host_url;
    let db = c@.database_name;
    let opts = match c@.options {
        Some(o) => o + "&"@,
        None => Seq::empty(),
    };
    let pre = host + "/"@ + db + "?"@ + opts;
    let tail = search_path_directive() + s + ","@ + default_search_path();
    assert(c.spec_conn_url() =~= pre + tail);
    lemma_ends_with_concat(pre, tail);
}

/// On the file-backed backend the in-memory sentinel is handed on unchanged,
/// whatever the database name.
pub proof fn lemma_sqlite_memory_identity(c: ConnectionConfig)
    requires
        c@.database == DatabaseKind::SQLite,
        c@.database_host_url == memory_sentinel(),
    ensures
        c.spec_conn_url() == c@.database_host_url,
        c.spec_conn_url() == memory_sentinel(),
{
}

} // verus!
