//! The relational registry: schema migrations, repository and workspace
//! rows, and reference resolution.
//!
//! SQLite holds the rows; every call into it stands behind a trusted
//! wrapper, and what a query returns depends on the database file, so the
//! wrappers promise only what the statements' own text shows. The
//! decisions around the calls are verified.

use rusqlite::OptionalExtension;
use vstd::prelude::*;

use crate::naming::{cities, contains_str, safe_dir_name, spec_cities, spec_safe_dir_name};
use crate::store::{Repo, UserError, Workspace, WorkspaceState};
use crate::strutil::spec_dec_i64;

verus! {

#[verifier::external_type_specification]
#[verifier::external_body]
pub struct ExConnection(rusqlite::Connection);

/// A workspace row joined with its repository's root, as lookups need it.
#[derive(Debug, PartialEq)]
pub struct WorkspaceRow {
    pub id: String,
    pub path: String,
    pub base_branch: String,
    pub repo_root: String,
}

/// Relies on `rusqlite::Connection::open`: opens or creates the database
/// file at the path.
#[verifier::external_body]
fn db_open(path: &str) -> (r: Result<rusqlite::Connection, String>) {
    rusqlite::Connection::open(path).map_err(|e| e.to_string())
}

/// Relies on `rusqlite::Connection::execute_batch`: runs the statements of
/// `sql` against the database.
#[verifier::external_body]
fn db_exec_batch(conn: &rusqlite::Connection, sql: &str) -> (r: Result<(), String>) {
    conn.execute_batch(sql).map_err(|e| e.to_string())
}

/// Relies on `rusqlite::Connection::busy_timeout`: a second writer waits
/// five seconds rather than failing fast.
#[verifier::external_body]
fn db_busy_timeout_5s(conn: &rusqlite::Connection) -> (r: Result<(), String>) {
    conn.busy_timeout(std::time::Duration::from_secs(5)).map_err(|e| e.to_string())
}

/// Relies on `rusqlite::Connection::query_row` over `PRAGMA user_version`:
/// the schema version stamped on the database.
#[verifier::external_body]
fn db_user_version(conn: &rusqlite::Connection) -> (r: Result<i64, String>) {
    conn.query_row("PRAGMA user_version", [], |row| row.get(0)).map_err(|e| e.to_string())
}

/// Relies on rusqlite prepare/query_row: the `repos` row whose `id` equals
/// the argument, when one exists.
#[verifier::external_body]
fn sql_repo_by_id(conn: &rusqlite::Connection, id: &str) -> (r: Result<Option<Repo>, String>)
    ensures
        r matches Ok(Some(repo)) ==> repo.id@ == id@,
{
    conn.query_row(
        "SELECT id, name, root_path, default_branch, remote_url FROM repos WHERE id = ?",
        [id],
        |row| Ok(Repo { id: row.get(0)?, name: row.get(1)?, root_path: row.get(2)?,
            default_branch: row.get(3)?, remote_url: row.get(4)? }),
    ).optional().map_err(|e| e.to_string())
}

/// Relies on rusqlite prepare/query_row: the `repos` row whose `name`
/// equals the argument, when one exists.
#[verifier::external_body]
fn sql_repo_by_name(conn: &rusqlite::Connection, name: &str) -> (r: Result<Option<Repo>, String>)
    ensures
        r matches Ok(Some(repo)) ==> repo.name@ == name@,
{
    conn.query_row(
        "SELECT id, name, root_path, default_branch, remote_url FROM repos WHERE name = ?",
        [name],
        |row| Ok(Repo { id: row.get(0)?, name: row.get(1)?, root_path: row.get(2)?,
            default_branch: row.get(3)?, remote_url: row.get(4)? }),
    ).optional().map_err(|e| e.to_string())
}

/// Relies on rusqlite prepare/query_row: the `repos` row whose `root_path`
/// equals the argument, when one exists.
#[verifier::external_body]
fn sql_repo_by_root(conn: &rusqlite::Connection, root: &str) -> (r: Result<Option<Repo>, String>)
    ensures
        r matches Ok(Some(repo)) ==> repo.root_path@ == root@,
{
    conn.query_row(
        "SELECT id, name, root_path, default_branch, remote_url FROM repos WHERE root_path = ?",
        [root],
        |row| Ok(Repo { id: row.get(0)?, name: row.get(1)?, root_path: row.get(2)?,
            default_branch: row.get(3)?, remote_url: row.get(4)? }),
    ).optional().map_err(|e| e.to_string())
}

/// Relies on rusqlite prepare/query_map: every `repos` row whose `id`
/// starts with the reference.
#[verifier::external_body]
fn sql_repos_by_prefix(conn: &rusqlite::Connection, rref: &str) -> (r: Result<Vec<Repo>, String>) {
    let like = format!("{rref}%");
    let mut stmt = match conn.prepare(
        "SELECT id, name, root_path, default_branch, remote_url FROM repos WHERE id LIKE ?",
    ) {
        Ok(s) => s,
        Err(e) => return Err(e.to_string()),
    };
    let rows = match stmt.query_map([like], |row| Ok(Repo { id: row.get(0)?,
        name: row.get(1)?, root_path: row.get(2)?, default_branch: row.get(3)?,
        remote_url: row.get(4)? })) {
        Ok(rows) => rows,
        Err(e) => return Err(e.to_string()),
    };
    rows.collect::<Result<Vec<_>, _>>().map_err(|e| e.to_string())
}

/// Relies on rusqlite prepare/query_map: every `repos` row, most recent
/// first.
#[verifier::external_body]
fn sql_repos_all(conn: &rusqlite::Connection) -> (r: Result<Vec<Repo>, String>) {
    let mut stmt = match conn.prepare(
        "SELECT id, name, root_path, default_branch, remote_url FROM repos ORDER BY created_at DESC",
    ) {
        Ok(s) => s,
        Err(e) => return Err(e.to_string()),
    };
    let rows = match stmt.query_map([], |row| Ok(Repo { id: row.get(0)?,
        name: row.get(1)?, root_path: row.get(2)?, default_branch: row.get(3)?,
        remote_url: row.get(4)? })) {
        Ok(rows) => rows,
        Err(e) => return Err(e.to_string()),
    };
    rows.collect::<Result<Vec<_>, _>>().map_err(|e| e.to_string())
}

/// Relies on `rusqlite::Connection::execute`: inserts one `repos` row with
/// the given fields.
#[verifier::external_body]
fn sql_repo_insert(conn: &rusqlite::Connection, repo: &Repo) -> (r: Result<(), String>) {
    conn.execute(
        "INSERT INTO repos (id, name, root_path, default_branch, remote_url) VALUES (?, ?, ?, ?, ?)",
        (&repo.id, &repo.name, &repo.root_path, &repo.default_branch, &repo.remote_url),
    ).map(|_| ()).map_err(|e| e.to_string())
}

/// Relies on rusqlite prepare/query_row: the workspace row with exactly the
/// given id, joined with its repository's root.
#[verifier::external_body]
fn sql_workspace_by_id(conn: &rusqlite::Connection, id: &str) -> (r: Result<
    Option<WorkspaceRow>,
    String,
>)
    ensures
        r matches Ok(Some(w)) ==> w.id@ == id@,
{
    conn.query_row(
        "SELECT w.id, w.path, w.base_branch, r.root_path FROM workspaces w JOIN repos r ON r.id = w.repository_id WHERE w.id = ?",
        [id],
        |row| Ok(WorkspaceRow { id: row.get(0)?, path: row.get(1)?,
            base_branch: row.get(2)?, repo_root: row.get(3)? }),
    ).optional().map_err(|e| e.to_string())
}

/// Relies on rusqlite prepare/query_map: every workspace row whose id
/// starts with the reference, joined with its repository's root.
#[verifier::external_body]
fn sql_workspaces_by_prefix(conn: &rusqlite::Connection, wref: &str) -> (r: Result<
    Vec<WorkspaceRow>,
    String,
>) {
    let like = format!("{wref}%");
    let mut stmt = match conn.prepare(
        "SELECT w.id, w.path, w.base_branch, r.root_path FROM workspaces w JOIN repos r ON r.id = w.repository_id WHERE w.id LIKE ?",
    ) {
        Ok(s) => s,
        Err(e) => return Err(e.to_string()),
    };
    let rows = match stmt.query_map([like], |row| Ok(WorkspaceRow { id: row.get(0)?,
        path: row.get(1)?, base_branch: row.get(2)?, repo_root: row.get(3)? })) {
        Ok(rows) => rows,
        Err(e) => return Err(e.to_string()),
    };
    rows.collect::<Result<Vec<_>, _>>().map_err(|e| e.to_string())
}

/// The column list every workspace listing selects.
pub const SQL_WS_LIST: &'static str =
    "SELECT w.id, r.id, r.name, w.directory_name, w.branch, w.base_branch, w.state, w.path FROM workspaces w JOIN repos r ON r.id = w.repository_id";

/// Relies on rusqlite prepare/query_map: the workspace rows the listing
/// statement returns for the given parameters; the `state` column is read
/// back through the crate's own parser.
#[verifier::external_body]
fn sql_query_workspaces(conn: &rusqlite::Connection, sql: &str, params: &Vec<String>) -> (r:
    Result<Vec<Workspace>, String>) {
    let mut stmt = conn.prepare(sql).map_err(|e| e.to_string())?;
    let rows = stmt.query_map(rusqlite::params_from_iter(params.iter()), |row| {
        let state: String = row.get(6)?;
        Ok(Workspace { id: row.get(0)?, repo_id: row.get(1)?, repo: row.get(2)?,
            name: row.get(3)?, branch: row.get(4)?, base_branch: row.get(5)?,
            state: WorkspaceState::parse(&state).unwrap_or(WorkspaceState::Error),
            path: row.get(7)? })
    }).map_err(|e| e.to_string())?;
    rows.collect::<Result<Vec<_>, _>>().map_err(|e| e.to_string())
}

/// Relies on `rusqlite::Connection::execute`: inserts one workspace row in
/// state `ready`.
#[verifier::external_body]
fn sql_workspace_insert(
    conn: &rusqlite::Connection,
    id: &str,
    repo_id: &str,
    dir_name: &str,
    path: &str,
    branch: &str,
    base_branch: &str,
) -> (r: Result<(), String>) {
    conn.execute(
        "INSERT INTO workspaces (id, repository_id, directory_name, path, branch, base_branch, state) VALUES (?, ?, ?, ?, ?, ?, 'ready')",
        (id, repo_id, dir_name, path, branch, base_branch),
    ).map(|_| ()).map_err(|e| e.to_string())
}

/// Relies on `rusqlite::Connection::execute`: marks one workspace row
/// archived and stamps its update instant.
#[verifier::external_body]
fn sql_workspace_set_archived(conn: &rusqlite::Connection, id: &str) -> (r: Result<(), String>) {
    conn.execute(
        "UPDATE workspaces SET state = 'archived', updated_at = datetime('now') WHERE id = ?",
        [id],
    ).map(|_| ()).map_err(|e| e.to_string())
}

/// Relies on rusqlite prepare/query_map: the directory names of one
/// repository's workspaces.
#[verifier::external_body]
fn sql_workspace_dirnames(conn: &rusqlite::Connection, repo_id: &str) -> (r: Result<
    Vec<String>,
    String,
>) {
    let mut stmt = match conn.prepare(
        "SELECT directory_name FROM workspaces WHERE repository_id = ?",
    ) {
        Ok(s) => s,
        Err(e) => return Err(e.to_string()),
    };
    let rows = match stmt.query_map([repo_id], |row| row.get::<_, String>(0)) {
        Ok(rows) => rows,
        Err(e) => return Err(e.to_string()),
    };
    rows.collect::<Result<Vec<_>, _>>().map_err(|e| e.to_string())
}

/// Relies on `rand::Rng::gen_range` over the thread generator: some number
/// below the bound.
#[verifier::external_body]
fn random_below(n: usize) -> (r: usize)
    requires
        n > 0,
    ensures
        r < n,
{
    rand::Rng::gen_range(&mut rand::thread_rng(), 0..n)
}

/// Relies on `uuid::Uuid::new_v4` and its `Display`: a fresh random id in
/// the 36-character hyphenated form.
#[verifier::external_body]
pub(crate) fn fresh_uuid() -> (r: String)
    ensures
        r@.len() == 36,
{
    uuid::Uuid::new_v4().to_string()
}

/// Wraps a store failure into the crate's error.
pub fn map_db<T>(r: Result<T, String>) -> (out: Result<T, UserError>)
    ensures
        match out {
            Ok(_) => r is Ok,
            Err(e) => r is Err && (e matches UserError::Database(m) && m@ == (match r {
                Err(s) => s@,
                Ok(_) => Seq::empty(),
            })),
        },
        out matches Ok(v) ==> (r matches Ok(w) && v == w),
{
    match r {
        Ok(v) => Ok(v),
        Err(m) => Err(UserError::Database(m)),
    }
}

pub const SCHEMA_VERSION: i64 = 3;

pub const SQL_INIT: &'static str = "
    CREATE TABLE IF NOT EXISTS repos (
        id TEXT PRIMARY KEY,
        name TEXT NOT NULL,
        root_path TEXT NOT NULL,
        default_branch TEXT NOT NULL,
        remote_url TEXT,
        created_at TEXT NOT NULL DEFAULT (datetime('now')),
        updated_at TEXT NOT NULL DEFAULT (datetime('now'))
    );

    CREATE UNIQUE INDEX IF NOT EXISTS idx_repos_name ON repos(name);
    CREATE UNIQUE INDEX IF NOT EXISTS idx_repos_root_path ON repos(root_path);

    CREATE TABLE IF NOT EXISTS workspaces (
        id TEXT PRIMARY KEY,
        repository_id TEXT NOT NULL,
        directory_name TEXT NOT NULL,
        path TEXT NOT NULL,
        branch TEXT NOT NULL,
        base_branch TEXT NOT NULL,
        state TEXT NOT NULL DEFAULT 'ready' CHECK(state IN ('ready', 'archived', 'error')),
        created_at TEXT NOT NULL DEFAULT (datetime('now')),
        updated_at TEXT NOT NULL DEFAULT (datetime('now')),
        FOREIGN KEY(repository_id) REFERENCES repos(id)
    );

    CREATE UNIQUE INDEX IF NOT EXISTS idx_workspaces_repo_dir ON workspaces(repository_id, directory_name);
    CREATE UNIQUE INDEX IF NOT EXISTS idx_workspaces_repo_branch ON workspaces(repository_id, branch);

    PRAGMA user_version = 3;
    ";

pub const SQL_INDEXES: &'static str = "
    CREATE UNIQUE INDEX IF NOT EXISTS idx_repos_name ON repos(name);
    CREATE UNIQUE INDEX IF NOT EXISTS idx_repos_root_path ON repos(root_path);
    ";

pub const SQL_REBUILD: &'static str = "
    DROP TABLE IF EXISTS workspaces_new;
    CREATE TABLE workspaces_new (
        id TEXT PRIMARY KEY,
        repository_id TEXT NOT NULL,
        directory_name TEXT NOT NULL,
        path TEXT NOT NULL,
        branch TEXT NOT NULL,
        base_branch TEXT NOT NULL,
        state TEXT NOT NULL DEFAULT 'ready' CHECK(state IN ('ready', 'archived', 'error')),
        created_at TEXT NOT NULL DEFAULT (datetime('now')),
        updated_at TEXT NOT NULL DEFAULT (datetime('now')),
        FOREIGN KEY(repository_id) REFERENCES repos(id)
    );

    INSERT INTO workspaces_new (id, repository_id, directory_name, path, branch, base_branch, state, created_at, updated_at)
    SELECT
        id,
        repository_id,
        directory_name,
        path,
        branch,
        base_branch,
        CASE
            WHEN state IN ('ready', 'archived', 'error') THEN state
            ELSE 'error'
        END,
        created_at,
        updated_at
    FROM workspaces;

    DROP TABLE workspaces;
    ALTER TABLE workspaces_new RENAME TO workspaces;

    CREATE UNIQUE INDEX IF NOT EXISTS idx_workspaces_repo_dir ON workspaces(repository_id, directory_name);
    CREATE UNIQUE INDEX IF NOT EXISTS idx_workspaces_repo_branch ON workspaces(repository_id, branch);

    PRAGMA user_version = 3;
    ";

/// The statement batches a schema version still needs, oldest first; an
/// empty plan means the store is current; a version above the target is a
/// configuration error naming it.
pub fn migration_batches(version: i64) -> (r: Result<Vec<&'static str>, UserError>)
    ensures
        match r {
            Ok(batches) => (version == 0 ==> batches.deep_view() =~= seq![SQL_INIT@]) && (version
                == 1 ==> batches.deep_view() =~= seq![SQL_INDEXES@, SQL_REBUILD@]) && (version == 2
                ==> batches.deep_view() =~= seq![SQL_REBUILD@]) && (version == 3
                ==> batches.deep_view() =~= Seq::<Seq<char>>::empty()) && (version == 0 || version
                == 1 || version == 2 || version == 3),
            Err(e) => !(version == 0 || version == 1 || version == 2 || version == 3) && (
            e matches UserError::Validation(m) && m@ == "unsupported DB schema version: "@
                + spec_dec_i64(version as int)),
        },
{
    let mut out: Vec<&'static str> = Vec::new();
    if version == 3 {
        proof {
            assert(out.deep_view() =~= Seq::<Seq<char>>::empty());
        }
        return Ok(out);
    }
    if version == 0 {
        out.push(SQL_INIT);
        proof {
            assert(out.deep_view() =~= seq![SQL_INIT@]);
        }
        return Ok(out);
    }
    if version == 1 {
        out.push(SQL_INDEXES);
        out.push(SQL_REBUILD);
        proof {
            assert(out.deep_view() =~= seq![SQL_INDEXES@, SQL_REBUILD@]);
        }
        return Ok(out);
    }
    if version == 2 {
        out.push(SQL_REBUILD);
        proof {
            assert(out.deep_view() =~= seq![SQL_REBUILD@]);
        }
        return Ok(out);
    }
    let mut msg = "unsupported DB schema version: ".to_owned();
    msg.append(crate::strutil::i64_to_dec(version).as_str());
    Err(UserError::Validation(msg))
}

/// Brings the store to the current schema. The whole migration runs inside
/// one immediate transaction, and the version is read again after the
/// transaction starts, so a concurrent starter that won the race makes this
/// call a no-op; a version above the target is a configuration error.
pub fn migrate(conn: &rusqlite::Connection) -> (r: Result<(), UserError>)
    ensures
        r matches Err(e) ==> (e is Database || (e matches UserError::Validation(m)
            && exists|v: int| m@ == "unsupported DB schema version: "@ + spec_dec_i64(v))),
{
    let version = match map_db(db_user_version(conn)) {
        Ok(v) => v,
        Err(e) => {
            return Err(e);
        },
    };
    if version == SCHEMA_VERSION {
        return Ok(());
    }
    if let Err(e) = map_db(db_exec_batch(conn, "BEGIN IMMEDIATE")) {
        return Err(e);
    }
    let version = match map_db(db_user_version(conn)) {
        Ok(v) => v,
        Err(e) => {
            let _ = db_exec_batch(conn, "ROLLBACK");
            return Err(e);
        },
    };
    if version == SCHEMA_VERSION {
        return map_db(db_exec_batch(conn, "COMMIT"));
    }
    let batches = match migration_batches(version) {
        Ok(b) => b,
        Err(e) => {
            let _ = db_exec_batch(conn, "ROLLBACK");
            return Err(e);
        },
    };
    let mut i: usize = 0;
    while i < batches.len()
        decreases batches@.len() - i,
    {
        if let Err(e) = map_db(db_exec_batch(conn, batches[i])) {
            let _ = db_exec_batch(conn, "ROLLBACK");
            return Err(e);
        }
        i += 1;
    }
    map_db(db_exec_batch(conn, "COMMIT"))
}

/// Opens the store and prepares it: foreign keys on, write-ahead logging, a
/// bounded busy timeout, and the schema brought to the current version.
pub fn connect(path: &str) -> (r: Result<rusqlite::Connection, UserError>)
    ensures
        r matches Err(e) ==> (e is Database || (e matches UserError::Validation(m)
            && exists|v: int| m@ == "unsupported DB schema version: "@ + spec_dec_i64(v))),
{
    let conn = match map_db(db_open(path)) {
        Ok(c) => c,
        Err(e) => {
            return Err(e);
        },
    };
    if let Err(e) = map_db(db_exec_batch(&conn, "PRAGMA foreign_keys = ON")) {
        return Err(e);
    }
    if let Err(e) = map_db(db_exec_batch(&conn, "PRAGMA journal_mode = WAL")) {
        return Err(e);
    }
    if let Err(e) = map_db(db_busy_timeout_5s(&conn)) {
        return Err(e);
    }
    if let Err(e) = migrate(&conn) {
        return Err(e);
    }
    Ok(conn)
}

/// Settles a prefix search: one row wins; several are ambiguous; none is
/// not found. The messages name the reference.
pub fn pick_unique_repo(mut rows: Vec<Repo>, rref: &str) -> (r: Result<Repo, UserError>)
    ensures
        rows@.len() == 1 <==> r is Ok,
        r matches Ok(repo) ==> repo == rows@[0],
        r matches Err(e) ==> (e matches UserError::Validation(m) && (m@ == "repo not found: "@
            + rref@ || m@ == "ambiguous repo reference: "@ + rref@)),
        r matches Err(e) ==> (rows@.len() == 0 ==> (e matches UserError::Validation(m) && m@
            == "repo not found: "@ + rref@)) && (rows@.len() > 1 ==> (
        e matches UserError::Validation(m) && m@ == "ambiguous repo reference: "@ + rref@)),
{
    if rows.len() == 1 {
        let repo = rows.remove(0);
        return Ok(repo);
    }
    if rows.len() > 1 {
        let mut msg = "ambiguous repo reference: ".to_owned();
        msg.append(rref);
        return Err(UserError::Validation(msg));
    }
    let mut msg = "repo not found: ".to_owned();
    msg.append(rref);
    Err(UserError::Validation(msg))
}

/// Settles a workspace prefix search, like `pick_unique_repo`.
pub fn pick_unique_workspace(mut rows: Vec<WorkspaceRow>, wref: &str) -> (r: Result<
    WorkspaceRow,
    UserError,
>)
    ensures
        rows@.len() == 1 <==> r is Ok,
        r matches Ok(row) ==> row == rows@[0],
        r matches Err(e) ==> (e matches UserError::Validation(m) && (m@
            == "workspace not found: "@ + wref@ || m@ == "ambiguous workspace reference: "@
            + wref@)),
        r matches Err(e) ==> (rows@.len() == 0 ==> (e matches UserError::Validation(m) && m@
            == "workspace not found: "@ + wref@)) && (rows@.len() > 1 ==> (
        e matches UserError::Validation(m) && m@ == "ambiguous workspace reference: "@
            + wref@)),
{
    if rows.len() == 1 {
        let row = rows.remove(0);
        return Ok(row);
    }
    if rows.len() > 1 {
        let mut msg = "ambiguous workspace reference: ".to_owned();
        msg.append(wref);
        return Err(UserError::Validation(msg));
    }
    let mut msg = "workspace not found: ".to_owned();
    msg.append(wref);
    Err(UserError::Validation(msg))
}

/// Resolves a repository reference: an exact id, an exact name, or an id
/// prefix that matches exactly one row. Whatever the store holds, a failure
/// is a store error, `repo not found` naming the reference, or `ambiguous
/// repo reference` naming it.
pub fn get_repo(conn: &rusqlite::Connection, rref: &str) -> (r: Result<Repo, UserError>)
    ensures
        r matches Err(e) ==> (e is Database || (e matches UserError::Validation(m) && (m@
            == "repo not found: "@ + rref@ || m@ == "ambiguous repo reference: "@ + rref@))),
{
    match map_db(sql_repo_by_id(conn, rref)) {
        Ok(Some(repo)) => {
            return Ok(repo);
        },
        Ok(None) => {},
        Err(e) => {
            return Err(e);
        },
    }
    match map_db(sql_repo_by_name(conn, rref)) {
        Ok(Some(repo)) => {
            return Ok(repo);
        },
        Ok(None) => {},
        Err(e) => {
            return Err(e);
        },
    }
    let rows = match map_db(sql_repos_by_prefix(conn, rref)) {
        Ok(rows) => rows,
        Err(e) => {
            return Err(e);
        },
    };
    pick_unique_repo(rows, rref)
}

/// Resolves a workspace reference: an exact id, or an id prefix that
/// matches exactly one row. Whatever the store holds, a failure is a store
/// error, `workspace not found` naming the reference, or `ambiguous
/// workspace reference` naming it.
pub fn get_workspace(conn: &rusqlite::Connection, wref: &str) -> (r: Result<
    WorkspaceRow,
    UserError,
>)
    ensures
        r matches Err(e) ==> (e is Database || (e matches UserError::Validation(m) && (m@
            == "workspace not found: "@ + wref@ || m@ == "ambiguous workspace reference: "@
            + wref@))),
{
    match map_db(sql_workspace_by_id(conn, wref)) {
        Ok(Some(row)) => {
            return Ok(row);
        },
        Ok(None) => {},
        Err(e) => {
            return Err(e);
        },
    }
    let rows = match map_db(sql_workspaces_by_prefix(conn, wref)) {
        Ok(rows) => rows,
        Err(e) => {
            return Err(e);
        },
    };
    pick_unique_workspace(rows, wref)
}

/// Every registered repository, most recent first. A failure is a store
/// error.
pub fn repo_list(conn: &rusqlite::Connection) -> (r: Result<Vec<Repo>, UserError>)
    ensures
        r matches Err(e) ==> e is Database,
{
    map_db(sql_repos_all(conn))
}

/// The workspaces, most recent first, optionally narrowed to one
/// repository reference. A failure is a store error or, with a filter, the
/// filter's resolution error.
pub fn workspace_list(conn: &rusqlite::Connection, repo_filter: Option<&String>) -> (r: Result<
    Vec<Workspace>,
    UserError,
>)
    ensures
        r matches Err(e) ==> (e is Database || (repo_filter matches Some(rref) && (
        e matches UserError::Validation(m) && (m@ == "repo not found: "@ + rref@ || m@
            == "ambiguous repo reference: "@ + rref@)))),
{
    match repo_filter {
        Some(rref) => {
            let repo = match get_repo(conn, rref.as_str()) {
                Ok(repo) => repo,
                Err(e) => {
                    return Err(e);
                },
            };
            let mut sql = SQL_WS_LIST.to_owned();
            sql.append(" WHERE w.repository_id = ? ORDER BY w.created_at DESC");
            let mut params: Vec<String> = Vec::new();
            params.push(repo.id);
            map_db(sql_query_workspaces(conn, sql.as_str(), &params))
        },
        None => {
            let mut sql = SQL_WS_LIST.to_owned();
            sql.append(" ORDER BY w.created_at DESC");
            let params: Vec<String> = Vec::new();
            map_db(sql_query_workspaces(conn, sql.as_str(), &params))
        },
    }
}

/// The row a fresh registration inserts: the given id and root, the chosen
/// name, the caller's default branch (else the probed head branch, else
/// `main`), and the remote.
pub fn fresh_repo(
    id: String,
    root_path: &str,
    reg_name: String,
    default_branch: Option<&String>,
    head_branch: Option<&String>,
    remote_url: Option<String>,
) -> (r: Repo)
    ensures
        r.id@ == id@,
        r.root_path@ == root_path@,
        r.name@ == reg_name@,
        r.default_branch@ == (match default_branch {
            Some(b) => b@,
            None => match head_branch {
                Some(h) => h@,
                None => "main"@,
            },
        }),
        crate::events::opt_view(r.remote_url) == crate::events::opt_view(remote_url),
{
    let branch: String = match default_branch {
        Some(b) => b.clone(),
        None => match head_branch {
            Some(h) => h.clone(),
            None => "main".to_owned(),
        },
    };
    Repo { id, name: reg_name, root_path: root_path.to_owned(), default_branch: branch, remote_url }
}

/// Whether `m` reports that `reg_name` is already registered, naming the
/// root that holds it.
pub open spec fn is_name_taken_message(m: Seq<char>, reg_name: Seq<char>) -> bool {
    exists|held: Seq<char>|
        m == "repo name already registered: "@ + reg_name + " ("@ + held + ")"@
}

/// Registers a repository whose facts the caller gathered from the
/// version-control tool: root path, remote, and current branch. An already
/// registered root is returned as it stands, so registering twice is
/// idempotent; a taken name is an error naming it and the root that holds
/// it; a returned repository always sits at the given root. A fresh
/// registration inserts and returns exactly the row `fresh_repo` states;
/// whether the root was already registered is the store's answer, so the
/// contract does not restate which of the two rows came back.
pub fn repo_register(
    conn: &rusqlite::Connection,
    root_path: &str,
    name: Option<&String>,
    default_branch: Option<&String>,
    remote_url: Option<String>,
    head_branch: Option<&String>,
) -> (r: Result<Repo, UserError>)
    ensures
        r matches Ok(repo) ==> repo.root_path@ == root_path@,
        r matches Err(e) ==> (e is Database || (e matches UserError::Validation(m)
            && is_name_taken_message(m@, match name {
            Some(n) => n@,
            None => crate::naming::tail_after_last(root_path@, '/'),
        }))),
{
    match map_db(sql_repo_by_root(conn, root_path)) {
        Ok(Some(repo)) => {
            return Ok(repo);
        },
        Ok(None) => {},
        Err(e) => {
            return Err(e);
        },
    }
    let reg_name: String = match name {
        Some(n) => n.clone(),
        None => crate::naming::last_segment(root_path),
    };
    match map_db(sql_repo_by_name(conn, reg_name.as_str())) {
        Ok(Some(existing)) => {
            let mut msg = "repo name already registered: ".to_owned();
            msg.append(reg_name.as_str());
            msg.append(" (");
            msg.append(existing.root_path.as_str());
            msg.append(")");
            proof {
                let ghost spec_name = match name {
                    Some(n) => n@,
                    None => crate::naming::tail_after_last(root_path@, '/'),
                };
                assert(reg_name@ == spec_name);
                assert(msg@ =~= "repo name already registered: "@ + spec_name + " ("@
                    + existing.root_path@ + ")"@);
                assert(is_name_taken_message(msg@, spec_name)) by {
                    assert(msg@ == "repo name already registered: "@ + spec_name + " ("@
                        + existing.root_path@ + ")"@);
                }
            }
            return Err(UserError::Validation(msg));
        },
        Ok(None) => {},
        Err(e) => {
            return Err(e);
        },
    }
    let repo = fresh_repo(
        fresh_uuid(),
        root_path,
        reg_name,
        default_branch,
        head_branch,
        remote_url,
    );
    if let Err(e) = map_db(sql_repo_insert(conn, &repo)) {
        return Err(e);
    }
    Ok(repo)
}

/// Inserts a new workspace row in state `ready`. A failure is a store
/// error.
pub fn workspace_insert(
    conn: &rusqlite::Connection,
    id: &str,
    repo_id: &str,
    dir_name: &str,
    path: &str,
    branch: &str,
    base_branch: &str,
) -> (r: Result<(), UserError>)
    ensures
        r matches Err(e) ==> e is Database,
{
    map_db(sql_workspace_insert(conn, id, repo_id, dir_name, path, branch, base_branch))
}

/// Marks a workspace row archived. A failure is a store error.
pub fn workspace_set_archived(conn: &rusqlite::Connection, id: &str) -> (r: Result<
    (),
    UserError,
>)
    ensures
        r matches Err(e) ==> e is Database,
{
    map_db(sql_workspace_set_archived(conn, id))
}

/// Draws a city name not in `used`: up to two hundred uniform draws from
/// the fixed list; the first sanitized city the list of taken names does
/// not hold wins. `None` when every draw came up taken.
pub fn pick_city_name(used: &Vec<String>) -> (r: Option<String>)
    ensures
        r matches Some(name) ==> ((exists|i: int|
            0 <= i < spec_cities().len() && name@ == spec_safe_dir_name(
                #[trigger] spec_cities()[i],
            )) && name@.len() > 0 && !used.deep_view().contains(name@)),
{
    let pool = cities();
    proof {
        assert(pool@.len() == spec_cities().len());
        assert(spec_cities().len() > 0);
    }
    let mut tries: usize = 0;
    while tries < 200
        invariant
            pool.deep_view() == spec_cities(),
            pool@.len() > 0,
        decreases 200 - tries,
    {
        let idx = random_below(pool.len());
        let safe = safe_dir_name(pool[idx]);
        if safe.as_str().unicode_len() > 0 && !contains_str(used, safe.as_str()) {
            proof {
                assert(pool.deep_view()[idx as int] == pool@[idx as int]@);
                assert(safe@ == spec_safe_dir_name(spec_cities()[idx as int]));
            }
            return Some(safe);
        }
        tries += 1;
    }
    None
}

/// Draws an unused directory name for a new workspace: a city name this
/// repository has not taken (`pick_city_name` states the unusedness over
/// the taken list), with `ws-` before eight characters of a fresh id as
/// the fallback after two hundred futile draws.
pub fn auto_workspace_name(conn: &rusqlite::Connection, repo_id: &str) -> (r: Result<
    String,
    UserError,
>)
    ensures
        match r {
            Ok(name) => (exists|i: int|
                0 <= i < spec_cities().len() && name@ == spec_safe_dir_name(
                    #[trigger] spec_cities()[i],
                ) && name@.len() > 0) || (name@.len() == 11 && name@.subrange(0, 3) == "ws-"@),
            Err(e) => e is Database,
        },
{
    let used = match map_db(sql_workspace_dirnames(conn, repo_id)) {
        Ok(u) => u,
        Err(e) => {
            return Err(e);
        },
    };
    match pick_city_name(&used) {
        Some(name) => Ok(name),
        None => {
            let id = fresh_uuid();
            let mut name = "ws-".to_owned();
            name.append(id.as_str().substring_char(0, 8));
            proof {
                reveal_strlit("ws-");
                assert("ws-"@.len() == 3);
                assert(name@.len() == 11);
                assert(name@.subrange(0, 3) =~= "ws-"@);
            }
            Ok(name)
        },
    }
}

} // verus!
