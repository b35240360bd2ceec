//! The registry's data types, the crate's error type, the on-disk layout,
//! and the sidecar's session and chat formats.

use vstd::prelude::*;

use crate::json::{dv_pairs, pairs0, push_pair, JsonVal, JsonValue};
use crate::strutil::{str_eq, str_trim_ws, trim_ws};

verus! {

/// The crate's error: a failed external command, a store failure, a
/// filesystem failure, or a rejected input.
#[derive(Debug, PartialEq)]
pub enum UserError {
    Command { area: String, command: String, message: String },
    Database(String),
    Filesystem(String),
    Validation(String),
}

/// The user-facing text of an error.
pub open spec fn spec_error_message(e: UserError) -> Seq<char> {
    match e {
        UserError::Command { area, command, message } => area@ + ": "@ + message@ + "\n$ "@
            + command@,
        UserError::Database(m) => "db: "@ + m@,
        UserError::Filesystem(m) => "fs: "@ + m@,
        UserError::Validation(m) => m@,
    }
}

impl UserError {
    /// Renders the error for display.
    pub fn message(&self) -> (r: String)
        ensures
            r@ == spec_error_message(*self),
    {
        match self {
            UserError::Command { area, command, message } => {
                let mut out = area.clone();
                out.append(": ");
                out.append(message.as_str());
                out.append("\n$ ");
                out.append(command.as_str());
                proof {
                    assert(out@ =~= spec_error_message(*self));
                }
                out
            },
            UserError::Database(m) => {
                let mut out = "db: ".to_owned();
                out.append(m.as_str());
                proof {
                    assert(out@ =~= spec_error_message(*self));
                }
                out
            },
            UserError::Filesystem(m) => {
                let mut out = "fs: ".to_owned();
                out.append(m.as_str());
                proof {
                    assert(out@ =~= spec_error_message(*self));
                }
                out
            },
            UserError::Validation(m) => m.clone(),
        }
    }
}

/// A registered repository.
#[derive(Debug, PartialEq)]
pub struct Repo {
    pub id: String,
    pub name: String,
    pub root_path: String,
    pub default_branch: String,
    pub remote_url: Option<String>,
}

/// The state of a workspace.
#[derive(Clone, Copy, Debug, PartialEq, Eq, Structural)]
pub enum WorkspaceState {
    Ready,
    Archived,
    Error,
}

impl WorkspaceState {
    /// The state's column value.
    pub fn as_str(self) -> (r: &'static str)
        ensures
            r@ == self.name(),
    {
        match self {
            WorkspaceState::Ready => "ready",
            WorkspaceState::Archived => "archived",
            WorkspaceState::Error => "error",
        }
    }

    /// The state's column value, as a sequence.
    pub open spec fn name(self) -> Seq<char> {
        match self {
            WorkspaceState::Ready => "ready"@,
            WorkspaceState::Archived => "archived"@,
            WorkspaceState::Error => "error"@,
        }
    }

    /// Reads a state back from its column value, if and only if it is one
    /// of the three states' values.
    pub fn parse(s: &str) -> (r: Option<WorkspaceState>)
        ensures
            match r {
                Some(w) => s@ == w.name(),
                None => s@ != "ready"@ && s@ != "archived"@ && s@ != "error"@,
            },
    {
        if str_eq(s, "ready") {
            Some(WorkspaceState::Ready)
        } else if str_eq(s, "archived") {
            Some(WorkspaceState::Archived)
        } else if str_eq(s, "error") {
            Some(WorkspaceState::Error)
        } else {
            None
        }
    }
}

/// A branch-scoped working copy of a repository.
#[derive(Debug, PartialEq)]
pub struct Workspace {
    pub id: String,
    pub repo_id: String,
    pub repo: String,
    pub name: String,
    pub branch: String,
    pub base_branch: String,
    pub state: WorkspaceState,
    pub path: String,
}

/// What archiving a workspace reported.
#[derive(Debug, PartialEq)]
pub struct ArchiveResult {
    pub id: String,
    pub ok: bool,
    pub removed: bool,
    pub message: String,
}

/// One changed file in a workspace, relative to its base reference.
#[derive(Debug, PartialEq)]
pub struct WorkspaceChange {
    pub old_path: Option<String>,
    pub path: String,
    pub status: String,
}

/// The view of a change.
pub struct ChangeV {
    pub old_path: Option<Seq<char>>,
    pub path: Seq<char>,
    pub status: Seq<char>,
}

impl WorkspaceChange {
    /// The view of the change.
    pub open spec fn dv(self) -> ChangeV {
        ChangeV {
            old_path: crate::events::opt_view(self.old_path),
            path: self.path@,
            status: self.status@,
        }
    }
}

/// The session sidecar's content.
#[derive(Debug, PartialEq)]
pub struct SessionState {
    pub agent_id: String,
    pub resume_id: Option<String>,
    pub started_at: String,
    pub updated_at: String,
}

/// One chat message, as the chat log stores it.
#[derive(Debug, PartialEq)]
pub struct ChatEntry {
    pub role: String,
    pub content: String,
    pub timestamp: String,
}

/// The registry file under a home directory.
pub fn db_path(home: &str) -> (r: String)
    ensures
        r@ == home@ + "/conductor.db"@,
{
    let mut out = home.to_owned();
    out.append("/conductor.db");
    out
}

/// The sidecar directory inside a workspace.
pub fn conductor_app_path(ws_path: &str) -> (r: String)
    ensures
        r@ == ws_path@ + "/.conductor-app"@,
{
    let mut out = ws_path.to_owned();
    out.append("/.conductor-app");
    out
}

/// The session file inside a workspace.
pub fn session_file_path(ws_path: &str) -> (r: String)
    ensures
        r@ == ws_path@ + "/.conductor-app/session.json"@,
{
    let mut out = ws_path.to_owned();
    out.append("/.conductor-app/session.json");
    out
}

/// The chat log inside a workspace.
pub fn chat_file_path(ws_path: &str) -> (r: String)
    ensures
        r@ == ws_path@ + "/.conductor-app/chat.md"@,
{
    let mut out = ws_path.to_owned();
    out.append("/.conductor-app/chat.md");
    out
}

/// The global archive directory for one workspace's sidecar, under a
/// timestamp.
pub fn archive_dir_path(home: &str, ws_id: &str, timestamp: &str) -> (r: String)
    ensures
        r@ == home@ + "/.conductor-app/archive/"@ + ws_id@ + "/"@ + timestamp@,
{
    let mut out = home.to_owned();
    out.append("/.conductor-app/archive/");
    out.append(ws_id);
    out.append("/");
    out.append(timestamp);
    proof {
        assert(out@ =~= home@ + "/.conductor-app/archive/"@ + ws_id@ + "/"@ + timestamp@);
    }
    out
}

/// A path separator, on either convention.
pub open spec fn is_sep(c: char) -> bool {
    c == '/' || c == '\\'
}

/// Whether a component of `t` is the parent directory.
pub open spec fn has_dotdot(t: Seq<char>) -> bool {
    exists|i: int|
        0 <= i && i + 2 <= t.len() && (i == 0 || is_sep(t[i - 1])) && (i + 2 == t.len() || is_sep(
            t[i + 2],
        )) && #[trigger] t[i] == '.' && t[i + 1] == '.'
}

/// Whether `t` opens with a drive prefix: an ASCII letter, a colon, and
/// then nothing or a separator.
pub open spec fn has_drive(t: Seq<char>) -> bool {
    t.len() >= 2 && (('a' <= t[0] && t[0] <= 'z') || ('A' <= t[0] && t[0] <= 'Z')) && t[1] == ':'
        && (t.len() == 2 || is_sep(t[2]))
}

/// Whether `t` escapes a workspace: it is rooted, walks to a parent
/// directory, or names a drive.
pub open spec fn is_unsafe_rel(t: Seq<char>) -> bool {
    is_sep(t[0]) || has_dotdot(t) || has_drive(t)
}

/// Accepts only a safe relative path: trimmed, non-empty, not rooted, with
/// no parent-directory component and no drive prefix. The policy is the
/// same on every platform: both `/` and `\\` count as separators, and a
/// drive prefix is a letter and a colon opening the path; a colon later in
/// a name is an ordinary character. Rejected inputs never reach the
/// filesystem.
/// Decides `has_dotdot`.
#[verifier::loop_isolation(false)]
#[verifier::rlimit(60)]
fn check_dotdot(ts: &str) -> (r: bool)
    ensures
        r == has_dotdot(ts@),
{
    let len = ts.unicode_len();
    if len < 2 {
        proof {
            assert(!has_dotdot(ts@));
        }
        return false;
    }
    let mut i: usize = 0;
    while i <= len - 2
        invariant
            len == ts@.len(),
            2 <= len,
            0 <= i <= len - 1,
            forall|k: int|
                0 <= k < i ==> !((k == 0 || is_sep(ts@[k - 1])) && (k + 2 == len || is_sep(
                    ts@[k + 2],
                )) && #[trigger] ts@[k] == '.' && ts@[k + 1] == '.'),
        decreases len - i,
    {
        let before_ok = if i == 0 {
            true
        } else {
            let b = ts.get_char(i - 1);
            b == '/' || b == '\\'
        };
        let after_ok = if i + 2 == len {
            true
        } else {
            let a = ts.get_char(i + 2);
            a == '/' || a == '\\'
        };
        if before_ok && after_ok && ts.get_char(i) == '.' && ts.get_char(i + 1) == '.' {
            return true;
        }
        i += 1;
    }
    proof {
        assert(!has_dotdot(ts@));
    }
    false
}

/// Decides `has_drive`.
fn check_drive(ts: &str) -> (r: bool)
    ensures
        r == has_drive(ts@),
{
    let len = ts.unicode_len();
    if len < 2 {
        return false;
    }
    let c0 = ts.get_char(0);
    let alpha = ('a' <= c0 && c0 <= 'z') || ('A' <= c0 && c0 <= 'Z');
    if !alpha || ts.get_char(1) != ':' {
        return false;
    }
    if len == 2 {
        return true;
    }
    let c2 = ts.get_char(2);
    c2 == '/' || c2 == '\\'
}

pub fn safe_workspace_relpath(path: &str) -> (r: Result<String, UserError>)
    ensures
        ({
            let t = trim_ws(path@);
            match r {
                Ok(p) => p@ == t && t.len() > 0 && !is_unsafe_rel(t),
                Err(e) => if t.len() == 0 {
                    e matches UserError::Validation(m) && m@ == "file path is required"@
                } else {
                    is_unsafe_rel(t) && (e matches UserError::Validation(m) && m@
                        == "file path must be relative"@)
                },
            }
        }),
{
    let t = str_trim_ws(path);
    let len = t.as_str().unicode_len();
    if len == 0 {
        return Err(UserError::Validation("file path is required".to_owned()));
    }
    let c0 = t.as_str().get_char(0);
    if c0 == '/' || c0 == '\\' {
        return Err(UserError::Validation("file path must be relative".to_owned()));
    }
    if check_dotdot(t.as_str()) {
        return Err(UserError::Validation("file path must be relative".to_owned()));
    }
    if check_drive(t.as_str()) {
        return Err(UserError::Validation("file path must be relative".to_owned()));
    }
    Ok(t)
}

/// The absolute location of a file inside a workspace, after the relative
/// path has been accepted.
pub fn workspace_file_path(ws_path: &str, file_path: &str) -> (r: Result<String, UserError>)
    ensures
        ({
            let t = trim_ws(file_path@);
            match r {
                Ok(p) => p@ == ws_path@ + "/"@ + t && t.len() > 0 && !is_unsafe_rel(t),
                Err(e) => if t.len() == 0 {
                    e matches UserError::Validation(m) && m@ == "file path is required"@
                } else {
                    is_unsafe_rel(t) && (e matches UserError::Validation(m) && m@
                        == "file path must be relative"@)
                },
            }
        }),
{
    let rel = match safe_workspace_relpath(file_path) {
        Ok(p) => p,
        Err(e) => {
            return Err(e);
        },
    };
    let mut out = ws_path.to_owned();
    out.append("/");
    out.append(rel.as_str());
    proof {
        assert(out@ =~= ws_path@ + "/"@ + trim_ws(file_path@));
    }
    Ok(out)
}

/// The session file's JSON value: the agent, the optional resume token, and
/// the two timestamps.
pub open spec fn spec_session_json(s: SessionState) -> JsonVal {
    JsonVal::Obj(
        seq![
            ("agent_id"@, JsonVal::Str(s.agent_id@)),
            (
                "resume_id"@,
                match s.resume_id {
                    Some(r) => JsonVal::Str(r@),
                    None => JsonVal::Null,
                },
            ),
            ("started_at"@, JsonVal::Str(s.started_at@)),
            ("updated_at"@, JsonVal::Str(s.updated_at@)),
        ],
    )
}

/// Builds the session file's JSON value.
pub fn session_to_json(s: &SessionState) -> (r: JsonValue)
    ensures
        r.dv() == spec_session_json(*s),
{
    let mut o = pairs0();
    push_pair(&mut o, "agent_id", JsonValue::Str(s.agent_id.clone()));
    match &s.resume_id {
        Some(rid) => push_pair(&mut o, "resume_id", JsonValue::Str(rid.clone())),
        None => push_pair(&mut o, "resume_id", JsonValue::Null),
    }
    push_pair(&mut o, "started_at", JsonValue::Str(s.started_at.clone()));
    push_pair(&mut o, "updated_at", JsonValue::Str(s.updated_at.clone()));
    proof {
        assert(dv_pairs(o@) =~= spec_session_json(*s)->Obj_0);
    }
    JsonValue::Obj(o)
}

/// The session a JSON value describes, when its required fields are there.
pub open spec fn spec_session_of_json(v: JsonVal) -> Option<
    (Seq<char>, Option<Seq<char>>, Seq<char>, Seq<char>),
> {
    match (v.get_str("agent_id"@), v.get_str("started_at"@), v.get_str("updated_at"@)) {
        (Some(agent), Some(started), Some(updated)) => {
            let resume = match v.get("resume_id"@) {
                Some(r) => match r.as_str() {
                    Some(s) => Some(Some(s)),
                    None => if r is Null {
                        Some(None)
                    } else {
                        None
                    },
                },
                None => Some(None),
            };
            match resume {
                Some(rz) => Some((agent, rz, started, updated)),
                None => None,
            }
        },
        _ => None,
    }
}

/// Reads a session back from its JSON value; malformed content is an error.
pub fn session_of_json(v: &JsonValue) -> (r: Result<SessionState, UserError>)
    ensures
        match r {
            Ok(s) => spec_session_of_json(v.dv()) == Some(
                (
                    s.agent_id@,
                    crate::events::opt_view(s.resume_id),
                    s.started_at@,
                    s.updated_at@,
                ),
            ),
            Err(e) => spec_session_of_json(v.dv()) is None && (e matches UserError::Validation(
                m,
            ) && m@ == "failed to parse session.json"@),
        },
{
    let agent = match v.get_string("agent_id") {
        Some(a) => a.clone(),
        None => {
            return Err(UserError::Validation("failed to parse session.json".to_owned()));
        },
    };
    let started = match v.get_string("started_at") {
        Some(a) => a.clone(),
        None => {
            return Err(UserError::Validation("failed to parse session.json".to_owned()));
        },
    };
    let updated = match v.get_string("updated_at") {
        Some(a) => a.clone(),
        None => {
            return Err(UserError::Validation("failed to parse session.json".to_owned()));
        },
    };
    let resume: Option<String> = match v.get("resume_id") {
        Some(rv) => match rv.as_string() {
            Some(s) => Some(s.clone()),
            None => match rv {
                JsonValue::Null => None,
                _ => {
                    return Err(
                        UserError::Validation("failed to parse session.json".to_owned()),
                    );
                },
            },
        },
        None => None,
    };
    Ok(SessionState { agent_id: agent, resume_id: resume, started_at: started, updated_at: updated })
}

/// A fresh session: both timestamps are the creation instant.
pub fn session_new(agent_id: &str, now: &str) -> (r: SessionState)
    ensures
        r.agent_id@ == agent_id@,
        r.resume_id is None,
        r.started_at@ == now@,
        r.updated_at@ == now@,
{
    SessionState {
        agent_id: agent_id.to_owned(),
        resume_id: None,
        started_at: now.to_owned(),
        updated_at: now.to_owned(),
    }
}

/// A session with its resume token set and its update instant stamped.
pub fn session_with_resume(s: &SessionState, resume_id: &str, now: &str) -> (r: SessionState)
    ensures
        r.agent_id@ == s.agent_id@,
        crate::events::opt_view(r.resume_id) == Some(resume_id@),
        r.started_at@ == s.started_at@,
        r.updated_at@ == now@,
{
    SessionState {
        agent_id: s.agent_id.clone(),
        resume_id: Some(resume_id.to_owned()),
        started_at: s.started_at.clone(),
        updated_at: now.to_owned(),
    }
}

/// The session after setting a resume token: an existing session gets the
/// token and a new update instant; without a session there is nothing to
/// update, and the call is refused.
pub fn session_set_resume(prev: Option<SessionState>, resume_id: &str, now: &str) -> (r: Result<
    SessionState,
    UserError,
>)
    ensures
        match prev {
            Some(p) => r matches Ok(s) && s.agent_id@ == p.agent_id@ && crate::events::opt_view(
                s.resume_id,
            ) == Some(resume_id@) && s.started_at@ == p.started_at@ && s.updated_at@ == now@,
            None => r matches Err(e) && (e matches UserError::Validation(m) && m@
                == "no session found"@),
        },
{
    match prev {
        Some(p) => Ok(session_with_resume(&p, resume_id, now)),
        None => Err(UserError::Validation("no session found".to_owned())),
    }
}

/// The session after an upsert: an existing one gets the token and a new
/// update instant; where none exists, a fresh one starts with the token.
pub fn session_upsert(
    prev: Option<SessionState>,
    agent_id: &str,
    resume_id: &str,
    now: &str,
) -> (r: SessionState)
    ensures
        crate::events::opt_view(r.resume_id) == Some(resume_id@),
        r.updated_at@ == now@,
        match prev {
            Some(p) => r.agent_id@ == p.agent_id@ && r.started_at@ == p.started_at@,
            None => r.agent_id@ == agent_id@ && r.started_at@ == now@,
        },
{
    match prev {
        Some(p) => session_with_resume(&p, resume_id, now),
        None => SessionState {
            agent_id: agent_id.to_owned(),
            resume_id: Some(resume_id.to_owned()),
            started_at: now.to_owned(),
            updated_at: now.to_owned(),
        },
    }
}

/// One chat-log section: the role and instant as a heading, the content,
/// and a rule.
pub open spec fn spec_chat_entry(role: Seq<char>, ts: Seq<char>, content: Seq<char>) -> Seq<char> {
    "## "@ + role + " ("@ + ts + ")\n\n"@ + content + "\n\n---\n\n"@
}

/// Renders one chat-log section.
pub fn chat_entry(role: &str, timestamp: &str, content: &str) -> (r: String)
    ensures
        r@ == spec_chat_entry(role@, timestamp@, content@),
{
    let mut out = "## ".to_owned();
    out.append(role);
    out.append(" (");
    out.append(timestamp);
    out.append(")\n\n");
    out.append(content);
    out.append("\n\n---\n\n");
    proof {
        assert(out@ =~= spec_chat_entry(role@, timestamp@, content@));
    }
    out
}

} // verus!
