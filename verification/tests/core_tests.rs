use conductor::json::JsonValue;
use conductor::lifecycle::{
    archive_message, archive_plan, resolve_base_ref, workspace_changes, workspace_files,
};
use conductor::naming::{command_error_message, format_command, repo_name_from_url, safe_dir_name};
use conductor::parser::{decode_json, render_json};
use conductor::registry::{auto_workspace_name, connect, get_repo, repo_register, workspace_insert,
    workspace_list, workspace_set_archived};
use conductor::store::{
    chat_entry, conductor_app_path, db_path, safe_workspace_relpath, session_new, session_of_json,
    session_to_json, session_upsert, session_with_resume, workspace_file_path, SessionState,
    UserError, WorkspaceState,
};
use conductor::strutil::{i64_to_dec, join_strings, split_string, str_le, u64_to_dec};
use conductor::supervisor::{agent_command, attach_gate, extract_resume_tokens, run_gate, stop_gate, RoutedLine};
use conductor::events::Engine;

#[test]
fn safe_dir_name_sanitizes() {
    assert_eq!(safe_dir_name("My Repo"), "my-repo");
    assert_eq!(safe_dir_name("  Hello  World  "), "hello--world");
    assert_eq!(safe_dir_name("weird***"), "weird");
    assert_eq!(safe_dir_name("***"), "repo");
    assert_eq!(safe_dir_name("-dashes-"), "dashes");
    assert_eq!(safe_dir_name("A_b.C-9"), "a_b.c-9");
}

#[test]
fn repo_name_from_url_takes_tail() {
    assert_eq!(repo_name_from_url("https://example.com/owner/project.git"), "project");
    assert_eq!(repo_name_from_url("git@host:owner/tool.git"), "tool");
    assert_eq!(repo_name_from_url("https://example.com/solo/"), "solo");
    assert_eq!(repo_name_from_url("   "), "repo");
}

#[test]
fn relative_paths_are_validated() {
    assert!(safe_workspace_relpath("src/lib.rs").is_ok());
    assert!(safe_workspace_relpath("a b/c.txt").is_ok());
    assert_eq!(
        safe_workspace_relpath(""),
        Err(UserError::Validation("file path is required".to_string()))
    );
    let rejected = Err(UserError::Validation("file path must be relative".to_string()));
    assert_eq!(safe_workspace_relpath(".."), rejected);
    assert_eq!(safe_workspace_relpath("a/../b"), rejected);
    assert_eq!(safe_workspace_relpath("../etc/passwd"), rejected);
    assert_eq!(safe_workspace_relpath("/etc/passwd"), rejected);
    assert_eq!(safe_workspace_relpath("\\\\server\\share"), rejected);
    assert_eq!(safe_workspace_relpath("C:\\windows"), rejected);
    assert_eq!(safe_workspace_relpath("a..b/c").is_ok(), true);
    assert_eq!(safe_workspace_relpath("a:b").is_ok(), true);
    assert_eq!(safe_workspace_relpath("note:draft.txt").is_ok(), true);
    assert_eq!(safe_workspace_relpath("c:/x"), rejected);
    assert_eq!(safe_workspace_relpath("C:"), rejected);
    assert_eq!(
        workspace_file_path("/ws", "src/main.rs"),
        Ok("/ws/src/main.rs".to_string())
    );
    assert_eq!(workspace_file_path("/ws", "../x"), rejected);
}

#[test]
fn change_lists_merge_in_order() {
    let diff = "M\0a.rs\0R100\0old.rs\0new.rs\0";
    let untracked = "notes.txt\0a.rs\0".to_string();
    let modified = "M\0a.rs\0M\0b.rs\0".to_string();
    let changes = workspace_changes(diff, Some(&untracked), Some(&modified));
    let flat: Vec<(Option<&str>, &str, &str)> = changes
        .iter()
        .map(|c| (c.old_path.as_deref(), c.path.as_str(), c.status.as_str()))
        .collect();
    assert_eq!(
        flat,
        vec![
            (None, "a.rs", "M"),
            (Some("old.rs"), "new.rs", "R100"),
            (None, "notes.txt", "?"),
            (None, "b.rs", "M"),
        ]
    );
}

#[test]
fn file_lists_sort_and_dedup() {
    let files = workspace_files("b.rs\0a.rs\0", Some(&"c.txt\0a.rs\0".to_string()));
    assert_eq!(files, vec!["a.rs", "b.rs", "c.txt"]);
}

#[test]
fn base_ref_resolution() {
    assert_eq!(resolve_base_ref("main", true, &vec![]), Ok("main".to_string()));
    assert_eq!(
        resolve_base_ref("main", false, &vec!["up/main".to_string()]),
        Ok("up/main".to_string())
    );
    assert_eq!(
        resolve_base_ref(
            "main",
            false,
            &vec!["up/main".to_string(), "origin/main".to_string()]
        ),
        Ok("origin/main".to_string())
    );
    assert_eq!(
        resolve_base_ref("main", false, &vec!["up/main".to_string(), "alt/main".to_string()]),
        Err(UserError::Validation(
            "base branch is ambiguous across remotes: main (up/main, alt/main)".to_string()
        ))
    );
    assert_eq!(
        resolve_base_ref("main", false, &vec![]),
        Err(UserError::Validation("base branch not found: main".to_string()))
    );
}

#[test]
fn archive_decisions() {
    let refused = archive_plan(true, false, false);
    assert!(refused.refuse);
    assert!(!refused.remove);
    assert!(!refused.update_row);

    let forced = archive_plan(true, false, true);
    assert!(!forced.refuse);
    assert!(forced.remove);
    assert!(forced.remove_force);
    assert!(forced.update_row);

    let repeat = archive_plan(false, true, true);
    assert!(!repeat.remove);
    assert!(repeat.update_row);

    assert_eq!(archive_message(true, None, None), "archived");
    assert_eq!(archive_message(false, None, None), "workspace path already removed");
    assert_eq!(
        archive_message(true, Some(&"boom".to_string()), Some(&"gone".to_string())),
        "warning: failed to archive session data: boom (prune failed: gone)"
    );
}

#[test]
fn agent_commands_are_exact() {
    let (cmd, args) = agent_command("anthropic", "fix it", Some(&"r1".to_string())).unwrap();
    assert_eq!(cmd, "anthropic");
    assert_eq!(
        args,
        vec![
            "-p",
            "--output-format",
            "stream-json",
            "--verbose",
            "--dangerously-skip-permissions",
            "--resume",
            "r1",
            "--",
            "fix it",
        ]
    );
    let (cmd, args) = agent_command("codex", "hello", None).unwrap();
    assert_eq!(cmd, "codex");
    assert_eq!(args, vec!["--full-auto", "hello"]);
    let (cmd, args) = agent_command("gemini", "go", None).unwrap();
    assert_eq!(cmd, "gemini");
    assert_eq!(args, vec!["-m", "gemini-3-pro-preview", "--yolo", "go"]);
    assert_eq!(
        agent_command("mystery", "x", None),
        Err(UserError::Validation("Unknown engine: mystery".to_string()))
    );
}

#[test]
fn resume_tokens_are_found() {
    let line = "run `codex resume abc123` or anthropic --resume tok9 later";
    let found = extract_resume_tokens(line);
    assert_eq!(
        found,
        vec![
            (Engine::Codex, "abc123".to_string()),
            (Engine::Anthropic, "tok9".to_string()),
        ]
    );
}

#[test]
fn routing_forwards_opaque_json_in_envelope() {
    let mut p = conductor::parser::AgentParser::new();
    match conductor::supervisor::route_stdout_line(&mut p, "{\"weird\": 1}") {
        RoutedLine::Opaque(v) => {
            assert_eq!(
                v,
                JsonValue::Obj(vec![
                    ("type".to_string(), JsonValue::Str("json".to_string())),
                    (
                        "data".to_string(),
                        JsonValue::Obj(vec![("weird".to_string(), JsonValue::Int(1))]),
                    ),
                ])
            );
        }
        other => panic!("expected an opaque line, got {:?}", other),
    }
    match conductor::supervisor::route_stdout_line(&mut p, "plain text") {
        RoutedLine::Ignored => {}
        other => panic!("expected the line dropped, got {:?}", other),
    }
}

#[test]
fn session_gates_decide_by_membership() {
    let active = vec!["s1".to_string(), "s2".to_string()];
    assert_eq!(
        run_gate(&active, "s1"),
        Err(UserError::Validation("Agent session s1 is already running".to_string()))
    );
    assert_eq!(run_gate(&active, "s3"), Ok(()));
    assert_eq!(attach_gate(&active, "s2"), Ok(()));
    assert_eq!(
        attach_gate(&active, "s3"),
        Err(UserError::Validation("No running agent with session_id: s3".to_string()))
    );
    assert_eq!(stop_gate(&active, "s1"), Ok(()));
    assert_eq!(
        stop_gate(&active, "s3"),
        Err(UserError::Validation("No agent with that session_id".to_string()))
    );
}

#[test]
fn city_chooser_avoids_taken_names() {
    let none_taken: Vec<String> = vec![];
    let picked = conductor::registry::pick_city_name(&none_taken).expect("a draw");
    assert!(!picked.is_empty());

    let mut all_taken: Vec<String> = vec![];
    for city in conductor::naming::cities() {
        all_taken.push(conductor::naming::safe_dir_name(city));
    }
    assert_eq!(conductor::registry::pick_city_name(&all_taken), None);
}

#[test]
fn strings_render_and_split() {
    assert_eq!(u64_to_dec(0), "0");
    assert_eq!(u64_to_dec(40960), "40960");
    assert_eq!(i64_to_dec(-17), "-17");
    assert_eq!(format_command("git", &vec!["status".to_string(), "-s".to_string()]), "git status -s");
    assert_eq!(command_error_message("  bad  ", "out"), "bad");
    assert_eq!(command_error_message("  ", " fallback "), "fallback");
    assert_eq!(command_error_message("", ""), "command failed");
    assert_eq!(split_string("a\0\0b\0", '\0'), vec!["a", "b"]);
    assert!(str_le("apple", "banana"));
    assert!(!str_le("banana", "apple"));
    assert_eq!(
        join_strings(&vec!["x".to_string(), "y".to_string()], ", "),
        "x, y"
    );
}

#[test]
fn json_round_trip_through_serde() {
    let text = "{\"a\":[1,true,null,\"s\"],\"b\":{\"c\":-2}}";
    let v = decode_json(text).expect("valid json");
    let rendered = render_json(&v);
    let again = decode_json(&rendered).expect("valid json");
    assert_eq!(v, again);
    assert!(decode_json("{oops").is_none());
}

#[test]
fn session_json_round_trip() {
    let session = SessionState {
        agent_id: "anthropic".to_string(),
        resume_id: Some("r2".to_string()),
        started_at: "2024-01-01T00:00:00Z".to_string(),
        updated_at: "2024-01-02T00:00:00Z".to_string(),
    };
    let v = session_to_json(&session);
    let back = session_of_json(&v).expect("well formed");
    assert_eq!(back, session);

    let fresh = session_new("codex", "now");
    assert_eq!(fresh.resume_id, None);
    assert_eq!(fresh.started_at, "now");
    let with = session_with_resume(&fresh, "tok", "later");
    assert_eq!(with.resume_id.as_deref(), Some("tok"));
    assert_eq!(with.started_at, "now");
    assert_eq!(with.updated_at, "later");
    let upserted = session_upsert(None, "codex", "tok2", "t9");
    assert_eq!(upserted.agent_id, "codex");
    assert_eq!(upserted.resume_id.as_deref(), Some("tok2"));
    assert!(session_of_json(&JsonValue::Obj(vec![])).is_err());

    assert_eq!(
        conductor::store::session_set_resume(None, "tok", "t1"),
        Err(UserError::Validation("no session found".to_string()))
    );
    let set = conductor::store::session_set_resume(Some(fresh), "tok", "t1").expect("updated");
    assert_eq!(set.resume_id.as_deref(), Some("tok"));
    assert_eq!(set.updated_at, "t1");
}

#[test]
fn paths_and_chat_entries() {
    assert_eq!(db_path("/home/u/conductor"), "/home/u/conductor/conductor.db");
    assert_eq!(conductor_app_path("/ws"), "/ws/.conductor-app");
    assert_eq!(
        chat_entry("user", "2024-01-01T00:00:00Z", "hello"),
        "## user (2024-01-01T00:00:00Z)\n\nhello\n\n---\n\n"
    );
}

#[test]
fn error_messages_render() {
    assert_eq!(
        UserError::Command {
            area: "git".to_string(),
            command: "git status".to_string(),
            message: "boom".to_string(),
        }
        .message(),
        "git: boom\n$ git status"
    );
    assert_eq!(UserError::Database("locked".to_string()).message(), "db: locked");
    assert_eq!(UserError::Filesystem("denied".to_string()).message(), "fs: denied");
}

#[test]
fn workspace_state_round_trip() {
    assert_eq!(WorkspaceState::parse("ready"), Some(WorkspaceState::Ready));
    assert_eq!(WorkspaceState::parse("archived"), Some(WorkspaceState::Archived));
    assert_eq!(WorkspaceState::parse("error"), Some(WorkspaceState::Error));
    assert_eq!(WorkspaceState::parse("bogus"), None);
    assert_eq!(WorkspaceState::Ready.as_str(), "ready");
}

#[test]
fn registry_round_trip_in_memory() {
    let conn = connect(":memory:").expect("open and migrate");
    let repo = repo_register(
        &conn,
        "/tmp/demo-repo",
        Some(&"demo".to_string()),
        None,
        Some("https://example.com/demo.git".to_string()),
        Some(&"main".to_string()),
    )
    .expect("registered");
    assert_eq!(repo.name, "demo");
    assert_eq!(repo.default_branch, "main");

    let by_id = get_repo(&conn, &repo.id).expect("by id");
    assert_eq!(by_id, repo);
    let by_name = get_repo(&conn, "demo").expect("by name");
    assert_eq!(by_name.id, repo.id);
    let prefix: String = repo.id.chars().take(6).collect();
    let by_prefix = get_repo(&conn, &prefix).expect("by prefix");
    assert_eq!(by_prefix.id, repo.id);
    let missing = get_repo(&conn, "zz-no-such");
    assert_eq!(
        missing,
        Err(UserError::Validation("repo not found: zz-no-such".to_string()))
    );

    let again = repo_register(&conn, "/tmp/demo-repo", None, None, None, None).expect("idempotent");
    assert_eq!(again.id, repo.id);
    let clash = repo_register(
        &conn,
        "/tmp/other-root",
        Some(&"demo".to_string()),
        None,
        None,
        None,
    );
    assert_eq!(
        clash,
        Err(UserError::Validation(
            "repo name already registered: demo (/tmp/demo-repo)".to_string()
        ))
    );

    workspace_insert(&conn, "ws1", &repo.id, "tokyo", "/w/tokyo", "tokyo", "main")
        .expect("inserted");
    let listed = workspace_list(&conn, Some(&"demo".to_string())).expect("listed");
    assert_eq!(listed.len(), 1);
    assert_eq!(listed[0].name, "tokyo");
    assert_eq!(listed[0].state, WorkspaceState::Ready);

    workspace_set_archived(&conn, "ws1").expect("archived");
    let listed = workspace_list(&conn, None).expect("listed");
    assert_eq!(listed[0].state, WorkspaceState::Archived);

    let auto = auto_workspace_name(&conn, &repo.id).expect("drawn");
    assert!(!auto.is_empty());
    assert_ne!(auto, "tokyo");
}

#[test]
fn migration_plan_by_version() {
    assert_eq!(conductor::registry::migration_batches(3).unwrap().len(), 0);
    assert_eq!(conductor::registry::migration_batches(0).unwrap().len(), 1);
    assert_eq!(conductor::registry::migration_batches(1).unwrap().len(), 2);
    assert_eq!(conductor::registry::migration_batches(2).unwrap().len(), 1);
    assert_eq!(
        conductor::registry::migration_batches(7),
        Err(UserError::Validation("unsupported DB schema version: 7".to_string()))
    );
}

#[test]
fn workspace_planning_helpers() {
    let (name, branch) = conductor::lifecycle::derive_workspace_names(
        None,
        Some(&"feat/My Fix".to_string()),
        "tokyo",
    );
    assert_eq!(name, "my-fix");
    assert_eq!(branch, "feat/My Fix");
    let (name, branch) =
        conductor::lifecycle::derive_workspace_names(None, None, "tokyo");
    assert_eq!(name, "tokyo");
    assert_eq!(branch, "tokyo");

    let (repo_dir, path) = conductor::lifecycle::workspace_paths(
        "/home/u/conductor",
        "My Repo",
        "0123456789abcdef",
        "tokyo",
    );
    assert_eq!(repo_dir, "my-repo-01234567");
    assert_eq!(path, "/home/u/conductor/workspaces/my-repo-01234567/tokyo");

    let args = conductor::lifecycle::worktree_add_args("/w/t", "tokyo", false, "origin/main");
    assert_eq!(args, vec!["worktree", "add", "-b", "tokyo", "--", "/w/t", "origin/main"]);
    let args = conductor::lifecycle::worktree_add_args("/w/t", "tokyo", true, "origin/main");
    assert_eq!(args, vec!["worktree", "add", "--", "/w/t", "tokyo"]);
    let args = conductor::lifecycle::worktree_remove_args("/w/t", true);
    assert_eq!(args, vec!["worktree", "remove", "--force", "--", "/w/t"]);

    assert_eq!(
        conductor::lifecycle::archive_refusal_message("/w/t"),
        "workspace has uncommitted changes; commit or stash before archiving, or pass --force: /w/t"
    );
}
