use conductor::anthropic::AnthropicState;
use conductor::codex::CodexState;
use conductor::events::{Action, ActionKind, Engine, Event, Phase};
use conductor::json::JsonValue;
use conductor::parser::AgentParser;

fn obj(pairs: Vec<(&str, JsonValue)>) -> JsonValue {
    JsonValue::Obj(pairs.into_iter().map(|(k, v)| (k.to_string(), v)).collect())
}

fn s(text: &str) -> JsonValue {
    JsonValue::Str(text.to_string())
}

fn detail_get<'a>(action: &'a Action, key: &str) -> Option<&'a JsonValue> {
    action.detail.iter().find(|(k, _)| k == key).map(|(_, v)| v)
}

#[test]
fn codex_thread_started_emits_started() {
    let mut p = AgentParser::new();
    let v = obj(vec![("type", s("thread.started")), ("thread_id", s("t1"))]);
    let events = p.parse_value(&v).expect("recognized");
    assert_eq!(
        events,
        vec![Event::Started {
            engine: Engine::Codex,
            resume: "t1".to_string(),
            title: Some("Codex".to_string()),
            meta: None,
        }]
    );
}

#[test]
fn codex_command_completion_sequence() {
    let mut p = AgentParser::new();
    let started = p
        .parse_value(&obj(vec![("type", s("turn.started"))]))
        .expect("recognized");
    assert_eq!(
        started,
        vec![Event::Action {
            engine: Engine::Codex,
            phase: Phase::Started,
            action: Action {
                id: "turn:0".to_string(),
                kind: ActionKind::Turn,
                title: "turn started".to_string(),
                detail: vec![],
            },
            ok: None,
            message: None,
            level: None,
        }]
    );

    let item = obj(vec![(
        "item",
        obj(vec![
            ("type", s("command_execution")),
            ("id", s("c1")),
            ("command", s("ls")),
            ("status", s("completed")),
            ("exit_code", JsonValue::Int(0)),
        ]),
    ), ("type", s("item.completed"))]);
    let completed = p.parse_value(&item).expect("recognized");
    assert_eq!(
        completed,
        vec![Event::Action {
            engine: Engine::Codex,
            phase: Phase::Completed,
            action: Action {
                id: "c1".to_string(),
                kind: ActionKind::Command,
                title: "ls".to_string(),
                detail: vec![
                    ("status".to_string(), s("completed")),
                    ("exit_code".to_string(), JsonValue::Int(0)),
                ],
            },
            ok: Some(true),
            message: None,
            level: None,
        }]
    );

    let usage = obj(vec![("input_tokens", JsonValue::Int(10))]);
    let v = obj(vec![("type", s("turn.completed")), ("usage", usage)]);
    let terminal = p.parse_value(&v).expect("recognized");
    assert_eq!(terminal.len(), 2);
    assert_eq!(
        terminal[1],
        Event::Completed {
            engine: Engine::Codex,
            ok: true,
            answer: String::new(),
            resume: None,
            error: None,
            usage: Some(obj(vec![("input_tokens", JsonValue::Int(10))])),
        }
    );
}

#[test]
fn codex_thread_resume_flows_to_turn_completed() {
    let mut p = AgentParser::new();
    p.parse_value(&obj(vec![("type", s("thread.started")), ("thread_id", s("t7"))]))
        .expect("recognized");
    p.parse_value(&obj(vec![("type", s("turn.started"))])).expect("recognized");
    let events = p
        .parse_value(&obj(vec![("type", s("turn.completed"))]))
        .expect("recognized");
    match &events[1] {
        Event::Completed { engine, ok, resume, .. } => {
            assert_eq!(*engine, Engine::Codex);
            assert!(*ok);
            assert_eq!(resume.as_deref(), Some("t7"));
        }
        other => panic!("expected a completed event, got {:?}", other),
    }
}

#[test]
fn codex_agent_message_updates_answer() {
    let mut p = AgentParser::new();
    let msg = obj(vec![
        ("type", s("item.completed")),
        ("item", obj(vec![("type", s("agent_message")), ("text", s("done!"))])),
    ]);
    let events = p.parse_value(&msg).expect("recognized");
    assert_eq!(
        events,
        vec![Event::Message { engine: Engine::Codex, text: "done!".to_string() }]
    );
    let terminal = p
        .parse_value(&obj(vec![("type", s("turn.completed"))]))
        .expect("recognized");
    match &terminal[1] {
        Event::Completed { answer, .. } => assert_eq!(answer, "done!"),
        other => panic!("expected a completed event, got {:?}", other),
    }
}

#[test]
fn codex_todo_list_title() {
    let mut p = AgentParser::new();
    let v = obj(vec![
        ("type", s("item.updated")),
        (
            "item",
            obj(vec![
                ("type", s("todo_list")),
                ("id", s("td1")),
                (
                    "items",
                    JsonValue::Arr(vec![
                        obj(vec![("completed", JsonValue::Bool(true)), ("text", s("a"))]),
                        obj(vec![("completed", JsonValue::Bool(false)), ("text", s("write docs"))]),
                    ]),
                ),
            ]),
        ),
    ]);
    let events = p.parse_value(&v).expect("recognized");
    match &events[0] {
        Event::Action { action, .. } => {
            assert_eq!(action.title, "todo 1/2: write docs");
            assert_eq!(action.kind, ActionKind::Note);
        }
        other => panic!("expected an action event, got {:?}", other),
    }
}

#[test]
fn codex_file_change_joins_paths() {
    let mut p = AgentParser::new();
    let v = obj(vec![
        ("type", s("item.completed")),
        (
            "item",
            obj(vec![
                ("type", s("file_change")),
                ("id", s("f1")),
                ("status", s("completed")),
                (
                    "changes",
                    JsonValue::Arr(vec![
                        obj(vec![("path", s("a.rs")), ("kind", s("update"))]),
                        obj(vec![("path", s("b.rs"))]),
                    ]),
                ),
            ]),
        ),
    ]);
    let events = p.parse_value(&v).expect("recognized");
    match &events[0] {
        Event::Action { action, ok, .. } => {
            assert_eq!(action.title, "a.rs, b.rs");
            assert_eq!(action.kind, ActionKind::FileChange);
            assert_eq!(*ok, Some(true));
        }
        other => panic!("expected an action event, got {:?}", other),
    }
}

#[test]
fn codex_error_without_message_is_recognized_and_silent() {
    let mut p = AgentParser::new();
    let events = p.parse_value(&obj(vec![("type", s("error"))])).expect("recognized");
    assert!(events.is_empty());
}

#[test]
fn anthropic_init_emits_started_with_meta() {
    let mut p = AgentParser::new();
    let v = obj(vec![
        ("type", s("system")),
        ("subtype", s("init")),
        ("session_id", s("s1")),
        ("model", s("sonnet")),
        ("cwd", s("/r")),
    ]);
    let events = p.parse_value(&v).expect("recognized");
    assert_eq!(
        events,
        vec![Event::Started {
            engine: Engine::Anthropic,
            resume: "s1".to_string(),
            title: Some("sonnet".to_string()),
            meta: Some(obj(vec![("cwd", s("/r")), ("model", s("sonnet"))])),
        }]
    );
}

fn assistant(blocks: Vec<JsonValue>) -> JsonValue {
    obj(vec![
        ("type", s("assistant")),
        ("message", obj(vec![("content", JsonValue::Arr(blocks))])),
    ])
}

#[test]
fn anthropic_edit_round_trip() {
    let mut p = AgentParser::new();
    let use_block = obj(vec![
        ("type", s("tool_use")),
        ("id", s("u1")),
        ("name", s("Edit")),
        ("input", obj(vec![("file_path", s("a.txt"))])),
    ]);
    let started = p.parse_value(&assistant(vec![use_block])).expect("recognized");
    assert_eq!(started.len(), 1);
    match &started[0] {
        Event::Action { phase, action, .. } => {
            assert_eq!(*phase, Phase::Started);
            assert_eq!(action.id, "u1");
            assert_eq!(action.kind, ActionKind::FileChange);
            assert_eq!(action.title, "a.txt");
        }
        other => panic!("expected an action event, got {:?}", other),
    }

    let result_block = obj(vec![
        ("type", s("tool_result")),
        ("tool_use_id", s("u1")),
        ("content", s("ok")),
        ("is_error", JsonValue::Bool(false)),
    ]);
    let completed = p.parse_value(&assistant(vec![result_block])).expect("recognized");
    assert_eq!(completed.len(), 1);
    match &completed[0] {
        Event::Action { phase, action, ok, .. } => {
            assert_eq!(*phase, Phase::Completed);
            assert_eq!(action.id, "u1");
            assert_eq!(*ok, Some(true));
            assert_eq!(detail_get(action, "result_preview"), Some(&s("ok")));
            assert_eq!(detail_get(action, "result_len"), Some(&JsonValue::Int(2)));
            assert_eq!(detail_get(action, "is_error"), Some(&JsonValue::Bool(false)));
        }
        other => panic!("expected an action event, got {:?}", other),
    }
}

#[test]
fn anthropic_todo_write_title() {
    let mut p = AgentParser::new();
    let todos = JsonValue::Arr(vec![
        obj(vec![("status", s("completed"))]),
        obj(vec![("status", s("in_progress")), ("activeForm", s("Running tests"))]),
        obj(vec![("status", s("pending"))]),
    ]);
    let use_block = obj(vec![
        ("type", s("tool_use")),
        ("id", s("u2")),
        ("name", s("TodoWrite")),
        ("input", obj(vec![("todos", todos)])),
    ]);
    let events = p.parse_value(&assistant(vec![use_block])).expect("recognized");
    match &events[0] {
        Event::Action { action, .. } => {
            assert_eq!(action.kind, ActionKind::Todo);
            assert_eq!(action.title, "todo 1/3: Running tests");
        }
        other => panic!("expected an action event, got {:?}", other),
    }
}

#[test]
fn anthropic_unmatched_tool_result_fabricates_action() {
    let mut p = AgentParser::new();
    let result_block = obj(vec![
        ("type", s("tool_result")),
        ("tool_use_id", s("zzz")),
        ("content", s("lost")),
    ]);
    let events = p.parse_value(&assistant(vec![result_block])).expect("recognized");
    assert_eq!(events.len(), 1);
    match &events[0] {
        Event::Action { phase, action, ok, .. } => {
            assert_eq!(*phase, Phase::Completed);
            assert_eq!(action.id, "zzz");
            assert_eq!(action.kind, ActionKind::Tool);
            assert_eq!(action.title, "tool");
            assert_eq!(*ok, Some(true));
        }
        other => panic!("expected an action event, got {:?}", other),
    }
}

#[test]
fn anthropic_text_blocks_join_with_newline() {
    let mut p = AgentParser::new();
    let blocks = vec![
        obj(vec![("type", s("text")), ("text", s("one"))]),
        obj(vec![("type", s("text")), ("text", s("two"))]),
    ];
    let events = p.parse_value(&assistant(blocks)).expect("recognized");
    assert_eq!(
        events,
        vec![Event::Message { engine: Engine::Anthropic, text: "one\ntwo".to_string() }]
    );
}

#[test]
fn anthropic_result_event() {
    let mut p = AgentParser::new();
    p.parse_value(&obj(vec![
        ("type", s("system")),
        ("subtype", s("init")),
        ("session_id", s("s9")),
    ]))
    .expect("recognized");
    let v = obj(vec![
        ("type", s("result")),
        ("result", s("all done")),
        ("is_error", JsonValue::Bool(false)),
    ]);
    let events = p.parse_value(&v).expect("recognized");
    assert_eq!(
        events,
        vec![Event::Completed {
            engine: Engine::Anthropic,
            ok: true,
            answer: "all done".to_string(),
            resume: Some("s9".to_string()),
            error: None,
            usage: None,
        }]
    );
}

#[test]
fn started_event_wire_shape() {
    let mut p = AgentParser::new();
    let v = obj(vec![("type", s("thread.started")), ("thread_id", s("t1"))]);
    let events = p.parse_value(&v).expect("recognized");
    let wire = conductor::parser::render_json(&events[0].to_json());
    let back = conductor::parser::decode_json(&wire).expect("valid json");
    assert_eq!(back.get("type"), Some(&s("agent.started")));
    assert_eq!(back.get("engine"), Some(&s("codex")));
    assert_eq!(back.get("resume"), Some(&s("t1")));
    assert_eq!(back.get("title"), Some(&s("Codex")));
    assert_eq!(back.get("meta"), None);
}

#[test]
fn parse_line_decodes_json() {
    let mut p = AgentParser::new();
    let events = p
        .parse_line("{\"type\":\"thread.started\",\"thread_id\":\"t1\"}")
        .expect("recognized");
    assert_eq!(events.len(), 1);
    assert!(p.parse_line("not json at all").is_none());
}

#[test]
fn fresh_parser_resumes_from_prior_state() {
    let mut whole = AgentParser::new();
    let start = obj(vec![("type", s("thread.started")), ("thread_id", s("tX"))]);
    let finish = obj(vec![("type", s("turn.completed"))]);
    whole.parse_value(&start).expect("recognized");
    let a = whole.parse_value(&finish).expect("recognized");

    let mut first = AgentParser::new();
    first.parse_value(&start).expect("recognized");
    let mut second = AgentParser {
        codex: CodexState {
            resume: first.codex.resume.clone(),
            answer: first.codex.answer.clone(),
            turn_index: first.codex.turn_index,
            note_seq: first.codex.note_seq,
        },
        anthropic: AnthropicState { resume: None, pending: vec![], note_seq: 0 },
    };
    let b = second.parse_value(&finish).expect("recognized");
    assert_eq!(a, b);
}

#[test]
fn codex_turn_failed_reports_error() {
    let mut p = AgentParser::new();
    p.parse_value(&obj(vec![("type", s("thread.started")), ("thread_id", s("t2"))]))
        .expect("recognized");
    let v = obj(vec![
        ("type", s("turn.failed")),
        ("error", obj(vec![("message", s("ran out of budget"))])),
    ]);
    let events = p.parse_value(&v).expect("recognized");
    assert_eq!(
        events,
        vec![Event::Completed {
            engine: Engine::Codex,
            ok: false,
            answer: String::new(),
            resume: Some("t2".to_string()),
            error: Some("ran out of budget".to_string()),
            usage: None,
        }]
    );
}

#[test]
fn codex_mcp_tool_call_summary() {
    let mut p = AgentParser::new();
    let v = obj(vec![
        ("type", s("item.completed")),
        (
            "item",
            obj(vec![
                ("type", s("mcp_tool_call")),
                ("id", s("m1")),
                ("server", s("files")),
                ("tool", s("read")),
                ("status", s("completed")),
                (
                    "result",
                    obj(vec![
                        ("content", JsonValue::Arr(vec![s("x"), s("y")])),
                        ("structured_content", JsonValue::Null),
                    ]),
                ),
            ]),
        ),
    ]);
    let events = p.parse_value(&v).expect("recognized");
    match &events[0] {
        Event::Action { action, ok, .. } => {
            assert_eq!(action.title, "files.read");
            assert_eq!(action.kind, ActionKind::Tool);
            assert_eq!(*ok, Some(true));
            let summary = detail_get(action, "result_summary").expect("summary");
            assert_eq!(
                summary,
                &obj(vec![
                    ("content_blocks", JsonValue::Int(2)),
                    ("has_structured", JsonValue::Bool(false)),
                ])
            );
        }
        other => panic!("expected an action event, got {:?}", other),
    }
}

#[test]
fn anthropic_thinking_note_numbers_increase() {
    let mut p = AgentParser::new();
    let think = |text: &str| {
        assistant(vec![obj(vec![("type", s("thinking")), ("thinking", s(text))])])
    };
    let first = p.parse_value(&think("one line\nrest")).expect("recognized");
    let second = p.parse_value(&think("two")).expect("recognized");
    match (&first[0], &second[0]) {
        (Event::Action { action: a1, .. }, Event::Action { action: a2, .. }) => {
            assert_eq!(a1.id, "anthropic.note.1");
            assert_eq!(a1.title, "one line");
            assert_eq!(a2.id, "anthropic.note.2");
        }
        other => panic!("expected two action events, got {:?}", other),
    }
}

#[test]
fn terminal_result_clears_pending_tools() {
    let mut p = AgentParser::new();
    let use_block = obj(vec![
        ("type", s("tool_use")),
        ("id", s("u9")),
        ("name", s("Bash")),
        ("input", obj(vec![("command", s("ls"))])),
    ]);
    p.parse_value(&assistant(vec![use_block])).expect("recognized");
    p.parse_value(&obj(vec![("type", s("result")), ("result", s("done"))]))
        .expect("recognized");
    let late_result = obj(vec![
        ("type", s("tool_result")),
        ("tool_use_id", s("u9")),
        ("content", s("late")),
    ]);
    let events = p.parse_value(&assistant(vec![late_result])).expect("recognized");
    match &events[0] {
        Event::Action { action, .. } => {
            assert_eq!(action.title, "tool");
            assert_eq!(action.kind, ActionKind::Tool);
        }
        other => panic!("expected a fabricated action, got {:?}", other),
    }
}
