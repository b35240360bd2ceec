//! The Codex half of the normalizer.
//!
//! One JSON value in, a state change and a list of uniform events out. The
//! spec functions define the step exactly; the executable parser is proved
//! to produce precisely that step.

use vstd::prelude::*;

use crate::events::{
    action_ev, completed_ev, dv_events, events0, events1, events2, events_match, message_ev,
    started_ev, Action, ActionKind, ActionV, Engine, Event, EventV, Phase,
};
use crate::json::{dv_seq, pairs0, push_pair, JsonVal, JsonValue};
use crate::strutil::{spec_dec, str_eq, u64_to_dec};

verus! {

/// Per-parser Codex state: the resume token, the last assistant answer, the
/// turn counter and the informational-note counter.
pub struct CodexState {
    pub resume: Option<String>,
    pub answer: Option<String>,
    pub turn_index: u64,
    pub note_seq: u64,
}

/// The view of a `CodexState`.
pub struct CodexStateV {
    pub resume: Option<Seq<char>>,
    pub answer: Option<Seq<char>>,
    pub turn_index: int,
    pub note_seq: int,
}

impl CodexState {
    /// The view of the state.
    pub open spec fn dv(self) -> CodexStateV {
        CodexStateV {
            resume: crate::events::opt_view(self.resume),
            answer: crate::events::opt_view(self.answer),
            turn_index: self.turn_index as int,
            note_seq: self.note_seq as int,
        }
    }

    /// A fresh state: no resume token, no answer, both counters at zero.
    pub fn new() -> (r: CodexState)
        ensures
            r.dv() == (CodexStateV {
                resume: None,
                answer: None,
                turn_index: 0,
                note_seq: 0,
            }),
    {
        CodexState { resume: None, answer: None, turn_index: 0, note_seq: 0 }
    }
}

/// The string under an option, or the empty string.
pub open spec fn or_empty(o: Option<Seq<char>>) -> Seq<char> {
    match o {
        Some(s) => s,
        None => Seq::empty(),
    }
}

/// An increment that stops at the largest counter value instead of wrapping.
pub open spec fn sat_inc(n: int) -> int {
    if n < 0xffff_ffff_ffff_ffffu64 as int {
        n + 1
    } else {
        n
    }
}

/// Increments a counter, saturating at its maximum.
pub fn counter_inc(n: u64) -> (r: u64)
    ensures
        r as int == sat_inc(n as int),
{
    if n < u64::MAX {
        n + 1
    } else {
        n
    }
}

/// One binding when the string is present, none otherwise.
pub open spec fn maybe_str_pair(key: Seq<char>, o: Option<Seq<char>>) -> Seq<(Seq<char>, JsonVal)> {
    match o {
        Some(s) => seq![(key, JsonVal::Str(s))],
        None => Seq::empty(),
    }
}

/// One binding when the value is present, none otherwise.
pub open spec fn maybe_pair(key: Seq<char>, o: Option<JsonVal>) -> Seq<(Seq<char>, JsonVal)> {
    match o {
        Some(v) => seq![(key, v)],
        None => Seq::empty(),
    }
}

/// `int` clamped to the signed 64-bit range from above.
pub open spec fn clamp_i64(n: int) -> int {
    if n > 0x7fff_ffff_ffff_ffffi64 as int {
        0x7fff_ffff_ffff_ffffi64 as int
    } else {
        n
    }
}

/// Converts a length to a signed 64-bit count, clamping from above.
pub fn usize_to_i64(n: usize) -> (r: i64)
    ensures
        r as int == clamp_i64(n as int),
{
    let m: u64 = n as u64;
    if m > 0x7fff_ffff_ffff_ffffu64 {
        i64::MAX
    } else {
        m as i64
    }
}

/// Converts a counter to a signed 64-bit value, clamping from above.
pub fn u64_to_i64(n: u64) -> (r: i64)
    ensures
        r as int == clamp_i64(n as int),
{
    if n > 0x7fff_ffff_ffff_ffffu64 {
        i64::MAX
    } else {
        n as i64
    }
}

/// The content-block count binding of an MCP result summary.
pub open spec fn mcp_blocks(r: JsonVal) -> Seq<(Seq<char>, JsonVal)> {
    match r.get("content"@) {
        Some(c) => match c {
            JsonVal::Arr(list) => seq![
                ("content_blocks"@, JsonVal::Int(clamp_i64(list.len() as int))),
            ],
            _ => seq![("content_blocks"@, JsonVal::Int(1))],
        },
        None => Seq::empty(),
    }
}

/// The structured-content binding of an MCP result summary.
pub open spec fn mcp_structured(r: JsonVal) -> Seq<(Seq<char>, JsonVal)> {
    if r.get("structured_content"@) is Some {
        seq![
            (
                "has_structured"@,
                JsonVal::Bool(r.get("structured_content"@) != Some(JsonVal::Null)),
            ),
        ]
    } else if r.get("structured"@) is Some {
        seq![("has_structured"@, JsonVal::Bool(r.get("structured"@) != Some(JsonVal::Null)))]
    } else {
        Seq::empty()
    }
}

/// The summary object for an MCP tool-call result: how many content blocks
/// came back, and whether structured content is present.
pub open spec fn spec_mcp_summary(result: Option<JsonVal>) -> Option<JsonVal> {
    match result {
        None => None,
        Some(r) => match r.as_obj() {
            None => None,
            Some(o) => {
                let s = mcp_blocks(r) + mcp_structured(r);
                if s.len() == 0 {
                    None
                } else {
                    Some(JsonVal::Obj(s))
                }
            },
        },
    }
}

/// Builds the MCP result summary.
pub fn codex_mcp_result_summary(result: Option<&JsonValue>) -> (r: Option<JsonValue>)
    ensures
        crate::events::opt_dv(r) == spec_mcp_summary(match result {
            Some(v) => Some(v.dv()),
            None => None,
        }),
{
    let result = match result {
        Some(r) => r,
        None => {
            return None;
        },
    };
    let obj = match result.as_obj() {
        Some(_) => (),
        None => {
            return None;
        },
    };
    let ghost rv = result.dv();
    let mut summary = pairs0();
    match result.get("content") {
        Some(content) => {
            match content.as_arr() {
                Some(list) => {
                    push_pair(&mut summary, "content_blocks", JsonValue::Int(usize_to_i64(list.len())));
                    proof {
                        crate::json::lemma_dv_seq(list@);
                        assert(crate::json::dv_pairs(summary@) =~= mcp_blocks(rv));
                    }
                },
                None => {
                    push_pair(&mut summary, "content_blocks", JsonValue::Int(1));
                    proof {
                        assert(crate::json::dv_pairs(summary@) =~= mcp_blocks(rv));
                    }
                },
            }
        },
        None => {
            proof {
                assert(crate::json::dv_pairs(summary@) =~= mcp_blocks(rv));
            }
        },
    }
    let ghost mid = crate::json::dv_pairs(summary@);
    match result.get("structured_content") {
        Some(sc) => {
            let is_null = match sc {
                JsonValue::Null => true,
                _ => false,
            };
            proof {
                assert(is_null == (rv.get("structured_content"@) == Some(JsonVal::Null)));
            }
            push_pair(&mut summary, "has_structured", JsonValue::Bool(!is_null));
        },
        None => {
            match result.get("structured") {
                Some(sc) => {
                    let is_null = match sc {
                        JsonValue::Null => true,
                        _ => false,
                    };
                    proof {
                        assert(is_null == (rv.get("structured"@) == Some(JsonVal::Null)));
                    }
                    push_pair(&mut summary, "has_structured", JsonValue::Bool(!is_null));
                },
                None => {},
            }
        },
    }
    proof {
        assert(crate::json::dv_pairs(summary@) =~= mid + mcp_structured(rv));
        assert(crate::json::dv_pairs(summary@).len() == summary@.len()) by {
            crate::json::lemma_dv_pairs(summary@);
        }
    }
    if summary.len() == 0 {
        None
    } else {
        Some(JsonValue::Obj(summary))
    }
}

/// The path a single change entry contributes, when it names one.
pub open spec fn change_path_one(v: JsonVal) -> Seq<Seq<char>> {
    match v.get_str("path"@) {
        Some(p) => seq![p],
        None => Seq::empty(),
    }
}

/// The normalized entry a single change contributes: its path and, when
/// present, its kind.
pub open spec fn change_norm_one(v: JsonVal) -> Seq<JsonVal> {
    match v.get_str("path"@) {
        Some(p) => seq![
            JsonVal::Obj(
                seq![("path"@, JsonVal::Str(p))] + maybe_str_pair("kind"@, v.get_str("kind"@)),
            ),
        ],
        None => Seq::empty(),
    }
}

/// The paths named by a list of change entries, in order.
pub open spec fn change_paths(s: Seq<JsonVal>) -> Seq<Seq<char>>
    decreases s.len(),
{
    if s.len() == 0 {
        Seq::empty()
    } else {
        change_paths(s.subrange(0, s.len() - 1)) + change_path_one(s[s.len() - 1])
    }
}

/// The normalized change entries, in order.
pub open spec fn change_norm(s: Seq<JsonVal>) -> Seq<JsonVal>
    decreases s.len(),
{
    if s.len() == 0 {
        Seq::empty()
    } else {
        change_norm(s.subrange(0, s.len() - 1)) + change_norm_one(s[s.len() - 1])
    }
}

/// The title and detail of a file-change action: the comma-joined paths (or
/// a file count when none carries a path) and the normalized change list.
pub open spec fn spec_change_summary(changes: Option<JsonVal>) -> (Seq<char>, JsonVal) {
    match changes {
        Some(c) => match c {
            JsonVal::Arr(list) => {
                let paths = change_paths(list);
                let title = if paths.len() == 0 {
                    if list.len() == 0 {
                        "files"@
                    } else {
                        spec_dec(list.len() as int) + " files"@
                    }
                } else {
                    crate::strutil::spec_join(paths, ", "@)
                };
                (title, JsonVal::Arr(change_norm(list)))
            },
            _ => ("files"@, JsonVal::Arr(Seq::empty())),
        },
        None => ("files"@, JsonVal::Arr(Seq::empty())),
    }
}

/// Builds the title and normalized changes of a file-change item.
#[verifier::loop_isolation(false)]
pub fn codex_change_summary(changes: Option<&JsonValue>) -> (r: (String, JsonValue))
    ensures
        (r.0@, r.1.dv()) == spec_change_summary(match changes {
            Some(v) => Some(v.dv()),
            None => None,
        }),
{
    let list = match changes {
        Some(c) => match c.as_arr() {
            Some(list) => list,
            None => {
                let empty: Vec<JsonValue> = Vec::new();
                proof {
                    assert(dv_seq(empty@) =~= Seq::<JsonVal>::empty());
                }
                return ("files".to_owned(), JsonValue::Arr(empty));
            },
        },
        None => {
            let empty: Vec<JsonValue> = Vec::new();
            proof {
                assert(dv_seq(empty@) =~= Seq::<JsonVal>::empty());
            }
            return ("files".to_owned(), JsonValue::Arr(empty));
        },
    };
    proof {
        crate::json::lemma_dv_seq(list@);
    }
    let ghost lv = dv_seq(list@);
    let mut paths: Vec<String> = Vec::new();
    let mut normalized: Vec<JsonValue> = Vec::new();
    let mut i: usize = 0;
    proof {
        assert(lv.subrange(0, 0) =~= Seq::<JsonVal>::empty());
        assert(paths.deep_view() =~= change_paths(lv.subrange(0, 0)));
        assert(dv_seq(normalized@) =~= change_norm(lv.subrange(0, 0)));
    }
    while i < list.len()
        invariant
            0 <= i <= list@.len(),
            paths.deep_view() == change_paths(lv.subrange(0, i as int)),
            dv_seq(normalized@) == change_norm(lv.subrange(0, i as int)),
        decreases list@.len() - i,
    {
        let entry = &list[i];
        let ghost prev_paths = paths.deep_view();
        let ghost prev_norm_vec = normalized@;
        let ghost prev_norm = dv_seq(normalized@);
        match entry.get_string("path") {
            Some(p) => {
                let mut one = pairs0();
                push_pair(&mut one, "path", JsonValue::Str(p.clone()));
                match entry.get_string("kind") {
                    Some(k) => {
                        push_pair(&mut one, "kind", JsonValue::Str(k.clone()));
                    },
                    None => {},
                }
                proof {
                    assert(crate::json::dv_pairs(one@) =~= seq![("path"@, JsonVal::Str(p@))]
                        + maybe_str_pair("kind"@, entry.dv().get_str("kind"@)));
                }
                paths.push(p.clone());
                normalized.push(JsonValue::Obj(one));
                proof {
                    crate::json::lemma_dv_seq(prev_norm_vec);
                    crate::json::lemma_dv_seq(normalized@);
                    assert(paths.deep_view() =~= prev_paths.push(p@));
                    assert(dv_seq(normalized@) =~= prev_norm.push(
                        JsonVal::Obj(
                            seq![("path"@, JsonVal::Str(p@))] + maybe_str_pair(
                                "kind"@,
                                entry.dv().get_str("kind"@),
                            ),
                        ),
                    ));
                }
            },
            None => {},
        }
        proof {
            assert(lv.subrange(0, i + 1).subrange(0, i as int) =~= lv.subrange(0, i as int));
            assert(lv.subrange(0, i + 1)[i as int] == lv[i as int]);
            assert(lv[i as int] == list@[i as int].dv());
            assert(paths.deep_view() =~= change_paths(lv.subrange(0, i + 1)));
            assert(dv_seq(normalized@) =~= change_norm(lv.subrange(0, i + 1)));
        }
        i += 1;
    }
    proof {
        assert(lv.subrange(0, lv.len() as int) =~= lv);
    }
    let title = if paths.len() == 0 {
        if list.len() == 0 {
            "files".to_owned()
        } else {
            let mut t = u64_to_dec(list.len() as u64);
            t.append(" files");
            proof {
                assert(t@ =~= spec_dec(list@.len() as int) + " files"@);
            }
            t
        }
    } else {
        crate::strutil::join_strings(&paths, ", ")
    };
    (title, JsonValue::Arr(normalized))
}

/// The running todo tally: items done, items seen, and the text of the
/// first item still open.
pub open spec fn todo_step(
    acc: (int, int, Option<Seq<char>>),
    x: JsonVal,
) -> (int, int, Option<Seq<char>>) {
    match x.as_obj() {
        None => acc,
        Some(_) => {
            if x.get("completed"@) == Some(JsonVal::Bool(true)) {
                (acc.0 + 1, acc.1 + 1, acc.2)
            } else {
                let next = if acc.2 is None {
                    match x.get_str("text"@) {
                        Some(t) => Some(t),
                        None => None,
                    }
                } else {
                    acc.2
                };
                (acc.0, acc.1 + 1, next)
            }
        },
    }
}

/// The tally over a list of todo items.
pub open spec fn todo_fold(s: Seq<JsonVal>) -> (int, int, Option<Seq<char>>)
    decreases s.len(),
{
    if s.len() == 0 {
        (0, 0, None)
    } else {
        todo_step(todo_fold(s.subrange(0, s.len() - 1)), s[s.len() - 1])
    }
}

/// The tally for an optional `items` value: zeros when it is not an array.
pub open spec fn spec_todo_summary(items: Option<JsonVal>) -> (int, int, Option<Seq<char>>) {
    match items {
        Some(v) => match v {
            JsonVal::Arr(list) => todo_fold(list),
            _ => (0, 0, None),
        },
        None => (0, 0, None),
    }
}

/// Tallies a todo list: done count, total count, first open text.
#[verifier::loop_isolation(false)]
pub fn codex_todo_summary(items: Option<&JsonValue>) -> (r: (u64, u64, Option<String>))
    ensures
        ({
            let s = spec_todo_summary(match items {
                Some(v) => Some(v.dv()),
                None => None,
            });
            r.0 as int == s.0 && r.1 as int == s.1 && crate::events::opt_view(r.2) == s.2
        }),
{
    let list = match items {
        Some(v) => match v.as_arr() {
            Some(list) => list,
            None => {
                return (0, 0, None);
            },
        },
        None => {
            return (0, 0, None);
        },
    };
    proof {
        crate::json::lemma_dv_seq(list@);
    }
    let ghost lv = dv_seq(list@);
    let mut done: u64 = 0;
    let mut total: u64 = 0;
    let mut next_text: Option<String> = None;
    let mut i: usize = 0;
    proof {
        assert(lv.subrange(0, 0) =~= Seq::<JsonVal>::empty());
    }
    while i < list.len()
        invariant
            0 <= i <= list@.len(),
            done <= total,
            total <= i,
            ({
                let s = todo_fold(lv.subrange(0, i as int));
                done as int == s.0 && total as int == s.1 && crate::events::opt_view(next_text)
                    == s.2
            }),
        decreases list@.len() - i,
    {
        let entry = &list[i];
        proof {
            assert(lv.subrange(0, i + 1).subrange(0, i as int) =~= lv.subrange(0, i as int));
            assert(lv.subrange(0, i + 1)[i as int] == lv[i as int]);
            assert(lv[i as int] == list@[i as int].dv());
        }
        match entry.as_obj() {
            None => {},
            Some(_) => {
                let completed = match entry.get("completed") {
                    Some(c) => match c.as_bool() {
                        Some(b) => b,
                        None => false,
                    },
                    None => false,
                };
                proof {
                    if completed {
                        assert(entry.dv().get("completed"@) == Some(JsonVal::Bool(true)));
                    } else {
                        assert(entry.dv().get("completed"@) != Some(JsonVal::Bool(true)));
                    }
                }
                total = total + 1;
                if completed {
                    done = done + 1;
                } else {
                    if next_text.is_none() {
                        match entry.get_string("text") {
                            Some(t) => {
                                next_text = Some(t.clone());
                            },
                            None => {},
                        }
                    }
                }
            },
        }
        i += 1;
    }
    proof {
        assert(lv.subrange(0, lv.len() as int) =~= lv);
    }
    (done, total, next_text)
}

/// The events a single stream item yields, given its phase, its type tag
/// and its identifier.
pub open spec fn spec_codex_item_events(
    phase: Phase,
    item: JsonVal,
    it: Seq<char>,
    id: Seq<char>,
) -> Seq<EventV> {
    if it == "command_execution"@ {
        let command = match item.get_str("command"@) {
            Some(c) => c,
            None => "command"@,
        };
        let status = item.get_str("status"@);
        let exit_code = item.get("exit_code"@);
        let detail = maybe_str_pair("status"@, status) + maybe_pair("exit_code"@, exit_code);
        let ok = if phase is Completed {
            Some(
                status == Some("completed"@) && (match exit_code {
                    Some(ec) => match ec.as_int() {
                        Some(c) => c == 0,
                        None => true,
                    },
                    None => true,
                }),
            )
        } else {
            None
        };
        seq![
            action_ev(
                Engine::Codex,
                phase,
                ActionV { id, kind: ActionKind::Command, title: command, detail },
                ok,
                None,
                None,
            ),
        ]
    } else if it == "mcp_tool_call"@ {
        let server = item.get_str("server"@);
        let tool = item.get_str("tool"@);
        let status = item.get_str("status"@);
        let t0 = or_empty(server);
        let t1 = match tool {
            Some(t) => if t0.len() > 0 {
                t0 + "."@ + t
            } else {
                t0 + t
            },
            None => t0,
        };
        let title = if t1.len() == 0 {
            "tool"@
        } else {
            t1
        };
        let base = maybe_str_pair("server"@, server) + maybe_str_pair("tool"@, tool)
            + maybe_str_pair("status"@, status) + maybe_pair("arguments"@, item.get("arguments"@));
        let err = item.get("error"@);
        let detail = if phase is Completed {
            base + (match err {
                Some(e) => maybe_str_pair("error_message"@, e.get_str("message"@)),
                None => Seq::empty(),
            }) + maybe_pair("result_summary"@, spec_mcp_summary(item.get("result"@)))
        } else {
            base
        };
        let ok = if phase is Completed {
            Some(status == Some("completed"@) && err is None)
        } else {
            None
        };
        seq![
            action_ev(
                Engine::Codex,
                phase,
                ActionV { id, kind: ActionKind::Tool, title, detail },
                ok,
                None,
                None,
            ),
        ]
    } else if it == "web_search"@ {
        let query = match item.get_str("query"@) {
            Some(q) => q,
            None => "search"@,
        };
        let detail = seq![("query"@, JsonVal::Str(query))];
        let ok = if phase is Completed {
            Some(true)
        } else {
            None
        };
        seq![
            action_ev(
                Engine::Codex,
                phase,
                ActionV { id, kind: ActionKind::WebSearch, title: query, detail },
                ok,
                None,
                None,
            ),
        ]
    } else if it == "file_change"@ {
        if !(phase is Completed) {
            Seq::empty()
        } else {
            let ts = spec_change_summary(item.get("changes"@));
            let status = item.get_str("status"@);
            let detail = seq![("changes"@, ts.1)] + maybe_str_pair("status"@, status);
            let ok = status == Some("completed"@);
            seq![
                action_ev(
                    Engine::Codex,
                    Phase::Completed,
                    ActionV { id, kind: ActionKind::FileChange, title: ts.0, detail },
                    Some(ok),
                    None,
                    None,
                ),
            ]
        }
    } else if it == "todo_list"@ {
        let s = spec_todo_summary(item.get("items"@));
        let title = if s.1 == 0 {
            "todo"@
        } else {
            match s.2 {
                Some(t) => "todo "@ + spec_dec(s.0) + "/"@ + spec_dec(s.1) + ": "@ + t,
                None => "todo "@ + spec_dec(s.0) + "/"@ + spec_dec(s.1) + ": done"@,
            }
        };
        let detail = seq![
            ("done"@, JsonVal::Int(clamp_i64(s.0))),
            ("total"@, JsonVal::Int(clamp_i64(s.1))),
        ];
        let ok = if phase is Completed {
            Some(true)
        } else {
            None
        };
        seq![
            action_ev(
                Engine::Codex,
                phase,
                ActionV { id, kind: ActionKind::Note, title, detail },
                ok,
                None,
                None,
            ),
        ]
    } else if it == "reasoning"@ {
        let text = match item.get_str("text"@) {
            Some(t) => t,
            None => "note"@,
        };
        let ok = if phase is Completed {
            Some(true)
        } else {
            None
        };
        seq![
            action_ev(
                Engine::Codex,
                phase,
                ActionV { id, kind: ActionKind::Note, title: text, detail: Seq::empty() },
                ok,
                None,
                None,
            ),
        ]
    } else if it == "error"@ {
        let message = match item.get_str("message"@) {
            Some(m) => m,
            None => "error"@,
        };
        let detail = seq![("message"@, JsonVal::Str(message))];
        seq![
            action_ev(
                Engine::Codex,
                Phase::Completed,
                ActionV { id, kind: ActionKind::Warning, title: message, detail },
                Some(false),
                Some(message),
                Some("warning"@),
            ),
        ]
    } else {
        Seq::empty()
    }
}

/// A single stream item's step: an assistant message updates the running
/// answer; every other item leaves the state as it is. Items without an
/// identifier (the assistant message aside) yield nothing.
pub open spec fn spec_codex_item(phase: Phase, item: JsonVal, st: CodexStateV) -> (
    CodexStateV,
    Seq<EventV>,
) {
    let it = or_empty(item.get_str("type"@));
    if it == "agent_message"@ {
        match item.get_str("text"@) {
            Some(text) => (
                CodexStateV {
                    resume: st.resume,
                    answer: Some(text),
                    turn_index: st.turn_index,
                    note_seq: st.note_seq,
                },
                seq![message_ev(Engine::Codex, text)],
            ),
            None => (st, Seq::empty()),
        }
    } else {
        match item.get_str("id"@) {
            None => (st, Seq::empty()),
            Some(id) => (st, spec_codex_item_events(phase, item, it, id)),
        }
    }
}

/// One Codex step: the new state and, when the value is recognized, the
/// events it yields. A recognized `error` without a message yields an empty
/// event list, so callers can tell "recognized" from "not this engine".
pub open spec fn spec_codex_step(st: CodexStateV, v: JsonVal) -> (
    CodexStateV,
    Option<Seq<EventV>>,
) {
    match v.get_str("type"@) {
        None => (st, None),
        Some(t) => if t == "thread.started"@ {
            match v.get_str("thread_id"@) {
                None => (st, None),
                Some(tid) => (
                    CodexStateV {
                        resume: Some(tid),
                        answer: st.answer,
                        turn_index: st.turn_index,
                        note_seq: st.note_seq,
                    },
                    Some(
                        seq![started_ev(Engine::Codex, tid, Some("Codex"@), None)],
                    ),
                ),
            }
        } else if t == "turn.started"@ {
            let act = ActionV {
                id: "turn:"@ + spec_dec(st.turn_index),
                kind: ActionKind::Turn,
                title: "turn started"@,
                detail: Seq::empty(),
            };
            (
                CodexStateV {
                    resume: st.resume,
                    answer: st.answer,
                    turn_index: sat_inc(st.turn_index),
                    note_seq: st.note_seq,
                },
                Some(
                    seq![action_ev(Engine::Codex, Phase::Started, act, None, None, None)],
                ),
            )
        } else if t == "turn.completed"@ {
            let prev = if st.turn_index > 0 {
                st.turn_index - 1
            } else {
                0
            };
            let act = ActionV {
                id: "turn:"@ + spec_dec(prev),
                kind: ActionKind::Turn,
                title: "turn completed"@,
                detail: Seq::empty(),
            };
            (
                st,
                Some(
                    seq![
                        action_ev(Engine::Codex, Phase::Completed, act, Some(true), None, None),
                        completed_ev(
                            Engine::Codex,
                            true,
                            or_empty(st.answer),
                            st.resume,
                            None,
                            v.get("usage"@),
                        ),
                    ],
                ),
            )
        } else if t == "turn.failed"@ {
            let emsg = match v.get("error"@) {
                Some(e) => e.get_str("message"@),
                None => None,
            };
            (
                st,
                Some(
                    seq![
                        completed_ev(
                            Engine::Codex,
                            false,
                            or_empty(st.answer),
                            st.resume,
                            emsg,
                            None,
                        ),
                    ],
                ),
            )
        } else if t == "error"@ {
            match v.get_str("message"@) {
                Some(m) => {
                    let ns = sat_inc(st.note_seq);
                    let act = ActionV {
                        id: "codex.note."@ + spec_dec(ns),
                        kind: ActionKind::Warning,
                        title: m,
                        detail: seq![("message"@, JsonVal::Str(m))],
                    };
                    (
                        CodexStateV {
                            resume: st.resume,
                            answer: st.answer,
                            turn_index: st.turn_index,
                            note_seq: ns,
                        },
                        Some(
                            seq![
                                action_ev(
                                    Engine::Codex,
                                    Phase::Completed,
                                    act,
                                    Some(false),
                                    Some(m),
                                    Some("warning"@),
                                ),
                            ],
                        ),
                    )
                },
                None => (st, Some(Seq::empty())),
            }
        } else if t == "item.started"@ || t == "item.updated"@ || t == "item.completed"@ {
            let phase = if t == "item.started"@ {
                Phase::Started
            } else if t == "item.updated"@ {
                Phase::Updated
            } else {
                Phase::Completed
            };
            match v.get("item"@) {
                None => (st, None),
                Some(item) => {
                    let r = spec_codex_item(phase, item, st);
                    (r.0, Some(r.1))
                },
            }
        } else {
            (st, None)
        },
    }
}

/// Normalizes a single Codex stream item into events, updating the running
/// answer when the item is an assistant message.
#[verifier::rlimit(100)]
pub fn codex_item_events(phase: Phase, item: &JsonValue, state: &mut CodexState) -> (r: Vec<Event>)
    ensures
        ({
            let s = spec_codex_item(phase, item.dv(), old(state).dv());
            final(state).dv() == s.0 && dv_events(r@) == s.1
        }),
{
    let it_owned: String = match item.get_string("type") {
        Some(t) => t.clone(),
        None => String::new(),
    };
    let it = it_owned.as_str();
    if str_eq(it, "agent_message") {
        match item.get_string("text") {
            Some(text) => {
                let t = text.clone();
                state.answer = Some(t.clone());
                return events1(Event::Message { engine: Engine::Codex, text: t });
            },
            None => {
                return events0();
            },
        }
    }
    let id: String = match item.get_string("id") {
        Some(i) => i.clone(),
        None => {
            return events0();
        },
    };
    let completed: bool = match phase {
        Phase::Completed => true,
        _ => false,
    };
    if str_eq(it, "command_execution") {
        let command: String = match item.get_string("command") {
            Some(c) => c.clone(),
            None => "command".to_owned(),
        };
        let status = item.get_string("status");
        let exit_code = item.get("exit_code");
        let mut detail = pairs0();
        match status {
            Some(s) => push_pair(&mut detail, "status", JsonValue::Str(s.clone())),
            None => {},
        }
        match exit_code {
            Some(ec) => push_pair(&mut detail, "exit_code", ec.dup()),
            None => {},
        }
        proof {
            assert(crate::json::dv_pairs(detail@) =~= maybe_str_pair(
                "status"@,
                item.dv().get_str("status"@),
            ) + maybe_pair("exit_code"@, item.dv().get("exit_code"@)));
        }
        let ok: Option<bool> = if completed {
            let mut okv = match status {
                Some(s) => str_eq(s.as_str(), "completed"),
                None => false,
            };
            match exit_code {
                Some(ec) => match ec.as_i64() {
                    Some(code) => {
                        if code != 0 {
                            okv = false;
                        } else {
                            okv = okv && true;
                        }
                    },
                    None => {},
                },
                None => {},
            }
            Some(okv)
        } else {
            None
        };
        let act = Action { id, kind: ActionKind::Command, title: command, detail };
        return events1(
            Event::Action {
                engine: Engine::Codex,
                phase,
                action: act,
                ok,
                message: None,
                level: None,
            },
        );
    }
    if str_eq(it, "mcp_tool_call") {
        let server = item.get_string("server");
        let tool = item.get_string("tool");
        let status = item.get_string("status");
        let ghost sv = item.dv().get_str("server"@);
        let ghost tv = item.dv().get_str("tool"@);
        let ghost t0 = or_empty(sv);
        let ghost t1 = match tv {
            Some(t) => if t0.len() > 0 {
                t0 + "."@ + t
            } else {
                t0 + t
            },
            None => t0,
        };
        let mut title = String::new();
        match server {
            Some(s) => title.append(s.as_str()),
            None => {},
        }
        proof {
            assert(title@ =~= t0);
        }
        match tool {
            Some(t) => {
                if title.unicode_len() > 0 {
                    title.append(".");
                }
                title.append(t.as_str());
            },
            None => {},
        }
        proof {
            assert(title@ =~= t1);
        }
        if title.unicode_len() == 0 {
            title = "tool".to_owned();
        }
        let mut detail = pairs0();
        match server {
            Some(s) => push_pair(&mut detail, "server", JsonValue::Str(s.clone())),
            None => {},
        }
        match tool {
            Some(t) => push_pair(&mut detail, "tool", JsonValue::Str(t.clone())),
            None => {},
        }
        match status {
            Some(s) => push_pair(&mut detail, "status", JsonValue::Str(s.clone())),
            None => {},
        }
        match item.get("arguments") {
            Some(a) => push_pair(&mut detail, "arguments", a.dup()),
            None => {},
        }
        let ghost base = maybe_str_pair("server"@, sv) + maybe_str_pair("tool"@, tv)
            + maybe_str_pair("status"@, item.dv().get_str("status"@)) + maybe_pair(
            "arguments"@,
            item.dv().get("arguments"@),
        );
        proof {
            assert(crate::json::dv_pairs(detail@) =~= base);
        }
        let mut ok: Option<bool> = None;
        if completed {
            let err = item.get("error");
            match err {
                Some(e) => match e.get_string("message") {
                    Some(m) => push_pair(&mut detail, "error_message", JsonValue::Str(m.clone())),
                    None => {},
                },
                None => {},
            }
            let ghost with_err = base + (match item.dv().get("error"@) {
                Some(e) => maybe_str_pair("error_message"@, e.get_str("message"@)),
                None => Seq::empty(),
            });
            proof {
                assert(crate::json::dv_pairs(detail@) =~= with_err);
            }
            match codex_mcp_result_summary(item.get("result")) {
                Some(s) => push_pair(&mut detail, "result_summary", s),
                None => {},
            }
            proof {
                assert(crate::json::dv_pairs(detail@) =~= with_err + maybe_pair(
                    "result_summary"@,
                    spec_mcp_summary(item.dv().get("result"@)),
                ));
            }
            let sok = match status {
                Some(s) => str_eq(s.as_str(), "completed"),
                None => false,
            };
            let err_none = match err {
                Some(_) => false,
                None => true,
            };
            ok = Some(sok && err_none);
        }
        let act = Action { id, kind: ActionKind::Tool, title, detail };
        return events1(
            Event::Action {
                engine: Engine::Codex,
                phase,
                action: act,
                ok,
                message: None,
                level: None,
            },
        );
    }
    if str_eq(it, "web_search") {
        let query: String = match item.get_string("query") {
            Some(q) => q.clone(),
            None => "search".to_owned(),
        };
        let mut detail = pairs0();
        push_pair(&mut detail, "query", JsonValue::Str(query.clone()));
        proof {
            assert(crate::json::dv_pairs(detail@) =~= seq![("query"@, JsonVal::Str(query@))]);
        }
        let ok: Option<bool> = if completed {
            Some(true)
        } else {
            None
        };
        let act = Action { id, kind: ActionKind::WebSearch, title: query, detail };
        return events1(
            Event::Action {
                engine: Engine::Codex,
                phase,
                action: act,
                ok,
                message: None,
                level: None,
            },
        );
    }
    if str_eq(it, "file_change") {
        if !completed {
            return events0();
        }
        let ts = codex_change_summary(item.get("changes"));
        let (title, changes) = ts;
        let ghost cv = changes.dv();
        let status = item.get_string("status");
        let mut detail = pairs0();
        push_pair(&mut detail, "changes", changes);
        match status {
            Some(s) => push_pair(&mut detail, "status", JsonValue::Str(s.clone())),
            None => {},
        }
        proof {
            assert(crate::json::dv_pairs(detail@) =~= seq![("changes"@, cv)] + maybe_str_pair(
                "status"@,
                item.dv().get_str("status"@),
            ));
        }
        let ok = match status {
            Some(s) => str_eq(s.as_str(), "completed"),
            None => false,
        };
        let act = Action { id, kind: ActionKind::FileChange, title, detail };
        return events1(
            Event::Action {
                engine: Engine::Codex,
                phase: Phase::Completed,
                action: act,
                ok: Some(ok),
                message: None,
                level: None,
            },
        );
    }
    if str_eq(it, "todo_list") {
        let s = codex_todo_summary(item.get("items"));
        let (done, total, next_text) = s;
        let title: String = if total == 0 {
            "todo".to_owned()
        } else {
            let mut tt = "todo ".to_owned();
            tt.append(u64_to_dec(done).as_str());
            tt.append("/");
            tt.append(u64_to_dec(total).as_str());
            match &next_text {
                Some(next) => {
                    tt.append(": ");
                    tt.append(next.as_str());
                },
                None => {
                    tt.append(": done");
                },
            }
            tt
        };
        proof {
            let sp = spec_todo_summary(match item.dv().get("items"@) {
                Some(v) => Some(v),
                None => None,
            });
            if sp.1 != 0 {
                match sp.2 {
                    Some(t) => {
                        assert(title@ =~= "todo "@ + spec_dec(sp.0) + "/"@ + spec_dec(sp.1) + ": "@
                            + t);
                    },
                    None => {
                        assert(title@ =~= "todo "@ + spec_dec(sp.0) + "/"@ + spec_dec(sp.1)
                            + ": done"@);
                    },
                }
            }
        }
        let mut detail = pairs0();
        push_pair(&mut detail, "done", JsonValue::Int(u64_to_i64(done)));
        push_pair(&mut detail, "total", JsonValue::Int(u64_to_i64(total)));
        proof {
            let sp = spec_todo_summary(match item.dv().get("items"@) {
                Some(v) => Some(v),
                None => None,
            });
            assert(crate::json::dv_pairs(detail@) =~= seq![
                ("done"@, JsonVal::Int(clamp_i64(sp.0))),
                ("total"@, JsonVal::Int(clamp_i64(sp.1))),
            ]);
        }
        let ok: Option<bool> = if completed {
            Some(true)
        } else {
            None
        };
        let act = Action { id, kind: ActionKind::Note, title, detail };
        return events1(
            Event::Action {
                engine: Engine::Codex,
                phase,
                action: act,
                ok,
                message: None,
                level: None,
            },
        );
    }
    if str_eq(it, "reasoning") {
        let text: String = match item.get_string("text") {
            Some(t) => t.clone(),
            None => "note".to_owned(),
        };
        let ok: Option<bool> = if completed {
            Some(true)
        } else {
            None
        };
        let act = Action { id, kind: ActionKind::Note, title: text, detail: pairs0() };
        return events1(
            Event::Action {
                engine: Engine::Codex,
                phase,
                action: act,
                ok,
                message: None,
                level: None,
            },
        );
    }
    if str_eq(it, "error") {
        let message: String = match item.get_string("message") {
            Some(m) => m.clone(),
            None => "error".to_owned(),
        };
        let mut detail = pairs0();
        push_pair(&mut detail, "message", JsonValue::Str(message.clone()));
        proof {
            assert(crate::json::dv_pairs(detail@) =~= seq![("message"@, JsonVal::Str(message@))]);
        }
        let act = Action {
            id,
            kind: ActionKind::Warning,
            title: message.clone(),
            detail,
        };
        return events1(
            Event::Action {
                engine: Engine::Codex,
                phase: Phase::Completed,
                action: act,
                ok: Some(false),
                message: Some(message),
                level: Some("warning".to_owned()),
            },
        );
    }
    events0()
}

/// One Codex step over an incoming JSON value. `None` means the value is
/// not a Codex stream event.
pub fn parse_codex_event(v: &JsonValue, state: &mut CodexState) -> (r: Option<Vec<Event>>)
    ensures
        ({
            let s = spec_codex_step(old(state).dv(), v.dv());
            final(state).dv() == s.0 && events_match(r, s.1)
        }),
{
    let t: String = match v.get_string("type") {
        Some(t) => t.clone(),
        None => {
            return None;
        },
    };
    if str_eq(t.as_str(), "thread.started") {
        let tid: String = match v.get_string("thread_id") {
            Some(s) => s.clone(),
            None => {
                return None;
            },
        };
        state.resume = Some(tid.clone());
        return Some(
            events1(
                Event::Started {
                    engine: Engine::Codex,
                    resume: tid,
                    title: Some("Codex".to_owned()),
                    meta: None,
                },
            ),
        );
    }
    if str_eq(t.as_str(), "turn.started") {
        let mut id = "turn:".to_owned();
        id.append(u64_to_dec(state.turn_index).as_str());
        proof {
            assert(id@ =~= "turn:"@ + spec_dec(old(state).dv().turn_index));
        }
        state.turn_index = counter_inc(state.turn_index);
        let act = Action {
            id,
            kind: ActionKind::Turn,
            title: "turn started".to_owned(),
            detail: pairs0(),
        };
        return Some(
            events1(
                Event::Action {
                    engine: Engine::Codex,
                    phase: Phase::Started,
                    action: act,
                    ok: None,
                    message: None,
                    level: None,
                },
            ),
        );
    }
    if str_eq(t.as_str(), "turn.completed") {
        let prev: u64 = if state.turn_index > 0 {
            state.turn_index - 1
        } else {
            0
        };
        let mut id = "turn:".to_owned();
        id.append(u64_to_dec(prev).as_str());
        proof {
            assert(id@ =~= "turn:"@ + spec_dec(prev as int));
        }
        let act = Action {
            id,
            kind: ActionKind::Turn,
            title: "turn completed".to_owned(),
            detail: pairs0(),
        };
        let usage: Option<JsonValue> = match v.get("usage") {
            Some(u) => Some(u.dup()),
            None => None,
        };
        let answer: String = match &state.answer {
            Some(a) => a.clone(),
            None => String::new(),
        };
        let resume: Option<String> = match &state.resume {
            Some(r) => Some(r.clone()),
            None => None,
        };
        let e1 = Event::Action {
            engine: Engine::Codex,
            phase: Phase::Completed,
            action: act,
            ok: Some(true),
            message: None,
            level: None,
        };
        let e2 = Event::Completed {
            engine: Engine::Codex,
            ok: true,
            answer,
            resume,
            error: None,
            usage,
        };
        return Some(events2(e1, e2));
    }
    if str_eq(t.as_str(), "turn.failed") {
        let emsg: Option<String> = match v.get("error") {
            Some(e) => match e.get_string("message") {
                Some(m) => Some(m.clone()),
                None => None,
            },
            None => None,
        };
        let answer: String = match &state.answer {
            Some(a) => a.clone(),
            None => String::new(),
        };
        let resume: Option<String> = match &state.resume {
            Some(r) => Some(r.clone()),
            None => None,
        };
        return Some(
            events1(
                Event::Completed {
                    engine: Engine::Codex,
                    ok: false,
                    answer,
                    resume,
                    error: emsg,
                    usage: None,
                },
            ),
        );
    }
    if str_eq(t.as_str(), "error") {
        match v.get_string("message") {
            Some(m) => {
                let m = m.clone();
                state.note_seq = counter_inc(state.note_seq);
                let mut id = "codex.note.".to_owned();
                id.append(u64_to_dec(state.note_seq).as_str());
                proof {
                    assert(id@ =~= "codex.note."@ + spec_dec(sat_inc(old(state).dv().note_seq)));
                }
                let mut detail = pairs0();
                push_pair(&mut detail, "message", JsonValue::Str(m.clone()));
                proof {
                    assert(crate::json::dv_pairs(detail@) =~= seq![("message"@, JsonVal::Str(m@))]);
                }
                let act = Action { id, kind: ActionKind::Warning, title: m.clone(), detail };
                return Some(
                    events1(
                        Event::Action {
                            engine: Engine::Codex,
                            phase: Phase::Completed,
                            action: act,
                            ok: Some(false),
                            message: Some(m),
                            level: Some("warning".to_owned()),
                        },
                    ),
                );
            },
            None => {
                return Some(events0());
            },
        }
    }
    let is_started = str_eq(t.as_str(), "item.started");
    let is_updated = str_eq(t.as_str(), "item.updated");
    let is_completed = str_eq(t.as_str(), "item.completed");
    if is_started || is_updated || is_completed {
        let phase = if is_started {
            Phase::Started
        } else if is_updated {
            Phase::Updated
        } else {
            Phase::Completed
        };
        match v.get("item") {
            Some(item) => {
                let evs = codex_item_events(phase, item, state);
                return Some(evs);
            },
            None => {
                return None;
            },
        }
    }
    None
}

} // verus!
