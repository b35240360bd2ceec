//! The Anthropic half of the normalizer.
//!
//! Anthropic streams assistant messages whose content blocks interleave tool
//! calls, tool results, thinking notes and user-facing text. The parser
//! keeps a pending table of in-flight tool calls keyed by tool-use id; a
//! result consumes its matching entry, or fabricates a minimal action when
//! none is pending.

use vstd::prelude::*;

use crate::events::{
    action_ev, completed_ev, dv_events, events0, events1, events_match, message_ev, started_ev,
    push_event, Action, ActionKind, ActionV, Engine, Event, EventV, Phase,
};
use crate::json::{
    dv_pairs, dv_seq, lemma_dv_pairs, lemma_dv_seq, lookup, pairs0, push_pair, JsonVal, JsonValue,
};
use crate::codex::{clamp_i64, counter_inc, maybe_pair, maybe_str_pair, or_empty, sat_inc, u64_to_i64};
use crate::strutil::{spec_dec, spec_dec_i64, spec_lower, str_eq, str_eq_lower, u64_to_dec};

verus! {

/// Per-parser Anthropic state: the resume token, the pending tool calls in
/// insertion order, and the informational-note counter.
pub struct AnthropicState {
    pub resume: Option<String>,
    pub pending: Vec<(String, Action)>,
    pub note_seq: u64,
}

/// The view of a `AnthropicState`.
pub struct AnthropicStateV {
    pub resume: Option<Seq<char>>,
    pub pending: Seq<(Seq<char>, ActionV)>,
    pub note_seq: int,
}

/// The views of a pending table.
pub open spec fn pdv(s: Seq<(String, Action)>) -> Seq<(Seq<char>, ActionV)>
    decreases s.len(),
{
    if s.len() == 0 {
        Seq::empty()
    } else {
        pdv(s.subrange(0, s.len() - 1)).push((s[s.len() - 1].0@, s[s.len() - 1].1.dv()))
    }
}

/// `pdv` maps the view pointwise.
pub proof fn lemma_pdv(s: Seq<(String, Action)>)
    ensures
        pdv(s).len() == s.len(),
        forall|i: int| 0 <= i < s.len() ==> #[trigger] pdv(s)[i] == (s[i].0@, s[i].1.dv()),
    decreases s.len(),
{
    if s.len() > 0 {
        lemma_pdv(s.subrange(0, s.len() - 1));
        assert(forall|i: int|
            0 <= i < s.len() - 1 ==> s.subrange(0, s.len() - 1)[i] == #[trigger] s[i]);
    }
}

/// The first pending action under `k`.
pub open spec fn plookup(p: Seq<(Seq<char>, ActionV)>, k: Seq<char>) -> Option<ActionV>
    decreases p.len(),
{
    if p.len() == 0 {
        None
    } else if p[0].0 == k {
        Some(p[0].1)
    } else {
        plookup(p.subrange(1, p.len() as int), k)
    }
}

/// The table without its first entry under `k`.
pub open spec fn premove(p: Seq<(Seq<char>, ActionV)>, k: Seq<char>) -> Seq<(Seq<char>, ActionV)>
    decreases p.len(),
{
    if p.len() == 0 {
        p
    } else if p[0].0 == k {
        p.subrange(1, p.len() as int)
    } else {
        seq![p[0]] + premove(p.subrange(1, p.len() as int), k)
    }
}

/// Storing under `k`: any entry under `k` leaves, the new one goes to the
/// back.
pub open spec fn pinsert(
    p: Seq<(Seq<char>, ActionV)>,
    k: Seq<char>,
    a: ActionV,
) -> Seq<(Seq<char>, ActionV)> {
    premove(p, k).push((k, a))
}

/// At the first index holding `k`, `plookup` finds that entry and `premove`
/// cuts it out.
pub proof fn lemma_premove_at(p: Seq<(Seq<char>, ActionV)>, k: Seq<char>, i: int)
    requires
        0 <= i < p.len(),
        p[i].0 == k,
        forall|j: int| 0 <= j < i ==> p[j].0 != k,
    ensures
        plookup(p, k) == Some(p[i].1),
        premove(p, k) =~= p.subrange(0, i) + p.subrange(i + 1, p.len() as int),
    decreases i,
{
    if i == 0 {
        assert(premove(p, k) == p.subrange(1, p.len() as int));
        assert(p.subrange(0, 0) + p.subrange(1, p.len() as int) =~= p.subrange(
            1,
            p.len() as int,
        ));
    } else {
        let rest = p.subrange(1, p.len() as int);
        assert(forall|j: int| 0 <= j < i - 1 ==> rest[j] == #[trigger] p[j + 1]);
        lemma_premove_at(rest, k, i - 1);
        assert(rest.subrange(0, i - 1) =~= p.subrange(1, i));
        assert(rest.subrange(i, rest.len() as int) =~= p.subrange(i + 1, p.len() as int));
        assert(premove(p, k) =~= seq![p[0]] + (rest.subrange(0, i - 1) + rest.subrange(
            i,
            rest.len() as int,
        )));
        assert(seq![p[0]] + (p.subrange(1, i) + p.subrange(i + 1, p.len() as int)) =~= p.subrange(
            0,
            i,
        ) + p.subrange(i + 1, p.len() as int));
    }
}

/// When no entry holds `k`, `plookup` finds nothing and `premove` changes
/// nothing.
pub proof fn lemma_premove_absent(p: Seq<(Seq<char>, ActionV)>, k: Seq<char>)
    requires
        forall|j: int| 0 <= j < p.len() ==> p[j].0 != k,
    ensures
        plookup(p, k) is None,
        premove(p, k) =~= p,
    decreases p.len(),
{
    if p.len() > 0 {
        let rest = p.subrange(1, p.len() as int);
        assert(forall|j: int| 0 <= j < rest.len() ==> rest[j] == #[trigger] p[j + 1]);
        lemma_premove_absent(rest, k);
        assert(seq![p[0]] + rest =~= p);
    }
}

/// When `plookup` finds nothing under `k`, `premove` changes nothing.
pub proof fn lemma_premove_absent_from_lookup(p: Seq<(Seq<char>, ActionV)>, k: Seq<char>)
    requires
        plookup(p, k) is None,
    ensures
        premove(p, k) =~= p,
    decreases p.len(),
{
    if p.len() > 0 {
        let rest = p.subrange(1, p.len() as int);
        lemma_premove_absent_from_lookup(rest, k);
        assert(seq![p[0]] + rest =~= p);
    }
}

impl AnthropicState {
    /// The view of the state.
    pub open spec fn dv(self) -> AnthropicStateV {
        AnthropicStateV {
            resume: crate::events::opt_view(self.resume),
            pending: pdv(self.pending@),
            note_seq: self.note_seq as int,
        }
    }

    /// A fresh state: no resume token, nothing pending, the counter at zero.
    pub fn new() -> (r: AnthropicState)
        ensures
            r.dv() == (AnthropicStateV { resume: None, pending: Seq::empty(), note_seq: 0 }),
    {
        let r = AnthropicState { resume: None, pending: Vec::new(), note_seq: 0 };
        proof {
            assert(pdv(r.pending@) =~= Seq::<(Seq<char>, ActionV)>::empty());
        }
        r
    }
}

/// Takes the first pending entry under `key` out of the table.
#[verifier::loop_isolation(false)]
pub fn pending_remove(p: &mut Vec<(String, Action)>, key: &str) -> (r: Option<Action>)
    ensures
        pdv(final(p)@) == premove(pdv(old(p)@), key@),
        match r {
            Some(a) => plookup(pdv(old(p)@), key@) == Some(a.dv()),
            None => plookup(pdv(old(p)@), key@) is None,
        },
{
    proof {
        lemma_pdv(p@);
    }
    let ghost pv = pdv(p@);
    let mut i: usize = 0;
    while i < p.len()
        invariant
            0 <= i <= p@.len(),
            p@ == old(p)@,
            forall|j: int| 0 <= j < i ==> pv[j].0 != key@,
        decreases p@.len() - i,
    {
        if str_eq(p[i].0.as_str(), key) {
            let entry = p.remove(i);
            proof {
                lemma_premove_at(pv, key@, i as int);
                lemma_pdv(p@);
                assert(pdv(p@) =~= pv.subrange(0, i as int) + pv.subrange(
                    i + 1,
                    pv.len() as int,
                ));
            }
            return Some(entry.1);
        }
        i += 1;
    }
    proof {
        lemma_premove_absent(pv, key@);
    }
    None
}

/// Stores an action under `key`, replacing any pending entry under it.
pub fn pending_insert(p: &mut Vec<(String, Action)>, key: &str, a: Action)
    ensures
        pdv(final(p)@) == pinsert(pdv(old(p)@), key@, a.dv()),
{
    let ghost av = a.dv();
    let _ = pending_remove(p, key);
    let ghost mid = p@;
    p.push((key.to_owned(), a));
    proof {
        lemma_pdv(mid);
        lemma_pdv(p@);
        assert(pdv(p@) =~= pdv(mid).push((key@, av)));
    }
}

/// The running todo tally: pending, in progress, completed, and the display
/// form of the first item in progress.
pub open spec fn ctodo_step(
    acc: (int, int, int, Option<Seq<char>>),
    x: JsonVal,
) -> (int, int, int, Option<Seq<char>>) {
    match x.as_obj() {
        None => acc,
        Some(_) => {
            let status = match x.get_str("status"@) {
                Some(s) => s,
                None => "pending"@,
            };
            if status == "completed"@ {
                (acc.0, acc.1, acc.2 + 1, acc.3)
            } else if status == "in_progress"@ {
                let task = if acc.3 is None {
                    match x.get("activeForm"@) {
                        Some(v) => v.as_str(),
                        None => x.get_str("content"@),
                    }
                } else {
                    acc.3
                };
                (acc.0, acc.1 + 1, acc.2, task)
            } else {
                (acc.0 + 1, acc.1, acc.2, acc.3)
            }
        },
    }
}

/// The tally over a list of todo entries.
pub open spec fn ctodo_fold(s: Seq<JsonVal>) -> (int, int, int, Option<Seq<char>>)
    decreases s.len(),
{
    if s.len() == 0 {
        (0, 0, 0, None)
    } else {
        ctodo_step(ctodo_fold(s.subrange(0, s.len() - 1)), s[s.len() - 1])
    }
}

/// Every counted todo entry lands in exactly one bucket, so the buckets add
/// up: the `total` a TodoWrite action publishes is by construction
/// `pending + in_progress + completed`, and the buckets never exceed the
/// number of entries.
pub proof fn lemma_ctodo_sum(s: Seq<JsonVal>)
    ensures
        ({
            let t = ctodo_fold(s);
            0 <= t.0 && 0 <= t.1 && 0 <= t.2 && t.0 + t.1 + t.2 <= s.len()
        }),
    decreases s.len(),
{
    if s.len() > 0 {
        lemma_ctodo_sum(s.subrange(0, s.len() - 1));
    }
}

/// Within the machine bound on a todo list's length, the clamped counts a
/// TodoWrite action publishes are exact, and they add up:
/// `pending + in_progress + completed == total`.
pub proof fn lemma_todo_counts_exact(s: Seq<JsonVal>)
    requires
        s.len() <= 0x7fff_ffff_ffff_ffff,
    ensures
        ({
            let t = ctodo_fold(s);
            &&& clamp_i64(t.0) == t.0
            &&& clamp_i64(t.1) == t.1
            &&& clamp_i64(t.2) == t.2
            &&& clamp_i64(t.0 + t.1 + t.2) == t.0 + t.1 + t.2
            &&& t.0 + t.1 + t.2 <= s.len()
        }),
{
    lemma_ctodo_sum(s);
}

/// The title of a todo action: completed over total, and what is being
/// worked on, or `done` when everything is.
pub open spec fn spec_todo_title(c: int, total: int, task: Option<Seq<char>>) -> Seq<char> {
    match task {
        Some(t) => "todo "@ + spec_dec(c) + "/"@ + spec_dec(total) + ": "@ + t,
        None => if c == total && total > 0 {
            "todo "@ + spec_dec(c) + "/"@ + spec_dec(total) + ": done"@
        } else {
            "todo "@ + spec_dec(c) + "/"@ + spec_dec(total)
        },
    }
}

/// The title and detail of a TodoWrite action: the tally, the todo list
/// itself, and the current task when one is in progress.
pub open spec fn spec_anthropic_todos(input: Seq<(Seq<char>, JsonVal)>) -> (
    Seq<char>,
    Seq<(Seq<char>, JsonVal)>,
) {
    match lookup(input, "todos"@) {
        Some(tv) => match tv {
            JsonVal::Arr(todos) => {
                let t = ctodo_fold(todos);
                let total = t.0 + t.1 + t.2;
                let detail = seq![
                    ("pending"@, JsonVal::Int(clamp_i64(t.0))),
                    ("in_progress"@, JsonVal::Int(clamp_i64(t.1))),
                    ("completed"@, JsonVal::Int(clamp_i64(t.2))),
                    ("total"@, JsonVal::Int(clamp_i64(total))),
                    ("todos"@, JsonVal::Arr(todos)),
                ] + maybe_str_pair("current_task"@, t.3);
                (spec_todo_title(t.2, total, t.3), detail)
            },
            _ => ("todo"@, Seq::empty()),
        },
        None => ("todo"@, Seq::empty()),
    }
}

/// Tallies a TodoWrite input into a title and detail. The counts always
/// satisfy `pending + in_progress + completed == total`.
#[verifier::loop_isolation(false)]
pub fn parse_anthropic_todos(input: &Vec<(String, JsonValue)>) -> (r: (String, Vec<(String, JsonValue)>))
    ensures
        (r.0@, dv_pairs(r.1@)) == spec_anthropic_todos(dv_pairs(input@)),
{
    let todos_val = match crate::json::obj_lookup(input, "todos") {
        Some(v) => v,
        None => {
            let d = pairs0();
            proof {
                assert(dv_pairs(d@) =~= Seq::<(Seq<char>, JsonVal)>::empty());
            }
            return ("todo".to_owned(), d);
        },
    };
    let todos = match todos_val.as_arr() {
        Some(list) => list,
        None => {
            let d = pairs0();
            proof {
                assert(dv_pairs(d@) =~= Seq::<(Seq<char>, JsonVal)>::empty());
            }
            return ("todo".to_owned(), d);
        },
    };
    proof {
        lemma_dv_seq(todos@);
    }
    let ghost lv = dv_seq(todos@);
    let mut pending: u64 = 0;
    let mut in_progress: u64 = 0;
    let mut completed: u64 = 0;
    let mut task: Option<String> = None;
    let mut i: usize = 0;
    proof {
        assert(lv.subrange(0, 0) =~= Seq::<JsonVal>::empty());
        reveal_strlit("pending");
        reveal_strlit("in_progress");
        reveal_strlit("completed");
    }
    while i < todos.len()
        invariant
            0 <= i <= todos@.len(),
            pending + in_progress + completed <= i,
            ({
                let t = ctodo_fold(lv.subrange(0, i as int));
                pending as int == t.0 && in_progress as int == t.1 && completed as int == t.2
                    && crate::events::opt_view(task) == t.3
            }),
        decreases todos@.len() - i,
    {
        let entry = &todos[i];
        proof {
            assert(lv.subrange(0, i + 1).subrange(0, i as int) =~= lv.subrange(0, i as int));
            assert(lv.subrange(0, i + 1)[i as int] == lv[i as int]);
            assert(lv[i as int] == todos@[i as int].dv());
        }
        match entry.as_obj() {
            None => {},
            Some(_) => {
                let is_completed = match entry.get_string("status") {
                    Some(s) => str_eq(s.as_str(), "completed"),
                    None => false,
                };
                let is_in_progress = match entry.get_string("status") {
                    Some(s) => str_eq(s.as_str(), "in_progress"),
                    None => false,
                };
                if is_completed {
                    completed = completed + 1;
                } else if is_in_progress {
                    in_progress = in_progress + 1;
                    if task.is_none() {
                        match entry.get("activeForm") {
                            Some(v) => match v.as_string() {
                                Some(s) => {
                                    task = Some(s.clone());
                                },
                                None => {},
                            },
                            None => match entry.get_string("content") {
                                Some(s) => {
                                    task = Some(s.clone());
                                },
                                None => {},
                            },
                        }
                    }
                } else {
                    pending = pending + 1;
                }
            },
        }
        proof {
            reveal_strlit("pending");
            reveal_strlit("in_progress");
            reveal_strlit("completed");
            assert("pending"@.len() == 7);
            assert("completed"@.len() == 9);
            assert("pending"@ != "completed"@);
            assert("pending"@ != "in_progress"@);
            let tprev = ctodo_fold(lv.subrange(0, i as int));
            let tnext = ctodo_step(tprev, lv[i as int]);
            assert(ctodo_fold(lv.subrange(0, i + 1)) == tnext);
            assert(pending as int == tnext.0);
            assert(in_progress as int == tnext.1);
            assert(completed as int == tnext.2);
            assert(crate::events::opt_view(task) == tnext.3);
        }
        i += 1;
    }
    proof {
        assert(lv.subrange(0, lv.len() as int) =~= lv);
    }
    let total: u64 = pending + in_progress + completed;
    let title: String = {
        let mut tt = "todo ".to_owned();
        tt.append(u64_to_dec(completed).as_str());
        tt.append("/");
        tt.append(u64_to_dec(total).as_str());
        match &task {
            Some(t) => {
                tt.append(": ");
                tt.append(t.as_str());
            },
            None => {
                if completed == total && total > 0 {
                    tt.append(": done");
                }
            },
        }
        proof {
            let t = ctodo_fold(lv);
            assert(tt@ =~= spec_todo_title(t.2, t.0 + t.1 + t.2, t.3));
        }
        tt
    };
    let mut detail = pairs0();
    push_pair(&mut detail, "pending", JsonValue::Int(u64_to_i64(pending)));
    push_pair(&mut detail, "in_progress", JsonValue::Int(u64_to_i64(in_progress)));
    push_pair(&mut detail, "completed", JsonValue::Int(u64_to_i64(completed)));
    push_pair(&mut detail, "total", JsonValue::Int(u64_to_i64(total)));
    push_pair(&mut detail, "todos", todos_val.dup());
    match &task {
        Some(t) => push_pair(&mut detail, "current_task", JsonValue::Str(t.clone())),
        None => {},
    }
    proof {
        let t = ctodo_fold(lv);
        let total_s = t.0 + t.1 + t.2;
        assert(dv_pairs(detail@) =~= seq![
            ("pending"@, JsonVal::Int(clamp_i64(t.0))),
            ("in_progress"@, JsonVal::Int(clamp_i64(t.1))),
            ("completed"@, JsonVal::Int(clamp_i64(t.2))),
            ("total"@, JsonVal::Int(clamp_i64(total_s))),
            ("todos"@, JsonVal::Arr(lv)),
        ] + maybe_str_pair("current_task"@, t.3));
    }
    (title, detail)
}

/// The kind a tool name maps to, on its lower-cased form.
pub open spec fn spec_tool_kind(lower: Seq<char>) -> ActionKind {
    if lower == "bash"@ || lower == "shell"@ {
        ActionKind::Command
    } else if lower == "read"@ || lower == "edit"@ || lower == "write"@ || lower == "multiedit"@ {
        ActionKind::FileChange
    } else if lower == "websearch"@ || lower == "web_search"@ || lower == "webfetch"@ || lower
        == "browser"@ {
        ActionKind::WebSearch
    } else if lower == "task"@ || lower == "agent"@ {
        ActionKind::Subagent
    } else {
        ActionKind::Tool
    }
}

/// Classifies a tool name, case-insensitively, into its action kind.
pub fn tool_kind(name: &str) -> (r: ActionKind)
    ensures
        r == spec_tool_kind(spec_lower(name@)),
{
    if str_eq_lower(name, "bash") || str_eq_lower(name, "shell") {
        ActionKind::Command
    } else if str_eq_lower(name, "read") || str_eq_lower(name, "edit") || str_eq_lower(
        name,
        "write",
    ) || str_eq_lower(name, "multiedit") {
        ActionKind::FileChange
    } else if str_eq_lower(name, "websearch") || str_eq_lower(name, "web_search") || str_eq_lower(
        name,
        "webfetch",
    ) || str_eq_lower(name, "browser") {
        ActionKind::WebSearch
    } else if str_eq_lower(name, "task") || str_eq_lower(name, "agent") {
        ActionKind::Subagent
    } else {
        ActionKind::Tool
    }
}

/// The string under an optional value, when it is a non-empty string.
pub open spec fn str_nonempty(v: Option<JsonVal>) -> Option<Seq<char>> {
    match v {
        Some(w) => match w {
            JsonVal::Str(s) => if s.len() > 0 {
                Some(s)
            } else {
                None
            },
            _ => None,
        },
        None => None,
    }
}

/// The first non-empty path a tool input names, under `file_path` then
/// `path`.
pub open spec fn spec_input_path(input: Seq<(Seq<char>, JsonVal)>) -> Option<Seq<char>> {
    match str_nonempty(lookup(input, "file_path"@)) {
        Some(p) => Some(p),
        None => str_nonempty(lookup(input, "path"@)),
    }
}

/// Extracts the first non-empty path from a tool input.
pub fn tool_input_path(input: &Vec<(String, JsonValue)>) -> (r: Option<String>)
    ensures
        crate::events::opt_view(r) == spec_input_path(dv_pairs(input@)),
{
    match crate::json::obj_lookup(input, "file_path") {
        Some(v) => match v.as_string() {
            Some(s) => {
                if s.unicode_len() > 0 {
                    return Some(s.clone());
                }
            },
            None => {},
        },
        None => {},
    }
    match crate::json::obj_lookup(input, "path") {
        Some(v) => match v.as_string() {
            Some(s) => {
                if s.unicode_len() > 0 {
                    return Some(s.clone());
                }
            },
            None => {},
        },
        None => {},
    }
    None
}

/// The string content of an option, or a fallback name.
pub open spec fn or_name(o: Option<Seq<char>>, name: Seq<char>) -> Seq<char> {
    match o {
        Some(s) => s,
        None => name,
    }
}

/// The title of a tool action: the most relevant input field for the kind,
/// the tool name when none fits.
pub open spec fn spec_tool_title(
    kind: ActionKind,
    name: Seq<char>,
    input: Seq<(Seq<char>, JsonVal)>,
) -> Seq<char> {
    match kind {
        ActionKind::Command => match lookup(input, "command"@) {
            Some(v) => or_name(v.as_str(), name),
            None => name,
        },
        ActionKind::FileChange => or_name(spec_input_path(input), name),
        ActionKind::WebSearch => match lookup(input, "query"@) {
            Some(v) => or_name(v.as_str(), name),
            None => match lookup(input, "url"@) {
                Some(v) => or_name(v.as_str(), name),
                None => name,
            },
        },
        ActionKind::Subagent => match lookup(input, "title"@) {
            Some(v) => or_name(v.as_str(), name),
            None => match lookup(input, "name"@) {
                Some(v) => or_name(v.as_str(), name),
                None => name,
            },
        },
        _ => name,
    }
}

/// Derives the title of a tool action from its input.
pub fn tool_title(kind: ActionKind, name: &str, input: &Vec<(String, JsonValue)>) -> (r: String)
    ensures
        r@ == spec_tool_title(kind, name@, dv_pairs(input@)),
{
    match kind {
        ActionKind::Command => match crate::json::obj_lookup(input, "command") {
            Some(v) => match v.as_string() {
                Some(s) => s.clone(),
                None => name.to_owned(),
            },
            None => name.to_owned(),
        },
        ActionKind::FileChange => match tool_input_path(input) {
            Some(p) => p,
            None => name.to_owned(),
        },
        ActionKind::WebSearch => match crate::json::obj_lookup(input, "query") {
            Some(v) => match v.as_string() {
                Some(s) => s.clone(),
                None => name.to_owned(),
            },
            None => match crate::json::obj_lookup(input, "url") {
                Some(v) => match v.as_string() {
                    Some(s) => s.clone(),
                    None => name.to_owned(),
                },
                None => name.to_owned(),
            },
        },
        ActionKind::Subagent => match crate::json::obj_lookup(input, "title") {
            Some(v) => match v.as_string() {
                Some(s) => s.clone(),
                None => name.to_owned(),
            },
            None => match crate::json::obj_lookup(input, "name") {
                Some(v) => match v.as_string() {
                    Some(s) => s.clone(),
                    None => name.to_owned(),
                },
                None => name.to_owned(),
            },
        },
        _ => name.to_owned(),
    }
}

/// The text parts a result-content list contributes: every non-empty `text`
/// field, in order.
pub open spec fn preview_parts(s: Seq<JsonVal>) -> Seq<Seq<char>>
    decreases s.len(),
{
    if s.len() == 0 {
        Seq::empty()
    } else {
        preview_parts(s.subrange(0, s.len() - 1)) + (match s[s.len() - 1].get_str("text"@) {
            Some(t) => if t.len() > 0 {
                seq![t]
            } else {
                Seq::empty()
            },
            None => Seq::empty(),
        })
    }
}

/// The flattened preview of a tool result's content: a string as itself, a
/// list joined on its text fields, an object's text field, a scalar as its
/// JSON text.
pub open spec fn spec_result_preview(content: Option<JsonVal>) -> Seq<char> {
    match content {
        None => Seq::empty(),
        Some(c) => match c {
            JsonVal::Str(s) => s,
            JsonVal::Arr(items) => crate::strutil::spec_join(preview_parts(items), "\n"@),
            JsonVal::Obj(o) => match c.get_str("text"@) {
                Some(t) => t,
                None => Seq::empty(),
            },
            JsonVal::Null => "null"@,
            JsonVal::Bool(b) => if b {
                "true"@
            } else {
                "false"@
            },
            JsonVal::Int(i) => spec_dec_i64(i),
            JsonVal::Num(s) => s,
        },
    }
}

/// Flattens a tool result's content into its preview text.
#[verifier::loop_isolation(false)]
pub fn anthropic_result_preview(content: Option<&JsonValue>) -> (r: String)
    ensures
        r@ == spec_result_preview(match content {
            Some(c) => Some(c.dv()),
            None => None,
        }),
{
    let c = match content {
        Some(c) => c,
        None => {
            return String::new();
        },
    };
    match c {
        JsonValue::Str(s) => s.clone(),
        JsonValue::Arr(items) => {
            proof {
                lemma_dv_seq(items@);
            }
            let ghost lv = dv_seq(items@);
            let mut parts: Vec<String> = Vec::new();
            let mut i: usize = 0;
            proof {
                assert(lv.subrange(0, 0) =~= Seq::<JsonVal>::empty());
                assert(parts.deep_view() =~= preview_parts(lv.subrange(0, 0)));
            }
            while i < items.len()
                invariant
                    0 <= i <= items@.len(),
                    parts.deep_view() == preview_parts(lv.subrange(0, i as int)),
                decreases items@.len() - i,
            {
                let ghost prev = parts.deep_view();
                match items[i].get_string("text") {
                    Some(t) => {
                        if t.unicode_len() > 0 {
                            parts.push(t.clone());
                            proof {
                                assert(parts.deep_view() =~= prev.push(t@));
                            }
                        }
                    },
                    None => {},
                }
                proof {
                    assert(lv.subrange(0, i + 1).subrange(0, i as int) =~= lv.subrange(
                        0,
                        i as int,
                    ));
                    assert(lv.subrange(0, i + 1)[i as int] == lv[i as int]);
                    assert(lv[i as int] == items@[i as int].dv());
                    assert(parts.deep_view() =~= preview_parts(lv.subrange(0, i + 1)));
                }
                i += 1;
            }
            proof {
                assert(lv.subrange(0, lv.len() as int) =~= lv);
            }
            crate::strutil::join_strings(&parts, "\n")
        },
        JsonValue::Obj(_) => match c.get_string("text") {
            Some(t) => t.clone(),
            None => String::new(),
        },
        JsonValue::Null => "null".to_owned(),
        JsonValue::Bool(b) => if *b {
            "true".to_owned()
        } else {
            "false".to_owned()
        },
        JsonValue::Int(i) => crate::strutil::i64_to_dec(*i),
        JsonValue::Num(s) => s.clone(),
    }
}

/// The first line of a thinking block, without a carriage return left by a
/// CRLF line ending; `thinking` when the block is empty.
pub open spec fn spec_thinking_title(tx: Seq<char>) -> Seq<char> {
    if tx.len() == 0 {
        "thinking"@
    } else if exists|i: int| 0 <= i < tx.len() && tx[i] == '\n' {
        let i = choose|i: int|
            0 <= i < tx.len() && tx[i] == '\n' && forall|j: int| 0 <= j < i ==> tx[j] != '\n';
        if i > 0 && tx[i - 1] == '\r' {
            tx.subrange(0, i - 1)
        } else {
            tx.subrange(0, i)
        }
    } else {
        tx
    }
}

/// Extracts the title of a thinking note from its text.
#[verifier::loop_isolation(false)]
pub fn thinking_title(tx: &str) -> (r: String)
    ensures
        r@ == spec_thinking_title(tx@),
{
    let len = tx.unicode_len();
    if len == 0 {
        return "thinking".to_owned();
    }
    let mut i: usize = 0;
    while i < len
        invariant
            len == tx@.len(),
            0 <= i <= len,
            forall|j: int| 0 <= j < i ==> tx@[j] != '\n',
        decreases len - i,
    {
        if tx.get_char(i) == '\n' {
            proof {
                let w = choose|k: int|
                    0 <= k < tx@.len() && tx@[k] == '\n' && forall|j: int|
                        0 <= j < k ==> tx@[j] != '\n';
                assert(tx@[i as int] == '\n');
                assert(w == i as int);
            }
            let end: usize = if i > 0 && tx.get_char(i - 1) == '\r' {
                i - 1
            } else {
                i
            };
            let r = tx.substring_char(0, end);
            return r.to_owned();
        }
        i += 1;
    }
    proof {
        assert(!(exists|k: int| 0 <= k < tx@.len() && tx@[k] == '\n'));
    }
    tx.to_owned()
}

/// The length in bytes of a string's UTF-8 encoding, as the machine
/// reports it, clamped to the signed 64-bit range.
pub open spec fn byte_len(s: Seq<char>) -> int {
    clamp_i64((vstd::utf8::encode_utf8(s).len() as usize) as int)
}

/// One content block's step: the new state, the events it yields, and the
/// text it contributes to the message joined after the block loop.
pub open spec fn spec_anthropic_block(st: AnthropicStateV, block: JsonVal) -> (
    AnthropicStateV,
    Seq<EventV>,
    Seq<Seq<char>>,
) {
    let bt = or_empty(block.get_str("type"@));
    if bt == "tool_use"@ {
        match block.get_str("id"@) {
            None => (st, Seq::empty(), Seq::empty()),
            Some(tool_id) => {
                let name = match block.get_str("name"@) {
                    Some(n) => n,
                    None => "tool"@,
                };
                let input = match block.get("input"@) {
                    Some(v) => match v.as_obj() {
                        Some(o) => o,
                        None => Seq::empty(),
                    },
                    None => Seq::empty(),
                };
                let act = if spec_lower(name) == "todowrite"@ {
                    let td = spec_anthropic_todos(input);
                    ActionV { id: tool_id, kind: ActionKind::Todo, title: td.0, detail: td.1 }
                } else {
                    let kind = spec_tool_kind(spec_lower(name));
                    let detail = seq![
                        ("name"@, JsonVal::Str(name)),
                        ("input"@, JsonVal::Obj(input)),
                    ] + (if kind is FileChange {
                        match spec_input_path(input) {
                            Some(p) => seq![
                                (
                                    "changes"@,
                                    JsonVal::Arr(
                                        seq![
                                            JsonVal::Obj(
                                                seq![
                                                    ("path"@, JsonVal::Str(p)),
                                                    ("kind"@, JsonVal::Str("update"@)),
                                                ],
                                            ),
                                        ],
                                    ),
                                ),
                            ],
                            None => Seq::empty(),
                        }
                    } else {
                        Seq::empty()
                    });
                    ActionV {
                        id: tool_id,
                        kind,
                        title: spec_tool_title(kind, name, input),
                        detail,
                    }
                };
                (
                    AnthropicStateV {
                        resume: st.resume,
                        pending: pinsert(st.pending, tool_id, act),
                        note_seq: st.note_seq,
                    },
                    seq![
                        action_ev(Engine::Anthropic, Phase::Started, act, None, None, None),
                    ],
                    Seq::empty(),
                )
            },
        }
    } else if bt == "tool_result"@ {
        match block.get_str("tool_use_id"@) {
            None => (st, Seq::empty(), Seq::empty()),
            Some(tid) => {
                let act0 = match plookup(st.pending, tid) {
                    Some(a) => a,
                    None => ActionV {
                        id: tid,
                        kind: ActionKind::Tool,
                        title: "tool"@,
                        detail: Seq::empty(),
                    },
                };
                let preview = spec_result_preview(block.get("content"@));
                let is_error = block.get("is_error"@) == Some(JsonVal::Bool(true));
                let act = ActionV {
                    id: act0.id,
                    kind: act0.kind,
                    title: act0.title,
                    detail: act0.detail + seq![
                        ("tool_use_id"@, JsonVal::Str(tid)),
                        ("result_preview"@, JsonVal::Str(preview)),
                        ("result_len"@, JsonVal::Int(byte_len(preview))),
                        ("is_error"@, JsonVal::Bool(is_error)),
                    ],
                };
                (
                    AnthropicStateV {
                        resume: st.resume,
                        pending: premove(st.pending, tid),
                        note_seq: st.note_seq,
                    },
                    seq![
                        action_ev(
                            Engine::Anthropic,
                            Phase::Completed,
                            act,
                            Some(!is_error),
                            None,
                            None,
                        ),
                    ],
                    Seq::empty(),
                )
            },
        }
    } else if bt == "thinking"@ {
        match block.get_str("thinking"@) {
            Some(tx) => {
                let ns = sat_inc(st.note_seq);
                let act = ActionV {
                    id: "anthropic.note."@ + spec_dec(ns),
                    kind: ActionKind::Note,
                    title: spec_thinking_title(tx),
                    detail: seq![("thinking"@, JsonVal::Str(tx))],
                };
                (
                    AnthropicStateV { resume: st.resume, pending: st.pending, note_seq: ns },
                    seq![
                        action_ev(
                            Engine::Anthropic,
                            Phase::Completed,
                            act,
                            Some(true),
                            None,
                            None,
                        ),
                    ],
                    Seq::empty(),
                )
            },
            None => (st, Seq::empty(), Seq::empty()),
        }
    } else if bt == "text"@ {
        match block.get_str("text"@) {
            Some(t) => (st, Seq::empty(), seq![t]),
            None => (st, Seq::empty(), Seq::empty()),
        }
    } else {
        (st, Seq::empty(), Seq::empty())
    }
}

/// The blocks of an assistant message, folded in order.
pub open spec fn spec_anthropic_blocks(st: AnthropicStateV, s: Seq<JsonVal>) -> (
    AnthropicStateV,
    Seq<EventV>,
    Seq<Seq<char>>,
)
    decreases s.len(),
{
    if s.len() == 0 {
        (st, Seq::empty(), Seq::empty())
    } else {
        let r = spec_anthropic_blocks(st, s.subrange(0, s.len() - 1));
        let b = spec_anthropic_block(r.0, s[s.len() - 1]);
        (b.0, r.1 + b.1, r.2 + b.2)
    }
}

/// One Anthropic step: the new state and, when the value is recognized, the
/// events it yields. A `system` value that is not the init record yields an
/// empty event list. The terminal `result` clears the pending table: the
/// session is over, so entries whose results the vendor never delivered
/// cannot pile up across turns.
pub open spec fn spec_anthropic_step(st: AnthropicStateV, v: JsonVal) -> (
    AnthropicStateV,
    Option<Seq<EventV>>,
) {
    match v.get_str("type"@) {
        None => (st, None),
        Some(t) => if t == "system"@ {
            if v.get_str("subtype"@) != Some("init"@) {
                (st, Some(Seq::empty()))
            } else {
                match v.get_str("session_id"@) {
                    None => (st, None),
                    Some(sid) => {
                        let meta = maybe_pair("cwd"@, v.get("cwd"@)) + maybe_pair(
                            "tools"@,
                            v.get("tools"@),
                        ) + maybe_pair("permissionMode"@, v.get("permissionMode"@)) + maybe_pair(
                            "output_style"@,
                            v.get("output_style"@),
                        ) + maybe_pair("model"@, v.get("model"@));
                        let metaopt = if meta.len() == 0 {
                            None
                        } else {
                            Some(JsonVal::Obj(meta))
                        };
                        (
                            AnthropicStateV {
                                resume: Some(sid),
                                pending: st.pending,
                                note_seq: st.note_seq,
                            },
                            Some(
                                seq![
                                    started_ev(
                                        Engine::Anthropic,
                                        sid,
                                        v.get_str("model"@),
                                        metaopt,
                                    ),
                                ],
                            ),
                        )
                    },
                }
            }
        } else if t == "assistant"@ {
            match v.get("message"@) {
                Some(m) => match m.as_obj() {
                    Some(_) => match m.get("content"@) {
                        Some(c) => match c.as_arr() {
                            Some(blocks) => {
                                let r = spec_anthropic_blocks(st, blocks);
                                let evs = if r.2.len() > 0 {
                                    r.1 + seq![
                                        message_ev(
                                            Engine::Anthropic,
                                            crate::strutil::spec_join(r.2, "\n"@),
                                        ),
                                    ]
                                } else {
                                    r.1
                                };
                                (r.0, Some(evs))
                            },
                            None => (st, None),
                        },
                        None => (st, None),
                    },
                    None => (st, None),
                },
                None => (st, None),
            }
        } else if t == "result"@ {
            let ok = v.get("is_error"@) != Some(JsonVal::Bool(true));
            let answer = or_empty(v.get_str("result"@));
            let error = if ok {
                None
            } else {
                Some(answer)
            };
            (
                AnthropicStateV { resume: st.resume, pending: Seq::empty(), note_seq: st.note_seq },
                Some(
                    seq![
                        completed_ev(
                            Engine::Anthropic,
                            ok,
                            answer,
                            st.resume,
                            error,
                            v.get("usage"@),
                        ),
                    ],
                ),
            )
        } else {
            (st, None)
        },
    }
}

/// Processes one content block: updates the state, appends the block's
/// events, and collects its text part.
pub fn anthropic_block_step(
    block: &JsonValue,
    state: &mut AnthropicState,
    events: &mut Vec<Event>,
    texts: &mut Vec<String>,
)
    ensures
        ({
            let b = spec_anthropic_block(old(state).dv(), block.dv());
            final(state).dv() == b.0 && dv_events(final(events)@) == dv_events(old(events)@) + b.1
                && final(texts).deep_view() == old(texts).deep_view() + b.2
        }),
{
    proof {
        assert(dv_events(events@) + Seq::<EventV>::empty() =~= dv_events(events@));
        assert(texts.deep_view() + Seq::<Seq<char>>::empty() =~= texts.deep_view());
    }
    let bt_owned: String = match block.get_string("type") {
        Some(t) => t.clone(),
        None => String::new(),
    };
    let bt = bt_owned.as_str();
    if str_eq(bt, "tool_use") {
        let tool_id: String = match block.get_string("id") {
            Some(s) => s.clone(),
            None => {
                return;
            },
        };
        let name: String = match block.get_string("name") {
            Some(n) => n.clone(),
            None => "tool".to_owned(),
        };
        let ghost iv: Seq<(Seq<char>, JsonVal)> = match block.dv().get("input"@) {
            Some(v) => match v.as_obj() {
                Some(o) => o,
                None => Seq::empty(),
            },
            None => Seq::empty(),
        };
        let input: Vec<(String, JsonValue)> = match block.get("input") {
            Some(v) => match v.as_obj() {
                Some(o) => crate::json::dup_pairs(o),
                None => Vec::new(),
            },
            None => Vec::new(),
        };
        proof {
            assert(dv_pairs(input@) =~= iv);
        }
        let act: Action = if str_eq_lower(name.as_str(), "todowrite") {
            let td = parse_anthropic_todos(&input);
            Action { id: tool_id.clone(), kind: ActionKind::Todo, title: td.0, detail: td.1 }
        } else {
            let kind = tool_kind(name.as_str());
            let title = tool_title(kind, name.as_str(), &input);
            let mut detail = pairs0();
            push_pair(&mut detail, "name", JsonValue::Str(name.clone()));
            push_pair(&mut detail, "input", JsonValue::Obj(crate::json::dup_pairs(&input)));
            let is_fc = match kind {
                ActionKind::FileChange => true,
                _ => false,
            };
            if is_fc {
                match tool_input_path(&input) {
                    Some(p) => {
                        let ghost pv = p@;
                        let mut ch = pairs0();
                        push_pair(&mut ch, "path", JsonValue::Str(p));
                        push_pair(&mut ch, "kind", JsonValue::Str("update".to_owned()));
                        proof {
                            assert(dv_pairs(ch@) =~= seq![
                                ("path"@, JsonVal::Str(pv)),
                                ("kind"@, JsonVal::Str("update"@)),
                            ]);
                        }
                        let mut arr: Vec<JsonValue> = Vec::new();
                        arr.push(JsonValue::Obj(ch));
                        proof {
                            lemma_dv_seq(arr@);
                            assert(dv_seq(arr@) =~= seq![
                                JsonVal::Obj(
                                    seq![
                                        ("path"@, JsonVal::Str(pv)),
                                        ("kind"@, JsonVal::Str("update"@)),
                                    ],
                                ),
                            ]);
                        }
                        push_pair(&mut detail, "changes", JsonValue::Arr(arr));
                    },
                    None => {},
                }
            }
            proof {
                assert(dv_pairs(detail@) =~= seq![
                    ("name"@, JsonVal::Str(name@)),
                    ("input"@, JsonVal::Obj(iv)),
                ] + (if kind is FileChange {
                    match spec_input_path(iv) {
                        Some(p) => seq![
                            (
                                "changes"@,
                                JsonVal::Arr(
                                    seq![
                                        JsonVal::Obj(
                                            seq![
                                                ("path"@, JsonVal::Str(p)),
                                                ("kind"@, JsonVal::Str("update"@)),
                                            ],
                                        ),
                                    ],
                                ),
                            ),
                        ],
                        None => Seq::empty(),
                    }
                } else {
                    Seq::<(Seq<char>, JsonVal)>::empty()
                }));
            }
            Action { id: tool_id.clone(), kind, title, detail }
        };
        let emitted = act.dup();
        pending_insert(&mut state.pending, tool_id.as_str(), act);
        push_event(
            events,
            Event::Action {
                engine: Engine::Anthropic,
                phase: Phase::Started,
                action: emitted,
                ok: None,
                message: None,
                level: None,
            },
        );
        proof {
            let b = spec_anthropic_block(old(state).dv(), block.dv());
            assert(dv_events(events@) =~= dv_events(old(events)@) + b.1);
        }
        return;
    }
    if str_eq(bt, "tool_result") {
        let tid: String = match block.get_string("tool_use_id") {
            Some(s) => s.clone(),
            None => {
                return;
            },
        };
        let found = pending_remove(&mut state.pending, tid.as_str());
        let mut act: Action = match found {
            Some(a) => a,
            None => Action {
                id: tid.clone(),
                kind: ActionKind::Tool,
                title: "tool".to_owned(),
                detail: pairs0(),
            },
        };
        let ghost act0 = act.dv();
        let preview = anthropic_result_preview(block.get("content"));
        let is_error = match block.get("is_error") {
            Some(x) => match x.as_bool() {
                Some(b) => b,
                None => false,
            },
            None => false,
        };
        proof {
            assert(is_error == (block.dv().get("is_error"@) == Some(JsonVal::Bool(true))));
        }
        let plen = crate::codex::usize_to_i64(preview.as_str().len());
        push_pair(&mut act.detail, "tool_use_id", JsonValue::Str(tid.clone()));
        push_pair(&mut act.detail, "result_preview", JsonValue::Str(preview.clone()));
        push_pair(&mut act.detail, "result_len", JsonValue::Int(plen));
        push_pair(&mut act.detail, "is_error", JsonValue::Bool(is_error));
        proof {
            assert(dv_pairs(act.detail@) =~= act0.detail + seq![
                ("tool_use_id"@, JsonVal::Str(tid@)),
                ("result_preview"@, JsonVal::Str(preview@)),
                ("result_len"@, JsonVal::Int(byte_len(preview@))),
                ("is_error"@, JsonVal::Bool(is_error)),
            ]);
        }
        push_event(
            events,
            Event::Action {
                engine: Engine::Anthropic,
                phase: Phase::Completed,
                action: act,
                ok: Some(!is_error),
                message: None,
                level: None,
            },
        );
        proof {
            let b = spec_anthropic_block(old(state).dv(), block.dv());
            assert(dv_events(events@) =~= dv_events(old(events)@) + b.1);
        }
        return;
    }
    if str_eq(bt, "thinking") {
        match block.get_string("thinking") {
            Some(tx) => {
                let tx = tx.clone();
                state.note_seq = counter_inc(state.note_seq);
                let mut id = "anthropic.note.".to_owned();
                id.append(u64_to_dec(state.note_seq).as_str());
                proof {
                    assert(id@ =~= "anthropic.note."@ + spec_dec(sat_inc(old(state).dv().note_seq)));
                }
                let title = thinking_title(tx.as_str());
                let mut detail = pairs0();
                push_pair(&mut detail, "thinking", JsonValue::Str(tx));
                proof {
                    assert(dv_pairs(detail@) =~= seq![
                        ("thinking"@, JsonVal::Str(block.dv().get_str("thinking"@).unwrap())),
                    ]);
                }
                let act = Action { id, kind: ActionKind::Note, title, detail };
                push_event(
                    events,
                    Event::Action {
                        engine: Engine::Anthropic,
                        phase: Phase::Completed,
                        action: act,
                        ok: Some(true),
                        message: None,
                        level: None,
                    },
                );
                proof {
                    let b = spec_anthropic_block(old(state).dv(), block.dv());
                    assert(dv_events(events@) =~= dv_events(old(events)@) + b.1);
                }
            },
            None => {},
        }
        return;
    }
    if str_eq(bt, "text") {
        match block.get_string("text") {
            Some(t) => {
                let ghost prev = texts.deep_view();
                texts.push(t.clone());
                proof {
                    let b = spec_anthropic_block(old(state).dv(), block.dv());
                    assert(texts.deep_view() =~= prev + b.2);
                }
            },
            None => {},
        }
        return;
    }
}

/// One Anthropic step over an incoming JSON value. `None` means the value is
/// not a Anthropic stream event.
#[verifier::loop_isolation(false)]
pub fn parse_anthropic_event(v: &JsonValue, state: &mut AnthropicState) -> (r: Option<Vec<Event>>)
    ensures
        ({
            let s = spec_anthropic_step(old(state).dv(), v.dv());
            final(state).dv() == s.0 && events_match(r, s.1)
        }),
{
    let t: String = match v.get_string("type") {
        Some(t) => t.clone(),
        None => {
            return None;
        },
    };
    if str_eq(t.as_str(), "system") {
        let is_init = match v.get_string("subtype") {
            Some(s) => str_eq(s.as_str(), "init"),
            None => false,
        };
        if !is_init {
            return Some(events0());
        }
        let sid: String = match v.get_string("session_id") {
            Some(s) => s.clone(),
            None => {
                return None;
            },
        };
        state.resume = Some(sid.clone());
        let mut meta = pairs0();
        match v.get("cwd") {
            Some(x) => push_pair(&mut meta, "cwd", x.dup()),
            None => {},
        }
        match v.get("tools") {
            Some(x) => push_pair(&mut meta, "tools", x.dup()),
            None => {},
        }
        match v.get("permissionMode") {
            Some(x) => push_pair(&mut meta, "permissionMode", x.dup()),
            None => {},
        }
        match v.get("output_style") {
            Some(x) => push_pair(&mut meta, "output_style", x.dup()),
            None => {},
        }
        match v.get("model") {
            Some(x) => push_pair(&mut meta, "model", x.dup()),
            None => {},
        }
        proof {
            lemma_pdv(old(state).pending@);
            lemma_dv_pairs(meta@);
            assert(dv_pairs(meta@) =~= maybe_pair("cwd"@, v.dv().get("cwd"@)) + maybe_pair(
                "tools"@,
                v.dv().get("tools"@),
            ) + maybe_pair("permissionMode"@, v.dv().get("permissionMode"@)) + maybe_pair(
                "output_style"@,
                v.dv().get("output_style"@),
            ) + maybe_pair("model"@, v.dv().get("model"@)));
        }
        let metaopt: Option<JsonValue> = if meta.len() == 0 {
            None
        } else {
            Some(JsonValue::Obj(meta))
        };
        let title: Option<String> = match v.get_string("model") {
            Some(m) => Some(m.clone()),
            None => None,
        };
        return Some(
            events1(
                Event::Started { engine: Engine::Anthropic, resume: sid, title, meta: metaopt },
            ),
        );
    }
    if str_eq(t.as_str(), "assistant") {
        let message = match v.get("message") {
            Some(m) => m,
            None => {
                return None;
            },
        };
        match message.as_obj() {
            Some(_) => {},
            None => {
                return None;
            },
        }
        let content = match message.get("content") {
            Some(c) => c,
            None => {
                return None;
            },
        };
        let blocks = match content.as_arr() {
            Some(b) => b,
            None => {
                return None;
            },
        };
        proof {
            lemma_dv_seq(blocks@);
        }
        let ghost bv = dv_seq(blocks@);
        let ghost st0 = old(state).dv();
        let mut events: Vec<Event> = Vec::new();
        let mut texts: Vec<String> = Vec::new();
        let mut i: usize = 0;
        proof {
            assert(bv.subrange(0, 0) =~= Seq::<JsonVal>::empty());
            assert(dv_events(events@) =~= Seq::<EventV>::empty());
            assert(texts.deep_view() =~= Seq::<Seq<char>>::empty());
        }
        while i < blocks.len()
            invariant
                0 <= i <= blocks@.len(),
                ({
                    let r = spec_anthropic_blocks(st0, bv.subrange(0, i as int));
                    state.dv() == r.0 && dv_events(events@) == r.1 && texts.deep_view() == r.2
                }),
            decreases blocks@.len() - i,
        {
            let ghost prev_events = dv_events(events@);
            let ghost prev_texts = texts.deep_view();
            anthropic_block_step(&blocks[i], state, &mut events, &mut texts);
            proof {
                assert(bv.subrange(0, i + 1).subrange(0, i as int) =~= bv.subrange(0, i as int));
                assert(bv.subrange(0, i + 1)[i as int] == bv[i as int]);
                assert(bv[i as int] == blocks@[i as int].dv());
                let r = spec_anthropic_blocks(st0, bv.subrange(0, i + 1));
                assert(dv_events(events@) =~= r.1);
                assert(texts.deep_view() =~= r.2);
            }
            i += 1;
        }
        proof {
            assert(bv.subrange(0, bv.len() as int) =~= bv);
        }
        let ghost rall = spec_anthropic_blocks(st0, bv);
        if texts.len() > 0 {
            let msg = crate::strutil::join_strings(&texts, "\n");
            push_event(&mut events, Event::Message { engine: Engine::Anthropic, text: msg });
            proof {
                assert(dv_events(events@) =~= rall.1 + seq![
                    message_ev(Engine::Anthropic, crate::strutil::spec_join(rall.2, "\n"@)),
                ]);
            }
        }
        return Some(events);
    }
    if str_eq(t.as_str(), "result") {
        state.pending = Vec::new();
        proof {
            assert(pdv(state.pending@) =~= Seq::<(Seq<char>, ActionV)>::empty());
        }
        let ok = match v.get("is_error") {
            Some(x) => match x.as_bool() {
                Some(b) => !b,
                None => true,
            },
            None => true,
        };
        proof {
            assert(ok == (v.dv().get("is_error"@) != Some(JsonVal::Bool(true))));
        }
        let answer: String = match v.get_string("result") {
            Some(a) => a.clone(),
            None => String::new(),
        };
        let usage: Option<JsonValue> = match v.get("usage") {
            Some(u) => Some(u.dup()),
            None => None,
        };
        let error: Option<String> = if ok {
            None
        } else {
            Some(answer.clone())
        };
        let resume: Option<String> = match &state.resume {
            Some(r) => Some(r.clone()),
            None => None,
        };
        return Some(
            events1(
                Event::Completed { engine: Engine::Anthropic, ok, answer, resume, error, usage },
            ),
        );
    }
    None
}

} // verus!
