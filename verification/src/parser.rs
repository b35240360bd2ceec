//! The agent event normalizer.
//!
//! An `AgentParser` ingests one JSON value per stream line and emits uniform
//! events. Codex is tried first; a value Codex does not recognize is offered
//! to the Anthropic dispatcher. All state lives in the parser, so a step is a
//! pure function of the parser's view and the incoming value.

use vstd::prelude::*;

use crate::anthropic::{
    parse_anthropic_event, pinsert, plookup, premove, spec_anthropic_block, spec_anthropic_step,
    AnthropicState, AnthropicStateV,
};
use crate::codex::{parse_codex_event, spec_codex_step, CodexState, CodexStateV};
use crate::events::{dv_events, events_match, ActionKind, Engine, Event, EventV, Phase};
use crate::json::{JsonVal, JsonValue};

verus! {

/// The result of decoding one line of text as JSON, as this crate's value.
/// `serde_json::from_str` is deterministic on the line's characters; its
/// tree, mirrored into `JsonValue`, is what this name stands for.
pub uninterp spec fn json_decode(s: Seq<char>) -> Option<JsonVal>;

/// The one-line JSON text of a value.
pub uninterp spec fn json_encode(v: JsonVal) -> Seq<char>;

#[verifier::external_type_specification]
#[verifier::external_body]
pub struct ExSerdeValue(serde_json::Value);

#[verifier::external_body]
fn convert_value(v: &serde_json::Value) -> (r: JsonValue) {
    match v {
        serde_json::Value::Null => JsonValue::Null,
        serde_json::Value::Bool(b) => JsonValue::Bool(*b),
        serde_json::Value::Number(n) => match n.as_i64() {
            Some(i) => JsonValue::Int(i),
            None => JsonValue::Num(n.to_string()),
        },
        serde_json::Value::String(s) => JsonValue::Str(s.clone()),
        serde_json::Value::Array(a) => JsonValue::Arr(a.iter().map(convert_value).collect()),
        serde_json::Value::Object(o) => JsonValue::Obj(
            o.iter().map(|(k, w)| (k.clone(), convert_value(w))).collect(),
        ),
    }
}

#[verifier::external_body]
fn convert_back(v: &JsonValue) -> (r: serde_json::Value) {
    match v {
        JsonValue::Null => serde_json::Value::Null,
        JsonValue::Bool(b) => serde_json::Value::Bool(*b),
        JsonValue::Int(i) => serde_json::Value::Number(serde_json::Number::from(*i)),
        JsonValue::Num(s) => s.parse::<serde_json::Number>().map(
            serde_json::Value::Number,
        ).unwrap_or(serde_json::Value::Null),
        JsonValue::Str(s) => serde_json::Value::String(s.clone()),
        JsonValue::Arr(a) => serde_json::Value::Array(a.iter().map(convert_back).collect()),
        JsonValue::Obj(o) => serde_json::Value::Object(
            o.iter().map(|(k, w)| (k.clone(), convert_back(w))).collect(),
        ),
    }
}

/// Relies on `serde_json::from_str::<serde_json::Value>`: parses one JSON
/// text, deterministically in the text. The parsed tree is mirrored into
/// the crate's value; a non-integer number keeps serde's canonical text.
#[verifier::external_body]
pub fn decode_json(line: &str) -> (r: Option<JsonValue>)
    ensures
        match r {
            Some(v) => json_decode(line@) == Some(v.dv()),
            None => json_decode(line@) is None,
        },
{
    serde_json::from_str::<serde_json::Value>(line).ok().map(|v| convert_value(&v))
}

/// Relies on `serde_json::to_string` over `serde_json::Value`: renders the
/// value as one line of JSON, deterministically in the value.
#[verifier::external_body]
pub fn render_json(v: &JsonValue) -> (r: String)
    ensures
        r@ == json_encode(v.dv()),
{
    serde_json::to_string(&convert_back(v)).unwrap_or_else(|_| "null".to_string())
}

/// The normalizer: per-engine session state behind one line-oriented face.
pub struct AgentParser {
    pub codex: CodexState,
    pub anthropic: AnthropicState,
}

/// The view of an `AgentParser`.
pub struct ParserV {
    pub codex: CodexStateV,
    pub anthropic: AnthropicStateV,
}

/// One normalizer step: Codex first; what Codex does not recognize goes to
/// Anthropic. `None` means neither engine recognized the value.
pub open spec fn spec_parse_step(st: ParserV, v: JsonVal) -> (ParserV, Option<Seq<EventV>>) {
    let c = spec_codex_step(st.codex, v);
    match c.1 {
        Some(evs) => (ParserV { codex: c.0, anthropic: st.anthropic }, Some(evs)),
        None => {
            let l = spec_anthropic_step(st.anthropic, v);
            (ParserV { codex: c.0, anthropic: l.0 }, l.1)
        },
    }
}

/// A whole stream folded through the normalizer: the final state and every
/// event emitted, in order. Unrecognized values emit nothing.
pub open spec fn spec_run(st: ParserV, vs: Seq<JsonVal>) -> (ParserV, Seq<EventV>)
    decreases vs.len(),
{
    if vs.len() == 0 {
        (st, Seq::empty())
    } else {
        let r = spec_run(st, vs.subrange(0, vs.len() - 1));
        let s = spec_parse_step(r.0, vs[vs.len() - 1]);
        (
            s.0,
            r.1 + (match s.1 {
                Some(e) => e,
                None => Seq::empty(),
            }),
        )
    }
}

impl AgentParser {
    /// The view of the parser.
    pub open spec fn view(self) -> ParserV {
        ParserV { codex: self.codex.dv(), anthropic: self.anthropic.dv() }
    }

    /// A fresh parser: both engines in their initial state.
    pub fn new() -> (r: AgentParser)
        ensures
            r.view() == (ParserV {
                codex: CodexStateV { resume: None, answer: None, turn_index: 0, note_seq: 0 },
                anthropic: AnthropicStateV { resume: None, pending: Seq::empty(), note_seq: 0 },
            }),
    {
        AgentParser { codex: CodexState::new(), anthropic: AnthropicState::new() }
    }

    /// Normalizes one JSON value into events, advancing the session state.
    pub fn parse_value(&mut self, v: &JsonValue) -> (r: Option<Vec<Event>>)
        ensures
            ({
                let s = spec_parse_step(old(self).view(), v.dv());
                final(self).view() == s.0 && events_match(r, s.1)
            }),
    {
        match parse_codex_event(v, &mut self.codex) {
            Some(events) => Some(events),
            None => parse_anthropic_event(v, &mut self.anthropic),
        }
    }

    /// Decodes one stream line and normalizes it. A line that is not JSON
    /// yields `None` and leaves the state alone.
    pub fn parse_line(&mut self, line: &str) -> (r: Option<Vec<Event>>)
        ensures
            match json_decode(line@) {
                Some(jv) => ({
                    let s = spec_parse_step(old(self).view(), jv);
                    final(self).view() == s.0 && events_match(r, s.1)
                }),
                None => r is None && final(self).view() == old(self).view(),
            },
    {
        match decode_json(line) {
            Some(v) => self.parse_value(&v),
            None => None,
        }
    }
}

/// A stream can be cut anywhere: running the whole of it equals running a
/// prefix and then handing the reached state to a run of the rest. The
/// parser object is the entire state of the normalization.
pub proof fn lemma_stream_composition(st: ParserV, xs: Seq<JsonVal>, ys: Seq<JsonVal>)
    ensures
        spec_run(st, xs + ys).0 == spec_run(spec_run(st, xs).0, ys).0,
        spec_run(st, xs + ys).1 == spec_run(st, xs).1 + spec_run(spec_run(st, xs).0, ys).1,
    decreases ys.len(),
{
    if ys.len() == 0 {
        assert(xs + ys =~= xs);
        assert(spec_run(st, xs).1 + spec_run(spec_run(st, xs).0, ys).1 =~= spec_run(st, xs).1);
    } else {
        let ys0 = ys.subrange(0, ys.len() - 1);
        lemma_stream_composition(st, xs, ys0);
        assert((xs + ys).subrange(0, (xs + ys).len() - 1) =~= xs + ys0);
        assert((xs + ys)[(xs + ys).len() - 1] == ys[ys.len() - 1]);
        let r1 = spec_run(st, xs);
        let ra = spec_run(st, xs + ys0);
        let s = spec_parse_step(ra.0, ys[ys.len() - 1]);
        assert(spec_run(st, xs + ys).1 =~= r1.1 + spec_run(r1.0, ys).1);
    }
}

/// A Codex `thread.started` records the thread id as the resume token.
pub proof fn lemma_codex_start_sets_resume(st: CodexStateV, v: JsonVal, t: Seq<char>)
    requires
        v.get_str("type"@) == Some("thread.started"@),
        v.get_str("thread_id"@) == Some(t),
    ensures
        spec_codex_step(st, v).0.resume == Some(t),
{
}

/// No Codex value other than `thread.started` changes the resume token.
pub proof fn lemma_codex_resume_stable(st: CodexStateV, v: JsonVal)
    requires
        v.get_str("type"@) != Some("thread.started"@),
    ensures
        spec_codex_step(st, v).0.resume == st.resume,
{
    reveal_strlit("thread.started");
    reveal_strlit("turn.started");
    reveal_strlit("turn.completed");
    reveal_strlit("turn.failed");
    reveal_strlit("error");
    reveal_strlit("item.started");
    reveal_strlit("item.updated");
    reveal_strlit("item.completed");
}

/// A Codex `turn.completed` ends with a `completed` event carrying the
/// state's resume token. Together with the two lemmas above: after a
/// `thread.started` with thread id `T`, the next `turn.completed` emits
/// `completed` with resume `T`.
pub proof fn lemma_codex_turn_completed_resume(st: CodexStateV, v: JsonVal)
    requires
        v.get_str("type"@) == Some("turn.completed"@),
    ensures
        ({
            let s = spec_codex_step(st, v);
            &&& s.1 is Some
            &&& s.1.unwrap().len() == 2
            &&& s.1.unwrap()[1] matches EventV::Completed { engine, ok, resume, .. }
                && engine == Engine::Codex && ok && resume == st.resume
        }),
{
    reveal_strlit("thread.started");
    reveal_strlit("turn.started");
    reveal_strlit("turn.completed");
    assert("thread.started"@[1] == 'h');
    assert("turn.completed"@[1] == 'u');
    assert("turn.completed"@ != "thread.started"@);
    assert("turn.started"@.len() == 12);
    assert("turn.completed"@.len() == 14);
}

/// A Codex assistant message records its text as the running answer.
pub proof fn lemma_codex_message_sets_answer(st: CodexStateV, v: JsonVal, text: Seq<char>)
    requires
        v.get_str("type"@) == Some("item.started"@) || v.get_str("type"@) == Some(
            "item.updated"@,
        ) || v.get_str("type"@) == Some("item.completed"@),
        v.get("item"@) matches Some(item) && item.get_str("type"@) == Some("agent_message"@)
            && item.get_str("text"@) == Some(text),
    ensures
        spec_codex_step(st, v).0.answer == Some(text),
{
    lemma_codex_item_dispatch();
    reveal_strlit("agent_message");
    assert("agent_message"@.len() == 13);
}

/// No Codex value other than an assistant message changes the running
/// answer. With `lemma_codex_message_sets_answer` and the `answer` field of
/// `lemma_codex_turn_completed_answer`: a `turn.completed` reports exactly
/// the text of the last assistant message, or the empty string before any.
pub proof fn lemma_codex_answer_stable(st: CodexStateV, v: JsonVal)
    requires
        match v.get("item"@) {
            Some(item) => !(item.get_str("type"@) == Some("agent_message"@) && item.get_str(
                "text"@,
            ) is Some),
            None => true,
        },
    ensures
        spec_codex_step(st, v).0.answer == st.answer,
{
    lemma_codex_item_dispatch();
    reveal_strlit("agent_message");
    assert("agent_message"@.len() == 13);
}

/// A Codex `turn.completed` reports the running answer, or the empty
/// string before any assistant message.
pub proof fn lemma_codex_turn_completed_answer(st: CodexStateV, v: JsonVal)
    requires
        v.get_str("type"@) == Some("turn.completed"@),
    ensures
        ({
            let s = spec_codex_step(st, v);
            &&& s.1 is Some
            &&& s.1.unwrap().len() == 2
            &&& s.1.unwrap()[1] matches EventV::Completed { answer, .. } && answer
                == crate::codex::or_empty(st.answer)
        }),
{
    lemma_codex_item_dispatch();
}

/// The facts that tell the Codex dispatch literals apart.
proof fn lemma_codex_item_dispatch()
    ensures
        "item.started"@ != "thread.started"@,
        "item.started"@ != "turn.started"@,
        "item.started"@ != "turn.completed"@,
        "item.started"@ != "turn.failed"@,
        "item.started"@ != "error"@,
        "item.updated"@ != "thread.started"@,
        "item.updated"@ != "turn.started"@,
        "item.updated"@ != "turn.completed"@,
        "item.updated"@ != "turn.failed"@,
        "item.updated"@ != "error"@,
        "item.completed"@ != "thread.started"@,
        "item.completed"@ != "turn.started"@,
        "item.completed"@ != "turn.completed"@,
        "item.completed"@ != "turn.failed"@,
        "item.completed"@ != "error"@,
        "turn.completed"@ != "thread.started"@,
        "turn.completed"@ != "turn.started"@,
{
    reveal_strlit("item.started");
    reveal_strlit("item.updated");
    reveal_strlit("item.completed");
    reveal_strlit("thread.started");
    reveal_strlit("turn.started");
    reveal_strlit("turn.completed");
    reveal_strlit("turn.failed");
    reveal_strlit("error");
    assert("item.started"@.len() == 12);
    assert("item.updated"@.len() == 12);
    assert("item.completed"@.len() == 14);
    assert("thread.started"@.len() == 14);
    assert("turn.started"@.len() == 12);
    assert("turn.completed"@.len() == 14);
    assert("turn.failed"@.len() == 11);
    assert("error"@.len() == 5);
    assert("item.started"@[0] == 'i');
    assert("item.updated"@[0] == 'i');
    assert("item.completed"@[0] == 'i');
    assert("turn.started"@[0] == 't');
    assert("turn.completed"@[1] == 'u');
    assert("thread.started"@[1] == 'h');
}

/// When no entry under `k` is pending, a lookup after storing one finds
/// exactly it.
pub proof fn lemma_plookup_after_insert(
    p: Seq<(Seq<char>, crate::events::ActionV)>,
    k: Seq<char>,
    a: crate::events::ActionV,
)
    requires
        plookup(p, k) is None,
    ensures
        plookup(pinsert(p, k, a), k) == Some(a),
    decreases p.len(),
{
    crate::anthropic::lemma_premove_absent_from_lookup(p, k);
    lemma_plookup_push(p, k, a);
}

/// Pushing an entry under an absent key makes it the one `plookup` finds.
pub proof fn lemma_plookup_push(
    p: Seq<(Seq<char>, crate::events::ActionV)>,
    k: Seq<char>,
    a: crate::events::ActionV,
)
    requires
        plookup(p, k) is None,
    ensures
        plookup(p.push((k, a)), k) == Some(a),
    decreases p.len(),
{
    if p.len() == 0 {
        assert(p.push((k, a))[0] == (k, a));
    } else {
        let q = p.push((k, a));
        assert(q[0] == p[0]);
        assert(q.subrange(1, q.len() as int) =~= p.subrange(1, p.len() as int).push((k, a)));
        lemma_plookup_push(p.subrange(1, p.len() as int), k, a);
    }
}

/// A matched `tool_use` / `tool_result` pair yields exactly one `started`
/// and one `completed` action event, both under the tool-use id, the
/// completion's outcome mirroring the result's error flag.
pub proof fn lemma_tool_pair(
    st: AnthropicStateV,
    bu: JsonVal,
    br: JsonVal,
    u: Seq<char>,
    is_error: bool,
)
    requires
        bu.get_str("type"@) == Some("tool_use"@),
        bu.get_str("id"@) == Some(u),
        br.get_str("type"@) == Some("tool_result"@),
        br.get_str("tool_use_id"@) == Some(u),
        br.get("is_error"@) == Some(JsonVal::Bool(is_error)),
        plookup(st.pending, u) is None,
    ensures
        ({
            let s1 = spec_anthropic_block(st, bu);
            let s2 = spec_anthropic_block(s1.0, br);
            &&& s1.1.len() == 1
            &&& s1.1[0] matches EventV::Action { phase: p1, action: a1, .. } && p1
                == Phase::Started && a1.id == u
            &&& s2.1.len() == 1
            &&& s2.1[0] matches EventV::Action { phase: p2, action: a2, ok: ok2, .. } && p2
                == Phase::Completed && a2.id == u && ok2 == Some(!is_error)
        }),
{
    reveal_strlit("tool_use");
    reveal_strlit("tool_result");
    assert("tool_use"@.len() == 8);
    assert("tool_result"@.len() == 11);
    let s1 = spec_anthropic_block(st, bu);
    let act = s1.1[0]->Action_action;
    lemma_plookup_after_insert(st.pending, u, act);
}

/// An unmatched `tool_result` still yields exactly one `completed` action
/// event, around a minimal fabricated action under the result's id.
pub proof fn lemma_unmatched_result(st: AnthropicStateV, br: JsonVal, u: Seq<char>)
    requires
        br.get_str("type"@) == Some("tool_result"@),
        br.get_str("tool_use_id"@) == Some(u),
        plookup(st.pending, u) is None,
    ensures
        ({
            let s = spec_anthropic_block(st, br);
            &&& s.1.len() == 1
            &&& s.1[0] matches EventV::Action { phase, action, .. } && phase == Phase::Completed
                && action.id == u && action.kind == ActionKind::Tool
            &&& s.0.pending == st.pending
        }),
{
    reveal_strlit("tool_use");
    reveal_strlit("tool_result");
    assert("tool_use"@.len() == 8);
    assert("tool_result"@.len() == 11);
    crate::anthropic::lemma_premove_absent_from_lookup(st.pending, u);
}

/// The action vocabulary is closed: every kind's wire name is one of the
/// fixed set, and no other name ever appears.
pub proof fn lemma_kind_vocabulary(k: ActionKind)
    ensures
        k.name() == "turn"@ || k.name() == "command"@ || k.name() == "tool"@ || k.name()
            == "web_search"@ || k.name() == "file_change"@ || k.name() == "note"@ || k.name()
            == "warning"@ || k.name() == "todo"@ || k.name() == "subagent"@,
{
}

} // verus!
