//! The uniform event vocabulary.
//!
//! Both agent engines' streams are normalized into these events. The
//! mathematical views (`ActionV`, `EventV`) state contracts over sequences
//! of characters, so that an event's exact content can be pinned down.

use vstd::prelude::*;

use crate::json::{dv_pairs, JsonVal, JsonValue};

verus! {

/// The engine a stream came from.
#[derive(Clone, Copy, Debug, PartialEq, Eq, Structural)]
pub enum Engine {
    Codex,
    Anthropic,
}

/// The phase of a unit of agent work.
#[derive(Clone, Copy, Debug, PartialEq, Eq, Structural)]
pub enum Phase {
    Started,
    Updated,
    Completed,
}

/// The closed set of action kinds; no other value ever appears in an event.
#[derive(Clone, Copy, Debug, PartialEq, Eq, Structural)]
pub enum ActionKind {
    Turn,
    Command,
    Tool,
    WebSearch,
    FileChange,
    Note,
    Warning,
    Todo,
    Subagent,
}

impl Engine {
    /// The wire name of the engine.
    pub fn as_str(self) -> (r: &'static str)
        ensures
            r@ == self.name(),
    {
        match self {
            Engine::Codex => "codex",
            Engine::Anthropic => "anthropic",
        }
    }

    /// The wire name, as a sequence.
    pub open spec fn name(self) -> Seq<char> {
        match self {
            Engine::Codex => "codex"@,
            Engine::Anthropic => "anthropic"@,
        }
    }
}

impl Phase {
    /// The wire name of the phase.
    pub fn as_str(self) -> (r: &'static str)
        ensures
            r@ == self.name(),
    {
        match self {
            Phase::Started => "started",
            Phase::Updated => "updated",
            Phase::Completed => "completed",
        }
    }

    /// The wire name, as a sequence.
    pub open spec fn name(self) -> Seq<char> {
        match self {
            Phase::Started => "started"@,
            Phase::Updated => "updated"@,
            Phase::Completed => "completed"@,
        }
    }
}

impl ActionKind {
    /// The wire name of the kind: always one of the fixed vocabulary.
    pub fn as_str(self) -> (r: &'static str)
        ensures
            r@ == self.name(),
    {
        match self {
            ActionKind::Turn => "turn",
            ActionKind::Command => "command",
            ActionKind::Tool => "tool",
            ActionKind::WebSearch => "web_search",
            ActionKind::FileChange => "file_change",
            ActionKind::Note => "note",
            ActionKind::Warning => "warning",
            ActionKind::Todo => "todo",
            ActionKind::Subagent => "subagent",
        }
    }

    /// The wire name, as a sequence.
    pub open spec fn name(self) -> Seq<char> {
        match self {
            ActionKind::Turn => "turn"@,
            ActionKind::Command => "command"@,
            ActionKind::Tool => "tool"@,
            ActionKind::WebSearch => "web_search"@,
            ActionKind::FileChange => "file_change"@,
            ActionKind::Note => "note"@,
            ActionKind::Warning => "warning"@,
            ActionKind::Todo => "todo"@,
            ActionKind::Subagent => "subagent"@,
        }
    }
}

/// A unit of agent work: an identifier, a kind out of the fixed vocabulary,
/// a human-readable title, and a detail object.
#[derive(Debug, PartialEq)]
pub struct Action {
    pub id: String,
    pub kind: ActionKind,
    pub title: String,
    pub detail: Vec<(String, JsonValue)>,
}

/// The view of an `Action`.
pub struct ActionV {
    pub id: Seq<char>,
    pub kind: ActionKind,
    pub title: Seq<char>,
    pub detail: Seq<(Seq<char>, JsonVal)>,
}

impl Action {
    /// The view of the action.
    pub open spec fn dv(self) -> ActionV {
        ActionV {
            id: self.id@,
            kind: self.kind,
            title: self.title@,
            detail: dv_pairs(self.detail@),
        }
    }

    /// A deep copy with the same view.
    pub fn dup(&self) -> (r: Action)
        ensures
            r.dv() == self.dv(),
    {
        let mut detail: Vec<(String, JsonValue)> = Vec::new();
        let mut i: usize = 0;
        while i < self.detail.len()
            invariant
                0 <= i <= self.detail@.len(),
                detail@.len() == i,
                forall|j: int|
                    0 <= j < i
                        ==> #[trigger] detail@[j].0@ == self.detail@[j].0@ && detail@[j].1.dv()
                        == self.detail@[j].1.dv(),
            decreases self.detail@.len() - i,
        {
            let k = self.detail[i].0.clone();
            let v = self.detail[i].1.dup();
            detail.push((k, v));
            i += 1;
        }
        proof {
            crate::json::lemma_dv_pairs(detail@);
            crate::json::lemma_dv_pairs(self.detail@);
            assert(dv_pairs(detail@) =~= dv_pairs(self.detail@));
        }
        Action { id: self.id.clone(), kind: self.kind, title: self.title.clone(), detail }
    }
}

/// A uniform event.
#[derive(Debug, PartialEq)]
pub enum Event {
    /// An engine opened a session; `resume` is the vendor's session token.
    Started { engine: Engine, resume: String, title: Option<String>, meta: Option<JsonValue> },
    /// A unit of agent work started, progressed or finished.
    Action {
        engine: Engine,
        phase: Phase,
        action: Action,
        ok: Option<bool>,
        message: Option<String>,
        level: Option<String>,
    },
    /// Assistant text intended for the user.
    Message { engine: Engine, text: String },
    /// The terminal event of a turn or session.
    Completed {
        engine: Engine,
        ok: bool,
        answer: String,
        resume: Option<String>,
        error: Option<String>,
        usage: Option<JsonValue>,
    },
}

/// The view of an `Event`.
pub enum EventV {
    Started { engine: Engine, resume: Seq<char>, title: Option<Seq<char>>, meta: Option<JsonVal> },
    Action {
        engine: Engine,
        phase: Phase,
        action: ActionV,
        ok: Option<bool>,
        message: Option<Seq<char>>,
        level: Option<Seq<char>>,
    },
    Message { engine: Engine, text: Seq<char> },
    Completed {
        engine: Engine,
        ok: bool,
        answer: Seq<char>,
        resume: Option<Seq<char>>,
        error: Option<Seq<char>>,
        usage: Option<JsonVal>,
    },
}

/// The view of an optional string.
pub open spec fn opt_view(o: Option<String>) -> Option<Seq<char>> {
    match o {
        Some(s) => Some(s@),
        None => None,
    }
}

/// The view of an optional JSON value.
pub open spec fn opt_dv(o: Option<JsonValue>) -> Option<JsonVal> {
    match o {
        Some(v) => Some(v.dv()),
        None => None,
    }
}

impl Event {
    /// The view of the event.
    pub open spec fn dv(self) -> EventV {
        match self {
            Event::Started { engine, resume, title, meta } => EventV::Started {
                engine,
                resume: resume@,
                title: opt_view(title),
                meta: opt_dv(meta),
            },
            Event::Action { engine, phase, action, ok, message, level } => EventV::Action {
                engine,
                phase,
                action: action.dv(),
                ok,
                message: opt_view(message),
                level: opt_view(level),
            },
            Event::Message { engine, text } => EventV::Message { engine, text: text@ },
            Event::Completed { engine, ok, answer, resume, error, usage } => EventV::Completed {
                engine,
                ok,
                answer: answer@,
                resume: opt_view(resume),
                error: opt_view(error),
                usage: opt_dv(usage),
            },
        }
    }
}

/// A started event, in the view.
pub open spec fn started_ev(
    engine: Engine,
    resume: Seq<char>,
    title: Option<Seq<char>>,
    meta: Option<JsonVal>,
) -> EventV {
    EventV::Started { engine, resume, title, meta }
}

/// An action event, in the view.
pub open spec fn action_ev(
    engine: Engine,
    phase: Phase,
    action: ActionV,
    ok: Option<bool>,
    message: Option<Seq<char>>,
    level: Option<Seq<char>>,
) -> EventV {
    EventV::Action { engine, phase, action, ok, message, level }
}

/// A message event, in the view.
pub open spec fn message_ev(engine: Engine, text: Seq<char>) -> EventV {
    EventV::Message { engine, text }
}

/// A completed event, in the view.
pub open spec fn completed_ev(
    engine: Engine,
    ok: bool,
    answer: Seq<char>,
    resume: Option<Seq<char>>,
    error: Option<Seq<char>>,
    usage: Option<JsonVal>,
) -> EventV {
    EventV::Completed { engine, ok, answer, resume, error, usage }
}

/// Whether an optional event list matches an optional view list.
pub open spec fn events_match(r: Option<Vec<Event>>, s: Option<Seq<EventV>>) -> bool {
    match r {
        Some(v) => s == Some(dv_events(v@)),
        None => s is None,
    }
}

/// The views of a sequence of events.
pub open spec fn dv_events(s: Seq<Event>) -> Seq<EventV>
    decreases s.len(),
{
    if s.len() == 0 {
        Seq::empty()
    } else {
        dv_events(s.subrange(0, s.len() - 1)).push(s[s.len() - 1].dv())
    }
}

/// `dv_events` maps the view pointwise.
pub proof fn lemma_dv_events(s: Seq<Event>)
    ensures
        dv_events(s).len() == s.len(),
        forall|i: int| 0 <= i < s.len() ==> #[trigger] dv_events(s)[i] == s[i].dv(),
    decreases s.len(),
{
    if s.len() > 0 {
        lemma_dv_events(s.subrange(0, s.len() - 1));
        assert(forall|i: int|
            0 <= i < s.len() - 1 ==> s.subrange(0, s.len() - 1)[i] == #[trigger] s[i]);
    }
}

/// An empty event list.
pub fn events0() -> (r: Vec<Event>)
    ensures
        dv_events(r@) == Seq::<EventV>::empty(),
{
    let r: Vec<Event> = Vec::new();
    proof {
        assert(dv_events(r@) =~= Seq::<EventV>::empty());
    }
    r
}

/// A one-event list.
pub fn events1(e: Event) -> (r: Vec<Event>)
    ensures
        dv_events(r@) == seq![e.dv()],
{
    let mut r: Vec<Event> = Vec::new();
    r.push(e);
    proof {
        lemma_dv_events(r@);
        assert(dv_events(r@) =~= seq![r@[0].dv()]);
    }
    r
}

/// A two-event list.
pub fn events2(e1: Event, e2: Event) -> (r: Vec<Event>)
    ensures
        dv_events(r@) == seq![e1.dv(), e2.dv()],
{
    let ghost g1 = e1.dv();
    let ghost g2 = e2.dv();
    let mut r: Vec<Event> = Vec::new();
    r.push(e1);
    r.push(e2);
    proof {
        lemma_dv_events(r@);
        assert(dv_events(r@) =~= seq![g1, g2]);
    }
    r
}

/// One binding when the string is present.
pub open spec fn wire_opt_str(key: Seq<char>, o: Option<Seq<char>>) -> Seq<(Seq<char>, JsonVal)> {
    match o {
        Some(s) => seq![(key, JsonVal::Str(s))],
        None => Seq::empty(),
    }
}

/// One binding when the value is present.
pub open spec fn wire_opt_val(key: Seq<char>, o: Option<JsonVal>) -> Seq<(Seq<char>, JsonVal)> {
    match o {
        Some(v) => seq![(key, v)],
        None => Seq::empty(),
    }
}

/// One binding when the flag is present.
pub open spec fn wire_opt_bool(key: Seq<char>, o: Option<bool>) -> Seq<(Seq<char>, JsonVal)> {
    match o {
        Some(b) => seq![(key, JsonVal::Bool(b))],
        None => Seq::empty(),
    }
}

/// The wire shape of an action: its id, kind, title and detail object.
pub open spec fn spec_action_json(a: ActionV) -> JsonVal {
    JsonVal::Obj(
        seq![
            ("id"@, JsonVal::Str(a.id)),
            ("kind"@, JsonVal::Str(a.kind.name())),
            ("title"@, JsonVal::Str(a.title)),
            ("detail"@, JsonVal::Obj(a.detail)),
        ],
    )
}

/// The wire shape of an event: an object with its `type`, its `engine`, and
/// the fields of its variant, absent optional fields left out.
pub open spec fn spec_event_json(e: EventV) -> JsonVal {
    match e {
        EventV::Started { engine, resume, title, meta } => JsonVal::Obj(
            seq![
                ("type"@, JsonVal::Str("agent.started"@)),
                ("engine"@, JsonVal::Str(engine.name())),
                ("resume"@, JsonVal::Str(resume)),
            ] + wire_opt_str("title"@, title) + wire_opt_val("meta"@, meta),
        ),
        EventV::Action { engine, phase, action, ok, message, level } => JsonVal::Obj(
            seq![
                ("type"@, JsonVal::Str("agent.action"@)),
                ("engine"@, JsonVal::Str(engine.name())),
                ("phase"@, JsonVal::Str(phase.name())),
                ("action"@, spec_action_json(action)),
            ] + wire_opt_bool("ok"@, ok) + wire_opt_str("message"@, message) + wire_opt_str(
                "level"@,
                level,
            ),
        ),
        EventV::Message { engine, text } => JsonVal::Obj(
            seq![
                ("type"@, JsonVal::Str("agent.message"@)),
                ("engine"@, JsonVal::Str(engine.name())),
                ("text"@, JsonVal::Str(text)),
            ],
        ),
        EventV::Completed { engine, ok, answer, resume, error, usage } => JsonVal::Obj(
            seq![
                ("type"@, JsonVal::Str("agent.completed"@)),
                ("engine"@, JsonVal::Str(engine.name())),
                ("ok"@, JsonVal::Bool(ok)),
                ("answer"@, JsonVal::Str(answer)),
            ] + wire_opt_str("resume"@, resume) + wire_opt_str("error"@, error) + wire_opt_val(
                "usage"@,
                usage,
            ),
        ),
    }
}

impl Event {
    /// Renders the event in its wire shape.
    pub fn to_json(&self) -> (r: JsonValue)
        ensures
            r.dv() == spec_event_json(self.dv()),
    {
        match self {
            Event::Started { engine, resume, title, meta } => {
                let mut o = crate::json::pairs0();
                crate::json::push_pair(&mut o, "type", JsonValue::Str("agent.started".to_owned()));
                crate::json::push_pair(&mut o, "engine", JsonValue::Str(engine.as_str().to_owned()));
                crate::json::push_pair(&mut o, "resume", JsonValue::Str(resume.clone()));
                match title {
                    Some(t) => crate::json::push_pair(&mut o, "title", JsonValue::Str(t.clone())),
                    None => {},
                }
                match meta {
                    Some(m) => crate::json::push_pair(&mut o, "meta", m.dup()),
                    None => {},
                }
                proof {
                    assert(dv_pairs(o@) =~= spec_event_json(self.dv())->Obj_0);
                }
                JsonValue::Obj(o)
            },
            Event::Action { engine, phase, action, ok, message, level } => {
                let mut act = crate::json::pairs0();
                crate::json::push_pair(&mut act, "id", JsonValue::Str(action.id.clone()));
                crate::json::push_pair(
                    &mut act,
                    "kind",
                    JsonValue::Str(action.kind.as_str().to_owned()),
                );
                crate::json::push_pair(&mut act, "title", JsonValue::Str(action.title.clone()));
                crate::json::push_pair(
                    &mut act,
                    "detail",
                    JsonValue::Obj(crate::json::dup_pairs(&action.detail)),
                );
                proof {
                    assert(dv_pairs(act@) =~= spec_action_json(action.dv())->Obj_0);
                }
                let mut o = crate::json::pairs0();
                crate::json::push_pair(&mut o, "type", JsonValue::Str("agent.action".to_owned()));
                crate::json::push_pair(&mut o, "engine", JsonValue::Str(engine.as_str().to_owned()));
                crate::json::push_pair(&mut o, "phase", JsonValue::Str(phase.as_str().to_owned()));
                crate::json::push_pair(&mut o, "action", JsonValue::Obj(act));
                match ok {
                    Some(b) => crate::json::push_pair(&mut o, "ok", JsonValue::Bool(*b)),
                    None => {},
                }
                match message {
                    Some(m) => crate::json::push_pair(&mut o, "message", JsonValue::Str(m.clone())),
                    None => {},
                }
                match level {
                    Some(l) => crate::json::push_pair(&mut o, "level", JsonValue::Str(l.clone())),
                    None => {},
                }
                proof {
                    assert(dv_pairs(o@) =~= spec_event_json(self.dv())->Obj_0);
                }
                JsonValue::Obj(o)
            },
            Event::Message { engine, text } => {
                let mut o = crate::json::pairs0();
                crate::json::push_pair(&mut o, "type", JsonValue::Str("agent.message".to_owned()));
                crate::json::push_pair(&mut o, "engine", JsonValue::Str(engine.as_str().to_owned()));
                crate::json::push_pair(&mut o, "text", JsonValue::Str(text.clone()));
                proof {
                    assert(dv_pairs(o@) =~= spec_event_json(self.dv())->Obj_0);
                }
                JsonValue::Obj(o)
            },
            Event::Completed { engine, ok, answer, resume, error, usage } => {
                let mut o = crate::json::pairs0();
                crate::json::push_pair(&mut o, "type", JsonValue::Str("agent.completed".to_owned()));
                crate::json::push_pair(&mut o, "engine", JsonValue::Str(engine.as_str().to_owned()));
                crate::json::push_pair(&mut o, "ok", JsonValue::Bool(*ok));
                crate::json::push_pair(&mut o, "answer", JsonValue::Str(answer.clone()));
                match resume {
                    Some(t) => crate::json::push_pair(&mut o, "resume", JsonValue::Str(t.clone())),
                    None => {},
                }
                match error {
                    Some(e) => crate::json::push_pair(&mut o, "error", JsonValue::Str(e.clone())),
                    None => {},
                }
                match usage {
                    Some(u) => crate::json::push_pair(&mut o, "usage", u.dup()),
                    None => {},
                }
                proof {
                    assert(dv_pairs(o@) =~= spec_event_json(self.dv())->Obj_0);
                }
                JsonValue::Obj(o)
            },
        }
    }
}

/// Appends an event, extending the views by its view.
pub fn push_event(out: &mut Vec<Event>, e: Event)
    ensures
        dv_events(final(out)@) == dv_events(old(out)@).push(e.dv()),
{
    let ghost g = e.dv();
    out.push(e);
    proof {
        lemma_dv_events(out@);
        lemma_dv_events(old(out)@);
        assert(dv_events(out@) =~= dv_events(old(out)@).push(g));
    }
}

} // verus!
