//! Supervisor logic: the vendor command each engine is spawned with, the
//! routing of one stdout line, and resume-token discovery in opaque lines.

use vstd::prelude::*;

use crate::events::{Engine, Event};
use crate::json::JsonValue;
use crate::parser::{json_decode, spec_parse_step, AgentParser};
use crate::store::UserError;
use crate::strutil::str_eq;

verus! {

/// The vendor command for one agent run: the program and its arguments.
pub open spec fn spec_agent_args(
    engine: Seq<char>,
    prompt: Seq<char>,
    resume: Option<Seq<char>>,
) -> Seq<Seq<char>> {
    if engine == "anthropic"@ || engine == "anthropic-code"@ {
        seq![
            "-p"@,
            "--output-format"@,
            "stream-json"@,
            "--verbose"@,
            "--dangerously-skip-permissions"@,
        ] + (match resume {
            Some(token) => seq!["--resume"@, token],
            None => Seq::empty(),
        }) + seq!["--"@, prompt]
    } else if engine == "codex"@ {
        seq!["--full-auto"@, prompt]
    } else {
        seq!["-m"@, "gemini-3-pro-preview"@, "--yolo"@, prompt]
    }
}

/// Builds the command one engine is spawned with: the program name and its
/// argument list; an unknown engine is rejected by name.
pub fn agent_command(engine: &str, prompt: &str, resume: Option<&String>) -> (r: Result<
    (String, Vec<String>),
    UserError,
>)
    ensures
        match r {
            Ok(cmd) => (engine@ == "anthropic"@ || engine@ == "anthropic-code"@ || engine@ == "codex"@
                || engine@ == "gemini"@) && cmd.0@ == (if engine@ == "codex"@ {
                "codex"@
            } else if engine@ == "gemini"@ {
                "gemini"@
            } else {
                "anthropic"@
            }) && cmd.1.deep_view() == spec_agent_args(engine@, prompt@, match resume {
                Some(t) => Some(t@),
                None => None,
            }),
            Err(e) => !(engine@ == "anthropic"@ || engine@ == "anthropic-code"@ || engine@ == "codex"@
                || engine@ == "gemini"@) && (e matches UserError::Validation(m) && m@
                == "Unknown engine: "@ + engine@),
        },
{
    if str_eq(engine, "anthropic") || str_eq(engine, "anthropic-code") {
        let mut args: Vec<String> = Vec::new();
        args.push("-p".to_owned());
        args.push("--output-format".to_owned());
        args.push("stream-json".to_owned());
        args.push("--verbose".to_owned());
        args.push("--dangerously-skip-permissions".to_owned());
        match resume {
            Some(token) => {
                args.push("--resume".to_owned());
                args.push(token.clone());
            },
            None => {},
        }
        args.push("--".to_owned());
        args.push(prompt.to_owned());
        proof {
            reveal_strlit("anthropic");
            reveal_strlit("anthropic-code");
            reveal_strlit("codex");
            reveal_strlit("gemini");
            assert("anthropic"@.len() == 9);
            assert("anthropic-code"@.len() == 14);
            assert("codex"@.len() == 5);
            assert("gemini"@.len() == 6);
            assert(args.deep_view() =~= spec_agent_args(engine@, prompt@, match resume {
                Some(t) => Some(t@),
                None => None,
            }));
        }
        return Ok(("anthropic".to_owned(), args));
    }
    if str_eq(engine, "codex") {
        let mut args: Vec<String> = Vec::new();
        args.push("--full-auto".to_owned());
        args.push(prompt.to_owned());
        proof {
            reveal_strlit("codex");
            reveal_strlit("anthropic");
            reveal_strlit("anthropic-code");
            assert("codex"@.len() == 5);
            assert("anthropic"@.len() == 9);
            assert("anthropic-code"@.len() == 14);
            assert(args.deep_view() =~= seq!["--full-auto"@, prompt@]);
        }
        return Ok(("codex".to_owned(), args));
    }
    if str_eq(engine, "gemini") {
        let mut args: Vec<String> = Vec::new();
        args.push("-m".to_owned());
        args.push("gemini-3-pro-preview".to_owned());
        args.push("--yolo".to_owned());
        args.push(prompt.to_owned());
        proof {
            reveal_strlit("gemini");
            reveal_strlit("anthropic");
            reveal_strlit("anthropic-code");
            reveal_strlit("codex");
            assert("gemini"@.len() == 6);
            assert("anthropic"@.len() == 9);
            assert("anthropic-code"@.len() == 14);
            assert("codex"@.len() == 5);
            assert(args.deep_view() =~= seq![
                "-m"@,
                "gemini-3-pro-preview"@,
                "--yolo"@,
                prompt@,
            ]);
        }
        return Ok(("gemini".to_owned(), args));
    }
    let mut msg = "Unknown engine: ".to_owned();
    msg.append(engine);
    Err(UserError::Validation(msg))
}

/// The `token` captures of a pattern over a line, in match order.
/// `regex::Regex::captures_iter` is deterministic in the pattern and the
/// line; this name stands for its capture list.
pub uninterp spec fn regex_tokens(pat: Seq<char>, line: Seq<char>) -> Seq<Seq<char>>;

/// Relies on `regex::Regex::new` and `captures_iter`: every match's `token`
/// capture group, in order.
#[verifier::external_body]
fn capture_tokens(pat: &str, line: &str) -> (r: Vec<String>)
    ensures
        r.deep_view() == regex_tokens(pat@, line@),
{
    let mut out: Vec<String> = Vec::new();
    if let Ok(re) = regex::Regex::new(pat) {
        for caps in re.captures_iter(line) {
            if let Some(m) = caps.name("token") {
                out.push(m.as_str().to_string());
            }
        }
    }
    out
}

/// The pattern that finds a Codex resume token in human-readable output.
pub fn codex_resume_pattern() -> (r: &'static str)
    ensures
        r@ == "(?i)`?codex\\s+resume\\s+(?P<token>[^`\\s]+)`?"@,
{
    "(?i)`?codex\\s+resume\\s+(?P<token>[^`\\s]+)`?"
}

/// The pattern that finds an Anthropic resume token in human-readable output.
pub fn anthropic_resume_pattern() -> (r: &'static str)
    ensures
        r@ == "(?i)`?anthropic\\s+(?:--resume|-r)\\s+(?P<token>[^`\\s]+)`?"@,
{
    "(?i)`?anthropic\\s+(?:--resume|-r)\\s+(?P<token>[^`\\s]+)`?"
}

/// The engines tagged onto a token list.
pub open spec fn tag_tokens(engine: Engine, toks: Seq<Seq<char>>) -> Seq<(Engine, Seq<char>)>
    decreases toks.len(),
{
    if toks.len() == 0 {
        Seq::empty()
    } else {
        tag_tokens(engine, toks.subrange(0, toks.len() - 1)).push(
            (engine, toks[toks.len() - 1]),
        )
    }
}

/// The view of tagged tokens.
pub open spec fn tagged_view(v: Seq<(Engine, String)>) -> Seq<(Engine, Seq<char>)>
    decreases v.len(),
{
    if v.len() == 0 {
        Seq::empty()
    } else {
        tagged_view(v.subrange(0, v.len() - 1)).push(
            (v[v.len() - 1].0, v[v.len() - 1].1@),
        )
    }
}

/// `tagged_view` maps pointwise.
pub proof fn lemma_tagged_view(v: Seq<(Engine, String)>)
    ensures
        tagged_view(v).len() == v.len(),
        forall|i: int| 0 <= i < v.len() ==> #[trigger] tagged_view(v)[i] == (v[i].0, v[i].1@),
    decreases v.len(),
{
    if v.len() > 0 {
        lemma_tagged_view(v.subrange(0, v.len() - 1));
        assert(forall|i: int|
            0 <= i < v.len() - 1 ==> v.subrange(0, v.len() - 1)[i] == #[trigger] v[i]);
    }
}

/// Every resume token a line of human-readable output names: the Codex
/// matches first, then the Anthropic matches, each tagged with its engine.
pub open spec fn spec_resume_tokens(line: Seq<char>) -> Seq<(Engine, Seq<char>)> {
    tag_tokens(
        Engine::Codex,
        regex_tokens("(?i)`?codex\\s+resume\\s+(?P<token>[^`\\s]+)`?"@, line),
    ) + tag_tokens(
        Engine::Anthropic,
        regex_tokens("(?i)`?anthropic\\s+(?:--resume|-r)\\s+(?P<token>[^`\\s]+)`?"@, line),
    )
}

/// Finds the resume tokens a line names.
#[verifier::loop_isolation(false)]
pub fn extract_resume_tokens(line: &str) -> (r: Vec<(Engine, String)>)
    ensures
        tagged_view(r@) == spec_resume_tokens(line@),
{
    let mut out: Vec<(Engine, String)> = Vec::new();
    let codex_toks = capture_tokens(codex_resume_pattern(), line);
    let ghost cv = codex_toks.deep_view();
    let mut i: usize = 0;
    proof {
        assert(tagged_view(out@) =~= Seq::<(Engine, Seq<char>)>::empty());
        assert(cv.subrange(0, 0) =~= Seq::<Seq<char>>::empty());
        assert(tag_tokens(Engine::Codex, cv.subrange(0, 0)) =~= Seq::<(Engine, Seq<char>)>::empty());
    }
    while i < codex_toks.len()
        invariant
            0 <= i <= codex_toks@.len(),
            cv.len() == codex_toks@.len(),
            tagged_view(out@) == tag_tokens(Engine::Codex, cv.subrange(0, i as int)),
        decreases codex_toks@.len() - i,
    {
        let ghost prev = out@;
        out.push((Engine::Codex, codex_toks[i].clone()));
        proof {
            lemma_tagged_view(prev);
            lemma_tagged_view(out@);
            assert(cv.subrange(0, i + 1).subrange(0, i as int) =~= cv.subrange(0, i as int));
            assert(cv.subrange(0, i + 1)[i as int] == cv[i as int]);
            assert(cv[i as int] == codex_toks@[i as int]@);
            assert(tagged_view(out@) =~= tagged_view(prev).push(
                (Engine::Codex, cv[i as int]),
            ));
        }
        i += 1;
    }
    proof {
        assert(cv.subrange(0, cv.len() as int) =~= cv);
    }
    let ghost base = tagged_view(out@);
    let anthropic_toks = capture_tokens(anthropic_resume_pattern(), line);
    let ghost lv = anthropic_toks.deep_view();
    let mut j: usize = 0;
    proof {
        assert(lv.subrange(0, 0) =~= Seq::<Seq<char>>::empty());
        assert(tag_tokens(Engine::Anthropic, lv.subrange(0, 0))
            =~= Seq::<(Engine, Seq<char>)>::empty());
        assert(tagged_view(out@) =~= base + tag_tokens(Engine::Anthropic, lv.subrange(0, 0)));
    }
    while j < anthropic_toks.len()
        invariant
            0 <= j <= anthropic_toks@.len(),
            lv.len() == anthropic_toks@.len(),
            tagged_view(out@) == base + tag_tokens(Engine::Anthropic, lv.subrange(0, j as int)),
        decreases anthropic_toks@.len() - j,
    {
        let ghost prev = out@;
        out.push((Engine::Anthropic, anthropic_toks[j].clone()));
        proof {
            lemma_tagged_view(prev);
            lemma_tagged_view(out@);
            assert(lv.subrange(0, j + 1).subrange(0, j as int) =~= lv.subrange(0, j as int));
            assert(lv.subrange(0, j + 1)[j as int] == lv[j as int]);
            assert(lv[j as int] == anthropic_toks@[j as int]@);
            assert(tagged_view(out@) =~= tagged_view(prev).push(
                (Engine::Anthropic, lv[j as int]),
            ));
            assert(tagged_view(out@) =~= base + tag_tokens(
                Engine::Anthropic,
                lv.subrange(0, j + 1),
            ));
        }
        j += 1;
    }
    proof {
        assert(lv.subrange(0, lv.len() as int) =~= lv);
    }
    out
}

/// Admits a new agent session only under an id no running session holds;
/// the refusal names the id.
pub fn run_gate(active: &Vec<String>, session_id: &str) -> (r: Result<(), UserError>)
    ensures
        r is Err <==> active.deep_view().contains(session_id@),
        r matches Err(e) ==> (e matches UserError::Validation(m) && m@ == "Agent session "@
            + session_id@ + " is already running"@),
{
    if crate::naming::contains_str(active, session_id) {
        let mut msg = "Agent session ".to_owned();
        msg.append(session_id);
        msg.append(" is already running");
        proof {
            assert(msg@ =~= "Agent session "@ + session_id@ + " is already running"@);
        }
        Err(UserError::Validation(msg))
    } else {
        Ok(())
    }
}

/// Admits an attachment only to a running session.
pub fn attach_gate(active: &Vec<String>, session_id: &str) -> (r: Result<(), UserError>)
    ensures
        r is Err <==> !active.deep_view().contains(session_id@),
        r matches Err(e) ==> (e matches UserError::Validation(m) && m@
            == "No running agent with session_id: "@ + session_id@),
{
    if crate::naming::contains_str(active, session_id) {
        Ok(())
    } else {
        let mut msg = "No running agent with session_id: ".to_owned();
        msg.append(session_id);
        Err(UserError::Validation(msg))
    }
}

/// Admits a stop only of a running session; stopping twice is not found.
pub fn stop_gate(active: &Vec<String>, session_id: &str) -> (r: Result<(), UserError>)
    ensures
        r is Err <==> !active.deep_view().contains(session_id@),
        r matches Err(e) ==> (e matches UserError::Validation(m) && m@
            == "No agent with that session_id"@),
{
    if crate::naming::contains_str(active, session_id) {
        Ok(())
    } else {
        Err(UserError::Validation("No agent with that session_id".to_owned()))
    }
}

/// What one stdout line becomes: normalized events, an opaque container to
/// forward, or nothing.
#[derive(Debug, PartialEq)]
pub enum RoutedLine {
    Events(Vec<Event>),
    Opaque(JsonValue),
    Ignored,
}

/// The envelope an unrecognized JSON container is forwarded in.
pub open spec fn spec_opaque_envelope(jv: crate::json::JsonVal) -> crate::json::JsonVal {
    crate::json::JsonVal::Obj(
        seq![
            ("type"@, crate::json::JsonVal::Str("json"@)),
            ("data"@, jv),
        ],
    )
}

/// Routes one stdout line: a line either engine recognizes becomes its
/// events; other JSON objects and arrays are forwarded opaquely, wrapped in
/// a `json` envelope; anything else is dropped.
pub fn route_stdout_line(parser: &mut AgentParser, line: &str) -> (r: RoutedLine)
    ensures
        match json_decode(line@) {
            None => r is Ignored && final(parser).view() == old(parser).view(),
            Some(jv) => ({
                let s = spec_parse_step(old(parser).view(), jv);
                final(parser).view() == s.0 && (match s.1 {
                    Some(evs) => r matches RoutedLine::Events(events)
                        && crate::events::dv_events(events@) == evs,
                    None => if jv is Obj || jv is Arr {
                        r matches RoutedLine::Opaque(v) && v.dv() == spec_opaque_envelope(jv)
                    } else {
                        r is Ignored
                    },
                })
            }),
        },
{
    let value = match crate::parser::decode_json(line) {
        Some(v) => v,
        None => {
            return RoutedLine::Ignored;
        },
    };
    match parser.parse_value(&value) {
        Some(events) => RoutedLine::Events(events),
        None => {
            if value.is_container() {
                let ghost jv = value.dv();
                let mut envelope = crate::json::pairs0();
                crate::json::push_pair(&mut envelope, "type", JsonValue::Str("json".to_owned()));
                crate::json::push_pair(&mut envelope, "data", value);
                proof {
                    assert(crate::json::dv_pairs(envelope@) =~= spec_opaque_envelope(jv)->Obj_0);
                }
                RoutedLine::Opaque(JsonValue::Obj(envelope))
            } else {
                RoutedLine::Ignored
            }
        },
    }
}

} // verus!
