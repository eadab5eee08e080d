//! Codex CLI implementation of the Runner Adapter seam: which requests Codex may run, how
//! it is invoked, and how its JSONL output becomes a compact report.
//!
//! Starting the process, feeding the prompt and capturing output belong to the caller; this
//! module decides everything around those steps.

use vstd::prelude::*;
use vstd::utf8::{decode_utf8, valid_utf8};

use crate::json::{json_text_value, parse_json_text, JsonValue};
use crate::ordered::{copy_str, str_eq, string_views};
use crate::progress::types::opt_view;
use crate::runner::{
    valid_safe_text, AuthorizedRunnerRequest, RunnerFailure, RunnerFailureCategory, RunnerOutcome,
    RunnerReport,
};
use crate::text::{
    char_is_control, char_len, has_visible_char, is_control, no_control, push_char,
    text_has_no_control, text_has_visible_char,
};

verus! {

/// Longest accepted prompt, in characters.
pub const MAX_PROMPT_CHARS: usize = 524288;
/// Longest accepted model name or thread identity, in characters.
pub const MAX_OPTION_CHARS: usize = 256;
/// Most stdout bytes retained from one Codex process.
pub const MAX_STDOUT_BYTES: usize = 1048576;
/// Most stderr bytes retained from one Codex process.
pub const MAX_STDERR_BYTES: usize = 262144;
/// Most JSONL events accepted from one Codex turn.
pub const MAX_JSONL_EVENTS: usize = 10000;
/// Longest retained final agent message, in characters.
pub const MAX_FINAL_OUTPUT_CHARS: usize = 50000;
/// Longest report summary, in characters.
pub const MAX_CODEX_SUMMARY_CHARS: usize = 4096;

/// Stable capability that permits Codex to modify its primary workspace.
pub const WORKSPACE_WRITE_CAPABILITY: &'static str = "workspace.write";
/// Stable capability accepted for read-only workspace and instruction access.
pub const CONTEXT_READ_CAPABILITY: &'static str = "context.read";

/// Runtime-owned input accepted by the Codex Runner Adapter.
#[derive(Clone, Debug, PartialEq, Eq)]
pub struct CodexRunPayload {
    /// Complete instruction passed to one non-interactive Codex turn.
    pub prompt: String,
    /// Existing prepared workspace used as the Codex working root.
    pub workspace: String,
    /// Optional explicit model selection owned by the caller.
    pub model: Option<String>,
}

/// A payload problem: its stable code and message.
#[derive(Debug, Clone, Copy, PartialEq, Eq)]
pub struct PayloadViolation {
    pub code: &'static str,
    pub message: &'static str,
}

/// A one-line option: not blank, at most `max` characters, no control characters.
pub open spec fn valid_single_line_spec(s: Seq<char>, max: nat) -> bool {
    has_visible_char(s) && s.len() <= max && no_control(s)
}

/// Whether the text is a valid multi-line instruction of at most `max` characters.
pub fn valid_text(value: &str, max_chars: usize) -> (b: bool)
    ensures
        b == valid_safe_text(value@, max_chars as nat),
{
    crate::runner::safe_text_is_valid(value, max_chars)
}

/// Whether the text is a valid one-line option of at most `max` characters.
pub fn valid_single_line(value: &str, max_chars: usize) -> (b: bool)
    ensures
        b == valid_single_line_spec(value@, max_chars as nat),
{
    text_has_visible_char(value) && char_len(value) <= max_chars && text_has_no_control(value)
}

/// The first problem of a payload, given whether its workspace is an existing absolute
/// directory.
pub open spec fn payload_issue(p: CodexRunPayload, workspace_ok: bool) -> Option<(Seq<char>, Seq<char>)> {
    if !valid_safe_text(p.prompt@, MAX_PROMPT_CHARS as nat) {
        Some(("invalid_prompt"@, "Codex prompt is empty or invalid"@))
    } else if !workspace_ok {
        Some(("invalid_workspace"@, "Codex workspace must be an existing absolute directory"@))
    } else if p.model is Some && !valid_single_line_spec(p.model->0@, MAX_OPTION_CHARS as nat) {
        Some(("invalid_model"@, "Codex model selection is invalid"@))
    } else {
        None
    }
}

/// Check a payload, given whether its workspace is an existing absolute directory.
pub fn validate_payload(payload: &CodexRunPayload, workspace_ok: bool) -> (r: Result<(), PayloadViolation>)
    ensures
        match payload_issue(*payload, workspace_ok) {
            Some((code, message)) => r matches Err(v) && v.code@ == code && v.message@ == message,
            None => r is Ok,
        },
{
    if !valid_text(payload.prompt.as_str(), MAX_PROMPT_CHARS) {
        return Err(PayloadViolation { code: "invalid_prompt", message: "Codex prompt is empty or invalid" });
    }
    if !workspace_ok {
        return Err(
            PayloadViolation {
                code: "invalid_workspace",
                message: "Codex workspace must be an existing absolute directory",
            },
        );
    }
    if let Some(model) = &payload.model {
        if !valid_single_line(model.as_str(), MAX_OPTION_CHARS) {
            return Err(PayloadViolation { code: "invalid_model", message: "Codex model selection is invalid" });
        }
    }
    Ok(())
}

/// A capability the Codex Adapter knows how to enforce.
pub open spec fn supported_capability(c: Seq<char>) -> bool {
    c == CONTEXT_READ_CAPABILITY@ || c == WORKSPACE_WRITE_CAPABILITY@
}

/// Whether the Codex Adapter can enforce the capability.
pub fn is_supported_capability(capability: &str) -> (b: bool)
    ensures
        b == supported_capability(capability@),
{
    str_eq(capability, CONTEXT_READ_CAPABILITY) || str_eq(capability, WORKSPACE_WRITE_CAPABILITY)
}

/// Codex sandbox modes.
#[derive(Clone, Copy, Debug, PartialEq, Eq, Structural)]
pub enum CodexSandbox {
    ReadOnly,
    WorkspaceWrite,
}

pub open spec fn sandbox_arg(s: CodexSandbox) -> Seq<char> {
    match s {
        CodexSandbox::ReadOnly => "read-only"@,
        CodexSandbox::WorkspaceWrite => "workspace-write"@,
    }
}

impl CodexSandbox {
    /// The `--sandbox` argument for the mode.
    pub fn as_arg(self) -> (r: &'static str)
        ensures
            r@ == sandbox_arg(self),
    {
        match self {
            CodexSandbox::ReadOnly => "read-only",
            CodexSandbox::WorkspaceWrite => "workspace-write",
        }
    }
}

/// The sandbox for the authorized capabilities: workspace writes only when granted.
pub open spec fn sandbox_for(caps: Seq<Seq<char>>) -> CodexSandbox {
    if caps.contains(WORKSPACE_WRITE_CAPABILITY@) {
        CodexSandbox::WorkspaceWrite
    } else {
        CodexSandbox::ReadOnly
    }
}

/// The sandbox for the authorized capabilities.
pub fn select_sandbox(capabilities: &Vec<String>) -> (r: CodexSandbox)
    ensures
        r == sandbox_for(string_views(capabilities@)),
{
    if crate::ordered::contains_str(capabilities, WORKSPACE_WRITE_CAPABILITY) {
        CodexSandbox::WorkspaceWrite
    } else {
        CodexSandbox::ReadOnly
    }
}

/// The fixed arguments of a Codex invocation, up to the model selection.
pub open spec fn base_args(sandbox: CodexSandbox, workspace: Seq<char>) -> Seq<Seq<char>> {
    seq![
        "exec"@,
        "--json"@,
        "--ephemeral"@,
        "--color"@,
        "never"@,
        "--ignore-user-config"@,
        "--disable"@,
        "hooks"@,
        "--sandbox"@,
        sandbox_arg(sandbox),
        "--cd"@,
        workspace,
        "--config"@,
        "approval_policy=\"never\""@,
        "--config"@,
        "web_search=\"disabled\""@,
        "--config"@,
        "mcp_servers={}"@,
    ]
}

/// All arguments of a Codex invocation: the prompt is read from stdin (`-`).
pub open spec fn invocation_args(sandbox: CodexSandbox, workspace: Seq<char>, model: Option<Seq<char>>) -> Seq<
    Seq<char>,
> {
    match model {
        Some(m) => base_args(sandbox, workspace) + seq!["--model"@, m, "-"@],
        None => base_args(sandbox, workspace).push("-"@),
    }
}

/// One prepared non-interactive Codex invocation.
#[derive(Debug, Clone, PartialEq, Eq)]
pub struct CodexInvocation {
    /// Command-line arguments.
    pub args: Vec<String>,
    /// Prompt written to the process's stdin.
    pub prompt: String,
    /// Working directory of the process.
    pub workspace: String,
}

fn push_text(v: &mut Vec<String>, s: &str)
    ensures
        string_views(final(v)@) == string_views(old(v)@).push(s@),
{
    v.push(copy_str(s));
    assert(string_views(v@) =~= string_views(old(v)@).push(s@));
}

impl CodexInvocation {
    /// The invocation for a validated payload and sandbox.
    pub fn new(payload: CodexRunPayload, sandbox: CodexSandbox) -> (r: CodexInvocation)
        ensures
            string_views(r.args@) == invocation_args(sandbox, payload.workspace@, opt_view(payload.model)),
            r.prompt@ == payload.prompt@,
            r.workspace@ == payload.workspace@,
    {
        let mut args: Vec<String> = Vec::new();
        push_text(&mut args, "exec");
        push_text(&mut args, "--json");
        push_text(&mut args, "--ephemeral");
        push_text(&mut args, "--color");
        push_text(&mut args, "never");
        push_text(&mut args, "--ignore-user-config");
        push_text(&mut args, "--disable");
        push_text(&mut args, "hooks");
        push_text(&mut args, "--sandbox");
        push_text(&mut args, sandbox.as_arg());
        push_text(&mut args, "--cd");
        push_text(&mut args, payload.workspace.as_str());
        push_text(&mut args, "--config");
        push_text(&mut args, "approval_policy=\"never\"");
        push_text(&mut args, "--config");
        push_text(&mut args, "web_search=\"disabled\"");
        push_text(&mut args, "--config");
        push_text(&mut args, "mcp_servers={}");
        assert(string_views(args@) =~= base_args(sandbox, payload.workspace@));
        if let Some(model) = &payload.model {
            push_text(&mut args, "--model");
            push_text(&mut args, model.as_str());
        }
        push_text(&mut args, "-");
        assert(string_views(args@) =~= invocation_args(sandbox, payload.workspace@, opt_view(payload.model)));
        CodexInvocation { args, prompt: payload.prompt, workspace: payload.workspace }
    }
}

/// Control characters other than line feed, carriage return and tab become spaces.
pub open spec fn spaced(s: Seq<char>) -> Seq<char> {
    s.map_values(
        |c: char|
            if is_control(c) && c != '\n' && c != '\r' && c != '\t' {
                ' '
            } else {
                c
            },
    )
}

/// A bounded display text: the first `max` characters with stray controls replaced, or a
/// fixed notice when nothing visible remains.
pub open spec fn bounded_text_spec(s: Seq<char>, max: nat) -> Seq<char> {
    let t = spaced(crate::text::prefix_at_most(s, max));
    if has_visible_char(t) {
        t
    } else {
        "Codex returned an empty result"@
    }
}

/// Bound a runtime-produced text for display.
pub fn bounded_text(value: &str, max_chars: usize) -> (r: String)
    ensures
        r@ == bounded_text_spec(value@, max_chars as nat),
{
    let mut bounded = String::new();
    let mut count: usize = 0;
    for c in it: value.chars()
        invariant
            it.seq() == value@,
            count <= max_chars,
            count == if it.index() <= max_chars { it.index() as int } else { max_chars as int },
            bounded@ == spaced(value@.take(count as int)),
    {
        if count < max_chars {
            assert(value@[it.index() as int] == c);
            let d = if char_is_control(c) && c != '\n' && c != '\r' && c != '\t' {
                ' '
            } else {
                c
            };
            push_char(&mut bounded, d);
            assert(value@.take(count + 1) =~= value@.take(count as int).push(c));
            assert(spaced(value@.take(count + 1)) =~= spaced(value@.take(count as int)).push(d));
            count = count + 1;
        }
    }
    assert(value@.take(count as int) =~= crate::text::prefix_at_most(value@, max_chars as nat));
    if text_has_visible_char(bounded.as_str()) {
        bounded
    } else {
        copy_str("Codex returned an empty result")
    }
}

/// An object without members.
pub open spec fn empty_object(v: JsonValue) -> bool {
    match v {
        JsonValue::Object(m) => m@.len() == 0,
        _ => false,
    }
}

/// The object `{"unsupported_capability": c}`.
pub open spec fn names_capability(v: JsonValue, c: Seq<char>) -> bool {
    match v {
        JsonValue::Object(m) => m@.len() == 1 && m@[0].0@ == "unsupported_capability"@ && match m@[0].1 {
            JsonValue::Str(x) => x@ == c,
            _ => false,
        },
        _ => false,
    }
}

/// The failure details of a report.
pub open spec fn failure_fields(
    r: RunnerReport,
    category: RunnerFailureCategory,
    code: Seq<char>,
    message: Seq<char>,
) -> bool {
    r.failure matches Some(f) && f.category == category && f.code@ == code && f.message@ == message
}

/// A failed report with an empty payload whose summary is the failure message.
pub fn failure_report(category: RunnerFailureCategory, code: &str, message: &str) -> (r: RunnerReport)
    ensures
        r.outcome == RunnerOutcome::Failed,
        r.summary@ == message@,
        empty_object(r.payload),
        r.evidence@.len() == 0,
        failure_fields(r, category, code@, message@),
{
    RunnerReport {
        outcome: RunnerOutcome::Failed,
        summary: copy_str(message),
        payload: JsonValue::Object(Vec::new()),
        evidence: Vec::new(),
        failure: Some(RunnerFailure { category, code: copy_str(code), message: copy_str(message) }),
    }
}

/// The report for a Codex process that could not be started.
pub fn spawn_failure() -> (r: RunnerReport)
    ensures
        r.outcome == RunnerOutcome::Failed,
        failure_fields(r, RunnerFailureCategory::Configuration, "codex_unavailable"@, "Codex could not be started"@),
{
    failure_report(RunnerFailureCategory::Configuration, "codex_unavailable", "Codex could not be started")
}

/// The report for a failure to communicate with the Codex process.
pub fn process_io_failure() -> (r: RunnerReport)
    ensures
        r.outcome == RunnerOutcome::Failed,
        failure_fields(r, RunnerFailureCategory::Internal, "codex_process_io"@, "Codex process communication failed"@),
{
    failure_report(RunnerFailureCategory::Internal, "codex_process_io", "Codex process communication failed")
}

/// The first authorized capability that Codex cannot enforce, if any.
pub open spec fn first_unsupported(caps: Seq<Seq<char>>) -> Option<int> {
    if exists|i: int| 0 <= i < caps.len() && !supported_capability(caps[i]) {
        Some(choose|i: int| 0 <= i < caps.len() && !supported_capability(caps[i]) && forall|j: int| 0 <= j < i ==> supported_capability(caps[j]))
    } else {
        None
    }
}

fn find_unsupported(caps: &Vec<String>) -> (r: Option<usize>)
    ensures
        match r {
            Some(i) => i < caps@.len() && first_unsupported(string_views(caps@)) == Some(i as int),
            None => first_unsupported(string_views(caps@)) is None,
        },
{
    let ghost s = string_views(caps@);
    let mut i: usize = 0;
    while i < caps.len()
        invariant
            i <= caps@.len(),
            s == string_views(caps@),
            forall|j: int| 0 <= j < i ==> supported_capability(s[j]),
        decreases caps@.len() - i,
    {
        if !is_supported_capability(caps[i].as_str()) {
            proof {
                assert(!supported_capability(s[i as int]));
                let k = choose|k: int|
                    0 <= k < s.len() && !supported_capability(s[k]) && forall|j: int|
                        0 <= j < k ==> supported_capability(s[j]);
                if k < i {
                } else if k > i {
                }
                assert(k == i);
            }
            return Some(i);
        }
        i = i + 1;
    }
    None
}

/// What preparing a request answers: the invocation to run, or the report that ends the run
/// before Codex is started. `payload` is `None` when the request's payload is not a
/// well-formed Codex payload; `workspace_ok` is whether its workspace is an existing absolute
/// directory.
pub open spec fn prepare_spec(
    caps: Seq<Seq<char>>,
    payload: Option<CodexRunPayload>,
    workspace_ok: bool,
) -> Result<(CodexSandbox, CodexRunPayload), PrepareFailure> {
    match payload {
        None => Err(PrepareFailure::Payload("invalid_codex_payload"@, "invalid Codex input"@)),
        Some(p) => match payload_issue(p, workspace_ok) {
            Some((code, message)) => Err(PrepareFailure::Payload(code, message)),
            None => match first_unsupported(caps) {
                Some(i) => Err(PrepareFailure::Unsupported(i)),
                None => Ok((sandbox_for(caps), p)),
            },
        },
    }
}

/// Why a request ends before Codex starts.
pub enum PrepareFailure {
    /// The payload is malformed or invalid: the failure code and message.
    Payload(Seq<char>, Seq<char>),
    /// The capability at this position of the authorized list cannot be enforced.
    Unsupported(int),
}

/// Decide whether and how Codex runs for an authorized request.
pub fn prepare(
    request: &AuthorizedRunnerRequest,
    payload: Option<CodexRunPayload>,
    workspace_ok: bool,
) -> (r: Result<CodexInvocation, RunnerReport>)
    ensures
        match prepare_spec(request.spec_capabilities(), payload, workspace_ok) {
            Ok((sandbox, p)) => r matches Ok(inv) && string_views(inv.args@) == invocation_args(
                sandbox,
                p.workspace@,
                opt_view(p.model),
            ) && inv.prompt@ == p.prompt@ && inv.workspace@ == p.workspace@,
            Err(PrepareFailure::Payload(code, message)) => r matches Err(report) && report.outcome
                == RunnerOutcome::Failed && report.evidence@.len() == 0 && failure_fields(
                report,
                RunnerFailureCategory::Configuration,
                code,
                message,
            ) && report.summary@ == message && empty_object(report.payload),
            Err(PrepareFailure::Unsupported(i)) => r matches Err(report) && report.outcome
                == RunnerOutcome::Failed && report.evidence@.len() == 0 && failure_fields(
                report,
                RunnerFailureCategory::Configuration,
                "unsupported_capability"@,
                "the Codex Adapter does not map this capability"@,
            ) && report.summary@ == "Codex cannot enforce an authorized capability"@
                && names_capability(report.payload, request.spec_capabilities()[i]),
        },
{
    let payload = match payload {
        Some(p) => p,
        None => {
            return Err(failure_report(RunnerFailureCategory::Configuration, "invalid_codex_payload", "invalid Codex input"));
        },
    };
    if let Err(v) = validate_payload(&payload, workspace_ok) {
        return Err(failure_report(RunnerFailureCategory::Configuration, v.code, v.message));
    }
    let caps = request.authorized_capabilities();
    if let Some(i) = find_unsupported(caps) {
        let capability = caps[i].clone();
        assert(capability@ == string_views(caps@)[i as int]);
        assert(capability@ == request.spec_capabilities()[i as int]);
        let ghost cap_view = capability@;
        let mut members: Vec<(String, JsonValue)> = Vec::new();
        members.push((copy_str("unsupported_capability"), JsonValue::Str(capability)));
        assert(members@.len() == 1);
        assert(members@[0].1 matches JsonValue::Str(x) && x@ == cap_view);
        let payload_value = JsonValue::Object(members);
        assert(names_capability(payload_value, request.spec_capabilities()[i as int]));
        assert(prepare_spec(request.spec_capabilities(), Some(payload), workspace_ok) == Err::<(CodexSandbox, CodexRunPayload), PrepareFailure>(PrepareFailure::Unsupported(i as int)));
        return Err(
            RunnerReport {
                outcome: RunnerOutcome::Failed,
                summary: copy_str("Codex cannot enforce an authorized capability"),
                payload: payload_value,
                evidence: Vec::new(),
                failure: Some(
                    RunnerFailure {
                        category: RunnerFailureCategory::Configuration,
                        code: copy_str("unsupported_capability"),
                        message: copy_str("the Codex Adapter does not map this capability"),
                    },
                ),
            },
        );
    }
    let sandbox = select_sandbox(caps);
    Ok(CodexInvocation::new(payload, sandbox))
}

/// A line without one trailing carriage return.
pub open spec fn strip_cr(s: Seq<char>) -> Seq<char> {
    if s.len() > 0 && s.last() == '\r' {
        s.drop_last()
    } else {
        s
    }
}

/// Lines read so far and the line being read, after the characters of `s`: a line feed ends
/// a line (dropping a carriage return before it); blank lines are skipped.
pub open spec fn line_state(s: Seq<char>) -> (Seq<Seq<char>>, Seq<char>)
    decreases s.len(),
{
    if s.len() == 0 {
        (Seq::empty(), Seq::empty())
    } else {
        let (done, cur) = line_state(s.drop_last());
        if s.last() == '\n' {
            (
                if has_visible_char(strip_cr(cur)) {
                    done.push(strip_cr(cur))
                } else {
                    done
                },
                Seq::empty(),
            )
        } else {
            (done, cur.push(s.last()))
        }
    }
}

/// The non-blank lines of a JSONL stream, in order.
pub open spec fn event_lines_spec(s: Seq<char>) -> Seq<Seq<char>> {
    let (done, cur) = line_state(s);
    if has_visible_char(cur) {
        done.push(cur)
    } else {
        done
    }
}

/// The non-blank lines of a JSONL stream, in order; a line ends at a line feed, which with a
/// carriage return just before it is not part of the line.
pub fn event_lines(stream: &str) -> (r: Vec<String>)
    ensures
        string_views(r@) == event_lines_spec(stream@),
{
    let mut done: Vec<String> = Vec::new();
    let mut cur = String::new();
    let mut pending_cr = false;
    let ghost mut seen: Seq<char> = Seq::empty();
    for c in it: stream.chars()
        invariant
            it.seq() == stream@,
            seen == it.seq().take(it.index() as int),
            string_views(done@) == line_state(seen).0,
            (if pending_cr {
                cur@.push('\r')
            } else {
                cur@
            }) == line_state(seen).1,
            !pending_cr ==> (cur@.len() == 0 || cur@.last() != '\r'),
    {
        let ghost before = seen;
        proof {
            assert(it.seq().take(it.index() + 1) =~= seen.push(c));
            seen = seen.push(c);
            assert(seen.drop_last() =~= before);
            assert(seen.last() == c);
        }
        if c == '\n' {
            proof {
                let line = line_state(before).1;
                if pending_cr {
                    assert(line.drop_last() =~= cur@);
                }
                assert(strip_cr(line) == cur@);
            }
            if text_has_visible_char(cur.as_str()) {
                let ghost dv = string_views(done@);
                let ghost cv = cur@;
                done.push(cur);
                assert(string_views(done@) =~= dv.push(cv));
            }
            cur = String::new();
            pending_cr = false;
            assert(cur@ =~= Seq::<char>::empty());
        } else if c == '\r' {
            if pending_cr {
                push_char(&mut cur, '\r');
            }
            pending_cr = true;
        } else {
            if pending_cr {
                push_char(&mut cur, '\r');
            }
            push_char(&mut cur, c);
            pending_cr = false;
        }
    }
    if pending_cr {
        push_char(&mut cur, '\r');
    }
    assert(seen =~= stream@);
    if text_has_visible_char(cur.as_str()) {
        let ghost dv = string_views(done@);
        let ghost cv = cur@;
        done.push(cur);
        assert(string_views(done@) =~= dv.push(cv));
    }
    done
}

/// The value of the first member from position `k` on named `key`.
pub open spec fn member_from(m: Seq<(String, JsonValue)>, key: Seq<char>, k: int) -> Option<JsonValue>
    decreases m.len() - k,
{
    if k < 0 || k >= m.len() {
        None
    } else if m[k].0@ == key {
        Some(m[k].1)
    } else {
        member_from(m, key, k + 1)
    }
}

/// The value of the first member named `key` of an object; nothing for other values.
pub open spec fn member(v: JsonValue, key: Seq<char>) -> Option<JsonValue> {
    match v {
        JsonValue::Object(m) => member_from(m@, key, 0),
        _ => None,
    }
}

/// The text of a string value.
pub open spec fn text_of(v: Option<JsonValue>) -> Option<Seq<char>> {
    match v {
        Some(JsonValue::Str(s)) => Some(s@),
        _ => None,
    }
}

/// The first member named `key` of an object.
pub fn json_member<'a>(v: &'a JsonValue, key: &str) -> (r: Option<&'a JsonValue>)
    ensures
        match r {
            Some(x) => member(*v, key@) == Some(*x),
            None => member(*v, key@) is None,
        },
{
    match v {
        JsonValue::Object(m) => {
            let mut i: usize = 0;
            while i < m.len()
                invariant
                    *v == JsonValue::Object(*m),
                    i <= m@.len(),
                    member(*v, key@) == member_from(m@, key@, i as int),
                decreases m@.len() - i,
            {
                if str_eq(m[i].0.as_str(), key) {
                    return Some(&m[i].1);
                }
                i = i + 1;
            }
            None
        },
        _ => None,
    }
}

/// The text of a string value.
pub fn json_text<'a>(v: Option<&'a JsonValue>) -> (r: Option<&'a str>)
    ensures
        match r {
            Some(s) => v matches Some(x) && text_of(Some(*x)) == Some(s@),
            None => v is None || text_of(Some(*v->0)) is None,
        },
{
    match v {
        Some(JsonValue::Str(s)) => Some(s.as_str()),
        _ => None,
    }
}

/// A member name that a Codex payload may carry.
pub open spec fn payload_key(k: Seq<char>) -> bool {
    k == "prompt"@ || k == "workspace"@ || k == "model"@
}

/// The prompt, workspace and model a JSON value holds as a Codex payload: an object whose
/// members are all known and named once, with text `prompt` and `workspace`, and a `model`
/// that is text, null or absent. Anything else is no payload.
pub open spec fn payload_fields(v: JsonValue) -> Option<(Seq<char>, Seq<char>, Option<Seq<char>>)> {
    match v {
        JsonValue::Object(m) => if (forall|i: int| 0 <= i < m@.len() ==> payload_key(#[trigger] m@[i].0@))
            && (forall|i: int, j: int| 0 <= i < j < m@.len() ==> (#[trigger] m@[i]).0@ != (#[trigger] m@[j]).0@) {
            match (text_of(member(v, "prompt"@)), text_of(member(v, "workspace"@)), member(v, "model"@)) {
                (Some(p), Some(w), None) => Some((p, w, None)),
                (Some(p), Some(w), Some(JsonValue::Null)) => Some((p, w, None)),
                (Some(p), Some(w), Some(JsonValue::Str(s))) => Some((p, w, Some(s@))),
                _ => None,
            }
        } else {
            None
        },
        _ => None,
    }
}

/// Read a Codex payload out of a request payload; `None` when it is not one.
pub fn payload_from_json(v: &JsonValue) -> (r: Option<CodexRunPayload>)
    ensures
        match payload_fields(*v) {
            None => r is None,
            Some((p, w, m)) => r matches Some(x) && x.prompt@ == p && x.workspace@ == w && opt_view(
                x.model,
            ) == m,
        },
{
    let m = match v {
        JsonValue::Object(m) => m,
        _ => return None,
    };
    let n = m.len();
    let mut i: usize = 0;
    while i < n
        invariant
            *v == JsonValue::Object(*m),
            n == m@.len(),
            i <= n,
            forall|a: int| 0 <= a < i ==> payload_key(#[trigger] m@[a].0@),
            forall|a: int, b: int| 0 <= a < i && a < b < n ==> (#[trigger] m@[a]).0@ != (#[trigger] m@[b]).0@,
        decreases n - i,
    {
        let k = m[i].0.as_str();
        if !(str_eq(k, "prompt") || str_eq(k, "workspace") || str_eq(k, "model")) {
            assert(!payload_key(m@[i as int].0@));
            return None;
        }
        let mut j: usize = i + 1;
        while j < n
            invariant
                *v == JsonValue::Object(*m),
                n == m@.len(),
                i < n,
                i + 1 <= j <= n,
                k@ == m@[i as int].0@,
                forall|b: int| i < b < j ==> m@[i as int].0@ != (#[trigger] m@[b]).0@,
            decreases n - j,
        {
            if str_eq(k, m[j].0.as_str()) {
                assert(m@[i as int].0@ == m@[j as int].0@);
                return None;
            }
            j = j + 1;
        }
        i = i + 1;
    }
    let prompt = match json_text(json_member(v, "prompt")) {
        Some(p) => p,
        None => return None,
    };
    let workspace = match json_text(json_member(v, "workspace")) {
        Some(w) => w,
        None => return None,
    };
    let model = match json_member(v, "model") {
        None => None,
        Some(JsonValue::Null) => None,
        Some(JsonValue::Str(s)) => Some(s.clone()),
        Some(_) => return None,
    };
    Some(CodexRunPayload { prompt: copy_str(prompt), workspace: copy_str(workspace), model })
}

/// The token counters reported with a completed turn, in name order.
pub open spec fn usage_fields() -> Seq<Seq<char>> {
    seq!["cached_input_tokens"@, "input_tokens"@, "output_tokens"@, "reasoning_output_tokens"@]
}

/// JSON number text of an unsigned 64-bit integer: digits only, at most `u64::MAX`.
pub open spec fn u64_text(t: Seq<char>) -> bool {
    &&& 1 <= t.len() <= 20
    &&& forall|i: int| 0 <= i < t.len() ==> '0' <= #[trigger] t[i] <= '9'
    &&& (t.len() < 20 || !crate::ordered::lex_lt("18446744073709551615"@, t))
}

pub open spec fn is_u64(v: JsonValue) -> bool {
    match v {
        JsonValue::Number(t) => u64_text(t@),
        _ => false,
    }
}

/// Whether a value is a JSON number that holds an unsigned 64-bit integer.
pub fn json_is_u64(v: &JsonValue) -> (b: bool)
    ensures
        b == is_u64(*v),
{
    match v {
        JsonValue::Number(t) => {
            let n = char_len(t.as_str());
            if n < 1 || n > 20 {
                return false;
            }
            let mut i: usize = 0;
            while i < n
                invariant
                    is_u64(*v) == u64_text(t@),
                    n == t@.len(),
                    i <= n,
                    forall|j: int| 0 <= j < i ==> '0' <= #[trigger] t@[j] <= '9',
                decreases n - i,
            {
                let c = t.as_str().get_char(i);
                if c < '0' || c > '9' {
                    assert(!('0' <= t@[i as int] <= '9'));
                    return false;
                }
                i = i + 1;
            }
            n < 20 || !crate::ordered::str_lt("18446744073709551615", t.as_str())
        },
        _ => false,
    }
}

/// The counters of a turn's usage, or the failure code when the usage is malformed.
pub open spec fn usage_spec(v: Option<JsonValue>) -> Result<Option<Seq<(Seq<char>, Seq<char>)>>, Seq<char>> {
    match v {
        None => Ok(None),
        Some(u) => if !(u is Object) {
            Err("invalid_turn_completed"@)
        } else {
            usage_from(u, 0, Seq::empty())
        },
    }
}

pub open spec fn usage_from(u: JsonValue, k: int, acc: Seq<(Seq<char>, Seq<char>)>) -> Result<
    Option<Seq<(Seq<char>, Seq<char>)>>,
    Seq<char>,
>
    decreases 4 - k,
{
    if k < 0 || k >= 4 {
        Ok(Some(acc))
    } else {
        match member(u, usage_fields()[k]) {
            None => usage_from(u, k + 1, acc),
            Some(x) => if !is_u64(x) {
                Err("invalid_turn_completed"@)
            } else {
                usage_from(u, k + 1, acc.push((usage_fields()[k], x->Number_0@)))
            },
        }
    }
}

/// What a Codex turn reported, as far as the report needs it.
pub struct ParsedEvents {
    pub thread_id: Option<String>,
    pub final_output: Option<String>,
    pub usage: Option<Vec<(String, String)>>,
    pub turn_completed: bool,
    pub turn_failed: bool,
    pub error_seen: bool,
}

/// Abstract value of the parsed events.
pub struct EventsView {
    pub thread_id: Option<Seq<char>>,
    pub final_output: Option<Seq<char>>,
    pub usage: Option<Seq<(Seq<char>, Seq<char>)>>,
    pub turn_completed: bool,
    pub turn_failed: bool,
    pub error_seen: bool,
}

pub open spec fn pair_views(v: Seq<(String, String)>) -> Seq<(Seq<char>, Seq<char>)> {
    v.map_values(|p: (String, String)| (p.0@, p.1@))
}

impl View for ParsedEvents {
    type V = EventsView;

    open spec fn view(&self) -> EventsView {
        EventsView {
            thread_id: opt_view(self.thread_id),
            final_output: opt_view(self.final_output),
            usage: match self.usage {
                Some(u) => Some(pair_views(u@)),
                None => None,
            },
            turn_completed: self.turn_completed,
            turn_failed: self.turn_failed,
            error_seen: self.error_seen,
        }
    }
}

pub open spec fn no_events() -> EventsView {
    EventsView {
        thread_id: None,
        final_output: None,
        usage: None,
        turn_completed: false,
        turn_failed: false,
        error_seen: false,
    }
}

/// The state after one event, or the failure code when the event is malformed.
pub open spec fn event_step(st: EventsView, ev: JsonValue) -> Result<EventsView, Seq<char>> {
    match text_of(member(ev, "type"@)) {
        None => Err("missing_codex_event_type"@),
        Some(t) => if t == "thread.started"@ {
            match text_of(member(ev, "thread_id"@)) {
                Some(id) => if valid_single_line_spec(id, MAX_OPTION_CHARS as nat) {
                    Ok(EventsView { thread_id: Some(id), ..st })
                } else {
                    Err("invalid_thread_started"@)
                },
                None => Err("invalid_thread_started"@),
            }
        } else if t == "item.completed"@ {
            match member(ev, "item"@) {
                None => Err("invalid_item_completed"@),
                Some(item) => match text_of(member(item, "type"@)) {
                    None => Err("invalid_item_completed"@),
                    Some(kind) => if kind == "agent_message"@ {
                        match text_of(member(item, "text"@)) {
                            Some(text) => Ok(
                                EventsView {
                                    final_output: Some(bounded_text_spec(text, MAX_FINAL_OUTPUT_CHARS as nat)),
                                    ..st
                                },
                            ),
                            None => Err("invalid_agent_message"@),
                        }
                    } else {
                        Ok(st)
                    },
                },
            }
        } else if t == "turn.completed"@ {
            match usage_spec(member(ev, "usage"@)) {
                Ok(u) => Ok(EventsView { turn_completed: true, usage: u, ..st }),
                Err(e) => Err(e),
            }
        } else if t == "turn.failed"@ {
            Ok(EventsView { turn_failed: true, ..st })
        } else if t == "error"@ {
            Ok(EventsView { error_seen: true, ..st })
        } else {
            Ok(st)
        }
    }
}

/// The events from position `k` on, each parsed (`None` when a line is not JSON).
pub open spec fn events_from(events: Seq<Option<JsonValue>>, k: int, st: EventsView) -> Result<
    EventsView,
    Seq<char>,
>
    decreases events.len() - k,
{
    if k < 0 || k >= events.len() {
        Ok(st)
    } else if k + 1 > MAX_JSONL_EVENTS {
        Err("too_many_codex_events"@)
    } else {
        match events[k] {
            None => Err("invalid_codex_jsonl"@),
            Some(ev) => match event_step(st, ev) {
                Err(e) => Err(e),
                Ok(next) => events_from(events, k + 1, next),
            },
        }
    }
}

fn usage_field(k: usize) -> (r: &'static str)
    requires
        k < 4,
    ensures
        r@ == usage_fields()[k as int],
{
    if k == 0 {
        "cached_input_tokens"
    } else if k == 1 {
        "input_tokens"
    } else if k == 2 {
        "output_tokens"
    } else {
        "reasoning_output_tokens"
    }
}

pub open spec fn opt_ref(v: Option<&JsonValue>) -> Option<JsonValue> {
    match v {
        Some(x) => Some(*x),
        None => None,
    }
}

pub open spec fn opt_pairs(v: Option<Vec<(String, String)>>) -> Option<Seq<(Seq<char>, Seq<char>)>> {
    match v {
        Some(u) => Some(pair_views(u@)),
        None => None,
    }
}

/// The counters of a turn's usage, or the failure code when the usage is malformed.
pub fn compact_usage(value: Option<&JsonValue>) -> (r: Result<Option<Vec<(String, String)>>, &'static str>)
    ensures
        match usage_spec(opt_ref(value)) {
            Ok(u) => r matches Ok(x) && opt_pairs(x) == u,
            Err(e) => r matches Err(x) && x@ == e,
        },
{
    let u = match value {
        None => {
            return Ok(None);
        },
        Some(u) => u,
    };
    match u {
        JsonValue::Object(_) => {},
        _ => {
            return Err("invalid_turn_completed");
        },
    }
    let mut acc: Vec<(String, String)> = Vec::new();
    let mut k: usize = 0;
    assert(pair_views(acc@) =~= Seq::<(Seq<char>, Seq<char>)>::empty());
    while k < 4
        invariant
            k <= 4,
            u is Object,
            opt_ref(value) == Some(*u),
            usage_spec(Some(*u)) == usage_from(*u, k as int, pair_views(acc@)),
        decreases 4 - k,
    {
        let name = usage_field(k);
        match json_member(u, name) {
            None => {},
            Some(x) => {
                if !json_is_u64(x) {
                    return Err("invalid_turn_completed");
                }
                let text = match x {
                    JsonValue::Number(t) => t.clone(),
                    _ => String::new(),
                };
                let ghost before = pair_views(acc@);
                acc.push((copy_str(name), text));
                assert(pair_views(acc@) =~= before.push((usage_fields()[k as int], x->Number_0@)));
            },
        }
        k = k + 1;
    }
    Ok(Some(acc))
}

impl ParsedEvents {
    /// No event seen yet.
    pub fn new() -> (r: ParsedEvents)
        ensures
            r@ == no_events(),
    {
        ParsedEvents {
            thread_id: None,
            final_output: None,
            usage: None,
            turn_completed: false,
            turn_failed: false,
            error_seen: false,
        }
    }
}

/// Apply one event to the state, or answer the failure code when the event is malformed.
pub fn apply_event(st: &mut ParsedEvents, ev: &JsonValue) -> (r: Result<(), &'static str>)
    ensures
        match event_step(old(st)@, *ev) {
            Ok(next) => r is Ok && final(st)@ == next,
            Err(e) => r matches Err(x) && x@ == e,
        },
{
    let t = match json_text(json_member(ev, "type")) {
        Some(t) => t,
        None => {
            return Err("missing_codex_event_type");
        },
    };
    if str_eq(t, "thread.started") {
        match json_text(json_member(ev, "thread_id")) {
            Some(id) => {
                if !valid_single_line(id, MAX_OPTION_CHARS) {
                    return Err("invalid_thread_started");
                }
                st.thread_id = Some(copy_str(id));
                Ok(())
            },
            None => Err("invalid_thread_started"),
        }
    } else if str_eq(t, "item.completed") {
        let item = match json_member(ev, "item") {
            Some(item) => item,
            None => {
                return Err("invalid_item_completed");
            },
        };
        let kind = match json_text(json_member(item, "type")) {
            Some(kind) => kind,
            None => {
                return Err("invalid_item_completed");
            },
        };
        if str_eq(kind, "agent_message") {
            match json_text(json_member(item, "text")) {
                Some(text) => {
                    st.final_output = Some(bounded_text(text, MAX_FINAL_OUTPUT_CHARS));
                    Ok(())
                },
                None => Err("invalid_agent_message"),
            }
        } else {
            Ok(())
        }
    } else if str_eq(t, "turn.completed") {
        match compact_usage(json_member(ev, "usage")) {
            Ok(u) => {
                st.turn_completed = true;
                st.usage = u;
                Ok(())
            },
            Err(e) => Err(e),
        }
    } else if str_eq(t, "turn.failed") {
        st.turn_failed = true;
        Ok(())
    } else if str_eq(t, "error") {
        st.error_seen = true;
        Ok(())
    } else {
        Ok(())
    }
}

/// Read the parsed JSONL events of one turn, or answer the failure code.
pub fn parse_events(events: &Vec<Option<JsonValue>>) -> (r: Result<ParsedEvents, &'static str>)
    ensures
        match events_from(events@, 0, no_events()) {
            Ok(v) => r matches Ok(p) && p@ == v,
            Err(e) => r matches Err(x) && x@ == e,
        },
{
    let mut parsed = ParsedEvents::new();
    let mut k: usize = 0;
    while k < events.len()
        invariant
            k <= events@.len(),
            events_from(events@, 0, no_events()) == events_from(events@, k as int, parsed@),
        decreases events@.len() - k,
    {
        if k + 1 > MAX_JSONL_EVENTS {
            return Err("too_many_codex_events");
        }
        match &events[k] {
            None => {
                return Err("invalid_codex_jsonl");
            },
            Some(ev) => {
                apply_event(&mut parsed, ev)?;
            },
        }
        k = k + 1;
    }
    Ok(parsed)
}

/// Output retained from one stream, and whether some of it was dropped.
#[derive(Debug, Clone, PartialEq, Eq)]
pub struct BoundedOutput {
    pub bytes: Vec<u8>,
    pub exceeded: bool,
}

impl BoundedOutput {
    /// Nothing retained yet.
    pub fn new() -> (r: BoundedOutput)
        ensures
            r.bytes@.len() == 0,
            !r.exceeded,
    {
        BoundedOutput { bytes: Vec::new(), exceeded: false }
    }

    /// Retain what fits of one more chunk under the limit, and note when some was dropped.
    pub fn retain(&mut self, chunk: &[u8], limit: usize)
        ensures
            ({
                let room = if old(self).bytes@.len() >= limit {
                    0
                } else {
                    limit - old(self).bytes@.len()
                };
                let kept = if room < chunk@.len() {
                    room
                } else {
                    chunk@.len() as int
                };
                &&& final(self).bytes@ == old(self).bytes@ + chunk@.take(kept)
                &&& final(self).exceeded == (old(self).exceeded || kept < chunk@.len())
            }),
    {
        let held = self.bytes.len();
        let remaining = if held >= limit {
            0
        } else {
            limit - held
        };
        let kept = if remaining < chunk.len() {
            remaining
        } else {
            chunk.len()
        };
        crate::framing::append_prefix(&mut self.bytes, chunk, kept);
        if kept < chunk.len() {
            self.exceeded = true;
        }
    }
}

/// Outcome of one Codex process.
#[derive(Debug, Clone, PartialEq, Eq)]
pub struct ProcessOutput {
    /// Exit status code, when the process exited with one.
    pub exit_code: Option<i32>,
    /// The process was killed at its deadline.
    pub timed_out: bool,
    /// Bounded stdout.
    pub stdout: BoundedOutput,
    /// Bounded stderr; never persisted.
    pub stderr: BoundedOutput,
}

/// Calls `std::str::from_utf8`, which accepts exactly the bytes that are valid UTF-8 and
/// then answers the text they encode.
#[verifier::external_body]
fn utf8_from_bytes(bytes: &[u8]) -> (r: Option<String>)
    ensures
        match r {
            Some(text) => valid_utf8(bytes@) && text@ == decode_utf8(bytes@),
            None => !valid_utf8(bytes@),
        },
{
    std::str::from_utf8(bytes).ok().map(|text| text.to_owned())
}

/// The text of the retained stdout, when it is UTF-8.
pub fn stdout_text(output: &ProcessOutput) -> (r: Option<String>)
    ensures
        match r {
            Some(text) => valid_utf8(output.stdout.bytes@) && text@ == decode_utf8(output.stdout.bytes@),
            None => !valid_utf8(output.stdout.bytes@),
        },
{
    utf8_from_bytes(output.stdout.bytes.as_slice())
}

/// The value is the string `s`, or null when there is none.
pub open spec fn optional_text_value(v: JsonValue, o: Option<Seq<char>>) -> bool {
    match o {
        Some(t) => v matches JsonValue::Str(x) && x@ == t,
        None => v is Null,
    }
}

/// The value is the object of the usage counters, or null when there are none.
pub open spec fn usage_value(v: JsonValue, o: Option<Seq<(Seq<char>, Seq<char>)>>) -> bool {
    match o {
        Some(fields) => match v {
            JsonValue::Object(m) => m@.len() == fields.len() && forall|i: int|
                0 <= i < fields.len() ==> (#[trigger] m@[i]).0@ == fields[i].0 && (m@[i].1 matches JsonValue::Number(t) && t@ == fields[i].1),
            _ => false,
        },
        None => v is Null,
    }
}

/// The compact payload of a turn: `{"final_output", "thread_id", "usage"}`.
pub open spec fn events_payload(v: JsonValue, e: EventsView) -> bool {
    match v {
        JsonValue::Object(m) => {
            &&& m@.len() == 3
            &&& m@[0].0@ == "final_output"@ && optional_text_value(m@[0].1, e.final_output)
            &&& m@[1].0@ == "thread_id"@ && optional_text_value(m@[1].1, e.thread_id)
            &&& m@[2].0@ == "usage"@ && usage_value(m@[2].1, e.usage)
        },
        _ => false,
    }
}

/// The payload of a failed exit: `{"exit_code", "thread_id"}`.
pub open spec fn exit_payload(v: JsonValue, code: Option<i32>, thread_id: Option<Seq<char>>) -> bool {
    match v {
        JsonValue::Object(m) => {
            &&& m@.len() == 2
            &&& m@[0].0@ == "exit_code"@ && match code {
                Some(c) => m@[0].1 matches JsonValue::Number(t) && t@ == crate::text::signed_decimal(c as int),
                None => m@[0].1 is Null,
            }
            &&& m@[1].0@ == "thread_id"@ && optional_text_value(m@[1].1, thread_id)
        },
        _ => false,
    }
}

/// The payload of a timeout: `{"timeout_seconds"}`.
pub open spec fn timeout_payload(v: JsonValue, timeout_seconds: u32) -> bool {
    match v {
        JsonValue::Object(m) => m@.len() == 1 && m@[0].0@ == "timeout_seconds"@ && (m@[0].1 matches JsonValue::Number(t)
            && t@ == crate::text::decimal(timeout_seconds as nat)),
        _ => false,
    }
}

fn optional_text_json(o: &Option<String>) -> (r: JsonValue)
    ensures
        optional_text_value(r, opt_view(*o)),
{
    match o {
        Some(s) => JsonValue::Str(s.clone()),
        None => JsonValue::Null,
    }
}

fn usage_json(o: &Option<Vec<(String, String)>>) -> (r: JsonValue)
    ensures
        usage_value(r, opt_pairs(*o)),
{
    match o {
        None => JsonValue::Null,
        Some(fields) => {
            let mut m: Vec<(String, JsonValue)> = Vec::new();
            let mut i: usize = 0;
            while i < fields.len()
                invariant
                    i <= fields@.len(),
                    m@.len() == i,
                    forall|k: int|
                        0 <= k < i ==> (#[trigger] m@[k]).0@ == fields@[k].0@ && (m@[k].1 matches JsonValue::Number(t)
                            && t@ == fields@[k].1@),
                decreases fields@.len() - i,
            {
                m.push((fields[i].0.clone(), JsonValue::Number(fields[i].1.clone())));
                i = i + 1;
            }
            JsonValue::Object(m)
        },
    }
}

/// The compact payload of a turn.
fn compact_event_payload(events: &ParsedEvents) -> (r: JsonValue)
    ensures
        events_payload(r, events@),
{
    let mut m: Vec<(String, JsonValue)> = Vec::new();
    m.push((copy_str("final_output"), optional_text_json(&events.final_output)));
    m.push((copy_str("thread_id"), optional_text_json(&events.thread_id)));
    m.push((copy_str("usage"), usage_json(&events.usage)));
    JsonValue::Object(m)
}

/// A report with the given outcome, summary, payload and failure.
pub open spec fn report_is(
    r: RunnerReport,
    outcome: RunnerOutcome,
    summary: Seq<char>,
    failure: Option<(RunnerFailureCategory, Seq<char>, Seq<char>)>,
) -> bool {
    &&& r.outcome == outcome
    &&& r.summary@ == summary
    &&& r.evidence@.len() == 0
    &&& match failure {
        Some((category, code, message)) => failure_fields(r, category, code, message),
        None => r.failure is None,
    }
}

/// The summary of a successful turn: its bounded final message, or a notice.
pub open spec fn success_summary(e: EventsView) -> Seq<char> {
    match e.final_output {
        Some(m) => bounded_text_spec(m, MAX_CODEX_SUMMARY_CHARS as nat),
        None => "Codex completed without a final agent message"@,
    }
}

/// The report for the output of one Codex process. `events` holds the parse of each of the
/// stdout lines that `event_lines` keeps (`None` for a line that is not JSON), or is `None`
/// when stdout is not UTF-8.
pub open spec fn translate_spec(
    output: ProcessOutput,
    events: Option<Seq<Option<JsonValue>>>,
    timeout_seconds: u32,
    r: RunnerReport,
) -> bool {
    if output.timed_out {
        report_is(
            r,
            RunnerOutcome::Failed,
            "Codex exceeded the authorized execution deadline"@,
            Some((RunnerFailureCategory::Timeout, "codex_timeout"@, "Codex exceeded the execution deadline"@)),
        ) && timeout_payload(r.payload, timeout_seconds)
    } else if output.stdout.exceeded {
        report_is(
            r,
            RunnerOutcome::Failed,
            "Codex JSONL output exceeded its bound"@,
            Some((RunnerFailureCategory::Protocol, "codex_output_too_large"@, "Codex JSONL output exceeded its bound"@)),
        ) && empty_object(r.payload)
    } else {
        match events {
            None => report_is(
                r,
                RunnerOutcome::Failed,
                "Codex output was not UTF-8"@,
                Some((RunnerFailureCategory::Protocol, "invalid_codex_utf8"@, "Codex output was not UTF-8"@)),
            ) && empty_object(r.payload),
            Some(evs) => match events_from(evs, 0, no_events()) {
                Err(code) => report_is(
                    r,
                    RunnerOutcome::Failed,
                    "Codex returned invalid JSONL events"@,
                    Some((RunnerFailureCategory::Protocol, code, "Codex returned invalid JSONL events"@)),
                ) && empty_object(r.payload),
                Ok(e) => if output.exit_code == Some(130i32) {
                    report_is(
                        r,
                        RunnerOutcome::Cancelled,
                        "Codex invocation was cancelled"@,
                        Some((RunnerFailureCategory::Cancelled, "codex_cancelled"@, "Codex exited after cancellation"@)),
                    ) && events_payload(r.payload, e)
                } else if output.exit_code != Some(0i32) {
                    report_is(
                        r,
                        RunnerOutcome::Failed,
                        "Codex invocation failed"@,
                        Some((RunnerFailureCategory::Execution, "codex_exit_nonzero"@, "Codex exited without successful completion"@)),
                    ) && exit_payload(r.payload, output.exit_code, e.thread_id)
                } else if e.turn_failed || e.error_seen {
                    report_is(
                        r,
                        RunnerOutcome::Failed,
                        "Codex reported a failed turn"@,
                        Some((RunnerFailureCategory::Execution, "codex_turn_failed"@, "Codex reported a terminal execution failure"@)),
                    ) && events_payload(r.payload, e)
                } else if !e.turn_completed {
                    report_is(
                        r,
                        RunnerOutcome::Failed,
                        "Codex exited without a terminal turn event"@,
                        Some((RunnerFailureCategory::Protocol, "missing_terminal_event"@, "Codex exited without a terminal turn event"@)),
                    ) && empty_object(r.payload)
                } else {
                    report_is(r, RunnerOutcome::Succeeded, success_summary(e), None) && events_payload(r.payload, e)
                },
            },
        }
    }
}

fn report(
    outcome: RunnerOutcome,
    summary: &str,
    payload: JsonValue,
    category: RunnerFailureCategory,
    code: &str,
    message: &str,
) -> (r: RunnerReport)
    ensures
        report_is(r, outcome, summary@, Some((category, code@, message@))),
        r.payload == payload,
{
    RunnerReport {
        outcome,
        summary: copy_str(summary),
        payload,
        evidence: Vec::new(),
        failure: Some(RunnerFailure { category, code: copy_str(code), message: copy_str(message) }),
    }
}

/// The events of a process's stdout: each non-blank line of its UTF-8 text taken as JSON, or
/// nothing when the stdout is not UTF-8.
pub open spec fn output_events(output: ProcessOutput) -> Option<Seq<Option<JsonValue>>> {
    if valid_utf8(output.stdout.bytes@) {
        Some(
            event_lines_spec(decode_utf8(output.stdout.bytes@)).map_values(
                |line: Seq<char>| json_text_value(line),
            ),
        )
    } else {
        None
    }
}

/// Translate the output of one Codex process into a compact report: its stdout is read as
/// JSONL events.
pub fn translate_output(output: &ProcessOutput, timeout_seconds: u32) -> (r: RunnerReport)
    ensures
        translate_spec(*output, output_events(*output), timeout_seconds, r),
{
    match stdout_text(output) {
        None => translate_events(output, None, timeout_seconds),
        Some(text) => {
            let lines = event_lines(text.as_str());
            let mut events: Vec<Option<JsonValue>> = Vec::new();
            let mut i: usize = 0;
            while i < lines.len()
                invariant
                    i <= lines@.len(),
                    events@.len() == i,
                    forall|k: int| 0 <= k < i ==> #[trigger] events@[k] == json_text_value(lines@[k]@),
                decreases lines@.len() - i,
            {
                events.push(parse_json_text(lines[i].as_str()));
                i = i + 1;
            }
            proof {
                assert(events@ =~= event_lines_spec(text@).map_values(
                    |line: Seq<char>| json_text_value(line),
                ));
            }
            translate_events(output, Some(&events), timeout_seconds)
        },
    }
}

/// Translate the output of one Codex process, with the events read from its stdout, into a
/// compact report.
pub fn translate_events(
    output: &ProcessOutput,
    events: Option<&Vec<Option<JsonValue>>>,
    timeout_seconds: u32,
) -> (r: RunnerReport)
    ensures
        translate_spec(
            *output,
            match events {
                Some(v) => Some(v@),
                None => None,
            },
            timeout_seconds,
            r,
        ),
{
    if output.timed_out {
        let mut m: Vec<(String, JsonValue)> = Vec::new();
        m.push((copy_str("timeout_seconds"), JsonValue::Number(crate::text::decimal_text(timeout_seconds as u64))));
        return report(
            RunnerOutcome::Failed,
            "Codex exceeded the authorized execution deadline",
            JsonValue::Object(m),
            RunnerFailureCategory::Timeout,
            "codex_timeout",
            "Codex exceeded the execution deadline",
        );
    }
    if output.stdout.exceeded {
        return failure_report(
            RunnerFailureCategory::Protocol,
            "codex_output_too_large",
            "Codex JSONL output exceeded its bound",
        );
    }
    let evs = match events {
        Some(v) => v,
        None => {
            return failure_report(RunnerFailureCategory::Protocol, "invalid_codex_utf8", "Codex output was not UTF-8");
        },
    };
    let parsed = match parse_events(evs) {
        Ok(p) => p,
        Err(code) => {
            return failure_report(RunnerFailureCategory::Protocol, code, "Codex returned invalid JSONL events");
        },
    };
    if output.exit_code == Some(130i32) {
        return report(
            RunnerOutcome::Cancelled,
            "Codex invocation was cancelled",
            compact_event_payload(&parsed),
            RunnerFailureCategory::Cancelled,
            "codex_cancelled",
            "Codex exited after cancellation",
        );
    }
    if output.exit_code != Some(0i32) {
        let mut m: Vec<(String, JsonValue)> = Vec::new();
        let code = match output.exit_code {
            Some(c) => JsonValue::Number(crate::text::signed_decimal_text(c)),
            None => JsonValue::Null,
        };
        m.push((copy_str("exit_code"), code));
        m.push((copy_str("thread_id"), optional_text_json(&parsed.thread_id)));
        return report(
            RunnerOutcome::Failed,
            "Codex invocation failed",
            JsonValue::Object(m),
            RunnerFailureCategory::Execution,
            "codex_exit_nonzero",
            "Codex exited without successful completion",
        );
    }
    if parsed.turn_failed || parsed.error_seen {
        return report(
            RunnerOutcome::Failed,
            "Codex reported a failed turn",
            compact_event_payload(&parsed),
            RunnerFailureCategory::Execution,
            "codex_turn_failed",
            "Codex reported a terminal execution failure",
        );
    }
    if !parsed.turn_completed {
        return failure_report(
            RunnerFailureCategory::Protocol,
            "missing_terminal_event",
            "Codex exited without a terminal turn event",
        );
    }
    let summary = match &parsed.final_output {
        Some(message) => bounded_text(message.as_str(), MAX_CODEX_SUMMARY_CHARS),
        None => copy_str("Codex completed without a final agent message"),
    };
    RunnerReport {
        outcome: RunnerOutcome::Succeeded,
        summary,
        payload: compact_event_payload(&parsed),
        evidence: Vec::new(),
        failure: None,
    }
}

/// Codex runs only for a valid payload and capabilities it can enforce, and writes to the
/// workspace only when `workspace.write` was authorized.
pub proof fn law_codex_runs_only_within_its_capabilities(
    caps: Seq<Seq<char>>,
    payload: Option<CodexRunPayload>,
    workspace_ok: bool,
)
    requires
        prepare_spec(caps, payload, workspace_ok) is Ok,
    ensures
        payload matches Some(p) && payload_issue(p, workspace_ok) is None,
        workspace_ok,
        forall|i: int| 0 <= i < caps.len() ==> supported_capability(#[trigger] caps[i]),
        (prepare_spec(caps, payload, workspace_ok)->Ok_0.0 == CodexSandbox::WorkspaceWrite) == caps.contains(
            WORKSPACE_WRITE_CAPABILITY@,
        ),
{
    assert forall|i: int| 0 <= i < caps.len() implies supported_capability(#[trigger] caps[i]) by {
        if !supported_capability(caps[i]) {
            assert(first_unsupported(caps) is Some);
        }
    }
}

/// The final output is the latest agent message: after an `item.completed` event whose item is
/// an agent message with text `t`, the final output is `t` bounded to its limit, whatever
/// earlier messages said, and nothing else of the state changes.
pub proof fn law_latest_agent_message_is_the_final_output(
    st: EventsView,
    ev: JsonValue,
    item: JsonValue,
    t: Seq<char>,
)
    requires
        text_of(member(ev, "type"@)) == Some("item.completed"@),
        member(ev, "item"@) == Some(item),
        text_of(member(item, "type"@)) == Some("agent_message"@),
        text_of(member(item, "text"@)) == Some(t),
    ensures
        event_step(st, ev) matches Ok(next) && next == (EventsView {
            final_output: Some(bounded_text_spec(t, MAX_FINAL_OUTPUT_CHARS as nat)),
            ..st
        }),
{
    reveal_strlit("item.completed");
    reveal_strlit("thread.started");
    assert("item.completed"@[0] != "thread.started"@[0]);
}

/// What Codex wrote to stderr never reaches the report: two outputs that differ only in their
/// stderr are translated alike.
pub proof fn law_stderr_is_never_reported(
    output: ProcessOutput,
    stderr: BoundedOutput,
    events: Option<Seq<Option<JsonValue>>>,
    timeout_seconds: u32,
    r: RunnerReport,
)
    ensures
        translate_spec(output, events, timeout_seconds, r) == translate_spec(
            ProcessOutput { stderr, ..output },
            events,
            timeout_seconds,
            r,
        ),
{
}

} // verus!
