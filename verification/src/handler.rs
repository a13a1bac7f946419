//! Decisions of the A2A request handler.
//!
//! The handler dispatches JSON-RPC methods; `SendMessage` creates a task,
//! asks an LLM and records the reply.  The LLM is asked along a chain of
//! providers: a provider that is not configured or whose call fails hands
//! over to the next one, and when all fail the last error is returned,
//! scrubbed of anything that would leak internals across the trust
//! boundary.  The network calls and the task store are driven by the
//! caller; this module decides at each step.

use vstd::prelude::*;

use crate::a2a::types::{Artifact, Message, Part};
use crate::json::{json_at, json_get, json_str, Json, JsonValue};
use crate::text::{chars_of, contains, owned, push_str, str_contains, str_eq, trim, trim_chars};

verus! {

/// One OpenAI-compatible LLM endpoint.
#[derive(Debug, Clone, Copy)]
pub struct LlmProvider {
    /// Name of the environment variable that holds the API key.
    pub api_key_env: &'static str,
    /// Chat-completions endpoint.
    pub api_url: &'static str,
    /// Model name.
    pub model: &'static str,
    /// Short name for logs (never in replies).
    pub name: &'static str,
}

/// The failover chain, in the order tried: the volcengine ark provider
/// first, then the DeepSeek platform.
pub fn llm_providers() -> (v: Vec<LlmProvider>)
    ensures
        v@.len() == 2,
        v@[0].api_key_env@ == "ARK_API_KEY"@,
        v@[0].api_url@ == "https://ark.cn-beijing.volces.com/api/plan/v3/chat/completions"@,
        v@[0].model@ == "deepseek-v4-flash"@,
        v@[0].name@ == "ark"@,
        v@[1].api_key_env@ == "DEEPSEEK_API_KEY"@,
        v@[1].api_url@ == "https://api.deepseek.com/chat/completions"@,
        v@[1].model@ == "deepseek-chat"@,
        v@[1].name@ == "deepseek-platform"@,
{
    vec![
        LlmProvider {
            api_key_env: "ARK_API_KEY",
            api_url: "https://ark.cn-beijing.volces.com/api/plan/v3/chat/completions",
            model: "deepseek-v4-flash",
            name: "ark",
        },
        LlmProvider {
            api_key_env: "DEEPSEEK_API_KEY",
            api_url: "https://api.deepseek.com/chat/completions",
            model: "deepseek-chat",
            name: "deepseek-platform",
        },
    ]
}

/// Patterns whose presence in an outbound error message would leak
/// internals: endpoint path, provider domain, configuration key name,
/// credential prefix, file-system paths, escaped quotes of debug output.
pub open spec fn leak_pattern_seq() -> Seq<Seq<char>> {
    seq!["api/plan/"@, "ark.cn-beijing"@, "ARK_API_KEY"@, "Bearer "@, "/home/"@, "/root/"@, "\\\""@]
}

/// The leak patterns.
pub fn leak_patterns() -> (v: Vec<&'static str>)
    ensures
        v@.map_values(|p: &str| p@) == leak_pattern_seq(),
{
    let v = vec!["api/plan/", "ark.cn-beijing", "ARK_API_KEY", "Bearer ", "/home/", "/root/", "\\\""];
    assert(v@.map_values(|p: &str| p@) =~= leak_pattern_seq());
    v
}

/// Whether a message contains a leak pattern.
pub open spec fn leaks(msg: Seq<char>) -> bool {
    exists|i: int| 0 <= i < leak_pattern_seq().len() && contains(msg, #[trigger] leak_pattern_seq()[i])
}

/// The generic reply that replaces a leaking error message.
pub open spec fn scrubbed_reply() -> Seq<char> {
    "(internal error, details logged)"@
}

/// Trust-boundary audit of an outbound error message: a message holding a
/// leak pattern is replaced by a generic reply (the details stay in the
/// server's logs); any other message passes unchanged.
pub fn sanitize_err_reply(msg: &str) -> (r: String)
    ensures
        r@ == if leaks(msg@) {
            scrubbed_reply()
        } else {
            msg@
        },
{
    let pats = leak_patterns();
    let mut i: usize = 0;
    while i < pats.len()
        invariant
            i <= pats.len(),
            pats@.map_values(|p: &str| p@) == leak_pattern_seq(),
            forall|j: int| 0 <= j < i ==> !contains(msg@, #[trigger] leak_pattern_seq()[j]),
        decreases pats.len() - i,
    {
        assert(pats@.map_values(|p: &str| p@)[i as int] == pats@[i as int]@);
        if str_contains(msg, pats[i]) {
            return owned("(internal error, details logged)");
        }
        i += 1;
    }
    owned(msg)
}

// ------------------------------------------------------------------
// Method routing
// ------------------------------------------------------------------

/// The A2A methods the handler serves.
#[derive(Debug, Clone, Copy, PartialEq, Eq, Structural)]
pub enum A2aMethod {
    SendMessage,
    GetTask,
    ListTasks,
}

/// The method a JSON-RPC method name asks for (both the PascalCase and the
/// slash-separated spelling).  `tasks/send` creates a task from a message,
/// as `message/send` does.
pub open spec fn method_named(m: Seq<char>) -> Option<A2aMethod> {
    if m == "SendMessage"@ || m == "message/send"@ || m == "tasks/send"@ {
        Some(A2aMethod::SendMessage)
    } else if m == "GetTask"@ || m == "tasks/get"@ {
        Some(A2aMethod::GetTask)
    } else if m == "ListTasks"@ || m == "tasks/list"@ {
        Some(A2aMethod::ListTasks)
    } else {
        None
    }
}

/// The method a JSON-RPC method name asks for; `None` for an unknown
/// method (answered with error -32601).
pub fn route_method(method: &str) -> (r: Option<A2aMethod>)
    ensures
        r == method_named(method@),
{
    if str_eq(method, "SendMessage") || str_eq(method, "message/send") || str_eq(
        method,
        "tasks/send",
    ) {
        Some(A2aMethod::SendMessage)
    } else if str_eq(method, "GetTask") || str_eq(method, "tasks/get") {
        Some(A2aMethod::GetTask)
    } else if str_eq(method, "ListTasks") || str_eq(method, "tasks/list") {
        Some(A2aMethod::ListTasks)
    } else {
        None
    }
}

// ------------------------------------------------------------------
// The LLM call, step by step
// ------------------------------------------------------------------

/// The system prompt of every LLM request.
pub open spec fn system_prompt() -> Seq<char> {
    "你是 q-body，Q宝宝的自进化 Rust 身体。\n你通过 A2A 协议接收外部消息。\n请保持简洁、务实、带一点 🫧 风格的回复。\n你正在进化中，回答体现你的版本号 0.1.1。"@
}

/// A chat message of the request body.
pub open spec fn chat_message(role: Seq<char>, content: Seq<char>) -> Json {
    Json::Obj(seq![("content"@, Json::Str(content)), ("role"@, Json::Str(role))])
}

/// The request body sent to a provider's model for a user text (members in
/// key order, as `serde_json::Map` keeps them).
pub open spec fn request_body_model(user_text: Seq<char>, model: Seq<char>) -> Json {
    Json::Obj(
        seq![
            ("messages"@, Json::Arr(seq![chat_message("system"@, system_prompt()), chat_message("user"@, user_text)])),
            ("model"@, Json::Str(model)),
            ("stream"@, Json::Bool(false)),
        ],
    )
}

/// A chat message of the request body.
fn chat_message_value(role: &str, content: &str) -> (v: JsonValue)
    ensures
        v.model() == chat_message(role@, content@),
{
    let v = JsonValue::Object(
        vec![
            (owned("content"), JsonValue::String(owned(content))),
            (owned("role"), JsonValue::String(owned(role))),
        ],
    );
    proof {
        crate::json::lemma_object_model(v->Object_0);
        assert(crate::json::obj_fields(v->Object_0@) =~= chat_message(role@, content@)->Obj_0);
    }
    v
}

/// The request body for a user text and a provider's model.
pub fn request_body(user_text: &str, model: &str) -> (v: JsonValue)
    ensures
        v.model() == request_body_model(user_text@, model@),
{
    let messages = JsonValue::Array(
        vec![
            chat_message_value(
                "system",
                "你是 q-body，Q宝宝的自进化 Rust 身体。\n你通过 A2A 协议接收外部消息。\n请保持简洁、务实、带一点 🫧 风格的回复。\n你正在进化中，回答体现你的版本号 0.1.1。",
            ),
            chat_message_value("user", user_text),
        ],
    );
    proof {
        crate::json::lemma_array_model(messages->Array_0);
        assert(Seq::new(messages->Array_0@.len(), |i: int| messages->Array_0@[i].model())
            =~= seq![chat_message("system"@, system_prompt()), chat_message("user"@, user_text@)]);
    }
    let v = JsonValue::Object(
        vec![
            (owned("messages"), messages),
            (owned("model"), JsonValue::String(owned(model))),
            (owned("stream"), JsonValue::Bool(false)),
        ],
    );
    proof {
        crate::json::lemma_object_model(v->Object_0);
        assert(crate::json::obj_fields(v->Object_0@) =~= request_body_model(
            user_text@,
            model@,
        )->Obj_0);
    }
    v
}

/// Whether an API key value is usable: set and not blank.
pub fn api_key_usable(value: Option<&str>) -> (b: bool)
    ensures
        b == match value {
            Some(k) => trim(k@).len() > 0,
            None => false,
        },
{
    match value {
        Some(k) => trim_chars(&chars_of(k)).len() > 0,
        None => false,
    }
}

/// What happened when one provider was asked.
#[derive(Debug)]
pub enum ProviderOutcome {
    /// Its API key variable is unset or blank.
    NotConfigured,
    /// The HTTP request failed; the error's text.
    RequestFailed(String),
    /// The response body was not JSON; the error's text.
    BodyUnreadable(String),
    /// A JSON answer: whether the status is a success, the status as text,
    /// and the body.
    Answered { success: bool, status: String, body: JsonValue },
}

/// The decision after asking one provider.
#[derive(Debug, PartialEq, Eq)]
pub enum LlmStep {
    /// The reply to return.
    Reply(String),
    /// The error to keep while failing over to the next provider.
    FailOver(String),
}

/// The reply text of a successful answer: `choices[0].message.content`.
pub open spec fn answer_content(body: Json) -> Option<Seq<char>> {
    match json_get(body, "choices"@) {
        Some(c) => match json_at(c, 0) {
            Some(first) => match json_get(first, "message"@) {
                Some(m) => json_str(json_get(m, "content"@)),
                None => None,
            },
            None => None,
        },
        None => None,
    }
}

/// The error text of a failed answer: `error.message`.
pub open spec fn answer_error(body: Json) -> Option<Seq<char>> {
    match json_get(body, "error"@) {
        Some(e) => json_str(json_get(e, "message"@)),
        None => None,
    }
}

/// The decision for a provider's outcome.
pub open spec fn step_for(name: Seq<char>, o: ProviderOutcome) -> (bool, Seq<char>) {
    match o {
        ProviderOutcome::NotConfigured => (false, "LLM provider "@ + name + " not configured"@),
        ProviderOutcome::RequestFailed(e) => (false, "Sorry, LLM request failed: "@ + e@),
        ProviderOutcome::BodyUnreadable(e) => (false, "Sorry, failed to parse LLM response: "@ + e@),
        ProviderOutcome::Answered { success, status, body } => if success {
            (
                true,
                match answer_content(body.model()) {
                    Some(c) => c,
                    None => "(empty response from LLM)"@,
                },
            )
        } else {
            (
                false,
                "Sorry, LLM returned error "@ + status@ + ": "@ + match answer_error(body.model()) {
                    Some(m) => m,
                    None => "unknown error"@,
                },
            )
        },
    }
}

/// The text of a step.
pub open spec fn step_text(s: LlmStep) -> (bool, Seq<char>) {
    match s {
        LlmStep::Reply(r) => (true, r@),
        LlmStep::FailOver(e) => (false, e@),
    }
}

/// The reply text of an answer body.
fn content_of(body: &JsonValue) -> (r: Option<&str>)
    ensures
        match r {
            Some(s) => answer_content(body.model()) == Some(s@),
            None => answer_content(body.model()) is None,
        },
{
    let c = body.get("choices")?;
    let first = c.at(0)?;
    let m = first.get("message")?;
    let content = m.get("content")?;
    content.as_str()
}

/// The error text of an answer body.
fn error_message_of(body: &JsonValue) -> (r: Option<&str>)
    ensures
        match r {
            Some(s) => answer_error(body.model()) == Some(s@),
            None => answer_error(body.model()) is None,
        },
{
    let e = body.get("error")?;
    let m = e.get("message")?;
    m.as_str()
}

/// Decides after asking one provider: a successful answer is the reply
/// (its content, or a placeholder when it has none); anything else is an
/// error to keep while failing over.
pub fn provider_step(provider: &LlmProvider, outcome: &ProviderOutcome) -> (s: LlmStep)
    ensures
        step_text(s) == step_for(provider.name@, *outcome),
{
    match outcome {
        ProviderOutcome::NotConfigured => {
            let mut m = owned("LLM provider ");
            push_str(&mut m, provider.name);
            push_str(&mut m, " not configured");
            LlmStep::FailOver(m)
        },
        ProviderOutcome::RequestFailed(e) => {
            let mut m = owned("Sorry, LLM request failed: ");
            push_str(&mut m, e.as_str());
            LlmStep::FailOver(m)
        },
        ProviderOutcome::BodyUnreadable(e) => {
            let mut m = owned("Sorry, failed to parse LLM response: ");
            push_str(&mut m, e.as_str());
            LlmStep::FailOver(m)
        },
        ProviderOutcome::Answered { success, status, body } => {
            if *success {
                match content_of(body) {
                    Some(c) => LlmStep::Reply(owned(c)),
                    None => LlmStep::Reply(owned("(empty response from LLM)")),
                }
            } else {
                let mut m = owned("Sorry, LLM returned error ");
                push_str(&mut m, status.as_str());
                push_str(&mut m, ": ");
                match error_message_of(body) {
                    Some(e) => push_str(&mut m, e),
                    None => push_str(&mut m, "unknown error"),
                }
                LlmStep::FailOver(m)
            }
        },
    }
}

/// The reply of the single-provider call when its key is not set.
pub open spec fn unconfigured_reply(user_text: Seq<char>) -> Seq<char> {
    "q-body received: '"@ + user_text
        + "'. (LLM not configured — AI responses disabled)"@
}

/// The reply of a single provider asked with no failover: the fixed
/// greeting when it is not configured, its answer on success, and the
/// error text otherwise.
pub fn direct_reply(user_text: &str, outcome: &ProviderOutcome) -> (r: String)
    ensures
        r@ == match *outcome {
            ProviderOutcome::NotConfigured => unconfigured_reply(user_text@),
            _ => step_for(Seq::empty(), *outcome).1,
        },
{
    match outcome {
        ProviderOutcome::NotConfigured => {
            let mut m = owned("q-body received: '");
            push_str(&mut m, user_text);
            push_str(&mut m, "'. (LLM not configured — AI responses disabled)");
            m
        },
        _ => {
            let p = LlmProvider { name: "", api_url: "", model: "", api_key_env: "" };
            match provider_step(&p, outcome) {
                LlmStep::Reply(r) => r,
                LlmStep::FailOver(e) => e,
            }
        },
    }
}

/// The reply when every provider failed: the last error (or, with no
/// provider, a note that the chain is empty), sanitized.
pub fn final_reply(last_err: Option<&str>) -> (r: String)
    ensures
        r@ == {
            let m = match last_err {
                Some(e) => e@,
                None => "LLM provider chain is empty"@,
            };
            if leaks(m) {
                scrubbed_reply()
            } else {
                m
            }
        },
{
    match last_err {
        Some(e) => sanitize_err_reply(e),
        None => sanitize_err_reply("LLM provider chain is empty"),
    }
}

// ------------------------------------------------------------------
// The provider chain
// ------------------------------------------------------------------

/// The reply when every provider failed, `last` being the last error
/// (`None` with no provider), sanitized.
pub open spec fn final_text(last: Option<Seq<char>>) -> Seq<char> {
    let m = match last {
        Some(e) => e,
        None => "LLM provider chain is empty"@,
    };
    if leaks(m) {
        scrubbed_reply()
    } else {
        m
    }
}

/// The reply of a chain of provider steps (each a reply or an error, as
/// `step_for` gives them), after failures ending with `last`: the first
/// reply, or, when every step fails, the last error sanitized.
pub open spec fn chain_after(steps: Seq<(bool, Seq<char>)>, last: Option<Seq<char>>) -> Seq<char>
    decreases steps.len(),
{
    if steps.len() == 0 {
        final_text(last)
    } else if steps[0].0 {
        steps[0].1
    } else {
        chain_after(steps.drop_first(), Some(steps[0].1))
    }
}

/// The reply of a whole chain of provider steps.
pub open spec fn chain_reply(steps: Seq<(bool, Seq<char>)>) -> Seq<char> {
    chain_after(steps, None)
}

/// Every step of `s` is a failure.
pub open spec fn all_failed(s: Seq<(bool, Seq<char>)>) -> bool {
    forall|i: int| 0 <= i < s.len() ==> !(#[trigger] s[i]).0
}

/// The last error of failed steps (`None` when there is none).
pub open spec fn last_error(s: Seq<(bool, Seq<char>)>) -> Option<Seq<char>> {
    if s.len() == 0 {
        None
    } else {
        Some(s.last().1)
    }
}

/// Failed steps ahead of the rest only leave their last error behind.
proof fn lemma_chain_prefix(p: Seq<(bool, Seq<char>)>, rest: Seq<(bool, Seq<char>)>)
    requires
        all_failed(p),
    ensures
        chain_reply(p + rest) == chain_after(rest, last_error(p)),
    decreases p.len(),
{
    if p.len() > 0 {
        let q = p.drop_last();
        let t = seq![p.last()] + rest;
        assert(p + rest =~= q + t);
        assert(all_failed(q)) by {
            assert forall|i: int| 0 <= i < q.len() implies !(#[trigger] q[i]).0 by {
                assert(q[i] == p[i]);
            }
        }
        lemma_chain_prefix(q, t);
        assert(!p.last().0) by {
            assert(p[p.len() - 1] == p.last());
        }
        assert(t[0] == p.last());
        assert(t.drop_first() =~= rest);
    }
}

/// The first reply of the chain wins: after failures, the first provider
/// that replies gives the reply, whatever the later ones would do.
pub proof fn law_chain_first_reply_wins(steps: Seq<(bool, Seq<char>)>, i: int)
    requires
        0 <= i < steps.len(),
        steps[i].0,
        all_failed(steps.take(i)),
    ensures
        chain_reply(steps) == steps[i].1,
{
    lemma_chain_prefix(steps.take(i), steps.skip(i));
    assert(steps.take(i) + steps.skip(i) =~= steps);
    assert(steps.skip(i)[0] == steps[i]);
}

/// When every provider fails, the reply is the last error, sanitized.
pub proof fn law_chain_all_fail(steps: Seq<(bool, Seq<char>)>)
    requires
        all_failed(steps),
    ensures
        chain_reply(steps) == final_text(last_error(steps)),
{
    lemma_chain_prefix(steps, Seq::empty());
    assert(steps + Seq::<(bool, Seq<char>)>::empty() =~= steps);
}

/// The providers asked so far, all of which failed, and the last error.
pub struct ProviderChain {
    last_err: Option<String>,
    asked: Ghost<Seq<(bool, Seq<char>)>>,
}

impl View for ProviderChain {
    type V = Seq<(bool, Seq<char>)>;

    /// The steps of the providers asked so far.
    closed spec fn view(&self) -> Self::V {
        self.asked@
    }
}

impl ProviderChain {
    #[verifier::type_invariant]
    spec fn inv(self) -> bool {
        &&& all_failed(self.asked@)
        &&& match self.last_err {
            Some(e) => last_error(self.asked@) == Some(e@),
            None => last_error(self.asked@) is None,
        }
    }

    /// A chain where no provider was asked yet.
    pub fn new() -> (c: Self)
        ensures
            c@ == Seq::<(bool, Seq<char>)>::empty(),
    {
        ProviderChain { last_err: None, asked: Ghost(Seq::empty()) }
    }

    /// Takes the step of the next provider: its reply ends the chain with
    /// that reply (`Some`, the chain's reply); an error is kept and the
    /// chain goes on (`None`).
    pub fn advance(&mut self, step: LlmStep) -> (r: Option<String>)
        ensures
            match step {
                LlmStep::Reply(x) => r == Some(x) && chain_reply(old(self)@.push(step_text(step)))
                    == x@ && final(self)@ == old(self)@,
                LlmStep::FailOver(_) => r is None && final(self)@ == old(self)@.push(
                    step_text(step),
                ),
            },
    {
        proof {
            use_type_invariant(&*self);
        }
        let ghost before = self.asked@;
        let ghost st = step_text(step);
        match step {
            LlmStep::Reply(x) => {
                proof {
                    lemma_chain_prefix(before, seq![st]);
                    assert(before + seq![st] =~= before.push(st));
                }
                Some(x)
            },
            LlmStep::FailOver(e) => {
                proof {
                    assert(all_failed(before.push(st))) by {
                        assert forall|i: int| 0 <= i < before.push(st).len() implies !(
                        #[trigger] before.push(st)[i]).0 by {
                            if i < before.len() {
                                assert(before.push(st)[i] == before[i]);
                            }
                        }
                    }
                }
                *self = ProviderChain { last_err: Some(e), asked: Ghost(before.push(st)) };
                None
            },
        }
    }

    /// The reply when no provider replied: the last error, sanitized.
    pub fn finish(self) -> (r: String)
        ensures
            r@ == chain_reply(self@),
    {
        proof {
            use_type_invariant(&self);
            law_chain_all_fail(self@);
        }
        match &self.last_err {
            Some(e) => final_reply(Some(e.as_str())),
            None => final_reply(None),
        }
    }
}

// ------------------------------------------------------------------
// SendMessage
// ------------------------------------------------------------------

/// The texts of the parts that have one, joined with spaces.
pub open spec fn user_text_model(parts: Seq<Part>) -> Seq<char>
    decreases parts.len(),
{
    if parts.len() == 0 {
        Seq::empty()
    } else {
        let prev = user_text_model(parts.drop_last());
        match parts.last().text {
            Some(t) => if prev_has_text(parts.drop_last()) {
                prev + " "@ + t@
            } else {
                t@
            },
            None => prev,
        }
    }
}

/// Some part has a text.
pub open spec fn prev_has_text(parts: Seq<Part>) -> bool {
    exists|i: int| 0 <= i < parts.len() && (#[trigger] parts[i]).text is Some
}

/// Without any text, the joined text is empty.
proof fn lemma_no_text(parts: Seq<Part>)
    requires
        !prev_has_text(parts),
    ensures
        user_text_model(parts) == Seq::<char>::empty(),
    decreases parts.len(),
{
    if parts.len() > 0 {
        assert(parts.last() == parts[parts.len() - 1]);
        if prev_has_text(parts.drop_last()) {
            let j = choose|j: int| 0 <= j < parts.len() - 1 && (#[trigger] parts.drop_last()[j]).text is Some;
            assert(parts[j] == parts.drop_last()[j]);
        }
        lemma_no_text(parts.drop_last());
    }
}

/// The user's text: the texts of the message's parts, joined with spaces.
pub fn user_text_of(message: &Message) -> (s: String)
    ensures
        s@ == user_text_model(message.parts@),
{
    let mut s = String::new();
    let mut any = false;
    let mut i: usize = 0;
    while i < message.parts.len()
        invariant
            i <= message.parts@.len(),
            s@ == user_text_model(message.parts@.take(i as int)),
            any == prev_has_text(message.parts@.take(i as int)),
        decreases message.parts.len() - i,
    {
        proof {
            assert(message.parts@.take(i + 1).drop_last() =~= message.parts@.take(i as int));
        }
        proof {
            if !any {
                lemma_no_text(message.parts@.take(i as int));
            }
        }
        match &message.parts[i].text {
            Some(t) => {
                if any {
                    push_str(&mut s, " ");
                }
                push_str(&mut s, t.as_str());
                any = true;
                proof {
                    assert(message.parts@.take(i + 1)[i as int] == message.parts@[i as int]);
                }
            },
            None => {
                proof {
                    if prev_has_text(message.parts@.take(i + 1)) {
                        let j = choose|j: int|
                            0 <= j < i + 1 && (#[trigger] message.parts@.take(i + 1)[j]).text is Some;
                        assert(message.parts@.take(i as int)[j] == message.parts@.take(i + 1)[j]);
                    }
                    if prev_has_text(message.parts@.take(i as int)) {
                        let j = choose|j: int|
                            0 <= j < i && (#[trigger] message.parts@.take(i as int)[j]).text is Some;
                        assert(message.parts@.take(i + 1)[j] == message.parts@.take(i as int)[j]);
                    }
                }
            },
        }
        i += 1;
    }
    assert(message.parts@.take(message.parts@.len() as int) =~= message.parts@);
    s
}

/// The agent's reply message.
pub fn reply_message(reply: &str, message_id: String) -> (m: Message)
    ensures
        m.role@ == "assistant"@,
        m.parts@.len() == 1,
        Part::is_text_of(m.parts@[0], reply@),
        crate::a2a::types::opt_str(m.message_id) == Some(message_id@),
{
    let p = Part::text(reply);
    Message { role: owned("assistant"), parts: vec![p], message_id: Some(message_id) }
}

/// The artifact recording the reply.
pub fn reply_artifact(reply: &str) -> (a: Artifact)
    ensures
        a.parts@.len() == 1,
        Part::is_text_of(a.parts@[0], reply@),
        crate::a2a::types::opt_str(a.name) == Some("response"@),
        a.last_chunk == Some(true),
{
    let p = Part::text(reply);
    Artifact { parts: vec![p], name: Some(owned("response")), last_chunk: Some(true) }
}

/// The context id of a task: `ctx-` and the longest prefix of the task id
/// that fits in eight bytes (the whole id when it is that short).
pub fn context_id_for(task_id: &str) -> (c: String)
    ensures
        c@ == "ctx-"@ + crate::clamp::fit_prefix(task_id@, 8),
{
    let v = chars_of(task_id);
    let n = crate::clamp::fit_count_exec(&v, 8);
    proof {
        crate::clamp::lemma_fit_prefix(v@, 8);
    }
    let p = crate::text::slice_chars(&v, 0, n);
    let mut c = owned("ctx-");
    crate::text::push_chars(&mut c, &p);
    c
}

/// The A2A methods as documented: each with its slash-separated and its
/// PascalCase name (`tasks/send` creates a task as `message/send` does).
pub open spec fn documented_methods() -> Seq<(Seq<char>, Seq<char>, A2aMethod)> {
    seq![
        ("message/send"@, "SendMessage"@, A2aMethod::SendMessage),
        ("tasks/send"@, "SendMessage"@, A2aMethod::SendMessage),
        ("tasks/get"@, "GetTask"@, A2aMethod::GetTask),
        ("tasks/list"@, "ListTasks"@, A2aMethod::ListTasks),
    ]
}

/// Each documented method name routes to its method, and each
/// slash-separated name routes exactly as its PascalCase name does.
pub proof fn law_documented_methods_route(i: int)
    requires
        0 <= i < documented_methods().len(),
    ensures
        method_named(documented_methods()[i].0) == Some(documented_methods()[i].2),
        method_named(documented_methods()[i].1) == Some(documented_methods()[i].2),
        method_named(documented_methods()[i].0) == method_named(documented_methods()[i].1),
{
    reveal_strlit("message/send");
    reveal_strlit("SendMessage");
    reveal_strlit("tasks/send");
    reveal_strlit("tasks/get");
    reveal_strlit("GetTask");
    reveal_strlit("tasks/list");
    reveal_strlit("ListTasks");
    let ms = documented_methods();
    assert("tasks/send"@[6] != "tasks/list"@[6]);
    assert("tasks/get"@[0] != "ListTasks"@[0]);
    if i == 0 {
        assert(ms[i].0 == "message/send"@ && ms[i].1 == "SendMessage"@);
    } else if i == 1 {
        assert(ms[i].0 == "tasks/send"@ && ms[i].1 == "SendMessage"@);
    } else if i == 2 {
        assert(ms[i].0 == "tasks/get"@ && ms[i].1 == "GetTask"@);
        assert("tasks/get"@ != "SendMessage"@ && "tasks/get"@ != "message/send"@
            && "tasks/get"@ != "tasks/send"@);
        assert("GetTask"@ != "SendMessage"@ && "GetTask"@ != "message/send"@
            && "GetTask"@ != "tasks/send"@);
    } else {
        assert(ms[i].0 == "tasks/list"@ && ms[i].1 == "ListTasks"@);
        assert("tasks/list"@ != "SendMessage"@ && "tasks/list"@ != "message/send"@
            && "tasks/list"@ != "tasks/send"@);
        assert("tasks/list"@ != "GetTask"@ && "tasks/list"@ != "tasks/get"@);
        assert("ListTasks"@ != "SendMessage"@ && "ListTasks"@ != "message/send"@
            && "ListTasks"@ != "tasks/send"@);
        assert("ListTasks"@ != "GetTask"@ && "ListTasks"@ != "tasks/get"@);
    }
}

/// Only the documented method names route to a method; any other name is
/// answered with "method not found".
pub proof fn law_only_documented_methods_route(m: Seq<char>)
    ensures
        method_named(m) is Some ==> exists|i: int|
            0 <= i < documented_methods().len() && (m == (#[trigger] documented_methods()[i]).0
                || m == documented_methods()[i].1),
{
    let ms = documented_methods();
    if method_named(m) is Some {
        if m == "message/send"@ || m == "SendMessage"@ {
            assert(ms[0].0 == "message/send"@ && ms[0].1 == "SendMessage"@);
        } else if m == "tasks/send"@ {
            assert(ms[1].0 == "tasks/send"@);
        } else if m == "tasks/get"@ || m == "GetTask"@ {
            assert(ms[2].0 == "tasks/get"@ && ms[2].1 == "GetTask"@);
        } else {
            assert(ms[3].0 == "tasks/list"@ && ms[3].1 == "ListTasks"@);
        }
    }
}

} // verus!
