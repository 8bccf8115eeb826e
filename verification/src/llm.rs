//! Chat completions: conversations, request bodies, replies, the stream of a
//! reply, and when a request is sent again.

use vstd::prelude::*;

use crate::json::{flag, object, put, same_text, text, Json, JsonView};
use crate::text::{
    parse_usize, push_decimal, strip_prefix, strip_suffix, take_chars, to_chars, trim,
};

pub use crate::compact::compact_transcript_for_llm;

verus! {

// ---------------------------------------------------------------------------
// Conversations
// ---------------------------------------------------------------------------

/// A single chat message with a role and content.
#[derive(Debug)]
pub struct ChatMessage {
    /// Who says it.
    pub role: String,
    /// What is said.
    pub content: String,
}

/// The role and content of a message.
pub open spec fn message_view(m: ChatMessage) -> (Seq<char>, Seq<char>) {
    (m.role@, m.content@)
}

/// The roles and contents of messages.
pub open spec fn messages_view(ms: Seq<ChatMessage>) -> Seq<(Seq<char>, Seq<char>)> {
    ms.map_values(|m: ChatMessage| message_view(m))
}

/// A message with this role and content.
pub fn message(role: &str, content: &str) -> (r: ChatMessage)
    ensures
        message_view(r) == (role@, content@),
{
    ChatMessage { role: role.to_owned(), content: content.to_owned() }
}

/// A multi-turn conversation that accumulates its messages.
///
/// Every turn sends the whole history, so that a provider which caches prefixes
/// has to read long-lived content once only.
#[derive(Debug)]
pub struct ChatConversation {
    messages: Vec<ChatMessage>,
    model: String,
    base_url: String,
}

impl ChatConversation {
    /// The roles and contents of the messages so far.
    pub closed spec fn history(&self) -> Seq<(Seq<char>, Seq<char>)> {
        messages_view(self.messages@)
    }

    /// The model that the conversation is held with.
    pub closed spec fn model_name(&self) -> Seq<char> {
        self.model@
    }

    /// The address of the provider that it is held with.
    pub closed spec fn provider(&self) -> Seq<char> {
        self.base_url@
    }

    /// Create a new conversation with the given system prompt, with the current model
    /// of the current provider.
    ///
    /// Records both, so that a conversation that is restored can be told from one
    /// with another provider.
    pub fn new(system_prompt: &str, model: &str, base_url: &str) -> (r: ChatConversation)
        ensures
            r.history() == seq![("system"@, system_prompt@)],
            r.model_name() == model@,
            r.provider() == base_url@,
    {
        let mut messages: Vec<ChatMessage> = Vec::new();
        messages.push(message("system", system_prompt));
        assert(messages_view(messages@) =~= seq![("system"@, system_prompt@)]);
        ChatConversation { messages, model: model.to_owned(), base_url: base_url.to_owned() }
    }

    /// The conversation with these messages, as it was recorded.
    pub fn restore(messages: Vec<ChatMessage>, model: String, base_url: String) -> (r:
        ChatConversation)
        ensures
            r.history() == messages_view(messages@),
            r.model_name() == model@,
            r.provider() == base_url@,
    {
        ChatConversation { messages, model, base_url }
    }

    /// Return a reference to all messages in the conversation.
    pub fn messages(&self) -> (r: &[ChatMessage])
        ensures
            messages_view(r@) == self.history(),
    {
        self.messages.as_slice()
    }

    /// The model that the conversation is held with.
    pub fn model(&self) -> (r: &str)
        ensures
            r@ == self.model_name(),
    {
        self.model.as_str()
    }

    /// The address of the provider that it is held with.
    pub fn base_url(&self) -> (r: &str)
        ensures
            r@ == self.provider(),
    {
        self.base_url.as_str()
    }

    /// Whether the conversation was held with this model of this provider, so
    /// that it can go on there.
    pub fn continues_with(&self, model: &str, base_url: &str) -> (r: bool)
        ensures
            r == (self.model_name() == model@ && self.provider() == base_url@),
    {
        same_text(self.model.as_str(), model) && same_text(self.base_url.as_str(), base_url)
    }

    /// Create an independent fork of this conversation.
    ///
    /// The fork has the same history up to now and can go its own way after it.
    pub fn fork(&self) -> (r: ChatConversation)
        ensures
            r.history() == self.history(),
            r.model_name() == self.model_name(),
            r.provider() == self.provider(),
    {
        let mut messages: Vec<ChatMessage> = Vec::new();
        let mut i: usize = 0;
        while i < self.messages.len()
            invariant
                i <= self.messages@.len(),
                messages_view(messages@) == messages_view(self.messages@).take(i as int),
            decreases self.messages@.len() - i,
        {
            let m = message(self.messages[i].role.as_str(), self.messages[i].content.as_str());
            let ghost before = messages@;
            messages.push(m);
            proof {
                assert(messages_view(messages@) =~= messages_view(before).push(message_view(m)));
                assert(messages_view(self.messages@).take(i + 1) =~= messages_view(
                    self.messages@,
                ).take(i as int).push(message_view(m)));
            }
            i += 1;
        }
        assert(messages_view(self.messages@).take(i as int) =~= messages_view(self.messages@));
        ChatConversation {
            messages,
            model: self.model.clone(),
            base_url: self.base_url.clone(),
        }
    }

    fn say(&mut self, role: &str, content: &str)
        ensures
            final(self).history() == old(self).history().push((role@, content@)),
            final(self).model_name() == old(self).model_name(),
            final(self).provider() == old(self).provider(),
    {
        self.messages.push(message(role, content));
        assert(self.history() =~= old(self).history().push((role@, content@)));
    }

    /// Append an assistant message to the conversation history.
    pub fn add_assistant(&mut self, content: &str)
        ensures
            final(self).history() == old(self).history().push(("assistant"@, content@)),
            final(self).model_name() == old(self).model_name(),
            final(self).provider() == old(self).provider(),
    {
        self.say("assistant", content);
    }

    /// Begin a turn: the user's message is appended until the reply is there.
    pub fn begin_turn(&mut self, user_message: &str)
        ensures
            final(self).history() == old(self).history().push(("user"@, user_message@)),
            final(self).model_name() == old(self).model_name(),
            final(self).provider() == old(self).provider(),
    {
        self.say("user", user_message);
    }

    /// End a turn: the reply is appended, or, where there is none, the user's
    /// message is taken back.
    pub fn end_turn(&mut self, reply: Option<&str>)
        ensures
            final(self).history() == match reply {
                Some(content) => old(self).history().push(("assistant"@, content@)),
                None => if old(self).history().len() > 0 {
                    old(self).history().drop_last()
                } else {
                    old(self).history()
                },
            },
            final(self).model_name() == old(self).model_name(),
            final(self).provider() == old(self).provider(),
    {
        match reply {
            Some(content) => self.say("assistant", content),
            None => {
                let _ = self.messages.pop();
                assert(self.history() =~= if old(self).history().len() > 0 {
                    old(self).history().drop_last()
                } else {
                    old(self).history()
                });
            },
        }
    }
}

/// A turn that fails leaves the conversation as it was, and one that succeeds
/// adds the user's message and the reply.
pub fn complete_turn(conversation: &mut ChatConversation, user_message: &str, reply: Option<&str>)
    ensures
        final(conversation).history() == match reply {
            Some(content) => old(conversation).history().push(("user"@, user_message@)).push(
                ("assistant"@, content@),
            ),
            None => old(conversation).history(),
        },
        final(conversation).model_name() == old(conversation).model_name(),
        final(conversation).provider() == old(conversation).provider(),
{
    conversation.begin_turn(user_message);
    conversation.end_turn(reply);
    assert(old(conversation).history().push(("user"@, user_message@)).drop_last()
        =~= old(conversation).history());
}

// ---------------------------------------------------------------------------
// Settings
// ---------------------------------------------------------------------------

/// The number that a setting gives, `default` where it is absent or no number.
pub open spec fn setting_of(raw: Option<Seq<char>>, default: int) -> int {
    match raw {
        Some(s) => match crate::text::parse_of(s, usize::MAX as nat) {
            Some(n) => n as int,
            None => default,
        },
        None => default,
    }
}

fn setting(raw: Option<&str>, default: usize) -> (r: usize)
    ensures
        r == setting_of(
            match raw {
                Some(s) => Some(s@),
                None => None,
            },
            default as int,
        ),
{
    match raw {
        Some(s) => match parse_usize(s) {
            Some(n) => n,
            None => default,
        },
        None => default,
    }
}

/// How many requests may run at once: two, or as many as the setting says, but
/// at least one and at most thirty-two.
pub fn max_concurrency(raw: Option<&str>) -> (r: usize)
    ensures
        ({
            let n = setting_of(
                match raw {
                    Some(s) => Some(s@),
                    None => None,
                },
                2,
            );
            r == if n < 1 {
                1
            } else if n > 32 {
                32
            } else {
                n
            }
        }),
{
    let n: usize = setting(raw, 2);
    if n < 1 {
        1
    } else if n > 32 {
        32
    } else {
        n
    }
}

/// How often a failed request is sent again: twice, or as often as the setting
/// says, but at most five times.
pub fn max_retries(raw: Option<&str>) -> (r: usize)
    ensures
        ({
            let n = setting_of(
                match raw {
                    Some(s) => Some(s@),
                    None => None,
                },
                2,
            );
            r == if n > 5 {
                5
            } else {
                n
            }
        }),
        r <= 5,
{
    let n: usize = setting(raw, 2);
    if n > 5 {
        5
    } else {
        n
    }
}

// ---------------------------------------------------------------------------
// Sending
// ---------------------------------------------------------------------------

/// How an attempt to send a request went.
#[derive(Debug, Clone, Copy, PartialEq, Eq, Structural)]
pub enum SendResult {
    /// A response came, with this status.
    Status(u16),
    /// No response came.
    NoResponse,
}

/// What to do after an attempt.
#[derive(Debug, Clone, Copy, PartialEq, Eq, Structural)]
pub enum AfterSend {
    /// Use the response.
    Accept,
    /// Send again after so many milliseconds.
    Wait(u64),
    /// Give up with an error.
    GiveUp,
}

/// Whether the response is one to use.
pub open spec fn succeeded(r: SendResult) -> bool {
    r matches SendResult::Status(s) && 200 <= s < 300
}

/// Whether another attempt may go better: too many requests, an error of the
/// server, or no response at all.
pub open spec fn retryable(r: SendResult) -> bool {
    match r {
        SendResult::Status(s) => s == 429 || 500 <= s < 600,
        SendResult::NoResponse => true,
    }
}

/// What to do after attempt number `attempt`, counted from zero, of at most
/// `retries` further ones. The waits get longer by half a second each time.
pub fn after_send(attempt: usize, retries: usize, result: SendResult) -> (r: AfterSend)
    requires
        retries <= 5,
    ensures
        r == if succeeded(result) {
            AfterSend::Accept
        } else if retryable(result) && attempt < retries {
            AfterSend::Wait((500 * (attempt + 1)) as u64)
        } else {
            AfterSend::GiveUp
        },
{
    let retry = match result {
        SendResult::Status(s) => {
            if 200 <= s && s < 300 {
                return AfterSend::Accept;
            }
            s == 429 || (500 <= s && s < 600)
        },
        SendResult::NoResponse => true,
    };
    if retry && attempt < retries {
        AfterSend::Wait(500 * (attempt as u64 + 1))
    } else {
        AfterSend::GiveUp
    }
}

/// The error for a response that is not one to use.
pub fn status_error(label: &str, status: u16, body: &str) -> (r: String)
    ensures
        r@ == label@ + " returned HTTP "@ + crate::text::decimal_of(status as nat) + ": "@ + body@,
{
    let mut out = label.to_owned();
    out.push_str(" returned HTTP ");
    push_decimal(&mut out, status as u64);
    out.push_str(": ");
    out.push_str(body);
    out
}

/// The error for a request to which no response came.
pub fn send_error(label: &str, error: &str) -> (r: String)
    ensures
        r@ == "failed to send "@ + label@ + " request: "@ + error@,
{
    let mut out = "failed to send ".to_owned();
    out.push_str(label);
    out.push_str(" request: ");
    out.push_str(error);
    out
}

/// From this number of tokens on, a reply is read as a stream.
pub const LARGE_OUTPUT_THRESHOLD: u32 = 32768;

/// Whether a reply of so many tokens is read as a stream.
pub fn uses_stream(max_tokens: u32) -> (r: bool)
    ensures
        r == (max_tokens >= LARGE_OUTPUT_THRESHOLD),
{
    max_tokens >= LARGE_OUTPUT_THRESHOLD
}

/// After a stream that failed: the number of tokens to try next, half as many,
/// as long as there were more than 16384.
pub fn smaller_output(max_tokens: u32) -> (r: Option<u32>)
    ensures
        r == if max_tokens > 16384 {
            Some((max_tokens / 2) as u32)
        } else {
            None
        },
        r matches Some(n) ==> 8192 <= n < max_tokens,
{
    if max_tokens > 16384 {
        Some(max_tokens / 2)
    } else {
        None
    }
}

// ---------------------------------------------------------------------------
// Request bodies
// ---------------------------------------------------------------------------

/// The instruction that stands for the JSON mode of a reply that is streamed.
pub const JSON_ONLY: &'static str = "You MUST output ONLY valid JSON. No markdown fences, no \
    explanatory text, no commentary. Just the JSON object.";

/// The messages with the instruction to reply in JSON: at the end of the system
/// prompt where there is one, else as a system prompt of its own.
pub open spec fn json_only_messages(ms: Seq<(Seq<char>, Seq<char>)>) -> Seq<(Seq<char>, Seq<char>)> {
    if ms.len() > 0 && ms[0].0 == "system"@ {
        ms.update(0, ("system"@, ms[0].1 + "\n\n"@ + JSON_ONLY@))
    } else {
        seq![("system"@, JSON_ONLY@)] + ms
    }
}

/// The messages with the instruction to reply in JSON.
pub fn with_json_instruction(messages: &[ChatMessage]) -> (r: Vec<ChatMessage>)
    ensures
        messages_view(r@) == json_only_messages(messages_view(messages@)),
{
    let mut out: Vec<ChatMessage> = Vec::new();
    let ghost mv = messages_view(messages@);
    let mut i: usize = 0;
    if messages.len() > 0 && same_text(messages[0].role.as_str(), "system") {
        let mut content = messages[0].content.clone();
        content.push_str("\n\n");
        content.push_str(JSON_ONLY);
        out.push(message("system", content.as_str()));
        i = 1;
    } else {
        out.push(message("system", JSON_ONLY));
    }
    let ghost whole = json_only_messages(mv);
    let ghost offset = whole.len() - mv.len();
    proof {
        assert(messages_view(out@) =~= whole.take(i + offset));
    }
    while i < messages.len()
        invariant
            i <= messages@.len(),
            mv == messages_view(messages@),
            whole == json_only_messages(mv),
            offset == whole.len() - mv.len(),
            i + offset >= 1,
            messages_view(out@) == whole.take(i + offset),
        decreases messages@.len() - i,
    {
        let m = message(messages[i].role.as_str(), messages[i].content.as_str());
        let ghost before = out@;
        out.push(m);
        proof {
            assert(messages_view(out@) =~= messages_view(before).push(message_view(m)));
            assert(whole[i + offset] == mv[i as int]);
            assert(whole.take(i + 1 + offset) =~= whole.take(i + offset).push(mv[i as int]));
        }
        i += 1;
    }
    assert(whole.take(i + offset) =~= whole);
    out
}

/// The messages as members of a request.
pub open spec fn messages_json(ms: Seq<(Seq<char>, Seq<char>)>) -> JsonView {
    JsonView::Array(
        ms.map_values(
            |m: (Seq<char>, Seq<char>)|
                JsonView::Object(
                    seq![("role"@, JsonView::Text(m.0)), ("content"@, JsonView::Text(m.1))],
                ),
        ),
    )
}

fn message_json(m: &ChatMessage) -> (r: Json)
    ensures
        r@ == JsonView::Object(
            seq![("role"@, JsonView::Text(m.role@)), ("content"@, JsonView::Text(m.content@))],
        ),
{
    let mut members: Vec<(String, Json)> = Vec::new();
    assert(crate::json::members_view(members@) =~= Seq::empty());
    put(&mut members, "role", text(m.role.as_str()));
    put(&mut members, "content", text(m.content.as_str()));
    assert(crate::json::members_view(members@) =~= seq![
        ("role"@, JsonView::Text(m.role@)),
        ("content"@, JsonView::Text(m.content@)),
    ]);
    object(members)
}

fn messages_to_json(messages: &[ChatMessage]) -> (r: Json)
    ensures
        r@ == messages_json(messages_view(messages@)),
{
    let mut items: Vec<Json> = Vec::new();
    let mut i: usize = 0;
    let ghost goal = messages_json(messages_view(messages@))->Array_0;
    while i < messages.len()
        invariant
            i <= messages@.len(),
            goal == messages_json(messages_view(messages@))->Array_0,
            goal.len() == messages@.len(),
            items@.len() == i,
            forall|k: int| 0 <= k < i ==> (#[trigger] items@[k])@ == goal[k],
        decreases messages@.len() - i,
    {
        items.push(message_json(&messages[i]));
        i += 1;
    }
    let r = Json::Array(items);
    assert(r@->Array_0 =~= goal);
    r
}

/// The body of a request. The sampling temperature is a JSON number.
pub open spec fn request_view(
    model: Seq<char>,
    messages: Seq<(Seq<char>, Seq<char>)>,
    temperature: JsonView,
    max_tokens: u32,
    stream: bool,
    response_format: Option<Seq<char>>,
) -> JsonView {
    let base = seq![
        ("model"@, JsonView::Text(model)),
        ("messages"@, messages_json(messages)),
        ("temperature"@, temperature),
        ("max_tokens"@, JsonView::Number(max_tokens as u64)),
    ];
    let streamed = if stream {
        base.push(("stream"@, JsonView::Bool(true)))
    } else {
        base
    };
    JsonView::Object(
        match response_format {
            Some(fmt) => streamed.push(
                ("response_format"@, JsonView::Object(seq![("type"@, JsonView::Text(fmt))])),
            ),
            None => streamed,
        },
    )
}

/// Build the body of a request.
pub fn request_body(
    model: &str,
    messages: &[ChatMessage],
    temperature: Json,
    max_tokens: u32,
    stream: bool,
    response_format: Option<&str>,
) -> (r: Json)
    ensures
        r@ == request_view(
            model@,
            messages_view(messages@),
            temperature@,
            max_tokens,
            stream,
            match response_format {
                Some(s) => Some(s@),
                None => None,
            },
        ),
{
    let mut members: Vec<(String, Json)> = Vec::new();
    assert(crate::json::members_view(members@) =~= Seq::empty());
    put(&mut members, "model", text(model));
    put(&mut members, "messages", messages_to_json(messages));
    put(&mut members, "temperature", temperature);
    put(&mut members, "max_tokens", Json::Number(max_tokens as u64));
    if stream {
        put(&mut members, "stream", flag(true));
    }
    if let Some(fmt) = response_format {
        let mut kind: Vec<(String, Json)> = Vec::new();
        assert(crate::json::members_view(kind@) =~= Seq::empty());
        put(&mut kind, "type", text(fmt));
        assert(crate::json::members_view(kind@) =~= seq![("type"@, JsonView::Text(fmt@))]);
        put(&mut members, "response_format", object(kind));
    }
    let r = object(members);
    assert(r@->Object_0 =~= request_view(
        model@,
        messages_view(messages@),
        temperature@,
        max_tokens,
        stream,
        match response_format {
            Some(s) => Some(s@),
            None => None,
        },
    )->Object_0);
    r
}


// ---------------------------------------------------------------------------
// Replies
// ---------------------------------------------------------------------------

/// The first of the choices that a response offers.
pub open spec fn first_choice(v: JsonView) -> Option<JsonView> {
    match crate::json::member(v, "choices"@) {
        Some(JsonView::Array(items)) => if items.len() > 0 {
            Some(items[0])
        } else {
            None
        },
        _ => None,
    }
}

/// The string that an optional value is, where it is one.
pub open spec fn text_value(v: Option<JsonView>) -> Option<Seq<char>> {
    match v {
        Some(JsonView::Text(s)) => Some(s),
        _ => None,
    }
}

/// A member of a member of the first choice.
pub open spec fn choice_text(v: JsonView, part: Seq<char>, key: Seq<char>) -> Option<Seq<char>> {
    match first_choice(v) {
        Some(c) => match crate::json::member(c, part) {
            Some(m) => text_value(crate::json::member(m, key)),
            None => None,
        },
        None => None,
    }
}

/// Why the first choice ends.
pub open spec fn finish_reason_of(v: JsonView) -> Option<Seq<char>> {
    match first_choice(v) {
        Some(c) => text_value(crate::json::member(c, "finish_reason"@)),
        None => None,
    }
}

fn first_choice_in(v: &Json) -> (r: Option<&Json>)
    ensures
        crate::json::opt_json_view(r) == first_choice(v@),
{
    match v.get("choices") {
        Some(choices) => match choices {
            Json::Array(items) => {
                if items.len() > 0 {
                    Some(&items[0])
                } else {
                    None
                }
            },
            _ => None,
        },
        None => None,
    }
}

fn text_in(v: Option<&Json>) -> (r: Option<String>)
    ensures
        crate::text::opt_view(r) == text_value(crate::json::opt_json_view(v)),
{
    match v {
        Some(j) => match j.as_str() {
            Some(s) => Some(s.to_owned()),
            None => None,
        },
        None => None,
    }
}

pub(crate) fn choice_text_in(v: &Json, part: &str, key: &str) -> (r: Option<String>)
    ensures
        crate::text::opt_view(r) == choice_text(v@, part@, key@),
{
    match first_choice_in(v) {
        Some(c) => match c.get(part) {
            Some(m) => text_in(m.get(key)),
            None => None,
        },
        None => None,
    }
}

pub(crate) fn finish_reason_in(v: &Json) -> (r: Option<String>)
    ensures
        crate::text::opt_view(r) == finish_reason_of(v@),
{
    match first_choice_in(v) {
        Some(c) => text_in(c.get("finish_reason")),
        None => None,
    }
}

/// The error for a response without content.
pub const MISSING_CONTENT: &'static str =
    "unexpected response shape: missing choices[0].message.content";

/// The content and the finish reason of a response.
pub fn reply_of(response: &Json) -> (r: Result<(String, Option<String>), String>)
    ensures
        match r {
            Ok(reply) => choice_text(response@, "message"@, "content"@) == Some(reply.0@)
                && crate::text::opt_view(reply.1) == finish_reason_of(response@),
            Err(e) => choice_text(response@, "message"@, "content"@) is None && e@
                == MISSING_CONTENT@,
        },
{
    match choice_text_in(response, "message", "content") {
        Some(content) => Ok((content, finish_reason_in(response))),
        None => Err(MISSING_CONTENT.to_owned()),
    }
}

/// The text without white space at its ends and without a code fence around it.
pub open spec fn unfenced(s: Seq<char>) -> Seq<char> {
    let t = crate::text::trim_of(s);
    let inner = match crate::text::strip_prefix_of(t, "```json"@) {
        Some(rest) => Some(rest),
        None => crate::text::strip_prefix_of(t, "```"@),
    };
    match inner {
        Some(rest) => crate::text::trim_of(
            match crate::text::strip_suffix_of(rest, "```"@) {
                Some(body) => body,
                None => rest,
            },
        ),
        None => t,
    }
}

/// Strip a Markdown code fence from around a reply.
pub fn strip_fences_for_json_mode(text: &str) -> (r: String)
    ensures
        r@ == unfenced(text@),
{
    let t = trim(text);
    let inner = match strip_prefix(t.as_str(), "```json") {
        Some(rest) => Some(rest),
        None => strip_prefix(t.as_str(), "```"),
    };
    match inner {
        Some(rest) => match strip_suffix(rest.as_str(), "```") {
            Some(body) => trim(body.as_str()),
            None => trim(rest.as_str()),
        },
        None => t,
    }
}

/// What asks for JSON again after a reply that was none.
pub const JSON_AGAIN: &'static str = "The previous response was not valid JSON. Please output ONLY \
    valid JSON, with no markdown fences or extra text.";

/// The messages of a request with a system and a user prompt.
pub fn prompt_messages(system_prompt: &str, user_prompt: &str) -> (r: Vec<ChatMessage>)
    ensures
        messages_view(r@) == seq![("system"@, system_prompt@), ("user"@, user_prompt@)],
{
    let mut out: Vec<ChatMessage> = Vec::new();
    out.push(message("system", system_prompt));
    out.push(message("user", user_prompt));
    assert(messages_view(out@) =~= seq![("system"@, system_prompt@), ("user"@, user_prompt@)]);
    out
}

/// The messages of the second request for JSON, after a reply that was none.
pub fn json_retry_messages(system_prompt: &str, user_prompt: &str, reply: &str) -> (r: Vec<
    ChatMessage,
>)
    ensures
        messages_view(r@) == seq![
            ("system"@, system_prompt@),
            ("user"@, user_prompt@),
            ("assistant"@, reply@),
            ("user"@, JSON_AGAIN@),
        ],
{
    let mut out = prompt_messages(system_prompt, user_prompt);
    let ghost before = messages_view(out@);
    out.push(message("assistant", reply));
    out.push(message("user", JSON_AGAIN));
    assert(messages_view(out@) =~= before.push(("assistant"@, reply@)).push(
        ("user"@, JSON_AGAIN@),
    ));
    out
}

// ---------------------------------------------------------------------------
// Diagnostics
// ---------------------------------------------------------------------------

/// How the `Debug` format of the standard library writes a string.
pub uninterp spec fn debug_text(s: Seq<char>) -> Seq<char>;

/// `format!` with the `Debug` format of `str`: quotes around the string and
/// escapes in it. The escapes are the standard library's; nothing more is said
/// of the result than that it is determined by the string.
#[verifier::external_body]
pub(crate) fn debug_of(s: &str) -> (r: String)
    ensures
        r@ == debug_text(s@),
{
    format!("{:?}", s)
}

/// The last two hundred characters of a longer body, nothing of another.
pub open spec fn body_tail(body: Seq<char>) -> Seq<char> {
    if body.len() > 200 {
        body.skip(body.len() - 200)
    } else {
        Seq::empty()
    }
}

/// What is said of a response that is not JSON.
pub open spec fn parse_error_text(status: u16, body: Seq<char>, parse_err: Seq<char>) -> Seq<char> {
    "failed to parse chat completion response JSON: HTTP status="@ + crate::text::decimal_of(
        status as nat,
    ) + ", body char_len="@ + crate::text::decimal_of(body.len()) + ", byte_len="@
        + crate::text::decimal_of(vstd::utf8::encode_utf8(body).len()) + ", head="@ + debug_text(
        crate::text::first_chars(body, 200),
    ) + ", tail="@ + debug_text(body_tail(body)) + ", parse error: "@ + parse_err
}

/// Build parse-failure diagnostics from a raw response body.
///
/// Returns the error message and the value that is logged.
pub fn json_parse_error_diagnostics(status: u16, body_text: &str, parse_err: &str) -> (r: (
    String,
    Json,
))
    ensures
        r.0@ == parse_error_text(status, body_text@, parse_err@),
        r.1@ == JsonView::Object(
            seq![
                ("raw_text_head"@, JsonView::Text(crate::text::first_chars(body_text@, 200))),
                ("raw_text_tail"@, JsonView::Text(body_tail(body_text@))),
                ("status"@, JsonView::Number(status as u64)),
            ],
        ),
{
    let chars = to_chars(body_text);
    let char_len: usize = chars.len();
    let byte_len: usize = body_text.as_bytes().len();
    let head = take_chars(body_text, 200);
    let tail = if char_len > 200 {
        assert(chars@.subrange(chars@.len() - 200, chars@.len() as int) =~= body_tail(body_text@));
        crate::text::from_chars(&chars, char_len - 200, char_len)
    } else {
        String::new()
    };
    let mut out = "failed to parse chat completion response JSON: HTTP status=".to_owned();
    push_decimal(&mut out, status as u64);
    out.push_str(", body char_len=");
    push_decimal(&mut out, char_len as u64);
    out.push_str(", byte_len=");
    push_decimal(&mut out, byte_len as u64);
    out.push_str(", head=");
    out.push_str(debug_of(head.as_str()).as_str());
    out.push_str(", tail=");
    out.push_str(debug_of(tail.as_str()).as_str());
    out.push_str(", parse error: ");
    out.push_str(parse_err);
    let mut members: Vec<(String, Json)> = Vec::new();
    assert(crate::json::members_view(members@) =~= Seq::empty());
    put(&mut members, "raw_text_head", text(head.as_str()));
    put(&mut members, "raw_text_tail", text(tail.as_str()));
    put(&mut members, "status", Json::Number(status as u64));
    let value = object(members);
    assert(value@->Object_0 =~= seq![
        ("raw_text_head"@, JsonView::Text(crate::text::first_chars(body_text@, 200))),
        ("raw_text_tail"@, JsonView::Text(body_tail(body_text@))),
        ("status"@, JsonView::Number(status as u64)),
    ]);
    (out, value)
}

/// A request is repeated where no response came, where there were too many requests and
/// where the server failed; never where it was answered or was itself at fault.
pub proof fn law_what_is_repeated(s: u16)
    ensures
        retryable(SendResult::NoResponse),
        retryable(SendResult::Status(s)) <==> s == 429 || s / 100 == 5,
        succeeded(SendResult::Status(s)) <==> s / 100 == 2,
        !succeeded(SendResult::NoResponse),
        !(succeeded(SendResult::Status(s)) && retryable(SendResult::Status(s))),
{
}

/// A reply in a code fence is what stands in the fence, whether it is marked as JSON or
/// not; any other reply is all of it. White space around either goes.
pub proof fn law_code_fences_are_taken_off(body: Seq<char>)
    ensures
        unfenced("```json"@ + body + "```"@) == crate::text::trim_of(body),
        !crate::text::starts_with_of(body, "json"@) ==> unfenced("```"@ + body + "```"@)
            == crate::text::trim_of(body),
        !crate::text::starts_with_of(crate::text::trim_of(body), "```"@) ==> unfenced(body)
            == crate::text::trim_of(body),
{
    reveal_strlit("```json");
    reveal_strlit("```");
    reveal_strlit("json");
    let marked = "```json"@;
    let fence = "```"@;
    let s = marked + body + fence;
    assert(s[0] == '`' && s.last() == '`');
    assert(crate::text::trim_of(s) == s);
    assert(s.subrange(0, marked.len() as int) =~= marked);
    let rest = s.skip(marked.len() as int);
    assert(rest =~= body + fence);
    assert(rest.subrange(rest.len() - 3, rest.len() as int) =~= fence);
    assert(rest.take(rest.len() - 3) =~= body);
    let t = fence + body + fence;
    assert(t[0] == '`' && t.last() == '`');
    assert(crate::text::trim_of(t) == t);
    assert(t.subrange(0, 3) =~= fence);
    assert(t.skip(3) =~= body + fence);
    if !crate::text::starts_with_of(body, "json"@) {
        if crate::text::starts_with_of(t, marked) {
            assert(t.subrange(0, 7) == marked);
            assert(t.subrange(0, 7)[3] == 'j' && t.subrange(0, 7)[4] == 's');
            assert(t.subrange(0, 7)[5] == 'o' && t.subrange(0, 7)[6] == 'n');
            assert(t[3] == 'j' && t[4] == 's' && t[5] == 'o' && t[6] == 'n');
            if body.len() < 4 {
                assert(t[3 + body.len() as int] == '`');
            } else {
                assert(body.subrange(0, 4) =~= "json"@);
            }
        }
    }
    let plain = crate::text::trim_of(body);
    if !crate::text::starts_with_of(plain, fence) && crate::text::starts_with_of(plain, marked) {
        assert(plain.subrange(0, 7) == marked);
        assert(plain.subrange(0, 3) =~= marked.subrange(0, 3));
        assert(marked.subrange(0, 3) =~= fence);
    }
}

/// Asking for JSON only changes the system prompt, or adds one in front: everything else
/// that was said stays, in its order.
pub proof fn law_json_instruction_keeps_the_messages(ms: Seq<(Seq<char>, Seq<char>)>, i: int)
    ensures
        ({
            let out = json_only_messages(ms);
            let has_system = ms.len() > 0 && ms[0].0 == "system"@;
            &&& out.len() == ms.len() + (if has_system {
                0int
            } else {
                1int
            })
            &&& out[0].0 == "system"@
            &&& crate::text::ends_with_of(out[0].1, JSON_ONLY@)
            &&& has_system ==> crate::text::starts_with_of(out[0].1, ms[0].1)
            &&& has_system && 0 < i < ms.len() ==> out[i] == ms[i]
            &&& !has_system && 0 <= i < ms.len() ==> out[i + 1] == ms[i]
        }),
{
    let out = json_only_messages(ms);
    let t = out[0].1;
    assert(t.subrange(t.len() - JSON_ONLY@.len(), t.len() as int) =~= JSON_ONLY@);
    if ms.len() > 0 && ms[0].0 == "system"@ {
        assert(t.subrange(0, ms[0].1.len() as int) =~= ms[0].1);
    }
}

/// A request names the model, holds every message with its role and content and in its
/// order, and says how long the reply may be, and whether and how it is to come.
pub proof fn law_requests_hold_the_conversation(
    model: Seq<char>,
    messages: Seq<(Seq<char>, Seq<char>)>,
    temperature: JsonView,
    max_tokens: u32,
    stream: bool,
    response_format: Option<Seq<char>>,
    i: int,
)
    ensures
        ({
            let r = request_view(model, messages, temperature, max_tokens, stream, response_format);
            &&& crate::json::member(r, "model"@) == Some(JsonView::Text(model))
            &&& crate::json::member(r, "messages"@) matches Some(JsonView::Array(items))
            &&& items.len() == messages.len()
            &&& 0 <= i < messages.len() ==> crate::json::member(items[i], "role"@) == Some(
                JsonView::Text(messages[i].0),
            ) && crate::json::member(items[i], "content"@) == Some(JsonView::Text(messages[i].1))
            &&& crate::json::member(r, "temperature"@) == Some(temperature)
            &&& crate::json::member(r, "max_tokens"@) == Some(JsonView::Number(max_tokens as u64))
            &&& stream ==> crate::json::member(r, "stream"@) == Some(JsonView::Bool(true))
            &&& !stream ==> crate::json::member(r, "stream"@) is None
            &&& response_format matches Some(f) ==> crate::json::member(r, "response_format"@)
                == Some(JsonView::Object(seq![("type"@, JsonView::Text(f))]))
            &&& response_format is None ==> crate::json::member(r, "response_format"@) is None
        }),
{
    reveal_strlit("model");
    reveal_strlit("messages");
    reveal_strlit("temperature");
    reveal_strlit("max_tokens");
    reveal_strlit("stream");
    reveal_strlit("response_format");
    reveal_strlit("role");
    reveal_strlit("content");
    assert("model"@.len() == 5 && "messages"@.len() == 8 && "temperature"@.len() == 11);
    assert("max_tokens"@.len() == 10 && "stream"@.len() == 6 && "response_format"@.len() == 15);
    assert("role"@.len() == 4 && "content"@.len() == 7);
    let r = request_view(model, messages, temperature, max_tokens, stream, response_format);
    let ms = r->Object_0;
    crate::json::law_member_is_the_first(ms, "model"@, 0);
    crate::json::law_member_is_the_first(ms, "messages"@, 1);
    crate::json::law_member_is_the_first(ms, "temperature"@, 2);
    crate::json::law_member_is_the_first(ms, "max_tokens"@, 3);
    if stream {
        crate::json::law_member_is_the_first(ms, "stream"@, 4);
    } else {
        crate::json::law_member_is_the_first(ms, "stream"@, ms.len() as int);
    }
    if response_format is Some {
        crate::json::law_member_is_the_first(ms, "response_format"@, ms.len() - 1);
    } else {
        crate::json::law_member_is_the_first(ms, "response_format"@, ms.len() as int);
    }
    if 0 <= i < messages.len() {
        let fields = seq![
            ("role"@, JsonView::Text(messages[i].0)),
            ("content"@, JsonView::Text(messages[i].1)),
        ];
        crate::json::law_member_is_the_first(fields, "role"@, 0);
        crate::json::law_member_is_the_first(fields, "content"@, 1);
    }
}

/// A request that went wrong is told apart by its status, its length and its ends.
pub proof fn law_parse_errors_say_the_status(status: u16, body: Seq<char>, e: Seq<char>)
    ensures
        crate::text::starts_with_of(
            parse_error_text(status, body, e),
            "failed to parse chat completion response JSON: HTTP status="@ + crate::text::decimal_of(
                status as nat,
            ) + ", body char_len="@ + crate::text::decimal_of(body.len()),
        ),
        crate::text::ends_with_of(parse_error_text(status, body, e), ", parse error: "@ + e),
        body.len() > 200 ==> body_tail(body) == body.subrange(body.len() - 200, body.len() as int),
{
    let t = parse_error_text(status, body, e);
    let head = "failed to parse chat completion response JSON: HTTP status="@
        + crate::text::decimal_of(status as nat) + ", body char_len="@ + crate::text::decimal_of(
        body.len(),
    );
    let end = ", parse error: "@ + e;
    assert(t.subrange(0, head.len() as int) =~= head);
    assert(t.subrange(t.len() - end.len(), t.len() as int) =~= end);
    if body.len() > 200 {
        assert(body_tail(body) =~= body.subrange(body.len() - 200, body.len() as int));
    }
}

/// A setting is the number that is written in it; where none is, or something else than
/// a number, it is the default.
pub proof fn law_settings_are_read(n: nat, s: Seq<char>, default: int)
    requires
        n <= usize::MAX,
    ensures
        setting_of(Some(crate::text::decimal_of(n)), default) == n,
        setting_of(None, default) == default,
        s.len() > 0 && !crate::text::is_digit(s[0]) && s[0] != '+' ==> setting_of(Some(s), default)
            == default,
{
    crate::text::law_numbers_are_read_back(n, usize::MAX as nat);
    if s.len() > 0 && !crate::text::is_digit(s[0]) && s[0] != '+' {
        assert(!crate::text::all_digits(s));
    }
}

} // verus!
