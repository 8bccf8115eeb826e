//! What a chat completion comes to: the text of its reply or an error, and what is
//! logged of it; and what a reply that should be JSON comes to.

use vstd::prelude::*;

use crate::json::{object, put, text, Json, JsonView};
use crate::llm::{body_tail, choice_text, finish_reason_of, json_parse_error_diagnostics,
    json_retry_messages, messages_view, parse_error_text, reply_of, strip_fences_for_json_mode,
    unfenced, ChatMessage, JSON_AGAIN, MISSING_CONTENT};
use crate::llm_stream::{reason_json, reason_value, LogResult};
use crate::outside::{json_text, parse_json};
use crate::text::{decimal_of, first_chars, opt_view, push_decimal};

verus! {

// ---------------------------------------------------------------------------
// Chat completions
// ---------------------------------------------------------------------------

/// What came of a request.
#[derive(Debug)]
pub enum Received {
    /// A response with this status and this body.
    Body {
        /// The HTTP status.
        status: u16,
        /// The body.
        text: String,
    },
    /// A response whose body could not be read.
    Unreadable {
        /// The HTTP status.
        status: u16,
        /// Why not.
        error: String,
    },
    /// No response.
    Nothing {
        /// Why not.
        error: String,
    },
}

/// What a request comes to.
#[derive(Debug)]
pub struct Answer {
    /// The text of the reply and why it ends, or an error.
    pub result: Result<(String, Option<String>), String>,
    /// What is logged.
    pub log: LogResult,
}

/// What a request comes to, as plain values.
pub struct AnswerView {
    /// The text of the reply and why it ends, or an error.
    pub result: Result<(Seq<char>, Option<Seq<char>>), Seq<char>>,
    /// The status that is logged.
    pub status: Seq<char>,
    /// The response that is logged.
    pub response: Option<JsonView>,
}

/// The value of an optional response.
pub open spec fn response_view(r: Option<Json>) -> Option<JsonView> {
    match r {
        Some(j) => Some(j@),
        None => None,
    }
}

/// Whether an answer is this one; what is logged as error is the error.
pub open spec fn is_answer(a: Answer, v: AnswerView) -> bool {
    &&& match a.result {
        Ok(reply) => v.result == Ok::<(Seq<char>, Option<Seq<char>>), Seq<char>>(
            (reply.0@, opt_view(reply.1)),
        ),
        Err(e) => v.result == Err::<(Seq<char>, Option<Seq<char>>), Seq<char>>(e@),
    }
    &&& a.log.status@ == v.status
    &&& response_view(a.log.response) == v.response
    &&& opt_view(a.log.error) == match v.result {
        Ok(_) => None,
        Err(e) => Some(e),
    }
}

/// A request that failed.
pub open spec fn failed(error: Seq<char>, response: Option<JsonView>) -> AnswerView {
    AnswerView { result: Err(error), status: "failed"@, response }
}

/// What a response comes to that is this value. Why the reply ends is logged where
/// it is asked for.
pub open spec fn answer_of(value: JsonView, with_reason: bool) -> AnswerView {
    match choice_text(value, "message"@, "content"@) {
        Some(content) => {
            let reason = finish_reason_of(value);
            let response = seq![("raw"@, value), ("content"@, JsonView::Text(content))];
            AnswerView {
                result: Ok((content, reason)),
                status: "succeeded"@,
                response: Some(
                    JsonView::Object(
                        if with_reason {
                            response.push(("finish_reason"@, reason_json(reason)))
                        } else {
                            response
                        },
                    ),
                ),
            }
        },
        None => failed(MISSING_CONTENT@, Some(JsonView::Object(seq![("raw"@, value)]))),
    }
}

/// What a response comes to that is not JSON.
pub open spec fn unparsed(status: u16, body: Seq<char>, error: Seq<char>) -> AnswerView {
    failed(
        parse_error_text(status, body, error),
        Some(
            JsonView::Object(
                seq![
                    ("raw_text_head"@, JsonView::Text(first_chars(body, 200))),
                    ("raw_text_tail"@, JsonView::Text(body_tail(body))),
                    ("status"@, JsonView::Number(status as u64)),
                ],
            ),
        ),
    )
}

/// What a response comes to whose body cannot be read.
pub open spec fn unread(status: u16, error: Seq<char>) -> AnswerView {
    failed(
        "failed to read chat completion response body as text: HTTP status="@ + decimal_of(
            status as nat,
        ) + ", error="@ + error,
        Some(JsonView::Object(seq![("status"@, JsonView::Number(status as u64))])),
    )
}

/// What a request comes to.
pub open spec fn answered(received: Received, with_reason: bool) -> AnswerView {
    match received {
        Received::Body { status, text } => match json_text(text@) {
            Ok(value) => answer_of(value, with_reason),
            Err(e) => unparsed(status, text@, e),
        },
        Received::Unreadable { status, error } => unread(status, error@),
        Received::Nothing { error } => failed(error@, None),
    }
}

/// What a response comes to that is this value.
pub fn read_value(value: Json, with_reason: bool) -> (r: Answer)
    ensures
        is_answer(r, answer_of(value@, with_reason)),
{
    let ghost v = value@;
    let mut members: Vec<(String, Json)> = Vec::new();
    assert(crate::json::members_view(members@) =~= Seq::empty());
    match reply_of(&value) {
        Ok((content, reason)) => {
            put(&mut members, "raw", value);
            put(&mut members, "content", text(content.as_str()));
            assert(crate::json::members_view(members@) =~= seq![
                ("raw"@, v),
                ("content"@, JsonView::Text(content@)),
            ]);
            if with_reason {
                put(&mut members, "finish_reason", reason_value(&reason));
            }
            Answer {
                result: Ok((content, reason)),
                log: LogResult {
                    status: "succeeded".to_owned(),
                    response: Some(object(members)),
                    error: None,
                },
            }
        },
        Err(e) => {
            put(&mut members, "raw", value);
            assert(crate::json::members_view(members@) =~= seq![("raw"@, v)]);
            fail(e, Some(object(members)))
        },
    }
}

/// A request that failed.
fn fail(error: String, response: Option<Json>) -> (r: Answer)
    ensures
        is_answer(r, failed(error@, response_view(response))),
{
    Answer {
        result: Err(error.clone()),
        log: LogResult { status: "failed".to_owned(), response, error: Some(error) },
    }
}

/// What a request comes to: the text of the reply and why it ends, or an error; and
/// what is logged of it.
pub fn read_answer(received: Received, with_reason: bool) -> (r: Answer)
    ensures
        is_answer(r, answered(received, with_reason)),
{
    match received {
        Received::Body { status, text } => match parse_json(text.as_str()) {
            Ok(value) => read_value(value, with_reason),
            Err(e) => {
                let (error, response) = json_parse_error_diagnostics(
                    status,
                    text.as_str(),
                    e.as_str(),
                );
                fail(error, Some(response))
            },
        },
        Received::Unreadable { status, error } => {
            let mut message =
                "failed to read chat completion response body as text: HTTP status=".to_owned();
            push_decimal(&mut message, status as u64);
            message.push_str(", error=");
            message.push_str(error.as_str());
            let mut members: Vec<(String, Json)> = Vec::new();
            assert(crate::json::members_view(members@) =~= Seq::empty());
            put(&mut members, "status", Json::Number(status as u64));
            assert(crate::json::members_view(members@) =~= seq![
                ("status"@, JsonView::Number(status as u64)),
            ]);
            fail(message, Some(object(members)))
        },
        Received::Nothing { error } => fail(error, None),
    }
}

/// A request fails where the response has no text; its text is the content of the
/// first choice.
pub proof fn law_reply_is_the_first_choice(value: JsonView, with_reason: bool)
    ensures
        match choice_text(value, "message"@, "content"@) {
            Some(content) => answer_of(value, with_reason).result == Ok::<
                (Seq<char>, Option<Seq<char>>),
                Seq<char>,
            >((content, finish_reason_of(value))),
            None => answer_of(value, with_reason).result is Err,
        },
{
}

// ---------------------------------------------------------------------------
// Replies that should be JSON
// ---------------------------------------------------------------------------

/// Parse a reply as JSON, without a code fence around it.
pub fn strip_code_fences_and_parse(text: &str) -> (r: Result<Json, String>)
    ensures
        match r {
            Ok(j) => json_text(unfenced(text@)) == Ok::<JsonView, Seq<char>>(j@),
            Err(e) => json_text(unfenced(text@)) == Err::<JsonView, Seq<char>>(e@),
        },
{
    parse_json(strip_fences_for_json_mode(text).as_str())
}

/// What a reply that should be JSON comes to.
#[derive(Debug)]
pub enum JsonReply {
    /// This value.
    Value(Json),
    /// Another request, with these messages.
    AskAgain(Vec<ChatMessage>),
    /// An error.
    Failed(String),
}

/// What a reply that should be JSON comes to, as plain values.
pub enum JsonReplyView {
    /// This value.
    Value(JsonView),
    /// Another request, with these messages.
    AskAgain(Seq<(Seq<char>, Seq<char>)>),
    /// An error.
    Failed(Seq<char>),
}

impl View for JsonReply {
    type V = JsonReplyView;

    open spec fn view(&self) -> JsonReplyView {
        match *self {
            JsonReply::Value(j) => JsonReplyView::Value(j@),
            JsonReply::AskAgain(ms) => JsonReplyView::AskAgain(messages_view(ms@)),
            JsonReply::Failed(e) => JsonReplyView::Failed(e@),
        }
    }
}

/// The error for a reply that is not JSON the second time either.
pub const NO_JSON: &'static str = "JSON parse failed on retry as well";

/// What a reply comes to that was parsed like this: its value; where it is not JSON
/// it is asked for once more.
pub open spec fn judged(
    parsed: Result<JsonView, Seq<char>>,
    system_prompt: Seq<char>,
    user_prompt: Seq<char>,
    reply: Seq<char>,
    retried: bool,
) -> JsonReplyView {
    match parsed {
        Ok(v) => JsonReplyView::Value(v),
        Err(_) => if retried {
            JsonReplyView::Failed(NO_JSON@)
        } else {
            JsonReplyView::AskAgain(
                seq![
                    ("system"@, system_prompt),
                    ("user"@, user_prompt),
                    ("assistant"@, reply),
                    ("user"@, JSON_AGAIN@),
                ],
            )
        },
    }
}

/// What a reply comes to that was parsed like this.
pub fn judge_parsed(
    parsed: Result<Json, String>,
    system_prompt: &str,
    user_prompt: &str,
    reply: &str,
    retried: bool,
) -> (r: JsonReply)
    ensures
        r@ == judged(
            match parsed {
                Ok(j) => Ok(j@),
                Err(e) => Err(e@),
            },
            system_prompt@,
            user_prompt@,
            reply@,
            retried,
        ),
{
    match parsed {
        Ok(j) => JsonReply::Value(j),
        Err(_) => if retried {
            JsonReply::Failed(NO_JSON.to_owned())
        } else {
            JsonReply::AskAgain(json_retry_messages(system_prompt, user_prompt, reply))
        },
    }
}

/// What a reply that should be JSON comes to.
pub fn judge_json_reply(system_prompt: &str, user_prompt: &str, reply: &str, retried: bool) -> (r:
    JsonReply)
    ensures
        r@ == judged(
            json_text(unfenced(reply@)),
            system_prompt@,
            user_prompt@,
            reply@,
            retried,
        ),
{
    judge_parsed(strip_code_fences_and_parse(reply), system_prompt, user_prompt, reply, retried)
}

/// JSON is asked for twice at most: the second reply comes to a value or to an error.
pub proof fn law_json_is_asked_for_twice(
    parsed: Result<JsonView, Seq<char>>,
    system_prompt: Seq<char>,
    user_prompt: Seq<char>,
    reply: Seq<char>,
)
    ensures
        !(judged(parsed, system_prompt, user_prompt, reply, true) is AskAgain),
        parsed is Err ==> judged(parsed, system_prompt, user_prompt, reply, false) is AskAgain,
{
}

/// What is logged of an answer: the response with the text, under its name, where there
/// is one, and that it succeeded; else that it failed.
pub proof fn law_log_of_an_answer(value: JsonView, with_reason: bool)
    ensures
        choice_text(value, "message"@, "content"@) matches Some(content) ==> {
            let a = answer_of(value, with_reason);
            &&& a.status == "succeeded"@
            &&& a.response matches Some(r)
            &&& crate::json::member(r, "raw"@) == Some(value)
            &&& crate::json::member(r, "content"@) == Some(JsonView::Text(content))
        },
        choice_text(value, "message"@, "content"@) is None ==> answer_of(value, with_reason).status
            == "failed"@,
{
    reveal_strlit("raw");
    reveal_strlit("content");
    assert("raw"@.len() != "content"@.len());
    if let Some(content) = choice_text(value, "message"@, "content"@) {
        let ms = answer_of(value, with_reason).response->0->Object_0;
        crate::json::law_member_is_the_first(ms, "raw"@, 0);
        crate::json::law_member_is_the_first(ms, "content"@, 1);
    }
}

/// An answer that is JSON is read as such; one that is not, one that could not be read
/// and one that did not come are errors, each with its own reason.
pub proof fn law_answers_by_what_came(received: Received, with_reason: bool)
    ensures
        match received {
            Received::Body { status, text } => match json_text(text@) {
                Ok(value) => answered(received, with_reason) == answer_of(value, with_reason),
                Err(e) => answered(received, with_reason).result == Err::<
                    (Seq<char>, Option<Seq<char>>),
                    Seq<char>,
                >(parse_error_text(status, text@, e)) && answered(received, with_reason).status
                    == "failed"@,
            },
            Received::Unreadable { status, error } => answered(received, with_reason).result
                is Err && answered(received, with_reason).status == "failed"@,
            Received::Nothing { error } => answered(received, with_reason).result == Err::<
                (Seq<char>, Option<Seq<char>>),
                Seq<char>,
            >(error@) && answered(received, with_reason).response is None,
        },
{
}

/// A reply that is JSON is the value; the request that follows one that is not holds the
/// conversation and the reply.
pub proof fn law_json_replies(
    v: JsonView,
    e: Seq<char>,
    system_prompt: Seq<char>,
    user_prompt: Seq<char>,
    reply: Seq<char>,
    retried: bool,
)
    ensures
        judged(Ok(v), system_prompt, user_prompt, reply, retried) == JsonReplyView::Value(v),
        judged(Err(e), system_prompt, user_prompt, reply, true) is Failed,
        judged(Err(e), system_prompt, user_prompt, reply, false) matches JsonReplyView::AskAgain(ms)
            && ms.len() == 4 && ms[0] == ("system"@, system_prompt) && ms[1] == (
            "user"@,
            user_prompt,
        ) && ms[2] == ("assistant"@, reply) && ms[3].0 == "user"@,
{
}

} // verus!
