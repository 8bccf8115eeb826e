//! Passing a streamed reply on while it arrives: each piece of text goes to a
//! receiver, and the end of the reply or an error follows the last piece.

use vstd::prelude::*;

use crate::json::{object, put, same_text, text, Json, JsonView};
use crate::llm_stream::{lemma_rest_is_shorter, next_data, take_data};
use crate::outside::{json_text, parse_json};
use crate::text::opt_view;

verus! {

/// Where the passing on of a reply stands.
#[derive(Debug)]
pub struct ForwardRun<T> {
    /// What has been received and not been read yet.
    pub buf: T,
    /// What has been passed on so far.
    pub accumulated: T,
    /// Whether the reply is over.
    pub over: bool,
}

/// What happened to the stream or to the receiver.
#[derive(Debug)]
pub enum ForwardEvent<T, J> {
    /// A piece of text arrived.
    Chunk(T),
    /// The payload is this value.
    Parsed(J),
    /// The payload is not JSON.
    NotParsed(T),
    /// The receiver took the last piece.
    Taken,
    /// The receiver is gone.
    Dropped,
    /// The connection broke.
    Broken(T),
    /// The connection ended.
    Ended,
}

/// What is sent last.
#[derive(Debug)]
pub enum LastWord<T> {
    /// An empty piece: the reply is complete.
    Complete,
    /// An error.
    Failed(T),
    /// Nothing, because nobody listens.
    Silence,
}

/// What to do next.
#[derive(Debug)]
pub enum ForwardAction<T> {
    /// Wait for the next piece of text.
    Read,
    /// Parse this payload as JSON.
    Parse(T),
    /// Pass this piece on.
    Send(T),
    /// Send this, and log what was passed on.
    Finish(LastWord<T>),
    /// Nothing.
    Idle,
}

impl View for ForwardRun<String> {
    type V = ForwardRun<Seq<char>>;

    open spec fn view(&self) -> ForwardRun<Seq<char>> {
        ForwardRun { buf: self.buf@, accumulated: self.accumulated@, over: self.over }
    }
}

impl View for ForwardEvent<String, Json> {
    type V = ForwardEvent<Seq<char>, JsonView>;

    open spec fn view(&self) -> ForwardEvent<Seq<char>, JsonView> {
        match *self {
            ForwardEvent::Chunk(t) => ForwardEvent::Chunk(t@),
            ForwardEvent::Parsed(j) => ForwardEvent::Parsed(j@),
            ForwardEvent::NotParsed(t) => ForwardEvent::NotParsed(t@),
            ForwardEvent::Taken => ForwardEvent::Taken,
            ForwardEvent::Dropped => ForwardEvent::Dropped,
            ForwardEvent::Broken(t) => ForwardEvent::Broken(t@),
            ForwardEvent::Ended => ForwardEvent::Ended,
        }
    }
}

impl View for LastWord<String> {
    type V = LastWord<Seq<char>>;

    open spec fn view(&self) -> LastWord<Seq<char>> {
        match *self {
            LastWord::Complete => LastWord::Complete,
            LastWord::Failed(e) => LastWord::Failed(e@),
            LastWord::Silence => LastWord::Silence,
        }
    }
}

impl View for ForwardAction<String> {
    type V = ForwardAction<Seq<char>>;

    open spec fn view(&self) -> ForwardAction<Seq<char>> {
        match *self {
            ForwardAction::Read => ForwardAction::Read,
            ForwardAction::Parse(t) => ForwardAction::Parse(t@),
            ForwardAction::Send(t) => ForwardAction::Send(t@),
            ForwardAction::Finish(w) => ForwardAction::Finish(w@),
            ForwardAction::Idle => ForwardAction::Idle,
        }
    }
}

/// The passing on, with the step that it takes.
pub type ForwardMove = (ForwardRun<Seq<char>>, ForwardAction<Seq<char>>);

/// The reply is over.
pub open spec fn finished(run: ForwardRun<Seq<char>>, word: LastWord<Seq<char>>) -> ForwardMove {
    (ForwardRun { over: true, ..run }, ForwardAction::Finish(word))
}

/// The next payload of the buffer is to be parsed; at the end mark the reply is
/// complete; without a payload more text is needed.
pub open spec fn searched(run: ForwardRun<Seq<char>>) -> ForwardMove {
    let (data, rest) = next_data(run.buf);
    let read = ForwardRun { buf: rest, ..run };
    match data {
        Some(d) => if d == "[DONE]"@ {
            finished(read, LastWord::Complete)
        } else {
            (read, ForwardAction::Parse(d))
        },
        None => (read, ForwardAction::Read),
    }
}

/// What is done when something happens. Nothing happens after the end.
pub open spec fn forward_next(
    run: ForwardRun<Seq<char>>,
    event: ForwardEvent<Seq<char>, JsonView>,
) -> ForwardMove {
    if run.over {
        (run, ForwardAction::Idle)
    } else {
        match event {
            ForwardEvent::Chunk(t) => searched(ForwardRun { buf: run.buf + t, ..run }),
            ForwardEvent::Parsed(v) => match crate::llm::choice_text(v, "delta"@, "content"@) {
                Some(d) => if d.len() > 0 {
                    (
                        ForwardRun { accumulated: run.accumulated + d, ..run },
                        ForwardAction::Send(d),
                    )
                } else {
                    searched(run)
                },
                None => searched(run),
            },
            ForwardEvent::NotParsed(e) => finished(
                run,
                LastWord::Failed("Failed to parse SSE data: "@ + e),
            ),
            ForwardEvent::Taken => searched(run),
            ForwardEvent::Dropped => finished(run, LastWord::Silence),
            ForwardEvent::Broken(e) => finished(run, LastWord::Failed("Stream error: "@ + e)),
            ForwardEvent::Ended => finished(run, LastWord::Complete),
        }
    }
}

impl ForwardRun<String> {
    /// A reply of which nothing has arrived.
    pub fn new() -> (r: ForwardRun<String>)
        ensures
            r@ == (ForwardRun {
                buf: Seq::<char>::empty(),
                accumulated: Seq::<char>::empty(),
                over: false,
            }),
    {
        ForwardRun { buf: String::new(), accumulated: String::new(), over: false }
    }

    fn search(&mut self) -> (r: ForwardAction<String>)
        ensures
            (final(self)@, r@) == searched(old(self)@),
    {
        let (data, rest) = take_data(self.buf.as_str());
        self.buf = rest;
        match data {
            Some(d) => {
                if same_text(d.as_str(), "[DONE]") {
                    self.over = true;
                    ForwardAction::Finish(LastWord::Complete)
                } else {
                    ForwardAction::Parse(d)
                }
            },
            None => ForwardAction::Read,
        }
    }

    fn fail(&mut self, what: &str, error: &str) -> (r: ForwardAction<String>)
        ensures
            (final(self)@, r@) == finished(old(self)@, LastWord::Failed(what@ + error@)),
    {
        self.over = true;
        let mut message = what.to_owned();
        message.push_str(error);
        ForwardAction::Finish(LastWord::Failed(message))
    }

    /// Take note of what happened, and say what to do next.
    pub fn step(&mut self, event: ForwardEvent<String, Json>) -> (r: ForwardAction<String>)
        ensures
            (final(self)@, r@) == forward_next(old(self)@, event@),
    {
        if self.over {
            return ForwardAction::Idle;
        }
        match event {
            ForwardEvent::Chunk(t) => {
                self.buf.push_str(t.as_str());
                self.search()
            },
            ForwardEvent::Parsed(v) => {
                match crate::llm::choice_text_in(&v, "delta", "content") {
                    Some(d) => if d.as_str().is_empty() {
                        self.search()
                    } else {
                        self.accumulated.push_str(d.as_str());
                        ForwardAction::Send(d)
                    },
                    None => self.search(),
                }
            },
            ForwardEvent::NotParsed(e) => self.fail("Failed to parse SSE data: ", e.as_str()),
            ForwardEvent::Taken => self.search(),
            ForwardEvent::Dropped => {
                self.over = true;
                ForwardAction::Finish(LastWord::Silence)
            },
            ForwardEvent::Broken(e) => self.fail("Stream error: ", e.as_str()),
            ForwardEvent::Ended => {
                self.over = true;
                ForwardAction::Finish(LastWord::Complete)
            },
        }
    }
}

/// What parsing a payload brings about.
pub open spec fn parsing(data: Seq<char>) -> ForwardEvent<Seq<char>, JsonView> {
    match json_text(data) {
        Ok(v) => ForwardEvent::Parsed(v),
        Err(e) => ForwardEvent::NotParsed(e),
    }
}

/// Where the passing on stands once no payload is left to parse.
pub open spec fn settled(m: ForwardMove) -> ForwardMove
    decreases (
        if m.1 is Parse {
            m.0.buf.len() + 1
        } else {
            0
        }
    ),
{
    match m.1 {
        ForwardAction::Parse(data) => {
            let next = forward_next(m.0, parsing(data));
            proof {
                lemma_rest_is_shorter(m.0.buf);
            }
            settled(next)
        },
        _ => m,
    }
}

impl ForwardRun<String> {
    /// Take note of what happened, and parse the payloads that are there. What is
    /// left to do is to pass a piece on, to wait for more, or the reply is over.
    pub fn read(&mut self, event: ForwardEvent<String, Json>) -> (r: ForwardAction<String>)
        ensures
            (final(self)@, r@) == settled(forward_next(old(self)@, event@)),
    {
        let ghost goal = settled(forward_next(self@, event@));
        let mut action = self.step(event);
        loop
            invariant
                settled((self@, action@)) == goal,
                goal == settled(forward_next(old(self)@, event@)),
            decreases (
                if action@ is Parse {
                    self@.buf.len() + 1
                } else {
                    0
                }
            ),
        {
            match action {
                ForwardAction::Parse(data) => {
                    let parsed = match parse_json(data.as_str()) {
                        Ok(v) => ForwardEvent::Parsed(v),
                        Err(e) => ForwardEvent::NotParsed(e),
                    };
                    proof {
                        lemma_rest_is_shorter(self@.buf);
                    }
                    action = self.step(parsed);
                },
                other => {
                    return other;
                },
            }
        }
    }
}

/// What the log says of a reply that was passed on: its status, what was passed on
/// and what went wrong.
pub open spec fn forward_log_view(word: LastWord<Seq<char>>, accumulated: Seq<char>) -> (
    Seq<char>,
    Option<JsonView>,
    Option<Seq<char>>,
) {
    let response = if accumulated.len() == 0 {
        None
    } else {
        Some(JsonView::Object(seq![("content"@, JsonView::Text(accumulated))]))
    };
    match word {
        LastWord::Failed(e) => ("failed"@, response, Some(e)),
        _ => ("succeeded"@, response, None),
    }
}

/// What the log says of a reply that was passed on.
pub fn forward_log(word: &LastWord<String>, accumulated: &str) -> (r: crate::llm_stream::LogResult)
    ensures
        (
            r.status@,
            match r.response {
                Some(j) => Some(j@),
                None => None,
            },
            opt_view(r.error),
        ) == forward_log_view(word@, accumulated@),
{
    let response = if accumulated.is_empty() {
        None
    } else {
        let mut members: Vec<(String, Json)> = Vec::new();
        assert(crate::json::members_view(members@) =~= Seq::empty());
        put(&mut members, "content", text(accumulated));
        assert(crate::json::members_view(members@) =~= seq![
            ("content"@, JsonView::Text(accumulated@)),
        ]);
        Some(object(members))
    };
    match word {
        LastWord::Failed(e) => crate::llm_stream::LogResult {
            status: "failed".to_owned(),
            response,
            error: Some(e.clone()),
        },
        _ => crate::llm_stream::LogResult {
            status: "succeeded".to_owned(),
            response,
            error: None,
        },
    }
}

/// What is kept for the log is what was passed on, piece by piece: a step adds to it
/// the piece that it sends, and nothing else.
pub proof fn law_log_holds_what_was_sent(
    run: ForwardRun<Seq<char>>,
    event: ForwardEvent<Seq<char>, JsonView>,
)
    ensures
        ({
            let (next, action) = forward_next(run, event);
            match action {
                ForwardAction::Send(piece) => piece.len() > 0 && next.accumulated
                    == run.accumulated + piece,
                _ => next.accumulated == run.accumulated,
            }
        }),
{
}

/// A reply has one last word: it ends with the step that sends it, and no step
/// follows the end.
pub proof fn law_one_last_word(
    run: ForwardRun<Seq<char>>,
    event: ForwardEvent<Seq<char>, JsonView>,
)
    ensures
        !run.over ==> (forward_next(run, event).1 is Finish <==> forward_next(run, event).0.over),
        run.over ==> forward_next(run, event) == (run, ForwardAction::<Seq<char>>::Idle),
{
}

/// Every delta that says something is sent on, as it is; a delta that says nothing is
/// not. After a piece was taken the search goes on, and where the receiver is gone the
/// stream ends without a word.
pub proof fn law_deltas_are_sent_on(run: ForwardRun<Seq<char>>, v: JsonView, e: Seq<char>)
    requires
        !run.over,
    ensures
        (crate::llm::choice_text(v, "delta"@, "content"@) matches Some(d) && d.len() > 0)
            ==> forward_next(run, ForwardEvent::Parsed(v)).1 == ForwardAction::Send(
            crate::llm::choice_text(v, "delta"@, "content"@)->0,
        ),
        !(crate::llm::choice_text(v, "delta"@, "content"@) matches Some(d) && d.len() > 0)
            ==> !(forward_next(run, ForwardEvent::Parsed(v)).1 is Send),
        forward_next(run, ForwardEvent::Dropped).1 == ForwardAction::Finish(
            LastWord::<Seq<char>>::Silence,
        ),
        forward_next(run, ForwardEvent::Ended).1 == ForwardAction::Finish(
            LastWord::<Seq<char>>::Complete,
        ),
        forward_next(run, ForwardEvent::Broken(e)).1 == ForwardAction::Finish(
            LastWord::Failed("Stream error: "@ + e),
        ),
        forward_next(run, ForwardEvent::NotParsed(e)).1 == ForwardAction::Finish(
            LastWord::Failed("Failed to parse SSE data: "@ + e),
        ),
{
}

/// Data that is not the end mark is parsed, the end mark completes the reply, and
/// without data more is read; what is not used yet is kept.
pub proof fn law_chunks_are_searched(run: ForwardRun<Seq<char>>, chunk: Seq<char>)
    requires
        !run.over,
    ensures
        ({
            let (data, rest) = next_data(run.buf + chunk);
            let (after, action) = forward_next(run, ForwardEvent::Chunk(chunk));
            &&& after.buf == rest
            &&& data is None ==> action is Read
            &&& data matches Some(d) ==> if d == "[DONE]"@ {
                action == ForwardAction::Finish(LastWord::<Seq<char>>::Complete)
            } else {
                action == ForwardAction::Parse(d)
            }
        }),
{
}

} // verus!
