//! Reading a streamed reply: server-sent events are cut into payloads, and the
//! payloads are gathered into the reply.

use vstd::prelude::*;

use crate::json::{object, put, same_text, text, Json, JsonView};
use crate::llm::strip_fences_for_json_mode;
use crate::outside::{json_text, parse_json};
use crate::text::{from_chars, strip_prefix, to_chars, trim};

verus! {

/// The payload of the first complete data line of a buffer, and what follows
/// that line. Lines of another sort are passed over; without a complete data
/// line there is no payload, and what follows the last complete line remains.
pub open spec fn next_data(buf: Seq<char>) -> (Option<Seq<char>>, Seq<char>)
    decreases buf.len(),
{
    let k = crate::text::index_of_char(buf, '\n');
    if k < 0 || k >= buf.len() {
        (None, buf)
    } else {
        let line = crate::text::trim_of(buf.take(k));
        let rest = buf.skip(k + 1);
        match crate::text::strip_prefix_of(line, "data: "@) {
            Some(data) => (Some(data), rest),
            None => next_data(rest),
        }
    }
}

/// Where the reading of a reply stands.
#[derive(Debug)]
pub struct StreamRun<T> {
    /// What has been received and not been read yet.
    pub buf: T,
    /// What the reply holds so far.
    pub accumulated: T,
    /// Why the reply ends, where that is known.
    pub finish_reason: Option<T>,
    /// Whether the reply is over.
    pub over: bool,
}

/// What happened to the stream.
#[derive(Debug)]
pub enum StreamEvent<T, J> {
    /// A piece of text arrived.
    Chunk(T),
    /// The payload is this value.
    Parsed(J),
    /// The payload is not JSON.
    NotParsed(T),
    /// The connection broke.
    Broken(T),
    /// The connection ended.
    Ended,
}

/// How the reading ended.
#[derive(Debug)]
pub enum StreamOutcome<T> {
    /// The reply is complete.
    Complete {
        /// Its text.
        text: T,
        /// Why it ends.
        finish_reason: Option<T>,
    },
    /// The connection broke after part of the reply.
    Partial {
        /// That part.
        text: T,
        /// Why the reply ends.
        finish_reason: Option<T>,
        /// What broke the connection.
        error: T,
    },
    /// A payload could not be read.
    BadPayload {
        /// The error.
        error: T,
        /// The part of the reply before it.
        partial: T,
    },
    /// The connection broke before any of the reply.
    Nothing {
        /// The error.
        error: T,
    },
}

/// What to do next.
#[derive(Debug)]
pub enum StreamAction<T> {
    /// Wait for the next piece of text.
    Read,
    /// Parse this payload as JSON.
    Parse(T),
    /// The reading is over.
    Finish(StreamOutcome<T>),
    /// Nothing.
    Idle,
}

impl View for StreamRun<String> {
    type V = StreamRun<Seq<char>>;

    open spec fn view(&self) -> StreamRun<Seq<char>> {
        StreamRun {
            buf: self.buf@,
            accumulated: self.accumulated@,
            finish_reason: crate::text::opt_view(self.finish_reason),
            over: self.over,
        }
    }
}

impl View for StreamEvent<String, Json> {
    type V = StreamEvent<Seq<char>, JsonView>;

    open spec fn view(&self) -> StreamEvent<Seq<char>, JsonView> {
        match *self {
            StreamEvent::Chunk(t) => StreamEvent::Chunk(t@),
            StreamEvent::Parsed(j) => StreamEvent::Parsed(j@),
            StreamEvent::NotParsed(t) => StreamEvent::NotParsed(t@),
            StreamEvent::Broken(t) => StreamEvent::Broken(t@),
            StreamEvent::Ended => StreamEvent::Ended,
        }
    }
}

impl View for StreamOutcome<String> {
    type V = StreamOutcome<Seq<char>>;

    open spec fn view(&self) -> StreamOutcome<Seq<char>> {
        match *self {
            StreamOutcome::Complete { text, finish_reason } => StreamOutcome::Complete {
                text: text@,
                finish_reason: crate::text::opt_view(finish_reason),
            },
            StreamOutcome::Partial { text, finish_reason, error } => StreamOutcome::Partial {
                text: text@,
                finish_reason: crate::text::opt_view(finish_reason),
                error: error@,
            },
            StreamOutcome::BadPayload { error, partial } => StreamOutcome::BadPayload {
                error: error@,
                partial: partial@,
            },
            StreamOutcome::Nothing { error } => StreamOutcome::Nothing { error: error@ },
        }
    }
}

impl View for StreamAction<String> {
    type V = StreamAction<Seq<char>>;

    open spec fn view(&self) -> StreamAction<Seq<char>> {
        match *self {
            StreamAction::Read => StreamAction::Read,
            StreamAction::Parse(t) => StreamAction::Parse(t@),
            StreamAction::Finish(o) => StreamAction::Finish(o@),
            StreamAction::Idle => StreamAction::Idle,
        }
    }
}

/// The reading with the step that it takes.
pub type StreamMove = (StreamRun<Seq<char>>, StreamAction<Seq<char>>);

/// The reading is over.
pub open spec fn ended(run: StreamRun<Seq<char>>, outcome: StreamOutcome<Seq<char>>) -> StreamMove {
    (StreamRun { over: true, ..run }, StreamAction::Finish(outcome))
}

/// The reply is complete; in JSON mode a code fence around it goes.
pub open spec fn completed(run: StreamRun<Seq<char>>, json_mode: bool) -> StreamMove {
    ended(
        run,
        StreamOutcome::Complete {
            text: if json_mode {
                crate::llm::unfenced(run.accumulated)
            } else {
                run.accumulated
            },
            finish_reason: run.finish_reason,
        },
    )
}

/// The next payload of the buffer is to be parsed; at the end mark the reply is
/// complete; without a payload more text is needed.
pub open spec fn scan(run: StreamRun<Seq<char>>, json_mode: bool) -> StreamMove {
    let (data, rest) = next_data(run.buf);
    let read = StreamRun { buf: rest, ..run };
    match data {
        Some(d) => if d == "[DONE]"@ {
            completed(read, json_mode)
        } else {
            (read, StreamAction::Parse(d))
        },
        None => (read, StreamAction::Read),
    }
}

/// The reply with what a payload adds to it.
pub open spec fn absorbed(run: StreamRun<Seq<char>>, v: JsonView) -> StreamRun<Seq<char>> {
    StreamRun {
        finish_reason: match crate::llm::finish_reason_of(v) {
            Some(r) => if r.len() > 0 {
                Some(r)
            } else {
                run.finish_reason
            },
            None => run.finish_reason,
        },
        accumulated: match crate::llm::choice_text(v, "delta"@, "content"@) {
            Some(d) => run.accumulated + d,
            None => run.accumulated,
        },
        ..run
    }
}

/// What the reading does when something happens. Nothing happens after its end.
pub open spec fn stream_next(
    run: StreamRun<Seq<char>>,
    json_mode: bool,
    event: StreamEvent<Seq<char>, JsonView>,
) -> StreamMove {
    if run.over {
        (run, StreamAction::Idle)
    } else {
        match event {
            StreamEvent::Chunk(t) => scan(StreamRun { buf: run.buf + t, ..run }, json_mode),
            StreamEvent::Parsed(v) => scan(absorbed(run, v), json_mode),
            StreamEvent::NotParsed(e) => ended(
                run,
                StreamOutcome::BadPayload {
                    error: "Failed to parse SSE data: "@ + e,
                    partial: run.accumulated,
                },
            ),
            StreamEvent::Broken(e) => if run.accumulated.len() == 0 {
                ended(run, StreamOutcome::Nothing { error: "Stream error: "@ + e })
            } else {
                ended(
                    run,
                    StreamOutcome::Partial {
                        text: run.accumulated,
                        finish_reason: run.finish_reason,
                        error: "Stream interrupted: "@ + e,
                    },
                )
            },
            StreamEvent::Ended => completed(run, json_mode),
        }
    }
}

/// The payload of the first complete data line of a buffer, and the rest.
pub fn take_data(buf: &str) -> (r: (Option<String>, String))
    ensures
        (crate::text::opt_view(r.0), r.1@) == next_data(buf@),
{
    let chars = to_chars(buf);
    let n: usize = chars.len();
    let mut start: usize = 0;
    let mut i: usize = 0;
    assert(chars@.skip(0) == chars@);
    while i < n
        invariant
            0 <= start <= i <= n,
            n == chars@.len(),
            chars@ == buf@,
            forall|k: int| start <= k < i ==> chars@[k] != '\n',
            next_data(chars@.skip(start as int)) == next_data(buf@),
        decreases n - i,
    {
        if chars[i] == '\n' {
            let ghost rest = chars@.skip(start as int);
            let ghost k = i - start;
            proof {
                crate::text::lemma_index_of_char_unique(rest, '\n', k);
                assert(rest.skip(k + 1) == chars@.skip(i + 1));
                assert(rest.take(k) == chars@.subrange(start as int, i as int));
            }
            let line = trim(from_chars(&chars, start, i).as_str());
            match strip_prefix(line.as_str(), "data: ") {
                Some(data) => {
                    let after = from_chars(&chars, i + 1, n);
                    assert(after@ == chars@.skip(i + 1));
                    return (Some(data), after);
                },
                None => {},
            }
            i = i + 1;
            start = i;
        } else {
            i = i + 1;
        }
    }
    let ghost rest = chars@.skip(start as int);
    proof {
        crate::text::lemma_index_of_char_unique(rest, '\n', rest.len() as int);
    }
    let after = from_chars(&chars, start, n);
    assert(after@ == rest);
    (None, after)
}

impl StreamRun<String> {
    /// A reply of which nothing has arrived.
    pub fn new() -> (r: StreamRun<String>)
        ensures
            r@ == (StreamRun {
                buf: Seq::<char>::empty(),
                accumulated: Seq::<char>::empty(),
                finish_reason: None,
                over: false,
            }),
    {
        StreamRun {
            buf: String::new(),
            accumulated: String::new(),
            finish_reason: None,
            over: false,
        }
    }

    fn complete(&mut self, json_mode: bool) -> (r: StreamAction<String>)
        ensures
            (final(self)@, r@) == completed(old(self)@, json_mode),
    {
        self.over = true;
        let text = if json_mode {
            strip_fences_for_json_mode(self.accumulated.as_str())
        } else {
            self.accumulated.clone()
        };
        StreamAction::Finish(
            StreamOutcome::Complete { text, finish_reason: self.finish_reason.clone() },
        )
    }

    fn scan(&mut self, json_mode: bool) -> (r: StreamAction<String>)
        ensures
            (final(self)@, r@) == scan(old(self)@, json_mode),
    {
        let (data, rest) = take_data(self.buf.as_str());
        self.buf = rest;
        match data {
            Some(d) => {
                if same_text(d.as_str(), "[DONE]") {
                    self.complete(json_mode)
                } else {
                    StreamAction::Parse(d)
                }
            },
            None => StreamAction::Read,
        }
    }

    fn absorb(&mut self, v: &Json)
        ensures
            final(self)@ == absorbed(old(self)@, v@),
    {
        if let Some(reason) = crate::llm::finish_reason_in(v) {
            if !reason.as_str().is_empty() {
                self.finish_reason = Some(reason);
            }
        }
        if let Some(delta) = crate::llm::choice_text_in(v, "delta", "content") {
            self.accumulated.push_str(delta.as_str());
        }
    }

    /// Take note of what happened to the stream, and say what to do next.
    pub fn step(&mut self, json_mode: bool, event: StreamEvent<String, Json>) -> (r: StreamAction<
        String,
    >)
        ensures
            (final(self)@, r@) == stream_next(old(self)@, json_mode, event@),
    {
        if self.over {
            return StreamAction::Idle;
        }
        match event {
            StreamEvent::Chunk(t) => {
                self.buf.push_str(t.as_str());
                self.scan(json_mode)
            },
            StreamEvent::Parsed(v) => {
                self.absorb(&v);
                self.scan(json_mode)
            },
            StreamEvent::NotParsed(e) => {
                self.over = true;
                let mut error = "Failed to parse SSE data: ".to_owned();
                error.push_str(e.as_str());
                StreamAction::Finish(
                    StreamOutcome::BadPayload { error, partial: self.accumulated.clone() },
                )
            },
            StreamEvent::Broken(e) => {
                self.over = true;
                if self.accumulated.as_str().is_empty() {
                    let mut error = "Stream error: ".to_owned();
                    error.push_str(e.as_str());
                    StreamAction::Finish(StreamOutcome::Nothing { error })
                } else {
                    let mut error = "Stream interrupted: ".to_owned();
                    error.push_str(e.as_str());
                    StreamAction::Finish(
                        StreamOutcome::Partial {
                            text: self.accumulated.clone(),
                            finish_reason: self.finish_reason.clone(),
                            error,
                        },
                    )
                }
            },
            StreamEvent::Ended => self.complete(json_mode),
        }
    }
}

/// A payload leaves less of the buffer behind.
pub proof fn lemma_rest_is_shorter(buf: Seq<char>)
    ensures
        next_data(buf).0 is Some ==> next_data(buf).1.len() < buf.len(),
        next_data(buf).1.len() <= buf.len(),
    decreases buf.len(),
{
    let k = crate::text::index_of_char(buf, '\n');
    if 0 <= k < buf.len() {
        lemma_rest_is_shorter(buf.skip(k + 1));
    }
}

/// What parsing a payload brings about.
pub open spec fn parsing(data: Seq<char>) -> StreamEvent<Seq<char>, JsonView> {
    match json_text(data) {
        Ok(v) => StreamEvent::Parsed(v),
        Err(e) => StreamEvent::NotParsed(e),
    }
}

/// Where the reading stands once no payload is left to parse.
pub open spec fn settled(m: StreamMove, json_mode: bool) -> StreamMove
    decreases (
        if m.1 is Parse {
            m.0.buf.len() + 1
        } else {
            0
        }
    ),
{
    match m.1 {
        StreamAction::Parse(data) => {
            let next = stream_next(m.0, json_mode, parsing(data));
            proof {
                lemma_rest_is_shorter(m.0.buf);
            }
            settled(next, json_mode)
        },
        _ => m,
    }
}

impl StreamRun<String> {
    /// Take note of what happened to the stream, and parse the payloads that are
    /// there. What is left to do is to wait for more, or the reply is over.
    pub fn read(&mut self, json_mode: bool, event: StreamEvent<String, Json>) -> (r: StreamAction<
        String,
    >)
        ensures
            (final(self)@, r@) == settled(stream_next(old(self)@, json_mode, event@), json_mode),
    {
        let ghost goal = settled(stream_next(self@, json_mode, event@), json_mode);
        let mut action = self.step(json_mode, event);
        loop
            invariant
                settled((self@, action@), json_mode) == goal,
                goal == settled(stream_next(old(self)@, json_mode, event@), json_mode),
            decreases (
                if action@ is Parse {
                    self@.buf.len() + 1
                } else {
                    0
                }
            ),
        {
            match action {
                StreamAction::Parse(data) => {
                    let parsed = match parse_json(data.as_str()) {
                        Ok(v) => StreamEvent::Parsed(v),
                        Err(e) => StreamEvent::NotParsed(e),
                    };
                    proof {
                        lemma_rest_is_shorter(self@.buf);
                    }
                    action = self.step(json_mode, parsed);
                },
                other => {
                    return other;
                },
            }
        }
    }
}

// ---------------------------------------------------------------------------
// What is logged
// ---------------------------------------------------------------------------

/// What the log says of a request.
#[derive(Debug)]
pub struct LogResult {
    /// Whether it succeeded.
    pub status: String,
    /// What came back.
    pub response: Option<Json>,
    /// What went wrong.
    pub error: Option<String>,
}

/// A finish reason as a JSON value.
pub open spec fn reason_json(r: Option<Seq<char>>) -> JsonView {
    match r {
        Some(s) => JsonView::Text(s),
        None => JsonView::Null,
    }
}

/// What the log says of a streamed reply: its status, what came back and what
/// went wrong.
pub open spec fn log_view(o: StreamOutcome<Seq<char>>) -> (Seq<char>, Option<JsonView>, Option<Seq<char>>) {
    match o {
        StreamOutcome::Complete { text, finish_reason } => (
            "succeeded"@,
            Some(
                JsonView::Object(
                    seq![
                        ("content"@, JsonView::Text(text)),
                        ("finish_reason"@, reason_json(finish_reason)),
                    ],
                ),
            ),
            None,
        ),
        StreamOutcome::Partial { text, error, .. } => (
            "partial"@,
            Some(JsonView::Object(seq![("partial_content"@, JsonView::Text(text))])),
            Some(error),
        ),
        StreamOutcome::BadPayload { error, partial } => (
            "failed"@,
            Some(JsonView::Object(seq![("partial_content"@, JsonView::Text(partial))])),
            Some(error),
        ),
        StreamOutcome::Nothing { error } => ("failed"@, None, Some(error)),
    }
}

pub(crate) fn reason_value(r: &Option<String>) -> (v: Json)
    ensures
        v@ == reason_json(crate::text::opt_view(*r)),
{
    match r {
        Some(s) => text(s.as_str()),
        None => Json::Null,
    }
}

fn partial_content(t: &str) -> (r: Json)
    ensures
        r@ == JsonView::Object(seq![("partial_content"@, JsonView::Text(t@))]),
{
    let mut members: Vec<(String, Json)> = Vec::new();
    assert(crate::json::members_view(members@) =~= Seq::empty());
    put(&mut members, "partial_content", text(t));
    assert(crate::json::members_view(members@) =~= seq![
        ("partial_content"@, JsonView::Text(t@)),
    ]);
    object(members)
}

/// What the log says of a streamed reply.
pub fn log_result(o: &StreamOutcome<String>) -> (r: LogResult)
    ensures
        (
            r.status@,
            match r.response {
                Some(j) => Some(j@),
                None => None,
            },
            crate::text::opt_view(r.error),
        ) == log_view(o@),
{
    match o {
        StreamOutcome::Complete { text: t, finish_reason } => {
            let mut members: Vec<(String, Json)> = Vec::new();
            assert(crate::json::members_view(members@) =~= Seq::empty());
            put(&mut members, "content", text(t.as_str()));
            put(&mut members, "finish_reason", reason_value(finish_reason));
            assert(crate::json::members_view(members@) =~= seq![
                ("content"@, JsonView::Text(t@)),
                ("finish_reason"@, reason_json(crate::text::opt_view(*finish_reason))),
            ]);
            LogResult { status: "succeeded".to_owned(), response: Some(object(members)), error: None }
        },
        StreamOutcome::Partial { text: t, finish_reason: _, error } => LogResult {
            status: "partial".to_owned(),
            response: Some(partial_content(t.as_str())),
            error: Some(error.clone()),
        },
        StreamOutcome::BadPayload { error, partial } => LogResult {
            status: "failed".to_owned(),
            response: Some(partial_content(partial.as_str())),
            error: Some(error.clone()),
        },
        StreamOutcome::Nothing { error } => LogResult {
            status: "failed".to_owned(),
            response: None,
            error: Some(error.clone()),
        },
    }
}

// ---------------------------------------------------------------------------
// Laws
// ---------------------------------------------------------------------------

/// Where the pieces of a stream are cut does not matter: a payload that is
/// found in a buffer is found in it however it goes on, and where none is found
/// the search goes on from what is kept of the buffer.
pub proof fn law_cuts_do_not_matter(a: Seq<char>, b: Seq<char>)
    ensures
        next_data(a).0 is Some ==> next_data(a + b) == (next_data(a).0, next_data(a).1 + b),
        next_data(a).0 is None ==> next_data(a + b) == next_data(next_data(a).1 + b),
    decreases a.len(),
{
    let k = crate::text::index_of_char(a, '\n');
    crate::text::lemma_index_of_char(a, '\n');
    if k < a.len() {
        assert((a + b)[k] == a[k]);
        assert forall|i: int| 0 <= i < k implies (a + b)[i] != '\n' by {
            assert((a + b)[i] == a[i]);
        }
        crate::text::lemma_index_of_char_unique(a + b, '\n', k);
        assert((a + b).take(k) == a.take(k));
        assert((a + b).skip(k + 1) == a.skip(k + 1) + b);
        law_cuts_do_not_matter(a.skip(k + 1), b);
    }
}

/// The reply never loses text, and a reading that is over stays as it is.
pub proof fn law_reply_only_grows(
    run: StreamRun<Seq<char>>,
    json_mode: bool,
    event: StreamEvent<Seq<char>, JsonView>,
)
    ensures
        run.accumulated.len() <= stream_next(run, json_mode, event).0.accumulated.len(),
        stream_next(run, json_mode, event).0.accumulated.take(run.accumulated.len() as int)
            == run.accumulated,
        run.over ==> stream_next(run, json_mode, event).0 == run,
{
    assert(stream_next(run, json_mode, event).0.accumulated.take(run.accumulated.len() as int)
        =~= run.accumulated);
}

/// A line of a stream that holds data gives the data, and what follows the line is left;
/// any other line is passed over; and a line that has not ended is left whole.
pub proof fn law_data_lines_are_found(line: Seq<char>, rest: Seq<char>)
    requires
        !line.contains('\n'),
    ensures
        ({
            let t = crate::text::trim_of(line);
            &&& crate::text::starts_with_of(t, "data: "@) ==> next_data(line + seq!['\n'] + rest) == (
                Some(t.skip(6)),
                rest,
            )
            &&& !crate::text::starts_with_of(t, "data: "@) ==> next_data(line + seq!['\n'] + rest)
                == next_data(rest)
            &&& next_data(line) == (None::<Seq<char>>, line)
        }),
{
    reveal_strlit("data: ");
    let n = line.len() as int;
    assert forall|j: int| 0 <= j < n implies line[j] != '\n' by {
        assert(line.contains(line[j]));
    }
    let s = line + seq!['\n'] + rest;
    crate::text::lemma_index_of_char_unique(s, '\n', n);
    crate::text::lemma_index_of_char_unique(line, '\n', n);
    assert(s.take(n) =~= line);
    assert(s.skip(n + 1) =~= rest);
}

/// The text of a stream that is read: what the deltas of the parsed data say, one after
/// the other, and nothing else.
pub open spec fn deltas(vs: Seq<JsonView>) -> Seq<char>
    decreases vs.len(),
{
    if vs.len() == 0 {
        Seq::empty()
    } else {
        deltas(vs.drop_last()) + (match crate::llm::choice_text(
            vs.last(),
            "delta"@,
            "content"@,
        ) {
            Some(d) => d,
            None => Seq::empty(),
        })
    }
}

/// A stream gives what its deltas say: each piece of parsed data adds its delta to the
/// text; reaching the end completes the reply with all of it, and a stream that breaks
/// leaves what came, or nothing where nothing came.
pub proof fn law_reply_is_the_sum_of_its_deltas(
    run: StreamRun<Seq<char>>,
    vs: Seq<JsonView>,
    v: JsonView,
    e: Seq<char>,
)
    requires
        !run.over,
        run.accumulated == deltas(vs),
    ensures
        stream_next(run, false, StreamEvent::Parsed(v)).0.accumulated == deltas(vs.push(v)),
        stream_next(run, false, StreamEvent::Ended).1 == StreamAction::Finish(
            StreamOutcome::Complete { text: deltas(vs), finish_reason: run.finish_reason },
        ),
        stream_next(run, true, StreamEvent::Ended).1 == StreamAction::Finish(
            StreamOutcome::Complete {
                text: crate::llm::unfenced(deltas(vs)),
                finish_reason: run.finish_reason,
            },
        ),
        deltas(vs).len() > 0 ==> stream_next(run, false, StreamEvent::Broken(e)).1
            == StreamAction::Finish(
            StreamOutcome::Partial {
                text: deltas(vs),
                finish_reason: run.finish_reason,
                error: "Stream interrupted: "@ + e,
            },
        ),
        deltas(vs).len() == 0 ==> stream_next(run, false, StreamEvent::Broken(e)).1
            == StreamAction::Finish(StreamOutcome::Nothing { error: "Stream error: "@ + e }),
        stream_next(run, false, StreamEvent::NotParsed(e)).1 == StreamAction::Finish(
            StreamOutcome::BadPayload {
                error: "Failed to parse SSE data: "@ + e,
                partial: deltas(vs),
            },
        ),
{
    assert(vs.push(v).drop_last() =~= vs);
    assert(deltas(vs) + Seq::<char>::empty() =~= deltas(vs));
}

/// What is read next: data that is not the end mark is parsed, the end mark completes
/// the reply, and without data more is read. Nothing of what was read is dropped: what
/// is not used yet is kept for later.
pub proof fn law_chunks_are_searched(run: StreamRun<Seq<char>>, chunk: Seq<char>, json_mode: bool)
    requires
        !run.over,
    ensures
        ({
            let (data, rest) = next_data(run.buf + chunk);
            let (after, action) = stream_next(run, json_mode, StreamEvent::Chunk(chunk));
            &&& after.buf == rest
            &&& after.accumulated == run.accumulated
            &&& data is None ==> action is Read
            &&& data matches Some(d) ==> if d == "[DONE]"@ {
                action is Finish && after.over
            } else {
                action == StreamAction::Parse(d)
            }
        }),
{
}

/// The last reason to stop that was given is the one that counts.
pub proof fn law_last_reason_counts(run: StreamRun<Seq<char>>, v: JsonView)
    ensures
        (crate::llm::finish_reason_of(v) matches Some(r) && r.len() > 0) ==> absorbed(
            run,
            v,
        ).finish_reason == crate::llm::finish_reason_of(v),
        crate::llm::finish_reason_of(v) is None ==> absorbed(run, v).finish_reason
            == run.finish_reason,
{
}

/// The log of a reply: whether it succeeded, what came of it, and what went wrong.
pub proof fn law_log_of_an_outcome(text: Seq<char>, reason: Option<Seq<char>>, e: Seq<char>)
    ensures
        log_view(StreamOutcome::Complete { text, finish_reason: reason }).0 == "succeeded"@,
        log_view(StreamOutcome::Complete { text, finish_reason: reason }).1 matches Some(r)
            && crate::json::member(r, "content"@) == Some(JsonView::Text(text)),
        log_view(StreamOutcome::Complete { text, finish_reason: reason }).2 is None,
        log_view(StreamOutcome::Partial { text, finish_reason: reason, error: e }).0 == "partial"@,
        log_view(StreamOutcome::Partial { text, finish_reason: reason, error: e }).2 == Some(e),
        log_view(StreamOutcome::Partial { text, finish_reason: reason, error: e }).1 matches Some(r)
            && crate::json::member(r, "partial_content"@) == Some(JsonView::Text(text)),
        log_view(StreamOutcome::BadPayload { error: e, partial: text }).0 == "failed"@,
        log_view(StreamOutcome::BadPayload { error: e, partial: text }).2 == Some(e),
        log_view(StreamOutcome::Nothing { error: e }) == (
            "failed"@,
            None::<JsonView>,
            Some(e),
        ),
{
    let whole = seq![("content"@, JsonView::Text(text)), ("finish_reason"@, reason_json(reason))];
    crate::json::law_member_is_the_first(whole, "content"@, 0);
    let part = seq![("partial_content"@, JsonView::Text(text))];
    crate::json::law_member_is_the_first(part, "partial_content"@, 0);
}

} // verus!
