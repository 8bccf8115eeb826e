//! Reference Digest generation: one request, or one for each source and a merge,
//! and a second try where the digest is poor.

use vstd::prelude::*;

use crate::json::{flag, number, object, put, text, Json, JsonView};
use crate::process::{OutputChange, ProcessStatus};
use crate::processors::context::{join_sections, joined_sections};
use crate::processors::sheet_run::Request;
use crate::prompts::ref_digest::{build_ref_digest_system_prompt, build_ref_digest_user_prompt};
use crate::text::{char_count, first_chars, opt_view, take_chars, views};

verus! {

/// The system prompt for merging digest sections.
pub const MERGE_SYSTEM: &'static str = "\
    You are an editor merging Reference Digest sections into one cohesive, detailed \
    Markdown document.\nNormalize: heading hierarchy (## for top sections, ### for \
    subsections), terminology consistency, formula formatting, remove duplicate content, \
    and add smooth transitions between sections.\nDo not add new facts - only reorganize \
    and normalize the provided content.\nDefault language: Chinese, preserving English \
    technical terms, formulas, symbols, and code identifiers.";

/// What asks for merged sections, before them.
pub const MERGE_START: &'static str =
    "Merge and normalize these Reference Digest sections into one complete Markdown document:\n\n";

/// What asks for merged sections, behind them.
pub const MERGE_END: &'static str = "\n\nReturn only Markdown.";

/// The mark of the request for merged sections within a longer conversation.
pub const MERGE_STAGE: &'static str = "STAGE 1 — REFERENCE DIGEST (MERGE).\n\n";

/// What announces a note within that request.
pub const NOTE_STYLE: &'static str = "Reference Note (style/structure reference):\n\n";

/// How many characters of the sections a merge request may hold.
pub const MERGE_LIMIT: usize = 160000;

/// How many characters of transcripts one request may hold.
pub const CONTEXT_LIMIT: usize = 100000;

/// What a digest is made from.
#[derive(Debug)]
pub struct DigestJob {
    /// Whether the digest is the first stage of a longer conversation.
    pub unified: bool,
    /// Whether one request does.
    pub single: bool,
    /// The note that sets structure and style, where there is one.
    pub note: Option<String>,
    /// All transcripts.
    pub context: String,
    /// The contexts of the single sources.
    pub sections: Vec<String>,
    /// The pages of the cheat sheet that is made from the digest.
    pub max_pages: usize,
}

/// Whether the transcripts fit in one request: they are not too long and not
/// from more than two sources.
pub fn fits_in_one_call(context: &str, source_count: usize) -> (r: bool)
    ensures
        r == (context@.len() <= CONTEXT_LIMIT && source_count <= 2),
{
    char_count(context) <= CONTEXT_LIMIT && source_count <= 2
}

/// What the progress of a digest shows while it is made: in one request or section by
/// section, and together with cheat sheets or not.
pub open spec fn digest_label(unified: bool, single: bool) -> Seq<char> {
    if !single {
        "generating section digests"@
    } else if unified {
        "generating digest (unified)"@
    } else {
        "generating digest"@
    }
}

/// What the progress of a digest shows while it is made.
pub fn label_of_digest(unified: bool, single: bool) -> (r: &'static str)
    ensures
        r@ == digest_label(unified, single),
{
    if !single {
        "generating section digests"
    } else if unified {
        "generating digest (unified)"
    } else {
        "generating digest"
    }
}

/// What the generation waits for.
#[derive(Debug, Clone, Copy, PartialEq, Eq, Structural)]
pub enum DigestPhase {
    /// To be started.
    Start,
    /// The digest.
    Single,
    /// The digest of one source.
    Section,
    /// The merged digest.
    Merging,
    /// The verdict on the digest.
    Checking,
    /// A better digest.
    Retrying,
    /// Nothing: the generation is over.
    Finished,
}

/// Where the generation stands. `L` is a list of `T`.
#[derive(Debug)]
pub struct DigestRun<T, L> {
    /// What it waits for.
    pub phase: DigestPhase,
    /// The source that it is at.
    pub index: usize,
    /// The digests of the sources before.
    pub digests: L,
    /// The digest.
    pub markdown: T,
}

/// What happened.
#[derive(Debug)]
pub enum DigestEvent<T> {
    /// The generation begins.
    Begin,
    /// A reply came.
    Reply(T),
    /// No reply came.
    NoReply(T),
    /// Whether the digest is good enough.
    Quality(bool),
}

/// What to do next.
#[derive(Debug)]
pub enum DigestAction<T> {
    /// Send a request for at most `max_tokens` tokens. The temperature is in
    /// hundredths.
    Ask {
        /// The request.
        request: Request<T>,
        /// The sampling temperature, in hundredths.
        temperature: u32,
        /// The most tokens that the reply may have.
        max_tokens: u32,
    },
    /// Judge a digest of so many characters.
    Check {
        /// The characters of the digest.
        digest_chars: usize,
        /// The characters of the transcripts.
        source_chars: usize,
        /// The pages of the cheat sheet.
        max_pages: usize,
    },
    /// Ask for a better digest of at least `target_min` characters.
    Retry {
        /// The digest so far.
        markdown: T,
        /// The characters of the transcripts.
        source_chars: usize,
        /// The characters of the digest.
        digest_chars: usize,
        /// The least that is asked for.
        target_min: usize,
    },
    /// The digest is done.
    Done(T),
    /// There is no digest, for this reason.
    Failed(T),
    /// Nothing.
    Idle,
}

impl View for DigestRun<String, Vec<String>> {
    type V = DigestRun<Seq<char>, Seq<Seq<char>>>;

    open spec fn view(&self) -> DigestRun<Seq<char>, Seq<Seq<char>>> {
        DigestRun {
            phase: self.phase,
            index: self.index,
            digests: views(self.digests@),
            markdown: self.markdown@,
        }
    }
}

impl View for DigestEvent<String> {
    type V = DigestEvent<Seq<char>>;

    open spec fn view(&self) -> DigestEvent<Seq<char>> {
        match *self {
            DigestEvent::Begin => DigestEvent::Begin,
            DigestEvent::Reply(t) => DigestEvent::Reply(t@),
            DigestEvent::NoReply(t) => DigestEvent::NoReply(t@),
            DigestEvent::Quality(b) => DigestEvent::Quality(b),
        }
    }
}

impl View for DigestAction<String> {
    type V = DigestAction<Seq<char>>;

    open spec fn view(&self) -> DigestAction<Seq<char>> {
        match *self {
            DigestAction::Ask { request, temperature, max_tokens } => DigestAction::Ask {
                request: request@,
                temperature,
                max_tokens,
            },
            DigestAction::Check { digest_chars, source_chars, max_pages } => DigestAction::Check {
                digest_chars,
                source_chars,
                max_pages,
            },
            DigestAction::Retry { markdown, source_chars, digest_chars, target_min } =>
                DigestAction::Retry {
                markdown: markdown@,
                source_chars,
                digest_chars,
                target_min,
            },
            DigestAction::Done(t) => DigestAction::Done(t@),
            DigestAction::Failed(t) => DigestAction::Failed(t@),
            DigestAction::Idle => DigestAction::Idle,
        }
    }
}

/// The view of a generation.
pub type DigestState = DigestRun<Seq<char>, Seq<Seq<char>>>;

/// A generation with the step that it takes.
pub type DigestMove = (DigestState, DigestAction<Seq<char>>);

/// A request about this text: within the conversation, or on its own.
pub open spec fn digest_request(job: DigestJob, context: Seq<char>, fresh: bool) -> Request<Seq<char>> {
    let user = crate::prompts::ref_digest::user_prompt(opt_view(job.note), context);
    if fresh {
        Request::Fresh { system: crate::prompts::ref_digest::SYSTEM_PROMPT@, user }
    } else {
        Request::Turn { user }
    }
}

/// The sections as a merge request holds them.
pub open spec fn merge_text(digests: Seq<Seq<char>>) -> Seq<char> {
    MERGE_START@ + first_chars(joined_sections("digest section"@, digests), MERGE_LIMIT as int)
        + MERGE_END@
}

/// The request for the merged digest.
pub open spec fn merge_request(job: DigestJob, digests: Seq<Seq<char>>) -> Request<Seq<char>> {
    if job.unified {
        let staged = MERGE_STAGE@ + merge_text(digests);
        Request::Turn {
            user: match opt_view(job.note) {
                Some(n) => NOTE_STYLE@ + n + "\n\n---"@ + "\n\n"@ + staged,
                None => staged,
            },
        }
    } else {
        Request::Fresh { system: MERGE_SYSTEM@, user: merge_text(digests) }
    }
}

/// `a` times `b`, or the largest number.
pub open spec fn capped_product(a: int, b: int) -> int {
    if a * b <= usize::MAX {
        a * b
    } else {
        usize::MAX as int
    }
}

/// The least that a better digest is to have: three fifths of what the pages
/// take, and seven and a half percent of the transcripts.
pub open spec fn digest_target(max_pages: usize, source_chars: usize) -> int {
    let pages = capped_product(capped_product(max_pages as int, 11000), 60) / 100;
    let sources = capped_product(source_chars as int, 75) / 1000;
    if pages >= sources {
        pages
    } else {
        sources
    }
}

/// The pages that the verdict goes by.
pub open spec fn judged_pages(job: DigestJob) -> usize {
    if job.unified {
        job.max_pages
    } else {
        2
    }
}

/// The digest is to be judged.
pub open spec fn check(run: DigestState, job: DigestJob, markdown: Seq<char>) -> DigestMove {
    (
        DigestRun { phase: DigestPhase::Checking, markdown, ..run },
        DigestAction::Check {
            digest_chars: markdown.len() as usize,
            source_chars: job.context@.len() as usize,
            max_pages: judged_pages(job),
        },
    )
}

/// The generation ends with a digest.
pub open spec fn digest_done(run: DigestState, markdown: Seq<char>) -> DigestMove {
    (
        DigestRun { phase: DigestPhase::Finished, markdown, ..run },
        DigestAction::Done(markdown),
    )
}

/// The generation ends without a digest.
pub open spec fn digest_failed(run: DigestState, reason: Seq<char>) -> DigestMove {
    (DigestRun { phase: DigestPhase::Finished, ..run }, DigestAction::Failed(reason))
}

/// The next source, or the merge once there are no more.
pub open spec fn next_section(run: DigestState, job: DigestJob) -> DigestMove {
    if run.index < job.sections@.len() {
        (
            DigestRun { phase: DigestPhase::Section, ..run },
            DigestAction::Ask {
                request: digest_request(job, job.sections@[run.index as int]@, true),
                temperature: 25,
                max_tokens: 32768,
            },
        )
    } else if run.digests.len() == 0 {
        digest_failed(run, "All section digest generations failed."@)
    } else {
        (
            DigestRun { phase: DigestPhase::Merging, ..run },
            DigestAction::Ask {
                request: merge_request(job, run.digests),
                temperature: 20,
                max_tokens: 81920,
            },
        )
    }
}

/// What the generation does when something happens. What it does not wait for
/// changes nothing.
pub open spec fn digest_next(run: DigestState, job: DigestJob, event: DigestEvent<Seq<char>>) -> DigestMove {
    match (run.phase, event) {
        (DigestPhase::Start, DigestEvent::Begin) => if job.single {
            (
                DigestRun { phase: DigestPhase::Single, ..run },
                DigestAction::Ask {
                    request: digest_request(job, job.context@, !job.unified),
                    temperature: 25,
                    max_tokens: 81920,
                },
            )
        } else {
            next_section(run, job)
        },
        (DigestPhase::Single, DigestEvent::Reply(md)) => check(run, job, md),
        (DigestPhase::Single, DigestEvent::NoReply(e)) => digest_failed(
            run,
            "Reference Digest generation failed: "@ + e,
        ),
        (DigestPhase::Section, DigestEvent::Reply(md)) => next_section(
            DigestRun {
                index: (run.index + 1) as usize,
                digests: run.digests.push(md),
                ..run
            },
            job,
        ),
        (DigestPhase::Section, DigestEvent::NoReply(_)) => next_section(
            DigestRun { index: (run.index + 1) as usize, ..run },
            job,
        ),
        (DigestPhase::Merging, DigestEvent::Reply(md)) => if job.unified {
            digest_done(run, md)
        } else {
            check(run, job, md)
        },
        (DigestPhase::Merging, DigestEvent::NoReply(e)) => digest_failed(
            run,
            "Reference Digest merge failed: "@ + e,
        ),
        (DigestPhase::Checking, DigestEvent::Quality(good)) => if good {
            digest_done(run, run.markdown)
        } else {
            (
                DigestRun { phase: DigestPhase::Retrying, ..run },
                DigestAction::Retry {
                    markdown: run.markdown,
                    source_chars: job.context@.len() as usize,
                    digest_chars: run.markdown.len() as usize,
                    target_min: digest_target(
                        judged_pages(job),
                        job.context@.len() as usize,
                    ) as usize,
                },
            )
        },
        (DigestPhase::Retrying, DigestEvent::Reply(md)) => digest_done(run, md),
        (DigestPhase::Retrying, DigestEvent::NoReply(_)) => digest_done(run, run.markdown),
        _ => (run, DigestAction::Idle),
    }
}

/// What holds of every generation.
pub open spec fn digest_wf<T, L>(run: DigestRun<T, L>, job: DigestJob) -> bool {
    &&& run.index <= job.sections@.len()
    &&& run.phase == DigestPhase::Section ==> run.index < job.sections@.len()
}

fn capped_mul(a: usize, b: usize) -> (r: usize)
    ensures
        r == capped_product(a as int, b as int),
{
    match a.checked_mul(b) {
        Some(n) => n,
        None => usize::MAX,
    }
}

fn target_of(max_pages: usize, source_chars: usize) -> (r: usize)
    ensures
        r == digest_target(max_pages, source_chars),
{
    let pages: usize = capped_mul(capped_mul(max_pages, 11000), 60) / 100;
    let sources: usize = capped_mul(source_chars, 75) / 1000;
    if pages >= sources {
        pages
    } else {
        sources
    }
}

fn digest_request_of(job: &DigestJob, context: &str, fresh: bool) -> (r: Request<String>)
    ensures
        r@ == digest_request(*job, context@, fresh),
{
    let user = build_ref_digest_user_prompt(&job.note, context, None);
    if fresh {
        Request::Fresh { system: build_ref_digest_system_prompt(), user }
    } else {
        Request::Turn { user }
    }
}

fn merge_request_of(job: &DigestJob, digests: &[String]) -> (r: Request<String>)
    ensures
        r@ == merge_request(*job, views(digests@)),
{
    let joined = join_sections("digest section", digests);
    let mut merge = MERGE_START.to_owned();
    merge.push_str(take_chars(joined.as_str(), MERGE_LIMIT).as_str());
    merge.push_str(MERGE_END);
    if job.unified {
        let mut staged = MERGE_STAGE.to_owned();
        staged.push_str(merge.as_str());
        match &job.note {
            Some(n) => {
                let mut user = NOTE_STYLE.to_owned();
                user.push_str(n.as_str());
                user.push_str("\n\n---");
                user.push_str("\n\n");
                user.push_str(staged.as_str());
                Request::Turn { user }
            },
            None => Request::Turn { user: staged },
        }
    } else {
        Request::Fresh { system: MERGE_SYSTEM.to_owned(), user: merge }
    }
}

impl DigestRun<String, Vec<String>> {
    /// A generation that has not begun.
    pub fn new() -> (r: DigestRun<String, Vec<String>>)
        ensures
            forall|job: DigestJob| digest_wf(r, job),
            r@ == (DigestRun {
                phase: DigestPhase::Start,
                index: 0,
                digests: Seq::<Seq<char>>::empty(),
                markdown: Seq::<char>::empty(),
            }),
    {
        let r = DigestRun {
            phase: DigestPhase::Start,
            index: 0,
            digests: Vec::new(),
            markdown: String::new(),
        };
        assert(views(r.digests@) =~= Seq::<Seq<char>>::empty());
        r
    }

    fn check(&mut self, job: &DigestJob, markdown: String) -> (r: DigestAction<String>)
        ensures
            final(self).index == old(self).index,
            final(self).phase == DigestPhase::Checking,
            (final(self)@, r@) == check(old(self)@, *job, markdown@),
    {
        let digest_chars: usize = char_count(markdown.as_str());
        self.phase = DigestPhase::Checking;
        self.markdown = markdown;
        DigestAction::Check {
            digest_chars,
            source_chars: char_count(job.context.as_str()),
            max_pages: if job.unified {
                job.max_pages
            } else {
                2
            },
        }
    }

    fn done(&mut self, markdown: String) -> (r: DigestAction<String>)
        ensures
            final(self).index == old(self).index,
            final(self).phase == DigestPhase::Finished,
            (final(self)@, r@) == digest_done(old(self)@, markdown@),
    {
        self.phase = DigestPhase::Finished;
        self.markdown = markdown.clone();
        DigestAction::Done(markdown)
    }

    fn failed(&mut self, reason: &str, detail: &str) -> (r: DigestAction<String>)
        ensures
            final(self).index == old(self).index,
            final(self).phase == DigestPhase::Finished,
            (final(self)@, r@) == digest_failed(old(self)@, reason@ + detail@),
    {
        self.phase = DigestPhase::Finished;
        let mut text = reason.to_owned();
        text.push_str(detail);
        DigestAction::Failed(text)
    }

    fn next_section(&mut self, job: &DigestJob) -> (r: DigestAction<String>)
        requires
            old(self).index <= job.sections@.len(),
        ensures
            digest_wf(*final(self), *job),
            (final(self)@, r@) == next_section(old(self)@, *job),
    {
        if self.index < job.sections.len() {
            self.phase = DigestPhase::Section;
            DigestAction::Ask {
                request: digest_request_of(job, job.sections[self.index].as_str(), true),
                temperature: 25,
                max_tokens: 32768,
            }
        } else if self.digests.len() == 0 {
            let r = self.failed("All section digest generations failed.", "");
            proof {
                reveal_strlit("");
                assert("All section digest generations failed."@ + ""@
                    =~= "All section digest generations failed."@);
            }
            r
        } else {
            self.phase = DigestPhase::Merging;
            DigestAction::Ask {
                request: merge_request_of(job, &self.digests),
                temperature: 20,
                max_tokens: 81920,
            }
        }
    }

    fn section_done(&mut self, job: &DigestJob, markdown: Option<String>) -> (r: DigestAction<String>)
        requires
            digest_wf(*old(self), *job),
            old(self).phase == DigestPhase::Section,
        ensures
            digest_wf(*final(self), *job),
            (final(self)@, r@) == next_section(
                DigestRun {
                    index: (old(self).index + 1) as usize,
                    digests: match markdown {
                        Some(md) => old(self)@.digests.push(md@),
                        None => old(self)@.digests,
                    },
                    ..old(self)@
                },
                *job,
            ),
    {
        let n: usize = job.sections.len();
        self.index = self.index + 1;
        if let Some(md) = markdown {
            self.digests.push(md);
            assert(views(self.digests@) =~= old(self)@.digests.push(md@));
        }
        self.next_section(job)
    }

    /// Take note of what happened, and say what to do next.
    pub fn step(&mut self, job: &DigestJob, event: DigestEvent<String>) -> (r: DigestAction<String>)
        requires
            digest_wf(*old(self), *job),
        ensures
            digest_wf(*final(self), *job),
            (final(self)@, r@) == digest_next(old(self)@, *job, event@),
    {
        match (self.phase, event) {
            (DigestPhase::Start, DigestEvent::Begin) => {
                if job.single {
                    self.phase = DigestPhase::Single;
                    DigestAction::Ask {
                        request: digest_request_of(job, job.context.as_str(), !job.unified),
                        temperature: 25,
                        max_tokens: 81920,
                    }
                } else {
                    self.next_section(job)
                }
            },
            (DigestPhase::Single, DigestEvent::Reply(md)) => self.check(job, md),
            (DigestPhase::Single, DigestEvent::NoReply(e)) => {
                self.failed("Reference Digest generation failed: ", e.as_str())
            },
            (DigestPhase::Section, DigestEvent::Reply(md)) => self.section_done(job, Some(md)),
            (DigestPhase::Section, DigestEvent::NoReply(_)) => self.section_done(job, None),
            (DigestPhase::Merging, DigestEvent::Reply(md)) => {
                if job.unified {
                    self.done(md)
                } else {
                    self.check(job, md)
                }
            },
            (DigestPhase::Merging, DigestEvent::NoReply(e)) => {
                self.failed("Reference Digest merge failed: ", e.as_str())
            },
            (DigestPhase::Checking, DigestEvent::Quality(good)) => {
                let markdown = self.markdown.clone();
                if good {
                    self.done(markdown)
                } else {
                    self.phase = DigestPhase::Retrying;
                    let source_chars: usize = char_count(job.context.as_str());
                    let digest_chars: usize = char_count(markdown.as_str());
                    let pages: usize = if job.unified {
                        job.max_pages
                    } else {
                        2
                    };
                    DigestAction::Retry {
                        markdown,
                        source_chars,
                        digest_chars,
                        target_min: target_of(pages, source_chars),
                    }
                }
            },
            (DigestPhase::Retrying, DigestEvent::Reply(md)) => self.done(md),
            (DigestPhase::Retrying, DigestEvent::NoReply(_)) => {
                let markdown = self.markdown.clone();
                self.done(markdown)
            },
            _ => DigestAction::Idle,
        }
    }
}

// ---------------------------------------------------------------------------
// What is recorded
// ---------------------------------------------------------------------------

/// How many sources of each kind went into a digest.
pub open spec fn source_counts(note: bool, days: usize, courses: usize) -> JsonView {
    JsonView::Object(
        seq![
            ("note"@, JsonView::Bool(note)),
            ("transcript_day"@, JsonView::Number(days as u64)),
            ("transcript_course"@, JsonView::Number(courses as u64)),
        ],
    )
}

/// Build the counts of the sources of a digest.
pub fn count_sources(note: bool, days: usize, courses: usize) -> (r: Json)
    ensures
        r@ == source_counts(note, days, courses),
{
    let mut members: Vec<(String, Json)> = Vec::new();
    assert(crate::json::members_view(members@) =~= Seq::empty());
    put(&mut members, "note", flag(note));
    put(&mut members, "transcript_day", number(days));
    put(&mut members, "transcript_course", number(courses));
    let r = object(members);
    assert(r@->Object_0 =~= source_counts(note, days, courses)->Object_0);
    r
}

/// The metadata of a digest that is there.
pub open spec fn digest_metadata(note_used: bool, counts: JsonView, generated_chars: usize) -> JsonView {
    JsonView::Object(
        seq![
            ("progress_current"@, JsonView::Number(2)),
            ("progress_total"@, JsonView::Number(2)),
            ("progress_label"@, JsonView::Text("complete"@)),
            ("source_note_used"@, JsonView::Bool(note_used)),
            ("source_counts"@, counts),
            ("generated_chars"@, JsonView::Number(generated_chars as u64)),
        ],
    )
}

fn build_digest_metadata(note_used: bool, counts: Json, generated_chars: usize) -> (r: Json)
    ensures
        r@ == digest_metadata(note_used, counts@, generated_chars),
{
    let mut members: Vec<(String, Json)> = Vec::new();
    assert(crate::json::members_view(members@) =~= Seq::empty());
    put(&mut members, "progress_current", number(2));
    put(&mut members, "progress_total", number(2));
    put(&mut members, "progress_label", text("complete"));
    put(&mut members, "source_note_used", flag(note_used));
    put(&mut members, "source_counts", counts);
    put(&mut members, "generated_chars", number(generated_chars));
    let r = object(members);
    assert(r@->Object_0 =~= digest_metadata(note_used, counts@, generated_chars)->Object_0);
    r
}

/// The error for an output that could not be written.
pub fn write_error(error: &str) -> (r: String)
    ensures
        r@ == "Failed to write output: "@ + error@,
{
    let mut out = "Failed to write output: ".to_owned();
    out.push_str(error);
    out
}

/// How an output changes after its digest was written, or could not be. A base
/// is recorded only where one is given.
pub fn digest_written(
    written: Result<(), String>,
    markdown: &str,
    note_used: bool,
    counts: Json,
    base_source_id: Option<Option<String>>,
    now: String,
) -> (r: OutputChange)
    ensures
        match written {
            Ok(_) => {
                &&& r.status == Some(ProcessStatus::Ready)
                &&& r.last_error == Some(None::<String>)
                &&& r.path is None
                &&& r.diff_path is None
                &&& r.base_source_id == base_source_id
                &&& r.metadata matches Some(m) && m@ == digest_metadata(
                    note_used,
                    counts@,
                    markdown@.len() as usize,
                )
                &&& r.updated_at == Some(now)
            },
            Err(e) => {
                &&& r.status == Some(ProcessStatus::Failed)
                &&& r.last_error matches Some(Some(t)) && t@ == "Failed to write output: "@ + e@
                &&& r.path is None
                &&& r.diff_path is None
                &&& r.base_source_id is None
                &&& r.metadata is None
                &&& r.updated_at is None
            },
        },
{
    match written {
        Ok(_) => OutputChange {
            status: Some(ProcessStatus::Ready),
            last_error: Some(None),
            path: None,
            diff_path: None,
            base_source_id,
            metadata: Some(build_digest_metadata(note_used, counts, char_count(markdown))),
            updated_at: Some(now),
        },
        Err(e) => OutputChange::failed(write_error(e.as_str()), None),
    }
}

// ---------------------------------------------------------------------------
// Laws
// ---------------------------------------------------------------------------

/// How far a generation is from its end.
pub open spec fn digest_distance(run: DigestState, job: DigestJob) -> int {
    match run.phase {
        DigestPhase::Start => job.sections@.len() as int + 5,
        DigestPhase::Section => job.sections@.len() - run.index + 4,
        DigestPhase::Single => 4,
        DigestPhase::Merging => 3,
        DigestPhase::Checking => 2,
        DigestPhase::Retrying => 1,
        DigestPhase::Finished => 0,
    }
}

/// Every step brings the generation closer to its end, or the event was not
/// awaited and nothing changes. So it makes at most one request for each source,
/// one to merge and one to improve.
pub proof fn law_digest_ends(run: DigestState, job: DigestJob, event: DigestEvent<Seq<char>>)
    requires
        digest_wf(run, job),
        job.sections@.len() <= usize::MAX,
    ensures
        digest_wf(digest_next(run, job, event).0, job),
        0 <= digest_distance(run, job),
        digest_next(run, job, event).1 is Idle ==> digest_next(run, job, event).0 == run,
        !(digest_next(run, job, event).1 is Idle) ==> digest_distance(
            digest_next(run, job, event).0,
            job,
        ) < digest_distance(run, job),
{
}

/// Once there is a digest it is not lost: a poor verdict or a second try
/// without a reply ends with the digest that is there.
pub proof fn law_digest_is_kept(run: DigestState, job: DigestJob, error: Seq<char>)
    requires
        run.phase == DigestPhase::Checking,
    ensures
        digest_next(run, job, DigestEvent::Quality(true)).1 == DigestAction::Done(run.markdown),
        digest_next(
            digest_next(run, job, DigestEvent::Quality(false)).0,
            job,
            DigestEvent::NoReply(error),
        ).1 == DigestAction::Done(run.markdown),
{
}

/// A generation after the first `k` of some events.
pub open spec fn digest_after(
    job: DigestJob,
    events: Seq<DigestEvent<Seq<char>>>,
    k: int,
) -> DigestState
    decreases k,
{
    if k <= 0 {
        DigestRun {
            phase: DigestPhase::Start,
            index: 0,
            digests: Seq::empty(),
            markdown: Seq::empty(),
        }
    } else {
        digest_next(digest_after(job, events, k - 1), job, events[k - 1]).0
    }
}

/// What a generation does at the event with number `k`.
pub open spec fn digest_action(
    job: DigestJob,
    events: Seq<DigestEvent<Seq<char>>>,
    k: int,
) -> DigestAction<Seq<char>> {
    digest_next(digest_after(job, events, k), job, events[k]).1
}

/// Whether events begin a generation that is not done in one request, and bring an
/// answer to each of its first `k` requests.
pub open spec fn answers_sections(
    job: DigestJob,
    events: Seq<DigestEvent<Seq<char>>>,
    k: int,
) -> bool {
    &&& !job.single
    &&& 0 <= k < events.len()
    &&& events[0] is Begin
    &&& forall|j: int| 1 <= j <= k ==> (#[trigger] events[j] is Reply || events[j] is NoReply)
}

/// The replies among the events from one to `k`.
pub open spec fn replies_until(events: Seq<DigestEvent<Seq<char>>>, k: int) -> Seq<Seq<char>>
    decreases k,
{
    if k <= 0 {
        Seq::empty()
    } else {
        let before = replies_until(events, k - 1);
        match events[k] {
            DigestEvent::Reply(md) => before.push(md),
            _ => before,
        }
    }
}

/// Where a generation stands once it has begun and `k` sources are answered.
proof fn lemma_sections_in_order(job: DigestJob, events: Seq<DigestEvent<Seq<char>>>, k: int)
    requires
        answers_sections(job, events, k),
        k <= job.sections@.len(),
        job.sections@.len() <= usize::MAX,
    ensures
        ({
            let run = digest_after(job, events, k + 1);
            &&& run.index == k
            &&& run.digests == replies_until(events, k)
            &&& k < job.sections@.len() ==> run.phase == DigestPhase::Section
            &&& k == job.sections@.len() ==> run.phase == (if run.digests.len() == 0 {
                DigestPhase::Finished
            } else {
                DigestPhase::Merging
            })
        }),
        digest_action(job, events, k) == next_section(
            DigestRun {
                phase: if k == 0 {
                    DigestPhase::Start
                } else {
                    DigestPhase::Section
                },
                index: k as usize,
                digests: replies_until(events, k),
                markdown: Seq::empty(),
            },
            job,
        ).1,
        digest_after(job, events, k + 1).markdown == Seq::<char>::empty(),
    decreases k,
{
    reveal_with_fuel(digest_after, 2);
    if k > 0 {
        lemma_sections_in_order(job, events, k - 1);
        assert(events[k] is Reply || events[k] is NoReply);
    }
}

/// Every source is asked about once and in order: in a generation that is not done in
/// one request, the request with number `k` holds the context of the source with
/// number `k` and of no other, whether the sources before it were answered or failed.
pub proof fn law_every_source_is_asked_about(
    job: DigestJob,
    events: Seq<DigestEvent<Seq<char>>>,
    k: int,
)
    requires
        answers_sections(job, events, k),
        k < job.sections@.len() <= usize::MAX,
    ensures
        ({
            let lead = match job.note {
                Some(note) => crate::prompts::ref_digest::NOTE_START@ + (if note@.len() > 50000 {
                    note@.take(50000)
                } else {
                    note@
                }) + crate::prompts::ref_digest::NOTE_END@
                    + crate::prompts::ref_digest::SOURCES_START@,
                None => crate::prompts::ref_digest::SOURCES_START@,
            };
            digest_action(job, events, k) == DigestAction::Ask {
                request: Request::Fresh {
                    system: crate::prompts::ref_digest::SYSTEM_PROMPT@,
                    user: lead + job.sections@[k]@ + crate::prompts::ref_digest::SOURCES_END@,
                },
                temperature: 25,
                max_tokens: 32768,
            }
        }),
{
    lemma_sections_in_order(job, events, k);
    let sources = crate::prompts::ref_digest::SOURCES_START@ + job.sections@[k]@
        + crate::prompts::ref_digest::SOURCES_END@;
    if let Some(note) = job.note {
        let lead = crate::prompts::ref_digest::NOTE_START@ + first_chars(note@, 50000)
            + crate::prompts::ref_digest::NOTE_END@;
        assert(lead + sources =~= lead + crate::prompts::ref_digest::SOURCES_START@
            + job.sections@[k]@ + crate::prompts::ref_digest::SOURCES_END@);
    }
}

/// After the sources the digests are merged: where no source gave one the generation
/// fails; else the request holds every digest that came, under its number, as far as a
/// request may be long.
pub proof fn law_digests_are_merged(
    job: DigestJob,
    events: Seq<DigestEvent<Seq<char>>>,
    i: int,
)
    requires
        job.sections@.len() <= usize::MAX,
        answers_sections(job, events, job.sections@.len() as int),
        0 <= i,
    ensures
        ({
            let replies = replies_until(events, job.sections@.len() as int);
            let action = digest_action(job, events, job.sections@.len() as int);
            if replies.len() == 0 {
                action == DigestAction::Failed("All section digest generations failed."@)
            } else {
                &&& action matches DigestAction::Ask { request, temperature, max_tokens }
                &&& temperature == 20
                &&& max_tokens == 81920
                &&& request is Turn == job.unified
                &&& request matches Request::Fresh { system, user: _ } ==> system == MERGE_SYSTEM@
                &&& i < replies.len() && joined_sections("digest section"@, replies).len()
                    <= 160000 ==> crate::text::contains_of(
                    asked_of(request),
                    "<!-- digest section "@ + crate::text::decimal_of((i + 1) as nat) + " -->\n"@
                        + replies[i],
                )
            }
        }),
{
    let n = job.sections@.len() as int;
    lemma_sections_in_order(job, events, n);
    let replies = replies_until(events, n);
    let joined = joined_sections("digest section"@, replies);
    if i < replies.len() && joined.len() <= 160000 {
        let w = "<!-- digest section "@ + crate::text::decimal_of((i + 1) as nat) + " -->\n"@
            + replies[i];
        crate::processors::context::lemma_section_is_found("digest section"@, replies, i);
        reveal_strlit("<!-- ");
        reveal_strlit(" ");
        reveal_strlit("digest section");
        reveal_strlit("<!-- digest section ");
        assert("<!-- "@ + "digest section"@ + " "@ =~= "<!-- digest section "@);
        assert(w =~= crate::processors::context::numbered(
            "digest section"@,
            (i + 1) as nat,
            replies[i],
        ));
        crate::text::lemma_found_within(MERGE_START@, joined, MERGE_END@, w);
        let merged = merge_text(replies);
        assert(merged == MERGE_START@ + joined + MERGE_END@);
        let none: Seq<char> = Seq::empty();
        if job.unified {
            let staged = MERGE_STAGE@ + merged;
            assert(staged =~= MERGE_STAGE@ + merged + none);
            crate::text::lemma_found_within(MERGE_STAGE@, merged, none, w);
            if let Some(note) = opt_view(job.note) {
                let lead = NOTE_STYLE@ + note + "\n\n---"@ + "\n\n"@;
                assert(lead + staged =~= lead + staged + none);
                crate::text::lemma_found_within(lead, staged, none, w);
            }
        }
    }
}

/// What the user says in a request.
pub open spec fn asked_of(request: Request<Seq<char>>) -> Seq<char> {
    match request {
        Request::Turn { user } => user,
        Request::Fresh { system: _, user } => user,
    }
}

/// Once the digests were to be merged, no event makes the generation send a request
/// for a section or a merge again.
pub proof fn law_nothing_is_asked_after_the_merge(
    job: DigestJob,
    events: Seq<DigestEvent<Seq<char>>>,
    k: int,
)
    requires
        job.sections@.len() <= usize::MAX,
        answers_sections(job, events, job.sections@.len() as int),
        job.sections@.len() < k < events.len(),
    ensures
        !(digest_action(job, events, k) is Ask),
        !(digest_after(job, events, k).phase is Start),
        !(digest_after(job, events, k).phase is Single),
        !(digest_after(job, events, k).phase is Section),
    decreases k,
{
    let n = job.sections@.len() as int;
    if k == n + 1 {
        lemma_sections_in_order(job, events, n);
    } else {
        law_nothing_is_asked_after_the_merge(job, events, k - 1);
    }
}

/// A generation that is done in one request asks about all transcripts at once: within
/// the conversation where there is one, and else on its own.
pub proof fn law_one_request_holds_everything(job: DigestJob)
    requires
        job.single,
    ensures
        digest_action(job, seq![DigestEvent::Begin], 0) matches DigestAction::Ask {
            request,
            temperature,
            max_tokens,
        } && temperature == 25 && max_tokens == 81920 && (request is Turn == job.unified)
            && crate::text::contains_of(asked_of(request), job.context@) && (match job.note {
            Some(note) => note@.len() <= 50000 ==> crate::text::contains_of(
                asked_of(request),
                note@,
            ),
            None => true,
        }),
{
    let none: Seq<char> = Seq::empty();
    let start = crate::prompts::ref_digest::SOURCES_START@;
    let end = crate::prompts::ref_digest::SOURCES_END@;
    let sources = start + job.context@ + end;
    crate::text::lemma_found_between(start, job.context@, end);
    if let Some(note) = job.note {
        let cut = first_chars(note@, 50000);
        let lead = crate::prompts::ref_digest::NOTE_START@ + cut
            + crate::prompts::ref_digest::NOTE_END@;
        assert(lead + sources =~= lead + sources + none);
        crate::text::lemma_found_within(lead, sources, none, job.context@);
        if note@.len() <= 50000 {
            assert(lead + sources =~= crate::prompts::ref_digest::NOTE_START@ + note@ + (
            crate::prompts::ref_digest::NOTE_END@ + sources));
            crate::text::lemma_found_between(
                crate::prompts::ref_digest::NOTE_START@,
                note@,
                crate::prompts::ref_digest::NOTE_END@ + sources,
            );
        }
    }
}

/// A digest that came is judged by its own length and that of the transcripts. A good
/// one is the result; in place of a poor one a better one is asked for, of at least
/// three fifths of what the pages take and seven and a half percent of the transcripts,
/// and is the result where it comes. Only merged sections of a longer conversation are
/// the result without a verdict.
pub proof fn law_replies_become_the_digest(
    run: DigestState,
    job: DigestJob,
    md: Seq<char>,
    better: Seq<char>,
)
    requires
        run.phase == DigestPhase::Single || run.phase == DigestPhase::Merging,
        md.len() <= usize::MAX,
        job.context@.len() <= usize::MAX,
    ensures
        ({
            let (judged, action) = digest_next(run, job, DigestEvent::Reply(md));
            let pages = if job.unified {
                job.max_pages
            } else {
                2
            };
            if run.phase == DigestPhase::Merging && job.unified {
                action == DigestAction::Done(md)
            } else {
                let (poor, retry) = digest_next(judged, job, DigestEvent::Quality(false));
                &&& action matches DigestAction::Check { digest_chars, source_chars, max_pages }
                &&& digest_chars == md.len() && source_chars == job.context@.len()
                &&& max_pages == pages
                &&& digest_next(judged, job, DigestEvent::Quality(true)).1 == DigestAction::Done(md)
                &&& retry matches DigestAction::Retry {
                    markdown,
                    source_chars,
                    digest_chars,
                    target_min,
                }
                &&& markdown == md && digest_chars == md.len()
                &&& source_chars == job.context@.len()
                &&& pages * 660000 <= usize::MAX && job.context@.len() * 75 <= usize::MAX ==> {
                    &&& target_min * 5 >= pages * 11000 * 3
                    &&& (target_min + 1) * 1000 > job.context@.len() * 75
                    &&& target_min * 5 == pages * 11000 * 3 || target_min * 1000
                        <= job.context@.len() * 75
                }
                &&& digest_next(poor, job, DigestEvent::Reply(better)).1 == DigestAction::Done(
                    better,
                )
            }
        }),
{
}

/// A source whose digest fails is left out and the others are kept: the
/// digests that are merged are those of the replies, in their order.
pub proof fn law_failed_sections_are_skipped(run: DigestState, job: DigestJob, md: Seq<char>, e: Seq<char>)
    requires
        run.phase == DigestPhase::Section,
    ensures
        digest_next(run, job, DigestEvent::NoReply(e)).0.digests == run.digests,
        digest_next(run, job, DigestEvent::Reply(md)).0.digests == run.digests.push(md),
{
}

/// What is recorded of a digest: that it is complete, whether a note went into it, how
/// many sources of each kind, and how long it is.
pub proof fn law_records_of_digests(
    note: bool,
    days: usize,
    courses: usize,
    counts: JsonView,
    n: usize,
)
    ensures
        ({
            let m = digest_metadata(note, counts, n);
            let c = source_counts(note, days, courses);
            &&& crate::json::member(m, "progress_current"@) == crate::json::member(
                m,
                "progress_total"@,
            )
            &&& crate::json::member(m, "progress_total"@) == Some(JsonView::Number(2))
            &&& crate::json::member(m, "progress_label"@) == Some(JsonView::Text("complete"@))
            &&& crate::json::member(m, "source_note_used"@) == Some(JsonView::Bool(note))
            &&& crate::json::member(m, "source_counts"@) == Some(counts)
            &&& crate::json::member(m, "generated_chars"@) == Some(JsonView::Number(n as u64))
            &&& crate::json::member(c, "note"@) == Some(JsonView::Bool(note))
            &&& crate::json::member(c, "transcript_day"@) == Some(JsonView::Number(days as u64))
            &&& crate::json::member(c, "transcript_course"@) == Some(
                JsonView::Number(courses as u64),
            )
        }),
{
    reveal_strlit("progress_current");
    reveal_strlit("progress_total");
    reveal_strlit("progress_label");
    reveal_strlit("source_note_used");
    reveal_strlit("source_counts");
    reveal_strlit("generated_chars");
    reveal_strlit("note");
    reveal_strlit("transcript_day");
    reveal_strlit("transcript_course");
    assert("progress_current"@.len() == 16 && "progress_current"@[0] == 'p');
    assert("progress_total"@.len() == 14 && "progress_total"@[9] == 't');
    assert("progress_label"@.len() == 14 && "progress_label"@[9] == 'l');
    assert("source_note_used"@.len() == 16 && "source_note_used"@[0] == 's');
    assert("source_counts"@.len() == 13 && "generated_chars"@.len() == 15);
    assert("note"@.len() == 4 && "transcript_day"@.len() == 14 && "transcript_course"@.len() == 17);
    let ms = digest_metadata(note, counts, n)->Object_0;
    crate::json::law_member_is_the_first(ms, "progress_current"@, 0);
    crate::json::law_member_is_the_first(ms, "progress_total"@, 1);
    crate::json::law_member_is_the_first(ms, "progress_label"@, 2);
    crate::json::law_member_is_the_first(ms, "source_note_used"@, 3);
    crate::json::law_member_is_the_first(ms, "source_counts"@, 4);
    crate::json::law_member_is_the_first(ms, "generated_chars"@, 5);
    let cs = source_counts(note, days, courses)->Object_0;
    crate::json::law_member_is_the_first(cs, "note"@, 0);
    crate::json::law_member_is_the_first(cs, "transcript_day"@, 1);
    crate::json::law_member_is_the_first(cs, "transcript_course"@, 2);
}

/// What a better digest is to have grows with the pages and with the sources: at least
/// six thousand six hundred characters to a page, and at least seventy-five of every
/// thousand of the sources, and no more than the larger of the two.
pub proof fn law_targets_of_digests(pages: usize, chars: usize)
    requires
        pages <= 1000,
        chars <= 40_000_000,
    ensures
        digest_target(pages, chars) >= pages * 6600,
        digest_target(pages, chars) * 1000 > chars * 75 - 1000,
        digest_target(pages, chars) == pages * 6600 || digest_target(pages, chars) * 1000 <= chars
            * 75,
{
    assert((pages * 11000) * 60 / 100 == pages * 6600);
}

/// A digest that could not be made says why, with the error at the end; and one that is
/// too short is made again once, with the text that there is and how long it is to be.
pub proof fn law_failures_and_retries(run: DigestState, job: DigestJob, e: Seq<char>)
    ensures
        run.phase == DigestPhase::Single ==> (digest_next(run, job, DigestEvent::NoReply(e)).1
            matches DigestAction::Failed(reason) && reason == "Reference Digest generation failed: "@
            + e),
        run.phase == DigestPhase::Merging ==> (digest_next(run, job, DigestEvent::NoReply(e)).1
            matches DigestAction::Failed(reason) && reason == "Reference Digest merge failed: "@
            + e),
        run.phase == DigestPhase::Checking ==> (digest_next(run, job, DigestEvent::Quality(false)).1
            matches DigestAction::Retry { markdown, source_chars, digest_chars, target_min }
            && markdown == run.markdown && source_chars == job.context@.len() as usize
            && digest_chars == run.markdown.len() as usize && (job.unified ==> target_min
            == digest_target(job.max_pages, source_chars) as usize) && (!job.unified ==> target_min
            == digest_target(2, source_chars) as usize)),
        run.phase == DigestPhase::Checking ==> !(digest_next(
            run,
            job,
            DigestEvent::Quality(true),
        ).1 is Retry),
        run.phase == DigestPhase::Retrying ==> !(digest_next(run, job, DigestEvent::Reply(e)).1
            is Retry),
{
}

/// What the progress shows tells a digest in one request from one in sections.
pub proof fn law_labels_of_digests(unified: bool)
    ensures
        digest_label(unified, false) == "generating section digests"@,
        digest_label(unified, true) == "generating digest"@ + (if unified {
            " (unified)"@
        } else {
            ""@
        }),
{
    reveal_strlit("generating digest");
    reveal_strlit("generating digest (unified)");
    reveal_strlit(" (unified)");
    reveal_strlit("");
    assert("generating digest"@ + " (unified)"@ =~= "generating digest (unified)"@);
    assert("generating digest"@ + ""@ =~= "generating digest"@);
}

} // verus!
