//! The run of one cheat sheet output: condensing, rendering, expanding and
//! finishing, as a machine that names the next piece of work and is told how it
//! went.

use vstd::prelude::*;

use crate::prompts::cheat_sheet::{
    build_cheat_sheet_prompts, build_cheat_sheet_turn2_prompt, build_expansion_prompt,
    build_expansion_turn3_prompt,
};
use crate::text::{char_count, push_decimal};
use crate::utils::budget::ContentBudget;

verus! {

/// How many expansion requests a run makes at most.
pub const MAX_EXPANSION_PASSES: usize = 3;

/// How underfilled pages are expanded.
#[derive(Debug, Clone, Copy, PartialEq, Eq, Structural)]
pub enum Expansion {
    /// In up to three passes, with text of the Reference Digest as a last resort.
    Passes,
    /// In one pass that is undone where it cannot be rendered.
    Single,
}

/// How pages are expanded that belong to a digest which was made in one request, or
/// section by section.
pub fn expansion_for(single: bool) -> (r: Expansion)
    ensures
        r == if single {
            Expansion::Passes
        } else {
            Expansion::Single
        },
{
    if single {
        Expansion::Passes
    } else {
        Expansion::Single
    }
}

/// What a run is about. It does not change during the run.
#[derive(Debug)]
pub struct SheetJob {
    /// Whether the run belongs to the pipeline that makes the digest as well.
    pub unified: bool,
    /// Whether the requests continue a conversation that holds the digest.
    pub conversation: bool,
    /// How underfilled pages are expanded.
    pub expansion: Expansion,
    /// The number of pages that the sheet may fill.
    pub max_pages: usize,
    /// The content budget for that many pages.
    pub budget: ContentBudget,
    /// The number of characters of the Reference Digest.
    pub ref_digest_chars: usize,
    /// The Reference Digest in compressed form, for when no reply comes.
    pub fallback: String,
    /// As much of the Reference Digest as a prompt may hold.
    pub excerpt: String,
    /// The section inventory of the Reference Digest.
    pub inventory: String,
    /// The headings of its main sections.
    pub section_names: String,
    /// The number of its main sections.
    pub section_count: usize,
}

/// A rendered sheet.
#[derive(Debug, Clone)]
pub struct Artifact<T> {
    /// Where the PDF is.
    pub pdf_path: T,
    /// Its number of pages.
    pub page_count: usize,
    /// The template that it was rendered with.
    pub template_used: T,
    /// How often its content was compressed.
    pub compression_attempts: usize,
}

/// What the run waits for.
#[derive(Debug, Clone, Copy, PartialEq, Eq, Structural)]
pub enum Phase {
    /// To be started.
    Start,
    /// The first reply.
    Condensing,
    /// The reply to a second request after a first reply that was too short.
    Retrying,
    /// The compressed digest to be written.
    WritingFallback,
    /// The compressed digest to be rendered.
    RenderingFallback,
    /// The first sheet to be written.
    WritingFirst,
    /// The first sheet to be rendered.
    RenderingFirst,
    /// The decision whether to expand.
    Deciding,
    /// The reply with an expanded sheet.
    Expanding,
    /// The expanded sheet to be written.
    WritingExpansion,
    /// The expanded sheet to be rendered.
    RenderingExpansion,
    /// The sheet from before a failed expansion to be written again.
    RollingBack,
    /// Text of the digest that fills the gap.
    Extracting,
    /// The sheet with that text to be written.
    WritingExtract,
    /// The sheet with that text to be rendered.
    RenderingExtract,
    /// The last rendering.
    RenderingFinal,
    /// Nothing: the run is over.
    Finished,
}

/// Where a run stands.
#[derive(Debug)]
pub struct SheetRun<T> {
    /// What it waits for.
    pub phase: Phase,
    /// The expansion pass it is in.
    pub pass: usize,
    /// The sheet as it is now.
    pub markdown: T,
    /// An expanded sheet that is not taken over yet.
    pub pending: T,
    /// How many requests went into the sheet.
    pub harness_attempts: usize,
    /// Whether the sheet was expanded.
    pub expansion_used: bool,
    /// The first rendering, where it succeeded.
    pub first: Option<Artifact<T>>,
    /// The number of pages of the latest rendering.
    pub pages: Option<usize>,
}

/// A request to the language model.
#[derive(Debug)]
pub enum Request<T> {
    /// The next turn of the conversation.
    Turn {
        /// What the user says.
        user: T,
    },
    /// A request of its own.
    Fresh {
        /// The system prompt.
        system: T,
        /// The user prompt.
        user: T,
    },
}

/// How a piece of work went.
#[derive(Debug)]
pub enum SheetEvent<T> {
    /// The run begins.
    Begin,
    /// A reply came. `retry` says whether it is so short that another request
    /// is due, where the request did not continue a conversation.
    Reply {
        /// The Markdown of the reply.
        markdown: T,
        /// Whether the reply is too short.
        retry: bool,
    },
    /// No reply came.
    NoReply,
    /// The file was written.
    Written,
    /// The file could not be written.
    NotWritten(T),
    /// The sheet was rendered.
    Rendered(Artifact<T>),
    /// The sheet could not be rendered.
    NotRendered(T),
    /// Whether to expand.
    Decision(bool),
    /// Text of the digest.
    Extracted(T),
}

/// Why the pages are not full.
#[derive(Debug, Clone, Copy, PartialEq, Eq, Structural)]
pub enum Underfilled {
    /// No reason is given.
    Unstated,
    /// The digest is shorter than the least that the pages need.
    SourceTooShort,
    /// The language model did not reply.
    LlmFailed,
}

/// The numbers that a finished run leaves behind.
#[derive(Debug, Clone, Copy, PartialEq, Eq, Structural)]
pub struct SheetNumbers {
    /// The characters that the sheet has.
    pub generated_chars: usize,
    /// How many requests went into it.
    pub harness_attempts: usize,
    /// Whether it was expanded.
    pub expansion_used: bool,
    /// Why its pages are not full.
    pub underfilled: Underfilled,
}

/// How a run ended.
#[derive(Debug)]
pub enum SheetOutcome<T> {
    /// The sheet is rendered.
    Complete {
        /// The rendering.
        artifact: Artifact<T>,
        /// The numbers of the sheet.
        numbers: SheetNumbers,
        /// The number of pages to report.
        final_page_count: usize,
    },
    /// The sheet could not be rendered.
    RenderFailed {
        /// The message of the renderer.
        error: T,
        /// The numbers of the sheet.
        numbers: SheetNumbers,
    },
    /// The Markdown could not be written.
    WriteFailed {
        /// The message of the file system.
        error: T,
    },
}

/// The next piece of work.
#[derive(Debug)]
pub enum SheetAction<T> {
    /// Ask for a sheet.
    Condense(Request<T>),
    /// Write the Markdown file.
    Write(T),
    /// Render the Markdown file.
    Render,
    /// Decide whether the first rendering is to be expanded.
    Decide,
    /// Ask for an expanded sheet.
    Expand(Request<T>),
    /// Take text of about so many characters from the digest.
    Extract(usize),
    /// Record how the run ended.
    Finish(SheetOutcome<T>),
    /// Nothing.
    Idle,
}

/// The next piece of work, and the progress to show before it.
#[derive(Debug)]
pub struct SheetStep<T> {
    /// The step that is reached and its label.
    pub progress: Option<(usize, T)>,
    /// The work.
    pub action: SheetAction<T>,
}

// ---------------------------------------------------------------------------
// Views
// ---------------------------------------------------------------------------

impl View for Artifact<String> {
    type V = Artifact<Seq<char>>;

    open spec fn view(&self) -> Artifact<Seq<char>> {
        Artifact {
            pdf_path: self.pdf_path@,
            page_count: self.page_count,
            template_used: self.template_used@,
            compression_attempts: self.compression_attempts,
        }
    }
}

impl View for SheetRun<String> {
    type V = SheetRun<Seq<char>>;

    open spec fn view(&self) -> SheetRun<Seq<char>> {
        SheetRun {
            phase: self.phase,
            pass: self.pass,
            markdown: self.markdown@,
            pending: self.pending@,
            harness_attempts: self.harness_attempts,
            expansion_used: self.expansion_used,
            first: match self.first {
                Some(a) => Some(a@),
                None => None,
            },
            pages: self.pages,
        }
    }
}

impl View for Request<String> {
    type V = Request<Seq<char>>;

    open spec fn view(&self) -> Request<Seq<char>> {
        match *self {
            Request::Turn { user } => Request::Turn { user: user@ },
            Request::Fresh { system, user } => Request::Fresh { system: system@, user: user@ },
        }
    }
}

impl View for SheetEvent<String> {
    type V = SheetEvent<Seq<char>>;

    open spec fn view(&self) -> SheetEvent<Seq<char>> {
        match *self {
            SheetEvent::Begin => SheetEvent::Begin,
            SheetEvent::Reply { markdown, retry } => SheetEvent::Reply { markdown: markdown@, retry },
            SheetEvent::NoReply => SheetEvent::NoReply,
            SheetEvent::Written => SheetEvent::Written,
            SheetEvent::NotWritten(e) => SheetEvent::NotWritten(e@),
            SheetEvent::Rendered(a) => SheetEvent::Rendered(a@),
            SheetEvent::NotRendered(e) => SheetEvent::NotRendered(e@),
            SheetEvent::Decision(d) => SheetEvent::Decision(d),
            SheetEvent::Extracted(t) => SheetEvent::Extracted(t@),
        }
    }
}

impl View for SheetOutcome<String> {
    type V = SheetOutcome<Seq<char>>;

    open spec fn view(&self) -> SheetOutcome<Seq<char>> {
        match *self {
            SheetOutcome::Complete { artifact, numbers, final_page_count } => SheetOutcome::Complete {
                artifact: artifact@,
                numbers,
                final_page_count,
            },
            SheetOutcome::RenderFailed { error, numbers } => SheetOutcome::RenderFailed {
                error: error@,
                numbers,
            },
            SheetOutcome::WriteFailed { error } => SheetOutcome::WriteFailed { error: error@ },
        }
    }
}

impl View for SheetAction<String> {
    type V = SheetAction<Seq<char>>;

    open spec fn view(&self) -> SheetAction<Seq<char>> {
        match *self {
            SheetAction::Condense(r) => SheetAction::Condense(r@),
            SheetAction::Write(t) => SheetAction::Write(t@),
            SheetAction::Render => SheetAction::Render,
            SheetAction::Decide => SheetAction::Decide,
            SheetAction::Expand(r) => SheetAction::Expand(r@),
            SheetAction::Extract(n) => SheetAction::Extract(n),
            SheetAction::Finish(o) => SheetAction::Finish(o@),
            SheetAction::Idle => SheetAction::Idle,
        }
    }
}

impl View for SheetStep<String> {
    type V = SheetStep<Seq<char>>;

    open spec fn view(&self) -> SheetStep<Seq<char>> {
        SheetStep {
            progress: match self.progress {
                Some((n, l)) => Some((n, l@)),
                None => None,
            },
            action: self.action@,
        }
    }
}

// ---------------------------------------------------------------------------
// Requests
// ---------------------------------------------------------------------------

/// The request for a sheet.
pub open spec fn condense_request(job: SheetJob) -> Request<Seq<char>> {
    if job.conversation {
        Request::Turn {
            user: crate::prompts::cheat_sheet::turn2_prompt(
                job.inventory@,
                job.section_names@,
                job.section_count,
                job.max_pages,
                job.budget,
            ),
        }
    } else {
        Request::Fresh {
            system: crate::prompts::cheat_sheet::standalone_system_prompt(),
            user: crate::prompts::cheat_sheet::standalone_user_prompt(
                job.excerpt@,
                job.inventory@,
                job.section_names@,
                job.section_count,
                job.max_pages,
                job.budget,
            ),
        }
    }
}

fn condense_request_of(job: &SheetJob) -> (r: Request<String>)
    ensures
        r@ == condense_request(*job),
{
    if job.conversation {
        Request::Turn {
            user: build_cheat_sheet_turn2_prompt(
                job.inventory.as_str(),
                job.section_names.as_str(),
                job.section_count,
                job.max_pages,
                &job.budget,
            ),
        }
    } else {
        let (system, user) = build_cheat_sheet_prompts(
            job.excerpt.as_str(),
            job.inventory.as_str(),
            job.section_names.as_str(),
            job.section_count,
            job.max_pages,
            &job.budget,
        );
        Request::Fresh { system, user }
    }
}

pub const RETRY_START: &'static str =
    "\n\nIMPORTANT: Your previous response was only ";

pub const RETRY_AFTER_CHARS: &'static str = " characters. The target is ";

pub const RETRY_AFTER_TARGET: &'static str = " characters. Please generate a COMPLETE cheat sheet \
    that fills the target. Include ALL key concepts, formulas, and exam points from the Reference \
    Digest. Be thorough and comprehensive.";

/// The request after a reply of `chars` characters that was too short: the same
/// again, with a reminder of the target.
pub open spec fn retry_request(job: SheetJob, chars: nat) -> Request<Seq<char>> {
    let tail = RETRY_START@ + crate::text::decimal_of(chars) + RETRY_AFTER_CHARS@
        + crate::text::decimal_of(job.budget.target as nat) + RETRY_AFTER_TARGET@;
    match condense_request(job) {
        Request::Turn { user } => Request::Turn { user: user + tail },
        Request::Fresh { system, user } => Request::Fresh { system, user: user + tail },
    }
}

fn retry_request_of(job: &SheetJob, chars: usize) -> (r: Request<String>)
    ensures
        r@ == retry_request(*job, chars as nat),
{
    let mut tail = RETRY_START.to_owned();
    push_decimal(&mut tail, chars as u64);
    tail.push_str(RETRY_AFTER_CHARS);
    push_decimal(&mut tail, job.budget.target as u64);
    tail.push_str(RETRY_AFTER_TARGET);
    match condense_request_of(job) {
        Request::Turn { user } => {
            let mut user = user;
            user.push_str(tail.as_str());
            Request::Turn { user }
        },
        Request::Fresh { system, user } => {
            let mut user = user;
            user.push_str(tail.as_str());
            Request::Fresh { system, user }
        },
    }
}

/// The request for about `amount` more characters in the sheet.
pub open spec fn expand_request(job: SheetJob, markdown: Seq<char>, amount: usize) -> Request<
    Seq<char>,
> {
    if job.conversation {
        Request::Turn {
            user: crate::prompts::cheat_sheet::turn3_prompt(
                amount,
                job.inventory@,
                job.budget.language,
            ),
        }
    } else {
        Request::Fresh {
            system: crate::prompts::cheat_sheet::expansion_system_prompt(),
            user: crate::prompts::cheat_sheet::expansion_user_prompt(
                markdown,
                job.inventory@,
                job.excerpt@,
                amount,
                job.budget.language,
            ),
        }
    }
}

fn expand_request_of(job: &SheetJob, markdown: &str, amount: usize) -> (r: Request<String>)
    ensures
        r@ == expand_request(*job, markdown@, amount),
{
    if job.conversation {
        Request::Turn {
            user: build_expansion_turn3_prompt(
                amount,
                job.inventory.as_str(),
                job.budget.language,
            ),
        }
    } else {
        let (system, user) = build_expansion_prompt(
            markdown,
            job.inventory.as_str(),
            job.excerpt.as_str(),
            amount,
            job.budget.language,
        );
        Request::Fresh { system, user }
    }
}

// ---------------------------------------------------------------------------
// The rules of expansion
// ---------------------------------------------------------------------------

/// How many characters are missing to the target.
pub open spec fn gap(job: SheetJob, chars: int) -> int {
    if job.budget.target > chars {
        job.budget.target - chars
    } else {
        0
    }
}

/// How many characters a pass asks for: the gap where it is moderate, at least
/// two thousand where it is small and at most twelve thousand where it is large.
pub open spec fn pass_amount(gap: int) -> int {
    if gap < 2000 {
        2000
    } else if gap <= 12000 {
        gap
    } else {
        12000
    }
}

/// How many characters a single expansion asks for: the gap, but at least two
/// thousand and at most six thousand.
pub open spec fn single_amount(gap: int) -> int {
    if gap > 6000 {
        6000
    } else if gap < 2000 {
        2000
    } else {
        gap
    }
}

/// Whether all pages are in use and hold more than they should.
pub open spec fn overflowing(job: SheetJob, chars: int, pages: Option<usize>) -> bool {
    let used = match pages {
        Some(p) if p > 0 => p as int,
        _ => 1int,
    };
    let limit = job.budget.soft_max as int / if job.max_pages > 0 {
        job.max_pages as int
    } else {
        1
    };
    used >= job.max_pages && chars > limit * used
}

/// Whether another pass is due for a sheet of `chars` characters.
pub open spec fn pass_due(job: SheetJob, pass: int, chars: int, pages: Option<usize>) -> bool {
    pass < MAX_EXPANSION_PASSES && gap(job, chars) > 0 && !overflowing(job, chars, pages)
}

/// Whether the sheet holds less than seven tenths of the target.
pub open spec fn sparse(job: SheetJob, chars: int) -> bool {
    chars * 10 < job.budget.target * 7
}

fn gap_of(job: &SheetJob, chars: usize) -> (r: usize)
    ensures
        r == gap(*job, chars as int),
{
    job.budget.target.saturating_sub(chars)
}

fn pass_amount_of(gap: usize) -> (r: usize)
    ensures
        r == pass_amount(gap as int),
{
    if gap < 3000 {
        if gap < 2000 {
            2000
        } else {
            gap
        }
    } else if gap <= 8000 {
        gap
    } else if gap > 12000 {
        12000
    } else {
        gap
    }
}

fn single_amount_of(gap: usize) -> (r: usize)
    ensures
        r == single_amount(gap as int),
{
    if gap > 6000 {
        6000
    } else if gap < 2000 {
        2000
    } else {
        gap
    }
}

fn pass_due_of(job: &SheetJob, pass: usize, chars: usize, pages: Option<usize>) -> (r: bool)
    ensures
        r == pass_due(*job, pass as int, chars as int, pages),
{
    if pass >= MAX_EXPANSION_PASSES || gap_of(job, chars) == 0 {
        return false;
    }
    let used: usize = match pages {
        Some(p) => if p > 0 {
            p
        } else {
            1
        },
        None => 1,
    };
    let divisor: usize = if job.max_pages > 0 {
        job.max_pages
    } else {
        1
    };
    let limit: usize = job.budget.soft_max / divisor;
    assert(limit * used <= 0xffff_ffff_ffff_ffff * 0xffff_ffff_ffff_ffff) by (nonlinear_arith)
        requires
            0 <= limit <= 0xffff_ffff_ffff_ffff,
            0 <= used <= 0xffff_ffff_ffff_ffff,
    ;
    let capacity: u128 = (limit as u128) * (used as u128);
    !(used >= job.max_pages && (chars as u128) > capacity)
}

fn sparse_of(job: &SheetJob, chars: usize) -> (r: bool)
    ensures
        r == sparse(*job, chars as int),
{
    (chars as u128) * 10 < (job.budget.target as u128) * 7
}


// ---------------------------------------------------------------------------
// The machine
// ---------------------------------------------------------------------------

/// A run together with the step that it takes.
pub type Move = (SheetRun<Seq<char>>, SheetStep<Seq<char>>);

/// The run waits in `phase` for the work `action`.
pub open spec fn await_in(run: SheetRun<Seq<char>>, phase: Phase, action: SheetAction<Seq<char>>) -> Move {
    (SheetRun { phase, ..run }, SheetStep { progress: None, action })
}

/// The same move with a progress message.
pub open spec fn announced(m: Move, current: usize, label: Seq<char>) -> Move {
    (m.0, SheetStep { progress: Some((current, label)), ..m.1 })
}

/// The numbers of the sheet as it is.
pub open spec fn numbers(run: SheetRun<Seq<char>>, underfilled: Underfilled) -> SheetNumbers {
    SheetNumbers {
        generated_chars: run.markdown.len() as usize,
        harness_attempts: run.harness_attempts,
        expansion_used: run.expansion_used,
        underfilled,
    }
}

/// Why a sheet that is not expanded may be underfilled.
pub open spec fn shortage(job: SheetJob) -> Underfilled {
    if job.ref_digest_chars < job.budget.min_acceptable {
        Underfilled::SourceTooShort
    } else {
        Underfilled::Unstated
    }
}

/// The run ends with `artifact`.
pub open spec fn complete(
    run: SheetRun<Seq<char>>,
    artifact: Artifact<Seq<char>>,
    underfilled: Underfilled,
) -> Move {
    await_in(
        run,
        Phase::Finished,
        SheetAction::Finish(
            SheetOutcome::Complete {
                artifact,
                numbers: numbers(run, underfilled),
                final_page_count: match run.pages {
                    Some(p) => p,
                    None => artifact.page_count,
                },
            },
        ),
    )
}

/// The run ends because the sheet cannot be rendered.
pub open spec fn render_failed(
    run: SheetRun<Seq<char>>,
    error: Seq<char>,
    underfilled: Underfilled,
) -> Move {
    await_in(
        run,
        Phase::Finished,
        SheetAction::Finish(
            SheetOutcome::RenderFailed { error, numbers: numbers(run, underfilled) },
        ),
    )
}

/// After the expansion: an expanded sheet is rendered once more, any other
/// keeps its first rendering.
pub open spec fn settle(run: SheetRun<Seq<char>>) -> Move {
    if run.expansion_used {
        await_in(run, Phase::RenderingFinal, SheetAction::Render)
    } else {
        complete(run, run.first->0, Underfilled::Unstated)
    }
}

/// After the passes: a sheet that is still sparse gets text of the digest.
pub open spec fn after_passes(run: SheetRun<Seq<char>>, job: SheetJob) -> Move {
    if sparse(job, run.markdown.len() as int) {
        await_in(
            run,
            Phase::Extracting,
            SheetAction::Extract(gap(job, run.markdown.len() as int) as usize),
        )
    } else {
        settle(run)
    }
}

/// The next pass, or what follows the passes.
pub open spec fn next_pass(run: SheetRun<Seq<char>>, job: SheetJob) -> Move {
    let chars = run.markdown.len() as int;
    if pass_due(job, run.pass as int, chars, run.pages) {
        await_in(
            run,
            Phase::Expanding,
            SheetAction::Expand(
                expand_request(job, run.markdown, pass_amount(gap(job, chars)) as usize),
            ),
        )
    } else {
        after_passes(run, job)
    }
}

/// An expansion that comes to nothing.
pub open spec fn expansion_ends(run: SheetRun<Seq<char>>, job: SheetJob) -> Move {
    match job.expansion {
        Expansion::Passes => after_passes(run, job),
        Expansion::Single => complete(run, run.first->0, Underfilled::Unstated),
    }
}

/// The label of a step, marked where the run belongs to the larger pipeline.
pub open spec fn condensing_label(job: SheetJob) -> Seq<char> {
    if job.unified {
        "condensing markdown (unified)"@
    } else {
        "condensing markdown"@
    }
}

/// The label of the expansion step.
pub open spec fn expanding_label(job: SheetJob) -> Seq<char> {
    if job.unified {
        "expanding content (unified)"@
    } else {
        "expanding content"@
    }
}

/// What a run does when a piece of work is done. An event that the run does
/// not wait for changes nothing.
pub open spec fn next(run: SheetRun<Seq<char>>, job: SheetJob, event: SheetEvent<Seq<char>>) -> Move {
    match (run.phase, event) {
        (Phase::Start, SheetEvent::Begin) => announced(
            await_in(run, Phase::Condensing, SheetAction::Condense(condense_request(job))),
            1,
            condensing_label(job),
        ),
        (Phase::Condensing, SheetEvent::Reply { markdown, retry }) => if retry && !job.conversation {
            await_in(
                SheetRun { markdown, ..run },
                Phase::Retrying,
                SheetAction::Condense(retry_request(job, markdown.len())),
            )
        } else {
            await_in(
                SheetRun { markdown, harness_attempts: 1, ..run },
                Phase::WritingFirst,
                SheetAction::Write(markdown),
            )
        },
        (Phase::Condensing, SheetEvent::NoReply) => await_in(
            SheetRun { markdown: job.fallback@, harness_attempts: 0, ..run },
            Phase::WritingFallback,
            SheetAction::Write(job.fallback@),
        ),
        (Phase::Retrying, SheetEvent::Reply { markdown, .. }) => await_in(
            SheetRun { markdown, harness_attempts: 2, ..run },
            Phase::WritingFirst,
            SheetAction::Write(markdown),
        ),
        (Phase::Retrying, SheetEvent::NoReply) => await_in(
            SheetRun { harness_attempts: 1, ..run },
            Phase::WritingFirst,
            SheetAction::Write(run.markdown),
        ),
        (Phase::WritingFallback, SheetEvent::Written) => await_in(
            run,
            Phase::RenderingFallback,
            SheetAction::Render,
        ),
        (Phase::WritingFallback, SheetEvent::NotWritten(error)) => await_in(
            run,
            Phase::Finished,
            SheetAction::Finish(SheetOutcome::WriteFailed { error }),
        ),
        (Phase::RenderingFallback, SheetEvent::Rendered(a)) => complete(
            run,
            a,
            Underfilled::LlmFailed,
        ),
        (Phase::RenderingFallback, SheetEvent::NotRendered(error)) => render_failed(
            run,
            error,
            Underfilled::LlmFailed,
        ),
        (Phase::WritingFirst, SheetEvent::Written) => announced(
            await_in(run, Phase::RenderingFirst, SheetAction::Render),
            2,
            "rendering PDF"@,
        ),
        (Phase::WritingFirst, SheetEvent::NotWritten(error)) => await_in(
            run,
            Phase::Finished,
            SheetAction::Finish(SheetOutcome::WriteFailed { error }),
        ),
        (Phase::RenderingFirst, SheetEvent::Rendered(a)) => await_in(
            SheetRun { first: Some(a), pages: Some(a.page_count), ..run },
            Phase::Deciding,
            SheetAction::Decide,
        ),
        (Phase::RenderingFirst, SheetEvent::NotRendered(error)) => render_failed(
            run,
            error,
            shortage(job),
        ),
        (Phase::Deciding, SheetEvent::Decision(expand)) => if expand {
            announced(
                match job.expansion {
                    Expansion::Passes => next_pass(run, job),
                    Expansion::Single => await_in(
                        run,
                        Phase::Expanding,
                        SheetAction::Expand(
                            expand_request(
                                job,
                                run.markdown,
                                single_amount(gap(job, run.markdown.len() as int)) as usize,
                            ),
                        ),
                    ),
                },
                3,
                expanding_label(job),
            )
        } else {
            complete(run, run.first->0, shortage(job))
        },
        (Phase::Expanding, SheetEvent::Reply { markdown, .. }) => match job.expansion {
            Expansion::Passes => if markdown.len() <= run.markdown.len() {
                after_passes(run, job)
            } else {
                await_in(
                    SheetRun {
                        markdown,
                        harness_attempts: (run.harness_attempts + 1) as usize,
                        expansion_used: true,
                        ..run
                    },
                    Phase::WritingExpansion,
                    SheetAction::Write(markdown),
                )
            },
            Expansion::Single => await_in(
                SheetRun { pending: markdown, ..run },
                Phase::WritingExpansion,
                SheetAction::Write(markdown),
            ),
        },
        (Phase::Expanding, SheetEvent::NoReply) => expansion_ends(run, job),
        (Phase::WritingExpansion, SheetEvent::Written) => await_in(
            run,
            Phase::RenderingExpansion,
            SheetAction::Render,
        ),
        (Phase::WritingExpansion, SheetEvent::NotWritten(_)) => expansion_ends(run, job),
        (Phase::RenderingExpansion, SheetEvent::Rendered(a)) => match job.expansion {
            Expansion::Passes => {
                let rendered = SheetRun { pages: Some(a.page_count), ..run };
                if a.page_count >= job.max_pages {
                    after_passes(rendered, job)
                } else {
                    next_pass(SheetRun { pass: (run.pass + 1) as usize, ..rendered }, job)
                }
            },
            Expansion::Single => await_in(
                SheetRun {
                    markdown: run.pending,
                    harness_attempts: 2,
                    expansion_used: true,
                    pages: Some(a.page_count),
                    ..run
                },
                Phase::RenderingFinal,
                SheetAction::Render,
            ),
        },
        (Phase::RenderingExpansion, SheetEvent::NotRendered(_)) => match job.expansion {
            Expansion::Passes => after_passes(run, job),
            Expansion::Single => await_in(run, Phase::RollingBack, SheetAction::Write(run.markdown)),
        },
        (Phase::RollingBack, SheetEvent::Written) => complete(
            run,
            run.first->0,
            Underfilled::Unstated,
        ),
        (Phase::RollingBack, SheetEvent::NotWritten(_)) => complete(
            run,
            run.first->0,
            Underfilled::Unstated,
        ),
        (Phase::Extracting, SheetEvent::Extracted(t)) => {
            let filled = run.markdown + "\n\n"@ + t;
            await_in(
                SheetRun {
                    markdown: filled,
                    harness_attempts: (run.harness_attempts + 1) as usize,
                    expansion_used: true,
                    ..run
                },
                Phase::WritingExtract,
                SheetAction::Write(filled),
            )
        },
        (Phase::WritingExtract, SheetEvent::Written) => await_in(
            run,
            Phase::RenderingExtract,
            SheetAction::Render,
        ),
        (Phase::WritingExtract, SheetEvent::NotWritten(_)) => settle(run),
        (Phase::RenderingExtract, SheetEvent::Rendered(a)) => settle(
            SheetRun { pages: Some(a.page_count), ..run },
        ),
        (Phase::RenderingExtract, SheetEvent::NotRendered(_)) => settle(run),
        (Phase::RenderingFinal, SheetEvent::Rendered(a)) => complete(run, a, Underfilled::Unstated),
        (Phase::RenderingFinal, SheetEvent::NotRendered(error)) => render_failed(
            run,
            error,
            Underfilled::Unstated,
        ),
        _ => (run, SheetStep { progress: None, action: SheetAction::Idle }),
    }
}

/// Whether a phase lies behind a successful first rendering.
pub open spec fn after_first(phase: Phase) -> bool {
    match phase {
        Phase::Deciding | Phase::Expanding | Phase::WritingExpansion | Phase::RenderingExpansion
        | Phase::RollingBack | Phase::Extracting | Phase::WritingExtract | Phase::RenderingExtract
        | Phase::RenderingFinal => true,
        _ => false,
    }
}

/// What holds of every run: a first rendering is there when it is needed, and
/// the number of requests is bounded by the passes that were made.
pub open spec fn wf<T>(run: SheetRun<T>) -> bool {
    &&& after_first(run.phase) ==> run.first is Some
    &&& match run.phase {
        Phase::Expanding => run.pass < MAX_EXPANSION_PASSES && run.harness_attempts <= 2 + run.pass,
        Phase::WritingExpansion | Phase::RenderingExpansion => run.pass < MAX_EXPANSION_PASSES
            && run.harness_attempts <= 3 + run.pass,
        Phase::Extracting | Phase::RollingBack => run.harness_attempts <= 5,
        Phase::WritingExtract | Phase::RenderingExtract | Phase::RenderingFinal | Phase::Finished =>
            run.harness_attempts <= 6,
        _ => run.pass == 0 && run.harness_attempts <= 2,
    }
}

/// The phases up to the first sheet.
spec fn condenses(phase: Phase) -> bool {
    match phase {
        Phase::Start | Phase::Condensing | Phase::Retrying | Phase::WritingFallback
        | Phase::RenderingFallback => true,
        _ => false,
    }
}

/// The phases from the first sheet to the decision.
spec fn settles_first(phase: Phase) -> bool {
    match phase {
        Phase::WritingFirst | Phase::RenderingFirst | Phase::Deciding => true,
        _ => false,
    }
}

/// The phases of the expansion.
spec fn expands(phase: Phase) -> bool {
    match phase {
        Phase::Expanding | Phase::WritingExpansion | Phase::RenderingExpansion => true,
        _ => false,
    }
}

fn copy_artifact(a: &Artifact<String>) -> (r: Artifact<String>)
    ensures
        r@ == a@,
{
    Artifact {
        pdf_path: a.pdf_path.clone(),
        page_count: a.page_count,
        template_used: a.template_used.clone(),
        compression_attempts: a.compression_attempts,
    }
}

impl SheetRun<String> {
    /// A run that has not begun.
    pub fn new() -> (r: SheetRun<String>)
        ensures
            wf(r),
            r@ == (SheetRun {
                phase: Phase::Start,
                pass: 0,
                markdown: Seq::<char>::empty(),
                pending: Seq::<char>::empty(),
                harness_attempts: 0,
                expansion_used: false,
                first: None,
                pages: None,
            }),
    {
        SheetRun {
            phase: Phase::Start,
            pass: 0,
            markdown: String::new(),
            pending: String::new(),
            harness_attempts: 0,
            expansion_used: false,
            first: None,
            pages: None,
        }
    }

    fn numbers(&self, underfilled: Underfilled) -> (r: SheetNumbers)
        ensures
            r == numbers(self@, underfilled),
    {
        SheetNumbers {
            generated_chars: char_count(self.markdown.as_str()),
            harness_attempts: self.harness_attempts,
            expansion_used: self.expansion_used,
            underfilled,
        }
    }

    fn complete(&mut self, artifact: Artifact<String>, underfilled: Underfilled) -> (r: SheetAction<
        String,
    >)
        requires
            old(self).harness_attempts <= 6,
        ensures
            wf(*final(self)),
            (final(self)@, SheetStep { progress: None, action: r@ }) == complete(
                old(self)@,
                artifact@,
                underfilled,
            ),
    {
        let numbers = self.numbers(underfilled);
        let final_page_count: usize = match self.pages {
            Some(p) => p,
            None => artifact.page_count,
        };
        self.phase = Phase::Finished;
        SheetAction::Finish(SheetOutcome::Complete { artifact, numbers, final_page_count })
    }

    fn complete_first(&mut self, underfilled: Underfilled) -> (r: SheetAction<String>)
        requires
            old(self).first is Some,
            old(self).harness_attempts <= 6,
        ensures
            wf(*final(self)),
            (final(self)@, SheetStep { progress: None, action: r@ }) == complete(
                old(self)@,
                old(self)@.first->0,
                underfilled,
            ),
    {
        match &self.first {
            Some(a) => {
                let artifact = copy_artifact(a);
                self.complete(artifact, underfilled)
            },
            None => SheetAction::Idle,
        }
    }

    fn render_failed(&mut self, error: String, underfilled: Underfilled) -> (r: SheetAction<String>)
        requires
            old(self).harness_attempts <= 6,
        ensures
            wf(*final(self)),
            (final(self)@, SheetStep { progress: None, action: r@ }) == render_failed(
                old(self)@,
                error@,
                underfilled,
            ),
    {
        let numbers = self.numbers(underfilled);
        self.phase = Phase::Finished;
        SheetAction::Finish(SheetOutcome::RenderFailed { error, numbers })
    }

    fn settle(&mut self) -> (r: SheetAction<String>)
        requires
            old(self).first is Some,
            old(self).harness_attempts <= 6,
        ensures
            wf(*final(self)),
            (final(self)@, SheetStep { progress: None, action: r@ }) == settle(old(self)@),
    {
        if self.expansion_used {
            self.phase = Phase::RenderingFinal;
            SheetAction::Render
        } else {
            self.complete_first(Underfilled::Unstated)
        }
    }

    fn after_passes(&mut self, job: &SheetJob) -> (r: SheetAction<String>)
        requires
            old(self).first is Some,
            old(self).harness_attempts <= 5,
        ensures
            wf(*final(self)),
            (final(self)@, SheetStep { progress: None, action: r@ }) == after_passes(
                old(self)@,
                *job,
            ),
    {
        let chars: usize = char_count(self.markdown.as_str());
        if sparse_of(job, chars) {
            self.phase = Phase::Extracting;
            SheetAction::Extract(gap_of(job, chars))
        } else {
            self.settle()
        }
    }

    fn next_pass(&mut self, job: &SheetJob) -> (r: SheetAction<String>)
        requires
            old(self).first is Some,
            old(self).pass <= MAX_EXPANSION_PASSES,
            old(self).harness_attempts <= 2 + old(self).pass,
        ensures
            wf(*final(self)),
            (final(self)@, SheetStep { progress: None, action: r@ }) == next_pass(old(self)@, *job),
    {
        let chars: usize = char_count(self.markdown.as_str());
        if pass_due_of(job, self.pass, chars, self.pages) {
            let amount: usize = pass_amount_of(gap_of(job, chars));
            let request = expand_request_of(job, self.markdown.as_str(), amount);
            self.phase = Phase::Expanding;
            SheetAction::Expand(request)
        } else {
            self.after_passes(job)
        }
    }

    fn expansion_ends(&mut self, job: &SheetJob) -> (r: SheetAction<String>)
        requires
            old(self).first is Some,
            old(self).harness_attempts <= 5,
        ensures
            wf(*final(self)),
            (final(self)@, SheetStep { progress: None, action: r@ }) == expansion_ends(
                old(self)@,
                *job,
            ),
    {
        match job.expansion {
            Expansion::Passes => self.after_passes(job),
            Expansion::Single => self.complete_first(Underfilled::Unstated),
        }
    }

    fn expand(&mut self, job: &SheetJob) -> (r: SheetAction<String>)
        requires
            old(self).first is Some,
            old(self).pass == 0,
            old(self).harness_attempts <= 2,
        ensures
            wf(*final(self)),
            (final(self)@, SheetStep { progress: None, action: r@ }) == match job.expansion {
                Expansion::Passes => next_pass(old(self)@, *job),
                Expansion::Single => await_in(
                    old(self)@,
                    Phase::Expanding,
                    SheetAction::Expand(
                        expand_request(
                            *job,
                            old(self)@.markdown,
                            single_amount(gap(*job, old(self)@.markdown.len() as int)) as usize,
                        ),
                    ),
                ),
            },
    {
        match job.expansion {
            Expansion::Passes => self.next_pass(job),
            Expansion::Single => {
                let chars: usize = char_count(self.markdown.as_str());
                let amount: usize = single_amount_of(gap_of(job, chars));
                let request = expand_request_of(job, self.markdown.as_str(), amount);
                self.phase = Phase::Expanding;
                SheetAction::Expand(request)
            },
        }
    }

    fn expanded(&mut self, job: &SheetJob, markdown: String) -> (r: SheetAction<String>)
        requires
            wf(*old(self)),
            old(self).phase == Phase::Expanding,
        ensures
            wf(*final(self)),
            (final(self)@, SheetStep { progress: None, action: r@ }) == next(
                old(self)@,
                *job,
                SheetEvent::Reply { markdown: markdown@, retry: false },
            ),
    {
        match job.expansion {
            Expansion::Passes => {
                if char_count(markdown.as_str()) <= char_count(self.markdown.as_str()) {
                    self.after_passes(job)
                } else {
                    self.markdown = markdown.clone();
                    self.harness_attempts = self.harness_attempts + 1;
                    self.expansion_used = true;
                    self.phase = Phase::WritingExpansion;
                    SheetAction::Write(markdown)
                }
            },
            Expansion::Single => {
                self.pending = markdown.clone();
                self.phase = Phase::WritingExpansion;
                SheetAction::Write(markdown)
            },
        }
    }

    fn expansion_rendered(&mut self, job: &SheetJob, artifact: Artifact<String>) -> (r: SheetAction<
        String,
    >)
        requires
            wf(*old(self)),
            old(self).phase == Phase::RenderingExpansion,
        ensures
            wf(*final(self)),
            (final(self)@, SheetStep { progress: None, action: r@ }) == next(
                old(self)@,
                *job,
                SheetEvent::Rendered(artifact@),
            ),
    {
        self.pages = Some(artifact.page_count);
        match job.expansion {
            Expansion::Passes => {
                if artifact.page_count >= job.max_pages {
                    self.after_passes(job)
                } else {
                    self.pass = self.pass + 1;
                    self.next_pass(job)
                }
            },
            Expansion::Single => {
                self.markdown = self.pending.clone();
                self.harness_attempts = 2;
                self.expansion_used = true;
                self.phase = Phase::RenderingFinal;
                SheetAction::Render
            },
        }
    }

    /// The steps up to the first sheet.
    fn condense_step(&mut self, job: &SheetJob, event: SheetEvent<String>) -> (r: SheetStep<String>)
        requires
            wf(*old(self)),
            condenses(old(self).phase),
        ensures
            wf(*final(self)),
            (final(self)@, r@) == next(old(self)@, *job, event@),
    {
        let mut progress: Option<(usize, String)> = None;
        let action: SheetAction<String> = match (self.phase, event) {
            (Phase::Start, SheetEvent::Begin) => {
                let label = if job.unified {
                    "condensing markdown (unified)"
                } else {
                    "condensing markdown"
                };
                progress = Some((1, label.to_owned()));
                self.phase = Phase::Condensing;
                SheetAction::Condense(condense_request_of(job))
            },
            (Phase::Condensing, SheetEvent::Reply { markdown, retry }) => {
                if retry && !job.conversation {
                    let request = retry_request_of(job, char_count(markdown.as_str()));
                    self.markdown = markdown;
                    self.phase = Phase::Retrying;
                    SheetAction::Condense(request)
                } else {
                    self.markdown = markdown.clone();
                    self.harness_attempts = 1;
                    self.phase = Phase::WritingFirst;
                    SheetAction::Write(markdown)
                }
            },
            (Phase::Condensing, SheetEvent::NoReply) => {
                self.markdown = job.fallback.clone();
                self.harness_attempts = 0;
                self.phase = Phase::WritingFallback;
                SheetAction::Write(job.fallback.clone())
            },
            (Phase::Retrying, SheetEvent::Reply { markdown, retry: _ }) => {
                self.markdown = markdown.clone();
                self.harness_attempts = 2;
                self.phase = Phase::WritingFirst;
                SheetAction::Write(markdown)
            },
            (Phase::Retrying, SheetEvent::NoReply) => {
                self.harness_attempts = 1;
                self.phase = Phase::WritingFirst;
                SheetAction::Write(self.markdown.clone())
            },
            (Phase::WritingFallback, SheetEvent::Written) => {
                self.phase = Phase::RenderingFallback;
                SheetAction::Render
            },
            (Phase::WritingFallback, SheetEvent::NotWritten(error)) => {
                self.phase = Phase::Finished;
                SheetAction::Finish(SheetOutcome::WriteFailed { error })
            },
            (Phase::RenderingFallback, SheetEvent::Rendered(a)) => {
                self.complete(a, Underfilled::LlmFailed)
            },
            (Phase::RenderingFallback, SheetEvent::NotRendered(error)) => {
                self.render_failed(error, Underfilled::LlmFailed)
            },
            _ => SheetAction::Idle,
        };
        SheetStep { progress, action }
    }

    /// The steps from the first sheet to the decision.
    fn first_step(&mut self, job: &SheetJob, event: SheetEvent<String>) -> (r: SheetStep<String>)
        requires
            wf(*old(self)),
            settles_first(old(self).phase),
        ensures
            wf(*final(self)),
            (final(self)@, r@) == next(old(self)@, *job, event@),
    {
        let mut progress: Option<(usize, String)> = None;
        let action: SheetAction<String> = match (self.phase, event) {
            (Phase::WritingFirst, SheetEvent::Written) => {
                progress = Some((2, "rendering PDF".to_owned()));
                self.phase = Phase::RenderingFirst;
                SheetAction::Render
            },
            (Phase::WritingFirst, SheetEvent::NotWritten(error)) => {
                self.phase = Phase::Finished;
                SheetAction::Finish(SheetOutcome::WriteFailed { error })
            },
            (Phase::RenderingFirst, SheetEvent::Rendered(a)) => {
                self.pages = Some(a.page_count);
                self.first = Some(a);
                self.phase = Phase::Deciding;
                SheetAction::Decide
            },
            (Phase::RenderingFirst, SheetEvent::NotRendered(error)) => {
                let reason = shortage_of(job);
                self.render_failed(error, reason)
            },
            (Phase::Deciding, SheetEvent::Decision(expand)) => {
                if expand {
                    let label = if job.unified {
                        "expanding content (unified)"
                    } else {
                        "expanding content"
                    };
                    progress = Some((3, label.to_owned()));
                    self.expand(job)
                } else {
                    let reason = shortage_of(job);
                    self.complete_first(reason)
                }
            },
            _ => SheetAction::Idle,
        };
        SheetStep { progress, action }
    }

    /// The steps of the expansion.
    fn expansion_step(&mut self, job: &SheetJob, event: SheetEvent<String>) -> (r: SheetStep<String>)
        requires
            wf(*old(self)),
            expands(old(self).phase),
        ensures
            wf(*final(self)),
            (final(self)@, r@) == next(old(self)@, *job, event@),
    {
        let progress: Option<(usize, String)> = None;
        let action: SheetAction<String> = match (self.phase, event) {
            (Phase::Expanding, SheetEvent::Reply { markdown, retry: _ }) => {
                self.expanded(job, markdown)
            },
            (Phase::Expanding, SheetEvent::NoReply) => self.expansion_ends(job),
            (Phase::WritingExpansion, SheetEvent::Written) => {
                self.phase = Phase::RenderingExpansion;
                SheetAction::Render
            },
            (Phase::WritingExpansion, SheetEvent::NotWritten(_)) => self.expansion_ends(job),
            (Phase::RenderingExpansion, SheetEvent::Rendered(a)) => self.expansion_rendered(job, a),
            (Phase::RenderingExpansion, SheetEvent::NotRendered(_)) => {
                match job.expansion {
                    Expansion::Passes => self.after_passes(job),
                    Expansion::Single => {
                        self.phase = Phase::RollingBack;
                        SheetAction::Write(self.markdown.clone())
                    },
                }
            },
            _ => SheetAction::Idle,
        };
        SheetStep { progress, action }
    }

    /// The steps after the expansion.
    fn last_step(&mut self, job: &SheetJob, event: SheetEvent<String>) -> (r: SheetStep<String>)
        requires
            wf(*old(self)),
            !condenses(old(self).phase) && !settles_first(old(self).phase) && !expands(old(self).phase),
        ensures
            wf(*final(self)),
            (final(self)@, r@) == next(old(self)@, *job, event@),
    {
        let progress: Option<(usize, String)> = None;
        let action: SheetAction<String> = match (self.phase, event) {
            (Phase::RollingBack, SheetEvent::Written) => self.complete_first(Underfilled::Unstated),
            (Phase::RollingBack, SheetEvent::NotWritten(_)) => {
                self.complete_first(Underfilled::Unstated)
            },
            (Phase::Extracting, SheetEvent::Extracted(t)) => {
                let mut filled = self.markdown.clone();
                filled.push_str("\n\n");
                filled.push_str(t.as_str());
                self.markdown = filled.clone();
                self.harness_attempts = self.harness_attempts + 1;
                self.expansion_used = true;
                self.phase = Phase::WritingExtract;
                SheetAction::Write(filled)
            },
            (Phase::WritingExtract, SheetEvent::Written) => {
                self.phase = Phase::RenderingExtract;
                SheetAction::Render
            },
            (Phase::WritingExtract, SheetEvent::NotWritten(_)) => self.settle(),
            (Phase::RenderingExtract, SheetEvent::Rendered(a)) => {
                self.pages = Some(a.page_count);
                self.settle()
            },
            (Phase::RenderingExtract, SheetEvent::NotRendered(_)) => self.settle(),
            (Phase::RenderingFinal, SheetEvent::Rendered(a)) => {
                self.complete(a, Underfilled::Unstated)
            },
            (Phase::RenderingFinal, SheetEvent::NotRendered(error)) => {
                self.render_failed(error, Underfilled::Unstated)
            },
            _ => SheetAction::Idle,
        };
        SheetStep { progress, action }
    }

    /// Take note of how a piece of work went, and say what comes next.
    pub fn step(&mut self, job: &SheetJob, event: SheetEvent<String>) -> (r: SheetStep<String>)
        requires
            wf(*old(self)),
        ensures
            wf(*final(self)),
            (final(self)@, r@) == next(old(self)@, *job, event@),
    {
        match self.phase {
            Phase::Start
            | Phase::Condensing
            | Phase::Retrying
            | Phase::WritingFallback
            | Phase::RenderingFallback => self.condense_step(job, event),
            Phase::WritingFirst | Phase::RenderingFirst | Phase::Deciding => {
                self.first_step(job, event)
            },
            Phase::Expanding | Phase::WritingExpansion | Phase::RenderingExpansion => {
                self.expansion_step(job, event)
            },
            _ => self.last_step(job, event),
        }
    }
}

fn shortage_of(job: &SheetJob) -> (r: Underfilled)
    ensures
        r == shortage(*job),
{
    if job.ref_digest_chars < job.budget.min_acceptable {
        Underfilled::SourceTooShort
    } else {
        Underfilled::Unstated
    }
}


// ---------------------------------------------------------------------------
// Laws
// ---------------------------------------------------------------------------

/// The run before its first event.
pub open spec fn initial() -> SheetRun<Seq<char>> {
    SheetRun {
        phase: Phase::Start,
        pass: 0,
        markdown: Seq::empty(),
        pending: Seq::empty(),
        harness_attempts: 0,
        expansion_used: false,
        first: None,
        pages: None,
    }
}

/// The run after the given events.
pub open spec fn run_after(job: SheetJob, events: Seq<SheetEvent<Seq<char>>>) -> SheetRun<Seq<char>>
    decreases events.len(),
{
    if events.len() == 0 {
        initial()
    } else {
        next(run_after(job, events.drop_last()), job, events.last()).0
    }
}

/// How many requests for an expansion the given events lead to.
pub open spec fn expansion_requests(job: SheetJob, events: Seq<SheetEvent<Seq<char>>>) -> nat
    decreases events.len(),
{
    if events.len() == 0 {
        0
    } else {
        let before = events.drop_last();
        expansion_requests(job, before) + if next(
            run_after(job, before),
            job,
            events.last(),
        ).1.action is Expand {
            1nat
        } else {
            0nat
        }
    }
}

/// How far a run is from its end.
pub open spec fn distance(run: SheetRun<Seq<char>>) -> int {
    match run.phase {
        Phase::Start => 25,
        Phase::Condensing => 24,
        Phase::Retrying => 23,
        Phase::WritingFirst => 22,
        Phase::RenderingFirst => 21,
        Phase::Deciding => 20,
        Phase::Expanding => 13 - 3 * run.pass,
        Phase::WritingExpansion => 12 - 3 * run.pass,
        Phase::RenderingExpansion => 11 - 3 * run.pass,
        Phase::Extracting => 4,
        Phase::WritingExtract => 3,
        Phase::RenderingExtract => 2,
        Phase::WritingFallback => 2,
        Phase::RenderingFallback => 1,
        Phase::RollingBack => 1,
        Phase::RenderingFinal => 1,
        Phase::Finished => 0,
    }
}

/// Every step brings the run closer to its end, or the event was not awaited
/// and nothing changes. A run is therefore over after at most twenty-five
/// awaited events.
pub proof fn law_run_ends(run: SheetRun<Seq<char>>, job: SheetJob, event: SheetEvent<Seq<char>>)
    requires
        wf(run),
    ensures
        wf(next(run, job, event).0),
        0 <= distance(run) <= 25,
        next(run, job, event).1.action is Idle ==> next(run, job, event).0 == run,
        !(next(run, job, event).1.action is Idle) ==> distance(next(run, job, event).0) < distance(
            run,
        ),
{
}

/// A run that is over stays as it is.
pub proof fn law_finished_is_final(run: SheetRun<Seq<char>>, job: SheetJob, event: SheetEvent<Seq<char>>)
    requires
        run.phase == Phase::Finished,
    ensures
        next(run, job, event).0 == run,
        next(run, job, event).1.action is Idle,
{
}

/// An end is recorded exactly when the run gets over.
pub proof fn law_outcome_at_the_end(
    run: SheetRun<Seq<char>>,
    job: SheetJob,
    event: SheetEvent<Seq<char>>,
)
    requires
        wf(run),
    ensures
        next(run, job, event).1.action is Finish <==> (run.phase != Phase::Finished && next(
            run,
            job,
            event,
        ).0.phase == Phase::Finished),
{
}

/// A sheet is asked for a second time only where the first reply was too short and
/// did not continue a conversation, and never a third time: the next reply, or none,
/// is followed by writing the sheet.
pub proof fn law_one_retry(run: SheetRun<Seq<char>>, job: SheetJob, event: SheetEvent<Seq<char>>)
    requires
        wf(run),
        next(run, job, event).1.action is Condense,
    ensures
        run.phase == Phase::Start || (run.phase == Phase::Condensing && !job.conversation && (event
            matches SheetEvent::Reply { retry, .. } && retry)),
        run.phase == Phase::Condensing ==> forall|later: SheetEvent<Seq<char>>|
            #![trigger next(next(run, job, event).0, job, later)]
            !(next(next(run, job, event).0, job, later).1.action is Condense),
{
}

/// In passes, the sheet never gets shorter once it was rendered, and it changes
/// only where it is marked as expanded.
pub proof fn law_passes_only_grow(
    run: SheetRun<Seq<char>>,
    job: SheetJob,
    event: SheetEvent<Seq<char>>,
)
    requires
        wf(run),
        after_first(run.phase),
        job.expansion == Expansion::Passes,
    ensures
        run.markdown.len() <= next(run, job, event).0.markdown.len(),
        next(run, job, event).0.markdown != run.markdown ==> next(
            run,
            job,
            event,
        ).0.expansion_used,
{
}

/// The rendering that an outcome records is the first one, or the one made after an
/// expansion; and its number of characters is that of the sheet.
pub proof fn law_rendering_of_the_outcome(
    run: SheetRun<Seq<char>>,
    job: SheetJob,
    event: SheetEvent<Seq<char>>,
)
    requires
        wf(run),
        after_first(run.phase),
        next(run, job, event).1.action matches SheetAction::Finish(
            SheetOutcome::Complete { numbers: n, .. },
        ),
    ensures
        next(run, job, event).1.action matches SheetAction::Finish(
            SheetOutcome::Complete { artifact, numbers: n, .. },
        ) && (artifact == run.first->0 || (event == SheetEvent::Rendered(artifact) && run.phase
            == Phase::RenderingFinal)) && n.generated_chars == run.markdown.len() as usize,
{
}

/// A single expansion that cannot be rendered is undone: the sheet from before
/// is written again and the first rendering stands.
pub proof fn law_single_expansion_rolls_back(
    run: SheetRun<Seq<char>>,
    job: SheetJob,
    error: Seq<char>,
    event: SheetEvent<Seq<char>>,
)
    requires
        wf(run),
        run.phase == Phase::RenderingExpansion,
        job.expansion == Expansion::Single,
        event == SheetEvent::<Seq<char>>::Written || event is NotWritten,
    ensures
        ({
            let back = next(run, job, SheetEvent::NotRendered(error));
            let end = next(back.0, job, event);
            &&& back.1.action == SheetAction::Write(run.markdown)
            &&& end.0.markdown == run.markdown
            &&& end.1.action matches SheetAction::Finish(SheetOutcome::Complete { artifact, .. })
                && artifact == run.first->0
        }),
{
}

/// A run asks for an expansion at most three times.
pub proof fn law_expansion_requests_bounded(job: SheetJob, events: Seq<SheetEvent<Seq<char>>>)
    ensures
        expansion_requests(job, events) <= MAX_EXPANSION_PASSES,
{
    lemma_expansion_requests(job, events);
}

proof fn lemma_expansion_requests(job: SheetJob, events: Seq<SheetEvent<Seq<char>>>)
    ensures
        wf(run_after(job, events)),
        expansion_requests(job, events) <= MAX_EXPANSION_PASSES,
        ({
            let run = run_after(job, events);
            match run.phase {
                Phase::Expanding | Phase::WritingExpansion | Phase::RenderingExpansion =>
                    expansion_requests(job, events) <= run.pass + 1,
                Phase::Extracting | Phase::RollingBack | Phase::WritingExtract
                | Phase::RenderingExtract | Phase::RenderingFinal | Phase::Finished => true,
                _ => expansion_requests(job, events) == 0,
            }
        }),
    decreases events.len(),
{
    if events.len() > 0 {
        lemma_expansion_requests(job, events.drop_last());
    }
}

/// What is written is what came: the reply as it is; after a second request its reply,
/// or the first reply where none came; and the digest in compressed form where no reply
/// came at all. What is written is then rendered.
pub proof fn law_sheet_is_the_reply(
    run: SheetRun<Seq<char>>,
    job: SheetJob,
    md: Seq<char>,
    retry: bool,
)
    requires
        wf(run),
    ensures
        ({
            let (t, step) = next(run, job, SheetEvent::Reply { markdown: md, retry });
            let (u, none) = next(run, job, SheetEvent::NoReply);
            &&& run.phase == Phase::Condensing && (!retry || job.conversation) || run.phase
                == Phase::Retrying ==> step.action == SheetAction::Write(md) && t.markdown == md
            &&& run.phase == Phase::Condensing && retry && !job.conversation ==> step.action
                is Condense && t.markdown == md && t.phase == Phase::Retrying
            &&& run.phase == Phase::Retrying ==> none.action == SheetAction::Write(run.markdown)
                && u.markdown == run.markdown
            &&& run.phase == Phase::Condensing ==> none.action == SheetAction::Write(job.fallback@)
                && u.markdown == job.fallback@
        }),
        ({
            let (t, step) = next(run, job, SheetEvent::Written);
            run.phase == Phase::WritingFirst || run.phase == Phase::WritingFallback || run.phase
                == Phase::WritingExpansion || run.phase == Phase::WritingExtract ==> step.action
                is Render && t.markdown == run.markdown
        }),
{
}

/// An expanded sheet replaces the one that there is only where it is longer, when it is
/// expanded in passes; what is extracted from the digest is added behind the sheet.
pub proof fn law_expansion_never_loses_text(
    run: SheetRun<Seq<char>>,
    job: SheetJob,
    md: Seq<char>,
    retry: bool,
)
    requires
        wf(run),
    ensures
        ({
            let (t, step) = next(run, job, SheetEvent::Reply { markdown: md, retry });
            run.phase == Phase::Expanding && job.expansion == Expansion::Passes ==> if md.len()
                > run.markdown.len() {
                step.action == SheetAction::Write(md) && t.markdown == md && t.expansion_used
            } else {
                t.markdown == run.markdown && !(step.action is Write)
            }
        }),
        ({
            let (t, step) = next(run, job, SheetEvent::Extracted(md));
            run.phase == Phase::Extracting ==> t.markdown == run.markdown + "\n\n"@ + md
                && step.action == SheetAction::Write(run.markdown + "\n\n"@ + md)
                && t.expansion_used
        }),
{
}

/// A single expansion takes effect only once it was rendered.
pub proof fn law_single_expansion_is_taken_over(
    run: SheetRun<Seq<char>>,
    job: SheetJob,
    md: Seq<char>,
    retry: bool,
    a: Artifact<Seq<char>>,
)
    requires
        wf(run),
        run.phase == Phase::Expanding,
        job.expansion == Expansion::Single,
    ensures
        ({
            let (t, step) = next(run, job, SheetEvent::Reply { markdown: md, retry });
            let (u, render) = next(t, job, SheetEvent::Written);
            let (v, last) = next(u, job, SheetEvent::Rendered(a));
            &&& step.action == SheetAction::Write(md)
            &&& t.markdown == run.markdown && u.markdown == run.markdown
            &&& render.action is Render
            &&& v.markdown == md && v.pages == Some(a.page_count)
            &&& last.action is Render
        }),
{
}

/// How much more is asked for: what is missing to the target, but at least two thousand
/// characters, and at most twelve thousand in a pass and six thousand at once.
pub proof fn law_amounts_are_what_is_missing(job: SheetJob, chars: int)
    requires
        0 <= chars,
    ensures
        chars <= job.budget.target ==> gap(job, chars) + chars == job.budget.target,
        chars >= job.budget.target ==> gap(job, chars) == 0,
        2000 <= pass_amount(gap(job, chars)) <= 12000,
        2000 <= gap(job, chars) <= 12000 ==> pass_amount(gap(job, chars)) == gap(job, chars),
        gap(job, chars) > 12000 ==> pass_amount(gap(job, chars)) == 12000,
        2000 <= single_amount(gap(job, chars)) <= 6000,
        2000 <= gap(job, chars) <= 6000 ==> single_amount(gap(job, chars)) == gap(job, chars),
        gap(job, chars) > 6000 ==> single_amount(gap(job, chars)) == 6000,
{
}

/// A further pass is made exactly where there were fewer than three, the sheet is
/// shorter than its target, and its pages are not all in use by more text than they
/// take.
pub proof fn law_passes_while_there_is_room(
    job: SheetJob,
    pass: int,
    chars: int,
    pages: usize,
)
    requires
        0 < pages,
        0 < job.max_pages,
        0 <= chars,
    ensures
        pass_due(job, pass, chars, Some(pages)) <==> pass < 3 && chars < job.budget.target && (pages
            < job.max_pages || chars <= (job.budget.soft_max as int / job.max_pages as int)
            * pages),
        sparse(job, chars) <==> chars * 10 < job.budget.target * 7,
{
}

/// After a pass that fills the pages no other is made; after one that leaves some the
/// next one is asked for where it is due, with the sheet as it is by then.
pub proof fn law_full_pages_end_the_passes(
    run: SheetRun<Seq<char>>,
    job: SheetJob,
    a: Artifact<Seq<char>>,
)
    requires
        wf(run),
        run.phase == Phase::RenderingExpansion,
        job.expansion == Expansion::Passes,
    ensures
        ({
            let (t, step) = next(run, job, SheetEvent::Rendered(a));
            let chars = run.markdown.len() as int;
            &&& t.pages == Some(a.page_count)
            &&& t.markdown == run.markdown
            &&& step.action is Expand <==> a.page_count < job.max_pages && pass_due(
                job,
                run.pass + 1,
                chars,
                Some(a.page_count),
            )
            &&& step.action matches SheetAction::Expand(request) ==> request == expand_request(
                job,
                run.markdown,
                pass_amount(gap(job, chars)) as usize,
            )
        }),
{
}

/// A sheet that is good enough as it was first rendered is the result, and so is its
/// rendering; a sheet that had to do without a reply says so; and of a sheet that could
/// not be rendered the reason is kept.
pub proof fn law_outcomes(
    run: SheetRun<Seq<char>>,
    job: SheetJob,
    a: Artifact<Seq<char>>,
    e: Seq<char>,
)
    requires
        wf(run),
        run.markdown.len() <= usize::MAX,
    ensures
        run.phase == Phase::Deciding ==> (next(run, job, SheetEvent::Decision(false)).1.action
            matches SheetAction::Finish(
            SheetOutcome::Complete { artifact, numbers, final_page_count },
        ) && artifact == run.first->0 && numbers.generated_chars == run.markdown.len()
            && numbers.underfilled == (if job.ref_digest_chars < job.budget.min_acceptable {
            Underfilled::SourceTooShort
        } else {
            Underfilled::Unstated
        }) && (run.pages matches Some(p) ==> final_page_count == p)),
        run.phase == Phase::RenderingFallback ==> (next(run, job, SheetEvent::Rendered(a)).1.action
            matches SheetAction::Finish(
            SheetOutcome::Complete { artifact, numbers, final_page_count: _ },
        ) && artifact == a && numbers.underfilled == Underfilled::LlmFailed),
        run.phase == Phase::RenderingFinal ==> (next(run, job, SheetEvent::Rendered(a)).1.action
            matches SheetAction::Finish(
            SheetOutcome::Complete { artifact, numbers, final_page_count: _ },
        ) && artifact == a && numbers.generated_chars == run.markdown.len()),
        run.phase == Phase::RenderingFirst || run.phase == Phase::RenderingFallback || run.phase
            == Phase::RenderingFinal ==> (next(run, job, SheetEvent::NotRendered(e)).1.action
            matches SheetAction::Finish(SheetOutcome::RenderFailed { error, numbers: _ }) && error
            == e),
        run.phase == Phase::WritingFirst || run.phase == Phase::WritingFallback ==> (next(
            run,
            job,
            SheetEvent::NotWritten(e),
        ).1.action matches SheetAction::Finish(SheetOutcome::WriteFailed { error }) && error == e),
        run.phase == Phase::RenderingFirst ==> next(run, job, SheetEvent::Rendered(a)).0.first
            == Some(a) && next(run, job, SheetEvent::Rendered(a)).1.action is Decide,
{
}

/// What the user says in a request.
pub open spec fn request_text(request: Request<Seq<char>>) -> Seq<char> {
    match request {
        Request::Turn { user } => user,
        Request::Fresh { system: _, user } => user,
    }
}

/// Requests go on with the conversation where there is one. Else they hold the digest
/// themselves, and when they ask for more the sheet too. A second request repeats the
/// first, and says how long the reply was and how long it should be.
pub proof fn law_requests_hold_what_they_are_about(
    job: SheetJob,
    md: Seq<char>,
    amount: usize,
    chars: nat,
)
    ensures
        condense_request(job) is Turn == job.conversation,
        expand_request(job, md, amount) is Turn == job.conversation,
        crate::text::contains_of(request_text(condense_request(job)), job.inventory@),
        crate::text::contains_of(request_text(expand_request(job, md, amount)), job.inventory@),
        !job.conversation ==> crate::text::contains_of(
            request_text(condense_request(job)),
            job.excerpt@,
        ),
        !job.conversation ==> crate::text::contains_of(
            request_text(expand_request(job, md, amount)),
            job.excerpt@,
        ),
        !job.conversation ==> crate::text::contains_of(
            request_text(expand_request(job, md, amount)),
            md,
        ),
        request_text(retry_request(job, chars)) == request_text(condense_request(job))
            + (RETRY_START@ + crate::text::decimal_of(chars) + " characters. The target is "@
            + crate::text::decimal_of(job.budget.target as nat) + RETRY_AFTER_TARGET@),
{
    crate::prompts::cheat_sheet::law_sheet_prompts_hold_the_digest(
        job.excerpt@,
        job.inventory@,
        job.section_names@,
        job.section_count,
        job.max_pages,
        job.budget,
    );
    crate::prompts::cheat_sheet::law_expansion_prompts_hold_the_sheet(
        md,
        job.inventory@,
        job.excerpt@,
        amount,
        job.budget.language,
    );
}

/// The steps of a run that belongs to the larger pipeline are marked so, and are named as
/// the others are.
pub proof fn law_labels_of_steps(job: SheetJob)
    ensures
        condensing_label(job) == "condensing markdown"@ + (if job.unified {
            " (unified)"@
        } else {
            ""@
        }),
        expanding_label(job) == "expanding content"@ + (if job.unified {
            " (unified)"@
        } else {
            ""@
        }),
{
    reveal_strlit("condensing markdown");
    reveal_strlit("condensing markdown (unified)");
    reveal_strlit("expanding content");
    reveal_strlit("expanding content (unified)");
    reveal_strlit(" (unified)");
    reveal_strlit("");
    assert("condensing markdown"@ + " (unified)"@ =~= "condensing markdown (unified)"@);
    assert("condensing markdown"@ + ""@ =~= "condensing markdown"@);
    assert("expanding content"@ + " (unified)"@ =~= "expanding content (unified)"@);
    assert("expanding content"@ + ""@ =~= "expanding content"@);
}

} // verus!
