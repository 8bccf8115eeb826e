//! Notes and digests of whole courses: an outline is planned, each section is
//! written from what is found for it, and the sections are merged.

use vstd::prelude::*;

use crate::json::{flag, number, object, put, text, Json, JsonView};
use crate::process::{OutputChange, ProcessStatus};
use crate::prompts::course::{
    merge_system_prompt, merge_user_prompt, outline_retry_prompt, outline_system_prompt,
    outline_user_prompt, section_system_prompt, section_user_prompt, CourseKind, PlannedSection,
};
use crate::text::{char_count, opt_view, push_decimal, views};

verus! {

/// What a course text is made from.
#[derive(Debug)]
pub struct CourseJob {
    /// What is made.
    pub kind: CourseKind,
    /// How many days of the course are indexed.
    pub index_count: usize,
    /// Whether the language model can be reached.
    pub llm_available: bool,
    /// What the index says of the course.
    pub outline_context: String,
    /// The headings of a note, as the prompt for the outline lists them.
    pub note_headings: String,
}

/// What the run waits for.
#[derive(Debug, Clone, Copy, PartialEq, Eq, Structural)]
pub enum CoursePhase {
    /// To be started.
    Start,
    /// The outline.
    Outline,
    /// The outline, after a first one that could not be used.
    OutlineRetry,
    /// An outline made without the language model.
    Fallback,
    /// What the transcripts hold for a section.
    Retrieving,
    /// A section.
    Section,
    /// The merged text.
    Merging,
    /// Nothing: the run is over.
    Finished,
}

/// Where a run stands. `L` is a list of `T`, `P` a list of planned sections.
#[derive(Debug)]
pub struct CourseRun<T, L, P> {
    /// What it waits for.
    pub phase: CoursePhase,
    /// The planned sections.
    pub sections: P,
    /// The sections that are written.
    pub written: L,
    /// Why the outline was made without the language model, where it was.
    pub fallback_reason: Option<T>,
}

/// What happened.
#[derive(Debug)]
pub enum CourseEvent<T, P> {
    /// The run begins.
    Begin,
    /// A reply with an outline came.
    Planned {
        /// The reply.
        reply: T,
        /// Why it ends.
        finish_reason: Option<T>,
        /// The sections that it plans, or why it cannot be read.
        sections: Result<P, T>,
    },
    /// An outline was made without the language model, or could not be.
    FellBack(Result<P, T>),
    /// This is what the transcripts hold for the section.
    Retrieved(T),
    /// A reply came.
    Reply(T),
    /// No reply came.
    NoReply(T),
}

/// What to do next.
#[derive(Debug)]
pub enum CourseAction<T> {
    /// Ask for an outline, in JSON.
    Plan {
        /// The system prompt.
        system: T,
        /// The user prompt.
        user: T,
        /// The most tokens that the reply may have.
        max_tokens: u32,
    },
    /// Make an outline without the language model.
    FallBack,
    /// Find what the transcripts hold for the section with this number.
    Retrieve(usize),
    /// Ask for a text. The temperature is in hundredths.
    Write {
        /// The system prompt.
        system: T,
        /// The user prompt.
        user: T,
        /// The sampling temperature, in hundredths.
        temperature: u32,
        /// The most tokens that the reply may have.
        max_tokens: u32,
    },
    /// The text is done.
    Done(T),
    /// There is no text, for this reason. `planned` says whether there was an
    /// outline.
    Failed {
        /// The reason.
        reason: T,
        /// Whether there was an outline.
        planned: bool,
    },
    /// Nothing.
    Idle,
}

/// What to do next, and the progress to show before it.
#[derive(Debug)]
pub struct CourseStep<T> {
    /// The progress to show first, where an outline was just planned for a note.
    pub planned: Option<(usize, usize, T)>,
    /// The step that is reached, the number of steps, and a label.
    pub progress: Option<(usize, usize, T)>,
    /// The work.
    pub action: CourseAction<T>,
}

impl View for CourseRun<String, Vec<String>, Vec<PlannedSection>> {
    type V = CourseRun<Seq<char>, Seq<Seq<char>>, Seq<PlannedSection>>;

    open spec fn view(&self) -> CourseRun<Seq<char>, Seq<Seq<char>>, Seq<PlannedSection>> {
        CourseRun {
            phase: self.phase,
            sections: self.sections@,
            written: views(self.written@),
            fallback_reason: opt_view(self.fallback_reason),
        }
    }
}

impl View for CourseEvent<String, Vec<PlannedSection>> {
    type V = CourseEvent<Seq<char>, Seq<PlannedSection>>;

    open spec fn view(&self) -> CourseEvent<Seq<char>, Seq<PlannedSection>> {
        match *self {
            CourseEvent::Begin => CourseEvent::Begin,
            CourseEvent::Planned { reply, finish_reason, sections } => CourseEvent::Planned {
                reply: reply@,
                finish_reason: opt_view(finish_reason),
                sections: match sections {
                    Ok(p) => Ok(p@),
                    Err(e) => Err(e@),
                },
            },
            CourseEvent::FellBack(sections) => CourseEvent::FellBack(
                match sections {
                    Ok(p) => Ok(p@),
                    Err(e) => Err(e@),
                },
            ),
            CourseEvent::Retrieved(t) => CourseEvent::Retrieved(t@),
            CourseEvent::Reply(t) => CourseEvent::Reply(t@),
            CourseEvent::NoReply(t) => CourseEvent::NoReply(t@),
        }
    }
}

impl View for CourseAction<String> {
    type V = CourseAction<Seq<char>>;

    open spec fn view(&self) -> CourseAction<Seq<char>> {
        match *self {
            CourseAction::Plan { system, user, max_tokens } => CourseAction::Plan {
                system: system@,
                user: user@,
                max_tokens,
            },
            CourseAction::FallBack => CourseAction::FallBack,
            CourseAction::Retrieve(i) => CourseAction::Retrieve(i),
            CourseAction::Write { system, user, temperature, max_tokens } => CourseAction::Write {
                system: system@,
                user: user@,
                temperature,
                max_tokens,
            },
            CourseAction::Done(t) => CourseAction::Done(t@),
            CourseAction::Failed { reason, planned } => CourseAction::Failed {
                reason: reason@,
                planned,
            },
            CourseAction::Idle => CourseAction::Idle,
        }
    }
}

impl View for CourseStep<String> {
    type V = CourseStep<Seq<char>>;

    open spec fn view(&self) -> CourseStep<Seq<char>> {
        CourseStep {
            planned: match self.planned {
                Some((i, n, l)) => Some((i, n, l@)),
                None => None,
            },
            progress: match self.progress {
                Some((i, n, l)) => Some((i, n, l@)),
                None => None,
            },
            action: self.action@,
        }
    }
}

/// The view of a run.
pub type CourseState = CourseRun<Seq<char>, Seq<Seq<char>>, Seq<PlannedSection>>;

/// A run with the step that it takes.
pub type CourseMove = (CourseState, CourseStep<Seq<char>>);

/// A step with a progress message.
pub open spec fn shown(current: usize, total: usize, label: Seq<char>, action: CourseAction<Seq<char>>) -> CourseStep<
    Seq<char>,
> {
    CourseStep { planned: None, progress: Some((current, total, label)), action }
}

/// A step without one.
pub open spec fn silent(action: CourseAction<Seq<char>>) -> CourseStep<Seq<char>> {
    CourseStep { planned: None, progress: None, action }
}

/// `n + k`, or the largest number.
pub open spec fn capped_sum(n: int, k: int) -> usize {
    if n + k <= usize::MAX {
        (n + k) as usize
    } else {
        usize::MAX
    }
}

/// How many steps a run has: loading, planning, its sections and the merge.
pub open spec fn total_steps(run: CourseState) -> usize {
    capped_sum(run.sections.len() as int, 3)
}

/// Whether an outline is of the size that is asked for.
pub open spec fn acceptable(sections: Result<Seq<PlannedSection>, Seq<char>>) -> bool {
    sections matches Ok(p) && 4 <= p.len() <= 24
}

/// What the messages about an outline begin with.
pub open spec fn outline_subject(kind: CourseKind) -> Seq<char> {
    match kind {
        CourseKind::Note => "Outline"@,
        CourseKind::Digest => "Reference Digest outline"@,
    }
}

/// Why a second outline could not be used either.
pub open spec fn retry_reason(
    kind: CourseKind,
    sections: Result<Seq<PlannedSection>, Seq<char>>,
) -> Seq<char> {
    match sections {
        Ok(p) => outline_subject(kind) + " retry produced "@ + crate::text::decimal_of(p.len())
            + " section(s), expected 4-24"@,
        Err(e) => outline_subject(kind) + " retry parse failed: "@ + e,
    }
}

/// The run ends without a text.
pub open spec fn course_failed(run: CourseState, reason: Seq<char>, planned: bool) -> CourseMove {
    (
        CourseRun { phase: CoursePhase::Finished, ..run },
        silent(CourseAction::Failed { reason, planned }),
    )
}

/// The outline has to be made without the language model, for this reason.
pub open spec fn fall_back(run: CourseState, reason: Seq<char>) -> CourseMove {
    (
        CourseRun { phase: CoursePhase::Fallback, fallback_reason: Some(reason), ..run },
        silent(CourseAction::FallBack),
    )
}

/// The label of the section that is written next.
pub open spec fn section_label(kind: CourseKind, run: CourseState) -> Seq<char> {
    let counted = crate::text::decimal_of((run.written.len() + 1) as nat) + "/"@
        + crate::text::decimal_of(run.sections.len());
    match kind {
        CourseKind::Note => "generating section "@ + counted,
        CourseKind::Digest => "generating digest section "@ + counted,
    }
}

/// The next section, or the merge once all are written.
pub open spec fn next_section(run: CourseState, job: CourseJob) -> CourseMove {
    if run.written.len() < run.sections.len() {
        (
            CourseRun { phase: CoursePhase::Retrieving, ..run },
            shown(
                capped_sum(run.written.len() as int, 2),
                total_steps(run),
                section_label(job.kind, run),
                CourseAction::Retrieve(run.written.len() as usize),
            ),
        )
    } else {
        (
            CourseRun { phase: CoursePhase::Merging, ..run },
            shown(
                capped_sum(run.sections.len() as int, 1),
                total_steps(run),
                match job.kind {
                    CourseKind::Note => "merging sections"@,
                    CourseKind::Digest => "merging digest sections"@,
                },
                CourseAction::Write {
                    system: crate::prompts::course::merge_system(job.kind)
                        + crate::prompts::course::style(job.kind),
                    user: crate::prompts::course::merge_user(job.kind, run.written),
                    temperature: 20,
                    max_tokens: crate::prompts::course::merge_tokens(job.kind),
                },
            ),
        )
    }
}

/// The first section of an outline that was just planned. For a note the progress
/// shows the planning again, now with the number of steps that is known.
pub open spec fn first_section(run: CourseState, job: CourseJob) -> CourseMove {
    let (after, step) = next_section(run, job);
    (
        after,
        CourseStep {
            planned: match job.kind {
                CourseKind::Note => Some((1usize, total_steps(run), "planning note outline"@)),
                CourseKind::Digest => None,
            },
            ..step
        },
    )
}

/// The error for a language model that cannot be reached.
pub open spec fn unavailable(kind: CourseKind) -> Seq<char> {
    match kind {
        CourseKind::Note =>
            "LLM is not available. Set OPENAI_API_KEY in Settings to enable Note Patch generation."@,
        CourseKind::Digest =>
            "LLM is not available. Set OPENAI_API_KEY in Settings to enable Reference Digest generation."@,
    }
}

/// What a run does when something happens. What it does not wait for changes
/// nothing.
pub open spec fn course_next(
    run: CourseState,
    job: CourseJob,
    event: CourseEvent<Seq<char>, Seq<PlannedSection>>,
) -> CourseMove {
    match (run.phase, event) {
        (CoursePhase::Start, CourseEvent::Begin) => if job.index_count == 0 {
            course_failed(run, "No ready Course Transcript indexes found."@, false)
        } else if !job.llm_available {
            course_failed(run, unavailable(job.kind), false)
        } else {
            (
                CourseRun { phase: CoursePhase::Outline, ..run },
                shown(
                    1,
                    4,
                    match job.kind {
                        CourseKind::Note => "planning note outline"@,
                        CourseKind::Digest => "planning digest outline"@,
                    },
                    CourseAction::Plan {
                        system: crate::prompts::course::outline_system(job.kind),
                        user: crate::prompts::course::outline_user(
                            job.kind,
                            job.outline_context@,
                            job.note_headings@,
                        ),
                        max_tokens: 49152,
                    },
                ),
            )
        },
        (CoursePhase::Outline, CourseEvent::Planned { reply, finish_reason, sections }) =>
            if acceptable(sections) {
            first_section(CourseRun { sections: sections->Ok_0, ..run }, job)
        } else {
            (
                CourseRun { phase: CoursePhase::OutlineRetry, ..run },
                silent(
                    CourseAction::Plan {
                        system: crate::prompts::course::outline_system(job.kind),
                        user: crate::prompts::course::outline_retry_user(
                            job.kind,
                            job.outline_context@,
                            job.note_headings@,
                            reply,
                            finish_reason,
                        ),
                        max_tokens: 57344,
                    },
                ),
            )
        },
        (CoursePhase::Outline, CourseEvent::NoReply(_)) => fall_back(
            run,
            outline_subject(job.kind) + " LLM call failed"@,
        ),
        (CoursePhase::OutlineRetry, CourseEvent::Planned { sections, .. }) => if acceptable(
            sections,
        ) {
            first_section(CourseRun { sections: sections->Ok_0, ..run }, job)
        } else {
            fall_back(run, retry_reason(job.kind, sections))
        },
        (CoursePhase::OutlineRetry, CourseEvent::NoReply(_)) => fall_back(
            run,
            outline_subject(job.kind) + " retry LLM call failed"@,
        ),
        (CoursePhase::Fallback, CourseEvent::FellBack(sections)) => match sections {
            Ok(p) => first_section(CourseRun { sections: p, ..run }, job),
            Err(e) => course_failed(
                run,
                (match job.kind {
                    CourseKind::Note => "Failed to generate course note outline: "@,
                    CourseKind::Digest => "Failed to generate Reference Digest outline: "@,
                }) + run.fallback_reason->0 + ". Fallback also failed: "@ + e,
                false,
            ),
        },
        (CoursePhase::Retrieving, CourseEvent::Retrieved(context)) => (
            CourseRun { phase: CoursePhase::Section, ..run },
            silent(
                CourseAction::Write {
                    system: crate::prompts::course::section_system(
                        job.kind,
                        run.sections[run.written.len() as int],
                    ),
                    user: crate::prompts::course::section_user(job.kind)
                        + crate::text::first_chars(context, 32000),
                    temperature: 25,
                    max_tokens: crate::prompts::course::section_tokens(job.kind),
                },
            ),
        ),
        (CoursePhase::Section, CourseEvent::Reply(t)) => next_section(
            CourseRun { written: run.written.push(t), ..run },
            job,
        ),
        (CoursePhase::Section, CourseEvent::NoReply(e)) => course_failed(
            run,
            "Section '"@ + run.sections[run.written.len() as int].title@ + "' generation failed: "@
                + e + ". "@ + crate::text::decimal_of(run.written.len()) + "/"@
                + crate::text::decimal_of(run.sections.len()) + " sections succeeded."@,
            true,
        ),
        (CoursePhase::Merging, CourseEvent::Reply(t)) => (
            CourseRun { phase: CoursePhase::Finished, ..run },
            shown(total_steps(run), total_steps(run), "complete"@, CourseAction::Done(t)),
        ),
        (CoursePhase::Merging, CourseEvent::NoReply(e)) => course_failed(
            run,
            (match job.kind {
                CourseKind::Note => "Failed to merge note sections: "@,
                CourseKind::Digest => "Failed to merge Reference Digest sections: "@,
            }) + e,
            true,
        ),
        _ => (run, silent(CourseAction::Idle)),
    }
}

/// What holds of every run: no section is written before it is planned, and the
/// reason for an outline without the language model is known.
pub open spec fn course_wf(run: CourseState) -> bool {
    &&& run.written.len() <= run.sections.len()
    &&& (run.phase == CoursePhase::Retrieving || run.phase == CoursePhase::Section)
        ==> run.written.len() < run.sections.len()
    &&& run.phase == CoursePhase::Fallback ==> run.fallback_reason is Some
    &&& match run.phase {
        CoursePhase::Start | CoursePhase::Outline | CoursePhase::OutlineRetry
        | CoursePhase::Fallback => run.written.len() == 0,
        CoursePhase::Merging => run.written.len() == run.sections.len(),
        _ => true,
    }
}

fn plus(n: usize, k: usize) -> (r: usize)
    ensures
        r == capped_sum(n as int, k as int),
{
    n.saturating_add(k)
}

fn outline_subject_of(kind: CourseKind) -> (r: &'static str)
    ensures
        r@ == outline_subject(kind),
{
    match kind {
        CourseKind::Note => "Outline",
        CourseKind::Digest => "Reference Digest outline",
    }
}

fn acceptable_sections(sections: &Result<Vec<PlannedSection>, String>) -> (r: bool)
    ensures
        r == acceptable(
            match *sections {
                Ok(p) => Ok(p@),
                Err(e) => Err(e@),
            },
        ),
{
    match sections {
        Ok(p) => 4 <= p.len() && p.len() <= 24,
        Err(_) => false,
    }
}

fn retry_reason_of(kind: CourseKind, sections: &Result<Vec<PlannedSection>, String>) -> (r: String)
    ensures
        r@ == retry_reason(
            kind,
            match *sections {
                Ok(p) => Ok(p@),
                Err(e) => Err(e@),
            },
        ),
{
    let mut out = outline_subject_of(kind).to_owned();
    match sections {
        Ok(p) => {
            out.push_str(" retry produced ");
            push_decimal(&mut out, p.len() as u64);
            out.push_str(" section(s), expected 4-24");
        },
        Err(e) => {
            out.push_str(" retry parse failed: ");
            out.push_str(e.as_str());
        },
    }
    out
}

impl CourseRun<String, Vec<String>, Vec<PlannedSection>> {
    /// A run that has not begun.
    pub fn new() -> (r: CourseRun<String, Vec<String>, Vec<PlannedSection>>)
        ensures
            course_wf(r@),
            r@ == (CourseRun {
                phase: CoursePhase::Start,
                sections: Seq::<PlannedSection>::empty(),
                written: Seq::<Seq<char>>::empty(),
                fallback_reason: None::<Seq<char>>,
            }),
    {
        let r = CourseRun {
            phase: CoursePhase::Start,
            sections: Vec::new(),
            written: Vec::new(),
            fallback_reason: None,
        };
        assert(views(r.written@) =~= Seq::<Seq<char>>::empty());
        r
    }

    fn failed(&mut self, reason: String, planned: bool) -> (r: CourseStep<String>)
        requires
            old(self)@.written.len() <= old(self)@.sections.len(),
        ensures
            course_wf(final(self)@),
            (final(self)@, r@) == course_failed(old(self)@, reason@, planned),
    {
        self.phase = CoursePhase::Finished;
        CourseStep { planned: None, progress: None, action: CourseAction::Failed { reason, planned } }
    }

    fn fall_back(&mut self, reason: String) -> (r: CourseStep<String>)
        requires
            old(self)@.written.len() == 0,
        ensures
            course_wf(final(self)@),
            (final(self)@, r@) == fall_back(old(self)@, reason@),
    {
        self.phase = CoursePhase::Fallback;
        self.fallback_reason = Some(reason);
        CourseStep { planned: None, progress: None, action: CourseAction::FallBack }
    }

    fn next_section(&mut self, job: &CourseJob) -> (r: CourseStep<String>)
        requires
            old(self)@.written.len() <= old(self)@.sections.len(),
        ensures
            course_wf(final(self)@),
            (final(self)@, r@) == next_section(old(self)@, *job),
    {
        let done: usize = self.written.len();
        let count: usize = self.sections.len();
        let total: usize = plus(count, 3);
        if done < count {
            self.phase = CoursePhase::Retrieving;
            let mut label = match job.kind {
                CourseKind::Note => "generating section ".to_owned(),
                CourseKind::Digest => "generating digest section ".to_owned(),
            };
            let mut counted = crate::text::decimal(done as u64 + 1);
            counted.push_str("/");
            push_decimal(&mut counted, count as u64);
            label.push_str(counted.as_str());
            CourseStep {
                planned: None,
                progress: Some((plus(done, 2), total, label)),
                action: CourseAction::Retrieve(done),
            }
        } else {
            self.phase = CoursePhase::Merging;
            let label = match job.kind {
                CourseKind::Note => "merging sections",
                CourseKind::Digest => "merging digest sections",
            };
            let max_tokens: u32 = match job.kind {
                CourseKind::Note => 57344,
                CourseKind::Digest => 81920,
            };
            CourseStep {
                planned: None,
                progress: Some((plus(count, 1), total, label.to_owned())),
                action: CourseAction::Write {
                    system: merge_system_prompt(job.kind),
                    user: merge_user_prompt(job.kind, &self.written),
                    temperature: 20,
                    max_tokens,
                },
            }
        }
    }

    fn first_section(&mut self, job: &CourseJob) -> (r: CourseStep<String>)
        requires
            old(self)@.written.len() <= old(self)@.sections.len(),
        ensures
            course_wf(final(self)@),
            (final(self)@, r@) == first_section(old(self)@, *job),
    {
        let total: usize = plus(self.sections.len(), 3);
        let step = self.next_section(job);
        let planned = match job.kind {
            CourseKind::Note => Some((1, total, "planning note outline".to_owned())),
            CourseKind::Digest => None,
        };
        CourseStep { planned, ..step }
    }

    fn begin(&mut self, job: &CourseJob) -> (r: CourseStep<String>)
        requires
            course_wf(old(self)@),
            old(self).phase == CoursePhase::Start,
        ensures
            course_wf(final(self)@),
            (final(self)@, r@) == course_next(old(self)@, *job, CourseEvent::Begin),
    {
        if job.index_count == 0 {
            self.failed("No ready Course Transcript indexes found.".to_owned(), false)
        } else if !job.llm_available {
            let reason = match job.kind {
                CourseKind::Note =>
                    "LLM is not available. Set OPENAI_API_KEY in Settings to enable Note Patch generation.",
                CourseKind::Digest =>
                    "LLM is not available. Set OPENAI_API_KEY in Settings to enable Reference Digest generation.",
            };
            self.failed(reason.to_owned(), false)
        } else {
            self.phase = CoursePhase::Outline;
            let label = match job.kind {
                CourseKind::Note => "planning note outline",
                CourseKind::Digest => "planning digest outline",
            };
            CourseStep {
                planned: None,
                progress: Some((1, 4, label.to_owned())),
                action: CourseAction::Plan {
                    system: outline_system_prompt(job.kind),
                    user: outline_user_prompt(
                        job.kind,
                        job.outline_context.as_str(),
                        job.note_headings.as_str(),
                    ),
                    max_tokens: 49152,
                },
            }
        }
    }

    fn planned(
        &mut self,
        job: &CourseJob,
        reply: String,
        finish_reason: Option<String>,
        sections: Result<Vec<PlannedSection>, String>,
    ) -> (r: CourseStep<String>)
        requires
            course_wf(old(self)@),
            old(self).phase == CoursePhase::Outline || old(self).phase == CoursePhase::OutlineRetry,
        ensures
            course_wf(final(self)@),
            (final(self)@, r@) == course_next(
                old(self)@,
                *job,
                CourseEvent::Planned {
                    reply: reply@,
                    finish_reason: opt_view(finish_reason),
                    sections: match sections {
                        Ok(p) => Ok(p@),
                        Err(e) => Err(e@),
                    },
                },
            ),
    {
        if acceptable_sections(&sections) {
            match sections {
                Ok(p) => {
                    self.sections = p;
                },
                Err(_) => {},
            }
            self.first_section(job)
        } else if self.phase == CoursePhase::Outline {
            self.phase = CoursePhase::OutlineRetry;
            CourseStep {
                planned: None,
                progress: None,
                action: CourseAction::Plan {
                    system: outline_system_prompt(job.kind),
                    user: outline_retry_prompt(
                        job.kind,
                        job.outline_context.as_str(),
                        job.note_headings.as_str(),
                        reply.as_str(),
                        &finish_reason,
                    ),
                    max_tokens: 57344,
                },
            }
        } else {
            let reason = retry_reason_of(job.kind, &sections);
            self.fall_back(reason)
        }
    }

    fn fell_back(&mut self, job: &CourseJob, sections: Result<Vec<PlannedSection>, String>) -> (r:
        CourseStep<String>)
        requires
            course_wf(old(self)@),
            old(self).phase == CoursePhase::Fallback,
        ensures
            course_wf(final(self)@),
            (final(self)@, r@) == course_next(
                old(self)@,
                *job,
                CourseEvent::FellBack(
                    match sections {
                        Ok(p) => Ok(p@),
                        Err(e) => Err(e@),
                    },
                ),
            ),
    {
        match sections {
            Ok(p) => {
                self.sections = p;
                self.first_section(job)
            },
            Err(e) => {
                let mut reason = match job.kind {
                    CourseKind::Note => "Failed to generate course note outline: ".to_owned(),
                    CourseKind::Digest => "Failed to generate Reference Digest outline: ".to_owned(),
                };
                match &self.fallback_reason {
                    Some(first) => reason.push_str(first.as_str()),
                    None => {},
                }
                reason.push_str(". Fallback also failed: ");
                reason.push_str(e.as_str());
                self.failed(reason, false)
            },
        }
    }

    fn section_failed(&mut self, error: &str) -> (r: CourseStep<String>)
        requires
            course_wf(old(self)@),
            old(self).phase == CoursePhase::Section,
        ensures
            course_wf(final(self)@),
            (final(self)@, r@) == course_failed(
                old(self)@,
                "Section '"@ + old(self)@.sections[old(self)@.written.len() as int].title@
                    + "' generation failed: "@ + error@ + ". "@ + crate::text::decimal_of(
                    old(self)@.written.len(),
                ) + "/"@ + crate::text::decimal_of(old(self)@.sections.len())
                    + " sections succeeded."@,
                true,
            ),
    {
        let mut reason = "Section '".to_owned();
        reason.push_str(self.sections[self.written.len()].title.as_str());
        reason.push_str("' generation failed: ");
        reason.push_str(error);
        reason.push_str(". ");
        push_decimal(&mut reason, self.written.len() as u64);
        reason.push_str("/");
        push_decimal(&mut reason, self.sections.len() as u64);
        reason.push_str(" sections succeeded.");
        self.failed(reason, true)
    }

    /// Take note of what happened, and say what to do next.
    pub fn step(&mut self, job: &CourseJob, event: CourseEvent<String, Vec<PlannedSection>>) -> (r:
        CourseStep<String>)
        requires
            course_wf(old(self)@),
        ensures
            course_wf(final(self)@),
            (final(self)@, r@) == course_next(old(self)@, *job, event@),
    {
        match (self.phase, event) {
            (CoursePhase::Start, CourseEvent::Begin) => self.begin(job),
            (CoursePhase::Outline, CourseEvent::Planned { reply, finish_reason, sections }) => {
                self.planned(job, reply, finish_reason, sections)
            },
            (CoursePhase::Outline, CourseEvent::NoReply(_)) => {
                let mut reason = outline_subject_of(job.kind).to_owned();
                reason.push_str(" LLM call failed");
                self.fall_back(reason)
            },
            (CoursePhase::OutlineRetry, CourseEvent::Planned { reply, finish_reason, sections }) => {
                self.planned(job, reply, finish_reason, sections)
            },
            (CoursePhase::OutlineRetry, CourseEvent::NoReply(_)) => {
                let mut reason = outline_subject_of(job.kind).to_owned();
                reason.push_str(" retry LLM call failed");
                self.fall_back(reason)
            },
            (CoursePhase::Fallback, CourseEvent::FellBack(sections)) => {
                self.fell_back(job, sections)
            },
            (CoursePhase::Retrieving, CourseEvent::Retrieved(context)) => {
                self.phase = CoursePhase::Section;
                let max_tokens: u32 = match job.kind {
                    CourseKind::Note => 16384,
                    CourseKind::Digest => 24576,
                };
                CourseStep {
                    planned: None,
                    progress: None,
                    action: CourseAction::Write {
                        system: section_system_prompt(
                            job.kind,
                            &self.sections[self.written.len()],
                        ),
                        user: section_user_prompt(job.kind, context.as_str()),
                        temperature: 25,
                        max_tokens,
                    },
                }
            },
            (CoursePhase::Section, CourseEvent::Reply(t)) => {
                self.written.push(t);
                assert(views(self.written@) =~= old(self)@.written.push(t@));
                self.next_section(job)
            },
            (CoursePhase::Section, CourseEvent::NoReply(e)) => self.section_failed(e.as_str()),
            (CoursePhase::Merging, CourseEvent::Reply(t)) => {
                self.phase = CoursePhase::Finished;
                let total: usize = plus(self.sections.len(), 3);
                CourseStep {
                    planned: None,
                    progress: Some((total, total, "complete".to_owned())),
                    action: CourseAction::Done(t),
                }
            },
            (CoursePhase::Merging, CourseEvent::NoReply(e)) => {
                let mut reason = match job.kind {
                    CourseKind::Note => "Failed to merge note sections: ".to_owned(),
                    CourseKind::Digest => "Failed to merge Reference Digest sections: ".to_owned(),
                };
                reason.push_str(e.as_str());
                self.failed(reason, true)
            },
            _ => CourseStep { planned: None, progress: None, action: CourseAction::Idle },
        }
    }
}


// ---------------------------------------------------------------------------
// What is recorded
// ---------------------------------------------------------------------------

/// The counts that a course note carries.
pub open spec fn note_counts(run: CourseState) -> Seq<(Seq<char>, JsonView)> {
    let base = seq![
        ("generated_without_note_source"@, JsonView::Bool(true)),
        ("section_count"@, JsonView::Number(run.sections.len() as u64)),
        ("section_success_count"@, JsonView::Number(run.written.len() as u64)),
        (
            "section_failed_count"@,
            JsonView::Number((run.sections.len() - run.written.len()) as u64),
        ),
        ("outline_fallback_used"@, JsonView::Bool(run.fallback_reason is Some)),
    ];
    match run.fallback_reason {
        Some(r) => base.push(("outline_fallback_reason"@, JsonView::Text(r))),
        None => base,
    }
}

/// The progress of a run that is complete.
pub open spec fn complete_progress(run: CourseState) -> Seq<(Seq<char>, JsonView)> {
    seq![
        ("progress_current"@, JsonView::Number(total_steps(run) as u64)),
        ("progress_total"@, JsonView::Number(total_steps(run) as u64)),
        ("progress_label"@, JsonView::Text("complete"@)),
    ]
}

/// The metadata of a course digest that is there.
pub open spec fn digest_metadata(
    run: CourseState,
    note_used: bool,
    courses: usize,
    generated_chars: usize,
) -> Seq<(Seq<char>, JsonView)> {
    let base = complete_progress(run) + seq![
        ("source_note_used"@, JsonView::Bool(note_used)),
        (
            "source_counts"@,
            crate::processors::reference_digest::source_counts(note_used, 0, courses),
        ),
        ("generated_chars"@, JsonView::Number(generated_chars as u64)),
        ("section_count"@, JsonView::Number(run.sections.len() as u64)),
        ("outline_fallback_used"@, JsonView::Bool(run.fallback_reason is Some)),
    ];
    match run.fallback_reason {
        Some(r) => base.push(("outline_fallback_reason"@, JsonView::Text(r))),
        None => base,
    }
}

impl CourseRun<String, Vec<String>, Vec<PlannedSection>> {
    fn put_counts(&self, members: &mut Vec<(String, Json)>)
        requires
            course_wf(self@),
        ensures
            crate::json::members_view(final(members)@) == crate::json::members_view(old(members)@)
                + note_counts(self@),
    {
        let ghost start = crate::json::members_view(members@);
        put(members, "generated_without_note_source", flag(true));
        put(members, "section_count", number(self.sections.len()));
        put(members, "section_success_count", number(self.written.len()));
        put(
            members,
            "section_failed_count",
            number(self.sections.len() - self.written.len()),
        );
        put(members, "outline_fallback_used", flag(self.fallback_reason.is_some()));
        if let Some(reason) = &self.fallback_reason {
            put(members, "outline_fallback_reason", text(reason.as_str()));
        }
        assert(crate::json::members_view(members@) =~= start + note_counts(self@));
    }

    fn put_progress(&self, members: &mut Vec<(String, Json)>)
        ensures
            crate::json::members_view(final(members)@) == crate::json::members_view(old(members)@)
                + complete_progress(self@),
    {
        let ghost start = crate::json::members_view(members@);
        let total: usize = plus(self.sections.len(), 3);
        put(members, "progress_current", number(total));
        put(members, "progress_total", number(total));
        put(members, "progress_label", text("complete"));
        assert(crate::json::members_view(members@) =~= start + complete_progress(self@));
    }

    /// How an output changes when its note could not be made. The counts are
    /// recorded where there was an outline.
    pub fn note_failed(&self, reason: String, planned: bool, now: String) -> (r: OutputChange)
        requires
            course_wf(self@),
        ensures
            r.status == Some(ProcessStatus::Failed),
            r.last_error == Some(Some(reason)),
            r.path is None,
            r.diff_path is None,
            r.base_source_id is None,
            r.updated_at == Some(now),
            match r.metadata {
                Some(m) => planned && m@ == JsonView::Object(note_counts(self@)),
                None => !planned,
            },
    {
        let mut change = OutputChange::failed(reason, Some(now));
        if planned {
            let mut members: Vec<(String, Json)> = Vec::new();
            assert(crate::json::members_view(members@) =~= Seq::empty());
            self.put_counts(&mut members);
            assert(crate::json::members_view(members@) =~= note_counts(self@));
            change.metadata = Some(object(members));
        }
        change
    }

    /// How an output changes after its note was written, or could not be.
    pub fn note_written(&self, written: Result<(), String>, now: String) -> (r: OutputChange)
        requires
            course_wf(self@),
        ensures
            r.path is None,
            r.diff_path is None,
            r.updated_at == Some(now),
            match written {
                Ok(_) => {
                    &&& r.status == Some(ProcessStatus::Ready)
                    &&& r.last_error == Some(None::<String>)
                    &&& r.base_source_id == Some(None::<String>)
                    &&& r.metadata matches Some(m) && m@ == JsonView::Object(
                        complete_progress(self@) + note_counts(self@),
                    )
                },
                Err(e) => {
                    &&& r.status == Some(ProcessStatus::Failed)
                    &&& r.last_error matches Some(Some(t)) && t@ == "Failed to write output: "@ + e@
                    &&& r.base_source_id is None
                    &&& r.metadata is None
                },
            },
    {
        match written {
            Ok(_) => {
                let mut members: Vec<(String, Json)> = Vec::new();
                assert(crate::json::members_view(members@) =~= Seq::empty());
                self.put_progress(&mut members);
                self.put_counts(&mut members);
                assert(crate::json::members_view(members@) =~= complete_progress(self@)
                    + note_counts(self@));
                OutputChange {
                    status: Some(ProcessStatus::Ready),
                    last_error: Some(None),
                    path: None,
                    diff_path: None,
                    base_source_id: Some(None),
                    metadata: Some(object(members)),
                    updated_at: Some(now),
                }
            },
            Err(e) => OutputChange::failed(
                crate::processors::reference_digest::write_error(e.as_str()),
                Some(now),
            ),
        }
    }

    /// How an output changes after its digest was written, or could not be.
    pub fn digest_written(
        &self,
        written: Result<(), String>,
        markdown: &str,
        note_id: Option<String>,
        courses: usize,
        now: String,
    ) -> (r: OutputChange)
        requires
            course_wf(self@),
        ensures
            r.path is None,
            r.diff_path is None,
            match written {
                Ok(_) => {
                    &&& r.status == Some(ProcessStatus::Ready)
                    &&& r.last_error == Some(None::<String>)
                    &&& r.base_source_id == Some(note_id)
                    &&& r.updated_at == Some(now)
                    &&& r.metadata matches Some(m) && m@ == JsonView::Object(
                        digest_metadata(
                            self@,
                            note_id is Some,
                            courses,
                            markdown@.len() as usize,
                        ),
                    )
                },
                Err(e) => {
                    &&& r.status == Some(ProcessStatus::Failed)
                    &&& r.last_error matches Some(Some(t)) && t@ == "Failed to write output: "@ + e@
                    &&& r.base_source_id is None
                    &&& r.metadata is None
                    &&& r.updated_at is None
                },
            },
    {
        match written {
            Ok(_) => {
                let note_used = note_id.is_some();
                let mut members: Vec<(String, Json)> = Vec::new();
                assert(crate::json::members_view(members@) =~= Seq::empty());
                self.put_progress(&mut members);
                put(&mut members, "source_note_used", flag(note_used));
                put(
                    &mut members,
                    "source_counts",
                    crate::processors::reference_digest::count_sources(note_used, 0, courses),
                );
                put(&mut members, "generated_chars", number(char_count(markdown)));
                put(&mut members, "section_count", number(self.sections.len()));
                put(&mut members, "outline_fallback_used", flag(self.fallback_reason.is_some()));
                if let Some(reason) = &self.fallback_reason {
                    put(&mut members, "outline_fallback_reason", text(reason.as_str()));
                }
                assert(crate::json::members_view(members@) =~= digest_metadata(
                    self@,
                    note_used,
                    courses,
                    markdown@.len() as usize,
                ));
                OutputChange {
                    status: Some(ProcessStatus::Ready),
                    last_error: Some(None),
                    path: None,
                    diff_path: None,
                    base_source_id: Some(note_id),
                    metadata: Some(object(members)),
                    updated_at: Some(now),
                }
            },
            Err(e) => OutputChange::failed(
                crate::processors::reference_digest::write_error(e.as_str()),
                None,
            ),
        }
    }
}

// ---------------------------------------------------------------------------
// Laws
// ---------------------------------------------------------------------------

/// How far a run with a plan is from its end.
pub open spec fn course_distance(run: CourseState) -> int {
    let missing = run.sections.len() - run.written.len();
    match run.phase {
        CoursePhase::Retrieving => 2 * missing + 1,
        CoursePhase::Section => 2 * missing,
        CoursePhase::Merging => 1,
        _ => 0,
    }
}

/// A run that has a plan goes through its sections and ends: every step brings
/// it closer, or the event was not awaited and nothing changes.
pub proof fn law_planned_run_ends(
    run: CourseState,
    job: CourseJob,
    event: CourseEvent<Seq<char>, Seq<PlannedSection>>,
)
    requires
        course_wf(run),
        run.phase == CoursePhase::Retrieving || run.phase == CoursePhase::Section || run.phase
            == CoursePhase::Merging,
    ensures
        course_wf(course_next(run, job, event).0),
        course_next(run, job, event).1.action is Idle ==> course_next(run, job, event).0 == run,
        !(course_next(run, job, event).1.action is Idle) ==> course_distance(
            course_next(run, job, event).0,
        ) < course_distance(run),
{
}

/// An outline is asked for at most twice: after an outline that cannot be used
/// a second one is asked for, and after that one none is.
pub proof fn law_outline_is_asked_for_twice(
    run: CourseState,
    job: CourseJob,
    event: CourseEvent<Seq<char>, Seq<PlannedSection>>,
)
    requires
        course_wf(run),
    ensures
        course_next(run, job, event).1.action is Plan ==> (run.phase == CoursePhase::Start
            || run.phase == CoursePhase::Outline),
        course_next(run, job, event).0.phase == CoursePhase::Outline && run.phase
            != CoursePhase::Outline ==> run.phase == CoursePhase::Start,
{
}

/// A text is done only when all planned sections are written, each once and in
/// the order of the plan.
pub proof fn law_done_means_complete(
    run: CourseState,
    job: CourseJob,
    event: CourseEvent<Seq<char>, Seq<PlannedSection>>,
)
    requires
        course_wf(run),
        course_next(run, job, event).1.action is Done,
    ensures
        run.written.len() == run.sections.len(),
        course_next(run, job, event).0.written == run.written,
{
}

/// Written sections are never changed: a step adds at most one at the end.
pub proof fn law_sections_are_appended(
    run: CourseState,
    job: CourseJob,
    event: CourseEvent<Seq<char>, Seq<PlannedSection>>,
)
    requires
        course_wf(run),
    ensures
        ({
            let after = course_next(run, job, event).0.written;
            after == run.written || (event matches CourseEvent::Reply(t) && after
                == run.written.push(t))
        }),
{
}

/// The sections of the outline are written one by one and in order: what is looked up is
/// always the first section that is not written yet, and what is asked for then is that
/// section, with all that was looked up for it. After the last one everything written is
/// merged.
pub proof fn law_sections_are_written_in_order(
    run: CourseState,
    job: CourseJob,
    context: Seq<char>,
    text: Seq<char>,
)
    requires
        course_wf(run),
        run.phase == CoursePhase::Retrieving,
        run.sections.len() <= usize::MAX,
        context.len() <= 32000,
    ensures
        ({
            let (asking, ask) = course_next(run, job, CourseEvent::Retrieved(context));
            let (after, step) = course_next(asking, job, CourseEvent::Reply(text));
            let k = run.written.len();
            &&& ask.action matches CourseAction::Write { system, user, .. }
            &&& system == crate::prompts::course::section_system(job.kind, run.sections[k as int])
            &&& crate::text::ends_with_of(user, context)
            &&& after.written == run.written.push(text)
            &&& after.sections == run.sections
            &&& if k + 1 < run.sections.len() {
                step.action == CourseAction::<Seq<char>>::Retrieve((k + 1) as usize)
            } else {
                step.action matches CourseAction::Write { system: _, user: merged, .. } && merged
                    == crate::prompts::course::merge_user(job.kind, run.written.push(text))
            }
        }),
{
    let user = crate::prompts::course::section_user(job.kind) + context;
    assert(user.subrange(user.len() - context.len(), user.len() as int) =~= context);
}

/// An outline of four to twenty-four sections is taken as it is, and the first of them
/// is looked up; the first other outline leads to a second request, and the second to
/// the fallback. What the fallback gives is taken whatever its length.
pub proof fn law_outlines_are_taken_as_they_are(
    run: CourseState,
    job: CourseJob,
    plan: Seq<PlannedSection>,
    reply: Seq<char>,
)
    requires
        course_wf(run),
        run.sections.len() == 0,
        plan.len() <= usize::MAX,
    ensures
        ({
            let event = CourseEvent::Planned { reply, finish_reason: None, sections: Ok(plan) };
            let (after, step) = course_next(run, job, event);
            let fits = 4 <= plan.len() && plan.len() <= 24;
            &&& run.phase == CoursePhase::Outline || run.phase == CoursePhase::OutlineRetry ==> {
                if fits {
                    &&& after.sections == plan
                    &&& after.written == run.written
                    &&& step.action == CourseAction::<Seq<char>>::Retrieve(0)
                } else if run.phase == CoursePhase::Outline {
                    step.action is Plan && after.phase == CoursePhase::OutlineRetry
                } else {
                    step.action is FallBack && after.fallback_reason is Some
                }
            }
            &&& run.phase == CoursePhase::Fallback && plan.len() > 0 ==> {
                let (last, then_step) = course_next(run, job, CourseEvent::FellBack(Ok(plan)));
                last.sections == plan && then_step.action == CourseAction::<Seq<char>>::Retrieve(0)
            }
        }),
{
}

/// The result is the merged text; where merging or a section fails there is none, and
/// the reason says which.
pub proof fn law_course_results(run: CourseState, job: CourseJob, t: Seq<char>)
    requires
        course_wf(run),
    ensures
        run.phase == CoursePhase::Merging ==> course_next(run, job, CourseEvent::Reply(t)).1.action
            == CourseAction::Done(t),
        run.phase == CoursePhase::Merging ==> (course_next(
            run,
            job,
            CourseEvent::NoReply(t),
        ).1.action matches CourseAction::Failed { reason, planned } && planned
            && crate::text::ends_with_of(reason, t)),
        run.phase == CoursePhase::Section ==> (course_next(
            run,
            job,
            CourseEvent::NoReply(t),
        ).1.action matches CourseAction::Failed { reason, planned } && planned
            && crate::text::starts_with_of(
            reason,
            "Section '"@ + run.sections[run.written.len() as int].title@
                + "' generation failed: "@ + t,
        )),
        run.phase == CoursePhase::Start && job.index_count > 0 && job.llm_available ==> (course_next(
            run,
            job,
            CourseEvent::Begin,
        ).1.action matches CourseAction::Plan { system, user, .. } && system
            == crate::prompts::course::outline_system(job.kind) && user
            == crate::prompts::course::outline_user(
            job.kind,
            job.outline_context@,
            job.note_headings@,
        )),
        run.phase == CoursePhase::Start && (job.index_count == 0 || !job.llm_available)
            ==> course_next(run, job, CourseEvent::Begin).1.action is Failed,
{
    if run.phase == CoursePhase::Merging {
        let lead = match job.kind {
            CourseKind::Note => "Failed to merge note sections: "@,
            CourseKind::Digest => "Failed to merge Reference Digest sections: "@,
        };
        let reason = lead + t;
        assert(reason.subrange(reason.len() - t.len(), reason.len() as int) =~= t);
    }
    if run.phase == CoursePhase::Section {
        let lead = "Section '"@ + run.sections[run.written.len() as int].title@
            + "' generation failed: "@ + t;
        let reason = lead + ". "@ + crate::text::decimal_of(run.written.len()) + "/"@
            + crate::text::decimal_of(run.sections.len()) + " sections succeeded."@;
        assert(reason.subrange(0, lead.len() as int) =~= lead);
    }
}

/// What is recorded of a course: that all its steps are done, how many sections it has
/// and how many of them are written, and why the outline is not a planned one where it
/// is not.
pub proof fn law_records_of_courses(run: CourseState, note: bool, courses: usize, n: usize)
    requires
        run.written.len() <= run.sections.len() <= u64::MAX,
    ensures
        ({
            let d = JsonView::Object(digest_metadata(run, note, courses, n));
            let c = JsonView::Object(note_counts(run));
            let p = JsonView::Object(complete_progress(run));
            &&& crate::json::member(p, "progress_current"@) == crate::json::member(
                p,
                "progress_total"@,
            )
            &&& crate::json::member(p, "progress_total"@) == Some(
                JsonView::Number(total_steps(run) as u64),
            )
            &&& crate::json::member(p, "progress_label"@) == Some(JsonView::Text("complete"@))
            &&& crate::json::member(d, "progress_label"@) == Some(JsonView::Text("complete"@))
            &&& crate::json::member(d, "source_note_used"@) == Some(JsonView::Bool(note))
            &&& crate::json::member(d, "generated_chars"@) == Some(JsonView::Number(n as u64))
            &&& crate::json::member(d, "section_count"@) == Some(
                JsonView::Number(run.sections.len() as u64),
            )
            &&& crate::json::member(d, "outline_fallback_used"@) == Some(
                JsonView::Bool(run.fallback_reason is Some),
            )
            &&& crate::json::member(d, "outline_fallback_reason"@) == (match run.fallback_reason {
                Some(r) => Some(JsonView::Text(r)),
                None => None,
            })
            &&& crate::json::member(c, "section_count"@) == Some(
                JsonView::Number(run.sections.len() as u64),
            )
            &&& crate::json::member(c, "section_success_count"@) == Some(
                JsonView::Number(run.written.len() as u64),
            )
            &&& crate::json::member(c, "section_failed_count"@) == Some(
                JsonView::Number((run.sections.len() - run.written.len()) as u64),
            )
            &&& crate::json::member(c, "outline_fallback_reason"@) == (match run.fallback_reason {
                Some(r) => Some(JsonView::Text(r)),
                None => None,
            })
        }),
{
    reveal_strlit("progress_current");
    reveal_strlit("progress_total");
    reveal_strlit("progress_label");
    reveal_strlit("source_note_used");
    reveal_strlit("source_counts");
    reveal_strlit("generated_chars");
    reveal_strlit("section_count");
    reveal_strlit("outline_fallback_used");
    reveal_strlit("outline_fallback_reason");
    reveal_strlit("generated_without_note_source");
    reveal_strlit("section_success_count");
    reveal_strlit("section_failed_count");
    assert("progress_current"@.len() == 16 && "progress_current"@[0] == 'p');
    assert("progress_total"@.len() == 14 && "progress_total"@[9] == 't');
    assert("progress_label"@.len() == 14 && "progress_label"@[9] == 'l');
    assert("source_note_used"@.len() == 16 && "source_note_used"@[0] == 's');
    assert("source_counts"@.len() == 13 && "source_counts"@[1] == 'o');
    assert("section_count"@.len() == 13 && "section_count"@[1] == 'e');
    assert("generated_chars"@.len() == 15);
    assert("outline_fallback_used"@.len() == 21 && "outline_fallback_used"@[0] == 'o');
    assert("section_success_count"@.len() == 21 && "section_success_count"@[0] == 's');
    assert("outline_fallback_reason"@.len() == 23);
    assert("generated_without_note_source"@.len() == 29 && "section_failed_count"@.len() == 20);
    let ps = complete_progress(run);
    crate::json::law_member_is_the_first(ps, "progress_current"@, 0);
    crate::json::law_member_is_the_first(ps, "progress_total"@, 1);
    crate::json::law_member_is_the_first(ps, "progress_label"@, 2);
    let ds = digest_metadata(run, note, courses, n);
    crate::json::law_member_is_the_first(ds, "progress_label"@, 2);
    crate::json::law_member_is_the_first(ds, "source_note_used"@, 3);
    crate::json::law_member_is_the_first(ds, "generated_chars"@, 5);
    crate::json::law_member_is_the_first(ds, "section_count"@, 6);
    crate::json::law_member_is_the_first(ds, "outline_fallback_used"@, 7);
    crate::json::law_member_is_the_first(ds, "outline_fallback_reason"@, 8);
    let cs = note_counts(run);
    crate::json::law_member_is_the_first(cs, "section_count"@, 1);
    crate::json::law_member_is_the_first(cs, "section_success_count"@, 2);
    crate::json::law_member_is_the_first(cs, "section_failed_count"@, 3);
    crate::json::law_member_is_the_first(cs, "outline_fallback_reason"@, 5);
}

/// The label of a section says which one it is, counted from one, and of how many.
pub proof fn law_labels_of_sections(kind: CourseKind, run: CourseState)
    ensures
        crate::text::ends_with_of(
            section_label(kind, run),
            "section "@ + crate::text::decimal_of((run.written.len() + 1) as nat) + "/"@
                + crate::text::decimal_of(run.sections.len()),
        ),
{
    reveal_strlit("generating section ");
    reveal_strlit("generating digest section ");
    reveal_strlit("section ");
    let counted = crate::text::decimal_of((run.written.len() + 1) as nat) + "/"@
        + crate::text::decimal_of(run.sections.len());
    let tail = "section "@ + crate::text::decimal_of((run.written.len() + 1) as nat) + "/"@
        + crate::text::decimal_of(run.sections.len());
    assert(tail =~= "section "@ + counted);
    let label = section_label(kind, run);
    assert(label.subrange(label.len() - tail.len(), label.len() as int) =~= tail);
}

/// An outline is taken where it has from four to twenty-four sections.
pub proof fn law_sizes_of_outlines(sections: Seq<PlannedSection>, e: Seq<char>)
    ensures
        acceptable(Ok(sections)) <==> 4 <= sections.len() && sections.len() <= 24,
        !acceptable(Err(e)),
        crate::text::ends_with_of(retry_reason(CourseKind::Note, Err(e)), e),
        crate::text::ends_with_of(retry_reason(CourseKind::Digest, Err(e)), e),
{
    let a = retry_reason(CourseKind::Note, Err(e));
    let b = retry_reason(CourseKind::Digest, Err(e));
    assert(a.subrange(a.len() - e.len(), a.len() as int) =~= e);
    assert(b.subrange(b.len() - e.len(), b.len() as int) =~= e);
}

} // verus!
