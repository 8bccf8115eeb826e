//! The attempts at a cheat sheet that fits the page limit: what is compiled next,
//! by what came of the last compilation.

use vstd::prelude::*;

use crate::latex::compress::{compress_content, compressed};
use crate::latex::layout::{fill_template, generate_tighter_typst_template, tightened, PLACEHOLDER};
use crate::latex::to_latex::{document_pieces, markdown_to_latex, pieces_text};
use crate::markdown_typst::document::{document_typst, markdown_to_typst};
use crate::markdown_typst::runtime::RUNTIME_PRELUDE;
use crate::text::{decimal_of, opt_view, push_decimal, replace_of};

verus! {

/// The error where no program can make a PDF.
pub const NO_RENDERER: &'static str =
    "No PDF renderer found. Please install Typst or xelatex/texlive, latexmk, or tectonic.";

/// What is to be rendered, and with what.
#[derive(Debug)]
pub struct RenderJob<T> {
    /// The Markdown content.
    pub markdown: T,
    /// The LaTeX template.
    pub latex_template: T,
    /// The Typst template.
    pub typst_template: T,
    /// What the LaTeX template is called.
    pub latex_label: T,
    /// What the Typst template is called.
    pub typst_label: T,
    /// Whether Typst can be run.
    pub typst: bool,
    /// Whether a LaTeX compiler can be run.
    pub latex: bool,
    /// Whether the Typst template is the default one, which may be tightened.
    pub default_typst: bool,
    /// How many pages there may be.
    pub max_pages: usize,
}

impl View for RenderJob<String> {
    type V = RenderJob<Seq<char>>;

    open spec fn view(&self) -> RenderJob<Seq<char>> {
        RenderJob {
            markdown: self.markdown@,
            latex_template: self.latex_template@,
            typst_template: self.typst_template@,
            latex_label: self.latex_label@,
            typst_label: self.typst_label@,
            typst: self.typst,
            latex: self.latex,
            default_typst: self.default_typst,
            max_pages: self.max_pages,
        }
    }
}

/// What a rendering waits for.
#[derive(Debug, Clone, Copy, PartialEq, Eq, Structural)]
pub enum RenderPhase {
    /// To begin.
    Start,
    /// A compilation by Typst.
    Typst,
    /// A compilation by LaTeX.
    Latex,
    /// How full the pages are.
    Measuring,
    /// Nothing more.
    Ended,
}

/// A rendering under way.
#[derive(Debug)]
pub struct RenderRun<T> {
    /// What it waits for.
    pub phase: RenderPhase,
    /// The number of the attempt, which is how far the content is compressed.
    pub attempt: usize,
    /// How far the layout is tightened.
    pub level: usize,
    /// How many pages the rendering of this attempt had before tightening.
    pub pages: usize,
    /// The content of this attempt.
    pub working: T,
    /// What went wrong with the compiler before the current one.
    pub errors: Option<T>,
    /// What went wrong last.
    pub last_error: Option<T>,
}

impl View for RenderRun<String> {
    type V = RenderRun<Seq<char>>;

    open spec fn view(&self) -> RenderRun<Seq<char>> {
        RenderRun {
            phase: self.phase,
            attempt: self.attempt,
            level: self.level,
            pages: self.pages,
            working: self.working@,
            errors: opt_view(self.errors),
            last_error: opt_view(self.last_error),
        }
    }
}

/// What came of the last step.
#[derive(Debug)]
pub enum RenderEvent<T> {
    /// The rendering begins.
    Begin,
    /// A PDF was made, with so many pages.
    Compiled {
        /// How many pages.
        pages: usize,
    },
    /// The document could not be written.
    NotWritten(T),
    /// The document could not be compiled.
    NotCompiled(T),
    /// The pages of the PDF could not be counted.
    NotCounted(T),
    /// It was found out how full the pages are.
    Measured {
        /// Whether what is too much is so little that a tighter layout may do.
        marginal: bool,
    },
}

impl View for RenderEvent<String> {
    type V = RenderEvent<Seq<char>>;

    open spec fn view(&self) -> RenderEvent<Seq<char>> {
        match *self {
            RenderEvent::Begin => RenderEvent::Begin,
            RenderEvent::Compiled { pages } => RenderEvent::Compiled { pages },
            RenderEvent::NotWritten(e) => RenderEvent::NotWritten(e@),
            RenderEvent::NotCompiled(e) => RenderEvent::NotCompiled(e@),
            RenderEvent::NotCounted(e) => RenderEvent::NotCounted(e@),
            RenderEvent::Measured { marginal } => RenderEvent::Measured { marginal },
        }
    }
}

/// What is to be done next.
#[derive(Debug)]
pub enum RenderStep<T> {
    /// Write this Typst document, compile it, and count its pages.
    CompileTypst(T),
    /// Compile nothing: the content cannot be converted to Typst, for this reason,
    /// which is to be reported as the reason why it was not compiled.
    RefuseTypst(T),
    /// Write this LaTeX document, compile it, and count its pages.
    CompileLatex(T),
    /// Find out how full the pages are.
    Measure {
        /// How many there are.
        pages: usize,
    },
    /// Keep the PDF: it is the result.
    Finish {
        /// How many pages it has.
        pages: usize,
        /// The template that was used.
        template: T,
        /// How far the content was compressed.
        attempt: usize,
        /// Whether to find out how full its pages are.
        measure: bool,
    },
    /// Give up, with this error.
    Fail(T),
    /// Nothing: the event does not belong here.
    Idle,
}

impl View for RenderStep<String> {
    type V = RenderStep<Seq<char>>;

    open spec fn view(&self) -> RenderStep<Seq<char>> {
        match *self {
            RenderStep::CompileTypst(t) => RenderStep::CompileTypst(t@),
            RenderStep::RefuseTypst(e) => RenderStep::RefuseTypst(e@),
            RenderStep::CompileLatex(t) => RenderStep::CompileLatex(t@),
            RenderStep::Measure { pages } => RenderStep::Measure { pages },
            RenderStep::Finish { pages, template, attempt, measure } => RenderStep::Finish {
                pages,
                template: template@,
                attempt,
                measure,
            },
            RenderStep::Fail(e) => RenderStep::Fail(e@),
            RenderStep::Idle => RenderStep::Idle,
        }
    }
}

/// A job as plain values.
pub type Job = RenderJob<Seq<char>>;

/// A rendering as plain values.
pub type State = RenderRun<Seq<char>>;

/// A step as plain values.
pub type Step = RenderStep<Seq<char>>;

// ---------------------------------------------------------------------------
// Texts
// ---------------------------------------------------------------------------

/// A Typst document: what it needs, and the template with the body in its place.
pub open spec fn typst_document(job: Job, body: Seq<char>, level: int) -> Seq<char> {
    RUNTIME_PRELUDE@ + replace_of(tightened(job.typst_template, level), PLACEHOLDER@, body)
}

/// Have the content compiled by Typst, at a level of tightening.
pub open spec fn typst_step(job: Job, working: Seq<char>, level: int) -> Step {
    match document_typst(working) {
        Ok(body) => RenderStep::CompileTypst(typst_document(job, body, level)),
        Err(e) => RenderStep::RefuseTypst(e),
    }
}

/// The LaTeX document of a content.
pub open spec fn latex_document(job: Job, working: Seq<char>) -> Seq<char> {
    replace_of(job.latex_template, PLACEHOLDER@, pieces_text(document_pieces(working)))
}

/// What the template is called at a level of tightening.
pub open spec fn label(job: Job, level: int) -> Seq<char> {
    if level > 0 {
        "default_cheatsheet.typ (tight L"@ + decimal_of(level as nat) + ")"@
    } else if job.typst {
        job.typst_label
    } else {
        job.latex_label
    }
}

/// The error for too many pages.
pub open spec fn overflow_text(pages: int, max: int) -> Seq<char> {
    "PDF has "@ + decimal_of(pages as nat) + " pages, exceeding maximum of "@ + decimal_of(
        max as nat,
    ) + " pages"@
}

/// The error at the end.
pub open spec fn failure_text(max: int, last: Option<Seq<char>>) -> Seq<char> {
    "Failed to produce a PDF within "@ + decimal_of(max as nat)
        + " pages after 4 attempts. Last error: "@ + (match last {
        Some(e) => e,
        None => "unknown"@,
    })
}

// ---------------------------------------------------------------------------
// The next step
// ---------------------------------------------------------------------------

/// Compile the content: by Typst where there is Typst.
pub open spec fn begin_compile(s: State, job: Job) -> (State, Step) {
    if job.typst {
        (
            RenderRun { phase: RenderPhase::Typst, errors: None, ..s },
            typst_step(job, s.working, s.level as int),
        )
    } else if job.latex {
        (
            RenderRun { phase: RenderPhase::Latex, errors: None, ..s },
            RenderStep::CompileLatex(latex_document(job, s.working)),
        )
    } else {
        (RenderRun { phase: RenderPhase::Ended, ..s }, RenderStep::Fail(NO_RENDERER@))
    }
}

/// Compress the content further, or give up after the last attempt.
pub open spec fn next_attempt(s: State, job: Job) -> (State, Step) {
    if s.attempt >= 3 {
        (
            RenderRun { phase: RenderPhase::Ended, ..s },
            RenderStep::Fail(failure_text(job.max_pages as int, s.last_error)),
        )
    } else {
        begin_compile(
            RenderRun {
                attempt: (s.attempt + 1) as usize,
                level: 0,
                working: compressed(job.markdown, s.attempt + 1),
                ..s
            },
            job,
        )
    }
}

/// Note that there are too many pages, and go on.
pub open spec fn overflow(s: State, job: Job) -> (State, Step) {
    next_attempt(
        RenderRun {
            last_error: Some(overflow_text(s.pages as int, job.max_pages as int)),
            ..s
        },
        job,
    )
}

/// Tighten the layout further, or go on without.
pub open spec fn next_level(s: State, job: Job) -> (State, Step) {
    if s.level >= 2 {
        overflow(s, job)
    } else {
        begin_compile(RenderRun { level: (s.level + 1) as usize, ..s }, job)
    }
}

/// Go on after a compilation that failed. A failure to tighten the layout is no
/// error of the attempt.
pub open spec fn compile_failed(s: State, job: Job, e: Seq<char>) -> (State, Step) {
    if s.level > 0 {
        next_level(s, job)
    } else {
        next_attempt(
            RenderRun { last_error: Some("compilation failed: "@ + e), ..s },
            job,
        )
    }
}

/// Go on after a compilation that made a PDF.
pub open spec fn compiled(s: State, job: Job, pages: usize) -> (State, Step) {
    if pages <= job.max_pages {
        (
            RenderRun { phase: RenderPhase::Ended, ..s },
            RenderStep::Finish {
                pages,
                template: label(job, s.level as int),
                attempt: s.attempt,
                measure: job.typst,
            },
        )
    } else if s.level > 0 {
        next_level(s, job)
    } else if job.typst && job.default_typst {
        (
            RenderRun { phase: RenderPhase::Measuring, pages, ..s },
            RenderStep::Measure { pages },
        )
    } else {
        overflow(RenderRun { pages, ..s }, job)
    }
}

/// Go on after Typst failed: by LaTeX where there is LaTeX.
pub open spec fn typst_failed(s: State, job: Job, e: Seq<char>) -> (State, Step) {
    if job.latex {
        (
            RenderRun { phase: RenderPhase::Latex, errors: Some(e), ..s },
            RenderStep::CompileLatex(latex_document(job, s.working)),
        )
    } else {
        compile_failed(s, job, e)
    }
}

/// An error behind those before it.
pub open spec fn joined(errors: Option<Seq<char>>, e: Seq<char>) -> Seq<char> {
    match errors {
        Some(before) => before + "; "@ + e,
        None => e,
    }
}

/// The next step.
pub open spec fn next(s: State, job: Job, event: RenderEvent<Seq<char>>) -> (State, Step) {
    match (s.phase, event) {
        (RenderPhase::Start, RenderEvent::Begin) => begin_compile(
            RenderRun { attempt: 0, level: 0, working: job.markdown, ..s },
            job,
        ),
        (RenderPhase::Typst, RenderEvent::Compiled { pages }) => compiled(s, job, pages),
        (RenderPhase::Typst, RenderEvent::NotWritten(e)) => typst_failed(
            s,
            job,
            "typst write: "@ + e,
        ),
        (RenderPhase::Typst, RenderEvent::NotCompiled(e)) => typst_failed(s, job, "typst: "@ + e),
        (RenderPhase::Typst, RenderEvent::NotCounted(e)) => compile_failed(s, job, e),
        (RenderPhase::Latex, RenderEvent::Compiled { pages }) => compiled(s, job, pages),
        (RenderPhase::Latex, RenderEvent::NotWritten(e)) => compile_failed(
            s,
            job,
            joined(s.errors, "latex write: "@ + e),
        ),
        (RenderPhase::Latex, RenderEvent::NotCompiled(e)) => compile_failed(
            s,
            job,
            joined(s.errors, "latex: "@ + e),
        ),
        (RenderPhase::Latex, RenderEvent::NotCounted(e)) => compile_failed(s, job, e),
        (RenderPhase::Measuring, RenderEvent::Measured { marginal }) => if marginal {
            begin_compile(RenderRun { level: 1, ..s }, job)
        } else {
            overflow(s, job)
        },
        _ => (s, RenderStep::Idle),
    }
}

/// What holds of a rendering at all times: at most four attempts and two levels,
/// and only the default template is tightened.
pub open spec fn wf(s: State, job: Job) -> bool {
    &&& s.attempt <= 3
    &&& s.level <= 2
    &&& s.level > 0 ==> job.typst && job.default_typst
    &&& s.phase == RenderPhase::Typst ==> job.typst
    &&& s.phase == RenderPhase::Latex ==> job.latex
    &&& s.phase == RenderPhase::Measuring ==> job.typst && job.default_typst && s.level == 0
}

// ---------------------------------------------------------------------------
// Execution
// ---------------------------------------------------------------------------

/// The error for too many pages.
fn overflow_error(pages: usize, max: usize) -> (r: String)
    ensures
        r@ == overflow_text(pages as int, max as int),
{
    let mut e = "PDF has ".to_owned();
    push_decimal(&mut e, pages as u64);
    e.push_str(" pages, exceeding maximum of ");
    push_decimal(&mut e, max as u64);
    e.push_str(" pages");
    e
}

/// Two texts one behind the other.
fn prefixed(prefix: &str, e: &str) -> (r: String)
    ensures
        r@ == prefix@ + e@,
{
    let mut out = prefix.to_owned();
    out.push_str(e);
    out
}

/// What the template is called.
fn label_of(job: &RenderJob<String>, level: usize) -> (r: String)
    ensures
        r@ == label(job@, level as int),
{
    if level > 0 {
        let mut out = "default_cheatsheet.typ (tight L".to_owned();
        push_decimal(&mut out, level as u64);
        out.push_str(")");
        out
    } else if job.typst {
        job.typst_label.clone()
    } else {
        job.latex_label.clone()
    }
}

impl RenderRun<String> {
    /// A rendering that has not begun.
    pub fn new() -> (r: RenderRun<String>)
        ensures
            r@ == (RenderRun {
                phase: RenderPhase::Start,
                attempt: 0,
                level: 0,
                pages: 0,
                working: ""@,
                errors: None,
                last_error: None,
            }),
    {
        RenderRun {
            phase: RenderPhase::Start,
            attempt: 0,
            level: 0,
            pages: 0,
            working: "".to_owned(),
            errors: None,
            last_error: None,
        }
    }

    /// Compile the content.
    fn begin_compile(&mut self, job: &RenderJob<String>) -> (r: RenderStep<String>)
        ensures
            (final(self)@, r@) == begin_compile(old(self)@, job@),
    {
        if job.typst {
            self.phase = RenderPhase::Typst;
            self.errors = None;
            self.typst_step(job)
        } else if job.latex {
            self.phase = RenderPhase::Latex;
            self.errors = None;
            self.latex_step(job)
        } else {
            self.phase = RenderPhase::Ended;
            RenderStep::Fail(NO_RENDERER.to_owned())
        }
    }

    /// Have the Typst document compiled.
    fn typst_step(&self, job: &RenderJob<String>) -> (r: RenderStep<String>)
        ensures
            r@ == typst_step(job@, self@.working, self@.level as int),
    {
        match markdown_to_typst(self.working.as_str()) {
            Ok(body) => {
                let template = generate_tighter_typst_template(
                    job.typst_template.as_str(),
                    self.level,
                );
                let mut document = RUNTIME_PRELUDE.to_owned();
                document.push_str(fill_template(template.as_str(), body.as_str()).as_str());
                RenderStep::CompileTypst(document)
            },
            Err(e) => RenderStep::RefuseTypst(e),
        }
    }

    /// Have the LaTeX document compiled.
    fn latex_step(&self, job: &RenderJob<String>) -> (r: RenderStep<String>)
        ensures
            r@ == RenderStep::CompileLatex(latex_document(job@, self@.working)),
    {
        let body = markdown_to_latex(self.working.as_str());
        RenderStep::CompileLatex(fill_template(job.latex_template.as_str(), body.as_str()))
    }

    /// Compress the content further, or give up.
    fn next_attempt(&mut self, job: &RenderJob<String>) -> (r: RenderStep<String>)
        ensures
            (final(self)@, r@) == next_attempt(old(self)@, job@),
    {
        if self.attempt >= 3 {
            self.phase = RenderPhase::Ended;
            let mut e = "Failed to produce a PDF within ".to_owned();
            push_decimal(&mut e, job.max_pages as u64);
            e.push_str(" pages after 4 attempts. Last error: ");
            match &self.last_error {
                Some(last) => {
                    e.push_str(last.as_str());
                },
                None => {
                    e.push_str("unknown");
                },
            }
            RenderStep::Fail(e)
        } else {
            self.attempt = self.attempt + 1;
            self.level = 0;
            self.working = compress_content(job.markdown.as_str(), self.attempt);
            self.begin_compile(job)
        }
    }

    /// Note that there are too many pages, and go on.
    fn overflow(&mut self, job: &RenderJob<String>) -> (r: RenderStep<String>)
        ensures
            (final(self)@, r@) == overflow(old(self)@, job@),
    {
        self.last_error = Some(overflow_error(self.pages, job.max_pages));
        self.next_attempt(job)
    }

    /// Tighten the layout further, or go on without.
    fn next_level(&mut self, job: &RenderJob<String>) -> (r: RenderStep<String>)
        ensures
            (final(self)@, r@) == next_level(old(self)@, job@),
    {
        if self.level >= 2 {
            self.overflow(job)
        } else {
            self.level = self.level + 1;
            self.begin_compile(job)
        }
    }

    /// Go on after a compilation that failed.
    fn compile_failed(&mut self, job: &RenderJob<String>, e: &str) -> (r: RenderStep<String>)
        ensures
            (final(self)@, r@) == compile_failed(old(self)@, job@, e@),
    {
        if self.level > 0 {
            self.next_level(job)
        } else {
            self.last_error = Some(prefixed("compilation failed: ", e));
            self.next_attempt(job)
        }
    }

    /// Go on after a compilation that made a PDF.
    fn compiled(&mut self, job: &RenderJob<String>, pages: usize) -> (r: RenderStep<String>)
        ensures
            (final(self)@, r@) == compiled(old(self)@, job@, pages),
    {
        if pages <= job.max_pages {
            self.phase = RenderPhase::Ended;
            RenderStep::Finish {
                pages,
                template: label_of(job, self.level),
                attempt: self.attempt,
                measure: job.typst,
            }
        } else if self.level > 0 {
            self.next_level(job)
        } else if job.typst && job.default_typst {
            self.phase = RenderPhase::Measuring;
            self.pages = pages;
            RenderStep::Measure { pages }
        } else {
            self.pages = pages;
            self.overflow(job)
        }
    }

    /// Go on after Typst failed.
    fn typst_failed(&mut self, job: &RenderJob<String>, e: String) -> (r: RenderStep<String>)
        ensures
            (final(self)@, r@) == typst_failed(old(self)@, job@, e@),
    {
        if job.latex {
            self.phase = RenderPhase::Latex;
            self.errors = Some(e);
            self.latex_step(job)
        } else {
            self.compile_failed(job, e.as_str())
        }
    }

    /// Go on after LaTeX failed.
    fn latex_failed(&mut self, job: &RenderJob<String>, e: String) -> (r: RenderStep<String>)
        ensures
            (final(self)@, r@) == compile_failed(
                old(self)@,
                job@,
                joined(old(self)@.errors, e@),
            ),
    {
        let all = match &self.errors {
            Some(before) => {
                let mut out = before.clone();
                out.push_str("; ");
                out.push_str(e.as_str());
                out
            },
            None => e,
        };
        self.compile_failed(job, all.as_str())
    }

    /// The next step of a rendering, by what came of the last one.
    pub fn step(&mut self, job: &RenderJob<String>, event: RenderEvent<String>) -> (r: RenderStep<
        String,
    >)
        ensures
            (final(self)@, r@) == next(old(self)@, job@, event@),
    {
        match (self.phase, event) {
            (RenderPhase::Start, RenderEvent::Begin) => {
                self.attempt = 0;
                self.level = 0;
                self.working = job.markdown.clone();
                self.begin_compile(job)
            },
            (RenderPhase::Typst, RenderEvent::Compiled { pages }) => self.compiled(job, pages),
            (RenderPhase::Typst, RenderEvent::NotWritten(e)) => self.typst_failed(
                job,
                prefixed("typst write: ", e.as_str()),
            ),
            (RenderPhase::Typst, RenderEvent::NotCompiled(e)) => self.typst_failed(
                job,
                prefixed("typst: ", e.as_str()),
            ),
            (RenderPhase::Typst, RenderEvent::NotCounted(e)) => self.compile_failed(
                job,
                e.as_str(),
            ),
            (RenderPhase::Latex, RenderEvent::Compiled { pages }) => self.compiled(job, pages),
            (RenderPhase::Latex, RenderEvent::NotWritten(e)) => self.latex_failed(
                job,
                prefixed("latex write: ", e.as_str()),
            ),
            (RenderPhase::Latex, RenderEvent::NotCompiled(e)) => self.latex_failed(
                job,
                prefixed("latex: ", e.as_str()),
            ),
            (RenderPhase::Latex, RenderEvent::NotCounted(e)) => self.compile_failed(
                job,
                e.as_str(),
            ),
            (RenderPhase::Measuring, RenderEvent::Measured { marginal }) => if marginal {
                self.level = 1;
                self.begin_compile(job)
            } else {
                self.overflow(job)
            },
            _ => RenderStep::Idle,
        }
    }
}

// ---------------------------------------------------------------------------
// Laws
// ---------------------------------------------------------------------------

/// How much a rendering has still before it.
pub open spec fn steps_left(s: State) -> int {
    let here: int = match s.phase {
        RenderPhase::Start => 40,
        RenderPhase::Ended => 0,
        RenderPhase::Measuring => 5,
        RenderPhase::Typst => if s.level == 0 {
            7
        } else if s.level == 1 {
            4
        } else {
            2
        },
        RenderPhase::Latex => if s.level == 0 {
            6
        } else if s.level == 1 {
            3
        } else {
            1
        },
    };
    if s.phase == RenderPhase::Ended {
        0
    } else {
        here + (3 - s.attempt) * 8
    }
}

/// Every step keeps the bounds on attempts and levels.
pub proof fn law_bounds_are_kept(s: State, job: Job, event: RenderEvent<Seq<char>>)
    requires
        wf(s, job),
    ensures
        wf(next(s, job, event).0, job),
{
}

/// Every step that belongs here brings the rendering closer to its end, so that it
/// ends after at most seventy of them.
pub proof fn law_rendering_ends(s: State, job: Job, event: RenderEvent<Seq<char>>)
    requires
        wf(s, job),
        next(s, job, event).1 != RenderStep::<Seq<char>>::Idle,
    ensures
        0 <= steps_left(next(s, job, event).0) < steps_left(s) <= 70,
{
}

/// A rendering is kept only if it fits the page limit, and the content was
/// compressed at most three times for it.
pub proof fn law_result_fits(s: State, job: Job, event: RenderEvent<Seq<char>>)
    requires
        wf(s, job),
    ensures
        next(s, job, event).1 matches RenderStep::Finish { pages, attempt, .. } ==> pages
            <= job.max_pages && attempt <= 3 && event == (RenderEvent::<Seq<char>>::Compiled {
            pages,
        }),
{
}

/// A rendering that fits is kept at once, whatever came before.
pub proof fn law_fitting_is_kept(s: State, job: Job, pages: usize)
    requires
        s.phase == RenderPhase::Typst || s.phase == RenderPhase::Latex,
        pages <= job.max_pages,
    ensures
        next(s, job, RenderEvent::Compiled { pages }).1 is Finish,
{
}

/// The rendering is given up only after the fourth attempt, or where there is no
/// program to make a PDF.
pub proof fn law_four_attempts(s: State, job: Job, event: RenderEvent<Seq<char>>)
    requires
        wf(s, job),
        next(s, job, event).1 is Fail,
    ensures
        s.attempt == 3 || (!job.typst && !job.latex),
{
}

/// Where there is Typst, LaTeX is tried only after Typst has failed.
pub proof fn law_typst_first(s: State, job: Job, event: RenderEvent<Seq<char>>)
    requires
        wf(s, job),
        job.typst,
        next(s, job, event).1 is CompileLatex,
    ensures
        s.phase == RenderPhase::Typst && (event is NotWritten || event is NotCompiled),
{
}

/// A template of the user's own is never tightened.
pub proof fn law_custom_template_is_kept(s: State, job: Job, event: RenderEvent<Seq<char>>)
    requires
        wf(s, job),
        !job.default_typst,
    ensures
        next(s, job, event).1 matches RenderStep::CompileTypst(t) ==> exists|body: Seq<char>|
            t == RUNTIME_PRELUDE@ + #[trigger] replace_of(
                job.typst_template,
                PLACEHOLDER@,
                body,
            ),
{
    let (t, step) = next(s, job, event);
    if step is CompileTypst {
        assert(t.level == 0);
        assert(step == typst_step(job, t.working, 0));
        let body = document_typst(t.working)->Ok_0;
        assert(step == RenderStep::CompileTypst(
            RUNTIME_PRELUDE@ + replace_of(job.typst_template, PLACEHOLDER@, body),
        ));
    }
}

/// What an attempt renders: the sheet as it is at first, and at each later attempt the
/// sheet as compressed for that attempt.
pub open spec fn renders_its_attempt(s: State, job: Job) -> bool {
    s.working == if s.attempt == 0 {
        job.markdown
    } else {
        compressed(job.markdown, s.attempt as int)
    }
}

/// Every attempt starts from the sheet itself, never from what an earlier attempt cut;
/// and what is compiled is the template with the whole rendering of that text in the
/// place that the template has for it.
pub proof fn law_attempts_render_the_sheet(s: State, job: Job, event: RenderEvent<Seq<char>>)
    requires
        wf(s, job),
        s.phase == RenderPhase::Start || renders_its_attempt(s, job),
    ensures
        ({
            let (t, step) = next(s, job, event);
            &&& t.phase == RenderPhase::Start || renders_its_attempt(t, job)
            &&& step matches RenderStep::CompileLatex(document) ==> document == replace_of(
                job.latex_template,
                "{{content}}"@,
                pieces_text(document_pieces(t.working)),
            )
            &&& step matches RenderStep::CompileTypst(document) ==> {
                &&& document_typst(t.working) is Ok
                &&& document == RUNTIME_PRELUDE@ + replace_of(
                    tightened(job.typst_template, t.level as int),
                    "{{content}}"@,
                    document_typst(t.working)->Ok_0,
                )
            }
            &&& step matches RenderStep::RefuseTypst(e) ==> document_typst(t.working) == Err::<
                Seq<char>,
                Seq<char>,
            >(e)
        }),
{
}

/// A rendering that is too long leads on: to the tighter layouts in turn, where the own
/// template is used and the overflow is small, and to the next attempt behind them; and
/// to the next attempt at once with any other template or a larger overflow. After the
/// fourth attempt it fails, and says by how much.
pub proof fn law_overflow_leads_on(s: State, job: Job, pages: usize, marginal: bool)
    requires
        wf(s, job),
        s.phase == RenderPhase::Typst || s.phase == RenderPhase::Latex,
        pages > job.max_pages,
    ensures
        ({
            let (t, step) = next(s, job, RenderEvent::Compiled { pages });
            let given_up = |u: State, step: Step, last: Option<Seq<char>>|
                if s.attempt < 3 {
                    u.attempt == s.attempt + 1 && u.level == 0
                } else {
                    step == RenderStep::Fail(failure_text(job.max_pages as int, last))
                };
            if s.level == 1 {
                t.attempt == s.attempt && t.level == 2
            } else if s.level == 2 {
                given_up(t, step, Some(overflow_text(s.pages as int, job.max_pages as int)))
            } else if job.typst && job.default_typst {
                let (u, then_step) = next(t, job, RenderEvent::Measured { marginal });
                &&& step == RenderStep::Measure::<Seq<char>> { pages }
                &&& if marginal {
                    u.attempt == s.attempt && u.level == 1
                } else {
                    given_up(
                        u,
                        then_step,
                        Some(overflow_text(pages as int, job.max_pages as int)),
                    )
                }
            } else {
                given_up(t, step, Some(overflow_text(pages as int, job.max_pages as int)))
            }
        }),
{
}

/// What the failure of a rendering says: the limit, and the pages that there were.
pub proof fn law_failures_say_the_pages(pages: nat, max: nat)
    ensures
        failure_text(max as int, Some(overflow_text(pages as int, max as int)))
            == "Failed to produce a PDF within "@ + decimal_of(max)
            + " pages after 4 attempts. Last error: "@ + ("PDF has "@ + decimal_of(pages)
            + " pages, exceeding maximum of "@ + decimal_of(max) + " pages"@),
{
}

/// Where Typst cannot make the document, LaTeX makes the same one, if it is there; and
/// where nothing can, the next attempt begins. What went wrong is not forgotten: at the
/// end the failure holds it.
pub proof fn law_compilers_stand_in(s: State, job: Job, e: Seq<char>, f: Seq<char>)
    requires
        wf(s, job),
        s.phase == RenderPhase::Typst,
        s.level == 0,
    ensures
        ({
            let (t, step) = next(s, job, RenderEvent::NotCompiled(e));
            if job.latex {
                let (u, then_step) = next(t, job, RenderEvent::NotCompiled(f));
                &&& step == RenderStep::CompileLatex(latex_document(job, s.working))
                &&& t.attempt == s.attempt && t.level == s.level && t.working == s.working
                &&& s.attempt < 3 ==> u.attempt == s.attempt + 1
                &&& s.attempt == 3 ==> then_step == RenderStep::Fail(
                    failure_text(
                        job.max_pages as int,
                        Some("compilation failed: "@ + ("typst: "@ + e + "; "@ + ("latex: "@ + f))),
                    ),
                )
            } else {
                &&& s.attempt < 3 ==> t.attempt == s.attempt + 1
                &&& s.attempt == 3 ==> step == RenderStep::Fail(
                    failure_text(
                        job.max_pages as int,
                        Some("compilation failed: "@ + ("typst: "@ + e)),
                    ),
                )
            }
        }),
{
}

/// A result tells how it came about: its pages, its attempt, and the template it was
/// made with.
pub proof fn law_result_names_its_template(s: State, job: Job, pages: usize)
    requires
        wf(s, job),
        s.phase == RenderPhase::Typst || s.phase == RenderPhase::Latex,
        pages <= job.max_pages,
    ensures
        next(s, job, RenderEvent::Compiled { pages }).1 == (RenderStep::Finish {
            pages,
            template: if s.level > 0 {
                "default_cheatsheet.typ (tight L"@ + decimal_of(s.level as nat) + ")"@
            } else if job.typst {
                job.typst_label
            } else {
                job.latex_label
            },
            attempt: s.attempt,
            measure: job.typst,
        }),
{
}

} // verus!
