//! Note patches from a course index: each section of the note is matched with
//! what the index holds on it, and the progress is counted in characters.

use vstd::prelude::*;

use crate::artifacts::PatchEntry;
use crate::compact::{compact_transcript_for_llm, compacted, limited};
use crate::notes::{patch_views, PatchView};
use crate::processors::note_patch::{
    section_patch_prompt, section_patches, taken_views, ProposedPatch, SECTION_PATCH_SYSTEM,
};
use crate::markdown_typst::math::text_view;
use crate::text::{char_count, first_chars, join, join_of, take_chars, views};

verus! {

/// A section of a note.
#[derive(Debug)]
pub struct NoteSection {
    /// Its heading.
    pub heading: String,
    /// Its body.
    pub body: String,
}

/// `a + b`, or the largest number.
pub open spec fn capped_sum(a: int, b: int) -> int {
    if a + b <= usize::MAX {
        a + b
    } else {
        usize::MAX as int
    }
}

/// The characters of a section.
pub open spec fn section_len(s: NoteSection) -> int {
    capped_sum(s.heading@.len() as int, s.body@.len() as int)
}

/// The characters of all sections.
pub open spec fn sections_len(ss: Seq<NoteSection>) -> int
    decreases ss.len(),
{
    if ss.len() == 0 {
        0
    } else {
        capped_sum(sections_len(ss.drop_last()), section_len(ss.last()))
    }
}

/// `n`, but at least one.
pub open spec fn at_least_one(n: int) -> int {
    if n < 1 {
        1
    } else {
        n
    }
}

/// How far the patching of a note has got, counted in characters.
#[derive(Debug, Clone, Copy, PartialEq, Eq, Structural)]
pub struct PatchProgress {
    /// The characters of the sections that are done.
    pub completed: usize,
    /// The characters of all sections.
    pub total: usize,
}

fn section_chars(s: &NoteSection) -> (r: usize)
    ensures
        r == section_len(*s),
{
    char_count(s.heading.as_str()).saturating_add(char_count(s.body.as_str()))
}

/// The progress after a section: its characters, at least one, are added, and
/// no more than the total is reached.
pub open spec fn advanced(p: PatchProgress, s: NoteSection) -> PatchProgress {
    let sum = capped_sum(p.completed as int, at_least_one(section_len(s)));
    PatchProgress {
        completed: if sum < p.total {
            sum as usize
        } else {
            p.total
        },
        total: p.total,
    }
}

impl PatchProgress {
    /// The progress before the first section.
    pub fn start(sections: &[NoteSection]) -> (r: PatchProgress)
        ensures
            r.completed == 0,
            r.total == at_least_one(sections_len(sections@)),
    {
        let mut sum: usize = 0;
        let mut i: usize = 0;
        assert(sections@.take(0) =~= Seq::empty());
        while i < sections.len()
            invariant
                i <= sections@.len(),
                sum == sections_len(sections@.take(i as int)),
            decreases sections@.len() - i,
        {
            assert(sections@.take(i + 1).drop_last() =~= sections@.take(i as int));
            sum = sum.saturating_add(section_chars(&sections[i]));
            i += 1;
        }
        assert(sections@.take(i as int) =~= sections@);
        PatchProgress {
            completed: 0,
            total: if sum < 1 {
                1
            } else {
                sum
            },
        }
    }

    /// Count a section as done.
    pub fn advance(&mut self, s: &NoteSection)
        ensures
            *final(self) == advanced(*old(self), *s),
    {
        let chars: usize = section_chars(s);
        let weight: usize = if chars < 1 {
            1
        } else {
            chars
        };
        let sum: usize = self.completed.saturating_add(weight);
        self.completed = if sum < self.total {
            sum
        } else {
            self.total
        };
    }
}

/// The progress after the given sections.
pub open spec fn advanced_over(p: PatchProgress, ss: Seq<NoteSection>) -> PatchProgress
    decreases ss.len(),
{
    if ss.len() == 0 {
        p
    } else {
        advanced(advanced_over(p, ss.drop_last()), ss.last())
    }
}

proof fn lemma_sections_len_bounds(ss: Seq<NoteSection>)
    ensures
        0 <= sections_len(ss) <= usize::MAX,
    decreases ss.len(),
{
    if ss.len() > 0 {
        lemma_sections_len_bounds(ss.drop_last());
    }
}

proof fn lemma_progress(p: PatchProgress, ss: Seq<NoteSection>)
    requires
        p.completed == 0,
        p.total >= 1,
    ensures
        advanced_over(p, ss).total == p.total,
        advanced_over(p, ss).completed <= p.total,
        ({
            let done = advanced_over(p, ss).completed;
            done == p.total || done >= sections_len(ss)
        }),
        ss.len() > 0 ==> advanced_over(p, ss).completed >= 1,
    decreases ss.len(),
{
    if ss.len() > 0 {
        lemma_progress(p, ss.drop_last());
        lemma_sections_len_bounds(ss.drop_last());
    }
}

/// When all sections are done the progress is complete, and it never exceeds
/// the total before.
pub proof fn law_progress_completes(p: PatchProgress, ss: Seq<NoteSection>, k: int)
    requires
        ss.len() > 0,
        p.completed == 0,
        p.total == at_least_one(sections_len(ss)),
        0 <= k <= ss.len(),
    ensures
        advanced_over(p, ss.take(k)).completed <= p.total,
        advanced_over(p, ss).completed == p.total,
{
    lemma_progress(p, ss.take(k));
    lemma_progress(p, ss);
}

/// The label of a section that was passed over.
pub fn skipped_label(heading: &str) -> (r: String)
    ensures
        r@ == "skipped "@ + heading@,
{
    let mut out = "skipped ".to_owned();
    out.push_str(heading);
    out
}

/// The label of a section that was patched.
pub fn processed_label(heading: &str) -> (r: String)
    ensures
        r@ == "processed "@ + heading@,
{
    let mut out = "processed ".to_owned();
    out.push_str(heading);
    out
}

/// What the index is searched for: the heading and the beginning of the body.
pub fn section_query(s: &NoteSection) -> (r: String)
    ensures
        r@ == s.heading@ + "\n"@ + first_chars(s.body@, 1600),
{
    let mut out = s.heading.clone();
    out.push_str("\n");
    out.push_str(take_chars(s.body.as_str(), 1600).as_str());
    out
}

/// The note to patch, by what reading it gave, or why there is nothing to patch: the
/// note cannot be read, or no day of the courses is indexed.
pub open spec fn patch_base(
    read: Result<Seq<char>, Seq<char>>,
    index_count: usize,
) -> Result<Seq<char>, Seq<char>> {
    match read {
        Err(e) => Err("Failed to read note source: "@ + e),
        Ok(note) => if index_count == 0 {
            Err("No ready Course Transcript indexes found."@)
        } else {
            Ok(note)
        },
    }
}

/// The note to patch, by what reading it gave, or why there is nothing to patch.
pub fn base_of_patch(read: Result<String, String>, index_count: usize) -> (r: Result<
    String,
    String,
>)
    ensures
        text_view(r) == patch_base(text_view(read), index_count),
{
    match read {
        Err(e) => {
            let mut reason = "Failed to read note source: ".to_owned();
            reason.push_str(e.as_str());
            Err(reason)
        },
        Ok(note) => if index_count == 0 {
            Err("No ready Course Transcript indexes found.".to_owned())
        } else {
            Ok(note)
        },
    }
}

/// A day of the course that matches a section.
#[derive(Debug)]
pub struct CourseHit {
    /// The date.
    pub date: String,
    /// How well it matches, as it is shown.
    pub score: String,
    /// What the day is about.
    pub summary: String,
    /// Its key words.
    pub keywords: Vec<String>,
    /// Its concepts.
    pub concepts: Vec<String>,
    /// The passages that matter, one line each.
    pub ranges: Vec<String>,
    /// Its transcript.
    pub transcript: String,
}

/// What a request is told of a day.
pub open spec fn hit_text(h: CourseHit) -> Seq<char> {
    "\n\n--- Date: "@ + h.date@ + " score "@ + h.score@ + " ---\nSummary: "@ + h.summary@
        + "\nKeywords: "@ + join_of(views(h.keywords@), ", "@) + "\nConcepts: "@ + join_of(
        views(h.concepts@),
        ", "@,
    ) + "\nRanges:\n"@ + join_of(views(h.ranges@), "\n"@) + "\nTranscript excerpt:\n"@ + limited(
        compacted(h.transcript@),
        12000,
    )
}

/// What a request is told of the days.
pub open spec fn hits_text(hs: Seq<CourseHit>) -> Seq<char>
    decreases hs.len(),
{
    if hs.len() == 0 {
        Seq::empty()
    } else {
        hits_text(hs.drop_last()) + hit_text(hs.last())
    }
}

fn text_of_hit(h: &CourseHit) -> (r: String)
    ensures
        r@ == hit_text(*h),
{
    let mut out = "\n\n--- Date: ".to_owned();
    out.push_str(h.date.as_str());
    out.push_str(" score ");
    out.push_str(h.score.as_str());
    out.push_str(" ---\nSummary: ");
    out.push_str(h.summary.as_str());
    out.push_str("\nKeywords: ");
    out.push_str(join(&h.keywords, ", ").as_str());
    out.push_str("\nConcepts: ");
    out.push_str(join(&h.concepts, ", ").as_str());
    out.push_str("\nRanges:\n");
    out.push_str(join(&h.ranges, "\n").as_str());
    out.push_str("\nTranscript excerpt:\n");
    out.push_str(compact_transcript_for_llm(h.transcript.as_str(), 12000).as_str());
    out
}

/// Build what a request is told of the days that match a section.
pub fn build_hits_text(hits: &[CourseHit]) -> (r: String)
    ensures
        r@ == hits_text(hits@),
{
    let mut out = String::new();
    let mut i: usize = 0;
    assert(hits@.take(0) =~= Seq::empty());
    while i < hits.len()
        invariant
            i <= hits@.len(),
            out@ == hits_text(hits@.take(i as int)),
        decreases hits@.len() - i,
    {
        assert(hits@.take(i + 1).drop_last() =~= hits@.take(i as int));
        out.push_str(text_of_hit(&hits[i]).as_str());
        i += 1;
    }
    assert(hits@.take(i as int) =~= hits@);
    out
}


// ---------------------------------------------------------------------------
// The run over the sections
// ---------------------------------------------------------------------------

/// What the run waits for.
#[derive(Debug, Clone, Copy, PartialEq, Eq, Structural)]
pub enum PatchPhase {
    /// To be started.
    Start,
    /// The days that match a section.
    Searching,
    /// The patches of a section.
    Asking,
    /// Nothing: all sections are done.
    Finished,
}

/// Where the run stands. `P` is a list of patches.
#[derive(Debug)]
pub struct PatchRun<P> {
    /// What it waits for.
    pub phase: PatchPhase,
    /// The section that it is at.
    pub index: usize,
    /// How far it has got.
    pub progress: PatchProgress,
    /// The patches so far.
    pub patches: P,
}

/// What happened.
#[derive(Debug)]
pub enum PatchEvent<H, Q> {
    /// The run begins.
    Begin,
    /// These days match the section well enough.
    Hits(H),
    /// These patches are proposed.
    Proposed(Q),
    /// No reply came.
    NoReply,
}

/// What to do next.
#[derive(Debug)]
pub enum PatchAction<T> {
    /// Search the course index.
    Search(T),
    /// Ask for the patches of a section.
    Ask {
        /// The system prompt.
        system: T,
        /// The user prompt.
        user: T,
    },
    /// Apply the patches.
    Apply,
    /// Nothing.
    Idle,
}

/// What to do next, and the progress to show before it.
#[derive(Debug)]
pub struct PatchStep<T> {
    /// The characters that are done, all characters, and a label.
    pub progress: Option<(usize, usize, T)>,
    /// The work.
    pub action: PatchAction<T>,
}

impl View for PatchRun<Vec<PatchEntry>> {
    type V = PatchRun<Seq<PatchView>>;

    open spec fn view(&self) -> PatchRun<Seq<PatchView>> {
        PatchRun {
            phase: self.phase,
            index: self.index,
            progress: self.progress,
            patches: patch_views(self.patches@),
        }
    }
}

impl View for PatchEvent<Vec<CourseHit>, Vec<ProposedPatch>> {
    type V = PatchEvent<Seq<CourseHit>, Seq<ProposedPatch>>;

    open spec fn view(&self) -> PatchEvent<Seq<CourseHit>, Seq<ProposedPatch>> {
        match *self {
            PatchEvent::Begin => PatchEvent::Begin,
            PatchEvent::Hits(h) => PatchEvent::Hits(h@),
            PatchEvent::Proposed(q) => PatchEvent::Proposed(q@),
            PatchEvent::NoReply => PatchEvent::NoReply,
        }
    }
}

impl View for PatchAction<String> {
    type V = PatchAction<Seq<char>>;

    open spec fn view(&self) -> PatchAction<Seq<char>> {
        match *self {
            PatchAction::Search(t) => PatchAction::Search(t@),
            PatchAction::Ask { system, user } => PatchAction::Ask { system: system@, user: user@ },
            PatchAction::Apply => PatchAction::Apply,
            PatchAction::Idle => PatchAction::Idle,
        }
    }
}

impl View for PatchStep<String> {
    type V = PatchStep<Seq<char>>;

    open spec fn view(&self) -> PatchStep<Seq<char>> {
        PatchStep {
            progress: match self.progress {
                Some((c, t, l)) => Some((c, t, l@)),
                None => None,
            },
            action: self.action@,
        }
    }
}

/// The view of a run.
pub type PatchState = PatchRun<Seq<PatchView>>;

/// A run with the step that it takes.
pub type PatchMove = (PatchState, PatchStep<Seq<char>>);

/// The next section, or the end once there are no more.
pub open spec fn at_section(
    run: PatchState,
    sections: Seq<NoteSection>,
    label: Seq<char>,
) -> PatchMove {
    let progress = Some((run.progress.completed, run.progress.total, label));
    if run.index < sections.len() {
        let s = sections[run.index as int];
        (
            PatchRun { phase: PatchPhase::Searching, ..run },
            PatchStep {
                progress,
                action: PatchAction::Search(s.heading@ + "\n"@ + first_chars(s.body@, 1600)),
            },
        )
    } else {
        (
            PatchRun { phase: PatchPhase::Finished, ..run },
            PatchStep { progress, action: PatchAction::Apply },
        )
    }
}

/// The run with its section done.
pub open spec fn section_done(
    run: PatchState,
    sections: Seq<NoteSection>,
    patches: Seq<PatchView>,
    mark: Seq<char>,
) -> PatchMove {
    let s = sections[run.index as int];
    at_section(
        PatchRun {
            phase: run.phase,
            index: (run.index + 1) as usize,
            progress: advanced(run.progress, s),
            patches: run.patches + patches,
        },
        sections,
        mark + s.heading@,
    )
}

/// What the run does when something happens. What it does not wait for changes
/// nothing.
pub open spec fn patch_next(
    run: PatchState,
    sections: Seq<NoteSection>,
    event: PatchEvent<Seq<CourseHit>, Seq<ProposedPatch>>,
) -> PatchMove {
    match (run.phase, event) {
        (PatchPhase::Start, PatchEvent::Begin) => at_section(
            run,
            sections,
            "retrieving course index"@,
        ),
        (PatchPhase::Searching, PatchEvent::Hits(hits)) => if hits.len() == 0 {
            section_done(run, sections, Seq::empty(), "skipped "@)
        } else {
            let s = sections[run.index as int];
            (
                PatchRun { phase: PatchPhase::Asking, ..run },
                PatchStep {
                    progress: None,
                    action: PatchAction::Ask {
                        system: SECTION_PATCH_SYSTEM@,
                        user: "Note section heading: "@ + s.heading@
                            + "\n\nCurrent section body:\n"@ + first_chars(s.body@, 4000)
                            + "\n\nRetrieved transcript context:\n"@ + first_chars(
                            hits_text(hits),
                            45000,
                        ),
                    },
                },
            )
        },
        (PatchPhase::Asking, PatchEvent::Proposed(ps)) => section_done(
            run,
            sections,
            taken_views(ps, sections[run.index as int].heading@),
            "processed "@,
        ),
        (PatchPhase::Asking, PatchEvent::NoReply) => section_done(
            run,
            sections,
            Seq::empty(),
            "processed "@,
        ),
        _ => (run, PatchStep { progress: None, action: PatchAction::Idle }),
    }
}

/// What holds of every run.
pub open spec fn patch_wf<P>(run: PatchRun<P>, sections: Seq<NoteSection>) -> bool {
    &&& run.index <= sections.len()
    &&& (run.phase == PatchPhase::Searching || run.phase == PatchPhase::Asking) ==> run.index
        < sections.len()
}

impl PatchRun<Vec<PatchEntry>> {
    /// A run that has not begun.
    pub fn new(sections: &[NoteSection]) -> (r: PatchRun<Vec<PatchEntry>>)
        ensures
            patch_wf(r, sections@),
            r@.phase == PatchPhase::Start,
            r@.index == 0,
            r@.progress.completed == 0,
            r@.progress.total == at_least_one(sections_len(sections@)),
            r@.patches == Seq::<PatchView>::empty(),
    {
        let r = PatchRun {
            phase: PatchPhase::Start,
            index: 0,
            progress: PatchProgress::start(sections),
            patches: Vec::new(),
        };
        assert(patch_views(r.patches@) =~= Seq::<PatchView>::empty());
        r
    }

    fn at_section(&mut self, sections: &[NoteSection], label: String) -> (r: PatchStep<String>)
        requires
            old(self).index <= sections@.len(),
        ensures
            patch_wf(*final(self), sections@),
            (final(self)@, r@) == at_section(old(self)@, sections@, label@),
    {
        let progress = Some((self.progress.completed, self.progress.total, label));
        if self.index < sections.len() {
            self.phase = PatchPhase::Searching;
            PatchStep { progress, action: PatchAction::Search(section_query(&sections[self.index])) }
        } else {
            self.phase = PatchPhase::Finished;
            PatchStep { progress, action: PatchAction::Apply }
        }
    }

    fn section_done(&mut self, sections: &[NoteSection], patches: Vec<PatchEntry>, label: String)
        -> (r: PatchStep<String>)
        requires
            old(self).index < sections@.len(),
        ensures
            patch_wf(*final(self), sections@),
            (final(self)@, r@) == at_section(
                PatchRun {
                    phase: old(self).phase,
                    index: (old(self).index + 1) as usize,
                    progress: advanced(old(self).progress, sections@[old(self).index as int]),
                    patches: old(self)@.patches + patch_views(patches@),
                },
                sections@,
                label@,
            ),
    {
        let mut patches = patches;
        let n: usize = sections.len();
        let ghost before = self.patches@;
        let ghost new = patches@;
        self.progress.advance(&sections[self.index]);
        self.index = self.index + 1;
        self.patches.append(&mut patches);
        assert(patch_views(self.patches@) =~= patch_views(before) + patch_views(new));
        self.at_section(sections, label)
    }

    /// Take note of what happened, and say what to do next.
    pub fn step(
        &mut self,
        sections: &[NoteSection],
        event: PatchEvent<Vec<CourseHit>, Vec<ProposedPatch>>,
    ) -> (r: PatchStep<String>)
        requires
            patch_wf(*old(self), sections@),
        ensures
            patch_wf(*final(self), sections@),
            (final(self)@, r@) == patch_next(old(self)@, sections@, event@),
    {
        match (self.phase, event) {
            (PatchPhase::Start, PatchEvent::Begin) => {
                self.at_section(sections, "retrieving course index".to_owned())
            },
            (PatchPhase::Searching, PatchEvent::Hits(hits)) => {
                let s = &sections[self.index];
                if hits.len() == 0 {
                    let label = skipped_label(s.heading.as_str());
                    let none: Vec<PatchEntry> = Vec::new();
                    assert(patch_views(none@) =~= Seq::<PatchView>::empty());
                    self.section_done(sections, none, label)
                } else {
                    self.phase = PatchPhase::Asking;
                    PatchStep {
                        progress: None,
                        action: PatchAction::Ask {
                            system: SECTION_PATCH_SYSTEM.to_owned(),
                            user: section_patch_prompt(
                                s.heading.as_str(),
                                s.body.as_str(),
                                build_hits_text(&hits).as_str(),
                            ),
                        },
                    }
                }
            },
            (PatchPhase::Asking, PatchEvent::Proposed(ps)) => {
                let s = &sections[self.index];
                let label = processed_label(s.heading.as_str());
                let patches = section_patches(s.heading.as_str(), &ps);
                self.section_done(sections, patches, label)
            },
            (PatchPhase::Asking, PatchEvent::NoReply) => {
                let label = processed_label(sections[self.index].heading.as_str());
                let none: Vec<PatchEntry> = Vec::new();
                assert(patch_views(none@) =~= Seq::<PatchView>::empty());
                self.section_done(sections, none, label)
            },
            _ => PatchStep { progress: None, action: PatchAction::Idle },
        }
    }
}

/// The run goes over every section once and in order: a step stays at its
/// section or goes on to the next one, and patches are only added.
pub proof fn law_sections_in_order(
    run: PatchState,
    sections: Seq<NoteSection>,
    event: PatchEvent<Seq<CourseHit>, Seq<ProposedPatch>>,
)
    requires
        patch_wf(run, sections),
        sections.len() < usize::MAX,
    ensures
        ({
            let after = patch_next(run, sections, event).0;
            &&& patch_wf(after, sections)
            &&& after.index == run.index || after.index == run.index + 1
            &&& after.patches.len() >= run.patches.len()
            &&& after.patches.take(run.patches.len() as int) == run.patches
            &&& after.phase == PatchPhase::Finished && run.phase != PatchPhase::Finished
                ==> after.index == sections.len()
        }),
{
    let after = patch_next(run, sections, event).0;
    assert(after.patches.take(run.patches.len() as int) =~= run.patches);
}

/// A section without a match and a section without a reply leave the patches
/// as they are.
pub proof fn law_nothing_found_changes_nothing(run: PatchState, sections: Seq<NoteSection>)
    requires
        patch_wf(run, sections),
    ensures
        run.phase == PatchPhase::Searching ==> patch_next(
            run,
            sections,
            PatchEvent::Hits(Seq::empty()),
        ).0.patches == run.patches,
        run.phase == PatchPhase::Asking ==> patch_next(
            run,
            sections,
            PatchEvent::NoReply,
        ).0.patches == run.patches,
{
    assert(run.patches + Seq::<PatchView>::empty() =~= run.patches);
}

/// What is searched for is always the section that the run is at: its heading and the
/// beginning of its body. A run begins at the first section, and goes to the next one
/// exactly when a section is over: nothing was found for it, or it was answered, or was
/// not. Where there is none left the patches are applied.
pub proof fn law_every_section_is_searched_for(
    run: PatchState,
    sections: Seq<NoteSection>,
    event: PatchEvent<Seq<CourseHit>, Seq<ProposedPatch>>,
)
    requires
        patch_wf(run, sections),
        sections.len() < usize::MAX,
    ensures
        ({
            let (after, step) = patch_next(run, sections, event);
            let over = match (run.phase, event) {
                (PatchPhase::Searching, PatchEvent::Hits(hits)) => hits.len() == 0,
                (PatchPhase::Asking, PatchEvent::Proposed(_)) => true,
                (PatchPhase::Asking, PatchEvent::NoReply) => true,
                _ => false,
            };
            let begun = run.phase == PatchPhase::Start && event is Begin;
            &&& after.index == if over {
                run.index + 1
            } else {
                run.index as int
            }
            &&& over || begun ==> if after.index < sections.len() {
                let s = sections[after.index as int];
                step.action == PatchAction::Search(
                    s.heading@ + "\n"@ + (if s.body@.len() > 1600 {
                        s.body@.take(1600)
                    } else {
                        s.body@
                    }),
                )
            } else {
                step.action is Apply
            }
            &&& !over && !begun ==> !(step.action is Search) && !(step.action is Apply)
        }),
{
}

/// What the language model is asked about a section holds its heading, its body and
/// what was found for it, each whole where it is not too long.
pub proof fn law_found_lectures_are_asked_about(
    run: PatchState,
    sections: Seq<NoteSection>,
    hits: Seq<CourseHit>,
)
    requires
        patch_wf(run, sections),
        run.phase == PatchPhase::Searching,
        hits.len() > 0,
    ensures
        ({
            let (after, step) = patch_next(run, sections, PatchEvent::Hits(hits));
            let s = sections[run.index as int];
            &&& after.patches == run.patches && after.index == run.index
            &&& step.action matches PatchAction::Ask { system, user }
            &&& system == SECTION_PATCH_SYSTEM@
            &&& s.body@.len() <= 4000 && hits_text(hits).len() <= 45000 ==> user
                == "Note section heading: "@ + s.heading@ + "\n\nCurrent section body:\n"@ + s.body@
                + "\n\nRetrieved transcript context:\n"@ + hits_text(hits)
        }),
{
}

/// What is taken of the proposals for a section goes to the patches, behind those of the
/// sections before, and where a proposal names no place it is placed at that section.
pub proof fn law_proposals_of_a_section(
    run: PatchState,
    sections: Seq<NoteSection>,
    ps: Seq<ProposedPatch>,
)
    requires
        patch_wf(run, sections),
        run.phase == PatchPhase::Asking,
    ensures
        patch_next(run, sections, PatchEvent::Proposed(ps)).0.patches == run.patches + taken_views(
            ps,
            sections[run.index as int].heading@,
        ),
        patch_next(run, sections, PatchEvent::Proposed(ps)).1.progress matches Some((_, _, label))
            && label == "processed "@ + sections[run.index as int].heading@,
{
}

/// Everything that is known of a lecture is in the text of what was found, one lecture
/// after the other.
pub proof fn law_every_hit_is_in_the_context(hits: Seq<CourseHit>, h: CourseHit)
    requires
        compacted(h.transcript@).len() <= 12000,
    ensures
        hits_text(hits.push(h)) == hits_text(hits) + ("\n\n--- Date: "@ + h.date@ + " score "@
            + h.score@ + " ---\nSummary: "@ + h.summary@ + "\nKeywords: "@ + join_of(
            views(h.keywords@),
            ", "@,
        ) + "\nConcepts: "@ + join_of(views(h.concepts@), ", "@) + "\nRanges:\n"@ + join_of(
            views(h.ranges@),
            "\n"@,
        ) + "\nTranscript excerpt:\n"@ + compacted(h.transcript@)),
{
    assert(hits.push(h).drop_last() =~= hits);
}

/// A note that cannot be read, and a course without transcripts, are refused; any other
/// note is patched as it is.
pub proof fn law_base_of_a_patch(note: Seq<char>, error: Seq<char>, n: usize)
    ensures
        patch_base(Err(error), n) == Err::<Seq<char>, Seq<char>>(
            "Failed to read note source: "@ + error,
        ),
        patch_base(Ok(note), 0) == Err::<Seq<char>, Seq<char>>(
            "No ready Course Transcript indexes found."@,
        ),
        n > 0 ==> patch_base(Ok(note), n) == Ok::<Seq<char>, Seq<char>>(note),
{
}

/// Of a lecture that is too long the first part is there, and a mark that something is
/// left out.
pub proof fn law_long_lectures_are_cut(h: CourseHit)
    requires
        compacted(h.transcript@).len() > 12000,
    ensures
        crate::text::ends_with_of(
            hit_text(h),
            "\nTranscript excerpt:\n"@ + (compacted(h.transcript@).take(12000)
                + "\n\n[... content truncated to "@ + crate::text::decimal_of(12000)
                + " chars for context; ask about specific sections if needed ...]"@),
        ),
{
    let tail = "\nTranscript excerpt:\n"@ + (compacted(h.transcript@).take(12000)
        + "\n\n[... content truncated to "@ + crate::text::decimal_of(12000)
        + " chars for context; ask about specific sections if needed ...]"@);
    let t = hit_text(h);
    assert(t.subrange(t.len() - tail.len(), t.len() as int) =~= tail);
}

} // verus!
