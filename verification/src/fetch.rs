//! Fetching the transcripts of a course: what is done next, and what is reported.

use vstd::prelude::*;

use crate::pipeline::{line2, line_number, PipelineResult};
use crate::text::{decimal_of, push_decimal, views};

verus! {

/// What is to be fetched.
#[derive(Debug)]
pub struct FetchJob<T> {
    /// The course.
    pub course_id: T,
    /// The video, where only one is wanted.
    pub video_id: Option<T>,
    /// Where the transcripts are saved.
    pub out_dir: T,
}

impl View for FetchJob<String> {
    type V = FetchJob<Seq<char>>;

    open spec fn view(&self) -> FetchJob<Seq<char>> {
        FetchJob {
            course_id: self.course_id@,
            video_id: crate::text::opt_view(self.video_id),
            out_dir: self.out_dir@,
        }
    }
}

/// A transcript that was fetched.
#[derive(Debug)]
pub struct Fetched<T> {
    /// Its video.
    pub video_id: T,
    /// The title of its video.
    pub video_title: T,
    /// How many segments it has.
    pub segments: usize,
}

impl View for Fetched<String> {
    type V = Fetched<Seq<char>>;

    open spec fn view(&self) -> Fetched<Seq<char>> {
        Fetched {
            video_id: self.video_id@,
            video_title: self.video_title@,
            segments: self.segments,
        }
    }
}

/// Several transcripts.
pub open spec fn fetched_view(fs: Seq<Fetched<String>>) -> Seq<Fetched<Seq<char>>> {
    fs.map_values(|f: Fetched<String>| f@)
}

/// What a fetch waits for.
#[derive(Debug, Clone, Copy, PartialEq, Eq, Structural)]
pub enum FetchPhase {
    /// The output directory.
    Directory,
    /// The login.
    Login,
    /// The one video that is wanted.
    Single,
    /// The list of videos.
    Listing,
    /// The video with this number.
    Video(usize),
    /// The JSON file of the transcript with this number.
    SaveJson(usize),
    /// The subtitle file of the transcript with this number.
    SaveSrt(usize),
    /// Nothing more.
    Ended,
}

/// What came of the last step.
#[derive(Debug)]
pub enum FetchEvent {
    /// It was done.
    Done,
    /// A transcript was fetched.
    Fetched(Fetched<String>),
    /// The videos of the course.
    Listed(Vec<String>),
    /// A file was written, at this path.
    Written(String),
    /// A file could not be written: its path, and why.
    NotWritten(String, String),
    /// It could not be done.
    Failed(String),
}

/// A fetch under way, as plain values.
pub struct FetchState {
    /// What it waits for.
    pub phase: FetchPhase,
    /// The videos of the course.
    pub videos: Seq<Seq<char>>,
    /// The transcripts that were fetched.
    pub fetched: Seq<Fetched<Seq<char>>>,
    /// The files that were written.
    pub paths: Seq<Seq<char>>,
    /// What went wrong.
    pub errors: Seq<Seq<char>>,
    /// What was done.
    pub logs: Seq<Seq<char>>,
}

/// A fetch under way.
#[derive(Debug)]
pub struct FetchRun {
    /// What it waits for.
    pub phase: FetchPhase,
    /// The videos of the course.
    pub videos: Vec<String>,
    /// The transcripts that were fetched.
    pub fetched: Vec<Fetched<String>>,
    /// The files that were written.
    pub paths: Vec<String>,
    /// What went wrong.
    pub errors: Vec<String>,
    /// What was done.
    pub logs: Vec<String>,
}

impl View for FetchRun {
    type V = FetchState;

    open spec fn view(&self) -> FetchState {
        FetchState {
            phase: self.phase,
            videos: views(self.videos@),
            fetched: fetched_view(self.fetched@),
            paths: views(self.paths@),
            errors: views(self.errors@),
            logs: views(self.logs@),
        }
    }
}

/// A job as plain values.
pub type Job = FetchJob<Seq<char>>;

/// The fetch with one more line in its log.
pub open spec fn logged(s: FetchState, line: Seq<char>) -> FetchState {
    FetchState { logs: s.logs.push(line), ..s }
}

/// The fetch with one more error.
pub open spec fn faulted(s: FetchState, line: Seq<char>) -> FetchState {
    FetchState { errors: s.errors.push(line), ..s }
}

/// The fetch ended by an error.
pub open spec fn broken_off(s: FetchState, line: Seq<char>) -> FetchState {
    FetchState { phase: FetchPhase::Ended, ..faulted(s, line) }
}

/// The fetch goes on to the transcript with this number, or ends.
pub open spec fn saving(s: FetchState, job: Job, i: int) -> FetchState {
    if i < s.fetched.len() {
        FetchState { phase: FetchPhase::SaveJson(i as usize), ..s }
    } else {
        FetchState {
            phase: FetchPhase::Ended,
            ..logged(
                s,
                "Saved "@ + decimal_of(s.fetched.len()) + " transcript(s) to "@ + job.out_dir
                    + "/"@,
            )
        }
    }
}

/// The fetch goes on to the video with this number, or to saving.
pub open spec fn fetching(s: FetchState, job: Job, i: int) -> FetchState {
    if i < s.videos.len() {
        FetchState { phase: FetchPhase::Video(i as usize), ..s }
    } else {
        saving(s, job, 0)
    }
}

/// The line about a transcript.
pub open spec fn fetched_line(f: Fetched<Seq<char>>) -> Seq<char> {
    "Fetched "@ + f.video_id + ": "@ + f.video_title + " ("@ + decimal_of(f.segments as nat)
        + " segments)"@
}

/// The fetch after its transcript with this number has been saved or not.
pub open spec fn saved(s: FetchState, job: Job, i: int) -> FetchState {
    saving(logged(s, fetched_line(s.fetched[i])), job, i + 1)
}

/// The error about a file.
pub open spec fn write_error(path: Seq<char>, e: Seq<char>) -> Seq<char> {
    "Failed to write "@ + path + ": "@ + e
}

/// The fetch after the login.
pub open spec fn logged_in(s: FetchState, job: Job) -> FetchState {
    let t = logged(s, "Authenticated with SJTU video platform."@);
    match job.video_id {
        Some(id) => FetchState {
            phase: FetchPhase::Single,
            ..logged(t, "Fetching single video: "@ + id)
        },
        None => FetchState { phase: FetchPhase::Listing, ..t },
    }
}

/// The fetch after an event.
pub open spec fn next(s: FetchState, job: Job, event: FetchEvent) -> FetchState {
    match (s.phase, event) {
        (FetchPhase::Directory, FetchEvent::Done) => FetchState {
            phase: FetchPhase::Login,
            ..logged(s, "Connecting to Canvas course "@ + job.course_id + "..."@)
        },
        (FetchPhase::Directory, FetchEvent::Failed(e)) => broken_off(
            s,
            "Failed to create output dir: "@ + e@,
        ),
        (FetchPhase::Login, FetchEvent::Done) => logged_in(s, job),
        (FetchPhase::Login, FetchEvent::Failed(e)) => broken_off(
            s,
            "Authentication failed: "@ + e@,
        ),
        (FetchPhase::Single, FetchEvent::Fetched(f)) => saving(
            FetchState { fetched: s.fetched.push(f@), ..s },
            job,
            0,
        ),
        (FetchPhase::Single, FetchEvent::Failed(e)) => broken_off(
            s,
            "Failed to fetch subtitles for "@ + (match job.video_id {
                Some(id) => id,
                None => ""@,
            }) + ": "@ + e@,
        ),
        (FetchPhase::Listing, FetchEvent::Listed(ids)) => fetching(
            FetchState {
                videos: views(ids@),
                ..logged(s, "Found "@ + decimal_of(ids@.len()) + " video(s)."@)
            },
            job,
            0,
        ),
        (FetchPhase::Listing, FetchEvent::Failed(e)) => broken_off(
            s,
            "Failed to list videos: "@ + e@,
        ),
        (FetchPhase::Video(i), FetchEvent::Fetched(f)) => fetching(
            FetchState { fetched: s.fetched.push(f@), ..s },
            job,
            i + 1,
        ),
        (FetchPhase::Video(i), FetchEvent::Failed(e)) => fetching(
            faulted(s, "Failed "@ + s.videos[i as int] + ": "@ + e@),
            job,
            i + 1,
        ),
        (FetchPhase::SaveJson(i), FetchEvent::Written(path)) => FetchState {
            phase: FetchPhase::SaveSrt(i),
            paths: s.paths.push(path@),
            ..s
        },
        (FetchPhase::SaveJson(i), FetchEvent::NotWritten(path, e)) => FetchState {
            phase: FetchPhase::SaveSrt(i),
            ..faulted(s, write_error(path@, e@))
        },
        (FetchPhase::SaveJson(i), FetchEvent::Failed(e)) => FetchState {
            phase: FetchPhase::SaveSrt(i),
            ..faulted(
                s,
                "Failed to serialize "@ + s.fetched[i as int].video_id + ": "@ + e@,
            )
        },
        (FetchPhase::SaveSrt(i), FetchEvent::Written(path)) => saved(
            FetchState { paths: s.paths.push(path@), ..s },
            job,
            i as int,
        ),
        (FetchPhase::SaveSrt(i), FetchEvent::NotWritten(path, e)) => saved(
            faulted(s, write_error(path@, e@)),
            job,
            i as int,
        ),
        _ => s,
    }
}

/// What holds of a fetch at all times: the numbers are those of videos and
/// transcripts.
pub open spec fn wf(s: FetchState) -> bool {
    &&& s.phase matches FetchPhase::Video(i) ==> i < s.videos.len()
    &&& s.phase matches FetchPhase::SaveJson(i) ==> i < s.fetched.len()
    &&& s.phase matches FetchPhase::SaveSrt(i) ==> i < s.fetched.len()
}

// ---------------------------------------------------------------------------
// Execution
// ---------------------------------------------------------------------------

impl FetchRun {
    /// A fetch that has not begun.
    pub fn new() -> (r: FetchRun)
        ensures
            r@ == (FetchState {
                phase: FetchPhase::Directory,
                videos: Seq::empty(),
                fetched: Seq::empty(),
                paths: Seq::empty(),
                errors: Seq::empty(),
                logs: Seq::empty(),
            }),
            wf(r@),
    {
        let r = FetchRun {
            phase: FetchPhase::Directory,
            videos: Vec::new(),
            fetched: Vec::new(),
            paths: Vec::new(),
            errors: Vec::new(),
            logs: Vec::new(),
        };
        assert(views(r.videos@) =~= Seq::empty());
        assert(fetched_view(r.fetched@) =~= Seq::empty());
        r
    }

    /// Append a line to the log.
    fn log(&mut self, line: String)
        ensures
            final(self)@ == logged(old(self)@, line@),
            final(self).videos == old(self).videos,
            final(self).fetched == old(self).fetched,
    {
        self.logs.push(line);
        assert(views(self.logs@) =~= views(old(self).logs@).push(line@));
    }

    /// Append an error.
    fn fault(&mut self, line: String)
        ensures
            final(self)@ == faulted(old(self)@, line@),
            final(self).videos == old(self).videos,
            final(self).fetched == old(self).fetched,
    {
        self.errors.push(line);
        assert(views(self.errors@) =~= views(old(self).errors@).push(line@));
    }

    /// End by an error.
    fn break_off(&mut self, line: String)
        ensures
            final(self)@ == broken_off(old(self)@, line@),
    {
        self.fault(line);
        self.phase = FetchPhase::Ended;
    }

    /// Add a transcript.
    fn keep(&mut self, f: Fetched<String>)
        ensures
            final(self)@ == (FetchState { fetched: old(self)@.fetched.push(f@), ..old(self)@ }),
    {
        self.fetched.push(f);
        assert(fetched_view(self.fetched@) =~= fetched_view(old(self).fetched@).push(f@));
    }

    /// Add a file.
    fn wrote(&mut self, path: String)
        ensures
            final(self)@ == (FetchState { paths: old(self)@.paths.push(path@), ..old(self)@ }),
            final(self).fetched == old(self).fetched,
    {
        self.paths.push(path);
        assert(views(self.paths@) =~= views(old(self).paths@).push(path@));
    }

    /// Go on to a transcript, or end.
    fn save(&mut self, job: &FetchJob<String>, i: usize)
        ensures
            final(self)@ == saving(old(self)@, job@, i as int),
    {
        assert(self@.fetched.len() == self.fetched@.len());
        if i < self.fetched.len() {
            self.phase = FetchPhase::SaveJson(i);
        } else {
            let mut line = line_number("Saved ", self.fetched.len());
            line.push_str(" transcript(s) to ");
            line.push_str(job.out_dir.as_str());
            line.push_str("/");
            self.log(line);
            self.phase = FetchPhase::Ended;
        }
    }

    /// Go on to a video, or to saving.
    fn fetch(&mut self, job: &FetchJob<String>, i: usize)
        ensures
            final(self)@ == fetching(old(self)@, job@, i as int),
    {
        assert(self@.videos.len() == self.videos@.len());
        if i < self.videos.len() {
            self.phase = FetchPhase::Video(i);
        } else {
            self.save(job, 0);
        }
    }

    /// Go on after a transcript has been saved or not.
    fn finish_save(&mut self, job: &FetchJob<String>, i: usize)
        requires
            i < old(self).fetched@.len(),
        ensures
            final(self)@ == saved(old(self)@, job@, i as int),
    {
        assert(self@.fetched[i as int] == self.fetched@[i as int]@);
        let mut line = line2("Fetched ", self.fetched[i].video_id.as_str());
        line.push_str(": ");
        line.push_str(self.fetched[i].video_title.as_str());
        line.push_str(" (");
        push_decimal(&mut line, self.fetched[i].segments as u64);
        line.push_str(" segments)");
        let count: usize = self.fetched.len();
        assert(i < count);
        self.log(line);
        self.save(job, i + 1);
    }

    /// Note that a file could not be written.
    fn not_written(&mut self, path: String, e: String)
        ensures
            final(self)@ == faulted(old(self)@, write_error(path@, e@)),
            final(self).fetched == old(self).fetched,
    {
        let mut line = line2("Failed to write ", path.as_str());
        line.push_str(": ");
        line.push_str(e.as_str());
        self.fault(line);
    }

    /// Go on after the login.
    fn log_in(&mut self, job: &FetchJob<String>)
        ensures
            final(self)@ == logged_in(old(self)@, job@),
    {
        self.log("Authenticated with SJTU video platform.".to_owned());
        match &job.video_id {
            Some(id) => {
                self.log(line2("Fetching single video: ", id.as_str()));
                self.phase = FetchPhase::Single;
            },
            None => {
                self.phase = FetchPhase::Listing;
            },
        }
    }

    /// Go on after the output directory, the login or the list of videos.
    fn prepare(&mut self, job: &FetchJob<String>, event: FetchEvent)
        requires
            wf(old(self)@),
            old(self).phase == FetchPhase::Directory || old(self).phase == FetchPhase::Login
                || old(self).phase == FetchPhase::Single || old(self).phase == FetchPhase::Listing,
        ensures
            final(self)@ == next(old(self)@, job@, event),
    {
        match (self.phase, event) {
            (FetchPhase::Directory, FetchEvent::Done) => {
                let mut line = line2("Connecting to Canvas course ", job.course_id.as_str());
                line.push_str("...");
                self.log(line);
                self.phase = FetchPhase::Login;
            },
            (FetchPhase::Directory, FetchEvent::Failed(e)) => {
                self.break_off(line2("Failed to create output dir: ", e.as_str()));
            },
            (FetchPhase::Login, FetchEvent::Done) => {
                self.log_in(job);
            },
            (FetchPhase::Login, FetchEvent::Failed(e)) => {
                self.break_off(line2("Authentication failed: ", e.as_str()));
            },
            (FetchPhase::Single, FetchEvent::Fetched(f)) => {
                self.keep(f);
                self.save(job, 0);
            },
            (FetchPhase::Single, FetchEvent::Failed(e)) => {
                let id = match &job.video_id {
                    Some(id) => id.as_str(),
                    None => "",
                };
                let mut line = line2("Failed to fetch subtitles for ", id);
                line.push_str(": ");
                line.push_str(e.as_str());
                self.break_off(line);
            },
            (FetchPhase::Listing, FetchEvent::Listed(ids)) => {
                let mut line = line_number("Found ", ids.len());
                line.push_str(" video(s).");
                self.log(line);
                self.videos = ids;
                self.fetch(job, 0);
            },
            (FetchPhase::Listing, FetchEvent::Failed(e)) => {
                self.break_off(line2("Failed to list videos: ", e.as_str()));
            },
            _ => {},
        }
    }

    /// The fetch after an event.
    pub fn step(&mut self, job: &FetchJob<String>, event: FetchEvent)
        requires
            wf(old(self)@),
        ensures
            final(self)@ == next(old(self)@, job@, event),
            wf(final(self)@),
    {
        assert(self@.videos.len() == self.videos@.len());
        assert(self@.fetched.len() == self.fetched@.len());
        match (self.phase, event) {
            (FetchPhase::Video(i), FetchEvent::Fetched(f)) => {
                let count: usize = self.videos.len();
                assert(i < count);
                self.keep(f);
                self.fetch(job, i + 1);
            },
            (FetchPhase::Video(i), FetchEvent::Failed(e)) => {
                let count: usize = self.videos.len();
                assert(i < count);
                assert(self@.videos[i as int] == self.videos@[i as int]@);
                let mut line = line2("Failed ", self.videos[i].as_str());
                line.push_str(": ");
                line.push_str(e.as_str());
                self.fault(line);
                self.fetch(job, i + 1);
            },
            (FetchPhase::SaveJson(i), FetchEvent::Written(path)) => {
                self.wrote(path);
                self.phase = FetchPhase::SaveSrt(i);
            },
            (FetchPhase::SaveJson(i), FetchEvent::NotWritten(path, e)) => {
                self.not_written(path, e);
                self.phase = FetchPhase::SaveSrt(i);
            },
            (FetchPhase::SaveJson(i), FetchEvent::Failed(e)) => {
                assert(self@.fetched[i as int] == self.fetched@[i as int]@);
                let mut line = line2("Failed to serialize ", self.fetched[i].video_id.as_str());
                line.push_str(": ");
                line.push_str(e.as_str());
                self.fault(line);
                self.phase = FetchPhase::SaveSrt(i);
            },
            (FetchPhase::SaveSrt(i), FetchEvent::Written(path)) => {
                self.wrote(path);
                self.finish_save(job, i);
            },
            (FetchPhase::SaveSrt(i), FetchEvent::NotWritten(path, e)) => {
                self.not_written(path, e);
                self.finish_save(job, i);
            },
            (FetchPhase::Directory, event) => {
                self.prepare(job, event);
            },
            (FetchPhase::Login, event) => {
                self.prepare(job, event);
            },
            (FetchPhase::Single, event) => {
                self.prepare(job, event);
            },
            (FetchPhase::Listing, event) => {
                self.prepare(job, event);
            },
            _ => {},
        }
    }

    /// What the stage reports: a failure if anything went wrong.
    pub fn fetch_transcripts_result(self) -> (r: PipelineResult)
        ensures
            r.is_ok() == (self@.errors.len() == 0),
            r.logs == self.logs,
            r.space_utilization is None,
            self@.errors.len() == 0 ==> r.artifact_paths == self.paths && r.errors@.len() == 0,
            self@.errors.len() > 0 ==> r.artifact_paths@.len() == 0 && r.errors == self.errors,
    {
        assert(self@.errors.len() == self.errors@.len());
        if self.errors.len() == 0 {
            PipelineResult::succeeded(self.paths, self.logs)
        } else {
            let r = PipelineResult::failed(self.errors, self.logs);
            proof {
                crate::pipeline::law_only_success_is_ok(r);
            }
            r
        }
    }
}

// ---------------------------------------------------------------------------
// Laws
// ---------------------------------------------------------------------------

/// A video that cannot be fetched does not keep the others from being fetched: the
/// fetch goes on to the next video, or to saving what it has.
pub proof fn law_failures_are_passed_over(s: FetchState, job: Job, i: usize, e: String)
    requires
        s.phase == FetchPhase::Video(i),
        i < s.videos.len(),
    ensures
        ({
            let t = next(s, job, FetchEvent::Failed(e));
            &&& t.fetched == s.fetched
            &&& i + 1 < s.videos.len() ==> t.phase == FetchPhase::Video((i + 1) as usize)
            &&& i + 1 == s.videos.len() && s.fetched.len() > 0 ==> t.phase == FetchPhase::SaveJson(
                0,
            )
        }),
{
}

/// Nothing that went wrong is forgotten, and no transcript is lost.
pub proof fn law_nothing_is_forgotten(s: FetchState, job: Job, event: FetchEvent)
    ensures
        s.errors.len() <= next(s, job, event).errors.len(),
        next(s, job, event).errors.take(s.errors.len() as int) == s.errors,
        s.fetched.len() <= next(s, job, event).fetched.len(),
        next(s, job, event).fetched.take(s.fetched.len() as int) == s.fetched,
{
    let t = next(s, job, event);
    assert(t.errors.take(s.errors.len() as int) =~= s.errors);
    assert(t.fetched.take(s.fetched.len() as int) =~= s.fetched);
}

/// Every video of the list is asked for in turn: what was fetched is kept, and after the
/// last one the transcripts are saved, from the first on.
pub proof fn law_every_video_in_turn(s: FetchState, job: Job, i: usize, f: Fetched<String>)
    requires
        s.phase == FetchPhase::Video(i),
        i < s.videos.len() <= usize::MAX,
    ensures
        ({
            let t = next(s, job, FetchEvent::Fetched(f));
            &&& t.fetched == s.fetched.push(f@)
            &&& t.videos == s.videos
            &&& t.errors == s.errors
            &&& t.phase == if i + 1 < s.videos.len() {
                FetchPhase::Video((i + 1) as usize)
            } else {
                FetchPhase::SaveJson(0)
            }
        }),
{
}

/// Every transcript is saved in turn, in both forms: the paths are kept, a form that
/// cannot be written is an error with its path, and the other is written all the same;
/// after the last one the number of transcripts is told.
pub proof fn law_every_transcript_is_saved(
    s: FetchState,
    job: Job,
    i: usize,
    json: String,
    srt: String,
    e: String,
)
    requires
        s.phase == FetchPhase::SaveJson(i),
        i < s.fetched.len() <= usize::MAX,
    ensures
        ({
            let t = next(s, job, FetchEvent::Written(json));
            let u = next(t, job, FetchEvent::Written(srt));
            let failed = next(s, job, FetchEvent::NotWritten(json, e));
            &&& t.phase == FetchPhase::SaveSrt(i) && t.fetched == s.fetched
            &&& u.paths == s.paths.push(json@).push(srt@)
            &&& u.errors == s.errors
            &&& u.logs.len() > s.logs.len() && u.logs[s.logs.len() as int] == "Fetched "@
                + s.fetched[i as int].video_id + ": "@ + s.fetched[i as int].video_title + " ("@
                + decimal_of(s.fetched[i as int].segments as nat) + " segments)"@
            &&& failed.phase == FetchPhase::SaveSrt(i) && failed.paths == s.paths
            &&& failed.errors == s.errors.push("Failed to write "@ + json@ + ": "@ + e@)
            &&& if i + 1 < s.fetched.len() {
                u.phase == FetchPhase::SaveJson((i + 1) as usize)
            } else {
                &&& u.phase == FetchPhase::Ended
                &&& u.logs.last() == "Saved "@ + decimal_of(s.fetched.len()) + " transcript(s) to "@
                    + job.out_dir + "/"@
            }
        }),
{
}

/// After the login a video that was asked for is fetched alone, and else all videos of
/// the course are listed; a step that fails before there are videos ends the run with
/// its reason.
pub proof fn law_one_video_or_all(s: FetchState, job: Job, f: Fetched<String>, ids: Vec<String>, e: String)
    ensures
        s.phase == FetchPhase::Directory ==> next(s, job, FetchEvent::Done).phase
            == FetchPhase::Login,
        s.phase == FetchPhase::Login ==> next(s, job, FetchEvent::Done).phase
            == if job.video_id is Some {
            FetchPhase::Single
        } else {
            FetchPhase::Listing
        },
        s.phase == FetchPhase::Single ==> next(s, job, FetchEvent::Fetched(f)).phase
            == FetchPhase::SaveJson(0) && next(s, job, FetchEvent::Fetched(f)).fetched
            == s.fetched.push(f@),
        s.phase == FetchPhase::Listing ==> next(s, job, FetchEvent::Listed(ids)).videos == views(
            ids@,
        ),
        s.phase == FetchPhase::Listing && ids@.len() > 0 ==> next(
            s,
            job,
            FetchEvent::Listed(ids),
        ).phase == FetchPhase::Video(0),
        s.phase == FetchPhase::Directory || s.phase == FetchPhase::Login || s.phase
            == FetchPhase::Single || s.phase == FetchPhase::Listing ==> next(
            s,
            job,
            FetchEvent::Failed(e),
        ).phase == FetchPhase::Ended && next(s, job, FetchEvent::Failed(e)).errors.len()
            == s.errors.len() + 1 && crate::text::ends_with_of(
            next(s, job, FetchEvent::Failed(e)).errors.last(),
            e@,
        ),
        (s.phase matches FetchPhase::Video(i) && i < s.videos.len()) ==> next(
            s,
            job,
            FetchEvent::Failed(e),
        ).errors == s.errors.push(
            "Failed "@ + s.videos[s.phase->Video_0 as int] + ": "@ + e@,
        ),
{
    if s.phase == FetchPhase::Directory || s.phase == FetchPhase::Login || s.phase
        == FetchPhase::Single || s.phase == FetchPhase::Listing {
        let line = next(s, job, FetchEvent::Failed(e)).errors.last();
        assert(line.subrange(line.len() - e@.len(), line.len() as int) =~= e@);
    }
}

/// The line about a transcript names its video and says how many segments it has, and the
/// line about a file that could not be written names the file and ends with the error.
pub proof fn law_lines_about_transcripts(f: Fetched<Seq<char>>, path: Seq<char>, e: Seq<char>)
    ensures
        crate::text::starts_with_of(fetched_line(f), "Fetched "@ + f.video_id + ": "@ + f.video_title),
        crate::text::ends_with_of(
            fetched_line(f),
            " ("@ + decimal_of(f.segments as nat) + " segments)"@,
        ),
        crate::text::starts_with_of(write_error(path, e), "Failed to write "@ + path),
        crate::text::ends_with_of(write_error(path, e), e),
{
    let a = "Fetched "@ + f.video_id + ": "@ + f.video_title;
    let b = " ("@ + decimal_of(f.segments as nat) + " segments)"@;
    let line = fetched_line(f);
    assert(line =~= a + b);
    assert(line.subrange(0, a.len() as int) =~= a);
    assert(line.subrange(line.len() - b.len(), line.len() as int) =~= b);
    let w = write_error(path, e);
    let c = "Failed to write "@ + path;
    assert(w.subrange(0, c.len() as int) =~= c);
    assert(w.subrange(w.len() - e.len(), w.len() as int) =~= e);
}

} // verus!
