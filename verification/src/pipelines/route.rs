//! Where a set of outputs goes, by the sources that are there and by whether the
//! language model can be reached.

use vstd::prelude::*;

use crate::process::{OutputChange, ProcessOutput, ProcessOutputKind, ProcessStatus};

verus! {

/// How many sources of each kind there are.
#[derive(Debug, Clone, Copy, PartialEq, Eq, Structural)]
pub struct SourceCounts {
    /// Whether there is a note.
    pub note: bool,
    /// The number of days with transcripts.
    pub days: usize,
    /// The number of courses with transcripts.
    pub courses: usize,
}

/// Where outputs go.
#[derive(Debug, Clone, Copy, PartialEq, Eq, Structural)]
pub enum Route {
    /// Nowhere: there are no sources for them.
    NoSources,
    /// Nowhere: the language model cannot be reached.
    NoModel,
    /// Through the course index.
    Course,
    /// Through the transcripts of single days.
    Days,
}

/// The route of note patches. Courses have their own check of the language model.
pub fn route_note_patch(counts: SourceCounts, llm_available: bool) -> (r: Route)
    ensures
        r == if counts.days == 0 && counts.courses == 0 && !counts.note {
            Route::NoSources
        } else if counts.courses > 0 {
            Route::Course
        } else if !llm_available {
            Route::NoModel
        } else {
            Route::Days
        },
{
    if counts.days == 0 && counts.courses == 0 && !counts.note {
        Route::NoSources
    } else if counts.courses > 0 {
        Route::Course
    } else if !llm_available {
        Route::NoModel
    } else {
        Route::Days
    }
}

/// The route of Reference Digests.
pub fn route_reference_digest(counts: SourceCounts, llm_available: bool) -> (r: Route)
    ensures
        r == if counts.days == 0 && counts.courses == 0 && !counts.note {
            Route::NoSources
        } else if !llm_available {
            Route::NoModel
        } else if counts.courses > 0 {
            Route::Course
        } else {
            Route::Days
        },
{
    if counts.days == 0 && counts.courses == 0 && !counts.note {
        Route::NoSources
    } else if !llm_available {
        Route::NoModel
    } else if counts.courses > 0 {
        Route::Course
    } else {
        Route::Days
    }
}

/// The route of digests and cheat sheets that are made in one conversation. A
/// note alone does not do, and courses go through the two processors one after
/// the other.
pub fn route_unified(counts: SourceCounts, llm_available: bool) -> (r: Route)
    ensures
        r == if counts.days == 0 && counts.courses == 0 {
            Route::NoSources
        } else if !llm_available {
            Route::NoModel
        } else if counts.courses > 0 {
            Route::Course
        } else {
            Route::Days
        },
{
    if counts.days == 0 && counts.courses == 0 {
        Route::NoSources
    } else if !llm_available {
        Route::NoModel
    } else if counts.courses > 0 {
        Route::Course
    } else {
        Route::Days
    }
}

/// What a processor is called in its errors.
#[derive(Debug, Clone, Copy, PartialEq, Eq, Structural)]
pub enum Processor {
    /// Note patches.
    NotePatch,
    /// Reference Digests.
    ReferenceDigest,
    /// Digests and cheat sheets in one conversation.
    Unified,
}

/// The error for a route that leads nowhere.
pub open spec fn dead_end_text(p: Processor, r: Route) -> Option<Seq<char>> {
    match (p, r) {
        (Processor::NotePatch, Route::NoSources) => Some(
            "No valid sources found for Note Patch."@,
        ),
        (Processor::ReferenceDigest, Route::NoSources) => Some(
            "No valid sources found for Reference Digest."@,
        ),
        (Processor::Unified, Route::NoSources) => Some("No valid transcript sources found."@),
        (Processor::NotePatch, Route::NoModel) => Some(
            "LLM is not available. Set OPENAI_API_KEY in Settings to enable Note Patch generation."@,
        ),
        (Processor::ReferenceDigest, Route::NoModel) => Some(
            "LLM is not available. Set OPENAI_API_KEY in Settings to enable Reference Digest generation."@,
        ),
        (Processor::Unified, Route::NoModel) => Some(
            "LLM is not available. Set OPENAI_API_KEY in Settings."@,
        ),
        _ => None,
    }
}

/// The error for a route that leads nowhere; nothing for one that goes on.
pub fn dead_end_error(p: Processor, r: Route) -> (e: Option<String>)
    ensures
        crate::text::opt_view(e) == dead_end_text(p, r),
{
    let message = match (p, r) {
        (Processor::NotePatch, Route::NoSources) => "No valid sources found for Note Patch.",
        (Processor::ReferenceDigest, Route::NoSources) =>
            "No valid sources found for Reference Digest.",
        (Processor::Unified, Route::NoSources) => "No valid transcript sources found.",
        (Processor::NotePatch, Route::NoModel) =>
            "LLM is not available. Set OPENAI_API_KEY in Settings to enable Note Patch generation.",
        (Processor::ReferenceDigest, Route::NoModel) =>
            "LLM is not available. Set OPENAI_API_KEY in Settings to enable Reference Digest generation.",
        (Processor::Unified, Route::NoModel) =>
            "LLM is not available. Set OPENAI_API_KEY in Settings.",
        _ => {
            return None;
        },
    };
    Some(message.to_owned())
}

/// Which processors a set of digest and cheat sheet outputs goes through.
#[derive(Debug, Clone, Copy, PartialEq, Eq, Structural)]
pub enum RefCheatPlan {
    /// Both are made in one conversation.
    Unified,
    /// Only digests are made.
    DigestOnly,
    /// Only cheat sheets are made.
    CheatOnly,
    /// Neither is asked for.
    Nothing,
}

/// The positions of the outputs of this kind, in order.
pub open spec fn kind_positions(outputs: Seq<ProcessOutput>, kind: ProcessOutputKind) -> Seq<usize>
    decreases outputs.len(),
{
    if outputs.len() == 0 {
        Seq::empty()
    } else {
        let before = kind_positions(outputs.drop_last(), kind);
        if outputs.last().kind == kind {
            before.push((outputs.len() - 1) as usize)
        } else {
            before
        }
    }
}

/// The positions of the outputs of this kind, in order.
pub fn outputs_of_kind(outputs: &[ProcessOutput], kind: ProcessOutputKind) -> (r: Vec<usize>)
    ensures
        r@ == kind_positions(outputs@, kind),
{
    let mut out: Vec<usize> = Vec::new();
    let mut i: usize = 0;
    assert(outputs@.take(0) =~= Seq::empty());
    while i < outputs.len()
        invariant
            i <= outputs@.len(),
            out@ == kind_positions(outputs@.take(i as int), kind),
        decreases outputs@.len() - i,
    {
        assert(outputs@.take(i + 1).drop_last() =~= outputs@.take(i as int));
        if outputs[i].kind == kind {
            out.push(i);
        }
        i += 1;
    }
    assert(outputs@.take(i as int) =~= outputs@);
    out
}

/// Which processors a set of digest and cheat sheet outputs goes through.
pub fn plan_ref_cheat(outputs: &[ProcessOutput]) -> (r: RefCheatPlan)
    ensures
        ({
            let refs = kind_positions(outputs@, ProcessOutputKind::ReferenceDigest).len() > 0;
            let cheats = kind_positions(outputs@, ProcessOutputKind::CheatingSheet).len() > 0;
            r == if refs && cheats {
                RefCheatPlan::Unified
            } else if refs {
                RefCheatPlan::DigestOnly
            } else if cheats {
                RefCheatPlan::CheatOnly
            } else {
                RefCheatPlan::Nothing
            }
        }),
{
    let refs = outputs_of_kind(outputs, ProcessOutputKind::ReferenceDigest).len() > 0;
    let cheats = outputs_of_kind(outputs, ProcessOutputKind::CheatingSheet).len() > 0;
    if refs && cheats {
        RefCheatPlan::Unified
    } else if refs {
        RefCheatPlan::DigestOnly
    } else if cheats {
        RefCheatPlan::CheatOnly
    } else {
        RefCheatPlan::Nothing
    }
}

/// The outputs after each of the given ones has failed with this error.
pub open spec fn failed_outputs(
    outputs: Seq<ProcessOutput>,
    ids: Seq<String>,
    error: String,
) -> Seq<ProcessOutput>
    decreases ids.len(),
{
    if ids.len() == 0 {
        outputs
    } else {
        let before = failed_outputs(outputs, ids.drop_last(), error);
        let i = crate::process::output_index(before, ids.last()@);
        if i < before.len() {
            before.update(
                i,
                ProcessOutput {
                    status: ProcessStatus::Failed,
                    last_error: Some(error),
                    ..before[i]
                },
            )
        } else {
            before
        }
    }
}

/// Record that each of the given outputs has failed with this error.
pub fn fail_outputs(outputs: &mut Vec<ProcessOutput>, ids: &[String], error: &String)
    ensures
        final(outputs)@ == failed_outputs(old(outputs)@, ids@, *error),
{
    let mut k: usize = 0;
    let ghost start = outputs@;
    assert(ids@.take(0) =~= Seq::empty());
    while k < ids.len()
        invariant
            k <= ids@.len(),
            outputs@ == failed_outputs(start, ids@.take(k as int), *error),
        decreases ids@.len() - k,
    {
        assert(ids@.take(k + 1).drop_last() =~= ids@.take(k as int));
        let ghost before = outputs@;
        crate::process::change_output(
            outputs,
            ids[k].as_str(),
            OutputChange::failed(error.clone(), None),
        );
        proof {
            let i = crate::process::output_index(before, ids@[k as int]@);
            if i < before.len() {
                assert(outputs@ =~= before.update(
                    i,
                    ProcessOutput {
                        status: ProcessStatus::Failed,
                        last_error: Some(*error),
                        ..before[i]
                    },
                ));
            }
        }
        k += 1;
    }
    assert(ids@.take(k as int) =~= ids@);
}

/// Recording failures changes no other output and no other field.
pub proof fn law_failures_are_contained(
    outputs: Seq<ProcessOutput>,
    ids: Seq<String>,
    error: String,
    j: int,
)
    requires
        0 <= j < outputs.len(),
        forall|k: int| 0 <= k < ids.len() ==> (#[trigger] ids[k])@ != outputs[j].id@,
    ensures
        failed_outputs(outputs, ids, error).len() == outputs.len(),
        failed_outputs(outputs, ids, error)[j] == outputs[j],
    decreases ids.len(),
{
    if ids.len() > 0 {
        let rest = ids.drop_last();
        assert forall|k: int| 0 <= k < rest.len() implies (#[trigger] rest[k])@ != outputs[j].id@ by {
            assert(rest[k] == ids[k]);
        }
        law_failures_are_contained(outputs, rest, error, j);
        let before = failed_outputs(outputs, rest, error);
        crate::process::lemma_output_index_found(before, ids.last()@);
        assert(ids[ids.len() - 1]@ != outputs[j].id@);
    }
}

/// The outputs of a kind are all of that kind and no others, in their order.
pub proof fn law_outputs_of_a_kind(
    outputs: Seq<ProcessOutput>,
    o: ProcessOutput,
    kind: ProcessOutputKind,
)
    requires
        outputs.len() < usize::MAX,
    ensures
        kind_positions(outputs.push(o), kind) == if o.kind == kind {
            kind_positions(outputs, kind).push(outputs.len() as usize)
        } else {
            kind_positions(outputs, kind)
        },
        kind_positions(Seq::empty(), kind).len() == 0,
{
    assert(outputs.push(o).drop_last() =~= outputs);
}

/// Every output that is named fails, with the error, and keeps what else it has.
pub proof fn law_named_outputs_fail(
    outputs: Seq<ProcessOutput>,
    ids: Seq<String>,
    error: String,
    j: int,
    k: int,
)
    requires
        0 <= j < outputs.len(),
        0 <= k < ids.len(),
        ids[k]@ == outputs[j].id@,
        forall|i: int| 0 <= i < j ==> (#[trigger] outputs[i]).id@ != outputs[j].id@,
    ensures
        ({
            let after = failed_outputs(outputs, ids, error);
            &&& after.len() == outputs.len()
            &&& after[j].status == ProcessStatus::Failed
            &&& after[j].last_error == Some(error)
            &&& after[j].id == outputs[j].id
            &&& after[j].path == outputs[j].path
            &&& after[j].title == outputs[j].title
            &&& after[j].metadata == outputs[j].metadata
        }),
    decreases ids.len(),
{
    let few = ids.drop_last();
    let before = failed_outputs(outputs, few, error);
    lemma_names_stay(outputs, few, error);
    crate::process::lemma_output_index_found(before, ids.last()@);
    let i = crate::process::output_index(before, ids.last()@);
    if k == ids.len() - 1 {
        lemma_first_of_its_name(before, ids.last()@, j);
    } else {
        assert(few[k] == ids[k]);
        law_named_outputs_fail(outputs, few, error, j, k);
    }
    lemma_contents_stay(outputs, few, error, j);
}

/// Failing outputs does not rename any.
proof fn lemma_names_stay(outputs: Seq<ProcessOutput>, ids: Seq<String>, error: String)
    ensures
        failed_outputs(outputs, ids, error).len() == outputs.len(),
        forall|i: int|
            0 <= i < outputs.len() ==> (#[trigger] failed_outputs(outputs, ids, error)[i]).id
                == outputs[i].id,
    decreases ids.len(),
{
    if ids.len() > 0 {
        lemma_names_stay(outputs, ids.drop_last(), error);
        let before = failed_outputs(outputs, ids.drop_last(), error);
        crate::process::lemma_output_index_found(before, ids.last()@);
        assert forall|i: int| 0 <= i < outputs.len() implies (#[trigger] failed_outputs(
            outputs,
            ids,
            error,
        )[i]).id == outputs[i].id by {
            assert(before[i].id == outputs[i].id);
        }
    }
}

/// Failing outputs changes nothing but their status and error.
proof fn lemma_contents_stay(outputs: Seq<ProcessOutput>, ids: Seq<String>, error: String, j: int)
    requires
        0 <= j < outputs.len(),
    ensures
        failed_outputs(outputs, ids, error).len() == outputs.len(),
        failed_outputs(outputs, ids, error)[j].path == outputs[j].path,
        failed_outputs(outputs, ids, error)[j].title == outputs[j].title,
        failed_outputs(outputs, ids, error)[j].metadata == outputs[j].metadata,
    decreases ids.len(),
{
    if ids.len() > 0 {
        lemma_contents_stay(outputs, ids.drop_last(), error, j);
        let before = failed_outputs(outputs, ids.drop_last(), error);
        crate::process::lemma_output_index_found(before, ids.last()@);
    }
}

/// The first output of a name is the one that is found.
proof fn lemma_first_of_its_name(outputs: Seq<ProcessOutput>, id: Seq<char>, j: int)
    requires
        0 <= j < outputs.len(),
        outputs[j].id@ == id,
        forall|i: int| 0 <= i < j ==> (#[trigger] outputs[i]).id@ != id,
    ensures
        crate::process::output_index(outputs, id) == j,
    decreases j,
{
    if j > 0 {
        let rest = outputs.skip(1);
        assert(outputs[0].id@ != id);
        assert(rest[j - 1] == outputs[j]);
        assert forall|i: int| 0 <= i < j - 1 implies (#[trigger] rest[i]).id@ != id by {
            assert(rest[i] == outputs[i + 1]);
        }
        lemma_first_of_its_name(rest, id, j - 1);
    }
}

/// A route has an error exactly where it leads nowhere, and the errors for want of
/// sources and for want of a language model differ.
pub proof fn law_dead_ends(p: Processor, r: Route)
    ensures
        r is Course || r is Days ==> dead_end_text(p, r) is None,
        r is NoSources || r is NoModel ==> dead_end_text(p, r) is Some,
        dead_end_text(p, Route::NoSources) matches Some(t) && crate::text::starts_with_of(t, "No"@),
        dead_end_text(p, Route::NoModel) matches Some(t) && crate::text::starts_with_of(
            t,
            "LLM is not available."@,
        ),
{
    reveal_strlit("No");
    reveal_strlit("LLM is not available.");
    reveal_strlit("No valid sources found for Note Patch.");
    reveal_strlit("No valid sources found for Reference Digest.");
    reveal_strlit("No valid transcript sources found.");
    reveal_strlit(
        "LLM is not available. Set OPENAI_API_KEY in Settings to enable Note Patch generation.",
    );
    reveal_strlit(
        "LLM is not available. Set OPENAI_API_KEY in Settings to enable Reference Digest generation.",
    );
    reveal_strlit("LLM is not available. Set OPENAI_API_KEY in Settings.");
    let a = dead_end_text(p, Route::NoSources)->0;
    let b = dead_end_text(p, Route::NoModel)->0;
    assert(a.subrange(0, 2) =~= "No"@);
    assert(b.subrange(0, 21) =~= "LLM is not available."@);
}

} // verus!
