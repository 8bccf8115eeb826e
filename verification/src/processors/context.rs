//! What the processors hand to the language model: transcripts joined into one
//! context, and generated sections joined into one text.

use vstd::prelude::*;

use crate::compact::{compact_transcript_for_llm, compacted, limited};
use crate::text::{char_count, join, join_of, push_decimal, views};

verus! {

/// A transcript source as it was read.
#[derive(Debug)]
pub struct SourceText {
    /// The title of the source.
    pub title: String,
    /// The name of its kind.
    pub kind: String,
    /// Its content, where it could be read.
    pub content: Option<String>,
}

/// The line that announces a source.
pub open spec fn source_header(title: Seq<char>, kind: Seq<char>) -> Seq<char> {
    "\n\n--- Source: "@ + title + " (type: "@ + kind + ") ---\n"@
}

fn header_of(source: &SourceText) -> (r: String)
    ensures
        r@ == source_header(source.title@, source.kind@),
{
    let mut out = "\n\n--- Source: ".to_owned();
    out.push_str(source.title.as_str());
    out.push_str(" (type: ");
    out.push_str(source.kind.as_str());
    out.push_str(") ---\n");
    out
}

/// A source in a context: its announcement and its compacted content.
pub open spec fn source_part(s: SourceText, budget: usize) -> Seq<char> {
    match s.content {
        Some(content) => source_header(s.title@, s.kind@) + limited(compacted(content@), budget),
        None => Seq::empty(),
    }
}

fn part_of(s: &SourceText, budget: usize) -> (r: String)
    ensures
        r@ == source_part(*s, budget),
{
    match &s.content {
        Some(content) => {
            let mut out = header_of(s);
            out.push_str(compact_transcript_for_llm(content.as_str(), budget).as_str());
            out
        },
        None => String::new(),
    }
}

/// The sources one after the other. Each may use what the ones before it have
/// left of the limit, and nothing is added once the limit is reached.
pub open spec fn filled_context(sources: Seq<SourceText>, limit: usize) -> Seq<char>
    decreases sources.len(),
{
    if sources.len() == 0 {
        Seq::empty()
    } else {
        let before = filled_context(sources.drop_last(), limit);
        if before.len() >= limit {
            before
        } else {
            before + source_part(sources.last(), (limit - before.len()) as usize)
        }
    }
}

/// Build a context in which each source uses what is left of the limit.
pub fn fill_context(sources: &[SourceText], limit: usize) -> (r: String)
    ensures
        r@ == filled_context(sources@, limit),
{
    let mut out = String::new();
    let mut i: usize = 0;
    while i < sources.len()
        invariant
            i <= sources@.len(),
            out@ == filled_context(sources@.take(i as int), limit),
        decreases sources@.len() - i,
    {
        assert(sources@.take(i + 1).drop_last() == sources@.take(i as int));
        assert(sources@.take(i + 1).last() == sources@[i as int]);
        let used: usize = char_count(out.as_str());
        if used < limit {
            out.push_str(part_of(&sources[i], limit - used).as_str());
        }
        i += 1;
    }
    assert(sources@.take(i as int) == sources@);
    out
}

/// The sources one after the other, each with the same budget.
pub open spec fn shared_parts(sources: Seq<SourceText>, budget: usize) -> Seq<char>
    decreases sources.len(),
{
    if sources.len() == 0 {
        Seq::empty()
    } else {
        shared_parts(sources.drop_last(), budget) + source_part(sources.last(), budget)
    }
}

/// The context in which the sources share the limit evenly, so that later ones
/// are not dropped.
pub open spec fn shared_context(sources: Seq<SourceText>, limit: usize) -> Seq<char> {
    if sources.len() == 0 {
        Seq::empty()
    } else {
        shared_parts(sources, (limit as int / sources.len() as int) as usize)
    }
}

/// Build a context in which the sources share the limit evenly.
pub fn share_context(sources: &[SourceText], limit: usize) -> (r: String)
    ensures
        r@ == shared_context(sources@, limit),
{
    let mut out = String::new();
    if sources.len() == 0 {
        return out;
    }
    let budget: usize = limit / sources.len();
    let mut i: usize = 0;
    while i < sources.len()
        invariant
            i <= sources@.len(),
            out@ == shared_parts(sources@.take(i as int), budget),
        decreases sources@.len() - i,
    {
        assert(sources@.take(i + 1).drop_last() == sources@.take(i as int));
        assert(sources@.take(i + 1).last() == sources@[i as int]);
        out.push_str(part_of(&sources[i], budget).as_str());
        i += 1;
    }
    assert(sources@.take(i as int) == sources@);
    out
}

/// How many characters of one source a section request may hold.
pub const SECTION_LIMIT: usize = 90000;

/// The context of a request about one source.
pub open spec fn section_context(title: Seq<char>, kind: Seq<char>, content: Seq<char>) -> Seq<char> {
    "Source: "@ + title + " (type: "@ + kind + ")\n"@ + limited(compacted(content), SECTION_LIMIT)
}

/// The contexts of the sources that could be read, in order.
pub open spec fn section_contexts(sources: Seq<SourceText>) -> Seq<Seq<char>>
    decreases sources.len(),
{
    if sources.len() == 0 {
        Seq::empty()
    } else {
        let before = section_contexts(sources.drop_last());
        let s = sources.last();
        match s.content {
            Some(content) => before.push(section_context(s.title@, s.kind@, content@)),
            None => before,
        }
    }
}

/// Build the contexts of the sources that could be read.
pub fn build_section_contexts(sources: &[SourceText]) -> (r: Vec<String>)
    ensures
        views(r@) == section_contexts(sources@),
{
    let mut out: Vec<String> = Vec::new();
    let mut i: usize = 0;
    assert(views(out@) =~= Seq::empty());
    while i < sources.len()
        invariant
            i <= sources@.len(),
            views(out@) == section_contexts(sources@.take(i as int)),
        decreases sources@.len() - i,
    {
        assert(sources@.take(i + 1).drop_last() == sources@.take(i as int));
        assert(sources@.take(i + 1).last() == sources@[i as int]);
        let ghost before = out@;
        if let Some(content) = &sources[i].content {
            let mut text = "Source: ".to_owned();
            text.push_str(sources[i].title.as_str());
            text.push_str(" (type: ");
            text.push_str(sources[i].kind.as_str());
            text.push_str(")\n");
            text.push_str(compact_transcript_for_llm(content.as_str(), SECTION_LIMIT).as_str());
            out.push(text);
            assert(views(out@) =~= views(before).push(text@));
        }
        i += 1;
    }
    assert(sources@.take(i as int) == sources@);
    out
}

/// A section after a comment with its number.
pub open spec fn numbered(mark: Seq<char>, number: nat, section: Seq<char>) -> Seq<char> {
    "<!-- "@ + mark + " "@ + crate::text::decimal_of(number) + " -->\n"@ + section
}

/// The sections after comments with their numbers, counted from one.
pub open spec fn numbered_all(mark: Seq<char>, sections: Seq<Seq<char>>) -> Seq<Seq<char>> {
    Seq::new(sections.len(), |i: int| numbered(mark, (i + 1) as nat, sections[i]))
}

/// The sections as one text, each after a comment with its number.
pub open spec fn joined_sections(mark: Seq<char>, sections: Seq<Seq<char>>) -> Seq<char> {
    join_of(numbered_all(mark, sections), "\n\n"@)
}

/// Join sections into one text, each after a comment with its number.
pub fn join_sections(mark: &str, sections: &[String]) -> (r: String)
    ensures
        r@ == joined_sections(mark@, views(sections@)),
{
    let mut parts: Vec<String> = Vec::new();
    let ghost goal = numbered_all(mark@, views(sections@));
    let n: usize = sections.len();
    let mut i: usize = 0;
    while i < n
        invariant
            i <= n,
            n == sections@.len(),
            goal == numbered_all(mark@, views(sections@)),
            views(parts@) == goal.take(i as int),
        decreases n - i,
    {
        let mut part = "<!-- ".to_owned();
        part.push_str(mark);
        part.push_str(" ");
        i += 1;
        push_decimal(&mut part, i as u64);
        part.push_str(" -->\n");
        part.push_str(sections[i - 1].as_str());
        let ghost before = parts@;
        parts.push(part);
        proof {
            assert(views(parts@) =~= views(before).push(part@));
            assert(goal.take(i as int) =~= goal.take(i - 1).push(goal[i - 1]));
        }
    }
    assert(goal.take(n as int) =~= goal);
    join(&parts, "\n\n")
}

/// Every part is found in the joined text.
pub proof fn lemma_part_is_found(parts: Seq<Seq<char>>, sep: Seq<char>, i: int)
    requires
        0 <= i < parts.len(),
    ensures
        crate::text::contains_of(join_of(parts, sep), parts[i]),
    decreases parts.len(),
{
    let none: Seq<char> = Seq::empty();
    if parts.len() == 1 {
        crate::text::lemma_found_between(none, parts[0], none);
        assert(none + parts[0] + none =~= parts[0]);
    } else {
        let before = join_of(parts.drop_last(), sep);
        if i == parts.len() - 1 {
            crate::text::lemma_found_between(before + sep, parts[i], none);
            assert(before + sep + parts[i] + none =~= before + sep + parts[i]);
        } else {
            lemma_part_is_found(parts.drop_last(), sep, i);
            crate::text::lemma_found_within(none, before, sep + parts.last(), parts[i]);
            assert(none + before + (sep + parts.last()) =~= before + sep + parts.last());
        }
    }
}

/// Every section is found in the joined text, under its number.
pub proof fn lemma_section_is_found(mark: Seq<char>, sections: Seq<Seq<char>>, i: int)
    requires
        0 <= i < sections.len(),
    ensures
        crate::text::contains_of(
            joined_sections(mark, sections),
            numbered(mark, (i + 1) as nat, sections[i]),
        ),
{
    lemma_part_is_found(numbered_all(mark, sections), "\n\n"@, i);
}

/// Every section is there, whole, under its number.
pub proof fn law_sections_are_kept(mark: Seq<char>, sections: Seq<Seq<char>>, i: int)
    requires
        0 <= i < sections.len(),
    ensures
        numbered_all(mark, sections).len() == sections.len(),
        crate::text::ends_with_of(numbered_all(mark, sections)[i], sections[i]),
{
    let whole = numbered(mark, (i + 1) as nat, sections[i]);
    assert(whole.subrange(whole.len() - sections[i].len(), whole.len() as int) =~= sections[i]);
}

/// A source that could be read and that a context has room for is in it whole, but for
/// blank lines, behind a line with its title and kind.
pub proof fn law_sources_are_in_the_context(sources: Seq<SourceText>, limit: usize, i: int)
    requires
        0 <= i < sources.len(),
        sources[i].content is Some,
    ensures
        ({
            let whole = "\n\n--- Source: "@ + sources[i].title@ + " (type: "@ + sources[i].kind@
                + ") ---\n"@ + compacted((sources[i].content->0)@);
            let room = limit - filled_context(sources.take(i), limit).len();
            &&& room > 0 && compacted((sources[i].content->0)@).len() <= room
                ==> crate::text::contains_of(filled_context(sources, limit), whole)
            &&& compacted((sources[i].content->0)@).len() <= limit as int / sources.len() as int
                ==> crate::text::contains_of(shared_context(sources, limit), whole)
        }),
{
    let whole = "\n\n--- Source: "@ + sources[i].title@ + " (type: "@ + sources[i].kind@
        + ") ---\n"@ + compacted((sources[i].content->0)@);
    let budget = (limit as int / sources.len() as int) as usize;
    assert(0 <= limit as int / sources.len() as int <= limit) by (nonlinear_arith)
        requires
            0 < sources.len(),
            0 <= limit,
    ;
    let room = limit - filled_context(sources.take(i), limit).len();
    if room > 0 && compacted((sources[i].content->0)@).len() <= room {
        lemma_in_filled(sources, limit, i, whole);
    }
    if compacted((sources[i].content->0)@).len() <= budget {
        lemma_in_shared(sources, budget, i, whole);
    }
}

proof fn lemma_in_filled(sources: Seq<SourceText>, limit: usize, i: int, whole: Seq<char>)
    requires
        0 <= i < sources.len(),
        filled_context(sources.take(i), limit).len() < limit,
        source_part(
            sources[i],
            (limit - filled_context(sources.take(i), limit).len()) as usize,
        ) == whole,
    ensures
        crate::text::contains_of(filled_context(sources, limit), whole),
    decreases sources.len(),
{
    let none: Seq<char> = Seq::empty();
    let before = filled_context(sources.drop_last(), limit);
    if i == sources.len() - 1 {
        assert(sources.take(i) =~= sources.drop_last());
        crate::text::lemma_found_between(before, whole, none);
        assert(before + whole + none =~= before + whole);
    } else {
        assert(sources.drop_last().take(i) =~= sources.take(i));
        lemma_in_filled(sources.drop_last(), limit, i, whole);
        let rest = filled_context(sources, limit).skip(before.len() as int);
        assert(filled_context(sources, limit) =~= none + before + rest);
        crate::text::lemma_found_within(none, before, rest, whole);
    }
}

proof fn lemma_in_shared(sources: Seq<SourceText>, budget: usize, i: int, whole: Seq<char>)
    requires
        0 <= i < sources.len(),
        source_part(sources[i], budget) == whole,
    ensures
        crate::text::contains_of(shared_parts(sources, budget), whole),
    decreases sources.len(),
{
    let none: Seq<char> = Seq::empty();
    let before = shared_parts(sources.drop_last(), budget);
    let last = source_part(sources.last(), budget);
    if i == sources.len() - 1 {
        crate::text::lemma_found_between(before, whole, none);
        assert(before + whole + none =~= before + whole);
    } else {
        lemma_in_shared(sources.drop_last(), budget, i, whole);
        crate::text::lemma_found_within(none, before, last, whole);
        assert(none + before + last =~= before + last);
    }
}

/// Every source that could be read has a context of its own, in the order of the
/// sources: its title, its kind and what it says, whole where that is not too long for
/// a request.
pub proof fn law_every_source_has_a_context(sources: Seq<SourceText>, more: SourceText)
    ensures
        match more.content {
            Some(content) => {
                &&& section_contexts(sources.push(more)).len() == section_contexts(sources).len() + 1
                &&& section_contexts(sources.push(more)).drop_last() == section_contexts(sources)
                &&& compacted(content@).len() <= 90000 ==> section_contexts(
                    sources.push(more),
                ).last() == "Source: "@ + more.title@ + " (type: "@ + more.kind@ + ")\n"@
                    + compacted(content@)
            },
            None => section_contexts(sources.push(more)) == section_contexts(sources),
        },
        section_contexts(Seq::empty()).len() == 0,
{
    assert(sources.push(more).drop_last() =~= sources);
    if let Some(content) = more.content {
        let c = section_context(more.title@, more.kind@, content@);
        assert(section_contexts(sources).push(c).drop_last() =~= section_contexts(sources));
    }
}

/// The sections stand in the joined text one after the other, each whole and under its
/// number.
pub proof fn law_joined_text_holds_every_section(mark: Seq<char>, sections: Seq<Seq<char>>, i: int)
    requires
        0 <= i < sections.len(),
    ensures
        crate::text::contains_of(
            joined_sections(mark, sections),
            "<!-- "@ + mark + " "@ + crate::text::decimal_of((i + 1) as nat) + " -->\n"@
                + sections[i],
        ),
        sections.len() == 1 ==> joined_sections(mark, sections) == "<!-- "@ + mark + " "@
            + crate::text::decimal_of(1) + " -->\n"@ + sections[0],
{
    lemma_section_is_found(mark, sections, i);
}

/// Of a source that is too long for a request the first part is there, and a mark that
/// something is left out.
pub proof fn law_long_sources_are_cut(title: Seq<char>, kind: Seq<char>, content: Seq<char>)
    requires
        compacted(content).len() > 90000,
    ensures
        crate::text::starts_with_of(
            section_context(title, kind, content),
            "Source: "@ + title + " (type: "@ + kind + ")\n"@ + compacted(content).take(90000)
                + "\n\n[... content truncated to "@,
        ),
{
    let lead = "Source: "@ + title + " (type: "@ + kind + ")\n"@ + compacted(content).take(90000)
        + "\n\n[... content truncated to "@;
    let c = section_context(title, kind, content);
    assert(c.subrange(0, lead.len() as int) =~= lead);
}

} // verus!
