//! Patching Markdown notes with information from video transcripts.

use vstd::prelude::*;

use crate::artifacts::{KeepLevel, NoteArtifact, PatchArtifact, PatchEntry, TranscriptArtifact, TranscriptSegment};
use crate::double::{number_in, opt_double, shown, Double, DoubleView};
use crate::json::{same_text, Json, JsonView};
use crate::outside::{
    all_matches, escaped, group, Found, FoundView, is_matched, lowercase, matches_view, regex_captures_iter,
    regex_escape, regex_is_match, to_lowercase,
};
use crate::text::{
    char_count, contains, contains_of, first_chars, join, join_of, opt_view, take_chars, to_chars,
    views,
};

verus! {

// ---------------------------------------------------------------------------
// Headings
// ---------------------------------------------------------------------------

/// The pattern of a heading line. The white space before the text does not cross
/// the end of the line.
pub const HEADING_PATTERN: &'static str = r"(?m)^(#{1,6})[^\S\r\n]+(.+)$";

/// The texts of the group with number `i` of the matches in which it took part.
pub open spec fn group_texts(ms: Seq<FoundView>, i: int) -> Seq<Seq<char>>
    decreases ms.len(),
{
    if ms.len() == 0 {
        Seq::empty()
    } else {
        let before = group_texts(ms.drop_last(), i);
        match group(ms.last().1, i) {
            Some(t) => before.push(t),
            None => before,
        }
    }
}

/// The texts of one group of the given matches.
pub fn texts_of_group(ms: &Vec<Found>, i: usize) -> (r: Vec<String>)
    ensures
        views(r@) == group_texts(matches_view(ms@), i as int),
{
    let mut out: Vec<String> = Vec::new();
    let ghost mv = matches_view(ms@);
    let mut k: usize = 0;
    assert(views(out@) =~= Seq::empty());
    assert(mv.take(0) =~= Seq::empty());
    while k < ms.len()
        invariant
            k <= ms@.len(),
            mv == matches_view(ms@),
            views(out@) == group_texts(mv.take(k as int), i as int),
        decreases ms@.len() - k,
    {
        proof {
            assert(mv.take(k + 1).drop_last() =~= mv.take(k as int));
            assert(mv.take(k + 1).last().1 == crate::outside::groups_view(ms@[k as int].1@));
        }
        let ghost before = out@;
        if i < ms[k].1.len() {
            if let Some(t) = &ms[k].1[i] {
                out.push(t.clone());
                assert(views(out@) =~= views(before).push(t@));
            }
        }
        k += 1;
    }
    assert(mv.take(k as int) =~= mv);
    out
}

/// Extract Markdown heading texts (ATX-style `#` through `######`) from
/// `content`. Returns only the heading text without the leading `#` prefix.
pub fn extract_headings(content: &str) -> (r: Vec<String>)
    ensures
        views(r@) == group_texts(all_matches(HEADING_PATTERN@, content@), 2),
{
    let ms = regex_captures_iter(HEADING_PATTERN, content);
    texts_of_group(&ms, 2)
}

// ---------------------------------------------------------------------------
// Terms
// ---------------------------------------------------------------------------

/// The pattern of a term in double quotes.
pub const QUOTED_PATTERN: &'static str = "\"([^\"]+)\"";

/// The pattern of a bold term.
pub const BOLD_PATTERN: &'static str = r"\*\*([^*]+)\*\*";

/// The pattern of inline code.
pub const CODE_PATTERN: &'static str = r"`([^`]+)`";

/// The terms with the new ones added at the end, each once.
pub open spec fn add_terms(terms: Seq<Seq<char>>, new: Seq<Seq<char>>) -> Seq<Seq<char>>
    decreases new.len(),
{
    if new.len() == 0 {
        terms
    } else {
        let before = add_terms(terms, new.drop_last());
        if before.contains(new.last()) {
            before
        } else {
            before.push(new.last())
        }
    }
}

/// The terms that a text marks: quoted, bold and code ones.
pub open spec fn marked_terms(text: Seq<char>) -> Seq<Seq<char>> {
    group_texts(all_matches(QUOTED_PATTERN@, text), 1) + group_texts(
        all_matches(BOLD_PATTERN@, text),
        1,
    ) + group_texts(all_matches(CODE_PATTERN@, text), 1)
}

/// The terms with those of the segments added.
pub open spec fn segment_terms(terms: Seq<Seq<char>>, segments: Seq<TranscriptSegment>) -> Seq<Seq<char>>
    decreases segments.len(),
{
    if segments.len() == 0 {
        terms
    } else {
        add_terms(
            segment_terms(terms, segments.drop_last()),
            marked_terms(segments.last().text@),
        )
    }
}

/// The terms that the transcripts mark, in the order of their first occurrence.
pub open spec fn transcript_terms(ts: Seq<TranscriptArtifact>) -> Seq<Seq<char>>
    decreases ts.len(),
{
    if ts.len() == 0 {
        Seq::empty()
    } else {
        segment_terms(transcript_terms(ts.drop_last()), ts.last().segments@)
    }
}

fn has_text(list: &Vec<String>, t: &str) -> (r: bool)
    ensures
        r == views(list@).contains(t@),
{
    let mut i: usize = 0;
    while i < list.len()
        invariant
            i <= list@.len(),
            forall|k: int| 0 <= k < i ==> views(list@)[k] != t@,
        decreases list@.len() - i,
    {
        if same_text(list[i].as_str(), t) {
            assert(views(list@)[i as int] == t@);
            return true;
        }
        i += 1;
    }
    false
}

fn add_all(terms: &mut Vec<String>, new: &Vec<String>)
    ensures
        views(final(terms)@) == add_terms(views(old(terms)@), views(new@)),
{
    let ghost start = views(terms@);
    let ghost nv = views(new@);
    let mut i: usize = 0;
    assert(nv.take(0) =~= Seq::empty());
    while i < new.len()
        invariant
            i <= new@.len(),
            nv == views(new@),
            views(terms@) == add_terms(start, nv.take(i as int)),
        decreases new@.len() - i,
    {
        proof {
            assert(nv.take(i + 1).drop_last() =~= nv.take(i as int));
        }
        if !has_text(terms, new[i].as_str()) {
            let ghost before = terms@;
            terms.push(new[i].clone());
            assert(views(terms@) =~= views(before).push(new@[i as int]@));
        }
        i += 1;
    }
    assert(nv.take(i as int) =~= nv);
}

proof fn lemma_add_terms_concat(terms: Seq<Seq<char>>, a: Seq<Seq<char>>, b: Seq<Seq<char>>)
    ensures
        add_terms(terms, a + b) == add_terms(add_terms(terms, a), b),
    decreases b.len(),
{
    if b.len() == 0 {
        assert(a + b =~= a);
    } else {
        assert((a + b).drop_last() =~= a + b.drop_last());
        lemma_add_terms_concat(terms, a, b.drop_last());
    }
}

fn collect_terms(transcripts: &[TranscriptArtifact]) -> (r: Vec<String>)
    ensures
        views(r@) == transcript_terms(transcripts@),
{
    let mut terms: Vec<String> = Vec::new();
    let mut i: usize = 0;
    assert(views(terms@) =~= Seq::empty());
    while i < transcripts.len()
        invariant
            i <= transcripts@.len(),
            views(terms@) == transcript_terms(transcripts@.take(i as int)),
        decreases transcripts@.len() - i,
    {
        proof {
            assert(transcripts@.take(i + 1).drop_last() =~= transcripts@.take(i as int));
            assert(transcripts@.take(i + 1).last() == transcripts@[i as int]);
        }
        let segments = &transcripts[i].segments;
        let ghost start = views(terms@);
        let mut k: usize = 0;
        assert(segments@.take(0) =~= Seq::empty());
        while k < segments.len()
            invariant
                k <= segments@.len(),
                views(terms@) == segment_terms(start, segments@.take(k as int)),
            decreases segments@.len() - k,
        {
            proof {
                assert(segments@.take(k + 1).drop_last() =~= segments@.take(k as int));
            }
            let text = segments[k].text.as_str();
            let quoted = texts_of_group(&regex_captures_iter(QUOTED_PATTERN, text), 1);
            let bold = texts_of_group(&regex_captures_iter(BOLD_PATTERN, text), 1);
            let code = texts_of_group(&regex_captures_iter(CODE_PATTERN, text), 1);
            let ghost before = views(terms@);
            add_all(&mut terms, &quoted);
            add_all(&mut terms, &bold);
            add_all(&mut terms, &code);
            proof {
                lemma_add_terms_concat(before, views(quoted@), views(bold@));
                lemma_add_terms_concat(before, views(quoted@) + views(bold@), views(code@));
            }
            k += 1;
        }
        assert(segments@.take(k as int) =~= segments@);
        i += 1;
    }
    assert(transcripts@.take(i as int) =~= transcripts@);
    terms
}

/// Whether `c` is an ASCII letter or digit, or an underscore.
pub open spec fn is_word_char(c: char) -> bool {
    ('a' <= c && c <= 'z') || ('A' <= c && c <= 'Z') || ('0' <= c && c <= '9') || c == '_'
}

/// Whether a text is made of ASCII letters, digits and underscores.
pub open spec fn is_word(s: Seq<char>) -> bool {
    forall|i: int| 0 <= i < s.len() ==> #[trigger] is_word_char(s[i])
}

fn word(s: &str) -> (r: bool)
    ensures
        r == is_word(s@),
{
    let chars = to_chars(s);
    let mut i: usize = 0;
    while i < chars.len()
        invariant
            i <= chars@.len(),
            chars@ == s@,
            forall|k: int| 0 <= k < i ==> #[trigger] is_word_char(s@[k]),
        decreases chars@.len() - i,
    {
        let c = chars[i];
        let ok = ('a' <= c && c <= 'z') || ('A' <= c && c <= 'Z') || ('0' <= c && c <= '9') || c
            == '_';
        assert(ok == is_word_char(s@[i as int]));
        if !ok {
            return false;
        }
        i += 1;
    }
    true
}

/// The pattern of a term as a whole word.
pub open spec fn word_pattern(term: Seq<char>) -> Seq<char> {
    "\\b"@ + escaped(term) + "\\b"@
}

/// Whether a text holds a term, both in lower case: as a whole word where the term is
/// one and the pattern says, else anywhere.
pub open spec fn has_term_by(content: Seq<char>, term: Seq<char>, as_word: Option<bool>) -> bool {
    match as_word {
        Some(b) => b,
        None => contains_of(content, term),
    }
}

/// Whether a text in lower case holds a term: as a whole word where the term is
/// one, else anywhere.
pub open spec fn has_term(content: Seq<char>, term: Seq<char>) -> bool {
    let t = lowercase(term);
    has_term_by(
        content,
        t,
        if is_word(t) {
            is_matched(word_pattern(t), content)
        } else {
            None
        },
    )
}

/// Whether a text holds a term, both in lower case, by what the pattern of the term
/// as a whole word says.
pub fn contains_term_by(content: &str, term: &str, as_word: Option<bool>) -> (r: bool)
    ensures
        r == has_term_by(content@, term@, as_word),
{
    match as_word {
        Some(b) => b,
        None => contains(content, term),
    }
}

/// Whether a text in lower case holds a term.
pub fn contains_term(lowercase_content: &str, term: &str) -> (r: bool)
    ensures
        r == has_term(lowercase_content@, term@),
{
    let term_lower = to_lowercase(term);
    let as_word = if word(term_lower.as_str()) {
        let mut pattern = "\\b".to_owned();
        pattern.push_str(regex_escape(term_lower.as_str()).as_str());
        pattern.push_str("\\b");
        regex_is_match(pattern.as_str(), lowercase_content)
    } else {
        None
    };
    contains_term_by(lowercase_content, term_lower.as_str(), as_word)
}

/// The terms that a text in lower case does not hold, in their order.
pub open spec fn missing_terms(content: Seq<char>, terms: Seq<Seq<char>>) -> Seq<Seq<char>>
    decreases terms.len(),
{
    if terms.len() == 0 {
        Seq::empty()
    } else {
        let before = missing_terms(content, terms.drop_last());
        if has_term(content, terms.last()) {
            before
        } else {
            before.push(terms.last())
        }
    }
}

/// The location under which terms are collected.
pub const GLOSSARY: &'static str = "Key Terms / Glossary";

/// Whether `p` adds a term to the glossary.
pub open spec fn is_glossary_patch(p: PatchEntry, term: Seq<char>) -> bool {
    &&& p.location@ == GLOSSARY@
    &&& p.original_text is None
    &&& p.new_text@ == term
    &&& p.source_video_id is None
    &&& p.source_timestamp is None
    &&& p.keep_level == KeepLevel::Compress
}

/// The names of the transcripts that a patch is made from.
pub open spec fn transcript_names(ts: Seq<TranscriptArtifact>) -> Seq<Seq<char>> {
    ts.map_values(|t: TranscriptArtifact| t.course_id@ + "/"@ + t.video_id@)
}

fn names_of(transcripts: &[TranscriptArtifact]) -> (r: Vec<String>)
    ensures
        views(r@) == transcript_names(transcripts@),
{
    let mut out: Vec<String> = Vec::new();
    let mut i: usize = 0;
    while i < transcripts.len()
        invariant
            i <= transcripts@.len(),
            views(out@) == transcript_names(transcripts@).take(i as int),
        decreases transcripts@.len() - i,
    {
        let mut name = transcripts[i].course_id.clone();
        name.push_str("/");
        name.push_str(transcripts[i].video_id.as_str());
        let ghost before = out@;
        out.push(name);
        proof {
            assert(views(out@) =~= views(before).push(name@));
            assert(transcript_names(transcripts@).take(i + 1) =~= transcript_names(
                transcripts@,
            ).take(i as int).push(name@));
        }
        i += 1;
    }
    assert(transcript_names(transcripts@).take(i as int) =~= transcript_names(transcripts@));
    out
}

/// Deterministic patching: the terms that the transcripts mark with quotes
/// (`"..."`), as bold (`**...**`) or as inline code and that the notes do not
/// hold yet, whatever their case, go to the glossary.
pub fn deterministic_patch(note: &NoteArtifact, transcripts: &[TranscriptArtifact]) -> (r:
    PatchArtifact)
    ensures
        r.source_notes_path@ == note.path@,
        views(r.source_transcripts@) == transcript_names(transcripts@),
        r.conflicts@ == Seq::<String>::empty(),
        ({
            let terms = missing_terms(lowercase(note.content@), transcript_terms(transcripts@));
            &&& r.patches@.len() == terms.len()
            &&& forall|i: int|
                0 <= i < terms.len() ==> is_glossary_patch(#[trigger] r.patches@[i], terms[i])
        }),
{
    let terms = collect_terms(transcripts);
    let note_lower = to_lowercase(note.content.as_str());
    let ghost tv = views(terms@);
    let mut patches: Vec<PatchEntry> = Vec::new();
    let mut i: usize = 0;
    assert(tv.take(0) =~= Seq::empty());
    while i < terms.len()
        invariant
            i <= terms@.len(),
            tv == views(terms@),
            ({
                let missing = missing_terms(note_lower@, tv.take(i as int));
                &&& patches@.len() == missing.len()
                &&& forall|k: int|
                    0 <= k < missing.len() ==> is_glossary_patch(#[trigger] patches@[k], missing[k])
            }),
        decreases terms@.len() - i,
    {
        proof {
            assert(tv.take(i + 1).drop_last() =~= tv.take(i as int));
            assert(tv.take(i + 1).last() == terms@[i as int]@);
        }
        if !contains_term(note_lower.as_str(), terms[i].as_str()) {
            patches.push(
                PatchEntry {
                    location: GLOSSARY.to_owned(),
                    original_text: None,
                    new_text: terms[i].clone(),
                    source_video_id: None,
                    source_timestamp: None,
                    keep_level: KeepLevel::Compress,
                },
            );
        }
        i += 1;
    }
    assert(tv.take(i as int) =~= tv);
    let mut r = PatchArtifact::new(note.path.clone());
    r.source_transcripts = names_of(transcripts);
    r.patches = patches;
    r
}


// ---------------------------------------------------------------------------
// Patching with a language model
// ---------------------------------------------------------------------------

/// The system prompt for patching notes.
pub const PATCH_SYSTEM_PROMPT: &'static str = "\
    You are a lecture notes patching assistant. Given a set of lecture notes and \
    corresponding video transcripts, identify gaps and inconsistencies where the \
    transcripts contain information not yet captured in the notes.\n\nOutput a JSON object \
    with:\n- \"patches\": array of patch objects, each with:\n  - \"location\": (string, \
    required) heading or section name where the patch applies\n  - \"original_text\": \
    (string, optional) the text being modified or replaced\n  - \"new_text\": (string, \
    required) the new text to insert or replace with\n  - \"source_video_id\": (string, \
    optional) which video this comes from\n  - \"source_timestamp\": (number, optional) \
    timestamp in seconds\n  - \"keep_level\": (string) one of: \"must_keep\", \"compress\", \
    \"drop\"\n- \"conflicts\": array of strings describing any unresolved conflicts for \
    manual review";

/// The lines of a transcript in a prompt: its title, and each segment after its
/// time.
pub open spec fn transcript_lines(t: TranscriptArtifact) -> Seq<Seq<char>> {
    seq!["## Video: "@ + t.video_title@ + " ("@ + t.video_id@ + ")"@] + t.segments@.map_values(
        |s: TranscriptSegment|
            "["@ + shown(s.start_time@, false) + "s] "@ + s.text@,
    )
}

/// The transcripts in a prompt.
pub open spec fn transcript_texts(ts: Seq<TranscriptArtifact>) -> Seq<Seq<char>> {
    ts.map_values(|t: TranscriptArtifact| join_of(transcript_lines(t), "\n"@))
}

/// The user prompt for patching notes: fifteen thousand characters of the notes
/// and thirty thousand of the transcripts at most.
pub open spec fn patch_user_prompt(note: Seq<char>, ts: Seq<TranscriptArtifact>) -> Seq<char> {
    "## Current Lecture Notes\n\n"@ + first_chars(note, 15000) + "\n\n## Video Transcripts\n\n"@
        + first_chars(join_of(transcript_texts(ts), "\n\n---\n\n"@), 30000)
}

fn lines_of_transcript(t: &TranscriptArtifact) -> (r: Vec<String>)
    ensures
        views(r@) == transcript_lines(*t),
{
    let mut out: Vec<String> = Vec::new();
    let mut title = "## Video: ".to_owned();
    title.push_str(t.video_title.as_str());
    title.push_str(" (");
    title.push_str(t.video_id.as_str());
    title.push_str(")");
    out.push(title);
    let ghost goal = transcript_lines(*t);
    assert(views(out@) =~= goal.take(1));
    let mut i: usize = 0;
    while i < t.segments.len()
        invariant
            i <= t.segments@.len(),
            goal == transcript_lines(*t),
            goal.len() == t.segments@.len() + 1,
            views(out@) == goal.take(i + 1),
        decreases t.segments@.len() - i,
    {
        let mut line = "[".to_owned();
        line.push_str(t.segments[i].start_time.show(false).as_str());
        line.push_str("s] ");
        line.push_str(t.segments[i].text.as_str());
        let ghost before = out@;
        out.push(line);
        proof {
            assert(views(out@) =~= views(before).push(line@));
            assert(goal[i + 1] == line@);
            assert(goal.take(i + 2) =~= goal.take(i + 1).push(line@));
        }
        i += 1;
    }
    assert(goal.take(i + 1) =~= goal);
    out
}

/// Build the prompts for patching notes with a language model.
///
/// Returns `(system_prompt, user_prompt)`.
pub fn build_patch_prompts(note: &NoteArtifact, transcripts: &[TranscriptArtifact]) -> (r: (
    String,
    String,
))
    ensures
        r.0@ == PATCH_SYSTEM_PROMPT@,
        r.1@ == patch_user_prompt(note.content@, transcripts@),
{
    let mut parts: Vec<String> = Vec::new();
    let ghost goal = transcript_texts(transcripts@);
    let mut i: usize = 0;
    while i < transcripts.len()
        invariant
            i <= transcripts@.len(),
            goal == transcript_texts(transcripts@),
            views(parts@) == goal.take(i as int),
        decreases transcripts@.len() - i,
    {
        let lines = lines_of_transcript(&transcripts[i]);
        let part = join(&lines, "\n");
        let ghost before = parts@;
        parts.push(part);
        proof {
            assert(views(parts@) =~= views(before).push(part@));
            assert(goal.take(i + 1) =~= goal.take(i as int).push(part@));
        }
        i += 1;
    }
    assert(goal.take(i as int) =~= goal);
    let joined = join(&parts, "\n\n---\n\n");
    let mut user = "## Current Lecture Notes\n\n".to_owned();
    user.push_str(truncate_chars(note.content.as_str(), 15000).as_str());
    user.push_str("\n\n## Video Transcripts\n\n");
    user.push_str(truncate_chars(joined.as_str(), 30000).as_str());
    (PATCH_SYSTEM_PROMPT.to_owned(), user)
}

/// The string that a member is, where it is one and not empty.
pub open spec fn given_text(v: JsonView, key: Seq<char>) -> Option<Seq<char>> {
    match crate::json::member(v, key) {
        Some(JsonView::Text(s)) => if s.len() > 0 {
            Some(s)
        } else {
            None
        },
        _ => None,
    }
}

fn given_text_of(v: &Json, key: &str) -> (r: Option<String>)
    ensures
        opt_view(r) == given_text(v@, key@),
{
    match v.get(key) {
        Some(m) => match m.as_str() {
            Some(s) => if s.is_empty() {
                None
            } else {
                Some(s.to_owned())
            },
            None => None,
        },
        None => None,
    }
}

/// The keep level that a reply names; anything else means to compress.
pub open spec fn named_level(v: JsonView) -> KeepLevel {
    match crate::json::member(v, "keep_level"@) {
        Some(JsonView::Text(s)) => if s == "must_keep"@ {
            KeepLevel::MustKeep
        } else if s == "drop"@ {
            KeepLevel::Drop
        } else {
            KeepLevel::Compress
        },
        _ => KeepLevel::Compress,
    }
}

fn level_of(v: &Json) -> (r: KeepLevel)
    ensures
        r == named_level(v@),
{
    match v.get("keep_level") {
        Some(m) => match m.as_str() {
            Some(s) => if same_text(s, "must_keep") {
                KeepLevel::MustKeep
            } else if same_text(s, "drop") {
                KeepLevel::Drop
            } else {
                KeepLevel::Compress
            },
            None => KeepLevel::Compress,
        },
        None => KeepLevel::Compress,
    }
}

/// A patch by its views.
pub struct PatchView {
    /// Where it is applied.
    pub location: Seq<char>,
    /// The text that it modifies.
    pub original_text: Option<Seq<char>>,
    /// The new text.
    pub new_text: Seq<char>,
    /// The video that it comes from.
    pub source_video_id: Option<Seq<char>>,
    /// The time within the video, in seconds.
    pub source_timestamp: Option<DoubleView>,
    /// The keep level.
    pub keep_level: KeepLevel,
}

/// The view of a patch.
pub open spec fn patch_view(p: PatchEntry) -> PatchView {
    PatchView {
        location: p.location@,
        original_text: opt_view(p.original_text),
        new_text: p.new_text@,
        source_video_id: opt_view(p.source_video_id),
        source_timestamp: opt_double(p.source_timestamp),
        keep_level: p.keep_level,
    }
}

/// The views of patches.
pub open spec fn patch_views(ps: Seq<PatchEntry>) -> Seq<PatchView> {
    ps.map_values(|p: PatchEntry| patch_view(p))
}

/// The patch that an item of a reply stands for; an item without location or
/// without new text stands for none.
pub open spec fn item_patch(item: JsonView) -> Option<PatchView> {
    match (given_text(item, "location"@), given_text(item, "new_text"@)) {
        (Some(location), Some(new_text)) => Some(
            PatchView {
                location,
                original_text: given_text(item, "original_text"@),
                new_text,
                source_video_id: given_text(item, "source_video_id"@),
                source_timestamp: number_in(crate::json::member(item, "source_timestamp"@)),
                keep_level: named_level(item),
            },
        ),
        _ => None,
    }
}

/// The patches of the first `n` items.
pub open spec fn item_patches(items: Seq<JsonView>, n: int) -> Seq<PatchView>
    decreases n,
{
    if n <= 0 {
        Seq::empty()
    } else {
        let before = item_patches(items, n - 1);
        match item_patch(items[n - 1]) {
            Some(p) => before.push(p),
            None => before,
        }
    }
}

/// The items of a member that is an array.
pub open spec fn member_items(v: JsonView, key: Seq<char>) -> Seq<JsonView> {
    match crate::json::member(v, key) {
        Some(JsonView::Array(items)) => items,
        _ => Seq::empty(),
    }
}

/// Read the patches of a reply.
pub fn patches_of_reply(response: &Json) -> (r: Vec<PatchEntry>)
    ensures
        patch_views(r@) == item_patches(
            member_items(response@, "patches"@),
            member_items(response@, "patches"@).len() as int,
        ),
{
    let mut out: Vec<PatchEntry> = Vec::new();
    assert(patch_views(out@) =~= Seq::empty());
    let ghost iv = member_items(response@, "patches"@);
    if let Some(list) = response.get("patches") {
        if let Json::Array(items) = list {
            let mut i: usize = 0;
            while i < items.len()
                invariant
                    i <= items@.len(),
                    iv.len() == items@.len(),
                    forall|k: int| 0 <= k < iv.len() ==> #[trigger] iv[k] == items@[k]@,
                    patch_views(out@) == item_patches(iv, i as int),
                decreases items@.len() - i,
            {
                let item = &items[i];
                assert(iv[i as int] == item@);
                let location = given_text_of(item, "location");
                let new_text = given_text_of(item, "new_text");
                if let Some(location) = location {
                    if let Some(new_text) = new_text {
                        let entry = PatchEntry {
                            location,
                            original_text: given_text_of(item, "original_text"),
                            new_text,
                            source_video_id: given_text_of(item, "source_video_id"),
                            source_timestamp: Double::of_member(item.get("source_timestamp")),
                            keep_level: level_of(item),
                        };
                        let ghost before = out@;
                        out.push(entry);
                        assert(patch_views(out@) =~= patch_views(before).push(patch_view(entry)));
                    }
                }
                i += 1;
            }
        }
    }
    out
}

/// The strings among the first `n` items.
pub open spec fn item_texts(items: Seq<JsonView>, n: int) -> Seq<Seq<char>>
    decreases n,
{
    if n <= 0 {
        Seq::empty()
    } else {
        let before = item_texts(items, n - 1);
        match items[n - 1] {
            JsonView::Text(s) => before.push(s),
            _ => before,
        }
    }
}

/// Read the conflicts of a reply: the strings among them.
pub fn conflicts_of_reply(response: &Json) -> (r: Vec<String>)
    ensures
        views(r@) == item_texts(
            member_items(response@, "conflicts"@),
            member_items(response@, "conflicts"@).len() as int,
        ),
{
    let mut out: Vec<String> = Vec::new();
    assert(views(out@) =~= Seq::empty());
    let ghost iv = member_items(response@, "conflicts"@);
    if let Some(list) = response.get("conflicts") {
        if let Json::Array(items) = list {
            let mut i: usize = 0;
            while i < items.len()
                invariant
                    i <= items@.len(),
                    iv.len() == items@.len(),
                    forall|k: int| 0 <= k < iv.len() ==> #[trigger] iv[k] == items@[k]@,
                    views(out@) == item_texts(iv, i as int),
                decreases items@.len() - i,
            {
                assert(iv[i as int] == items@[i as int]@);
                if let Some(s) = items[i].as_str() {
                    let ghost before = out@;
                    out.push(s.to_owned());
                    assert(views(out@) =~= views(before).push(s@));
                }
                i += 1;
            }
        }
    }
    out
}

/// The patch artifact of a reply.
pub fn patch_of_reply(
    note: &NoteArtifact,
    transcripts: &[TranscriptArtifact],
    response: &Json,
) -> (r: PatchArtifact)
    ensures
        r.source_notes_path@ == note.path@,
        views(r.source_transcripts@) == transcript_names(transcripts@),
        patch_views(r.patches@) == item_patches(
            member_items(response@, "patches"@),
            member_items(response@, "patches"@).len() as int,
        ),
        views(r.conflicts@) == item_texts(
            member_items(response@, "conflicts"@),
            member_items(response@, "conflicts"@).len() as int,
        ),
{
    let mut r = PatchArtifact::new(note.path.clone());
    r.source_transcripts = names_of(transcripts);
    r.patches = patches_of_reply(response);
    r.conflicts = conflicts_of_reply(response);
    r
}

/// How notes are patched.
#[derive(Debug, Clone, Copy, PartialEq, Eq, Structural)]
pub enum PatchPlan {
    /// Not at all: there are no transcripts.
    Unchanged,
    /// With the language model, and without it where that fails.
    WithModel,
    /// Without the language model.
    Deterministic,
}

/// How notes are patched with so many transcripts.
pub fn plan_patch(transcript_count: usize, llm_available: bool) -> (r: PatchPlan)
    ensures
        r == if transcript_count == 0 {
            PatchPlan::Unchanged
        } else if llm_available {
            PatchPlan::WithModel
        } else {
            PatchPlan::Deterministic
        },
{
    if transcript_count == 0 {
        PatchPlan::Unchanged
    } else if llm_available {
        PatchPlan::WithModel
    } else {
        PatchPlan::Deterministic
    }
}

/// The patch artifact of notes for which there are no transcripts: the notes
/// stay as they are, and a conflict says so.
pub fn patch_without_transcripts(notes_path: &str, transcripts_dir: &str) -> (r: PatchArtifact)
    ensures
        r.source_notes_path@ == notes_path@,
        r.source_transcripts@ == Seq::<String>::empty(),
        r.patches@ == Seq::<PatchEntry>::empty(),
        r.conflicts@.len() == 1,
        r.conflicts@[0]@ == "No transcript files found in "@ + transcripts_dir@,
{
    let mut r = PatchArtifact::new(notes_path.to_owned());
    let mut conflict = "No transcript files found in ".to_owned();
    conflict.push_str(transcripts_dir);
    r.conflicts.push(conflict);
    r
}

// ---------------------------------------------------------------------------
// Applying patches
// ---------------------------------------------------------------------------

/// The first `max_chars` characters of `s`, or all of it.
pub fn truncate_chars(s: &str, max_chars: usize) -> (r: String)
    ensures
        r@ == first_chars(s@, max_chars as int),
{
    take_chars(s, max_chars)
}

/// A text for display: whole, or its first `max_len` characters and dots.
pub open spec fn display_text(s: Seq<char>, max_len: int) -> Seq<char> {
    if s.len() <= max_len {
        s
    } else {
        s.take(max_len) + "..."@
    }
}

/// Truncate a string for display, appending `"..."` when shortened.
pub fn truncate_for_display(s: &str, max_len: usize) -> (r: String)
    ensures
        r@ == display_text(s@, max_len as int),
{
    if char_count(s) <= max_len {
        s.to_owned()
    } else {
        let mut out = take_chars(s, max_len);
        out.push_str("...");
        out
    }
}

/// Where a patch comes from, as it is shown.
pub open spec fn source_text(p: PatchEntry) -> Seq<char> {
    match (p.source_video_id, p.source_timestamp) {
        (Some(vid), Some(t)) => " (from "@ + vid@ + " at "@ + shown(t@, true) + "s)"@,
        (Some(vid), None) => " (from "@ + vid@ + ")"@,
        _ => Seq::empty(),
    }
}

/// The line that shows a patch.
pub open spec fn patch_line(p: PatchEntry) -> Seq<char> {
    let start = "- **[["@ + p.location@ + "](#)]** "@;
    let led = match p.original_text {
        Some(o) => start + "~~"@ + display_text(o@, 80) + "~~ -> "@,
        None => start,
    };
    led + display_text(p.new_text@, 200) + source_text(p) + "\n"@
}

/// The lines of the patches at a location, in their order.
pub open spec fn location_lines(ps: Seq<PatchEntry>, location: Seq<char>) -> Seq<char>
    decreases ps.len(),
{
    if ps.len() == 0 {
        Seq::empty()
    } else {
        let before = location_lines(ps.drop_last(), location);
        if ps.last().location@ == location {
            before + patch_line(ps.last())
        } else {
            before
        }
    }
}

/// The locations of the patches, in the order of strings and each once.
pub open spec fn locations(ps: Seq<PatchEntry>) -> Seq<Seq<char>>
    decreases ps.len(),
{
    if ps.len() == 0 {
        Seq::empty()
    } else {
        crate::text::insert_text(locations(ps.drop_last()), ps.last().location@)
    }
}

/// The groups of the given locations one after the other.
pub open spec fn group_text(ps: Seq<PatchEntry>, ls: Seq<Seq<char>>) -> Seq<char>
    decreases ls.len(),
{
    if ls.len() == 0 {
        Seq::empty()
    } else {
        group_text(ps, ls.drop_last()) + "### "@ + ls.last() + "\n\n"@ + location_lines(
            ps,
            ls.last(),
        ) + "\n"@
    }
}

/// The lines of the conflicts.
pub open spec fn conflict_lines(cs: Seq<String>) -> Seq<char>
    decreases cs.len(),
{
    if cs.len() == 0 {
        Seq::empty()
    } else {
        conflict_lines(cs.drop_last()) + "- "@ + cs.last()@ + "\n"@
    }
}

/// The mark at the top of patched notes.
pub const PATCHED_MARK: &'static str = "<!-- Patched by lecture-distill -->\n\n";

/// Patched notes: a mark, the notes as they were, the additions grouped by
/// location where there are any, and the conflicts where there are any.
pub open spec fn patched(original: Seq<char>, pa: PatchArtifact) -> Seq<char> {
    let head = PATCHED_MARK@ + original + "\n"@;
    let added = if pa.patches@.len() == 0 {
        head
    } else {
        head + "## Transcript Additions\n\n"@ + group_text(pa.patches@, locations(pa.patches@))
    };
    if pa.conflicts@.len() == 0 {
        added
    } else {
        added + "## Conflicts / Needs Review\n\n"@ + conflict_lines(pa.conflicts@) + "\n"@
    }
}

fn push_patch_line(out: &mut String, p: &PatchEntry)
    ensures
        final(out)@ == old(out)@ + patch_line(*p),
{
    let ghost start = out@;
    let mut line = "- **[[".to_owned();
    line.push_str(p.location.as_str());
    line.push_str("](#)]** ");
    if let Some(orig) = &p.original_text {
        line.push_str("~~");
        line.push_str(truncate_for_display(orig.as_str(), 80).as_str());
        line.push_str("~~ -> ");
    }
    line.push_str(truncate_for_display(p.new_text.as_str(), 200).as_str());
    let mut source = String::new();
    match (&p.source_video_id, p.source_timestamp) {
        (Some(vid), Some(t)) => {
            source = " (from ".to_owned();
            source.push_str(vid.as_str());
            source.push_str(" at ");
            source.push_str(t.show(true).as_str());
            source.push_str("s)");
        },
        (Some(vid), None) => {
            source = " (from ".to_owned();
            source.push_str(vid.as_str());
            source.push_str(")");
        },
        _ => {},
    }
    line.push_str(source.as_str());
    line.push_str("\n");
    out.push_str(line.as_str());
}

fn sorted_locations(patches: &[PatchEntry]) -> (r: Vec<String>)
    ensures
        views(r@) == locations(patches@),
{
    let mut out: Vec<String> = Vec::new();
    let mut i: usize = 0;
    assert(views(out@) =~= Seq::empty());
    assert(patches@.take(0) =~= Seq::empty());
    while i < patches.len()
        invariant
            i <= patches@.len(),
            views(out@) == locations(patches@.take(i as int)),
        decreases patches@.len() - i,
    {
        assert(patches@.take(i + 1).drop_last() =~= patches@.take(i as int));
        crate::text::insert_ordered(&mut out, patches[i].location.as_str());
        i += 1;
    }
    assert(patches@.take(i as int) =~= patches@);
    out
}

fn lines_at(patches: &[PatchEntry], location: &str) -> (r: String)
    ensures
        r@ == location_lines(patches@, location@),
{
    let mut out = String::new();
    let mut i: usize = 0;
    assert(patches@.take(0) =~= Seq::empty());
    while i < patches.len()
        invariant
            i <= patches@.len(),
            out@ == location_lines(patches@.take(i as int), location@),
        decreases patches@.len() - i,
    {
        assert(patches@.take(i + 1).drop_last() =~= patches@.take(i as int));
        if same_text(patches[i].location.as_str(), location) {
            push_patch_line(&mut out, &patches[i]);
        }
        i += 1;
    }
    assert(patches@.take(i as int) =~= patches@);
    out
}

fn grouped(patches: &[PatchEntry], ls: &Vec<String>) -> (r: String)
    ensures
        r@ == group_text(patches@, views(ls@)),
{
    let mut out = String::new();
    let ghost lv = views(ls@);
    let mut i: usize = 0;
    assert(lv.take(0) =~= Seq::empty());
    while i < ls.len()
        invariant
            i <= ls@.len(),
            lv == views(ls@),
            out@ == group_text(patches@, lv.take(i as int)),
        decreases ls@.len() - i,
    {
        assert(lv.take(i + 1).drop_last() =~= lv.take(i as int));
        assert(lv.take(i + 1).last() == ls@[i as int]@);
        out.push_str("### ");
        out.push_str(ls[i].as_str());
        out.push_str("\n\n");
        out.push_str(lines_at(patches, ls[i].as_str()).as_str());
        out.push_str("\n");
        i += 1;
    }
    assert(lv.take(i as int) =~= lv);
    out
}

/// Apply patches to original content and produce the final patched Markdown.
///
/// The output is structured as:
/// 1. `<!-- Patched by lecture-distill -->` comment
/// 2. Original content unchanged
/// 3. `## Transcript Additions` section (grouped by patch location)
/// 4. `## Conflicts / Needs Review` section (only if conflicts exist)
pub fn apply_patches(original_content: &str, patch_artifact: &PatchArtifact) -> (r: String)
    ensures
        r@ == patched(original_content@, *patch_artifact),
{
    let mut out = PATCHED_MARK.to_owned();
    out.push_str(original_content);
    out.push_str("\n");
    if patch_artifact.patches.len() > 0 {
        out.push_str("## Transcript Additions\n\n");
        let ls = sorted_locations(&patch_artifact.patches);
        out.push_str(grouped(&patch_artifact.patches, &ls).as_str());
    }
    if patch_artifact.conflicts.len() > 0 {
        out.push_str("## Conflicts / Needs Review\n\n");
        let mut listed = String::new();
        let mut i: usize = 0;
        let ghost cs = patch_artifact.conflicts@;
        assert(cs.take(0) =~= Seq::empty());
        while i < patch_artifact.conflicts.len()
            invariant
                i <= patch_artifact.conflicts@.len(),
                cs == patch_artifact.conflicts@,
                listed@ == conflict_lines(cs.take(i as int)),
            decreases patch_artifact.conflicts@.len() - i,
        {
            assert(cs.take(i + 1).drop_last() =~= cs.take(i as int));
            listed.push_str("- ");
            listed.push_str(patch_artifact.conflicts[i].as_str());
            listed.push_str("\n");
            i += 1;
        }
        assert(cs.take(i as int) =~= cs);
        out.push_str(listed.as_str());
        out.push_str("\n");
    }
    out
}

// ---------------------------------------------------------------------------
// Laws
// ---------------------------------------------------------------------------

/// Patching leaves the notes unchanged: they stand, whole, behind the mark.
pub proof fn law_original_is_kept(original: Seq<char>, pa: PatchArtifact)
    ensures
        patched(original, pa).len() >= PATCHED_MARK@.len() + original.len(),
        patched(original, pa).subrange(
            PATCHED_MARK@.len() as int,
            (PATCHED_MARK@.len() + original.len()) as int,
        ) == original,
{
    assert(patched(original, pa).subrange(
        PATCHED_MARK@.len() as int,
        (PATCHED_MARK@.len() + original.len()) as int,
    ) =~= original);
}

/// The groups of the additions come in the order of their locations, and each
/// location has one group exactly where some patch is placed there.
pub proof fn law_locations_are_grouped(ps: Seq<PatchEntry>)
    ensures
        crate::text::ascending(locations(ps)),
        forall|l: Seq<char>| #[trigger]
            locations(ps).contains(l) <==> exists|i: int|
                0 <= i < ps.len() && (#[trigger] ps[i]).location@ == l,
    decreases ps.len(),
{
    if ps.len() > 0 {
        let before = ps.drop_last();
        law_locations_are_grouped(before);
        crate::text::lemma_insert_text(locations(before), ps.last().location@);
        assert forall|l: Seq<char>| #[trigger] locations(ps).contains(l) <==> exists|i: int|
            0 <= i < ps.len() && (#[trigger] ps[i]).location@ == l by {
            if locations(before).contains(l) {
                let i = choose|i: int| 0 <= i < before.len() && (#[trigger] before[i]).location@ == l;
                assert(ps[i].location@ == l);
            }
            if ps.last().location@ == l {
                assert(ps[ps.len() - 1].location@ == l);
            }
            if exists|i: int| 0 <= i < ps.len() && (#[trigger] ps[i]).location@ == l {
                let i = choose|i: int| 0 <= i < ps.len() && (#[trigger] ps[i]).location@ == l;
                if i < before.len() {
                    assert(before[i].location@ == l);
                }
            }
        }
    }
}

/// The lines of the patches at a location, split around one of these patches.
proof fn lemma_location_lines_split(ps: Seq<PatchEntry>, i: int, location: Seq<char>)
    requires
        0 <= i < ps.len(),
        ps[i].location@ == location,
    ensures
        location_lines(ps, location) == location_lines(ps.take(i), location) + patch_line(ps[i])
            + location_lines(ps.skip(i + 1), location),
    decreases ps.len(),
{
    let before = ps.drop_last();
    if i == ps.len() - 1 {
        assert(ps.take(i) =~= before);
        assert(ps.skip(i + 1) =~= Seq::empty());
        assert(location_lines(ps, location) =~= location_lines(ps.take(i), location) + patch_line(
            ps[i],
        ) + location_lines(ps.skip(i + 1), location));
    } else {
        lemma_location_lines_split(before, i, location);
        assert(before.take(i) =~= ps.take(i));
        assert(ps.skip(i + 1).drop_last() =~= before.skip(i + 1));
        assert(ps.skip(i + 1).last() == ps.last());
        assert(location_lines(ps, location) =~= location_lines(ps.take(i), location) + patch_line(
            ps[i],
        ) + location_lines(ps.skip(i + 1), location));
    }
}

/// The groups of several locations, split around one of them.
proof fn lemma_group_split(ps: Seq<PatchEntry>, ls: Seq<Seq<char>>, k: int) -> (parts: (
    Seq<char>,
    Seq<char>,
))
    requires
        0 <= k < ls.len(),
    ensures
        group_text(ps, ls) == parts.0 + "### "@ + ls[k] + "\n\n"@ + location_lines(ps, ls[k])
            + "\n"@ + parts.1,
    decreases ls.len(),
{
    let before = group_text(ps, ls.drop_last());
    if k == ls.len() - 1 {
        let none: Seq<char> = Seq::empty();
        assert(group_text(ps, ls) =~= before + "### "@ + ls[k] + "\n\n"@ + location_lines(
            ps,
            ls[k],
        ) + "\n"@ + none);
        (before, none)
    } else {
        let (a, b) = lemma_group_split(ps, ls.drop_last(), k);
        let last = "### "@ + ls.last() + "\n\n"@ + location_lines(ps, ls.last()) + "\n"@;
        assert(group_text(ps, ls) =~= before + last);
        assert(before + last =~= a + "### "@ + ls[k] + "\n\n"@ + location_lines(ps, ls[k])
            + "\n"@ + (b + last));
        (a, b + last)
    }
}

/// Every patch has a line of its own under the heading of its location: behind the
/// lines of the earlier patches there, and before those of the later ones. The line
/// strikes out the text that the patch modifies, where it modifies one, and gives the
/// new text in its place; of either, what is longer than a line can show is cut. Where
/// the patch names a video, the line ends with it. Gives what stands before the group
/// and behind it.
pub proof fn law_patches_are_shown(original: Seq<char>, pa: PatchArtifact, i: int) -> (around: (
    Seq<char>,
    Seq<char>,
))
    requires
        0 <= i < pa.patches@.len(),
    ensures
        ({
            let ps = pa.patches@;
            let p = ps[i];
            let new = if p.new_text@.len() <= 200 {
                p.new_text@
            } else {
                p.new_text@.take(200) + "..."@
            };
            let change = match p.original_text {
                Some(o) => if o@.len() <= 80 {
                    "~~"@ + o@ + "~~ -> "@ + new
                } else {
                    "~~"@ + o@.take(80) + "..."@ + "~~ -> "@ + new
                },
                None => new,
            };
            let source = match p.source_video_id {
                Some(video) => match p.source_timestamp {
                    Some(t) => " (from "@ + video@ + " at "@ + shown(t@, true) + "s)"@,
                    None => " (from "@ + video@ + ")"@,
                },
                None => Seq::empty(),
            };
            let line = "- **[["@ + p.location@ + "](#)]** "@ + change + source + "\n"@;
            patched(original, pa) == around.0 + "### "@ + p.location@ + "\n\n"@ + location_lines(
                ps.take(i),
                p.location@,
            ) + line + location_lines(ps.skip(i + 1), p.location@) + "\n"@ + around.1
        }),
{
    let ps = pa.patches@;
    let p = ps[i];
    let l = p.location@;
    let ls = locations(ps);
    law_locations_are_grouped(ps);
    assert(ps[i].location@ == l);
    assert(ls.contains(l));
    let k = choose|k: int| 0 <= k < ls.len() && ls[k] == l;
    lemma_location_lines_split(ps, i, l);
    let (a, b) = lemma_group_split(ps, ls, k);
    let new = display_text(p.new_text@, 200);
    let change = match p.original_text {
        Some(o) => "~~"@ + display_text(o@, 80) + "~~ -> "@ + new,
        None => new,
    };
    let source = source_text(p);
    let line = "- **[["@ + l + "](#)]** "@ + change + source + "\n"@;
    assert(patch_line(p) =~= line);
    if let Some(o) = p.original_text {
        if o@.len() > 80 {
            assert(change =~= "~~"@ + o@.take(80) + "..."@ + "~~ -> "@ + new);
        }
    }
    let front = PATCHED_MARK@ + original + "\n"@ + "## Transcript Additions\n\n"@ + a;
    let tail = if pa.conflicts@.len() == 0 {
        Seq::empty()
    } else {
        "## Conflicts / Needs Review\n\n"@ + conflict_lines(pa.conflicts@) + "\n"@
    };
    assert(patched(original, pa) =~= front + "### "@ + l + "\n\n"@ + location_lines(ps.take(i), l)
        + line + location_lines(ps.skip(i + 1), l) + "\n"@ + (b + tail));
    (front, b + tail)
}

/// The lines of conflicts, split around one of them.
proof fn lemma_conflict_lines_split(cs: Seq<String>, i: int)
    requires
        0 <= i < cs.len(),
    ensures
        conflict_lines(cs) == conflict_lines(cs.take(i)) + "- "@ + cs[i]@ + "\n"@ + conflict_lines(
            cs.skip(i + 1),
        ),
    decreases cs.len(),
{
    if i == cs.len() - 1 {
        assert(cs.take(i) =~= cs.drop_last());
        assert(cs.skip(i + 1) =~= Seq::empty());
    } else {
        lemma_conflict_lines_split(cs.drop_last(), i);
        assert(cs.drop_last().take(i) =~= cs.take(i));
        assert(cs.skip(i + 1).drop_last() =~= cs.drop_last().skip(i + 1));
        assert(cs.skip(i + 1).last() == cs.last());
    }
    assert(conflict_lines(cs) =~= conflict_lines(cs.take(i)) + "- "@ + cs[i]@ + "\n"@
        + conflict_lines(cs.skip(i + 1)));
}

/// Conflicts change nothing of what stands before them, and without any nothing
/// follows the additions; every conflict has a line, in their order, under a heading at
/// the end.
pub proof fn law_conflicts_are_listed(original: Seq<char>, pa: PatchArtifact, pb: PatchArtifact, i: int)
    requires
        pb.patches == pa.patches,
        pb.conflicts@.len() == 0,
        0 <= i < pa.conflicts@.len(),
    ensures
        patched(original, pa) == patched(original, pb) + "## Conflicts / Needs Review\n\n"@
            + conflict_lines(pa.conflicts@.take(i)) + "- "@ + pa.conflicts@[i]@ + "\n"@
            + conflict_lines(pa.conflicts@.skip(i + 1)) + "\n"@,
        pa.patches@.len() == 0 ==> patched(original, pb) == "<!-- Patched by lecture-distill -->\n\n"@
            + original + "\n"@,
        conflict_lines(Seq::empty()) == Seq::<char>::empty(),
{
    lemma_conflict_lines_split(pa.conflicts@, i);
    assert(patched(original, pa) =~= patched(original, pb) + "## Conflicts / Needs Review\n\n"@
        + conflict_lines(pa.conflicts@.take(i)) + "- "@ + pa.conflicts@[i]@ + "\n"@
        + conflict_lines(pa.conflicts@.skip(i + 1)) + "\n"@);
}

proof fn lemma_add_terms_distinct(terms: Seq<Seq<char>>, new: Seq<Seq<char>>)
    requires
        terms.no_duplicates(),
    ensures
        add_terms(terms, new).no_duplicates(),
    decreases new.len(),
{
    if new.len() > 0 {
        lemma_add_terms_distinct(terms, new.drop_last());
    }
}

proof fn lemma_segment_terms_distinct(terms: Seq<Seq<char>>, segments: Seq<TranscriptSegment>)
    requires
        terms.no_duplicates(),
    ensures
        segment_terms(terms, segments).no_duplicates(),
    decreases segments.len(),
{
    if segments.len() > 0 {
        lemma_segment_terms_distinct(terms, segments.drop_last());
        lemma_add_terms_distinct(
            segment_terms(terms, segments.drop_last()),
            marked_terms(segments.last().text@),
        );
    }
}

/// A term that several transcripts mark is collected once.
pub proof fn law_terms_are_collected_once(ts: Seq<TranscriptArtifact>)
    ensures
        transcript_terms(ts).no_duplicates(),
    decreases ts.len(),
{
    if ts.len() > 0 {
        law_terms_are_collected_once(ts.drop_last());
        lemma_segment_terms_distinct(transcript_terms(ts.drop_last()), ts.last().segments@);
    }
}

/// No term that the notes already hold is added, and every other term is.
pub proof fn law_only_missing_terms(content: Seq<char>, terms: Seq<Seq<char>>, t: Seq<char>)
    ensures
        missing_terms(content, terms).contains(t) <==> terms.contains(t) && !has_term(content, t),
    decreases terms.len(),
{
    if terms.len() > 0 {
        let before = terms.drop_last();
        law_only_missing_terms(content, before, t);
        let out = missing_terms(content, terms);
        if terms.contains(t) {
            let k = choose|k: int| 0 <= k < terms.len() && terms[k] == t;
            if k < before.len() {
                assert(before[k] == t);
            }
        }
        if before.contains(t) {
            let k = choose|k: int| 0 <= k < before.len() && before[k] == t;
            assert(terms[k] == t);
        }
        if !has_term(content, terms.last()) {
            let m = missing_terms(content, before);
            assert(out[out.len() - 1] == terms.last());
            if m.contains(t) {
                let k = choose|k: int| 0 <= k < m.len() && m[k] == t;
                assert(out[k] == t);
            }
            if out.contains(t) {
                let k = choose|k: int| 0 <= k < out.len() && out[k] == t;
                if k < m.len() {
                    assert(m[k] == t);
                }
            }
        }
        assert(terms[terms.len() - 1] == terms.last());
    }
}

/// What adding terms does: those that there were and the new ones are there.
proof fn lemma_add_terms_contains(terms: Seq<Seq<char>>, new: Seq<Seq<char>>, t: Seq<char>)
    ensures
        add_terms(terms, new).contains(t) <==> terms.contains(t) || new.contains(t),
    decreases new.len(),
{
    if new.len() > 0 {
        let rest = new.drop_last();
        lemma_add_terms_contains(terms, rest, t);
        lemma_add_terms_contains(terms, rest, new.last());
        let before = add_terms(terms, rest);
        let after = add_terms(terms, new);
        assert(new[new.len() - 1] == new.last());
        if rest.contains(t) {
            let k = choose|k: int| 0 <= k < rest.len() && rest[k] == t;
            assert(new[k] == t);
        }
        if new.contains(t) {
            let k = choose|k: int| 0 <= k < new.len() && new[k] == t;
            if k < rest.len() {
                assert(rest[k] == t);
            }
        }
        if !before.contains(new.last()) {
            assert(after[after.len() - 1] == new.last());
            if before.contains(t) {
                let k = choose|k: int| 0 <= k < before.len() && before[k] == t;
                assert(after[k] == t);
            }
            if after.contains(t) {
                let k = choose|k: int| 0 <= k < after.len() && after[k] == t;
                if k < before.len() {
                    assert(before[k] == t);
                }
            }
        }
    }
}

proof fn lemma_segment_terms_contains(
    terms: Seq<Seq<char>>,
    segments: Seq<TranscriptSegment>,
    t: Seq<char>,
)
    ensures
        segment_terms(terms, segments).contains(t) <==> terms.contains(t) || exists|k: int|
            0 <= k < segments.len() && #[trigger] marked_terms(segments[k].text@).contains(t),
    decreases segments.len(),
{
    if segments.len() > 0 {
        let before = segments.drop_last();
        lemma_segment_terms_contains(terms, before, t);
        lemma_add_terms_contains(
            segment_terms(terms, before),
            marked_terms(segments.last().text@),
            t,
        );
        assert(segments[segments.len() - 1] == segments.last());
        if exists|k: int|
            0 <= k < before.len() && #[trigger] marked_terms(before[k].text@).contains(t) {
            let k = choose|k: int|
                0 <= k < before.len() && #[trigger] marked_terms(before[k].text@).contains(t);
            assert(marked_terms(segments[k].text@).contains(t));
        }
        if exists|k: int|
            0 <= k < segments.len() && #[trigger] marked_terms(segments[k].text@).contains(t) {
            let k = choose|k: int|
                0 <= k < segments.len() && #[trigger] marked_terms(segments[k].text@).contains(t);
            if k < before.len() {
                assert(marked_terms(before[k].text@).contains(t));
            }
        }
    }
}

/// The terms of the transcripts are those that some segment of some transcript marks,
/// and no others.
pub proof fn law_every_marked_term_is_collected(ts: Seq<TranscriptArtifact>, t: Seq<char>)
    ensures
        transcript_terms(ts).contains(t) <==> exists|i: int, k: int|
            0 <= i < ts.len() && 0 <= k < ts[i].segments@.len() && #[trigger] marked_terms(
                ts[i].segments@[k].text@,
            ).contains(t),
    decreases ts.len(),
{
    if ts.len() > 0 {
        let before = ts.drop_last();
        law_every_marked_term_is_collected(before, t);
        lemma_segment_terms_contains(transcript_terms(before), ts.last().segments@, t);
        assert(ts[ts.len() - 1] == ts.last());
        if transcript_terms(before).contains(t) {
            let (i, k) = choose|i: int, k: int|
                0 <= i < before.len() && 0 <= k < before[i].segments@.len()
                    && #[trigger] marked_terms(before[i].segments@[k].text@).contains(t);
            assert(marked_terms(ts[i].segments@[k].text@).contains(t));
        }
        if exists|k: int|
            0 <= k < ts.last().segments@.len() && #[trigger] marked_terms(
                ts.last().segments@[k].text@,
            ).contains(t) {
            let k = choose|k: int|
                0 <= k < ts.last().segments@.len() && #[trigger] marked_terms(
                    ts.last().segments@[k].text@,
                ).contains(t);
            assert(marked_terms(ts[ts.len() - 1].segments@[k].text@).contains(t));
        }
        if exists|i: int, k: int|
            0 <= i < ts.len() && 0 <= k < ts[i].segments@.len() && #[trigger] marked_terms(
                ts[i].segments@[k].text@,
            ).contains(t) {
            let (i, k) = choose|i: int, k: int|
                0 <= i < ts.len() && 0 <= k < ts[i].segments@.len() && #[trigger] marked_terms(
                    ts[i].segments@[k].text@,
                ).contains(t);
            if i < before.len() {
                assert(marked_terms(before[i].segments@[k].text@).contains(t));
            }
        }
    } else {
        assert(!transcript_terms(ts).contains(t));
    }
}

/// A term of a segment is what it quotes, what it has bold or what it has as code.
pub proof fn law_marked_terms(text: Seq<char>, t: Seq<char>)
    ensures
        marked_terms(text).contains(t) <==> group_texts(all_matches("\"([^\"]+)\""@, text), 1).contains(
            t,
        ) || group_texts(all_matches(r"\*\*([^*]+)\*\*"@, text), 1).contains(t) || group_texts(
            all_matches(r"`([^`]+)`"@, text),
            1,
        ).contains(t),
{
    let a = group_texts(all_matches("\"([^\"]+)\""@, text), 1);
    let b = group_texts(all_matches(r"\*\*([^*]+)\*\*"@, text), 1);
    let c = group_texts(all_matches(r"`([^`]+)`"@, text), 1);
    let all = marked_terms(text);
    assert(all =~= a + b + c);
    if a.contains(t) {
        let k = choose|k: int| 0 <= k < a.len() && a[k] == t;
        assert(all[k] == t);
    }
    if b.contains(t) {
        let k = choose|k: int| 0 <= k < b.len() && b[k] == t;
        assert(all[a.len() + k] == t);
    }
    if c.contains(t) {
        let k = choose|k: int| 0 <= k < c.len() && c[k] == t;
        assert(all[a.len() + b.len() + k] == t);
    }
    if all.contains(t) {
        let k = choose|k: int| 0 <= k < all.len() && all[k] == t;
        if k < a.len() {
            assert(a[k] == t);
        } else if k < a.len() + b.len() {
            assert(b[k - a.len()] == t);
        } else {
            assert(c[k - a.len() - b.len()] == t);
        }
    }
}

/// A group of matches gives its text from every match in which it took part, and the
/// order is that of the matches.
pub proof fn law_groups_in_order(ms: Seq<FoundView>, more: Seq<FoundView>, i: int)
    ensures
        group_texts(ms + more, i) == group_texts(ms, i) + group_texts(more, i),
        more.len() == 1 ==> group_texts(more, i) == match group(more[0].1, i) {
            Some(t) => seq![t],
            None => Seq::empty(),
        },
    decreases more.len(),
{
    if more.len() == 0 {
        assert(ms + more =~= ms);
        assert(group_texts(ms, i) + group_texts(more, i) =~= group_texts(ms, i));
    } else {
        assert((ms + more).drop_last() =~= ms + more.drop_last());
        law_groups_in_order(ms, more.drop_last(), i);
        if let Some(t) = group(more.last().1, i) {
            assert((group_texts(ms, i) + group_texts(more.drop_last(), i)).push(t) =~= group_texts(
                ms,
                i,
            ) + group_texts(more.drop_last(), i).push(t));
        }
        if more.len() == 1 {
            assert(more.drop_last() =~= Seq::empty());
            assert(more.last() == more[0]);
            if let Some(t) = group(more[0].1, i) {
                assert(group_texts(more, i) =~= seq![t]);
            }
        }
    }
}

/// Every item of a reply that has a location and a new text becomes a patch with them,
/// in the order of the items, and no other item does.
pub proof fn law_items_become_patches(items: Seq<JsonView>, n: int)
    requires
        0 < n <= items.len(),
    ensures
        ({
            let item = items[n - 1];
            let location = given_text(item, "location"@);
            let new_text = given_text(item, "new_text"@);
            if location is Some && new_text is Some {
                &&& item_patches(items, n).len() == item_patches(items, n - 1).len() + 1
                &&& item_patches(items, n).drop_last() == item_patches(items, n - 1)
                &&& item_patches(items, n).last().location == location->0
                &&& item_patches(items, n).last().new_text == new_text->0
                &&& item_patches(items, n).last().original_text == given_text(
                    item,
                    "original_text"@,
                )
                &&& item_patches(items, n).last().source_video_id == given_text(
                    item,
                    "source_video_id"@,
                )
                &&& item_patches(items, n).last().source_timestamp == number_in(
                    crate::json::member(item, "source_timestamp"@),
                )
            } else {
                item_patches(items, n) == item_patches(items, n - 1)
            }
        }),
        item_patches(items, 0).len() == 0,
{
    let item = items[n - 1];
    if let Some(p) = item_patch(item) {
        assert(item_patches(items, n - 1).push(p).drop_last() =~= item_patches(items, n - 1));
    }
}

/// The levels that a reply can name.
pub proof fn law_levels_are_named(item: JsonView)
    ensures
        named_level(item) == KeepLevel::MustKeep <==> crate::json::member(item, "keep_level"@)
            == Some(JsonView::Text("must_keep"@)),
        named_level(item) == KeepLevel::Drop <==> crate::json::member(item, "keep_level"@) == Some(
            JsonView::Text("drop"@),
        ),
{
    reveal_strlit("must_keep");
    reveal_strlit("drop");
    assert("must_keep"@.len() != "drop"@.len());
}

/// What the language model is asked holds the notes and every transcript, whole where
/// they are not too long for a request.
pub proof fn law_prompt_holds_notes_and_transcripts(note: Seq<char>, ts: Seq<TranscriptArtifact>, i: int)
    requires
        0 <= i < ts.len(),
    ensures
        note.len() <= 15000 ==> crate::text::starts_with_of(
            patch_user_prompt(note, ts),
            "## Current Lecture Notes\n\n"@ + note + "\n\n## Video Transcripts\n\n"@,
        ),
        join_of(transcript_texts(ts), "\n\n---\n\n"@).len() <= 30000 ==> contains_of(
            patch_user_prompt(note, ts),
            join_of(transcript_lines(ts[i]), "\n"@),
        ),
        transcript_lines(ts[i]).len() == ts[i].segments@.len() + 1,
        transcript_lines(ts[i])[0] == "## Video: "@ + ts[i].video_title@ + " ("@ + ts[i].video_id@
            + ")"@,
        forall|k: int|
            0 <= k < ts[i].segments@.len() ==> #[trigger] transcript_lines(ts[i])[k + 1] == "["@
                + shown(ts[i].segments@[k].start_time@, false) + "s] "@ + ts[i].segments@[k].text@,
{
    let lead = "## Current Lecture Notes\n\n"@ + first_chars(note, 15000)
        + "\n\n## Video Transcripts\n\n"@;
    let joined = join_of(transcript_texts(ts), "\n\n---\n\n"@);
    let prompt = patch_user_prompt(note, ts);
    assert(prompt.subrange(0, lead.len() as int) =~= lead);
    if joined.len() <= 30000 {
        let none: Seq<char> = Seq::empty();
        crate::processors::context::lemma_part_is_found(transcript_texts(ts), "\n\n---\n\n"@, i);
        assert(prompt =~= lead + joined + none);
        crate::text::lemma_found_within(lead, joined, none, join_of(transcript_lines(ts[i]), "\n"@));
    }
    assert forall|k: int| 0 <= k < ts[i].segments@.len() implies #[trigger] transcript_lines(
        ts[i],
    )[k + 1] == "["@ + shown(ts[i].segments@[k].start_time@, false) + "s] "@
        + ts[i].segments@[k].text@ by {}
}

/// Of the items of a list the texts are taken, in their order, and nothing else.
pub proof fn law_texts_of_a_list(items: Seq<JsonView>, item: JsonView)
    ensures
        item matches JsonView::Text(s) ==> item_texts(items.push(item), items.len() as int + 1)
            == item_texts(items, items.len() as int).push(s),
        !(item is Text) ==> item_texts(items.push(item), items.len() as int + 1) == item_texts(
            items,
            items.len() as int,
        ),
        item_texts(items, 0).len() == 0,
{
    lemma_item_texts_agree(items, items.push(item), items.len() as int);
}

/// The texts of the first items depend on them alone.
proof fn lemma_item_texts_agree(items: Seq<JsonView>, more: Seq<JsonView>, n: int)
    requires
        0 <= n <= items.len() <= more.len(),
        forall|i: int| 0 <= i < items.len() ==> items[i] == more[i],
    ensures
        item_texts(items, n) == item_texts(more, n),
    decreases n,
{
    if n > 0 {
        lemma_item_texts_agree(items, more, n - 1);
    }
}

/// Every transcript is named by its course and its video, in the order of the
/// transcripts.
pub proof fn law_transcripts_are_named(ts: Seq<TranscriptArtifact>, i: int)
    requires
        0 <= i < ts.len(),
    ensures
        transcript_names(ts).len() == ts.len(),
        transcript_names(ts)[i] == ts[i].course_id@ + "/"@ + ts[i].video_id@,
{
}

/// A text is given where the member is a text and not empty.
pub proof fn law_empty_texts_are_none(v: JsonView, key: Seq<char>, s: Seq<char>)
    ensures
        crate::json::member(v, key) == Some(JsonView::Text(s)) ==> given_text(v, key) == (if s
            == Seq::<char>::empty() {
            None
        } else {
            Some(s)
        }),
        crate::json::member(v, key) is None ==> given_text(v, key) is None,
{
    assert(s.len() == 0 ==> s =~= Seq::<char>::empty());
}

} // verus!
