//! The events of a Markdown document, as the parser gives them.

use vstd::prelude::*;

use pulldown_cmark::{Event, Options, Parser};

use crate::json::same_text;
use crate::text::{starts_with, starts_with_of, strip_prefix, strip_prefix_of};

verus! {

/// The events of a document: what each is called, and its text.
pub uninterp spec fn events_of(text: Seq<char>) -> Seq<(Seq<char>, Seq<char>)>;

/// Several events.
pub open spec fn events_view(es: Seq<(String, String)>) -> Seq<(Seq<char>, Seq<char>)> {
    es.map_values(|e: (String, String)| (e.0@, e.1@))
}

/// `pulldown_cmark::Parser::new_ext`, with math, struck text, tables and
/// footnotes: the events of a document, in order. A start or an end is called
/// `Start` or `End` with the debug form of its `pulldown_cmark::TagEnd` behind it;
/// texts, code and formulas are called by their variant and have their text; any
/// other event is called by its debug form. What they are is left to the crate; the
/// contract says that the document determines them.
#[verifier::external_body]
pub(crate) fn parse_events(text: &str) -> (r: Vec<(String, String)>)
    ensures
        events_view(r@) == events_of(text@),
{
    let on = Options::ENABLE_MATH | Options::ENABLE_STRIKETHROUGH | Options::ENABLE_TABLES
        | Options::ENABLE_FOOTNOTES;
    let event = |e: Event| match e {
        Event::Start(t) => (format!("Start {:?}", t.to_end()), String::new()),
        Event::End(t) => (format!("End {:?}", t), String::new()),
        Event::Text(t) => ("Text".to_string(), t.to_string()),
        Event::Code(t) => ("Code".to_string(), t.to_string()),
        Event::InlineMath(t) => ("InlineMath".to_string(), t.to_string()),
        Event::DisplayMath(t) => ("DisplayMath".to_string(), t.to_string()),
        other => (format!("{:?}", other), String::new()),
    };
    Parser::new_ext(text, on).map(event).collect()
}

/// What a part of a document is.
#[derive(Debug, Clone, Copy, PartialEq, Eq, Structural)]
pub enum MdTag {
    /// A paragraph.
    Paragraph,
    /// A heading of a level.
    Heading(usize),
    /// A list; whether it is ordered.
    List(bool),
    /// An item of a list.
    Item,
    /// Strong text.
    Strong,
    /// Text with emphasis.
    Emphasis,
    /// Struck text.
    Strikethrough,
    /// A part that is left out: code, a quotation, an image, a footnote or a table.
    Skipped,
    /// Anything else.
    Other,
}

/// What an event is.
#[derive(Debug, Clone, Copy, PartialEq, Eq, Structural)]
pub enum MdKind {
    /// A part starts.
    Start(MdTag),
    /// A part ends.
    End(MdTag),
    /// Text.
    Text,
    /// Inline code.
    Code,
    /// A formula; whether it stands on its own.
    Math(bool),
    /// A line break that means nothing.
    SoftBreak,
    /// A line break.
    HardBreak,
    /// A divider.
    Rule,
    /// Anything else.
    Other,
}

/// The part of a name.
pub open spec fn tag_of(name: Seq<char>) -> MdTag {
    if name == "Paragraph"@ {
        MdTag::Paragraph
    } else if name == "Heading(H1)"@ {
        MdTag::Heading(1)
    } else if name == "Heading(H2)"@ {
        MdTag::Heading(2)
    } else if name == "Heading(H3)"@ {
        MdTag::Heading(3)
    } else if name == "Heading(H4)"@ {
        MdTag::Heading(4)
    } else if name == "Heading(H5)"@ {
        MdTag::Heading(5)
    } else if name == "Heading(H6)"@ {
        MdTag::Heading(6)
    } else if name == "List(true)"@ {
        MdTag::List(true)
    } else if name == "List(false)"@ {
        MdTag::List(false)
    } else if name == "Item"@ {
        MdTag::Item
    } else if name == "Strong"@ {
        MdTag::Strong
    } else if name == "Emphasis"@ {
        MdTag::Emphasis
    } else if name == "Strikethrough"@ {
        MdTag::Strikethrough
    } else if name == "CodeBlock"@ || starts_with_of(name, "BlockQuote("@) || name == "Image"@
        || name == "FootnoteDefinition"@ || name == "Table"@ {
        MdTag::Skipped
    } else {
        MdTag::Other
    }
}

/// The part of a name.
pub fn tag_named(name: &str) -> (r: MdTag)
    ensures
        r == tag_of(name@),
{
    if same_text(name, "Paragraph") {
        MdTag::Paragraph
    } else if same_text(name, "Heading(H1)") {
        MdTag::Heading(1)
    } else if same_text(name, "Heading(H2)") {
        MdTag::Heading(2)
    } else if same_text(name, "Heading(H3)") {
        MdTag::Heading(3)
    } else if same_text(name, "Heading(H4)") {
        MdTag::Heading(4)
    } else if same_text(name, "Heading(H5)") {
        MdTag::Heading(5)
    } else if same_text(name, "Heading(H6)") {
        MdTag::Heading(6)
    } else if same_text(name, "List(true)") {
        MdTag::List(true)
    } else if same_text(name, "List(false)") {
        MdTag::List(false)
    } else if same_text(name, "Item") {
        MdTag::Item
    } else if same_text(name, "Strong") {
        MdTag::Strong
    } else if same_text(name, "Emphasis") {
        MdTag::Emphasis
    } else if same_text(name, "Strikethrough") {
        MdTag::Strikethrough
    } else if same_text(name, "CodeBlock") || starts_with(name, "BlockQuote(") || same_text(
        name,
        "Image",
    ) || same_text(name, "FootnoteDefinition") || same_text(name, "Table") {
        MdTag::Skipped
    } else {
        MdTag::Other
    }
}

/// What an event of a name is.
pub open spec fn kind_of(name: Seq<char>) -> MdKind {
    if let Some(rest) = strip_prefix_of(name, "Start "@) {
        MdKind::Start(tag_of(rest))
    } else if let Some(rest) = strip_prefix_of(name, "End "@) {
        MdKind::End(tag_of(rest))
    } else if name == "Text"@ {
        MdKind::Text
    } else if name == "Code"@ {
        MdKind::Code
    } else if name == "InlineMath"@ {
        MdKind::Math(false)
    } else if name == "DisplayMath"@ {
        MdKind::Math(true)
    } else if name == "SoftBreak"@ {
        MdKind::SoftBreak
    } else if name == "HardBreak"@ {
        MdKind::HardBreak
    } else if name == "Rule"@ {
        MdKind::Rule
    } else {
        MdKind::Other
    }
}

/// What an event of a name is.
pub fn kind_named(name: &str) -> (r: MdKind)
    ensures
        r == kind_of(name@),
{
    if let Some(rest) = strip_prefix(name, "Start ") {
        MdKind::Start(tag_named(rest.as_str()))
    } else if let Some(rest) = strip_prefix(name, "End ") {
        MdKind::End(tag_named(rest.as_str()))
    } else if same_text(name, "Text") {
        MdKind::Text
    } else if same_text(name, "Code") {
        MdKind::Code
    } else if same_text(name, "InlineMath") {
        MdKind::Math(false)
    } else if same_text(name, "DisplayMath") {
        MdKind::Math(true)
    } else if same_text(name, "SoftBreak") {
        MdKind::SoftBreak
    } else if same_text(name, "HardBreak") {
        MdKind::HardBreak
    } else if same_text(name, "Rule") {
        MdKind::Rule
    } else {
        MdKind::Other
    }
}

/// Events are told apart by their names: a start and an end by what starts or ends, and
/// the others by what they are.
pub proof fn law_events_by_name(part: Seq<char>)
    ensures
        kind_of("Start "@ + part) == MdKind::Start(tag_of(part)),
        kind_of("End "@ + part) == MdKind::End(tag_of(part)),
        kind_of("Text"@) == MdKind::Text,
        kind_of("Code"@) == MdKind::Code,
        kind_of("InlineMath"@) == MdKind::Math(false),
        kind_of("DisplayMath"@) == MdKind::Math(true),
        kind_of("SoftBreak"@) == MdKind::SoftBreak,
        kind_of("HardBreak"@) == MdKind::HardBreak,
        kind_of("Rule"@) == MdKind::Rule,
{
    reveal_strlit("Start ");
    reveal_strlit("End ");
    reveal_strlit("Text");
    reveal_strlit("Code");
    reveal_strlit("InlineMath");
    reveal_strlit("DisplayMath");
    reveal_strlit("SoftBreak");
    reveal_strlit("HardBreak");
    reveal_strlit("Rule");
    let start = "Start "@ + part;
    let end = "End "@ + part;
    assert(start.subrange(0, 6) =~= "Start "@);
    assert(start.skip(6) =~= part);
    assert(end.subrange(0, 4) =~= "End "@);
    assert(end.skip(4) =~= part);
    if starts_with_of(end, "Start "@) {
        assert(end.subrange(0, 6)[0] == 'S');
        assert(end[0] == 'E');
    }
    assert("SoftBreak"@.subrange(0, 6)[1] == 'o');
    assert("Start "@[1] == 't' && "End "@[0] == 'E');
    assert("InlineMath"@.subrange(0, 6)[0] == 'I' && "InlineMath"@.subrange(0, 4)[0] == 'I');
    assert("DisplayMath"@.subrange(0, 6)[0] == 'D' && "DisplayMath"@.subrange(0, 4)[0] == 'D');
    assert("SoftBreak"@.subrange(0, 4)[0] == 'S');
    assert("HardBreak"@.subrange(0, 6)[0] == 'H' && "HardBreak"@.subrange(0, 4)[0] == 'H');
    assert("Text"@.subrange(0, 4)[0] == 'T');
    assert("Code"@.subrange(0, 4)[0] == 'C');
    assert("Rule"@.subrange(0, 4)[0] == 'R');
    assert("Text"@[0] == 'T' && "Code"@[0] == 'C' && "Rule"@[0] == 'R');
    assert("SoftBreak"@[0] == 'S' && "HardBreak"@[0] == 'H');
    assert("InlineMath"@.len() == 10 && "DisplayMath"@.len() == 11);
}

/// The parts of a document by their names. Of those that are left out none is shown.
pub proof fn law_parts_by_name()
    ensures
        tag_of("Paragraph"@) == MdTag::Paragraph,
        tag_of("Heading(H1)"@) == MdTag::Heading(1),
        tag_of("Heading(H2)"@) == MdTag::Heading(2),
        tag_of("Heading(H3)"@) == MdTag::Heading(3),
        tag_of("Heading(H4)"@) == MdTag::Heading(4),
        tag_of("Heading(H5)"@) == MdTag::Heading(5),
        tag_of("Heading(H6)"@) == MdTag::Heading(6),
        tag_of("List(true)"@) == MdTag::List(true),
        tag_of("List(false)"@) == MdTag::List(false),
        tag_of("Item"@) == MdTag::Item,
        tag_of("Strong"@) == MdTag::Strong,
        tag_of("Emphasis"@) == MdTag::Emphasis,
        tag_of("Strikethrough"@) == MdTag::Strikethrough,
        tag_of("CodeBlock"@) == MdTag::Skipped,
        tag_of("Image"@) == MdTag::Skipped,
        tag_of("FootnoteDefinition"@) == MdTag::Skipped,
        tag_of("Table"@) == MdTag::Skipped,
{
    reveal_strlit("Paragraph");
    reveal_strlit("Heading(H1)");
    reveal_strlit("Heading(H2)");
    reveal_strlit("Heading(H3)");
    reveal_strlit("Heading(H4)");
    reveal_strlit("Heading(H5)");
    reveal_strlit("Heading(H6)");
    reveal_strlit("List(true)");
    reveal_strlit("List(false)");
    reveal_strlit("Item");
    reveal_strlit("Strong");
    reveal_strlit("Emphasis");
    reveal_strlit("Strikethrough");
    reveal_strlit("CodeBlock");
    reveal_strlit("Image");
    reveal_strlit("FootnoteDefinition");
    reveal_strlit("Table");
    assert("Paragraph"@.len() == 9 && "Paragraph"@[0] == 'P');
    assert("Heading(H1)"@.len() == 11 && "Heading(H1)"@[9] == '1');
    assert("Heading(H2)"@.len() == 11 && "Heading(H2)"@[9] == '2');
    assert("Heading(H3)"@.len() == 11 && "Heading(H3)"@[9] == '3');
    assert("Heading(H4)"@.len() == 11 && "Heading(H4)"@[9] == '4');
    assert("Heading(H5)"@.len() == 11 && "Heading(H5)"@[9] == '5');
    assert("Heading(H6)"@.len() == 11 && "Heading(H6)"@[9] == '6');
    assert("List(true)"@.len() == 10);
    assert("List(false)"@.len() == 11 && "List(false)"@[9] == 'e');
    assert("Item"@.len() == 4 && "Strong"@.len() == 6 && "Emphasis"@.len() == 8);
    assert("Strikethrough"@.len() == 13 && "FootnoteDefinition"@.len() == 18);
    assert("CodeBlock"@.len() == 9 && "CodeBlock"@[0] == 'C');
    assert("Image"@.len() == 5 && "Table"@.len() == 5);
}

} // verus!
