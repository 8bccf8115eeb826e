//! The templates of a cheat sheet, and how full its pages are.

use vstd::prelude::*;

use crate::text::{contains, contains_of, opt_view, replace, replace_of};

verus! {

/// Embedded default LaTeX template (fallback when no template file is found).
/// A compact four-column portrait A4 cheat sheet template.
pub const DEFAULT_TEMPLATE: &'static str = r#"% !TEX program = xelatex
\documentclass[a4paper]{article}
\usepackage{iftex}
\ifPDFTeX
  \errmessage{The default lecture-distill cheat-sheet template requires XeLaTeX or latexmk -xelatex for Chinese text}
\fi
\usepackage[no-math]{fontspec}
\usepackage{xeCJK}
\usepackage[a4paper,left=0.5mm,right=0.5mm,top=0.5mm,bottom=0.5mm,noheadfoot]{geometry}
\usepackage{xcolor}
\usepackage{multicol}
\usepackage{titlesec}
\usepackage{enumitem}
\usepackage{amsmath,amssymb,mathtools}
\usepackage{array,booktabs,tabularx}

\IfFontExistsTF{Arial}{\setmainfont{Arial}}{\setmainfont{Latin Modern Roman}}
\IfFontExistsTF{Microsoft YaHei}{\setCJKmainfont{Microsoft YaHei}}{%
  \IfFontExistsTF{SimSun}{\setCJKmainfont{SimSun}}{\setCJKmainfont{Noto Sans CJK SC}}%
}
\defaultfontfeatures{Ligatures=TeX}
\xeCJKsetup{CJKmath=true,CheckSingle=true,PunctStyle=kaiming}

\definecolor{CheatTitleBlue}{HTML}{004D80}
\definecolor{CheatAccentBlue}{HTML}{0076BA}
\definecolor{CheatDividerGray}{HTML}{808080}

\setlength{\columnsep}{2mm}
\setlength{\columnseprule}{0pt}
\setlength{\parindent}{0pt}
\setlength{\parskip}{0pt}
\setlength{\topskip}{0pt}
\pagestyle{empty}
\raggedright
\emergencystretch=1em

\makeatletter
\renewcommand\normalsize{\@setfontsize\normalsize{5pt}{6pt}}
\makeatother
\normalsize

\titleformat{\section}{\color{CheatTitleBlue}\fontsize{7pt}{7.5pt}\selectfont\bfseries}{}{0pt}{}
\titleformat{\subsection}{\color{CheatTitleBlue}\fontsize{6pt}{6.5pt}\selectfont\bfseries}{}{0pt}{}
\titleformat{\subsubsection}{\color{CheatAccentBlue}\fontsize{5.5pt}{6pt}\selectfont\bfseries}{}{0pt}{}
\titleformat{\paragraph}[runin]{\color{CheatAccentBlue}\fontsize{5pt}{6pt}\selectfont\bfseries}{}{0pt}{}
\titlespacing*{\section}{0pt}{1.2pt}{0.6pt}
\titlespacing*{\subsection}{0pt}{0.9pt}{0.4pt}
\titlespacing*{\subsubsection}{0pt}{0.6pt}{0.3pt}
\titlespacing*{\paragraph}{0pt}{0.5pt}{0.4em}
\setcounter{secnumdepth}{0}

\setlist[itemize]{leftmargin=0.85em,label={-},labelsep=0.25em,itemsep=0pt,topsep=0pt,parsep=0pt,partopsep=0pt}
\setlist[enumerate]{leftmargin=1.1em,labelsep=0.25em,itemsep=0pt,topsep=0pt,parsep=0pt,partopsep=0pt}
\setlength{\abovedisplayskip}{1pt plus 0.5pt minus 0.5pt}
\setlength{\belowdisplayskip}{1pt plus 0.5pt minus 0.5pt}
\setlength{\abovedisplayshortskip}{0.5pt plus 0.5pt}
\setlength{\belowdisplayshortskip}{0.5pt plus 0.5pt}
\allowdisplaybreaks

\newcommand{\divider}{\par\vspace{1pt}{\color{CheatDividerGray}\hrule height 0.4pt width \linewidth}\vspace{1pt}}
\newenvironment{cheatsheet}{\begin{multicols*}{4}\raggedcolumns\normalsize}{\end{multicols*}}

\begin{document}
\begin{cheatsheet}
{{content}}
\end{cheatsheet}
\end{document}
"#;

/// Embedded default Typst template (preferred PDF renderer).
pub const DEFAULT_TYPST_TEMPLATE: &'static str = r##"#set page(
  paper: "a4",
  margin: (x: 0.5mm, y: 0.5mm),
)
#set text(
  font: ("Microsoft YaHei", "SimSun", "Noto Sans CJK SC", "Arial", "New Computer Modern"),
  size: 5pt,
  lang: "zh",
)
#set par(
  leading: 0pt,
  spacing: 0pt,
  first-line-indent: 0pt,
  justify: false,
)
#show heading: set block(above: 0.8pt, below: 0.4pt)
#show heading.where(level: 1): set text(fill: rgb("#004D80"), size: 7pt, weight: "bold")
#show heading.where(level: 2): set text(fill: rgb("#004D80"), size: 6pt, weight: "bold")
#show heading.where(level: 3): set text(fill: rgb("#0076BA"), size: 5.5pt, weight: "bold")
#show list: set block(spacing: 0pt)
#show enum: set block(spacing: 0pt)

#columns(4, gutter: 2mm)[
{{content}}
#metadata("lecture-distill-end-marker")
]
"##;

/// What the content takes the place of in a template.
pub const PLACEHOLDER: &'static str = "{{content}}";

/// The LaTeX template: the text of the template file, or the default where there
/// is no such file.
pub fn resolve_template(file: Option<String>) -> (r: String)
    ensures
        r@ == match file {
            Some(t) => t@,
            None => DEFAULT_TEMPLATE@,
        },
{
    match file {
        Some(t) => t,
        None => DEFAULT_TEMPLATE.to_owned(),
    }
}

/// The Typst template: the text of the template file where that is a Typst file,
/// or the default. LaTeX templates are ignored so Typst can safely fall back to
/// its default.
pub fn resolve_typst_template(typst_file: Option<String>) -> (r: String)
    ensures
        r@ == match typst_file {
            Some(t) => t@,
            None => DEFAULT_TYPST_TEMPLATE@,
        },
{
    match typst_file {
        Some(t) => t,
        None => DEFAULT_TYPST_TEMPLATE.to_owned(),
    }
}

/// What is wrong with a pair of templates.
pub open spec fn template_fault(latex: Seq<char>, typst: Seq<char>) -> Option<Seq<char>> {
    if !contains_of(latex, PLACEHOLDER@) {
        Some("LaTeX template does not contain the required {content} placeholder"@)
    } else if !contains_of(typst, PLACEHOLDER@) {
        Some("Typst template does not contain the required {content} placeholder"@)
    } else {
        None
    }
}

/// Check that both templates hold the placeholder of the content.
pub fn check_templates(latex: &str, typst: &str) -> (r: Option<String>)
    ensures
        opt_view(r) == template_fault(latex@, typst@),
{
    if !contains(latex, PLACEHOLDER) {
        Some("LaTeX template does not contain the required {content} placeholder".to_owned())
    } else if !contains(typst, PLACEHOLDER) {
        Some("Typst template does not contain the required {content} placeholder".to_owned())
    } else {
        None
    }
}

/// A template with the content in its place.
pub open spec fn filled(template: Seq<char>, content: Seq<char>) -> Seq<char> {
    replace_of(template, PLACEHOLDER@, content)
}

/// A template with the content in its place.
pub fn fill_template(template: &str, content: &str) -> (r: String)
    ensures
        r@ == replace_of(template@, PLACEHOLDER@, content@),
        r@ == filled(template@, content@),
{
    proof {
        reveal_strlit("{{content}}");
    }
    replace(template, PLACEHOLDER, content)
}

/// A template with the gap between columns, the size of the text and the space
/// round headings replaced.
pub open spec fn retuned(
    base: Seq<char>,
    gutter: Seq<char>,
    size: Seq<char>,
    block: Seq<char>,
) -> Seq<char> {
    replace_of(
        replace_of(
            replace_of(base, "gutter: 2mm"@, gutter),
            "size: 5pt,\n  lang:"@,
            size,
        ),
        "set block(above: 0.8pt, below: 0.4pt)"@,
        block,
    )
}

/// A template at a level of tightening.
pub open spec fn tightened(base: Seq<char>, level: int) -> Seq<char> {
    if level == 1 {
        retuned(
            base,
            "gutter: 1.2mm"@,
            "size: 4.8pt,\n  lang:"@,
            "set block(above: 0.5pt, below: 0.2pt)"@,
        )
    } else if level == 2 {
        retuned(
            base,
            "gutter: 0.8mm"@,
            "size: 4.5pt,\n  lang:"@,
            "set block(above: 0.3pt, below: 0.1pt)"@,
        )
    } else {
        base
    }
}

/// Replace the gap between columns, the size of the text and the space round
/// headings.
fn retune(base: &str, gutter: &str, size: &str, block: &str) -> (r: String)
    ensures
        r@ == retuned(base@, gutter@, size@, block@),
{
    proof {
        reveal_strlit("gutter: 2mm");
        reveal_strlit("size: 5pt,\n  lang:");
        reveal_strlit("set block(above: 0.8pt, below: 0.4pt)");
    }
    let a = replace(base, "gutter: 2mm", gutter);
    let b = replace(a.as_str(), "size: 5pt,\n  lang:", size);
    replace(b.as_str(), "set block(above: 0.8pt, below: 0.4pt)", block)
}

/// Generate a tighter variant of the default Typst template by tweaking
/// layout parameters.
///
/// * `level` 1 — mild tightening (gutter 1.2mm, body 4.8pt, tighter heading spacing)
/// * `level` 2 — aggressive tightening (gutter 0.8mm, body 4.5pt, very tight headings)
pub fn generate_tighter_typst_template(base: &str, level: usize) -> (r: String)
    ensures
        r@ == tightened(base@, level as int),
{
    if level == 1 {
        retune(
            base,
            "gutter: 1.2mm",
            "size: 4.8pt,\n  lang:",
            "set block(above: 0.5pt, below: 0.2pt)",
        )
    } else if level == 2 {
        retune(
            base,
            "gutter: 0.8mm",
            "size: 4.5pt,\n  lang:",
            "set block(above: 0.3pt, below: 0.1pt)",
        )
    } else {
        base.to_owned()
    }
}

// ---------------------------------------------------------------------------
// How full the pages are
// ---------------------------------------------------------------------------

/// How full the pages are, as far as their number tells.
#[derive(Debug)]
pub struct SpaceEstimate {
    /// The number of pages with content.
    pub content_pages: usize,
    /// The number of pages that there may be.
    pub max_pages: usize,
    /// Where there are too many pages: how many there are to how many there may be.
    pub overflow_ratio: Option<(usize, usize)>,
    /// How full each page is, in percent.
    pub page_percents: Vec<u64>,
    /// Whether there is room for more.
    pub last_page_under_utilized: bool,
    /// How full the last page is, in percent.
    pub last_page_percent: u64,
}

/// How full page `p` of `n` is, in percent, where the page limit is `max`.
pub open spec fn page_percent(p: int, n: int, max: int) -> u64 {
    if n > max && (p < n || n == 1) {
        100
    } else {
        95
    }
}

/// Fallback space utilisation estimate from the number of pages alone.
pub fn estimate_space_utilization_from_pages(page_count: usize, max_pages: usize) -> (r:
    SpaceEstimate)
    ensures
        r.content_pages == page_count,
        r.max_pages == max_pages,
        r.overflow_ratio == if page_count > max_pages {
            Some((page_count, if max_pages == 0 {
                1
            } else {
                max_pages
            }))
        } else {
            None
        },
        r.page_percents@ == Seq::new(
            page_count as nat,
            |i: int| page_percent(i + 1, page_count as int, max_pages as int),
        ),
        r.last_page_under_utilized == (page_count < max_pages),
        r.last_page_percent == if page_count > max_pages {
            100u64
        } else {
            95
        },
{
    let last: u64 = if page_count > max_pages {
        100
    } else {
        95
    };
    let mut percents: Vec<u64> = Vec::new();
    let mut p: usize = 0;
    while p < page_count
        invariant
            p <= page_count,
            last == if page_count > max_pages {
                100u64
            } else {
                95
            },
            percents@ == Seq::new(
                p as nat,
                |i: int| page_percent(i + 1, page_count as int, max_pages as int),
            ),
        decreases page_count - p,
    {
        let percent: u64 = if p + 1 < page_count || page_count == 1 {
            last
        } else {
            95
        };
        percents.push(percent);
        p += 1;
        assert(percents@ =~= Seq::new(
            p as nat,
            |i: int| page_percent(i + 1, page_count as int, max_pages as int),
        ));
    }
    SpaceEstimate {
        content_pages: page_count,
        max_pages,
        overflow_ratio: if page_count > max_pages {
            Some(
                (
                    page_count,
                    if max_pages == 0 {
                        1
                    } else {
                        max_pages
                    },
                ),
            )
        } else {
            None
        },
        page_percents: percents,
        last_page_under_utilized: page_count < max_pages,
        last_page_percent: last,
    }
}

/// Whether an overflow is small enough for a tighter layout to help: less than
/// a quarter of what there may be.
pub fn is_marginal(overflow: (usize, usize)) -> (r: bool)
    ensures
        r == (overflow.0 * 4 < overflow.1 * 5),
{
    (overflow.0 as u128) * 4 < (overflow.1 as u128) * 5
}

/// The content takes the place of the first mark that a template has for it, whole and
/// as it is; what stands before stays, and what stands behind is filled in the same way.
/// A template that passes has such a mark.
pub proof fn law_content_takes_its_place(
    before: Seq<char>,
    after: Seq<char>,
    content: Seq<char>,
    latex: Seq<char>,
    typst: Seq<char>,
)
    requires
        forall|i: int|
            0 <= i < before.len() ==> !#[trigger] crate::text::matches_at(
                before + "{{content}}"@ + after,
                "{{content}}"@,
                i,
            ),
    ensures
        filled(before + "{{content}}"@ + after, content) == before + content + filled(
            after,
            content,
        ),
        !contains_of(after, "{{content}}"@) ==> filled(after, content) == after,
        template_fault(latex, typst) is None <==> contains_of(latex, "{{content}}"@)
            && contains_of(typst, "{{content}}"@),
{
    reveal_strlit("{{content}}");
    crate::text::law_replaced_in_place(before, "{{content}}"@, after, content);
    if !contains_of(after, "{{content}}"@) {
        crate::text::law_nothing_to_replace(after, "{{content}}"@, content);
    }
}

/// A tighter layout narrows the gap between the columns and nothing else, in a template
/// that sets nothing else of what it changes; and the tighter of the two narrows it
/// more. Any other level changes nothing.
pub proof fn law_layouts_narrow_the_gap(before: Seq<char>, after: Seq<char>, level: int)
    requires
        forall|i: int|
            0 <= i < before.len() ==> !#[trigger] crate::text::matches_at(
                before + "gutter: 2mm"@ + after,
                "gutter: 2mm"@,
                i,
            ),
        !contains_of(after, "gutter: 2mm"@),
        !contains_of(before + "gutter: 1.2mm"@ + after, "size: 5pt,\n  lang:"@),
        !contains_of(before + "gutter: 0.8mm"@ + after, "size: 5pt,\n  lang:"@),
        !contains_of(
            before + "gutter: 1.2mm"@ + after,
            "set block(above: 0.8pt, below: 0.4pt)"@,
        ),
        !contains_of(
            before + "gutter: 0.8mm"@ + after,
            "set block(above: 0.8pt, below: 0.4pt)"@,
        ),
    ensures
        tightened(before + "gutter: 2mm"@ + after, 1) == before + "gutter: 1.2mm"@ + after,
        tightened(before + "gutter: 2mm"@ + after, 2) == before + "gutter: 0.8mm"@ + after,
        level != 1 && level != 2 ==> tightened(before + "gutter: 2mm"@ + after, level) == before
            + "gutter: 2mm"@ + after,
{
    let from = "gutter: 2mm"@;
    let size = "size: 5pt,\n  lang:"@;
    let block = "set block(above: 0.8pt, below: 0.4pt)"@;
    reveal_strlit("gutter: 2mm");
    reveal_strlit("size: 5pt,\n  lang:");
    reveal_strlit("set block(above: 0.8pt, below: 0.4pt)");
    let a = before + "gutter: 1.2mm"@ + after;
    let b = before + "gutter: 0.8mm"@ + after;
    crate::text::law_replaced_in_place(before, from, after, "gutter: 1.2mm"@);
    crate::text::law_replaced_in_place(before, from, after, "gutter: 0.8mm"@);
    crate::text::law_nothing_to_replace(after, from, "gutter: 1.2mm"@);
    crate::text::law_nothing_to_replace(after, from, "gutter: 0.8mm"@);
    crate::text::law_nothing_to_replace(a, size, "size: 4.8pt,\n  lang:"@);
    crate::text::law_nothing_to_replace(b, size, "size: 4.5pt,\n  lang:"@);
    crate::text::law_nothing_to_replace(a, block, "set block(above: 0.5pt, below: 0.2pt)"@);
    crate::text::law_nothing_to_replace(b, block, "set block(above: 0.3pt, below: 0.1pt)"@);
}

/// Before the last of too many pages all are full, and so is a single one that is too
/// many; any other is nearly full.
pub proof fn law_pages_before_the_last_are_full(p: int, n: int, max: int)
    requires
        1 <= p <= n,
    ensures
        n <= max ==> page_percent(p, n, max) == 95,
        n > max && p < n ==> page_percent(p, n, max) == 100,
        n > max && n == 1 ==> page_percent(p, n, max) == 100,
        n > max && p == n && n > 1 ==> page_percent(p, n, max) == 95,
{
}

} // verus!
