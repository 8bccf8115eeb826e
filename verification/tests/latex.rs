use lecture_distill::latex::compress::{
    collapse_blank_lines, remove_h2_sections, take_char_fraction, truncate_all_h2_sections,
};
use lecture_distill::latex::escape::{escape_latex_plain, escape_typst_plain};
use lecture_distill::latex::layout::{
    check_templates, estimate_space_utilization_from_pages, fill_template,
    generate_tighter_typst_template, is_marginal, resolve_template, resolve_typst_template,
};
use lecture_distill::latex::render::{RenderEvent, RenderJob, RenderRun, RenderStep};
use lecture_distill::latex::space::{
    compute_space_utilization, marginal_overflow, parse_typst_length, run_typst_query,
    try_compute_space_utilization, TypstElement, PAGE_HEIGHT,
};
use lecture_distill::latex::to_latex::{push_prose_by, ListState};
use lecture_distill::latex::to_typst::{
    inline_to_typst_at, mark_bold_at, mark_italics_at, push_line_by,
};
use lecture_distill::latex::symbols::translate_latex_math_to_typst;
use lecture_distill::latex::tools::{
    configured_typst_path, latex_args, latex_compiler, latex_fault, path_for_tex, runs_again,
    typst_fault, works_in_place, LatexCompiler,
};
use lecture_distill::latex::{
    compress_content, escape_latex, find_latex_compiler, find_pdf_renderer, find_typst_compiler,
    markdown_to_latex, markdown_to_typst, DEFAULT_TEMPLATE, DEFAULT_TYPST_TEMPLATE,
};

#[test]
fn escape_latex_special_chars() {
    let input = "Price: 50% off - A & B #1 with _underscore_ {braces} ~tilde^caret";
    let escaped = escape_latex(input);
    // LaTeX escape sequences should be present.
    assert!(escaped.contains(r"\&"));
    assert!(escaped.contains(r"\%"));
    assert!(escaped.contains(r"\#"));
    assert!(escaped.contains(r"\_"));
    assert!(escaped.contains(r"\{"));
    assert!(escaped.contains(r"\}"));
    assert!(escaped.contains(r"\textasciitilde{}"));
    assert!(escaped.contains(r"\^{}"));
    // Raw special chars should NOT appear unescaped:
    // - Unescaped & (not preceded by \) - # and _ follow the same logic.
    //   Simple proxy: the string must differ from the original.
    assert_ne!(escaped, input);
}

#[test]
fn escape_latex_preserves_math_mode() {
    let math = "$E = mc^2$ and $a_b$";
    let escaped = escape_latex(math);
    // Math mode text must be returned verbatim.
    assert_eq!(escaped, math);
}

#[test]
fn escape_latex_preserves_latex_commands() {
    let cmd = r"\textbf{bold} and \textit{italic}";
    let escaped = escape_latex(cmd);
    assert_eq!(escaped, cmd);
}

#[test]
fn escape_latex_backslash_handling() {
    let input = r"a\b";
    let escaped = escape_latex(input);
    assert!(escaped.contains(r"\textbackslash{}"));
}

#[test]
fn markdown_to_latex_headings() {
    let md = "# Title\n## Section\n### Sub\n#### Deep";
    let latex = markdown_to_latex(md);
    assert!(latex.contains(r"\section*{Title}"));
    assert!(latex.contains(r"\subsection*{Section}"));
    assert!(latex.contains(r"\subsubsection*{Sub}"));
    assert!(latex.contains(r"\paragraph*{Deep}"));
}

#[test]
fn markdown_to_latex_unordered_list() {
    let md = "- item one\n- item two\n- item three";
    let latex = markdown_to_latex(md);
    assert!(latex.contains(r"\begin{itemize}"));
    assert!(latex.contains(r"\end{itemize}"));
    assert!(latex.contains(r"\item item one"));
    assert!(latex.contains(r"\item item two"));
    assert!(latex.contains(r"\item item three"));
}

#[test]
fn markdown_to_latex_ordered_list_dot() {
    let md = "1. first\n2. second\n3. third";
    let latex = markdown_to_latex(md);
    assert!(latex.contains(r"\begin{enumerate}"));
    assert!(latex.contains(r"\end{enumerate}"));
    assert!(latex.contains(r"\item first"));
    assert!(latex.contains(r"\item second"));
}

#[test]
fn markdown_to_latex_ordered_list_paren() {
    let md = "1) alpha\n2) beta";
    let latex = markdown_to_latex(md);
    assert!(latex.contains(r"\begin{enumerate}"));
    assert!(latex.contains(r"\item alpha"));
    assert!(latex.contains(r"\item beta"));
}

#[test]
fn markdown_to_latex_list_closes_on_blank_line() {
    let md = "- a\n- b\n\nplain text\n- c";
    let latex = markdown_to_latex(md);
    // Should have two separate itemize blocks.
    let first_close = latex.find(r"\end{itemize}").unwrap();
    let second_begin = latex[first_close..].find(r"\begin{itemize}");
    assert!(
        second_begin.is_some(),
        "expected second itemize block after blank line"
    );
    assert!(latex.contains("plain text"));
}

#[test]
fn markdown_to_latex_switches_list_type() {
    let md = "- bullet\n\n1. numbered";
    let latex = markdown_to_latex(md);
    assert!(latex.contains(r"\begin{itemize}"));
    assert!(latex.contains(r"\end{itemize}"));
    assert!(latex.contains(r"\begin{enumerate}"));
    assert!(latex.contains(r"\end{enumerate}"));
}

#[test]
fn markdown_to_latex_bold_italic() {
    let md = "**bold** and *italic* text";
    let latex = markdown_to_latex(md);
    assert!(latex.contains(r"\textbf{bold}"));
    assert!(latex.contains(r"\textit{italic}"));
}

#[test]
fn markdown_to_latex_inline_code() {
    let md = "use `foo()` function";
    let latex = markdown_to_latex(md);
    assert!(latex.contains(r"\texttt{foo()}"));
}

#[test]
fn markdown_to_latex_html_comments_skipped() {
    let md = "<!-- this is a comment -->\nvisible text";
    let latex = markdown_to_latex(md);
    assert!(!latex.contains("comment"));
    assert!(latex.contains("visible text"));
}

#[test]
fn markdown_to_latex_blockquote_skipped() {
    let md = "> quoted text\nvisible text";
    let latex = markdown_to_latex(md);
    assert!(!latex.contains("quoted text"));
    assert!(latex.contains("visible text"));
}

#[test]
fn markdown_to_latex_math_block_passthrough() {
    let md = "$$\nE = mc^2\n$$\nplain text";
    let latex = markdown_to_latex(md);
    assert!(latex.contains("$$"));
    assert!(latex.contains("E = mc^2"));
    assert!(latex.contains("plain text"));
}

#[test]
fn compress_content_attempt1_removes_blank_lines() {
    let input = "line one\n\n\n\nline two\n\n\nline three";
    let output = compress_content(input, 1);
    // Should collapse runs of 3+ blank lines to 2.
    let triple_newline = output.contains("\n\n\n");
    assert!(!triple_newline, "should not have triple newlines");
    assert!(output.contains("line one"));
    assert!(output.contains("line two"));
    assert!(output.contains("line three"));
}

#[test]
fn compress_content_attempt2_removes_supporting_section() {
    let input = "\
# Title
intro text

## Key Concepts (Must Know)
- concept A
- concept B

## Supporting Concepts (Understand)
- support B
- support C

## Content Summary
content here
";
    let output = compress_content(input, 2);
    // Still removes "Supporting Concepts" sections (Ref Digest optimisation).
    assert!(output.contains("Key Concepts"));
    assert!(!output.contains("Supporting Concepts"));
    assert!(!output.contains("support B"));
    assert!(output.contains("Content Summary"));
    // Other sections survive (proportional truncation preserves all non-dropped h2s).
}

#[test]
fn compress_content_attempt3_preserves_all_h2_sections() {
    // Use a longer input so proportional truncation visibly reduces output.
    let concept_a = "- concept A detail\n".repeat(20);
    let support_b = "- support detail\n".repeat(15);
    let content = "content paragraph.\n".repeat(18);
    let extra = "more content here.\n".repeat(12);
    let input = format!(
        "# Title\nintro text\n\n## Key Concepts (Must Know)\n{}\n## Supporting Concepts (Understand)\n{}\n## Content Summary\n{}\n## Additional Topic\n{}\n",
        concept_a, support_b, content, extra
    );
    let output = compress_content(&input, 3);
    // All h2 sections survive — proportional truncation, no hard cutoff.
    assert!(output.contains("Key Concepts"));
    assert!(output.contains("Supporting Concepts"));
    assert!(output.contains("Content Summary"));
    assert!(output.contains("Additional Topic"));
    // Output should be meaningfully shorter than input (truncated to ~40 %,
    // but 200‑char per‑section floor limits shrinkage for short inputs).
    assert!(
        output.len() <= input.len() * 8 / 10,
        "expected output <= 80 % of input (got {} vs {} chars)",
        output.len(),
        input.len()
    );
}

#[test]
fn compress_content_attempt3_no_h2_headings_falls_back_to_take_char_fraction() {
    // Content without any "\n## " headings → falls back to global proportional truncation.
    let input = "# Title\n\nSome content without expected sections.\nMore content here.";
    let output = compress_content(input, 3);
    // Fallback: take_char_fraction(content, 2, 5) — roughly 40 % of chars.
    assert!(!output.is_empty());
    assert!(output.len() <= input.len());
    assert!(output.contains("Title"));
}

#[test]
fn compress_content_attempt3_is_utf8_safe() {
    let input =
        "# 信号与系统 大作业速查\n\n同步解调误差分析需要考虑相位差、频偏差和低通滤波器带宽。";
    let output = compress_content(input, 3);
    assert!(!output.is_empty());
    assert!(output.is_char_boundary(output.len()));
    assert!(output.contains("信号"));
}

#[test]
fn markdown_to_latex_mixed_list_types() {
    let md = "\
## My Section

- bullet A
- bullet B

Some text

1. step one
2. step two

More text

- bullet C
";
    let latex = markdown_to_latex(md);
    // Should have two itemize blocks and one enumerate block.
    let itemize_count = latex.matches(r"\begin{itemize}").count();
    let enumerate_count = latex.matches(r"\begin{enumerate}").count();
    assert_eq!(itemize_count, 2, "expected two itemize blocks");
    assert_eq!(enumerate_count, 1, "expected one enumerate block");
    assert!(latex.contains(r"\subsection*{My Section}"));
    assert!(latex.contains("Some text"));
    assert!(latex.contains("More text"));
}

#[test]
fn markdown_to_latex_asterisk_list_not_italic() {
    // Lines starting with "* " are list items, not italic text.
    let md = "* list item";
    let latex = markdown_to_latex(md);
    assert!(latex.contains(r"\item list item"));
    assert!(!latex.contains(r"\textit{"));
}

#[test]
fn tighter_template_level_1_changes_gutter() {
    let result = generate_tighter_typst_template(DEFAULT_TYPST_TEMPLATE, 1);
    assert!(!result.contains("gutter: 2mm"));
    assert!(result.contains("gutter: 1.2mm"));
    // Body font should shrink.
    assert!(result.contains("size: 4.8pt"));
    assert!(!result.contains("size: 5pt,\n  lang:"));
    // Heading spacing should tighten.
    assert!(!result.contains("set block(above: 0.8pt, below: 0.4pt)"));
    assert!(result.contains("set block(above: 0.5pt, below: 0.2pt)"));
}

#[test]
fn tighter_template_level_2_changes_gutter_more() {
    let result = generate_tighter_typst_template(DEFAULT_TYPST_TEMPLATE, 2);
    assert!(result.contains("gutter: 0.8mm"));
    assert!(result.contains("size: 4.5pt"));
    assert!(result.contains("set block(above: 0.3pt, below: 0.1pt)"));
}

#[test]
fn tighter_template_level_0_is_noop() {
    let result = generate_tighter_typst_template(DEFAULT_TYPST_TEMPLATE, 0);
    assert_eq!(result, DEFAULT_TYPST_TEMPLATE);
}

#[test]
fn find_latex_compiler_returns_something() {
    let compiler = find_latex_compiler(false, &[]);
    assert_eq!(compiler, "");
    let runnable = vec!["pdflatex".to_string(), "tectonic".to_string()];
    assert_eq!(find_latex_compiler(false, &runnable), "tectonic");
    let runnable = vec!["xelatex.exe".to_string()];
    assert_eq!(find_latex_compiler(true, &runnable), "xelatex");
}

#[test]
fn resolve_template_returns_default_when_none() {
    let result = resolve_template(None);
    assert!(result.contains("{{content}}"));
    assert!(result.contains(r"\documentclass"));
}

#[test]
fn resolve_template_returns_default_when_file_missing() {
    let missing: Option<String> = None;
    let result = resolve_template(missing);
    assert!(result.contains("{{content}}"));
}

#[test]
fn resolve_template_reads_file_when_present() {
    let custom = r"\documentclass{article}\begin{document}{{content}}\end{document}";
    let result = resolve_template(Some(custom.to_string()));
    assert_eq!(result, custom);
}

fn mm(length: &str) -> f64 {
    parse_typst_length(length).unwrap() as f64 / 1_000_000.0
}

#[test]
fn parse_typst_length_mm() {
    assert!((mm("10.2mm") - 10.2).abs() < 0.001);
    assert!((mm("0mm") - 0.0).abs() < 0.001);
    assert!((mm("  5mm ") - 5.0).abs() < 0.001);
}

#[test]
fn parse_typst_length_pt() {
    assert!((mm("5pt") - 1.764).abs() < 0.01);
}

#[test]
fn parse_typst_length_cm() {
    assert!((mm("1.5cm") - 15.0).abs() < 0.001);
}

#[test]
fn parse_typst_length_in() {
    assert!((mm("1in") - 25.4).abs() < 0.001);
}

#[test]
fn parse_typst_length_no_unit_assumes_mm() {
    assert!((mm("42.0") - 42.0).abs() < 0.001);
}

#[test]
fn lengths_can_be_negative() {
    assert_eq!(parse_typst_length("-5mm"), Some(-5_000_000));
    assert_eq!(parse_typst_length(" -.5cm"), Some(-5_000_000));
    assert_eq!(parse_typst_length("-1in"), Some(-25_400_000));
    assert_eq!(parse_typst_length("-0"), Some(0));
    assert!(parse_typst_length("-").is_none());
    assert!(parse_typst_length("--5mm").is_none());
    assert!(parse_typst_length("5-3mm").is_none());
}

#[test]
fn parse_typst_length_empty_returns_none() {
    assert!(parse_typst_length("").is_none());
    assert!(parse_typst_length("   ").is_none());
}

fn element(page: usize, y_mm: f64) -> TypstElement {
    TypstElement {
        page,
        y: (y_mm * 1_000_000.0) as u64,
    }
}

fn percent(fill: u64) -> f64 {
    fill as f64 / PAGE_HEIGHT as f64 * 100.0
}

#[test]
fn compute_utilization_single_page_full() {
    let elements = vec![element(1, 50.0), element(1, 150.0), element(1, 280.0)];
    let su = compute_space_utilization(&elements, 1, 1);
    assert!(su.overflow.is_none());
    assert!(!su.last_page_under_utilized);
    assert!((percent(su.last_fill) - 94.27).abs() < 0.5);
}

#[test]
fn compute_utilization_last_page_under_utilized() {
    let elements = vec![element(1, 280.0), element(2, 30.0)];
    let su = compute_space_utilization(&elements, 2, 2);
    assert!(su.overflow.is_none());
    assert!(su.last_page_under_utilized);
    assert!(percent(su.last_fill) < 20.0);
}

#[test]
fn compute_utilization_overflow_ratio() {
    let elements = vec![element(1, 290.0), element(2, 285.0), element(3, 59.4)];
    let su = compute_space_utilization(&elements, 3, 2);
    assert!(su.overflow.is_some());
    let (used, allowed) = su.overflow.unwrap();
    let ratio = used as f64 / allowed as f64;
    assert!(ratio > 1.0);
    assert!(ratio < 1.25);
    assert!((su.content as f64 / PAGE_HEIGHT as f64 - 2.13).abs() < 0.2);
    assert!(marginal_overflow(&elements, 3, 2));
}

#[test]
fn compute_utilization_severe_overflow() {
    let elements = vec![element(1, 290.0), element(2, 290.0), element(3, 290.0)];
    let su = compute_space_utilization(&elements, 3, 2);
    let (used, allowed) = su.overflow.unwrap();
    let ratio = used as f64 / allowed as f64;
    assert!(ratio > 1.25);
    assert!(!marginal_overflow(&elements, 3, 2));
}

#[test]
fn pages_without_elements_are_taken_to_be_used() {
    let su = compute_space_utilization(&[element(2, 400.0)], 3, 3);
    assert_eq!(su.fills, vec![282_150_000, 297_000_000, 282_150_000]);
    assert_eq!(su.last_fill, 282_150_000);
    assert!(!su.last_page_under_utilized);
}

#[test]
fn elements_are_read_from_query_outputs() {
    let outputs = vec![
        None,
        Some("not json".to_string()),
        Some(r#"[{"func": "heading", "location": {"page": 2, "y": "1cm"}}, {}]"#.to_string()),
    ];
    let elements = run_typst_query(&outputs).unwrap();
    assert_eq!(elements.len(), 2);
    assert_eq!((elements[0].page, elements[0].y), (2, 10_000_000));
    assert_eq!((elements[1].page, elements[1].y), (1, 0));
    let error = run_typst_query(&[None]).unwrap_err();
    assert!(error.contains("no locatable elements"));
    assert!(error.contains(r#"["figure", "table", "heading", "enum", "list"]"#));
}

#[test]
fn estimates_go_by_the_number_of_pages() {
    let e = estimate_space_utilization_from_pages(3, 2);
    assert_eq!(e.overflow_ratio, Some((3, 2)));
    assert_eq!(e.page_percents, vec![100, 100, 95]);
    assert_eq!(e.last_page_percent, 100);
    assert!(!e.last_page_under_utilized);
    let e = estimate_space_utilization_from_pages(1, 2);
    assert_eq!(e.overflow_ratio, None);
    assert!(e.last_page_under_utilized);
    assert!(is_marginal((6, 5)));
    assert!(!is_marginal((5, 4)));
    assert!(!marginal_overflow(&[], 3, 2));
    assert!(marginal_overflow(&[], 6, 5));
}

#[test]
fn escapes_are_exact() {
    assert_eq!(escape_latex_plain("a_b"), r"a\_b");
    assert_eq!(escape_typst_plain("#x"), "\\#x");
    assert_eq!(escape_latex("plain words"), "plain words");
}

#[test]
fn compression_works_on_characters() {
    assert_eq!(take_char_fraction("αβγδε", 2, 5), "αβ");
    assert_eq!(take_char_fraction("abc", 1, 0), "");
    assert_eq!(collapse_blank_lines("a\n\n\n\n\nb"), "a\n\nb");
}

#[test]
fn removed_sections_are_gone() {
    let content = "# T\n## Keep\nx\n## Drop this\ny\n## Keep too\nz";
    assert_eq!(
        remove_h2_sections(content, &["Drop"]),
        "# T\n## Keep\nx\n## Keep too\nz"
    );
}

#[test]
fn truncated_sections_keep_their_headings() {
    let body = "word ".repeat(200);
    let content = format!("# T\n## One\n{}\n## Two\n{}", body, body);
    let cut = truncate_all_h2_sections(&content, 2, 5);
    assert_eq!(cut.matches("## One").count(), 1);
    assert_eq!(cut.matches("## Two").count(), 1);
    assert!(!cut.contains("## ## "));
    assert!(cut.len() < content.len());
}

#[test]
fn templates_need_a_place_for_content() {
    assert!(check_templates(DEFAULT_TEMPLATE, DEFAULT_TYPST_TEMPLATE).is_none());
    assert!(check_templates("", DEFAULT_TYPST_TEMPLATE).unwrap().starts_with("LaTeX template"));
    assert!(check_templates(DEFAULT_TEMPLATE, "").unwrap().starts_with("Typst template"));
    assert_eq!(fill_template("a{{content}}b{{content}}", "X"), "aXbX");
    assert_eq!(resolve_typst_template(None), DEFAULT_TYPST_TEMPLATE);
}

#[test]
fn math_commands_become_symbols() {
    assert_eq!(translate_latex_math_to_typst("no commands"), "no commands");
    assert!(!translate_latex_math_to_typst(r"\alpha + \beta").contains('\\'));
}

#[test]
fn code_blocks_are_left_out_of_typst() {
    let typst = markdown_to_typst("before\n```\nsecret\n```\nafter");
    assert!(typst.contains("before"));
    assert!(typst.contains("after"));
    assert!(!typst.contains("secret"));
}

#[test]
fn typst_is_found_by_setting_or_by_name() {
    assert_eq!(configured_typst_path(Some("  ".to_string())), None);
    assert_eq!(configured_typst_path(Some(" /t ".to_string())).as_deref(), Some("/t"));
    let runnable = vec!["typst".to_string()];
    assert_eq!(find_typst_compiler(None, false, &runnable), "typst");
    let runnable = vec!["/t".to_string(), "typst".to_string()];
    assert_eq!(find_typst_compiler(Some("/t".to_string()), false, &runnable), "/t");
    assert_eq!(find_typst_compiler(None, true, &[]), "");
    assert_eq!(find_pdf_renderer("typst", "xelatex"), "typst (typst)");
    assert_eq!(find_pdf_renderer("", "xelatex"), "latex (xelatex)");
    assert_eq!(find_pdf_renderer("", ""), "");
}

#[test]
fn latex_compilers_are_run_their_own_way() {
    assert_eq!(path_for_tex(r"a\b\c"), "a/b/c");
    assert!(matches!(latex_compiler("xelatex"), Ok(LatexCompiler::Xelatex)));
    assert_eq!(
        latex_compiler("word").unwrap_err(),
        "unknown LaTeX compiler: word"
    );
    assert!(works_in_place(LatexCompiler::Tectonic));
    assert!(runs_again(LatexCompiler::Xelatex, true));
    assert!(!runs_again(LatexCompiler::Latexmk, true));
    assert!(latex_args(LatexCompiler::Xelatex, r"d\x.tex", "d").contains(&"d/x.tex".to_string()));
    assert!(latex_fault(LatexCompiler::Xelatex, false, true, "1").is_none());
    assert!(latex_fault(LatexCompiler::Xelatex, true, false, "0")
        .unwrap()
        .contains("did not produce a PDF"));
    assert!(typst_fault(true, "1").is_none());
    assert_eq!(
        typst_fault(false, "exit status: 2").unwrap(),
        "typst did not produce a PDF file (exit status: exit status: 2)"
    );
}

fn render_job(typst: bool, latex: bool) -> RenderJob<String> {
    RenderJob {
        markdown: "# T\n\n## A\n\ntext".to_string(),
        latex_template: DEFAULT_TEMPLATE.to_string(),
        typst_template: DEFAULT_TYPST_TEMPLATE.to_string(),
        latex_label: "tex".to_string(),
        typst_label: "typ".to_string(),
        typst,
        latex,
        default_typst: true,
        max_pages: 2,
    }
}

#[test]
fn a_rendering_that_fits_is_kept() {
    let job = render_job(true, true);
    let mut run = RenderRun::new();
    assert!(matches!(run.step(&job, RenderEvent::Begin), RenderStep::CompileTypst(_)));
    match run.step(&job, RenderEvent::Compiled { pages: 2 }) {
        RenderStep::Finish { pages, template, attempt, .. } => {
            assert_eq!(pages, 2);
            assert_eq!(template, "typ");
            assert_eq!(attempt, 0);
        }
        other => panic!("unexpected step {:?}", other),
    }
}

#[test]
fn a_small_overflow_tightens_the_layout() {
    let job = render_job(true, false);
    let mut run = RenderRun::new();
    run.step(&job, RenderEvent::Begin);
    assert!(matches!(
        run.step(&job, RenderEvent::Compiled { pages: 3 }),
        RenderStep::Measure { pages: 3 }
    ));
    match run.step(&job, RenderEvent::Measured { marginal: true }) {
        RenderStep::CompileTypst(document) => assert!(document.contains("gutter: 1.2mm")),
        other => panic!("unexpected step {:?}", other),
    }
}

#[test]
fn without_a_compiler_there_is_no_rendering() {
    let job = render_job(false, false);
    let mut run = RenderRun::new();
    assert!(matches!(run.step(&job, RenderEvent::Begin), RenderStep::Fail(_)));
}

#[test]
fn render_pipeline_selects_native_converter() {
    let mut job = render_job(true, false);
    job.markdown = "# 信号\n\n- $\\begin{cases}0,&t<0\\\\1,&t\\ge0\\end{cases}$".to_string();
    job.max_pages = 3;
    let mut run = RenderRun::new();
    match run.step(&job, RenderEvent::Begin) {
        RenderStep::CompileTypst(generated) => {
            assert!(generated.contains("_mitex/specs/mod.typ"));
            assert!(generated.contains("mitex-eval"));
        }
        other => panic!("unexpected step {:?}", other),
    }
}

#[test]
fn math_on_one_line_is_closed() {
    assert_eq!(markdown_to_latex("$$x$$\n# T"), "$$x$$\n\\section*{T}\n");
    assert_eq!(markdown_to_latex("\\[ x \\]\n# T"), "\\[ x \\]\n\\section*{T}\n");
    assert_eq!(markdown_to_latex("$$\nx\n$$\n# T"), "$$\nx\n$$\n\\section*{T}\n");
}

#[test]
fn nothing_is_left_of_a_text_without_sections_at_zero() {
    assert_eq!(truncate_all_h2_sections("no sections", 1, 0), "");
}

fn groups(texts: &[&str]) -> Option<Vec<Option<String>>> {
    Some(texts.iter().map(|t| Some(t.to_string())).collect())
}

#[test]
fn lines_follow_what_matches_in_them() {
    let mut out = String::new();
    let list = push_prose_by(
        &mut out,
        ListState::Closed,
        "* one",
        &None,
        &groups(&["* one", "one"]),
        &None,
        &None,
    );
    assert_eq!(list, ListState::Itemize);
    assert_eq!(out, "\\begin{itemize}\n  \\item one\n");
    let heading = groups(&["## Two", "##", "Two"]);
    let list = push_prose_by(&mut out, list, "## Two", &heading, &None, &None, &None);
    assert_eq!(list, ListState::Closed);
    assert!(out.ends_with("\\end{itemize}\n\\subsection*{Two}\n"));

    let mut out = String::new();
    push_line_by(&mut out, "## Two", &heading, &None, &None);
    push_line_by(&mut out, "- a", &None, &groups(&["- a", "a"]), &None);
    push_line_by(&mut out, "1. b", &None, &None, &groups(&["1. b", "b"]));
    assert_eq!(out, "== Two\n- a\n+ b\n");
}

#[test]
fn passages_are_marked_where_they_were_found() {
    let bold = ((2, 7), groups(&["**b**", "b"]).unwrap());
    assert_eq!(mark_bold_at("a **b** c", &[bold]), "a *b* c");
    assert_eq!(mark_bold_at("a", &[]), "a");
    let italic = ((1, 5), groups(&[" *b*", " ", "b"]).unwrap());
    assert_eq!(mark_italics_at("a *b* c", &[italic]), "a _b_ c");
    let code = ((2, 5), groups(&["`b`", "b"]).unwrap());
    assert_eq!(inline_to_typst_at("a `b` c", &[code]), "a `b` c");
}

#[test]
fn pages_are_not_measured_where_the_query_fails() {
    assert!(try_compute_space_utilization(&[None, None], 2, 2).is_none());
    assert!(try_compute_space_utilization(&[Some("no JSON".to_string())], 2, 2).is_none());
    let found = r#"[{"page": 1, "x": "0pt", "y": "100mm"}]"#.to_string();
    let used = try_compute_space_utilization(&[None, Some(found.clone())], 2, 2).unwrap();
    let elements = run_typst_query(&[Some(found)]).unwrap();
    assert_eq!(used.fills, compute_space_utilization(&elements, 2, 2).fills);
    assert_eq!(used.fills.len(), 2);
}
