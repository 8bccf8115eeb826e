use lecture_distill::markdown_typst::delimiters::validate_math_delimiters;
use lecture_distill::markdown_typst::document::{
    events_to_typst, is_document_title, names_document, remove_document_title,
};
use lecture_distill::markdown_typst::math::{
    check_environments, is_convertible, to_ascii_lowercase, validate_converted_math, validate_environments,
    validate_formula, write_math, MAX_FORMULA_CHARS,
};
use lecture_distill::markdown_typst::strings::{
    escape_typst_string, escape_typst_text, excerpt,
};
use lecture_distill::markdown_typst::{markdown_to_typst, prepare_runtime, runtime_prelude};

#[test]
fn drops_document_title_and_normalizes_first_content_heading() {
    let result = markdown_to_typst("# 课程 Cheat Sheet\n\n## Signals\n### Fourier").unwrap();
    assert!(!result.contains("Cheat Sheet"));
    assert!(result.starts_with("= Signals"));
    assert!(result.contains("== Fourier"));
}

#[test]
fn renders_supported_document_elements_and_utf8() {
    let result = markdown_to_typst(
        "# 信号\n- **粗体**和*斜体*，`fft(x)`\n  1. 子项\n\n---\n\n行内 $x_1$。",
    )
    .unwrap();
    assert!(result.contains("= 信号"));
    assert!(result.contains("#strong[粗体]"));
    assert!(result.contains("#emph[斜体]"));
    assert!(result.contains("#raw(\"fft(x)\")"));
    assert!(result.contains("#line("));
    assert!(result.contains("#mitex-eval("));
}

#[test]
fn converts_formula_corpus() {
    let formulas = [
        r"\frac{a}{b}",
        r"\frac 1 T",
        r"\int_{-\infty}^{\infty}f(t)\,dt",
        r"\begin{cases}0,&t<0\\1,&t\ge0\end{cases}",
        r"\begin{bmatrix}a&b\\c&d\end{bmatrix}",
        r"\begin{aligned}x&=a+b\\y&=c+d\end{aligned}",
        r"\sqrt{x^2+y^2}",
        r"\text{Re}(s)>0",
        r"中文+ x_i^2",
        r"\lim_{x\to0}\frac{\sin x}{x}=1",
        r"ae^{-j\omega t}",
    ];
    for formula in formulas {
        let markdown = format!("${formula}$");
        assert!(markdown_to_typst(&markdown).is_ok(), "{formula}");
    }
}

#[test]
fn rejects_unsafe_or_malformed_math() {
    assert!(markdown_to_typst("$\0$").is_err());
    assert!(markdown_to_typst(r"$\frac{a}{b$").is_err());
    assert!(markdown_to_typst(r"$\begin{cases}x\end{matrix}$").is_err());
    assert!(markdown_to_typst(r"$\unknowncommand{x}$").is_err());
    assert!(markdown_to_typst("$x").is_err());
    let long = format!("${}$", "x".repeat(MAX_FORMULA_CHARS + 1));
    assert!(markdown_to_typst(&long).is_err());
}

#[test]
fn escapes_typst_injection_and_ignores_disallowed_blocks() {
    let result = markdown_to_typst(
        "Text #include \"secret.typ\"\n\n`$not_math$`\n\n```typst\n#read(\"secret\")\n```\n\n![alt](secret.png)",
    )
    .unwrap();
    assert!(result.contains(r"\#include"));
    assert!(!result.contains("#read("));
    assert!(!result.contains("secret.png"));
}

#[test]
fn runtime_writes_only_when_content_changes() {
    let contents = vec![vec![1u8, 2], vec![3u8]];
    assert_eq!(prepare_runtime(&[None, None], &contents), vec![0, 1]);
    let written = vec![Some(vec![1u8, 2]), Some(vec![3u8])];
    assert!(prepare_runtime(&written, &contents).is_empty());
    let changed = vec![Some(vec![1u8, 9]), Some(vec![3u8])];
    assert_eq!(prepare_runtime(&changed, &contents), vec![0]);
}

#[test]
fn the_prelude_imports_the_scope() {
    assert!(runtime_prelude().contains("_mitex/specs/mod.typ"));
}

#[test]
fn events_become_markup() {
    let events = [
        ("Start Paragraph", ""),
        ("Text", "a*b"),
        ("End Paragraph", ""),
        ("Start Strong", ""),
        ("Text", "c"),
        ("End Strong", ""),
    ];
    let events: Vec<(String, String)> = events
        .iter()
        .map(|(k, t)| (k.to_string(), t.to_string()))
        .collect();
    let typst = events_to_typst(&events).unwrap();
    assert!(typst.contains(r"a\*b"));
    assert!(typst.contains("#strong[c]"));
}

#[test]
fn titles_are_recognised_in_any_case() {
    assert!(is_document_title("  My CHEAT Sheet "));
    assert!(is_document_title("信号 速查"));
    assert!(!is_document_title("Signals"));
    assert!(names_document("a reference digest"));
    assert!(!names_document("A REFERENCE DIGEST"));
}

#[test]
fn only_the_first_title_goes() {
    let out = remove_document_title("# X Cheat Sheet\n\n# Y Cheat Sheet\ntext");
    assert!(!out.contains("# X Cheat Sheet"));
    assert!(out.contains("# Y Cheat Sheet"));
    let kept = remove_document_title("intro\n# X Cheat Sheet\n");
    assert!(kept.contains("# X Cheat Sheet"));
}

#[test]
fn formulas_are_checked_before_conversion() {
    assert!(validate_formula("x+y").is_none());
    assert!(validate_formula("}").is_some());
    assert!(validate_formula("{x").is_some());
    assert!(validate_formula(&"{".repeat(65)).is_some());
    assert!(validate_environments(r"\begin{cases}x\end{cases}").is_none());
    assert!(validate_environments(r"\begin{cases}x\end{matrix}").is_some());
    assert!(validate_environments(r"\end{cases}").is_some());
    assert!(is_convertible(r"\frac{a}{b}"));
    assert!(!is_convertible(r"\label"));
}

#[test]
fn converted_code_must_be_harmless() {
    assert!(validate_converted_math("frac(a, b)").is_none());
    assert!(validate_converted_math("#import \"x\"").is_some());
    assert_eq!(to_ascii_lowercase("AbÉ"), "abÉ");
}

#[test]
fn formulas_are_written_for_evaluation() {
    let inline = write_math(r"\frac{a}{b}", false).unwrap();
    assert!(inline.starts_with("#mitex-eval("));
    assert!(!inline.contains(r"\frac"));
    assert!(write_math(r"\label", false).is_err());
}

#[test]
fn strings_are_escaped() {
    assert_eq!(escape_typst_string("a\"b\\c\n"), "a\\\"b\\\\c\\n");
    assert_eq!(escape_typst_text("#x"), "\\#x");
    assert_eq!(excerpt("a\nb"), "a b");
    let long = "x".repeat(81);
    assert_eq!(excerpt(&long).chars().count(), 81);
    assert!(excerpt(&long).ends_with('…'));
}

#[test]
fn math_marks_come_in_pairs() {
    assert!(validate_math_delimiters("a $x$ b\n$$\ny\n$$").is_none());
    assert!(validate_math_delimiters("a $x b").is_some());
    assert!(validate_math_delimiters("$$\ny").is_some());
    assert!(validate_math_delimiters(r"costs 5\$ only").is_none());
}

#[test]
fn formulas_that_cannot_be_converted_are_refused() {
    // A comment in or before the name of an environment.
    assert!(!is_convertible("\\begin{a%\n%\n\u{3000}}x\\end{a%\n%\n\u{3000}}"));
    assert!(!is_convertible("\\begin%\n{a}x\\end{a}"));
    assert!(!is_convertible("\\begin{a}x\\end {a*%\n}"));
    assert!(is_convertible("\\begin{a} % a comment\n x\\end{a}"));
    // A script whose content would wrap what comes before it.
    assert!(!is_convertible(r"&^\over"));
    assert!(!is_convertible("x_ % none\n \\limits"));
    assert!(!is_convertible(r"x^\fi"));
    assert!(is_convertible(r"x^\overline{y}"));
    assert!(is_convertible(r"\sum\limits_{i} a \over b"));
    // Commands without their arguments.
    assert!(!is_convertible(r"\label"));
    assert!(!is_convertible(r"\label{\frac12}"));
    assert!(is_convertible(r"\labelled"));
    assert!(!is_convertible(r"\caption"));
    assert!(!is_convertible(r"\includegraphics[width=1"));
    assert!(!is_convertible(r"\begin{tabular}\end{tabular}"));
    // Macros.
    assert!(!is_convertible(r"\newcommand{\a}{\a\a}\a"));
}

#[test]
fn commands_with_their_arguments_are_converted() {
    for formula in [
        r"E = mc^2 \label{eq:mass_energy-1}",
        r"\caption{A figure}",
        r"\includegraphics[width=0.5\textwidth]{images/plot_1.png}",
        r"\begin{tabular}{c|c} a & b \\ c & d \end{tabular}",
        r"\text{a tabular form}",
        "x \\label{gleichung: größe (1)*}",
        r"a \iff b",
    ] {
        assert!(is_convertible(formula), "{}", formula);
        assert!(write_math(formula, false).is_ok(), "{}", formula);
    }
}

#[test]
fn deep_formulas_are_refused() {
    for part in ["^", "'", r"\hat", r"\left(", r"\displaystyle ", r"\begin{aligned}", r"\("] {
        let within = format!("x{}", part.repeat(100));
        assert!(is_convertible(&within), "{}", part);
        assert!(!is_convertible(&format!("x{}", part.repeat(130))), "{}", part);
        assert!(write_math(&format!("x{}", part.repeat(130)), true).is_err(), "{}", part);
    }
    // What was closed does not count, and neither do columns that have ended.
    for part in [
        "a_1+", r"\frac{a}{b}", r"\alpha\beta ", "x^{2}_{i}'+", r"\hat x + \bar{y}^2 ", "a_1,b_2,",
        r"\sum\limits_{i=1}^n a_i ", "[0,1]", r"\text{abc} ", r"\sqrt{x}+",
    ] {
        let long = part.repeat(400);
        assert!(is_convertible(&long), "{}", part);
        assert!(write_math(&long, false).is_ok(), "{}", part);
    }
    // Words are read one call within another.
    assert!(is_convertible(&"x".repeat(1024)));
    assert!(!is_convertible(&"x".repeat(1025)));
    assert!(!is_convertible(&format!("%{}\n", " x".repeat(600))));
    assert!(is_convertible(&r"{x^{2}\hat{y}}".repeat(500)));
    assert!(is_convertible(&r"\left(\frac{a}{b}\right)".repeat(120)));
    assert!(is_convertible(&format!(r"\begin{{matrix}}{}\end{{matrix}}", r"\frac{a}{b} & x^2 & ".repeat(300))));
    // A comma behind a script takes the words behind it into the script.
    assert!(!is_convertible(&"_,ab".repeat(130)));
    // A script on a group is as deep as the group and one more.
    let mut tower = "x".to_owned();
    for _ in 0..20 {
        tower = format!("{{{}}}''''''''", tower);
    }
    assert!(!is_convertible(&tower));
}

#[test]
fn environments_are_checked_by_their_starts_and_ends() {
    let found = |word: &str, name: &str| {
        ((0, 0), vec![None, Some(word.to_string()), Some(name.to_string())])
    };
    let formula = r"\begin{a}\end{a}";
    assert!(check_environments(formula, &[found("begin", "a"), found("end", "a")]).is_none());
    assert_eq!(
        check_environments(formula, &[found("begin", "a"), found("end", "b")]).unwrap(),
        "formula has a mismatched \\end{b}"
    );
    assert_eq!(
        check_environments(formula, &[found("begin", "a"), found("begin", "b")]).unwrap(),
        "formula is missing \\end{b}"
    );
    assert_eq!(
        check_environments(formula, &[]).unwrap(),
        "formula has a malformed \\begin or \\end command"
    );
}
