//! The programs that make a PDF: which there are, how they are called, and what
//! their results mean.

use vstd::prelude::*;

use crate::json::same_text;
use crate::text::{replace, replace_of, strip_suffix, strip_suffix_of, trim, trim_of, views};

verus! {

// ---------------------------------------------------------------------------
// Finding a program
// ---------------------------------------------------------------------------

/// The LaTeX compilers, in the order in which they are tried.
pub fn latex_candidates(windows: bool) -> (r: Vec<String>)
    ensures
        views(r@) == latex_names(windows),
{
    let mut out: Vec<String> = Vec::new();
    if windows {
        out.push("xelatex.exe".to_owned());
        out.push("latexmk.exe".to_owned());
        out.push("tectonic.exe".to_owned());
        out.push("pdflatex.exe".to_owned());
    }
    out.push("xelatex".to_owned());
    out.push("latexmk".to_owned());
    out.push("tectonic".to_owned());
    out.push("pdflatex".to_owned());
    assert(views(out@) =~= latex_names(windows));
    out
}

/// The LaTeX compilers, in the order in which they are tried. On Windows those
/// with an extension come first, and those without after them.
pub open spec fn latex_names(windows: bool) -> Seq<Seq<char>> {
    let plain = seq!["xelatex"@, "latexmk"@, "tectonic"@, "pdflatex"@];
    if windows {
        seq!["xelatex.exe"@, "latexmk.exe"@, "tectonic.exe"@, "pdflatex.exe"@] + plain
    } else {
        plain
    }
}

/// The Typst compilers, in the order in which they are tried.
pub open spec fn typst_names(windows: bool) -> Seq<Seq<char>> {
    if windows {
        seq!["typst.exe"@, "typst"@]
    } else {
        seq!["typst"@]
    }
}

/// The Typst compilers, in the order in which they are tried.
pub fn typst_candidates(windows: bool) -> (r: Vec<String>)
    ensures
        views(r@) == typst_names(windows),
{
    let mut out: Vec<String> = Vec::new();
    if windows {
        out.push("typst.exe".to_owned());
    }
    out.push("typst".to_owned());
    assert(views(out@) =~= typst_names(windows));
    out
}

/// The first of the names that can be run; nothing if none can.
pub open spec fn first_runnable(names: Seq<Seq<char>>, runnable: Seq<Seq<char>>) -> Option<Seq<char>>
    decreases names.len(),
{
    if names.len() == 0 {
        None
    } else if runnable.contains(names[0]) {
        Some(names[0])
    } else {
        first_runnable(names.skip(1), runnable)
    }
}

/// Whether a program is among those that can be run.
fn can_run(name: &str, runnable: &[String]) -> (r: bool)
    ensures
        r == views(runnable@).contains(name@),
{
    let mut i: usize = 0;
    while i < runnable.len()
        invariant
            i <= runnable@.len(),
            forall|j: int| 0 <= j < i ==> views(runnable@)[j] != name@,
        decreases runnable@.len() - i,
    {
        if same_text(runnable[i].as_str(), name) {
            assert(views(runnable@)[i as int] == name@);
            return true;
        }
        i += 1;
    }
    false
}

/// The first of the names that can be run; nothing if none can.
fn pick(names: &Vec<String>, runnable: &[String]) -> (r: Option<String>)
    ensures
        crate::text::opt_view(r) == first_runnable(views(names@), views(runnable@)),
{
    let ghost nv = views(names@);
    let mut i: usize = 0;
    assert(nv.skip(0) =~= nv);
    while i < names.len()
        invariant
            i <= names@.len(),
            nv == views(names@),
            first_runnable(nv, views(runnable@)) == first_runnable(
                nv.skip(i as int),
                views(runnable@),
            ),
        decreases names@.len() - i,
    {
        assert(nv.skip(i as int)[0] == names@[i as int]@);
        if can_run(names[i].as_str(), runnable) {
            return Some(names[i].clone());
        }
        assert(nv.skip(i as int).skip(1) =~= nv.skip(i + 1));
        i += 1;
    }
    None
}

/// Find an available LaTeX compiler.
///
/// Checks in order: `xelatex`, `latexmk`, `tectonic`, `pdflatex`.
/// Returns the compiler name without extension, or empty string if none can be
/// run. `runnable` are the candidates that can be run.
pub fn find_latex_compiler(windows: bool, runnable: &[String]) -> (r: String)
    ensures
        r@ == match first_runnable(latex_names(windows), views(runnable@)) {
            Some(name) => match strip_suffix_of(name, ".exe"@) {
                Some(stem) => stem,
                None => name,
            },
            None => ""@,
        },
{
    match pick(&latex_candidates(windows), runnable) {
        Some(name) => match strip_suffix(name.as_str(), ".exe") {
            Some(stem) => stem,
            None => name,
        },
        None => "".to_owned(),
    }
}

/// The Typst executable that is configured: trimmed, and nothing if empty.
pub open spec fn configured_of(setting: Option<Seq<char>>) -> Option<Seq<char>> {
    match setting {
        Some(s) => if trim_of(s).len() > 0 {
            Some(trim_of(s))
        } else {
            None
        },
        None => None,
    }
}

/// The Typst executable that is configured: trimmed, and nothing if empty.
pub fn configured_typst_path(setting: Option<String>) -> (r: Option<String>)
    ensures
        crate::text::opt_view(r) == configured_of(crate::text::opt_view(setting)),
{
    match setting {
        Some(s) => {
            let t = trim(s.as_str());
            if crate::text::char_count(t.as_str()) > 0 {
                Some(t)
            } else {
                None
            }
        },
        None => None,
    }
}

/// The Typst compiler to use.
pub open spec fn typst_choice(
    configured: Option<Seq<char>>,
    windows: bool,
    runnable: Seq<Seq<char>>,
) -> Option<Seq<char>> {
    match configured {
        Some(path) => if runnable.contains(path) {
            Some(path)
        } else {
            first_runnable(typst_names(windows), runnable)
        },
        None => first_runnable(typst_names(windows), runnable),
    }
}

/// Find Typst, preferring the configured executable path and falling back to PATH.
/// Returns an empty string if none can be run. `runnable` are the executables,
/// among the configured one and the candidates, that can be run.
pub fn find_typst_compiler(configured: Option<String>, windows: bool, runnable: &[String]) -> (r:
    String)
    ensures
        r@ == match typst_choice(
            crate::text::opt_view(configured),
            windows,
            views(runnable@),
        ) {
            Some(name) => name,
            None => ""@,
        },
{
    if let Some(path) = configured {
        if can_run(path.as_str(), runnable) {
            return path;
        }
    }
    match pick(&typst_candidates(windows), runnable) {
        Some(name) => name,
        None => "".to_owned(),
    }
}

/// Human-readable renderer status, of the compilers that were found: Typst first.
pub fn find_pdf_renderer(typst: &str, latex: &str) -> (r: String)
    ensures
        r@ == if typst@.len() > 0 {
            "typst ("@ + typst@ + ")"@
        } else if latex@.len() > 0 {
            "latex ("@ + latex@ + ")"@
        } else {
            ""@
        },
{
    if crate::text::char_count(typst) > 0 {
        let mut out = "typst (".to_owned();
        out.push_str(typst);
        out.push_str(")");
        out
    } else if crate::text::char_count(latex) > 0 {
        let mut out = "latex (".to_owned();
        out.push_str(latex);
        out.push_str(")");
        out
    } else {
        "".to_owned()
    }
}

// ---------------------------------------------------------------------------
// Calling a LaTeX compiler
// ---------------------------------------------------------------------------

/// A path with forward slashes.
pub fn path_for_tex(path: &str) -> (r: String)
    ensures
        r@ == replace_of(path@, "\\"@, "/"@),
{
    proof {
        reveal_strlit("\\");
    }
    replace(path, "\\", "/")
}

/// A LaTeX compiler.
#[derive(Debug, Clone, Copy, PartialEq, Eq, Structural)]
pub enum LatexCompiler {
    /// `xelatex`
    Xelatex,
    /// `tectonic`
    Tectonic,
    /// `latexmk`
    Latexmk,
    /// `pdflatex`
    Pdflatex,
}

/// The name of a LaTeX compiler.
pub open spec fn compiler_name(c: LatexCompiler) -> Seq<char> {
    match c {
        LatexCompiler::Xelatex => "xelatex"@,
        LatexCompiler::Tectonic => "tectonic"@,
        LatexCompiler::Latexmk => "latexmk"@,
        LatexCompiler::Pdflatex => "pdflatex"@,
    }
}

/// The names of two compilers differ.
proof fn lemma_compiler_names()
    ensures
        forall|a: LatexCompiler, b: LatexCompiler| #[trigger]
            compiler_name(a) == #[trigger] compiler_name(b) ==> a == b,
{
    reveal_strlit("xelatex");
    reveal_strlit("tectonic");
    reveal_strlit("latexmk");
    reveal_strlit("pdflatex");
    assert("xelatex"@[0] == 'x');
    assert("tectonic"@[0] == 't');
    assert("latexmk"@[0] == 'l');
    assert("pdflatex"@[0] == 'p');
}

/// The LaTeX compiler of a name.
pub fn latex_compiler(name: &str) -> (r: Result<LatexCompiler, String>)
    ensures
        match r {
            Ok(c) => compiler_name(c) == name@,
            Err(e) => (forall|c: LatexCompiler| #[trigger] compiler_name(c) != name@) && e@
                == "unknown LaTeX compiler: "@ + name@,
        },
{
    if same_text(name, "xelatex") {
        return Ok(LatexCompiler::Xelatex);
    }
    if same_text(name, "tectonic") {
        return Ok(LatexCompiler::Tectonic);
    }
    if same_text(name, "latexmk") {
        return Ok(LatexCompiler::Latexmk);
    }
    if same_text(name, "pdflatex") {
        return Ok(LatexCompiler::Pdflatex);
    }
    let mut e = "unknown LaTeX compiler: ".to_owned();
    e.push_str(name);
    Err(e)
}

/// A name belongs to one compiler only.
pub proof fn law_compiler_names_differ(a: LatexCompiler, b: LatexCompiler)
    requires
        compiler_name(a) == compiler_name(b),
    ensures
        a == b,
{
    lemma_compiler_names();
}

/// The arguments for a compiler; `tex` is the path of the document, in the output
/// directory where the compiler works in place.
pub open spec fn compiler_args(c: LatexCompiler, tex: Seq<char>, dir: Seq<char>) -> Seq<Seq<char>> {
    let t = replace_of(tex, "\\"@, "/"@);
    let d = replace_of(dir, "\\"@, "/"@);
    match c {
        LatexCompiler::Xelatex => seq![
            "-interaction=nonstopmode"@,
            "-halt-on-error"@,
            "-output-directory="@ + d,
            t,
        ],
        LatexCompiler::Tectonic => seq!["-Z"@, "search=false"@, t],
        LatexCompiler::Latexmk => seq![
            "-xelatex"@,
            "-interaction=nonstopmode"@,
            "-halt-on-error"@,
            "-outdir="@ + d,
            t,
        ],
        LatexCompiler::Pdflatex => seq!["-interaction=nonstopmode"@, "-output-directory="@ + d, t],
    }
}

/// The arguments for a compiler.
pub fn latex_args(c: LatexCompiler, tex: &str, dir: &str) -> (r: Vec<String>)
    ensures
        views(r@) == compiler_args(c, tex@, dir@),
{
    let t = path_for_tex(tex);
    let d = path_for_tex(dir);
    let mut out: Vec<String> = Vec::new();
    match c {
        LatexCompiler::Xelatex => {
            let mut to = "-output-directory=".to_owned();
            to.push_str(d.as_str());
            out.push("-interaction=nonstopmode".to_owned());
            out.push("-halt-on-error".to_owned());
            out.push(to);
        },
        LatexCompiler::Tectonic => {
            out.push("-Z".to_owned());
            out.push("search=false".to_owned());
        },
        LatexCompiler::Latexmk => {
            let mut to = "-outdir=".to_owned();
            to.push_str(d.as_str());
            out.push("-xelatex".to_owned());
            out.push("-interaction=nonstopmode".to_owned());
            out.push("-halt-on-error".to_owned());
            out.push(to);
        },
        LatexCompiler::Pdflatex => {
            let mut to = "-output-directory=".to_owned();
            to.push_str(d.as_str());
            out.push("-interaction=nonstopmode".to_owned());
            out.push(to);
        },
    }
    out.push(t);
    assert(views(out@) =~= compiler_args(c, tex@, dir@));
    out
}

/// Whether the document is copied to the output directory first, because the
/// compiler works in place.
pub fn works_in_place(c: LatexCompiler) -> (r: bool)
    ensures
        r == (c == LatexCompiler::Tectonic),
{
    c == LatexCompiler::Tectonic
}

/// Whether the compiler is run again after a run that succeeded.
pub fn runs_again(c: LatexCompiler, succeeded: bool) -> (r: bool)
    ensures
        r == (succeeded && (c == LatexCompiler::Xelatex || c == LatexCompiler::Pdflatex)),
{
    succeeded && (c == LatexCompiler::Xelatex || c == LatexCompiler::Pdflatex)
}

/// What the run of a compiler means: an error, or nothing where it made a PDF. A
/// bad exit status alone does not count, except from a compiler that works in
/// place.
pub open spec fn run_fault(
    c: LatexCompiler,
    succeeded: bool,
    pdf_exists: bool,
    status: Seq<char>,
) -> Option<Seq<char>> {
    match c {
        LatexCompiler::Xelatex => if pdf_exists {
            None
        } else {
            Some("xelatex did not produce a PDF file (exit status: "@ + status + ")"@)
        },
        LatexCompiler::Tectonic => if succeeded {
            None
        } else {
            Some("tectonic exited with non-zero status: "@ + status)
        },
        LatexCompiler::Latexmk => if pdf_exists {
            None
        } else {
            Some("latexmk did not produce a PDF file (exit status: "@ + status + ")"@)
        },
        LatexCompiler::Pdflatex => if pdf_exists {
            None
        } else {
            Some("pdflatex did not produce a PDF file"@)
        },
    }
}

/// What the run of a compiler means.
pub fn latex_fault(c: LatexCompiler, succeeded: bool, pdf_exists: bool, status: &str) -> (r: Option<
    String,
>)
    ensures
        crate::text::opt_view(r) == run_fault(c, succeeded, pdf_exists, status@),
{
    match c {
        LatexCompiler::Xelatex => if pdf_exists {
            None
        } else {
            let mut e = "xelatex did not produce a PDF file (exit status: ".to_owned();
            e.push_str(status);
            e.push_str(")");
            Some(e)
        },
        LatexCompiler::Tectonic => if succeeded {
            None
        } else {
            let mut e = "tectonic exited with non-zero status: ".to_owned();
            e.push_str(status);
            Some(e)
        },
        LatexCompiler::Latexmk => if pdf_exists {
            None
        } else {
            let mut e = "latexmk did not produce a PDF file (exit status: ".to_owned();
            e.push_str(status);
            e.push_str(")");
            Some(e)
        },
        LatexCompiler::Pdflatex => if pdf_exists {
            None
        } else {
            Some("pdflatex did not produce a PDF file".to_owned())
        },
    }
}

/// What the run of the Typst CLI means: an error where it left no PDF, whatever its
/// exit status.
pub fn typst_fault(pdf_exists: bool, status: &str) -> (r: Option<String>)
    ensures
        crate::text::opt_view(r) == if pdf_exists {
            None
        } else {
            Some("typst did not produce a PDF file (exit status: "@ + status@ + ")"@)
        },
{
    if pdf_exists {
        None
    } else {
        let mut e = "typst did not produce a PDF file (exit status: ".to_owned();
        e.push_str(status);
        e.push_str(")");
        Some(e)
    }
}

/// The compiler that is taken can be run, and none before it can; and none is taken
/// exactly where none can be run.
pub proof fn law_first_that_runs(names: Seq<Seq<char>>, runnable: Seq<Seq<char>>)
    ensures
        match first_runnable(names, runnable) {
            Some(name) => runnable.contains(name) && exists|i: int|
                0 <= i < names.len() && #[trigger] names[i] == name && forall|j: int|
                    0 <= j < i ==> !runnable.contains(#[trigger] names[j]),
            None => forall|j: int|
                0 <= j < names.len() ==> !runnable.contains(#[trigger] names[j]),
        },
    decreases names.len(),
{
    if names.len() > 0 && !runnable.contains(names[0]) {
        let rest = names.skip(1);
        law_first_that_runs(rest, runnable);
        match first_runnable(rest, runnable) {
            Some(name) => {
                let i = choose|i: int|
                    0 <= i < rest.len() && #[trigger] rest[i] == name && forall|j: int|
                        0 <= j < i ==> !runnable.contains(#[trigger] rest[j]);
                assert(names[i + 1] == name);
                assert forall|j: int| 0 <= j < i + 1 implies !runnable.contains(
                    #[trigger] names[j],
                ) by {
                    if j > 0 {
                        assert(names[j] == rest[j - 1]);
                    }
                }
            },
            None => {
                assert forall|j: int| 0 <= j < names.len() implies !runnable.contains(
                    #[trigger] names[j],
                ) by {
                    if j > 0 {
                        assert(names[j] == rest[j - 1]);
                    }
                }
            },
        }
    } else if names.len() > 0 {
        assert(names[0] == first_runnable(names, runnable)->0);
    }
}

/// XeLaTeX is tried first, and a Typst that is configured before any other; of the
/// setting the white space around it does not count, and an empty one is none.
pub proof fn law_what_is_tried_first(
    path: Seq<char>,
    windows: bool,
    runnable: Seq<Seq<char>>,
    setting: Seq<char>,
)
    ensures
        runnable.contains("xelatex"@) ==> first_runnable(latex_names(false), runnable) == Some(
            "xelatex"@,
        ),
        runnable.contains(path) ==> typst_choice(Some(path), windows, runnable) == Some(path),
        !runnable.contains(path) ==> typst_choice(Some(path), windows, runnable) == typst_choice(
            None,
            windows,
            runnable,
        ),
        runnable.contains("typst"@) ==> typst_choice(None, false, runnable) == Some("typst"@),
        !runnable.contains("typst"@) ==> typst_choice(None, false, runnable) is None,
        trim_of(setting).len() > 0 ==> configured_of(Some(setting)) == Some(trim_of(setting)),
        trim_of(setting).len() == 0 ==> configured_of(Some(setting)) is None,
        configured_of(None) is None,
{
    assert(latex_names(false)[0] == "xelatex"@);
    let one = typst_names(false);
    assert(one[0] == "typst"@ && one.len() == 1);
    law_first_that_runs(one, runnable);
}

/// Every compiler is handed the document last, and all but the one that works in place
/// are told where to write.
pub proof fn law_compilers_get_the_document(c: LatexCompiler, tex: Seq<char>, dir: Seq<char>)
    requires
        !tex.contains('\\'),
        !dir.contains('\\'),
    ensures
        compiler_args(c, tex, dir).last() == tex,
        c is Latexmk ==> compiler_args(c, tex, dir).contains("-outdir="@ + dir),
        c is Xelatex || c is Pdflatex ==> compiler_args(c, tex, dir).contains(
            "-output-directory="@ + dir,
        ),
        !(c is Tectonic) ==> compiler_args(c, tex, dir).contains("-interaction=nonstopmode"@),
        c is Latexmk ==> compiler_args(c, tex, dir).contains("-xelatex"@),
        c is Xelatex || c is Latexmk ==> compiler_args(c, tex, dir).contains("-halt-on-error"@),
{
    reveal_strlit("\\");
    lemma_no_backslash(tex);
    lemma_no_backslash(dir);
    let a = compiler_args(c, tex, dir);
    match c {
        LatexCompiler::Xelatex => {
            assert(a[0] == "-interaction=nonstopmode"@ && a[1] == "-halt-on-error"@);
            assert(a[2] == "-output-directory="@ + dir);
        },
        LatexCompiler::Tectonic => {},
        LatexCompiler::Latexmk => {
            assert(a[0] == "-xelatex"@ && a[1] == "-interaction=nonstopmode"@);
            assert(a[2] == "-halt-on-error"@ && a[3] == "-outdir="@ + dir);
        },
        LatexCompiler::Pdflatex => {
            assert(a[0] == "-interaction=nonstopmode"@ && a[1] == "-output-directory="@ + dir);
        },
    }
}

/// A path without backslashes stays as it is.
proof fn lemma_no_backslash(s: Seq<char>)
    requires
        !s.contains('\\'),
    ensures
        replace_of(s, "\\"@, "/"@) == s,
{
    reveal_strlit("\\");
    if crate::text::contains_of(s, "\\"@) {
        let i = choose|i: int| crate::text::matches_at(s, "\\"@, i);
        assert(s.subrange(i, i + 1)[0] == s[i]);
        assert(s.contains(s[i]));
    }
    crate::text::law_nothing_to_replace(s, "\\"@, "/"@);
}

/// A compiler that made a PDF file has done its work, whatever it says, and one that made
/// none has not; of the one that works in place its exit status says it.
pub proof fn law_runs_are_judged(
    c: LatexCompiler,
    succeeded: bool,
    pdf_exists: bool,
    status: Seq<char>,
)
    ensures
        !(c is Tectonic) ==> (run_fault(c, succeeded, pdf_exists, status) is None <==> pdf_exists),
        c is Tectonic ==> (run_fault(c, succeeded, pdf_exists, status) is None <==> succeeded),
{
}

} // verus!
