# lecture-distill

From lecture recordings to exam notes: subtitles are fetched from SJTU Canvas,
Markdown notes are patched with what the transcripts add, a Reference Digest and
a cheat sheet are written with a language model, and the sheet is rendered to a
PDF that fits a page limit.

The library under `src/` is written in [Verus](https://github.com/verus-lang/verus).
Its functions are proved against their contracts. It decides and computes; it
does no I/O of its own.

| Module | What it holds |
| --- | --- |
| `text`, `json` | strings and JSON values with their models |
| `diff` | line diffs and unified diff text |
| `notes`, `artifacts` | headings, patches and how they are applied |
| `compact` | transcripts in a form for prompts |
| `latex`, `markdown_typst` | Markdown to LaTeX and Typst, compression, layout, the rendering attempts, how full pages are |
| `llm`, `llm_stream`, `llm_forward`, `llm_reply`, `llm_log` | conversations, requests, retries, event streams, replies, logs |
| `canvas_sjtu`, `fetch` | the login to the video platform and its answers, the fetching of transcripts |
| `plugin`, `pipelines`, `process`, `cli` | the plugin graph, the order of outputs, their records and reports |
| `processors`, `prompts`, `utils` | what each kind of output needs done, step by step, and the prompts for it |
| `pipeline` | the stages from a course to a cheat sheet |

Work that takes turns with the outside world (a login, a stream, a rendering, a
digest) is a state machine: the library says what to do next, and is told how it
went. Its contract gives the next state and action for each event, and public
proof functions named `law_..` state what holds of every run.

What comes from other crates (regular expressions, HTML forms, URLs, Markdown
events, formula conversion, JSON text) goes through small wrappers whose
contracts say what is taken on trust; they stand in `outside.rs`, in
`canvas_sjtu/forms.rs`, in `markdown_typst/events.rs` and `math.rs`, and in
`llm.rs`.

`app/` is the program around the library: arguments, files, HTTP requests, the
compilers, and a small web server. Times, which are floating point outside, are held
by mantissa and scale in the library (`double`), lengths and shares of a page as
whole numbers.

`tests/` runs the library on concrete values.
