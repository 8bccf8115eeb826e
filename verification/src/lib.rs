//! Lecture distillation: line diffs, Markdown conversion, prompt building and
//! the decision logic of the note, digest and cheat sheet processors.

pub mod artifacts;
pub mod canvas_sjtu;
pub mod cli;
pub mod compact;
pub mod diff;
pub mod double;
pub mod fetch;
pub mod json;
pub mod latex;
pub mod llm;
pub mod llm_forward;
pub mod llm_log;
pub mod llm_reply;
pub mod llm_stream;
pub mod markdown_typst;
pub mod notes;
pub mod outside;
pub mod pipeline;
pub mod pipelines;
pub mod plugin;
pub mod process;
pub mod processors;
pub mod prompts;

pub mod text;
pub mod utils;
