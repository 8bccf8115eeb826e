//! From Markdown to a cheat sheet: conversion to LaTeX and to Typst, compression
//! of the content, and the attempts at a rendering that fits the page limit.

pub mod compress;
pub mod escape;
pub mod inline;
pub mod layout;
pub mod render;
pub mod space;
pub mod symbols;
pub mod to_latex;
pub mod to_typst;
pub mod tools;

pub use crate::latex::compress::compress_content;
pub use crate::latex::escape::escape_latex;
pub use crate::latex::layout::{DEFAULT_TEMPLATE, DEFAULT_TYPST_TEMPLATE};
pub use crate::latex::to_latex::markdown_to_latex;
pub use crate::latex::to_typst::markdown_to_typst;
pub use crate::latex::tools::{find_latex_compiler, find_pdf_renderer, find_typst_compiler};
