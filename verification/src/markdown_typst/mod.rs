//! Native Markdown -> Typst conversion backed by pulldown-cmark and MiTeX.

pub mod delimiters;
pub mod document;
pub mod events;
pub mod math;
pub mod nesting;
pub mod runtime;
pub mod shapes;
pub mod strings;

pub use crate::markdown_typst::document::markdown_to_typst;
pub use crate::markdown_typst::runtime::{prepare_runtime, runtime_prelude, RUNTIME_PRELUDE};
