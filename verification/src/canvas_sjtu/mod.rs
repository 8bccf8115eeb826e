//! SJTU Canvas video subtitle connector.
//!
//! What goes into the LTI/OIDC authentication with the SJTU video platform, and
//! what is read out of its answers: course videos, subtitles and slides.

pub mod auth;
pub mod forms;
pub mod numbers;
pub mod numerals;
pub mod slices;
pub mod subtitles;
pub mod videos;

pub use crate::canvas_sjtu::auth::CanvasSession;
pub use crate::canvas_sjtu::slices::CanvasPptSlice;
pub use crate::canvas_sjtu::videos::CanvasVideoInfo;
