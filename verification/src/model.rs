//! The document model that the I/O side and the window share.

pub mod document;
pub mod section;

pub use self::document::Document;
pub use self::section::{CursorAction, CursorActionResult, Section, SectionID};
