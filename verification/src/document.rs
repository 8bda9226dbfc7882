//! Text as the window holds it by itself: a section that the user edits
//! with one cursor, and a paragraph whose layout follows its text.

pub mod paragraph;
pub mod section;

pub use self::paragraph::Paragraph;
pub use self::section::{CursorAction, Section};
