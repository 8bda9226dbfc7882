//! What the window remembers of the document between two drawings.

pub mod document;
pub mod section;

pub use self::document::Document;
pub use self::section::Section;
