//! Point annotations for images: integer coordinates with an ordinal index,
//! kept per image path in a JSON document.
pub mod document;
pub mod json;
pub mod points;
pub mod store;
