//! A swatch-file editor's core: the colour layer, the document model and the
//! session that loads and saves it.

pub mod color;
pub mod document;
pub mod session;
