//! Annotation of Japanese words for flashcards: mora segmentation, pitch-accent
//! digit strings, furigana markup and stem / okurigana decomposition.

pub mod error;
pub mod text;
pub mod mora;
pub mod accent;
pub mod markup;
pub mod align;
pub mod furigana;
pub mod stem;
pub mod tokens;
pub mod headwords;
