//! Verified core of the grezi presentation language: layout keywords,
//! text attributes, object alignments and the slide-to-slide object model.

pub mod layout;
pub mod strings;
pub mod text;
pub mod alignment;
pub mod slide;
pub mod numbering;
pub mod navigation;
pub mod remote;
pub mod params;
pub mod args;
pub mod resolved_text;
pub mod source;
pub mod errors;
pub mod directives;
pub mod markup;
pub mod rope;
pub mod positions;
pub mod tokens;
pub mod folding;
pub mod formatting;
pub mod incremental;
pub mod placement;
pub mod sections;
pub mod djot;
pub mod slideshow;
pub mod symbols;
pub mod snippets;
pub mod syntax;
pub mod cursor;
pub mod formatter;
pub mod highlight;
pub mod parse_cursor;
