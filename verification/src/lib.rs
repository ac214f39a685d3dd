//! A line-matching and highlighting engine for a grep-like search tool.
//!
//! A [`Pattern`] is compiled once from a raw string and is usable both as a
//! literal substring and as a regular expression.  [`match_line`] decides
//! whether a line matches -- the literal test always wins over the regular
//! expression -- and splits a matching line into the text before, inside and
//! after the first matched span.  All positions are character offsets into
//! the line, and columns are reported 1-based.

pub mod matching;
pub mod pattern;
pub mod search;

pub use matching::{find_span, match_line, match_lines};
pub use matching::{HighlightedLine, MatchKind, MatchResult, MatchSpan};
pub use pattern::{CompileError, Pattern};
pub use search::find_substring;
