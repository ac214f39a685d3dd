//! Compilation of search patterns.
//!
//! A [`Pattern`] holds the raw text the user supplied and the regular
//! expression compiled from that same text.  The raw text drives the
//! literal-substring test; the compiled expression is the fallback.  The two
//! calls into the `regex` crate sit behind trusted wrappers whose contracts
//! speak of the raw text alone.

use vstd::prelude::*;

verus! {

/// Makes `regex::Regex` known to the verifier.  Values of the type are
/// opaque here and only move through the trusted wrappers below.
#[verifier::external_type_specification]
#[verifier::external_body]
pub struct ExRegex(regex::Regex);

/// Whether `regex::Regex::new` accepts `raw` as a regular expression.
pub uninterp spec fn regex_valid(raw: Seq<char>) -> bool;

/// The leftmost match that `regex::Regex::find` reports on `line` for the
/// expression compiled from `raw`, given as the three fragments of `line`:
/// the text before the match, the matched text, and the text after it;
/// `None` when the expression does not match `line` at all.
pub uninterp spec fn regex_parts(raw: Seq<char>, line: Seq<char>) -> Option<
    (Seq<char>, Seq<char>, Seq<char>),
>;

/// A compiled search pattern: the raw text, used for the literal-substring
/// test, and the regular expression compiled from that same text.  The only
/// constructor is [`Pattern::compile`], so the two fields always derive from
/// one input string.
pub struct Pattern {
    raw: String,
    regex: regex::Regex,
}

/// Failure to construct a [`Pattern`].
#[derive(Debug, Clone, PartialEq, Eq)]
pub enum CompileError {
    /// The raw text is not a valid regular expression; carries the
    /// compiler's diagnostic text.
    InvalidPattern(String),
}

/// Relies on `regex::Regex::new`: it returns `Ok` exactly when the text is
/// a valid regular expression (within the crate's default size limit).  The
/// error case carries the compiler's diagnostic rendered as text.
#[verifier::external_body]
fn regex_new(raw: &str) -> (r: Result<regex::Regex, String>)
    ensures
        r is Ok <==> regex_valid(raw@),
{
    regex::Regex::new(raw).map_err(|e| e.to_string())
}

/// Relies on `regex::Regex::find`: it reports the leftmost match, the match
/// offsets lie on character boundaries of the haystack, and slicing the
/// haystack at them reconstructs it exactly.  Sound because `p.regex` is
/// always the expression compiled from `p.raw`: [`Pattern::compile`] is the
/// type's only constructor.
#[verifier::external_body]
pub(crate) fn regex_find_parts(p: &Pattern, line: &str) -> (r: Option<(String, String, String)>)
    ensures
        r is Some <==> regex_parts(p.raw_view(), line@) is Some,
        r matches Some(t) ==> regex_parts(p.raw_view(), line@) == Some((t.0@, t.1@, t.2@)),
        r matches Some(t) ==> t.0@ + t.1@ + t.2@ == line@,
{
    match p.regex.find(line) {
        Some(m) => Some((
            line[..m.start()].to_string(),
            line[m.start()..m.end()].to_string(),
            line[m.end()..].to_string(),
        )),
        None => None,
    }
}

impl Pattern {
    /// The raw pattern text.
    pub closed spec fn raw_view(&self) -> Seq<char> {
        self.raw@
    }

    /// Compile `raw` into a pattern.  Succeeds exactly when `raw` is a
    /// valid regular expression; the pattern then keeps `raw` itself for
    /// the literal-substring test.  On failure nothing is constructed and
    /// the compiler's diagnostic is surfaced in [`CompileError`].
    pub fn compile(raw: &str) -> (r: Result<Pattern, CompileError>)
        ensures
            r is Ok <==> regex_valid(raw@),
            r matches Ok(p) ==> p.raw_view() == raw@,
            r matches Err(e) ==> e is InvalidPattern,
    {
        match regex_new(raw) {
            Ok(re) => Ok(Pattern { raw: raw.to_owned(), regex: re }),
            Err(msg) => Err(CompileError::InvalidPattern(msg)),
        }
    }

    /// The raw pattern text, as supplied to [`Pattern::compile`].
    pub fn raw_text(&self) -> (r: &str)
        ensures
            r@ == self.raw_view(),
    {
        self.raw.as_str()
    }
}

} // verus!
