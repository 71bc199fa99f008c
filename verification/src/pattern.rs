//! Regular expressions, through the `regex` crate.
//!
//! Two uses: locating a symbol literally (the pattern is the escaped symbol)
//! and testing lines against a user-supplied pattern.
use vstd::prelude::*;
use crate::text::{find_seq_from, utf8_len};

verus! {

/// A compiled regular expression of the `regex` crate.
#[verifier::external_type_specification]
#[verifier::external_body]
pub struct ExRegex(regex::Regex);

/// The error text with which `regex::Regex::new(pattern)` fails; `None` when
/// the pattern compiles.
pub uninterp spec fn regex_compile_error(pattern: Seq<char>) -> Option<Seq<char>>;

/// Whether the compiled `pattern` matches somewhere in `text`
/// (`Regex::is_match`).
pub uninterp spec fn regex_is_match(pattern: Seq<char>, text: Seq<char>) -> bool;

/// The byte offset at which the leftmost-first match of the compiled `pattern`
/// in `text` starts (`Regex::find`, then `Match::start`); `None` when there is
/// no match.
pub uninterp spec fn regex_first_match(pattern: Seq<char>, text: Seq<char>) -> Option<usize>;

/// The characters that have a meaning of their own in a pattern
/// (`regex_syntax::is_meta_character`).
pub open spec fn regex_meta_char(c: char) -> bool {
    c == '\\' || c == '.' || c == '+' || c == '*' || c == '?' || c == '(' || c == ')' || c == '|'
        || c == '[' || c == ']' || c == '{' || c == '}' || c == '^' || c == '$' || c == '#'
        || c == '&' || c == '-' || c == '~'
}

/// `text` with a backslash put in front of every meta character, which is
/// what `regex::escape` returns.
pub open spec fn regex_escaped(text: Seq<char>) -> Seq<char>
    decreases text.len(),
{
    if text.len() == 0 {
        Seq::empty()
    } else {
        let c = text.last();
        regex_escaped(text.drop_last()) + if regex_meta_char(c) {
            seq!['\\', c]
        } else {
            seq![c]
        }
    }
}

/// The error with which the pattern that matches `literal` literally fails to
/// compile; `None` when it compiles. An escaped literal only fails when it
/// exceeds the crate's size limits.
pub open spec fn literal_regex_error(literal: Seq<char>) -> Option<Seq<char>> {
    regex_compile_error(regex_escaped(literal))
}

/// `regex::escape`: a pattern that matches `text` literally, made by putting
/// a backslash in front of each meta character.
#[verifier::external_body]
pub(crate) fn escape(text: &str) -> (r: String)
    ensures
        r@ == regex_escaped(text@),
{
    regex::escape(text)
}

/// A regular expression together with the pattern it was compiled from.
pub struct CompiledPattern {
    source: String,
    regex: regex::Regex,
}

impl CompiledPattern {
    /// The pattern the expression was compiled from.
    pub closed spec fn source(&self) -> Seq<char> {
        self.source@
    }

    /// `regex::Regex::new`: the compiled `pattern`, or the text of the error
    /// with which it fails to compile.
    #[verifier::external_body]
    pub(crate) fn compile(pattern: &str) -> (r: Result<CompiledPattern, String>)
        ensures
            r is Ok <==> regex_compile_error(pattern@) is None,
            r matches Ok(c) ==> c.source() == pattern@,
            r matches Err(e) ==> regex_compile_error(pattern@) == Some(e@),
    {
        match regex::Regex::new(pattern) {
            Ok(regex) => Ok(CompiledPattern { source: pattern.to_string(), regex }),
            Err(e) => Err(e.to_string()),
        }
    }

    /// `Regex::is_match`: whether the expression matches somewhere in `text`.
    #[verifier::external_body]
    pub(crate) fn is_match(&self, text: &str) -> (b: bool)
        ensures
            b == regex_is_match(self.source(), text@),
    {
        self.regex.is_match(text)
    }

    /// `Regex::find`: the byte offset of the start of the leftmost-first match
    /// in `text`.
    ///
    /// Besides naming the answer, this states what `regex::escape` promises:
    /// an escaped text is matched as a literal, so the leftmost match of an
    /// escaped `lit` is its first occurrence, and there is none when `lit`
    /// does not occur.
    #[verifier::external_body]
    pub(crate) fn find_start(&self, text: &str) -> (r: Option<usize>)
        ensures
            r == regex_first_match(self.source(), text@),
            forall|lit: Seq<char>|
                #![trigger regex_escaped(lit)]
                self.source() == regex_escaped(lit) ==> match r {
                    Some(b) => find_seq_from(text@, lit, 0) matches Some(k) && b == utf8_len(
                        text@.take(k),
                    ),
                    None => find_seq_from(text@, lit, 0) is None,
                },
    {
        self.regex.find(text).map(|m| m.start())
    }
}

} // verus!
