//! Symbolic code editor: insert, replace, delete and rename at symbol level.
//!
//! An `EditOperation` names a symbol by a piece of its declaration text
//! (e.g. `"fn hello"`); the editor locates the first literal occurrence of that
//! text in the source and edits around it. Body-level edits use the first `{`
//! after the symbol and its matching `}`.
//!
//! The whole module works on the character view of the strings: a character
//! index `p` here corresponds to the byte offset of the same position in the
//! UTF-8 text, and every delimiter the editor looks for is ASCII.
use vstd::prelude::*;
use vstd::string::*;

use crate::pattern::{CompiledPattern, escape, literal_regex_error, regex_escaped};
use crate::text::{
    chars_of, char_index_of_byte, find_char, find_char_from, find_seq_from, lemma_find_char_from, lemma_find_seq_from,
    occurs_at, utf8_len,
};

verus! {

/// A symbol-level edit operation on source code.
///
/// Each variant targets a named symbol (function, struct, class, etc.)
/// identified by a piece of its declaration text.
#[derive(Debug, Clone, PartialEq)]
pub enum EditOperation {
    /// Insert content before the matched symbol.
    InsertBefore { symbol: String, content: String },
    /// Insert content after the matched symbol.
    InsertAfter { symbol: String, content: String },
    /// Replace the body (content between braces) of the matched symbol.
    ReplaceBody { symbol: String, content: String },
    /// Delete the entire matched symbol (its declaration + body).
    Delete { symbol: String },
    /// Rename the matched symbol to a new name.
    Rename { symbol: String, new_name: String },
}

/// Errors that can occur during editing.
#[derive(Debug, Clone, PartialEq)]
pub enum EditorError {
    /// The target symbol was not found in the source.
    SymbolNotFound(String),
    /// The source text is empty.
    EmptySource,
    /// A pattern error occurred, or the symbol's body could not be delimited.
    RegexError(String),
}

/// The mathematical value of an `EditorError`.
pub enum EditFailure {
    SymbolNotFound(Seq<char>),
    EmptySource,
    RegexError(Seq<char>),
}

impl View for EditorError {
    type V = EditFailure;

    open spec fn view(&self) -> EditFailure {
        match self {
            EditorError::SymbolNotFound(s) => EditFailure::SymbolNotFound(s@),
            EditorError::EmptySource => EditFailure::EmptySource,
            EditorError::RegexError(m) => EditFailure::RegexError(m@),
        }
    }
}

impl EditorError {
    /// The message that describes this error.
    pub fn message(&self) -> (m: String)
        ensures
            m@ == error_message(self@),
    {
        match self {
            EditorError::SymbolNotFound(sym) => {
                let mut m = String::from_str("symbol not found in source: ");
                m.append(sym.as_str());
                m
            },
            EditorError::EmptySource => String::from_str("source text is empty"),
            EditorError::RegexError(msg) => {
                let mut m = String::from_str("regex error: ");
                m.append(msg.as_str());
                m
            },
        }
    }
}

/// The text describing an editor failure.
pub open spec fn error_message(e: EditFailure) -> Seq<char> {
    match e {
        EditFailure::SymbolNotFound(sym) => "symbol not found in source: "@ + sym,
        EditFailure::EmptySource => "source text is empty"@,
        EditFailure::RegexError(msg) => "regex error: "@ + msg,
    }
}

/// The symbol text an operation targets.
pub open spec fn op_symbol(op: EditOperation) -> Seq<char> {
    match op {
        EditOperation::InsertBefore { symbol, .. } => symbol@,
        EditOperation::InsertAfter { symbol, .. } => symbol@,
        EditOperation::ReplaceBody { symbol, .. } => symbol@,
        EditOperation::Delete { symbol } => symbol@,
        EditOperation::Rename { symbol, .. } => symbol@,
    }
}

impl EditOperation {
    /// The symbol text this operation targets.
    pub fn symbol(&self) -> (s: &str)
        ensures
            s@ == op_symbol(*self),
    {
        match self {
            EditOperation::InsertBefore { symbol, .. } => symbol.as_str(),
            EditOperation::InsertAfter { symbol, .. } => symbol.as_str(),
            EditOperation::ReplaceBody { symbol, .. } => symbol.as_str(),
            EditOperation::Delete { symbol } => symbol.as_str(),
            EditOperation::Rename { symbol, .. } => symbol.as_str(),
        }
    }
}

/// `s` with `s[start..resume]` replaced by `ins`.
pub open spec fn splice(s: Seq<char>, start: int, ins: Seq<char>, resume: int) -> Seq<char> {
    s.take(start) + ins + s.skip(resume)
}

/// Scanning from `pos` with `depth` delimiters open, the position of the
/// `close` that closes the outermost one; `None` when the text ends first.
pub open spec fn closing_from(s: Seq<char>, open: char, close: char, pos: int, depth: int) -> Option<
    int,
>
    decreases s.len() - pos,
{
    if pos < 0 || pos >= s.len() {
        None
    } else if s[pos] == open {
        closing_from(s, open, close, pos + 1, depth + 1)
    } else if s[pos] == close {
        if depth - 1 == 0 {
            Some(pos)
        } else {
            closing_from(s, open, close, pos + 1, depth - 1)
        }
    } else {
        closing_from(s, open, close, pos + 1, depth)
    }
}

/// The closing delimiter that pairs with `close_of(s[open_pos])`, for `{}`,
/// `()` and `[]`; `None` for any other character or when unbalanced.
pub open spec fn matching_delimiter(s: Seq<char>, open_pos: int) -> Option<int> {
    if 0 <= open_pos < s.len() {
        let o = s[open_pos];
        if o == '{' {
            closing_from(s, '{', '}', open_pos + 1, 1)
        } else if o == '(' {
            closing_from(s, '(', ')', open_pos + 1, 1)
        } else if o == '[' {
            closing_from(s, '[', ']', open_pos + 1, 1)
        } else {
            None
        }
    } else {
        None
    }
}

/// The end of the line containing position `from`: the next `'\n'`, or the
/// end of the text.
pub open spec fn line_end(s: Seq<char>, from: int) -> int {
    match find_char_from(s, '\n', from) {
        Some(n) => n,
        None => s.len() as int,
    }
}

/// A line break to add after a new body, unless it already ends with one.
pub open spec fn closing_newline(content: Seq<char>) -> Seq<char> {
    if content.len() > 0 && content.last() == '\n' {
        Seq::empty()
    } else {
        seq!['\n']
    }
}

/// How many line breaks (at most two) follow directly at position `i`.
pub open spec fn blank_after(s: Seq<char>, i: int) -> int {
    if 0 <= i && i + 1 < s.len() && s[i] == '\n' && s[i + 1] == '\n' {
        2
    } else if 0 <= i && i < s.len() && s[i] == '\n' {
        1
    } else {
        0
    }
}

/// Reported when a symbol's declaration has no `{` after it.
pub open spec fn no_open_brace_message(sym: Seq<char>) -> Seq<char> {
    "symbol '"@ + sym + "' declaration has no opening brace"@
}

/// Reported when a symbol's `{` is never closed.
pub open spec fn no_close_brace_message(sym: Seq<char>) -> Seq<char> {
    "symbol '"@ + sym + "' has no matching closing brace"@
}

/// The body delimiters of the symbol found at `p`: the first `{` at or after
/// `p` and its matching `}`.
pub open spec fn body_bounds(s: Seq<char>, sym: Seq<char>, p: int) -> Result<(int, int), Seq<char>> {
    match find_char_from(s, '{', p) {
        None => Err(no_open_brace_message(sym)),
        Some(o) => match matching_delimiter(s, o) {
            None => Err(no_close_brace_message(sym)),
            Some(c) => Ok((o, c)),
        },
    }
}

/// The result of `op` on `s` when its symbol first occurs at `p`.
pub open spec fn edit_at(s: Seq<char>, op: EditOperation, p: int) -> Result<Seq<char>, EditFailure> {
    match op {
        EditOperation::InsertBefore { content, .. } => Ok(splice(s, p, content@, p)),
        EditOperation::InsertAfter { content, .. } => {
            let e = line_end(s, p);
            Ok(splice(s, e, content@, e))
        },
        EditOperation::ReplaceBody { symbol, content } => match body_bounds(s, symbol@, p) {
            Err(m) => Err(EditFailure::RegexError(m)),
            Ok((o, c)) => Ok(splice(s, o + 1, content@ + closing_newline(content@), c)),
        },
        EditOperation::Delete { symbol } => match body_bounds(s, symbol@, p) {
            Err(m) => Err(EditFailure::RegexError(m)),
            Ok((o, c)) => Ok(splice(s, p, Seq::empty(), c + 1 + blank_after(s, c + 1))),
        },
        EditOperation::Rename { symbol, new_name } => Ok(
            splice(s, p, new_name@, p + symbol@.len()),
        ),
    }
}

/// The result of `op` on `s`, given the outcome of locating its symbol: a
/// pattern error, no match, or a match (the first occurrence).
pub open spec fn located_edit(
    s: Seq<char>,
    op: EditOperation,
    located: Result<Option<usize>, String>,
) -> Result<Seq<char>, EditFailure> {
    match located {
        Err(m) => Err(EditFailure::RegexError(m@)),
        Ok(None) => Err(EditFailure::SymbolNotFound(op_symbol(op))),
        Ok(Some(_)) => edit_at(s, op, find_seq_from(s, op_symbol(op), 0).unwrap()),
    }
}

/// The result of `op` on `s`.
pub open spec fn edit_spec(s: Seq<char>, op: EditOperation) -> Result<Seq<char>, EditFailure> {
    if s.len() == 0 {
        Err(EditFailure::EmptySource)
    } else {
        match literal_regex_error(op_symbol(op)) {
            Some(m) => Err(EditFailure::RegexError(m)),
            None => match find_seq_from(s, op_symbol(op), 0) {
                None => Err(EditFailure::SymbolNotFound(op_symbol(op))),
                Some(p) => edit_at(s, op, p),
            },
        }
    }
}

/// `located` is what locating `sym` in `s` can give: a match is the byte
/// offset of the first occurrence, and no match means there is none.
pub open spec fn valid_location(s: Seq<char>, sym: Seq<char>, located: Result<Option<usize>, String>) -> bool {
    match located {
        Err(_) => true,
        Ok(None) => find_seq_from(s, sym, 0) is None,
        Ok(Some(b)) => find_seq_from(s, sym, 0) matches Some(k) && b == utf8_len(s.take(k)),
    }
}

/// The mathematical value of an edit's outcome.
pub open spec fn outcome(res: Result<String, EditorError>) -> Result<Seq<char>, EditFailure> {
    match res {
        Ok(r) => Ok(r@),
        Err(e) => Err(e@),
    }
}

/// A symbolic code editor that applies `EditOperation` values to source text.
pub struct CodeEditor;

impl CodeEditor {
    /// Create a new `CodeEditor`.
    pub fn new() -> (e: Self) {
        CodeEditor
    }

    /// Apply an `EditOperation` to the given source text.
    ///
    /// Returns the modified source, or an `EditorError` if the symbol
    /// cannot be found or the source is empty.
    pub fn apply(&self, source: &str, operation: &EditOperation) -> (res: Result<String, EditorError>)
        ensures
            outcome(res) == edit_spec(source@, *operation),
    {
        if source.is_empty() {
            return Err(EditorError::EmptySource);
        }
        let located = self.find_symbol(source, operation.symbol());
        self.apply_located(source, operation, located)
    }

    /// Finish an edit once its symbol has been located (`located` is what
    /// `find_symbol` returned for the operation's symbol).
    pub fn apply_located(
        &self,
        source: &str,
        operation: &EditOperation,
        located: Result<Option<usize>, String>,
    ) -> (res: Result<String, EditorError>)
        requires
            valid_location(source@, op_symbol(*operation), located),
        ensures
            outcome(res) == located_edit(source@, *operation, located),
    {
        let chars = chars_of(source);
        let pos = match located {
            Err(msg) => {
                return Err(EditorError::RegexError(msg));
            },
            Ok(None) => {
                return Err(EditorError::SymbolNotFound(String::from_str(operation.symbol())));
            },
            Ok(Some(b)) => {
                let ghost k = find_seq_from(source@, op_symbol(*operation), 0).unwrap();
                proof {
                    lemma_find_seq_from(source@, op_symbol(*operation), 0);
                }
                char_index_of_byte(&chars, b, Ghost(k))
            },
        };
        proof {
            lemma_find_seq_from(source@, op_symbol(*operation), 0);
        }
        match operation {
            EditOperation::InsertBefore { symbol, content } => self.insert_before(
                source,
                pos,
                content.as_str(),
            ),
            EditOperation::InsertAfter { symbol, content } => self.insert_after(
                source,
                &chars,
                pos,
                content.as_str(),
            ),
            EditOperation::ReplaceBody { symbol, content } => self.replace_body(
                source,
                &chars,
                pos,
                symbol.as_str(),
                content.as_str(),
            ),
            EditOperation::Delete { symbol } => self.delete_symbol(
                source,
                &chars,
                pos,
                symbol.as_str(),
            ),
            EditOperation::Rename { symbol, new_name } => self.rename(
                source,
                &chars,
                pos,
                symbol.as_str(),
                new_name.as_str(),
            ),
        }
    }

    /// Locate a symbol's text literally, through the `regex` crate.
    fn find_symbol(&self, source: &str, symbol: &str) -> (res: Result<Option<usize>, String>)
        ensures
            literal_regex_error(symbol@) matches Some(m) ==> (res matches Err(e) && e@ == m),
            literal_regex_error(symbol@) is None ==> res is Ok,
            valid_location(source@, symbol@, res),
    {
        let pattern = escape(symbol);
        match CompiledPattern::compile(pattern.as_str()) {
            Err(e) => Err(e),
            Ok(re) => {
                let found = re.find_start(source);
                assert(re.source() == regex_escaped(symbol@));
                Ok(found)
            },
        }
    }

    /// Find the delimiter matching the one at `open_pos`; supports `{}`, `()`
    /// and `[]` pairs.
    fn find_matching_brace(&self, chars: &Vec<char>, open_pos: usize) -> (res: Option<usize>)
        ensures
            res matches Some(c) ==> matching_delimiter(chars@, open_pos as int) == Some(c as int),
            res is None ==> matching_delimiter(chars@, open_pos as int) is None,
    {
        if open_pos >= chars.len() {
            return None;
        }
        let o = chars[open_pos];
        let (open, close) = if o == '{' {
            ('{', '}')
        } else if o == '(' {
            ('(', ')')
        } else if o == '[' {
            ('[', ']')
        } else {
            return None;
        };
        let mut depth: usize = 1;
        let mut pos: usize = open_pos + 1;
        while pos < chars.len()
            invariant
                open_pos < pos <= chars@.len(),
                1 <= depth <= pos - open_pos,
                matching_delimiter(chars@, open_pos as int) == closing_from(
                    chars@,
                    open,
                    close,
                    pos as int,
                    depth as int,
                ),
            decreases chars.len() - pos,
        {
            let c = chars[pos];
            if c == open {
                depth = depth + 1;
            } else if c == close {
                if depth == 1 {
                    return Some(pos);
                }
                depth = depth - 1;
            }
            pos = pos + 1;
        }
        None
    }

    fn insert_before(&self, source: &str, pos: usize, content: &str) -> (res: Result<String, EditorError>)
        requires
            pos <= source@.len(),
        ensures
            outcome(res) == Ok::<Seq<char>, EditFailure>(splice(source@, pos as int, content@, pos as int)),
    {
        Ok(splice_text(source, pos, content, pos))
    }

    fn insert_after(&self, source: &str, chars: &Vec<char>, pos: usize, content: &str) -> (res: Result<String, EditorError>)
        requires
            chars@ == source@,
            pos <= source@.len(),
        ensures
            outcome(res) == Ok::<Seq<char>, EditFailure>(
                splice(source@, line_end(source@, pos as int), content@, line_end(source@, pos as int)),
            ),
    {
        let end_of_symbol = match self.find_end_of_symbol(chars, pos) {
            Ok(e) => e,
            Err(e) => {
                return Err(e);
            },
        };
        Ok(splice_text(source, end_of_symbol, content, end_of_symbol))
    }

    /// The body delimiters of the symbol found at `pos`, or the error to report.
    fn body_delimiters(&self, chars: &Vec<char>, pos: usize, symbol: &str) -> (res: Result<(usize, usize), EditorError>)
        requires
            pos <= chars@.len(),
        ensures
            match body_bounds(chars@, symbol@, pos as int) {
                Ok((o, c)) => res matches Ok((a, b)) && a == o && b == c && o < c < chars@.len(),
                Err(m) => res matches Err(e) && e@ == EditFailure::RegexError(m),
            },
    {
        proof {
            crate::text::lemma_find_char_from(chars@, '{', pos as int);
        }
        let open_pos = match find_char(chars, '{', pos) {
            Some(o) => o,
            None => {
                return Err(EditorError::RegexError(
                    quoted_message(symbol, "' declaration has no opening brace"),
                ));
            },
        };
        assert(find_char_from(chars@, '{', pos as int) == Some(open_pos as int));
        let close_pos = match self.find_matching_brace(chars, open_pos) {
            Some(c) => c,
            None => {
                return Err(EditorError::RegexError(
                    quoted_message(symbol, "' has no matching closing brace"),
                ));
            },
        };
        proof {
            lemma_closing_from_bounds(chars@, '{', '}', (open_pos + 1) as int, 1);
        }
        Ok((open_pos, close_pos))
    }

    fn replace_body(
        &self,
        source: &str,
        chars: &Vec<char>,
        pos: usize,
        symbol: &str,
        content: &str,
    ) -> (res: Result<String, EditorError>)
        requires
            chars@ == source@,
            pos <= source@.len(),
        ensures
            outcome(res) == match body_bounds(source@, symbol@, pos as int) {
                Err(m) => Err(EditFailure::RegexError(m)),
                Ok((o, c)) => Ok(splice(source@, o + 1, content@ + closing_newline(content@), c)),
            },
    {
        let (open_pos, close_pos) = match self.body_delimiters(chars, pos, symbol) {
            Ok(b) => b,
            Err(e) => {
                return Err(e);
            },
        };
        let content_chars = chars_of(content);
        let mut body = String::from_str(content);
        let n = content_chars.len();
        if !(n > 0 && content_chars[n - 1] == '\n') {
            proof {
                reveal_strlit("\n");
            }
            body.append("\n");
        } else {
            assert(content@ + closing_newline(content@) =~= content@);
        }
        assert(body@ == content@ + closing_newline(content@));
        let r = splice_text(source, open_pos + 1, body.as_str(), close_pos);
        assert(r@ == splice(source@, open_pos + 1, content@ + closing_newline(content@), close_pos as int));
        Ok(r)
    }

    fn delete_symbol(&self, source: &str, chars: &Vec<char>, pos: usize, symbol: &str) -> (res: Result<String, EditorError>)
        requires
            chars@ == source@,
            pos <= source@.len(),
            find_seq_from(source@, symbol@, 0) == Some(pos as int),
        ensures
            outcome(res) == match body_bounds(source@, symbol@, pos as int) {
                Err(m) => Err(EditFailure::RegexError(m)),
                Ok((o, c)) => Ok(
                    splice(source@, pos as int, Seq::empty(), c + 1 + blank_after(source@, c + 1)),
                ),
            },
    {
        let (open_pos, close_pos) = match self.body_delimiters(chars, pos, symbol) {
            Ok(b) => b,
            Err(e) => {
                return Err(e);
            },
        };
        let n = chars.len();
        let after = close_pos + 1;
        let skip: usize = if after < n && after + 1 < n && chars[after] == '\n' && chars[after + 1] == '\n' {
            2
        } else if after < n && chars[after] == '\n' {
            1
        } else {
            0
        };
        proof {
            reveal_strlit("");
        }
        Ok(splice_text(source, pos, "", after + skip))
    }

    fn rename(&self, source: &str, chars: &Vec<char>, pos: usize, symbol: &str, new_name: &str) -> (res: Result<String, EditorError>)
        requires
            chars@ == source@,
            occurs_at(source@, symbol@, pos as int),
        ensures
            outcome(res) == Ok::<Seq<char>, EditFailure>(
                splice(source@, pos as int, new_name@, pos + symbol@.len()),
            ),
    {
        let n = chars.len();
        let sym_len = symbol.unicode_len();
        Ok(splice_text(source, pos, new_name, pos + sym_len))
    }

    /// The end of the line containing the symbol match (the next line
    /// break, or the end of the source).
    fn find_end_of_symbol(&self, chars: &Vec<char>, match_start: usize) -> (res: Result<usize, EditorError>)
        ensures
            res matches Ok(e) && e == line_end(chars@, match_start as int) && e <= chars@.len(),
    {
        proof {
            crate::text::lemma_find_char_from(chars@, '\n', match_start as int);
        }
        match find_char(chars, '\n', match_start) {
            Some(nl_pos) => Ok(nl_pos),
            None => Ok(chars.len()),
        }
    }
}

/// Closing positions lie after the scan start and inside the text.
proof fn lemma_closing_from_bounds(s: Seq<char>, open: char, close: char, pos: int, depth: int)
    ensures
        closing_from(s, open, close, pos, depth) matches Some(c) ==> pos <= c < s.len() && s[c] == close,
    decreases s.len() - pos,
{
    if pos < 0 || pos >= s.len() {
    } else if s[pos] == open {
        lemma_closing_from_bounds(s, open, close, pos + 1, depth + 1);
    } else if s[pos] == close {
        lemma_closing_from_bounds(s, open, close, pos + 1, depth - 1);
    } else {
        lemma_closing_from_bounds(s, open, close, pos + 1, depth);
    }
}

/// `"symbol '" + symbol + tail`.
fn quoted_message(symbol: &str, tail: &str) -> (m: String)
    ensures
        m@ == "symbol '"@ + symbol@ + tail@,
{
    let mut m = String::from_str("symbol '");
    m.append(symbol);
    m.append(tail);
    m
}

/// `source[..start] + ins + source[resume..]`, by character positions.
fn splice_text(source: &str, start: usize, ins: &str, resume: usize) -> (r: String)
    requires
        start <= source@.len(),
        resume <= source@.len(),
    ensures
        r@ == splice(source@, start as int, ins@, resume as int),
{
    let n = source.unicode_len();
    let mut r = String::from_str(source.substring_char(0, start));
    r.append(ins);
    r.append(source.substring_char(resume, n));
    assert(source@.take(start as int) =~= source@.subrange(0, start as int));
    assert(source@.skip(resume as int) =~= source@.subrange(resume as int, n as int));
    r
}

/// An edit of empty source text fails with `EmptySource`, whatever the
/// operation.
pub proof fn law_empty_source_is_refused(op: EditOperation)
    ensures
        edit_spec(Seq::empty(), op) == Err::<Seq<char>, EditFailure>(EditFailure::EmptySource),
{
}

/// An edit of a symbol that does not occur in the (non-empty) source fails
/// with `SymbolNotFound`, naming the symbol, once its pattern compiles.
pub proof fn law_absent_symbol_is_reported(s: Seq<char>, op: EditOperation)
    requires
        s.len() > 0,
        literal_regex_error(op_symbol(op)) is None,
        find_seq_from(s, op_symbol(op), 0) is None,
    ensures
        edit_spec(s, op) == Err::<Seq<char>, EditFailure>(EditFailure::SymbolNotFound(op_symbol(op))),
{
}

/// Inserting before a symbol puts the content directly in front of the
/// symbol's first occurrence and keeps the rest of the text: the result is
/// the text up to the symbol, the content, then the text from the symbol on.
pub proof fn law_insert_before_precedes_symbol(s: Seq<char>, symbol: String, content: String, r: Seq<char>)
    requires
        edit_spec(s, EditOperation::InsertBefore { symbol, content }) == Ok::<Seq<char>, EditFailure>(r),
    ensures
        find_seq_from(s, symbol@, 0) matches Some(p) && r == s.take(p) + content@ + s.skip(p)
            && occurs_at(r, content@ + symbol@, p),
{
    let p = find_seq_from(s, symbol@, 0)->0;
    lemma_find_seq_from(s, symbol@, 0);
    assert(r == s.take(p) + content@ + s.skip(p));
    assert(r.subrange(p, p + content@.len() + symbol@.len()) =~= content@ + symbol@) by {
        assert(s.subrange(p, p + symbol@.len()) == symbol@);
        assert forall|k: int| 0 <= k < content@.len() + symbol@.len() implies r.subrange(
            p,
            p + content@.len() + symbol@.len(),
        )[k] == (content@ + symbol@)[k] by {
            if k >= content@.len() {
                assert(s.subrange(p, p + symbol@.len())[k - content@.len()] == s[p + k - content@.len()]);
            }
        }
    }
}

/// Renaming puts the new name where the symbol first occurred and changes
/// nothing else: the text before it and after it are kept.
pub proof fn law_rename_replaces_first_occurrence(s: Seq<char>, symbol: String, new_name: String, r: Seq<char>)
    requires
        edit_spec(s, EditOperation::Rename { symbol, new_name }) == Ok::<Seq<char>, EditFailure>(r),
    ensures
        find_seq_from(s, symbol@, 0) matches Some(p) && r.take(p) == s.take(p)
            && occurs_at(r, new_name@, p) && r.skip(p + new_name@.len()) == s.skip(p + symbol@.len()),
{
    let p = find_seq_from(s, symbol@, 0)->0;
    lemma_find_seq_from(s, symbol@, 0);
    assert(r.take(p) =~= s.take(p));
    assert(r.subrange(p, p + new_name@.len()) =~= new_name@);
    assert(r.skip(p + new_name@.len()) =~= s.skip(p + symbol@.len()));
}

/// Every successful edit keeps the text before the symbol's first
/// occurrence.
pub proof fn law_edit_keeps_text_before_symbol(s: Seq<char>, op: EditOperation, r: Seq<char>)
    requires
        edit_spec(s, op) == Ok::<Seq<char>, EditFailure>(r),
    ensures
        find_seq_from(s, op_symbol(op), 0) matches Some(p) && r.take(p) == s.take(p),
{
    let p = find_seq_from(s, op_symbol(op), 0)->0;
    lemma_find_seq_from(s, op_symbol(op), 0);
    match op {
        EditOperation::InsertBefore { .. } => {
            assert(r.take(p) =~= s.take(p));
        },
        EditOperation::InsertAfter { .. } => {
            let e = line_end(s, p);
            lemma_find_char_from(s, '\n', p);
            assert(p <= e <= s.len());
            assert(r.take(p) =~= s.take(p));
        },
        EditOperation::ReplaceBody { symbol, .. } => {
            let (o, c) = body_bounds(s, symbol@, p)->Ok_0;
            lemma_find_char_from(s, '{', p);
            assert(p <= o);
            assert(r.take(p) =~= s.take(p));
        },
        EditOperation::Delete { .. } => {
            assert(r.take(p) =~= s.take(p));
        },
        EditOperation::Rename { .. } => {
            assert(r.take(p) =~= s.take(p));
        },
    }
}

/// Replacing a body keeps the declaration up to and including its opening
/// brace and everything from the matching closing brace on; in between stands
/// the new body, ended by a line break.
pub proof fn law_replace_body_keeps_braces(s: Seq<char>, symbol: String, content: String, r: Seq<char>)
    requires
        edit_spec(s, EditOperation::ReplaceBody { symbol, content }) == Ok::<Seq<char>, EditFailure>(r),
    ensures
        find_seq_from(s, symbol@, 0) matches Some(p) && body_bounds(s, symbol@, p) matches Ok((o, c)) && {
            &&& s[o] == '{'
            &&& s[c] == '}'
            &&& r == s.take(o + 1) + content@ + closing_newline(content@) + s.skip(c)
        },
{
    let p = find_seq_from(s, symbol@, 0)->0;
    lemma_find_seq_from(s, symbol@, 0);
    lemma_find_char_from(s, '{', p);
    let (o, c) = body_bounds(s, symbol@, p)->Ok_0;
    lemma_closing_from_bounds(s, '{', '}', o + 1, 1);
}

/// Inserting after a symbol puts the content at the end of the line where
/// the symbol first occurs and keeps the text on both sides of it.
pub proof fn law_insert_after_ends_the_line(s: Seq<char>, symbol: String, content: String, r: Seq<char>)
    requires
        edit_spec(s, EditOperation::InsertAfter { symbol, content }) == Ok::<Seq<char>, EditFailure>(r),
    ensures
        find_seq_from(s, symbol@, 0) matches Some(p) && {
            let e = line_end(s, p);
            &&& p <= e <= s.len()
            &&& (e == s.len() || s[e] == '\n')
            &&& r == s.take(e) + content@ + s.skip(e)
        },
{
    let p = find_seq_from(s, symbol@, 0)->0;
    lemma_find_seq_from(s, symbol@, 0);
    lemma_find_char_from(s, '\n', p);
}

/// Once the symbol's pattern compiles, an edit of non-empty source fails
/// with `SymbolNotFound` exactly when the symbol occurs nowhere in it, and
/// then the error names the symbol.
pub proof fn law_symbol_not_found_exactly_when_absent(s: Seq<char>, op: EditOperation)
    requires
        s.len() > 0,
        literal_regex_error(op_symbol(op)) is None,
    ensures
        (edit_spec(s, op) matches Err(EditFailure::SymbolNotFound(_))) <==> forall|i: int|
            !#[trigger] occurs_at(s, op_symbol(op), i),
        (forall|i: int| !#[trigger] occurs_at(s, op_symbol(op), i)) ==> edit_spec(s, op) == Err::<
            Seq<char>,
            EditFailure,
        >(EditFailure::SymbolNotFound(op_symbol(op))),
{
    let sym = op_symbol(op);
    lemma_find_seq_from(s, sym, 0);
    if let Some(p) = find_seq_from(s, sym, 0) {
        assert(occurs_at(s, sym, p));
        assert(!(edit_at(s, op, p) matches Err(EditFailure::SymbolNotFound(_))));
    } else {
        assert forall|i: int| !#[trigger] occurs_at(s, sym, i) by {
            if i >= 0 {
                assert(!occurs_at(s, sym, i));
            }
        }
    }
}

/// Once the symbol's pattern compiles, an edit of non-empty source is made
/// at the symbol's first occurrence `p`: the result is `edit_at(s, op, p)`.
pub proof fn law_edit_anchors_at_first_occurrence(s: Seq<char>, op: EditOperation, p: int)
    requires
        s.len() > 0,
        literal_regex_error(op_symbol(op)) is None,
        occurs_at(s, op_symbol(op), p),
        forall|i: int| 0 <= i < p ==> !#[trigger] occurs_at(s, op_symbol(op), i),
    ensures
        edit_spec(s, op) == edit_at(s, op, p),
{
    lemma_find_seq_from(s, op_symbol(op), 0);
}

/// Deleting a symbol removes everything from its first occurrence through
/// the `}` that closes its body, and up to two line breaks after it.
pub proof fn law_delete_removes_declaration_and_body(s: Seq<char>, symbol: String, r: Seq<char>)
    requires
        edit_spec(s, EditOperation::Delete { symbol }) == Ok::<Seq<char>, EditFailure>(r),
    ensures
        find_seq_from(s, symbol@, 0) matches Some(p) && body_bounds(s, symbol@, p) matches Ok((o, c)) && {
            &&& p <= o < c < s.len()
            &&& s[o] == '{'
            &&& s[c] == '}'
            &&& r == s.take(p) + s.skip(c + 1 + blank_after(s, c + 1))
        },
{
    let p = find_seq_from(s, symbol@, 0)->0;
    lemma_find_seq_from(s, symbol@, 0);
    lemma_find_char_from(s, '{', p);
    let (o, c) = body_bounds(s, symbol@, p)->Ok_0;
    lemma_closing_from_bounds(s, '{', '}', o + 1, 1);
}

/// Inserting after a symbol puts the content at the first line break at or
/// after the symbol's first occurrence (or at the end of the text when none
/// follows): no line break lies between the occurrence and the insertion
/// point, and the text on both sides is kept.
pub proof fn law_insert_after_goes_to_first_line_break(s: Seq<char>, symbol: String, content: String, r: Seq<char>)
    requires
        edit_spec(s, EditOperation::InsertAfter { symbol, content }) == Ok::<Seq<char>, EditFailure>(r),
    ensures
        find_seq_from(s, symbol@, 0) matches Some(p) && exists|e: int|
            {
                &&& p <= e <= s.len()
                &&& (e == s.len() || s[e] == '\n')
                &&& forall|j: int| p <= j < e ==> s[j] != '\n'
                &&& r == #[trigger] s.take(e) + content@ + s.skip(e)
            },
{
    let p = find_seq_from(s, symbol@, 0)->0;
    lemma_find_seq_from(s, symbol@, 0);
    lemma_find_char_from(s, '\n', p);
    let e = line_end(s, p);
    assert(p <= e <= s.len());
    assert(forall|j: int| p <= j < e ==> s[j] != '\n');
    assert(r == s.take(e) + content@ + s.skip(e));
}

/// Deleting a symbol removes nothing after the closing `}` of its body but
/// line breaks: the `k` characters dropped after it are all line breaks, at
/// most two, and a line break that directly follows is dropped unless two
/// already were.
pub proof fn law_delete_drops_only_line_breaks_after_body(s: Seq<char>, symbol: String, r: Seq<char>)
    requires
        edit_spec(s, EditOperation::Delete { symbol }) == Ok::<Seq<char>, EditFailure>(r),
    ensures
        find_seq_from(s, symbol@, 0) matches Some(p) && body_bounds(s, symbol@, p) matches Ok((o, c)) && {
            let k = p + s.len() - (c + 1) - r.len();
            &&& s[c] == '}'
            &&& 0 <= k <= 2
            &&& c + 1 + k <= s.len()
            &&& forall|j: int| c + 1 <= j < c + 1 + k ==> s[j] == '\n'
            &&& (k < 2 && c + 1 + k < s.len() ==> s[c + 1 + k] != '\n')
            &&& r == s.take(p) + s.skip(c + 1 + k)
        },
{
    let p = find_seq_from(s, symbol@, 0)->0;
    lemma_find_seq_from(s, symbol@, 0);
    lemma_find_char_from(s, '{', p);
    let (o, c) = body_bounds(s, symbol@, p)->Ok_0;
    lemma_closing_from_bounds(s, '{', '}', o + 1, 1);
    let b = blank_after(s, c + 1);
    assert(p <= o);
    assert(r == s.take(p) + s.skip(c + 1 + b));
    assert(r.len() == p + s.len() - (c + 1 + b));
}

/// How many times `c` occurs in `t`.
pub open spec fn count_char(t: Seq<char>, c: char) -> nat
    decreases t.len(),
{
    if t.len() == 0 {
        0
    } else {
        count_char(t.drop_last(), c) + if t.last() == c {
            1nat
        } else {
            0nat
        }
    }
}

/// How many `open` delimiters of `s[from..to]` are left unclosed: its count
/// of `open` less its count of `close`.
pub open spec fn open_balance(s: Seq<char>, open: char, close: char, from: int, to: int) -> int {
    count_char(s.subrange(from, to), open) - count_char(s.subrange(from, to), close)
}

/// The closing delimiter of `open`: `}` for `{`, `)` for `(` and `]` for `[`.
pub open spec fn closer_of(open: char) -> char {
    if open == '{' {
        '}'
    } else if open == '(' {
        ')'
    } else {
        ']'
    }
}

/// Extending the range by one character moves the balance by that character.
proof fn lemma_balance_step(s: Seq<char>, open: char, close: char, from: int, to: int)
    requires
        0 <= from <= to < s.len(),
        open != close,
    ensures
        open_balance(s, open, close, from, to + 1) == open_balance(s, open, close, from, to) + if s[to]
            == open {
            1int
        } else if s[to] == close {
            -1int
        } else {
            0int
        },
{
    assert(s.subrange(from, to + 1).drop_last() =~= s.subrange(from, to));
}

/// Scanning on from `pos` with the balance so far `depth`, the closing
/// position found is the first at which the balance falls to zero.
proof fn lemma_closing_from_balance(s: Seq<char>, open: char, close: char, o: int, pos: int, depth: int)
    requires
        0 <= o < pos <= s.len(),
        open != close,
        depth == open_balance(s, open, close, o, pos),
        forall|j: int| o < j <= pos ==> #[trigger] open_balance(s, open, close, o, j) > 0,
    ensures
        closing_from(s, open, close, pos, depth) matches Some(k) ==> {
            &&& pos <= k < s.len()
            &&& s[k] == close
            &&& open_balance(s, open, close, o, k + 1) == 0
            &&& forall|j: int| o < j <= k ==> #[trigger] open_balance(s, open, close, o, j) > 0
        },
        closing_from(s, open, close, pos, depth) is None ==> forall|j: int|
            o < j <= s.len() ==> #[trigger] open_balance(s, open, close, o, j) > 0,
    decreases s.len() - pos,
{
    if pos >= s.len() {
    } else {
        lemma_balance_step(s, open, close, o, pos);
        if s[pos] == open {
            lemma_closing_from_balance(s, open, close, o, pos + 1, depth + 1);
        } else if s[pos] == close {
            if depth - 1 == 0 {
            } else {
                lemma_closing_from_balance(s, open, close, o, pos + 1, depth - 1);
            }
        } else {
            lemma_closing_from_balance(s, open, close, o, pos + 1, depth);
        }
    }
}

/// The delimiter matching the one at `o` (`{`, `(` or `[`) is the first
/// position `k` after it at which `s[o..=k]` holds as many closing as
/// opening delimiters of that kind (other kinds are not counted); there it
/// stands a closing delimiter. There is none exactly when no such position
/// exists.
pub proof fn law_matching_delimiter_balances(s: Seq<char>, o: int)
    requires
        0 <= o < s.len(),
        s[o] == '{' || s[o] == '(' || s[o] == '[',
    ensures
        matching_delimiter(s, o) matches Some(k) ==> {
            &&& o < k < s.len()
            &&& s[k] == closer_of(s[o])
            &&& open_balance(s, s[o], closer_of(s[o]), o, k + 1) == 0
            &&& forall|j: int| o < j <= k ==> #[trigger] open_balance(s, s[o], closer_of(s[o]), o, j) > 0
        },
        matching_delimiter(s, o) is None ==> forall|j: int|
            o < j <= s.len() ==> #[trigger] open_balance(s, s[o], closer_of(s[o]), o, j) > 0,
{
    let open = s[o];
    let close = closer_of(open);
    assert(s.subrange(o, o) =~= Seq::<char>::empty());
    assert(open_balance(s, open, close, o, o) == 0);
    lemma_balance_step(s, open, close, o, o);
    assert(open_balance(s, open, close, o, o + 1) == 1);
    lemma_closing_from_balance(s, open, close, o, o + 1, 1);
}

} // verus!
