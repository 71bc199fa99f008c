//! Search tools: the lines of a text and the lines that match a pattern.
use vstd::prelude::*;
use vstd::string::*;
use crate::pattern::{CompiledPattern, regex_compile_error, regex_is_match};
use crate::text::{chars_of, find_char, find_char_from, lemma_find_char_from, string_of};

verus! {

/// A single match result.
#[derive(Debug, Clone)]
pub struct SearchMatch {
    pub line_number: usize,
    pub content: String,
}

/// A line without the `'\r'` that precedes its `'\n'`.
pub open spec fn strip_cr(line: Seq<char>) -> Seq<char> {
    if line.len() > 0 && line.last() == '\r' {
        line.drop_last()
    } else {
        line
    }
}

/// The lines of `s`, as `str::lines` yields them: split at each `'\n'`, a
/// `'\r'` just before a `'\n'` dropped, and no empty line after a final
/// `'\n'`.
pub open spec fn lines_of(s: Seq<char>) -> Seq<Seq<char>>
    decreases s.len(),
{
    if s.len() == 0 {
        Seq::empty()
    } else {
        match find_char_from(s, '\n', 0) {
            None => seq![s],
            Some(i) => if 0 <= i < s.len() {
                seq![strip_cr(s.take(i))] + lines_of(s.skip(i + 1))
            } else {
                seq![s]
            },
        }
    }
}

/// The lines of `s`.
pub fn lines(s: &str) -> (ls: Vec<String>)
    ensures
        ls.deep_view() == lines_of(s@),
{
    let cs = chars_of(s);
    let n = cs.len();
    let mut ls: Vec<String> = Vec::new();
    let mut start: usize = 0;
    assert(s@.skip(0) =~= s@);
    assert(ls.deep_view() + lines_of(s@) =~= lines_of(s@));
    while start < n
        invariant
            cs@ == s@,
            n == cs@.len(),
            start <= n,
            ls.deep_view() + lines_of(s@.skip(start as int)) == lines_of(s@),
        decreases n - start,
    {
        let ghost rest = s@.skip(start as int);
        proof {
            lemma_find_char_from(cs@, '\n', start as int);
            lemma_find_char_from(rest, '\n', 0);
            lemma_find_from_shift(cs@, '\n', start as int);
        }
        match find_char(&cs, '\n', start) {
            None => {
                let line = string_of(&cs, start, n);
                assert(line@ =~= rest);
                let ghost before = ls.deep_view();
                ls.push(line);
                assert(ls.deep_view() =~= before.push(rest));
                assert(s@.skip(n as int) =~= Seq::<char>::empty());
                assert(lines_of(rest) == seq![rest]);
                assert(ls.deep_view() + lines_of(s@.skip(n as int)) =~= before + lines_of(rest));
                start = n;
            },
            Some(i) => {
                let mut end = i;
                if end > start && cs[end - 1] == '\r' {
                    end = end - 1;
                }
                let line = string_of(&cs, start, end);
                let ghost k = i - start;
                assert(rest.take(k) =~= cs@.subrange(start as int, i as int));
                assert(line@ =~= strip_cr(rest.take(k)));
                let ghost before = ls.deep_view();
                ls.push(line);
                assert(ls.deep_view() =~= before.push(strip_cr(rest.take(k))));
                assert(rest.skip(k + 1) =~= s@.skip(i + 1));
                assert(lines_of(rest) == seq![strip_cr(rest.take(k))] + lines_of(rest.skip(k + 1)));
                assert(ls.deep_view() + lines_of(s@.skip(i + 1)) =~= before + lines_of(rest));
                start = i + 1;
            },
        }
    }
    assert(s@.skip(start as int) =~= Seq::<char>::empty());
    assert(ls.deep_view() + Seq::<Seq<char>>::empty() =~= ls.deep_view());
    ls
}

/// Searching from `start` in `s` is searching from `0` in `s.skip(start)`,
/// shifted by `start`.
proof fn lemma_find_from_shift(s: Seq<char>, c: char, start: int)
    requires
        0 <= start <= s.len(),
    ensures
        match find_char_from(s, c, start) {
            None => find_char_from(s.skip(start), c, 0) is None,
            Some(i) => find_char_from(s.skip(start), c, 0) == Some(i - start),
        },
    decreases s.len() - start,
{
    lemma_find_char_from(s, c, start);
    lemma_find_char_from(s.skip(start), c, 0);
    match find_char_from(s, c, start) {
        None => {
            if find_char_from(s.skip(start), c, 0) is Some {
                let j = find_char_from(s.skip(start), c, 0)->0;
                assert(s[start + j] == s.skip(start)[j]);
            }
        },
        Some(i) => {
            match find_char_from(s.skip(start), c, 0) {
                None => {
                    assert(s.skip(start)[i - start] == s[i]);
                },
                Some(j) => {
                    assert(s.skip(start)[j] == s[start + j]);
                    assert(s.skip(start)[i - start] == s[i]);
                    if j < i - start {
                        assert(s[start + j] != c);
                    }
                },
            }
        },
    }
}

/// The matches of `pattern` among `ls`: each matching line with its number,
/// counting from 1.
pub open spec fn matching_lines(pattern: Seq<char>, ls: Seq<Seq<char>>) -> Seq<(int, Seq<char>)>
    decreases ls.len(),
{
    if ls.len() == 0 {
        Seq::empty()
    } else {
        let r = matching_lines(pattern, ls.drop_last());
        if regex_is_match(pattern, ls.last()) {
            r.push((ls.len() as int, ls.last()))
        } else {
            r
        }
    }
}

/// The mathematical value of search results.
pub open spec fn matches_view(ms: Seq<SearchMatch>) -> Seq<(int, Seq<char>)> {
    ms.map_values(|m: SearchMatch| (m.line_number as int, m.content@))
}

/// The message of a pattern that does not compile.
pub open spec fn invalid_pattern_text(pattern: Seq<char>, detail: Seq<char>) -> Seq<char> {
    "Invalid regex pattern '"@ + pattern + "': "@ + detail
}

/// The lines of `content` that match the regular expression `pattern`, with
/// their line numbers; `Err` with a message when the pattern does not compile.
pub fn search_in_content(content: &str, pattern: &str) -> (res: Result<Vec<SearchMatch>, String>)
    ensures
        match regex_compile_error(pattern@) {
            Some(e) => res matches Err(m) && m@ == invalid_pattern_text(pattern@, e),
            None => res matches Ok(ms) && matches_view(ms@) == matching_lines(
                pattern@,
                lines_of(content@),
            ),
        },
{
    let re = match CompiledPattern::compile(pattern) {
        Err(e) => {
            let mut m = String::from_str("Invalid regex pattern '");
            m.append(pattern);
            m.append("': ");
            m.append(e.as_str());
            return Err(m);
        },
        Ok(re) => re,
    };
    let ls = lines(content);
    let ghost all = lines_of(content@);
    let mut out: Vec<SearchMatch> = Vec::new();
    let mut i: usize = 0;
    assert(all.take(0) =~= Seq::<Seq<char>>::empty());
    assert(matches_view(out@) =~= Seq::<(int, Seq<char>)>::empty());
    while i < ls.len()
        invariant
            ls.deep_view() == all,
            re.source() == pattern@,
            i <= ls@.len(),
            matches_view(out@) == matching_lines(pattern@, all.take(i as int)),
        decreases ls.len() - i,
    {
        let line = &ls[i];
        assert(all[i as int] == line@);
        assert(all.take(i + 1).drop_last() =~= all.take(i as int));
        assert(all.take(i + 1).last() == line@);
        if re.is_match(line.as_str()) {
            let ghost before = out@;
            out.push(SearchMatch { line_number: i + 1, content: line.clone() });
            assert(matches_view(out@) =~= matches_view(before).push(((i + 1) as int, line@)));
        }
        i = i + 1;
    }
    assert(all.take(ls@.len() as int) =~= all);
    Ok(out)
}

/// Register search tools (tools are registered at the MCP level).
pub fn register() {
}

} // verus!
