//! Shared text and path utilities.
use vstd::prelude::*;
use vstd::string::*;

use crate::text::{chars_of, push_char, replace_all, replace_counting};

verus! {

/// A path separator written the Unix way: `'\\'` becomes `'/'`.
pub open spec fn unix_separator(c: char) -> char {
    if c == '\\' {
        '/'
    } else {
        c
    }
}

/// `path` with every backslash turned into a forward slash.
pub open spec fn normalized_path(path: Seq<char>) -> Seq<char> {
    path.map_values(|c: char| unix_separator(c))
}

/// Turn every `'\\'` of a path into `'/'`.
pub fn normalize_path(path: &str) -> (res: String)
    ensures
        res@ == normalized_path(path@),
{
    let chars = chars_of(path);
    let mut out = String::new();
    let mut i: usize = 0;
    while i < chars.len()
        invariant
            chars@ == path@,
            i <= chars@.len(),
            out@ =~= normalized_path(path@).take(i as int),
        decreases chars.len() - i,
    {
        let c = chars[i];
        let d = if c == '\\' {
            '/'
        } else {
            c
        };
        push_char(&mut out, d);
        i = i + 1;
    }
    out
}

/// Turn every `"\r\n"` into `"\n"`, scanning left to right.
pub fn normalize_line_endings(text: &str) -> (res: String)
    ensures
        res@ == replace_all(text@, "\r\n"@, "\n"@),
{
    proof {
        reveal_strlit("\r\n");
    }
    let (out, _count) = replace_counting(text, "\r\n", "\n");
    out
}

/// A normalised path holds no backslash, and normalising it again changes
/// nothing.
pub proof fn law_normalized_path_is_stable(path: Seq<char>)
    ensures
        !normalized_path(path).contains('\\'),
        normalized_path(normalized_path(path)) == normalized_path(path),
{
    assert(normalized_path(normalized_path(path)) =~= normalized_path(path));
}

/// Text without carriage returns has no line endings to normalise: it comes
/// back unchanged.
pub proof fn law_line_endings_without_cr_unchanged(text: Seq<char>)
    requires
        !text.contains('\r'),
    ensures
        replace_all(text, "\r\n"@, "\n"@) == text,
    decreases text.len(),
{
    reveal_strlit("\r\n");
    reveal_strlit("\n");
    if text.len() >= 2 {
        assert(text.take(2)[0] == text[0]);
        assert(text.take(2) != "\r\n"@);
        assert(!text.drop_first().contains('\r')) by {
            if text.drop_first().contains('\r') {
                let k = choose|k: int| 0 <= k < text.drop_first().len() && text.drop_first()[k] == '\r';
                assert(text[k + 1] == '\r');
            }
        }
        law_line_endings_without_cr_unchanged(text.drop_first());
        assert(seq![text[0]] + text.drop_first() =~= text);
    }
}

} // verus!
