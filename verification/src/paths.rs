//! File names and extensions of `/`-separated paths, as `std::path::Path`
//! reads them on Unix.
use vstd::prelude::*;

use crate::text::{find_char, find_char_from, lemma_find_char_from};

verus! {

/// The pieces of `s` between `'/'` separators (empty pieces included).
pub open spec fn split_slash(s: Seq<char>) -> Seq<Seq<char>>
    decreases s.len(),
{
    match find_char_from(s, '/', 0) {
        None => seq![s],
        Some(i) => if 0 <= i < s.len() {
            seq![s.take(i)] + split_slash(s.skip(i + 1))
        } else {
            seq![s]
        },
    }
}

/// The last component of a path: the last piece that is neither empty nor
/// `"."`; `None` if there is none or if it is `".."`.
pub open spec fn last_name(parts: Seq<Seq<char>>) -> Option<Seq<char>>
    decreases parts.len(),
{
    if parts.len() == 0 {
        None
    } else {
        let c = parts.last();
        if c.len() == 0 || c == seq!['.'] {
            last_name(parts.drop_last())
        } else if c == seq!['.', '.'] {
            None
        } else {
            Some(c)
        }
    }
}

/// The final component of a path, as `Path::file_name` gives it.
pub open spec fn path_file_name(p: Seq<char>) -> Option<Seq<char>> {
    last_name(split_slash(p))
}

/// The last index of `c` in `s`, if any.
pub open spec fn last_index_of(s: Seq<char>, c: char) -> Option<int>
    decreases s.len(),
{
    if s.len() == 0 {
        None
    } else if s.last() == c {
        Some(s.len() - 1)
    } else {
        last_index_of(s.drop_last(), c)
    }
}

/// The extension of a path, as `Path::extension` gives it: the part of the
/// file name after its last `'.'`, unless the name has no `'.'` or its only
/// `'.'` is the first character.
pub open spec fn path_extension(p: Seq<char>) -> Option<Seq<char>> {
    match path_file_name(p) {
        None => None,
        Some(name) => match last_index_of(name, '.') {
            None => None,
            Some(d) => if d == 0 {
                None
            } else {
                Some(name.skip(d + 1))
            },
        },
    }
}

/// The pieces of `s` between separators, computed left to right.
fn split_pieces(s: &Vec<char>) -> (parts: Vec<Vec<char>>)
    ensures
        parts.deep_view() == split_slash(s@),
{
    let n = s.len();
    let mut parts: Vec<Vec<char>> = Vec::new();
    let mut start: usize = 0;
    assert(s@.skip(0) =~= s@);
    loop
        invariant
            n == s@.len(),
            start <= n,
            parts.deep_view() + split_slash(s@.skip(start as int)) == split_slash(s@),
        decreases n - start,
    {
        let ghost rest = s@.skip(start as int);
        proof {
            lemma_find_char_from(s@, '/', start as int);
            lemma_find_char_from(rest, '/', 0);
        }
        let next = find_char(s, '/', start);
        let mut piece: Vec<char> = Vec::new();
        let end = match next {
            Some(e) => e,
            None => n,
        };
        let mut k = start;
        while k < end
            invariant
                start <= k <= end <= n,
                n == s@.len(),
                piece@ == s@.subrange(start as int, k as int),
            decreases end - k,
        {
            piece.push(s[k]);
            k = k + 1;
            assert(piece@ =~= s@.subrange(start as int, k as int));
        }
        let ghost before = parts.deep_view();
        assert(piece.deep_view() =~= piece@);
        parts.push(piece);
        assert(parts.deep_view() =~= before.push(piece@));
        match next {
            None => {
                proof {
                    assert(find_char_from(rest, '/', 0) is None) by {
                        assert forall|j: int| 0 <= j < rest.len() implies rest[j] != '/' by {
                            assert(rest[j] == s@[start + j]);
                        }
                        lemma_find_char_from_none(rest, '/', 0);
                    }
                    assert(rest =~= s@.subrange(start as int, n as int));
                    assert(parts.deep_view() =~= before + seq![rest]);
                    assert(split_slash(rest) == seq![rest]);
                }
                return parts;
            },
            Some(e) => {
                proof {
                    let i = e - start;
                    assert(find_char_from(rest, '/', 0) == Some(i)) by {
                        assert(rest[i] == '/');
                        assert forall|j: int| 0 <= j < i implies rest[j] != '/' by {
                            assert(rest[j] == s@[start + j]);
                        }
                        lemma_find_char_from_first(rest, '/', 0, i);
                    }
                    assert(rest.take(i) =~= s@.subrange(start as int, e as int));
                    assert(rest.skip(i + 1) =~= s@.skip(e + 1));
                    assert(parts.deep_view() =~= before + seq![rest.take(i)]);
                    assert(split_slash(rest) == seq![rest.take(i)] + split_slash(rest.skip(i + 1)));
                    assert(parts.deep_view() + split_slash(s@.skip(e + 1)) =~= before + split_slash(rest));
                }
                start = e + 1;
            },
        }
    }
}

/// `find_char_from` finds nothing when no character from `from` on matches.
proof fn lemma_find_char_from_none(s: Seq<char>, c: char, from: int)
    requires
        0 <= from,
        forall|j: int| from <= j < s.len() ==> s[j] != c,
    ensures
        find_char_from(s, c, from) is None,
    decreases s.len() - from,
{
    if from < s.len() {
        lemma_find_char_from_none(s, c, from + 1);
    }
}

/// `find_char_from` finds the first match.
proof fn lemma_find_char_from_first(s: Seq<char>, c: char, from: int, i: int)
    requires
        0 <= from <= i < s.len(),
        s[i] == c,
        forall|j: int| from <= j < i ==> s[j] != c,
    ensures
        find_char_from(s, c, from) == Some(i),
    decreases i - from,
{
    if from < i {
        lemma_find_char_from_first(s, c, from + 1, i);
    }
}

/// The final component of `path`, as `Path::file_name` gives it.
pub fn file_name(path: &Vec<char>) -> (res: Option<Vec<char>>)
    ensures
        match path_file_name(path@) {
            Some(name) => res matches Some(v) && v@ == name,
            None => res is None,
        },
{
    let parts = split_pieces(path);
    let mut i = parts.len();
    assert(parts.deep_view().take(i as int) =~= parts.deep_view());
    while i > 0
        invariant
            i <= parts@.len(),
            parts.deep_view() == split_slash(path@),
            last_name(parts.deep_view().take(i as int)) == last_name(split_slash(path@)),
        decreases i,
    {
        let ghost pre = parts.deep_view().take(i as int);
        assert(pre.last() == parts@[i - 1]@);
        assert(pre.drop_last() =~= parts.deep_view().take(i - 1));
        let c = &parts[i - 1];
        let len = c.len();
        if len == 0 || (len == 1 && c[0] == '.') {
            proof {
                if len == 1 {
                    assert(c@ =~= seq!['.']);
                }
            }
            i = i - 1;
        } else if len == 2 && c[0] == '.' && c[1] == '.' {
            assert(c@ =~= seq!['.', '.']);
            return None;
        } else {
            proof {
                if len == 1 {
                    assert(c@ != seq!['.']);
                }
                if len == 2 {
                    assert(c@ != seq!['.', '.']);
                }
            }
            let mut name: Vec<char> = Vec::new();
            let mut k: usize = 0;
            while k < len
                invariant
                    k <= len == c@.len(),
                    name@ == c@.take(k as int),
                decreases len - k,
            {
                name.push(c[k]);
                k = k + 1;
                assert(name@ =~= c@.take(k as int));
            }
            assert(name@ =~= c@);
            return Some(name);
        }
    }
    None
}

/// The extension of `path`, as `Path::extension` gives it.
pub fn extension(path: &Vec<char>) -> (res: Option<Vec<char>>)
    ensures
        match path_extension(path@) {
            Some(ext) => res matches Some(v) && v@ == ext,
            None => res is None,
        },
{
    let name = match file_name(path) {
        Some(n) => n,
        None => {
            return None;
        },
    };
    assert(path_file_name(path@) == Some(name@));
    let mut i = name.len();
    assert(name@.take(i as int) =~= name@);
    while i > 0
        invariant
            path_file_name(path@) == Some(name@),
            i <= name@.len(),
            last_index_of(name@.take(i as int), '.') == last_index_of(name@, '.'),
        decreases i,
    {
        assert(name@.take(i as int).drop_last() =~= name@.take(i - 1));
        assert(name@.take(i as int).last() == name@[i - 1]);
        if name[i - 1] == '.' {
            assert(last_index_of(name@.take(i as int), '.') == Some(i - 1));
            if i - 1 == 0 {
                return None;
            }
            let mut ext: Vec<char> = Vec::new();
            let mut k = i;
            while k < name.len()
                invariant
                    i <= k <= name@.len(),
                    ext@ == name@.subrange(i as int, k as int),
                decreases name.len() - k,
            {
                ext.push(name[k]);
                k = k + 1;
                assert(ext@ =~= name@.subrange(i as int, k as int));
            }
            assert(ext@ =~= name@.skip(i as int));
            return Some(ext);
        }
        i = i - 1;
    }
    assert(name@.take(0) =~= Seq::<char>::empty());
    None
}

} // verus!
