//! File tools: listing order, file-name patterns, search and replace, and
//! the messages the tools answer with.
use vstd::prelude::*;
use vstd::string::*;
use crate::sorting::{Named, named, sort_by_name, sorted_by_name};
use crate::text::{
    chars_of, count_matches, find_seq, find_seq_from, lemma_find_seq_from, matches_at, occurs_at, replace_all,
    replace_counting,
};

verus! {

/// A directory entry.
#[derive(Debug, Clone)]
pub struct DirEntry {
    pub name: String,
    pub is_dir: bool,
    pub is_file: bool,
    pub is_symlink: bool,
}

impl Named for DirEntry {
    open spec fn name_view(&self) -> Seq<char> {
        self.name@
    }

    fn sort_name(&self) -> (n: &str) {
        self.name.as_str()
    }
}

/// Directory entries in order of name, as `list_dir` answers them.
pub fn sort_entries(entries: Vec<DirEntry>) -> (r: Vec<DirEntry>)
    ensures
        sorted_by_name(r@),
        r@.to_multiset() == entries@.to_multiset(),
        forall|k: Seq<char>| #[trigger] named(r@, k) == named(entries@, k),
{
    sort_by_name(entries)
}

/// `s` begins with `pre`.
pub open spec fn starts_with(s: Seq<char>, pre: Seq<char>) -> bool {
    pre.len() <= s.len() && s.take(pre.len() as int) == pre
}

/// `s` ends with `suf`.
pub open spec fn ends_with(s: Seq<char>, suf: Seq<char>) -> bool {
    suf.len() <= s.len() && s.skip(s.len() - suf.len()) == suf
}

/// `p` occurs somewhere in `s`.
pub open spec fn contains_text(s: Seq<char>, p: Seq<char>) -> bool {
    find_seq_from(s, p, 0) is Some
}

/// Whether a file name matches a `find_file` pattern: `*suffix` matches names
/// ending in `suffix`, `prefix*` names beginning with `prefix`, and any other
/// pattern names that contain it.
pub open spec fn file_pattern_matches(pattern: Seq<char>, name: Seq<char>) -> bool {
    if pattern.len() > 0 && pattern[0] == '*' {
        ends_with(name, pattern.skip(1))
    } else if pattern.len() > 0 && pattern.last() == '*' {
        starts_with(name, pattern.drop_last())
    } else {
        contains_text(name, pattern)
    }
}

/// A pattern `*x` matches exactly the names whose last `x.len()` characters
/// are `x`.
pub proof fn law_star_prefix_matches_suffix(x: Seq<char>, name: Seq<char>)
    ensures
        file_pattern_matches(seq!['*'] + x, name) <==> (x.len() <= name.len() && name.subrange(
            name.len() - x.len(),
            name.len() as int,
        ) == x),
{
    let pat = seq!['*'] + x;
    assert(pat.skip(1) =~= x);
    assert(name.skip(name.len() - x.len()) =~= name.subrange(name.len() - x.len(), name.len() as int));
}

/// A pattern `x*` (with `x` not starting with `*`) matches exactly the names
/// whose first `x.len()` characters are `x`.
pub proof fn law_star_suffix_matches_prefix(x: Seq<char>, name: Seq<char>)
    requires
        !(x.len() > 0 && x[0] == '*'),
    ensures
        file_pattern_matches(x + seq!['*'], name) <==> (x.len() <= name.len() && name.subrange(
            0,
            x.len() as int,
        ) == x),
{
    let pat = x + seq!['*'];
    assert(pat.drop_last() =~= x);
    assert(pat.last() == '*');
    if x.len() == 0 {
        assert(pat.skip(1) =~= x);
        assert(name.skip(name.len() as int) =~= x);
        assert(name.subrange(0, 0) =~= x);
    } else {
        assert(pat[0] == x[0]);
        if x.len() <= name.len() {
            assert(name.take(x.len() as int) =~= name.subrange(0, x.len() as int));
        }
    }
}

/// A pattern with no `*` at either end matches exactly the names in which
/// it occurs somewhere.
pub proof fn law_plain_pattern_matches_substring(x: Seq<char>, name: Seq<char>)
    requires
        !(x.len() > 0 && (x[0] == '*' || x.last() == '*')),
    ensures
        file_pattern_matches(x, name) <==> exists|i: int|
            0 <= i && i + x.len() <= name.len() && #[trigger] name.subrange(i, i + x.len()) == x,
{
    lemma_find_seq_from(name, x, 0);
    if find_seq_from(name, x, 0) is Some {
        let k = find_seq_from(name, x, 0)->0;
        assert(occurs_at(name, x, k));
        assert(name.subrange(k, k + x.len()) == x);
    } else {
        assert forall|i: int| 0 <= i && i + x.len() <= name.len() implies #[trigger] name.subrange(i, i + x.len()) != x by {
            assert(!occurs_at(name, x, i));
        }
    }
}

/// Whether the file name `name` matches the `find_file` pattern `pattern`.
pub fn name_matches(pattern: &str, name: &str) -> (b: bool)
    ensures
        b == file_pattern_matches(pattern@, name@),
{
    let p = chars_of(pattern);
    let n = chars_of(name);
    let plen = p.len();
    let nlen = n.len();
    if plen > 0 && p[0] == '*' {
        let mut suffix: Vec<char> = Vec::new();
        let mut k: usize = 1;
        while k < plen
            invariant
                1 <= k <= plen == p@.len(),
                suffix@ == p@.subrange(1, k as int),
            decreases plen - k,
        {
            suffix.push(p[k]);
            k = k + 1;
            assert(suffix@ =~= p@.subrange(1, k as int));
        }
        assert(suffix@ =~= p@.skip(1));
        if suffix.len() > nlen {
            return false;
        }
        let b = matches_at(&n, &suffix, nlen - suffix.len());
        proof {
            if b {
                assert(n@.skip(nlen - suffix@.len()) =~= n@.subrange(
                    nlen - suffix@.len(),
                    nlen as int,
                ));
            } else {
                assert(n@.skip(nlen - suffix@.len()) =~= n@.subrange(
                    nlen - suffix@.len(),
                    nlen as int,
                ));
            }
        }
        b
    } else if plen > 0 && p[plen - 1] == '*' {
        let mut prefix: Vec<char> = Vec::new();
        let mut k: usize = 0;
        while k < plen - 1
            invariant
                0 < plen == p@.len(),
                k <= plen - 1,
                prefix@ == p@.take(k as int),
            decreases plen - k,
        {
            prefix.push(p[k]);
            k = k + 1;
            assert(prefix@ =~= p@.take(k as int));
        }
        assert(prefix@ =~= p@.drop_last());
        let b = matches_at(&n, &prefix, 0);
        proof {
            assert(n@.take(prefix@.len() as int) =~= n@.subrange(0, prefix@.len() as int));
        }
        b
    } else {
        find_seq(&n, &p, 0).is_some()
    }
}

/// The content of a file after replacing every occurrence of `search` by
/// `replacement`, and the number of occurrences; the new content is `None`
/// when there was nothing to replace (the file is then left as it is).
pub fn replace_in_content(content: &str, search: &str, replacement: &str) -> (res: (
    Option<String>,
    usize,
))
    requires
        search@.len() > 0 || content@.len() < usize::MAX,
    ensures
        res.1 == count_matches(content@, search@),
        res.1 > 0 ==> (res.0 matches Some(c) && c@ == replace_all(content@, search@, replacement@)),
        res.1 == 0 ==> res.0 is None,
{
    let (replaced, count) = replace_counting(content, search, replacement);
    if count > 0 {
        (Some(replaced), count)
    } else {
        (None, count)
    }
}

/// The message of a file that could not be read: `Cannot read file '{path}':
/// {detail}`.
pub open spec fn cannot_read_text(path: Seq<char>, detail: Seq<char>) -> Seq<char> {
    "Cannot read file '"@ + path + "': "@ + detail
}

/// The message of a file that could not be read.
pub fn cannot_read_message(path: &str, detail: &str) -> (m: String)
    ensures
        m@ == cannot_read_text(path@, detail@),
{
    let mut m = String::from_str("Cannot read file '");
    m.append(path);
    m.append("': ");
    m.append(detail);
    m
}

/// The message of a `find_file` root that is not a directory.
pub open spec fn not_a_directory_text(dir: Seq<char>) -> Seq<char> {
    "Not a directory: '"@ + dir + "'"@
}

/// `find_file` searches only below a directory: `Err` with its message when
/// `dir` is not one (`is_dir` tells whether it is).
pub fn check_search_root(dir: &str, is_dir: bool) -> (res: Result<(), String>)
    ensures
        is_dir ==> res is Ok,
        !is_dir ==> (res matches Err(m) && m@ == not_a_directory_text(dir@)),
{
    if is_dir {
        return Ok(());
    }
    let mut m = String::from_str("Not a directory: '");
    m.append(dir);
    m.append("'");
    Err(m)
}

/// Register file tools (tools are registered at the MCP level).
pub fn register() {
}

} // verus!
