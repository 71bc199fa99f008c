//! Persistent memories: where each one lives on disk, how its id is formed,
//! how its markdown file is framed, and how listings are ordered and filtered.
//!
//! Each memory is a markdown file `{base}/{namespace}/{id}.md` made of a YAML
//! front matter block between `---` lines, then the content. Reading and
//! writing the files, and the YAML itself, are the application's part; the
//! library decides the paths, the ids, the framing and the listings.
use vstd::prelude::*;
use vstd::string::*;
use crate::paths::{extension, file_name, last_index_of, path_file_name, split_slash};
use crate::sorting::{named, sort_by_name, sorted_by_name};
use crate::text::{
    find_char_from, lemma_find_char_from, is_white_space, occurs_at, trim_end, trim_start, str_equal, chars_of, find_seq, find_seq_from, lemma_find_seq_from, push_char, string_of, trim, trim_bounds,
};

verus! {

/// A persistent memory stored as a markdown file.
#[derive(Debug, Clone)]
pub struct MemoryEntry {
    /// Unique identifier (filename stem).
    pub id: String,
    /// Semantic tag/key for categorisation.
    pub tag: String,
    /// The memory content (markdown body).
    pub content: String,
    /// ISO-8601 creation timestamp.
    pub created_at: String,
    /// ISO-8601 last-updated timestamp.
    pub updated_at: String,
}

/// `p` appended to `base` as a path: an absolute `p` replaces `base`, and a
/// separator is put between them unless `base` is empty or already ends in one.
pub open spec fn path_join(base: Seq<char>, p: Seq<char>) -> Seq<char> {
    if p.len() > 0 && p[0] == '/' {
        p
    } else if base.len() == 0 || base.last() == '/' {
        base + p
    } else {
        base + seq!['/'] + p
    }
}

/// `p` appended to `base` as a path.
pub fn join_path(base: &str, p: &str) -> (r: String)
    ensures
        r@ == path_join(base@, p@),
{
    let pc = chars_of(p);
    let bc = chars_of(base);
    if pc.len() > 0 && pc[0] == '/' {
        return p.to_owned();
    }
    let mut r = base.to_owned();
    if bc.len() > 0 && bc[bc.len() - 1] != '/' {
        push_char(&mut r, '/');
    }
    r.append(p);
    r
}

/// The file name of the memory `id`.
pub open spec fn memory_file_name(id: Seq<char>) -> Seq<char> {
    id + seq!['.', 'm', 'd']
}

/// The character kept in a sanitised tag for `c`: letters, digits, `-` and
/// `_` stay, anything else becomes `_`.
pub open spec fn tag_char(c: char) -> char {
    if alphanumeric_char(c) || c == '-' || c == '_' {
        c
    } else {
        '_'
    }
}

/// `tag` made safe for a file name.
pub open spec fn sanitized_tag(tag: Seq<char>) -> Seq<char> {
    tag.map_values(|c: char| tag_char(c))
}

/// The id of a memory tagged `tag` created at the time stamp `stamp`.
pub open spec fn memory_id(tag: Seq<char>, stamp: Seq<char>) -> Seq<char> {
    sanitized_tag(tag) + seq!['_'] + stamp
}

/// Whether `c` is alphabetic or numeric in the Unicode sense
/// (`char::is_alphanumeric`).
pub uninterp spec fn alphanumeric_char(c: char) -> bool;

/// `char::is_alphanumeric`: whether `c` has the Unicode `Alphabetic` property
/// or is numeric. The answer is named, not stated: it comes from Unicode's
/// tables.
#[verifier::external_body]
fn is_alphanumeric(c: char) -> (b: bool)
    ensures
        b == alphanumeric_char(c),
{
    c.is_alphanumeric()
}

/// The `chrono` format of the time stamp in a memory id: `YYYYMMDDhhmmss`
/// followed by the milliseconds.
pub open spec fn stamp_format() -> Seq<char> {
    "%Y%m%d%H%M%S%3f"@
}

/// The format of the time stamp in a memory id.
fn stamp_format_text() -> (f: &'static str)
    ensures
        f@ == stamp_format(),
{
    proof {
        reveal_strlit("%Y%m%d%H%M%S%3f");
    }
    "%Y%m%d%H%M%S%3f"
}

/// The current UTC time written with the `chrono` format `format`
/// (`chrono::Utc::now`, then `DateTime::format` and `to_string`). The time
/// value stays inside: `DateTime`'s time-zone parameter is bound by a trait of
/// `chrono`, so the type is not declared here.
///
/// Nothing is stated of the text: it depends on the clock. Writing panics
/// for a format that `chrono` cannot render, so only the stamp format, which
/// it can, is admitted.
#[verifier::external_body]
fn utc_now_formatted(format: &str) -> (s: String)
    requires
        format@ == stamp_format(),
{
    chrono::Utc::now().format(format).to_string()
}

/// The current UTC time in RFC 3339 form (`chrono::Utc::now`, then
/// `DateTime::to_rfc3339`).
///
/// Nothing is stated of the text: it depends on the clock.
#[verifier::external_body]
fn utc_rfc3339() -> (s: String) {
    chrono::Utc::now().to_rfc3339()
}

/// `tag` with every character that is not a letter, a digit, `-` or `_`
/// replaced by `_`.
pub fn sanitize_tag(tag: &str) -> (r: String)
    ensures
        r@ == sanitized_tag(tag@),
{
    let cs = chars_of(tag);
    let mut r = String::new();
    let mut i: usize = 0;
    while i < cs.len()
        invariant
            cs@ == tag@,
            i <= cs@.len(),
            r@ == sanitized_tag(tag@.take(i as int)),
        decreases cs.len() - i,
    {
        let c = cs[i];
        let keep = if is_alphanumeric(c) || c == '-' || c == '_' {
            c
        } else {
            '_'
        };
        push_char(&mut r, keep);
        i = i + 1;
        assert(sanitized_tag(tag@.take(i as int)) =~= sanitized_tag(tag@.take(i - 1)).push(
            tag_char(c),
        ));
    }
    assert(tag@.take(cs@.len() as int) =~= tag@);
    r
}

/// The id of a memory tagged `tag` created at the time stamp `stamp`: the
/// sanitised tag, `_`, then the stamp.
pub fn compose_memory_id(tag: &str, stamp: &str) -> (id: String)
    ensures
        id@ == memory_id(tag@, stamp@),
{
    let mut id = sanitize_tag(tag);
    push_char(&mut id, '_');
    id.append(stamp);
    id
}

/// The text of a memory file: the serialised front matter between `---`
/// lines, a blank line, then the content.
pub open spec fn memory_file_text(front_matter: Seq<char>, content: Seq<char>) -> Seq<char> {
    seq!['-', '-', '-', '\n'] + front_matter + seq!['-', '-', '-', '\n', '\n'] + content
}

/// The text of a memory file, from its serialised front matter (which ends in
/// a newline, as YAML serialisers write it) and its content.
pub fn render_memory_file(front_matter: &str, content: &str) -> (text: String)
    ensures
        text@ == memory_file_text(front_matter@, content@),
{
    proof {
        reveal_strlit("---\n");
        reveal_strlit("---\n\n");
    }
    let mut text = String::from_str("---\n");
    text.append(front_matter);
    text.append("---\n\n");
    text.append(content);
    text
}

/// The marker that opens a front matter block.
pub open spec fn open_marker() -> Seq<char> {
    seq!['-', '-', '-']
}

/// The marker that closes a front matter block.
pub open spec fn close_marker() -> Seq<char> {
    seq!['\n', '-', '-', '-']
}

/// The front matter block of a memory file, split from its body.
///
/// The trimmed text must start with `---`; the YAML runs from there to the
/// first `\n---`. `None` when either is missing. The body is what follows the
/// closing marker and one more character, trimmed; it is `None` when no
/// character follows the marker or the next one is not ASCII, the inputs on
/// which a reader that skips one byte there would cut the text in the wrong
/// place.
pub open spec fn front_matter_parts(raw: Seq<char>) -> Option<(Seq<char>, Option<Seq<char>>)> {
    let t = trim(raw);
    if t.len() < 3 || t.take(3) != open_marker() {
        None
    } else {
        let rest = t.skip(3);
        match find_seq_from(rest, close_marker(), 0) {
            None => None,
            Some(end) => {
                let after = end + 4;
                let body = if after < rest.len() && (rest[after] as u32) < 128 {
                    Some(trim(rest.skip(after + 1)))
                } else {
                    None
                };
                Some((rest.take(end), body))
            },
        }
    }
}

/// The YAML front matter of a memory file and its body (see
/// `front_matter_parts`).
pub fn split_front_matter(raw: &str) -> (res: Option<(String, Option<String>)>)
    ensures
        match front_matter_parts(raw@) {
            None => res is None,
            Some((yaml, body)) => res matches Some((y, b)) && y@ == yaml && match body {
                None => b is None,
                Some(bd) => b matches Some(bb) && bb@ == bd,
            },
        },
{
    let cs = chars_of(raw);
    let (lo, hi) = trim_bounds(&cs, 0);
    assert(cs@.skip(0) =~= cs@);
    let t = string_of(&cs, lo, hi);
    let tc = chars_of(t.as_str());
    if tc.len() < 3 || tc[0] != '-' || tc[1] != '-' || tc[2] != '-' {
        proof {
            if tc@.len() >= 3 {
                assert(tc@.take(3) != open_marker()) by {
                    assert(tc@.take(3)[0] == tc@[0]);
                    assert(tc@.take(3)[1] == tc@[1]);
                    assert(tc@.take(3)[2] == tc@[2]);
                }
            }
        }
        return None;
    }
    assert(tc@.take(3) =~= open_marker());
    let rest_s = string_of(&tc, 3, tc.len());
    let rest = chars_of(rest_s.as_str());
    assert(rest@ =~= tc@.skip(3));
    let marker: Vec<char> = vec!['\n', '-', '-', '-'];
    assert(marker@ =~= close_marker());
    let end = match find_seq(&rest, &marker, 0) {
        None => {
            return None;
        },
        Some(e) => e,
    };
    proof {
        lemma_find_seq_from(rest@, close_marker(), 0);
    }
    let yaml = string_of(&rest, 0, end);
    assert(rest@.subrange(0, end as int) =~= rest@.take(end as int));
    let after = end + 4;
    let body = if after < rest.len() && (rest[after] as u32) < 128 {
        let (blo, bhi) = trim_bounds(&rest, after + 1);
        Some(string_of(&rest, blo, bhi))
    } else {
        None
    };
    Some((yaml, body))
}

impl MemoryEntry {
    /// The entry with its content replaced by `body` when `body` is not empty.
    pub fn with_body(self, body: &str) -> (e: MemoryEntry)
        ensures
            e.id == self.id,
            e.tag == self.tag,
            e.created_at == self.created_at,
            e.updated_at == self.updated_at,
            e.content@ == (if body@.len() > 0 {
                body@
            } else {
                self.content@
            }),
    {
        let mut e = self;
        if body.unicode_len() > 0 {
            e.content = body.to_owned();
        }
        e
    }

    /// The entry with new content and the time of the update.
    pub fn updated(self, content: &str, now: String) -> (e: MemoryEntry)
        ensures
            e.id == self.id,
            e.tag == self.tag,
            e.created_at == self.created_at,
            e.content@ == content@,
            e.updated_at == now,
    {
        let mut e = self;
        e.content = content.to_owned();
        e.updated_at = now;
        e
    }
}

/// Backend storage for persistent memories, rooted at a base directory; each
/// namespace (e.g. `"project"`, `"global"`) gets its own subdirectory.
#[derive(Debug, Clone)]
pub struct MemoryStore {
    /// Base directory for memory storage (e.g. `.serena/memories`).
    base: String,
}

impl MemoryStore {
    /// The base directory.
    pub closed spec fn base_view(&self) -> Seq<char> {
        self.base@
    }

    /// A store rooted at `base` (the directory itself is made by the caller
    /// that opens the store on disk).
    pub fn new(base: String) -> (s: MemoryStore)
        ensures
            s.base_view() == base@,
    {
        MemoryStore { base }
    }

    /// The base directory.
    pub fn base(&self) -> (b: &str)
        ensures
            b@ == self.base_view(),
    {
        self.base.as_str()
    }

    /// The directory of a namespace.
    pub fn namespace_dir(&self, namespace: &str) -> (d: String)
        ensures
            d@ == path_join(self.base_view(), namespace@),
    {
        join_path(self.base.as_str(), namespace)
    }

    /// The file of the memory `id` in a namespace.
    pub fn memory_path(&self, namespace: &str, id: &str) -> (p: String)
        ensures
            p@ == path_join(path_join(self.base_view(), namespace@), memory_file_name(id@)),
    {
        let dir = self.namespace_dir(namespace);
        let mut file = id.to_owned();
        proof {
            reveal_strlit(".md");
        }
        file.append(".md");
        join_path(dir.as_str(), file.as_str())
    }

    /// A fresh id for a memory tagged `tag`: the sanitised tag, `_`, and the
    /// current time stamp.
    pub fn generate_id(&self, tag: &str) -> (id: String)
        ensures
            exists|stamp: Seq<char>| id@ == memory_id(tag@, stamp),
    {
        let stamp = utc_now_formatted(stamp_format_text());
        compose_memory_id(tag, stamp.as_str())
    }

    /// A new entry for a memory tagged `tag`: a fresh id, the tag and the
    /// content, created and updated at the current time.
    pub fn prepare_entry(&self, tag: &str, content: &str) -> (e: MemoryEntry)
        ensures
            exists|stamp: Seq<char>| e.id@ == memory_id(tag@, stamp),
            e.tag@ == tag@,
            e.content@ == content@,
            e.created_at == e.updated_at,
    {
        let id = self.generate_id(tag);
        let now = utc_rfc3339();
        Self::new_entry(id, tag, content, now)
    }

    /// `entry` with new content, updated at the current time.
    pub fn touch(entry: MemoryEntry, content: &str) -> (e: MemoryEntry)
        ensures
            e.id == entry.id,
            e.tag == entry.tag,
            e.created_at == entry.created_at,
            e.content@ == content@,
    {
        let now = utc_rfc3339();
        entry.updated(content, now)
    }

    /// The entry that a new memory starts as: its id, tag and content, created
    /// and updated at `now`.
    pub fn new_entry(id: String, tag: &str, content: &str, now: String) -> (e: MemoryEntry)
        ensures
            e.id == id,
            e.tag@ == tag@,
            e.content@ == content@,
            e.created_at == now,
            e.updated_at == now,
    {
        MemoryEntry {
            id,
            tag: tag.to_owned(),
            content: content.to_owned(),
            created_at: now.clone(),
            updated_at: now,
        }
    }
}

/// The id of the memory stored at `path`: the file name without its `.md`
/// extension; `None` for a file that is not a memory.
pub open spec fn listed_memory_id(path: Seq<char>) -> Option<Seq<char>> {
    match path_file_name(path) {
        None => None,
        Some(name) => match last_index_of(name, '.') {
            None => None,
            Some(d) => if d > 0 && name.skip(d + 1) == seq!['m', 'd'] {
                Some(name.take(d))
            } else {
                None
            },
        },
    }
}

/// The id of the memory stored at `path` (its stem, when its extension is
/// `md`).
pub fn memory_id_of_path(path: &str) -> (id: Option<String>)
    ensures
        match listed_memory_id(path@) {
            None => id is None,
            Some(i) => id matches Some(s) && s@ == i,
        },
{
    let cs = chars_of(path);
    let name = match file_name(&cs) {
        None => {
            return None;
        },
        Some(n) => n,
    };
    let ext = match extension(&cs) {
        None => {
            return None;
        },
        Some(e) => e,
    };
    let ghost d = last_index_of(name@, '.')->0;
    proof {
        lemma_last_index_of(name@, '.');
    }
    if ext.len() != 2 || ext[0] != 'm' || ext[1] != 'd' {
        proof {
            if ext@.len() == 2 {
                assert(ext@ != seq!['m', 'd']) by {
                    if ext@ == seq!['m', 'd'] {
                        assert(ext@[0] == 'm');
                    }
                }
            }
        }
        return None;
    }
    assert(ext@ =~= seq!['m', 'd']);
    let stem_len = name.len() - 3;
    assert(stem_len == d);
    Some(string_of(&name, 0, stem_len))
}

/// What `last_index_of` finds is within the sequence.
proof fn lemma_last_index_of(s: Seq<char>, c: char)
    ensures
        last_index_of(s, c) matches Some(d) ==> 0 <= d < s.len() && s[d] == c,
    decreases s.len(),
{
    if s.len() > 0 && s.last() != c {
        lemma_last_index_of(s.drop_last(), c);
    }
}

/// A listing of memories, as `(id, content)` pairs, in order of id.
pub fn sort_listing(items: Vec<(String, String)>) -> (r: Vec<(String, String)>)
    ensures
        sorted_by_name(r@),
        r@.to_multiset() == items@.to_multiset(),
        forall|k: Seq<char>| #[trigger] named(r@, k) == named(items@, k),
{
    sort_by_name(items)
}

/// The listed memories whose tag is exactly `tag`; `tags[i]` is the tag read
/// for `listing[i]`, `None` where the entry could not be read.
pub open spec fn tagged_entries(
    listing: Seq<(Seq<char>, Seq<char>)>,
    tags: Seq<Option<Seq<char>>>,
    tag: Seq<char>,
) -> Seq<(Seq<char>, Seq<char>)>
    decreases listing.len(),
{
    if listing.len() == 0 || tags.len() == 0 {
        Seq::empty()
    } else {
        let rest = tagged_entries(listing.drop_last(), tags.drop_last(), tag);
        if tags.last() == Some(tag) {
            rest.push(listing.last())
        } else {
            rest
        }
    }
}

/// The entries of `listing` whose tag (`tags[i]`, read for the `i`-th
/// entry) is exactly `tag`, in listing order.
pub open spec fn exact_tag_matches(
    listing: Seq<(Seq<char>, Seq<char>)>,
    tags: Seq<Option<Seq<char>>>,
    tag: Seq<char>,
) -> Seq<(Seq<char>, Seq<char>)> {
    Seq::new(listing.len(), |i: int| i).filter_map(
        |i: int|
            if tags[i] == Some(tag) {
                Some(listing[i])
            } else {
                None
            },
    )
}

proof fn lemma_tagged_entries_prefix(
    listing: Seq<(Seq<char>, Seq<char>)>,
    tags: Seq<Option<Seq<char>>>,
    tag: Seq<char>,
    k: int,
)
    requires
        listing.len() == tags.len(),
        0 <= k <= listing.len(),
    ensures
        tagged_entries(listing.take(k), tags.take(k), tag) == Seq::new(k as nat, |i: int| i).filter_map(
            |i: int|
                if tags[i] == Some(tag) {
                    Some(listing[i])
                } else {
                    None
                },
        ),
    decreases k,
{
    let f = |i: int|
        if tags[i] == Some(tag) {
            Some(listing[i])
        } else {
            None
        };
    if k == 0 {
        assert(listing.take(0).len() == 0);
    } else {
        lemma_tagged_entries_prefix(listing, tags, tag, k - 1);
        assert(listing.take(k).drop_last() =~= listing.take(k - 1));
        assert(tags.take(k).drop_last() =~= tags.take(k - 1));
        let idx = Seq::new(k as nat, |i: int| i);
        assert(idx.drop_last() =~= Seq::new((k - 1) as nat, |i: int| i));
        let rest = idx.drop_last().filter_map(f);
        match f(k - 1) {
            Some(x) => {
                assert(rest.push(x) =~= rest + seq![x]);
            },
            None => {},
        }
    }
}

/// Searching by tag keeps exactly the entries whose tag equals the query (no
/// partial match), in listing order.
pub proof fn law_find_by_tag_is_exact(
    listing: Seq<(Seq<char>, Seq<char>)>,
    tags: Seq<Option<Seq<char>>>,
    tag: Seq<char>,
)
    requires
        listing.len() == tags.len(),
    ensures
        tagged_entries(listing, tags, tag) == exact_tag_matches(listing, tags, tag),
{
    lemma_tagged_entries_prefix(listing, tags, tag, listing.len() as int);
    assert(listing.take(listing.len() as int) =~= listing);
    assert(tags.take(tags.len() as int) =~= tags);
}

/// High-level memory manager over a `MemoryStore`.
#[derive(Debug, Clone)]
pub struct MemoryManager {
    store: MemoryStore,
}

impl MemoryManager {
    /// The store the manager works on.
    pub closed spec fn store_view(&self) -> MemoryStore {
        self.store
    }

    /// Create a new `MemoryManager` backed by the given store.
    pub fn new(store: MemoryStore) -> (m: Self)
        ensures
            m.store_view() == store,
    {
        MemoryManager { store }
    }

    /// The store the manager works on.
    pub fn store(&self) -> (s: &MemoryStore)
        ensures
            *s == self.store_view(),
    {
        &self.store
    }

    /// The memories of a listing whose tag is exactly `tag`, in listing order;
    /// `tags[i]` is the tag of `listing[i]`, `None` where its entry could not
    /// be read (such entries never match).
    pub fn find_by_tag(
        &self,
        listing: Vec<(String, String)>,
        tags: &[Option<String>],
        tag: &str,
    ) -> (found: Vec<(String, String)>)
        requires
            tags@.len() == listing@.len(),
        ensures
            found.deep_view() == tagged_entries(listing.deep_view(), tags.deep_view(), tag@),
    {
        let mut found: Vec<(String, String)> = Vec::new();
        let ghost all = listing.deep_view();
        let ghost tv = tags.deep_view();
        let mut i: usize = 0;
        assert(found.deep_view() =~= tagged_entries(all.take(0), tv.take(0), tag@));
        while i < listing.len()
            invariant
                i <= listing@.len() == tags@.len(),
                all == listing.deep_view(),
                tv == tags.deep_view(),
                found.deep_view() == tagged_entries(all.take(i as int), tv.take(i as int), tag@),
            decreases listing.len() - i,
        {
            let ghost before = found.deep_view();
            assert(all.take(i + 1).drop_last() =~= all.take(i as int));
            assert(tv.take(i + 1).drop_last() =~= tv.take(i as int));
            assert(all.take(i + 1).last() == all[i as int]);
            assert(tv.take(i + 1).last() == tv[i as int]);
            let matches = match &tags[i] {
                Some(t) => str_equal(t.as_str(), tag),
                None => false,
            };
            if matches {
                let pair = (listing[i].0.clone(), listing[i].1.clone());
                found.push(pair);
                assert(found.deep_view() =~= before.push(all[i as int]));
            }
            i = i + 1;
        }
        assert(all.take(listing@.len() as int) =~= all);
        assert(tv.take(listing@.len() as int) =~= tv);
        found
    }
}

/// A scan from `from` finds `k` when the pattern occurs there and nowhere in
/// between.
proof fn lemma_find_seq_first(s: Seq<char>, pat: Seq<char>, from: int, k: int)
    requires
        0 <= from <= k,
        occurs_at(s, pat, k),
        forall|j: int| from <= j < k ==> !#[trigger] occurs_at(s, pat, j),
    ensures
        find_seq_from(s, pat, from) == Some(k),
    decreases k - from,
{
    if from < k {
        assert(!occurs_at(s, pat, from));
        lemma_find_seq_first(s, pat, from + 1, k);
    }
}

/// What a memory file holds is read back: splitting the text written for a
/// front matter block `fm` and a content `c` gives the block (after the line
/// break that opens it, without the one that closes it) and exactly `c`.
///
/// This holds when the block ends with a line break and holds no line that
/// starts with `---`, and the content starts and ends with a character that
/// is not white space (the reader trims the body).
pub proof fn law_memory_file_round_trip(fm: Seq<char>, c: Seq<char>)
    requires
        fm.len() > 0,
        fm.last() == '\n',
        find_seq_from(seq!['\n'] + fm, close_marker(), 0) is None,
        c.len() > 0,
        !is_white_space(c[0]),
        !is_white_space(c.last()),
    ensures
        front_matter_parts(memory_file_text(fm, c)) == Some((seq!['\n'] + fm.drop_last(), Some(c))),
{
    let raw = memory_file_text(fm, c);
    let n = fm.len() as int;
    assert(raw[0] == '-');
    assert(trim_start(raw) == raw);
    assert(raw.last() == c.last());
    assert(trim_end(raw) == raw);
    assert(trim(raw) == raw);
    assert(raw.take(3) =~= open_marker());
    let rest = raw.skip(3);
    let head = seq!['\n'] + fm;
    assert(rest =~= head + seq!['-', '-', '-', '\n', '\n'] + c);
    lemma_find_seq_from(head, close_marker(), 0);
    assert(rest[n] == '\n') by {
        assert(rest[n] == head[n]);
        assert(head[n] == fm[n - 1]);
    }
    assert(occurs_at(rest, close_marker(), n)) by {
        assert(rest.subrange(n, n + 4) =~= close_marker());
    }
    assert forall|j: int| 0 <= j < n implies !#[trigger] occurs_at(rest, close_marker(), j) by {
        if occurs_at(rest, close_marker(), j) {
            if j + 4 <= n + 1 {
                assert(head.subrange(j, j + 4) =~= rest.subrange(j, j + 4));
                assert(occurs_at(head, close_marker(), j));
            } else {
                assert(rest.subrange(j, j + 4)[n - j] == rest[n]);
                assert(close_marker()[n - j] == '-');
            }
        }
    }
    lemma_find_seq_first(rest, close_marker(), 0, n);
    assert(rest.take(n) =~= seq!['\n'] + fm.drop_last());
    let after = n + 4;
    assert(rest[after] == '\n');
    let tail = rest.skip(after + 1);
    assert(tail =~= seq!['\n'] + c);
    assert(tail.drop_first() =~= c);
    assert(trim_start(c) == c);
    assert(trim_start(tail) == c);
    assert(trim_end(c) == c);
}

/// A text without `/` is a single piece.
proof fn lemma_split_no_slash(b: Seq<char>)
    requires
        forall|k: int| 0 <= k < b.len() ==> b[k] != '/',
    ensures
        split_slash(b) == seq![b],
{
    lemma_find_char_from(b, '/', 0);
}

/// The last piece of `a/b`, when `b` holds no `/`, is `b`.
proof fn lemma_split_last(a: Seq<char>, b: Seq<char>)
    requires
        forall|k: int| 0 <= k < b.len() ==> b[k] != '/',
    ensures
        split_slash(a + seq!['/'] + b).len() > 0,
        split_slash(a + seq!['/'] + b).last() == b,
    decreases a.len(),
{
    let s = a + seq!['/'] + b;
    lemma_find_char_from(s, '/', 0);
    assert(s[a.len() as int] == '/');
    let i = find_char_from(s, '/', 0)->0;
    assert(i <= a.len());
    if i == a.len() {
        assert(s.skip(i + 1) =~= b);
        lemma_split_no_slash(b);
    } else {
        let a2 = a.skip(i + 1);
        assert(s.skip(i + 1) =~= a2 + seq!['/'] + b);
        lemma_split_last(a2, b);
    }
}

/// The memory stored under an id without `/` is listed under that id: the
/// file the store writes it to is recognised as that memory's file.
pub proof fn law_listed_memory_id(dir: Seq<char>, id: Seq<char>)
    requires
        id.len() > 0,
        forall|k: int| 0 <= k < id.len() ==> id[k] != '/',
    ensures
        listed_memory_id(path_join(dir, memory_file_name(id))) == Some(id),
{
    let file = memory_file_name(id);
    assert forall|k: int| 0 <= k < file.len() implies file[k] != '/' by {
        if k < id.len() {
            assert(file[k] == id[k]);
        }
    }
    assert(file[0] == id[0]);
    let path = path_join(dir, file);
    if dir.len() == 0 {
        assert(path =~= file);
        lemma_split_no_slash(file);
    } else if dir.last() == '/' {
        assert(path =~= dir.drop_last() + seq!['/'] + file);
        lemma_split_last(dir.drop_last(), file);
    } else {
        lemma_split_last(dir, file);
    }
    let parts = split_slash(path);
    assert(parts.last() == file);
    assert(file.len() >= 4);
    assert(file != seq!['.']);
    assert(file != seq!['.', '.']);
    assert(path_file_name(path) == Some(file));
    assert(file.drop_last() =~= id + seq!['.', 'm']);
    assert(file.drop_last().drop_last() =~= id + seq!['.']);
    assert(last_index_of(id + seq!['.'], '.') == Some(id.len() as int));
    assert(file.drop_last().last() == 'm');
    assert(last_index_of(file.drop_last(), '.') == Some(id.len() as int));
    assert(file.last() == 'd');
    assert(last_index_of(file, '.') == Some(id.len() as int));
    assert(file.skip(id.len() + 1 as int) =~= seq!['m', 'd']);
    assert(file.take(id.len() as int) =~= id);
}

} // verus!
