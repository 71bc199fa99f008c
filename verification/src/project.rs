//! Project management — root, ignore specification, file scanning.
use vstd::prelude::*;
use vstd::string::*;
use crate::filesystem::{canonicalize, path_exists, path_is_dir};
use crate::paths::{extension, path_extension};
use crate::text::{chars_of, str_equal, string_of};

verus! {

/// A `.gitignore` matcher of the `ignore` crate.
#[verifier::external_type_specification]
#[verifier::external_body]
pub struct ExGitignore(ignore::gitignore::Gitignore);

/// Why a project could not be opened.
#[derive(Debug, Clone, PartialEq)]
pub enum OpenError {
    /// The path could not be resolved to its canonical form: the text of the
    /// file system's error (which keeps that error's own kind, such as
    /// `NotFound`).
    Unresolved(String),
    /// The resolved path is not a directory: an invalid input.
    InvalidInput(String),
}

impl OpenError {
    /// The text of the error.
    pub closed spec fn text(&self) -> Seq<char> {
        match self {
            OpenError::Unresolved(m) => m@,
            OpenError::InvalidInput(m) => m@,
        }
    }

    /// The text of the error.
    pub fn message(&self) -> (m: String)
        ensures
            m@ == self.text(),
    {
        match self {
            OpenError::Unresolved(m) => m.clone(),
            OpenError::InvalidInput(m) => m.clone(),
        }
    }
}

/// The message that the resolved path `canonical` is not a directory.
pub open spec fn not_a_directory(canonical: Seq<char>) -> Seq<char> {
    "path is not a directory: "@ + canonical
}

/// What opening a project whose path resolves to `canonical` gives: the
/// project rooted there when it is a directory, else the message that it is
/// not one.
pub open spec fn opening(canonical: Seq<char>, is_dir: bool) -> Result<Seq<char>, Seq<char>> {
    if is_dir {
        Ok(canonical)
    } else {
        Err(not_a_directory(canonical))
    }
}

/// The mathematical value of the outcome of opening a project.
pub open spec fn project_outcome(res: Result<Project, OpenError>) -> Result<Seq<char>, Seq<char>> {
    match res {
        Ok(p) => Ok(p.root_view()),
        Err(e) => Err(e.text()),
    }
}

/// Represents an open Serena project, identified by its root directory.
#[derive(Debug, Clone, PartialEq)]
pub struct Project {
    /// Absolute path to the project root directory.
    root: String,
}

impl Project {
    /// Open a Serena project at the given path: the path is resolved to its
    /// canonical form, which must be a directory. The error is the failure to
    /// resolve it (`Unresolved`, with the file system's text), or an invalid
    /// input (`InvalidInput`) when the resolved path is not a directory.
    ///
    /// Both answers come from the file system, so the contract says only that
    /// the result is what `from_canonical` decides for the resolved path, or a
    /// failure to resolve it.
    pub fn open(path: &str) -> (res: Result<Project, OpenError>)
        ensures
            res is Err ==> (res->Err_0 is Unresolved || exists|c: Seq<char>| #[trigger] opening(c, false)
                == project_outcome(res)),
            res is Ok ==> exists|c: Seq<char>| #[trigger] opening(c, true) == project_outcome(res),
    {
        let canonical = match canonicalize(path) {
            Ok(c) => c,
            Err(m) => {
                return Err(OpenError::Unresolved(m));
            },
        };
        let is_dir = path_is_dir(canonical.as_str());
        let ghost c = canonical@;
        let res = Self::from_canonical(canonical, is_dir);
        assert(opening(c, is_dir) == project_outcome(res));
        res
    }

    /// The project whose root directory `canonical_root` was resolved to,
    /// provided it is a directory (`is_dir`); otherwise an invalid input, with
    /// the message that it is not a directory.
    pub fn from_canonical(canonical_root: String, is_dir: bool) -> (res: Result<Project, OpenError>)
        ensures
            project_outcome(res) == opening(canonical_root@, is_dir),
            res is Err ==> res->Err_0 is InvalidInput,
    {
        if !is_dir {
            let mut m = String::from_str("path is not a directory: ");
            m.append(canonical_root.as_str());
            return Err(OpenError::InvalidInput(m));
        }
        Ok(Project { root: canonical_root })
    }

    /// The root path of the project.
    pub closed spec fn root_view(&self) -> Seq<char> {
        self.root@
    }

    /// Return the project root directory.
    pub fn root(&self) -> (r: &str)
        ensures
            r@ == self.root_view(),
    {
        self.root.as_str()
    }

    /// Create a new Project directly from a root path (without validation).
    pub fn from_root(root: String) -> (p: Self)
        ensures
            p.root_view() == root@,
    {
        Project { root }
    }
}

/// A specification of which files/directories to ignore during scanning
/// (gitignore rules; no matcher means nothing is ignored).
pub struct IgnoreSpec {
    matcher: Option<ignore::gitignore::Gitignore>,
}

/// The root directory of the matcher `gi` as text (`Gitignore::path`): the
/// directory of the `.gitignore` it was read from, without a leading `./`.
pub uninterp spec fn gitignore_root(gi: ignore::gitignore::Gitignore) -> Seq<char>;

/// The globs the matcher `gi` holds, each as the line it was read from
/// (`Glob::original`), in the order they were read.
pub uninterp spec fn gitignore_globs(gi: ignore::gitignore::Gitignore) -> Seq<Seq<char>>;

/// Whether gitignore globs `globs`, rooted at `root`, ignore `path` or one of
/// its parent directories (`Gitignore::matched_path_or_any_parents`, then
/// `Match::is_ignore`), `is_dir` telling whether `path` is a directory.
pub uninterp spec fn gitignore_verdict(root: Seq<char>, globs: Seq<Seq<char>>, path: Seq<char>, is_dir: bool) -> bool;

/// `path` starts at the file system root.
pub open spec fn rooted(path: Seq<char>) -> bool {
    path.len() > 0 && path[0] == '/'
}

/// `path` with one leading `./` removed.
pub open spec fn without_dot_slash(path: Seq<char>) -> Seq<char> {
    if path.len() >= 2 && path[0] == '.' && path[1] == '/' {
        path.skip(2)
    } else {
        path
    }
}

/// `p` begins with `prefix`.
pub open spec fn has_prefix(p: Seq<char>, prefix: Seq<char>) -> bool {
    prefix.len() <= p.len() && p.take(prefix.len() as int) == prefix
}

/// The matcher strips `root` from `p`: `p` has a directory part and begins
/// with `root`.
pub open spec fn root_strips(root: Seq<char>, p: Seq<char>) -> bool {
    p.contains('/') && has_prefix(p, root)
}

/// `p` with `root` removed from its front, and then one `/`.
pub open spec fn without_root(p: Seq<char>, root: Seq<char>) -> Seq<char> {
    let q = p.skip(root.len() as int);
    if rooted(q) {
        q.skip(1)
    } else {
        q
    }
}

/// A path the matcher rooted at `root` accepts: once a leading `./` and then,
/// where it applies, the root and one `/` are stripped, it does not start at
/// the file system root (the matcher asserts so). The root is not stripped
/// when it equals the path `.`; for a root that begins with `.` and may be
/// that path, both readings must give a relative path.
pub open spec fn gitignore_admits(root: Seq<char>, path: Seq<char>) -> bool {
    let p = without_dot_slash(path);
    if root == seq!['.'] {
        !rooted(p)
    } else if root.len() > 0 && root[0] == '.' {
        !rooted(p) && (root_strips(root, p) ==> !rooted(without_root(p, root)))
    } else if root_strips(root, p) {
        !rooted(without_root(p, root))
    } else {
        !rooted(p)
    }
}

/// `Gitignore::matched_path_or_any_parents`, then `Match::is_ignore`: whether
/// `path` or one of its parent directories is ignored by `gi`. The crate
/// asserts that the path, once stripped as `gitignore_admits` says, is
/// relative (an empty matcher answers before that).
#[verifier::external_body]
fn gitignore_ignores(gi: &ignore::gitignore::Gitignore, path: &str, is_dir: bool) -> (b: bool)
    requires
        gitignore_globs(*gi).len() == 0 || gitignore_admits(gitignore_root(*gi), path@),
    ensures
        b == gitignore_verdict(gitignore_root(*gi), gitignore_globs(*gi), path@, is_dir),
{
    gi.matched_path_or_any_parents(std::path::Path::new(path), is_dir).is_ignore()
}

/// `Gitignore::path`: the root directory of `gi`, as text.
#[verifier::external_body]
fn gitignore_root_text(gi: &ignore::gitignore::Gitignore) -> (r: String)
    ensures
        r@ == gitignore_root(*gi),
{
    gi.path().to_string_lossy().into_owned()
}

/// `Gitignore::is_empty`: whether `gi` holds no globs.
#[verifier::external_body]
fn gitignore_is_empty(gi: &ignore::gitignore::Gitignore) -> (b: bool)
    ensures
        b == (gitignore_globs(*gi).len() == 0),
{
    gi.is_empty()
}

/// `Gitignore::new`: the matcher of the rules in the `.gitignore` file at
/// `path`, rooted at the file's directory. Rules that cannot be read or parsed
/// are left out (the crate reports them beside the matcher; they are dropped
/// here). Nothing is stated of the matcher, which depends on the file.
#[verifier::external_body]
fn load_gitignore(path: &str) -> (gi: ignore::gitignore::Gitignore) {
    ignore::gitignore::Gitignore::new(path).0
}

/// `v` without its first `n` characters.
fn skip_chars(v: &Vec<char>, n: usize) -> (r: Vec<char>)
    requires
        n <= v.len(),
    ensures
        r@ == v@.skip(n as int),
{
    let mut r: Vec<char> = Vec::new();
    let mut i = n;
    while i < v.len()
        invariant
            n <= i <= v.len(),
            r@ == v@.subrange(n as int, i as int),
        decreases v.len() - i,
    {
        r.push(v[i]);
        i = i + 1;
    }
    r
}

/// Whether `p` begins with `prefix`.
fn begins_with(p: &Vec<char>, prefix: &Vec<char>) -> (b: bool)
    ensures
        b == has_prefix(p@, prefix@),
{
    if prefix.len() > p.len() {
        return false;
    }
    let mut i: usize = 0;
    while i < prefix.len()
        invariant
            prefix.len() <= p.len(),
            i <= prefix.len(),
            forall|j: int| 0 <= j < i ==> p@[j] == prefix@[j],
        decreases prefix.len() - i,
    {
        if p[i] != prefix[i] {
            assert(p@.take(prefix.len() as int)[i as int] != prefix@[i as int]);
            return false;
        }
        i = i + 1;
    }
    assert(p@.take(prefix.len() as int) =~= prefix@);
    true
}

/// Whether `p` holds a `/`.
fn has_slash(p: &Vec<char>) -> (b: bool)
    ensures
        b == p@.contains('/'),
{
    let mut i: usize = 0;
    while i < p.len()
        invariant
            i <= p.len(),
            forall|j: int| 0 <= j < i ==> p@[j] != '/',
        decreases p.len() - i,
    {
        if p[i] == '/' {
            assert(p@[i as int] == '/');
            return true;
        }
        i = i + 1;
    }
    false
}

/// Whether `p` starts at the file system root.
fn is_rooted(p: &Vec<char>) -> (b: bool)
    ensures
        b == rooted(p@),
{
    p.len() > 0 && p[0] == '/'
}

/// Whether the matcher rooted at `root` accepts `path`.
fn admits_chars(root: &Vec<char>, path: &Vec<char>) -> (b: bool)
    ensures
        b == gitignore_admits(root@, path@),
{
    let p = if path.len() >= 2 && path[0] == '.' && path[1] == '/' {
        skip_chars(path, 2)
    } else {
        skip_chars(path, 0)
    };
    assert(p@ == without_dot_slash(path@)) by {
        assert(path@.skip(0) =~= path@);
    }
    let strips = has_slash(&p) && begins_with(&p, root);
    let stripped_ok = if strips {
        let q = skip_chars(&p, root.len());
        if is_rooted(&q) {
            let q1 = skip_chars(&q, 1);
            !is_rooted(&q1)
        } else {
            true
        }
    } else {
        true
    };
    assert(strips ==> (stripped_ok == !rooted(without_root(p@, root@))));
    if root.len() == 1 && root[0] == '.' {
        assert(root@ == seq!['.']);
        !is_rooted(&p)
    } else if root.len() > 0 && root[0] == '.' {
        assert(root@ != seq!['.']) by {
            if root@ == seq!['.'] {
                assert(root@.len() == 1);
            }
        }
        !is_rooted(&p) && stripped_ok
    } else {
        assert(root@ != seq!['.']) by {
            if root@ == seq!['.'] {
                assert(root@[0] == '.');
            }
        }
        if strips {
            stripped_ok
        } else {
            !is_rooted(&p)
        }
    }
}

impl IgnoreSpec {
    /// Whether this spec holds a matcher.
    pub closed spec fn has_matcher(&self) -> bool {
        self.matcher is Some
    }

    /// The root directory of the matcher (empty without one).
    pub closed spec fn root_view(&self) -> Seq<char> {
        match self.matcher {
            Some(gi) => gitignore_root(gi),
            None => Seq::empty(),
        }
    }

    /// The globs of the matcher (none without one).
    pub closed spec fn globs_view(&self) -> Seq<Seq<char>> {
        match self.matcher {
            Some(gi) => gitignore_globs(gi),
            None => Seq::empty(),
        }
    }

    /// A path this spec can be asked about: with globs to match, the matcher
    /// must accept it (`gitignore_admits`).
    pub open spec fn admits_path(&self, path: Seq<char>) -> bool {
        !self.has_matcher() || self.globs_view().len() == 0 || gitignore_admits(self.root_view(), path)
    }

    /// Whether this spec holds a matcher (an empty spec ignores nothing).
    pub fn is_active(&self) -> (b: bool)
        ensures
            b == self.has_matcher(),
    {
        self.matcher.is_some()
    }

    /// Create an empty ignore spec (nothing is ignored).
    pub fn empty() -> (s: Self)
        ensures
            !s.has_matcher(),
    {
        IgnoreSpec { matcher: None }
    }

    /// The spec of the `.gitignore` file at `path`, given whether the file
    /// exists (`exists`): its rules when it does, a spec that ignores nothing
    /// when it does not.
    pub fn from_probe(path: &str, exists: bool) -> (s: Self)
        ensures
            s.has_matcher() == exists,
    {
        if !exists {
            return IgnoreSpec::empty();
        }
        let gi = load_gitignore(path);
        IgnoreSpec { matcher: Some(gi) }
    }

    /// Build an `IgnoreSpec` from a `.gitignore` file path; a spec that
    /// ignores nothing when the file does not exist. (Errors in the file's
    /// rules leave the rules that could be read.)
    ///
    /// Whether the file exists is the file system's answer; what follows from
    /// it is `from_probe`.
    pub fn from_gitignore(path: &str) -> (res: Result<Self, String>)
        ensures
            res is Ok,
    {
        let exists = path_exists(path);
        Ok(IgnoreSpec::from_probe(path, exists))
    }

    /// Whether `path` can be asked about (`admits_path`); asking about any
    /// other path fails the matcher's assertion.
    pub fn admits(&self, path: &str) -> (b: bool)
        ensures
            b == self.admits_path(path@),
    {
        match &self.matcher {
            None => true,
            Some(gi) => {
                if gitignore_is_empty(gi) {
                    true
                } else {
                    let root = gitignore_root_text(gi);
                    let rc = chars_of(root.as_str());
                    let pc = chars_of(path);
                    admits_chars(&rc, &pc)
                }
            },
        }
    }

    /// Check whether a path (relative to the project root, or under the
    /// matcher's root) should be ignored, with the path's directory status
    /// already known: the gitignore verdict of the matcher's globs, and
    /// nothing without a matcher.
    pub fn is_ignored_with(&self, path: &str, is_dir: bool) -> (b: bool)
        requires
            self.admits_path(path@),
        ensures
            b == (self.has_matcher() && gitignore_verdict(self.root_view(), self.globs_view(), path@, is_dir)),
    {
        match &self.matcher {
            None => false,
            Some(gi) => gitignore_ignores(gi, path, is_dir),
        }
    }

    /// Check whether a path should be ignored; a rule for a directory applies
    /// to everything inside it. Whether the path is a directory is asked of
    /// the file system, so the verdict is the gitignore verdict for the one
    /// answer or the other.
    pub fn is_ignored(&self, path: &str) -> (b: bool)
        requires
            self.admits_path(path@),
        ensures
            !self.has_matcher() ==> !b,
            self.has_matcher() ==> exists|d: bool|
                b == #[trigger] gitignore_verdict(self.root_view(), self.globs_view(), path@, d),
    {
        match &self.matcher {
            None => false,
            Some(_) => {
                let is_dir = path_is_dir(path);
                self.is_ignored_with(path, is_dir)
            },
        }
    }
}

/// The part of `path` after the leading components that make up `base`
/// (`Path::strip_prefix`, compared component by component); `None` when
/// `base` is not a prefix of `path`.
pub uninterp spec fn stripped_path(path: Seq<char>, base: Seq<char>) -> Option<Seq<char>>;

/// `Path::strip_prefix`, as text: the named result.
#[verifier::external_body]
fn strip_path_prefix(path: &str, base: &str) -> (r: Option<String>)
    ensures
        match stripped_path(path@, base@) {
            Some(s) => r matches Some(t) && t@ == s,
            None => r is None,
        },
{
    match std::path::Path::new(path).strip_prefix(base) {
        Ok(p) => Some(p.to_string_lossy().into_owned()),
        Err(_) => None,
    }
}

/// A file scanner that walks directories respecting ignore rules.
pub struct FileScanner {
    ignore: IgnoreSpec,
}

impl FileScanner {
    /// Create a new `FileScanner` with the given ignore spec.
    pub fn new(ignore: IgnoreSpec) -> (s: Self)
        ensures
            s.ignore_view() == ignore,
    {
        FileScanner { ignore }
    }

    /// The ignore spec the scanner applies.
    pub closed spec fn ignore_view(&self) -> IgnoreSpec {
        self.ignore
    }

    /// The path of `path` relative to the scan root `root`, or `path` itself
    /// when it does not lie under `root`.
    pub fn relative_path(&self, root: &str, path: &str) -> (r: String)
        ensures
            r@ == match stripped_path(path@, root@) {
                Some(s) => s,
                None => path@,
            },
    {
        match strip_path_prefix(path, root) {
            Some(s) => s,
            None => path.to_owned(),
        }
    }

    /// Whether a file is one the scan collects: its extension is one of
    /// `extensions` (given without the dot).
    pub fn wants_file(&self, path: &str, extensions: &[&str]) -> (b: bool)
        ensures
            b == (path_extension(path@) matches Some(e) && exists|i: int|
                0 <= i < extensions@.len() && #[trigger] extensions@[i]@ == e),
    {
        let cs = chars_of(path);
        let ext = match extension(&cs) {
            None => {
                return false;
            },
            Some(e) => e,
        };
        let es = string_of(&ext, 0, ext.len());
        assert(ext@.subrange(0, ext@.len() as int) =~= ext@);
        let mut i: usize = 0;
        while i < extensions.len()
            invariant
                i <= extensions@.len(),
                es@ == ext@,
                path_extension(path@) == Some(ext@),
                forall|j: int| 0 <= j < i ==> #[trigger] extensions@[j]@ != ext@,
            decreases extensions.len() - i,
        {
            if str_equal(extensions[i], es.as_str()) {
                return true;
            }
            i = i + 1;
        }
        false
    }

    /// The ignore spec the scanner applies.
    pub fn ignore_spec(&self) -> (s: &IgnoreSpec)
        ensures
            *s == self.ignore_view(),
    {
        &self.ignore
    }
}

} // verus!
