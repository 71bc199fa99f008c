//! Setup assistant: default language servers per language and language
//! detection from well-known project files.
use vstd::prelude::*;
use vstd::string::*;

use crate::filesystem::{directory_entry_names, path_exists, path_is_dir};
use crate::memory::{join_path, path_join};
use crate::paths::{extension, path_extension};
use crate::text::{
    lemma_lex_less_irreflexive, lemma_lex_less_total, lemma_lex_less_transitive, lex_less,
    str_equal, str_less, chars_of, string_of,
};

verus! {

/// One row of a language table: a language and its server names.
pub type Row = (Seq<char>, Seq<Seq<char>>);

/// Keys strictly increase along the rows.
pub open spec fn sorted_rows(rows: Seq<Row>) -> bool {
    forall|i: int, j: int| 0 <= i < j < rows.len() ==> lex_less(#[trigger] rows[i].0, #[trigger] rows[j].0)
}

/// Some row has key `k`.
pub open spec fn has_key(rows: Seq<Row>, k: Seq<char>) -> bool {
    exists|i: int| 0 <= i < rows.len() && #[trigger] rows[i].0 == k
}

/// An index of a row with key `k` (meaningful when `has_key(rows, k)`).
pub open spec fn key_index(rows: Seq<Row>, k: Seq<char>) -> int {
    choose|i: int| 0 <= i < rows.len() && #[trigger] rows[i].0 == k
}

/// The servers listed for `k`, if any row has that key.
pub open spec fn lookup(rows: Seq<Row>, k: Seq<char>) -> Option<Seq<Seq<char>>> {
    if has_key(rows, k) {
        Some(rows[key_index(rows, k)].1)
    } else {
        None
    }
}

/// In sorted rows the row with key `k` is unique, so `lookup` reads it.
pub proof fn lemma_lookup_at(rows: Seq<Row>, i: int)
    requires
        sorted_rows(rows),
        0 <= i < rows.len(),
    ensures
        lookup(rows, rows[i].0) == Some(rows[i].1),
{
    let k = rows[i].0;
    assert(has_key(rows, k));
    let j = key_index(rows, k);
    if j < i {
        assert(lex_less(rows[j].0, rows[i].0));
        lemma_lex_less_irreflexive(k);
    } else if i < j {
        assert(lex_less(rows[i].0, rows[j].0));
        lemma_lex_less_irreflexive(k);
    }
    assert(j == i);
    assert(lookup(rows, k) == Some(rows[j].1));
}

/// A table from language names to server names, ordered by language name
/// (like a `BTreeMap<String, Vec<String>>`).
pub struct LspTable {
    entries: Vec<(String, Vec<String>)>,
}

impl View for LspTable {
    type V = Seq<Row>;

    closed spec fn view(&self) -> Seq<Row> {
        self.entries.deep_view()
    }
}

impl LspTable {
    /// The rows are strictly sorted by language name.
    pub open spec fn wf(&self) -> bool {
        sorted_rows(self@)
    }

    /// An empty table.
    pub fn new() -> (t: Self)
        ensures
            t.wf(),
            t@ == Seq::<Row>::empty(),
    {
        let t = LspTable { entries: Vec::new() };
        assert(t@ =~= Seq::<Row>::empty());
        t
    }

    /// Number of languages in the table.
    pub fn len(&self) -> (n: usize)
        ensures
            n == self@.len(),
    {
        self.entries.len()
    }

    /// The language names, in order.
    pub fn keys(&self) -> (ks: Vec<String>)
        ensures
            ks.len() == self@.len(),
            forall|i: int| 0 <= i < ks.len() ==> #[trigger] ks[i]@ == self@[i].0,
    {
        let mut ks: Vec<String> = Vec::new();
        let mut i: usize = 0;
        while i < self.entries.len()
            invariant
                i <= self.entries@.len(),
                ks.len() == i,
                forall|t: int| 0 <= t < i ==> #[trigger] ks[t]@ == self@[t].0,
            decreases self.entries.len() - i,
        {
            ks.push(self.entries[i].0.clone());
            i = i + 1;
        }
        ks
    }

    /// The index of the row with key `key`, if any.
    fn position(&self, key: &str) -> (res: Option<usize>)
        requires
            self.wf(),
        ensures
            res matches Some(i) ==> i < self@.len() && self@[i as int].0 == key@,
            res is None ==> !has_key(self@, key@),
    {
        let mut i: usize = 0;
        while i < self.entries.len()
            invariant
                i <= self.entries@.len(),
                self.entries@.len() == self@.len(),
                forall|t: int| 0 <= t < i ==> #[trigger] self@[t].0 != key@,
            decreases self.entries.len() - i,
        {
            if str_equal(self.entries[i].0.as_str(), key) {
                return Some(i);
            }
            i = i + 1;
        }
        None
    }

    /// Whether the table has a row for `key`.
    pub fn contains_key(&self, key: &str) -> (b: bool)
        requires
            self.wf(),
        ensures
            b == has_key(self@, key@),
    {
        self.position(key).is_some()
    }

    /// The server names for `key`, if the table has a row for it.
    pub fn get(&self, key: &str) -> (res: Option<&Vec<String>>)
        requires
            self.wf(),
        ensures
            res matches Some(v) ==> lookup(self@, key@) == Some(v.deep_view()),
            res is None ==> lookup(self@, key@) is None,
    {
        match self.position(key) {
            Some(i) => {
                proof {
                    lemma_lookup_at(self@, i as int);
                }
                Some(&self.entries[i].1)
            },
            None => None,
        }
    }

    /// Set the servers of `key`, replacing its row if it has one and keeping
    /// the rows sorted otherwise.
    pub fn insert(&mut self, key: String, value: Vec<String>)
        requires
            old(self).wf(),
        ensures
            final(self).wf(),
            lookup(final(self)@, key@) == Some(value.deep_view()),
            forall|k: Seq<char>| k != key@ ==> lookup(#[trigger] final(self)@, k) == lookup(old(self)@, k),
            forall|k: Seq<char>| #[trigger] has_key(final(self)@, k) <==> (has_key(old(self)@, k) || k == key@),
    {
        let ghost old_rows = self@;
        let n = self.entries.len();
        let mut i: usize = 0;
        while i < n && str_less(self.entries[i].0.as_str(), key.as_str())
            invariant
                n == self.entries@.len() == old_rows.len(),
                self@ == old_rows,
                i <= n,
                forall|t: int| 0 <= t < i ==> lex_less(#[trigger] old_rows[t].0, key@),
            decreases n - i,
        {
            i = i + 1;
        }
        let ghost row: Row = (key@, value.deep_view());
        if i < n && str_equal(self.entries[i].0.as_str(), key.as_str()) {
            self.entries.set(i, (key, value));
            proof {
                assert(self@ =~= old_rows.update(i as int, row));
                self.lemma_rows_after_update(old_rows, i as int, row);
            }
        } else {
            self.entries.insert(i, (key, value));
            proof {
                assert(self@ =~= old_rows.insert(i as int, row));
                if i < n {
                    lemma_lex_less_total(old_rows[i as int].0, row.0);
                }
                self.lemma_rows_after_insert(old_rows, i as int, row);
            }
        }
    }

    proof fn lemma_rows_after_update(&self, old_rows: Seq<Row>, i: int, row: Row)
        requires
            sorted_rows(old_rows),
            0 <= i < old_rows.len(),
            old_rows[i].0 == row.0,
            self@ == old_rows.update(i, row),
        ensures
            self.wf(),
            lookup(self@, row.0) == Some(row.1),
            forall|k: Seq<char>| k != row.0 ==> lookup(#[trigger] self@, k) == lookup(old_rows, k),
            forall|k: Seq<char>| #[trigger] has_key(self@, k) <==> (has_key(old_rows, k) || k == row.0),
    {
        let rows = self@;
        assert(sorted_rows(rows));
        lemma_lookup_at(rows, i);
        assert forall|k: Seq<char>| k != row.0 implies lookup(#[trigger] self@, k) == lookup(old_rows, k) by {
            if has_key(old_rows, k) {
                let j = choose|j: int| 0 <= j < old_rows.len() && #[trigger] old_rows[j].0 == k;
                lemma_lookup_at(old_rows, j);
                lemma_lookup_at(rows, j);
            } else if has_key(rows, k) {
                let j = choose|j: int| 0 <= j < rows.len() && #[trigger] rows[j].0 == k;
                assert(old_rows[j].0 == k);
            }
        }
        assert forall|k: Seq<char>| #[trigger] has_key(self@, k) <==> (has_key(old_rows, k) || k == row.0) by {
            if has_key(old_rows, k) {
                let j = choose|j: int| 0 <= j < old_rows.len() && #[trigger] old_rows[j].0 == k;
                assert(rows[j].0 == k);
            }
            if has_key(rows, k) {
                let j = choose|j: int| 0 <= j < rows.len() && #[trigger] rows[j].0 == k;
                assert(old_rows[j].0 == k);
            }
            if k == row.0 {
                assert(rows[i].0 == k);
            }
        }
    }

    proof fn lemma_rows_after_insert(&self, old_rows: Seq<Row>, i: int, row: Row)
        requires
            sorted_rows(old_rows),
            0 <= i <= old_rows.len(),
            forall|t: int| 0 <= t < i ==> lex_less(#[trigger] old_rows[t].0, row.0),
            i < old_rows.len() ==> lex_less(row.0, old_rows[i].0),
            self@ == old_rows.insert(i, row),
        ensures
            self.wf(),
            lookup(self@, row.0) == Some(row.1),
            forall|k: Seq<char>| k != row.0 ==> lookup(#[trigger] self@, k) == lookup(old_rows, k),
            forall|k: Seq<char>| #[trigger] has_key(self@, k) <==> (has_key(old_rows, k) || k == row.0),
    {
        let rows = self@;
        assert forall|a: int, b: int| 0 <= a < b < rows.len() implies lex_less(
            #[trigger] rows[a].0,
            #[trigger] rows[b].0,
        ) by {
            if b < i {
                assert(rows[a] == old_rows[a] && rows[b] == old_rows[b]);
            } else if b == i {
                assert(rows[a] == old_rows[a]);
            } else if a < i {
                assert(rows[a] == old_rows[a] && rows[b] == old_rows[b - 1]);
                if b - 1 > i {
                    lemma_lex_less_transitive(old_rows[a].0, old_rows[i].0, old_rows[b - 1].0);
                }
                if b - 1 >= i {
                    lemma_lex_less_transitive(old_rows[a].0, row.0, old_rows[i].0);
                    if b - 1 > i {
                        lemma_lex_less_transitive(old_rows[a].0, old_rows[i].0, old_rows[b - 1].0);
                    }
                }
            } else if a == i {
                assert(rows[b] == old_rows[b - 1]);
                if b - 1 > i {
                    lemma_lex_less_transitive(row.0, old_rows[i].0, old_rows[b - 1].0);
                }
            } else {
                assert(rows[a] == old_rows[a - 1] && rows[b] == old_rows[b - 1]);
            }
        }
        assert(sorted_rows(rows));
        lemma_lookup_at(rows, i);
        assert forall|k: Seq<char>| k != row.0 implies lookup(#[trigger] self@, k) == lookup(old_rows, k) by {
            if has_key(old_rows, k) {
                let j = choose|j: int| 0 <= j < old_rows.len() && #[trigger] old_rows[j].0 == k;
                lemma_lookup_at(old_rows, j);
                if j < i {
                    assert(rows[j] == old_rows[j]);
                    lemma_lookup_at(rows, j);
                } else {
                    assert(rows[j + 1] == old_rows[j]);
                    lemma_lookup_at(rows, j + 1);
                }
            } else if has_key(rows, k) {
                let j = choose|j: int| 0 <= j < rows.len() && #[trigger] rows[j].0 == k;
                if j < i {
                    assert(old_rows[j].0 == k);
                } else if j > i {
                    assert(old_rows[j - 1].0 == k);
                }
            }
        }
        assert forall|k: Seq<char>| #[trigger] has_key(self@, k) <==> (has_key(old_rows, k) || k == row.0) by {
            if has_key(old_rows, k) {
                let j = choose|j: int| 0 <= j < old_rows.len() && #[trigger] old_rows[j].0 == k;
                if j < i {
                    assert(rows[j].0 == k);
                } else {
                    assert(rows[j + 1].0 == k);
                }
            }
            if has_key(rows, k) {
                let j = choose|j: int| 0 <= j < rows.len() && #[trigger] rows[j].0 == k;
                if j < i {
                    assert(old_rows[j].0 == k);
                } else if j > i {
                    assert(old_rows[j - 1].0 == k);
                }
            }
            if k == row.0 {
                assert(rows[i].0 == k);
            }
        }
    }
}


/// `[a]` as owned strings.
fn names1(a: &str) -> (v: Vec<String>)
    ensures
        v.deep_view() == seq![a@],
{
    let v = vec![String::from_str(a)];
    assert(v.deep_view() =~= seq![a@]);
    v
}

/// `[a, b]` as owned strings.
fn names2(a: &str, b: &str) -> (v: Vec<String>)
    ensures
        v.deep_view() == seq![a@, b@],
{
    let v = vec![String::from_str(a), String::from_str(b)];
    assert(v.deep_view() =~= seq![a@, b@]);
    v
}

/// A copy of a list of names.
fn copy_names(v: &Vec<String>) -> (c: Vec<String>)
    ensures
        c.deep_view() == v.deep_view(),
{
    let mut c: Vec<String> = Vec::new();
    let mut i: usize = 0;
    while i < v.len()
        invariant
            i <= v@.len(),
            c@.len() == i,
            forall|t: int| 0 <= t < i ==> #[trigger] c@[t]@ == v@[t]@,
        decreases v.len() - i,
    {
        c.push(String::from_str(v[i].as_str()));
        i = i + 1;
    }
    assert(c.deep_view() =~= v.deep_view());
    c
}

/// The default language servers of each supported language, ordered by
/// language name.
pub open spec fn default_lsp_rows() -> Seq<Row> {
    seq![
        ("cpp"@, seq!["clangd"@]),
        ("csharp"@, seq!["omnisharp"@]),
        ("go"@, seq!["gopls"@]),
        ("java"@, seq!["jdtls"@]),
        ("javascript"@, seq!["typescript-language-server"@, "eslint"@]),
        ("php"@, seq!["intelephense"@]),
        ("python"@, seq!["pyright"@, "ruff"@]),
        ("ruby"@, seq!["solargraph"@]),
        ("rust"@, seq!["rust-analyzer"@]),
        ("typescript"@, seq!["typescript-language-server"@, "eslint"@]),
    ]
}

/// The default servers of `lang`, if it is a supported language.
pub open spec fn default_lsp_for(lang: Seq<char>) -> Option<Seq<Seq<char>>> {
    lookup(default_lsp_rows(), lang)
}

/// Rows whose neighbouring keys increase are sorted.
pub proof fn lemma_sorted_from_neighbours(rows: Seq<Row>)
    requires
        forall|i: int| 0 <= i < rows.len() - 1 ==> lex_less(#[trigger] rows[i].0, rows[i + 1].0),
    ensures
        sorted_rows(rows),
    decreases rows.len(),
{
    if rows.len() > 0 {
        let init = rows.drop_last();
        assert forall|i: int| 0 <= i < init.len() - 1 implies lex_less(#[trigger] init[i].0, init[i + 1].0) by {
            assert(init[i] == rows[i] && init[i + 1] == rows[i + 1]);
        }
        lemma_sorted_from_neighbours(init);
        assert forall|a: int, b: int| 0 <= a < b < rows.len() implies lex_less(
            #[trigger] rows[a].0,
            #[trigger] rows[b].0,
        ) by {
            if b < rows.len() - 1 {
                assert(init[a] == rows[a] && init[b] == rows[b]);
            } else if a < b - 1 {
                assert(init[a] == rows[a] && init[b - 1] == rows[b - 1]);
                lemma_lex_less_transitive(rows[a].0, rows[b - 1].0, rows[b].0);
            }
        }
    }
}

/// The default rows are sorted by language name.
pub proof fn lemma_default_rows_sorted()
    ensures
        sorted_rows(default_lsp_rows()),
{
    reveal_strlit("cpp");
    reveal_strlit("csharp");
    reveal_strlit("go");
    reveal_strlit("java");
    reveal_strlit("javascript");
    reveal_strlit("php");
    reveal_strlit("python");
    reveal_strlit("ruby");
    reveal_strlit("rust");
    reveal_strlit("typescript");
    reveal_with_fuel(lex_less, 6);
    let rows = default_lsp_rows();
    assert(lex_less(rows[0].0, rows[1].0));
    assert(lex_less(rows[1].0, rows[2].0));
    assert(lex_less(rows[2].0, rows[3].0));
    assert(lex_less(rows[3].0, rows[4].0));
    assert(lex_less(rows[4].0, rows[5].0));
    assert(lex_less(rows[5].0, rows[6].0));
    assert(lex_less(rows[6].0, rows[7].0));
    assert(lex_less(rows[7].0, rows[8].0));
    assert(lex_less(rows[8].0, rows[9].0));
    lemma_sorted_from_neighbours(rows);
}

/// Supported programming languages and their default LSPs.
pub fn default_lsps() -> (t: LspTable)
    ensures
        t.wf(),
        t@ == default_lsp_rows(),
{
    let entries = vec![
        (String::from_str("cpp"), names1("clangd")),
        (String::from_str("csharp"), names1("omnisharp")),
        (String::from_str("go"), names1("gopls")),
        (String::from_str("java"), names1("jdtls")),
        (String::from_str("javascript"), names2("typescript-language-server", "eslint")),
        (String::from_str("php"), names1("intelephense")),
        (String::from_str("python"), names2("pyright", "ruff")),
        (String::from_str("ruby"), names1("solargraph")),
        (String::from_str("rust"), names1("rust-analyzer")),
        (String::from_str("typescript"), names2("typescript-language-server", "eslint")),
    ];
    let t = LspTable { entries };
    assert(t@ =~= default_lsp_rows());
    proof {
        lemma_default_rows_sorted();
    }
    t
}

/// Detect LSPs for the given languages: each language maps to its default
/// servers, or to none when it has no defaults.
pub fn detect_lsps(languages: &[String]) -> (t: LspTable)
    ensures
        t.wf(),
        forall|k: Seq<char>| #[trigger] has_key(t@, k) <==> exists|i: int|
            0 <= i < languages@.len() && #[trigger] languages@[i]@ == k,
        forall|k: Seq<char>| #[trigger] has_key(t@, k) ==> lookup(t@, k) == Some(
            match default_lsp_for(k) {
                Some(v) => v,
                None => Seq::<Seq<char>>::empty(),
            },
        ),
{
    let defaults = default_lsps();
    let mut result = LspTable::new();
    let mut i: usize = 0;
    while i < languages.len()
        invariant
            defaults.wf(),
            forall|k: Seq<char>| lookup(#[trigger] defaults@, k) == default_lsp_for(k),
            result.wf(),
            i <= languages@.len(),
            forall|k: Seq<char>| #[trigger] has_key(result@, k) <==> exists|j: int|
                0 <= j < i && #[trigger] languages@[j]@ == k,
            forall|k: Seq<char>| #[trigger] has_key(result@, k) ==> lookup(result@, k) == Some(
                match default_lsp_for(k) {
                    Some(v) => v,
                    None => Seq::<Seq<char>>::empty(),
                },
            ),
        decreases languages.len() - i,
    {
        let lang = &languages[i];
        let lsps = match defaults.get(lang.as_str()) {
            Some(v) => copy_names(v),
            None => Vec::new(),
        };
        proof {
            if default_lsp_for(lang@) is None {
                assert(lsps.deep_view() =~= Seq::<Seq<char>>::empty());
            }
        }
        let ghost before = result@;
        result.insert(String::from_str(lang.as_str()), lsps);
        i = i + 1;
        assert forall|k: Seq<char>| #[trigger] has_key(result@, k) <==> exists|j: int|
            0 <= j < i && #[trigger] languages@[j]@ == k by {
            if has_key(before, k) {
                let j = choose|j: int| 0 <= j < i - 1 && #[trigger] languages@[j]@ == k;
                assert(0 <= j < i);
            }
            if k == lang@ {
                assert(languages@[i - 1]@ == k);
            }
            if exists|j: int| 0 <= j < i && #[trigger] languages@[j]@ == k {
                let j = choose|j: int| 0 <= j < i && #[trigger] languages@[j]@ == k;
                if j < i - 1 {
                    assert(has_key(before, k));
                }
            }
        }
    }
    result
}


/// The indicators that mark a language in a project root, in the order they
/// are checked, each with the language it marks: a file name, or `*.ext` for
/// any file with the extension `ext`.
pub open spec fn language_indicator_rows() -> Seq<(Seq<char>, Seq<char>)> {
    seq![
        ("Cargo.toml"@, "rust"@),
        ("pyproject.toml"@, "python"@),
        ("setup.py"@, "python"@),
        ("requirements.txt"@, "python"@),
        ("Pipfile"@, "python"@),
        ("package.json"@, "typescript"@),
        ("tsconfig.json"@, "typescript"@),
        ("go.mod"@, "go"@),
        ("pom.xml"@, "java"@),
        ("build.gradle"@, "java"@),
        ("*.csproj"@, "csharp"@),
        ("CMakeLists.txt"@, "cpp"@),
        ("Gemfile"@, "ruby"@),
        ("composer.json"@, "php"@),
    ]
}

/// The indicators and the languages they mark.
pub fn language_indicators() -> (v: Vec<(String, String)>)
    ensures
        v.deep_view() == language_indicator_rows(),
{
    let v = vec![
        (String::from_str("Cargo.toml"), String::from_str("rust")),
        (String::from_str("pyproject.toml"), String::from_str("python")),
        (String::from_str("setup.py"), String::from_str("python")),
        (String::from_str("requirements.txt"), String::from_str("python")),
        (String::from_str("Pipfile"), String::from_str("python")),
        (String::from_str("package.json"), String::from_str("typescript")),
        (String::from_str("tsconfig.json"), String::from_str("typescript")),
        (String::from_str("go.mod"), String::from_str("go")),
        (String::from_str("pom.xml"), String::from_str("java")),
        (String::from_str("build.gradle"), String::from_str("java")),
        (String::from_str("*.csproj"), String::from_str("csharp")),
        (String::from_str("CMakeLists.txt"), String::from_str("cpp")),
        (String::from_str("Gemfile"), String::from_str("ruby")),
        (String::from_str("composer.json"), String::from_str("php")),
    ];
    assert(v.deep_view() =~= language_indicator_rows());
    v
}

/// An indicator of the form `*.ext`, which a file with the extension `ext`
/// meets.
pub open spec fn extension_pattern(pattern: Seq<char>) -> bool {
    pattern.len() >= 2 && pattern[0] == '*' && pattern[1] == '.'
}

/// What is looked for in a project root to meet an indicator.
pub enum ProbeTarget {
    /// A file at this path.
    File(Seq<char>),
    /// An entry with this extension.
    Extension(Seq<char>),
}

/// What is looked for in the project root `root` to meet the indicator
/// `pattern`.
pub open spec fn probe_for(root: Seq<char>, pattern: Seq<char>) -> ProbeTarget {
    if extension_pattern(pattern) {
        ProbeTarget::Extension(pattern.skip(2))
    } else {
        ProbeTarget::File(path_join(root, pattern))
    }
}

/// What is looked for to meet one indicator.
pub enum IndicatorProbe {
    /// A file at this path.
    File(String),
    /// An entry of the project root with this extension (without the dot).
    Extension(String),
}

impl View for IndicatorProbe {
    type V = ProbeTarget;

    open spec fn view(&self) -> ProbeTarget {
        match self {
            IndicatorProbe::File(p) => ProbeTarget::File(p@),
            IndicatorProbe::Extension(e) => ProbeTarget::Extension(e@),
        }
    }
}

/// What is looked for in the project root `project_path` to meet each
/// indicator, in the order of the indicators.
pub fn indicator_probes(project_path: &str) -> (v: Vec<IndicatorProbe>)
    ensures
        v@.len() == language_indicator_rows().len(),
        forall|i: int| 0 <= i < v@.len() ==> #[trigger] v@[i]@ == probe_for(project_path@, language_indicator_rows()[i].0),
{
    let indicators = language_indicators();
    let mut v: Vec<IndicatorProbe> = Vec::new();
    let mut i: usize = 0;
    while i < indicators.len()
        invariant
            indicators.deep_view() == language_indicator_rows(),
            i <= indicators@.len(),
            v@.len() == i,
            forall|j: int| 0 <= j < i ==> #[trigger] v@[j]@ == probe_for(project_path@, language_indicator_rows()[j].0),
        decreases indicators.len() - i,
    {
        assert(indicators.deep_view()[i as int] == language_indicator_rows()[i as int]);
        let pattern = indicators[i].0.as_str();
        let pc = chars_of(pattern);
        let probe = if pc.len() >= 2 && pc[0] == '*' && pc[1] == '.' {
            IndicatorProbe::Extension(string_of(&pc, 2, pc.len()))
        } else {
            IndicatorProbe::File(join_path(project_path, pattern))
        };
        proof {
            if extension_pattern(pattern@) {
                assert(pc@.subrange(2, pc@.len() as int) =~= pattern@.skip(2));
            }
        }
        v.push(probe);
        i = i + 1;
    }
    v
}

/// Some name in `names` has the extension `ext`.
pub open spec fn some_has_extension(names: Seq<Seq<char>>, ext: Seq<char>) -> bool {
    exists|j: int| 0 <= j < names.len() && #[trigger] path_extension(names[j]) == Some(ext)
}

/// Whether one of `names` has the extension `ext` (as `Path::extension`
/// reads it).
pub fn has_entry_with_extension(names: &Vec<String>, ext: &str) -> (b: bool)
    ensures
        b == some_has_extension(names.deep_view(), ext@),
{
    let mut j: usize = 0;
    while j < names.len()
        invariant
            j <= names@.len(),
            forall|k: int| 0 <= k < j ==> #[trigger] path_extension(names.deep_view()[k]) != Some(ext@),
        decreases names.len() - j,
    {
        let nc = chars_of(names[j].as_str());
        assert(names.deep_view()[j as int] == names@[j as int]@);
        match extension(&nc) {
            Some(e) => {
                let es = string_of(&e, 0, e.len());
                assert(e@.subrange(0, e@.len() as int) =~= e@);
                if str_equal(es.as_str(), ext) {
                    return true;
                }
            },
            None => {},
        }
        j = j + 1;
    }
    false
}

/// Some indicator at index `i` is marked present and names language `lang`.
pub open spec fn indicated(present: Seq<bool>, lang: Seq<char>) -> bool {
    exists|i: int|
        0 <= i < present.len() && i < language_indicator_rows().len() && #[trigger] present[i]
            && language_indicator_rows()[i].1 == lang
}

/// The languages marked by the indicator files that are present
/// (`present[i]` tells whether the `i`-th indicator file exists), sorted and
/// without repetition.
pub fn languages_from_indicators(present: &[bool]) -> (langs: Vec<String>)
    ensures
        forall|a: int, b: int| 0 <= a < b < langs@.len() ==> lex_less(#[trigger] langs@[a]@, #[trigger] langs@[b]@),
        forall|l: Seq<char>| (exists|a: int| 0 <= a < langs@.len() && #[trigger] langs@[a]@ == l) <==> indicated(present@, l),
{
    let indicators = language_indicators();
    let mut table = LspTable::new();
    let mut i: usize = 0;
    while i < indicators.len()
        invariant
            indicators.deep_view() == language_indicator_rows(),
            table.wf(),
            i <= indicators@.len(),
            forall|l: Seq<char>| #[trigger] has_key(table@, l) <==> exists|j: int|
                0 <= j < present@.len() && j < i && #[trigger] present@[j] && language_indicator_rows()[j].1 == l,
        decreases indicators.len() - i,
    {
        let ghost before = table@;
        if i < present.len() && present[i] {
            assert(indicators.deep_view()[i as int] == language_indicator_rows()[i as int]);
            table.insert(String::from_str(indicators[i].1.as_str()), Vec::new());
        }
        i = i + 1;
        assert forall|l: Seq<char>| #[trigger] has_key(table@, l) <==> exists|j: int|
            0 <= j < present@.len() && j < i && #[trigger] present@[j] && language_indicator_rows()[j].1 == l by {
            if has_key(before, l) {
                let j = choose|j: int| 0 <= j < present@.len() && j < i - 1 && #[trigger] present@[j] && language_indicator_rows()[j].1 == l;
                assert(j < i);
            }
            if exists|j: int| 0 <= j < present@.len() && j < i && #[trigger] present@[j] && language_indicator_rows()[j].1 == l {
                let j = choose|j: int| 0 <= j < present@.len() && j < i && #[trigger] present@[j] && language_indicator_rows()[j].1 == l;
                if j < i - 1 {
                    assert(has_key(before, l));
                }
            }
        }
    }
    let langs = table.keys();
    assert forall|l: Seq<char>| (exists|a: int| 0 <= a < langs@.len() && #[trigger] langs@[a]@ == l) <==> indicated(present@, l) by {
        if exists|a: int| 0 <= a < langs@.len() && #[trigger] langs@[a]@ == l {
            let a = choose|a: int| 0 <= a < langs@.len() && #[trigger] langs@[a]@ == l;
            assert(table@[a].0 == l);
            assert(has_key(table@, l));
        }
        if indicated(present@, l) {
            assert(has_key(table@, l));
            let a = key_index(table@, l);
            assert(langs@[a]@ == l);
        }
    }
    assert forall|a: int, b: int| 0 <= a < b < langs@.len() implies lex_less(#[trigger] langs@[a]@, #[trigger] langs@[b]@) by {
        assert(langs@[a]@ == table@[a].0);
        assert(langs@[b]@ == table@[b].0);
    }
    langs
}

/// `names` are exactly the languages that the indicators marked in `present`
/// mark.
pub open spec fn names_exactly(names: Seq<Seq<char>>, present: Seq<bool>) -> bool {
    forall|l: Seq<char>| (exists|a: int| 0 <= a < names.len() && #[trigger] names[a] == l) <==> #[trigger] indicated(present, l)
}

/// Whether the indicator `pattern` is met, given `answer` (whether the file
/// it names exists in the project root) and `listing` (the names of the
/// project root's entries): an extension indicator by some entry with its
/// extension, any other by the file.
pub open spec fn indicator_met(pattern: Seq<char>, answer: bool, listing: Seq<Seq<char>>) -> bool {
    if extension_pattern(pattern) {
        some_has_extension(listing, pattern.skip(2))
    } else {
        answer
    }
}

/// Which indicators are met, in the order of the indicators, given the
/// answers `answers` to the file probes (`answers[i]` for the `i`-th
/// indicator; a missing answer is no) and the project root's entries
/// `listing`.
pub open spec fn indicators_met(answers: Seq<bool>, listing: Seq<Seq<char>>) -> Seq<bool> {
    Seq::new(
        language_indicator_rows().len(),
        |i: int| indicator_met(language_indicator_rows()[i].0, i < answers.len() && answers[i], listing),
    )
}

/// The languages marked by the indicators that are met, given the answers to
/// the file probes and the project root's entries, sorted and without
/// repetition.
pub fn languages_from_answers(answers: &[bool], listing: &Vec<String>) -> (langs: Vec<String>)
    ensures
        forall|a: int, b: int| 0 <= a < b < langs@.len() ==> lex_less(#[trigger] langs@[a]@, #[trigger] langs@[b]@),
        names_exactly(langs.deep_view(), indicators_met(answers@, listing.deep_view())),
{
    let indicators = language_indicators();
    let ghost met = indicators_met(answers@, listing.deep_view());
    let mut present: Vec<bool> = Vec::new();
    let mut i: usize = 0;
    while i < indicators.len()
        invariant
            indicators.deep_view() == language_indicator_rows(),
            met == indicators_met(answers@, listing.deep_view()),
            i <= indicators@.len(),
            present@ == met.take(i as int),
        decreases indicators.len() - i,
    {
        assert(indicators.deep_view()[i as int] == language_indicator_rows()[i as int]);
        let pattern = indicators[i].0.as_str();
        let pc = chars_of(pattern);
        let found = if pc.len() >= 2 && pc[0] == '*' && pc[1] == '.' {
            let ext = string_of(&pc, 2, pc.len());
            assert(pc@.subrange(2, pc@.len() as int) =~= pattern@.skip(2));
            has_entry_with_extension(listing, ext.as_str())
        } else {
            i < answers.len() && answers[i]
        };
        assert(found == met[i as int]);
        present.push(found);
        i = i + 1;
        assert(present@ =~= met.take(i as int));
    }
    assert(present@ =~= met);
    let langs = languages_from_indicators(present.as_slice());
    proof {
        let names = langs.deep_view();
        assert forall|l: Seq<char>| (exists|a: int| 0 <= a < names.len() && #[trigger] names[a] == l) <==> #[trigger] indicated(met, l) by {
            if exists|a: int| 0 <= a < names.len() && #[trigger] names[a] == l {
                let a = choose|a: int| 0 <= a < names.len() && #[trigger] names[a] == l;
                assert(langs@[a]@ == l);
            }
            if indicated(met, l) {
                let a = choose|a: int| 0 <= a < langs@.len() && #[trigger] langs@[a]@ == l;
                assert(names[a] == l);
            }
        }
    }
    langs
}

/// A language that only file indicators mark is detected exactly when the
/// answer for one of its indicator files is yes; the root's entries play no
/// part for it.
pub proof fn law_file_marked_language_follows_its_files(
    answers: Seq<bool>,
    listing: Seq<Seq<char>>,
    lang: Seq<char>,
)
    requires
        forall|i: int|
            0 <= i < language_indicator_rows().len() && #[trigger] language_indicator_rows()[i].1 == lang
                ==> !extension_pattern(language_indicator_rows()[i].0),
    ensures
        indicated(indicators_met(answers, listing), lang) <==> exists|i: int|
            0 <= i < language_indicator_rows().len() && i < answers.len() && #[trigger] answers[i]
                && language_indicator_rows()[i].1 == lang,
{
    let met = indicators_met(answers, listing);
    let rows = language_indicator_rows();
    if indicated(met, lang) {
        let i = choose|i: int| 0 <= i < met.len() && i < rows.len() && #[trigger] met[i] && rows[i].1 == lang;
        assert(!extension_pattern(rows[i].0));
        assert(answers[i]);
    }
    if exists|i: int| 0 <= i < rows.len() && i < answers.len() && #[trigger] answers[i] && rows[i].1 == lang {
        let i = choose|i: int| 0 <= i < rows.len() && i < answers.len() && #[trigger] answers[i] && rows[i].1 == lang;
        assert(!extension_pattern(rows[i].0));
        assert(met[i]);
    }
}

/// A language marked by an extension indicator is detected when an entry of
/// the root has that extension, whatever the file answers are.
pub proof fn law_extension_marked_language_follows_the_listing(
    answers: Seq<bool>,
    listing: Seq<Seq<char>>,
    i: int,
    entry: int,
)
    requires
        0 <= i < language_indicator_rows().len(),
        extension_pattern(language_indicator_rows()[i].0),
        0 <= entry < listing.len(),
        path_extension(listing[entry]) == Some(language_indicator_rows()[i].0.skip(2)),
    ensures
        indicated(indicators_met(answers, listing), language_indicator_rows()[i].1),
{
    let met = indicators_met(answers, listing);
    assert(some_has_extension(listing, language_indicator_rows()[i].0.skip(2)));
    assert(met[i]);
}

/// Detect the languages present in a project directory: those marked by the
/// indicators it meets (a file that exists in it, or an entry with the
/// indicator's extension; see `indicator_probes`), sorted and without
/// repetition; none when the path is not a directory.
///
/// Whether the path is a directory, which files exist and which entries the
/// directory holds are the file system's answers, so the contract says that
/// the result is what `languages_from_answers` gives for some such answers.
pub fn detect_languages(project_path: &str) -> (langs: Vec<String>)
    ensures
        forall|a: int, b: int| 0 <= a < b < langs@.len() ==> lex_less(#[trigger] langs@[a]@, #[trigger] langs@[b]@),
        exists|answers: Seq<bool>, listing: Seq<Seq<char>>|
            #[trigger] names_exactly(langs.deep_view(), indicators_met(answers, listing)),
{
    if !path_is_dir(project_path) {
        let none: Vec<String> = Vec::new();
        proof {
            let met = indicators_met(Seq::empty(), Seq::empty());
            assert forall|l: Seq<char>| !#[trigger] indicated(met, l) by {
                assert forall|i: int| 0 <= i < met.len() implies !#[trigger] met[i] by {
                    assert(!some_has_extension(Seq::<Seq<char>>::empty(), language_indicator_rows()[i].0.skip(2)));
                }
            }
            assert(names_exactly(none.deep_view(), met));
        }
        return none;
    }
    let probes = indicator_probes(project_path);
    let mut answers: Vec<bool> = Vec::new();
    let mut i: usize = 0;
    while i < probes.len()
        invariant
            i <= probes@.len(),
            answers@.len() == i,
        decreases probes.len() - i,
    {
        let answer = match &probes[i] {
            IndicatorProbe::File(file) => path_exists(file.as_str()),
            IndicatorProbe::Extension(_) => false,
        };
        answers.push(answer);
        i = i + 1;
    }
    let listing = directory_entry_names(project_path);
    languages_from_answers(answers.as_slice(), &listing)
}

} // verus!
