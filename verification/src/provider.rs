//! Language server provider: a registry of known language servers, their
//! configurations, and detection by file extension or language id. Users can
//! register custom servers at runtime.
use vstd::prelude::*;
use vstd::string::*;

use crate::namemap::{names_contain, NameMap};
use crate::paths::{extension, file_name, path_extension, path_file_name};
use crate::text::{find_char, find_char_from, lemma_find_char_from, push_char};

verus! {

/// Configuration for a single language server.
#[derive(Debug, Clone)]
pub struct ServerConfig {
    /// Display name (e.g. "rust-analyzer")
    pub name: String,
    /// The command to spawn (e.g. "rust-analyzer")
    pub command: String,
    /// Command-line arguments
    pub args: Vec<String>,
    /// File extensions this server handles (e.g. [".rs"])
    pub file_extensions: Vec<String>,
    /// Language IDs this server handles (e.g. ["rust"])
    pub language_ids: Vec<String>,
    /// Environment variables to set, as (name, value) pairs
    pub env: Vec<(String, String)>,
    /// Initialization options, as JSON text (sent as `initializationOptions`)
    pub initialization_options: Option<String>,
    /// Settings, as JSON text (sent via `workspace/didChangeConfiguration`)
    pub settings: Option<String>,
}

/// The mathematical value of a `ServerConfig`.
#[verifier::ext_equal]
pub struct ServerConfigView {
    pub name: Seq<char>,
    pub command: Seq<char>,
    pub args: Seq<Seq<char>>,
    pub file_extensions: Seq<Seq<char>>,
    pub language_ids: Seq<Seq<char>>,
    pub env: Seq<(Seq<char>, Seq<char>)>,
    pub initialization_options: Option<Seq<char>>,
    pub settings: Option<Seq<char>>,
}

/// The mathematical value of an optional string.
pub open spec fn opt_view(o: Option<String>) -> Option<Seq<char>> {
    match o {
        Some(s) => Some(s@),
        None => None,
    }
}

impl View for ServerConfig {
    type V = ServerConfigView;

    open spec fn view(&self) -> ServerConfigView {
        ServerConfigView {
            name: self.name@,
            command: self.command@,
            args: self.args.deep_view(),
            file_extensions: self.file_extensions.deep_view(),
            language_ids: self.language_ids.deep_view(),
            env: self.env.deep_view(),
            initialization_options: opt_view(self.initialization_options),
            settings: opt_view(self.settings),
        }
    }
}

/// The mathematical value of a provider: servers by name, and the server
/// name registered for each file extension and each language id.
#[verifier::ext_equal]
pub struct ProviderView {
    pub servers: Map<Seq<char>, ServerConfigView>,
    pub extensions: Map<Seq<char>, Seq<char>>,
    pub languages: Map<Seq<char>, Seq<char>>,
}

/// `m` with each of `keys`, in order, mapped to `v`.
pub open spec fn insert_all(m: Map<Seq<char>, Seq<char>>, keys: Seq<Seq<char>>, v: Seq<char>) -> Map<
    Seq<char>,
    Seq<char>,
>
    decreases keys.len(),
{
    if keys.len() == 0 {
        m
    } else {
        insert_all(m, keys.drop_last(), v).insert(keys.last(), v)
    }
}

/// The provider after registering `c`: its extensions and language ids map
/// to its name, and its name maps to it, replacing earlier entries.
pub open spec fn register_spec(p: ProviderView, c: ServerConfigView) -> ProviderView {
    ProviderView {
        servers: p.servers.insert(c.name, c),
        extensions: insert_all(p.extensions, c.file_extensions, c.name),
        languages: insert_all(p.languages, c.language_ids, c.name),
    }
}

/// A provider with nothing registered.
pub open spec fn empty_provider() -> ProviderView {
    ProviderView { servers: Map::empty(), extensions: Map::empty(), languages: Map::empty() }
}

/// Registering each of `cs` in turn, starting from `p`.
pub open spec fn register_each(p: ProviderView, cs: Seq<ServerConfigView>) -> ProviderView
    decreases cs.len(),
{
    if cs.len() == 0 {
        p
    } else {
        register_spec(register_each(p, cs.drop_last()), cs.last())
    }
}

/// The server registered under `name`, if any.
pub open spec fn server_named(p: ProviderView, name: Seq<char>) -> Option<ServerConfigView> {
    if p.servers.contains_key(name) {
        Some(p.servers[name])
    } else {
        None
    }
}

/// The server for language `lang`, if one is registered for it and that
/// server's name is known.
pub open spec fn for_language_spec(p: ProviderView, lang: Seq<char>) -> Option<ServerConfigView> {
    if p.languages.contains_key(lang) {
        server_named(p, p.languages[lang])
    } else {
        None
    }
}

/// The server for a file: by its extension (with a leading dot), else by
/// the part of its file name from the first dot on. A file without an
/// extension has none.
pub open spec fn for_file_spec(p: ProviderView, path: Seq<char>) -> Option<ServerConfigView> {
    match path_extension(path) {
        None => None,
        Some(ext) => {
            let dotted = seq!['.'] + ext;
            if p.extensions.contains_key(dotted) {
                server_named(p, p.extensions[dotted])
            } else {
                match path_file_name(path) {
                    None => None,
                    Some(name) => match find_char_from(name, '.', 0) {
                        None => None,
                        Some(pos) => {
                            let suffix = name.skip(pos);
                            if p.extensions.contains_key(suffix) {
                                server_named(p, p.extensions[suffix])
                            } else {
                                None
                            }
                        },
                    },
                }
            }
        },
    }
}

/// A server configuration with no environment and no settings.
pub open spec fn plain_config(
    name: Seq<char>,
    command: Seq<char>,
    args: Seq<Seq<char>>,
    exts: Seq<Seq<char>>,
    langs: Seq<Seq<char>>,
    init: Option<Seq<char>>,
) -> ServerConfigView {
    ServerConfigView {
        name,
        command,
        args,
        file_extensions: exts,
        language_ids: langs,
        env: Seq::empty(),
        initialization_options: init,
        settings: None,
    }
}

/// The built-in language servers, in the order they are registered.
pub open spec fn builtin_configs() -> Seq<ServerConfigView> {
    seq![
        plain_config("rust-analyzer"@, "rust-analyzer"@, seq![], seq![".rs"@], seq!["rust"@], Some(RUST_ANALYZER_OPTIONS@)),
        plain_config(
            "typescript-language-server"@,
            "typescript-language-server"@,
            seq!["--stdio"@],
            seq![".ts"@, ".tsx"@, ".js"@, ".jsx"@, ".mjs"@, ".cjs"@],
            seq!["typescript"@, "typescriptreact"@, "javascript"@, "javascriptreact"@],
            None,
        ),
        plain_config("pyright"@, "pyright-langserver"@, seq!["--stdio"@], seq![".py"@], seq!["python"@], Some(PYRIGHT_OPTIONS@)),
        plain_config("gopls"@, "gopls"@, seq![], seq![".go"@], seq!["go"@], None),
        plain_config(
            "vscode-json-languageserver"@,
            "vscode-json-languageserver"@,
            seq!["--stdio"@],
            seq![".json"@, ".jsonc"@],
            seq!["json"@, "jsonc"@],
            None,
        ),
        plain_config(
            "yaml-language-server"@,
            "yaml-language-server"@,
            seq!["--stdio"@],
            seq![".yaml"@, ".yml"@],
            seq!["yaml"@],
            None,
        ),
        plain_config("taplo"@, "taplo"@, seq!["lsp"@, "--stdio"@], seq![".toml"@, ".Cargo.toml"@], seq!["toml"@], None),
        plain_config(
            "vscode-html-languageserver"@,
            "vscode-html-languageserver"@,
            seq!["--stdio"@],
            seq![".html"@, ".htm"@],
            seq!["html"@],
            None,
        ),
        plain_config(
            "vscode-css-languageserver"@,
            "vscode-css-languageserver"@,
            seq!["--stdio"@],
            seq![".css"@, ".scss"@, ".less"@],
            seq!["css"@, "scss"@, "less"@],
            None,
        ),
        plain_config("marksman"@, "marksman"@, seq![], seq![".md"@, ".markdown"@], seq!["markdown"@], None),
        plain_config(
            "docker-langserver"@,
            "docker-langserver"@,
            seq!["--stdio"@],
            seq![".Dockerfile"@, "Dockerfile"@],
            seq!["dockerfile"@],
            None,
        ),
        plain_config("lua-language-server"@, "lua-language-server"@, seq![], seq![".lua"@], seq!["lua"@], None),
    ]
}

/// Initialization options of rust-analyzer.
pub const RUST_ANALYZER_OPTIONS: &'static str = "{\"cargo\":{\"buildOnSave\":true},\"checkOnSave\":true,\"procMacro\":{\"enable\":true}}";

/// Initialization options of pyright.
pub const PYRIGHT_OPTIONS: &'static str = "{\"analysis\":{\"autoSearchPaths\":true,\"useLibraryCodeForTypes\":true}}";

/// Owned copies of `items`.
fn strings(items: &[&str]) -> (v: Vec<String>)
    ensures
        v.deep_view() == items@.map_values(|s: &str| s@),
{
    let mut v: Vec<String> = Vec::new();
    let mut i: usize = 0;
    while i < items.len()
        invariant
            i <= items@.len(),
            v@.len() == i,
            forall|t: int| 0 <= t < i ==> #[trigger] v@[t]@ == items@[t]@,
        decreases items.len() - i,
    {
        v.push(String::from_str(items[i]));
        i = i + 1;
    }
    assert(v.deep_view() =~= items@.map_values(|s: &str| s@));
    v
}

/// A server configuration with no environment and no settings.
fn plain(
    name: &str,
    command: &str,
    args: &[&str],
    exts: &[&str],
    langs: &[&str],
    init: Option<&str>,
) -> (c: ServerConfig)
    ensures
        c@ == plain_config(
            name@,
            command@,
            args@.map_values(|s: &str| s@),
            exts@.map_values(|s: &str| s@),
            langs@.map_values(|s: &str| s@),
            match init {
                Some(t) => Some(t@),
                None => None,
            },
        ),
{
    let env: Vec<(String, String)> = Vec::new();
    assert(env.deep_view() =~= Seq::<(Seq<char>, Seq<char>)>::empty());
    let initialization_options = match init {
        Some(t) => Some(String::from_str(t)),
        None => None,
    };
    ServerConfig {
        name: String::from_str(name),
        command: String::from_str(command),
        args: strings(args),
        file_extensions: strings(exts),
        language_ids: strings(langs),
        env,
        initialization_options,
        settings: None,
    }
}

/// The built-in language server configurations.
pub fn builtin_server_configs() -> (v: Vec<ServerConfig>)
    ensures
        v@.map_values(|c: ServerConfig| c@) == builtin_configs(),
{
    let v = vec![
        plain("rust-analyzer", "rust-analyzer", &[], &[".rs"], &["rust"], Some(RUST_ANALYZER_OPTIONS)),
        plain(
            "typescript-language-server",
            "typescript-language-server",
            &["--stdio"],
            &[".ts", ".tsx", ".js", ".jsx", ".mjs", ".cjs"],
            &["typescript", "typescriptreact", "javascript", "javascriptreact"],
            None,
        ),
        plain("pyright", "pyright-langserver", &["--stdio"], &[".py"], &["python"], Some(PYRIGHT_OPTIONS)),
        plain("gopls", "gopls", &[], &[".go"], &["go"], None),
        plain(
            "vscode-json-languageserver",
            "vscode-json-languageserver",
            &["--stdio"],
            &[".json", ".jsonc"],
            &["json", "jsonc"],
            None,
        ),
        plain("yaml-language-server", "yaml-language-server", &["--stdio"], &[".yaml", ".yml"], &["yaml"], None),
        plain("taplo", "taplo", &["lsp", "--stdio"], &[".toml", ".Cargo.toml"], &["toml"], None),
        plain(
            "vscode-html-languageserver",
            "vscode-html-languageserver",
            &["--stdio"],
            &[".html", ".htm"],
            &["html"],
            None,
        ),
        plain(
            "vscode-css-languageserver",
            "vscode-css-languageserver",
            &["--stdio"],
            &[".css", ".scss", ".less"],
            &["css", "scss", "less"],
            None,
        ),
        plain("marksman", "marksman", &[], &[".md", ".markdown"], &["markdown"], None),
        plain("docker-langserver", "docker-langserver", &["--stdio"], &[".Dockerfile", "Dockerfile"], &["dockerfile"], None),
        plain("lua-language-server", "lua-language-server", &[], &[".lua"], &["lua"], None),
    ];
    assert(v@.map_values(|c: ServerConfig| c@) =~~= builtin_configs());
    v
}


/// After `insert_all`, every inserted key maps to the inserted value.
pub proof fn lemma_insert_all_maps(m: Map<Seq<char>, Seq<char>>, keys: Seq<Seq<char>>, v: Seq<char>, k: Seq<char>)
    requires
        keys.contains(k),
    ensures
        insert_all(m, keys, v).contains_key(k),
        insert_all(m, keys, v)[k] == v,
    decreases keys.len(),
{
    if keys.last() != k {
        let i = choose|i: int| 0 <= i < keys.len() && keys[i] == k;
        assert(keys.drop_last()[i] == k);
        lemma_insert_all_maps(m, keys.drop_last(), v, k);
    }
}

/// Once a server is registered, each of its language ids resolves to it.
pub proof fn law_registered_language_resolves(p: ProviderView, c: ServerConfigView, lang: Seq<char>)
    requires
        c.language_ids.contains(lang),
    ensures
        for_language_spec(register_spec(p, c), lang) == Some(c),
{
    lemma_insert_all_maps(p.languages, c.language_ids, c.name, lang);
}

/// Once a server is registered, a file whose extension (with its dot) is
/// one of the server's resolves to it.
pub proof fn law_registered_extension_resolves(p: ProviderView, c: ServerConfigView, path: Seq<char>, ext: Seq<char>)
    requires
        path_extension(path) == Some(ext),
        c.file_extensions.contains(seq!['.'] + ext),
    ensures
        for_file_spec(register_spec(p, c), path) == Some(c),
{
    lemma_insert_all_maps(p.extensions, c.file_extensions, c.name, seq!['.'] + ext);
}

/// A registry of language server configurations.
///
/// Provides built-in defaults for common languages and allows registering
/// custom language servers.
pub struct LanguageServerProvider {
    /// Server name → configuration
    servers: NameMap<ServerConfig>,
    /// File extension → server name
    extension_map: NameMap<String>,
    /// Language ID → server name
    language_map: NameMap<String>,
}

impl View for LanguageServerProvider {
    type V = ProviderView;

    closed spec fn view(&self) -> ProviderView {
        ProviderView {
            servers: self.servers.map().map_values(|c: ServerConfig| c@),
            extensions: self.extension_map.map().map_values(|n: String| n@),
            languages: self.language_map.map().map_values(|n: String| n@),
        }
    }
}

impl LanguageServerProvider {
    /// The internal maps are well formed.
    pub closed spec fn wf(&self) -> bool {
        &&& self.servers.wf()
        &&& self.extension_map.wf()
        &&& self.language_map.wf()
    }

    /// Create a new provider with the built-in servers registered.
    pub fn new() -> (p: Self)
        ensures
            p.wf(),
            p@ == register_each(empty_provider(), builtin_configs()),
    {
        let mut provider = LanguageServerProvider {
            servers: NameMap::new(),
            extension_map: NameMap::new(),
            language_map: NameMap::new(),
        };
        assert(provider@ =~~= empty_provider());
        provider.register_builtins();
        provider
    }

    /// Register a language server configuration: its extensions and language
    /// ids now resolve to it, and it replaces any server of the same name.
    pub fn register(&mut self, config: ServerConfig)
        requires
            old(self).wf(),
        ensures
            final(self).wf(),
            final(self)@ == register_spec(old(self)@, config@),
    {
        let ghost old_view = self@;
        let name = config.name.clone();
        let mut i: usize = 0;
        while i < config.file_extensions.len()
            invariant
                self.wf(),
                name@ == config.name@,
                i <= config.file_extensions@.len(),
                self.servers == old(self).servers,
                self.language_map == old(self).language_map,
                self@.extensions == insert_all(old_view.extensions, config@.file_extensions.take(i as int), name@),
            decreases config.file_extensions.len() - i,
        {
            let ghost before = self@.extensions;
            self.extension_map.insert(config.file_extensions[i].clone(), name.clone());
            proof {
                let ks = config@.file_extensions.take(i + 1);
                assert(ks.drop_last() =~= config@.file_extensions.take(i as int));
                assert(ks.last() == config.file_extensions@[i as int]@);
                assert(self@.extensions =~= before.insert(ks.last(), name@));
            }
            i = i + 1;
        }
        assert(config@.file_extensions.take(config@.file_extensions.len() as int) =~= config@.file_extensions);
        let mut j: usize = 0;
        while j < config.language_ids.len()
            invariant
                self.wf(),
                name@ == config.name@,
                j <= config.language_ids@.len(),
                self.servers == old(self).servers,
                self@.extensions == insert_all(old_view.extensions, config@.file_extensions, name@),
                self@.languages == insert_all(old_view.languages, config@.language_ids.take(j as int), name@),
            decreases config.language_ids.len() - j,
        {
            let ghost before = self@.languages;
            self.language_map.insert(config.language_ids[j].clone(), name.clone());
            proof {
                let ks = config@.language_ids.take(j + 1);
                assert(ks.drop_last() =~= config@.language_ids.take(j as int));
                assert(ks.last() == config.language_ids@[j as int]@);
                assert(self@.languages =~= before.insert(ks.last(), name@));
            }
            j = j + 1;
        }
        let ghost cv = config@;
        let ghost before_servers = self@.servers;
        self.servers.insert(name, config);
        proof {
            assert(config@.file_extensions.take(config@.file_extensions.len() as int) =~= config@.file_extensions);
            assert(config@.language_ids.take(config@.language_ids.len() as int) =~= config@.language_ids);
            assert(self@.servers =~= before_servers.insert(cv.name, cv));
            assert(self@ =~~= register_spec(old_view, cv));
        }
    }

    /// Register the built-in default language servers, in order.
    fn register_builtins(&mut self)
        requires
            old(self).wf(),
        ensures
            final(self).wf(),
            final(self)@ == register_each(old(self)@, builtin_configs()),
    {
        let ghost start = self@;
        let mut configs = builtin_server_configs();
        let ghost all = configs@.map_values(|c: ServerConfig| c@);
        let n = configs.len();
        let mut i: usize = 0;
        assert(all.take(0) =~= Seq::<ServerConfigView>::empty());
        assert(configs@.map_values(|c: ServerConfig| c@) =~= all.skip(0));
        while i < n
            invariant
                self.wf(),
                all == builtin_configs(),
                n == all.len(),
                i <= n,
                configs@.map_values(|c: ServerConfig| c@) == all.skip(i as int),
                self@ == register_each(start, all.take(i as int)),
            decreases n - i,
        {
            assert(configs@.map_values(|c: ServerConfig| c@).len() == n - i);
            assert(configs@.map_values(|c: ServerConfig| c@)[0] == all[i as int]);
            let ghost prev = configs@;
            let c = configs.remove(0);
            assert(configs@ =~= prev.subrange(1, prev.len() as int));
            let ghost before = self@;
            self.register(c);
            proof {
                assert forall|t: int| 0 <= t < configs@.len() implies (#[trigger] configs@[t])@
                    == all.skip(i + 1)[t] by {
                    assert(configs@[t] == prev[t + 1]);
                    assert(prev.map_values(|c: ServerConfig| c@)[t + 1] == all.skip(i as int)[t + 1]);
                }
                assert(configs@.map_values(|c: ServerConfig| c@) =~= all.skip(i + 1));
                assert(all.take(i + 1).drop_last() =~= all.take(i as int));
                assert(all.take(i + 1).last() == all[i as int]);
            }
            i = i + 1;
        }
        assert(all.take(n as int) =~= all);
    }

    /// Find a server configuration for the given file path: by its extension,
    /// else by the part of its file name from the first dot on.
    pub fn for_file(&self, file_path: &str) -> (res: Option<&ServerConfig>)
        requires
            self.wf(),
        ensures
            match for_file_spec(self@, file_path@) {
                Some(c) => res matches Some(r) && r@ == c,
                None => res is None,
            },
    {
        let chars = crate::text::chars_of(file_path);
        let ext = match extension(&chars) {
            Some(e) => e,
            None => {
                return None;
            },
        };
        proof {
            reveal_strlit(".");
        }
        let mut dotted = String::from_str(".");
        let mut k: usize = 0;
        while k < ext.len()
            invariant
                k <= ext@.len(),
                dotted@ == seq!['.'] + ext@.take(k as int),
            decreases ext.len() - k,
        {
            push_char(&mut dotted, ext[k]);
            k = k + 1;
            assert(dotted@ =~= seq!['.'] + ext@.take(k as int));
        }
        assert(ext@.take(ext@.len() as int) =~= ext@);
        if let Some(name) = self.extension_map.get(dotted.as_str()) {
            return self.get(name.as_str());
        }
        let fname = match file_name(&chars) {
            Some(f) => f,
            None => {
                return None;
            },
        };
        proof {
            lemma_find_char_from(fname@, '.', 0);
        }
        let pos = match find_char(&fname, '.', 0) {
            Some(p) => p,
            None => {
                return None;
            },
        };
        let mut suffix = String::new();
        let mut t = pos;
        while t < fname.len()
            invariant
                pos <= t <= fname@.len(),
                suffix@ == fname@.subrange(pos as int, t as int),
            decreases fname.len() - t,
        {
            push_char(&mut suffix, fname[t]);
            t = t + 1;
            assert(suffix@ =~= fname@.subrange(pos as int, t as int));
        }
        assert(suffix@ =~= fname@.skip(pos as int));
        match self.extension_map.get(suffix.as_str()) {
            Some(name) => self.get(name.as_str()),
            None => None,
        }
    }

    /// Find a server configuration for the given language ID.
    pub fn for_language(&self, language_id: &str) -> (res: Option<&ServerConfig>)
        requires
            self.wf(),
        ensures
            match for_language_spec(self@, language_id@) {
                Some(c) => res matches Some(r) && r@ == c,
                None => res is None,
            },
    {
        match self.language_map.get(language_id) {
            Some(name) => self.get(name.as_str()),
            None => None,
        }
    }

    /// List all registered server names.
    pub fn servers(&self) -> (names: Vec<&str>)
        requires
            self.wf(),
        ensures
            names@.len() == self@.servers.len(),
            forall|k: Seq<char>| self@.servers.contains_key(k) <==> exists|i: int|
                0 <= i < names@.len() && #[trigger] names@[i]@ == k,
            forall|i: int, j: int| 0 <= i < j < names@.len() ==> #[trigger] names@[i]@ != #[trigger] names@[j]@,
    {
        let mut names: Vec<&str> = Vec::new();
        let mut i: usize = 0;
        while i < self.servers.len()
            invariant
                i <= self.servers.rows().len(),
                names@.len() == i,
                forall|t: int| 0 <= t < i ==> #[trigger] names@[t]@ == self.servers.rows()[t].0,
            decreases self.servers.rows().len() - i,
        {
            names.push(self.servers.name_at(i));
            i = i + 1;
        }
        proof {
            let rows = self.servers.rows();
            assert forall|k: Seq<char>| self@.servers.contains_key(k) <==> exists|i: int|
                0 <= i < names@.len() && #[trigger] names@[i]@ == k by {
                if names_contain(rows, k) {
                    let t = crate::namemap::name_index(rows, k);
                    assert(names@[t]@ == k);
                }
                if exists|i: int| 0 <= i < names@.len() && #[trigger] names@[i]@ == k {
                    let t = choose|i: int| 0 <= i < names@.len() && #[trigger] names@[i]@ == k;
                    assert(rows[t].0 == k);
                }
            }
            crate::namemap::lemma_map_len(rows);
            assert(self@.servers.dom() =~= self.servers.map().dom());
        }
        names
    }

    /// Get a server configuration by name.
    pub fn get(&self, name: &str) -> (res: Option<&ServerConfig>)
        requires
            self.wf(),
        ensures
            match server_named(self@, name@) {
                Some(c) => res matches Some(r) && r@ == c,
                None => res is None,
            },
    {
        self.servers.get(name)
    }
}

impl Default for LanguageServerProvider {
    /// The provider with the built-in servers registered.
    fn default() -> (p: Self)
        ensures
            p.wf(),
            p@ == register_each(empty_provider(), builtin_configs()),
    {
        LanguageServerProvider::new()
    }
}

} // verus!
