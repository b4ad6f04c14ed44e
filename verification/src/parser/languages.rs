//! Programming languages codemark can parse.

use vstd::prelude::*;
use vstd::utf8::encode_utf8;

use std::sync::Arc;

use crate::error::{Error, Result};
use crate::parser::profile::Profile;
use crate::text::strings_view;
use crate::parser::registry::LanguageRegistry;
use crate::parser::syntax::{
    builtin_parts, parser_for, parse_source, GrammarParser, SourceTree, parse_text, range_bytes,
};
use crate::text::{
    all_ascii, ascii_lowercase, chars_of, eq_chars, eq_str, lowercase, push_str, same_text, string_of,
    to_lowercase,
};

verus! {

/// A programming language codemark can parse.
///
/// Built-in variants are statically compiled. The [`Language::Dynamic`]
/// variant holds a WASM grammar loaded at runtime from the cache directory.
/// Two `Language` values are equal when they have the same name (same static
/// variant, or same name for dynamic grammars).
#[derive(Debug, Clone)]
pub enum Language {
    Swift,
    Rust,
    TypeScript,
    Python,
    Go,
    Java,
    CSharp,
    Dart,
    /// A dynamically loaded WASM grammar.
    Dynamic(Arc<DynamicLanguage>),
}

/// Metadata for a WASM-loaded language, read from its grammar manifest.
#[derive(Debug, Clone)]
pub struct DynamicLanguage {
    /// Registry name, e.g. "lua", "ruby", "bash". Used in stored bookmarks.
    pub name: String,
    /// File extensions this grammar handles (without the dot).
    pub extensions: Vec<String>,
    /// Path to the cached `.wasm` file.
    pub wasm_path: String,
    /// Language-specific structural metadata.
    pub profile: Profile,
}

/// The built-in language a lower-cased name (or alias) names.
pub open spec fn static_name_spec(k: Seq<char>) -> Option<Language> {
    if k == "swift"@ {
        Some(Language::Swift)
    } else if k == "rust"@ || k == "rs"@ {
        Some(Language::Rust)
    } else if k == "typescript"@ || k == "ts"@ || k == "tsx"@ {
        Some(Language::TypeScript)
    } else if k == "python"@ || k == "py"@ {
        Some(Language::Python)
    } else if k == "go"@ {
        Some(Language::Go)
    } else if k == "java"@ {
        Some(Language::Java)
    } else if k == "csharp"@ || k == "c#"@ || k == "cs"@ {
        Some(Language::CSharp)
    } else if k == "dart"@ {
        Some(Language::Dart)
    } else {
        None
    }
}

/// The built-in language that owns a lower-cased file extension.
pub open spec fn static_ext_spec(k: Seq<char>) -> Option<Language> {
    if k == "swift"@ {
        Some(Language::Swift)
    } else if k == "rs"@ {
        Some(Language::Rust)
    } else if k == "ts"@ || k == "tsx"@ {
        Some(Language::TypeScript)
    } else if k == "py"@ {
        Some(Language::Python)
    } else if k == "go"@ {
        Some(Language::Go)
    } else if k == "java"@ {
        Some(Language::Java)
    } else if k == "cs"@ {
        Some(Language::CSharp)
    } else if k == "dart"@ {
        Some(Language::Dart)
    } else {
        None
    }
}

/// The built-in languages, in listing order.
pub open spec fn builtins_spec() -> Seq<Language> {
    seq![
        Language::Rust,
        Language::Swift,
        Language::TypeScript,
        Language::Python,
        Language::Go,
        Language::Java,
        Language::CSharp,
        Language::Dart,
    ]
}

impl Language {
    /// The canonical name of this language.
    pub open spec fn name_spec(&self) -> Seq<char> {
        match self {
            Language::Swift => "swift"@,
            Language::Rust => "rust"@,
            Language::TypeScript => "typescript"@,
            Language::Python => "python"@,
            Language::Go => "go"@,
            Language::Java => "java"@,
            Language::CSharp => "csharp"@,
            Language::Dart => "dart"@,
            Language::Dynamic(dl) => dl.name@,
        }
    }

    /// The file extensions (without the dot) this language handles.
    pub open spec fn extensions_spec(&self) -> Seq<Seq<char>> {
        match self {
            Language::Swift => seq!["swift"@],
            Language::Rust => seq!["rs"@],
            Language::TypeScript => seq!["ts"@, "tsx"@],
            Language::Python => seq!["py"@],
            Language::Go => seq!["go"@],
            Language::Java => seq!["java"@],
            Language::CSharp => seq!["cs"@],
            Language::Dart => seq!["dart"@],
            Language::Dynamic(dl) => strings_view(dl.extensions@),
        }
    }

    /// Whether this is one of the built-in languages.
    pub open spec fn is_builtin(&self) -> bool {
        !(self is Dynamic)
    }

    /// The canonical name string for this language (e.g. "rust", "lua").
    pub fn name(&self) -> (r: &str)
        ensures
            r@ == self.name_spec(),
    {
        match self {
            Language::Swift => "swift",
            Language::Rust => "rust",
            Language::TypeScript => "typescript",
            Language::Python => "python",
            Language::Go => "go",
            Language::Java => "java",
            Language::CSharp => "csharp",
            Language::Dart => "dart",
            Language::Dynamic(dl) => dl.name.as_str(),
        }
    }

    /// The file extensions (without the dot) this language handles.
    pub fn file_extensions(&self) -> (r: Vec<String>)
        ensures
            strings_view(r@) == self.extensions_spec(),
    {
        let mut out: Vec<String> = Vec::new();
        match self {
            Language::Swift => out.push("swift".to_owned()),
            Language::Rust => out.push("rs".to_owned()),
            Language::TypeScript => {
                out.push("ts".to_owned());
                out.push("tsx".to_owned());
            },
            Language::Python => out.push("py".to_owned()),
            Language::Go => out.push("go".to_owned()),
            Language::Java => out.push("java".to_owned()),
            Language::CSharp => out.push("cs".to_owned()),
            Language::Dart => out.push("dart".to_owned()),
            Language::Dynamic(dl) => {
                out = dl.extensions.clone();
                proof {
                    assert(out@ == dl.extensions@);
                }
            },
        }
        proof {
            assert(strings_view(out@) =~= self.extensions_spec());
        }
        out
    }

    /// Resolve a file extension (without the dot) to a *built-in* language,
    /// case-insensitively, without consulting the dynamic registry.
    pub fn static_from_extension(ext: &str) -> (r: Option<Language>)
        ensures
            r == static_ext_spec(lowercase(ext@)),
    {
        let k = to_lowercase(&chars_of(ext));
        if eq_str(&k, "swift") {
            Some(Language::Swift)
        } else if eq_str(&k, "rs") {
            Some(Language::Rust)
        } else if eq_str(&k, "ts") || eq_str(&k, "tsx") {
            Some(Language::TypeScript)
        } else if eq_str(&k, "py") {
            Some(Language::Python)
        } else if eq_str(&k, "go") {
            Some(Language::Go)
        } else if eq_str(&k, "java") {
            Some(Language::Java)
        } else if eq_str(&k, "cs") {
            Some(Language::CSharp)
        } else if eq_str(&k, "dart") {
            Some(Language::Dart)
        } else {
            None
        }
    }

    /// Resolve a name (including aliases like `rs`/`ts`) to a *built-in*
    /// language, case-insensitively, without consulting the dynamic registry.
    ///
    /// This is the authoritative list of names the static languages claim.
    pub fn static_from_name(s: &str) -> (r: Option<Language>)
        ensures
            r == static_name_spec(lowercase(s@)),
    {
        let k = to_lowercase(&chars_of(s));
        if eq_str(&k, "swift") {
            Some(Language::Swift)
        } else if eq_str(&k, "rust") || eq_str(&k, "rs") {
            Some(Language::Rust)
        } else if eq_str(&k, "typescript") || eq_str(&k, "ts") || eq_str(&k, "tsx") {
            Some(Language::TypeScript)
        } else if eq_str(&k, "python") || eq_str(&k, "py") {
            Some(Language::Python)
        } else if eq_str(&k, "go") {
            Some(Language::Go)
        } else if eq_str(&k, "java") {
            Some(Language::Java)
        } else if eq_str(&k, "csharp") || eq_str(&k, "c#") || eq_str(&k, "cs") {
            Some(Language::CSharp)
        } else if eq_str(&k, "dart") {
            Some(Language::Dart)
        } else {
            None
        }
    }

    /// List all built-in static languages.
    pub fn builtins() -> (r: Vec<Language>)
        ensures
            r@ == builtins_spec(),
    {
        let mut v: Vec<Language> = Vec::new();
        v.push(Language::Rust);
        v.push(Language::Swift);
        v.push(Language::TypeScript);
        v.push(Language::Python);
        v.push(Language::Go);
        v.push(Language::Java);
        v.push(Language::CSharp);
        v.push(Language::Dart);
        proof {
            assert(v@ =~= builtins_spec());
        }
        v
    }

    /// Infer language from a file extension. Checks static languages first,
    /// then the dynamic grammar registry.
    pub fn from_extension(ext: &str, registry: &LanguageRegistry) -> (r: Option<Language>)
        ensures
            static_ext_spec(lowercase(ext@)) is Some ==> r == static_ext_spec(lowercase(ext@)),
            static_ext_spec(lowercase(ext@)) is None ==> r == registry.ext_lookup(
                lowercase(ext@),
            ),
    {
        match Self::static_from_extension(ext) {
            Some(l) => Some(l),
            None => registry.from_extension(ext),
        }
    }

    /// Resolve a language name: a built-in name or alias first, then a
    /// dynamic grammar registered under that name (case-insensitively).
    /// Fails with `unsupported language: <s>` when neither knows it.
    pub fn from_name_in(s: &str, registry: &LanguageRegistry) -> (r: Result<Language>)
        ensures
            static_name_spec(lowercase(s@)) is Some ==> r == Ok::<Language, Error>(
                static_name_spec(lowercase(s@)).unwrap(),
            ),
            static_name_spec(lowercase(s@)) is None && registry.name_lookup(lowercase(s@)) is Some
                ==> r == Ok::<Language, Error>(registry.name_lookup(lowercase(s@)).unwrap()),
            static_name_spec(lowercase(s@)) is None && registry.name_lookup(lowercase(s@)) is None
                ==> (r matches Err(Error::Input(m)) && m@ == "unsupported language: "@ + s@),
    {
        match Self::static_from_name(s) {
            Some(l) => {
                return Ok(l);
            },
            None => {},
        }
        match registry.from_name(s) {
            Some(l) => Ok(l),
            None => {
                let mut m: Vec<char> = Vec::new();
                push_str(&mut m, "unsupported language: ");
                push_str(&mut m, s);
                Err(Error::Input(string_of(&m)))
            },
        }
    }

    /// List all supported languages: the built-ins, then the registry's
    /// dynamic ones.
    pub fn all_supported(registry: &LanguageRegistry) -> (r: Vec<Language>)
        ensures
            r@ == builtins_spec() + registry.languages_spec(),
    {
        let mut all = Self::builtins();
        let mut dynamic = registry.dynamic_languages();
        all.append(&mut dynamic);
        all
    }
}

impl PartialEq for Language {
    fn eq(&self, other: &Self) -> (r: bool) {
        let a = chars_of(self.name());
        let b = chars_of(other.name());
        eq_chars(&a, &b)
    }
}

impl vstd::std_specs::cmp::PartialEqSpecImpl for Language {
    open spec fn obeys_eq_spec() -> bool {
        true
    }

    open spec fn eq_spec(&self, other: &Language) -> bool {
        self.name_spec() == other.name_spec()
    }
}

impl Eq for Language {}

impl core::str::FromStr for Language {
    type Err = Error;

    /// Parse a built-in language name or alias. Dynamic grammars are resolved
    /// through [`Language::from_name_in`], which takes the registry.
    fn from_str(s: &str) -> (r: Result<Language>)
        ensures
            static_name_spec(lowercase(s@)) is Some ==> r == Ok::<Language, Error>(
                static_name_spec(lowercase(s@)).unwrap(),
            ),
            static_name_spec(lowercase(s@)) is None ==> (r matches Err(Error::Input(m)) && m@
                == "unsupported language: "@ + s@),
    {
        let registry = LanguageRegistry::new();
        assert(registry.name_lookup(lowercase(s@)) is None);
        Language::from_name_in(s, &registry)
    }
}

// ---------------------------------------------------------------------------
// Parsing
// ---------------------------------------------------------------------------

impl Language {
    /// The compiled tree-sitter grammar of a built-in language. A dynamic
    /// grammar has none: its handle lives in the parser that loads it.
    pub fn tree_sitter_language(&self) -> (r: tree_sitter::Language)
        requires
            !(self is Dynamic),
    {
        let (_, grammar) = builtin_parts(self);
        grammar
    }
}

/// The message for a dynamic grammar, which this build cannot load.
pub open spec fn no_wasm_message(name: Seq<char>) -> Seq<char> {
    "dynamic grammar '"@ + name + "' requires the 'wasm' feature — rebuild codemark with --features wasm"@
}

/// A tree-sitter parser for one language.
pub struct Parser {
    inner: GrammarParser,
    language: Language,
    ts_language: tree_sitter::Language,
}

impl Parser {
    /// The parser's grammar is that of its language, a built-in one.
    pub closed spec fn wf(&self) -> bool {
        &&& self.inner.name_spec() == self.language.name_spec()
        &&& !(self.language is Dynamic)
    }

    /// A parser for `language`. Every built-in grammar is accepted; a
    /// dynamic grammar needs WASM support, which this build does not have.
    pub fn new(language: Language) -> (r: Result<Parser>)
        ensures
            match language {
                Language::Dynamic(dl) => r matches Err(Error::TreeSitter(m)) && m@ == no_wasm_message(
                    dl.name@,
                ),
                _ => r matches Ok(p) && p.codemark_language_spec() == language,
            },
            r matches Ok(p) ==> p.wf(),
            r matches Err(e) ==> (e is TreeSitter),
    {
        match &language {
            Language::Dynamic(dl) => {
                let mut m: Vec<char> = Vec::new();
                push_str(&mut m, "dynamic grammar '");
                push_str(&mut m, dl.name.as_str());
                push_str(
                    &mut m,
                    "' requires the 'wasm' feature — rebuild codemark with --features wasm",
                );
                return Err(Error::TreeSitter(string_of(&m)));
            },
            _ => {},
        }
        let ts = language.tree_sitter_language();
        let inner = parser_for(&language);
        Ok(Parser { inner, language, ts_language: ts })
    }

    /// The language this parser was built for.
    pub closed spec fn codemark_language_spec(&self) -> Language {
        self.language
    }

    /// The tree-sitter grammar this parser parses with.
    pub closed spec fn grammar_spec(&self) -> tree_sitter::Language {
        self.ts_language
    }

    /// The codemark [`Language`] this parser was built for.
    pub fn codemark_language(&self) -> (r: &Language)
        ensures
            *r == self.codemark_language_spec(),
    {
        &self.language
    }

    /// The tree-sitter grammar, for compiling and running queries against
    /// the trees this parser produces.
    pub fn language(&self) -> (r: &tree_sitter::Language)
        ensures
            *r == self.grammar_spec(),
    {
        &self.ts_language
    }

    /// Parse `source` into a tree. A parser with a grammar always gives one;
    /// were it to give none, that would be a tree-sitter error "failed to
    /// parse source".
    pub fn parse(&mut self, source: &[u8]) -> (r: Result<tree_sitter::Tree>)
        requires
            old(self).wf(),
        ensures
            r is Ok,
            final(self).wf(),
            final(self).codemark_language_spec() == old(self).codemark_language_spec(),
            final(self).grammar_spec() == old(self).grammar_spec(),
    {
        match parse_text(&mut self.inner, source) {
            Some(t) => Ok(t),
            None => Err(Error::TreeSitter(string_of(&chars_of("failed to parse source")))),
        }
    }

    /// Parse `source`, keeping the text with its tree and the name of the
    /// grammar (that of this parser's language).
    pub fn parse_source(&mut self, source: Vec<u8>) -> (r: SourceTree)
        requires
            old(self).wf(),
        ensures
            final(self).wf(),
            r.source_spec() == source@,
            r.name_spec() == old(self).codemark_language_spec().name_spec(),
            final(self).codemark_language_spec() == old(self).codemark_language_spec(),
            final(self).grammar_spec() == old(self).grammar_spec(),
    {
        parse_source(&mut self.inner, source)
    }
}

// ---------------------------------------------------------------------------
// Parse cache
// ---------------------------------------------------------------------------

/// A file's modification time as seconds and nanoseconds since the epoch.
pub type FileStamp = (u64, u32);

/// A cached parse: the file's canonical path, the modification time it was
/// parsed at (`None` for sources that report none, treated as immutable),
/// its tree and its text.
struct CachedTree {
    path: String,
    mtime: Option<FileStamp>,
    parsed: SourceTree,
    source: String,
}

/// Cache of parsed trees, keyed by canonical path and invalidated by
/// modification time: scrolling through bookmarks in the same file reuses
/// the tree, and a file edited since is parsed again.
///
/// The caller does the file system's part: it canonicalizes the path, reads
/// the modification time, asks [`ParseCache::needs_parse`], reads the file
/// when a parse is due and hands the text to [`ParseCache::parse_and_store`],
/// then takes the tree with [`ParseCache::get`].
pub struct ParseCache {
    trees: Vec<CachedTree>,
    parser: Parser,
}

/// Whether `i` is the entry for `path`.
pub open spec fn entry_at(entries: Seq<(Seq<char>, Option<FileStamp>, Seq<char>)>, path: Seq<char>, i: int) -> bool {
    0 <= i < entries.len() && entries[i].0 == path
}

impl ParseCache {
    /// The entries: path, modification time and text of each cached parse.
    pub closed spec fn entries(&self) -> Seq<(Seq<char>, Option<FileStamp>, Seq<char>)> {
        self.trees@.map_values(|c: CachedTree| (c.path@, c.mtime, c.source@))
    }

    /// The parser the cache parses with.
    pub closed spec fn parser_spec(&self) -> Parser {
        self.parser
    }

    /// Every cached tree is the parse of its text (as UTF-8 bytes) with the
    /// cache's grammar.
    pub closed spec fn parses_ok(&self) -> bool {
        forall|i: int|
            0 <= i < self.trees@.len() ==> (#[trigger] self.trees@[i]).parsed.source_spec()
                == encode_utf8(self.trees@[i].source@) && self.trees@[i].parsed.name_spec()
                == self.parser.codemark_language_spec().name_spec()
    }

    /// No path is cached twice, and every cached tree is the parse of its
    /// text with the cache's parser.
    pub open spec fn wf(&self) -> bool {
        &&& self.parser_spec().wf()
        &&& forall|i: int, j: int|
            0 <= i < j < self.entries().len() ==> #[trigger] self.entries()[i].0 != #[trigger] self.entries()[j].0
        &&& self.parses_ok()
    }

    /// What is cached for `path`: its modification time and text.
    pub open spec fn lookup(&self, path: Seq<char>) -> Option<(Option<FileStamp>, Seq<char>)> {
        if exists|i: int| entry_at(self.entries(), path, i) {
            let i = choose|i: int| entry_at(self.entries(), path, i);
            Some((self.entries()[i].1, self.entries()[i].2))
        } else {
            None
        }
    }

    /// Whether `path`, now at modification time `mtime`, must be parsed.
    pub open spec fn needs_parse_spec(&self, path: Seq<char>, mtime: Option<FileStamp>) -> bool {
        !(self.lookup(path) matches Some((m, _)) && m == mtime)
    }

    /// The language the cache parses.
    pub open spec fn language_spec(&self) -> Language {
        self.parser_spec().codemark_language_spec()
    }

    /// An empty cache with a parser for `language`; fails as [`Parser::new`]
    /// does.
    pub fn new(language: Language) -> (r: Result<ParseCache>)
        ensures
            r matches Ok(c) ==> c.wf() && c.entries().len() == 0 && c.language_spec() == language,
            !(language is Dynamic) ==> r is Ok,
            language is Dynamic ==> (r matches Err(Error::TreeSitter(m)) && m@ == no_wasm_message(
                language->Dynamic_0.name@,
            )),
            r matches Err(e) ==> (e is TreeSitter),
    {
        let parser = Parser::new(language)?;
        Ok(ParseCache { trees: Vec::new(), parser })
    }

    /// The position of the entry for `path`.
    fn position(&self, path: &str) -> (r: Option<usize>)
        requires
            self.wf(),
        ensures
            r matches Some(i) ==> entry_at(self.entries(), path@, i as int),
            r is None ==> self.lookup(path@) is None,
    {
        let mut i: usize = 0;
        while i < self.trees.len()
            invariant
                i <= self.trees@.len(),
                self.entries().len() == self.trees@.len(),
                forall|k: int| 0 <= k < i ==> (#[trigger] self.entries()[k]).0 != path@,
            decreases self.trees.len() - i,
        {
            assert(self.entries()[i as int].0 == self.trees@[i as int].path@);
            if same_text(self.trees[i].path.as_str(), path) {
                return Some(i);
            }
            i = i + 1;
        }
        proof {
            assert forall|k: int| !entry_at(self.entries(), path@, k) by {
                if entry_at(self.entries(), path@, k) {
                    assert(self.entries()[k].0 != path@);
                }
            }
        }
        None
    }

    /// What is cached at a position is what [`lookup`](Self::lookup) gives.
    proof fn lemma_lookup_at(&self, path: Seq<char>, i: int)
        requires
            self.wf(),
            entry_at(self.entries(), path, i),
        ensures
            self.lookup(path) == Some((self.entries()[i].1, self.entries()[i].2)),
    {
        let j = choose|j: int| entry_at(self.entries(), path, j);
        if j != i {
            if j < i {
                assert(self.entries()[j].0 != self.entries()[i].0);
            } else {
                assert(self.entries()[i].0 != self.entries()[j].0);
            }
        }
    }

    /// Whether `path`, whose modification time is now `mtime`, must be
    /// parsed: it is not cached, or it changed since it was.
    pub fn needs_parse(&self, path: &str, mtime: Option<FileStamp>) -> (b: bool)
        requires
            self.wf(),
        ensures
            b == self.needs_parse_spec(path@, mtime),
    {
        match self.position(path) {
            Some(i) => {
                proof {
                    self.lemma_lookup_at(path@, i as int);
                }
                assert(self.entries()[i as int].1 == self.trees@[i as int].mtime);
                self.trees[i].mtime != mtime
            },
            None => true,
        }
    }

    /// Parse `source`, the text of `path` at modification time `mtime`, and
    /// cache it in place of what was cached for `path`. When the parser
    /// gives no tree the cache is unchanged.
    pub fn parse_and_store(&mut self, path: &str, mtime: Option<FileStamp>, source: String) -> (r:
        Result<()>)
        requires
            old(self).wf(),
        ensures
            final(self).wf(),
            final(self).language_spec() == old(self).language_spec(),
            r is Ok ==> final(self).lookup(path@) == Some((mtime, source@)),
            r is Ok ==> forall|p: Seq<char>|
                p != path@ ==> #[trigger] final(self).lookup(p) == old(self).lookup(p),
            r is Err ==> final(self).entries() == old(self).entries(),
            r matches Err(e) ==> (e is TreeSitter),
    {
        let ghost before = self.trees@;
        let text = source.as_str().as_bytes();
        let bytes = range_bytes(text, 0, text.len());
        assert(bytes@ =~= encode_utf8(source@));
        let parsed = self.parser.parse_source(bytes);
        assert(self.trees@ == before);
        assert(self.entries() == old(self).entries());
        let entry = CachedTree { path: string_of(&chars_of(path)), mtime, parsed, source };
        let ghost olde = self.entries();
        match self.position(path) {
            Some(i) => {
                self.trees.set(i, entry);
                proof {
                    assert(self.entries() =~= olde.update(i as int, (path@, mtime, self.trees@[i as int].source@)));
                    self.lemma_lookup_at(path@, i as int);
                    assert forall|p: Seq<char>| p != path@ implies #[trigger] self.lookup(p) == old(self).lookup(p) by {
                        if exists|k: int| entry_at(olde, p, k) {
                            let k = choose|k: int| entry_at(olde, p, k);
                            old(self).lemma_lookup_at(p, k);
                            self.lemma_lookup_at(p, k);
                        } else {
                            assert forall|k: int| !entry_at(self.entries(), p, k) by {
                                if entry_at(self.entries(), p, k) {
                                    assert(entry_at(olde, p, k));
                                }
                            }
                        }
                    }
                }
            },
            None => {
                self.trees.push(entry);
                proof {
                    let n = olde.len() as int;
                    assert(self.entries() =~= olde.push((path@, mtime, self.trees@[n].source@)));
                    assert forall|k: int| !entry_at(olde, path@, k) by {
                        if entry_at(olde, path@, k) {
                            assert(old(self).lookup(path@) is Some);
                        }
                    }
                    assert forall|i: int, j: int|
                        0 <= i < j < self.entries().len() implies #[trigger] self.entries()[i].0
                        != #[trigger] self.entries()[j].0 by {
                        if j == n {
                            assert(!entry_at(olde, path@, i));
                        } else {
                            assert(olde[i].0 != olde[j].0);
                        }
                    }
                    assert(self.wf());
                    self.lemma_lookup_at(path@, n);
                    assert forall|p: Seq<char>| p != path@ implies #[trigger] self.lookup(p) == old(self).lookup(p) by {
                        if exists|k: int| entry_at(olde, p, k) {
                            let k = choose|k: int| entry_at(olde, p, k);
                            old(self).lemma_lookup_at(p, k);
                            self.lemma_lookup_at(p, k);
                        } else {
                            assert forall|k: int| !entry_at(self.entries(), p, k) by {
                                if entry_at(self.entries(), p, k) {
                                    assert(entry_at(olde, p, k));
                                }
                            }
                        }
                    }
                }
            },
        }
        Ok(())
    }

    /// The cached tree and text of `path`.
    pub fn get(&self, path: &str) -> (r: Option<(&tree_sitter::Tree, &String)>)
        requires
            self.wf(),
        ensures
            r is Some <==> self.lookup(path@) is Some,
            r matches Some((_, s)) ==> s@ == self.lookup(path@).unwrap().1,
    {
        match self.position(path) {
            Some(i) => {
                proof {
                    self.lemma_lookup_at(path@, i as int);
                }
                assert(self.entries()[i as int].2 == self.trees@[i as int].source@);
                Some((self.trees[i].parsed.tree(), &self.trees[i].source))
            },
            None => None,
        }
    }

    /// The cached parse and text of `path`: the parse is of the text's
    /// UTF-8 bytes, with the grammar of the cache's language.
    pub fn parsed(&self, path: &str) -> (r: Option<(&SourceTree, &String)>)
        requires
            self.wf(),
        ensures
            r is Some <==> self.lookup(path@) is Some,
            r matches Some((st, s)) ==> s@ == self.lookup(path@).unwrap().1 && st.source_spec()
                == encode_utf8(s@) && st.name_spec() == self.language_spec().name_spec(),
    {
        match self.position(path) {
            Some(i) => {
                proof {
                    self.lemma_lookup_at(path@, i as int);
                }
                assert(self.entries()[i as int].2 == self.trees@[i as int].source@);
                Some((&self.trees[i].parsed, &self.trees[i].source))
            },
            None => None,
        }
    }

    /// Forget every cached parse, so that each file is read again; the
    /// parser is kept.
    pub fn clear_trees(&mut self)
        requires
            old(self).wf(),
        ensures
            final(self).wf(),
            final(self).entries().len() == 0,
            final(self).parser_spec() == old(self).parser_spec(),
    {
        self.trees.clear();
        assert(self.entries() =~= Seq::empty());
    }

    /// The parser the cache parses with.
    pub fn parser_mut(&mut self) -> (r: &mut Parser)
        ensures
            *r == old(self).parser_spec(),
            final(self).parser_spec() == *final(r),
            final(self).entries() == old(self).entries(),
    {
        &mut self.parser
    }

    /// The codemark [`Language`] this cache parses for.
    pub fn codemark_language(&self) -> (r: &Language)
        ensures
            *r == self.language_spec(),
    {
        self.parser.codemark_language()
    }

    /// The tree-sitter grammar, for compiling and running queries against
    /// the trees this cache produces.
    pub fn language(&self) -> (r: &tree_sitter::Language)
        ensures
            *r == self.parser_spec().grammar_spec(),
    {
        self.parser.language()
    }
}

/// A stored parse is reused: once `path` was parsed and stored at
/// modification time `mtime`, it needs no new parse while the time stays
/// the same, needs one as soon as the time differs, and the cache gives back
/// the text that was stored.
pub proof fn lemma_store_then_reuse(
    after: ParseCache,
    path: Seq<char>,
    mtime: Option<FileStamp>,
    source: Seq<char>,
)
    requires
        after.lookup(path) == Some((mtime, source)),
    ensures
        !after.needs_parse_spec(path, mtime),
        forall|m: Option<FileStamp>| m != mtime ==> #[trigger] after.needs_parse_spec(path, m),
        after.lookup(path).unwrap().1 == source,
{
}

/// A cleared cache parses every file again.
pub proof fn lemma_cleared_parses_again(c: ParseCache, path: Seq<char>, mtime: Option<FileStamp>)
    requires
        c.entries().len() == 0,
    ensures
        c.needs_parse_spec(path, mtime),
{
    assert(!exists|i: int| entry_at(c.entries(), path, i));
}

/// Every built-in language's name reads back as that language, and so do
/// the aliases; a name that is none of them (`lua`) is no built-in.
pub proof fn lemma_builtin_names_round_trip()
    ensures
        forall|i: int|
            0 <= i < builtins_spec().len() ==> static_name_spec(#[trigger] builtins_spec()[i].name_spec())
                == Some(builtins_spec()[i]),
        static_name_spec("rs"@) == Some(Language::Rust),
        static_name_spec("ts"@) == Some(Language::TypeScript),
        static_name_spec("tsx"@) == Some(Language::TypeScript),
        static_name_spec("py"@) == Some(Language::Python),
        static_name_spec("cs"@) == Some(Language::CSharp),
        static_name_spec("c#"@) == Some(Language::CSharp),
        static_name_spec("lua"@) is None,
{
    reveal_strlit("swift");
    reveal_strlit("rust");
    reveal_strlit("rs");
    reveal_strlit("typescript");
    reveal_strlit("ts");
    reveal_strlit("tsx");
    reveal_strlit("python");
    reveal_strlit("py");
    reveal_strlit("go");
    reveal_strlit("java");
    reveal_strlit("csharp");
    reveal_strlit("c#");
    reveal_strlit("cs");
    reveal_strlit("dart");
    reveal_strlit("lua");
    assert("swift"@.len() == 5 && "swift"@[0] == 's' && "swift"@[1] == 'w');
    assert("rust"@.len() == 4 && "rust"@[0] == 'r' && "rust"@[1] == 'u');
    assert("rs"@.len() == 2 && "rs"@[0] == 'r' && "rs"@[1] == 's');
    assert("typescript"@.len() == 10 && "typescript"@[0] == 't' && "typescript"@[1] == 'y');
    assert("ts"@.len() == 2 && "ts"@[0] == 't' && "ts"@[1] == 's');
    assert("tsx"@.len() == 3 && "tsx"@[0] == 't' && "tsx"@[1] == 's');
    assert("python"@.len() == 6 && "python"@[0] == 'p' && "python"@[1] == 'y');
    assert("py"@.len() == 2 && "py"@[0] == 'p' && "py"@[1] == 'y');
    assert("go"@.len() == 2 && "go"@[0] == 'g' && "go"@[1] == 'o');
    assert("java"@.len() == 4 && "java"@[0] == 'j' && "java"@[1] == 'a');
    assert("csharp"@.len() == 6 && "csharp"@[0] == 'c' && "csharp"@[1] == 's');
    assert("c#"@.len() == 2 && "c#"@[0] == 'c' && "c#"@[1] == '#');
    assert("cs"@.len() == 2 && "cs"@[0] == 'c' && "cs"@[1] == 's');
    assert("dart"@.len() == 4 && "dart"@[0] == 'd' && "dart"@[1] == 'a');
    assert("lua"@.len() == 3 && "lua"@[0] == 'l' && "lua"@[1] == 'u');
    assert forall|i: int| 0 <= i < builtins_spec().len() implies static_name_spec(
        #[trigger] builtins_spec()[i].name_spec(),
    ) == Some(builtins_spec()[i]) by {
    }
}

/// Built-in names match in any case: an ASCII text whose ASCII lower case
/// is a built-in language's name names that language.
pub proof fn lemma_builtin_name_any_case(s: Seq<char>, l: Language)
    requires
        l.is_builtin(),
        all_ascii(s),
        ascii_lowercase(s) == l.name_spec(),
    ensures
        static_name_spec(lowercase(s)) == Some(l),
{
    lemma_builtin_names_round_trip();
    let k: int = match l {
        Language::Rust => 0,
        Language::Swift => 1,
        Language::TypeScript => 2,
        Language::Python => 3,
        Language::Go => 4,
        Language::Java => 5,
        Language::CSharp => 6,
        Language::Dart => 7,
        Language::Dynamic(_) => 0,
    };
    assert(builtins_spec()[k] == l);
}

/// The file extensions of the built-in languages.
pub open spec fn builtin_extensions() -> Seq<Seq<char>> {
    seq!["swift"@, "rs"@, "ts"@, "tsx"@, "py"@, "go"@, "java"@, "cs"@, "dart"@]
}

/// Every extension a built-in language lists is owned by that language, and
/// the built-in extensions are exactly those the built-ins list.
pub proof fn lemma_builtin_extensions_owned()
    ensures
        forall|i: int, j: int|
            0 <= i < builtins_spec().len() && 0 <= j < builtins_spec()[i].extensions_spec().len()
                ==> static_ext_spec(#[trigger] builtins_spec()[i].extensions_spec()[j]) == Some(
                builtins_spec()[i],
            ),
        forall|x: Seq<char>| #[trigger] static_ext_spec(x) is Some <==> builtin_extensions().contains(x),
{
    reveal_strlit("swift");
    reveal_strlit("rs");
    reveal_strlit("ts");
    reveal_strlit("tsx");
    reveal_strlit("py");
    reveal_strlit("go");
    reveal_strlit("java");
    reveal_strlit("cs");
    reveal_strlit("dart");
    assert("swift"@.len() == 5 && "swift"@[0] == 's' && "swift"@[1] == 'w');
    assert("rs"@.len() == 2 && "rs"@[0] == 'r' && "rs"@[1] == 's');
    assert("ts"@.len() == 2 && "ts"@[0] == 't' && "ts"@[1] == 's');
    assert("tsx"@.len() == 3 && "tsx"@[0] == 't' && "tsx"@[1] == 's');
    assert("py"@.len() == 2 && "py"@[0] == 'p' && "py"@[1] == 'y');
    assert("go"@.len() == 2 && "go"@[0] == 'g' && "go"@[1] == 'o');
    assert("java"@.len() == 4 && "java"@[0] == 'j' && "java"@[1] == 'a');
    assert("cs"@.len() == 2 && "cs"@[0] == 'c' && "cs"@[1] == 's');
    assert("dart"@.len() == 4 && "dart"@[0] == 'd' && "dart"@[1] == 'a');
    let e = builtin_extensions();
    assert forall|x: Seq<char>| #[trigger] static_ext_spec(x) is Some <==> e.contains(x) by {
        if static_ext_spec(x) is Some {
            if x == "swift"@ {
                assert(e[0] == x);
            } else if x == "rs"@ {
                assert(e[1] == x);
            } else if x == "ts"@ {
                assert(e[2] == x);
            } else if x == "tsx"@ {
                assert(e[3] == x);
            } else if x == "py"@ {
                assert(e[4] == x);
            } else if x == "go"@ {
                assert(e[5] == x);
            } else if x == "java"@ {
                assert(e[6] == x);
            } else if x == "cs"@ {
                assert(e[7] == x);
            } else {
                assert(e[8] == x);
            }
        }
    }
}

} // verus!
