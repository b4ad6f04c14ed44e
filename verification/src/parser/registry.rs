//! Dynamic language registry: the grammars found in the cache directory,
//! indexed by lower-cased name and extension.
//!
//! Each `<lang>/` under the grammar cache holds a `grammar.wasm` and a JSON
//! manifest naming the language. The caller reads the directory, sorted by path, into
//! [`GrammarEntry`] values; [`LanguageRegistry::discover_from`] applies the
//! registration rules to them in that order.

use vstd::prelude::*;

use std::sync::Arc;

use crate::parser::languages::{DynamicLanguage, Language, static_ext_spec, static_name_spec};
use crate::parser::profile::Profile;
use crate::text::strings_view;
use crate::sort::{
    chars_lt, lemma_text_lt_asymmetric, lemma_text_lt_total, lemma_text_lt_transitive, text_lt,
};
use crate::text::{chars_of, eq_chars, lowercase, string_of, to_lowercase};

verus! {

broadcast use vstd::seq_lib::group_to_multiset_ensures;

/// The manifest of a grammar directory `<lang>/`.
#[derive(Debug)]
pub struct Manifest {
    pub name: String,
    pub extensions: Vec<String>,
    /// The manifest's profile; the empty profile where it gives none.
    pub profile: Profile,
}

/// One entry of the grammar cache directory, as the caller read it.
#[derive(Debug)]
pub struct GrammarEntry {
    /// The entry's file name.
    pub file_name: String,
    /// The parsed manifest, or `None` when it is missing, unreadable or not a
    /// valid manifest.
    pub manifest: Option<Manifest>,
    /// Path of the entry's `grammar.wasm`.
    pub wasm_path: String,
    /// Whether that `grammar.wasm` exists.
    pub wasm_exists: bool,
}

/// The `(key, language)` pairs of a table, keys as characters.
pub open spec fn keyed_view(t: Seq<(String, Language)>) -> Seq<(Seq<char>, Language)> {
    t.map_values(|p: (String, Language)| (p.0@, p.1))
}

/// Whether some entry of `t` has key `k`.
pub open spec fn has_key(t: Seq<(Seq<char>, Language)>, k: Seq<char>) -> bool {
    exists|i: int| 0 <= i < t.len() && #[trigger] t[i].0 == k
}

/// The language of the first entry of `t` with key `k`.
pub open spec fn key_lookup(t: Seq<(Seq<char>, Language)>, k: Seq<char>) -> Option<Language>
    decreases t.len(),
{
    if t.len() == 0 {
        None
    } else if t[0].0 == k {
        Some(t[0].1)
    } else {
        key_lookup(t.drop_first(), k)
    }
}

/// No key occurs twice in `t`.
pub open spec fn distinct_keys(t: Seq<(Seq<char>, Language)>) -> bool {
    forall|i: int, j: int| 0 <= i < j < t.len() ==> t[i].0 != t[j].0
}

/// `t` extended by the extensions `exts` of `lang`, each lower-cased, in
/// order: an extension a built-in owns (case-insensitively), or one already
/// claimed (by an earlier grammar or an earlier extension), is skipped.
pub open spec fn claim_extensions(
    t: Seq<(Seq<char>, Language)>,
    exts: Seq<Seq<char>>,
    lang: Language,
) -> Seq<(Seq<char>, Language)>
    decreases exts.len(),
{
    if exts.len() == 0 {
        t
    } else {
        let key = lowercase(exts[0]);
        let next = if static_ext_spec(lowercase(key)) is Some || has_key(t, key) {
            t
        } else {
            t.push((key, lang))
        };
        claim_extensions(next, exts.drop_first(), lang)
    }
}

/// The language a manifest and its wasm path describe.
pub open spec fn manifest_language(m: Manifest, wasm_path: String) -> Language {
    Language::Dynamic(
        Arc::new(
            DynamicLanguage {
                name: m.name,
                extensions: m.extensions,
                wasm_path,
                profile: m.profile,
            },
        ),
    )
}

/// Whether discovery skips an entry: a dot-prefixed (transient) entry, one
/// without a valid manifest, one named like a built-in language or alias, one
/// without its `grammar.wasm`, or one whose lower-cased name is already taken.
pub open spec fn entry_skipped(names: Seq<(Seq<char>, Language)>, e: GrammarEntry) -> bool {
    ||| (e.file_name@.len() > 0 && e.file_name@[0] == '.')
    ||| e.manifest is None
    ||| static_name_spec(lowercase(e.manifest.unwrap().name@)) is Some
    ||| !e.wasm_exists
    ||| has_key(names, lowercase(e.manifest.unwrap().name@))
}

/// The indexes after one entry is registered (see
/// [`LanguageRegistry::register`]).
pub open spec fn register_views(
    v: (Seq<(Seq<char>, Language)>, Seq<(Seq<char>, Language)>),
    e: GrammarEntry,
) -> (Seq<(Seq<char>, Language)>, Seq<(Seq<char>, Language)>) {
    if entry_skipped(v.0, e) {
        v
    } else {
        let lang = manifest_language(e.manifest.unwrap(), e.wasm_path);
        (
            v.0.push((lowercase(e.manifest.unwrap().name@), lang)),
            claim_extensions(v.1, strings_view(e.manifest.unwrap().extensions@), lang),
        )
    }
}

/// The indexes after the entries are registered in order.
pub open spec fn register_all(
    v: (Seq<(Seq<char>, Language)>, Seq<(Seq<char>, Language)>),
    entries: Seq<GrammarEntry>,
) -> (Seq<(Seq<char>, Language)>, Seq<(Seq<char>, Language)>)
    decreases entries.len(),
{
    if entries.len() == 0 {
        v
    } else {
        register_all(register_views(v, entries[0]), entries.drop_first())
    }
}

/// The indexes after a previously registered grammar is carried forward: kept
/// when the fresh indexes lack its name, it is dynamic, and its directory is
/// still present; its extensions are then claimed as in discovery.
pub open spec fn carry_step(
    v: (Seq<(Seq<char>, Language)>, Seq<(Seq<char>, Language)>),
    p: (Seq<char>, Language),
    present: bool,
) -> (Seq<(Seq<char>, Language)>, Seq<(Seq<char>, Language)>) {
    if has_key(v.0, p.0) || !(p.1 is Dynamic) || !present {
        v
    } else {
        (v.0.push(p), claim_extensions(v.1, p.1.extensions_spec(), p.1))
    }
}

/// The indexes after every previously registered grammar is considered in
/// order.
pub open spec fn carry_all(
    v: (Seq<(Seq<char>, Language)>, Seq<(Seq<char>, Language)>),
    prev: Seq<(Seq<char>, Language)>,
    present: Seq<bool>,
) -> (Seq<(Seq<char>, Language)>, Seq<(Seq<char>, Language)>)
    decreases prev.len(),
{
    if prev.len() == 0 || present.len() == 0 {
        v
    } else {
        carry_all(carry_step(v, prev[0], present[0]), prev.drop_first(), present.drop_first())
    }
}

/// A second handle to a dynamic language's shared metadata (`Arc::clone`).
/// The clone points to the same value.
#[verifier::external_body]
fn share(dl: &Arc<DynamicLanguage>) -> (r: Arc<DynamicLanguage>)
    ensures
        r == *dl,
{
    Arc::clone(dl)
}

impl Language {
    /// A copy of this language, sharing a dynamic grammar's metadata.
    pub fn duplicate(&self) -> (r: Language)
        ensures
            r == *self,
    {
        match self {
            Language::Swift => Language::Swift,
            Language::Rust => Language::Rust,
            Language::TypeScript => Language::TypeScript,
            Language::Python => Language::Python,
            Language::Go => Language::Go,
            Language::Java => Language::Java,
            Language::CSharp => Language::CSharp,
            Language::Dart => Language::Dart,
            Language::Dynamic(dl) => Language::Dynamic(share(dl)),
        }
    }
}

/// Registry of dynamically loaded languages, indexed by lower-cased
/// extension and by lower-cased name.
///
/// Each key occurs once per index, no key is one a built-in language claims,
/// and the first grammar to claim a key keeps it.
#[derive(Debug)]
pub struct LanguageRegistry {
    by_extension: Vec<(String, Language)>,
    by_name: Vec<(String, Language)>,
}

impl LanguageRegistry {
    /// The extension index, keys as characters.
    pub closed spec fn exts_view(&self) -> Seq<(Seq<char>, Language)> {
        keyed_view(self.by_extension@)
    }

    /// The name index, keys as characters.
    pub closed spec fn names_view(&self) -> Seq<(Seq<char>, Language)> {
        keyed_view(self.by_name@)
    }

    /// The language registered for a lower-cased extension.
    pub open spec fn ext_lookup(&self, k: Seq<char>) -> Option<Language> {
        key_lookup(self.exts_view(), k)
    }

    /// The language registered under a lower-cased name.
    pub open spec fn name_lookup(&self, k: Seq<char>) -> Option<Language> {
        key_lookup(self.names_view(), k)
    }

    /// The registered languages, in registration order.
    pub open spec fn languages_spec(&self) -> Seq<Language> {
        self.names_view().map_values(|p: (Seq<char>, Language)| p.1)
    }

    /// The registered (lower-cased) names, in registration order.
    pub open spec fn names_spec(&self) -> Seq<Seq<char>> {
        self.names_view().map_values(|p: (Seq<char>, Language)| p.0)
    }

    /// The registry's invariant: distinct keys in each index, and no key that
    /// a built-in language claims.
    pub open spec fn wf(&self) -> bool {
        &&& distinct_keys(self.exts_view())
        &&& distinct_keys(self.names_view())
        &&& forall|i: int|
            0 <= i < self.exts_view().len() ==> static_ext_spec(
                lowercase(#[trigger] self.exts_view()[i].0),
            ) is None
        &&& forall|i: int|
            0 <= i < self.names_view().len() ==> static_name_spec(
                #[trigger] self.names_view()[i].0,
            ) is None
    }

    /// An empty registry.
    pub fn new() -> (r: LanguageRegistry)
        ensures
            r.wf(),
            r.exts_view().len() == 0,
            r.names_view().len() == 0,
    {
        LanguageRegistry { by_extension: Vec::new(), by_name: Vec::new() }
    }

    /// Look up a dynamic language by file extension (case-insensitive).
    pub fn from_extension(&self, ext: &str) -> (r: Option<Language>)
        ensures
            r == self.ext_lookup(lowercase(ext@)),
    {
        let k = to_lowercase(&chars_of(ext));
        match find_key(&self.by_extension, &k) {
            Some(i) => {
                proof {
                    lemma_first_key(self.exts_view(), k@, i as int);
                }
                Some(self.by_extension[i].1.duplicate())
            },
            None => {
                proof {
                    lemma_no_key(self.exts_view(), k@);
                }
                None
            },
        }
    }

    /// Look up a dynamic language by name (case-insensitive).
    pub fn from_name(&self, name: &str) -> (r: Option<Language>)
        ensures
            r == self.name_lookup(lowercase(name@)),
    {
        let k = to_lowercase(&chars_of(name));
        match find_key(&self.by_name, &k) {
            Some(i) => {
                proof {
                    lemma_first_key(self.names_view(), k@, i as int);
                }
                Some(self.by_name[i].1.duplicate())
            },
            None => {
                proof {
                    lemma_no_key(self.names_view(), k@);
                }
                None
            },
        }
    }

    /// Register one directory entry, in the order discovery visits them.
    ///
    /// A skipped entry (see [`entry_skipped`]) leaves the registry as it was.
    /// Otherwise the grammar is registered under its lower-cased name and
    /// claims its extensions (see [`claim_extensions`]). A key registered
    /// before keeps its language: the first grammar to claim a key wins.
    pub fn register(&mut self, entry: GrammarEntry)
        requires
            old(self).wf(),
        ensures
            final(self).wf(),
            (final(self).names_view(), final(self).exts_view()) == register_views(
                (old(self).names_view(), old(self).exts_view()),
                entry,
            ),
            entry_skipped(old(self).names_view(), entry) ==> final(self).names_view() == old(
                self,
            ).names_view() && final(self).exts_view() == old(self).exts_view(),
            !entry_skipped(old(self).names_view(), entry) ==> final(self).names_view() == old(
                self,
            ).names_view().push(
                (
                    lowercase(entry.manifest.unwrap().name@),
                    manifest_language(entry.manifest.unwrap(), entry.wasm_path),
                ),
            ) && final(self).exts_view() == claim_extensions(
                old(self).exts_view(),
                strings_view(entry.manifest.unwrap().extensions@),
                manifest_language(entry.manifest.unwrap(), entry.wasm_path),
            ),
            forall|k: Seq<char>|
                has_key(old(self).names_view(), k) ==> #[trigger] final(self).name_lookup(k) == old(
                    self,
                ).name_lookup(k),
            forall|k: Seq<char>|
                has_key(old(self).exts_view(), k) ==> #[trigger] final(self).ext_lookup(k) == old(
                    self,
                ).ext_lookup(k),
    {
        let ghost e = entry;
        let file_name = chars_of(entry.file_name.as_str());
        if file_name.len() > 0 && file_name[0] == '.' {
            return;
        }
        let m = match entry.manifest {
            Some(m) => m,
            None => {
                return;
            },
        };
        if is_static_language_name(m.name.as_str()) {
            return;
        }
        if !entry.wasm_exists {
            return;
        }
        let name_key = to_lowercase(&chars_of(m.name.as_str()));
        match find_key(&self.by_name, &name_key) {
            Some(i) => {
                proof {
                    assert(has_key(self.names_view(), name_key@)) by {
                        assert(self.names_view()[i as int].0 == name_key@);
                    }
                }
                return;
            },
            None => {},
        }
        let ghost lang_spec = manifest_language(m, entry.wasm_path);
        let dl = DynamicLanguage {
            name: m.name,
            extensions: m.extensions,
            wasm_path: entry.wasm_path,
            profile: m.profile,
        };
        let lang = Language::Dynamic(Arc::new(dl));
        assert(lang == lang_spec);
        let ghost old_names = self.names_view();
        self.by_name.push((string_of(&name_key), lang.duplicate()));
        proof {
            assert(self.names_view() =~= old_names.push((name_key@, lang)));
            assert forall|k: Seq<char>| has_key(old_names, k) implies #[trigger] key_lookup(
                self.names_view(),
                k,
            ) == key_lookup(old_names, k) by {
                lemma_push_new_key(old_names, name_key@, lang, k);
            }
        }
        let exts: &Vec<String> = match &lang {
            Language::Dynamic(d) => &d.extensions,
            _ => {
                proof {
                    assert(false);
                }
                return;
            },
        };
        claim_all(&mut self.by_extension, exts, &lang);
    }

    /// Build the registry from the grammar cache's entries, whatever order
    /// they are listed in: they are visited in file-name order (their path
    /// order), so that the first grammar to claim a name or an extension
    /// keeps it.
    pub fn discover_from(entries: Vec<GrammarEntry>) -> (r: LanguageRegistry)
        ensures
            r.wf(),
            exists|s: Seq<GrammarEntry>|
                #![trigger register_all((seq![], seq![]), s)]
                s.to_multiset() == entries@.to_multiset() && names_sorted(s) && (r.names_view(), r.exts_view())
                    == register_all((seq![], seq![]), s),
            distinct_names(entries@) ==> (r.names_view(), r.exts_view()) == register_all(
                (seq![], seq![]),
                path_order(entries@),
            ),
    {
        let ghost given = entries@;
        let entries = sort_entries(entries);
        proof {
            if distinct_names(given) {
                assert(entries@.to_multiset() == given.to_multiset() && names_strictly_sorted(entries@));
                lemma_strict_order_unique(entries@, path_order(given));
            }
        }
        let mut reg = LanguageRegistry::new();
        let mut rest = entries;
        let ghost all = entries@;
        let ghost mut k: int = 0;
        assert(reg.names_view() =~= seq![]);
        assert(reg.exts_view() =~= seq![]);
        assert(all.skip(0) == all);
        while rest.len() > 0
            invariant
                reg.wf(),
                0 <= k <= all.len(),
                rest@ == all.skip(k),
                register_all((reg.names_view(), reg.exts_view()), rest@) == register_all(
                    (seq![], seq![]),
                    all,
                ),
            decreases rest.len(),
        {
            let e = rest.remove(0);
            proof {
                assert(rest@ == all.skip(k + 1));
                k = k + 1;
            }
            reg.register(e);
        }
        reg
    }

    /// Re-add grammars of `previous` that this (freshly scanned) registry is
    /// missing but whose grammar directory is still present
    /// (`dir_present[i]` for the `i`-th name `previous` registered): the fresh
    /// scan lost them to a transient state, not to a removal. A carried
    /// grammar claims its extensions by the discovery rules, so it never
    /// shadows a built-in or a grammar of the fresh scan.
    pub fn carry_forward_transiently_missing(&mut self, previous: &Self, dir_present: &[bool])
        requires
            old(self).wf(),
            previous.wf(),
            dir_present.len() == previous.names_view().len(),
        ensures
            final(self).wf(),
            (final(self).names_view(), final(self).exts_view()) == carry_all(
                (old(self).names_view(), old(self).exts_view()),
                previous.names_view(),
                dir_present@,
            ),
            forall|k: Seq<char>|
                has_key(old(self).names_view(), k) ==> #[trigger] final(self).name_lookup(k) == old(
                    self,
                ).name_lookup(k),
            forall|k: Seq<char>|
                has_key(old(self).exts_view(), k) ==> #[trigger] final(self).ext_lookup(k) == old(
                    self,
                ).ext_lookup(k),
    {
        let ghost prev = previous.names_view();
        let ghost orig = (self.names_view(), self.exts_view());
        let ghost orig_names = self.names_view();
        let ghost orig_exts = self.exts_view();
        let mut i: usize = 0;
        assert(prev.skip(0) == prev);
        assert(dir_present@.skip(0) == dir_present@);
        while i < previous.by_name.len()
            invariant
                i <= previous.by_name.len(),
                prev == previous.names_view(),
                previous.wf(),
                dir_present.len() == prev.len(),
                self.wf(),
                carry_all((self.names_view(), self.exts_view()), prev.skip(i as int), dir_present@.skip(i as int))
                    == carry_all(orig, prev, dir_present@),
                forall|k: Seq<char>| has_key(orig_names, k) ==> #[trigger] has_key(self.names_view(), k),
                forall|k: Seq<char>| has_key(orig_exts, k) ==> #[trigger] has_key(self.exts_view(), k),
                forall|k: Seq<char>|
                    has_key(orig_names, k) ==> #[trigger] key_lookup(self.names_view(), k) == key_lookup(orig_names, k),
                forall|k: Seq<char>|
                    has_key(orig_exts, k) ==> #[trigger] key_lookup(self.exts_view(), k) == key_lookup(orig_exts, k),
            decreases previous.by_name.len() - i,
        {
            assert(prev.skip(i as int)[0] == prev[i as int]);
            assert(prev.skip(i as int).drop_first() == prev.skip(i + 1));
            assert(dir_present@.skip(i as int)[0] == dir_present@[i as int]);
            assert(dir_present@.skip(i as int).drop_first() == dir_present@.skip(i + 1));
            assert(static_name_spec(prev[i as int].0) is None);
            self.carry_one(&previous.by_name[i], dir_present[i]);
            i = i + 1;
        }
        assert(prev.skip(i as int) =~= Seq::<(Seq<char>, Language)>::empty());
    }

    /// One step of [`Self::carry_forward_transiently_missing`].
    fn carry_one(&mut self, p: &(String, Language), present: bool)
        requires
            old(self).wf(),
            static_name_spec(p.0@) is None,
        ensures
            final(self).wf(),
            (final(self).names_view(), final(self).exts_view()) == carry_step(
                (old(self).names_view(), old(self).exts_view()),
                (p.0@, p.1),
                present,
            ),
            forall|k: Seq<char>|
                has_key(old(self).names_view(), k) ==> #[trigger] has_key(final(self).names_view(), k),
            forall|k: Seq<char>|
                has_key(old(self).exts_view(), k) ==> #[trigger] has_key(final(self).exts_view(), k),
            forall|k: Seq<char>|
                has_key(old(self).names_view(), k) ==> #[trigger] key_lookup(final(self).names_view(), k)
                    == key_lookup(old(self).names_view(), k),
            forall|k: Seq<char>|
                has_key(old(self).exts_view(), k) ==> #[trigger] key_lookup(final(self).exts_view(), k)
                    == key_lookup(old(self).exts_view(), k),
    {
        let key = chars_of(p.0.as_str());
        match find_key(&self.by_name, &key) {
            Some(j) => {
                proof {
                    assert(self.names_view()[j as int].0 == key@);
                }
                return;
            },
            None => {},
        }
        let exts: &Vec<String> = match &p.1 {
            Language::Dynamic(d) => &d.extensions,
            _ => {
                return;
            },
        };
        if !present {
            return;
        }
        let ghost old_names = self.names_view();
        self.by_name.push((p.0.clone(), p.1.duplicate()));
        proof {
            assert(self.names_view() =~= old_names.push((p.0@, p.1)));
            assert forall|k: Seq<char>| has_key(old_names, k) implies #[trigger] key_lookup(
                self.names_view(),
                k,
            ) == key_lookup(old_names, k) && has_key(self.names_view(), k) by {
                lemma_push_new_key(old_names, key@, p.1, k);
                let w = choose|w: int| 0 <= w < old_names.len() && #[trigger] old_names[w].0 == k;
                assert(self.names_view()[w].0 == k);
            }
        }
        let ghost names_now = self.names_view();
        claim_all(&mut self.by_extension, exts, &p.1);
        proof {
            assert(self.names_view() == names_now);
            assert forall|k: Seq<char>| has_key(old_names, k) implies #[trigger] has_key(
                self.names_view(),
                k,
            ) by {
                let w = choose|w: int| 0 <= w < old_names.len() && #[trigger] old_names[w].0 == k;
                assert(self.names_view()[w].0 == k);
            }
            assert forall|k: Seq<char>| has_key(old(self).exts_view(), k) implies #[trigger] has_key(
                self.exts_view(),
                k,
            ) by {
                let w = choose|w: int| 0 <= w < old(self).exts_view().len() && #[trigger] old(self).exts_view()[w].0 == k;
                lemma_first_key_exists(old(self).exts_view(), k);
                lemma_lookup_has_key(self.exts_view(), k);
            }
        }
    }

    /// List all registered dynamic language names (lower-cased).
    pub fn dynamic_language_names(&self) -> (r: Vec<String>)
        ensures
            strings_view(r@) == self.names_spec(),
    {
        let mut out: Vec<String> = Vec::new();
        let mut i: usize = 0;
        while i < self.by_name.len()
            invariant
                i <= self.by_name.len(),
                strings_view(out@) == self.names_spec().take(i as int),
            decreases self.by_name.len() - i,
        {
            out.push(self.by_name[i].0.clone());
            i = i + 1;
            assert(self.names_spec().take(i as int) == self.names_spec().take(i - 1).push(
                self.names_spec()[i - 1],
            ));
            assert(strings_view(out@) == strings_view(out@.drop_last()).push(out@.last()@));
        }
        assert(self.names_spec().take(i as int) == self.names_spec());
        out
    }

    /// List all registered dynamic languages.
    pub fn dynamic_languages(&self) -> (r: Vec<Language>)
        ensures
            r@ == self.languages_spec(),
    {
        let mut out: Vec<Language> = Vec::new();
        let mut i: usize = 0;
        while i < self.by_name.len()
            invariant
                i <= self.by_name.len(),
                out@ == self.languages_spec().take(i as int),
            decreases self.by_name.len() - i,
        {
            out.push(self.by_name[i].1.duplicate());
            i = i + 1;
            assert(self.languages_spec().take(i as int) == self.languages_spec().take(i - 1).push(
                self.languages_spec()[i - 1],
            ));
        }
        assert(self.languages_spec().take(i as int) == self.languages_spec());
        out
    }
}

/// Whether `name` is a built-in language name or alias (case-insensitive).
pub fn is_static_language_name(name: &str) -> (b: bool)
    ensures
        b == (static_name_spec(lowercase(name@)) is Some),
{
    Language::static_from_name(name).is_some()
}

/// Whether a built-in language owns the extension `ext` (case-insensitive),
/// so a dynamic grammar registering it would be shadowed and never resolve.
pub fn is_static_extension(ext: &str) -> (b: bool)
    ensures
        b == (static_ext_spec(lowercase(ext@)) is Some),
{
    Language::static_from_extension(ext).is_some()
}

/// Claim the extensions `exts` for `lang` in the extension index `t`.
fn claim_all(t: &mut Vec<(String, Language)>, exts: &Vec<String>, lang: &Language)
    requires
        distinct_keys(keyed_view(old(t)@)),
        forall|i: int|
            0 <= i < keyed_view(old(t)@).len() ==> static_ext_spec(
                lowercase(#[trigger] keyed_view(old(t)@)[i].0),
            ) is None,
    ensures
        keyed_view(final(t)@) == claim_extensions(keyed_view(old(t)@), strings_view(exts@), *lang),
        distinct_keys(keyed_view(final(t)@)),
        forall|i: int|
            0 <= i < keyed_view(final(t)@).len() ==> static_ext_spec(
                lowercase(#[trigger] keyed_view(final(t)@)[i].0),
            ) is None,
        forall|k: Seq<char>|
            has_key(keyed_view(old(t)@), k) ==> #[trigger] key_lookup(keyed_view(final(t)@), k)
                == key_lookup(keyed_view(old(t)@), k),
{
    let ghost orig = keyed_view(t@);
    let ghost all = strings_view(exts@);
    let mut i: usize = 0;
    assert(all.skip(0) == all);
    while i < exts.len()
        invariant
            i <= exts.len(),
            all == strings_view(exts@),
            claim_extensions(keyed_view(t@), all.skip(i as int), *lang) == claim_extensions(
                orig,
                all,
                *lang,
            ),
            distinct_keys(keyed_view(t@)),
            forall|j: int|
                0 <= j < keyed_view(t@).len() ==> static_ext_spec(
                    lowercase(#[trigger] keyed_view(t@)[j].0),
                ) is None,
            forall|k: Seq<char>| has_key(orig, k) ==> #[trigger] has_key(keyed_view(t@), k),
            forall|k: Seq<char>|
                has_key(orig, k) ==> #[trigger] key_lookup(keyed_view(t@), k) == key_lookup(
                    orig,
                    k,
                ),
        decreases exts.len() - i,
    {
        let ghost cur = keyed_view(t@);
        let key = to_lowercase(&chars_of(exts[i].as_str()));
        assert(all.skip(i as int)[0] == exts@[i as int]@);
        assert(all.skip(i as int).drop_first() == all.skip(i + 1));
        let key_str = string_of(&key);
        if !is_static_extension(key_str.as_str()) {
            match find_key(t, &key) {
                Some(j) => {
                    assert(cur[j as int].0 == key@);
                    assert(has_key(cur, key@));
                },
                None => {
                    t.push((key_str, lang.duplicate()));
                    proof {
                        assert(keyed_view(t@) =~= cur.push((key@, *lang)));
                        assert forall|k: Seq<char>| has_key(orig, k) implies #[trigger] key_lookup(
                            keyed_view(t@),
                            k,
                        ) == key_lookup(orig, k) by {
                            lemma_push_new_key(cur, key@, *lang, k);
                            assert(has_key(cur, k));
                            let w = choose|w: int| 0 <= w < cur.len() && #[trigger] cur[w].0 == k;
                            assert(keyed_view(t@)[w].0 == k);
                        }
                        assert forall|k: Seq<char>| has_key(orig, k) implies #[trigger] has_key(
                            keyed_view(t@),
                            k,
                        ) by {
                            assert(has_key(cur, k));
                            let w = choose|w: int| 0 <= w < cur.len() && #[trigger] cur[w].0 == k;
                            assert(keyed_view(t@)[w].0 == k);
                        }
                    }
                },
            }
        }
        i = i + 1;
    }
    assert(all.skip(i as int) =~= Seq::<Seq<char>>::empty());
}

/// The index of the first entry of `t` whose key is `k`.
fn find_key(t: &Vec<(String, Language)>, k: &[char]) -> (r: Option<usize>)
    ensures
        r matches Some(i) ==> i < t@.len() && keyed_view(t@)[i as int].0 == k@ && forall|j: int|
            0 <= j < i ==> keyed_view(t@)[j].0 != k@,
        r is None ==> !has_key(keyed_view(t@), k@),
{
    let ghost v = keyed_view(t@);
    let mut i: usize = 0;
    while i < t.len()
        invariant
            i <= t.len(),
            v == keyed_view(t@),
            forall|j: int| 0 <= j < i ==> v[j].0 != k@,
        decreases t.len() - i,
    {
        let key = chars_of(t[i].0.as_str());
        if eq_chars(&key, k) {
            return Some(i);
        }
        i = i + 1;
    }
    None
}

/// The first entry with key `k` decides [`key_lookup`].
pub proof fn lemma_first_key(t: Seq<(Seq<char>, Language)>, k: Seq<char>, i: int)
    requires
        0 <= i < t.len(),
        t[i].0 == k,
        forall|j: int| 0 <= j < i ==> t[j].0 != k,
    ensures
        key_lookup(t, k) == Some(t[i].1),
    decreases i,
{
    if i > 0 {
        lemma_first_key(t.drop_first(), k, i - 1);
    }
}

/// Without an entry for `k`, [`key_lookup`] finds nothing.
pub proof fn lemma_no_key(t: Seq<(Seq<char>, Language)>, k: Seq<char>)
    requires
        !has_key(t, k),
    ensures
        key_lookup(t, k) is None,
    decreases t.len(),
{
    if t.len() > 0 {
        assert(t[0].0 != k);
        assert forall|i: int| 0 <= i < t.drop_first().len() implies #[trigger] t.drop_first()[i].0
            != k by {
            assert(t.drop_first()[i] == t[i + 1]);
        }
        lemma_no_key(t.drop_first(), k);
    }
}

/// A key that occurs makes [`key_lookup`] find something.
pub proof fn lemma_first_key_exists(t: Seq<(Seq<char>, Language)>, k: Seq<char>)
    requires
        has_key(t, k),
    ensures
        key_lookup(t, k) is Some,
    decreases t.len(),
{
    if t[0].0 != k {
        let w = choose|w: int| 0 <= w < t.len() && #[trigger] t[w].0 == k;
        assert(t.drop_first()[w - 1].0 == k);
        lemma_first_key_exists(t.drop_first(), k);
    }
}

/// A key that [`key_lookup`] finds occurs.
pub proof fn lemma_lookup_has_key(t: Seq<(Seq<char>, Language)>, k: Seq<char>)
    ensures
        key_lookup(t, k) is Some ==> has_key(t, k),
    decreases t.len(),
{
    if t.len() > 0 && t[0].0 != k {
        lemma_lookup_has_key(t.drop_first(), k);
        if key_lookup(t, k) is Some {
            let w = choose|w: int| 0 <= w < t.drop_first().len() && #[trigger] t.drop_first()[w].0 == k;
            assert(t[w + 1].0 == k);
        }
    }
}

/// Appending an entry under a new key leaves every other lookup as it was and
/// makes the new key find the new entry.
pub proof fn lemma_push_new_key(
    t: Seq<(Seq<char>, Language)>,
    key: Seq<char>,
    lang: Language,
    k: Seq<char>,
)
    requires
        !has_key(t, key),
    ensures
        k != key ==> key_lookup(t.push((key, lang)), k) == key_lookup(t, k),
        key_lookup(t.push((key, lang)), key) == Some(lang),
    decreases t.len(),
{
    if t.len() == 0 {
        assert(t.push((key, lang)).drop_first() =~= Seq::<(Seq<char>, Language)>::empty());
    } else {
        assert(t.push((key, lang)).drop_first() =~= t.drop_first().push((key, lang)));
        assert(t[0].0 != key);
        assert(!has_key(t.drop_first(), key)) by {
            if has_key(t.drop_first(), key) {
                let i = choose|i: int| 0 <= i < t.drop_first().len() && #[trigger] t.drop_first()[i].0 == key;
                assert(t[i + 1].0 == key);
            }
        }
        lemma_push_new_key(t.drop_first(), key, lang, k);
    }
}

/// Whether the name-index entry `p` is the grammar of entry `e`: a visible
/// directory with a valid manifest and its `grammar.wasm`, named like no
/// built-in, indexed under its lower-cased name.
pub open spec fn came_from(e: GrammarEntry, p: (Seq<char>, Language)) -> bool {
    &&& !(e.file_name@.len() > 0 && e.file_name@[0] == '.')
    &&& e.manifest is Some
    &&& e.wasm_exists
    &&& static_name_spec(lowercase(e.manifest.unwrap().name@)) is None
    &&& p.0 == lowercase(e.manifest.unwrap().name@)
    &&& p.1 == manifest_language(e.manifest.unwrap(), e.wasm_path)
}

/// Whether `p` is the grammar of one of `entries`.
pub open spec fn name_from(entries: Seq<GrammarEntry>, p: (Seq<char>, Language)) -> bool {
    exists|j: int| 0 <= j < entries.len() && #[trigger] came_from(entries[j], p)
}

/// The invariants of discovered indexes: every name entry is the grammar of
/// one of `entries`, under its lower-cased name; every extension entry is
/// owned by no built-in and maps to a grammar of the name index.
pub open spec fn discovery_ok(
    v: (Seq<(Seq<char>, Language)>, Seq<(Seq<char>, Language)>),
    entries: Seq<GrammarEntry>,
) -> bool {
    &&& forall|i: int| 0 <= i < v.0.len() ==> #[trigger] name_from(entries, v.0[i])
    &&& forall|i: int|
        0 <= i < v.1.len() ==> static_ext_spec(lowercase(#[trigger] v.1[i].0)) is None && exists|j: int|
            0 <= j < v.0.len() && v.0[j].1 == v.1[i].1
}

/// Claiming extensions keeps the earlier entries and adds, for `lang`, only
/// extensions no built-in owns.
proof fn lemma_claim_shape(t: Seq<(Seq<char>, Language)>, exts: Seq<Seq<char>>, lang: Language)
    ensures
        claim_extensions(t, exts, lang).len() >= t.len(),
        forall|i: int| 0 <= i < t.len() ==> #[trigger] claim_extensions(t, exts, lang)[i] == t[i],
        forall|i: int|
            t.len() <= i < claim_extensions(t, exts, lang).len() ==> (#[trigger] claim_extensions(
                t,
                exts,
                lang,
            )[i]).1 == lang && static_ext_spec(lowercase(claim_extensions(t, exts, lang)[i].0)) is None,
    decreases exts.len(),
{
    if exts.len() > 0 {
        let key = lowercase(exts[0]);
        let next = if static_ext_spec(lowercase(key)) is Some || has_key(t, key) {
            t
        } else {
            t.push((key, lang))
        };
        lemma_claim_shape(next, exts.drop_first(), lang);
        let r = claim_extensions(t, exts, lang);
        assert(r == claim_extensions(next, exts.drop_first(), lang));
        assert forall|i: int| t.len() <= i < r.len() implies (#[trigger] r[i]).1 == lang && static_ext_spec(
            lowercase(r[i].0),
        ) is None by {
            if i < next.len() {
                assert(r[i] == next[i]);
            }
        }
    }
}

/// Registering the entries of `all` from position `k` on keeps the
/// discovery invariants.
proof fn lemma_register_all_ok(
    v: (Seq<(Seq<char>, Language)>, Seq<(Seq<char>, Language)>),
    all: Seq<GrammarEntry>,
    k: int,
)
    requires
        0 <= k <= all.len(),
        discovery_ok(v, all),
    ensures
        discovery_ok(register_all(v, all.skip(k)), all),
    decreases all.len() - k,
{
    if k < all.len() {
        let es = all.skip(k);
        let e = es[0];
        assert(e == all[k]);
        assert(es.drop_first() == all.skip(k + 1));
        let nv = register_views(v, e);
        if entry_skipped(v.0, e) {
            assert(nv == v);
            assert(discovery_ok(nv, all));
        } else {
            let lang = manifest_language(e.manifest.unwrap(), e.wasm_path);
            let p = (lowercase(e.manifest.unwrap().name@), lang);
            let exts = strings_view(e.manifest.unwrap().extensions@);
            lemma_claim_shape(v.1, exts, lang);
            assert(came_from(all[k], p));
            assert forall|i: int| 0 <= i < nv.0.len() implies #[trigger] name_from(all, nv.0[i]) by {
                if i < v.0.len() {
                    assert(nv.0[i] == v.0[i]);
                    assert(name_from(all, v.0[i]));
                } else {
                    assert(nv.0[i] == p);
                    assert(came_from(all[k], nv.0[i]));
                }
            }
            assert forall|i: int| 0 <= i < nv.1.len() implies static_ext_spec(lowercase(#[trigger] nv.1[i].0))
                is None && exists|j: int| 0 <= j < nv.0.len() && nv.0[j].1 == nv.1[i].1 by {
                if i < v.1.len() {
                    assert(nv.1[i] == v.1[i]);
                    let j = choose|j: int| 0 <= j < v.0.len() && v.0[j].1 == v.1[i].1;
                    assert(nv.0[j] == v.0[j]);
                } else {
                    assert(nv.0[v.0.len() as int] == p);
                }
            }
            assert(discovery_ok(nv, all));
        }
        lemma_register_all_ok(nv, all, k + 1);
    }
}

/// What discovery registers: every name is the lower-cased name of a
/// grammar directory among `entries` that is not dot-prefixed, has a valid
/// manifest and its `grammar.wasm`, and is named like no built-in; every
/// extension is owned by no built-in and maps to one of those grammars
/// ([`LanguageRegistry::discover_from`] adds that no name or extension is
/// registered twice).
pub proof fn lemma_discovery_invariants(entries: Seq<GrammarEntry>)
    ensures
        discovery_ok(register_all((seq![], seq![]), entries), entries),
        forall|i: int|
            0 <= i < register_all((seq![], seq![]), entries).0.len() ==> {
                let p = #[trigger] register_all((seq![], seq![]), entries).0[i];
                p.0 == lowercase(p.1.name_spec())
            },
{
    let v0: (Seq<(Seq<char>, Language)>, Seq<(Seq<char>, Language)>) = (seq![], seq![]);
    assert(entries.skip(0) == entries);
    lemma_register_all_ok(v0, entries, 0);
    let n = register_all(v0, entries).0;
    assert forall|i: int| 0 <= i < n.len() implies {
        let p = #[trigger] n[i];
        p.0 == lowercase(p.1.name_spec())
    } by {
        assert(name_from(entries, n[i]));
        let j = choose|j: int| 0 <= j < entries.len() && #[trigger] came_from(entries[j], n[i]);
    }
}

// ---------------------------------------------------------------------------
// Visiting the grammar cache in path order
// ---------------------------------------------------------------------------

/// The entries are in file-name order (lexicographic by character, the
/// order of their paths in one directory).
pub open spec fn names_sorted(s: Seq<GrammarEntry>) -> bool {
    forall|i: int, j: int| 0 <= i < j < s.len() ==> !text_lt(#[trigger] s[j].file_name@, #[trigger] s[i].file_name@)
}

/// The entries are in strictly increasing file-name order.
pub open spec fn names_strictly_sorted(s: Seq<GrammarEntry>) -> bool {
    forall|i: int, j: int| 0 <= i < j < s.len() ==> text_lt(#[trigger] s[i].file_name@, #[trigger] s[j].file_name@)
}

/// No two entries have the same file name, as in one directory.
pub open spec fn distinct_names(s: Seq<GrammarEntry>) -> bool {
    forall|i: int, j: int| 0 <= i < j < s.len() ==> #[trigger] s[i].file_name@ != #[trigger] s[j].file_name@
}

/// The entries of `m` strictly in file-name order (meaningful when no two
/// share a file name).
pub open spec fn ordered(m: vstd::multiset::Multiset<GrammarEntry>) -> Seq<GrammarEntry> {
    choose|s: Seq<GrammarEntry>| s.to_multiset() == m && names_strictly_sorted(s)
}

/// The entries `entries` holds, in file-name order: the arrangement
/// discovery visits when no two share a file name.
pub open spec fn path_order(entries: Seq<GrammarEntry>) -> Seq<GrammarEntry> {
    ordered(entries.to_multiset())
}

/// Discovery does not depend on the order the directory lists its entries
/// in: two listings of the same entries, no two with one file name, are
/// visited in the same order and so register the same grammars and
/// extensions.
pub proof fn lemma_discovery_order_free(a: Seq<GrammarEntry>, b: Seq<GrammarEntry>)
    requires
        a.to_multiset() == b.to_multiset(),
    ensures
        path_order(a) == path_order(b),
        register_all((seq![], seq![]), path_order(a)) == register_all((seq![], seq![]), path_order(b)),
{
}

/// The position in `out` before which `e` goes: the first entry whose file
/// name comes after `e`'s.
fn insert_position(out: &Vec<GrammarEntry>, e: &GrammarEntry) -> (p: usize)
    ensures
        p <= out@.len(),
        forall|q: int| 0 <= q < p ==> !text_lt(e.file_name@, #[trigger] out@[q].file_name@),
        p < out@.len() ==> text_lt(e.file_name@, out@[p as int].file_name@),
{
    let name = chars_of(e.file_name.as_str());
    let mut p: usize = 0;
    while p < out.len() && !chars_lt(&name, &chars_of(out[p].file_name.as_str()))
        invariant
            p <= out@.len(),
            name@ == e.file_name@,
            forall|q: int| 0 <= q < p ==> !text_lt(e.file_name@, #[trigger] out@[q].file_name@),
        decreases out@.len() - p,
    {
        p = p + 1;
    }
    p
}

/// The entries in file-name order: the same entries, each once, sorted by
/// file name; strictly, when no two share a file name.
pub fn sort_entries(entries: Vec<GrammarEntry>) -> (r: Vec<GrammarEntry>)
    ensures
        r@.to_multiset() == entries@.to_multiset(),
        names_sorted(r@),
        distinct_names(entries@) ==> names_strictly_sorted(r@),
{
    let ghost all = entries@;
    let mut rest = entries;
    let mut out: Vec<GrammarEntry> = Vec::new();
    let ghost mut k: int = 0;
    assert(all.skip(0) == all);
    assert(all.take(0).to_multiset() =~= out@.to_multiset());
    while rest.len() > 0
        invariant
            0 <= k <= all.len(),
            rest@ == all.skip(k),
            out@.to_multiset() == all.take(k).to_multiset(),
            names_sorted(out@),
            distinct_names(all) ==> names_strictly_sorted(out@),
        decreases rest.len(),
    {
        let e = rest.remove(0);
        proof {
            assert(e == all[k]);
            assert(rest@ == all.skip(k + 1));
        }
        let p = insert_position(&out, &e);
        let ghost before = out@;
        out.insert(p, e);
        proof {
            assert(all.take(k + 1) =~= all.take(k).push(all[k]));
            assert(out@ == before.insert(p as int, e));
            assert(out@.to_multiset() == before.to_multiset().insert(e));
            assert(all.take(k + 1).to_multiset() == all.take(k).to_multiset().insert(all[k]));
            let n = e.file_name@;
            assert forall|i: int, j: int| 0 <= i < j < out@.len() implies !text_lt(
                #[trigger] out@[j].file_name@,
                #[trigger] out@[i].file_name@,
            ) by {
                if j < p {
                    assert(out@[i] == before[i] && out@[j] == before[j]);
                } else if j == p {
                    assert(out@[i] == before[i]);
                    assert(!text_lt(n, before[i].file_name@));
                } else if i == p {
                    assert(out@[j] == before[j - 1]);
                    if text_lt(before[j - 1].file_name@, n) {
                        assert(text_lt(n, before[p as int].file_name@));
                        if j - 1 > p {
                            lemma_text_lt_transitive(before[j - 1].file_name@, n, before[p as int].file_name@);
                            assert(!text_lt(before[j - 1].file_name@, before[p as int].file_name@));
                        } else {
                            lemma_text_lt_asymmetric(n, before[p as int].file_name@);
                        }
                    }
                } else if i < p {
                    assert(out@[i] == before[i] && out@[j] == before[j - 1]);
                } else {
                    assert(out@[i] == before[i - 1] && out@[j] == before[j - 1]);
                }
            }
            if distinct_names(all) {
                assert forall|q: int| 0 <= q < before.len() implies #[trigger] before[q].file_name@ != n by {
                    assert(before.to_multiset().count(before[q]) > 0);
                    assert(all.take(k).contains(before[q]));
                    let m = choose|m: int| 0 <= m < all.take(k).len() && all.take(k)[m] == before[q];
                    assert(all[m] == before[q]);
                }
                assert forall|i: int, j: int| 0 <= i < j < out@.len() implies text_lt(
                    #[trigger] out@[i].file_name@,
                    #[trigger] out@[j].file_name@,
                ) by {
                    if j < p {
                        assert(out@[i] == before[i] && out@[j] == before[j]);
                    } else if j == p {
                        assert(out@[i] == before[i]);
                        lemma_text_lt_total(before[i].file_name@, n);
                    } else if i == p {
                        assert(out@[j] == before[j - 1]);
                        if j - 1 == p {
                        } else {
                            lemma_text_lt_transitive(n, before[p as int].file_name@, before[j - 1].file_name@);
                        }
                    } else if i < p {
                        assert(out@[i] == before[i] && out@[j] == before[j - 1]);
                    } else {
                        assert(out@[i] == before[i - 1] && out@[j] == before[j - 1]);
                    }
                }
            }
            k = k + 1;
        }
    }
    assert(all.take(all.len() as int) =~= all);
    out
}

/// Two arrangements of the same entries, each strictly in file-name order,
/// are the same.
proof fn lemma_strict_order_unique(a: Seq<GrammarEntry>, b: Seq<GrammarEntry>)
    requires
        names_strictly_sorted(a),
        names_strictly_sorted(b),
        a.to_multiset() == b.to_multiset(),
    ensures
        a == b,
    decreases a.len(),
{
    assert(a.len() == a.to_multiset().len());
    assert(b.len() == b.to_multiset().len());
    if a.len() > 0 {
        assert(a.to_multiset().count(a[0]) > 0);
        assert(b.contains(a[0]));
        assert(b.to_multiset().count(b[0]) > 0);
        assert(a.contains(b[0]));
        let k = choose|k: int| 0 <= k < b.len() && b[k] == a[0];
        let m = choose|m: int| 0 <= m < a.len() && a[m] == b[0];
        if k > 0 {
            assert(text_lt(b[0].file_name@, b[k].file_name@));
            if m > 0 {
                assert(text_lt(a[0].file_name@, a[m].file_name@));
                lemma_text_lt_asymmetric(a[0].file_name@, b[0].file_name@);
            } else {
                lemma_text_lt_asymmetric(a[0].file_name@, a[0].file_name@);
            }
        }
        assert(a[0] == b[0]);
        let a1 = a.remove(0);
        let b1 = b.remove(0);
        assert(a1.to_multiset() == a.to_multiset().remove(a[0]));
        assert(b1.to_multiset() == b.to_multiset().remove(b[0]));
        assert forall|i: int, j: int| 0 <= i < j < a1.len() implies text_lt(
            #[trigger] a1[i].file_name@,
            #[trigger] a1[j].file_name@,
        ) by {
            assert(a1[i] == a[i + 1] && a1[j] == a[j + 1]);
        }
        assert forall|i: int, j: int| 0 <= i < j < b1.len() implies text_lt(
            #[trigger] b1[i].file_name@,
            #[trigger] b1[j].file_name@,
        ) by {
            assert(b1[i] == b[i + 1] && b1[j] == b[j + 1]);
        }
        lemma_strict_order_unique(a1, b1);
        assert(a =~= seq![a[0]] + a1);
        assert(b =~= seq![b[0]] + b1);
    } else {
        assert(a =~= b);
    }
}

/// Whether entry `e` can be registered at all: a visible directory with a
/// valid manifest and its `grammar.wasm`, named like no built-in.
pub open spec fn registrable(e: GrammarEntry) -> bool {
    &&& !(e.file_name@.len() > 0 && e.file_name@[0] == '.')
    &&& e.manifest is Some
    &&& e.wasm_exists
    &&& static_name_spec(lowercase(e.manifest.unwrap().name@)) is None
}

/// The key an entry's grammar is registered under: its lower-cased name.
pub open spec fn entry_key(e: GrammarEntry) -> Seq<char> {
    lowercase(e.manifest.unwrap().name@)
}

/// Registering from position `k` on, with the name index in the state the
/// entries before `k` left it, ends with entry `i` under its key.
proof fn lemma_first_claim_from(
    v: (Seq<(Seq<char>, Language)>, Seq<(Seq<char>, Language)>),
    all: Seq<GrammarEntry>,
    k: int,
    i: int,
)
    requires
        0 <= i < all.len(),
        0 <= k <= all.len(),
        registrable(all[i]),
        forall|h: int| 0 <= h < i && registrable(#[trigger] all[h]) ==> entry_key(all[h]) != entry_key(all[i]),
        k <= i ==> !has_key(v.0, entry_key(all[i])),
        k > i ==> key_lookup(v.0, entry_key(all[i])) == Some(
            manifest_language(all[i].manifest.unwrap(), all[i].wasm_path),
        ),
    ensures
        key_lookup(register_all(v, all.skip(k)).0, entry_key(all[i])) == Some(
            manifest_language(all[i].manifest.unwrap(), all[i].wasm_path),
        ),
    decreases all.len() - k,
{
    let key = entry_key(all[i]);
    if k < all.len() {
        let es = all.skip(k);
        let e = es[0];
        assert(e == all[k]);
        assert(es.drop_first() == all.skip(k + 1));
        let nv = register_views(v, e);
        if !entry_skipped(v.0, e) {
            let ek = entry_key(e);
            let lang = manifest_language(e.manifest.unwrap(), e.wasm_path);
            lemma_push_new_key(v.0, ek, lang, key);
            if k < i {
                assert(ek != key);
                assert forall|w: int| 0 <= w < nv.0.len() implies #[trigger] nv.0[w].0 != key by {
                    if w < v.0.len() {
                        assert(nv.0[w] == v.0[w]);
                    }
                }
            } else if k > i {
                lemma_lookup_has_key(v.0, key);
                assert(ek != key);
            }
        } else if k == i {
            assert(false);
        }
        lemma_first_claim_from(nv, all, k + 1, i);
    } else {
        assert(all.skip(k).len() == 0);
    }
}

/// The first grammar to claim a name keeps it: when entry `i` can be
/// registered and no entry before it that can be registered shares its
/// lower-cased name, the name index maps that name to entry `i`'s grammar
/// (a later entry with the same name, in any case, is skipped).
pub proof fn lemma_first_claim_wins(entries: Seq<GrammarEntry>, i: int)
    requires
        0 <= i < entries.len(),
        registrable(entries[i]),
        forall|h: int|
            0 <= h < i && registrable(#[trigger] entries[h]) ==> entry_key(entries[h]) != entry_key(entries[i]),
    ensures
        key_lookup(register_all((seq![], seq![]), entries).0, entry_key(entries[i])) == Some(
            manifest_language(entries[i].manifest.unwrap(), entries[i].wasm_path),
        ),
{
    let v0: (Seq<(Seq<char>, Language)>, Seq<(Seq<char>, Language)>) = (seq![], seq![]);
    assert(entries.skip(0) == entries);
    lemma_first_claim_from(v0, entries, 0, i);
}

} // verus!
