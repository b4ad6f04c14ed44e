//! Parsing with tree-sitter, and reading a parse as plain values: the
//! grammars, the parser, and the nodes of a tree in preorder with their
//! depth below the root.

use vstd::prelude::*;

use tree_sitter::Language as Grammar;
use tree_sitter::Parser as TsParser;
use vstd::utf8::{decode_utf8, valid_utf8};

use crate::parser::languages::Language;
use crate::text::{chars_of, string_of};
use tree_sitter::StreamingIterator;

verus! {

// ---------------------------------------------------------------------------
// Outside types
// ---------------------------------------------------------------------------

/// A tree-sitter grammar.
#[verifier::external_type_specification]
#[verifier::external_body]
pub struct ExGrammar(Grammar);

/// A tree-sitter parser.
#[verifier::external_type_specification]
#[verifier::external_body]
pub struct ExParser(TsParser);

/// A tree-sitter syntax tree.
#[verifier::external_type_specification]
#[verifier::external_body]
pub struct ExTree(tree_sitter::Tree);

/// A cursor over a tree-sitter syntax tree.
#[verifier::external_type_specification]
#[verifier::external_body]
pub struct ExTreeCursor<'a>(tree_sitter::TreeCursor<'a>);

/// A compiled tree-sitter query.
#[verifier::external_type_specification]
#[verifier::external_body]
pub struct ExQuery(tree_sitter::Query);

// ---------------------------------------------------------------------------
// Grammars
// ---------------------------------------------------------------------------

/// A parser for the Swift grammar, `tree_sitter_swift::LANGUAGE`, with that grammar:
/// `Parser::new`, then `Parser::set_language`. That call refuses only a
/// grammar whose ABI version lies outside 13..=15 (this tree-sitter's
/// `MIN_COMPATIBLE_LANGUAGE_VERSION..=LANGUAGE_VERSION`) or that has no lexer
/// (the `wasm` feature is off); this grammar is generated at ABI version
/// 15 with a lexer, so success is claimed.
#[verifier::external_body]
pub(crate) fn swift_parts() -> (r: Result<(TsParser, Grammar), String>)
    ensures
        r is Ok,
{
    let grammar: Grammar = tree_sitter_swift::LANGUAGE.into();
    let mut parser = TsParser::new();
    match parser.set_language(&grammar) {
        Ok(()) => Ok((parser, grammar)),
        Err(e) => Err(e.to_string()),
    }
}

/// A parser for the Rust grammar, `tree_sitter_rust::LANGUAGE`, with that grammar:
/// `Parser::new`, then `Parser::set_language`. That call refuses only a
/// grammar whose ABI version lies outside 13..=15 (this tree-sitter's
/// `MIN_COMPATIBLE_LANGUAGE_VERSION..=LANGUAGE_VERSION`) or that has no lexer
/// (the `wasm` feature is off); this grammar is generated at ABI version
/// 15 with a lexer, so success is claimed.
#[verifier::external_body]
pub(crate) fn rust_parts() -> (r: Result<(TsParser, Grammar), String>)
    ensures
        r is Ok,
{
    let grammar: Grammar = tree_sitter_rust::LANGUAGE.into();
    let mut parser = TsParser::new();
    match parser.set_language(&grammar) {
        Ok(()) => Ok((parser, grammar)),
        Err(e) => Err(e.to_string()),
    }
}

/// A parser for the TypeScript grammar, `tree_sitter_typescript::LANGUAGE_TYPESCRIPT`, with that grammar:
/// `Parser::new`, then `Parser::set_language`. That call refuses only a
/// grammar whose ABI version lies outside 13..=15 (this tree-sitter's
/// `MIN_COMPATIBLE_LANGUAGE_VERSION..=LANGUAGE_VERSION`) or that has no lexer
/// (the `wasm` feature is off); this grammar is generated at ABI version
/// 14 with a lexer, so success is claimed.
#[verifier::external_body]
pub(crate) fn typescript_parts() -> (r: Result<(TsParser, Grammar), String>)
    ensures
        r is Ok,
{
    let grammar: Grammar = tree_sitter_typescript::LANGUAGE_TYPESCRIPT.into();
    let mut parser = TsParser::new();
    match parser.set_language(&grammar) {
        Ok(()) => Ok((parser, grammar)),
        Err(e) => Err(e.to_string()),
    }
}

/// A parser for the Python grammar, `tree_sitter_python::LANGUAGE`, with that grammar:
/// `Parser::new`, then `Parser::set_language`. That call refuses only a
/// grammar whose ABI version lies outside 13..=15 (this tree-sitter's
/// `MIN_COMPATIBLE_LANGUAGE_VERSION..=LANGUAGE_VERSION`) or that has no lexer
/// (the `wasm` feature is off); this grammar is generated at ABI version
/// 15 with a lexer, so success is claimed.
#[verifier::external_body]
pub(crate) fn python_parts() -> (r: Result<(TsParser, Grammar), String>)
    ensures
        r is Ok,
{
    let grammar: Grammar = tree_sitter_python::LANGUAGE.into();
    let mut parser = TsParser::new();
    match parser.set_language(&grammar) {
        Ok(()) => Ok((parser, grammar)),
        Err(e) => Err(e.to_string()),
    }
}

/// A parser for the Go grammar, `tree_sitter_go::LANGUAGE`, with that grammar:
/// `Parser::new`, then `Parser::set_language`. That call refuses only a
/// grammar whose ABI version lies outside 13..=15 (this tree-sitter's
/// `MIN_COMPATIBLE_LANGUAGE_VERSION..=LANGUAGE_VERSION`) or that has no lexer
/// (the `wasm` feature is off); this grammar is generated at ABI version
/// 15 with a lexer, so success is claimed.
#[verifier::external_body]
pub(crate) fn go_parts() -> (r: Result<(TsParser, Grammar), String>)
    ensures
        r is Ok,
{
    let grammar: Grammar = tree_sitter_go::LANGUAGE.into();
    let mut parser = TsParser::new();
    match parser.set_language(&grammar) {
        Ok(()) => Ok((parser, grammar)),
        Err(e) => Err(e.to_string()),
    }
}

/// A parser for the Java grammar, `tree_sitter_java::LANGUAGE`, with that grammar:
/// `Parser::new`, then `Parser::set_language`. That call refuses only a
/// grammar whose ABI version lies outside 13..=15 (this tree-sitter's
/// `MIN_COMPATIBLE_LANGUAGE_VERSION..=LANGUAGE_VERSION`) or that has no lexer
/// (the `wasm` feature is off); this grammar is generated at ABI version
/// 14 with a lexer, so success is claimed.
#[verifier::external_body]
pub(crate) fn java_parts() -> (r: Result<(TsParser, Grammar), String>)
    ensures
        r is Ok,
{
    let grammar: Grammar = tree_sitter_java::LANGUAGE.into();
    let mut parser = TsParser::new();
    match parser.set_language(&grammar) {
        Ok(()) => Ok((parser, grammar)),
        Err(e) => Err(e.to_string()),
    }
}

/// A parser for the C# grammar, `tree_sitter_c_sharp::LANGUAGE`, with that grammar:
/// `Parser::new`, then `Parser::set_language`. That call refuses only a
/// grammar whose ABI version lies outside 13..=15 (this tree-sitter's
/// `MIN_COMPATIBLE_LANGUAGE_VERSION..=LANGUAGE_VERSION`) or that has no lexer
/// (the `wasm` feature is off); this grammar is generated at ABI version
/// 15 with a lexer, so success is claimed.
#[verifier::external_body]
pub(crate) fn csharp_parts() -> (r: Result<(TsParser, Grammar), String>)
    ensures
        r is Ok,
{
    let grammar: Grammar = tree_sitter_c_sharp::LANGUAGE.into();
    let mut parser = TsParser::new();
    match parser.set_language(&grammar) {
        Ok(()) => Ok((parser, grammar)),
        Err(e) => Err(e.to_string()),
    }
}

/// A parser for the Dart grammar, `tree_sitter_dart::LANGUAGE`, with that grammar:
/// `Parser::new`, then `Parser::set_language`. That call refuses only a
/// grammar whose ABI version lies outside 13..=15 (this tree-sitter's
/// `MIN_COMPATIBLE_LANGUAGE_VERSION..=LANGUAGE_VERSION`) or that has no lexer
/// (the `wasm` feature is off); this grammar is generated at ABI version
/// 15 with a lexer, so success is claimed.
#[verifier::external_body]
pub(crate) fn dart_parts() -> (r: Result<(TsParser, Grammar), String>)
    ensures
        r is Ok,
{
    let grammar: Grammar = tree_sitter_dart::LANGUAGE.into();
    let mut parser = TsParser::new();
    match parser.set_language(&grammar) {
        Ok(()) => Ok((parser, grammar)),
        Err(e) => Err(e.to_string()),
    }
}

/// A parser for the grammar of tree-sitter's query language,
/// `tree_sitter_tsquery::LANGUAGE`, with that grammar: `Parser::new`, then
/// `Parser::set_language`. `set_language` refuses only a grammar whose ABI
/// version lies outside `MIN_COMPATIBLE_LANGUAGE_VERSION..=LANGUAGE_VERSION`
/// (13..=15 in this tree-sitter) or that has no lexer (or, with the `wasm`
/// feature, which this build leaves off, one the WASM store refuses). This
/// grammar is generated at ABI version 15 with a lexer, so success is
/// claimed.
#[verifier::external_body]
fn query_grammar_parser() -> (r: Result<(TsParser, Grammar), String>)
    ensures
        r is Ok,
{
    let grammar: Grammar = tree_sitter_tsquery::LANGUAGE.into();
    let mut parser = TsParser::new();
    match parser.set_language(&grammar) {
        Ok(()) => Ok((parser, grammar)),
        Err(e) => Err(e.to_string()),
    }
}

// ---------------------------------------------------------------------------
// Parsing
// ---------------------------------------------------------------------------

/// A tree-sitter parser whose grammar `Parser::set_language` accepted,
/// with that grammar and its name. Only [`parser_for`] and
/// [`query_parser`] make one, each from a grammar and the name of that
/// grammar.
pub struct GrammarParser {
    parser: TsParser,
    grammar: Grammar,
    name: String,
}

impl GrammarParser {
    /// The name of the parser's grammar.
    pub closed spec fn name_spec(&self) -> Seq<char> {
        self.name@
    }
}

/// `Clone::clone` of a grammar handle: the same grammar.
#[verifier::external_body]
fn copy_grammar(grammar: &Grammar) -> (r: Grammar) {
    grammar.clone()
}

/// A parser and grammar handle of a built-in `language`, as the
/// `*_parts` wrappers give them.
pub(crate) fn builtin_parts(language: &Language) -> (r: (TsParser, Grammar))
    requires
        !(language is Dynamic),
{
    let parts = match language {
        Language::Swift => swift_parts(),
        Language::Rust => rust_parts(),
        Language::TypeScript => typescript_parts(),
        Language::Python => python_parts(),
        Language::Go => go_parts(),
        Language::Java => java_parts(),
        Language::CSharp => csharp_parts(),
        Language::Dart => dart_parts(),
        Language::Dynamic(_) => vstd::pervasive::unreached(),
    };
    match parts {
        Ok(p) => p,
        Err(_) => vstd::pervasive::unreached(),
    }
}

/// A parser for the grammar of a built-in `language`, recorded under the
/// language's name.
pub(crate) fn parser_for(language: &Language) -> (r: GrammarParser)
    requires
        !(language is Dynamic),
    ensures
        r.name_spec() == language.name_spec(),
{
    let (parser, grammar) = builtin_parts(language);
    let name = string_of(&chars_of(language.name()));
    GrammarParser { parser, grammar, name }
}

/// The name under which the query-language grammar is recorded.
pub open spec fn query_grammar_name() -> Seq<char> {
    "tsquery"@
}

/// A parser for the grammar of tree-sitter queries, recorded as `tsquery`.
pub(crate) fn query_parser() -> (r: GrammarParser)
    ensures
        r.name_spec() == query_grammar_name(),
{
    match query_grammar_parser() {
        Ok((parser, grammar)) => GrammarParser { parser, grammar, name: string_of(&chars_of("tsquery")) },
        Err(_) => vstd::pervasive::unreached(),
    }
}

/// `tree_sitter::Parser::parse` of `text`, with no earlier tree. Its
/// documentation gives no tree only to a parser without a grammar, and a
/// [`GrammarParser`] has one, so a tree is claimed; nothing is claimed of
/// the tree.
#[verifier::external_body]
pub(crate) fn parse_text(parser: &mut GrammarParser, text: &[u8]) -> (r: Option<
    tree_sitter::Tree,
>)
    ensures
        r is Some,
        final(parser).name_spec() == old(parser).name_spec(),
{
    parser.parser.parse(text, None)
}

/// A text parsed with a grammar: the tree, the text, the grammar and its
/// name. Only [`parse_source`] makes one, so the tree is always the parse
/// of the text with the grammar of that name.
pub struct SourceTree {
    tree: tree_sitter::Tree,
    source: Vec<u8>,
    grammar: Grammar,
    name: String,
}

impl SourceTree {
    /// The parsed text.
    pub closed spec fn source_spec(&self) -> Seq<u8> {
        self.source@
    }

    /// The name of the grammar the text was parsed with.
    pub closed spec fn name_spec(&self) -> Seq<char> {
        self.name@
    }

    /// The syntax tree.
    pub fn tree(&self) -> &tree_sitter::Tree {
        &self.tree
    }

    /// The parsed text.
    pub fn source(&self) -> (r: &[u8])
        ensures
            r@ == self.source_spec(),
    {
        self.source.as_slice()
    }
}

/// Parse `source` with `parser`.
pub(crate) fn parse_source(parser: &mut GrammarParser, source: Vec<u8>) -> (r: SourceTree)
    ensures
        r.source_spec() == source@,
        r.name_spec() == old(parser).name_spec(),
        final(parser).name_spec() == old(parser).name_spec(),
{
    let tree = parse_text(parser, source.as_slice()).unwrap();
    let grammar = copy_grammar(&parser.grammar);
    let name = parser.name.clone();
    SourceTree { tree, source, grammar, name }
}

// ---------------------------------------------------------------------------
// Queries
// ---------------------------------------------------------------------------

/// Whether `Query::new` accepts the query text `query` for the grammar
/// named `grammar`.
pub uninterp spec fn query_compiles(grammar: Seq<char>, query: Seq<char>) -> bool;

/// Whether the query text `query`, compiled for the grammar named
/// `grammar`, has a capture named `capture`.
pub uninterp spec fn query_has_capture_named(
    grammar: Seq<char>,
    query: Seq<char>,
    capture: Seq<char>,
) -> bool;

/// The matches, in order, that `QueryCursor::matches` gives for the query
/// text `query` on the whole parse of `source` with the grammar named
/// `grammar`: each match's captures as name, byte range, and start and end
/// `(row, column)`.
pub uninterp spec fn query_matches(grammar: Seq<char>, source: Seq<u8>, query: Seq<char>) -> Seq<
    Seq<(Seq<char>, (usize, usize), (usize, usize), (usize, usize))>,
>;

/// A query compiled for a grammar, with its text and the grammar's name.
pub struct CompiledQuery {
    query: tree_sitter::Query,
    text: String,
    name: String,
}

impl CompiledQuery {
    /// The query's text.
    pub closed spec fn text_spec(&self) -> Seq<char> {
        self.text@
    }

    /// The name of the grammar the query was compiled for.
    pub closed spec fn name_spec(&self) -> Seq<char> {
        self.name@
    }
}

/// `tree_sitter::Query::new` of `text` for the grammar of `st`: the
/// compiled query (with its text and grammar name), or the text of why it
/// does not compile. Which texts compile is named by [`query_compiles`].
#[verifier::external_body]
pub(crate) fn compile_query(st: &SourceTree, text: &str) -> (r: Result<CompiledQuery, String>)
    ensures
        r is Ok <==> query_compiles(st.name_spec(), text@),
        r matches Ok(q) ==> q.text_spec() == text@ && q.name_spec() == st.name_spec(),
{
    match tree_sitter::Query::new(&st.grammar, text) {
        Ok(query) => Ok(CompiledQuery { query, text: text.to_string(), name: st.name.clone() }),
        Err(e) => Err(e.to_string()),
    }
}

/// Whether `Query::capture_index_for_name(name)` finds the capture (named
/// by [`query_has_capture_named`]).
#[verifier::external_body]
pub(crate) fn query_has_capture(query: &CompiledQuery, name: &str) -> (r: bool)
    ensures
        r == query_has_capture_named(query.name_spec(), query.text_spec(), name@),
{
    query.query.capture_index_for_name(name).is_some()
}

/// The bytes of `source` in `start..end`; empty when the range does not lie
/// in `source`. Queries read node texts through it, so a tree that reaches
/// past its text reads empty text instead of failing.
pub fn range_bytes(source: &[u8], start: usize, end: usize) -> (r: Vec<u8>)
    ensures
        start <= end <= source@.len() ==> r@ == source@.subrange(start as int, end as int),
        !(start <= end <= source@.len()) ==> r@.len() == 0,
{
    let mut out: Vec<u8> = Vec::new();
    if start <= end && end <= source.len() {
        let mut i = start;
        while i < end
            invariant
                start <= i <= end <= source@.len(),
                out@ == source@.subrange(start as int, i as int),
            decreases end - i,
        {
            out.push(source[i]);
            i = i + 1;
            assert(out@ =~= source@.subrange(start as int, i as int));
        }
    }
    out
}

/// How many matches `QueryCursor::matches` gives for `query` on the whole
/// parse in `st` (node texts read through [`range_bytes`]): the number of
/// [`query_matches`].
#[verifier::external_body]
pub(crate) fn query_match_count(query: &CompiledQuery, st: &SourceTree) -> (r: usize)
    requires
        query.name_spec() == st.name_spec(),
    ensures
        r == query_matches(st.name_spec(), st.source_spec(), query.text_spec()).len(),
{
    let mut cursor = tree_sitter::QueryCursor::new();
    let source = st.source.as_slice();
    let text = |n: tree_sitter::Node| std::iter::once(range_bytes(source, n.start_byte(), n.end_byte()));
    cursor.matches(&query.query, st.tree.root_node(), text).count()
}

/// The captures of one query match, by value.
pub open spec fn captures_tuples(v: Seq<(String, (usize, usize), (usize, usize), (usize, usize))>) -> Seq<
    (Seq<char>, (usize, usize), (usize, usize), (usize, usize)),
> {
    v.map_values(|c: (String, (usize, usize), (usize, usize), (usize, usize))| (c.0@, c.1, c.2, c.3))
}

/// The captures of match `k` (from 0) that `QueryCursor::matches` gives for
/// `query` on the whole parse in `st`: each capture's name, byte range, and
/// start and end `(row, column)`, as [`query_matches`] names them.
#[verifier::external_body]
pub(crate) fn nth_query_match(query: &CompiledQuery, st: &SourceTree, k: usize) -> (r: Option<
    Vec<(String, (usize, usize), (usize, usize), (usize, usize))>,
>)
    requires
        query.name_spec() == st.name_spec(),
    ensures
        r matches Some(v) ==> k < query_matches(st.name_spec(), st.source_spec(), query.text_spec()).len()
            && captures_tuples(v@) == query_matches(st.name_spec(), st.source_spec(), query.text_spec())[k as int],
        r is None <==> k >= query_matches(st.name_spec(), st.source_spec(), query.text_spec()).len(),
{
    let mut cursor = tree_sitter::QueryCursor::new();
    let text = |n: tree_sitter::Node| std::iter::once(range_bytes(&st.source, n.start_byte(), n.end_byte()));
    let names = query.query.capture_names();
    cursor.matches(&query.query, st.tree.root_node(), text).nth(k).map(|m| {
        m.captures().iter().map(|c| {
            let (n, s, e) = (c.node, c.node.start_position(), c.node.end_position());
            (names[c.index as usize].to_string(), (n.start_byte(), n.end_byte()), (s.row, s.column), (e.row, e.column))
        }).collect()
    })
}

/// The text of `source` in `range`: the characters the bytes encode when
/// the range lies in `source` and its bytes are UTF-8, else empty.
pub open spec fn range_text_spec(source: Seq<u8>, range: (usize, usize)) -> Seq<char> {
    if range.0 <= range.1 && range.1 <= source.len() && valid_utf8(
        source.subrange(range.0 as int, range.1 as int),
    ) {
        decode_utf8(source.subrange(range.0 as int, range.1 as int))
    } else {
        Seq::empty()
    }
}

/// `std::str::from_utf8` of `source[start..end]`, owned: the characters the
/// bytes encode when they are UTF-8, else `None`.
#[verifier::external_body]
pub(crate) fn utf8_text(source: &[u8], start: usize, end: usize) -> (r: Option<String>)
    requires
        start <= end <= source.len(),
    ensures
        r is Some <==> valid_utf8(source@.subrange(start as int, end as int)),
        r matches Some(t) ==> t@ == decode_utf8(source@.subrange(start as int, end as int)),
{
    std::str::from_utf8(&source[start..end]).ok().map(|t| t.to_string())
}

// ---------------------------------------------------------------------------
// The nodes of a parse
// ---------------------------------------------------------------------------

/// One node of a parsed file: its kind, whether it is named, where it lies,
/// and its depth below the root.
#[derive(Debug)]
pub struct TreeNode {
    pub kind: String,
    pub is_named: bool,
    pub byte_range: (usize, usize),
    pub start_point: (usize, usize),
    pub end_point: (usize, usize),
    pub depth: usize,
}

/// One node of a parse by value: kind, whether it is named, byte range,
/// start and end `(row, column)`, and depth below the root.
pub open spec fn node_tuple(n: TreeNode) -> (Seq<char>, bool, (usize, usize), (usize, usize), (usize, usize), usize) {
    (n.kind@, n.is_named, n.byte_range, n.start_point, n.end_point, n.depth)
}

/// The nodes, in preorder, of the parse of `source` with the grammar named
/// `grammar`, each as [`node_tuple`] reads it.
pub uninterp spec fn parse_nodes(grammar: Seq<char>, source: Seq<u8>) -> Seq<
    (Seq<char>, bool, (usize, usize), (usize, usize), (usize, usize), usize),
>;

/// The field each node of [`parse_nodes`] fills in its parent, if any.
pub uninterp spec fn parse_fields(grammar: Seq<char>, source: Seq<u8>) -> Seq<Option<Seq<char>>>;

/// `Node::descendant_count` of the root of the parse in `st`: the number of
/// its nodes ([`parse_nodes`]), the root included, so at least one.
#[verifier::external_body]
pub(crate) fn tree_node_count(st: &SourceTree) -> (r: usize)
    ensures
        r == parse_nodes(st.name_spec(), st.source_spec()).len(),
        r >= 1,
{
    st.tree.root_node().descendant_count()
}

/// The `k`-th node, in preorder, of the parse in `st`, reached with
/// `TreeCursor::goto_descendant` from a cursor on the root: [`parse_nodes`]
/// at `k`. Its start does not pass its end, and its depth
/// (`TreeCursor::depth`, counted from the root) is that of a preorder walk:
/// 0 for the root, and at most one more than the node before it.
#[verifier::external_body]
pub(crate) fn nth_tree_node(st: &SourceTree, k: usize) -> (r: TreeNode)
    requires
        k < parse_nodes(st.name_spec(), st.source_spec()).len(),
    ensures
        node_tuple(r) == parse_nodes(st.name_spec(), st.source_spec())[k as int],
        r.byte_range.0 <= r.byte_range.1,
        k == 0 ==> r.depth == 0,
        k > 0 ==> r.depth <= parse_nodes(st.name_spec(), st.source_spec())[k - 1].5 + 1,
{
    let mut cursor = st.tree.walk();
    cursor.goto_descendant(k);
    let (n, s, e) = (cursor.node(), cursor.node().start_position(), cursor.node().end_position());
    let (kind, is_named, depth) = (n.kind().to_string(), n.is_named(), cursor.depth() as usize);
    TreeNode { kind, is_named, byte_range: (n.start_byte(), n.end_byte()), start_point: (s.row, s.column), end_point: (e.row, e.column), depth }
}

/// `TreeCursor::field_name` of the `k`-th node, in preorder, of the parse in
/// `st`, reached as [`nth_tree_node`] reaches it: [`parse_fields`] at `k`.
#[verifier::external_body]
pub(crate) fn nth_field_name(st: &SourceTree, k: usize) -> (r: Option<String>)
    requires
        k < parse_nodes(st.name_spec(), st.source_spec()).len(),
    ensures
        opt_chars(r) == parse_fields(st.name_spec(), st.source_spec())[k as int],
{
    let mut cursor = st.tree.walk();
    cursor.goto_descendant(k);
    cursor.field_name().map(|f| f.to_string())
}

/// An optional string by value.
pub open spec fn opt_chars(o: Option<String>) -> Option<Seq<char>> {
    match o {
        Some(s) => Some(s@),
        None => None,
    }
}

/// Whether `nodes` reads as a preorder walk with depths: the first node is
/// the root, and each node lies at most one level below the one before it.
pub open spec fn preorder_wf(nodes: Seq<TreeNode>) -> bool {
    &&& nodes.len() > 0 ==> nodes[0].depth == 0
    &&& forall|k: int| 0 < k < nodes.len() ==> #[trigger] nodes[k].depth <= nodes[k - 1].depth + 1
}

/// The nodes of the parse in `st`, in preorder: [`parse_nodes`].
pub fn source_tree_nodes(st: &SourceTree) -> (r: Vec<TreeNode>)
    ensures
        r@.map_values(|n: TreeNode| node_tuple(n)) == parse_nodes(st.name_spec(), st.source_spec()),
        r@.len() >= 1,
        forall|i: int| 0 <= i < r@.len() ==> (#[trigger] r@[i]).byte_range.0 <= r@[i].byte_range.1,
        preorder_wf(r@),
{
    let n = tree_node_count(st);
    let ghost all = parse_nodes(st.name_spec(), st.source_spec());
    let mut nodes: Vec<TreeNode> = Vec::new();
    for k in 0..n
        invariant
            n == all.len(),
            all == parse_nodes(st.name_spec(), st.source_spec()),
            nodes@.len() == k,
            forall|i: int| 0 <= i < k ==> node_tuple(#[trigger] nodes@[i]) == all[i],
            forall|i: int|
                0 <= i < nodes@.len() ==> (#[trigger] nodes@[i]).byte_range.0 <= nodes@[i].byte_range.1,
            preorder_wf(nodes@),
    {
        let t = nth_tree_node(st, k);
        let ghost prev = nodes@;
        nodes.push(t);
        proof {
            assert forall|i: int| 0 < i < nodes@.len() implies #[trigger] nodes@[i].depth <= nodes@[i
                - 1].depth + 1 by {
                assert(nodes@[i - 1] == prev[i - 1]);
                if i < k {
                    assert(nodes@[i] == prev[i]);
                } else {
                    assert(node_tuple(prev[i - 1]) == all[i - 1]);
                }
            }
        }
    }
    assert(nodes@.map_values(|t: TreeNode| node_tuple(t)) =~= all);
    nodes
}

/// The node that `Node::descendant_for_byte_range(start, end)` of the root
/// gives, on the parse of `source` with the grammar named `grammar`: its
/// kind, whether it is named, byte range, and start and end `(row, column)`;
/// `None` when it gives none.
pub uninterp spec fn spanning_node(grammar: Seq<char>, source: Seq<u8>, start: usize, end: usize) -> Option<
    (Seq<char>, bool, (usize, usize), (usize, usize), (usize, usize)),
>;

/// A node as [`spanning_node`] reads it, by value.
pub open spec fn span_view(o: Option<(String, bool, (usize, usize), (usize, usize), (usize, usize))>) -> Option<
    (Seq<char>, bool, (usize, usize), (usize, usize), (usize, usize)),
> {
    match o {
        Some(n) => Some((n.0@, n.1, n.2, n.3, n.4)),
        None => None,
    }
}

/// `Node::descendant_for_byte_range(start, end)` of the root of the parse
/// in `st`: the node tree-sitter finds spanning the range, as
/// [`spanning_node`] names it.
#[verifier::external_body]
pub(crate) fn find_spanning_node(st: &SourceTree, start: usize, end: usize) -> (r: Option<
    (String, bool, (usize, usize), (usize, usize), (usize, usize)),
>)
    ensures
        span_view(r) == spanning_node(st.name_spec(), st.source_spec(), start, end),
{
    st.tree.root_node().descendant_for_byte_range(start, end).map(|n| {
        let (s, e) = (n.start_position(), n.end_position());
        (n.kind().to_string(), n.is_named(), (n.start_byte(), n.end_byte()), (s.row, s.column), (e.row, e.column))
    })
}

} // verus!
