//! Headlines for bookmarks: a short summary ("function cycle_mode", "class
//! AuthService") of the tree-sitter query that finds the bookmarked node.
//!
//! The query is parsed with the tree-sitter grammar of the query language;
//! the summary is computed from the parse, read as the preorder sequence of
//! its nodes ([`SyntaxNode`]), each with its depth below the root.

use vstd::prelude::*;

use crate::parser::languages::Language;
use crate::parser::profile::Profile;
use crate::parser::syntax::{
    nth_field_name, nth_tree_node, parse_fields, parse_nodes, parse_source, query_grammar_name,
    query_parser, range_bytes, tree_node_count, utf8_text,
};
use vstd::utf8::{decode_utf8, encode_utf8, valid_utf8};
use crate::query::classifier::{classify_node_type, global_label_spec};
use crate::text::{
    chars_of, same_text, contains_seq, contains_str, head_to, push_str, string_of, table_lookup, tail_from,
    trim_end_matches, trim_end_matches_len, trim_start_matches, trim_start_matches_index,
};

verus! {

// ---------------------------------------------------------------------------
// Summaries
// ---------------------------------------------------------------------------

/// Why a query could not be summarized.
#[derive(Debug, Clone, Copy, PartialEq, Eq)]
pub enum SummarizeError {
    /// The query text could not be parsed.
    ParseError,
    /// The query has no `@target` capture.
    NoTarget,
    /// No node pattern names the type of the `@target` node.
    UnknownNodeType,
}

impl SummarizeError {
    /// The message of an error.
    pub open spec fn message_spec(&self) -> Seq<char> {
        match self {
            SummarizeError::ParseError => "Failed to parse query string"@,
            SummarizeError::NoTarget => "No @target capture found in query"@,
            SummarizeError::UnknownNodeType => "Could not determine node type for @target"@,
        }
    }

    /// The message of an error, as displayed.
    pub fn message(&self) -> (r: &'static str)
        ensures
            r@ == self.message_spec(),
    {
        match self {
            SummarizeError::ParseError => "Failed to parse query string",
            SummarizeError::NoTarget => "No @target capture found in query",
            SummarizeError::UnknownNodeType => "Could not determine node type for @target",
        }
    }
}

/// A summary of a tree-sitter query: its label, and the identifier it names
/// if it names one.
#[derive(Debug, Clone)]
pub struct QuerySummary {
    /// The human-readable label (e.g., "function", "class", "method").
    pub label: String,
    /// The identifier/name if found in the query (e.g., "cycle_mode", "AuthService").
    pub identifier: Option<String>,
    /// The language this query belongs to.
    pub language: Option<Language>,
}

/// The characters of an optional string.
pub open spec fn opt_view(o: Option<String>) -> Option<Seq<char>> {
    match o {
        Some(x) => Some(x@),
        None => None,
    }
}

/// The displayed form of a summary: `label identifier`, or the label alone;
/// nothing for an empty label.
pub open spec fn format_spec(label: Seq<char>, identifier: Option<Seq<char>>) -> Option<Seq<char>> {
    if label.len() == 0 {
        None
    } else {
        match identifier {
            Some(id) => Some(label + seq![' '] + id),
            None => Some(label),
        }
    }
}

impl QuerySummary {
    /// Format the summary as a string for display.
    ///
    /// Returns "label identifier" if both exist, or just "label" if no identifier.
    pub fn format(&self) -> (r: Option<String>)
        ensures
            opt_view(r) == format_spec(self.label@, opt_view(self.identifier)),
    {
        if chars_of(self.label.as_str()).len() == 0 {
            return None;
        }
        match &self.identifier {
            Some(id) => {
                let mut m: Vec<char> = Vec::new();
                push_str(&mut m, self.label.as_str());
                m.push(' ');
                push_str(&mut m, id.as_str());
                Some(string_of(&m))
            },
            None => Some(self.label.clone()),
        }
    }

    /// Create a new QuerySummary with the given label and identifier.
    pub fn new(label: String, identifier: Option<String>, language: Option<Language>) -> (r: Self)
        ensures
            r.label == label,
            r.identifier == identifier,
            r.language == language,
    {
        QuerySummary { label, identifier, language }
    }

    /// Create a QuerySummary with only a label (no identifier).
    pub fn label_only(label: String, language: Option<Language>) -> (r: Self)
        ensures
            r.label == label,
            r.identifier is None,
            r.language == language,
    {
        QuerySummary { label, identifier: None, language }
    }
}

// ---------------------------------------------------------------------------
// The parse, as a preorder sequence of nodes
// ---------------------------------------------------------------------------

/// One node of a parsed query: its kind, the field it fills in its parent,
/// its text, and its depth below the root.
#[derive(Debug, Clone)]
pub struct SyntaxNode {
    pub kind: String,
    pub field: Option<String>,
    pub text: Option<String>,
    pub depth: usize,
}

/// The text of a node, empty when it has none.
pub open spec fn text_or_empty(n: SyntaxNode) -> Seq<char> {
    match n.text {
        Some(t) => t@,
        None => Seq::empty(),
    }
}

/// `j` lies in the subtree below `p` (and is not `p`).
pub open spec fn below(s: Seq<SyntaxNode>, p: int, j: int) -> bool {
    0 <= p < j < s.len() && forall|k: int| p < k <= j ==> #[trigger] s[k].depth > s[p].depth
}

/// `j` is a child of `p`.
pub open spec fn child_of(s: Seq<SyntaxNode>, p: int, j: int) -> bool {
    below(s, p, j) && s[j].depth == s[p].depth + 1
}

/// The parent of `i`, if it has one.
pub open spec fn parent_of(s: Seq<SyntaxNode>, i: int) -> Option<int> {
    if exists|p: int| child_of(s, p, i) {
        Some(choose|p: int| child_of(s, p, i))
    } else {
        None
    }
}

/// Node `n` is picked by `name`: its kind is `name` when `by_kind`, else the
/// field it fills is `name`.
pub open spec fn picked(n: SyntaxNode, by_kind: bool, name: Seq<char>) -> bool {
    if by_kind {
        n.kind@ == name
    } else {
        opt_view(n.field) == Some(name)
    }
}

/// `j` is the first child of `p` picked by `name`.
pub open spec fn is_first_child(s: Seq<SyntaxNode>, p: int, by_kind: bool, name: Seq<char>, j: int) -> bool {
    &&& child_of(s, p, j)
    &&& picked(s[j], by_kind, name)
    &&& forall|k: int| p < k < j && child_of(s, p, k) ==> !picked(#[trigger] s[k], by_kind, name)
}

/// The first child of `p` picked by `name` (`Node::child_by_field_name` for
/// a field).
pub open spec fn first_child(s: Seq<SyntaxNode>, p: int, by_kind: bool, name: Seq<char>) -> Option<int> {
    if exists|j: int| is_first_child(s, p, by_kind, name, j) {
        Some(choose|j: int| is_first_child(s, p, by_kind, name, j))
    } else {
        None
    }
}

/// Node `n` is a capture whose text is `name`.
pub open spec fn is_capture_named(n: SyntaxNode, name: Seq<char>) -> bool {
    n.kind@ == "capture"@ && text_or_empty(n) == name
}

/// `i` is the first `@target` capture.
pub open spec fn is_first_target(s: Seq<SyntaxNode>, i: int) -> bool {
    &&& 0 <= i < s.len()
    &&& is_capture_named(s[i], "@target"@)
    &&& forall|k: int| 0 <= k < i ==> !is_capture_named(#[trigger] s[k], "@target"@)
}

/// The first `@target` capture, in preorder.
pub open spec fn first_target(s: Seq<SyntaxNode>) -> Option<int> {
    if exists|i: int| is_first_target(s, i) {
        Some(choose|i: int| is_first_target(s, i))
    } else {
        None
    }
}

/// The node type named by the nearest `named_node` above `i` that has a
/// `name` field.
pub open spec fn type_above(s: Seq<SyntaxNode>, i: int) -> Option<Seq<char>>
    decreases i,
{
    match parent_of(s, i) {
        None => None,
        Some(p) => if 0 <= p < i {
            if s[p].kind@ == "named_node"@ && first_child(s, p, false, "name"@) is Some {
                Some(text_or_empty(s[first_child(s, p, false, "name"@)->0]))
            } else {
                type_above(s, p)
            }
        } else {
            None
        },
    }
}

/// `p`, or a node below it, is a capture whose text is `name`.
pub open spec fn has_capture(s: Seq<SyntaxNode>, p: int, name: Seq<char>) -> bool {
    exists|j: int|
        (j == p || below(s, p, j)) && 0 <= j < s.len() && (#[trigger] s[j]).kind@ == "capture"@
            && opt_view(s[j].text) == Some(name)
}

/// `str::trim_matches` for a character.
pub open spec fn trim_matches(s: Seq<char>, c: char) -> Seq<char> {
    trim_end_matches(trim_start_matches(s, c), c)
}

/// One parameter of a predicate read: a capture sets the capture name, a
/// string sets the string value (its `string_content`, else its text without
/// quotes).
pub open spec fn param_step(
    s: Seq<SyntaxNode>,
    c: int,
    state: (Option<Seq<char>>, Option<Seq<char>>),
) -> (Option<Seq<char>>, Option<Seq<char>>) {
    if s[c].kind@ == "capture"@ {
        (opt_view(s[c].text), state.1)
    } else if s[c].kind@ == "string"@ {
        let inner = match first_child(s, c, true, "string_content"@) {
            Some(k) => opt_view(s[k].text),
            None => state.1,
        };
        let value = if inner is None {
            match s[c].text {
                Some(t) => Some(trim_matches(t@, '"')),
                None => None,
            }
        } else {
            inner
        };
        (state.0, value)
    } else {
        state
    }
}

/// The capture name and string value read from the children of `q` that
/// come before `j`.
pub open spec fn param_scan(s: Seq<SyntaxNode>, q: int, j: int) -> (Option<Seq<char>>, Option<
    Seq<char>,
>)
    decreases j - q,
{
    if j <= q + 1 {
        (None, None)
    } else {
        let prev = param_scan(s, q, j - 1);
        if child_of(s, q, j - 1) {
            param_step(s, j - 1, prev)
        } else {
            prev
        }
    }
}

/// The identifier that node `i` gives, when it is an `#eq?` or `#match?`
/// predicate on a capture of the target pattern `p`.
pub open spec fn predicate_identifier(s: Seq<SyntaxNode>, i: int, p: int) -> Option<Seq<char>> {
    if s[i].kind@ == "predicate"@ && (contains_seq(text_or_empty(s[i]), "eq?"@) || contains_seq(
        text_or_empty(s[i]),
        "match?"@,
    )) {
        match first_child(s, i, false, "parameters"@) {
            Some(q) => {
                let (cap, val) = param_scan(s, q, s.len() as int);
                match (cap, val) {
                    (Some(c), Some(v)) => if has_capture(s, p, c) {
                        Some(v)
                    } else {
                        None
                    },
                    _ => None,
                }
            },
            None => None,
        }
    } else {
        None
    }
}

/// `i` is the first node, in preorder, that gives an identifier.
pub open spec fn is_first_identifier(s: Seq<SyntaxNode>, p: int, i: int) -> bool {
    &&& 0 <= i < s.len()
    &&& predicate_identifier(s, i, p) is Some
    &&& forall|k: int| 0 <= k < i ==> #[trigger] predicate_identifier(s, k, p) is None
}

/// The identifier of the query: the first one a predicate gives.
pub open spec fn first_identifier(s: Seq<SyntaxNode>, p: int) -> Option<Seq<char>> {
    if exists|i: int| is_first_identifier(s, p, i) {
        predicate_identifier(s, choose|i: int| is_first_identifier(s, p, i), p)
    } else {
        None
    }
}

/// `s` with every `_` replaced by a space.
pub open spec fn underscores_to_spaces(s: Seq<char>) -> Seq<char> {
    s.map_values(|c: char| if c == '_' { ' ' } else { c })
}

/// The label of a node type: its label in the language's profile, else the
/// global default, else the type with spaces for underscores.
pub open spec fn summary_label(node_type: Seq<char>, language: Option<Language>) -> Seq<char> {
    let found = match language {
        Some(l) => match table_lookup(l.labels_spec(), node_type) {
            Some(x) => Some(x),
            None => global_label_spec(node_type),
        },
        None => global_label_spec(node_type),
    };
    match found {
        Some(x) => x,
        None => underscores_to_spaces(node_type),
    }
}

/// The summary of a parse: the label of the target's node type and the
/// identifier of its pattern, or why there is none.
pub open spec fn summarize_spec(s: Seq<SyntaxNode>, language: Option<Language>) -> Result<
    (Seq<char>, Option<Seq<char>>),
    SummarizeError,
> {
    match first_target(s) {
        None => Err(SummarizeError::NoTarget),
        Some(t) => match parent_of(s, t) {
            None => Err(SummarizeError::NoTarget),
            Some(p) => match type_above(s, t) {
                None => Err(SummarizeError::UnknownNodeType),
                Some(nt) => Ok((summary_label(nt, language), first_identifier(s, p))),
            },
        },
    }
}

// ---------------------------------------------------------------------------
// Reading the parse
// ---------------------------------------------------------------------------

/// Whether node `n` is picked by `name`.
fn picks(n: &SyntaxNode, by_kind: bool, name: &str) -> (b: bool)
    ensures
        b == picked(*n, by_kind, name@),
{
    if by_kind {
        same_text(n.kind.as_str(), name)
    } else {
        match &n.field {
            Some(f) => same_text(f.as_str(), name),
            None => false,
        }
    }
}

/// Whether the text of `n`, empty when it has none, is `lit`.
fn text_is(n: &SyntaxNode, lit: &str) -> (b: bool)
    ensures
        b == (text_or_empty(*n) == lit@),
{
    match &n.text {
        Some(t) => same_text(t.as_str(), lit),
        None => {
            let l = chars_of(lit);
            proof {
                if l@.len() == 0 {
                    assert(lit@ =~= Seq::<char>::empty());
                }
            }
            l.len() == 0
        },
    }
}

/// The text of `n`, empty when it has none.
fn node_text(n: &SyntaxNode) -> (r: String)
    ensures
        r@ == text_or_empty(*n),
{
    match &n.text {
        Some(t) => t.clone(),
        None => string_of(&Vec::new()),
    }
}

/// The text of `n`, if it has one.
fn node_text_opt(n: &SyntaxNode) -> (r: Option<String>)
    ensures
        opt_view(r) == opt_view(n.text),
{
    match &n.text {
        Some(t) => Some(t.clone()),
        None => None,
    }
}

/// The parent of node `i`.
fn parent_index(nodes: &[SyntaxNode], i: usize) -> (r: Option<usize>)
    requires
        i < nodes.len(),
    ensures
        match r {
            Some(p) => parent_of(nodes@, i as int) == Some(p as int),
            None => parent_of(nodes@, i as int) is None,
        },
{
    let ghost s = nodes@;
    let d = nodes[i].depth;
    let mut j: usize = i;
    while j > 0
        invariant
            j <= i < nodes.len(),
            s == nodes@,
            d == s[i as int].depth,
            forall|k: int| j <= k < i ==> #[trigger] s[k].depth >= d,
        decreases j,
    {
        let dj = nodes[j - 1].depth;
        if dj < d {
            let ghost p = (j - 1) as int;
            if dj + 1 == d {
                proof {
                    assert forall|k: int| p < k <= i implies #[trigger] s[k].depth > s[p].depth by {
                        if k < i {
                            assert(s[k].depth >= d);
                        }
                    }
                    assert(child_of(s, p, i as int));
                    assert forall|q: int| child_of(s, q, i as int) implies q == p by {
                        if q > p {
                            assert(s[q].depth >= d);
                        } else if q < p {
                            assert(s[p].depth > s[q].depth);
                        }
                    }
                }
                return Some(j - 1);
            } else {
                proof {
                    assert forall|q: int| !child_of(s, q, i as int) by {
                        if child_of(s, q, i as int) {
                            if q > p {
                                assert(s[q].depth >= d);
                            } else if q < p {
                                assert(s[p].depth > s[q].depth);
                            }
                        }
                    }
                }
                return None;
            }
        }
        j = j - 1;
    }
    proof {
        assert forall|q: int| !child_of(s, q, i as int) by {
            if child_of(s, q, i as int) {
                assert(s[q].depth >= d);
            }
        }
    }
    None
}

/// The first child of `p` picked by `name`.
fn first_child_index(nodes: &[SyntaxNode], p: usize, by_kind: bool, name: &str) -> (r: Option<usize>)
    requires
        p < nodes.len(),
    ensures
        match r {
            Some(j) => first_child(nodes@, p as int, by_kind, name@) == Some(j as int),
            None => first_child(nodes@, p as int, by_kind, name@) is None,
        },
{
    let ghost s = nodes@;
    let dp = nodes[p].depth;
    let mut j: usize = p + 1;
    while j < nodes.len() && nodes[j].depth > dp
        invariant
            p < j <= nodes.len(),
            s == nodes@,
            dp == s[p as int].depth,
            forall|k: int| p < k < j ==> #[trigger] s[k].depth > dp,
            forall|k: int|
                p < k < j && child_of(s, p as int, k) ==> !picked(#[trigger] s[k], by_kind, name@),
        decreases nodes.len() - j,
    {
        if nodes[j].depth == dp + 1 && picks(&nodes[j], by_kind, name) {
            proof {
                let jj = j as int;
                assert(child_of(s, p as int, jj));
                assert(is_first_child(s, p as int, by_kind, name@, jj));
                assert forall|m: int| is_first_child(s, p as int, by_kind, name@, m) implies m == jj by {
                    if m < jj {
                        assert(!picked(s[m], by_kind, name@));
                    } else if m > jj {
                        assert(!picked(s[jj], by_kind, name@));
                    }
                }
            }
            return Some(j);
        }
        j = j + 1;
    }
    proof {
        assert forall|m: int| !is_first_child(s, p as int, by_kind, name@, m) by {
            if is_first_child(s, p as int, by_kind, name@, m) {
                if m >= j {
                    assert(s[j as int].depth > s[p as int].depth);
                } else {
                    assert(!picked(s[m], by_kind, name@));
                }
            }
        }
    }
    None
}

/// The first `@target` capture.
fn first_target_index(nodes: &[SyntaxNode]) -> (r: Option<usize>)
    ensures
        match r {
            Some(t) => first_target(nodes@) == Some(t as int),
            None => first_target(nodes@) is None,
        },
{
    let ghost s = nodes@;
    let mut i: usize = 0;
    while i < nodes.len()
        invariant
            i <= nodes.len(),
            s == nodes@,
            forall|k: int| 0 <= k < i ==> !is_capture_named(#[trigger] s[k], "@target"@),
        decreases nodes.len() - i,
    {
        if same_text(nodes[i].kind.as_str(), "capture") && text_is(&nodes[i], "@target") {
            proof {
                let ii = i as int;
                assert(is_first_target(s, ii));
                assert forall|m: int| is_first_target(s, m) implies m == ii by {
                    if m < ii {
                        assert(!is_capture_named(s[m], "@target"@));
                    } else if m > ii {
                        assert(!is_capture_named(s[ii], "@target"@));
                    }
                }
            }
            return Some(i);
        }
        i = i + 1;
    }
    proof {
        assert forall|m: int| !is_first_target(s, m) by {
            if is_first_target(s, m) {
                assert(!is_capture_named(s[m], "@target"@));
            }
        }
    }
    None
}

/// The node type named above node `t` ([`type_above`]).
fn target_type(nodes: &[SyntaxNode], t: usize) -> (r: Option<String>)
    requires
        t < nodes.len(),
    ensures
        opt_view(r) == type_above(nodes@, t as int),
{
    let ghost s = nodes@;
    let mut cur: usize = t;
    loop
        invariant
            cur < nodes.len(),
            s == nodes@,
            type_above(s, t as int) == type_above(s, cur as int),
        decreases cur,
    {
        match parent_index(nodes, cur) {
            None => {
                return None;
            },
            Some(p) => {
                proof {
                    assert(child_of(s, p as int, cur as int));
                }
                if same_text(nodes[p].kind.as_str(), "named_node") {
                    match first_child_index(nodes, p, false, "name") {
                        Some(c) => {
                            return Some(node_text(&nodes[c]));
                        },
                        None => {},
                    }
                }
                cur = p;
            },
        }
    }
}

/// Whether `n` is a capture whose text is `name`.
fn is_capture_text(n: &SyntaxNode, name: &str) -> (b: bool)
    ensures
        b == (n.kind@ == "capture"@ && opt_view(n.text) == Some(name@)),
{
    if !same_text(n.kind.as_str(), "capture") {
        return false;
    }
    match &n.text {
        Some(t) => same_text(t.as_str(), name),
        None => false,
    }
}

/// Whether `p`, or a node below it, is a capture named `name`.
fn capture_in(nodes: &[SyntaxNode], p: usize, name: &str) -> (b: bool)
    requires
        p < nodes.len(),
    ensures
        b == has_capture(nodes@, p as int, name@),
{
    let ghost s = nodes@;
    if is_capture_text(&nodes[p], name) {
        assert((p as int == p as int || below(s, p as int, p as int)) && s[p as int].kind@
            == "capture"@);
        return true;
    }
    let dp = nodes[p].depth;
    let mut j: usize = p + 1;
    while j < nodes.len() && nodes[j].depth > dp
        invariant
            p < j <= nodes.len(),
            s == nodes@,
            dp == s[p as int].depth,
            forall|k: int| p < k < j ==> #[trigger] s[k].depth > dp,
            forall|k: int|
                p <= k < j ==> !((#[trigger] s[k]).kind@ == "capture"@ && opt_view(s[k].text)
                    == Some(name@)),
        decreases nodes.len() - j,
    {
        if is_capture_text(&nodes[j], name) {
            proof {
                assert forall|k: int| p < k <= j implies #[trigger] s[k].depth > s[p as int].depth by {
                    if k < j {
                        assert(s[k].depth > dp);
                    }
                }
                assert(below(s, p as int, j as int));
            }
            return true;
        }
        j = j + 1;
    }
    proof {
        assert forall|m: int|
            !((m == p || below(s, p as int, m)) && 0 <= m < s.len() && (#[trigger] s[m]).kind@
                == "capture"@ && opt_view(s[m].text) == Some(name@)) by {
            if (m == p || below(s, p as int, m)) && 0 <= m < s.len() && s[m].kind@ == "capture"@
                && opt_view(s[m].text) == Some(name@) {
                if m >= j {
                    assert(s[j as int].depth > s[p as int].depth);
                }
            }
        }
    }
    false
}

/// `str::trim_matches('"')`.
fn trim_quotes(t: &str) -> (r: String)
    ensures
        r@ == trim_matches(t@, '"'),
{
    let c = chars_of(t);
    let i = trim_start_matches_index(&c, '"');
    let rest = tail_from(&c, i);
    let n = trim_end_matches_len(&rest, rest.len(), '"');
    assert(rest@.take(rest.len() as int) == rest@);
    let kept = head_to(&rest, n);
    string_of(&kept)
}

/// Children of `q` at or after `e` leave the parameter scan unchanged.
proof fn lemma_scan_stable(s: Seq<SyntaxNode>, q: int, e: int, j: int)
    requires
        q < e <= j <= s.len(),
        forall|k: int| e <= k < j ==> !child_of(s, q, k),
    ensures
        param_scan(s, q, j) == param_scan(s, q, e),
    decreases j - e,
{
    if j > e {
        assert(!child_of(s, q, j - 1));
        lemma_scan_stable(s, q, e, j - 1);
    }
}

/// The capture name and string value given by the parameters `q` of a
/// predicate ([`param_scan`]).
fn read_params(nodes: &[SyntaxNode], q: usize) -> (r: (Option<String>, Option<String>))
    requires
        q < nodes.len(),
    ensures
        (opt_view(r.0), opt_view(r.1)) == param_scan(nodes@, q as int, nodes@.len() as int),
{
    let ghost s = nodes@;
    let dq = nodes[q].depth;
    let mut cap: Option<String> = None;
    let mut val: Option<String> = None;
    let mut j: usize = q + 1;
    while j < nodes.len() && nodes[j].depth > dq
        invariant
            q < j <= nodes.len(),
            s == nodes@,
            dq == s[q as int].depth,
            forall|k: int| q < k < j ==> #[trigger] s[k].depth > dq,
            (opt_view(cap), opt_view(val)) == param_scan(s, q as int, j as int),
        decreases nodes.len() - j,
    {
        proof {
            assert forall|k: int| q < k <= j implies #[trigger] s[k].depth > s[q as int].depth by {
                if k < j {
                    assert(s[k].depth > dq);
                }
            }
            assert(below(s, q as int, j as int));
        }
        if nodes[j].depth == dq + 1 {
            if same_text(nodes[j].kind.as_str(), "capture") {
                cap = node_text_opt(&nodes[j]);
            } else if same_text(nodes[j].kind.as_str(), "string") {
                let mut v = match first_child_index(nodes, j, true, "string_content") {
                    Some(k) => node_text_opt(&nodes[k]),
                    None => val,
                };
                if v.is_none() {
                    v = match &nodes[j].text {
                        Some(t) => Some(trim_quotes(t.as_str())),
                        None => None,
                    };
                }
                val = v;
            }
        }
        j = j + 1;
    }
    proof {
        assert forall|k: int| j <= k < s.len() implies !child_of(s, q as int, k) by {
            if child_of(s, q as int, k) {
                assert(s[j as int].depth > s[q as int].depth);
            }
        }
        lemma_scan_stable(s, q as int, j as int, s.len() as int);
    }
    (cap, val)
}

/// The identifier node `i` gives for the target pattern `p`
/// ([`predicate_identifier`]).
fn predicate_identifier_at(nodes: &[SyntaxNode], i: usize, p: usize) -> (r: Option<String>)
    requires
        i < nodes.len(),
        p < nodes.len(),
    ensures
        opt_view(r) == predicate_identifier(nodes@, i as int, p as int),
{
    if !same_text(nodes[i].kind.as_str(), "predicate") {
        return None;
    }
    let t = chars_of(node_text(&nodes[i]).as_str());
    if !(contains_str(&t, "eq?") || contains_str(&t, "match?")) {
        return None;
    }
    match first_child_index(nodes, i, false, "parameters") {
        None => None,
        Some(q) => {
            let (cap, val) = read_params(nodes, q);
            match (cap, val) {
                (Some(c), Some(v)) => {
                    if capture_in(nodes, p, c.as_str()) {
                        Some(v)
                    } else {
                        None
                    }
                },
                _ => None,
            }
        },
    }
}

/// The identifier of the query for the target pattern `p`
/// ([`first_identifier`]).
fn identifier_for(nodes: &[SyntaxNode], p: usize) -> (r: Option<String>)
    requires
        p < nodes.len(),
    ensures
        opt_view(r) == first_identifier(nodes@, p as int),
{
    let ghost s = nodes@;
    let mut i: usize = 0;
    while i < nodes.len()
        invariant
            i <= nodes.len(),
            p < nodes.len(),
            s == nodes@,
            forall|k: int| 0 <= k < i ==> #[trigger] predicate_identifier(s, k, p as int) is None,
        decreases nodes.len() - i,
    {
        let r = predicate_identifier_at(nodes, i, p);
        if r.is_some() {
            proof {
                let ii = i as int;
                assert(is_first_identifier(s, p as int, ii));
                assert forall|m: int| is_first_identifier(s, p as int, m) implies m == ii by {
                    if m < ii {
                        assert(predicate_identifier(s, m, p as int) is None);
                    } else if m > ii {
                        assert(predicate_identifier(s, ii, p as int) is None);
                    }
                }
            }
            return r;
        }
        i = i + 1;
    }
    proof {
        assert forall|m: int| !is_first_identifier(s, p as int, m) by {
            if is_first_identifier(s, p as int, m) {
                assert(predicate_identifier(s, m, p as int) is None);
            }
        }
    }
    None
}

/// `s` with every `_` replaced by a space.
fn spaces_for_underscores(s: &str) -> (r: String)
    ensures
        r@ == underscores_to_spaces(s@),
{
    let c = chars_of(s);
    let mut out: Vec<char> = Vec::new();
    let mut i: usize = 0;
    while i < c.len()
        invariant
            i <= c.len(),
            out@.len() == i,
            forall|k: int| 0 <= k < i ==> out@[k] == (if c@[k] == '_' { ' ' } else { c@[k] }),
        decreases c.len() - i,
    {
        if c[i] == '_' {
            out.push(' ');
        } else {
            out.push(c[i]);
        }
        i = i + 1;
    }
    assert(out@ =~= underscores_to_spaces(s@));
    string_of(&out)
}

/// The label of a node type in `language` ([`summary_label`]).
fn label_for(node_type: &str, language: &Option<Language>) -> (r: String)
    ensures
        r@ == summary_label(node_type@, *language),
{
    let found = match language {
        Some(l) => {
            let prof: Profile = l.profile();
            proof {
                l.lemma_profile_labels(prof);
            }
            classify_node_type(node_type, Some(&prof))
        },
        None => classify_node_type(node_type, None),
    };
    match found {
        Some(x) => x,
        None => spaces_for_underscores(node_type),
    }
}

/// Summarize a parsed query, given as the preorder sequence of its nodes:
/// the label of the `@target` node's type and the identifier that a
/// predicate on a capture of the target pattern gives.
pub fn summarize_nodes(nodes: &[SyntaxNode], language: Option<Language>) -> (r: Result<
    QuerySummary,
    SummarizeError,
>)
    ensures
        match summarize_spec(nodes@, language) {
            Ok((label, ident)) => r matches Ok(s) && s.label@ == label && opt_view(s.identifier)
                == ident && s.language == language,
            Err(e) => r matches Err(x) && x == e,
        },
{
    let t = match first_target_index(nodes) {
        Some(t) => t,
        None => {
            return Err(SummarizeError::NoTarget);
        },
    };
    let p = match parent_index(nodes, t) {
        Some(p) => p,
        None => {
            return Err(SummarizeError::NoTarget);
        },
    };
    proof {
        assert(child_of(nodes@, p as int, t as int));
    }
    let node_type = match target_type(nodes, t) {
        Some(nt) => nt,
        None => {
            return Err(SummarizeError::UnknownNodeType);
        },
    };
    let identifier = identifier_for(nodes, p);
    let label = label_for(node_type.as_str(), &language);
    Ok(QuerySummary::new(label, identifier, language))
}

// ---------------------------------------------------------------------------
// Parsing a query with tree-sitter
// ---------------------------------------------------------------------------

/// A node of a parsed query by value: kind, field, text, depth.
pub open spec fn syntax_view(n: SyntaxNode) -> (Seq<char>, Option<Seq<char>>, Option<Seq<char>>, usize) {
    (n.kind@, opt_view(n.field), opt_view(n.text), n.depth)
}

/// The text of `source` in `range`, when the range lies in it and its
/// bytes are UTF-8.
pub open spec fn range_utf8(source: Seq<u8>, range: (usize, usize)) -> Option<Seq<char>> {
    if range.0 <= range.1 && range.1 <= source.len() && valid_utf8(
        source.subrange(range.0 as int, range.1 as int),
    ) {
        Some(decode_utf8(source.subrange(range.0 as int, range.1 as int)))
    } else {
        None
    }
}

/// The nodes of the parse of the query text `query` with the grammar of
/// the query language, in preorder: each node's kind, the field it fills,
/// its text and its depth ([`parse_nodes`], [`parse_fields`]).
pub open spec fn query_syntax_spec(query: Seq<char>) -> Seq<
    (Seq<char>, Option<Seq<char>>, Option<Seq<char>>, usize),
> {
    let src = encode_utf8(query);
    let pn = parse_nodes(query_grammar_name(), src);
    let pf = parse_fields(query_grammar_name(), src);
    Seq::new(pn.len(), |k: int| (pn[k].0, pf[k], range_utf8(src, pn[k].2), pn[k].5))
}

/// Parse a query with the grammar of the query language and read the parse
/// as the preorder sequence of its nodes, the root first.
pub fn query_syntax(query_str: &str) -> (r: Vec<SyntaxNode>)
    ensures
        r@.map_values(|n: SyntaxNode| syntax_view(n)) == query_syntax_spec(query_str@),
        r@.len() >= 1,
{
    let mut parser = query_parser();
    let bytes = query_str.as_bytes();
    let st = parse_source(&mut parser, range_bytes(bytes, 0, bytes.len()));
    assert(st.source_spec() =~= encode_utf8(query_str@));
    let ghost want = query_syntax_spec(query_str@);
    let ghost pn = parse_nodes(st.name_spec(), st.source_spec());
    let n = tree_node_count(&st);
    let mut nodes: Vec<SyntaxNode> = Vec::new();
    for k in 0..n
        invariant
            n == pn.len(),
            pn == parse_nodes(st.name_spec(), st.source_spec()),
            st.name_spec() == query_grammar_name(),
            st.source_spec() == encode_utf8(query_str@),
            bytes@ == st.source_spec(),
            want == query_syntax_spec(query_str@),
            nodes@.len() == k,
            forall|i: int| 0 <= i < k ==> syntax_view(#[trigger] nodes@[i]) == want[i],
    {
        let t = nth_tree_node(&st, k);
        let field = nth_field_name(&st, k);
        let text = if t.byte_range.1 <= bytes.len() {
            utf8_text(bytes, t.byte_range.0, t.byte_range.1)
        } else {
            None
        };
        let node = SyntaxNode { kind: t.kind, field, text, depth: t.depth };
        assert(syntax_view(node) == want[k as int]);
        nodes.push(node);
    }
    assert(nodes@.map_values(|n: SyntaxNode| syntax_view(n)) =~= want);
    nodes
}

/// Whether `r` is what summarizing gives when the rule ([`summarize_spec`])
/// gives `spec`.
pub open spec fn summary_fits(
    r: Result<QuerySummary, SummarizeError>,
    spec: Result<(Seq<char>, Option<Seq<char>>), SummarizeError>,
    language: Option<Language>,
) -> bool {
    match spec {
        Ok((label, ident)) => r matches Ok(s) && s.label@ == label && opt_view(s.identifier) == ident
            && s.language == language,
        Err(e) => r matches Err(x) && x == e,
    }
}

/// Summarize a tree-sitter query by extracting its semantic information:
/// the node tagged with the `@target` capture, the type of that node, and an
/// identifier from an `#eq?` or `#match?` predicate on a capture inside the
/// target pattern. The result, success or failure, is [`summarize_spec`] of
/// the parse of the query ([`query_syntax_spec`]); the rule reads each node
/// only through its kind, field, text and depth. The parser always takes
/// the query grammar, so `ParseError` does not arise.
pub fn summarize_query(query_str: &str, language: Option<Language>) -> (r: Result<
    QuerySummary,
    SummarizeError,
>)
    ensures
        exists|nodes: Seq<SyntaxNode>|
            #![trigger summarize_spec(nodes, language)]
            nodes.map_values(|n: SyntaxNode| syntax_view(n)) == query_syntax_spec(query_str@)
                && summary_fits(r, summarize_spec(nodes, language), language),
        r != Err::<QuerySummary, SummarizeError>(SummarizeError::ParseError),
{
    let nodes = query_syntax(query_str);
    let r = summarize_nodes(&nodes, language);
    proof {
        lemma_summarize_not_parse_error(nodes@, language);
        assert(summary_fits(r, summarize_spec(nodes@, language), language));
    }
    r
}

/// The rule never reports a parse error.
proof fn lemma_summarize_not_parse_error(s: Seq<SyntaxNode>, language: Option<Language>)
    ensures
        summarize_spec(s, language) != Err::<(Seq<char>, Option<Seq<char>>), SummarizeError>(
            SummarizeError::ParseError,
        ),
{
}

/// Where a summary's identifier comes from: an `#eq?` or `#match?`
/// predicate whose parameters name a capture and give the identifier as
/// their string, where that capture occurs in the `@target` pattern (the
/// node the first `@target` capture belongs to, or a node below it). A
/// predicate on a capture outside that pattern, such as one of an enclosing
/// class, never supplies it.
pub proof fn lemma_identifier_from_target_pattern(
    s: Seq<SyntaxNode>,
    language: Option<Language>,
    label: Seq<char>,
    id: Seq<char>,
)
    requires
        summarize_spec(s, language) == Ok::<(Seq<char>, Option<Seq<char>>), SummarizeError>(
            (label, Some(id)),
        ),
    ensures
        first_target(s) is Some && parent_of(s, first_target(s).unwrap()) is Some,
        exists|i: int, q: int, j: int|
            #![trigger s[i], s[j], param_scan(s, q, s.len() as int)]
            {
                let p = parent_of(s, first_target(s).unwrap()).unwrap();
                &&& 0 <= i < s.len()
                &&& s[i].kind@ == "predicate"@
                &&& (contains_seq(text_or_empty(s[i]), "eq?"@) || contains_seq(
                    text_or_empty(s[i]),
                    "match?"@,
                ))
                &&& first_child(s, i, false, "parameters"@) == Some(q)
                &&& param_scan(s, q, s.len() as int).1 == Some(id)
                &&& param_scan(s, q, s.len() as int).0 is Some
                &&& (j == p || below(s, p, j))
                &&& 0 <= j < s.len()
                &&& s[j].kind@ == "capture"@
                &&& opt_view(s[j].text) == param_scan(s, q, s.len() as int).0
            },
{
    let t = first_target(s).unwrap();
    let p = parent_of(s, t).unwrap();
    assert(first_identifier(s, p) == Some(id));
    let i = choose|i: int| is_first_identifier(s, p, i);
    assert(predicate_identifier(s, i, p) == Some(id));
    let q = first_child(s, i, false, "parameters"@).unwrap();
    let (cap, val) = param_scan(s, q, s.len() as int);
    let c = cap.unwrap();
    assert(has_capture(s, p, c));
    let j = choose|j: int|
        (j == p || below(s, p, j)) && 0 <= j < s.len() && (#[trigger] s[j]).kind@ == "capture"@
            && opt_view(s[j].text) == Some(c);
    assert(param_scan(s, q, s.len() as int) == (Some(c), Some(id)));
    assert(s[i].kind@ == "predicate"@);
    assert(s[j].kind@ == "capture"@);
}

} // verus!
