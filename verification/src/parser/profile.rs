//! Language-specific structural metadata (the "Profile").
//!
//! - [`Profile::landmark_kinds`]: node types that get structural anchoring.
//! - [`Profile::node_labels`]: node type to human-readable label.
//! - [`Profile::containers`]: container node kinds and their name field, whose
//!   first source line makes a useful breadcrumb ancestor.
//!
//! Every field may be empty: a partial manifest still works.

use vstd::prelude::*;

use crate::engine::breadcrumbs::whitelist_spec;
use crate::parser::languages::Language;
use crate::text::{strings_view, eq_chars, pairs_view, table_lookup};

verus! {

/// Language-specific structural metadata.
///
/// `node_labels` maps a node type to its label; it holds each node type at
/// most once, and a lookup takes the first entry whose node type matches.
#[derive(Debug, Clone)]
pub struct Profile {
    /// Node types that get structural anchoring in the query generator.
    pub landmark_kinds: Vec<String>,
    /// Node type to human-readable label.
    pub node_labels: Vec<(String, String)>,
    /// Container node kinds paired with their name field, e.g.
    /// `("impl_item", "type")`.
    pub containers: Vec<(String, String)>,
}

/// The character view of a list of owned string pairs.
pub open spec fn string_pairs_view(t: Seq<(String, String)>) -> Seq<(Seq<char>, Seq<char>)> {
    t.map_values(|p: (String, String)| (p.0@, p.1@))
}

/// The character view of a list of string literals.
pub open spec fn strs_view(t: Seq<&str>) -> Seq<Seq<char>> {
    t.map_values(|s: &str| s@)
}

impl Profile {
    /// The landmark kinds, as characters.
    pub open spec fn landmarks_view(&self) -> Seq<Seq<char>> {
        strings_view(self.landmark_kinds@)
    }

    /// The node labels, as characters.
    pub open spec fn labels_view(&self) -> Seq<(Seq<char>, Seq<char>)> {
        string_pairs_view(self.node_labels@)
    }

    /// The containers, as characters.
    pub open spec fn containers_view(&self) -> Seq<(Seq<char>, Seq<char>)> {
        string_pairs_view(self.containers@)
    }

    /// No node type has two labels.
    pub open spec fn wf(&self) -> bool {
        forall|i: int, j: int|
            0 <= i < j < self.labels_view().len() ==> #[trigger] self.labels_view()[i].0
                != #[trigger] self.labels_view()[j].0
    }

    /// The label this profile gives `node_type`, if any.
    pub open spec fn label_of(&self, node_type: Seq<char>) -> Option<Seq<char>> {
        table_lookup(self.labels_view(), node_type)
    }

    /// The label this profile gives a node type.
    pub fn node_label(&self, node_type: &[char]) -> (r: Option<&String>)
        ensures
            r matches Some(l) ==> self.label_of(node_type@) == Some(l@),
            r is None <==> self.label_of(node_type@) is None,
    {
        let ghost all = self.labels_view();
        let mut i: usize = 0;
        assert(all.skip(0) == all);
        while i < self.node_labels.len()
            invariant
                i <= self.node_labels.len(),
                all == self.labels_view(),
                table_lookup(all, node_type@) == table_lookup(all.skip(i as int), node_type@),
            decreases self.node_labels.len() - i,
        {
            let entry = &self.node_labels[i];
            assert(all.skip(i as int)[0] == (entry.0@, entry.1@));
            assert(all.skip(i as int).drop_first() == all.skip(i + 1));
            let key = crate::text::chars_of(entry.0.as_str());
            if eq_chars(node_type, &key) {
                return Some(&entry.1);
            }
            i = i + 1;
        }
        assert(all.skip(i as int).len() == 0);
        None
    }

    /// Owned profile built from literal tables.
    pub fn from_tables(
        landmarks: &[&str],
        labels: &[(&str, &str)],
        containers: &[(&str, &str)],
    ) -> (p: Profile)
        ensures
            p.landmarks_view() == strs_view(landmarks@),
            p.labels_view() == pairs_view(labels@),
            p.containers_view() == pairs_view(containers@),
            (forall|i: int, j: int|
                0 <= i < j < labels@.len() ==> #[trigger] labels@[i].0@ != #[trigger] labels@[j].0@) ==> p.wf(),
    {
        Profile {
            landmark_kinds: owned_strings(landmarks),
            node_labels: owned_pairs(labels),
            containers: owned_pairs(containers),
        }
    }
}

impl Default for Profile {
    /// The empty profile: no landmarks, labels or containers.
    fn default() -> (p: Profile)
        ensures
            p.landmark_kinds@.len() == 0,
            p.node_labels@.len() == 0,
            p.containers@.len() == 0,
            p.wf(),
    {
        Profile { landmark_kinds: Vec::new(), node_labels: Vec::new(), containers: Vec::new() }
    }
}

/// Owned copies of string literals.
pub fn owned_strings(t: &[&str]) -> (out: Vec<String>)
    ensures
        strings_view(out@) == strs_view(t@),
{
    let mut out: Vec<String> = Vec::new();
    let mut i: usize = 0;
    while i < t.len()
        invariant
            i <= t.len(),
            strings_view(out@) == strs_view(t@.take(i as int)),
        decreases t.len() - i,
    {
        out.push(t[i].to_owned());
        i = i + 1;
        assert(strs_view(t@.take(i as int)) == strs_view(t@.take(i - 1)).push(t@[i - 1]@));
        assert(strings_view(out@) == strings_view(out@.drop_last()).push(out@.last()@));
    }
    assert(t@.take(t.len() as int) == t@);
    out
}

/// Owned copies of pairs of string literals.
pub fn owned_pairs(t: &[(&str, &str)]) -> (out: Vec<(String, String)>)
    ensures
        string_pairs_view(out@) == pairs_view(t@),
{
    let mut out: Vec<(String, String)> = Vec::new();
    let mut i: usize = 0;
    while i < t.len()
        invariant
            i <= t.len(),
            string_pairs_view(out@) == pairs_view(t@.take(i as int)),
        decreases t.len() - i,
    {
        let (a, b) = t[i];
        out.push((a.to_owned(), b.to_owned()));
        i = i + 1;
        assert(pairs_view(t@.take(i as int)) == pairs_view(t@.take(i - 1)).push((a@, b@)));
        assert(string_pairs_view(out@) == string_pairs_view(out@.drop_last()).push(
            (out@.last().0@, out@.last().1@),
        ));
    }
    assert(t@.take(t.len() as int) == t@);
    out
}

impl Profile {
    /// A copy of this profile.
    pub fn duplicate(&self) -> (r: Profile)
        ensures
            r.landmarks_view() == self.landmarks_view(),
            r.labels_view() == self.labels_view(),
            r.containers_view() == self.containers_view(),
    {
        Profile {
            landmark_kinds: copy_strings(&self.landmark_kinds),
            node_labels: copy_pairs(&self.node_labels),
            containers: copy_pairs(&self.containers),
        }
    }
}

/// A copy of a list of strings.
pub fn copy_strings(t: &Vec<String>) -> (out: Vec<String>)
    ensures
        strings_view(out@) == strings_view(t@),
{
    let mut out: Vec<String> = Vec::new();
    let mut i: usize = 0;
    while i < t.len()
        invariant
            i <= t.len(),
            strings_view(out@) == strings_view(t@.take(i as int)),
        decreases t.len() - i,
    {
        out.push(t[i].clone());
        i = i + 1;
        assert(strings_view(t@.take(i as int)) == strings_view(t@.take(i - 1)).push(t@[i - 1]@));
        assert(strings_view(out@) == strings_view(out@.drop_last()).push(out@.last()@));
    }
    assert(t@.take(t.len() as int) == t@);
    out
}

/// A copy of a list of string pairs.
pub fn copy_pairs(t: &Vec<(String, String)>) -> (out: Vec<(String, String)>)
    ensures
        string_pairs_view(out@) == string_pairs_view(t@),
{
    let mut out: Vec<(String, String)> = Vec::new();
    let mut i: usize = 0;
    while i < t.len()
        invariant
            i <= t.len(),
            string_pairs_view(out@) == string_pairs_view(t@.take(i as int)),
        decreases t.len() - i,
    {
        let a = t[i].0.clone();
        let b = t[i].1.clone();
        out.push((a, b));
        i = i + 1;
        assert(string_pairs_view(t@.take(i as int)) == string_pairs_view(t@.take(i - 1)).push(
            (t@[i - 1].0@, t@[i - 1].1@),
        ));
        assert(string_pairs_view(out@) == string_pairs_view(out@.drop_last()).push(
            (out@.last().0@, out@.last().1@),
        ));
    }
    assert(t@.take(t.len() as int) == t@);
    out
}

// ---------------------------------------------------------------------------
// The built-in languages' profiles.
// ---------------------------------------------------------------------------

/// Landmark kinds of the built-in Swift profile.
pub open spec fn swift_landmarks() -> Seq<&'static str> {
    seq![
        "class_declaration",
        "function_declaration",
        "protocol_declaration",
        "protocol_function_declaration",
        "init_declaration",
        "deinit_declaration",
        "subscript_declaration",
        "enum_declaration",
        "enum_entry",
        "struct_declaration",
    ]
}

/// Node labels of the built-in Swift profile.
pub open spec fn swift_labels() -> Seq<(&'static str, &'static str)> {
    seq![
        ("function_declaration", "function"),
        ("class_declaration", "class"),
        ("struct_declaration", "class"),
        ("protocol_declaration", "interface"),
        ("enum_declaration", "enum"),
        ("enum_entry", "enum"),
        ("init_declaration", "init"),
        ("deinit_declaration", "deinit"),
        ("subscript_declaration", "subscript"),
        ("if_statement", "if statement"),
        ("for_statement", "for loop"),
        ("while_statement", "while loop"),
        ("switch_statement", "match"),
        ("return_statement", "return"),
        ("call_expression", "call"),
    ]
}

/// Containers of the built-in Swift profile.
pub open spec fn swift_containers() -> Seq<(&'static str, &'static str)> {
    seq![
        ("class_declaration", "name"),
        ("extension_declaration", "name"),
        ("protocol_declaration", "name"),
        ("function_declaration", "name"),
        ("struct_declaration", "name"),
        ("enum_declaration", "name"),
    ]
}

/// The built-in Swift profile.
fn swift_profile() -> (p: Profile)
    ensures
        p.landmarks_view() == strs_view(swift_landmarks()),
        p.labels_view() == pairs_view(swift_labels()),
        p.containers_view() == pairs_view(swift_containers()),
{
    let landmarks: [&'static str; 10] = [
        "class_declaration",
        "function_declaration",
        "protocol_declaration",
        "protocol_function_declaration",
        "init_declaration",
        "deinit_declaration",
        "subscript_declaration",
        "enum_declaration",
        "enum_entry",
        "struct_declaration",
    ];
    let labels: [(&'static str, &'static str); 15] = [
        ("function_declaration", "function"),
        ("class_declaration", "class"),
        ("struct_declaration", "class"),
        ("protocol_declaration", "interface"),
        ("enum_declaration", "enum"),
        ("enum_entry", "enum"),
        ("init_declaration", "init"),
        ("deinit_declaration", "deinit"),
        ("subscript_declaration", "subscript"),
        ("if_statement", "if statement"),
        ("for_statement", "for loop"),
        ("while_statement", "while loop"),
        ("switch_statement", "match"),
        ("return_statement", "return"),
        ("call_expression", "call"),
    ];
    let containers: [(&'static str, &'static str); 6] = [
        ("class_declaration", "name"),
        ("extension_declaration", "name"),
        ("protocol_declaration", "name"),
        ("function_declaration", "name"),
        ("struct_declaration", "name"),
        ("enum_declaration", "name"),
    ];
    assert(landmarks@ == swift_landmarks());
    assert(labels@ == swift_labels());
    assert(containers@ == swift_containers());
    Profile::from_tables(&landmarks, &labels, &containers)
}

/// Landmark kinds of the built-in Rust profile.
pub open spec fn rust_landmarks() -> Seq<&'static str> {
    seq![
        "function_item",
        "struct_item",
        "enum_item",
        "trait_item",
        "impl_item",
        "type_item",
        "const_item",
        "static_item",
        "mod_item",
        "macro_definition",
    ]
}

/// Node labels of the built-in Rust profile.
pub open spec fn rust_labels() -> Seq<(&'static str, &'static str)> {
    seq![
        ("function_item", "function"),
        ("struct_item", "class"),
        ("enum_item", "enum"),
        ("enum_entry", "enum"),
        ("enum_constant", "enum"),
        ("trait_item", "interface"),
        ("impl_item", "impl"),
        ("type_item", "type"),
        ("const_item", "variable"),
        ("static_item", "variable"),
        ("mod_item", "module"),
        ("macro_definition", "macro"),
        ("if_statement", "if statement"),
        ("for_statement", "for loop"),
        ("while_statement", "while loop"),
        ("match_expression", "match"),
        ("return_statement", "return"),
        ("assignment_expression", "assignment"),
        ("call_expression", "call"),
        ("binary_expression", "expression"),
    ]
}

/// Containers of the built-in Rust profile.
pub open spec fn rust_containers() -> Seq<(&'static str, &'static str)> {
    seq![
        ("impl_item", "type"),
        ("trait_item", "name"),
        ("mod_item", "name"),
        ("function_item", "name"),
    ]
}

/// The built-in Rust profile.
fn rust_profile() -> (p: Profile)
    ensures
        p.landmarks_view() == strs_view(rust_landmarks()),
        p.labels_view() == pairs_view(rust_labels()),
        p.containers_view() == pairs_view(rust_containers()),
{
    let landmarks: [&'static str; 10] = [
        "function_item",
        "struct_item",
        "enum_item",
        "trait_item",
        "impl_item",
        "type_item",
        "const_item",
        "static_item",
        "mod_item",
        "macro_definition",
    ];
    let labels: [(&'static str, &'static str); 20] = [
        ("function_item", "function"),
        ("struct_item", "class"),
        ("enum_item", "enum"),
        ("enum_entry", "enum"),
        ("enum_constant", "enum"),
        ("trait_item", "interface"),
        ("impl_item", "impl"),
        ("type_item", "type"),
        ("const_item", "variable"),
        ("static_item", "variable"),
        ("mod_item", "module"),
        ("macro_definition", "macro"),
        ("if_statement", "if statement"),
        ("for_statement", "for loop"),
        ("while_statement", "while loop"),
        ("match_expression", "match"),
        ("return_statement", "return"),
        ("assignment_expression", "assignment"),
        ("call_expression", "call"),
        ("binary_expression", "expression"),
    ];
    let containers: [(&'static str, &'static str); 4] = [
        ("impl_item", "type"),
        ("trait_item", "name"),
        ("mod_item", "name"),
        ("function_item", "name"),
    ];
    assert(landmarks@ == rust_landmarks());
    assert(labels@ == rust_labels());
    assert(containers@ == rust_containers());
    Profile::from_tables(&landmarks, &labels, &containers)
}

/// Landmark kinds of the built-in TypeScript profile.
pub open spec fn typescript_landmarks() -> Seq<&'static str> {
    seq![
        "class_declaration",
        "interface_declaration",
        "enum_declaration",
        "method_declaration",
        "method_definition",
        "function_declaration",
        "type_alias_declaration",
        "lexical_declaration",
        "export_statement",
    ]
}

/// Node labels of the built-in TypeScript profile.
pub open spec fn typescript_labels() -> Seq<(&'static str, &'static str)> {
    seq![
        ("function_declaration", "function"),
        ("method_definition", "method"),
        ("method_declaration", "method"),
        ("constructor_declaration", "constructor"),
        ("class_declaration", "class"),
        ("interface_declaration", "interface"),
        ("enum_declaration", "enum"),
        ("type_alias_declaration", "type"),
        ("lexical_declaration", "variable"),
        ("variable_declaration", "variable"),
        ("namespace_declaration", "namespace"),
        ("if_statement", "if statement"),
        ("for_statement", "for loop"),
        ("while_statement", "while loop"),
        ("return_statement", "return"),
        ("assignment_expression", "assignment"),
        ("call_expression", "call"),
    ]
}

/// Containers of the built-in TypeScript profile.
pub open spec fn typescript_containers() -> Seq<(&'static str, &'static str)> {
    seq![
        ("namespace_declaration", "name"),
        ("class_declaration", "name"),
        ("interface_declaration", "name"),
        ("method_definition", "key"),
        ("function_declaration", "name"),
        ("type_alias_declaration", "name"),
        ("enum_declaration", "name"),
    ]
}

/// The built-in TypeScript profile.
fn typescript_profile() -> (p: Profile)
    ensures
        p.landmarks_view() == strs_view(typescript_landmarks()),
        p.labels_view() == pairs_view(typescript_labels()),
        p.containers_view() == pairs_view(typescript_containers()),
{
    let landmarks: [&'static str; 9] = [
        "class_declaration",
        "interface_declaration",
        "enum_declaration",
        "method_declaration",
        "method_definition",
        "function_declaration",
        "type_alias_declaration",
        "lexical_declaration",
        "export_statement",
    ];
    let labels: [(&'static str, &'static str); 17] = [
        ("function_declaration", "function"),
        ("method_definition", "method"),
        ("method_declaration", "method"),
        ("constructor_declaration", "constructor"),
        ("class_declaration", "class"),
        ("interface_declaration", "interface"),
        ("enum_declaration", "enum"),
        ("type_alias_declaration", "type"),
        ("lexical_declaration", "variable"),
        ("variable_declaration", "variable"),
        ("namespace_declaration", "namespace"),
        ("if_statement", "if statement"),
        ("for_statement", "for loop"),
        ("while_statement", "while loop"),
        ("return_statement", "return"),
        ("assignment_expression", "assignment"),
        ("call_expression", "call"),
    ];
    let containers: [(&'static str, &'static str); 7] = [
        ("namespace_declaration", "name"),
        ("class_declaration", "name"),
        ("interface_declaration", "name"),
        ("method_definition", "key"),
        ("function_declaration", "name"),
        ("type_alias_declaration", "name"),
        ("enum_declaration", "name"),
    ];
    assert(landmarks@ == typescript_landmarks());
    assert(labels@ == typescript_labels());
    assert(containers@ == typescript_containers());
    Profile::from_tables(&landmarks, &labels, &containers)
}

/// Landmark kinds of the built-in Python profile.
pub open spec fn python_landmarks() -> Seq<&'static str> {
    seq![
        "class_definition",
        "function_definition",
        "decorated_definition",
    ]
}

/// Node labels of the built-in Python profile.
pub open spec fn python_labels() -> Seq<(&'static str, &'static str)> {
    seq![
        ("function_definition", "function"),
        ("class_definition", "class"),
        ("if_statement", "if statement"),
        ("for_statement", "for loop"),
        ("while_statement", "while loop"),
        ("return_statement", "return"),
        ("assignment_statement", "assignment"),
        ("call", "call"),
    ]
}

/// Containers of the built-in Python profile.
pub open spec fn python_containers() -> Seq<(&'static str, &'static str)> {
    seq![
        ("class_definition", "name"),
        ("function_definition", "name"),
        ("async_function_definition", "name"),
    ]
}

/// The built-in Python profile.
fn python_profile() -> (p: Profile)
    ensures
        p.landmarks_view() == strs_view(python_landmarks()),
        p.labels_view() == pairs_view(python_labels()),
        p.containers_view() == pairs_view(python_containers()),
{
    let landmarks: [&'static str; 3] = [
        "class_definition",
        "function_definition",
        "decorated_definition",
    ];
    let labels: [(&'static str, &'static str); 8] = [
        ("function_definition", "function"),
        ("class_definition", "class"),
        ("if_statement", "if statement"),
        ("for_statement", "for loop"),
        ("while_statement", "while loop"),
        ("return_statement", "return"),
        ("assignment_statement", "assignment"),
        ("call", "call"),
    ];
    let containers: [(&'static str, &'static str); 3] = [
        ("class_definition", "name"),
        ("function_definition", "name"),
        ("async_function_definition", "name"),
    ];
    assert(landmarks@ == python_landmarks());
    assert(labels@ == python_labels());
    assert(containers@ == python_containers());
    Profile::from_tables(&landmarks, &labels, &containers)
}

/// Landmark kinds of the built-in Go profile.
pub open spec fn go_landmarks() -> Seq<&'static str> {
    seq![
        "type_declaration",
        "type_spec",
        "var_declaration",
        "function_declaration",
        "method_declaration",
    ]
}

/// Node labels of the built-in Go profile.
pub open spec fn go_labels() -> Seq<(&'static str, &'static str)> {
    seq![
        ("function_declaration", "function"),
        ("method_declaration", "method"),
        ("type_declaration", "type"),
        ("type_spec", "type"),
        ("var_declaration", "variable"),
        ("if_statement", "if statement"),
        ("for_statement", "for loop"),
        ("return_statement", "return"),
        ("call_expression", "call"),
    ]
}

/// Containers of the built-in Go profile.
pub open spec fn go_containers() -> Seq<(&'static str, &'static str)> {
    seq![
        ("type_declaration", "type"),
        ("function_declaration", "name"),
        ("method_declaration", "name"),
    ]
}

/// The built-in Go profile.
fn go_profile() -> (p: Profile)
    ensures
        p.landmarks_view() == strs_view(go_landmarks()),
        p.labels_view() == pairs_view(go_labels()),
        p.containers_view() == pairs_view(go_containers()),
{
    let landmarks: [&'static str; 5] = [
        "type_declaration",
        "type_spec",
        "var_declaration",
        "function_declaration",
        "method_declaration",
    ];
    let labels: [(&'static str, &'static str); 9] = [
        ("function_declaration", "function"),
        ("method_declaration", "method"),
        ("type_declaration", "type"),
        ("type_spec", "type"),
        ("var_declaration", "variable"),
        ("if_statement", "if statement"),
        ("for_statement", "for loop"),
        ("return_statement", "return"),
        ("call_expression", "call"),
    ];
    let containers: [(&'static str, &'static str); 3] = [
        ("type_declaration", "type"),
        ("function_declaration", "name"),
        ("method_declaration", "name"),
    ];
    assert(landmarks@ == go_landmarks());
    assert(labels@ == go_labels());
    assert(containers@ == go_containers());
    Profile::from_tables(&landmarks, &labels, &containers)
}

/// Landmark kinds of the built-in Java profile.
pub open spec fn java_landmarks() -> Seq<&'static str> {
    seq![
        "class_declaration",
        "interface_declaration",
        "enum_declaration",
        "method_declaration",
        "constructor_declaration",
        "property_declaration",
    ]
}

/// Node labels of the built-in Java profile.
pub open spec fn java_labels() -> Seq<(&'static str, &'static str)> {
    seq![
        ("method_declaration", "method"),
        ("constructor_declaration", "constructor"),
        ("class_declaration", "class"),
        ("interface_declaration", "interface"),
        ("enum_declaration", "enum"),
        ("property_declaration", "variable"),
        ("if_statement", "if statement"),
        ("for_statement", "for loop"),
        ("while_statement", "while loop"),
        ("return_statement", "return"),
        ("call_expression", "call"),
    ]
}

/// Containers of the built-in Java profile.
pub open spec fn java_containers() -> Seq<(&'static str, &'static str)> {
    seq![
        ("class_declaration", "name"),
        ("interface_declaration", "name"),
        ("enum_declaration", "name"),
        ("method_declaration", "name"),
    ]
}

/// The built-in Java profile.
fn java_profile() -> (p: Profile)
    ensures
        p.landmarks_view() == strs_view(java_landmarks()),
        p.labels_view() == pairs_view(java_labels()),
        p.containers_view() == pairs_view(java_containers()),
{
    let landmarks: [&'static str; 6] = [
        "class_declaration",
        "interface_declaration",
        "enum_declaration",
        "method_declaration",
        "constructor_declaration",
        "property_declaration",
    ];
    let labels: [(&'static str, &'static str); 11] = [
        ("method_declaration", "method"),
        ("constructor_declaration", "constructor"),
        ("class_declaration", "class"),
        ("interface_declaration", "interface"),
        ("enum_declaration", "enum"),
        ("property_declaration", "variable"),
        ("if_statement", "if statement"),
        ("for_statement", "for loop"),
        ("while_statement", "while loop"),
        ("return_statement", "return"),
        ("call_expression", "call"),
    ];
    let containers: [(&'static str, &'static str); 4] = [
        ("class_declaration", "name"),
        ("interface_declaration", "name"),
        ("enum_declaration", "name"),
        ("method_declaration", "name"),
    ];
    assert(landmarks@ == java_landmarks());
    assert(labels@ == java_labels());
    assert(containers@ == java_containers());
    Profile::from_tables(&landmarks, &labels, &containers)
}

/// Landmark kinds of the built-in CSharp profile.
pub open spec fn csharp_landmarks() -> Seq<&'static str> {
    seq![
        "class_declaration",
        "interface_declaration",
        "struct_declaration",
        "enum_declaration",
        "method_declaration",
        "constructor_declaration",
        "namespace_declaration",
        "record_declaration",
        "property_declaration",
        "method_elem",
    ]
}

/// Node labels of the built-in CSharp profile.
pub open spec fn csharp_labels() -> Seq<(&'static str, &'static str)> {
    seq![
        ("method_declaration", "method"),
        ("constructor_declaration", "constructor"),
        ("class_declaration", "class"),
        ("struct_declaration", "class"),
        ("interface_declaration", "interface"),
        ("enum_declaration", "enum"),
        ("namespace_declaration", "namespace"),
        ("property_declaration", "variable"),
        ("if_statement", "if statement"),
        ("for_statement", "for loop"),
        ("while_statement", "while loop"),
        ("switch_statement", "match"),
        ("return_statement", "return"),
        ("call_expression", "call"),
    ]
}

/// Containers of the built-in CSharp profile.
pub open spec fn csharp_containers() -> Seq<(&'static str, &'static str)> {
    seq![
        ("class_declaration", "name"),
        ("interface_declaration", "name"),
        ("struct_declaration", "name"),
        ("enum_declaration", "name"),
        ("method_declaration", "name"),
        ("namespace_declaration", "name"),
    ]
}

/// The built-in CSharp profile.
fn csharp_profile() -> (p: Profile)
    ensures
        p.landmarks_view() == strs_view(csharp_landmarks()),
        p.labels_view() == pairs_view(csharp_labels()),
        p.containers_view() == pairs_view(csharp_containers()),
{
    let landmarks: [&'static str; 10] = [
        "class_declaration",
        "interface_declaration",
        "struct_declaration",
        "enum_declaration",
        "method_declaration",
        "constructor_declaration",
        "namespace_declaration",
        "record_declaration",
        "property_declaration",
        "method_elem",
    ];
    let labels: [(&'static str, &'static str); 14] = [
        ("method_declaration", "method"),
        ("constructor_declaration", "constructor"),
        ("class_declaration", "class"),
        ("struct_declaration", "class"),
        ("interface_declaration", "interface"),
        ("enum_declaration", "enum"),
        ("namespace_declaration", "namespace"),
        ("property_declaration", "variable"),
        ("if_statement", "if statement"),
        ("for_statement", "for loop"),
        ("while_statement", "while loop"),
        ("switch_statement", "match"),
        ("return_statement", "return"),
        ("call_expression", "call"),
    ];
    let containers: [(&'static str, &'static str); 6] = [
        ("class_declaration", "name"),
        ("interface_declaration", "name"),
        ("struct_declaration", "name"),
        ("enum_declaration", "name"),
        ("method_declaration", "name"),
        ("namespace_declaration", "name"),
    ];
    assert(landmarks@ == csharp_landmarks());
    assert(labels@ == csharp_labels());
    assert(containers@ == csharp_containers());
    Profile::from_tables(&landmarks, &labels, &containers)
}

/// Landmark kinds of the built-in Dart profile.
pub open spec fn dart_landmarks() -> Seq<&'static str> {
    seq![
        "class_definition",
        "mixin_definition",
        "extension_definition",
        "enum_definition",
        "function_signature",
        "method_declaration",
        "initialized_identifier",
        "enum_constant",
    ]
}

/// Node labels of the built-in Dart profile.
pub open spec fn dart_labels() -> Seq<(&'static str, &'static str)> {
    seq![
        ("function_signature", "function"),
        ("method_declaration", "method"),
        ("class_definition", "class"),
        ("mixin_definition", "class"),
        ("extension_definition", "class"),
        ("enum_definition", "enum"),
        ("enum_constant", "enum"),
        ("if_statement", "if statement"),
        ("for_statement", "for loop"),
        ("while_statement", "while loop"),
        ("return_statement", "return"),
        ("call_expression", "call"),
    ]
}

/// Containers of the built-in Dart profile.
pub open spec fn dart_containers() -> Seq<(&'static str, &'static str)> {
    seq![
        ("class_definition", "name"),
        ("mixin_definition", "name"),
        ("extension_definition", "name"),
        ("enum_definition", "name"),
        ("function_signature", "name"),
        ("method_declaration", "name"),
    ]
}

/// The built-in Dart profile.
fn dart_profile() -> (p: Profile)
    ensures
        p.landmarks_view() == strs_view(dart_landmarks()),
        p.labels_view() == pairs_view(dart_labels()),
        p.containers_view() == pairs_view(dart_containers()),
{
    let landmarks: [&'static str; 8] = [
        "class_definition",
        "mixin_definition",
        "extension_definition",
        "enum_definition",
        "function_signature",
        "method_declaration",
        "initialized_identifier",
        "enum_constant",
    ];
    let labels: [(&'static str, &'static str); 12] = [
        ("function_signature", "function"),
        ("method_declaration", "method"),
        ("class_definition", "class"),
        ("mixin_definition", "class"),
        ("extension_definition", "class"),
        ("enum_definition", "enum"),
        ("enum_constant", "enum"),
        ("if_statement", "if statement"),
        ("for_statement", "for loop"),
        ("while_statement", "while loop"),
        ("return_statement", "return"),
        ("call_expression", "call"),
    ];
    let containers: [(&'static str, &'static str); 6] = [
        ("class_definition", "name"),
        ("mixin_definition", "name"),
        ("extension_definition", "name"),
        ("enum_definition", "name"),
        ("function_signature", "name"),
        ("method_declaration", "name"),
    ];
    assert(landmarks@ == dart_landmarks());
    assert(labels@ == dart_labels());
    assert(containers@ == dart_containers());
    Profile::from_tables(&landmarks, &labels, &containers)
}

impl Language {
    /// The node labels of this language's profile.
    pub open spec fn labels_spec(&self) -> Seq<(Seq<char>, Seq<char>)> {
        match self {
            Language::Swift => pairs_view(swift_labels()),
            Language::Rust => pairs_view(rust_labels()),
            Language::TypeScript => pairs_view(typescript_labels()),
            Language::Python => pairs_view(python_labels()),
            Language::Go => pairs_view(go_labels()),
            Language::Java => pairs_view(java_labels()),
            Language::CSharp => pairs_view(csharp_labels()),
            Language::Dart => pairs_view(dart_labels()),
            Language::Dynamic(dl) => dl.profile.labels_view(),
        }
    }

    /// A profile of this language has its labels.
    pub proof fn lemma_profile_labels(&self, p: Profile)
        requires
            self.is_profile(p),
        ensures
            p.labels_view() == self.labels_spec(),
    {
    }

    /// Whether `p` is this language's profile: the built-in tables for a
    /// built-in language, the manifest's profile for a dynamic one.
    pub open spec fn is_profile(&self, p: Profile) -> bool {
        match self {
            Language::Swift => p.landmarks_view() == strs_view(swift_landmarks()) && p.labels_view()
                == pairs_view(swift_labels()) && p.containers_view() == pairs_view(swift_containers()),
            Language::Rust => p.landmarks_view() == strs_view(rust_landmarks()) && p.labels_view()
                == pairs_view(rust_labels()) && p.containers_view() == pairs_view(rust_containers()),
            Language::TypeScript => p.landmarks_view() == strs_view(typescript_landmarks()) && p.labels_view()
                == pairs_view(typescript_labels()) && p.containers_view() == pairs_view(typescript_containers()),
            Language::Python => p.landmarks_view() == strs_view(python_landmarks()) && p.labels_view()
                == pairs_view(python_labels()) && p.containers_view() == pairs_view(python_containers()),
            Language::Go => p.landmarks_view() == strs_view(go_landmarks()) && p.labels_view()
                == pairs_view(go_labels()) && p.containers_view() == pairs_view(go_containers()),
            Language::Java => p.landmarks_view() == strs_view(java_landmarks()) && p.labels_view()
                == pairs_view(java_labels()) && p.containers_view() == pairs_view(java_containers()),
            Language::CSharp => p.landmarks_view() == strs_view(csharp_landmarks()) && p.labels_view()
                == pairs_view(csharp_labels()) && p.containers_view() == pairs_view(csharp_containers()),
            Language::Dart => p.landmarks_view() == strs_view(dart_landmarks()) && p.labels_view()
                == pairs_view(dart_labels()) && p.containers_view() == pairs_view(dart_containers()),
            Language::Dynamic(dl) => p.landmarks_view() == dl.profile.landmarks_view()
                && p.labels_view() == dl.profile.labels_view() && p.containers_view()
                == dl.profile.containers_view(),
        }
    }

    /// The structural [`Profile`] for this language.
    pub fn profile(&self) -> (p: Profile)
        ensures
            self.is_profile(p),
    {
        match self {
            Language::Swift => swift_profile(),
            Language::Rust => rust_profile(),
            Language::TypeScript => typescript_profile(),
            Language::Python => python_profile(),
            Language::Go => go_profile(),
            Language::Java => java_profile(),
            Language::CSharp => csharp_profile(),
            Language::Dart => dart_profile(),
            Language::Dynamic(dl) => dl.profile.duplicate(),
        }
    }
}

/// A profile's labels form a map: with no node type labelled twice, a
/// node type's label is the one its entry gives, and only a listed node
/// type has one.
pub proof fn lemma_label_is_its_entry(p: Profile, node_type: Seq<char>, label: Seq<char>)
    requires
        p.wf(),
    ensures
        p.label_of(node_type) == Some(label) <==> exists|i: int|
            0 <= i < p.labels_view().len() && #[trigger] p.labels_view()[i] == (node_type, label),
{
    lemma_lookup_entry(p.labels_view(), node_type, label);
}

/// [`table_lookup`] in a table whose keys are distinct finds the entry of
/// its key.
proof fn lemma_lookup_entry(t: Seq<(Seq<char>, Seq<char>)>, k: Seq<char>, v: Seq<char>)
    requires
        forall|i: int, j: int| 0 <= i < j < t.len() ==> #[trigger] t[i].0 != #[trigger] t[j].0,
    ensures
        table_lookup(t, k) == Some(v) <==> exists|i: int| 0 <= i < t.len() && #[trigger] t[i] == (k, v),
    decreases t.len(),
{
    if t.len() > 0 {
        let rest = t.drop_first();
        assert forall|i: int, j: int| 0 <= i < j < rest.len() implies #[trigger] rest[i].0 != #[trigger] rest[j].0 by {
            assert(rest[i] == t[i + 1] && rest[j] == t[j + 1]);
        }
        lemma_lookup_entry(rest, k, v);
        if t[0].0 == k {
            if exists|i: int| 0 <= i < t.len() && #[trigger] t[i] == (k, v) {
                let i = choose|i: int| 0 <= i < t.len() && #[trigger] t[i] == (k, v);
                if i > 0 {
                    assert(t[0].0 != t[i].0);
                }
            }
        } else {
            if exists|i: int| 0 <= i < t.len() && #[trigger] t[i] == (k, v) {
                let i = choose|i: int| 0 <= i < t.len() && #[trigger] t[i] == (k, v);
                assert(i > 0);
                assert(rest[i - 1] == t[i]);
            }
            if exists|i: int| 0 <= i < rest.len() && #[trigger] rest[i] == (k, v) {
                let i = choose|i: int| 0 <= i < rest.len() && #[trigger] rest[i] == (k, v);
                assert(t[i + 1] == rest[i]);
            }
        }
    }
}

/// The kinds of a profile's containers.
pub open spec fn container_kinds(p: Profile) -> Seq<Seq<char>> {
    p.containers_view().map_values(|c: (Seq<char>, Seq<char>)| c.0)
}

/// A language's profile names as containers exactly the node kinds of its
/// breadcrumb whitelist.
pub proof fn lemma_containers_are_whitelist(l: Language, p: Profile)
    requires
        l.is_profile(p),
    ensures
        container_kinds(p).to_set() == whitelist_spec(l).to_set(),
{
    let ck = container_kinds(p);
    let wl = whitelist_spec(l);
    assert forall|k: Seq<char>| ck.contains(k) implies wl.contains(k) by {
        let i = choose|i: int| 0 <= i < ck.len() && ck[i] == k;
        lemma_container_in_whitelist(l, p, i);
    }
    assert forall|k: Seq<char>| wl.contains(k) implies ck.contains(k) by {
        let i = choose|i: int| 0 <= i < wl.len() && wl[i] == k;
        lemma_whitelist_in_containers(l, p, i);
    }
    assert(ck.to_set() =~= wl.to_set());
}

proof fn lemma_container_in_whitelist(l: Language, p: Profile, i: int)
    requires
        l.is_profile(p),
        0 <= i < container_kinds(p).len(),
    ensures
        whitelist_spec(l).contains(container_kinds(p)[i]),
{
    let ck = container_kinds(p);
    let wl = whitelist_spec(l);
    assert(ck[i] == p.containers_view()[i].0);
    if !(l is Dynamic) {
        assert(exists|j: int| 0 <= j < wl.len() && wl[j] == ck[i]) by {
            let c = p.containers_view();
            if ck.len() > 0 { assert(wl.contains(c[0].0)); }
            if ck.len() > 1 { assert(wl.contains(c[1].0)); }
            if ck.len() > 2 { assert(wl.contains(c[2].0)); }
            if ck.len() > 3 { assert(wl.contains(c[3].0)); }
            if ck.len() > 4 { assert(wl.contains(c[4].0)); }
            if ck.len() > 5 { assert(wl.contains(c[5].0)); }
            if ck.len() > 6 { assert(wl.contains(c[6].0)); }
        }
    } else {
        assert(wl[i] == ck[i]);
    }
}

proof fn lemma_whitelist_in_containers(l: Language, p: Profile, i: int)
    requires
        l.is_profile(p),
        0 <= i < whitelist_spec(l).len(),
    ensures
        container_kinds(p).contains(whitelist_spec(l)[i]),
{
    let ck = container_kinds(p);
    let wl = whitelist_spec(l);
    if !(l is Dynamic) {
        let c = p.containers_view();
        assert(ck.len() == c.len());
        assert(forall|m: int| 0 <= m < ck.len() ==> ck[m] == c[m].0);
        if ck.len() > 0 { assert(ck[0] == c[0].0); }
        if ck.len() > 1 { assert(ck[1] == c[1].0); }
        if ck.len() > 2 { assert(ck[2] == c[2].0); }
        if ck.len() > 3 { assert(ck[3] == c[3].0); }
        if ck.len() > 4 { assert(ck[4] == c[4].0); }
        if ck.len() > 5 { assert(ck[5] == c[5].0); }
        if ck.len() > 6 { assert(ck[6] == c[6].0); }
        if wl.len() > 0 { assert(ck.contains(wl[0])); }
        if wl.len() > 1 { assert(ck.contains(wl[1])); }
        if wl.len() > 2 { assert(ck.contains(wl[2])); }
        if wl.len() > 3 { assert(ck.contains(wl[3])); }
        if wl.len() > 4 { assert(ck.contains(wl[4])); }
        if wl.len() > 5 { assert(ck.contains(wl[5])); }
        if wl.len() > 6 { assert(ck.contains(wl[6])); }
    } else {
        assert(ck[i] == wl[i]);
    }
}

} // verus!
