//! Maps tree-sitter node types to human-readable labels for query summaries.
//!
//! Classification consults the per-language [`Profile`] first, then falls back
//! to a global default table for node types the profile doesn't cover.

use vstd::prelude::*;

use crate::parser::profile::Profile;
use crate::text::{chars_of, lookup_pair, pairs_view, string_of, table_lookup};

verus! {

/// The global default labels: node type to label.
pub open spec fn global_label_pairs() -> Seq<(&'static str, &'static str)> {
    seq![
        ("function_declaration", "function"),
        ("function_item", "function"),
        ("function_definition", "function"),
        ("method_definition", "method"),
        ("method_declaration", "method"),
        ("constructor_declaration", "constructor"),
        ("class_declaration", "class"),
        ("struct_declaration", "class"),
        ("struct_item", "class"),
        ("interface_declaration", "interface"),
        ("protocol_declaration", "interface"),
        ("trait_item", "interface"),
        ("impl_item", "impl"),
        ("enum_declaration", "enum"),
        ("enum_item", "enum"),
        ("enum_entry", "enum"),
        ("enum_constant", "enum"),
        ("type_declaration", "type"),
        ("type_alias_declaration", "type"),
        ("type_spec", "type"),
        ("type_item", "type"),
        ("mod_item", "module"),
        ("module", "module"),
        ("namespace_declaration", "namespace"),
        ("variable_declaration", "variable"),
        ("lexical_declaration", "variable"),
        ("property_declaration", "variable"),
        ("const_item", "variable"),
        ("static_item", "variable"),
        ("var_declaration", "variable"),
        ("macro_definition", "macro"),
        ("subscript_declaration", "subscript"),
        ("init_declaration", "init"),
        ("deinit_declaration", "deinit"),
        ("if_statement", "if statement"),
        ("if_expression", "if statement"),
        ("for_statement", "for loop"),
        ("for", "for loop"),
        ("for_expression", "for loop"),
        ("while_statement", "while loop"),
        ("while", "while loop"),
        ("while_expression", "while loop"),
        ("match_statement", "match"),
        ("match_expression", "match"),
        ("switch_statement", "match"),
        ("return_statement", "return"),
        ("assignment_expression", "assignment"),
        ("assignment_statement", "assignment"),
        ("call_expression", "call"),
        ("binary_expression", "expression"),
    ]
}

/// The global default label of a node type.
pub open spec fn global_label_spec(node_type: Seq<char>) -> Option<Seq<char>> {
    table_lookup(pairs_view(global_label_pairs()), node_type)
}

/// The label of a node type: the profile's label when it has one, else the
/// global default.
pub open spec fn classify_spec(node_type: Seq<char>, profile: Option<Profile>) -> Option<Seq<char>> {
    match profile {
        Some(p) => match p.label_of(node_type) {
            Some(l) => Some(l),
            None => global_label_spec(node_type),
        },
        None => global_label_spec(node_type),
    }
}

/// The icons of the labels that have one: label to Nerd Font glyph.
pub open spec fn icon_pairs() -> Seq<(&'static str, &'static str)> {
    seq![
        ("function", "\u{ea8c}"),
        ("method", "\u{ea8c}"),
        ("constructor", "\u{ea8c}"),
        ("class", "\u{eb5b}"),
        ("struct", "\u{eb5b}"),
        ("impl", "\u{eb5b}"),
        ("interface", "\u{eb61}"),
        ("protocol", "\u{eb61}"),
        ("trait", "\u{eb61}"),
        ("enum", "\u{ea95}"),
        ("module", "\u{ea8b}"),
        ("namespace", "\u{ea8b}"),
        ("variable", "\u{ea88}"),
        ("property", "\u{ea88}"),
        ("constant", "\u{ea88}"),
        ("type", "\u{ebba}"),
        ("macro", "\u{eb5d}"),
        ("if statement", ""),
        ("match", ""),
        ("for loop", ""),
        ("while loop", ""),
        ("call", ""),
    ]
}

/// The icon of a label; the empty text for a label with none.
pub open spec fn icon_spec(label: Seq<char>) -> Seq<char> {
    match table_lookup(pairs_view(icon_pairs()), label) {
        Some(i) => i,
        None => ""@,
    }
}

/// Classify a node type using the language profile first, then falling back to
/// a global default table for node types not covered by the profile.
pub fn classify_node_type(node_type: &str, profile: Option<&Profile>) -> (r: Option<String>)
    ensures
        r matches Some(l) ==> classify_spec(node_type@, match profile {
            Some(p) => Some(*p),
            None => None,
        }) == Some(l@),
        r is None <==> classify_spec(node_type@, match profile {
            Some(p) => Some(*p),
            None => None,
        }) is None,
{
    let k = chars_of(node_type);
    match profile {
        Some(p) => match p.node_label(&k) {
            Some(label) => {
                return Some(label.clone());
            },
            None => {},
        },
        None => {},
    }
    match classify_node_type_global(node_type) {
        Some(s) => Some(s.to_owned()),
        None => None,
    }
}

/// The global default label of a node type, used when the per-language
/// profile doesn't have an entry.
pub fn classify_node_type_global(node_type: &str) -> (r: Option<&'static str>)
    ensures
        r matches Some(l) ==> global_label_spec(node_type@) == Some(l@),
        r is None <==> global_label_spec(node_type@) is None,
{
    let table: [(&'static str, &'static str); 50] = [
        ("function_declaration", "function"),
        ("function_item", "function"),
        ("function_definition", "function"),
        ("method_definition", "method"),
        ("method_declaration", "method"),
        ("constructor_declaration", "constructor"),
        ("class_declaration", "class"),
        ("struct_declaration", "class"),
        ("struct_item", "class"),
        ("interface_declaration", "interface"),
        ("protocol_declaration", "interface"),
        ("trait_item", "interface"),
        ("impl_item", "impl"),
        ("enum_declaration", "enum"),
        ("enum_item", "enum"),
        ("enum_entry", "enum"),
        ("enum_constant", "enum"),
        ("type_declaration", "type"),
        ("type_alias_declaration", "type"),
        ("type_spec", "type"),
        ("type_item", "type"),
        ("mod_item", "module"),
        ("module", "module"),
        ("namespace_declaration", "namespace"),
        ("variable_declaration", "variable"),
        ("lexical_declaration", "variable"),
        ("property_declaration", "variable"),
        ("const_item", "variable"),
        ("static_item", "variable"),
        ("var_declaration", "variable"),
        ("macro_definition", "macro"),
        ("subscript_declaration", "subscript"),
        ("init_declaration", "init"),
        ("deinit_declaration", "deinit"),
        ("if_statement", "if statement"),
        ("if_expression", "if statement"),
        ("for_statement", "for loop"),
        ("for", "for loop"),
        ("for_expression", "for loop"),
        ("while_statement", "while loop"),
        ("while", "while loop"),
        ("while_expression", "while loop"),
        ("match_statement", "match"),
        ("match_expression", "match"),
        ("switch_statement", "match"),
        ("return_statement", "return"),
        ("assignment_expression", "assignment"),
        ("assignment_statement", "assignment"),
        ("call_expression", "call"),
        ("binary_expression", "expression"),
    ];
    assert(table@ == global_label_pairs());
    let k = chars_of(node_type);
    lookup_pair(&table, &k)
}

/// Returns a Nerd Font icon for a given node label.
pub fn get_node_icon(label: &str) -> (r: &'static str)
    ensures
        r@ == icon_spec(label@),
{
    let table: [(&'static str, &'static str); 22] = [
        ("function", "\u{ea8c}"),
        ("method", "\u{ea8c}"),
        ("constructor", "\u{ea8c}"),
        ("class", "\u{eb5b}"),
        ("struct", "\u{eb5b}"),
        ("impl", "\u{eb5b}"),
        ("interface", "\u{eb61}"),
        ("protocol", "\u{eb61}"),
        ("trait", "\u{eb61}"),
        ("enum", "\u{ea95}"),
        ("module", "\u{ea8b}"),
        ("namespace", "\u{ea8b}"),
        ("variable", "\u{ea88}"),
        ("property", "\u{ea88}"),
        ("constant", "\u{ea88}"),
        ("type", "\u{ebba}"),
        ("macro", "\u{eb5d}"),
        ("if statement", ""),
        ("match", ""),
        ("for loop", ""),
        ("while loop", ""),
        ("call", ""),
    ];
    assert(table@ == icon_pairs());
    let k = chars_of(label);
    match lookup_pair(&table, &k) {
        Some(i) => i,
        None => "",
    }
}

} // verus!
