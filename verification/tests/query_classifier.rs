use codemark::query::classifier::classify_node_type;

#[test]
fn test_function_classifications() {
    assert_eq!(classify_node_type("function_item", None), Some("function".into()));
    assert_eq!(classify_node_type("function_declaration", None), Some("function".into()));
    assert_eq!(classify_node_type("function_definition", None), Some("function".into()));
    assert_eq!(classify_node_type("method_definition", None), Some("method".into()));
    assert_eq!(classify_node_type("method_declaration", None), Some("method".into()));
    assert_eq!(classify_node_type("constructor_declaration", None), Some("constructor".into()));
}

#[test]
fn test_class_classifications() {
    assert_eq!(classify_node_type("class_declaration", None), Some("class".into()));
    assert_eq!(classify_node_type("struct_declaration", None), Some("class".into()));
    assert_eq!(classify_node_type("struct_item", None), Some("class".into()));
    assert_eq!(classify_node_type("interface_declaration", None), Some("interface".into()));
    assert_eq!(classify_node_type("protocol_declaration", None), Some("interface".into()));
    assert_eq!(classify_node_type("trait_item", None), Some("interface".into()));
    assert_eq!(classify_node_type("impl_item", None), Some("impl".into()));
}

#[test]
fn test_enum_classifications() {
    assert_eq!(classify_node_type("enum_declaration", None), Some("enum".into()));
    assert_eq!(classify_node_type("enum_item", None), Some("enum".into()));
    assert_eq!(classify_node_type("enum_entry", None), Some("enum".into()));
    assert_eq!(classify_node_type("enum_constant", None), Some("enum".into()));
}

#[test]
fn test_type_classifications() {
    assert_eq!(classify_node_type("type_declaration", None), Some("type".into()));
    assert_eq!(classify_node_type("type_alias_declaration", None), Some("type".into()));
    assert_eq!(classify_node_type("type_spec", None), Some("type".into()));
    assert_eq!(classify_node_type("type_item", None), Some("type".into()));
}

#[test]
fn test_variable_classifications() {
    assert_eq!(classify_node_type("variable_declaration", None), Some("variable".into()));
    assert_eq!(classify_node_type("lexical_declaration", None), Some("variable".into()));
    assert_eq!(classify_node_type("property_declaration", None), Some("variable".into()));
    assert_eq!(classify_node_type("const_item", None), Some("variable".into()));
    assert_eq!(classify_node_type("static_item", None), Some("variable".into()));
    assert_eq!(classify_node_type("var_declaration", None), Some("variable".into()));
}

#[test]
fn test_module_classifications() {
    assert_eq!(classify_node_type("mod_item", None), Some("module".into()));
    assert_eq!(classify_node_type("namespace_declaration", None), Some("namespace".into()));
}

#[test]
fn test_statement_classifications() {
    assert_eq!(classify_node_type("if_statement", None), Some("if statement".into()));
    assert_eq!(classify_node_type("if_expression", None), Some("if statement".into()));
    assert_eq!(classify_node_type("for_statement", None), Some("for loop".into()));
    assert_eq!(classify_node_type("while_statement", None), Some("while loop".into()));
    assert_eq!(classify_node_type("match_statement", None), Some("match".into()));
    assert_eq!(classify_node_type("switch_statement", None), Some("match".into()));
    assert_eq!(classify_node_type("return_statement", None), Some("return".into()));
    assert_eq!(classify_node_type("assignment_expression", None), Some("assignment".into()));
}

#[test]
fn test_unknown_node_types() {
    assert_eq!(classify_node_type("identifier", None), None);
    assert_eq!(classify_node_type("string_literal", None), None);
    assert_eq!(classify_node_type("comment", None), None);
    assert_eq!(classify_node_type("unknown_type", None), None);
}
