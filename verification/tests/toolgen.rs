use agentsdk::toolgen::{
    is_tool_context_path, is_tool_context_type, plugin_tool_name, tool_description, tool_name, tool_parameters,
    variant_description, variant_for_call,
};

fn strings(v: &[&str]) -> Vec<String> {
    v.iter().map(|s| s.to_string()).collect()
}

#[test]
fn test_macro_description() {
    assert_eq!(tool_name("test_tool", None), "test_tool");
    let docs = strings(&[" This is a test tool.", " It has multiple lines."]);
    assert_eq!(tool_description(None, &docs), "This is a test tool.\nIt has multiple lines.");
    assert_eq!(tool_description(Some("overridden description"), &vec![]), "overridden description");
}

#[test]
fn test_macro_parameters() {
    assert_eq!(tool_name("complex_tool", None), "complex_tool");
    let context = strings(&["agentsdk", "core", "tools", "ToolContext"]);
    assert!(is_tool_context_type(&context, false));
    let params = vec![("name".to_string(), false), ("age".to_string(), false), ("context".to_string(), true)];
    assert_eq!(tool_parameters(&params), Ok(strings(&["name", "age"])));
}

#[test]
fn only_the_known_context_paths_count() {
    assert!(is_tool_context_path(&strings(&["ToolContext"])));
    assert!(is_tool_context_path(&strings(&["tools", "ToolContext"])));
    assert!(is_tool_context_path(&strings(&["core", "tools", "ToolContext"])));
    assert!(!is_tool_context_path(&strings(&["other", "ToolContext"])));
    assert!(!is_tool_context_path(&strings(&[])));
    assert!(!is_tool_context_type(&strings(&["ToolContext"]), true));
}

#[test]
fn two_context_parameters_are_refused() {
    let params = vec![("a".to_string(), true), ("b".to_string(), true)];
    assert_eq!(tool_parameters(&params), Err("only one ToolContext parameter is supported".to_string()));
}

#[test]
fn enum_tools_are_named_described_and_dispatched() {
    assert_eq!(plugin_tool_name("Replace", Some("Edit")), "Edit");
    assert_eq!(plugin_tool_name("Read", None), "Read");
    let docs = strings(&[" Surgical search and replace.  ", "  Fails if missing."]);
    assert_eq!(variant_description(&docs), "Surgical search and replace.\nFails if missing.");
    let names = strings(&["Read", "Write", "Edit"]);
    assert_eq!(variant_for_call(&names, "Edit"), Ok(2));
    assert_eq!(variant_for_call(&names, "Delete"), Err("Unknown tool: Delete".to_string()));
}
