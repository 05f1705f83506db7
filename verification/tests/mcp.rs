use agentsdk::json::Json;
use agentsdk::mcp::McpPlugin;

fn listed(names: &[&str]) -> Vec<(String, Option<String>, Json)> {
    names.iter().map(|n| (n.to_string(), Some(format!("{n} tool")), Json::Object(vec![]))).collect()
}

#[test]
fn tools_are_scoped_and_sorted_by_name() {
    let mut p = McpPlugin::new();
    p.register("web".into(), listed(&["search", "fetch"]));
    p.register("db".into(), vec![("query".into(), None, Json::Null)]);
    let names: Vec<String> = p.tools().into_iter().map(|t| t.name).collect();
    assert_eq!(names, vec!["db__query", "web__fetch", "web__search"]);
    let descs: Vec<String> = p.tools().into_iter().map(|t| t.description).collect();
    assert_eq!(descs, vec!["", "fetch tool", "search tool"]);
    assert_eq!(p.name(), "mcp");
}

#[test]
fn calls_are_routed_to_their_server() {
    let mut p = McpPlugin::new();
    p.register("web".into(), listed(&["search"]));
    p.register("db".into(), listed(&["query"]));
    assert_eq!(p.route("db__query"), Ok((1, "query".to_string())));
    assert_eq!(p.route("web__search"), Ok((0, "search".to_string())));
    assert_eq!(p.route("nope"), Err("Tool nope not found in McpPlugin".to_string()));
}
