use agentsdk::agent::{
    arguments_or_text, correction_message, max_iterations, merge_system_prompts, merge_tool_results,
    register_plugin_tools, tool_arguments, tool_not_found,
};
use agentsdk::hooks::{result_to_text, PostToolAction, ToolErrorAction};
use agentsdk::messages::{assistant_call_text, tool, ToolCall, ToolFunction};
use agentsdk::json::Json;
use agentsdk::messages::Message;
use agentsdk::tools::ToolDefinition;

fn def(name: &str, desc: &str) -> ToolDefinition {
    ToolDefinition::new(name.to_string(), desc.to_string(), Json::Object(vec![]))
}

#[test]
fn test_plugin_tools_registered() {
    let (defs, routes) = register_plugin_tools(None, vec![vec![def("query", "Search for documents")]]);
    assert!(routes.contains_key("query"));
    assert_eq!(*routes.get("query").unwrap_or(&999), 0);
    let defs = defs.expect("tool definitions");
    assert_eq!(defs.len(), 1);
    assert_eq!(defs.first().map(|d| d.name.as_str()), Some("query"));
}

#[test]
fn test_multiple_plugins_unique_tools() {
    let (defs, routes) = register_plugin_tools(
        None,
        vec![vec![def("query", "Search for documents")], vec![def("db_query", "Query the database")]],
    );
    assert!(routes.contains_key("query"));
    assert!(routes.contains_key("db_query"));
    assert_eq!(*routes.get("query").unwrap_or(&999), 0);
    assert_eq!(*routes.get("db_query").unwrap_or(&999), 1);
    assert_eq!(defs.expect("tool definitions").len(), 2);
}

#[test]
fn configured_tools_come_before_plugin_tools() {
    let (defs, routes) = register_plugin_tools(Some(vec![def("static", "")]), vec![vec![], vec![def("p", "")]]);
    let names: Vec<String> = defs.unwrap().into_iter().map(|d| d.name).collect();
    assert_eq!(names, vec!["static", "p"]);
    assert!(!routes.contains_key("static"));
    assert_eq!(*routes.get("p").unwrap(), 1);
}

#[test]
fn no_plugin_tools_keeps_definitions_absent() {
    let (defs, routes) = register_plugin_tools(None, vec![vec![]]);
    assert!(defs.is_none());
    assert!(routes.is_empty());
}

#[test]
fn iterations_default_to_twenty_five_or_the_configured_limit() {
    assert_eq!(max_iterations(None), 25);
    assert_eq!(max_iterations(Some(3)), 3);
}

#[test]
fn system_prompts_are_merged_in_plugin_order() {
    let merged = merge_system_prompts(vec![Some("a".into()), None, Some("b".into())]);
    assert_eq!(merged.as_deref(), Some("a\n\nb"));
    assert_eq!(merge_system_prompts(vec![None, None]), None);
}

#[test]
fn rejection_becomes_a_correction_message() {
    match correction_message("too short") {
        Message::UserMessage(u) => {
            assert_eq!(
                u.content.as_deref(),
                Some("Your previous response was rejected:\ntoo short\n\nPlease fix and retry.")
            );
        }
        _ => panic!("expected a user message"),
    }
}

#[test]
fn unknown_static_tool_is_reported() {
    assert_eq!(tool_not_found("calc"), "Tool calc not found");
}

fn call(id: &str, name: &str, arguments: &str) -> ToolCall {
    ToolCall { id: id.into(), function: ToolFunction { name: name.into(), arguments: arguments.into() } }
}

fn tool_reply(m: &Message) -> (String, Option<String>) {
    match m {
        Message::ToolMessage(t) => (t.tool_call_id.clone(), t.content.clone()),
        _ => panic!("expected a tool message"),
    }
}

#[test]
fn test_execute_parallel_tool_calls_handles_errors() {
    let calls = vec![call("1", "success", "{}"), call("2", "fail", "{}"), call("3", "missing", "{}")];
    let ok = PostToolAction::Proceed(None).resolve(Json::Str("ok".into()));
    let failed = ToolErrorAction::Proceed(None).resolve("error".into());
    let missing = ToolErrorAction::Proceed(None).resolve(tool_not_found("missing"));
    let messages = merge_tool_results(&calls, vec![None, None, None], vec![ok, failed, missing]);
    assert_eq!(messages.len(), 3);
    assert_eq!(tool_reply(&messages[0]), ("1".to_string(), Some("ok".to_string())));
    assert_eq!(tool_reply(&messages[1]), ("2".to_string(), Some("error".to_string())));
    assert_eq!(tool_reply(&messages[2]), ("3".to_string(), Some("Tool missing not found".to_string())));
}

#[test]
fn test_plugin_tool_dispatch() {
    let calls = vec![call("tc_1", "query", "{\"q\":\"hello\"}")];
    let args = tool_arguments(&calls[0].function.arguments);
    let result = Json::Object(vec![
        ("tool".into(), Json::Str("query".into())),
        ("args".into(), args),
        ("id".into(), Json::Str("tc_1".into())),
    ]);
    let content = result_to_text(result);
    let messages = merge_tool_results(&calls, vec![Some(tool(&content, "tc_1"))], vec![]);
    assert_eq!(messages.len(), 1);
    let (id, text) = tool_reply(&messages[0]);
    assert_eq!(id, "tc_1");
    let val: serde_json::Value = serde_json::from_str(&text.unwrap()).unwrap();
    assert_eq!(val.get("tool").and_then(|v| v.as_str()), Some("query"));
    assert_eq!(val.get("args").and_then(|a| a.get("q")).and_then(|v| v.as_str()), Some("hello"));
    assert_eq!(val.get("id").and_then(|v| v.as_str()), Some("tc_1"));
}

#[test]
fn aborted_and_plugin_calls_keep_their_place_among_static_ones() {
    let calls = vec![call("a", "s1", "{}"), call("b", "p", "{}"), call("c", "s2", "{}")];
    let pre = vec![None, Some(tool("from plugin", "b")), None];
    let messages = merge_tool_results(&calls, pre, vec!["first".into(), "second".into()]);
    let got: Vec<(String, Option<String>)> = messages.iter().map(tool_reply).collect();
    assert_eq!(
        got,
        vec![
            ("a".to_string(), Some("first".to_string())),
            ("b".to_string(), Some("from plugin".to_string())),
            ("c".to_string(), Some("second".to_string())),
        ]
    );
}

#[test]
fn arguments_fall_back_to_the_raw_text() {
    let parsed = Json::Object(vec![("q".into(), Json::Str("x".into()))]);
    assert_eq!(arguments_or_text("{\"q\":\"x\"}", Some(parsed)), Json::Object(vec![("q".into(), Json::Str("x".into()))]));
    assert_eq!(arguments_or_text("not json", None), Json::Str("not json".into()));
    assert_eq!(tool_arguments("not json"), Json::Str("not json".into()));
    assert_eq!(tool_arguments("[1]"), Json::Array(vec![Json::Number("1".into())]));
}

#[test]
fn assistant_call_carries_its_argument_text() {
    match assistant_call_text("calc", "c1", "{\"a\":1}".into()) {
        Message::AssistantMessage(a) => {
            assert!(a.content.is_none());
            let calls = a.tool_calls.unwrap();
            assert_eq!(calls.len(), 1);
            assert_eq!(calls[0].id, "c1");
            assert_eq!(calls[0].function.name, "calc");
            assert_eq!(calls[0].function.arguments, "{\"a\":1}");
        }
        _ => panic!("expected an assistant message"),
    }
}
