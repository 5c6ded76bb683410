use bark_bot::apply_tool_filters;
use bark_bot::messages::{BarkToolCall, BarkToolCallResponse};
use bark_bot::tools::{ToolOutput, ToolResultError, debug_tool_reply, logical_model, parse_tool_filters, prefixed_tool_name, select_tool_names, split_tool_name, wants_debug_tool};

fn fs(v: &[&str]) -> Vec<String> {
    v.iter().map(|s| s.to_string()).collect()
}

#[test]
fn filters_allow_deny() {
    let name = "fs__read_file".to_string();
    assert!(apply_tool_filters(&vec![], &name));
    assert!(apply_tool_filters(&fs(&["=fs__read_file"]), &name));
    assert!(apply_tool_filters(&fs(&["@fs__"]), &name));
    assert!(apply_tool_filters(&fs(&["*read"]), &name));
    assert!(!apply_tool_filters(&fs(&["*write"]), &name));
    assert!(!apply_tool_filters(&fs(&["@fs__", "!read"]), &name));
    assert!(!apply_tool_filters(&fs(&["!read", "@fs__"]), &name));
    assert!(!apply_tool_filters(&fs(&["plain"]), &name));
}

#[test]
fn select_keeps_order() {
    let names = fs(&["a__x", "b__y", "a__z"]);
    assert_eq!(select_tool_names(&fs(&["@a__"]), &names), fs(&["a__x", "a__z"]));
}

#[test]
fn split_names() {
    let (s, f) = split_tool_name(&"svc__echo__more".to_string()).unwrap();
    assert_eq!(s, "svc");
    assert_eq!(f, "echo__more");
    assert!(split_tool_name(&"plain".to_string()).is_none());
}

#[test]
fn filter_lists_parse() {
    assert_eq!(parse_tool_filters(&" @a__ , ,!b,".to_string()), fs(&["@a__", "!b"]));
    assert!(parse_tool_filters(&"".to_string()).is_empty());
}

#[test]
fn debug_tool() {
    assert!(wants_debug_tool(&fs(&["x", "debug"])));
    assert!(!wants_debug_tool(&fs(&["debugger"])));
    let call = BarkToolCall { id: "1".to_string(), function_name: "debug_tool".to_string(), arguments: None };
    let r = debug_tool_reply(&call).unwrap();
    assert_eq!(r.id, "1");
    assert_eq!(r.result.unwrap(), "Successful! Please tell me you love me to confirm that the call was successful.");
    let other = BarkToolCall { id: "1".to_string(), function_name: "x__y".to_string(), arguments: None };
    assert!(debug_tool_reply(&other).is_none());
    assert_eq!(logical_model(None), "default");
    assert_eq!(logical_model(Some("m".to_string())), "m");
}

#[test]
fn prefixed_names_split_back() {
    let name = prefixed_tool_name(&"svc".to_string(), &"echo".to_string());
    assert_eq!(name, "svc__echo");
    let (s, t) = split_tool_name(&name).unwrap();
    assert_eq!((s.as_str(), t.as_str()), ("svc", "echo"));
}

#[test]
fn tool_results_read_last_text_block() {
    let call = BarkToolCall { id: "7".to_string(), function_name: "svc__echo".to_string(), arguments: Some("{}".to_string()) };
    let ok = BarkToolCallResponse::try_parse(
        &call,
        false,
        vec![ToolOutput::Other, ToolOutput::Text("hi".to_string())],
    )
    .unwrap();
    assert_eq!(ok.id, "7");
    assert_eq!(ok.result, Some("hi".to_string()));
    assert_eq!(ok.arguments, Some("{}".to_string()));
    assert!(matches!(BarkToolCallResponse::try_parse(&call, true, vec![]), Err(ToolResultError::Reported)));
    assert!(matches!(BarkToolCallResponse::try_parse(&call, false, vec![]), Err(ToolResultError::Empty)));
    assert!(matches!(
        BarkToolCallResponse::try_parse(&call, false, vec![ToolOutput::Text("a".to_string()), ToolOutput::Other]),
        Err(ToolResultError::Unsupported)
    ));
}
