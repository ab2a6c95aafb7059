use bentham::catalog::definitions;
use bentham::mcp::{answer_call, finish_call, handle, text_result, Step};
use bentham::tools::{tool_named, Error};
use serde_json::Value;

fn parse(text: &str) -> Value {
    serde_json::from_str(text).unwrap()
}

fn reply(text: &str) -> Value {
    match handle(&parse(text), "1.2.3") {
        Step::Reply(v) => v,
        _ => panic!("no direct reply"),
    }
}

#[test]
fn notifications_are_dropped() {
    for req in ["{\"method\": \"ping\"}", "{\"id\": null, \"method\": \"ping\"}", "[]", "5"] {
        assert!(matches!(handle(&parse(req), "1"), Step::Accepted));
    }
}

#[test]
fn initialize_introduces_the_server() {
    assert_eq!(
        reply("{\"id\": 1, \"method\": \"initialize\"}"),
        parse(
            "{\"jsonrpc\": \"2.0\", \"id\": 1, \"result\": {\"protocolVersion\": \"2025-06-18\", \
             \"capabilities\": {\"tools\": {}}, \
             \"serverInfo\": {\"name\": \"bentham-discord\", \"version\": \"1.2.3\"}}}"
        )
    );
    let v = reply(
        "{\"id\": \"a\", \"method\": \"initialize\", \"params\": {\"protocolVersion\": \"2024-11-05\"}}",
    );
    assert_eq!(v["result"]["protocolVersion"], "2024-11-05");
    assert_eq!(v["id"], "a");
}

#[test]
fn ping_and_unknown_methods() {
    assert_eq!(
        reply("{\"id\": 2, \"method\": \"ping\"}"),
        parse("{\"jsonrpc\": \"2.0\", \"id\": 2, \"result\": {}}")
    );
    assert_eq!(
        reply("{\"id\": 3, \"method\": \"resources/list\"}"),
        parse(
            "{\"jsonrpc\": \"2.0\", \"id\": 3, \"error\": {\"code\": -32601, \
             \"message\": \"method not found: resources/list\"}}"
        )
    );
    assert_eq!(reply("{\"id\": 3}")["error"]["message"], "method not found: ");
}

#[test]
fn tools_are_listed() {
    let v = reply("{\"id\": 4, \"method\": \"tools/list\"}");
    assert_eq!(v["result"]["tools"], definitions());
    let tools = definitions();
    let tools = tools.as_array().unwrap();
    assert_eq!(tools.len(), 11);
    for t in tools {
        assert!(tool_named(t["name"].as_str().unwrap()).is_some());
        assert_eq!(t["inputSchema"]["type"], "object");
        assert_eq!(t["inputSchema"]["required"][0], "token");
        assert_eq!(
            t["inputSchema"]["properties"]["token"],
            parse(
                "{\"type\": \"string\", \
                 \"description\": \"Your session token, from your wake prompt.\"}"
            )
        );
    }
    assert_eq!(tools[4]["name"], "list_channels");
    assert_eq!(tools[4]["inputSchema"]["required"], parse("[\"token\"]"));
    assert_eq!(
        tools[8],
        parse(
            "{\"name\": \"set_behavior\", \"description\": \"Adjust this server's behavior \
             settings (effective immediately). watched_channels: channel ids to watch, empty = \
             all inhabited. respond_to: \\\"mentions\\\" wakes you only for @mentions/DMs, \
             \\\"all\\\" for any opted-in message. idle_wake_minutes: wake on a timer, 0 = off.\", \
             \"inputSchema\": {\"type\": \"object\", \"required\": [\"token\"], \"properties\": { \
             \"token\": {\"type\": \"string\", \
             \"description\": \"Your session token, from your wake prompt.\"}, \
             \"watched_channels\": {\"type\": \"array\", \"items\": {\"type\": \"string\"}}, \
             \"respond_to\": {\"type\": \"string\", \"enum\": [\"mentions\", \"all\"]}, \
             \"idle_wake_minutes\": {\"type\": \"number\"}}}}"
        )
    );
}

#[test]
fn tool_calls_name_a_tool() {
    let missing = parse(
        "{\"jsonrpc\": \"2.0\", \"id\": 5, \"error\": {\"code\": -32602, \
         \"message\": \"missing tool name\"}}",
    );
    assert_eq!(reply("{\"id\": 5, \"method\": \"tools/call\"}"), missing);
    assert_eq!(
        reply("{\"id\": 5, \"method\": \"tools/call\", \"params\": {\"name\": 7}}"),
        missing
    );
    let req = parse(
        "{\"id\": 6, \"method\": \"tools/call\", \"params\": {\"name\": \"get_persona\", \
         \"arguments\": {\"token\": \"t\"}}}",
    );
    match handle(&req, "1") {
        Step::Call { id, name, args } => {
            assert_eq!(id, parse("6"));
            assert_eq!(name, "get_persona");
            assert_eq!(args, parse("{\"token\": \"t\"}"));
        }
        _ => panic!("no call"),
    }
    let req = parse("{\"id\": 6, \"method\": \"tools/call\", \"params\": {\"name\": \"x\"}}");
    match handle(&req, "1") {
        Step::Call { args, .. } => assert_eq!(args, parse("{}")),
        _ => panic!("no call"),
    }
}

#[test]
fn results_are_shown_as_text() {
    let out = finish_call(parse("7"), "x", Ok(parse("{\"ok\": true, \"a\": [1]}")));
    assert_eq!(
        out["result"]["content"][0]["text"],
        "{\n  \"a\": [\n    1\n  ],\n  \"ok\": true\n}"
    );
    assert_eq!(out["id"], parse("7"));
    assert_eq!(
        answer_call(parse("7"), "x", Ok("shown".into())),
        parse(
            "{\"jsonrpc\": \"2.0\", \"id\": 7, \
             \"result\": {\"content\": [{\"type\": \"text\", \"text\": \"shown\"}]}}"
        )
    );
    assert_eq!(
        text_result("t"),
        parse("{\"content\": [{\"type\": \"text\", \"text\": \"t\"}]}")
    );
}

#[test]
fn failures_are_told_apart() {
    assert_eq!(
        finish_call(parse("8"), "nope", Err(Error::UnknownTool)),
        parse(
            "{\"jsonrpc\": \"2.0\", \"id\": 8, \"error\": {\"code\": -32602, \
             \"message\": \"unknown tool: nope\"}}"
        )
    );
    assert_eq!(
        finish_call(parse("8"), "x", Err(Error::Failed("bad".into()))),
        parse(
            "{\"jsonrpc\": \"2.0\", \"id\": 8, \"result\": {\"isError\": true, \
             \"content\": [{\"type\": \"text\", \"text\": \"bad\"}]}}"
        )
    );
}
