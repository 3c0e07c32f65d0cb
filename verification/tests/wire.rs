use agent::json::{jarr, jobj, jstr, remove_member, set_member, Json};
use agent::mcp::client::{
    answer_blocks, initialize_params, list_tools, notification_line, notification_message,
    request_message, server_line, tool_call_outcome, tool_call_params, CallStep, McpClient,
    ServerLine,
};

fn from_value(v: serde_json::Value) -> Json {
    match v {
        serde_json::Value::Null => Json::Null,
        serde_json::Value::Bool(b) => Json::Bool(b),
        serde_json::Value::Number(n) => {
            if let Some(u) = n.as_u64() {
                Json::Unsigned(u)
            } else if let Some(i) = n.as_i64() {
                Json::Negative(i)
            } else {
                Json::Decimal(n.to_string())
            }
        }
        serde_json::Value::String(s) => Json::Str(s),
        serde_json::Value::Array(xs) => Json::Array(xs.into_iter().map(from_value).collect()),
        serde_json::Value::Object(es) => {
            Json::Object(es.into_iter().map(|(k, v)| (k, from_value(v))).collect())
        }
    }
}

fn json(text: &str) -> Json {
    from_value(serde_json::from_str(text).unwrap())
}

const SAMPLE: &str = r#"{
    "empty": {}, "list": [], "nested": {"a": [1, -2, true, null, "x"]},
    "quote\"key": "line\nbreak\ttab \\ \u0001 é 漢 \u007f / \b \f \r",
    "big": 18446744073709551615, "small": -9223372036854775808, "half": 0.5
}"#;

#[test]
fn texts_are_those_of_serde_json() {
    let value: serde_json::Value = serde_json::from_str(SAMPLE).unwrap();
    let ours = json(SAMPLE);
    assert_eq!(ours.to_text(), serde_json::to_string(&value).unwrap());
    assert_eq!(
        ours.to_pretty_text(),
        serde_json::to_string_pretty(&value).unwrap()
    );
    // Members are written in the order of their keys, the last of equal keys alone.
    let members = vec![
        ("b".to_string(), Json::Unsigned(1)),
        ("a".to_string(), Json::Decimal("0.25".into())),
        ("b".to_string(), Json::Null),
    ];
    assert_eq!(jobj(members).to_text(), r#"{"a":0.25,"b":null}"#);
}

#[test]
fn texts_are_read_as_serde_json_reads_them() {
    assert_eq!(Json::parse(SAMPLE), Some(json(SAMPLE)));
    assert_eq!(Json::parse(" [1, -1, 1.5] "), Some(json("[1, -1, 1.5]")));
    assert_eq!(Json::parse("-0"), Some(Json::Decimal("-0.0".into())));
    assert_eq!(Json::parse("{\"a\": }"), None);
    assert_eq!(Json::parse(""), None);
    let again = Json::parse(&json(SAMPLE).to_text());
    assert_eq!(again, Some(json(SAMPLE)));
}

#[test]
fn equal_values_are_the_same() {
    let values = [
        "null", "true", "false", "1", "-1", "0.5", "\"1\"", "[]", "[1]", "[1, 2]", "{}",
        r#"{"a": 1}"#, r#"{"a": 2}"#, r#"{"b": 1}"#, r#"{"a": 1, "b": 1}"#,
    ];
    for (i, a) in values.iter().enumerate() {
        for (k, b) in values.iter().enumerate() {
            assert_eq!(json(a).same(&json(b)), i == k, "{a} and {b}");
        }
    }
}

#[test]
fn members_are_found_replaced_and_removed() {
    let j = json(r#"{"a": "x", "b": true, "n": 7, "l": ["y"]}"#);
    assert_eq!(j.str_at("a"), Some("x"));
    assert_eq!(j.bool_at("b"), Some(true));
    assert_eq!(j.get("n").and_then(|v| v.as_u64()), Some(7));
    assert_eq!(j.get("l").and_then(|v| v.as_array()).map(|l| l.len()), Some(1));
    assert_eq!(j.str_at("b"), None);
    assert_eq!(j.bool_at("a"), None);
    assert!(j.get("missing").is_none());
    assert!(Json::Null.get("a").is_none());
    assert!(Json::Str("s".into()).as_bool().is_none());

    let mut entries = vec![("a".to_string(), jstr("x")), ("b".to_string(), jarr(vec![]))];
    set_member(&mut entries, "a", Json::Unsigned(1));
    set_member(&mut entries, "c", Json::Null);
    remove_member(&mut entries, "b");
    remove_member(&mut entries, "nowhere");
    assert_eq!(jobj(entries), json(r#"{"a": 1, "c": null}"#));
}

#[test]
fn requests_are_numbered_lines() {
    let mut client = McpClient::new("files".into());
    let (id, line) = client.request("initialize", initialize_params("0.1.0"));
    assert_eq!(id, 1);
    assert!(line.ends_with('\n'));
    let sent: serde_json::Value = serde_json::from_str(&line).unwrap();
    assert_eq!(sent["jsonrpc"], "2.0");
    assert_eq!(sent["id"], 1);
    assert_eq!(sent["method"], "initialize");
    assert_eq!(sent["params"]["protocolVersion"], "2024-11-05");
    assert_eq!(sent["params"]["clientInfo"]["name"], "manox");
    assert_eq!(sent["params"]["clientInfo"]["version"], "0.1.0");
    assert!(sent["params"]["capabilities"].as_object().unwrap().is_empty());

    let (id, line) = client.request(
        "tools/call",
        tool_call_params("read \"it\"", json(r#"{"path": "a\nb"}"#)),
    );
    assert_eq!(id, 2);
    assert_eq!(client.last_id, 2);
    assert_eq!(line.matches('\n').count(), 1);
    let sent: serde_json::Value = serde_json::from_str(&line).unwrap();
    assert_eq!(sent["id"], 2);
    assert_eq!(sent["params"]["name"], "read \"it\"");
    assert_eq!(sent["params"]["arguments"]["path"], "a\nb");

    assert_eq!(
        request_message(2, "m", json("[]")),
        json(r#"{"id": 2, "jsonrpc": "2.0", "method": "m", "params": []}"#)
    );
    assert_eq!(
        notification_message("m", json("[]")),
        json(r#"{"jsonrpc": "2.0", "method": "m", "params": []}"#)
    );
    assert_eq!(
        notification_line("notifications/initialized", json("{}")),
        "{\"jsonrpc\":\"2.0\",\"method\":\"notifications/initialized\",\"params\":{}}\n"
    );
}

#[test]
fn a_line_is_closed_blank_noise_or_a_message() {
    assert_eq!(server_line(""), ServerLine::Closed);
    assert_eq!(server_line("\n"), ServerLine::Blank);
    assert_eq!(server_line(" \t\u{a0}\r\n"), ServerLine::Blank);
    assert_eq!(server_line("starting up...\n"), ServerLine::NotJson);
    assert_eq!(server_line("{\"id\": 3\n"), ServerLine::NotJson);
    assert_eq!(
        server_line("\u{a0} {\"id\": 3, \"result\": [1.5]} \r\n"),
        ServerLine::Message(json(r#"{"id": 3, "result": [1.5]}"#))
    );
    let client = McpClient::new("files".into());
    assert_eq!(
        client.on_line(3, server_line("{\"id\":3,\"result\":\"x\"}\n")),
        CallStep::Done(jstr("x"))
    );
    assert_eq!(client.on_line(3, server_line("noise\n")), CallStep::Wait);
    assert!(matches!(client.on_line(3, server_line("")), CallStep::Failed(_)));
}

#[test]
fn an_answer_carries_the_id_of_its_request() {
    let client = McpClient::new("files".into());
    let on = |text: &str| client.on_line(3, ServerLine::Message(json(text)));
    assert_eq!(client.on_line(3, ServerLine::Blank), CallStep::Wait);
    assert_eq!(client.on_line(3, ServerLine::NotJson), CallStep::Wait);
    assert_eq!(on(r#"{"method": "notifications/progress"}"#), CallStep::Wait);
    assert_eq!(on(r#"{"id": 2, "result": 1}"#), CallStep::Wait);
    assert_eq!(on(r#"{"id": "3", "result": 1}"#), CallStep::Wait);
    assert_eq!(
        on(r#"{"id": 3, "result": {"ok": true}}"#),
        CallStep::Done(json(r#"{"ok": true}"#))
    );
    assert_eq!(on(r#"{"id": 3}"#), CallStep::Done(Json::Null));
    assert_eq!(
        on(r#"{"id": 3, "error": {"code": -32601, "message": "no"}}"#),
        CallStep::Failed(
            "MCP error from `files`: {\"code\":-32601,\"message\":\"no\"}".to_string()
        )
    );
    assert_eq!(
        client.on_line(3, ServerLine::Closed),
        CallStep::Failed("MCP server `files` closed stdout".to_string())
    );
}

#[test]
fn listings_give_the_named_tools() {
    let listed = list_tools(&json(
        r#"{"tools": [
            {"name": "read", "description": "Reads.", "inputSchema": {"type": "object"}},
            {"description": "nameless"},
            {"name": "bare"}
        ]}"#,
    ))
    .unwrap();
    assert_eq!(listed.len(), 2);
    assert_eq!(listed[0].name, "read");
    assert_eq!(listed[0].description, "Reads.");
    assert_eq!(listed[0].input_schema, json(r#"{"type": "object"}"#));
    assert_eq!(listed[1].name, "bare");
    assert_eq!(listed[1].description, "");
    assert_eq!(listed[1].input_schema, json("{}"));
    assert_eq!(
        list_tools(&json("{}")).unwrap_err(),
        "tools/list response missing `tools` array"
    );
}

#[test]
fn a_call_answers_with_its_text() {
    let text = r#"{"content": [
        {"type": "text", "text": "one"}, {"type": "image", "data": "AA"},
        {"type": "text", "text": "two"}
    ]}"#;
    assert_eq!(tool_call_outcome(&json(text)), Ok("one\ntwo".to_string()));
    let failed = r#"{"content": [{"type": "text", "text": "boom"}], "isError": true}"#;
    assert_eq!(tool_call_outcome(&json(failed)), Err("boom".to_string()));
    assert_eq!(answer_blocks(&json(text)), "one\ntwo");
    assert_eq!(answer_blocks(&json(r#"{"content": "one"}"#)), "");
    // An answer without text is shown whole.
    assert_eq!(
        tool_call_outcome(&json(r#"{"content": []}"#)),
        Ok("{\n  \"content\": []\n}".to_string())
    );
}
