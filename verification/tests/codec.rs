use aiterm::json::Json;
use aiterm::protocol::{initialize_response, tool_list_response, JsonRpcResponse};
use aiterm::text::{decimal_string, to_text};

fn s(text: &str) -> String {
    String::from(text)
}

#[test]
fn serializes_scalars() {
    assert_eq!(to_text(&Json::Null), "null");
    assert_eq!(to_text(&Json::Bool(true)), "true");
    assert_eq!(to_text(&Json::Bool(false)), "false");
    assert_eq!(to_text(&Json::Int(0)), "0");
    assert_eq!(to_text(&Json::Int(42)), "42");
    assert_eq!(to_text(&Json::Int(-7)), "-7");
    assert_eq!(to_text(&Json::Int(i64::MAX)), "9223372036854775807");
    assert_eq!(to_text(&Json::Int(i64::MIN)), "-9223372036854775808");
}

#[test]
fn serializes_strings_with_escapes() {
    assert_eq!(to_text(&Json::Str(s("hello"))), "\"hello\"");
    assert_eq!(to_text(&Json::Str(s(""))), "\"\"");
    assert_eq!(
        to_text(&Json::Str(s("a\"b\\c\nd\te\r"))),
        "\"a\\\"b\\\\c\\nd\\te\\r\""
    );
    assert_eq!(to_text(&Json::Str(s("\u{1}"))), "\"\\u0001\"");
    assert_eq!(to_text(&Json::Str(s("\u{1f}"))), "\"\\u001f\"");
    assert_eq!(to_text(&Json::Str(s("héllo"))), "\"héllo\"");
}

#[test]
fn serializes_arrays_and_objects() {
    assert_eq!(to_text(&Json::Arr(vec![])), "[]");
    assert_eq!(
        to_text(&Json::Arr(vec![Json::Int(1), Json::Int(2), Json::Int(3)])),
        "[1,2,3]"
    );
    assert_eq!(to_text(&Json::Obj(vec![])), "{}");
    let doc = Json::Obj(vec![
        (s("a"), Json::Int(1)),
        (s("b"), Json::Arr(vec![Json::Null, Json::Bool(false)])),
    ]);
    assert_eq!(to_text(&doc), "{\"a\":1,\"b\":[null,false]}");
}

#[test]
fn serialized_output_parses_back_with_serde() {
    let doc = Json::Obj(vec![
        (s("name"), Json::Str(s("quo\"te"))),
        (
            s("items"),
            Json::Arr(vec![Json::Int(-3), Json::Bool(true), Json::Null]),
        ),
    ]);
    let parsed: serde_json::Value = serde_json::from_str(&to_text(&doc)).unwrap();
    let mut expected = serde_json::Map::new();
    expected.insert(s("name"), serde_json::Value::from("quo\"te"));
    expected.insert(
        s("items"),
        serde_json::Value::Array(vec![
            serde_json::Value::from(-3),
            serde_json::Value::from(true),
            serde_json::Value::Null,
        ]),
    );
    assert_eq!(parsed, serde_json::Value::Object(expected));
}

#[test]
fn decimal_string_renders_digits() {
    assert_eq!(decimal_string(0), "0");
    assert_eq!(decimal_string(9), "9");
    assert_eq!(decimal_string(10), "10");
    assert_eq!(decimal_string(54321), "54321");
    assert_eq!(decimal_string(u64::MAX), "18446744073709551615");
}

#[test]
fn success_and_error_envelopes_are_exclusive() {
    let ok = JsonRpcResponse::success(Json::Int(1), Json::Str(s("done")));
    assert_eq!(
        to_text(&ok.to_json()),
        "{\"jsonrpc\":\"2.0\",\"id\":1,\"result\":\"done\"}"
    );
    let err = JsonRpcResponse::error(Json::Null, -32601, s("Method not found: bogus"));
    assert_eq!(
        to_text(&err.to_json()),
        "{\"jsonrpc\":\"2.0\",\"id\":null,\"error\":{\"code\":-32601,\"message\":\"Method not found: bogus\"}}"
    );
}

#[test]
fn initialize_response_carries_version_and_server_info() {
    let r = initialize_response();
    assert_eq!(
        to_text(&r),
        "{\"protocolVersion\":\"2024-11-05\",\"capabilities\":{\"tools\":{}},\"serverInfo\":{\"name\":\"aiTerm\",\"version\":\"0.1.0\"}}"
    );
}

#[test]
fn tool_catalog_lists_the_published_tools_in_order() {
    let catalog = tool_list_response();
    let parsed: serde_json::Value = serde_json::from_str(&to_text(&catalog)).unwrap();
    let tools = parsed.get("tools").unwrap().as_array().unwrap();
    let names: Vec<&str> = tools
        .iter()
        .map(|t| t.get("name").unwrap().as_str().unwrap())
        .collect();
    assert_eq!(
        names,
        vec![
            "getOpenEditors",
            "getWorkspaceFolders",
            "getDiagnostics",
            "checkDocumentDirty",
            "saveDocument",
            "getCurrentSelection",
            "getLatestSelection",
            "openFile",
            "openDiff",
            "closeAllDiffTabs",
        ]
    );
    for t in tools {
        assert!(t.get("description").unwrap().is_string());
        assert!(t.get("inputSchema").unwrap().is_object());
    }
    let open_file = &tools[7];
    assert_eq!(
        open_file.get("inputSchema").unwrap().get("required").unwrap(),
        &serde_json::Value::Array(vec![serde_json::Value::from("filePath")])
    );
    let open_diff = &tools[8];
    assert_eq!(
        open_diff.get("inputSchema").unwrap().get("required").unwrap(),
        &serde_json::Value::Array(vec![
            serde_json::Value::from("new_file_path"),
            serde_json::Value::from("new_file_contents"),
        ])
    );
}
