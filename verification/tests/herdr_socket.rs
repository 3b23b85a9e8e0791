use herdr_npm::adapters::herdr_socket::{
    created_tab_from, interpret_reply, layout_of, opened_pane_from, request_id,
};
use herdr_npm::application::run_script::created_tab;
use herdr_npm::domain::error::AppError;
use herdr_npm::domain::json::JsonValue;

fn obj(members: Vec<(&str, JsonValue)>) -> JsonValue {
    JsonValue::Object(members.into_iter().map(|(k, v)| (k.to_string(), v)).collect())
}

fn text(value: &str) -> JsonValue {
    JsonValue::Str(value.to_string())
}

fn reply(result: &str) -> String {
    format!("{{\"id\":\"herdr-npm:tab.create\",\"result\":{result}}}\n")
}

#[test]
fn request_ids_name_the_method() {
    assert_eq!(request_id("pane.list"), "herdr-npm:pane.list");
}

#[test]
fn pane_list_result_is_returned() {
    let line = "{\"id\":\"herdr-npm:pane.list\",\"result\":{\"panes\":[{\"pane_id\":\"w1:p1\"}]}}\n";
    let result = interpret_reply("pane.list", line).unwrap();
    assert_eq!(result, obj(vec![("panes", JsonValue::Array(vec![obj(vec![("pane_id", text("w1:p1"))])]))]));
}

#[test]
fn herdr_error_is_not_uncertain() {
    let line = r#"{"id":"herdr-npm:pane.list","error":{"code":"invalid_params","message":"nope"}}"#;
    match interpret_reply("pane.list", line) {
        Err(AppError::Herdr { code, message, method }) => {
            assert_eq!(code, "invalid_params");
            assert_eq!(message, "nope");
            assert_eq!(method, "pane.list");
        }
        other => panic!("expected herdr error, got {other:?}"),
    }
}

#[test]
fn error_without_code_is_unknown() {
    let line = r#"{"id":"herdr-npm:x","error":null}"#;
    assert_eq!(
        interpret_reply("x", line).unwrap_err(),
        AppError::Herdr { method: "x".into(), code: "unknown".into(), message: "herdr error".into() }
    );
}

#[test]
fn mismatched_id_is_uncertain() {
    let line = r#"{"id":"other","result":{"panes":[]}}"#;
    match interpret_reply("pane.list", line) {
        Err(AppError::Uncertain { message, .. }) => {
            assert_eq!(message, "response id Some(\"other\") does not match request")
        }
        other => panic!("expected uncertain, got {other:?}"),
    }
}

#[test]
fn missing_result_is_uncertain() {
    let line = r#"{"id":"herdr-npm:pane.list"}"#;
    assert!(matches!(interpret_reply("pane.list", line), Err(AppError::Uncertain { .. })));
}

#[test]
fn a_reply_that_is_not_json_is_uncertain() {
    match interpret_reply("pane.list", "oops") {
        Err(AppError::Uncertain { message, .. }) => {
            assert!(message.starts_with("response is not JSON: "))
        }
        other => panic!("expected uncertain, got {other:?}"),
    }
}

#[test]
fn tab_create_parses_tab_and_root_pane() {
    let result = interpret_reply(
        "tab.create",
        &reply(r#"{"type":"tab_created","tab":{"tab_id":"tab-dev"},"root_pane":{"pane_id":"tab-dev:p1"}}"#),
    )
    .unwrap();
    let created = created_tab_from(&result).unwrap();
    assert_eq!(created.tab_id.as_str(), "tab-dev");
    assert_eq!(created.root_pane_id.as_str(), "tab-dev:p1");
}

#[test]
fn tab_create_error_is_not_a_confirmed_launch() {
    let line = r#"{"id":"herdr-npm:tab.create","error":{"code":"failed","message":"cannot create tab"}}"#;
    let outcome = interpret_reply("tab.create", line).and_then(|r| created_tab_from(&r));
    match created_tab(outcome) {
        Err(AppError::Herdr { code, .. }) => assert_eq!(code, "failed"),
        other => panic!("expected herdr error, got {other:?}"),
    }
}

#[test]
fn tab_create_missing_root_pane_is_uncertain() {
    let result = obj(vec![("tab", obj(vec![("tab_id", text("tab-dev"))]))]);
    assert!(matches!(created_tab_from(&result), Err(AppError::Uncertain { .. })));
}

#[test]
fn tab_create_non_string_ids_are_uncertain() {
    let result = obj(vec![
        ("tab", obj(vec![("tab_id", JsonValue::Number("1".to_string()))])),
        ("root_pane", obj(vec![("pane_id", JsonValue::Bool(true))])),
    ]);
    assert!(matches!(created_tab_from(&result), Err(AppError::Uncertain { .. })));
}

#[test]
fn plugin_pane_open_reports_the_pane() {
    let result = obj(vec![("plugin_pane", obj(vec![("pane", obj(vec![("pane_id", text("w1:p9"))]))]))]);
    assert_eq!(opened_pane_from(&result).unwrap().pane_id.as_str(), "w1:p9");
    assert!(matches!(opened_pane_from(&obj(vec![])), Err(AppError::Uncertain { .. })));
}

#[test]
fn layout_member_is_required() {
    assert_eq!(layout_of(obj(vec![("layout", obj(vec![("x", JsonValue::Number("1".to_string()))]))])).unwrap(), obj(vec![("x", JsonValue::Number("1".to_string()))]));
    assert!(matches!(layout_of(obj(vec![])), Err(AppError::SnapshotUnreadable { .. })));
}
