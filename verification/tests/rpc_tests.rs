use newspenguin_bot::error::{BotError, Setting};
use newspenguin_bot::json::{object_insert, JsonValue};
use newspenguin_bot::rpc::{
    delete_call, get_call, list_call, rpc_headers, rpc_outcome, rpc_request, rpc_settings,
    set_call, stored_entries, stored_text, stored_values, RpcResponse,
};

fn s(x: &str) -> String {
    x.to_string()
}

fn members(v: &JsonValue) -> Vec<(String, String)> {
    match v {
        JsonValue::Object(fields) => fields
            .iter()
            .map(|(k, v)| (k.clone(), format!("{:?}", v)))
            .collect(),
        _ => panic!("not an object"),
    }
}

#[test]
fn settings_report_the_first_missing_variable() {
    assert!(matches!(rpc_settings(None, Some(s("t")), Some(s("1"))), Err(BotError::MissingSetting(Setting::RpcEndpoint))));
    assert!(matches!(rpc_settings(Some(s("e")), None, None), Err(BotError::MissingSetting(Setting::Token))));
    assert!(matches!(rpc_settings(Some(s("e")), Some(s("t")), None), Err(BotError::MissingSetting(Setting::AppId))));
    assert!(matches!(rpc_settings(Some(s("e")), Some(s("t")), Some(s("x1"))), Err(BotError::InvalidAppId)));
    let ok = rpc_settings(Some(s("http://rpc")), Some(s("tok")), Some(s("-17"))).unwrap();
    assert_eq!(ok.endpoint, "http://rpc");
    assert_eq!(ok.token, "tok");
    assert_eq!(ok.app_id, -17);
}

#[test]
fn requests_carry_token_and_task_id() {
    let settings = rpc_settings(Some(s("e")), Some(s("tok")), Some(s("42"))).unwrap();
    let call = get_call("k");
    let req = rpc_request(&call.method, call.params, &settings);
    assert_eq!(req.jsonrpc, "2.0");
    assert_eq!(req.method, "get_kv");
    assert_eq!(req.id, 1);
    assert_eq!(
        members(&req.params),
        vec![(s("key"), s("Text(\"k\")")), (s("token"), s("Text(\"tok\")")), (s("task_id"), s("Int(42)"))]
    );
}

#[test]
fn requests_replace_given_token_members_and_leave_non_objects() {
    let settings = rpc_settings(Some(s("e")), Some(s("tok")), Some(s("7"))).unwrap();
    let params = JsonValue::Object(vec![(s("token"), JsonValue::Text(s("old"))), (s("x"), JsonValue::Null)]);
    let req = rpc_request("m", params, &settings);
    assert_eq!(
        members(&req.params),
        vec![(s("token"), s("Text(\"tok\")")), (s("x"), s("Null")), (s("task_id"), s("Int(7)"))]
    );
    let req = rpc_request("m", JsonValue::Int(3), &settings);
    assert!(matches!(req.params, JsonValue::Int(3)));
}

#[test]
fn object_insert_replaces_or_appends() {
    let mut v = JsonValue::Object(vec![(s("a"), JsonValue::Int(1))]);
    object_insert(&mut v, s("a"), JsonValue::Int(2));
    object_insert(&mut v, s("b"), JsonValue::Bool(true));
    assert_eq!(members(&v), vec![(s("a"), s("Int(2)")), (s("b"), s("Bool(true)"))]);
    let mut t = JsonValue::Text(s("x"));
    object_insert(&mut t, s("a"), JsonValue::Null);
    assert!(matches!(t, JsonValue::Text(ref x) if x == "x"));
}

#[test]
fn key_value_calls() {
    let c = set_call("k", "v");
    assert_eq!(c.method, "set_kv");
    assert_eq!(members(&c.params), vec![(s("key"), s("Text(\"k\")")), (s("value"), s("Text(\"v\")"))]);
    let c = delete_call("k");
    assert_eq!(c.method, "set_kv");
    assert_eq!(members(&c.params), vec![(s("key"), s("Text(\"k\")")), (s("value"), s("Null"))]);
    let c = list_call();
    assert_eq!(c.method, "get_kv");
    assert_eq!(members(&c.params), vec![(s("key"), s("Null"))]);
    assert_eq!(rpc_headers(), vec![(s("Content-Type"), s("application/json"))]);
}

#[test]
fn outcomes_of_responses() {
    let r = rpc_outcome(RpcResponse { result: Some(JsonValue::Int(1)), error: Some(s("{\"code\":1}")) });
    assert!(matches!(r, Err(BotError::RpcFailure(ref e)) if e == "{\"code\":1}"));
    let r = rpc_outcome(RpcResponse { result: Some(JsonValue::Text(s("v"))), error: None });
    assert!(matches!(r, Ok(JsonValue::Text(ref t)) if t == "v"));
    let r = rpc_outcome(RpcResponse { result: None, error: None });
    assert!(matches!(r, Err(BotError::MissingRpcResult)));
    let r = rpc_outcome(RpcResponse { result: Some(JsonValue::Null), error: None });
    assert!(matches!(r, Err(BotError::MissingRpcResult)));
}

#[test]
fn replies_are_read_as_stored_values() {
    assert_eq!(stored_text(&JsonValue::Text(s("v"))).as_deref(), Some("v"));
    assert_eq!(stored_text(&JsonValue::Null), None);
    assert_eq!(stored_text(&JsonValue::Int(3)), None);
    let reply = JsonValue::Object(vec![
        (s("a"), JsonValue::Text(s("1"))),
        (s("b"), JsonValue::Int(2)),
        (s("c"), JsonValue::Text(s("3"))),
    ]);
    let store = stored_entries(&reply);
    assert_eq!(store.get("a").as_deref(), Some("1"));
    assert_eq!(store.get("b"), None);
    assert_eq!(store.get("c").as_deref(), Some("3"));
    assert_eq!(store.len(), 2);
    assert_eq!(stored_entries(&JsonValue::Text(s("x"))).len(), 0);
}

#[test]
fn replies_give_every_value_of_a_key() {
    assert_eq!(stored_values(&JsonValue::Text(s("a"))), vec![s("a")]);
    let reply = JsonValue::Array(vec![JsonValue::Text(s("a")), JsonValue::Int(1), JsonValue::Text(s("b"))]);
    assert_eq!(stored_values(&reply), vec![s("a"), s("b")]);
    assert!(stored_values(&JsonValue::Null).is_empty());
}
