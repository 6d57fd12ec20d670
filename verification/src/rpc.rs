use crate::error::{BotError, Setting};
use crate::json::{member, object_insert, JsonValue};
use crate::kv::{texts, written, KvStore};
use crate::text::{i64_from_text, parse_i64};
use vstd::prelude::*;

verus! {

/// Where and as whom the bot calls the JSON-RPC service.
pub struct RpcSettings {
    pub endpoint: String,
    pub token: String,
    pub app_id: i64,
}

/// Reads the JSON-RPC settings from the values of `RPC_ENDPOINT`,
/// `LACHUOI_TOKEN` and `APP_ID` (`None` where a variable is not set),
/// reporting the first one missing, in that order, or an `APP_ID` that is not
/// a decimal `i64`.
pub fn rpc_settings(endpoint: Option<String>, token: Option<String>, app_id: Option<String>) -> (r:
    Result<RpcSettings, BotError>)
    ensures
        endpoint is None ==> r == Err::<RpcSettings, BotError>(
            BotError::MissingSetting(Setting::RpcEndpoint),
        ),
        endpoint is Some && token is None ==> r == Err::<RpcSettings, BotError>(
            BotError::MissingSetting(Setting::Token),
        ),
        endpoint is Some && token is Some && app_id is None ==> r == Err::<RpcSettings, BotError>(
            BotError::MissingSetting(Setting::AppId),
        ),
        endpoint is Some && token is Some && app_id is Some && i64_from_text(app_id->0@) is None
            ==> r == Err::<RpcSettings, BotError>(BotError::InvalidAppId),
        r is Ok <==> (endpoint is Some && token is Some && app_id is Some && i64_from_text(
            app_id->0@,
        ) is Some),
        r matches Ok(s) ==> s.endpoint@ == endpoint->0@ && s.token@ == token->0@ && Some(s.app_id)
            == i64_from_text(app_id->0@),
{
    let endpoint = match endpoint {
        Some(e) => e,
        None => return Err(BotError::MissingSetting(Setting::RpcEndpoint)),
    };
    let token = match token {
        Some(t) => t,
        None => return Err(BotError::MissingSetting(Setting::Token)),
    };
    let app_id = match app_id {
        Some(a) => a,
        None => return Err(BotError::MissingSetting(Setting::AppId)),
    };
    match parse_i64(app_id.as_str()) {
        Some(id) => Ok(RpcSettings { endpoint, token, app_id: id }),
        None => Err(BotError::InvalidAppId),
    }
}

/// A JSON-RPC 2.0 request.
pub struct RpcRequest {
    pub jsonrpc: String,
    pub method: String,
    pub params: JsonValue,
    pub id: i32,
}

/// A JSON-RPC 2.0 response: its `result` member, and its `error` member as
/// JSON text (`None` where a member is absent or `null`).
pub struct RpcResponse {
    pub result: Option<JsonValue>,
    pub error: Option<String>,
}

/// The request that calls `method` with `params`: where `params` is an object,
/// it gains the members `token` (the settings' token) and `task_id` (the
/// settings' app id); the request has id 1.
pub fn rpc_request(method: &str, params: JsonValue, settings: &RpcSettings) -> (r: RpcRequest)
    ensures
        r.jsonrpc@ == "2.0"@,
        r.method@ == method@,
        r.id == 1,
        (r.params is Object) == (params is Object),
        !(params is Object) ==> r.params == params,
        params is Object ==> member(r.params, "token"@) == Some(JsonValue::Text(settings.token)),
        params is Object ==> member(r.params, "task_id"@) == Some(JsonValue::Int(settings.app_id)),
        params is Object ==> forall|k: Seq<char>|
            k != "token"@ && k != "task_id"@ ==> #[trigger] member(r.params, k) == member(params, k),
{
    let mut p = params;
    let token_key = "token".to_owned();
    let task_key = "task_id".to_owned();
    proof {
        reveal_strlit("token");
        reveal_strlit("task_id");
    }
    let ghost p0 = p;
    object_insert(&mut p, token_key, JsonValue::Text(settings.token.clone()));
    let ghost p1 = p;
    object_insert(&mut p, task_key, JsonValue::Int(settings.app_id));
    assert("token"@ != "task_id"@) by {
        assert("token"@.len() != "task_id"@.len());
    }
    proof {
        if p0 is Object {
            assert(member(p, "token"@) == member(p1, "token"@));
            assert forall|k: Seq<char>| k != "token"@ && k != "task_id"@ implies #[trigger] member(
                p,
                k,
            ) == member(p0, k) by {
                assert(member(p, k) == member(p1, k));
                assert(member(p1, k) == member(p0, k));
            }
        }
    }
    RpcRequest { jsonrpc: "2.0".to_owned(), method: method.to_owned(), params: p, id: 1 }
}

/// The headers of a JSON-RPC request.
pub fn rpc_headers() -> (r: Vec<(String, String)>)
    ensures
        r@.len() == 1,
        r@[0].0@ == "Content-Type"@,
        r@[0].1@ == "application/json"@,
{
    vec![("Content-Type".to_owned(), "application/json".to_owned())]
}

/// The response carries a result: its `result` member is present and not
/// `null` (serde reads a `null` member of an `Option` as absent).
pub open spec fn has_result(response: RpcResponse) -> bool {
    response.result is Some && !(response.result->0 is Null)
}

/// What a JSON-RPC response yields: its error, else its result, else the
/// complaint that the result is missing (absent or `null`).
pub fn rpc_outcome(response: RpcResponse) -> (r: Result<JsonValue, BotError>)
    ensures
        response.error matches Some(e) ==> r == Err::<JsonValue, BotError>(BotError::RpcFailure(e)),
        response.error is None && has_result(response) ==> r == Ok::<JsonValue, BotError>(
            response.result->0,
        ),
        response.error is None && !has_result(response) ==> r == Err::<JsonValue, BotError>(
            BotError::MissingRpcResult,
        ),
{
    match response.error {
        Some(e) => Err(BotError::RpcFailure(e)),
        None => match response.result {
            Some(JsonValue::Null) => Err(BotError::MissingRpcResult),
            Some(v) => Ok(v),
            None => Err(BotError::MissingRpcResult),
        },
    }
}

/// A call of the key-value methods of the JSON-RPC service.
pub struct KvCall {
    pub method: String,
    pub params: JsonValue,
}

/// An object with a single member.
fn single_member(key: &str, value: JsonValue) -> (r: JsonValue)
    ensures
        r is Object,
        member(r, key@) == Some(value),
        forall|k: Seq<char>| k != key@ ==> #[trigger] member(r, k) is None,
{
    let mut r = JsonValue::Object(Vec::new());
    let ghost empty = r;
    assert forall|k: Seq<char>| #[trigger] member(empty, k) is None by {
        assert(!exists|i: int| crate::json::first_match(empty->Object_0@, k, i));
    }
    object_insert(&mut r, key.to_owned(), value);
    r
}

/// `get_kv` with `{"key": key}`: the value stored under `key`.
pub fn get_call(key: &str) -> (r: KvCall)
    ensures
        r.method@ == "get_kv"@,
        r.params is Object,
        member(r.params, "key"@) matches Some(JsonValue::Text(t)) && t@ == key@,
        forall|k: Seq<char>| k != "key"@ ==> #[trigger] member(r.params, k) is None,
{
    let params = single_member("key", JsonValue::Text(key.to_owned()));
    KvCall { method: "get_kv".to_owned(), params }
}

/// `set_kv` with `{"key": key, "value": value}`: store `value` under `key`.
pub fn set_call(key: &str, value: &str) -> (r: KvCall)
    ensures
        r.method@ == "set_kv"@,
        r.params is Object,
        member(r.params, "key"@) matches Some(JsonValue::Text(t)) && t@ == key@,
        member(r.params, "value"@) matches Some(JsonValue::Text(t)) && t@ == value@,
        forall|k: Seq<char>| k != "key"@ && k != "value"@ ==> #[trigger] member(r.params, k) is None,
{
    let mut params = single_member("key", JsonValue::Text(key.to_owned()));
    proof {
        reveal_strlit("key");
        reveal_strlit("value");
    }
    let ghost p0 = params;
    object_insert(&mut params, "value".to_owned(), JsonValue::Text(value.to_owned()));
    assert("key"@ != "value"@) by {
        assert("key"@.len() != "value"@.len());
    }
    assert(member(params, "key"@) == member(p0, "key"@));
    assert forall|k: Seq<char>| k != "key"@ && k != "value"@ implies #[trigger] member(params, k)
        is None by {
        assert(member(params, k) == member(p0, k));
    }
    KvCall { method: "set_kv".to_owned(), params }
}

/// `set_kv` with `{"key": key, "value": null}`: remove `key`.
pub fn delete_call(key: &str) -> (r: KvCall)
    ensures
        r.method@ == "set_kv"@,
        r.params is Object,
        member(r.params, "key"@) matches Some(JsonValue::Text(t)) && t@ == key@,
        member(r.params, "value"@) == Some(JsonValue::Null),
        forall|k: Seq<char>| k != "key"@ && k != "value"@ ==> #[trigger] member(r.params, k) is None,
{
    let mut params = single_member("key", JsonValue::Text(key.to_owned()));
    proof {
        reveal_strlit("key");
        reveal_strlit("value");
    }
    let ghost p0 = params;
    object_insert(&mut params, "value".to_owned(), JsonValue::Null);
    assert("key"@ != "value"@) by {
        assert("key"@.len() != "value"@.len());
    }
    assert(member(params, "key"@) == member(p0, "key"@));
    assert forall|k: Seq<char>| k != "key"@ && k != "value"@ implies #[trigger] member(params, k)
        is None by {
        assert(member(params, k) == member(p0, k));
    }
    KvCall { method: "set_kv".to_owned(), params }
}

/// `get_kv` with `{"key": null}`: every stored key with its value.
pub fn list_call() -> (r: KvCall)
    ensures
        r.method@ == "get_kv"@,
        r.params is Object,
        member(r.params, "key"@) == Some(JsonValue::Null),
        forall|k: Seq<char>| k != "key"@ ==> #[trigger] member(r.params, k) is None,
{
    let params = single_member("key", JsonValue::Null);
    KvCall { method: "get_kv".to_owned(), params }
}

/// The value a `get_kv` reply gives: the text, when the reply is a string.
pub fn stored_text(reply: &JsonValue) -> (r: Option<String>)
    ensures
        reply matches JsonValue::Text(t) ==> r matches Some(s) && s@ == t@,
        !(reply is Text) ==> r is None,
{
    match reply {
        JsonValue::Text(t) => Some(t.clone()),
        _ => None,
    }
}

/// `m` after writing, in order, each member of `fields` whose value is a
/// string.
pub open spec fn text_members_written(
    m: Map<Seq<char>, Seq<Seq<char>>>,
    fields: Seq<(String, JsonValue)>,
) -> Map<Seq<char>, Seq<Seq<char>>>
    decreases fields.len(),
{
    if fields.len() == 0 {
        m
    } else {
        let before = text_members_written(m, fields.drop_last());
        match fields.last().1 {
            JsonValue::Text(t) => written(before, fields.last().0@, t@),
            _ => before,
        }
    }
}

/// The strings among `items`, in order.
pub open spec fn text_items(items: Seq<JsonValue>) -> Seq<Seq<char>>
    decreases items.len(),
{
    if items.len() == 0 {
        Seq::empty()
    } else {
        let before = text_items(items.drop_last());
        match items.last() {
            JsonValue::Text(t) => before.push(t@),
            _ => before,
        }
    }
}

/// The text a JSON string holds; empty for any other value.
pub open spec fn text_of(v: JsonValue) -> Seq<char> {
    match v {
        JsonValue::Text(t) => t@,
        _ => Seq::empty(),
    }
}

proof fn lemma_text_items_filter(items: Seq<JsonValue>)
    ensures
        text_items(items) == items.filter(|v: JsonValue| v is Text).map_values(
            |v: JsonValue| text_of(v),
        ),
    decreases items.len(),
{
    reveal(Seq::filter);
    if items.len() > 0 {
        let p = items.drop_last();
        lemma_text_items_filter(p);
        let f = p.filter(|v: JsonValue| v is Text);
        assert(items.filter(|v: JsonValue| v is Text) == if items.last() is Text {
            f.push(items.last())
        } else {
            f
        });
        if items.last() is Text {
            assert(f.push(items.last()).map_values(|v: JsonValue| text_of(v)) =~= f.map_values(
                |v: JsonValue| text_of(v),
            ).push(text_of(items.last())));
        }
    }
}

/// The values read from an array reply are exactly its string elements, in
/// order: every string of the array is among them, each of them is a string
/// of the array, and none is dropped or added.
pub proof fn law_reply_values_are_the_strings(items: Vec<JsonValue>)
    ensures
        reply_values(JsonValue::Array(items)) == items@.filter(|v: JsonValue| v is Text).map_values(
            |v: JsonValue| text_of(v),
        ),
        forall|i: int|
            0 <= i < items@.len() && #[trigger] items@[i] is Text ==> reply_values(
                JsonValue::Array(items),
            ).contains(text_of(items@[i])),
        forall|t: Seq<char>|
            #[trigger] reply_values(JsonValue::Array(items)).contains(t) ==> exists|i: int|
                0 <= i < items@.len() && #[trigger] items@[i] is Text && text_of(items@[i]) == t,
{
    let s = items@;
    lemma_text_items_filter(s);
    let f = s.filter(|v: JsonValue| v is Text);
    let vals = reply_values(JsonValue::Array(items));
    assert forall|i: int| 0 <= i < s.len() && #[trigger] s[i] is Text implies vals.contains(
        text_of(s[i]),
    ) by {
        s.lemma_filter_contains(|v: JsonValue| v is Text, i);
        let k = choose|k: int| 0 <= k < f.len() && f[k] == s[i];
        assert(vals[k] == text_of(s[i]));
    }
    assert forall|t: Seq<char>| #[trigger] vals.contains(t) implies exists|i: int|
        0 <= i < items@.len() && #[trigger] items@[i] is Text && text_of(items@[i]) == t by {
        let k = choose|k: int| 0 <= k < vals.len() && vals[k] == t;
        s.lemma_filter_pred(|v: JsonValue| v is Text, k);
        assert(f.contains(f[k]));
        s.lemma_filter_contains_rev(|v: JsonValue| v is Text, f[k]);
        let i = choose|i: int| 0 <= i < s.len() && s[i] == f[k];
        assert(text_of(items@[i]) == vals[k]);
        assert(0 <= i < items@.len() && items@[i] is Text);
    }
}

/// The values a reply gives for a key written several times: the string, or
/// the strings of an array, in order; none for any other reply.
pub open spec fn reply_values(reply: JsonValue) -> Seq<Seq<char>> {
    match reply {
        JsonValue::Text(t) => seq![t@],
        JsonValue::Array(items) => text_items(items@),
        _ => Seq::empty(),
    }
}

/// The values a `get_kv` reply gives for a key written several times.
pub fn stored_values(reply: &JsonValue) -> (r: Vec<String>)
    ensures
        texts(r@) == reply_values(*reply),
        reply matches JsonValue::Text(t) ==> texts(r@) == seq![t@],
        !(reply is Text || reply is Array) ==> r@.len() == 0,
        reply matches JsonValue::Array(items) ==> texts(r@) == items@.filter(
            |v: JsonValue| v is Text,
        ).map_values(|v: JsonValue| text_of(v)),
        reply matches JsonValue::Array(items) ==> forall|i: int|
            0 <= i < items@.len() && #[trigger] items@[i] is Text ==> texts(r@).contains(
                text_of(items@[i]),
            ),
{
    let mut out: Vec<String> = Vec::new();
    match reply {
        JsonValue::Text(t) => {
            out.push(t.clone());
            assert(texts(out@) =~= seq![t@]);
        },
        JsonValue::Array(items) => {
            let mut i: usize = 0;
            assert(texts(out@) =~= Seq::<Seq<char>>::empty());
            while i < items.len()
                invariant
                    i <= items@.len(),
                    texts(out@) == text_items(items@.subrange(0, i as int)),
                decreases items@.len() - i,
            {
                assert(items@.subrange(0, i as int + 1).drop_last() =~= items@.subrange(0, i as int));
                match &items[i] {
                    JsonValue::Text(t) => {
                        let ghost before = out@;
                        out.push(t.clone());
                        assert(texts(out@) =~= texts(before).push(t@));
                    },
                    _ => {},
                }
                i = i + 1;
            }
            assert(items@.subrange(0, items@.len() as int) =~= items@);
            proof {
                law_reply_values_are_the_strings(*items);
            }
        },
        _ => {
            assert(texts(out@) =~= Seq::<Seq<char>>::empty());
        },
    }
    out
}

/// The store a listing reply describes: the members of an object whose
/// values are strings; an empty store for any other reply.
pub fn stored_entries(reply: &JsonValue) -> (r: KvStore)
    ensures
        reply matches JsonValue::Object(fields) ==> r@ == text_members_written(Map::empty(), fields@),
        !(reply is Object) ==> r@ == Map::<Seq<char>, Seq<Seq<char>>>::empty(),
{
    let mut store = KvStore::new();
    match reply {
        JsonValue::Object(fields) => {
            let mut i: usize = 0;
            while i < fields.len()
                invariant
                    i <= fields@.len(),
                    store@ == text_members_written(Map::empty(), fields@.subrange(0, i as int)),
                decreases fields@.len() - i,
            {
                assert(fields@.subrange(0, i as int + 1).drop_last() =~= fields@.subrange(
                    0,
                    i as int,
                ));
                match &fields[i].1 {
                    JsonValue::Text(t) => {
                        store.set(fields[i].0.clone(), t.clone());
                    },
                    _ => {},
                }
                i = i + 1;
            }
            assert(fields@.subrange(0, fields@.len() as int) =~= fields@);
        },
        _ => {},
    }
    store
}

} // verus!
