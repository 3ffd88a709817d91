use serde_json::Value;

fn value(t: &str) -> Value {
    serde_json::from_str(t).unwrap()
}
use solana_rpc_client_types::request::RpcRequest;
use spume::error::{ClientError, ErrorData, JsonRpcError};
use spume::json::{Json, JsonNumber};
use spume::provider::{
    classify_response, HttpProvider, RequestIds, ResponseOutcome, DEFAULT_MAX_RESPONSE_SIZE,
};
use spume::rpc::{frame_request, optional_params_text, params_text, quote_json_string};
use spume::WasmClient;

fn text(s: &str) -> Json {
    Json::Str(s.to_string())
}

#[test]
fn client_keeps_its_url() {
    let client = WasmClient::new("https://api.mainnet-beta.solana.com");
    assert_eq!(client.url(), "https://api.mainnet-beta.solana.com");
}

#[test]
fn provider_defaults() {
    let p = HttpProvider::new("http://127.0.0.1:8899");
    assert_eq!(p.url(), "http://127.0.0.1:8899");
    assert_eq!(p.timeout(), 60000);
    assert_eq!(p.max_response_size(), 10 * 1024 * 1024);
    assert_eq!(DEFAULT_MAX_RESPONSE_SIZE, 10485760);
    assert!(p.headers().is_empty());
}

#[test]
fn provider_with_timeout() {
    let p = HttpProvider::new_with_timeout("http://x", 1500);
    assert_eq!(p.timeout(), 1500);
    assert_eq!(p.max_response_size(), DEFAULT_MAX_RESPONSE_SIZE);
}

#[test]
fn headers_accumulate_in_order() {
    let p = HttpProvider::new("http://x")
        .with_header("x-api-key", "test-key-123")
        .with_header("authorization", "Bearer some-token");
    let h = p.headers();
    assert_eq!(h.len(), 2);
    assert_eq!(h[0], ("x-api-key".to_string(), "test-key-123".to_string()));
    assert_eq!(h[1], ("authorization".to_string(), "Bearer some-token".to_string()));
    assert_eq!(p.timeout(), 60000);
}

#[test]
fn client_builders_forward() {
    let c = WasmClient::new("http://x").with_max_response_size(8).with_header("a", "b");
    assert_eq!(c.provider().max_response_size(), 8);
    assert_eq!(c.provider().headers().len(), 1);
    assert_eq!(c.url(), "http://x");
}

#[test]
fn ids_count_up_from_one() {
    let p = HttpProvider::new("http://x");
    let mut ids = RequestIds::new();
    assert_eq!(p.next_id(&mut ids), 1);
    assert_eq!(p.next_id(&mut ids), 2);
    assert_eq!(p.next_id(&mut ids), 3);
}

#[test]
fn request_body_matches_the_solana_envelope() {
    let c = WasmClient::new("http://x");
    let mut ids = RequestIds::new();
    let body = c.request_body(&mut ids, "getHealth", "[]");
    let expected = RpcRequest::GetHealth.build_request_json(1, value("[]")).to_string();
    assert_eq!(body, expected);
    assert_eq!(body, r#"{"id":1,"jsonrpc":"2.0","method":"getHealth","params":[]}"#);
    let params = value(r#"["11111111111111111111111111111111", null]"#);
    let body2 = c.request_body(&mut ids, "getBalance", &params.to_string());
    let expected2 = RpcRequest::GetBalance.build_request_json(2, params).to_string();
    assert_eq!(body2, expected2);
}

#[test]
fn frame_request_exact_text() {
    assert_eq!(
        frame_request(18446744073709551615, "slotSubscribe", "[]"),
        r#"{"id":18446744073709551615,"jsonrpc":"2.0","method":"slotSubscribe","params":[]}"#
    );
}

#[test]
fn method_names_are_quoted_as_serde_renders_them() {
    let body = frame_request(3, "we\"ird\\name", "[]");
    let method = serde_json::to_string("we\"ird\\name").unwrap();
    assert_eq!(method, r#""we\"ird\\name""#);
    assert_eq!(body, format!(r#"{{"id":3,"jsonrpc":"2.0","method":{method},"params":[]}}"#));
}

#[test]
fn declared_oversize_is_refused_before_the_body() {
    let p = HttpProvider::new("http://x").with_max_response_size(8);
    assert_eq!(
        p.preflight_content_length(Some("38")),
        Some(ClientError::RequestError("response body too large: 38 bytes (limit: 8)".to_string()))
    );
    assert_eq!(p.preflight_content_length(Some("8")), None);
    assert_eq!(p.preflight_content_length(Some("0")), None);
    assert_eq!(p.preflight_content_length(None), None);
    assert_eq!(p.preflight_content_length(Some("")), None);
    assert_eq!(p.preflight_content_length(Some("12x")), None);
    assert_eq!(
        p.preflight_content_length(Some("99999999999999999999999999")),
        Some(ClientError::RequestError(
            "response body too large: 99999999999999999999999999 bytes (limit: 8)".to_string()
        ))
    );
    let q = HttpProvider::new("http://x");
    assert_eq!(q.preflight_content_length(Some("10485760")), None);
    assert!(q.preflight_content_length(Some("10485761")).is_some());
    let r = HttpProvider::new("http://x").with_max_response_size(usize::MAX);
    assert_eq!(r.preflight_content_length(Some("18446744073709551615")), None);
    assert!(r.preflight_content_length(Some("18446744073709551616")).is_some());
}

#[test]
fn clones_keep_settings_and_share_ids() {
    let p = HttpProvider::new("http://x").with_header("k", "v").with_max_response_size(5);
    let mut ids = RequestIds::new();
    assert_eq!(p.next_id(&mut ids), 1);
    let q = p.clone();
    assert_eq!(q.url(), "http://x");
    assert_eq!(q.headers(), p.headers());
    assert_eq!(q.max_response_size(), 5);
    // Clones share the counter they are handed: ids do not repeat.
    assert_eq!(q.next_id(&mut ids), 2);
    assert_eq!(p.next_id(&mut ids), 3);
    let body = q.request_body(&mut ids, "getSlot", "[]");
    assert_eq!(body, r#"{"id":4,"jsonrpc":"2.0","method":"getSlot","params":[]}"#);
    let c = WasmClient::new("http://y").with_header("a", "b");
    let d = c.clone();
    assert_eq!(d.url(), "http://y");
    assert_eq!(d.provider().headers().len(), 1);
}

#[test]
fn shared_counter_draws_successive_ids() {
    let mut ids = RequestIds::new();
    assert_eq!(ids.next(), 1);
    assert_eq!(ids.next(), 2);
}

#[test]
fn positional_params_match_serde() {
    let items = vec![
        serde_json::to_string("abc").unwrap(),
        "null".to_string(),
        value(r#"{"commitment": "finalized"}"#).to_string(),
    ];
    let expected = value(r#"["abc", null, {"commitment": "finalized"}]"#).to_string();
    assert_eq!(params_text(&items), expected);
    assert_eq!(params_text(&vec![]), "[]");
    assert_eq!(params_text(&vec!["5".to_string()]), "[5]");
}

#[test]
fn absent_positional_is_left_out() {
    assert_eq!(optional_params_text(None), "[]");
    assert_eq!(optional_params_text(Some("720")), "[720]");
}

#[test]
fn oversized_body_is_refused() {
    let p = HttpProvider::new("http://x").with_max_response_size(8);
    let r = p.interpret_response(200, r#"{"jsonrpc":"2.0","result":"ok","id":1}"#);
    assert_eq!(
        r,
        ResponseOutcome::Failed(ClientError::RequestError(
            "response body too large: 38 bytes (limit: 8)".to_string()
        ))
    );
}

#[test]
fn body_at_the_cap_is_read() {
    let p = HttpProvider::new("http://x").with_max_response_size(13);
    let r = p.interpret_response(200, r#"{"result":1}"#);
    assert_eq!(r, ResponseOutcome::Result(Json::Number(JsonNumber::PosInt(1))));
}

#[test]
fn success_yields_result() {
    let p = HttpProvider::new("http://x");
    let r = p.interpret_response(200, r#"{"jsonrpc":"2.0","result":"ok","id":1}"#);
    assert_eq!(r, ResponseOutcome::Result(text("ok")));
}

#[test]
fn null_error_member_is_no_error() {
    let p = HttpProvider::new("http://x");
    let r = p.interpret_response(200, r#"{"error":null,"result":[true,-3]}"#);
    assert_eq!(
        r,
        ResponseOutcome::Result(Json::Array(vec![
            Json::Bool(true),
            Json::Number(JsonNumber::NegInt(-3))
        ]))
    );
}

#[test]
fn error_member_wins_over_status() {
    let p = HttpProvider::new("http://x");
    let body = r#"{"error":{"code":-32005,"message":"Node is behind"},"id":1}"#;
    for status in [200u16, 500u16] {
        match p.interpret_response(status, body) {
            ResponseOutcome::ErrorObject(Json::Object(members)) => {
                assert_eq!(members.len(), 2);
            }
            other => panic!("unexpected {other:?}"),
        }
    }
}

#[test]
fn missing_result_is_parse_error() {
    let p = HttpProvider::new("http://x");
    let r = p.interpret_response(200, r#"{"jsonrpc":"2.0","id":1}"#);
    assert_eq!(r, ResponseOutcome::Failed(ClientError::ParseError("result".to_string())));
}

#[test]
fn bad_json_on_success_is_parse_error() {
    let p = HttpProvider::new("http://x");
    let r = p.interpret_response(200, "not json");
    let expected = serde_json::from_str::<serde_json::Value>("not json").unwrap_err().to_string();
    assert_eq!(r, ResponseOutcome::Failed(ClientError::ParseError(expected)));
}

#[test]
fn bad_json_on_failure_status_is_request_error() {
    let p = HttpProvider::new("http://x");
    let r = p.interpret_response(502, "Bad Gateway");
    assert_eq!(
        r,
        ResponseOutcome::Failed(ClientError::RequestError("HTTP 502: Bad Gateway".to_string()))
    );
}

#[test]
fn json_without_error_on_failure_status_is_request_error() {
    let p = HttpProvider::new("http://x");
    let r = p.interpret_response(429, r#"{"result":1}"#);
    assert_eq!(
        r,
        ResponseOutcome::Failed(ClientError::RequestError(r#"HTTP 429: {"result":1}"#.to_string()))
    );
}

#[test]
fn float_results_keep_their_text() {
    let p = HttpProvider::new("http://x");
    let r = p.interpret_response(200, r#"{"result":0.25}"#);
    assert_eq!(r, ResponseOutcome::Result(Json::Number(JsonNumber::Float("0.25".to_string()))));
}

#[test]
fn error_object_with_slots_behind_is_node_unhealthy() {
    let e = JsonRpcError {
        code: -32005,
        message: "Node is behind by 42 slots".to_string(),
        data: Some(Json::Object(vec![(
            "numSlotsBehind".to_string(),
            Json::Number(JsonNumber::PosInt(42)),
        )])),
    };
    assert_eq!(e.rpc_response_error_data(), ErrorData::NodeUnhealthy { num_slots_behind: Some(42) });
    assert_eq!(
        e.into_rpc_error(),
        ClientError::ResponseError {
            code: -32005,
            message: "Node is behind by 42 slots".to_string(),
            data: ErrorData::NodeUnhealthy { num_slots_behind: Some(42) },
        }
    );
}

#[test]
fn error_object_without_detail_is_empty() {
    let cases = vec![
        None,
        Some(Json::Null),
        Some(text("numSlotsBehind")),
        Some(Json::Object(vec![])),
        Some(Json::Object(vec![("numSlotsBehind".to_string(), Json::Number(JsonNumber::NegInt(-1)))])),
        Some(Json::Object(vec![("numSlotsBehind".to_string(), text("5"))])),
    ];
    for data in cases {
        let e = JsonRpcError { code: -32000, message: "m".to_string(), data };
        assert_eq!(e.rpc_response_error_data(), ErrorData::Empty);
    }
}

#[test]
fn classify_reads_given_documents() {
    let frame = Json::Object(vec![
        ("result".to_string(), Json::Number(JsonNumber::PosInt(5))),
        ("error".to_string(), Json::Null),
    ]);
    assert_eq!(
        classify_response(200, "body", Ok(frame)),
        ResponseOutcome::Result(Json::Number(JsonNumber::PosInt(5)))
    );
    let frame = Json::Object(vec![("result".to_string(), Json::Null)]);
    assert_eq!(
        classify_response(503, "body", Ok(frame)),
        ResponseOutcome::Failed(ClientError::RequestError("HTTP 503: body".to_string()))
    );
    assert_eq!(
        classify_response(201, "body", Err("expected value".to_string())),
        ResponseOutcome::Failed(ClientError::ParseError("expected value".to_string()))
    );
    assert_eq!(
        classify_response(200, "body", Ok(Json::Array(vec![]))),
        ResponseOutcome::Failed(ClientError::ParseError("result".to_string()))
    );
}

#[test]
fn strings_are_quoted_as_serde_quotes_them() {
    let cases = [
        "getHealth",
        "",
        "a\"b\\c",
        "\u{8}\t\n\u{c}\r",
        "\u{0}\u{1}\u{1f}\u{1b}",
        " \u{7f}é✓😀/",
    ];
    for case in cases {
        assert_eq!(quote_json_string(case), serde_json::to_string(case).unwrap());
    }
    assert_eq!(quote_json_string("getHealth"), "\"getHealth\"");
    assert_eq!(quote_json_string("\u{1f}"), "\"\\u001f\"");
}
