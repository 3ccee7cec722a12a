use deepseek_desktop::lmstudio::{
    interpret_lm_response, lm_request_text, models_of_tree, parse_lm_url, response_models, JsonTree,
};

#[test]
fn parses_default_lm_url() {
    let (host, port, path) = parse_lm_url("http://127.0.0.1:1234/v1/models").unwrap();
    assert_eq!(host, "127.0.0.1");
    assert_eq!(port, 1234);
    assert_eq!(path, "/v1/models");
    let (host, port, path) = parse_lm_url("http://lm.local/v1").unwrap();
    assert_eq!((host.as_str(), port, path.as_str()), ("lm.local", 80, "/v1"));
}

#[test]
fn lm_url_errors() {
    assert_eq!(parse_lm_url("http://host:99999/v1").unwrap_err(), "LM Studio URL 端口无效");
    assert_eq!(parse_lm_url("http://host:1234").unwrap_err(), "LM Studio URL 缺少主机或路径");
    assert_eq!(parse_lm_url("http://:1234/v1").unwrap_err(), "LM Studio URL 缺少主机或路径");
    assert_eq!(
        parse_lm_url("ftp://host/v1").unwrap_err(),
        "LM Studio API 地址必须是不含凭据的 HTTP(S) URL"
    );
}

#[test]
fn builds_http_request() {
    assert_eq!(
        lm_request_text("127.0.0.1", "/v1/models"),
        "GET /v1/models HTTP/1.1\r\nHost: 127.0.0.1\r\nConnection: close\r\n\r\n"
    );
}

#[test]
fn reads_model_ids_from_the_response() {
    let body = r#"{"data":[{"id":"qwen3.6-35b-a3b-nvfp4"},{"object":"model"},{"id":"qwen3.8-27b-nvfp4"}]}"#;
    assert_eq!(response_models(body), vec!["qwen3.6-35b-a3b-nvfp4", "qwen3.8-27b-nvfp4"]);
    assert!(response_models("not json").is_empty());
    let response = format!("HTTP/1.1 200 OK\r\nContent-Type: application/json\r\n\r\n{}", body);
    let status = interpret_lm_response("http://x/v1/models", &response, "7".into());
    assert!(status.reachable);
    assert_eq!(status.models.len(), 2);
    assert_eq!(status.error, None);
    assert_eq!(status.checked_at, "7");
}

#[test]
fn reports_bad_status_line() {
    let status = interpret_lm_response("u", "HTTP/1.1 404 Not Found\r\nX: y\r\n\r\n{}", "1".into());
    assert!(!status.reachable);
    assert_eq!(status.error.as_deref(), Some("LM Studio 返回异常状态: HTTP/1.1 404 Not Found"));
    let status = interpret_lm_response("u", "garbage", "1".into());
    assert_eq!(status.error.as_deref(), Some("LM Studio 返回异常状态: 未知"));
}

#[test]
fn model_ids_keep_order_and_skip_non_strings() {
    let body = r#"{"object":"list","data":[{"id":"b"},{"id":7},{"id":"a","x":[1,2]},"c",{"id":null}]}"#;
    assert_eq!(response_models(body), vec!["b", "a"]);
    assert!(response_models(r#"{"data":{"id":"x"}}"#).is_empty());
    assert!(response_models(r#"[{"id":"x"}]"#).is_empty());
    assert!(response_models(r#"{"data":[{"id":"x"}]} trailing"#).is_empty());
    let response = format!("HTTP/2 200\r\n\r\n{}", body);
    let status = interpret_lm_response("u", &response, "1".into());
    assert_eq!(status.models, vec!["b", "a"]);
}

#[test]
fn model_ids_of_given_trees() {
    let entry = |id: JsonTree| JsonTree::Object(vec![("id".to_string(), id)]);
    let tree = JsonTree::Object(vec![
        ("object".to_string(), JsonTree::Text("list".into())),
        (
            "data".to_string(),
            JsonTree::Array(vec![
                entry(JsonTree::Text("m1".into())),
                entry(JsonTree::Number("3".into())),
                JsonTree::Text("m9".into()),
                entry(JsonTree::Text("m2".into())),
            ]),
        ),
    ]);
    assert_eq!(models_of_tree(&Some(tree)), vec!["m1", "m2"]);
    assert!(models_of_tree(&None).is_empty());
    assert!(models_of_tree(&Some(JsonTree::Array(vec![entry(JsonTree::Text("x".into()))]))).is_empty());
    assert!(models_of_tree(&Some(JsonTree::Object(vec![("data".to_string(), JsonTree::Null)]))).is_empty());
}
