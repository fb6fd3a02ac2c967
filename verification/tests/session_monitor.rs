use dsh_desktop::session_monitor::{
    cookie_from_set_cookie, exchange_url, list_request_body, list_request_url,
    parse_authenticated, parse_running_sessions, SessionCredentials,
};
use serde_json::Value;

fn object(members: Vec<(&str, Value)>) -> Value {
    let mut map = serde_json::Map::new();
    for (name, value) in members {
        map.insert(name.to_string(), value);
    }
    Value::Object(map)
}

#[test]
fn session_credentials_from_authenticated_url() {
    let creds = SessionCredentials::from_authenticated_url("http://127.0.0.1:3080/?token=AbC_123")
        .expect("应成功解析凭据");
    assert_eq!(creds.origin, "http://127.0.0.1:3080");
    assert_eq!(creds.token.as_deref(), Some("AbC_123"));
    assert_eq!(creds.cookie, None);

    assert!(SessionCredentials::from_authenticated_url("http://127.0.0.1:3080/").is_none());
}

#[test]
fn parse_authenticated_extracts_origin_and_token() {
    let (origin, token) =
        parse_authenticated("http://127.0.0.1:3080/?token=AbC_123-xyz").expect("应解析成功");
    assert_eq!(origin, "http://127.0.0.1:3080");
    assert_eq!(token, "AbC_123-xyz");
    let (origin, token) =
        parse_authenticated("http://127.0.0.1:3080/?token=tk&other=1").expect("应解析成功");
    assert_eq!(origin, "http://127.0.0.1:3080");
    assert_eq!(token, "tk");
}

#[test]
fn parse_authenticated_rejects_plain_url() {
    assert!(parse_authenticated("http://127.0.0.1:3080/").is_none());
    assert!(parse_authenticated("https://example.com/?token=").is_none());
    assert!(parse_authenticated("not a url").is_none());
}

#[test]
fn cookie_from_set_cookie_strips_attributes() {
    let header =
        "dsh-auth-dG9rZW4=v1.payload.sig; Max-Age=2592000; Path=/; HttpOnly; SameSite=Strict";
    assert_eq!(
        cookie_from_set_cookie(header).as_deref(),
        Some("dsh-auth-dG9rZW4=v1.payload.sig")
    );
    assert_eq!(cookie_from_set_cookie("invalid"), None);
    assert_eq!(cookie_from_set_cookie(""), None);
}

#[test]
fn parse_running_sessions_counts_main_and_subagent() {
    let value = object(vec![
        ("type", Value::from("server-response")),
        ("rpcId", Value::from("monitor-1")),
        (
            "result",
            object(vec![
                ("ok", Value::from(true)),
                (
                    "value",
                    object(vec![(
                        "items",
                        Value::Array(vec![
                            object(vec![
                                ("sessionId", Value::from("aaaaaaaa-1111")),
                                ("updatedAt", Value::from(1)),
                                ("running", Value::from(true)),
                            ]),
                            object(vec![
                                ("sessionId", Value::from("bbbbbbbb-2222")),
                                ("updatedAt", Value::from(2)),
                                ("running", Value::from(false)),
                            ]),
                            object(vec![
                                ("sessionId", Value::from("cccccccc-3333")),
                                ("updatedAt", Value::from(3)),
                                ("running", Value::from(true)),
                                ("origin", Value::from("subagent")),
                            ]),
                        ]),
                    )]),
                ),
            ]),
        ),
    ]);
    let snapshot = parse_running_sessions(&value).expect("应解析成功");
    assert_eq!((snapshot.main, snapshot.subagents), (1, 1));
}

#[test]
fn parse_running_sessions_rejects_error_result() {
    let value = object(vec![
        ("type", Value::from("server-response")),
        ("rpcId", Value::from("monitor-2")),
        (
            "result",
            object(vec![
                ("ok", Value::from(false)),
                (
                    "error",
                    object(vec![
                        ("code", Value::from("gateway/bad-request")),
                        ("message", Value::from("x")),
                    ]),
                ),
            ]),
        ),
    ]);
    assert!(parse_running_sessions(&value).is_none());
}

#[test]
fn a_token_is_escaped_in_the_exchange_address() {
    assert_eq!(
        exchange_url("http://127.0.0.1:3080", "a b&c").unwrap(),
        "http://127.0.0.1:3080/?token=a+b%26c"
    );
    assert!(exchange_url("not a url", "x").is_err());
}

#[test]
fn requests_carry_their_number() {
    let body = list_request_body(7);
    assert_eq!(
        body,
        "{\"method\":\"session/list\",\"payload\":{\"args\":{\"_request\":{}}},\"rpcId\":\"monitor-7\",\"type\":\"client-request\"}"
    );
    assert!(serde_json::from_str::<Value>(&body).is_ok());
    assert_eq!(
        list_request_url("http://127.0.0.1:3080"),
        "http://127.0.0.1:3080/api/session/list"
    );
}

#[test]
fn an_address_of_another_scheme_has_no_token() {
    let nested = "blob:".repeat(20_000) + "http://127.0.0.1:3080/?token=tk";
    assert_eq!(parse_authenticated(&nested), None);
    assert_eq!(parse_authenticated("ftp://127.0.0.1/?token=tk"), None);
    for (url, origin) in [
        ("http://h:80/?token=tk", "http://h"),
        ("https://h:443/?token=tk", "https://h"),
        ("http://h:443/a?token=tk", "http://h:443"),
        ("http://[::1]:3080/?token=tk", "http://[::1]:3080"),
    ] {
        assert_eq!(parse_authenticated(url), Some((origin.to_string(), "tk".to_string())));
    }
}

#[test]
fn an_address_for_the_exchange_is_not_too_long() {
    assert!(exchange_url("no origin", "tk").unwrap_err().starts_with("origin 无效："));
    let token = "t".repeat(0x0400_0000);
    assert_eq!(
        exchange_url("http://127.0.0.1:3080", &token).unwrap_err(),
        "origin 无效：地址过长"
    );
}
