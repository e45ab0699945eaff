use serde_json::Value;
use ws_mock::config::{normalize_server_config, normalize_ws_url, server_endpoint, ServerConfig};
use ws_mock::json::{json_string_content, validate_json_text};
use ws_mock::template::{
    render_template, render_template_at, validate_template_json, validate_template_json_at,
};
use ws_mock::text::trim_text;

fn config(host: &str, port: u16, path: &str, response: &str) -> ServerConfig {
    ServerConfig {
        host: host.into(),
        port,
        path: path.into(),
        auto_reply: true,
        send_greeting: false,
        response_template: response.into(),
        greeting_template: String::new(),
    }
}

#[test]
fn template_escapes_inbound_text_inside_json_string() {
    let template = r#"{"echo":"{{message}}","peer":"{{peerId}}"}"#;
    let rendered = render_template(template, r#"{"name":"A \"quoted\" user"}"#, "peer-1", None)
        .expect("template should render");
    let parsed: Value = serde_json::from_str(&rendered).expect("rendered JSON should parse");

    assert_eq!(parsed["echo"], r#"{"name":"A \"quoted\" user"}"#);
    assert_eq!(parsed["peer"], "peer-1");
}

#[test]
fn template_can_embed_inbound_json_as_value() {
    let template = r#"{"echo":{{jsonMessage}}}"#;
    let rendered =
        render_template(template, r#"{"type":"ping"}"#, "peer-1", Some("request-1")).unwrap();
    let parsed: Value = serde_json::from_str(&rendered).unwrap();

    assert_eq!(parsed["echo"]["type"], "ping");
}

#[test]
fn normalizes_path_with_leading_slash() {
    let config = normalize_server_config(ServerConfig {
        host: "127.0.0.1".into(),
        port: 9001,
        path: "mock".into(),
        auto_reply: true,
        send_greeting: false,
        response_template: r#"{"ok":true}"#.into(),
        greeting_template: String::new(),
    })
    .unwrap();

    assert_eq!(config.path, "/mock");
}

#[test]
fn normalize_trims_every_text() {
    let mut c = config("  localhost \t", 8080, "  /ws  ", "  {\"a\":1}\n");
    c.greeting_template = "  hi  ".into();
    let n = normalize_server_config(c).unwrap();
    assert_eq!(n.host, "localhost");
    assert_eq!(n.path, "/ws");
    assert_eq!(n.response_template, "{\"a\":1}");
    assert_eq!(n.greeting_template, "hi");
    assert_eq!(n.port, 8080);
    assert!(n.auto_reply);
}

#[test]
fn normalize_turns_blank_path_into_root() {
    let n = normalize_server_config(config("h", 1, " \u{3000} ", "{}")).unwrap();
    assert_eq!(n.path, "/");
}

#[test]
fn normalize_refuses_blank_host() {
    let e = normalize_server_config(config("  ", 9001, "/", "{}")).unwrap_err();
    assert_eq!(e, "监听地址不能为空");
}

#[test]
fn normalize_refuses_port_zero() {
    let e = normalize_server_config(config("h", 0, "/", "{}")).unwrap_err();
    assert_eq!(e, "端口必须大于 0");
}

#[test]
fn normalize_refuses_blank_response_template() {
    let e = normalize_server_config(config("h", 1, "/", " \n ")).unwrap_err();
    assert_eq!(e, "自动响应模板不能为空");
}

#[test]
fn normalize_checks_host_before_port() {
    let e = normalize_server_config(config("", 0, "/", "")).unwrap_err();
    assert_eq!(e, "监听地址不能为空");
}

#[test]
fn normalizing_twice_changes_nothing() {
    let once = normalize_server_config(config(" h ", 7, " p ", " {} ")).unwrap();
    let twice = normalize_server_config(once.clone()).unwrap();
    assert_eq!(once.host, twice.host);
    assert_eq!(once.path, twice.path);
    assert_eq!(twice.path, "/p");
    assert_eq!(once.response_template, twice.response_template);
}

#[test]
fn ws_url_is_trimmed_and_checked() {
    assert_eq!(normalize_ws_url("  ws://a:1/x ".into()).unwrap(), "ws://a:1/x");
    assert_eq!(normalize_ws_url("wss://b".into()).unwrap(), "wss://b");
    assert_eq!(normalize_ws_url(" \t ".into()).unwrap_err(), "WebSocket 地址不能为空");
    assert_eq!(
        normalize_ws_url("http://a".into()).unwrap_err(),
        "WebSocket 地址必须以 ws:// 或 wss:// 开头"
    );
    assert_eq!(
        normalize_ws_url("ws:/a".into()).unwrap_err(),
        "WebSocket 地址必须以 ws:// 或 wss:// 开头"
    );
}

#[test]
fn endpoint_joins_host_port_and_path() {
    let c = config("127.0.0.1", 9001, "/mock", "{}");
    assert_eq!(server_endpoint(&c), "ws://127.0.0.1:9001/mock");
    let c = config("h", 65535, "/", "{}");
    assert_eq!(server_endpoint(&c), "ws://h:65535/");
    let c = config("h", 7, "/a", "{}");
    assert_eq!(server_endpoint(&c), "ws://h:7/a");
}

#[test]
fn trim_removes_unicode_whitespace_only() {
    assert_eq!(trim_text("\u{a0}\u{2003} x y \u{3000}\n"), "x y");
    assert_eq!(trim_text("\u{200b}x"), "\u{200b}x");
    assert_eq!(trim_text(""), "");
}

#[test]
fn string_content_escapes_like_json() {
    assert_eq!(json_string_content("plain text").unwrap(), "plain text");
    assert_eq!(json_string_content("a\"b\\c").unwrap(), "a\\\"b\\\\c");
    assert_eq!(json_string_content("l1\nl2\t\r").unwrap(), "l1\\nl2\\t\\r");
    assert_eq!(json_string_content("\u{1}\u{1f}").unwrap(), "\\u0001\\u001f");
    assert_eq!(json_string_content("\u{8}\u{c}").unwrap(), "\\b\\f");
    assert_eq!(json_string_content("中文/é").unwrap(), "中文/é");
    assert_eq!(json_string_content("").unwrap(), "");
}

#[test]
fn json_text_is_checked_by_the_parser() {
    assert!(validate_json_text("{\"a\":[1,2]}", "内容").is_ok());
    assert!(validate_json_text("  42 ", "内容").is_ok());
    let e = validate_json_text("{oops", "内容").unwrap_err();
    assert!(e.starts_with("内容不是有效 JSON："));
    assert!(e.len() > "内容不是有效 JSON：".len());
}

#[test]
fn every_placeholder_is_filled() {
    let t = r#"{"m":"{{message}}","j":{{jsonMessage}},"p":"{{peerId}}","r":"{{requestId}}","t":"{{timestamp}}"}"#;
    let out = render_template_at(t, "x", "peer-9", Some("req-3"), "2024-01-02T03:04:05+00:00")
        .unwrap();
    assert_eq!(
        out,
        r#"{"m":"x","j":"x","p":"peer-9","r":"req-3","t":"2024-01-02T03:04:05+00:00"}"#
    );
}

#[test]
fn json_message_is_written_back_compactly() {
    let out = render_template_at("{{jsonMessage}}", "{ \"type\" : \"ping\" }", "p", None, "t").unwrap();
    assert_eq!(out, "{\"type\":\"ping\"}");
}

#[test]
fn missing_request_id_is_empty() {
    let out = render_template_at("[\"{{requestId}}\"]", "", "p", None, "t").unwrap();
    assert_eq!(out, "[\"\"]");
}

#[test]
fn placeholder_is_replaced_everywhere() {
    let out = render_template_at("[\"{{peerId}}\",\"{{peerId}}\"]", "", "a\"b", None, "t").unwrap();
    assert_eq!(out, "[\"a\\\"b\",\"a\\\"b\"]");
}

#[test]
fn template_without_placeholders_is_sent_verbatim() {
    let out = render_template_at("{\"ok\":true}", "anything", "p", Some("r"), "t").unwrap();
    assert_eq!(out, "{\"ok\":true}");
}

#[test]
fn rendering_that_is_not_json_is_refused() {
    let e = render_template_at("{{message}}", "text", "p", None, "t").unwrap_err();
    assert!(e.starts_with("渲染后的 JSON 无效："));
}

#[test]
fn template_check_uses_a_sample_message() {
    assert!(validate_template_json_at("{\"echo\":{{jsonMessage}}}", "模板", "t").is_ok());
    assert!(validate_template_json("{\"peer\":\"{{peerId}}\"}", "模板").is_ok());
    let e = validate_template_json_at("{\"x\":{{message}}}", "模板", "t").unwrap_err();
    assert!(e.starts_with("渲染后的 JSON 无效："));
}

#[test]
fn message_inside_a_json_string_is_carried_as_it_is() {
    let t = r#"{"m":"{{message}}"}"#;
    for inbound in ["plain", "a\"b\\c", "line\nbreak\t\u{1}", "{{message}} {\"x\":1}", "中文", ""] {
        let out = render_template_at(t, inbound, "p\"q", Some("r"), "t").unwrap();
        let parsed: Value = serde_json::from_str(&out).unwrap();
        assert_eq!(parsed["m"], Value::String(inbound.to_string()));
        assert_eq!(out, format!("{{\"m\":{}}}", serde_json::to_string(inbound).unwrap()));
        let now = render_template(t, inbound, "peer", None).unwrap();
        assert_eq!(now, out);
    }
}

#[test]
fn string_content_reads_back_as_the_input() {
    for s in ["", "plain", "q\"uote", "back\\slash", "\u{0}\u{7}\u{8}\u{1f}", "é中文😀", "\r\n\t"] {
        let e = json_string_content(s).unwrap();
        let back: String = serde_json::from_str(&format!("\"{}\"", e)).unwrap();
        assert_eq!(back, s);
        assert!(!e.chars().any(|c| (c as u32) < 0x20));
    }
}
