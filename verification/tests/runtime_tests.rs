use ws_mock::config::ServerConfig;
use ws_mock::events::{EventDirection, EventLevel, EventSource, Notice, RuntimeEvent};
use ws_mock::peer::{
    client_reader_step, greeting_step, server_accept_step, server_peer_step, AcceptInput, Outgoing,
    PeerInput, WsInbound,
};
use ws_mock::runtime::{sorted_server_peers, RuntimeInner, ServerPeer, MAX_EVENTS};

fn config(auto_reply: bool, send_greeting: bool, greeting: &str) -> ServerConfig {
    ServerConfig {
        host: "127.0.0.1".into(),
        port: 9001,
        path: "/mock".into(),
        auto_reply,
        send_greeting,
        response_template: r#"{"echo":"{{message}}","peer":"{{peerId}}"}"#.into(),
        greeting_template: greeting.into(),
    }
}

fn event(title: &str) -> RuntimeEvent {
    RuntimeEvent::new(
        EventSource::System,
        EventDirection::Lifecycle,
        EventLevel::Info,
        title.to_string(),
        None,
        None,
    )
}

fn peer(id: &str, at: &str) -> ServerPeer {
    ServerPeer { id: id.into(), address: "127.0.0.1:1".into(), connected_at: at.into() }
}

#[test]
fn fresh_runtime_shows_nothing() {
    let rt = RuntimeInner::new();
    let s = rt.snapshot();
    assert!(!s.server.running);
    assert!(s.server.endpoint.is_none());
    assert!(s.server.config.is_none());
    assert_eq!(s.server.client_count, 0);
    assert!(!s.client.connected);
    assert!(s.client.url.is_none());
    assert!(s.server_clients.is_empty());
    assert!(s.events.is_empty());
}

#[test]
fn event_stream_keeps_the_newest_events() {
    let mut rt = RuntimeInner::default();
    for i in 0..(MAX_EVENTS + 100) {
        let s = rt.push_event(event(&format!("e{}", i)));
        assert_eq!(s.events.len(), (i + 1).min(MAX_EVENTS));
        assert_eq!(s.events.last().unwrap().title, format!("e{}", i));
    }
    rt.check_invariant();
    let s = rt.snapshot();
    assert_eq!(s.events.len(), MAX_EVENTS);
    assert_eq!(s.events[0].title, "e100");
    assert_eq!(s.events[MAX_EVENTS - 1].title, format!("e{}", MAX_EVENTS + 99));
}

#[test]
fn events_get_fresh_identifiers_and_times() {
    let a = event("a");
    let b = event("b");
    assert_ne!(a.id, b.id);
    assert_eq!(a.id.len(), 36);
    assert!(a.timestamp.contains('T'));
}

#[test]
fn server_start_and_stop() {
    let mut rt = RuntimeInner::new();
    let c = rt.begin_server_start(config(true, false, "")).unwrap();
    assert_eq!(c.path, "/mock");
    let e = rt.finish_server_start(c);
    assert_eq!(e.event.title, "服务端已启动");
    assert_eq!(e.event.payload.as_deref(), Some("ws://127.0.0.1:9001/mock"));
    assert_eq!(e.event.source, EventSource::Server);
    assert!(e.snapshot.server.running);
    assert_eq!(e.snapshot.server.endpoint.as_deref(), Some("ws://127.0.0.1:9001/mock"));

    let again = rt.begin_server_start(config(true, false, "")).unwrap_err();
    assert_eq!(again, "服务端已经在运行");

    rt.register_peer("10.0.0.1:5".into());
    let stop = rt.stop_server();
    assert_eq!(stop.peers.len(), 1);
    let em = stop.emission.unwrap();
    assert_eq!(em.event.title, "服务端已停止");
    assert_eq!(em.event.payload.as_deref(), Some("ws://127.0.0.1:9001/mock"));
    assert!(!em.snapshot.server.running);
    assert_eq!(em.snapshot.server.client_count, 0);

    let idle = rt.stop_server();
    assert!(idle.emission.is_none());
    assert!(idle.peers.is_empty());
}

#[test]
fn server_start_refuses_bad_templates() {
    let mut rt = RuntimeInner::new();
    let mut c = config(true, false, "");
    c.response_template = "{{message}}".into();
    let e = rt.begin_server_start(c).unwrap_err();
    assert!(e.starts_with("渲染后的 JSON 无效："));

    let e = rt.begin_server_start(config(true, true, "not json")).unwrap_err();
    assert!(e.starts_with("渲染后的 JSON 无效："));

    assert!(rt.begin_server_start(config(true, false, "not json")).is_ok());
    assert!(rt.begin_server_start(config(true, true, "   ")).is_ok());

    let mut c = config(true, false, "");
    c.port = 0;
    assert_eq!(rt.begin_server_start(c).unwrap_err(), "端口必须大于 0");
}

#[test]
fn server_start_forgets_old_connections() {
    let mut rt = RuntimeInner::new();
    rt.register_peer("a".into());
    assert_eq!(rt.server_status().client_count, 1);
    rt.begin_server_start(config(false, false, "")).unwrap();
    assert_eq!(rt.server_status().client_count, 0);
}

#[test]
fn server_send_plans() {
    let mut rt = RuntimeInner::new();
    let e = rt.plan_server_send(None, "{\"a\":1}").unwrap_err();
    assert_eq!(e, "服务端未运行");
    let e = rt.plan_server_send(None, "{bad").unwrap_err();
    assert!(e.starts_with("服务端发送内容不是有效 JSON："));

    let c = rt.begin_server_start(config(true, false, "")).unwrap();
    rt.finish_server_start(c);
    let (p1, _) = rt.register_peer("a".into());
    let (p2, _) = rt.register_peer("b".into());

    let all = rt.plan_server_send(None, "1").unwrap();
    assert_eq!(all, vec![p1.id.clone(), p2.id.clone()]);
    let all = rt.plan_server_send(Some("  ".into()), "1").unwrap();
    assert_eq!(all.len(), 2);
    let all = rt.plan_server_send(Some("__broadcast__".into()), "1").unwrap();
    assert_eq!(all.len(), 2);
    let one = rt.plan_server_send(Some(p2.id.clone()), "1").unwrap();
    assert_eq!(one, vec![p2.id.clone()]);
    let e = rt.plan_server_send(Some("nobody".into()), "1").unwrap_err();
    assert_eq!(e, "目标连接不存在");
    let e = rt.plan_server_send(Some(format!(" {}", p2.id)), "1").unwrap_err();
    assert_eq!(e, "目标连接不存在");
}

#[test]
fn server_send_counts_deliveries() {
    let mut rt = RuntimeInner::new();
    let msg = String::from("{\"x\":1}");
    let (result, emitted) = rt.finish_server_send(
        vec![("a".into(), true), ("b".into(), false), ("c".into(), true)],
        &msg,
    );
    assert_eq!(result.sent, 2);
    assert_eq!(emitted.len(), 2);
    assert_eq!(emitted[0].event.peer_id.as_deref(), Some("a"));
    assert_eq!(emitted[1].event.peer_id.as_deref(), Some("c"));
    assert_eq!(emitted[1].event.title, "服务端发送消息");
    assert_eq!(emitted[1].event.payload.as_deref(), Some("{\"x\":1}"));
    assert_eq!(emitted[1].event.direction, EventDirection::Outbound);
    assert_eq!(emitted[0].snapshot.events.len(), 1);
    assert_eq!(emitted[1].snapshot.events.len(), 2);
}

#[test]
fn client_lifecycle() {
    let mut rt = RuntimeInner::new();
    assert_eq!(rt.plan_client_send("{}").unwrap_err(), "客户端未连接");
    assert_eq!(
        rt.begin_client_connect("ftp://x".into()).unwrap_err(),
        "WebSocket 地址必须以 ws:// 或 wss:// 开头"
    );
    let url = rt.begin_client_connect("  ws://localhost:9001/mock ".into()).unwrap();
    assert_eq!(url, "ws://localhost:9001/mock");
    let (conn, em) = rt.finish_client_connect(url.clone());
    assert_eq!(em.event.title, "客户端已连接");
    assert_eq!(em.snapshot.client.url.as_deref(), Some("ws://localhost:9001/mock"));
    assert!(em.snapshot.client.connected);
    assert_eq!(rt.begin_client_connect(url.clone()).unwrap_err(), "客户端已经连接");

    assert!(rt.plan_client_send("{}").is_ok());
    assert!(rt.plan_client_send("nope").unwrap_err().starts_with("客户端发送内容不是有效 JSON："));
    assert_eq!(rt.finish_client_send(false, "{}".into()).unwrap_err(), "客户端发送失败");
    let (sent, em) = rt.finish_client_send(true, "{}".into()).unwrap();
    assert_eq!(sent.sent, 1);
    assert_eq!(em.event.title, "客户端发送消息");

    assert!(rt.client_reader_stopped(&"other".to_string(), url.clone()).is_none());
    assert!(rt.client_status().connected);
    let em = rt.client_reader_stopped(&conn, url.clone()).unwrap();
    assert_eq!(em.event.title, "客户端已断开");
    assert!(!rt.client_status().connected);
    assert!(rt.disconnect_client().is_none());
}

#[test]
fn disconnect_records_the_url() {
    let mut rt = RuntimeInner::new();
    rt.finish_client_connect("ws://a".into());
    let em = rt.disconnect_client().unwrap();
    assert_eq!(em.event.payload.as_deref(), Some("ws://a"));
    assert!(!em.snapshot.client.connected);
}

#[test]
fn peers_join_and_leave() {
    let mut rt = RuntimeInner::new();
    let (p, em) = rt.register_peer("1.2.3.4:5".into());
    assert_eq!(em.event.title, "客户端接入服务端");
    assert_eq!(em.event.payload.as_deref(), Some("1.2.3.4:5"));
    assert_eq!(em.event.peer_id.as_deref(), Some(p.id.as_str()));
    assert_eq!(em.snapshot.server_clients.len(), 1);
    rt.unregister_peer(&p.id);
    assert!(rt.snapshot().server_clients.is_empty());
    assert_eq!(rt.server_status().client_count, 0);
    let em = rt.push_notice(Notice::PeerLeft { address: "1.2.3.4:5".into(), peer_id: p.id.clone() });
    assert_eq!(em.event.title, "客户端离开服务端");
    assert_eq!(em.event.payload.as_deref(), Some("1.2.3.4:5"));
    assert!(em.snapshot.server_clients.is_empty());
    rt.unregister_peer(&p.id);
    assert!(rt.snapshot().server_clients.is_empty());
}

fn is_uuid_v4(s: &str) -> bool {
    let b = s.as_bytes();
    b.len() == 36
        && b.iter().enumerate().all(|(i, c)| match i {
            8 | 13 | 18 | 23 => *c == b'-',
            14 => *c == b'4',
            19 => matches!(*c, b'8' | b'9' | b'a' | b'b'),
            _ => c.is_ascii_digit() || (b'a'..=b'f').contains(c),
        })
}

fn is_utc_time(s: &str) -> bool {
    let b = s.as_bytes();
    b.len() >= 25
        && s.ends_with("+00:00")
        && b[4] == b'-'
        && b[7] == b'-'
        && b[10] == b'T'
        && b[13] == b':'
        && b[16] == b':'
}

#[test]
fn drawn_identifiers_and_times_have_their_fixed_form() {
    let e = event("a");
    assert!(is_uuid_v4(&e.id), "{}", e.id);
    assert!(is_utc_time(&e.timestamp), "{}", e.timestamp);
    let mut rt = RuntimeInner::new();
    let (p, em) = rt.register_peer("9.9.9.9:9".into());
    assert!(is_uuid_v4(&p.id));
    assert!(is_utc_time(&p.connected_at));
    assert!(is_uuid_v4(&em.event.id));
    let (conn, _) = rt.finish_client_connect("ws://a".into());
    assert!(is_uuid_v4(&conn));
}

#[test]
fn automatic_reply_carries_a_fresh_request_id_and_time() {
    let mut c = config(true, false, "");
    c.response_template = r#"{"r":"{{requestId}}","t":"{{timestamp}}"}"#.into();
    let step = server_peer_step(
        &c,
        &"p1".to_string(),
        &"1.1.1.1:1".to_string(),
        PeerInput::Inbound(WsInbound::Text("hi".into())),
    );
    let text = match step.outgoing {
        Some(Outgoing::Text(t)) => t,
        other => panic!("unexpected {:?}", other),
    };
    let v: serde_json::Value = serde_json::from_str(&text).unwrap();
    assert!(is_uuid_v4(v["r"].as_str().unwrap()), "{}", text);
    assert!(is_utc_time(v["t"].as_str().unwrap()), "{}", text);
}

#[test]
fn listener_serves_until_a_failure_or_shutdown() {
    let s = server_accept_step(AcceptInput::Accepted);
    assert!(s.serve && !s.stop && s.notice.is_none());
    let s = server_accept_step(AcceptInput::Shutdown);
    assert!(!s.serve && s.stop && s.notice.is_none());
    let s = server_accept_step(AcceptInput::Failed("boom".into()));
    assert!(!s.serve && s.stop);
    let e = s.notice.unwrap().into_event();
    assert_eq!(e.title, "服务端接收连接失败");
    assert_eq!(e.payload.as_deref(), Some("boom"));
}

#[test]
fn peers_are_sorted_by_connection_time() {
    let peers = vec![
        peer("c", "2024-01-03T00:00:00+00:00"),
        peer("a", "2024-01-01T00:00:00+00:00"),
        peer("b", "2024-01-02T00:00:00+00:00"),
        peer("d", "2024-01-01T00:00:00.5+00:00"),
    ];
    let sorted = sorted_server_peers(&peers);
    let ids: Vec<&str> = sorted.iter().map(|p| p.id.as_str()).collect();
    assert_eq!(ids, vec!["a", "d", "b", "c"]);
    assert!(sorted_server_peers(&Vec::new()).is_empty());
}

#[test]
fn notices_become_events() {
    let e = Notice::HandshakeFailed { address: "1.1.1.1:2".into(), error: "bad".into() }.into_event();
    assert_eq!(e.title, "WebSocket 握手失败");
    assert_eq!(e.payload.as_deref(), Some("1.1.1.1:2: bad"));
    assert_eq!(e.level, EventLevel::Warning);
    let e = Notice::PeerBinaryReceived { len: 1024, peer_id: "p".into() }.into_event();
    assert_eq!(e.payload.as_deref(), Some("1024 bytes"));
    assert_eq!(e.title, "服务端收到二进制消息");
    let e = Notice::ClientBinaryReceived { len: 0 }.into_event();
    assert_eq!(e.payload.as_deref(), Some("0 bytes"));
    assert!(e.peer_id.is_none());
    let e = Notice::AcceptFailed { error: "x".into() }.into_event();
    assert_eq!(e.level, EventLevel::Error);
    assert_eq!(e.title, "服务端接收连接失败");
}

#[test]
fn peer_answers_text_with_the_response_template() {
    let c = config(true, false, "");
    let id = String::from("peer-1");
    let addr = String::from("1.2.3.4:5");
    let step = server_peer_step(&c, &id, &addr, PeerInput::Inbound(WsInbound::Text("hi \"you\"".into())));
    assert_eq!(step.notices.len(), 1);
    match &step.outgoing {
        Some(Outgoing::Text(t)) => assert_eq!(t, r#"{"echo":"hi \"you\"","peer":"peer-1"}"#),
        other => panic!("unexpected {:?}", other),
    }
    assert!(matches!(step.on_delivery, Some(Notice::AutoReplied { .. })));
    assert!(!step.stop);
}

#[test]
fn peer_reports_a_bad_response_template() {
    let mut c = config(true, false, "");
    c.response_template = "{{message}}".into();
    let id = String::from("p");
    let addr = String::from("a");
    let step = server_peer_step(&c, &id, &addr, PeerInput::Inbound(WsInbound::Text("x".into())));
    assert_eq!(step.notices.len(), 2);
    assert!(matches!(step.notices[1], Notice::AutoReplyFailed { .. }));
    assert!(step.outgoing.is_none());
}

#[test]
fn peer_without_auto_reply_only_records() {
    let c = config(false, false, "");
    let id = String::from("p");
    let addr = String::from("a");
    let step = server_peer_step(&c, &id, &addr, PeerInput::Inbound(WsInbound::Text("x".into())));
    assert_eq!(step.notices.len(), 1);
    assert!(step.outgoing.is_none());
    assert!(step.on_delivery.is_none());
}

#[test]
fn peer_control_inputs() {
    let c = config(false, false, "");
    let id = String::from("p");
    let addr = String::from("a");
    let s = server_peer_step(&c, &id, &addr, PeerInput::Shutdown);
    assert!(matches!(s.outgoing, Some(Outgoing::Close)) && s.stop);
    let s = server_peer_step(&c, &id, &addr, PeerInput::ShutdownLagged);
    assert!(s.outgoing.is_none() && !s.stop && s.notices.is_empty());
    let s = server_peer_step(&c, &id, &addr, PeerInput::ShutdownClosed);
    assert!(s.stop);
    let s = server_peer_step(&c, &id, &addr, PeerInput::WriterClosed);
    assert!(s.stop && matches!(s.notices[0], Notice::WriterClosed { .. }));
    let s = server_peer_step(&c, &id, &addr, PeerInput::HeartbeatDue);
    assert!(matches!(s.outgoing, Some(Outgoing::Ping)) && s.stop_if_undelivered && !s.stop);
    let s = server_peer_step(&c, &id, &addr, PeerInput::Ended);
    assert!(s.stop && s.outgoing.is_none());
    let s = server_peer_step(&c, &id, &addr, PeerInput::Inbound(WsInbound::Ping(vec![1, 2])));
    assert!(matches!(&s.outgoing, Some(Outgoing::Pong(b)) if b == &vec![1, 2]));
    let s = server_peer_step(&c, &id, &addr, PeerInput::Inbound(WsInbound::Close));
    assert!(matches!(s.outgoing, Some(Outgoing::EchoClose)) && s.stop);
    let s = server_peer_step(&c, &id, &addr, PeerInput::Inbound(WsInbound::Binary(3)));
    assert!(matches!(s.notices[0], Notice::PeerBinaryReceived { len: 3, .. }));
    let s = server_peer_step(&c, &id, &addr, PeerInput::Inbound(WsInbound::Failed("boom".into())));
    assert!(s.stop && matches!(s.notices[0], Notice::PeerConnectionFailed { .. }));
    let s = server_peer_step(&c, &id, &addr, PeerInput::Inbound(WsInbound::Pong));
    assert!(!s.stop && s.notices.is_empty() && s.outgoing.is_none());
}

#[test]
fn greeting_is_sent_only_when_due() {
    let id = String::from("peer-7");
    let s = greeting_step(&config(true, false, "{\"hi\":1}"), &id);
    assert!(s.outgoing.is_none() && s.notices.is_empty());
    let s = greeting_step(&config(true, true, "  "), &id);
    assert!(s.outgoing.is_none() && s.notices.is_empty());
    let s = greeting_step(&config(true, true, "{\"hello\":\"{{peerId}}\"}"), &id);
    match &s.outgoing {
        Some(Outgoing::Text(t)) => assert_eq!(t, "{\"hello\":\"peer-7\"}"),
        other => panic!("unexpected {:?}", other),
    }
    assert!(matches!(s.on_delivery, Some(Notice::GreetingSent { .. })));
    let s = greeting_step(&config(true, true, "oops"), &id);
    assert!(matches!(s.notices[0], Notice::GreetingFailed { .. }));
}

#[test]
fn client_reader_steps() {
    let s = client_reader_step(WsInbound::Text("t".into()));
    assert!(!s.stop && matches!(s.notice, Some(Notice::ClientMessageReceived { .. })));
    let s = client_reader_step(WsInbound::Binary(9));
    assert!(matches!(s.notice, Some(Notice::ClientBinaryReceived { len: 9 })));
    let s = client_reader_step(WsInbound::Close);
    assert!(s.stop && s.notice.is_none());
    let s = client_reader_step(WsInbound::Failed("e".into()));
    assert!(s.stop && matches!(s.notice, Some(Notice::ClientConnectionFailed { .. })));
    let s = client_reader_step(WsInbound::Ping(vec![]));
    assert!(!s.stop && s.notice.is_none());
}
