//! The events that the runtime records, and the table that says what each
//! kind of happening is recorded as.
use vstd::prelude::*;
use crate::stamp::{is_utc_timestamp, is_uuid_v4_text, new_uuid, now_rfc3339};
use crate::text::{chars_of, decimal, push_decimal, push_str, string_of};

verus! {

/// Which side of the tool an event comes from.
#[derive(Clone, Copy, PartialEq, Eq, Structural, Debug)]
pub enum EventSource {
    Server,
    Client,
    System,
}

/// Whether an event is a message in, a message out, or a change of state.
#[derive(Clone, Copy, PartialEq, Eq, Structural, Debug)]
pub enum EventDirection {
    Inbound,
    Outbound,
    Lifecycle,
}

/// How serious an event is.
#[derive(Clone, Copy, PartialEq, Eq, Structural, Debug)]
pub enum EventLevel {
    Info,
    Warning,
    Error,
}

/// One entry of the event stream.
#[derive(Debug)]
pub struct RuntimeEvent {
    pub id: String,
    pub timestamp: String,
    pub source: EventSource,
    pub direction: EventDirection,
    pub level: EventLevel,
    pub title: String,
    pub payload: Option<String>,
    pub peer_id: Option<String>,
}

/// A copy of an optional text.
pub fn copy_text(o: &Option<String>) -> (r: Option<String>)
    ensures
        r == *o,
{
    match o {
        Some(s) => Some(s.clone()),
        None => None,
    }
}

impl Clone for RuntimeEvent {
    fn clone(&self) -> (r: Self)
        ensures
            r == *self,
    {
        RuntimeEvent {
            id: self.id.clone(),
            timestamp: self.timestamp.clone(),
            source: self.source,
            direction: self.direction,
            level: self.level,
            title: self.title.clone(),
            payload: copy_text(&self.payload),
            peer_id: copy_text(&self.peer_id),
        }
    }
}

/// The event carries a fresh identifier and the time it was made.
pub open spec fn stamped(e: RuntimeEvent) -> bool {
    is_uuid_v4_text(e.id@) && is_utc_timestamp(e.timestamp@)
}

impl RuntimeEvent {
    /// A new event with a fresh identifier, stamped with the current time.
    pub fn new(
        source: EventSource,
        direction: EventDirection,
        level: EventLevel,
        title: String,
        payload: Option<String>,
        peer_id: Option<String>,
    ) -> (r: Self)
        ensures
            r.source == source,
            r.direction == direction,
            r.level == level,
            r.title == title,
            r.payload == payload,
            r.peer_id == peer_id,
            stamped(r),
    {
        RuntimeEvent {
            id: new_uuid(),
            timestamp: now_rfc3339(),
            source,
            direction,
            level,
            title,
            payload,
            peer_id,
        }
    }
}

/// The texts of an optional string.
pub open spec fn opt_text(o: Option<String>) -> Option<Seq<char>> {
    match o {
        Some(s) => Some(s@),
        None => None,
    }
}

/// What an event says, apart from its identifier and time.
pub struct EventShape {
    pub source: EventSource,
    pub direction: EventDirection,
    pub level: EventLevel,
    pub title: Seq<char>,
    pub payload: Option<Seq<char>>,
    pub peer_id: Option<Seq<char>>,
}

/// The shape of an event.
pub open spec fn event_shape(e: RuntimeEvent) -> EventShape {
    EventShape {
        source: e.source,
        direction: e.direction,
        level: e.level,
        title: e.title@,
        payload: opt_text(e.payload),
        peer_id: opt_text(e.peer_id),
    }
}

/// Something that happened in the server, in the client or in one of the
/// server's connections, with the data that its event carries.
#[derive(Debug)]
pub enum Notice {
    ServerStarted { endpoint: String },
    ServerStopped { endpoint: String },
    ServerMessageSent { message: String, peer_id: String },
    ClientMessageReceived { text: String },
    ClientBinaryReceived { len: usize },
    ClientConnectionFailed { error: String },
    ClientDisconnected { url: String },
    ClientConnected { url: String },
    ClientMessageSent { message: String },
    AcceptFailed { error: String },
    HandshakeFailed { address: String, error: String },
    PeerJoined { address: String, peer_id: String },
    GreetingSent { greeting: String, peer_id: String },
    GreetingFailed { error: String, peer_id: String },
    WriterClosed { address: String, peer_id: String },
    PeerMessageReceived { text: String, peer_id: String },
    AutoReplied { reply: String, peer_id: String },
    AutoReplyFailed { error: String, peer_id: String },
    PeerBinaryReceived { len: usize, peer_id: String },
    PeerConnectionFailed { error: String, peer_id: String },
    PeerLeft { address: String, peer_id: String },
}

/// The payload of a binary message: its length in bytes.
pub open spec fn bytes_text(len: usize) -> Seq<char> {
    decimal(len as nat) + " bytes"@
}

/// An event shape with a payload.
pub open spec fn shape(
    source: EventSource,
    direction: EventDirection,
    level: EventLevel,
    title: Seq<char>,
    payload: Seq<char>,
    peer_id: Option<Seq<char>>,
) -> EventShape {
    EventShape { source, direction, level, title, payload: Some(payload), peer_id }
}

/// The event that records each kind of happening.
pub open spec fn notice_shape(n: Notice) -> EventShape {
    let (s, c) = (EventSource::Server, EventSource::Client);
    let (i, o, l) = (EventDirection::Inbound, EventDirection::Outbound, EventDirection::Lifecycle);
    let (info, warn, err) = (EventLevel::Info, EventLevel::Warning, EventLevel::Error);
    match n {
        Notice::ServerStarted { endpoint } => shape(s, l, info, "服务端已启动"@, endpoint@, None),
        Notice::ServerStopped { endpoint } => shape(s, l, info, "服务端已停止"@, endpoint@, None),
        Notice::ServerMessageSent { message, peer_id } => shape(
            s,
            o,
            info,
            "服务端发送消息"@,
            message@,
            Some(peer_id@),
        ),
        Notice::ClientMessageReceived { text } => shape(c, i, info, "客户端收到消息"@, text@, None),
        Notice::ClientBinaryReceived { len } => shape(
            c,
            i,
            info,
            "客户端收到二进制消息"@,
            bytes_text(len),
            None,
        ),
        Notice::ClientConnectionFailed { error } => shape(
            c,
            l,
            err,
            "客户端连接异常"@,
            error@,
            None,
        ),
        Notice::ClientDisconnected { url } => shape(c, l, info, "客户端已断开"@, url@, None),
        Notice::ClientConnected { url } => shape(c, l, info, "客户端已连接"@, url@, None),
        Notice::ClientMessageSent { message } => shape(
            c,
            o,
            info,
            "客户端发送消息"@,
            message@,
            None,
        ),
        Notice::AcceptFailed { error } => shape(s, l, err, "服务端接收连接失败"@, error@, None),
        Notice::HandshakeFailed { address, error } => shape(
            s,
            l,
            warn,
            "WebSocket 握手失败"@,
            address@ + ": "@ + error@,
            None,
        ),
        Notice::PeerJoined { address, peer_id } => shape(
            s,
            l,
            info,
            "客户端接入服务端"@,
            address@,
            Some(peer_id@),
        ),
        Notice::GreetingSent { greeting, peer_id } => shape(
            s,
            o,
            info,
            "服务端发送欢迎消息"@,
            greeting@,
            Some(peer_id@),
        ),
        Notice::GreetingFailed { error, peer_id } => shape(
            s,
            l,
            err,
            "欢迎消息模板渲染失败"@,
            error@,
            Some(peer_id@),
        ),
        Notice::WriterClosed { address, peer_id } => shape(
            s,
            l,
            warn,
            "服务端写入通道已关闭"@,
            address@,
            Some(peer_id@),
        ),
        Notice::PeerMessageReceived { text, peer_id } => shape(
            s,
            i,
            info,
            "服务端收到消息"@,
            text@,
            Some(peer_id@),
        ),
        Notice::AutoReplied { reply, peer_id } => shape(
            s,
            o,
            info,
            "服务端自动响应"@,
            reply@,
            Some(peer_id@),
        ),
        Notice::AutoReplyFailed { error, peer_id } => shape(
            s,
            l,
            err,
            "自动响应模板渲染失败"@,
            error@,
            Some(peer_id@),
        ),
        Notice::PeerBinaryReceived { len, peer_id } => shape(
            s,
            i,
            info,
            "服务端收到二进制消息"@,
            bytes_text(len),
            Some(peer_id@),
        ),
        Notice::PeerConnectionFailed { error, peer_id } => shape(
            s,
            l,
            warn,
            "服务端连接异常"@,
            error@,
            Some(peer_id@),
        ),
        Notice::PeerLeft { address, peer_id } => shape(
            s,
            l,
            info,
            "客户端离开服务端"@,
            address@,
            Some(peer_id@),
        ),
    }
}

fn text(s: &str) -> (r: String)
    ensures
        r@ == s@,
{
    let v = chars_of(s);
    string_of(&v)
}

fn bytes_payload(len: usize) -> (r: String)
    ensures
        r@ == bytes_text(len),
{
    let mut v: Vec<char> = Vec::new();
    push_decimal(&mut v, len as u64);
    push_str(&mut v, " bytes");
    string_of(&v)
}

fn event(
    source: EventSource,
    direction: EventDirection,
    level: EventLevel,
    title: &str,
    payload: String,
    peer_id: Option<String>,
) -> (r: RuntimeEvent)
    ensures
        event_shape(r) == shape(source, direction, level, title@, payload@, opt_text(peer_id)),
        stamped(r),
{
    RuntimeEvent::new(source, direction, level, text(title), Some(payload), peer_id)
}

impl Notice {
    /// The event that records this happening.
    pub fn into_event(self) -> (r: RuntimeEvent)
        ensures
            event_shape(r) == notice_shape(self),
            stamped(r),
    {
        let (s, c) = (EventSource::Server, EventSource::Client);
        let (i, o, l) = (EventDirection::Inbound, EventDirection::Outbound, EventDirection::Lifecycle);
        let (info, warn, err) = (EventLevel::Info, EventLevel::Warning, EventLevel::Error);
        match self {
            Notice::ServerStarted { endpoint } => event(s, l, info, "服务端已启动", endpoint, None),
            Notice::ServerStopped { endpoint } => event(s, l, info, "服务端已停止", endpoint, None),
            Notice::ServerMessageSent { message, peer_id } => event(
                s,
                o,
                info,
                "服务端发送消息",
                message,
                Some(peer_id),
            ),
            Notice::ClientMessageReceived { text } => event(
                c,
                i,
                info,
                "客户端收到消息",
                text,
                None,
            ),
            Notice::ClientBinaryReceived { len } => event(
                c,
                i,
                info,
                "客户端收到二进制消息",
                bytes_payload(len),
                None,
            ),
            Notice::ClientConnectionFailed { error } => event(
                c,
                l,
                err,
                "客户端连接异常",
                error,
                None,
            ),
            Notice::ClientDisconnected { url } => event(c, l, info, "客户端已断开", url, None),
            Notice::ClientConnected { url } => event(c, l, info, "客户端已连接", url, None),
            Notice::ClientMessageSent { message } => event(
                c,
                o,
                info,
                "客户端发送消息",
                message,
                None,
            ),
            Notice::AcceptFailed { error } => event(s, l, err, "服务端接收连接失败", error, None),
            Notice::HandshakeFailed { address, error } => {
                let mut v: Vec<char> = Vec::new();
                push_str(&mut v, address.as_str());
                push_str(&mut v, ": ");
                push_str(&mut v, error.as_str());
                event(s, l, warn, "WebSocket 握手失败", string_of(&v), None)
            },
            Notice::PeerJoined { address, peer_id } => event(
                s,
                l,
                info,
                "客户端接入服务端",
                address,
                Some(peer_id),
            ),
            Notice::GreetingSent { greeting, peer_id } => event(
                s,
                o,
                info,
                "服务端发送欢迎消息",
                greeting,
                Some(peer_id),
            ),
            Notice::GreetingFailed { error, peer_id } => event(
                s,
                l,
                err,
                "欢迎消息模板渲染失败",
                error,
                Some(peer_id),
            ),
            Notice::WriterClosed { address, peer_id } => event(
                s,
                l,
                warn,
                "服务端写入通道已关闭",
                address,
                Some(peer_id),
            ),
            Notice::PeerMessageReceived { text, peer_id } => event(
                s,
                i,
                info,
                "服务端收到消息",
                text,
                Some(peer_id),
            ),
            Notice::AutoReplied { reply, peer_id } => event(
                s,
                o,
                info,
                "服务端自动响应",
                reply,
                Some(peer_id),
            ),
            Notice::AutoReplyFailed { error, peer_id } => event(
                s,
                l,
                err,
                "自动响应模板渲染失败",
                error,
                Some(peer_id),
            ),
            Notice::PeerBinaryReceived { len, peer_id } => event(
                s,
                i,
                info,
                "服务端收到二进制消息",
                bytes_payload(len),
                Some(peer_id),
            ),
            Notice::PeerConnectionFailed { error, peer_id } => event(
                s,
                l,
                warn,
                "服务端连接异常",
                error,
                Some(peer_id),
            ),
            Notice::PeerLeft { address, peer_id } => event(
                s,
                l,
                info,
                "客户端离开服务端",
                address,
                Some(peer_id),
            ),
        }
    }
}

} // verus!
