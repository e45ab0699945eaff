//! What a server connection and the client's reader do with each thing that
//! reaches them: which events to record, what to send, when to stop.
use vstd::prelude::*;
use crate::config::ServerConfig;
use crate::events::Notice;
use crate::json::text_outcome;
use crate::stamp::{is_utc_timestamp, is_uuid_v4_text, new_uuid, now_rfc3339};
use crate::template::{render_outcome, render_template_at};
use crate::text::{trim, trim_text};

verus! {

/// A WebSocket message as it arrives, or the failure to read one.
#[derive(Debug)]
pub enum WsInbound {
    Text(String),
    Binary(usize),
    Ping(Vec<u8>),
    Pong,
    Close,
    Failed(String),
    Other,
}

/// What wakes a server connection up.
#[derive(Debug)]
pub enum PeerInput {
    /// The server is stopping.
    Shutdown,
    /// The stop signal was missed because too many were queued.
    ShutdownLagged,
    /// The stop signal's channel is gone.
    ShutdownClosed,
    /// The task that writes to the socket has ended.
    WriterClosed,
    /// Time for a heartbeat.
    HeartbeatDue,
    /// Something came from the socket.
    Inbound(WsInbound),
    /// The socket has nothing more to give.
    Ended,
}

/// A message to send.
#[derive(Debug)]
pub enum Outgoing {
    Text(String),
    Ping,
    Pong(Vec<u8>),
    /// A close frame without a reason.
    Close,
    /// The close frame that came in, sent back.
    EchoClose,
}

/// What a connection does next: record `notices`, send `outgoing` if any and
/// record `on_delivery` once it is sent; stop when `stop` holds, or when the
/// sending fails and `stop_if_undelivered` holds.
#[derive(Debug)]
pub struct PeerStep {
    pub notices: Vec<Notice>,
    pub outgoing: Option<Outgoing>,
    pub on_delivery: Option<Notice>,
    pub stop_if_undelivered: bool,
    pub stop: bool,
}

/// Nothing to record, nothing to send.
pub open spec fn quiet(r: PeerStep, stop: bool) -> bool {
    &&& r.notices@.len() == 0
    &&& r.outgoing is None
    &&& r.on_delivery is None
    &&& !r.stop_if_undelivered
    &&& r.stop == stop
}

/// Send `out` with nothing recorded.
pub open spec fn send_only(r: PeerStep, out: Outgoing, stop_if_undelivered: bool, stop: bool) -> bool {
    &&& r.notices@.len() == 0
    &&& r.outgoing == Some(out)
    &&& r.on_delivery is None
    &&& r.stop_if_undelivered == stop_if_undelivered
    &&& r.stop == stop
}

/// Record `n` and nothing else.
pub open spec fn record_only(r: PeerStep, n: Notice, stop: bool) -> bool {
    &&& r.notices@ == seq![n]
    &&& r.outgoing is None
    &&& r.on_delivery is None
    &&& !r.stop_if_undelivered
    &&& r.stop == stop
}

/// Send a rendered text when the template rendered, recording `sent` once it
/// went out; record `failed` when it did not render. `earlier` is recorded first.
pub open spec fn rendered_step(
    r: PeerStep,
    earlier: Seq<Notice>,
    outcome: Result<Seq<char>, Seq<char>>,
    peer_id: String,
    greeting: bool,
) -> bool {
    &&& !r.stop
    &&& !r.stop_if_undelivered
    &&& match outcome {
        Ok(t) => {
            &&& r.notices@ == earlier
            &&& r.outgoing is Some
            &&& r.outgoing->Some_0 is Text
            &&& r.outgoing->Some_0->Text_0@ == t
            &&& r.on_delivery == Some(
                if greeting {
                    Notice::GreetingSent { greeting: r.outgoing->Some_0->Text_0, peer_id }
                } else {
                    Notice::AutoReplied { reply: r.outgoing->Some_0->Text_0, peer_id }
                },
            )
        },
        Err(e) => {
            &&& r.notices@.len() == earlier.len() + 1
            &&& r.notices@.take(earlier.len() as int) == earlier
            &&& r.outgoing is None
            &&& r.on_delivery is None
            &&& if greeting {
                r.notices@.last() is GreetingFailed && r.notices@.last()->GreetingFailed_error@ == e
                    && r.notices@.last()->GreetingFailed_peer_id == peer_id
            } else {
                r.notices@.last() is AutoReplyFailed && r.notices@.last()->AutoReplyFailed_error@
                    == e && r.notices@.last()->AutoReplyFailed_peer_id == peer_id
            }
        },
    }
}

fn rendered(
    earlier: Vec<Notice>,
    outcome: Result<String, String>,
    peer_id: &String,
    greeting: bool,
) -> (r: PeerStep)
    ensures
        rendered_step(r, earlier@, text_outcome(outcome), *peer_id, greeting),
{
    match outcome {
        Ok(t) => {
            let note = if greeting {
                Notice::GreetingSent { greeting: t.clone(), peer_id: peer_id.clone() }
            } else {
                Notice::AutoReplied { reply: t.clone(), peer_id: peer_id.clone() }
            };
            PeerStep {
                notices: earlier,
                outgoing: Some(Outgoing::Text(t)),
                on_delivery: Some(note),
                stop_if_undelivered: false,
                stop: false,
            }
        },
        Err(e) => {
            let mut notices = earlier;
            let note = if greeting {
                Notice::GreetingFailed { error: e, peer_id: peer_id.clone() }
            } else {
                Notice::AutoReplyFailed { error: e, peer_id: peer_id.clone() }
            };
            let ghost before = notices@;
            notices.push(note);
            assert(notices@.take(before.len() as int) =~= before);
            PeerStep {
                notices,
                outgoing: None,
                on_delivery: None,
                stop_if_undelivered: false,
                stop: false,
            }
        },
    }
}

/// A greeting is due when it is switched on and its template is not blank.
pub open spec fn greeting_due(config: ServerConfig) -> bool {
    config.send_greeting && trim(config.greeting_template@).len() > 0
}

/// The greeting for a new connection, rendered at some time of rendering.
pub fn greeting_step(config: &ServerConfig, peer_id: &String) -> (r: PeerStep)
    ensures
        !greeting_due(*config) ==> quiet(r, false),
        greeting_due(*config) ==> exists|timestamp: Seq<char>|
            is_utc_timestamp(timestamp) && rendered_step(
                r,
                Seq::empty(),
                #[trigger] render_outcome(
                    config.greeting_template@,
                    Seq::empty(),
                    peer_id@,
                    Seq::empty(),
                    timestamp,
                ),
                *peer_id,
                true,
            ),
{
    let blank = trim_text(config.greeting_template.as_str());
    if config.send_greeting && !blank.as_str().is_empty() {
        let timestamp = now_rfc3339();
        proof {
            reveal_strlit("");
            assert(""@ =~= Seq::<char>::empty());
        }
        let outcome = render_template_at(
            config.greeting_template.as_str(),
            "",
            peer_id.as_str(),
            None,
            timestamp.as_str(),
        );
        let none: Vec<Notice> = Vec::new();
        assert(none@ =~= Seq::<Notice>::empty());
        let r = rendered(none, outcome, peer_id, true);
        assert(rendered_step(
            r,
            Seq::empty(),
            render_outcome(
                config.greeting_template@,
                Seq::empty(),
                peer_id@,
                Seq::empty(),
                timestamp@,
            ),
            *peer_id,
            true,
        ));
        r
    } else {
        PeerStep {
            notices: Vec::new(),
            outgoing: None,
            on_delivery: None,
            stop_if_undelivered: false,
            stop: false,
        }
    }
}

/// What a server connection does with `input`, given the request identifier and
/// the time used should it answer a text message.
pub open spec fn peer_step_spec(
    config: ServerConfig,
    peer_id: String,
    address: String,
    input: PeerInput,
    request_id: Seq<char>,
    timestamp: Seq<char>,
    r: PeerStep,
) -> bool {
    match input {
        PeerInput::Shutdown => send_only(r, Outgoing::Close, false, true),
        PeerInput::ShutdownLagged => quiet(r, false),
        PeerInput::ShutdownClosed => quiet(r, true),
        PeerInput::WriterClosed => record_only(r, Notice::WriterClosed { address, peer_id }, true),
        PeerInput::HeartbeatDue => send_only(r, Outgoing::Ping, true, false),
        PeerInput::Ended => quiet(r, true),
        PeerInput::Inbound(m) => match m {
            WsInbound::Text(t) => {
                let received = Notice::PeerMessageReceived { text: t, peer_id };
                if config.auto_reply {
                    rendered_step(
                        r,
                        seq![received],
                        render_outcome(
                            config.response_template@,
                            t@,
                            peer_id@,
                            request_id,
                            timestamp,
                        ),
                        peer_id,
                        false,
                    )
                } else {
                    record_only(r, received, false)
                }
            },
            WsInbound::Binary(len) => record_only(
                r,
                Notice::PeerBinaryReceived { len, peer_id },
                false,
            ),
            WsInbound::Ping(bytes) => send_only(r, Outgoing::Pong(bytes), false, false),
            WsInbound::Pong => quiet(r, false),
            WsInbound::Close => send_only(r, Outgoing::EchoClose, false, true),
            WsInbound::Failed(error) => record_only(
                r,
                Notice::PeerConnectionFailed { error, peer_id },
                true,
            ),
            WsInbound::Other => quiet(r, false),
        },
    }
}

fn record(n: Notice, stop: bool) -> (r: PeerStep)
    ensures
        record_only(r, n, stop),
{
    let mut notices = Vec::new();
    notices.push(n);
    assert(notices@ =~= seq![n]);
    PeerStep { notices, outgoing: None, on_delivery: None, stop_if_undelivered: false, stop }
}

fn send(out: Outgoing, stop_if_undelivered: bool, stop: bool) -> (r: PeerStep)
    ensures
        send_only(r, out, stop_if_undelivered, stop),
{
    PeerStep { notices: Vec::new(), outgoing: Some(out), on_delivery: None, stop_if_undelivered, stop }
}

fn nothing(stop: bool) -> (r: PeerStep)
    ensures
        quiet(r, stop),
{
    PeerStep {
        notices: Vec::new(),
        outgoing: None,
        on_delivery: None,
        stop_if_undelivered: false,
        stop,
    }
}

/// The input is a text message that the response template answers.
pub open spec fn answers_text(config: ServerConfig, input: PeerInput) -> bool {
    config.auto_reply && input is Inbound && input->Inbound_0 is Text
}

/// What a server connection does with `input`. A text message answered by the
/// response template gets a fresh request identifier and the current time; the
/// contract leaves open which ones.
pub fn server_peer_step(config: &ServerConfig, peer_id: &String, address: &String, input: PeerInput) -> (r:
    PeerStep)
    ensures
        exists|request_id: Seq<char>, timestamp: Seq<char>|
            #[trigger] peer_step_spec(
                *config,
                *peer_id,
                *address,
                input,
                request_id,
                timestamp,
                r,
            ) && (answers_text(*config, input) ==> is_uuid_v4_text(request_id) && is_utc_timestamp(
                timestamp,
            )),
        r.stop <==> (input is Shutdown || input is ShutdownClosed || input is WriterClosed
            || input is Ended || (input is Inbound && (input->Inbound_0 is Close
            || input->Inbound_0 is Failed))),
        r.stop_if_undelivered <==> input is HeartbeatDue,
{
    match input {
        PeerInput::Shutdown => {
            let r = send(Outgoing::Close, false, true);
            assert(peer_step_spec(*config, *peer_id, *address, input, Seq::empty(), Seq::empty(), r));
            r
        },
        PeerInput::ShutdownLagged => {
            let r = nothing(false);
            assert(peer_step_spec(*config, *peer_id, *address, input, Seq::empty(), Seq::empty(), r));
            r
        },
        PeerInput::ShutdownClosed => {
            let r = nothing(true);
            assert(peer_step_spec(*config, *peer_id, *address, input, Seq::empty(), Seq::empty(), r));
            r
        },
        PeerInput::WriterClosed => {
            let r = record(
                Notice::WriterClosed { address: address.clone(), peer_id: peer_id.clone() },
                true,
            );
            assert(peer_step_spec(*config, *peer_id, *address, input, Seq::empty(), Seq::empty(), r));
            r
        },
        PeerInput::HeartbeatDue => {
            let r = send(Outgoing::Ping, true, false);
            assert(peer_step_spec(*config, *peer_id, *address, input, Seq::empty(), Seq::empty(), r));
            r
        },
        PeerInput::Ended => {
            let r = nothing(true);
            assert(peer_step_spec(*config, *peer_id, *address, input, Seq::empty(), Seq::empty(), r));
            r
        },
        PeerInput::Inbound(m) => {
            let ghost m0 = m;
            match m {
                WsInbound::Text(t) => {
                    let received = Notice::PeerMessageReceived {
                        text: t.clone(),
                        peer_id: peer_id.clone(),
                    };
                    if config.auto_reply {
                        let request_id = new_uuid();
                        let timestamp = now_rfc3339();
                        let outcome = render_template_at(
                            config.response_template.as_str(),
                            t.as_str(),
                            peer_id.as_str(),
                            Some(request_id.as_str()),
                            timestamp.as_str(),
                        );
                        let mut earlier = Vec::new();
                        earlier.push(received);
                        assert(earlier@ =~= seq![received]);
                        let r = rendered(earlier, outcome, peer_id, false);
                        assert(peer_step_spec(
                            *config,
                            *peer_id,
                            *address,
                            input,
                            request_id@,
                            timestamp@,
                            r,
                        ));
                        r
                    } else {
                        let r = record(received, false);
                        assert(peer_step_spec(
                            *config,
                            *peer_id,
                            *address,
                            input,
                            Seq::empty(),
                            Seq::empty(),
                            r,
                        ));
                        r
                    }
                },
                WsInbound::Binary(len) => {
                    let r = record(Notice::PeerBinaryReceived { len, peer_id: peer_id.clone() }, false);
                    assert(peer_step_spec(
                        *config,
                        *peer_id,
                        *address,
                        input,
                        Seq::empty(),
                        Seq::empty(),
                        r,
                    ));
                    r
                },
                WsInbound::Ping(bytes) => {
                    let r = send(Outgoing::Pong(bytes), false, false);
                    assert(peer_step_spec(
                        *config,
                        *peer_id,
                        *address,
                        input,
                        Seq::empty(),
                        Seq::empty(),
                        r,
                    ));
                    r
                },
                WsInbound::Pong => {
                    let r = nothing(false);
                    assert(peer_step_spec(
                        *config,
                        *peer_id,
                        *address,
                        input,
                        Seq::empty(),
                        Seq::empty(),
                        r,
                    ));
                    r
                },
                WsInbound::Close => {
                    let r = send(Outgoing::EchoClose, false, true);
                    assert(peer_step_spec(
                        *config,
                        *peer_id,
                        *address,
                        input,
                        Seq::empty(),
                        Seq::empty(),
                        r,
                    ));
                    r
                },
                WsInbound::Failed(error) => {
                    let r = record(
                        Notice::PeerConnectionFailed { error, peer_id: peer_id.clone() },
                        true,
                    );
                    assert(peer_step_spec(
                        *config,
                        *peer_id,
                        *address,
                        input,
                        Seq::empty(),
                        Seq::empty(),
                        r,
                    ));
                    r
                },
                WsInbound::Other => {
                    let r = nothing(false);
                    assert(peer_step_spec(
                        *config,
                        *peer_id,
                        *address,
                        input,
                        Seq::empty(),
                        Seq::empty(),
                        r,
                    ));
                    r
                },
            }
        },
    }
}

/// A server connection ends only when the server stops (or its stop signal is
/// gone), when its writer has closed, when the socket has nothing more to
/// give, or when a close frame or a read failure comes in. Only a heartbeat
/// ends it when it cannot be sent. A text message never ends it, whether or
/// not it is answered, and it is recorded before anything else.
pub proof fn lemma_connection_ends_only_when_closed(
    config: ServerConfig,
    peer_id: String,
    address: String,
    input: PeerInput,
    request_id: Seq<char>,
    timestamp: Seq<char>,
    r: PeerStep,
)
    requires
        peer_step_spec(config, peer_id, address, input, request_id, timestamp, r),
    ensures
        r.stop <==> (input is Shutdown || input is ShutdownClosed || input is WriterClosed
            || input is Ended || (input is Inbound && (input->Inbound_0 is Close
            || input->Inbound_0 is Failed))),
        r.stop_if_undelivered <==> input is HeartbeatDue,
        input is Inbound && input->Inbound_0 is Text ==> {
            &&& !r.stop
            &&& !r.stop_if_undelivered
            &&& r.notices@.len() >= 1
            &&& r.notices@[0] == Notice::PeerMessageReceived {
                text: input->Inbound_0->Text_0,
                peer_id,
            }
        },
{
    if input is Inbound && input->Inbound_0 is Text && config.auto_reply {
        let t = input->Inbound_0->Text_0;
        let received = Notice::PeerMessageReceived { text: t, peer_id };
        let outcome = render_outcome(config.response_template@, t@, peer_id@, request_id, timestamp);
        if outcome is Err {
            assert(r.notices@.take(1)[0] == r.notices@[0]);
        }
    }
}

/// What a server connection sends: a pong carrying the ping's bytes, the close
/// frame echoed back, a ping when a heartbeat is due, a close frame when the
/// server stops, the rendered reply to a text when auto-reply is on; nothing
/// otherwise. A binary message is only recorded, with its length.
pub proof fn lemma_connection_answers(
    config: ServerConfig,
    peer_id: String,
    address: String,
    input: PeerInput,
    request_id: Seq<char>,
    timestamp: Seq<char>,
    r: PeerStep,
)
    requires
        peer_step_spec(config, peer_id, address, input, request_id, timestamp, r),
    ensures
        input is Inbound && input->Inbound_0 is Ping ==> r.outgoing == Some(
            Outgoing::Pong(input->Inbound_0->Ping_0),
        ),
        input is Inbound && input->Inbound_0 is Close ==> r.outgoing == Some(Outgoing::EchoClose),
        input is HeartbeatDue ==> r.outgoing == Some(Outgoing::Ping),
        input is Shutdown ==> r.outgoing == Some(Outgoing::Close),
        input is Inbound && input->Inbound_0 is Binary ==> r.outgoing is None && r.notices@ == seq![
            Notice::PeerBinaryReceived { len: input->Inbound_0->Binary_0, peer_id },
        ],
        input is Inbound && input->Inbound_0 is Text && !config.auto_reply ==> r.outgoing is None
            && r.notices@.len() == 1,
        input is Inbound && input->Inbound_0 is Text && config.auto_reply && render_outcome(
            config.response_template@,
            input->Inbound_0->Text_0@,
            peer_id@,
            request_id,
            timestamp,
        ) is Ok ==> r.outgoing is Some && r.outgoing->Some_0 is Text
            && Ok::<Seq<char>, Seq<char>>(r.outgoing->Some_0->Text_0@) == render_outcome(
            config.response_template@,
            input->Inbound_0->Text_0@,
            peer_id@,
            request_id,
            timestamp,
        ),
        r.outgoing is Some ==> (input is Shutdown || input is HeartbeatDue || (input is Inbound && (
        input->Inbound_0 is Ping || input->Inbound_0 is Close || (input->Inbound_0 is Text
            && config.auto_reply)))),
{
}

/// What the client's reader does next: record `notice` if any, then stop when
/// `stop` holds.
#[derive(Debug)]
pub struct ReaderStep {
    pub notice: Option<Notice>,
    pub stop: bool,
}

/// What the client's reader does with what arrived.
pub open spec fn reader_step_spec(input: WsInbound, r: ReaderStep) -> bool {
    match input {
        WsInbound::Text(text) => r.notice == Some(Notice::ClientMessageReceived { text }) && !r.stop,
        WsInbound::Binary(len) => r.notice == Some(Notice::ClientBinaryReceived { len })
            && !r.stop,
        WsInbound::Ping(_) => r.notice is None && !r.stop,
        WsInbound::Pong => r.notice is None && !r.stop,
        WsInbound::Close => r.notice is None && r.stop,
        WsInbound::Failed(error) => r.notice == Some(Notice::ClientConnectionFailed { error })
            && r.stop,
        WsInbound::Other => r.notice is None && !r.stop,
    }
}

/// What the client's reader does with what arrived: texts and binary messages
/// are recorded, a close frame ends reading, a failure is recorded and ends it.
pub fn client_reader_step(input: WsInbound) -> (r: ReaderStep)
    ensures
        reader_step_spec(input, r),
        r.stop <==> (input is Close || input is Failed),
{
    match input {
        WsInbound::Text(text) => ReaderStep {
            notice: Some(Notice::ClientMessageReceived { text }),
            stop: false,
        },
        WsInbound::Binary(len) => ReaderStep {
            notice: Some(Notice::ClientBinaryReceived { len }),
            stop: false,
        },
        WsInbound::Ping(_) => ReaderStep { notice: None, stop: false },
        WsInbound::Pong => ReaderStep { notice: None, stop: false },
        WsInbound::Close => ReaderStep { notice: None, stop: true },
        WsInbound::Failed(error) => ReaderStep {
            notice: Some(Notice::ClientConnectionFailed { error }),
            stop: true,
        },
        WsInbound::Other => ReaderStep { notice: None, stop: false },
    }
}

/// What wakes the server's listener up.
#[derive(Debug)]
pub enum AcceptInput {
    /// The server is stopping (or its stop signal can no longer come).
    Shutdown,
    /// A connection came in.
    Accepted,
    /// Accepting failed.
    Failed(String),
}

/// What the listener does next: record `notice` if any, serve the new
/// connection when `serve` holds, stop listening when `stop` holds.
#[derive(Debug)]
pub struct AcceptStep {
    pub notice: Option<Notice>,
    pub serve: bool,
    pub stop: bool,
}

/// What the listener does with `input`.
pub open spec fn accept_step_spec(input: AcceptInput, r: AcceptStep) -> bool {
    match input {
        AcceptInput::Shutdown => r.notice is None && !r.serve && r.stop,
        AcceptInput::Accepted => r.notice is None && r.serve && !r.stop,
        AcceptInput::Failed(error) => r.notice == Some(Notice::AcceptFailed { error }) && !r.serve
            && r.stop,
    }
}

/// What the listener does: a new connection is served and listening goes on;
/// a failure to accept is recorded and ends listening, as the stop signal does.
pub fn server_accept_step(input: AcceptInput) -> (r: AcceptStep)
    ensures
        accept_step_spec(input, r),
{
    match input {
        AcceptInput::Shutdown => AcceptStep { notice: None, serve: false, stop: true },
        AcceptInput::Accepted => AcceptStep { notice: None, serve: true, stop: false },
        AcceptInput::Failed(error) => AcceptStep {
            notice: Some(Notice::AcceptFailed { error }),
            serve: false,
            stop: true,
        },
    }
}

/// The client keeps reading until a close frame or a read failure comes in;
/// every text and binary message is recorded on the way.
pub proof fn lemma_reader_stops_only_on_close_or_failure(input: WsInbound, r: ReaderStep)
    requires
        reader_step_spec(input, r),
    ensures
        r.stop <==> (input is Close || input is Failed),
        input is Text ==> r.notice == Some(
            Notice::ClientMessageReceived { text: input->Text_0 },
        ),
        input is Binary ==> r.notice == Some(Notice::ClientBinaryReceived { len: input->Binary_0 }),
{
}

} // verus!
