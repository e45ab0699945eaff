//! The runtime's state: the running server, its connections, the client and
//! the bounded event stream, with what each command does to it.
use vstd::prelude::*;
use std::collections::VecDeque;
use crate::config::{
    config_outcome, endpoint_text, normalize_server_config, normalize_ws_url, normalized_config,
    normalized_ws_url, server_endpoint, ServerConfig, ServerConfigView,
};
use crate::events::{
    event_shape, notice_shape, opt_text, shape, stamped, EventDirection, EventLevel, EventSource, Notice,
    RuntimeEvent,
};
use crate::json::{invalid_json_message, json_parse, text_outcome, unit_outcome, validate_json_text};
use crate::stamp::{is_utc_timestamp, is_uuid_v4_text, new_uuid, now_rfc3339};
use crate::template::{template_check, validate_template_json_at};
use crate::text::{
    chars_of, lemma_text_before_irreflexive, lemma_text_before_transitive, string_of, text_before,
    text_is_before, trim, trim_text,
};

verus! {

broadcast use vstd::seq_lib::group_to_multiset_ensures;

/// How many events the stream keeps; older ones are dropped first.
pub const MAX_EVENTS: usize = 500;

/// A connection to the mock server.
#[derive(Debug)]
pub struct ServerPeer {
    pub id: String,
    pub address: String,
    pub connected_at: String,
}

impl Clone for ServerPeer {
    fn clone(&self) -> (r: Self)
        ensures
            r == *self,
    {
        ServerPeer {
            id: self.id.clone(),
            address: self.address.clone(),
            connected_at: self.connected_at.clone(),
        }
    }
}

/// The client's current connection.
#[derive(Debug)]
pub struct ClientSession {
    pub connection_id: String,
    pub url: String,
}

impl Clone for ClientSession {
    fn clone(&self) -> (r: Self)
        ensures
            r == *self,
    {
        ClientSession { connection_id: self.connection_id.clone(), url: self.url.clone() }
    }
}

/// The server as the user sees it.
#[derive(Debug)]
pub struct ServerStatus {
    pub running: bool,
    pub endpoint: Option<String>,
    pub client_count: usize,
    pub config: Option<ServerConfig>,
}

/// The client as the user sees it.
#[derive(Debug)]
pub struct ClientStatus {
    pub connected: bool,
    pub url: Option<String>,
}

/// Everything the user sees at once.
#[derive(Debug)]
pub struct RuntimeSnapshot {
    pub server: ServerStatus,
    pub client: ClientStatus,
    pub server_clients: Vec<ServerPeer>,
    pub events: Vec<RuntimeEvent>,
}

/// How many messages went out.
#[derive(Debug)]
pub struct SendResult {
    pub sent: usize,
}

/// A recorded event together with the state right after it, both to be shown.
#[derive(Debug)]
pub struct Emission {
    pub event: RuntimeEvent,
    pub snapshot: RuntimeSnapshot,
}

/// The runtime's state in the abstract.
pub struct RuntimeModel {
    pub server: Option<ServerConfig>,
    pub peers: Seq<ServerPeer>,
    pub client: Option<ClientSession>,
    pub events: Seq<RuntimeEvent>,
}

/// No two connections share an identifier.
pub open spec fn unique_ids(peers: Seq<ServerPeer>) -> bool {
    forall|i: int, j: int| 0 <= i < j < peers.len() ==> peers[i].id@ != peers[j].id@
}

/// The identifiers of the connections, in order.
pub open spec fn peer_ids(peers: Seq<ServerPeer>) -> Seq<Seq<char>> {
    peers.map_values(|p: ServerPeer| p.id@)
}

/// `es` with `e` appended, the oldest event dropped when the stream is full.
pub open spec fn bounded_push(es: Seq<RuntimeEvent>, e: RuntimeEvent) -> Seq<RuntimeEvent> {
    if es.len() >= MAX_EVENTS {
        es.drop_first().push(e)
    } else {
        es.push(e)
    }
}

impl RuntimeModel {
    /// The state's own rules: a bounded stream, unique connection identifiers.
    pub open spec fn wf(self) -> bool {
        &&& self.events.len() <= MAX_EVENTS
        &&& unique_ids(self.peers)
    }

    /// The state after recording `e`.
    pub open spec fn with_event(self, e: RuntimeEvent) -> RuntimeModel {
        RuntimeModel {
            server: self.server,
            peers: self.peers,
            client: self.client,
            events: bounded_push(self.events, e),
        }
    }

    /// The state after recording `es`, in order.
    pub open spec fn with_events(self, es: Seq<RuntimeEvent>) -> RuntimeModel
        decreases es.len(),
    {
        if es.len() == 0 {
            self
        } else {
            self.with_events(es.drop_last()).with_event(es.last())
        }
    }
}

/// Connections ordered by the time they were made.
pub open spec fn sorted_by_connection(peers: Seq<ServerPeer>) -> bool {
    forall|i: int, j: int|
        0 <= i < j < peers.len() ==> !text_before(peers[j].connected_at@, peers[i].connected_at@)
}

/// The server status that the state `m` shows.
pub open spec fn server_status_of(s: ServerStatus, m: RuntimeModel) -> bool {
    &&& s.running == m.server is Some
    &&& s.config == m.server
    &&& s.client_count == m.peers.len()
    &&& match m.server {
        Some(c) => s.endpoint is Some && s.endpoint->Some_0@ == endpoint_text(c@),
        None => s.endpoint is None,
    }
}

/// The client status that the state `m` shows.
pub open spec fn client_status_of(c: ClientStatus, m: RuntimeModel) -> bool {
    &&& c.connected == m.client is Some
    &&& c.url == match m.client {
        Some(session) => Some(session.url),
        None => None,
    }
}

/// The snapshot that the state `m` shows: the connections sorted by the time
/// they were made, and every kept event.
pub open spec fn snapshot_of(s: RuntimeSnapshot, m: RuntimeModel) -> bool {
    &&& server_status_of(s.server, m)
    &&& client_status_of(s.client, m)
    &&& s.server_clients@.to_multiset() == m.peers.to_multiset()
    &&& sorted_by_connection(s.server_clients@)
    &&& s.events@ == m.events
}

/// The runtime's state.
pub struct RuntimeInner {
    server: Option<ServerConfig>,
    server_clients: Vec<ServerPeer>,
    client: Option<ClientSession>,
    events: VecDeque<RuntimeEvent>,
}

impl View for RuntimeInner {
    type V = RuntimeModel;

    closed spec fn view(&self) -> RuntimeModel {
        RuntimeModel {
            server: self.server,
            peers: self.server_clients@,
            client: self.client,
            events: self.events@,
        }
    }
}

impl Default for RuntimeInner {
    fn default() -> (r: Self)
        ensures
            r@.server is None,
            r@.peers.len() == 0,
            r@.client is None,
            r@.events.len() == 0,
    {
        RuntimeInner::new()
    }
}

impl RuntimeInner {
    #[verifier::type_invariant]
    closed spec fn well_formed(&self) -> bool {
        self@.wf()
    }

    /// The state kept by a fresh runtime: nothing running, nothing recorded.
    pub fn new() -> (r: Self)
        ensures
            r@.server is None,
            r@.peers.len() == 0,
            r@.client is None,
            r@.events.len() == 0,
    {
        RuntimeInner {
            server: None,
            server_clients: Vec::new(),
            client: None,
            events: VecDeque::new(),
        }
    }

    /// The state's own rules hold.
    pub fn check_invariant(&self)
        ensures
            self@.wf(),
    {
        proof {
            use_type_invariant(self);
        }
    }

    /// The server's status.
    pub fn server_status(&self) -> (r: ServerStatus)
        ensures
            server_status_of(r, self@),
    {
        let config = match &self.server {
            Some(c) => Some(c.clone()),
            None => None,
        };
        let endpoint = match &config {
            Some(c) => Some(server_endpoint(c)),
            None => None,
        };
        ServerStatus {
            running: self.server.is_some(),
            endpoint,
            client_count: self.server_clients.len(),
            config,
        }
    }

    /// The client's status.
    pub fn client_status(&self) -> (r: ClientStatus)
        ensures
            client_status_of(r, self@),
    {
        ClientStatus {
            connected: self.client.is_some(),
            url: match &self.client {
                Some(session) => Some(session.url.clone()),
                None => None,
            },
        }
    }

    /// Everything the user sees at once.
    pub fn snapshot(&self) -> (r: RuntimeSnapshot)
        ensures
            snapshot_of(r, self@),
    {
        let mut events: Vec<RuntimeEvent> = Vec::new();
        let mut i: usize = 0;
        while i < self.events.len()
            invariant
                i <= self.events@.len(),
                events@ == self.events@.take(i as int),
            decreases self.events@.len() - i,
        {
            events.push(self.events[i].clone());
            assert(self.events@.take(i as int).push(self.events@[i as int]) =~= self.events@.take(
                i + 1,
            ));
            i += 1;
        }
        assert(self.events@.take(self.events@.len() as int) =~= self.events@);
        RuntimeSnapshot {
            server: self.server_status(),
            client: self.client_status(),
            server_clients: sorted_server_peers(&self.server_clients),
            events,
        }
    }

    /// Records `event`, dropping the oldest one when the stream is full, and
    /// gives the state to show.
    pub fn push_event(&mut self, event: RuntimeEvent) -> (r: RuntimeSnapshot)
        ensures
            final(self)@ == old(self)@.with_event(event),
            snapshot_of(r, final(self)@),
    {
        proof {
            use_type_invariant(&*self);
        }
        let mut events = VecDeque::new();
        std::mem::swap(&mut events, &mut self.events);
        if events.len() >= MAX_EVENTS {
            events.pop_front();
        }
        events.push_back(event);
        assert(events@ =~= bounded_push(old(self)@.events, event));
        self.events = events;
        self.snapshot()
    }

    /// Records what happened, and gives the event and the state to show.
    pub fn push_notice(&mut self, notice: Notice) -> (r: Emission)
        ensures
            event_shape(r.event) == notice_shape(notice),
            stamped(r.event),
            final(self)@ == old(self)@.with_event(r.event),
            snapshot_of(r.snapshot, final(self)@),
    {
        let event = notice.into_event();
        let snapshot = self.push_event(event.clone());
        Emission { event, snapshot }
    }
}

/// The connections, ordered by the time they were made.
pub fn sorted_server_peers(peers: &Vec<ServerPeer>) -> (r: Vec<ServerPeer>)
    ensures
        r@.to_multiset() == peers@.to_multiset(),
        sorted_by_connection(r@),
{
    let mut rest: Vec<ServerPeer> = Vec::new();
    let mut i: usize = 0;
    while i < peers.len()
        invariant
            i <= peers.len(),
            rest@ == peers@.take(i as int),
        decreases peers.len() - i,
    {
        rest.push(peers[i].clone());
        assert(peers@.take(i as int).push(peers@[i as int]) =~= peers@.take(i + 1));
        i += 1;
    }
    assert(peers@.take(peers.len() as int) =~= peers@);
    let mut out: Vec<ServerPeer> = Vec::new();
    assert(out@.to_multiset() =~= vstd::multiset::Multiset::empty());
    while rest.len() > 0
        invariant
            out@.to_multiset().add(rest@.to_multiset()) == peers@.to_multiset(),
            sorted_by_connection(out@),
            forall|a: int, b: int|
                0 <= a < out@.len() && 0 <= b < rest@.len() ==> !text_before(
                    rest@[b].connected_at@,
                    out@[a].connected_at@,
                ),
        decreases rest.len(),
    {
        let mut k: usize = 0;
        let mut j: usize = 1;
        proof {
            lemma_text_before_irreflexive(rest@[0].connected_at@);
        }
        while j < rest.len()
            invariant
                0 <= k < j <= rest.len(),
                forall|b: int|
                    0 <= b < j ==> !text_before(rest@[b].connected_at@, rest@[k as int].connected_at@),
            decreases rest.len() - j,
        {
            if text_is_before(rest[j].connected_at.as_str(), rest[k].connected_at.as_str()) {
                proof {
                    let nj = rest@[j as int].connected_at@;
                    let nk = rest@[k as int].connected_at@;
                    assert forall|b: int| 0 <= b < j + 1 implies !text_before(
                        rest@[b].connected_at@,
                        nj,
                    ) by {
                        let nb = rest@[b].connected_at@;
                        if b == j {
                            lemma_text_before_irreflexive(nj);
                        } else if text_before(nb, nj) {
                            lemma_text_before_transitive(nb, nj, nk);
                        }
                    }
                }
                k = j;
            }
            j += 1;
        }
        let ghost old_rest = rest@;
        let ghost old_out = out@;
        let m = rest.remove(k);
        proof {
            assert(old_rest.remove(k as int).to_multiset() =~= old_rest.to_multiset().remove(m));
        }
        out.push(m);
        proof {
            assert(out@.to_multiset() =~= old_out.to_multiset().insert(m));
            assert(out@.to_multiset().add(rest@.to_multiset()) =~= old_out.to_multiset().add(
                old_rest.to_multiset(),
            ));
            assert forall|a: int, b: int| 0 <= a < b < out@.len() implies !text_before(
                out@[b].connected_at@,
                out@[a].connected_at@,
            ) by {
                if b == out@.len() - 1 {
                    assert(old_rest[k as int] == m);
                }
            }
            assert forall|a: int, b: int| 0 <= a < out@.len() && 0 <= b < rest@.len() implies !text_before(
                rest@[b].connected_at@,
                out@[a].connected_at@,
            ) by {
                let ob = if b < k { b } else { b + 1 };
                assert(rest@[b] == old_rest[ob]);
                if a == out@.len() - 1 {
                    assert(old_rest[k as int] == m);
                }
            }
        }
    }
    assert(rest@.to_multiset() =~= vstd::multiset::Multiset::empty());
    assert(out@.to_multiset().add(vstd::multiset::Multiset::empty()) =~= out@.to_multiset());
    out
}


impl RuntimeModel {
    /// The state with `server` as the running server.
    pub open spec fn with_server(self, server: Option<ServerConfig>) -> RuntimeModel {
        RuntimeModel { server, peers: self.peers, client: self.client, events: self.events }
    }

    /// The state with `peers` as the server's connections.
    pub open spec fn with_peers(self, peers: Seq<ServerPeer>) -> RuntimeModel {
        RuntimeModel { server: self.server, peers, client: self.client, events: self.events }
    }

    /// The state with `client` as the client's connection.
    pub open spec fn with_client(self, client: Option<ClientSession>) -> RuntimeModel {
        RuntimeModel { server: self.server, peers: self.peers, client, events: self.events }
    }
}

/// A connection with the identifier `id` is among `peers`.
pub open spec fn has_peer(peers: Seq<ServerPeer>, id: Seq<char>) -> bool {
    exists|i: int| 0 <= i < peers.len() && #[trigger] peers[i].id@ == id
}

/// The position of the connection with identifier `id`.
pub open spec fn peer_index(peers: Seq<ServerPeer>, id: Seq<char>) -> int {
    choose|i: int| 0 <= i < peers.len() && #[trigger] peers[i].id@ == id
}

/// `peers` with `p` in place of the connection that has its identifier, or
/// with `p` added at the end when there is none.
pub open spec fn upsert_peer(peers: Seq<ServerPeer>, p: ServerPeer) -> Seq<ServerPeer> {
    if has_peer(peers, p.id@) {
        peers.update(peer_index(peers, p.id@), p)
    } else {
        peers.push(p)
    }
}

/// `peers` without the connection that has identifier `id`.
pub open spec fn remove_peer(peers: Seq<ServerPeer>, id: Seq<char>) -> Seq<ServerPeer> {
    if has_peer(peers, id) {
        peers.remove(peer_index(peers, id))
    } else {
        peers
    }
}

/// The state after the server stopped: no server, no connections.
pub open spec fn stopped(m: RuntimeModel) -> RuntimeModel {
    m.with_server(None).with_peers(Seq::empty())
}

/// The connection identifier, if any, named by the user; a blank one names none.
pub open spec fn selected_peer(peer_id: Option<Seq<char>>) -> Option<Seq<char>> {
    match peer_id {
        Some(p) => if trim(p).len() == 0 {
            None
        } else {
            Some(p)
        },
        None => None,
    }
}

/// Whom a server message goes to, or why it goes nowhere: the message must be
/// JSON, the server must run, and a named connection must exist; no name, or
/// the broadcast name, means every connection.
pub open spec fn server_send_plan(m: RuntimeModel, peer_id: Option<Seq<char>>, message: Seq<char>) -> Result<
    Seq<Seq<char>>,
    Seq<char>,
> {
    match json_parse(message) {
        Err(e) => Err(invalid_json_message("服务端发送内容"@, e)),
        Ok(_) => if m.server is None {
            Err("服务端未运行"@)
        } else {
            match selected_peer(peer_id) {
                None => Ok(peer_ids(m.peers)),
                Some(id) => if id == "__broadcast__"@ {
                    Ok(peer_ids(m.peers))
                } else if has_peer(m.peers, id) {
                    Ok(seq![id])
                } else {
                    Err("目标连接不存在"@)
                },
            }
        },
    }
}

/// The texts of a list of strings.
pub open spec fn texts(v: Seq<String>) -> Seq<Seq<char>> {
    v.map_values(|s: String| s@)
}

/// The view of a list result.
pub open spec fn texts_outcome(r: Result<Vec<String>, String>) -> Result<Seq<Seq<char>>, Seq<char>> {
    match r {
        Ok(v) => Ok(texts(v@)),
        Err(e) => Err(e@),
    }
}

/// The identifiers that a message reached, in order.
pub open spec fn delivered(d: Seq<(String, bool)>) -> Seq<String>
    decreases d.len(),
{
    if d.len() == 0 {
        Seq::empty()
    } else if d.last().1 {
        delivered(d.drop_last()).push(d.last().0)
    } else {
        delivered(d.drop_last())
    }
}

/// The recorded events of a list of emissions.
pub open spec fn emitted(es: Seq<Emission>) -> Seq<RuntimeEvent> {
    es.map_values(|e: Emission| e.event)
}

/// Whether a client may connect to `url`: its address must be accepted, and
/// no client may be connected.
pub open spec fn client_connect_plan(m: RuntimeModel, url: Seq<char>) -> Result<Seq<char>, Seq<char>> {
    match normalized_ws_url(url) {
        Err(e) => Err(e),
        Ok(u) => if m.client is Some {
            Err("客户端已经连接"@)
        } else {
            Ok(u)
        },
    }
}

/// Whether the client may send `message`: it must be JSON, and a client must
/// be connected.
pub open spec fn client_send_plan(m: RuntimeModel, message: Seq<char>) -> Result<(), Seq<char>> {
    match json_parse(message) {
        Err(e) => Err(invalid_json_message("客户端发送内容"@, e)),
        Ok(_) => if m.client is None {
            Err("客户端未连接"@)
        } else {
            Ok(())
        },
    }
}

/// The checks before the server starts, with `timestamps` as the times at which
/// the templates were tried: the configuration is normalized, the response
/// template and (when a greeting is due) the greeting template must give JSON,
/// and no server may run.
pub open spec fn server_start_plan(
    c: ServerConfigView,
    running: bool,
    response_time: Seq<char>,
    greeting_time: Seq<char>,
) -> Result<ServerConfigView, Seq<char>> {
    match normalized_config(c) {
        Err(e) => Err(e),
        Ok(n) => match template_check(n.response_template, "自动响应模板"@, response_time) {
            Err(e) => Err(e),
            Ok(_) => {
                let greeting = if n.send_greeting && trim(n.greeting_template).len() > 0 {
                    template_check(n.greeting_template, "欢迎消息模板"@, greeting_time)
                } else {
                    Ok(())
                };
                match greeting {
                    Err(e) => Err(e),
                    Ok(_) => if running {
                        Err("服务端已经在运行"@)
                    } else {
                        Ok(n)
                    },
                }
            },
        },
    }
}

/// What a stopped server leaves behind.
#[derive(Debug)]
pub struct ServerStop {
    /// The connections the server had; each is to be closed.
    pub peers: Vec<ServerPeer>,
    /// The record of the stop, when a server was running.
    pub emission: Option<Emission>,
}

fn literal(s: &str) -> (r: String)
    ensures
        r@ == s@,
{
    let v = chars_of(s);
    string_of(&v)
}

impl RuntimeInner {
    /// The checks before the server starts. On success the server's former
    /// connections are forgotten and the normalized configuration is handed
    /// back; on failure nothing changes. The times at which the templates were
    /// tried are left open.
    pub fn begin_server_start(&mut self, config: ServerConfig) -> (r: Result<ServerConfig, String>)
        ensures
            exists|response_time: Seq<char>, greeting_time: Seq<char>|
                is_utc_timestamp(response_time) && is_utc_timestamp(greeting_time) && config_outcome(r)
                    == #[trigger] server_start_plan(
                    config@,
                    old(self)@.server is Some,
                    response_time,
                    greeting_time,
                ),
            r is Ok ==> final(self)@ == old(self)@.with_peers(Seq::empty()),
            r is Err ==> final(self)@ == old(self)@,
    {
        proof {
            use_type_invariant(&*self);
        }
        let ghost c = config@;
        let ghost running = self@.server is Some;
        let response_time = now_rfc3339();
        let greeting_time = now_rfc3339();
        let config = match normalize_server_config(config) {
            Ok(n) => n,
            Err(e) => {
                assert(server_start_plan(c, running, response_time@, greeting_time@) == Err::<
                    ServerConfigView,
                    Seq<char>,
                >(e@));
                return Err(e);
            },
        };
        if let Err(e) = validate_template_json_at(
            config.response_template.as_str(),
            "自动响应模板",
            response_time.as_str(),
        ) {
            assert(server_start_plan(c, running, response_time@, greeting_time@) == Err::<
                ServerConfigView,
                Seq<char>,
            >(e@));
            return Err(e);
        }
        let blank = trim_text(config.greeting_template.as_str());
        if config.send_greeting && !blank.as_str().is_empty() {
            if let Err(e) = validate_template_json_at(
                config.greeting_template.as_str(),
                "欢迎消息模板",
                greeting_time.as_str(),
            ) {
                assert(server_start_plan(c, running, response_time@, greeting_time@) == Err::<
                    ServerConfigView,
                    Seq<char>,
                >(e@));
                return Err(e);
            }
        }
        if self.server.is_some() {
            let e = literal("服务端已经在运行");
            assert(server_start_plan(c, running, response_time@, greeting_time@) == Err::<
                ServerConfigView,
                Seq<char>,
            >(e@));
            return Err(e);
        }
        self.server_clients = Vec::new();
        assert(self@ =~= old(self)@.with_peers(Seq::empty()));
        assert(server_start_plan(c, running, response_time@, greeting_time@) == Ok::<
            ServerConfigView,
            Seq<char>,
        >(config@));
        Ok(config)
    }

    /// The server now runs with `config`; the start is recorded.
    pub fn finish_server_start(&mut self, config: ServerConfig) -> (r: Emission)
        ensures
            event_shape(r.event) == shape(
                EventSource::Server,
                EventDirection::Lifecycle,
                EventLevel::Info,
                "服务端已启动"@,
                endpoint_text(config@),
                None,
            ),
            stamped(r.event),
            final(self)@ == old(self)@.with_server(Some(config)).with_event(r.event),
            snapshot_of(r.snapshot, final(self)@),
    {
        proof {
            use_type_invariant(&*self);
        }
        let endpoint = server_endpoint(&config);
        self.server = Some(config);
        self.push_notice(Notice::ServerStarted { endpoint })
    }

    /// Stops the server: it and all its connections are forgotten, and the stop
    /// is recorded when a server was running.
    pub fn stop_server(&mut self) -> (r: ServerStop)
        ensures
            r.peers@ == old(self)@.peers,
            match old(self)@.server {
                None => r.emission is None && final(self)@ == stopped(old(self)@),
                Some(c) => {
                    &&& r.emission is Some
                    &&& event_shape(r.emission->Some_0.event) == shape(
                        EventSource::Server,
                        EventDirection::Lifecycle,
                        EventLevel::Info,
                        "服务端已停止"@,
                        endpoint_text(c@),
                        None,
                    )
                    &&& stamped(r.emission->Some_0.event)
                    &&& final(self)@ == stopped(old(self)@).with_event(r.emission->Some_0.event)
                    &&& snapshot_of(r.emission->Some_0.snapshot, final(self)@)
                },
            },
    {
        proof {
            use_type_invariant(&*self);
        }
        let mut server = None;
        std::mem::swap(&mut server, &mut self.server);
        let mut peers = Vec::new();
        std::mem::swap(&mut peers, &mut self.server_clients);
        assert(self@ =~= stopped(old(self)@));
        match server {
            Some(config) => {
                let endpoint = server_endpoint(&config);
                let emission = self.push_notice(Notice::ServerStopped { endpoint });
                ServerStop { peers, emission: Some(emission) }
            },
            None => ServerStop { peers, emission: None },
        }
    }

    /// Whom a server message goes to, or why it goes nowhere.
    pub fn plan_server_send(&self, peer_id: Option<String>, message: &str) -> (r: Result<
        Vec<String>,
        String,
    >)
        ensures
            texts_outcome(r) == server_send_plan(self@, opt_text(peer_id), message@),
    {
        if let Err(e) = validate_json_text(message, "服务端发送内容") {
            return Err(e);
        }
        if self.server.is_none() {
            return Err(literal("服务端未运行"));
        }
        let selected = match peer_id {
            Some(p) => {
                let t = trim_text(p.as_str());
                if t.as_str().is_empty() {
                    None
                } else {
                    Some(p)
                }
            },
            None => None,
        };
        let broadcast = literal("__broadcast__");
        let target = match selected {
            Some(id) => if id == broadcast {
                None
            } else {
                Some(id)
            },
            None => None,
        };
        match target {
            Some(id) => {
                let mut i: usize = 0;
                #[verifier::loop_isolation(false)]
                while i < self.server_clients.len()
                    invariant
                        i <= self.server_clients@.len(),
                        forall|j: int| 0 <= j < i ==> self.server_clients@[j].id@ != id@,
                    decreases self.server_clients@.len() - i,
                {
                    if self.server_clients[i].id == id {
                        assert(self.server_clients@[i as int].id@ == id@);
                        let mut v = Vec::new();
                        v.push(id);
                        assert(texts(v@) =~= seq![id@]);
                        return Ok(v);
                    }
                    i += 1;
                }
                Err(literal("目标连接不存在"))
            },
            None => {
                let mut v: Vec<String> = Vec::new();
                let mut i: usize = 0;
                while i < self.server_clients.len()
                    invariant
                        i <= self.server_clients@.len(),
                        v@.len() == i,
                        forall|k: int| 0 <= k < i ==> v@[k]@ == self.server_clients@[k].id@,
                    decreases self.server_clients@.len() - i,
                {
                    v.push(self.server_clients[i].id.clone());
                    i += 1;
                }
                assert(texts(v@) =~= peer_ids(self.server_clients@));
                Ok(v)
            },
        }
    }

    /// Records each message that reached its connection, and counts them.
    pub fn finish_server_send(&mut self, deliveries: Vec<(String, bool)>, message: &String) -> (r: (
        SendResult,
        Vec<Emission>,
    ))
        ensures
            r.0.sent == delivered(deliveries@).len(),
            r.1@.len() == delivered(deliveries@).len(),
            forall|k: int|
                0 <= k < r.1@.len() ==> event_shape(#[trigger] r.1@[k].event) == shape(
                    EventSource::Server,
                    EventDirection::Outbound,
                    EventLevel::Info,
                    "服务端发送消息"@,
                    message@,
                    Some(delivered(deliveries@)[k]@),
                ),
            forall|k: int| 0 <= k < r.1@.len() ==> stamped(#[trigger] r.1@[k].event),
            forall|k: int|
                0 <= k < r.1@.len() ==> snapshot_of(
                    #[trigger] r.1@[k].snapshot,
                    old(self)@.with_events(emitted(r.1@).take(k + 1)),
                ),
            final(self)@ == old(self)@.with_events(emitted(r.1@)),
    {
        let mut sent: usize = 0;
        let mut out: Vec<Emission> = Vec::new();
        let mut i: usize = 0;
        assert(emitted(out@) =~= Seq::<RuntimeEvent>::empty());
        while i < deliveries.len()
            invariant
                i <= deliveries@.len(),
                sent == delivered(deliveries@.take(i as int)).len(),
                out@.len() == sent,
                sent <= i,
                forall|k: int|
                    0 <= k < out@.len() ==> event_shape(#[trigger] out@[k].event) == shape(
                        EventSource::Server,
                        EventDirection::Outbound,
                        EventLevel::Info,
                        "服务端发送消息"@,
                        message@,
                        Some(delivered(deliveries@.take(i as int))[k]@),
                    ),
                forall|k: int| 0 <= k < out@.len() ==> stamped(#[trigger] out@[k].event),
                forall|k: int|
                    0 <= k < out@.len() ==> snapshot_of(
                        #[trigger] out@[k].snapshot,
                        old(self)@.with_events(emitted(out@).take(k + 1)),
                    ),
                self@ == old(self)@.with_events(emitted(out@)),
            decreases deliveries@.len() - i,
        {
            let ghost prefix = deliveries@.take(i as int);
            assert(deliveries@.take(i + 1).drop_last() =~= prefix);
            let (id, ok) = (deliveries[i].0.clone(), deliveries[i].1);
            if ok {
                let ghost before = out@;
                let e = self.push_notice(
                    Notice::ServerMessageSent { message: message.clone(), peer_id: id },
                );
                out.push(e);
                sent += 1;
                proof {
                    assert(emitted(out@).drop_last() =~= emitted(before));
                    assert(emitted(out@).take(out@.len() as int) =~= emitted(out@));
                    assert forall|k: int| 0 <= k < out@.len() - 1 implies #[trigger] emitted(out@).take(
                        k + 1,
                    ) =~= emitted(before).take(k + 1) by {}
                }
            }
            i += 1;
        }
        assert(deliveries@.take(deliveries@.len() as int) =~= deliveries@);
        (SendResult { sent }, out)
    }

    /// Whether a client may connect to `url`; the normalized address on success.
    pub fn begin_client_connect(&self, url: String) -> (r: Result<String, String>)
        ensures
            text_outcome(r) == client_connect_plan(self@, url@),
    {
        let url = normalize_ws_url(url)?;
        if self.client.is_some() {
            return Err(literal("客户端已经连接"));
        }
        Ok(url)
    }

    /// The client is now connected to `url` under a fresh connection identifier;
    /// the connection is recorded.
    pub fn finish_client_connect(&mut self, url: String) -> (r: (String, Emission))
        ensures
            event_shape(r.1.event) == shape(
                EventSource::Client,
                EventDirection::Lifecycle,
                EventLevel::Info,
                "客户端已连接"@,
                url@,
                None,
            ),
            stamped(r.1.event),
            is_uuid_v4_text(r.0@),
            final(self)@ == old(self)@.with_client(
                Some(ClientSession { connection_id: r.0, url }),
            ).with_event(r.1.event),
            snapshot_of(r.1.snapshot, final(self)@),
    {
        proof {
            use_type_invariant(&*self);
        }
        let connection_id = new_uuid();
        self.client = Some(ClientSession { connection_id: connection_id.clone(), url: url.clone() });
        let e = self.push_notice(Notice::ClientConnected { url });
        (connection_id, e)
    }

    /// The reader of connection `connection_id` to `url` has ended. When that
    /// connection is still the client's, the client is disconnected and the
    /// disconnection recorded; otherwise nothing changes.
    pub fn client_reader_stopped(&mut self, connection_id: &String, url: String) -> (r: Option<Emission>)
        ensures
            match old(self)@.client {
                Some(s) if s.connection_id@ == connection_id@ => {
                    &&& r is Some
                    &&& event_shape(r->Some_0.event) == shape(
                        EventSource::Client,
                        EventDirection::Lifecycle,
                        EventLevel::Info,
                        "客户端已断开"@,
                        url@,
                        None,
                    )
                    &&& stamped(r->Some_0.event)
                    &&& final(self)@ == old(self)@.with_client(None).with_event(r->Some_0.event)
                    &&& snapshot_of(r->Some_0.snapshot, final(self)@)
                },
                _ => r is None && final(self)@ == old(self)@,
            },
    {
        proof {
            use_type_invariant(&*self);
        }
        let current = match &self.client {
            Some(s) => s.connection_id == *connection_id,
            None => false,
        };
        if current {
            self.client = None;
            Some(self.push_notice(Notice::ClientDisconnected { url }))
        } else {
            None
        }
    }

    /// Disconnects the client, recording it when one was connected.
    pub fn disconnect_client(&mut self) -> (r: Option<Emission>)
        ensures
            match old(self)@.client {
                Some(s) => {
                    &&& r is Some
                    &&& event_shape(r->Some_0.event) == shape(
                        EventSource::Client,
                        EventDirection::Lifecycle,
                        EventLevel::Info,
                        "客户端已断开"@,
                        s.url@,
                        None,
                    )
                    &&& stamped(r->Some_0.event)
                    &&& final(self)@ == old(self)@.with_client(None).with_event(r->Some_0.event)
                    &&& snapshot_of(r->Some_0.snapshot, final(self)@)
                },
                None => r is None && final(self)@ == old(self)@,
            },
    {
        proof {
            use_type_invariant(&*self);
        }
        let mut client = None;
        std::mem::swap(&mut client, &mut self.client);
        match client {
            Some(s) => Some(self.push_notice(Notice::ClientDisconnected { url: s.url })),
            None => None,
        }
    }

    /// Whether the client may send `message`.
    pub fn plan_client_send(&self, message: &str) -> (r: Result<(), String>)
        ensures
            unit_outcome(r) == client_send_plan(self@, message@),
    {
        validate_json_text(message, "客户端发送内容")?;
        if self.client.is_none() {
            return Err(literal("客户端未连接"));
        }
        Ok(())
    }

    /// The client's message went out (or not): a sent message is recorded and
    /// counted, an unsent one is an error and changes nothing.
    pub fn finish_client_send(&mut self, was_sent: bool, message: String) -> (r: Result<
        (SendResult, Emission),
        String,
    >)
        ensures
            !was_sent ==> r is Err && r->Err_0@ == "客户端发送失败"@ && final(self)@ == old(self)@,
            was_sent ==> {
                &&& r is Ok
                &&& r->Ok_0.0.sent == 1
                &&& event_shape(r->Ok_0.1.event) == shape(
                    EventSource::Client,
                    EventDirection::Outbound,
                    EventLevel::Info,
                    "客户端发送消息"@,
                    message@,
                    None,
                )
                &&& stamped(r->Ok_0.1.event)
                &&& final(self)@ == old(self)@.with_event(r->Ok_0.1.event)
                &&& snapshot_of(r->Ok_0.1.snapshot, final(self)@)
            },
    {
        if !was_sent {
            return Err(literal("客户端发送失败"));
        }
        let e = self.push_notice(Notice::ClientMessageSent { message });
        Ok((SendResult { sent: 1 }, e))
    }

    /// A new connection from `address` joins the server under a fresh
    /// identifier, stamped with the current time; the arrival is recorded.
    pub fn register_peer(&mut self, address: String) -> (r: (ServerPeer, Emission))
        ensures
            r.0.address == address,
            event_shape(r.1.event) == shape(
                EventSource::Server,
                EventDirection::Lifecycle,
                EventLevel::Info,
                "客户端接入服务端"@,
                address@,
                Some(r.0.id@),
            ),
            stamped(r.1.event),
            is_uuid_v4_text(r.0.id@),
            is_utc_timestamp(r.0.connected_at@),
            final(self)@ == old(self)@.with_peers(upsert_peer(old(self)@.peers, r.0)).with_event(
                r.1.event,
            ),
            snapshot_of(r.1.snapshot, final(self)@),
    {
        proof {
            use_type_invariant(&*self);
        }
        let peer = ServerPeer { id: new_uuid(), address: address.clone(), connected_at: now_rfc3339() };
        let mut peers = Vec::new();
        std::mem::swap(&mut peers, &mut self.server_clients);
        let ghost before = peers@;
        let mut i: usize = 0;
        while i < peers.len() && !(peers[i].id == peer.id)
            invariant
                i <= peers@.len(),
                peers@ == before,
                unique_ids(before),
                forall|j: int| 0 <= j < i ==> before[j].id@ != peer.id@,
            decreases peers@.len() - i,
        {
            i += 1;
        }
        if i < peers.len() {
            proof {
                assert(has_peer(before, peer.id@));
                let k = peer_index(before, peer.id@);
                assert(k == i);
            }
            peers.set(i, peer.clone());
        } else {
            proof {
                assert(!has_peer(before, peer.id@));
            }
            peers.push(peer.clone());
        }
        assert(peers@ == upsert_peer(before, peer));
        assert(unique_ids(peers@));
        self.server_clients = peers;
        let e = self.push_notice(Notice::PeerJoined { address, peer_id: peer.id.clone() });
        (peer, e)
    }

    /// The connection `peer_id` has left the server and is forgotten.
    pub fn unregister_peer(&mut self, peer_id: &String)
        ensures
            final(self)@ == old(self)@.with_peers(remove_peer(old(self)@.peers, peer_id@)),
            final(self)@.peers == old(self)@.peers.filter(other_than(peer_id@)),
    {
        proof {
            use_type_invariant(&*self);
            lemma_leave_removes_only_the_leaver(self@.peers, peer_id@);
        }
        let mut peers = Vec::new();
        std::mem::swap(&mut peers, &mut self.server_clients);
        let ghost before = peers@;
        let mut i: usize = 0;
        while i < peers.len() && !(peers[i].id == *peer_id)
            invariant
                i <= peers@.len(),
                peers@ == before,
                unique_ids(before),
                forall|j: int| 0 <= j < i ==> before[j].id@ != peer_id@,
            decreases peers@.len() - i,
        {
            i += 1;
        }
        if i < peers.len() {
            proof {
                assert(has_peer(before, peer_id@));
                let k = peer_index(before, peer_id@);
                assert(k == i);
            }
            peers.remove(i);
        } else {
            proof {
                assert(!has_peer(before, peer_id@));
            }
        }
        assert(peers@ == remove_peer(before, peer_id@));
        assert(unique_ids(peers@));
        self.server_clients = peers;
    }
}

/// The newest `MAX_EVENTS` of `s`.
pub open spec fn newest(s: Seq<RuntimeEvent>) -> Seq<RuntimeEvent> {
    if s.len() > MAX_EVENTS {
        s.skip(s.len() - MAX_EVENTS)
    } else {
        s
    }
}

/// Recording events in turn keeps exactly the newest `MAX_EVENTS` of all the
/// events recorded so far, in the order they were recorded, and touches nothing
/// else.
pub proof fn lemma_stream_keeps_newest(m: RuntimeModel, es: Seq<RuntimeEvent>)
    requires
        m.wf(),
    ensures
        m.with_events(es).events == newest(m.events + es),
        m.with_events(es).wf(),
        m.with_events(es).server == m.server,
        m.with_events(es).peers == m.peers,
        m.with_events(es).client == m.client,
    decreases es.len(),
{
    if es.len() == 0 {
        assert(m.events + es =~= m.events);
    } else {
        let front = es.drop_last();
        lemma_stream_keeps_newest(m, front);
        let k = m.with_events(front).events;
        let s = m.events + front;
        let t = m.events + es;
        assert(t =~= s.push(es.last()));
        if s.len() > MAX_EVENTS {
            assert(k.drop_first().push(es.last()) =~= t.skip(t.len() - MAX_EVENTS));
        } else if s.len() == MAX_EVENTS {
            assert(k.drop_first().push(es.last()) =~= t.skip(t.len() - MAX_EVENTS));
        }
    }
}

/// Stopping a server that was started leaves no server and no connection, and
/// leaves the client as it was.
pub proof fn lemma_start_then_stop(
    m: RuntimeModel,
    c: ServerConfig,
    started: RuntimeEvent,
    ended: RuntimeEvent,
)
    ensures
        ({
            let after = stopped(m.with_server(Some(c)).with_event(started)).with_event(ended);
            &&& after.server is None
            &&& after.peers.len() == 0
            &&& after.client == m.client
        }),
{
}

/// Disconnecting a client that was connected leaves no client, and leaves the
/// server and its connections as they were.
pub proof fn lemma_connect_then_disconnect(
    m: RuntimeModel,
    session: ClientSession,
    connected: RuntimeEvent,
    disconnected: RuntimeEvent,
)
    ensures
        ({
            let after = m.with_client(Some(session)).with_event(connected).with_client(
                None,
            ).with_event(disconnected);
            &&& after.client is None
            &&& after.server == m.server
            &&& after.peers == m.peers
        }),
{
}

/// A connection joins with an identifier that no other has, or takes the place
/// of the one that has it: identifiers stay unique, and the joining connection
/// is there afterwards.
pub proof fn lemma_join_keeps_ids_unique(peers: Seq<ServerPeer>, p: ServerPeer)
    requires
        unique_ids(peers),
    ensures
        unique_ids(upsert_peer(peers, p)),
        has_peer(upsert_peer(peers, p), p.id@),
        upsert_peer(peers, p).len() == peers.len() + if has_peer(peers, p.id@) {
            0int
        } else {
            1int
        },
{
    let u = upsert_peer(peers, p);
    if has_peer(peers, p.id@) {
        let k = peer_index(peers, p.id@);
        assert(u[k].id@ == p.id@);
    } else {
        assert(u[peers.len() as int].id@ == p.id@);
    }
}

/// A connection that joins with a fresh identifier and then leaves leaves the
/// connections as they were.
pub proof fn lemma_join_then_leave(peers: Seq<ServerPeer>, p: ServerPeer)
    requires
        unique_ids(peers),
        !has_peer(peers, p.id@),
    ensures
        remove_peer(upsert_peer(peers, p), p.id@) == peers,
{
    let u = peers.push(p);
    assert(u[peers.len() as int].id@ == p.id@);
    let k = peer_index(u, p.id@);
    if k != peers.len() {
        assert(peers[k].id@ == p.id@);
        assert(has_peer(peers, p.id@));
    }
    assert(u.remove(k) =~= peers);
}

/// The connections whose identifier is not `id`.
pub open spec fn other_than(id: Seq<char>) -> spec_fn(ServerPeer) -> bool {
    |q: ServerPeer| q.id@ != id
}

proof fn lemma_filter_keeps_all(s: Seq<ServerPeer>, pred: spec_fn(ServerPeer) -> bool)
    requires
        forall|i: int| 0 <= i < s.len() ==> pred(#[trigger] s[i]),
    ensures
        s.filter(pred) == s,
    decreases s.len(),
{
    reveal(Seq::filter);
    if s.len() > 0 {
        lemma_filter_keeps_all(s.drop_last(), pred);
        assert(pred(s[s.len() - 1]));
        assert(s.drop_last().push(s.last()) =~= s);
    }
}

proof fn lemma_filter_drops_one(s: Seq<ServerPeer>, pred: spec_fn(ServerPeer) -> bool, k: int)
    requires
        0 <= k < s.len(),
        !pred(s[k]),
        forall|i: int| 0 <= i < s.len() && i != k ==> pred(#[trigger] s[i]),
    ensures
        s.filter(pred) == s.remove(k),
    decreases s.len(),
{
    reveal(Seq::filter);
    let d = s.drop_last();
    if k == s.len() - 1 {
        assert forall|i: int| 0 <= i < d.len() implies pred(#[trigger] d[i]) by {
            assert(d[i] == s[i]);
        }
        lemma_filter_keeps_all(d, pred);
        assert(s.remove(k) =~= d);
    } else {
        assert forall|i: int| 0 <= i < d.len() && i != k implies pred(#[trigger] d[i]) by {
            assert(d[i] == s[i]);
        }
        assert(d[k] == s[k]);
        lemma_filter_drops_one(d, pred, k);
        assert(pred(s[s.len() - 1]));
        assert(s.remove(k) =~= d.remove(k).push(s.last()));
    }
}

/// A connection that leaves takes away exactly itself: the connections left
/// are those of the others, in the order they joined. When it was there, one
/// connection fewer remains; every other connection stays, and no connection
/// with its identifier does.
pub proof fn lemma_leave_removes_only_the_leaver(peers: Seq<ServerPeer>, id: Seq<char>)
    requires
        unique_ids(peers),
    ensures
        remove_peer(peers, id) == peers.filter(other_than(id)),
        has_peer(peers, id) ==> remove_peer(peers, id).len() == peers.len() - 1,
        !has_peer(peers, id) ==> remove_peer(peers, id) == peers,
        forall|q: ServerPeer|
            peers.contains(q) && q.id@ != id ==> #[trigger] remove_peer(peers, id).contains(q),
        forall|i: int|
            0 <= i < remove_peer(peers, id).len() ==> #[trigger] remove_peer(peers, id)[i].id@
                != id,
{
    let pred = other_than(id);
    let r = remove_peer(peers, id);
    if has_peer(peers, id) {
        let k = peer_index(peers, id);
        assert forall|i: int| 0 <= i < peers.len() && i != k implies pred(#[trigger] peers[i]) by {
            if i < k {
                assert(peers[i].id@ != peers[k].id@);
            } else {
                assert(peers[k].id@ != peers[i].id@);
            }
        }
        lemma_filter_drops_one(peers, pred, k);
        assert forall|q: ServerPeer| peers.contains(q) && q.id@ != id implies #[trigger] r.contains(
            q,
        ) by {
            let j = choose|j: int| 0 <= j < peers.len() && peers[j] == q;
            assert(j != k);
            if j < k {
                assert(r[j] == q);
            } else {
                assert(r[j - 1] == q);
            }
        }
        assert forall|i: int| 0 <= i < r.len() implies #[trigger] r[i].id@ != id by {
            if i < k {
                assert(r[i] == peers[i]);
                assert(peers[i].id@ != peers[k].id@);
            } else {
                assert(r[i] == peers[i + 1]);
                assert(peers[k].id@ != peers[i + 1].id@);
            }
        }
    } else {
        assert forall|i: int| 0 <= i < peers.len() implies pred(#[trigger] peers[i]) by {
            if peers[i].id@ == id {
                assert(has_peer(peers, id));
            }
        }
        lemma_filter_keeps_all(peers, pred);
        assert forall|i: int| 0 <= i < r.len() implies #[trigger] r[i].id@ != id by {
            assert(pred(peers[i]));
        }
    }
}

/// A message that goes to no connection in particular (or to the broadcast
/// name) goes to every connection of a running server once.
pub proof fn lemma_broadcast_reaches_each_once(m: RuntimeModel, peer_id: Option<Seq<char>>, message: Seq<char>)
    requires
        m.wf(),
        m.server is Some,
        json_parse(message) is Ok,
        selected_peer(peer_id) is None || selected_peer(peer_id) == Some("__broadcast__"@),
    ensures
        server_send_plan(m, peer_id, message) is Ok,
        ({
            let targets = server_send_plan(m, peer_id, message)->Ok_0;
            &&& targets.len() == m.peers.len()
            &&& targets.no_duplicates()
            &&& forall|i: int| 0 <= i < m.peers.len() ==> targets.contains(#[trigger] m.peers[i].id@)
        }),
{
    let targets = peer_ids(m.peers);
    assert forall|i: int, j: int| 0 <= i < targets.len() && 0 <= j < targets.len() && i != j implies targets[i]
        != targets[j] by {
        if i < j {
            assert(m.peers[i].id@ != m.peers[j].id@);
        } else {
            assert(m.peers[j].id@ != m.peers[i].id@);
        }
    }
    assert forall|i: int| 0 <= i < m.peers.len() implies targets.contains(#[trigger] m.peers[i].id@) by {
        assert(targets[i] == m.peers[i].id@);
    }
}

} // verus!
