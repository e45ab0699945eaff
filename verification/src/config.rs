//! The mock server's configuration and the client's target address: how they
//! are normalized and checked.
use vstd::prelude::*;
use crate::text::{
    chars_of, has_prefix, is_trimmed, is_whitespace, lemma_trim_idempotent, lemma_trim_is_trimmed,
    lemma_trimmed_is_fixed, push_decimal, push_str, starts_with, string_of, trim, trim_chars,
    decimal,
};

verus! {

/// How the mock server listens and answers.
#[derive(Debug)]
pub struct ServerConfig {
    pub host: String,
    pub port: u16,
    pub path: String,
    pub auto_reply: bool,
    pub send_greeting: bool,
    pub response_template: String,
    pub greeting_template: String,
}

/// A configuration with its texts as character sequences.
pub struct ServerConfigView {
    pub host: Seq<char>,
    pub port: u16,
    pub path: Seq<char>,
    pub auto_reply: bool,
    pub send_greeting: bool,
    pub response_template: Seq<char>,
    pub greeting_template: Seq<char>,
}

impl View for ServerConfig {
    type V = ServerConfigView;

    open spec fn view(&self) -> ServerConfigView {
        ServerConfigView {
            host: self.host@,
            port: self.port,
            path: self.path@,
            auto_reply: self.auto_reply,
            send_greeting: self.send_greeting,
            response_template: self.response_template@,
            greeting_template: self.greeting_template@,
        }
    }
}

impl Clone for ServerConfig {
    fn clone(&self) -> (r: Self)
        ensures
            r == *self,
    {
        ServerConfig {
            host: self.host.clone(),
            port: self.port,
            path: self.path.clone(),
            auto_reply: self.auto_reply,
            send_greeting: self.send_greeting,
            response_template: self.response_template.clone(),
            greeting_template: self.greeting_template.clone(),
        }
    }
}

/// A (trimmed) path made absolute: the empty path becomes `/`, and a path that
/// does not start with `/` gets one in front.
pub open spec fn normalize_path(p: Seq<char>) -> Seq<char> {
    if p.len() == 0 {
        seq!['/']
    } else if p[0] != '/' {
        seq!['/'] + p
    } else {
        p
    }
}

/// The configuration with its texts trimmed and its path made absolute, or the
/// first reason to refuse it: an empty host, port 0, an empty response template.
pub open spec fn normalized_config(c: ServerConfigView) -> Result<ServerConfigView, Seq<char>> {
    if trim(c.host).len() == 0 {
        Err("监听地址不能为空"@)
    } else if c.port == 0 {
        Err("端口必须大于 0"@)
    } else if trim(c.response_template).len() == 0 {
        Err("自动响应模板不能为空"@)
    } else {
        Ok(
            ServerConfigView {
                host: trim(c.host),
                port: c.port,
                path: normalize_path(trim(c.path)),
                auto_reply: c.auto_reply,
                send_greeting: c.send_greeting,
                response_template: trim(c.response_template),
                greeting_template: trim(c.greeting_template),
            },
        )
    }
}

/// The view of a configuration result.
pub open spec fn config_outcome(r: Result<ServerConfig, String>) -> Result<ServerConfigView, Seq<char>> {
    match r {
        Ok(c) => Ok(c@),
        Err(e) => Err(e@),
    }
}

fn error_text(message: &str) -> (r: String)
    ensures
        r@ == message@,
{
    let v = chars_of(message);
    string_of(&v)
}

fn trimmed(s: &String) -> (r: Vec<char>)
    ensures
        r@ == trim(s@),
{
    let v = chars_of(s.as_str());
    trim_chars(&v)
}

/// Trims the configuration's texts, makes its path absolute and refuses an
/// empty host, port 0 and an empty response template, in that order.
pub fn normalize_server_config(config: ServerConfig) -> (r: Result<ServerConfig, String>)
    ensures
        config_outcome(r) == normalized_config(config@),
        r is Ok ==> r->Ok_0.port == config.port && r->Ok_0.auto_reply == config.auto_reply
            && r->Ok_0.send_greeting == config.send_greeting,
{
    let host = trimmed(&config.host);
    let path = trimmed(&config.path);
    let response = trimmed(&config.response_template);
    let greeting = trimmed(&config.greeting_template);
    if host.len() == 0 {
        return Err(error_text("监听地址不能为空"));
    }
    if config.port == 0 {
        return Err(error_text("端口必须大于 0"));
    }
    let mut path = path;
    if path.len() == 0 {
        path.push('/');
        assert(path@ =~= seq!['/']);
    }
    if path[0] != '/' {
        path.insert(0, '/');
        assert(path@ =~= seq!['/'] + trim(config.path@));
    }
    assert(path@ == normalize_path(trim(config.path@)));
    if response.len() == 0 {
        return Err(error_text("自动响应模板不能为空"));
    }
    let r = ServerConfig {
        host: string_of(&host),
        port: config.port,
        path: string_of(&path),
        auto_reply: config.auto_reply,
        send_greeting: config.send_greeting,
        response_template: string_of(&response),
        greeting_template: string_of(&greeting),
    };
    assert(r@ == normalized_config(config@)->Ok_0);
    Ok(r)
}

/// The trimmed address, or the reason to refuse it: it is empty, or it starts
/// with neither `ws://` nor `wss://`.
pub open spec fn normalized_ws_url(url: Seq<char>) -> Result<Seq<char>, Seq<char>> {
    let u = trim(url);
    if u.len() == 0 {
        Err("WebSocket 地址不能为空"@)
    } else if !has_prefix(u, "ws://"@) && !has_prefix(u, "wss://"@) {
        Err("WebSocket 地址必须以 ws:// 或 wss:// 开头"@)
    } else {
        Ok(u)
    }
}

/// Trims a WebSocket address and checks its scheme.
pub fn normalize_ws_url(url: String) -> (r: Result<String, String>)
    ensures
        crate::json::text_outcome(r) == normalized_ws_url(url@),
{
    let u = trimmed(&url);
    if u.len() == 0 {
        return Err(error_text("WebSocket 地址不能为空"));
    }
    let ws = chars_of("ws://");
    let wss = chars_of("wss://");
    if !starts_with(&u, &ws) && !starts_with(&u, &wss) {
        return Err(error_text("WebSocket 地址必须以 ws:// 或 wss:// 开头"));
    }
    Ok(string_of(&u))
}

/// The address at which a server with this configuration is reached.
pub open spec fn endpoint_text(c: ServerConfigView) -> Seq<char> {
    "ws://"@ + c.host + seq![':'] + decimal(c.port as nat) + c.path
}

/// `ws://host:port/path` for the configuration.
pub fn server_endpoint(config: &ServerConfig) -> (r: String)
    ensures
        r@ == endpoint_text(config@),
{
    let mut v: Vec<char> = Vec::new();
    push_str(&mut v, "ws://");
    push_str(&mut v, config.host.as_str());
    v.push(':');
    push_decimal(&mut v, config.port as u64);
    push_str(&mut v, config.path.as_str());
    proof {
        assert(v@ =~= "ws://"@ + config.host@ + seq![':'] + decimal(config.port as nat)
            + config.path@);
    }
    string_of(&v)
}

/// A normalized path has no whitespace at its ends and starts with `/`.
proof fn lemma_normalized_path(p: Seq<char>)
    ensures
        is_trimmed(normalize_path(trim(p))),
        normalize_path(trim(p)).len() > 0,
        normalize_path(trim(p))[0] == '/',
{
    lemma_trim_is_trimmed(p);
    let t = trim(p);
    assert(!is_whitespace('/'));
    if t.len() > 0 && t[0] != '/' {
        assert((seq!['/'] + t).last() == t.last());
    }
}

/// Normalization refuses a configuration only for a blank host, port 0 or a
/// blank response template. What it accepts keeps its port and both switches
/// as the user set them, has its texts trimmed, and has a path that starts with
/// `/` and ends with the trimmed path given.
pub proof fn lemma_normalize_keeps_port_and_switches(c: ServerConfigView)
    ensures
        normalized_config(c) is Err <==> (trim(c.host).len() == 0 || c.port == 0 || trim(
            c.response_template,
        ).len() == 0),
        normalized_config(c) is Ok ==> {
            let n = normalized_config(c)->Ok_0;
            &&& n.port == c.port
            &&& n.auto_reply == c.auto_reply
            &&& n.send_greeting == c.send_greeting
            &&& n.host == trim(c.host)
            &&& n.response_template == trim(c.response_template)
            &&& n.greeting_template == trim(c.greeting_template)
            &&& n.path.len() > 0 && n.path[0] == '/'
            &&& (n.path == trim(c.path) || n.path == seq!['/'] + trim(c.path))
        },
{
}

/// Normalizing a configuration that normalization accepted changes nothing:
/// the normalized configuration is accepted again, as it is.
pub proof fn lemma_normalize_server_config_idempotent(c: ServerConfigView)
    requires
        normalized_config(c) is Ok,
    ensures
        normalized_config(normalized_config(c)->Ok_0) == normalized_config(c),
        normalized_config(c)->Ok_0.path.len() > 0,
        normalized_config(c)->Ok_0.path[0] == '/',
{
    let n = normalized_config(c)->Ok_0;
    lemma_trim_idempotent(c.host);
    lemma_trim_idempotent(c.response_template);
    lemma_trim_idempotent(c.greeting_template);
    lemma_normalized_path(c.path);
    lemma_trimmed_is_fixed(n.path);
}

/// Normalizing an accepted address again gives the same address.
pub proof fn lemma_normalize_ws_url_idempotent(url: Seq<char>)
    requires
        normalized_ws_url(url) is Ok,
    ensures
        normalized_ws_url(normalized_ws_url(url)->Ok_0) == normalized_ws_url(url),
{
    lemma_trim_idempotent(url);
}

} // verus!
