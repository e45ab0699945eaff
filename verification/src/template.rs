//! Response templates: placeholders filled with JSON-escaped values, the result
//! checked to be JSON.
use vstd::prelude::*;
use crate::json::{
    encode_json_string, is_plain_char, json_escape, json_member, json_parse, json_quoted,
    json_string_content, lemma_escape_no_brace, lemma_escape_occurs, parse_json, text_outcome,
    unit_outcome,
};
use crate::stamp::{is_utc_timestamp, now_rfc3339};
use crate::text::{chars_of, has_prefix, occurs_in, push_str, replace_all, replace_all_chars, string_of};

verus! {

/// The text that `{{jsonMessage}}` stands for: the inbound message as a JSON
/// value when it parses, else the inbound text as a JSON string literal.
pub open spec fn json_message_text(inbound: Seq<char>) -> Seq<char> {
    match json_parse(inbound) {
        Ok(value) => value,
        Err(_) => json_quoted(inbound),
    }
}

/// The template with its five placeholders filled, in this order: `{{message}}`,
/// `{{jsonMessage}}`, `{{peerId}}`, `{{requestId}}`, `{{timestamp}}`.
pub open spec fn render_text(
    template: Seq<char>,
    inbound: Seq<char>,
    peer_id: Seq<char>,
    request_id: Seq<char>,
    timestamp: Seq<char>,
) -> Seq<char> {
    let s1 = replace_all(template, "{{message}}"@, json_escape(inbound));
    let s2 = replace_all(s1, "{{jsonMessage}}"@, json_message_text(inbound));
    let s3 = replace_all(s2, "{{peerId}}"@, json_escape(peer_id));
    let s4 = replace_all(s3, "{{requestId}}"@, json_escape(request_id));
    replace_all(s4, "{{timestamp}}"@, json_escape(timestamp))
}

/// The filled template when it is JSON, else the reason it is not.
pub open spec fn render_outcome(
    template: Seq<char>,
    inbound: Seq<char>,
    peer_id: Seq<char>,
    request_id: Seq<char>,
    timestamp: Seq<char>,
) -> Result<Seq<char>, Seq<char>> {
    let t = render_text(template, inbound, peer_id, request_id, timestamp);
    match json_parse(t) {
        Ok(_) => Ok(t),
        Err(e) => Err("渲染后的 JSON 无效："@ + e),
    }
}

/// The request identifier's text; none stands for the empty text.
pub open spec fn request_text(request_id: Option<&str>) -> Seq<char> {
    match request_id {
        Some(r) => r@,
        None => Seq::empty(),
    }
}

fn fill(s: &Vec<char>, pat: &str, rep: &str) -> (r: Vec<char>)
    requires
        pat@.len() > 0,
    ensures
        r@ == replace_all(s@, pat@, rep@),
{
    let p = chars_of(pat);
    let q = chars_of(rep);
    replace_all_chars(s, &p, &q)
}

/// Fills `template` for one message, with `timestamp` as the time of rendering.
pub fn render_template_at(
    template: &str,
    inbound: &str,
    peer_id: &str,
    request_id: Option<&str>,
    timestamp: &str,
) -> (r: Result<String, String>)
    ensures
        text_outcome(r) == render_outcome(
            template@,
            inbound@,
            peer_id@,
            request_text(request_id),
            timestamp@,
        ),
        forall|key: Seq<char>|
            #[trigger] message_member_template(key) == template@ && brace_free(key)
                && free_of_later_placeholders(inbound@) ==> r is Ok && r->Ok_0@ == json_member(
                key,
                inbound@,
            ),
{
    let json_message = match parse_json(inbound) {
        Ok(value) => value,
        Err(_) => match encode_json_string(inbound) {
            Ok(quoted) => quoted,
            Err(err) => {
                let mut m: Vec<char> = Vec::new();
                push_str(&mut m, "请求消息序列化失败：");
                push_str(&mut m, err.as_str());
                return Err(string_of(&m));
            },
        },
    };
    let request_id = match request_id {
        Some(r) => r,
        None => "",
    };
    proof {
        reveal_strlit("");
        reveal_strlit("{{message}}");
        reveal_strlit("{{jsonMessage}}");
        reveal_strlit("{{peerId}}");
        reveal_strlit("{{requestId}}");
        reveal_strlit("{{timestamp}}");
    }
    let message = json_string_content(inbound)?;
    let peer = json_string_content(peer_id)?;
    let request = json_string_content(request_id)?;
    let time = json_string_content(timestamp)?;
    let t0 = chars_of(template);
    let t1 = fill(&t0, "{{message}}", message.as_str());
    let t2 = fill(&t1, "{{jsonMessage}}", json_message.as_str());
    let t3 = fill(&t2, "{{peerId}}", peer.as_str());
    let t4 = fill(&t3, "{{requestId}}", request.as_str());
    let t5 = fill(&t4, "{{timestamp}}", time.as_str());
    let rendered = string_of(&t5);
    proof {
        assert forall|key: Seq<char>|
            #[trigger] message_member_template(key) == template@ && brace_free(key)
                && free_of_later_placeholders(inbound@) implies rendered@ == json_member(
            key,
            inbound@,
        ) by {
            lemma_message_member_renders(key, inbound@, peer_id@, request_id@, timestamp@);
        }
    }
    match parse_json(rendered.as_str()) {
        Ok(_) => Ok(rendered),
        Err(e) => {
            let mut m: Vec<char> = Vec::new();
            push_str(&mut m, "渲染后的 JSON 无效：");
            push_str(&mut m, e.as_str());
            Err(string_of(&m))
        },
    }
}

/// Fills `template` for one message at the current time. Which time that is the
/// contract leaves open; for that time the result is the one `render_outcome`
/// gives.
pub fn render_template(template: &str, inbound: &str, peer_id: &str, request_id: Option<&str>) -> (r:
    Result<String, String>)
    ensures
        exists|timestamp: Seq<char>|
            is_utc_timestamp(timestamp) && text_outcome(r) == #[trigger] render_outcome(
                template@,
                inbound@,
                peer_id@,
                request_text(request_id),
                timestamp,
            ),
        forall|key: Seq<char>|
            #[trigger] message_member_template(key) == template@ && brace_free(key)
                && free_of_later_placeholders(inbound@) ==> r is Ok && r->Ok_0@ == json_member(
                key,
                inbound@,
            ),
{
    let timestamp = now_rfc3339();
    let r = render_template_at(template, inbound, peer_id, request_id, timestamp.as_str());
    assert(text_outcome(r) == render_outcome(
        template@,
        inbound@,
        peer_id@,
        request_text(request_id),
        timestamp@,
    ));
    r
}

/// The message for a template that does not give JSON.
pub open spec fn invalid_template_message(label: Seq<char>, error: Seq<char>) -> Seq<char> {
    label + "不是有效 JSON 模板："@ + error
}

/// The outcome of checking `template` with a sample message at `timestamp`.
pub open spec fn template_check(template: Seq<char>, label: Seq<char>, timestamp: Seq<char>) -> Result<
    (),
    Seq<char>,
> {
    match render_outcome(
        template,
        "{\"hello\":\"world\"}"@,
        "preview-peer"@,
        "preview-request"@,
        timestamp,
    ) {
        Ok(t) => match json_parse(t) {
            Ok(_) => Ok(()),
            Err(e) => Err(invalid_template_message(label, e)),
        },
        Err(e) => Err(e),
    }
}

/// Checks that `template`, filled with a sample message at `timestamp`, is JSON.
pub fn validate_template_json_at(template: &str, label: &str, timestamp: &str) -> (r: Result<
    (),
    String,
>)
    ensures
        unit_outcome(r) == template_check(template@, label@, timestamp@),
{
    let rendered = render_template_at(
        template,
        "{\"hello\":\"world\"}",
        "preview-peer",
        Some("preview-request"),
        timestamp,
    )?;
    match parse_json(rendered.as_str()) {
        Ok(_) => Ok(()),
        Err(e) => {
            let mut m: Vec<char> = Vec::new();
            push_str(&mut m, label);
            push_str(&mut m, "不是有效 JSON 模板：");
            push_str(&mut m, e.as_str());
            Err(string_of(&m))
        },
    }
}

/// Checks that `template`, filled with a sample message at the current time, is
/// JSON. Which time that is the contract leaves open.
pub fn validate_template_json(template: &str, label: &str) -> (r: Result<(), String>)
    ensures
        exists|timestamp: Seq<char>|
            is_utc_timestamp(timestamp) && unit_outcome(r) == #[trigger] template_check(
                template@,
                label@,
                timestamp,
            ),
{
    let timestamp = now_rfc3339();
    let r = validate_template_json_at(template, label, timestamp.as_str());
    assert(unit_outcome(r) == template_check(template@, label@, timestamp@));
    r
}

/// A text in which `pat` does not occur is left as it is by `replace_all`.
pub proof fn lemma_replace_absent(s: Seq<char>, pat: Seq<char>, rep: Seq<char>)
    requires
        !occurs_in(s, pat),
    ensures
        replace_all(s, pat, rep) == s,
    decreases s.len(),
{
    if s.len() == 0 || pat.len() == 0 {
    } else if has_prefix(s, pat) {
        assert(s.subrange(0int, 0int + pat.len()) == pat);
    } else {
        let t = s.drop_first();
        assert(!occurs_in(t, pat)) by {
            if occurs_in(t, pat) {
                let i = choose|i: int|
                    0 <= i <= t.len() - pat.len() && #[trigger] t.subrange(i, i + pat.len())
                        == pat;
                assert(s.subrange(i + 1, i + 1 + pat.len()) =~= t.subrange(i, i + pat.len()));
            }
        }
        lemma_replace_absent(t, pat, rep);
        assert(s =~= seq![s[0]] + t);
    }
}

/// A template in which none of the five placeholders occurs is rendered as it
/// stands, whatever the message, peer, request and time: the outcome is the
/// template itself when it is JSON, and the parser's complaint otherwise.
pub proof fn lemma_placeholder_free_template_is_verbatim(
    template: Seq<char>,
    inbound: Seq<char>,
    peer_id: Seq<char>,
    request_id: Seq<char>,
    timestamp: Seq<char>,
)
    requires
        !occurs_in(template, "{{message}}"@),
        !occurs_in(template, "{{jsonMessage}}"@),
        !occurs_in(template, "{{peerId}}"@),
        !occurs_in(template, "{{requestId}}"@),
        !occurs_in(template, "{{timestamp}}"@),
    ensures
        render_text(template, inbound, peer_id, request_id, timestamp) == template,
        render_outcome(template, inbound, peer_id, request_id, timestamp) == match json_parse(
            template,
        ) {
            Ok(_) => Ok::<Seq<char>, Seq<char>>(template),
            Err(e) => Err("渲染后的 JSON 无效："@ + e),
        },
{
    lemma_replace_absent(template, "{{message}}"@, json_escape(inbound));
    lemma_replace_absent(template, "{{jsonMessage}}"@, json_message_text(inbound));
    lemma_replace_absent(template, "{{peerId}}"@, json_escape(peer_id));
    lemma_replace_absent(template, "{{requestId}}"@, json_escape(request_id));
    lemma_replace_absent(template, "{{timestamp}}"@, json_escape(timestamp));
}

/// No `{` in `s`.
pub open spec fn brace_free(s: Seq<char>) -> bool {
    forall|i: int| 0 <= i < s.len() ==> #[trigger] s[i] != '{'
}

/// `s` holds none of the placeholders that come after `{{message}}`.
pub open spec fn free_of_later_placeholders(s: Seq<char>) -> bool {
    &&& !occurs_in(s, "{{jsonMessage}}"@)
    &&& !occurs_in(s, "{{peerId}}"@)
    &&& !occurs_in(s, "{{requestId}}"@)
    &&& !occurs_in(s, "{{timestamp}}"@)
}

/// The template of a JSON object whose one member `key` holds the message as a
/// string: `{"key":"{{message}}"}`.
pub open spec fn message_member_template(key: Seq<char>) -> Seq<char> {
    seq!['{'] + json_quoted(key) + seq![':', '"'] + "{{message}}"@ + seq!['"', '}']
}

/// A placeholder: at least two characters, two opening braces first, and only
/// plain characters.
pub open spec fn placeholder_shape(p: Seq<char>) -> bool {
    &&& p.len() >= 2
    &&& p[0] == '{'
    &&& p[1] == '{'
    &&& forall|i: int| 0 <= i < p.len() ==> is_plain_char(#[trigger] p[i])
}

proof fn lemma_placeholder_shapes()
    ensures
        placeholder_shape("{{message}}"@),
        placeholder_shape("{{jsonMessage}}"@),
        placeholder_shape("{{peerId}}"@),
        placeholder_shape("{{requestId}}"@),
        placeholder_shape("{{timestamp}}"@),
{
    reveal_strlit("{{message}}");
    reveal_strlit("{{jsonMessage}}");
    reveal_strlit("{{peerId}}");
    reveal_strlit("{{requestId}}");
    reveal_strlit("{{timestamp}}");
}

/// A pattern that cannot start inside `a` is first found right after it.
proof fn lemma_replace_after(a: Seq<char>, pat: Seq<char>, b: Seq<char>, rep: Seq<char>)
    requires
        pat.len() > 0,
        forall|i: int| 0 <= i < a.len() ==> !has_prefix(#[trigger] (a + pat + b).skip(i), pat),
    ensures
        replace_all(a + pat + b, pat, rep) == a + rep + replace_all(b, pat, rep),
    decreases a.len(),
{
    let s = a + pat + b;
    if a.len() == 0 {
        assert(s =~= pat + b);
        assert(s.subrange(0, pat.len() as int) =~= pat);
        assert(s.skip(pat.len() as int) =~= b);
        assert(a + rep + replace_all(b, pat, rep) =~= rep + replace_all(b, pat, rep));
    } else {
        assert(s.skip(0) =~= s);
        let a1 = a.drop_first();
        assert(s.drop_first() =~= a1 + pat + b);
        assert forall|i: int| 0 <= i < a1.len() implies !has_prefix(
            #[trigger] (a1 + pat + b).skip(i),
            pat,
        ) by {
            assert((a1 + pat + b).skip(i) =~= s.skip(i + 1));
        }
        lemma_replace_after(a1, pat, b, rep);
        assert(a + rep + replace_all(b, pat, rep) =~= seq![s[0]] + (a1 + rep + replace_all(
            b,
            pat,
            rep,
        )));
    }
}

/// A placeholder does not occur in a one-member object whose key has no `{`,
/// unless it occurs in the member's value.
proof fn lemma_member_without_placeholder(key: Seq<char>, v: Seq<char>, p: Seq<char>)
    requires
        placeholder_shape(p),
        brace_free(key),
        !occurs_in(v, p),
    ensures
        !occurs_in(json_member(key, v), p),
{
    let m = json_member(key, v);
    let ek = json_escape(key);
    let ev = json_escape(v);
    let pre = seq!['{', '"'] + ek + seq!['"', ':', '"'];
    let tail = seq!['"', '}'];
    let la: int = pre.len() as int;
    lemma_escape_no_brace(key);
    assert(m =~= pre + ev + tail);
    assert forall|k: int| 1 <= k < la implies #[trigger] m[k] != '{' by {
        assert((pre + ev + tail)[k] == pre[k]);
        if 2 <= k < ek.len() + 2 {
            assert(pre[k] == ek[k - 2]);
        }
    }
    assert forall|k: int| 0 <= k < ev.len() implies m[la + k] == #[trigger] ev[k] by {
        assert((pre + ev + tail)[la + k] == (pre + ev)[la + k]);
    }
    assert(m[la + ev.len()] == '"') by {
        assert((pre + ev + tail)[la + ev.len()] == tail[0]);
    }
    assert(m[la + ev.len() + 1] == '}') by {
        assert((pre + ev + tail)[la + ev.len() + 1] == tail[1]);
    }
    if occurs_in(m, p) {
        let i = choose|i: int| 0 <= i <= m.len() - p.len() && #[trigger] m.subrange(i, i + p.len()) == p;
        assert(m.subrange(i, i + p.len())[0] == m[i]);
        assert(m.subrange(i, i + p.len())[1] == m[i + 1]);
        if i < la {
            assert(m[i + 1] == '{');
            if i + 1 < la {
                assert(m[i + 1] != '{');
            }
        } else if i + p.len() <= la + ev.len() {
            assert(ev.subrange(i - la, i - la + p.len()) =~= m.subrange(i, i + p.len()));
            lemma_escape_occurs(v, p);
        } else if i < la + ev.len() {
            let j = la + ev.len() - i;
            assert(m.subrange(i, i + p.len())[j] == m[la + ev.len()]);
            assert(is_plain_char(p[j]));
        } else {
            assert(m[i] == '"' || m[i] == '}');
        }
    }
}

/// `{{jsonMessage}}` stands for the inbound message as the parser reads it,
/// whatever kind of JSON value that is (object, array, number, boolean, null
/// or string), written back compactly; a message that is not JSON stands as a
/// string literal. So the template `{{jsonMessage}}` alone renders to that
/// text, when it holds none of the later placeholders.
pub proof fn lemma_json_message_is_the_parsed_value(
    inbound: Seq<char>,
    peer_id: Seq<char>,
    request_id: Seq<char>,
    timestamp: Seq<char>,
)
    ensures
        json_parse(inbound) matches Ok(v) ==> json_message_text(inbound) == v,
        json_parse(inbound) is Err ==> json_message_text(inbound) == json_quoted(inbound),
        free_of_later_placeholders(json_message_text(inbound)) ==> render_text(
            "{{jsonMessage}}"@,
            inbound,
            peer_id,
            request_id,
            timestamp,
        ) == json_message_text(inbound),
{
    let j = "{{jsonMessage}}"@;
    let m = "{{message}}"@;
    let v = json_message_text(inbound);
    reveal_strlit("{{jsonMessage}}");
    reveal_strlit("{{message}}");
    assert forall|i: int| 0 <= i <= j.len() - m.len() implies #[trigger] j.subrange(i, i + m.len())
        != m by {
        assert(j.subrange(i, i + m.len())[2] == j[i + 2]);
    }
    lemma_replace_absent(j, m, json_escape(inbound));
    assert(j.skip(j.len() as int) =~= Seq::<char>::empty());
    assert(j.subrange(0, j.len() as int) =~= j);
    assert(has_prefix(j, j));
    assert(replace_all(j.skip(j.len() as int), j, v) =~= Seq::<char>::empty());
    assert(replace_all(j, j, v) == v + replace_all(j.skip(j.len() as int), j, v));
    assert(replace_all(j, j, v) =~= v);
    if free_of_later_placeholders(v) {
        lemma_replace_absent(v, "{{peerId}}"@, json_escape(peer_id));
        lemma_replace_absent(v, "{{requestId}}"@, json_escape(request_id));
        lemma_replace_absent(v, "{{timestamp}}"@, json_escape(timestamp));
    }
}

/// A one-member template `{"key":"{{message}}"}` whose key has no `{` is
/// filled with the message as the member's string literal, whatever the peer,
/// request and time, as long as the message holds none of the later
/// placeholders.
pub proof fn lemma_message_member_renders(
    key: Seq<char>,
    inbound: Seq<char>,
    peer_id: Seq<char>,
    request_id: Seq<char>,
    timestamp: Seq<char>,
)
    requires
        brace_free(key),
        free_of_later_placeholders(inbound),
    ensures
        render_text(message_member_template(key), inbound, peer_id, request_id, timestamp)
            == json_member(key, inbound),
{
    lemma_placeholder_shapes();
    let msg = "{{message}}"@;
    let a = seq!['{'] + json_quoted(key) + seq![':', '"'];
    let b = seq!['"', '}'];
    let ek = json_escape(key);
    lemma_escape_no_brace(key);
    assert(message_member_template(key) =~= a + msg + b);
    assert(a =~= seq!['{', '"'] + ek + seq!['"', ':', '"']);
    assert forall|i: int| 0 <= i < a.len() implies !has_prefix(#[trigger] (a + msg + b).skip(i), msg) by {
        let t = (a + msg + b).skip(i);
        if has_prefix(t, msg) {
            assert(t.subrange(0, msg.len() as int)[0] == t[0]);
            assert(t.subrange(0, msg.len() as int)[1] == t[1]);
            assert(t[0] == a[i]);
            if i == 0 {
                assert(t[1] == a[1]);
            } else if 2 <= i < ek.len() + 2 {
                assert(a[i] == ek[i - 2]);
            }
        }
    }
    lemma_replace_after(a, msg, b, json_escape(inbound));
    assert(!occurs_in(b, msg));
    lemma_replace_absent(b, msg, json_escape(inbound));
    let s1 = a + json_escape(inbound) + b;
    assert(s1 =~= json_member(key, inbound));
    lemma_member_without_placeholder(key, inbound, "{{jsonMessage}}"@);
    lemma_member_without_placeholder(key, inbound, "{{peerId}}"@);
    lemma_member_without_placeholder(key, inbound, "{{requestId}}"@);
    lemma_member_without_placeholder(key, inbound, "{{timestamp}}"@);
    lemma_replace_absent(s1, "{{jsonMessage}}"@, json_message_text(inbound));
    lemma_replace_absent(s1, "{{peerId}}"@, json_escape(peer_id));
    lemma_replace_absent(s1, "{{requestId}}"@, json_escape(request_id));
    lemma_replace_absent(s1, "{{timestamp}}"@, json_escape(timestamp));
}

} // verus!
