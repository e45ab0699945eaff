//! JSON text: string escaping as `serde_json` writes it, and syntax checks
//! through `serde_json`'s parser.
use vstd::prelude::*;
use crate::text::{chars_of, digit_char, has_prefix, occurs_in, push_str, string_of};

verus! {

/// The lower-case hexadecimal digit for `d < 16`.
pub open spec fn hex_char(d: nat) -> char {
    if d < 10 {
        digit_char(d)
    } else if d == 10 {
        'a'
    } else if d == 11 {
        'b'
    } else if d == 12 {
        'c'
    } else if d == 13 {
        'd'
    } else if d == 14 {
        'e'
    } else {
        'f'
    }
}

/// How one character stands inside a JSON string literal written by `serde_json`:
/// the quote and the backslash are escaped by a backslash, the five control
/// characters that have a short form take it, every other control character
/// below U+0020 becomes `\u00XX`, and all other characters stand as they are.
pub open spec fn escape_char(c: char) -> Seq<char> {
    let u = c as int;
    if c == '"' {
        seq!['\\', '"']
    } else if c == '\\' {
        seq!['\\', '\\']
    } else if u == 0x08 {
        seq!['\\', 'b']
    } else if u == 0x09 {
        seq!['\\', 't']
    } else if u == 0x0a {
        seq!['\\', 'n']
    } else if u == 0x0c {
        seq!['\\', 'f']
    } else if u == 0x0d {
        seq!['\\', 'r']
    } else if u < 0x20 {
        seq!['\\', 'u', '0', '0', hex_char((u / 16) as nat), hex_char((u % 16) as nat)]
    } else {
        seq![c]
    }
}

/// The escaped characters of `s`, without the surrounding quotes.
pub open spec fn json_escape(s: Seq<char>) -> Seq<char>
    decreases s.len(),
{
    if s.len() == 0 {
        Seq::empty()
    } else {
        json_escape(s.drop_last()) + escape_char(s.last())
    }
}

/// The JSON string literal for `s`.
pub open spec fn json_quoted(s: Seq<char>) -> Seq<char> {
    seq!['"'] + json_escape(s) + seq!['"']
}

/// The compact JSON object with the one member `key`, of string value `value`.
pub open spec fn json_member(key: Seq<char>, value: Seq<char>) -> Seq<char> {
    seq!['{'] + json_quoted(key) + seq![':'] + json_quoted(value) + seq!['}']
}

/// What `serde_json` makes of `text` when it parses it as a JSON value:
/// the value written back in compact form, or the parser's error message.
pub uninterp spec fn json_parse(text: Seq<char>) -> Result<Seq<char>, Seq<char>>;

/// Calls `serde_json::from_str::<serde_json::Value>`. On success it hands back
/// the parsed value in its compact JSON form (the value's `Display`), on failure
/// the error's message; the contract ties either to `json_parse` of the input.
/// Of which texts parse it claims one thing only: an object with one member
/// whose key and value are string literals as `serde_json` writes them is
/// accepted, and written back as it stands (the parser reads each escape back
/// to its character, and the writer escapes each character the same way).
#[verifier::external_body]
pub(crate) fn parse_json(text: &str) -> (r: Result<String, String>)
    ensures
        match r {
            Ok(value) => json_parse(text@) == Ok::<Seq<char>, Seq<char>>(value@),
            Err(message) => json_parse(text@) == Err::<Seq<char>, Seq<char>>(message@),
        },
        forall|key: Seq<char>, value: Seq<char>|
            text@ == #[trigger] json_member(key, value) ==> r is Ok && r->Ok_0@ == text@,
{
    match serde_json::from_str::<serde_json::Value>(text) {
        Ok(value) => Ok(value.to_string()),
        Err(err) => Err(err.to_string()),
    }
}

/// Calls `serde_json::to_string` on a string slice. The contract claims that it
/// succeeds and returns the quoted literal that `json_quoted` describes: the
/// serializer writes the string through its escape table into a `Vec<u8>`,
/// which cannot fail. It also claims that `serde_json`'s parser reads that
/// literal back, and that the value read is written as the same literal.
#[verifier::external_body]
pub(crate) fn encode_json_string(value: &str) -> (r: Result<String, String>)
    ensures
        r is Ok,
        r->Ok_0@ == json_quoted(value@),
        json_parse(r->Ok_0@) == Ok::<Seq<char>, Seq<char>>(r->Ok_0@),
{
    match serde_json::to_string(value) {
        Ok(encoded) => Ok(encoded),
        Err(err) => Err(err.to_string()),
    }
}

/// The views of a textual result.
pub open spec fn text_outcome(r: Result<String, String>) -> Result<Seq<char>, Seq<char>> {
    match r {
        Ok(t) => Ok(t@),
        Err(e) => Err(e@),
    }
}

/// The view of a result that carries nothing on success.
pub open spec fn unit_outcome(r: Result<(), String>) -> Result<(), Seq<char>> {
    match r {
        Ok(_) => Ok(()),
        Err(e) => Err(e@),
    }
}

/// The escaped content of `value` as it stands between the quotes of a JSON
/// string literal. Between quotes, the content is read back by the parser and
/// written again as the same literal, which is the literal of `value` and of
/// no other text.
pub fn json_string_content(value: &str) -> (r: Result<String, String>)
    ensures
        r matches Ok(content) && content@ == json_escape(value@),
        json_parse(json_quoted(value@)) == Ok::<Seq<char>, Seq<char>>(json_quoted(value@)),
        forall|other: Seq<char>|
            json_parse(json_quoted(value@)) == Ok::<Seq<char>, Seq<char>>(
                #[trigger] json_quoted(other),
            ) ==> other == value@,
{
    let encoded = encode_json_string(value)?;
    proof {
        assert forall|other: Seq<char>|
            json_parse(json_quoted(value@)) == Ok::<Seq<char>, Seq<char>>(
                #[trigger] json_quoted(other),
            ) implies other == value@ by {
            let q = json_quoted(other);
            let v = json_quoted(value@);
            assert(q == v);
            assert(q.subrange(1, q.len() - 1) =~= json_escape(other));
            assert(v.subrange(1, v.len() - 1) =~= json_escape(value@));
            lemma_escape_injective(other, value@);
        }
    }
    let chars = chars_of(encoded.as_str());
    let n = chars.len();
    let stripped = if n >= 2 && chars[0] == '"' && chars[n - 1] == '"' {
        let mut inner: Vec<char> = Vec::new();
        let mut k: usize = 1;
        while k < n - 1
            invariant
                2 <= n == chars.len(),
                1 <= k <= n - 1,
                inner@ == chars@.subrange(1, k as int),
            decreases n - 1 - k,
        {
            inner.push(chars[k]);
            assert(chars@.subrange(1, k as int).push(chars@[k as int]) =~= chars@.subrange(
                1,
                k + 1,
            ));
            k += 1;
        }
        string_of(&inner)
    } else {
        encoded
    };
    proof {
        let e = json_quoted(value@);
        assert(e.subrange(1, e.len() - 1) =~= json_escape(value@));
    }
    Ok(stripped)
}

/// The message for a text that is not valid JSON.
pub open spec fn invalid_json_message(label: Seq<char>, error: Seq<char>) -> Seq<char> {
    label + "不是有效 JSON："@ + error
}

/// Accepts `text` when `serde_json` parses it as JSON; otherwise names the
/// text by `label` in the error.
pub fn validate_json_text(text: &str, label: &str) -> (r: Result<(), String>)
    ensures
        unit_outcome(r) == match json_parse(text@) {
            Ok(_) => Ok::<(), Seq<char>>(()),
            Err(e) => Err(invalid_json_message(label@, e)),
        },
{
    match parse_json(text) {
        Ok(_) => Ok(()),
        Err(e) => {
            let mut m: Vec<char> = Vec::new();
            push_str(&mut m, label);
            push_str(&mut m, "不是有效 JSON：");
            push_str(&mut m, e.as_str());
            Err(string_of(&m))
        },
    }
}

/// Characters that JSON strings carry as they are: neither a quote, nor a
/// backslash, nor a control character below U+0020.
pub open spec fn is_plain_char(c: char) -> bool {
    c != '"' && c != '\\' && c as int >= 0x20
}

/// A text made of plain characters stands in a JSON string as it is.
pub proof fn lemma_plain_text_is_not_escaped(s: Seq<char>)
    requires
        forall|i: int| 0 <= i < s.len() ==> is_plain_char(#[trigger] s[i]),
    ensures
        json_escape(s) == s,
    decreases s.len(),
{
    if s.len() > 0 {
        lemma_plain_text_is_not_escaped(s.drop_last());
        assert(is_plain_char(s[s.len() - 1]));
        assert(s =~= s.drop_last().push(s.last()));
        assert(json_escape(s) =~= s.drop_last() + seq![s.last()]);
    }
}

/// Escaping a joined text escapes each part.
pub proof fn lemma_escape_concat(a: Seq<char>, b: Seq<char>)
    ensures
        json_escape(a + b) == json_escape(a) + json_escape(b),
    decreases b.len(),
{
    if b.len() == 0 {
        assert(a + b =~= a);
        assert(json_escape(a) + json_escape(b) =~= json_escape(a));
    } else {
        lemma_escape_concat(a, b.drop_last());
        assert((a + b).drop_last() =~= a + b.drop_last());
        assert((a + b).last() == b.last());
        assert(json_escape(a) + json_escape(b) =~= json_escape(a) + json_escape(b.drop_last())
            + escape_char(b.last()));
    }
}

/// Escaping a text escapes its first character, then the rest.
pub proof fn lemma_escape_first(s: Seq<char>)
    requires
        s.len() > 0,
    ensures
        json_escape(s) == escape_char(s[0]) + json_escape(s.drop_first()),
{
    let head = seq![s[0]];
    lemma_escape_concat(head, s.drop_first());
    assert(head + s.drop_first() =~= s);
    assert(head.drop_last() =~= Seq::<char>::empty());
    assert(json_escape(Seq::<char>::empty()) =~= Seq::<char>::empty());
    assert(head.last() == s[0]);
    assert(json_escape(head) == json_escape(head.drop_last()) + escape_char(head.last()));
    assert(json_escape(head) =~= escape_char(s[0]));
}

/// An escaped character is itself when it is plain, and starts with a
/// backslash otherwise; no escape sequence holds a `{`.
pub proof fn lemma_escape_char_shape(c: char)
    ensures
        is_plain_char(c) ==> escape_char(c) == seq![c],
        !is_plain_char(c) ==> escape_char(c).len() >= 2 && escape_char(c)[0] == '\\',
        !is_plain_char(c) ==> forall|j: int|
            0 <= j < escape_char(c).len() ==> #[trigger] escape_char(c)[j] != '{',
{
}

proof fn lemma_hex_char_injective(d1: nat, d2: nat)
    requires
        d1 < 16,
        d2 < 16,
        hex_char(d1) == hex_char(d2),
    ensures
        d1 == d2,
{
}

/// No escape sequence is the start of another: the escaped text that follows
/// a character's escape tells the character and the rest apart.
proof fn lemma_escape_char_prefix_free(c1: char, c2: char, r1: Seq<char>, r2: Seq<char>)
    requires
        escape_char(c1) + r1 == escape_char(c2) + r2,
    ensures
        c1 == c2,
        r1 == r2,
{
    let e1 = escape_char(c1);
    let e2 = escape_char(c2);
    let s = e1 + r1;
    assert(s[0] == e1[0]);
    assert((e2 + r2)[0] == e2[0]);
    if e1.len() >= 2 && e2.len() >= 2 {
        assert(s[1] == e1[1]);
        assert((e2 + r2)[1] == e2[1]);
        if e1.len() == 6 && e2.len() == 6 {
            assert(s[4] == e1[4]);
            assert((e2 + r2)[4] == e2[4]);
            assert(s[5] == e1[5]);
            assert((e2 + r2)[5] == e2[5]);
            let u1 = c1 as int;
            let u2 = c2 as int;
            lemma_hex_char_injective((u1 / 16) as nat, (u2 / 16) as nat);
            lemma_hex_char_injective((u1 % 16) as nat, (u2 % 16) as nat);
            assert(u1 == u2);
        }
    }
    assert(c1 == c2);
    assert(r1 =~= s.skip(e1.len() as int));
    assert(r2 =~= (e2 + r2).skip(e2.len() as int));
}

/// Distinct texts are escaped differently: a string literal written by
/// `serde_json` names one text only.
pub proof fn lemma_escape_injective(a: Seq<char>, b: Seq<char>)
    requires
        json_escape(a) == json_escape(b),
    ensures
        a == b,
    decreases a.len(),
{
    if a.len() == 0 {
        if b.len() > 0 {
            lemma_escape_first(b);
        }
        assert(a =~= b);
    } else {
        lemma_escape_first(a);
        if b.len() == 0 {
            assert(json_escape(b).len() == 0);
        } else {
            lemma_escape_first(b);
            lemma_escape_char_prefix_free(
                a[0],
                b[0],
                json_escape(a.drop_first()),
                json_escape(b.drop_first()),
            );
            lemma_escape_injective(a.drop_first(), b.drop_first());
            assert(a =~= seq![a[0]] + a.drop_first());
            assert(b =~= seq![b[0]] + b.drop_first());
        }
    }
}

/// A text without `{` is escaped without `{`.
pub proof fn lemma_escape_no_brace(s: Seq<char>)
    requires
        forall|i: int| 0 <= i < s.len() ==> #[trigger] s[i] != '{',
    ensures
        forall|j: int| 0 <= j < json_escape(s).len() ==> #[trigger] json_escape(s)[j] != '{',
    decreases s.len(),
{
    if s.len() > 0 {
        lemma_escape_no_brace(s.drop_last());
        lemma_escape_char_shape(s.last());
        let e = json_escape(s.drop_last());
        let g = escape_char(s.last());
        assert(s.last() == s[s.len() - 1]);
        assert forall|j: int| 0 <= j < json_escape(s).len() implies #[trigger] json_escape(s)[j]
            != '{' by {
            if j >= e.len() {
                assert(json_escape(s)[j] == g[j - e.len()]);
            } else {
                assert(json_escape(s)[j] == e[j]);
            }
        }
    }
}

/// When an escaped text starts with plain characters, the text starts with
/// the same characters.
pub proof fn lemma_escape_prefix(t: Seq<char>, q: Seq<char>)
    requires
        forall|i: int| 0 <= i < q.len() ==> is_plain_char(#[trigger] q[i]),
        has_prefix(json_escape(t), q),
    ensures
        has_prefix(t, q),
    decreases q.len(),
{
    if q.len() > 0 {
        assert(json_escape(t).len() > 0);
        if t.len() == 0 {
            assert(json_escape(t) =~= Seq::<char>::empty());
        }
        lemma_escape_first(t);
        lemma_escape_char_shape(t[0]);
        let e = json_escape(t);
        assert(e[0] == q[0]);
        assert(is_plain_char(q[0]));
        assert(is_plain_char(t[0]));
        let rest = json_escape(t.drop_first());
        assert(e =~= seq![t[0]] + rest);
        assert(rest.subrange(0, q.len() - 1) =~= q.drop_first()) by {
            assert forall|k: int| 0 <= k < q.len() - 1 implies rest.subrange(0, q.len() - 1)[k]
                == q.drop_first()[k] by {
                assert(e.subrange(0, q.len() as int)[k + 1] == q[k + 1]);
            }
        }
        assert forall|i: int| 0 <= i < q.drop_first().len() implies is_plain_char(
            #[trigger] q.drop_first()[i],
        ) by {
            assert(q.drop_first()[i] == q[i + 1]);
        }
        lemma_escape_prefix(t.drop_first(), q.drop_first());
        assert(q.len() <= t.len());
        assert(t.subrange(0, q.len() as int) =~= q) by {
            assert forall|k: int| 0 <= k < q.len() implies t.subrange(0, q.len() as int)[k]
                == q[k] by {
                if k > 0 {
                    assert(t.drop_first().subrange(0, q.len() - 1)[k - 1] == q.drop_first()[k
                        - 1]);
                }
            }
        }
    } else {
        assert(t.subrange(0, 0) =~= q);
    }
}

/// A pattern of plain characters that starts with `{` occurs in an escaped
/// text only where it occurs in the text itself.
pub proof fn lemma_escape_occurs(s: Seq<char>, p: Seq<char>)
    requires
        p.len() > 0,
        p[0] == '{',
        forall|i: int| 0 <= i < p.len() ==> is_plain_char(#[trigger] p[i]),
        occurs_in(json_escape(s), p),
    ensures
        occurs_in(s, p),
    decreases s.len(),
{
    let e = json_escape(s);
    let i = choose|i: int| 0 <= i <= e.len() - p.len() && #[trigger] e.subrange(i, i + p.len()) == p;
    if s.len() == 0 {
        assert(e =~= Seq::<char>::empty());
    } else {
        lemma_escape_first(s);
        lemma_escape_char_shape(s[0]);
        let g = escape_char(s[0]);
        let rest = json_escape(s.drop_first());
        assert(e =~= g + rest);
        if i >= g.len() {
            assert(rest.subrange(i - g.len(), i - g.len() + p.len()) =~= e.subrange(i, i + p.len()));
            lemma_escape_occurs(s.drop_first(), p);
            let k = choose|k: int|
                0 <= k <= s.drop_first().len() - p.len() && #[trigger] s.drop_first().subrange(
                    k,
                    k + p.len(),
                ) == p;
            assert(s.subrange(k + 1, k + 1 + p.len()) =~= s.drop_first().subrange(k, k + p.len()));
        } else {
            assert(e.subrange(i, i + p.len())[0] == e[i]);
            assert(g[i] == '{');
            assert(is_plain_char(s[0]));
            assert(i == 0);
            assert(has_prefix(e, p));
            lemma_escape_prefix(s, p);
            assert(s.subrange(0int, 0int + p.len()) == p);
        }
    }
}

} // verus!
