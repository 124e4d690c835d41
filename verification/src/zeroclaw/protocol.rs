//! Wire protocol for ZeroClaw's `GET /ws/chat` gateway endpoint.
//!
//! Client -> server frames:
//!   {"type":"message","content":"..."}
//!   {"type":"approval_response","request_id":"...","decision":"approve|deny|always"}
//!
//! Server -> client frames (subset we consume):
//!   {"type":"chunk","content":"<delta>"}
//!   {"type":"done","full_response":"...","cost_usd":...}
//!   {"type":"approval_request","request_id":"...","tool":"...","arguments_summary":"...","timeout_secs":n}

use vstd::prelude::*;

use crate::audio::registry;
use crate::text::chars::CharClass;
use crate::text::chars::concat2;
use crate::text::chars::concat3;
use crate::text::chars::owned;
use crate::text::chars::to_chars;
use crate::text::chars::to_text;
use crate::text::chars;
use crate::text::find::ends_with;
use crate::text::find::starts_with;
use crate::text::order;
use crate::text::trim::trim_end_of;
use crate::text::trim;

verus! {

broadcast use {vstd::seq::group_seq_axioms, vstd::slice::group_slice_axioms};

/// A frame from the gateway.
#[derive(Debug)]
pub enum InFrame {
    Chunk { content: String },
    Done {
        full_response: String,
        /// The cost in dollars, as the bits of a 64-bit float.
        cost_bits: Option<u64>,
    },
    ApprovalRequest {
        request_id: String,
        tool: String,
        arguments_summary: String,
        timeout_secs: u64,
    },
    Other,
}

// ── JSON text ──────────────────────────────────────────────────────────────

/// A character as it stands inside a JSON string.
pub open spec fn json_char(c: char) -> Seq<char> {
    if c == '"' || c == '\\' {
        seq!['\\', c]
    } else if c as u32 == 8 {
        seq!['\\', 'b']
    } else if c as u32 == 9 {
        seq!['\\', 't']
    } else if c as u32 == 10 {
        seq!['\\', 'n']
    } else if c as u32 == 12 {
        seq!['\\', 'f']
    } else if c as u32 == 13 {
        seq!['\\', 'r']
    } else if (c as u32) < 0x20 {
        seq![
            '\\',
            'u',
            '0',
            '0',
            registry::hex_char(c as u32 as int / 16),
            registry::hex_char(c as u32 as int % 16),
        ]
    } else {
        seq![c]
    }
}

/// A text as it stands inside a JSON string.
pub open spec fn json_escaped(s: Seq<char>) -> Seq<char>
    decreases s.len(),
{
    if s.len() == 0 {
        seq![]
    } else {
        json_char(s[0]) + json_escaped(s.skip(1))
    }
}

/// A text as a JSON string.
pub open spec fn json_quoted(s: Seq<char>) -> Seq<char> {
    seq!['"'] + json_escaped(s) + seq!['"']
}

/// The members of a JSON object with text values, in compact form.
pub open spec fn json_members(pairs: Seq<(Seq<char>, Seq<char>)>) -> Seq<char>
    decreases pairs.len(),
{
    if pairs.len() == 0 {
        seq![]
    } else {
        let member = json_quoted(pairs.last().0) + seq![':'] + json_quoted(pairs.last().1);
        if pairs.len() == 1 {
            member
        } else {
            json_members(pairs.drop_last()) + seq![','] + member
        }
    }
}

/// A JSON object with text values, in compact form.
pub open spec fn json_object(pairs: Seq<(Seq<char>, Seq<char>)>) -> Seq<char> {
    seq!['{'] + json_members(pairs) + seq!['}']
}

/// What a list of text pairs says.
pub open spec fn pair_models(v: Seq<(String, String)>) -> Seq<(Seq<char>, Seq<char>)> {
    Seq::new(v.len(), |i: int| (v[i].0@, v[i].1@))
}

/// The names stand in strictly ascending order.
pub open spec fn names_ascend(pairs: Seq<(Seq<char>, Seq<char>)>) -> bool {
    forall|i: int, j: int|
        0 <= i < j < pairs.len() ==> order::text_before(
            (#[trigger] pairs[i]).0,
            (#[trigger] pairs[j]).0,
        )
}

/// Builds a `serde_json::Value::Object` of strings and writes it with its
/// `to_string`: the compact form, with the members in the order of their names.
/// Quotes, backslashes and characters below U+0020 are escaped, all else stands
/// as it is.
#[verifier::external_body]
fn write_object(pairs: &Vec<(String, String)>) -> (r: String)
    requires
        names_ascend(pair_models(pairs@)),
    ensures
        r@ == json_object(pair_models(pairs@)),
{
    let members: serde_json::Map<String, serde_json::Value> = pairs.iter().map(
        |(k, v)| (k.clone(), serde_json::Value::String(v.clone())),
    ).collect();
    serde_json::Value::Object(members).to_string()
}

/// The members of a message frame.
pub open spec fn message_pairs(text: Seq<char>) -> Seq<(Seq<char>, Seq<char>)> {
    seq![("content"@, text), ("type"@, "message"@)]
}

/// The members of an approval frame.
pub open spec fn approval_pairs(
    request_id: Seq<char>,
    decision: Seq<char>,
) -> Seq<(Seq<char>, Seq<char>)> {
    seq![("decision"@, decision), ("request_id"@, request_id), ("type"@, "approval_response"@)]
}

proof fn lemma_first_letter(a: Seq<char>, b: Seq<char>)
    requires
        a.len() > 0,
        b.len() > 0,
        a[0] < b[0],
    ensures
        order::text_before(a, b),
{
}

/// The frame that says `text` to the agent.
pub fn message_frame(text: &str) -> (r: String)
    ensures
        r@ == json_object(message_pairs(text@)),
{
    let mut pairs: Vec<(String, String)> = Vec::new();
    pairs.push((owned("content"), owned(text)));
    pairs.push((owned("type"), owned("message")));
    assert(pair_models(pairs@) =~= message_pairs(text@));
    proof {
        reveal_strlit("content");
        reveal_strlit("type");
        lemma_first_letter("content"@, "type"@);
    }
    write_object(&pairs)
}

/// The frame that answers an approval request.
pub fn approval_frame(request_id: &str, decision: &str) -> (r: String)
    ensures
        r@ == json_object(approval_pairs(request_id@, decision@)),
{
    let mut pairs: Vec<(String, String)> = Vec::new();
    pairs.push((owned("decision"), owned(decision)));
    pairs.push((owned("request_id"), owned(request_id)));
    pairs.push((owned("type"), owned("approval_response")));
    assert(pair_models(pairs@) =~= approval_pairs(request_id@, decision@));
    proof {
        reveal_strlit("decision");
        reveal_strlit("request_id");
        reveal_strlit("type");
        lemma_first_letter("decision"@, "type"@);
        lemma_first_letter("decision"@, "request_id"@);
        lemma_first_letter("request_id"@, "type"@);
    }
    write_object(&pairs)
}

// ── The chat URL ───────────────────────────────────────────────────────────

/// The capital hex digit of a number below 16.
pub open spec fn capital_hex(n: int) -> char {
    if n < 10 {
        (48 + n) as char
    } else {
        (55 + n) as char
    }
}

/// A byte as it stands in an `application/x-www-form-urlencoded` text.
pub open spec fn form_byte(b: u8) -> Seq<char> {
    let c = b as char;
    if chars::is_ascii_alnum(c) || c == '*' || c == '-' || c == '.' || c == '_' {
        seq![c]
    } else if c == ' ' {
        seq!['+']
    } else {
        seq!['%', capital_hex(b as int / 16), capital_hex(b as int % 16)]
    }
}

/// Bytes as they stand in an `application/x-www-form-urlencoded` text.
pub open spec fn form_bytes(bytes: Seq<u8>) -> Seq<char>
    decreases bytes.len(),
{
    if bytes.len() == 0 {
        seq![]
    } else {
        form_bytes(bytes.drop_last()) + form_byte(bytes.last())
    }
}

/// A text as it stands in an `application/x-www-form-urlencoded` text.
pub open spec fn form_text(s: Seq<char>) -> Seq<char> {
    form_bytes(vstd::utf8::encode_utf8(s))
}

/// The `application/x-www-form-urlencoded` text of name/value pairs.
pub open spec fn form_query(pairs: Seq<(Seq<char>, Seq<char>)>) -> Seq<char>
    decreases pairs.len(),
{
    if pairs.len() == 0 {
        seq![]
    } else {
        let pair = form_text(pairs.last().0) + seq!['='] + form_text(pairs.last().1);
        if pairs.len() == 1 {
            pair
        } else {
            form_query(pairs.drop_last()) + seq!['&'] + pair
        }
    }
}

/// Calls `url::form_urlencoded::Serializer`: `extend_pairs` with the pairs on an
/// empty string, and `finish`. Each name and value is encoded byte by byte, and
/// the pairs are joined by `&`.
#[verifier::external_body]
fn write_query(pairs: &Vec<(String, String)>) -> (r: String)
    ensures
        r@ == form_query(pair_models(pairs@)),
{
    url::form_urlencoded::Serializer::new(String::new()).extend_pairs(pairs.iter()).finish()
}

/// The gateway's base without white space around it and slashes at its end.
pub open spec fn bare_base(base: Seq<char>) -> Seq<char> {
    trim::trimmed_end(trim::trimmed(base), CharClass::Slash)
}

/// The address of the chat endpoint: a base without a scheme gets `ws://`, and
/// one that does not end in the endpoint's path gets the path.
pub open spec fn chat_endpoint(base: Seq<char>) -> Seq<char> {
    let b = bare_base(base);
    let with_scheme = if "ws://"@.is_prefix_of(b) || "wss://"@.is_prefix_of(b) {
        b
    } else {
        "ws://"@ + b
    };
    if "/ws/chat"@.is_suffix_of(with_scheme) {
        with_scheme
    } else {
        with_scheme + "/ws/chat"@
    }
}

/// The query parameters of the chat endpoint; an empty token is left out.
pub open spec fn chat_params(
    agent_alias: Seq<char>,
    session_id: Seq<char>,
    token: Option<Seq<char>>,
) -> Seq<(Seq<char>, Seq<char>)> {
    let q = seq![("agent_alias"@, agent_alias), ("session_id"@, session_id)];
    match token {
        Some(t) => if t.len() > 0 {
            q.push(("token"@, t))
        } else {
            q
        },
        None => q,
    }
}

/// The URL of a chat session; there is none without a base.
pub open spec fn chat_address(
    base: Seq<char>,
    agent_alias: Seq<char>,
    session_id: Seq<char>,
    token: Option<Seq<char>>,
) -> Option<Seq<char>> {
    if bare_base(base).len() == 0 {
        None
    } else {
        Some(
            chat_endpoint(base) + "?"@ + form_query(chat_params(agent_alias, session_id, token)),
        )
    }
}

/// `agent_alias`, `session_id`, `token` query-parameter builder for the
/// chat WebSocket.
pub fn chat_url(
    base: &str,
    agent_alias: &str,
    session_id: &str,
    token: Option<&str>,
) -> (r: Option<String>)
    ensures
        chars::opt_text(r) == chat_address(
            base@,
            agent_alias@,
            session_id@,
            chars::opt_str(token),
        ),
{
    let all = to_chars(base);
    let bare = trim_end_of(trim::trim(all.as_slice()), CharClass::Slash);
    if bare.len() == 0 {
        return None;
    }
    let mut address = to_text(bare);
    if !starts_with(bare, to_chars("ws://").as_slice()) && !starts_with(
        bare,
        to_chars("wss://").as_slice(),
    ) {
        address = concat2("ws://", address.as_str());
    }
    // Accept a base that already ends in /ws/chat.
    if !ends_with(to_chars(address.as_str()).as_slice(), to_chars("/ws/chat").as_slice()) {
        address = concat2(address.as_str(), "/ws/chat");
    }
    assert(address@ == chat_endpoint(base@));
    let mut pairs: Vec<(String, String)> = Vec::new();
    pairs.push((owned("agent_alias"), owned(agent_alias)));
    pairs.push((owned("session_id"), owned(session_id)));
    match token {
        Some(t) => {
            if to_chars(t).len() > 0 {
                pairs.push((owned("token"), owned(t)));
            }
        },
        None => {},
    }
    assert(pair_models(pairs@) =~= chat_params(agent_alias@, session_id@, chars::opt_str(token)));
    let query = write_query(&pairs);
    Some(concat3(address.as_str(), "?", query.as_str()))
}

// ── Laws ───────────────────────────────────────────────────────────────────

/// Nothing that a text holds ends its JSON string early: inside the string a
/// quote stands behind a backslash, and no control character stands at all.
pub proof fn law_escaped_text_is_closed(s: Seq<char>)
    ensures
        forall|i: int|
            0 <= i < json_escaped(s).len() ==> (#[trigger] json_escaped(s)[i]) as u32 >= 0x20,
        forall|i: int|
            0 <= i < json_escaped(s).len() && (#[trigger] json_escaped(s)[i]) == '"' ==> i > 0
                && json_escaped(s)[i - 1] == '\\',
    decreases s.len(),
{
    if s.len() > 0 {
        let h = json_char(s[0]);
        let t = json_escaped(s.skip(1));
        let all = json_escaped(s);
        law_escaped_text_is_closed(s.skip(1));
        assert(all == h + t);
        assert forall|i: int| 0 <= i < all.len() implies (#[trigger] all[i]) as u32 >= 0x20 by {
            if i >= h.len() {
                assert(all[i] == t[i - h.len()]);
            }
        }
        assert forall|i: int| 0 <= i < all.len() && (#[trigger] all[i]) == '"' implies i > 0
            && all[i - 1] == '\\' by {
            if i >= h.len() {
                assert(all[i] == t[i - h.len()]);
                assert(t[i - h.len() - 1] == '\\');
                assert(all[i - 1] == t[i - h.len() - 1]);
            }
        }
    }
}

proof fn lemma_json_char_prefix(a: char, b: char, x: Seq<char>, y: Seq<char>)
    requires
        json_char(a) + x == json_char(b) + y,
    ensures
        a == b,
        x == y,
{
    let (p, q) = (json_char(a), json_char(b));
    let (s, t) = (p + x, q + y);
    assert(s[0] == p[0] && t[0] == q[0]);
    if p[0] == '\\' {
        assert(s[1] == p[1] && t[1] == q[1]);
        if p[1] == 'u' {
            assert(s[4] == p[4] && t[4] == q[4]);
            assert(s[5] == p[5] && t[5] == q[5]);
            let (m, n) = (a as u32 as int, b as u32 as int);
            registry::lemma_hex_char(m / 16, n / 16);
            registry::lemma_hex_char(m % 16, n % 16);
            assert(m == n);
        }
    }
    assert(a == b);
    assert(s.skip(p.len() as int) =~= x);
    assert(t.skip(q.len() as int) =~= y);
}

/// A JSON string tells where its text ends: whatever follows the closing quote.
proof fn lemma_quoted_prefix(a: Seq<char>, b: Seq<char>, x: Seq<char>, y: Seq<char>)
    requires
        json_escaped(a) + (seq!['"'] + x) == json_escaped(b) + (seq!['"'] + y),
    ensures
        a == b,
        x == y,
    decreases a.len(),
{
    let (p, q) = (seq!['"'] + x, seq!['"'] + y);
    if a.len() == 0 && b.len() == 0 {
        assert(a =~= b);
        assert(json_escaped(a) + p =~= p);
        assert(json_escaped(b) + q =~= q);
        assert(p.skip(1) =~= x);
        assert(q.skip(1) =~= y);
    } else if a.len() == 0 {
        assert((json_escaped(a) + p)[0] == '"');
        assert((json_escaped(b) + q)[0] == json_char(b[0])[0]);
    } else if b.len() == 0 {
        assert((json_escaped(b) + q)[0] == '"');
        assert((json_escaped(a) + p)[0] == json_char(a[0])[0]);
    } else {
        let (s, t) = (json_escaped(a.skip(1)), json_escaped(b.skip(1)));
        assert(json_escaped(a) + p =~= json_char(a[0]) + (s + p));
        assert(json_escaped(b) + q =~= json_char(b[0]) + (t + q));
        lemma_json_char_prefix(a[0], b[0], s + p, t + q);
        lemma_quoted_prefix(a.skip(1), b.skip(1), x, y);
        assert(a =~= seq![a[0]] + a.skip(1));
        assert(b =~= seq![b[0]] + b.skip(1));
    }
}

proof fn lemma_common_head(head: Seq<char>, x: Seq<char>, y: Seq<char>)
    requires
        head + x == head + y,
    ensures
        x == y,
{
    assert((head + x).skip(head.len() as int) =~= x);
    assert((head + y).skip(head.len() as int) =~= y);
}

/// Different texts have different JSON strings.
pub proof fn law_json_text_injective(a: Seq<char>, b: Seq<char>)
    requires
        json_quoted(a) == json_quoted(b),
    ensures
        a == b,
{
    let none = Seq::<char>::empty();
    assert(json_quoted(a) =~= seq!['"'] + (json_escaped(a) + (seq!['"'] + none)));
    assert(json_quoted(b) =~= seq!['"'] + (json_escaped(b) + (seq!['"'] + none)));
    lemma_common_head(
        seq!['"'],
        json_escaped(a) + (seq!['"'] + none),
        json_escaped(b) + (seq!['"'] + none),
    );
    lemma_quoted_prefix(a, b, none, none);
}

/// What an object says up to the text of its first member.
spec fn first_head(name: Seq<char>) -> Seq<char> {
    seq!['{'] + json_quoted(name) + seq![':', '"']
}

/// What an object says up to the text of a later member.
spec fn next_head(name: Seq<char>) -> Seq<char> {
    seq![','] + json_quoted(name) + seq![':', '"']
}

proof fn lemma_regroup(a: Seq<char>, b: Seq<char>, c: Seq<char>)
    ensures
        (a + b) + c == a + (b + c),
{
    assert((a + b) + c =~= a + (b + c));
}

/// The first member of an object, up to its text and from it on.
proof fn lemma_first_member(name: Seq<char>, value: Seq<char>)
    ensures
        seq!['{'] + (json_quoted(name) + seq![':'] + json_quoted(value)) == first_head(name)
            + (json_escaped(value) + seq!['"']),
{
    let q = json_quoted(name);
    let v = json_escaped(value);
    assert(seq!['{'] + (q + seq![':'] + (seq!['"'] + v + seq!['"'])) =~= (seq!['{'] + q + seq![
        ':',
        '"',
    ]) + (v + seq!['"']));
}

/// A later member of an object, up to its text and from it on.
proof fn lemma_next_member(before: Seq<char>, name: Seq<char>, value: Seq<char>)
    ensures
        before + seq![','] + (json_quoted(name) + seq![':'] + json_quoted(value)) == before + (
        next_head(name) + (json_escaped(value) + seq!['"'])),
{
    let q = json_quoted(name);
    let v = json_escaped(value);
    assert(before + seq![','] + (q + seq![':'] + (seq!['"'] + v + seq!['"'])) =~= before + ((seq![
        ',',
    ] + q + seq![':', '"']) + (v + seq!['"'])));
}

/// The members of an object are its first ones and the last one.
proof fn lemma_members_split(pairs: Seq<(Seq<char>, Seq<char>)>)
    requires
        pairs.len() > 1,
    ensures
        json_members(pairs) == json_members(pairs.drop_last()) + (next_head(pairs.last().0) + (
        json_escaped(pairs.last().1) + seq!['"'])),
{
    lemma_next_member(json_members(pairs.drop_last()), pairs.last().0, pairs.last().1);
}

/// What stands between the text of a member and the head of the next one.
proof fn lemma_close_text(e: Seq<char>, rest: Seq<char>)
    ensures
        (e + seq!['"']) + rest == e + (seq!['"'] + rest),
{
    lemma_regroup(e, seq!['"'], rest);
}

proof fn lemma_last_text(name: Seq<char>, e: Seq<char>)
    ensures
        (next_head(name) + (e + seq!['"'])) + seq!['}'] == next_head(name) + e + seq!['"', '}'],
{
    let n = next_head(name);
    assert((n + (e + seq!['"'])) + seq!['}'] =~= n + e + seq!['"', '}']);
}

proof fn lemma_message_shape(a: Seq<char>)
    ensures
        json_object(message_pairs(a)) == first_head("content"@) + (json_escaped(a) + (seq!['"']
            + (next_head("type"@) + json_escaped("message"@) + seq!['"', '}']))),
{
    let p = message_pairs(a);
    let one = p.drop_last();
    let e = json_escaped(a);
    let head = first_head("content"@);
    let tail = next_head("type"@) + (json_escaped("message"@) + seq!['"']);
    assert(one =~= seq![("content"@, a)]);
    assert(json_members(one) == json_quoted("content"@) + seq![':'] + json_quoted(a));
    lemma_members_split(p);
    lemma_first_member("content"@, a);
    lemma_regroup(seq!['{'], json_members(one), tail);
    lemma_regroup(head, e + seq!['"'], tail);
    lemma_regroup(head, (e + seq!['"']) + tail, seq!['}']);
    lemma_regroup(e + seq!['"'], tail, seq!['}']);
    lemma_close_text(e, tail + seq!['}']);
    lemma_last_text("type"@, json_escaped("message"@));
}

/// A message frame tells the message: frames of different messages differ.
pub proof fn law_message_frame_tells_text(a: Seq<char>, b: Seq<char>)
    requires
        json_object(message_pairs(a)) == json_object(message_pairs(b)),
    ensures
        a == b,
{
    let rest = next_head("type"@) + json_escaped("message"@) + seq!['"', '}'];
    lemma_message_shape(a);
    lemma_message_shape(b);
    lemma_common_head(
        first_head("content"@),
        json_escaped(a) + (seq!['"'] + rest),
        json_escaped(b) + (seq!['"'] + rest),
    );
    lemma_quoted_prefix(a, b, rest, rest);
}

proof fn lemma_approval_members(r: Seq<char>, d: Seq<char>)
    ensures
        seq!['{'] + json_members(approval_pairs(r, d)) == first_head("decision"@) + (json_escaped(d)
            + (seq!['"'] + (next_head("request_id"@) + (json_escaped(r) + (seq!['"'] + (next_head(
            "type"@,
        ) + (json_escaped("approval_response"@) + seq!['"']))))))),
{
    let p = approval_pairs(r, d);
    let two = p.drop_last();
    let one = two.drop_last();
    let (e, f) = (json_escaped(d), json_escaped(r));
    let head = first_head("decision"@);
    let mid = next_head("request_id"@);
    let end = next_head("type"@) + (json_escaped("approval_response"@) + seq!['"']);
    assert(two =~= seq![("decision"@, d), ("request_id"@, r)]);
    assert(one =~= seq![("decision"@, d)]);
    assert(json_members(one) == json_quoted("decision"@) + seq![':'] + json_quoted(d));
    lemma_members_split(p);
    lemma_members_split(two);
    lemma_first_member("decision"@, d);
    let second = mid + (f + seq!['"']);
    lemma_regroup(json_members(one), second, end);
    lemma_regroup(seq!['{'], json_members(one), second + end);
    lemma_regroup(head, e + seq!['"'], second + end);
    lemma_close_text(e, second + end);
    lemma_regroup(mid, f + seq!['"'], end);
    lemma_close_text(f, end);
}

proof fn lemma_approval_shape(r: Seq<char>, d: Seq<char>)
    ensures
        json_object(approval_pairs(r, d)) == first_head("decision"@) + (json_escaped(d) + (seq!['"']
            + (next_head("request_id"@) + (json_escaped(r) + (seq!['"'] + (next_head("type"@)
            + json_escaped("approval_response"@) + seq!['"', '}'])))))),
{
    let (e, f) = (json_escaped(d), json_escaped(r));
    let head = first_head("decision"@);
    let mid = next_head("request_id"@);
    let end = next_head("type"@) + (json_escaped("approval_response"@) + seq!['"']);
    let quote = seq!['"'];
    let brace = seq!['}'];
    lemma_approval_members(r, d);
    lemma_regroup(head, e + (quote + (mid + (f + (quote + end)))), brace);
    lemma_regroup(e, quote + (mid + (f + (quote + end))), brace);
    lemma_regroup(quote, mid + (f + (quote + end)), brace);
    lemma_regroup(mid, f + (quote + end), brace);
    lemma_regroup(f, quote + end, brace);
    lemma_regroup(quote, end, brace);
    lemma_last_text("type"@, json_escaped("approval_response"@));
}

/// An approval frame tells the request and the decision: frames that are equal
/// answer the same request in the same way.
pub proof fn law_approval_frame_tells_answer(
    r: Seq<char>,
    d: Seq<char>,
    s: Seq<char>,
    e: Seq<char>,
)
    requires
        json_object(approval_pairs(r, d)) == json_object(approval_pairs(s, e)),
    ensures
        r == s,
        d == e,
{
    let end = next_head("type"@) + json_escaped("approval_response"@) + seq!['"', '}'];
    let x = json_escaped(r) + (seq!['"'] + end);
    let y = json_escaped(s) + (seq!['"'] + end);
    let mid = next_head("request_id"@);
    lemma_approval_shape(r, d);
    lemma_approval_shape(s, e);
    lemma_common_head(
        first_head("decision"@),
        json_escaped(d) + (seq!['"'] + (mid + x)),
        json_escaped(e) + (seq!['"'] + (mid + y)),
    );
    lemma_quoted_prefix(d, e, mid + x, mid + y);
    lemma_common_head(mid, x, y);
    lemma_quoted_prefix(r, s, end, end);
}

/// A chat URL is a WebSocket address of the chat endpoint, and there is one
/// exactly where the base holds more than white space and slashes.
pub proof fn law_chat_url_shape(
    base: Seq<char>,
    agent_alias: Seq<char>,
    session_id: Seq<char>,
    token: Option<Seq<char>>,
)
    ensures
        match chat_address(base, agent_alias, session_id, token) {
            Some(u) => {
                &&& bare_base(base).len() > 0
                &&& "ws://"@.is_prefix_of(u) || "wss://"@.is_prefix_of(u)
                &&& "/ws/chat"@.is_suffix_of(chat_endpoint(base))
                &&& (chat_endpoint(base) + "?"@).is_prefix_of(u)
            },
            None => bare_base(base).len() == 0,
        },
{
    let b = bare_base(base);
    let with_scheme = if "ws://"@.is_prefix_of(b) || "wss://"@.is_prefix_of(b) {
        b
    } else {
        "ws://"@ + b
    };
    let e = chat_endpoint(base);
    let q = form_query(chat_params(agent_alias, session_id, token));
    let u = e + "?"@ + q;
    if b == with_scheme {
        if "ws://"@.is_prefix_of(b) {
            assert(u.subrange(0, "ws://"@.len() as int) =~= b.subrange(0, "ws://"@.len() as int));
        } else {
            assert(u.subrange(0, "wss://"@.len() as int) =~= b.subrange(
                0,
                "wss://"@.len() as int,
            ));
        }
    } else {
        assert(u.subrange(0, "ws://"@.len() as int) =~= "ws://"@);
    }
    assert(e.subrange(e.len() - "/ws/chat"@.len(), e.len() as int) =~= "/ws/chat"@);
    assert((e + "?"@) =~= u.subrange(0, (e + "?"@).len() as int));
}

/// Without a token, or with an empty one, none is sent.
pub proof fn law_empty_token_left_out(agent_alias: Seq<char>, session_id: Seq<char>)
    ensures
        chat_params(agent_alias, session_id, Some(seq![])) == chat_params(
            agent_alias,
            session_id,
            None,
        ),
{
}

} // verus!
