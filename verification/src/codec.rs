//! The wire codec: requests are encoded to the JSON body the completion
//! endpoint takes, and reply bodies are parsed back, either as a success
//! shape or as the error envelope.
//!
//! Requests are written in one compact canonical form — fields in
//! declaration order, no whitespace, strings escaped with `\" \\ \n \r \t` —
//! and decoding a request is proved to invert encoding it. Reply bodies are
//! read as general JSON of the expected shapes: whitespace may stand between
//! tokens, members may come in any order, unknown members are skipped, and
//! optional members may be absent. String escapes of the form `\uXXXX` are
//! not understood anywhere.

use vstd::prelude::*;
use vstd::slice::{slice_index_get, slice_subrange};
use crate::chat::{
    Choice,
    ChoiceV,
    Error,
    ErrorRoot,
    ErrorV,
    Message,
    MessageV,
    Request,
    RequestV,
    Response,
    ResponseV,
    Role,
    Usage,
};
use crate::text::{chars_of, push_char, str_eq};

verus! {

// ---------------------------------------------------------------------------
// String escaping.
// ---------------------------------------------------------------------------

/// How one character is written inside a quoted string.
pub open spec fn escape_char(c: char) -> Seq<char> {
    if c == '"' {
        seq!['\\', '"']
    } else if c == '\\' {
        seq!['\\', '\\']
    } else if c == '\n' {
        seq!['\\', 'n']
    } else if c == '\r' {
        seq!['\\', 'r']
    } else if c == '\t' {
        seq!['\\', 't']
    } else {
        seq![c]
    }
}

/// A text escaped character by character.
pub open spec fn escape_seq(s: Seq<char>) -> Seq<char>
    decreases s.len(),
{
    if s.len() == 0 {
        Seq::empty()
    } else {
        escape_char(s[0]) + escape_seq(s.drop_first())
    }
}

/// The character an escape pair `\x` stands for, if any. Reading accepts
/// more escapes than writing produces: `\/`, `\b` and `\f` are understood
/// but never emitted.
pub open spec fn unescape_char(c: char) -> Option<char> {
    if c == '"' {
        Some('"')
    } else if c == '\\' {
        Some('\\')
    } else if c == '/' {
        Some('/')
    } else if c == 'n' {
        Some('\n')
    } else if c == 'r' {
        Some('\r')
    } else if c == 't' {
        Some('\t')
    } else if c == 'b' {
        Some('\u{0008}')
    } else if c == 'f' {
        Some('\u{000C}')
    } else {
        None
    }
}

proof fn lemma_escape_snoc(s: Seq<char>, c: char)
    ensures
        escape_seq(s.push(c)) == escape_seq(s) + escape_char(c),
    decreases s.len(),
{
    if s.len() == 0 {
        assert(s.push(c) =~= seq![c]);
        assert(seq![c].drop_first() =~= Seq::<char>::empty());
        assert(escape_seq(seq![c]) == escape_char(c) + escape_seq(Seq::<char>::empty()));
        assert(escape_char(c) + Seq::<char>::empty() =~= escape_char(c));
        assert(escape_seq(s) + escape_char(c) =~= escape_char(c));
    } else {
        assert(s.push(c).drop_first() =~= s.drop_first().push(c));
        assert(s.push(c)[0] == s[0]);
        lemma_escape_snoc(s.drop_first(), c);
        assert(escape_char(s[0]) + (escape_seq(s.drop_first()) + escape_char(c)) =~= (escape_char(
            s[0],
        ) + escape_seq(s.drop_first())) + escape_char(c));
    }
}

// ---------------------------------------------------------------------------
// Encoding.
// ---------------------------------------------------------------------------

/// The lowercase wire token of a role.
pub open spec fn role_token(r: Role) -> Seq<char> {
    match r {
        Role::System => "system"@,
        Role::User => "user"@,
        Role::Assistant => "assistant"@,
    }
}

/// One message as a JSON object.
pub open spec fn encode_message_spec(m: MessageV) -> Seq<char> {
    "{\"role\":\""@ + role_token(m.role) + "\",\"content\":\""@ + escape_seq(m.content) + "\"}"@
}

/// The second and later messages of a list, each preceded by a comma.
pub open spec fn encode_messages_tail_spec(ms: Seq<MessageV>) -> Seq<char>
    decreases ms.len(),
{
    if ms.len() == 0 {
        Seq::empty()
    } else {
        ","@ + encode_message_spec(ms[0]) + encode_messages_tail_spec(ms.drop_first())
    }
}

/// A message list as the inside of a JSON array, commas between elements.
pub open spec fn encode_messages_spec(ms: Seq<MessageV>) -> Seq<char> {
    if ms.len() == 0 {
        Seq::empty()
    } else {
        encode_message_spec(ms[0]) + encode_messages_tail_spec(ms.drop_first())
    }
}

/// A whole request as the JSON body sent over the wire.
pub open spec fn encode_request_spec(r: RequestV) -> Seq<char> {
    "{\"model\":\""@ + escape_seq(r.model) + "\",\"messages\":["@ + encode_messages_spec(
        r.messages,
    ) + "]}"@
}

proof fn lemma_encode_messages_tail_snoc(ms: Seq<MessageV>, m: MessageV)
    ensures
        encode_messages_tail_spec(ms.push(m)) == encode_messages_tail_spec(ms) + ","@
            + encode_message_spec(m),
    decreases ms.len(),
{
    if ms.len() == 0 {
        assert(ms.push(m) =~= seq![m]);
        assert(seq![m].drop_first() =~= Seq::<MessageV>::empty());
        assert(encode_messages_tail_spec(seq![m]) == ","@ + encode_message_spec(m)
            + encode_messages_tail_spec(Seq::<MessageV>::empty()));
        assert((","@ + encode_message_spec(m)) + Seq::<char>::empty() =~= ","@
            + encode_message_spec(m));
        assert(encode_messages_tail_spec(ms) + ","@ =~= ","@);
    } else {
        assert(ms.push(m).drop_first() =~= ms.drop_first().push(m));
        assert(ms.push(m)[0] == ms[0]);
        lemma_encode_messages_tail_snoc(ms.drop_first(), m);
        assert(","@ + encode_message_spec(ms[0]) + ((encode_messages_tail_spec(ms.drop_first())
            + ","@) + encode_message_spec(m)) =~= ((","@ + encode_message_spec(ms[0])
            + encode_messages_tail_spec(ms.drop_first())) + ","@) + encode_message_spec(m));
    }
}

/// Appending a message extends the encoded list by a comma (when the list was
/// not empty) and the message's own encoding.
pub proof fn lemma_encode_messages_snoc(ms: Seq<MessageV>, m: MessageV)
    ensures
        ms.len() == 0 ==> encode_messages_spec(ms.push(m)) == encode_message_spec(m),
        ms.len() > 0 ==> encode_messages_spec(ms.push(m)) == encode_messages_spec(ms) + ","@
            + encode_message_spec(m),
{
    if ms.len() == 0 {
        assert(ms.push(m)[0] == m);
        assert(ms.push(m).drop_first() =~= Seq::<MessageV>::empty());
        assert(encode_message_spec(m) + Seq::<char>::empty() =~= encode_message_spec(m));
    } else {
        assert(ms.push(m)[0] == ms[0]);
        assert(ms.push(m).drop_first() =~= ms.drop_first().push(m));
        lemma_encode_messages_tail_snoc(ms.drop_first(), m);
        assert(encode_message_spec(ms[0]) + ((encode_messages_tail_spec(ms.drop_first()) + ","@)
            + encode_message_spec(m)) =~= ((encode_message_spec(ms[0])
            + encode_messages_tail_spec(ms.drop_first())) + ","@) + encode_message_spec(m));
    }
}

// ---------------------------------------------------------------------------
// Decoding: the grammar read back from the front of a character sequence.
// Each function returns the parsed value and the unread remainder.
// ---------------------------------------------------------------------------

/// Strips an exact literal off the front.
pub open spec fn spec_expect(s: Seq<char>, lit: Seq<char>) -> Option<Seq<char>> {
    if lit.len() <= s.len() && s.subrange(0, lit.len() as int) == lit {
        Some(s.skip(lit.len() as int))
    } else {
        None
    }
}

/// Reads a quoted string's body up to and over its closing quote, undoing the
/// escapes of [`escape_char`].
pub open spec fn spec_parse_string(s: Seq<char>) -> Option<(Seq<char>, Seq<char>)>
    decreases s.len(),
{
    if s.len() == 0 {
        None
    } else if s[0] == '"' {
        Some((Seq::empty(), s.drop_first()))
    } else if s[0] == '\\' {
        if s.len() < 2 {
            None
        } else {
            match unescape_char(s[1]) {
                Some(c) => match spec_parse_string(s.skip(2)) {
                    Some(p) => Some((seq![c] + p.0, p.1)),
                    None => None,
                },
                None => None,
            }
        }
    } else {
        match spec_parse_string(s.drop_first()) {
            Some(p) => Some((seq![s[0]] + p.0, p.1)),
            None => None,
        }
    }
}

/// Reads one of the three role tokens.
pub open spec fn spec_parse_role(s: Seq<char>) -> Option<(Role, Seq<char>)> {
    match spec_expect(s, "system"@) {
        Some(r) => Some((Role::System, r)),
        None => match spec_expect(s, "user"@) {
            Some(r) => Some((Role::User, r)),
            None => match spec_expect(s, "assistant"@) {
                Some(r) => Some((Role::Assistant, r)),
                None => None,
            },
        },
    }
}

/// Reads one message object.
pub open spec fn spec_parse_message(s: Seq<char>) -> Option<(MessageV, Seq<char>)> {
    match spec_expect(s, "{\"role\":\""@) {
        Some(s1) => match spec_parse_role(s1) {
            Some((role, s2)) => match spec_expect(s2, "\",\"content\":\""@) {
                Some(s3) => match spec_parse_string(s3) {
                    Some((content, s4)) => match spec_expect(s4, "}"@) {
                        Some(s5) => Some((MessageV { role, content }, s5)),
                        None => None,
                    },
                    None => None,
                },
                None => None,
            },
            None => None,
        },
        None => None,
    }
}

/// Reads `,` followed by a message, repeatedly, up to and over the closing
/// bracket of the array.
pub open spec fn spec_parse_messages_tail(s: Seq<char>) -> Option<(Seq<MessageV>, Seq<char>)>
    decreases s.len(),
{
    if s.len() == 0 {
        None
    } else if s[0] == ']' {
        Some((Seq::empty(), s.drop_first()))
    } else if s[0] == ',' {
        match spec_parse_message(s.drop_first()) {
            Some((m, r)) => if r.len() < s.len() {
                match spec_parse_messages_tail(r) {
                    Some((ms, rr)) => Some((seq![m] + ms, rr)),
                    None => None,
                }
            } else {
                None
            },
            None => None,
        }
    } else {
        None
    }
}

/// Reads the inside of a message array up to and over its closing bracket.
pub open spec fn spec_parse_messages(s: Seq<char>) -> Option<(Seq<MessageV>, Seq<char>)> {
    if s.len() == 0 {
        None
    } else if s[0] == ']' {
        Some((Seq::empty(), s.drop_first()))
    } else {
        match spec_parse_message(s) {
            Some((m, r)) => if r.len() < s.len() {
                match spec_parse_messages_tail(r) {
                    Some((ms, rr)) => Some((seq![m] + ms, rr)),
                    None => None,
                }
            } else {
                None
            },
            None => None,
        }
    }
}

/// Reads a whole request body; the body must end with the closing brace.
pub open spec fn spec_parse_request(s: Seq<char>) -> Option<RequestV> {
    match spec_expect(s, "{\"model\":\""@) {
        Some(s1) => match spec_parse_string(s1) {
            Some((model, s2)) => match spec_expect(s2, ",\"messages\":["@) {
                Some(s3) => match spec_parse_messages(s3) {
                    Some((messages, s4)) => match spec_expect(s4, "}"@) {
                        Some(s5) => if s5.len() == 0 {
                            Some(RequestV { model, messages })
                        } else {
                            None
                        },
                        None => None,
                    },
                    None => None,
                },
                None => None,
            },
            None => None,
        },
        None => None,
    }
}

/// A decimal digit.
pub open spec fn is_digit(c: char) -> bool {
    '0' <= c && c <= '9'
}

/// The value of a decimal digit.
pub open spec fn digit_val(c: char) -> int {
    c as int - '0' as int
}

/// Accumulates decimal digits from the front; fails only past `u64::MAX`.
pub open spec fn spec_parse_u64_loop(s: Seq<char>, acc: int) -> Option<(int, Seq<char>)>
    decreases s.len(),
{
    if s.len() > 0 && is_digit(s[0]) {
        let acc2 = acc * 10 + digit_val(s[0]);
        if acc2 > u64::MAX {
            None
        } else {
            spec_parse_u64_loop(s.drop_first(), acc2)
        }
    } else {
        Some((acc, s))
    }
}

/// Reads an unsigned decimal number: at least one digit, no overflow.
pub open spec fn spec_parse_u64(s: Seq<char>) -> Option<(u64, Seq<char>)> {
    if s.len() > 0 && is_digit(s[0]) {
        match spec_parse_u64_loop(s, 0) {
            Some((v, r)) => Some((v as u64, r)),
            None => None,
        }
    } else {
        None
    }
}

/// Reads a signed decimal number into the range of `i64`.
pub open spec fn spec_parse_i64(s: Seq<char>) -> Option<(i64, Seq<char>)> {
    if s.len() > 0 && s[0] == '-' {
        match spec_parse_u64(s.drop_first()) {
            Some((v, r)) => if v <= 9223372036854775808u64 {
                Some(((0 - v as int) as i64, r))
            } else {
                None
            },
            None => None,
        }
    } else {
        match spec_parse_u64(s) {
            Some((v, r)) => if v <= 9223372036854775807u64 {
                Some((v as i64, r))
            } else {
                None
            },
            None => None,
        }
    }
}

/// Reads an unsigned decimal number that fits a `usize`.
pub open spec fn spec_parse_usize(s: Seq<char>) -> Option<(usize, Seq<char>)> {
    match spec_parse_u64(s) {
        Some((v, r)) => if v <= usize::MAX as u64 {
            Some((v as usize, r))
        } else {
            None
        },
        None => None,
    }
}

/// Reads `null`, or a quoted string.
pub open spec fn spec_parse_opt_string(s: Seq<char>) -> Option<(Option<Seq<char>>, Seq<char>)> {
    match spec_expect(s, "null"@) {
        Some(r) => Some((None, r)),
        None => if s.len() > 0 && s[0] == '"' {
            match spec_parse_string(s.drop_first()) {
                Some((t, r)) => Some((Some(t), r)),
                None => None,
            }
        } else {
            None
        },
    }
}

// ---------------------------------------------------------------------------
// The reply grammar: general JSON of the success and error-envelope shapes.
// Whitespace may stand between tokens, members may come in any order,
// unknown members are skipped, and optional members may be absent.
// ---------------------------------------------------------------------------

/// A JSON whitespace character.
pub open spec fn is_ws(c: char) -> bool {
    c == ' ' || c == '\t' || c == '\n' || c == '\r'
}

/// The suffix after leading whitespace.
pub open spec fn spec_skip_ws(s: Seq<char>) -> Seq<char>
    decreases s.len(),
{
    if s.len() > 0 && is_ws(s[0]) {
        spec_skip_ws(s.drop_first())
    } else {
        s
    }
}

/// The suffix after leading decimal digits.
pub open spec fn spec_skip_digits(s: Seq<char>) -> Seq<char>
    decreases s.len(),
{
    if s.len() > 0 && is_digit(s[0]) {
        spec_skip_digits(s.drop_first())
    } else {
        s
    }
}

/// Reads over one JSON number, fraction and exponent included.
pub open spec fn spec_skip_number(s: Seq<char>) -> Option<Seq<char>> {
    let s1 = if s.len() > 0 && s[0] == '-' {
        s.drop_first()
    } else {
        s
    };
    if s1.len() > 0 && is_digit(s1[0]) {
        let s2 = spec_skip_digits(s1);
        let s3 = if s2.len() > 0 && s2[0] == '.' {
            if s2.len() > 1 && is_digit(s2[1]) {
                Some(spec_skip_digits(s2.drop_first()))
            } else {
                None
            }
        } else {
            Some(s2)
        };
        match s3 {
            Some(t) => if t.len() > 0 && (t[0] == 'e' || t[0] == 'E') {
                let t1 = t.drop_first();
                let t2 = if t1.len() > 0 && (t1[0] == '+' || t1[0] == '-') {
                    t1.drop_first()
                } else {
                    t1
                };
                if t2.len() > 0 && is_digit(t2[0]) {
                    Some(spec_skip_digits(t2))
                } else {
                    None
                }
            } else {
                Some(t)
            },
            None => None,
        }
    } else {
        None
    }
}

/// Reads over one JSON value of any kind.
pub open spec fn spec_skip_value(s: Seq<char>) -> Option<Seq<char>>
    decreases s.len(), 0int,
{
    if s.len() == 0 {
        None
    } else if s[0] == '"' {
        match spec_parse_string(s.drop_first()) {
            Some(p) => Some(p.1),
            None => None,
        }
    } else if s[0] == '[' {
        let t = spec_skip_ws(s.drop_first());
        if t.len() < s.len() {
            if t.len() > 0 && t[0] == ']' {
                Some(t.drop_first())
            } else {
                spec_skip_array_items(t)
            }
        } else {
            None
        }
    } else if s[0] == '{' {
        let t = spec_skip_ws(s.drop_first());
        if t.len() < s.len() {
            if t.len() > 0 && t[0] == '}' {
                Some(t.drop_first())
            } else {
                spec_skip_object_members(t)
            }
        } else {
            None
        }
    } else if s[0] == 't' {
        spec_expect(s, "true"@)
    } else if s[0] == 'f' {
        spec_expect(s, "false"@)
    } else if s[0] == 'n' {
        spec_expect(s, "null"@)
    } else {
        spec_skip_number(s)
    }
}

/// Reads over the items of an array, starting at the first item, up to and
/// over the closing bracket.
pub open spec fn spec_skip_array_items(s: Seq<char>) -> Option<Seq<char>>
    decreases s.len(), 1int,
{
    match spec_skip_value(s) {
        Some(r) => {
            let t = spec_skip_ws(r);
            if t.len() == 0 {
                None
            } else if t[0] == ']' {
                Some(t.drop_first())
            } else if t[0] == ',' {
                let u = spec_skip_ws(t.drop_first());
                if u.len() < s.len() {
                    spec_skip_array_items(u)
                } else {
                    None
                }
            } else {
                None
            }
        },
        None => None,
    }
}

/// Reads over the members of an object, starting at the first key's quote,
/// up to and over the closing brace.
pub open spec fn spec_skip_object_members(s: Seq<char>) -> Option<Seq<char>>
    decreases s.len(), 1int,
{
    if s.len() > 0 && s[0] == '"' {
        match spec_parse_string(s.drop_first()) {
            Some(p) => {
                let t = spec_skip_ws(p.1);
                if t.len() > 0 && t[0] == ':' {
                    let u = spec_skip_ws(t.drop_first());
                    if u.len() < s.len() {
                        match spec_skip_value(u) {
                            Some(r) => {
                                let w = spec_skip_ws(r);
                                if w.len() == 0 {
                                    None
                                } else if w[0] == '}' {
                                    Some(w.drop_first())
                                } else if w[0] == ',' {
                                    let x = spec_skip_ws(w.drop_first());
                                    if x.len() < s.len() {
                                        spec_skip_object_members(x)
                                    } else {
                                        None
                                    }
                                } else {
                                    None
                                }
                            },
                            None => None,
                        }
                    } else {
                        None
                    }
                } else {
                    None
                }
            },
            None => None,
        }
    } else {
        None
    }
}

/// Reads a quoted JSON string where a value is expected.
pub open spec fn spec_parse_quoted(s: Seq<char>) -> Option<(Seq<char>, Seq<char>)> {
    if s.len() > 0 && s[0] == '"' {
        spec_parse_string(s.drop_first())
    } else {
        None
    }
}

/// What the members of a message object have said so far.
pub struct MessageAcc {
    pub role: Option<Role>,
    pub content: Option<Seq<char>>,
}

/// The member of a message object named by `key`, read at `u`; an unknown
/// member is skipped, a repeated one refused.
pub open spec fn spec_message_member(u: Seq<char>, acc: MessageAcc, key: Seq<char>) -> Option<
    (MessageAcc, Seq<char>),
> {
    if key == "role"@ {
        if acc.role is Some {
            None
        } else {
            match spec_parse_quoted(u) {
                Some((t, r)) => if t == "system"@ {
                    Some((MessageAcc { role: Some(Role::System), content: acc.content }, r))
                } else if t == "user"@ {
                    Some((MessageAcc { role: Some(Role::User), content: acc.content }, r))
                } else if t == "assistant"@ {
                    Some((MessageAcc { role: Some(Role::Assistant), content: acc.content }, r))
                } else {
                    None
                },
                None => None,
            }
        }
    } else if key == "content"@ {
        if acc.content is Some {
            None
        } else {
            match spec_parse_quoted(u) {
                Some((t, r)) => Some((MessageAcc { role: acc.role, content: Some(t) }, r)),
                None => None,
            }
        }
    } else {
        match spec_skip_value(u) {
            Some(r) => Some((acc, r)),
            None => None,
        }
    }
}

/// The members of a message object, starting at the first key's quote, up to
/// and over the closing brace.
pub open spec fn spec_message_members(s: Seq<char>, acc: MessageAcc) -> Option<
    (MessageAcc, Seq<char>),
>
    decreases s.len(),
{
    if s.len() > 0 && s[0] == '"' {
        match spec_parse_string(s.drop_first()) {
            Some((key, r1)) => {
                let t = spec_skip_ws(r1);
                if t.len() > 0 && t[0] == ':' {
                    let u = spec_skip_ws(t.drop_first());
                    if u.len() < s.len() {
                        match spec_message_member(u, acc, key) {
                            Some((acc2, r2)) => {
                                let w = spec_skip_ws(r2);
                                if w.len() == 0 {
                                    None
                                } else if w[0] == '}' {
                                    Some((acc2, w.drop_first()))
                                } else if w[0] == ',' {
                                    let x = spec_skip_ws(w.drop_first());
                                    if x.len() < s.len() {
                                        spec_message_members(x, acc2)
                                    } else {
                                        None
                                    }
                                } else {
                                    None
                                }
                            },
                            None => None,
                        }
                    } else {
                        None
                    }
                } else {
                    None
                }
            },
            None => None,
        }
    } else {
        None
    }
}

/// Reads one message object, starting at its opening brace.
pub open spec fn spec_parse_message_obj(s: Seq<char>) -> Option<(MessageV, Seq<char>)> {
    if s.len() > 0 && s[0] == '{' {
        let t = spec_skip_ws(s.drop_first());
        if t.len() < s.len() {
            let body = if t.len() > 0 && t[0] == '}' {
                Some((MessageAcc { role: None, content: None }, t.drop_first()))
            } else {
                spec_message_members(t, MessageAcc { role: None, content: None })
            };
            match body {
                Some((acc, r)) => match (acc.role, acc.content) {
                    (Some(role), Some(content)) => Some((MessageV { role, content }, r)),
                    _ => None,
                },
                None => None,
            }
        } else {
            None
        }
    } else {
        None
    }
}

/// What the members of a usage object have said so far.
pub struct UsageAcc {
    pub prompt_tokens: Option<usize>,
    pub completion_tokens: Option<usize>,
    pub total_tokens: Option<usize>,
}

/// The member of a usage object named by `key`, read at `u`.
pub open spec fn spec_usage_member(u: Seq<char>, acc: UsageAcc, key: Seq<char>) -> Option<
    (UsageAcc, Seq<char>),
> {
    if key == "prompt_tokens"@ {
        if acc.prompt_tokens is Some {
            None
        } else {
            match spec_parse_usize(u) {
                Some((v, r)) => Some(
                    (
                        UsageAcc {
                            prompt_tokens: Some(v),
                            completion_tokens: acc.completion_tokens,
                            total_tokens: acc.total_tokens,
                        },
                        r,
                    ),
                ),
                None => None,
            }
        }
    } else if key == "completion_tokens"@ {
        if acc.completion_tokens is Some {
            None
        } else {
            match spec_parse_usize(u) {
                Some((v, r)) => Some(
                    (
                        UsageAcc {
                            prompt_tokens: acc.prompt_tokens,
                            completion_tokens: Some(v),
                            total_tokens: acc.total_tokens,
                        },
                        r,
                    ),
                ),
                None => None,
            }
        }
    } else if key == "total_tokens"@ {
        if acc.total_tokens is Some {
            None
        } else {
            match spec_parse_usize(u) {
                Some((v, r)) => Some(
                    (
                        UsageAcc {
                            prompt_tokens: acc.prompt_tokens,
                            completion_tokens: acc.completion_tokens,
                            total_tokens: Some(v),
                        },
                        r,
                    ),
                ),
                None => None,
            }
        }
    } else {
        match spec_skip_value(u) {
            Some(r) => Some((acc, r)),
            None => None,
        }
    }
}

/// The members of a usage object, starting at the first key's quote.
pub open spec fn spec_usage_members(s: Seq<char>, acc: UsageAcc) -> Option<(UsageAcc, Seq<char>)>
    decreases s.len(),
{
    if s.len() > 0 && s[0] == '"' {
        match spec_parse_string(s.drop_first()) {
            Some((key, r1)) => {
                let t = spec_skip_ws(r1);
                if t.len() > 0 && t[0] == ':' {
                    let u = spec_skip_ws(t.drop_first());
                    if u.len() < s.len() {
                        match spec_usage_member(u, acc, key) {
                            Some((acc2, r2)) => {
                                let w = spec_skip_ws(r2);
                                if w.len() == 0 {
                                    None
                                } else if w[0] == '}' {
                                    Some((acc2, w.drop_first()))
                                } else if w[0] == ',' {
                                    let x = spec_skip_ws(w.drop_first());
                                    if x.len() < s.len() {
                                        spec_usage_members(x, acc2)
                                    } else {
                                        None
                                    }
                                } else {
                                    None
                                }
                            },
                            None => None,
                        }
                    } else {
                        None
                    }
                } else {
                    None
                }
            },
            None => None,
        }
    } else {
        None
    }
}

/// Reads one usage object, starting at its opening brace.
pub open spec fn spec_parse_usage_obj(s: Seq<char>) -> Option<(Usage, Seq<char>)> {
    if s.len() > 0 && s[0] == '{' {
        let t = spec_skip_ws(s.drop_first());
        if t.len() < s.len() {
            let body = if t.len() > 0 && t[0] == '}' {
                Some(
                    (
                        UsageAcc {
                            prompt_tokens: None,
                            completion_tokens: None,
                            total_tokens: None,
                        },
                        t.drop_first(),
                    ),
                )
            } else {
                spec_usage_members(
                    t,
                    UsageAcc { prompt_tokens: None, completion_tokens: None, total_tokens: None },
                )
            };
            match body {
                Some((acc, r)) => match (acc.prompt_tokens, acc.completion_tokens, acc.total_tokens) {
                    (Some(p), Some(c), Some(tt)) => Some(
                        (Usage { prompt_tokens: p, completion_tokens: c, total_tokens: tt }, r),
                    ),
                    _ => None,
                },
                None => None,
            }
        } else {
            None
        }
    } else {
        None
    }
}

/// What the members of a choice object have said so far.
pub struct ChoiceAcc {
    pub message: Option<MessageV>,
    pub finish_reason: Option<Seq<char>>,
    pub index: Option<i64>,
}

/// The member of a choice object named by `key`, read at `u`.
pub open spec fn spec_choice_member(u: Seq<char>, acc: ChoiceAcc, key: Seq<char>) -> Option<
    (ChoiceAcc, Seq<char>),
> {
    if key == "message"@ {
        if acc.message is Some {
            None
        } else {
            match spec_parse_message_obj(u) {
                Some((m, r)) => Some(
                    (
                        ChoiceAcc {
                            message: Some(m),
                            finish_reason: acc.finish_reason,
                            index: acc.index,
                        },
                        r,
                    ),
                ),
                None => None,
            }
        }
    } else if key == "finish_reason"@ {
        if acc.finish_reason is Some {
            None
        } else {
            match spec_parse_quoted(u) {
                Some((t, r)) => Some(
                    (
                        ChoiceAcc {
                            message: acc.message,
                            finish_reason: Some(t),
                            index: acc.index,
                        },
                        r,
                    ),
                ),
                None => None,
            }
        }
    } else if key == "index"@ {
        if acc.index is Some {
            None
        } else {
            match spec_parse_i64(u) {
                Some((v, r)) => Some(
                    (
                        ChoiceAcc {
                            message: acc.message,
                            finish_reason: acc.finish_reason,
                            index: Some(v),
                        },
                        r,
                    ),
                ),
                None => None,
            }
        }
    } else {
        match spec_skip_value(u) {
            Some(r) => Some((acc, r)),
            None => None,
        }
    }
}

/// The members of a choice object, starting at the first key's quote.
pub open spec fn spec_choice_members(s: Seq<char>, acc: ChoiceAcc) -> Option<
    (ChoiceAcc, Seq<char>),
>
    decreases s.len(),
{
    if s.len() > 0 && s[0] == '"' {
        match spec_parse_string(s.drop_first()) {
            Some((key, r1)) => {
                let t = spec_skip_ws(r1);
                if t.len() > 0 && t[0] == ':' {
                    let u = spec_skip_ws(t.drop_first());
                    if u.len() < s.len() {
                        match spec_choice_member(u, acc, key) {
                            Some((acc2, r2)) => {
                                let w = spec_skip_ws(r2);
                                if w.len() == 0 {
                                    None
                                } else if w[0] == '}' {
                                    Some((acc2, w.drop_first()))
                                } else if w[0] == ',' {
                                    let x = spec_skip_ws(w.drop_first());
                                    if x.len() < s.len() {
                                        spec_choice_members(x, acc2)
                                    } else {
                                        None
                                    }
                                } else {
                                    None
                                }
                            },
                            None => None,
                        }
                    } else {
                        None
                    }
                } else {
                    None
                }
            },
            None => None,
        }
    } else {
        None
    }
}

/// Reads one choice object, starting at its opening brace.
pub open spec fn spec_parse_choice_obj(s: Seq<char>) -> Option<(ChoiceV, Seq<char>)> {
    if s.len() > 0 && s[0] == '{' {
        let t = spec_skip_ws(s.drop_first());
        if t.len() < s.len() {
            let body = if t.len() > 0 && t[0] == '}' {
                Some(
                    (ChoiceAcc { message: None, finish_reason: None, index: None }, t.drop_first()),
                )
            } else {
                spec_choice_members(
                    t,
                    ChoiceAcc { message: None, finish_reason: None, index: None },
                )
            };
            match body {
                Some((acc, r)) => match (acc.message, acc.finish_reason, acc.index) {
                    (Some(message), Some(finish_reason), Some(index)) => Some(
                        (ChoiceV { message, finish_reason, index }, r),
                    ),
                    _ => None,
                },
                None => None,
            }
        } else {
            None
        }
    } else {
        None
    }
}

/// The items of a choice array, starting at the first item's brace, up to
/// and over the closing bracket.
pub open spec fn spec_choices_items(s: Seq<char>, acc: Seq<ChoiceV>) -> Option<
    (Seq<ChoiceV>, Seq<char>),
>
    decreases s.len(),
{
    match spec_parse_choice_obj(s) {
        Some((c, r)) => {
            let t = spec_skip_ws(r);
            if t.len() == 0 {
                None
            } else if t[0] == ']' {
                Some((acc.push(c), t.drop_first()))
            } else if t[0] == ',' {
                let u = spec_skip_ws(t.drop_first());
                if u.len() < s.len() {
                    spec_choices_items(u, acc.push(c))
                } else {
                    None
                }
            } else {
                None
            }
        },
        None => None,
    }
}

/// Reads one choice array, starting at its opening bracket.
pub open spec fn spec_parse_choices_arr(s: Seq<char>) -> Option<(Seq<ChoiceV>, Seq<char>)> {
    if s.len() > 0 && s[0] == '[' {
        let t = spec_skip_ws(s.drop_first());
        if t.len() < s.len() {
            if t.len() > 0 && t[0] == ']' {
                Some((Seq::empty(), t.drop_first()))
            } else {
                spec_choices_items(t, Seq::empty())
            }
        } else {
            None
        }
    } else {
        None
    }
}

/// What the members of a success reply have said so far. The doubled option
/// on `usage` tells a member read as `null` apart from an absent member;
/// both end as no usage.
pub struct ResponseAcc {
    pub id: Option<Seq<char>>,
    pub object: Option<Seq<char>>,
    pub created: Option<i64>,
    pub model: Option<Seq<char>>,
    pub choices: Option<Seq<ChoiceV>>,
    pub usage: Option<Option<Usage>>,
}

/// The member of a success reply named by `key`, read at `u`.
pub open spec fn spec_response_member(u: Seq<char>, acc: ResponseAcc, key: Seq<char>) -> Option<
    (ResponseAcc, Seq<char>),
> {
    if key == "id"@ {
        if acc.id is Some {
            None
        } else {
            match spec_parse_quoted(u) {
                Some((v, r)) => Some(
                    (
                        ResponseAcc {
                            id: Some(v),
                            object: acc.object,
                            created: acc.created,
                            model: acc.model,
                            choices: acc.choices,
                            usage: acc.usage,
                        },
                        r,
                    ),
                ),
                None => None,
            }
        }
    } else if key == "object"@ {
        if acc.object is Some {
            None
        } else {
            match spec_parse_quoted(u) {
                Some((v, r)) => Some(
                    (
                        ResponseAcc {
                            id: acc.id,
                            object: Some(v),
                            created: acc.created,
                            model: acc.model,
                            choices: acc.choices,
                            usage: acc.usage,
                        },
                        r,
                    ),
                ),
                None => None,
            }
        }
    } else if key == "created"@ {
        if acc.created is Some {
            None
        } else {
            match spec_parse_i64(u) {
                Some((v, r)) => Some(
                    (
                        ResponseAcc {
                            id: acc.id,
                            object: acc.object,
                            created: Some(v),
                            model: acc.model,
                            choices: acc.choices,
                            usage: acc.usage,
                        },
                        r,
                    ),
                ),
                None => None,
            }
        }
    } else if key == "model"@ {
        if acc.model is Some {
            None
        } else {
            match spec_parse_quoted(u) {
                Some((v, r)) => Some(
                    (
                        ResponseAcc {
                            id: acc.id,
                            object: acc.object,
                            created: acc.created,
                            model: Some(v),
                            choices: acc.choices,
                            usage: acc.usage,
                        },
                        r,
                    ),
                ),
                None => None,
            }
        }
    } else if key == "choices"@ {
        if acc.choices is Some {
            None
        } else {
            match spec_parse_choices_arr(u) {
                Some((v, r)) => Some(
                    (
                        ResponseAcc {
                            id: acc.id,
                            object: acc.object,
                            created: acc.created,
                            model: acc.model,
                            choices: Some(v),
                            usage: acc.usage,
                        },
                        r,
                    ),
                ),
                None => None,
            }
        }
    } else if key == "usage"@ {
        if acc.usage is Some {
            None
        } else {
            let filled = if u.len() > 0 && u[0] == 'n' {
                match spec_expect(u, "null"@) {
                    Some(r) => Some((None::<Usage>, r)),
                    None => None,
                }
            } else {
                match spec_parse_usage_obj(u) {
                    Some((v, r)) => Some((Some(v), r)),
                    None => None,
                }
            };
            match filled {
                Some((v, r)) => Some(
                    (
                        ResponseAcc {
                            id: acc.id,
                            object: acc.object,
                            created: acc.created,
                            model: acc.model,
                            choices: acc.choices,
                            usage: Some(v),
                        },
                        r,
                    ),
                ),
                None => None,
            }
        }
    } else {
        match spec_skip_value(u) {
            Some(r) => Some((acc, r)),
            None => None,
        }
    }
}

/// The members of a success reply, starting at the first key's quote.
pub open spec fn spec_response_members(s: Seq<char>, acc: ResponseAcc) -> Option<
    (ResponseAcc, Seq<char>),
>
    decreases s.len(),
{
    if s.len() > 0 && s[0] == '"' {
        match spec_parse_string(s.drop_first()) {
            Some((key, r1)) => {
                let t = spec_skip_ws(r1);
                if t.len() > 0 && t[0] == ':' {
                    let u = spec_skip_ws(t.drop_first());
                    if u.len() < s.len() {
                        match spec_response_member(u, acc, key) {
                            Some((acc2, r2)) => {
                                let w = spec_skip_ws(r2);
                                if w.len() == 0 {
                                    None
                                } else if w[0] == '}' {
                                    Some((acc2, w.drop_first()))
                                } else if w[0] == ',' {
                                    let x = spec_skip_ws(w.drop_first());
                                    if x.len() < s.len() {
                                        spec_response_members(x, acc2)
                                    } else {
                                        None
                                    }
                                } else {
                                    None
                                }
                            },
                            None => None,
                        }
                    } else {
                        None
                    }
                } else {
                    None
                }
            },
            None => None,
        }
    } else {
        None
    }
}

/// An empty success-reply accumulator.
pub open spec fn response_acc_empty() -> ResponseAcc {
    ResponseAcc { id: None, object: None, created: None, model: None, choices: None, usage: None }
}

/// Reads a whole success reply body: one JSON object with the members `id`,
/// `object`, `created`, `model` and `choices` all present, `usage` absent or
/// `null` or an object, unknown members skipped, nothing after it.
pub open spec fn spec_parse_response(s: Seq<char>) -> Option<ResponseV> {
    let t0 = spec_skip_ws(s);
    if t0.len() > 0 && t0[0] == '{' {
        let t1 = spec_skip_ws(t0.drop_first());
        let body = if t1.len() > 0 && t1[0] == '}' {
            Some((response_acc_empty(), t1.drop_first()))
        } else {
            spec_response_members(t1, response_acc_empty())
        };
        match body {
            Some((acc, rest)) => if spec_skip_ws(rest).len() == 0 {
                match (acc.id, acc.object, acc.created, acc.model, acc.choices) {
                    (Some(id), Some(object), Some(created), Some(model), Some(choices)) => Some(
                        ResponseV {
                            id,
                            object,
                            created,
                            model,
                            choices,
                            usage: match acc.usage {
                                Some(u) => u,
                                None => None,
                            },
                        },
                    ),
                    _ => None,
                }
            } else {
                None
            },
            None => None,
        }
    } else {
        None
    }
}

/// What the members of an error envelope have said so far. The doubled
/// options on `param` and `code` tell a member read as `null` apart from an
/// absent member; both end as no value.
pub struct ErrorAcc {
    pub message: Option<Seq<char>>,
    pub type_field: Option<Seq<char>>,
    pub param: Option<Option<Seq<char>>>,
    pub code: Option<Option<Seq<char>>>,
}

/// The member of an error object named by `key`, read at `u`.
pub open spec fn spec_error_member(u: Seq<char>, acc: ErrorAcc, key: Seq<char>) -> Option<
    (ErrorAcc, Seq<char>),
> {
    if key == "message"@ {
        if acc.message is Some {
            None
        } else {
            match spec_parse_quoted(u) {
                Some((v, r)) => Some(
                    (
                        ErrorAcc {
                            message: Some(v),
                            type_field: acc.type_field,
                            param: acc.param,
                            code: acc.code,
                        },
                        r,
                    ),
                ),
                None => None,
            }
        }
    } else if key == "type"@ {
        if acc.type_field is Some {
            None
        } else {
            match spec_parse_quoted(u) {
                Some((v, r)) => Some(
                    (
                        ErrorAcc {
                            message: acc.message,
                            type_field: Some(v),
                            param: acc.param,
                            code: acc.code,
                        },
                        r,
                    ),
                ),
                None => None,
            }
        }
    } else if key == "param"@ {
        if acc.param is Some {
            None
        } else {
            match spec_parse_opt_string(u) {
                Some((v, r)) => Some(
                    (
                        ErrorAcc {
                            message: acc.message,
                            type_field: acc.type_field,
                            param: Some(v),
                            code: acc.code,
                        },
                        r,
                    ),
                ),
                None => None,
            }
        }
    } else if key == "code"@ {
        if acc.code is Some {
            None
        } else {
            match spec_parse_opt_string(u) {
                Some((v, r)) => Some(
                    (
                        ErrorAcc {
                            message: acc.message,
                            type_field: acc.type_field,
                            param: acc.param,
                            code: Some(v),
                        },
                        r,
                    ),
                ),
                None => None,
            }
        }
    } else {
        match spec_skip_value(u) {
            Some(r) => Some((acc, r)),
            None => None,
        }
    }
}

/// The members of an error object, starting at the first key's quote.
pub open spec fn spec_error_members(s: Seq<char>, acc: ErrorAcc) -> Option<(ErrorAcc, Seq<char>)>
    decreases s.len(),
{
    if s.len() > 0 && s[0] == '"' {
        match spec_parse_string(s.drop_first()) {
            Some((key, r1)) => {
                let t = spec_skip_ws(r1);
                if t.len() > 0 && t[0] == ':' {
                    let u = spec_skip_ws(t.drop_first());
                    if u.len() < s.len() {
                        match spec_error_member(u, acc, key) {
                            Some((acc2, r2)) => {
                                let w = spec_skip_ws(r2);
                                if w.len() == 0 {
                                    None
                                } else if w[0] == '}' {
                                    Some((acc2, w.drop_first()))
                                } else if w[0] == ',' {
                                    let x = spec_skip_ws(w.drop_first());
                                    if x.len() < s.len() {
                                        spec_error_members(x, acc2)
                                    } else {
                                        None
                                    }
                                } else {
                                    None
                                }
                            },
                            None => None,
                        }
                    } else {
                        None
                    }
                } else {
                    None
                }
            },
            None => None,
        }
    } else {
        None
    }
}

/// An empty error accumulator.
pub open spec fn error_acc_empty() -> ErrorAcc {
    ErrorAcc { message: None, type_field: None, param: None, code: None }
}

/// Reads one error object, starting at its opening brace: `message` and
/// `type` must be present, `param` and `code` may be absent or `null`.
pub open spec fn spec_parse_error_obj(s: Seq<char>) -> Option<(ErrorV, Seq<char>)> {
    if s.len() > 0 && s[0] == '{' {
        let t = spec_skip_ws(s.drop_first());
        if t.len() < s.len() {
            let body = if t.len() > 0 && t[0] == '}' {
                Some((error_acc_empty(), t.drop_first()))
            } else {
                spec_error_members(t, error_acc_empty())
            };
            match body {
                Some((acc, r)) => match (acc.message, acc.type_field) {
                    (Some(message), Some(type_field)) => Some(
                        (
                            ErrorV {
                                message,
                                type_field,
                                param: match acc.param {
                                    Some(p) => p,
                                    None => None,
                                },
                                code: match acc.code {
                                    Some(c) => c,
                                    None => None,
                                },
                            },
                            r,
                        ),
                    ),
                    _ => None,
                },
                None => None,
            }
        } else {
            None
        }
    } else {
        None
    }
}

/// The members of the envelope's root object, starting at the first key's
/// quote: only `error` is captured, everything else skipped.
pub open spec fn spec_error_root_members(s: Seq<char>, acc: Option<ErrorV>) -> Option<
    (Option<ErrorV>, Seq<char>),
>
    decreases s.len(),
{
    if s.len() > 0 && s[0] == '"' {
        match spec_parse_string(s.drop_first()) {
            Some((key, r1)) => {
                let t = spec_skip_ws(r1);
                if t.len() > 0 && t[0] == ':' {
                    let u = spec_skip_ws(t.drop_first());
                    if u.len() < s.len() {
                        let stepped = if key == "error"@ {
                            if acc is Some {
                                None
                            } else {
                                match spec_parse_error_obj(u) {
                                    Some((e, r)) => Some((Some(e), r)),
                                    None => None,
                                }
                            }
                        } else {
                            match spec_skip_value(u) {
                                Some(r) => Some((acc, r)),
                                None => None,
                            }
                        };
                        match stepped {
                            Some((acc2, r2)) => {
                                let w = spec_skip_ws(r2);
                                if w.len() == 0 {
                                    None
                                } else if w[0] == '}' {
                                    Some((acc2, w.drop_first()))
                                } else if w[0] == ',' {
                                    let x = spec_skip_ws(w.drop_first());
                                    if x.len() < s.len() {
                                        spec_error_root_members(x, acc2)
                                    } else {
                                        None
                                    }
                                } else {
                                    None
                                }
                            },
                            None => None,
                        }
                    } else {
                        None
                    }
                } else {
                    None
                }
            },
            None => None,
        }
    } else {
        None
    }
}

/// Reads a whole error-envelope body: one JSON object whose `error` member
/// holds the envelope, unknown members skipped, nothing after it.
pub open spec fn spec_parse_error_root(s: Seq<char>) -> Option<ErrorV> {
    let t0 = spec_skip_ws(s);
    if t0.len() > 0 && t0[0] == '{' {
        let t1 = spec_skip_ws(t0.drop_first());
        let body = if t1.len() > 0 && t1[0] == '}' {
            Some((None::<ErrorV>, t1.drop_first()))
        } else {
            spec_error_root_members(t1, None)
        };
        match body {
            Some((acc, rest)) => if spec_skip_ws(rest).len() == 0 {
                acc
            } else {
                None
            },
            None => None,
        }
    } else {
        None
    }
}

// ---------------------------------------------------------------------------
// The round trip: decoding inverts encoding.
// ---------------------------------------------------------------------------

proof fn lemma_expect_prefix(lit: Seq<char>, rest: Seq<char>)
    ensures
        spec_expect(lit + rest, lit) == Some(rest),
{
    let s = lit + rest;
    assert(s.subrange(0, lit.len() as int) =~= lit);
    assert(s.skip(lit.len() as int) =~= rest);
}

proof fn seq_assoc(a: Seq<char>, b: Seq<char>, c: Seq<char>)
    ensures
        (a + b) + c == a + (b + c),
{
    assert((a + b) + c =~= a + (b + c));
}

proof fn lemma_parse_string_escape(content: Seq<char>, rest: Seq<char>)
    ensures
        spec_parse_string(escape_seq(content) + seq!['"'] + rest) == Some((content, rest)),
    decreases content.len(),
{
    let s = escape_seq(content) + seq!['"'] + rest;
    if content.len() == 0 {
        assert(escape_seq(content) == Seq::<char>::empty());
        assert(s =~= seq!['"'] + rest);
        assert(s[0] == '"');
        assert(s.drop_first() =~= rest);
        assert(content =~= Seq::<char>::empty());
    } else {
        let c = content[0];
        let tail = content.drop_first();
        lemma_parse_string_escape(tail, rest);
        let s2 = escape_seq(tail) + seq!['"'] + rest;
        assert(escape_seq(content) == escape_char(c) + escape_seq(tail));
        assert(seq![c] + tail =~= content);
        if c == '"' || c == '\\' || c == '\n' || c == '\r' || c == '\t' {
            let e: char = if c == '"' {
                '"'
            } else if c == '\\' {
                '\\'
            } else if c == '\n' {
                'n'
            } else if c == '\r' {
                'r'
            } else {
                't'
            };
            assert(escape_char(c) == seq!['\\', e]);
            assert(s =~= seq!['\\', e] + s2);
            assert(s.len() >= 2 && s[0] == '\\' && s[1] == e);
            assert(unescape_char(e) == Some(c));
            assert(s.skip(2) =~= s2);
        } else {
            assert(escape_char(c) == seq![c]);
            assert(s =~= seq![c] + s2);
            assert(s[0] == c && c != '"' && c != '\\');
            assert(s.drop_first() =~= s2);
        }
    }
}

proof fn lemma_parse_role_token(r: Role, rest: Seq<char>)
    ensures
        spec_parse_role(role_token(r) + rest) == Some((r, rest)),
{
    reveal_strlit("system");
    reveal_strlit("user");
    reveal_strlit("assistant");
    let s = role_token(r) + rest;
    match r {
        Role::System => {
            lemma_expect_prefix("system"@, rest);
        },
        Role::User => {
            assert(spec_expect(s, "system"@) is None) by {
                if spec_expect(s, "system"@) is Some {
                    assert(s.subrange(0, 6)[0] == s[0]);
                }
            }
            lemma_expect_prefix("user"@, rest);
        },
        Role::Assistant => {
            assert(spec_expect(s, "system"@) is None) by {
                if spec_expect(s, "system"@) is Some {
                    assert(s.subrange(0, 6)[0] == s[0]);
                }
            }
            assert(spec_expect(s, "user"@) is None) by {
                if spec_expect(s, "user"@) is Some {
                    assert(s.subrange(0, 4)[0] == s[0]);
                }
            }
            lemma_expect_prefix("assistant"@, rest);
        },
    }
}

proof fn lemma_parse_message_inverts(m: MessageV, rest: Seq<char>)
    ensures
        spec_parse_message(encode_message_spec(m) + rest) == Some((m, rest)),
{
    reveal_strlit("{\"role\":\"");
    reveal_strlit("\",\"content\":\"");
    reveal_strlit("\"}");
    reveal_strlit("}");
    let l1 = "{\"role\":\""@;
    let l2 = "\",\"content\":\""@;
    let s = encode_message_spec(m) + rest;
    let x4 = "}"@ + rest;
    let x3 = escape_seq(m.content) + seq!['"'] + x4;
    let x2 = l2 + (escape_seq(m.content) + (seq!['"'] + x4));
    let x1 = role_token(m.role) + x2;
    assert(s =~= l1 + x1);
    lemma_expect_prefix(l1, x1);
    lemma_parse_role_token(m.role, x2);
    assert(x2 == l2 + (escape_seq(m.content) + (seq!['"'] + x4)));
    lemma_expect_prefix(l2, escape_seq(m.content) + (seq!['"'] + x4));
    assert(escape_seq(m.content) + (seq!['"'] + x4) =~= x3);
    lemma_parse_string_escape(m.content, x4);
    lemma_expect_prefix("}"@, rest);
    assert(MessageV { role: m.role, content: m.content } == m);
}

proof fn lemma_parse_messages_tail_inverts(ms: Seq<MessageV>, rest: Seq<char>)
    ensures
        spec_parse_messages_tail(encode_messages_tail_spec(ms) + seq![']'] + rest) == Some(
            (ms, rest),
        ),
    decreases ms.len(),
{
    reveal_strlit(",");
    reveal_strlit("{\"role\":\"");
    let s = encode_messages_tail_spec(ms) + seq![']'] + rest;
    if ms.len() == 0 {
        assert(s =~= seq![']'] + rest);
        assert(s[0] == ']');
        assert(s.drop_first() =~= rest);
        assert(ms =~= Seq::<MessageV>::empty());
    } else {
        let m0 = ms[0];
        let mt = ms.drop_first();
        let r1 = encode_messages_tail_spec(mt) + seq![']'] + rest;
        assert(s =~= ","@ + (encode_message_spec(m0) + r1));
        assert(s[0] == ',');
        assert(s[0] != ']');
        assert(s.drop_first() =~= encode_message_spec(m0) + r1);
        lemma_parse_message_inverts(m0, r1);
        assert(encode_message_spec(m0).len() >= "{\"role\":\""@.len());
        assert(r1.len() < s.len());
        lemma_parse_messages_tail_inverts(mt, rest);
        assert(seq![m0] + mt =~= ms);
    }
}

proof fn lemma_parse_messages_inverts(ms: Seq<MessageV>, rest: Seq<char>)
    ensures
        spec_parse_messages(encode_messages_spec(ms) + seq![']'] + rest) == Some((ms, rest)),
{
    reveal_strlit("{\"role\":\"");
    let s = encode_messages_spec(ms) + seq![']'] + rest;
    if ms.len() == 0 {
        assert(s =~= seq![']'] + rest);
        assert(s[0] == ']');
        assert(s.drop_first() =~= rest);
        assert(ms =~= Seq::<MessageV>::empty());
    } else {
        let m0 = ms[0];
        let mt = ms.drop_first();
        let r1 = encode_messages_tail_spec(mt) + seq![']'] + rest;
        assert(s =~= encode_message_spec(m0) + r1);
        assert(encode_message_spec(m0)[0] == '{');
        assert(s[0] == '{' && s[0] != ']');
        lemma_parse_message_inverts(m0, r1);
        assert(encode_message_spec(m0).len() >= "{\"role\":\""@.len());
        assert(r1.len() < s.len());
        lemma_parse_messages_tail_inverts(mt, rest);
        assert(seq![m0] + mt =~= ms);
    }
}

/// The round trip: any request value decoded from its own encoding comes back
/// unchanged, whatever the model name and message contents hold.
pub proof fn lemma_request_round_trip(r: RequestV)
    ensures
        spec_parse_request(encode_request_spec(r)) == Some(r),
{
    reveal_strlit("{\"model\":\"");
    reveal_strlit("\",\"messages\":[");
    reveal_strlit(",\"messages\":[");
    reveal_strlit("]}");
    reveal_strlit("}");
    let lm = "{\"model\":\""@;
    let l2 = "\",\"messages\":["@;
    let l3 = "]}"@;
    let lmsg = ",\"messages\":["@;
    let q = seq!['"'];
    let rb = seq![']'];
    let esc = escape_seq(r.model);
    let encm = encode_messages_spec(r.messages);
    let s = encode_request_spec(r);
    let x4 = "}"@;
    let x3 = encm + rb + x4;
    let x2 = lmsg + x3;
    let x1 = esc + q + x2;
    // split the two mixed literals at the quote and at the bracket
    assert(l2 =~= q + lmsg);
    assert(l3 =~= rb + x4);
    // regroup the encoding, one association at a time, into lm + x1
    assert(s == ((lm + esc + l2) + encm) + l3);
    seq_assoc(lm, esc, q + lmsg);
    assert(lm + esc + l2 == lm + (esc + (q + lmsg)));
    seq_assoc(lm, esc + (q + lmsg), encm);
    seq_assoc(lm, (esc + (q + lmsg)) + encm, l3);
    assert(s == lm + (((esc + (q + lmsg)) + encm) + l3));
    seq_assoc(esc, q + lmsg, encm);
    seq_assoc(esc, (q + lmsg) + encm, l3);
    assert(((esc + (q + lmsg)) + encm) + l3 == esc + (((q + lmsg) + encm) + l3));
    seq_assoc(q + lmsg, encm, l3);
    seq_assoc(q, lmsg, encm + l3);
    assert(((q + lmsg) + encm) + l3 == q + (lmsg + (encm + l3)));
    seq_assoc(encm, rb, x4);
    assert(encm + l3 == x3);
    seq_assoc(esc, q, x2);
    assert(s == lm + x1);
    // run the decoder down the regrouped shape
    lemma_expect_prefix(lm, x1);
    lemma_parse_string_escape(r.model, x2);
    lemma_expect_prefix(lmsg, x3);
    lemma_parse_messages_inverts(r.messages, x4);
    lemma_expect_prefix("}"@, Seq::empty());
    assert("}"@ + Seq::<char>::empty() =~= "}"@);
    assert(RequestV { model: r.model, messages: r.messages } == r);
}

// ---------------------------------------------------------------------------
// The executable encoder.
// ---------------------------------------------------------------------------

fn append_escaped(out: &mut String, s: &str)
    ensures
        final(out)@ == old(out)@ + escape_seq(s@),
{
    let n = s.unicode_len();
    let mut i: usize = 0;
    proof {
        assert(s@.take(0) =~= Seq::<char>::empty());
        assert(out@ + escape_seq(Seq::<char>::empty()) =~= out@);
    }
    while i < n
        invariant
            i <= n,
            n == s@.len(),
            out@ == old(out)@ + escape_seq(s@.take(i as int)),
        decreases n - i,
    {
        let ghost taken = s@.take(i as int);
        let c = s.get_char(i);
        if c == '"' {
            out.append("\\\"");
            proof {
                reveal_strlit("\\\"");
                assert("\\\""@ =~= escape_char(c));
            }
        } else if c == '\\' {
            out.append("\\\\");
            proof {
                reveal_strlit("\\\\");
                assert("\\\\"@ =~= escape_char(c));
            }
        } else if c == '\n' {
            out.append("\\n");
            proof {
                reveal_strlit("\\n");
                assert("\\n"@ =~= escape_char(c));
            }
        } else if c == '\r' {
            out.append("\\r");
            proof {
                reveal_strlit("\\r");
                assert("\\r"@ =~= escape_char(c));
            }
        } else if c == '\t' {
            out.append("\\t");
            proof {
                reveal_strlit("\\t");
                assert("\\t"@ =~= escape_char(c));
            }
        } else {
            push_char(out, c);
            proof {
                assert(out@ =~= (old(out)@ + escape_seq(taken)) + escape_char(c));
            }
        }
        proof {
            lemma_escape_snoc(taken, c);
            assert(taken.push(c) =~= s@.take(i as int + 1));
            assert((old(out)@ + escape_seq(taken)) + escape_char(c) =~= old(out)@ + (escape_seq(
                taken,
            ) + escape_char(c)));
        }
        i += 1;
    }
    proof {
        assert(s@.take(n as int) =~= s@);
    }
}

fn append_message(out: &mut String, m: &Message)
    ensures
        final(out)@ == old(out)@ + encode_message_spec(m@),
{
    let ghost base = out@;
    out.append("{\"role\":\"");
    match m.role {
        Role::System => out.append("system"),
        Role::User => out.append("user"),
        Role::Assistant => out.append("assistant"),
    }
    out.append("\",\"content\":\"");
    append_escaped(out, m.content.as_str());
    out.append("\"}");
    proof {
        assert(out@ =~= base + encode_message_spec(m@));
    }
}

/// Encodes a request as the JSON body sent to the completion endpoint.
pub fn encode_request(r: &Request) -> (out: String)
    ensures
        out@ == encode_request_spec(r@),
{
    let ghost msv = r.messages@.map_values(|m: Message| m@);
    let mut out = String::new();
    out.append("{\"model\":\"");
    append_escaped(&mut out, r.model.as_str());
    out.append("\",\"messages\":[");
    let ghost header = "{\"model\":\""@ + escape_seq(r.model@) + "\",\"messages\":["@;
    proof {
        assert(out@ =~= header);
        assert(msv.take(0) =~= Seq::<MessageV>::empty());
        assert(header + encode_messages_spec(msv.take(0)) =~= header);
    }
    let n = r.messages.len();
    let mut i: usize = 0;
    while i < n
        invariant
            i <= n,
            n == r.messages@.len(),
            msv == r.messages@.map_values(|m: Message| m@),
            msv.len() == n,
            out@ == header + encode_messages_spec(msv.take(i as int)),
        decreases n - i,
    {
        let ghost sofar = out@;
        let ghost taken = msv.take(i as int);
        if i > 0 {
            out.append(",");
        }
        append_message(&mut out, &r.messages[i]);
        proof {
            reveal_strlit(",");
            assert(r.messages@[i as int]@ == msv[i as int]);
            assert(taken.push(msv[i as int]) =~= msv.take(i as int + 1));
            lemma_encode_messages_snoc(taken, msv[i as int]);
            if i == 0 {
                assert(out@ =~= header + encode_messages_spec(msv.take(i as int + 1)));
            } else {
                assert((sofar + ","@) + encode_message_spec(msv[i as int]) =~= header + ((
                encode_messages_spec(taken) + ","@) + encode_message_spec(msv[i as int])));
            }
        }
        i += 1;
    }
    out.append("]}");
    proof {
        assert(msv.take(n as int) =~= msv);
        assert((header + encode_messages_spec(msv)) + "]}"@ =~= encode_request_spec(r@));
    }
    out
}

// ---------------------------------------------------------------------------
// The executable decoder.
// ---------------------------------------------------------------------------

fn expect_lit<'a>(s: &'a [char], lit: &str) -> (r: Option<&'a [char]>)
    ensures
        spec_expect(s@, lit@) is Some ==> r is Some && r->0@ == spec_expect(s@, lit@)->0,
        spec_expect(s@, lit@) is None ==> r is None,
{
    let n = lit.unicode_len();
    if n > s.len() {
        return None;
    }
    let mut i: usize = 0;
    while i < n
        invariant
            i <= n,
            n == lit@.len(),
            n <= s@.len(),
            forall|j: int| 0 <= j < i ==> s@[j] == lit@[j],
        decreases n - i,
    {
        if *slice_index_get(s, i) != lit.get_char(i) {
            proof {
                assert(s@.subrange(0, n as int)[i as int] == s@[i as int]);
            }
            return None;
        }
        i += 1;
    }
    proof {
        assert(s@.subrange(0, n as int) =~= lit@);
    }
    Some(slice_subrange(s, n, s.len()))
}

fn unescape_char_exec(c: char) -> (r: Option<char>)
    ensures
        r == unescape_char(c),
{
    if c == '"' {
        Some('"')
    } else if c == '\\' {
        Some('\\')
    } else if c == '/' {
        Some('/')
    } else if c == 'n' {
        Some('\n')
    } else if c == 'r' {
        Some('\r')
    } else if c == 't' {
        Some('\t')
    } else if c == 'b' {
        Some('\u{0008}')
    } else if c == 'f' {
        Some('\u{000C}')
    } else {
        None
    }
}

fn parse_string_exec<'a>(s: &'a [char]) -> (r: Option<(String, &'a [char])>)
    ensures
        spec_parse_string(s@) is Some ==> r is Some && (r->0).0@ == (spec_parse_string(s@)->0).0
            && (r->0).1@ == (spec_parse_string(s@)->0).1,
        spec_parse_string(s@) is None ==> r is None,
{
    let mut acc = String::new();
    let mut cur: &[char] = s;
    loop
        invariant
            spec_parse_string(s@) == (match spec_parse_string(cur@) {
                Some(p) => Some((acc@ + p.0, p.1)),
                None => None::<(Seq<char>, Seq<char>)>,
            }),
        decreases cur@.len(),
    {
        if cur.len() == 0 {
            return None;
        }
        let c0 = *slice_index_get(cur, 0);
        if c0 == '"' {
            let rest = slice_subrange(cur, 1, cur.len());
            proof {
                assert(rest@ =~= cur@.drop_first());
                assert(acc@ + Seq::<char>::empty() =~= acc@);
            }
            return Some((acc, rest));
        } else if c0 == '\\' {
            if cur.len() < 2 {
                return None;
            }
            match unescape_char_exec(*slice_index_get(cur, 1)) {
                Some(c) => {
                    let ghost acc0 = acc@;
                    let ghost cur0 = cur@;
                    push_char(&mut acc, c);
                    cur = slice_subrange(cur, 2, cur.len());
                    proof {
                        assert(cur@ =~= cur0.skip(2));
                        let inner = spec_parse_string(cur@);
                        if inner is Some {
                            assert(acc0 + (seq![c] + (inner->0).0) =~= acc@ + (inner->0).0);
                        }
                    }
                },
                None => {
                    return None;
                },
            }
        } else {
            let ghost acc0 = acc@;
            let ghost cur0 = cur@;
            push_char(&mut acc, c0);
            cur = slice_subrange(cur, 1, cur.len());
            proof {
                assert(cur@ =~= cur0.drop_first());
                let inner = spec_parse_string(cur@);
                if inner is Some {
                    assert(acc0 + (seq![c0] + (inner->0).0) =~= acc@ + (inner->0).0);
                }
            }
        }
    }
}

fn parse_role_exec<'a>(s: &'a [char]) -> (r: Option<(Role, &'a [char])>)
    ensures
        spec_parse_role(s@) is Some ==> r is Some && (r->0).0 == (spec_parse_role(s@)->0).0 && (
        r->0).1@ == (spec_parse_role(s@)->0).1,
        spec_parse_role(s@) is None ==> r is None,
{
    match expect_lit(s, "system") {
        Some(rest) => {
            return Some((Role::System, rest));
        },
        None => {},
    }
    match expect_lit(s, "user") {
        Some(rest) => {
            return Some((Role::User, rest));
        },
        None => {},
    }
    match expect_lit(s, "assistant") {
        Some(rest) => {
            return Some((Role::Assistant, rest));
        },
        None => {},
    }
    None
}

fn parse_message_exec<'a>(s: &'a [char]) -> (r: Option<(Message, &'a [char])>)
    ensures
        spec_parse_message(s@) is Some ==> r is Some && (r->0).0@ == (spec_parse_message(
            s@,
        )->0).0 && (r->0).1@ == (spec_parse_message(s@)->0).1,
        spec_parse_message(s@) is None ==> r is None,
{
    let s1 = match expect_lit(s, "{\"role\":\"") {
        Some(t) => t,
        None => {
            return None;
        },
    };
    let (role, s2) = match parse_role_exec(s1) {
        Some(p) => p,
        None => {
            return None;
        },
    };
    let s3 = match expect_lit(s2, "\",\"content\":\"") {
        Some(t) => t,
        None => {
            return None;
        },
    };
    let (content, s4) = match parse_string_exec(s3) {
        Some(p) => p,
        None => {
            return None;
        },
    };
    let s5 = match expect_lit(s4, "}") {
        Some(t) => t,
        None => {
            return None;
        },
    };
    Some((Message { role, content }, s5))
}

fn parse_messages_exec<'a>(s: &'a [char]) -> (r: Option<(Vec<Message>, &'a [char])>)
    ensures
        spec_parse_messages(s@) is Some ==> r is Some && (r->0).0@.map_values(|m: Message| m@)
            == (spec_parse_messages(s@)->0).0 && (r->0).1@ == (spec_parse_messages(s@)->0).1,
        spec_parse_messages(s@) is None ==> r is None,
{
    if s.len() == 0 {
        return None;
    }
    let c0 = *slice_index_get(s, 0);
    if c0 == ']' {
        let rest = slice_subrange(s, 1, s.len());
        let empty: Vec<Message> = Vec::new();
        proof {
            assert(rest@ =~= s@.drop_first());
            assert(empty@.map_values(|m: Message| m@) =~= Seq::<MessageV>::empty());
        }
        return Some((empty, rest));
    }
    let (m0, r0) = match parse_message_exec(s) {
        Some(p) => p,
        None => {
            return None;
        },
    };
    if !(r0.len() < s.len()) {
        return None;
    }
    let mut msgs: Vec<Message> = Vec::new();
    msgs.push(m0);
    let mut cur: &[char] = r0;
    proof {
        assert(msgs@.map_values(|m: Message| m@) =~= seq![m0@]);
    }
    loop
        invariant
            spec_parse_messages(s@) == (match spec_parse_messages_tail(cur@) {
                Some(p) => Some((msgs@.map_values(|m: Message| m@) + p.0, p.1)),
                None => None::<(Seq<MessageV>, Seq<char>)>,
            }),
        decreases cur@.len(),
    {
        if cur.len() == 0 {
            return None;
        }
        let c = *slice_index_get(cur, 0);
        if c == ']' {
            let rest = slice_subrange(cur, 1, cur.len());
            proof {
                assert(rest@ =~= cur@.drop_first());
                assert(msgs@.map_values(|m: Message| m@) + Seq::<MessageV>::empty()
                    =~= msgs@.map_values(|m: Message| m@));
            }
            return Some((msgs, rest));
        }
        if c != ',' {
            return None;
        }
        let tail = slice_subrange(cur, 1, cur.len());
        proof {
            assert(tail@ =~= cur@.drop_first());
        }
        let (m, r2) = match parse_message_exec(tail) {
            Some(p) => p,
            None => {
                return None;
            },
        };
        if !(r2.len() < cur.len()) {
            return None;
        }
        let ghost mapped0 = msgs@.map_values(|m2: Message| m2@);
        msgs.push(m);
        proof {
            assert(msgs@.map_values(|m2: Message| m2@) =~= mapped0.push(m@));
            let inner = spec_parse_messages_tail(r2@);
            if inner is Some {
                assert(mapped0 + (seq![m@] + (inner->0).0) =~= mapped0.push(m@) + (inner->0).0);
            }
        }
        cur = r2;
    }
}

/// Decodes a request body; `None` exactly when the text is not a request of
/// the grammar.
pub fn decode_request(s: &str) -> (r: Option<Request>)
    ensures
        spec_parse_request(s@) is Some ==> r is Some && r->0@ == spec_parse_request(s@)->0,
        spec_parse_request(s@) is None ==> r is None,
{
    let chars = chars_of(s);
    let sl: &[char] = chars.as_slice();
    let s1 = match expect_lit(sl, "{\"model\":\"") {
        Some(t) => t,
        None => {
            return None;
        },
    };
    let (model, s2) = match parse_string_exec(s1) {
        Some(p) => p,
        None => {
            return None;
        },
    };
    let s3 = match expect_lit(s2, ",\"messages\":[") {
        Some(t) => t,
        None => {
            return None;
        },
    };
    let (messages, s4) = match parse_messages_exec(s3) {
        Some(p) => p,
        None => {
            return None;
        },
    };
    let s5 = match expect_lit(s4, "}") {
        Some(t) => t,
        None => {
            return None;
        },
    };
    if s5.len() != 0 {
        return None;
    }
    Some(Request { model, messages })
}

fn parse_u64_exec<'a>(s: &'a [char]) -> (r: Option<(u64, &'a [char])>)
    ensures
        spec_parse_u64(s@) is Some ==> r is Some && (r->0).0 == (spec_parse_u64(s@)->0).0 && (
        r->0).1@ == (spec_parse_u64(s@)->0).1,
        spec_parse_u64(s@) is None ==> r is None,
{
    if s.len() == 0 {
        return None;
    }
    let c0 = *slice_index_get(s, 0);
    if !('0' <= c0 && c0 <= '9') {
        return None;
    }
    let mut acc: u64 = 0;
    let mut cur: &[char] = s;
    loop
        invariant
            spec_parse_u64_loop(s@, 0) == spec_parse_u64_loop(cur@, acc as int),
            s@.len() > 0 && is_digit(s@[0]),
        decreases cur@.len(),
    {
        if cur.len() == 0 {
            return Some((acc, cur));
        }
        let c = *slice_index_get(cur, 0);
        if '0' <= c && c <= '9' {
            let d: u64 = (c as u32 - '0' as u32) as u64;
            proof {
                assert(d == digit_val(c));
            }
            if acc > u64::MAX / 10 || (acc == u64::MAX / 10 && d > u64::MAX % 10) {
                proof {
                    assert(acc as int * 10 + digit_val(c) > u64::MAX);
                }
                return None;
            }
            proof {
                assert(acc as int * 10 + digit_val(c) <= u64::MAX);
            }
            let ghost cur0 = cur@;
            acc = acc * 10 + d;
            cur = slice_subrange(cur, 1, cur.len());
            proof {
                assert(cur@ =~= cur0.drop_first());
            }
        } else {
            return Some((acc, cur));
        }
    }
}

fn parse_i64_exec<'a>(s: &'a [char]) -> (r: Option<(i64, &'a [char])>)
    ensures
        spec_parse_i64(s@) is Some ==> r is Some && (r->0).0 == (spec_parse_i64(s@)->0).0 && (
        r->0).1@ == (spec_parse_i64(s@)->0).1,
        spec_parse_i64(s@) is None ==> r is None,
{
    if s.len() > 0 && *slice_index_get(s, 0) == '-' {
        let rest = slice_subrange(s, 1, s.len());
        proof {
            assert(rest@ =~= s@.drop_first());
        }
        match parse_u64_exec(rest) {
            Some((v, r)) => {
                if v <= 9223372036854775808u64 {
                    let x: i64 = if v == 9223372036854775808u64 {
                        i64::MIN
                    } else {
                        -(v as i64)
                    };
                    proof {
                        assert(x as int == 0 - v as int);
                    }
                    Some((x, r))
                } else {
                    None
                }
            },
            None => None,
        }
    } else {
        match parse_u64_exec(s) {
            Some((v, r)) => {
                if v <= 9223372036854775807u64 {
                    Some((v as i64, r))
                } else {
                    None
                }
            },
            None => None,
        }
    }
}

fn parse_usize_exec<'a>(s: &'a [char]) -> (r: Option<(usize, &'a [char])>)
    ensures
        spec_parse_usize(s@) is Some ==> r is Some && (r->0).0 == (spec_parse_usize(s@)->0).0
            && (r->0).1@ == (spec_parse_usize(s@)->0).1,
        spec_parse_usize(s@) is None ==> r is None,
{
    match parse_u64_exec(s) {
        Some((v, r)) => {
            if v <= usize::MAX as u64 {
                Some((v as usize, r))
            } else {
                None
            }
        },
        None => None,
    }
}

fn parse_opt_string_exec<'a>(s: &'a [char]) -> (r: Option<(Option<String>, &'a [char])>)
    ensures
        spec_parse_opt_string(s@) is Some ==> r is Some && (match (r->0).0 {
            Some(t) => (spec_parse_opt_string(s@)->0).0 is Some && t@ == (spec_parse_opt_string(
                s@,
            )->0).0->0,
            None => (spec_parse_opt_string(s@)->0).0 is None,
        }) && (r->0).1@ == (spec_parse_opt_string(s@)->0).1,
        spec_parse_opt_string(s@) is None ==> r is None,
{
    match expect_lit(s, "null") {
        Some(rest) => {
            return Some((None, rest));
        },
        None => {},
    }
    if s.len() > 0 && *slice_index_get(s, 0) == '"' {
        let tail = slice_subrange(s, 1, s.len());
        proof {
            assert(tail@ =~= s@.drop_first());
        }
        match parse_string_exec(tail) {
            Some((t, r)) => Some((Some(t), r)),
            None => None,
        }
    } else {
        None
    }
}

fn drop1<'a>(s: &'a [char]) -> (r: &'a [char])
    requires
        s@.len() >= 1,
    ensures
        r@ == s@.drop_first(),
{
    let r = slice_subrange(s, 1, s.len());
    proof {
        assert(r@ =~= s@.drop_first());
    }
    r
}

fn skip_ws_exec<'a>(s: &'a [char]) -> (r: &'a [char])
    ensures
        r@ == spec_skip_ws(s@),
        r@.len() <= s@.len(),
{
    let mut cur = s;
    loop
        invariant
            spec_skip_ws(s@) == spec_skip_ws(cur@),
            cur@.len() <= s@.len(),
        decreases cur@.len(),
    {
        if cur.len() == 0 {
            return cur;
        }
        let c = *slice_index_get(cur, 0);
        if c == ' ' || c == '\t' || c == '\n' || c == '\r' {
            cur = drop1(cur);
        } else {
            return cur;
        }
    }
}

fn skip_digits_exec<'a>(s: &'a [char]) -> (r: &'a [char])
    ensures
        r@ == spec_skip_digits(s@),
        r@.len() <= s@.len(),
{
    let mut cur = s;
    loop
        invariant
            spec_skip_digits(s@) == spec_skip_digits(cur@),
            cur@.len() <= s@.len(),
        decreases cur@.len(),
    {
        if cur.len() == 0 {
            return cur;
        }
        let c = *slice_index_get(cur, 0);
        if '0' <= c && c <= '9' {
            cur = drop1(cur);
        } else {
            return cur;
        }
    }
}

fn skip_number_exec<'a>(s: &'a [char]) -> (r: Option<&'a [char]>)
    ensures
        spec_skip_number(s@) is Some ==> r is Some && r->0@ == spec_skip_number(s@)->0,
        spec_skip_number(s@) is None ==> r is None,
{
    let s1 = if s.len() > 0 && *slice_index_get(s, 0) == '-' {
        drop1(s)
    } else {
        s
    };
    if s1.len() == 0 {
        return None;
    }
    let d0 = *slice_index_get(s1, 0);
    if !('0' <= d0 && d0 <= '9') {
        return None;
    }
    let s2 = skip_digits_exec(s1);
    let s3: &[char];
    if s2.len() > 0 && *slice_index_get(s2, 0) == '.' {
        if s2.len() > 1 {
            let d = *slice_index_get(s2, 1);
            if '0' <= d && d <= '9' {
                s3 = skip_digits_exec(drop1(s2));
            } else {
                return None;
            }
        } else {
            return None;
        }
    } else {
        s3 = s2;
    }
    if s3.len() == 0 {
        return Some(s3);
    }
    let e = *slice_index_get(s3, 0);
    if !(e == 'e' || e == 'E') {
        return Some(s3);
    }
    let t1 = drop1(s3);
    let t2: &[char];
    if t1.len() > 0 {
        let sg = *slice_index_get(t1, 0);
        if sg == '+' || sg == '-' {
            t2 = drop1(t1);
        } else {
            t2 = t1;
        }
    } else {
        t2 = t1;
    }
    if t2.len() == 0 {
        return None;
    }
    let d = *slice_index_get(t2, 0);
    if '0' <= d && d <= '9' {
        Some(skip_digits_exec(t2))
    } else {
        None
    }
}

fn skip_value_exec<'a>(s: &'a [char]) -> (r: Option<&'a [char]>)
    ensures
        spec_skip_value(s@) is Some ==> r is Some && r->0@ == spec_skip_value(s@)->0,
        spec_skip_value(s@) is None ==> r is None,
    decreases s@.len(), 0int,
{
    if s.len() == 0 {
        return None;
    }
    let c0 = *slice_index_get(s, 0);
    if c0 == '"' {
        match parse_string_exec(drop1(s)) {
            Some((_t, r)) => Some(r),
            None => None,
        }
    } else if c0 == '[' {
        let t = skip_ws_exec(drop1(s));
        if !(t.len() < s.len()) {
            return None;
        }
        if t.len() > 0 && *slice_index_get(t, 0) == ']' {
            Some(drop1(t))
        } else {
            skip_array_items_exec(t)
        }
    } else if c0 == '{' {
        let t = skip_ws_exec(drop1(s));
        if !(t.len() < s.len()) {
            return None;
        }
        if t.len() > 0 && *slice_index_get(t, 0) == '}' {
            Some(drop1(t))
        } else {
            skip_object_members_exec(t)
        }
    } else if c0 == 't' {
        expect_lit(s, "true")
    } else if c0 == 'f' {
        expect_lit(s, "false")
    } else if c0 == 'n' {
        expect_lit(s, "null")
    } else {
        skip_number_exec(s)
    }
}

fn skip_array_items_exec<'a>(s: &'a [char]) -> (r: Option<&'a [char]>)
    ensures
        spec_skip_array_items(s@) is Some ==> r is Some && r->0@ == spec_skip_array_items(s@)->0,
        spec_skip_array_items(s@) is None ==> r is None,
    decreases s@.len(), 1int,
{
    let r0 = match skip_value_exec(s) {
        Some(x) => x,
        None => {
            return None;
        },
    };
    let t = skip_ws_exec(r0);
    if t.len() == 0 {
        return None;
    }
    let c = *slice_index_get(t, 0);
    if c == ']' {
        Some(drop1(t))
    } else if c == ',' {
        let u = skip_ws_exec(drop1(t));
        if u.len() < s.len() {
            skip_array_items_exec(u)
        } else {
            None
        }
    } else {
        None
    }
}

fn skip_object_members_exec<'a>(s: &'a [char]) -> (r: Option<&'a [char]>)
    ensures
        spec_skip_object_members(s@) is Some ==> r is Some && r->0@ == spec_skip_object_members(
            s@,
        )->0,
        spec_skip_object_members(s@) is None ==> r is None,
    decreases s@.len(), 1int,
{
    if !(s.len() > 0 && *slice_index_get(s, 0) == '"') {
        return None;
    }
    let (_key, r1) = match parse_string_exec(drop1(s)) {
        Some(p) => p,
        None => {
            return None;
        },
    };
    let t = skip_ws_exec(r1);
    if !(t.len() > 0 && *slice_index_get(t, 0) == ':') {
        return None;
    }
    let u = skip_ws_exec(drop1(t));
    if !(u.len() < s.len()) {
        return None;
    }
    let r2 = match skip_value_exec(u) {
        Some(x) => x,
        None => {
            return None;
        },
    };
    let w = skip_ws_exec(r2);
    if w.len() == 0 {
        return None;
    }
    let c = *slice_index_get(w, 0);
    if c == '}' {
        Some(drop1(w))
    } else if c == ',' {
        let x = skip_ws_exec(drop1(w));
        if x.len() < s.len() {
            skip_object_members_exec(x)
        } else {
            None
        }
    } else {
        None
    }
}

fn parse_quoted_exec<'a>(s: &'a [char]) -> (r: Option<(String, &'a [char])>)
    ensures
        spec_parse_quoted(s@) is Some ==> r is Some && (r->0).0@ == (spec_parse_quoted(s@)->0).0
            && (r->0).1@ == (spec_parse_quoted(s@)->0).1,
        spec_parse_quoted(s@) is None ==> r is None,
{
    if s.len() > 0 && *slice_index_get(s, 0) == '"' {
        parse_string_exec(drop1(s))
    } else {
        None
    }
}

spec fn view_opt_str(o: Option<String>) -> Option<Seq<char>> {
    match o {
        Some(s) => Some(s@),
        None => None,
    }
}

spec fn view_opt_opt_str(o: Option<Option<String>>) -> Option<Option<Seq<char>>> {
    match o {
        Some(Some(s)) => Some(Some(s@)),
        Some(None) => Some(None),
        None => None,
    }
}

fn message_members_exec<'a>(
    s: &'a [char],
    role: Option<Role>,
    content: Option<String>,
) -> (r: Option<(Option<Role>, Option<String>, &'a [char])>)
    ensures
        ({
            let out = spec_message_members(
                s@,
                MessageAcc { role, content: view_opt_str(content) },
            );
            &&& out is Some ==> r is Some && (r->0).0 == (out->0).0.role && view_opt_str(
                (r->0).1,
            ) == (out->0).0.content && (r->0).2@ == (out->0).1
            &&& out is None ==> r is None
        }),
    decreases s@.len(),
{
    if !(s.len() > 0 && *slice_index_get(s, 0) == '"') {
        return None;
    }
    let (key, r1) = match parse_string_exec(drop1(s)) {
        Some(p) => p,
        None => {
            return None;
        },
    };
    let t = skip_ws_exec(r1);
    if !(t.len() > 0 && *slice_index_get(t, 0) == ':') {
        return None;
    }
    let u = skip_ws_exec(drop1(t));
    if !(u.len() < s.len()) {
        return None;
    }
    let role2: Option<Role>;
    let content2: Option<String>;
    let r2: &[char];
    if str_eq(key.as_str(), "role") {
        if role.is_some() {
            return None;
        }
        let (v, rr) = match parse_quoted_exec(u) {
            Some(p) => p,
            None => {
                return None;
            },
        };
        if str_eq(v.as_str(), "system") {
            role2 = Some(Role::System);
        } else if str_eq(v.as_str(), "user") {
            role2 = Some(Role::User);
        } else if str_eq(v.as_str(), "assistant") {
            role2 = Some(Role::Assistant);
        } else {
            return None;
        }
        content2 = content;
        r2 = rr;
    } else if str_eq(key.as_str(), "content") {
        if content.is_some() {
            return None;
        }
        let (v, rr) = match parse_quoted_exec(u) {
            Some(p) => p,
            None => {
                return None;
            },
        };
        role2 = role;
        content2 = Some(v);
        r2 = rr;
    } else {
        let rr = match skip_value_exec(u) {
            Some(x) => x,
            None => {
                return None;
            },
        };
        role2 = role;
        content2 = content;
        r2 = rr;
    }
    let w = skip_ws_exec(r2);
    if w.len() == 0 {
        return None;
    }
    let c = *slice_index_get(w, 0);
    if c == '}' {
        Some((role2, content2, drop1(w)))
    } else if c == ',' {
        let x = skip_ws_exec(drop1(w));
        if x.len() < s.len() {
            message_members_exec(x, role2, content2)
        } else {
            None
        }
    } else {
        None
    }
}

fn parse_message_obj_exec<'a>(s: &'a [char]) -> (r: Option<(Message, &'a [char])>)
    ensures
        spec_parse_message_obj(s@) is Some ==> r is Some && (r->0).0@ == (spec_parse_message_obj(
            s@,
        )->0).0 && (r->0).1@ == (spec_parse_message_obj(s@)->0).1,
        spec_parse_message_obj(s@) is None ==> r is None,
{
    if !(s.len() > 0 && *slice_index_get(s, 0) == '{') {
        return None;
    }
    let t = skip_ws_exec(drop1(s));
    if !(t.len() < s.len()) {
        return None;
    }
    if t.len() > 0 && *slice_index_get(t, 0) == '}' {
        return None;
    }
    match message_members_exec(t, None, None) {
        Some((Some(role), Some(content), rest)) => Some((Message { role, content }, rest)),
        Some(_) => None,
        None => None,
    }
}

fn usage_members_exec<'a>(
    s: &'a [char],
    p: Option<usize>,
    c: Option<usize>,
    tt: Option<usize>,
) -> (r: Option<(Option<usize>, Option<usize>, Option<usize>, &'a [char])>)
    ensures
        ({
            let out = spec_usage_members(
                s@,
                UsageAcc { prompt_tokens: p, completion_tokens: c, total_tokens: tt },
            );
            &&& out is Some ==> r is Some && (r->0).0 == (out->0).0.prompt_tokens && (r->0).1
                == (out->0).0.completion_tokens && (r->0).2 == (out->0).0.total_tokens && (
            r->0).3@ == (out->0).1
            &&& out is None ==> r is None
        }),
    decreases s@.len(),
{
    if !(s.len() > 0 && *slice_index_get(s, 0) == '"') {
        return None;
    }
    let (key, r1) = match parse_string_exec(drop1(s)) {
        Some(x) => x,
        None => {
            return None;
        },
    };
    let t = skip_ws_exec(r1);
    if !(t.len() > 0 && *slice_index_get(t, 0) == ':') {
        return None;
    }
    let u = skip_ws_exec(drop1(t));
    if !(u.len() < s.len()) {
        return None;
    }
    let p2: Option<usize>;
    let c2: Option<usize>;
    let t2: Option<usize>;
    let r2: &[char];
    if str_eq(key.as_str(), "prompt_tokens") {
        if p.is_some() {
            return None;
        }
        let (v, rr) = match parse_usize_exec(u) {
            Some(x) => x,
            None => {
                return None;
            },
        };
        p2 = Some(v);
        c2 = c;
        t2 = tt;
        r2 = rr;
    } else if str_eq(key.as_str(), "completion_tokens") {
        if c.is_some() {
            return None;
        }
        let (v, rr) = match parse_usize_exec(u) {
            Some(x) => x,
            None => {
                return None;
            },
        };
        p2 = p;
        c2 = Some(v);
        t2 = tt;
        r2 = rr;
    } else if str_eq(key.as_str(), "total_tokens") {
        if tt.is_some() {
            return None;
        }
        let (v, rr) = match parse_usize_exec(u) {
            Some(x) => x,
            None => {
                return None;
            },
        };
        p2 = p;
        c2 = c;
        t2 = Some(v);
        r2 = rr;
    } else {
        let rr = match skip_value_exec(u) {
            Some(x) => x,
            None => {
                return None;
            },
        };
        p2 = p;
        c2 = c;
        t2 = tt;
        r2 = rr;
    }
    let w = skip_ws_exec(r2);
    if w.len() == 0 {
        return None;
    }
    let ch = *slice_index_get(w, 0);
    if ch == '}' {
        Some((p2, c2, t2, drop1(w)))
    } else if ch == ',' {
        let x = skip_ws_exec(drop1(w));
        if x.len() < s.len() {
            usage_members_exec(x, p2, c2, t2)
        } else {
            None
        }
    } else {
        None
    }
}

fn parse_usage_obj_exec<'a>(s: &'a [char]) -> (r: Option<(Usage, &'a [char])>)
    ensures
        spec_parse_usage_obj(s@) is Some ==> r is Some && (r->0).0 == (spec_parse_usage_obj(
            s@,
        )->0).0 && (r->0).1@ == (spec_parse_usage_obj(s@)->0).1,
        spec_parse_usage_obj(s@) is None ==> r is None,
{
    if !(s.len() > 0 && *slice_index_get(s, 0) == '{') {
        return None;
    }
    let t = skip_ws_exec(drop1(s));
    if !(t.len() < s.len()) {
        return None;
    }
    if t.len() > 0 && *slice_index_get(t, 0) == '}' {
        return None;
    }
    match usage_members_exec(t, None, None, None) {
        Some((Some(p), Some(c), Some(tt), rest)) => Some(
            (Usage { prompt_tokens: p, completion_tokens: c, total_tokens: tt }, rest),
        ),
        Some(_) => None,
        None => None,
    }
}

fn choice_members_exec<'a>(
    s: &'a [char],
    message: Option<Message>,
    finish_reason: Option<String>,
    index: Option<i64>,
) -> (r: Option<(Option<Message>, Option<String>, Option<i64>, &'a [char])>)
    ensures
        ({
            let out = spec_choice_members(
                s@,
                ChoiceAcc {
                    message: match message {
                        Some(m) => Some(m@),
                        None => None,
                    },
                    finish_reason: view_opt_str(finish_reason),
                    index,
                },
            );
            &&& out is Some ==> r is Some && (match (r->0).0 {
                Some(m) => (out->0).0.message == Some(m@),
                None => (out->0).0.message is None,
            }) && view_opt_str((r->0).1) == (out->0).0.finish_reason && (r->0).2 == (
            out->0).0.index && (r->0).3@ == (out->0).1
            &&& out is None ==> r is None
        }),
    decreases s@.len(),
{
    if !(s.len() > 0 && *slice_index_get(s, 0) == '"') {
        return None;
    }
    let (key, r1) = match parse_string_exec(drop1(s)) {
        Some(x) => x,
        None => {
            return None;
        },
    };
    let t = skip_ws_exec(r1);
    if !(t.len() > 0 && *slice_index_get(t, 0) == ':') {
        return None;
    }
    let u = skip_ws_exec(drop1(t));
    if !(u.len() < s.len()) {
        return None;
    }
    let m2: Option<Message>;
    let f2: Option<String>;
    let i2: Option<i64>;
    let r2: &[char];
    if str_eq(key.as_str(), "message") {
        if message.is_some() {
            return None;
        }
        let (v, rr) = match parse_message_obj_exec(u) {
            Some(x) => x,
            None => {
                return None;
            },
        };
        m2 = Some(v);
        f2 = finish_reason;
        i2 = index;
        r2 = rr;
    } else if str_eq(key.as_str(), "finish_reason") {
        if finish_reason.is_some() {
            return None;
        }
        let (v, rr) = match parse_quoted_exec(u) {
            Some(x) => x,
            None => {
                return None;
            },
        };
        m2 = message;
        f2 = Some(v);
        i2 = index;
        r2 = rr;
    } else if str_eq(key.as_str(), "index") {
        if index.is_some() {
            return None;
        }
        let (v, rr) = match parse_i64_exec(u) {
            Some(x) => x,
            None => {
                return None;
            },
        };
        m2 = message;
        f2 = finish_reason;
        i2 = Some(v);
        r2 = rr;
    } else {
        let rr = match skip_value_exec(u) {
            Some(x) => x,
            None => {
                return None;
            },
        };
        m2 = message;
        f2 = finish_reason;
        i2 = index;
        r2 = rr;
    }
    let w = skip_ws_exec(r2);
    if w.len() == 0 {
        return None;
    }
    let ch = *slice_index_get(w, 0);
    if ch == '}' {
        Some((m2, f2, i2, drop1(w)))
    } else if ch == ',' {
        let x = skip_ws_exec(drop1(w));
        if x.len() < s.len() {
            choice_members_exec(x, m2, f2, i2)
        } else {
            None
        }
    } else {
        None
    }
}

fn parse_choice_obj_exec<'a>(s: &'a [char]) -> (r: Option<(Choice, &'a [char])>)
    ensures
        spec_parse_choice_obj(s@) is Some ==> r is Some && (r->0).0@ == (spec_parse_choice_obj(
            s@,
        )->0).0 && (r->0).1@ == (spec_parse_choice_obj(s@)->0).1,
        spec_parse_choice_obj(s@) is None ==> r is None,
{
    if !(s.len() > 0 && *slice_index_get(s, 0) == '{') {
        return None;
    }
    let t = skip_ws_exec(drop1(s));
    if !(t.len() < s.len()) {
        return None;
    }
    if t.len() > 0 && *slice_index_get(t, 0) == '}' {
        return None;
    }
    match choice_members_exec(t, None, None, None) {
        Some((Some(message), Some(finish_reason), Some(index), rest)) => Some(
            (Choice { message, finish_reason, index }, rest),
        ),
        Some(_) => None,
        None => None,
    }
}

fn choices_items_exec<'a>(s: &'a [char], acc: Vec<Choice>) -> (r: Option<(Vec<Choice>, &'a [char])>)
    ensures
        ({
            let out = spec_choices_items(s@, acc@.map_values(|c: Choice| c@));
            &&& out is Some ==> r is Some && (r->0).0@.map_values(|c: Choice| c@) == (out->0).0
                && (r->0).1@ == (out->0).1
            &&& out is None ==> r is None
        }),
    decreases s@.len(),
{
    let (c, r0) = match parse_choice_obj_exec(s) {
        Some(x) => x,
        None => {
            return None;
        },
    };
    let t = skip_ws_exec(r0);
    if t.len() == 0 {
        return None;
    }
    let ghost mapped0 = acc@.map_values(|c2: Choice| c2@);
    let mut acc2 = acc;
    acc2.push(c);
    proof {
        assert(acc2@.map_values(|c2: Choice| c2@) =~= mapped0.push(c@));
    }
    let ch = *slice_index_get(t, 0);
    if ch == ']' {
        Some((acc2, drop1(t)))
    } else if ch == ',' {
        let u = skip_ws_exec(drop1(t));
        if u.len() < s.len() {
            choices_items_exec(u, acc2)
        } else {
            None
        }
    } else {
        None
    }
}

fn parse_choices_arr_exec<'a>(s: &'a [char]) -> (r: Option<(Vec<Choice>, &'a [char])>)
    ensures
        ({
            let out = spec_parse_choices_arr(s@);
            &&& out is Some ==> r is Some && (r->0).0@.map_values(|c: Choice| c@) == (out->0).0
                && (r->0).1@ == (out->0).1
            &&& out is None ==> r is None
        }),
{
    if !(s.len() > 0 && *slice_index_get(s, 0) == '[') {
        return None;
    }
    let t = skip_ws_exec(drop1(s));
    if !(t.len() < s.len()) {
        return None;
    }
    if t.len() > 0 && *slice_index_get(t, 0) == ']' {
        let empty: Vec<Choice> = Vec::new();
        proof {
            assert(empty@.map_values(|c: Choice| c@) =~= Seq::<ChoiceV>::empty());
        }
        return Some((empty, drop1(t)));
    }
    let start: Vec<Choice> = Vec::new();
    proof {
        assert(start@.map_values(|c: Choice| c@) =~= Seq::<ChoiceV>::empty());
    }
    choices_items_exec(t, start)
}

spec fn view_opt_choices(o: Option<Vec<Choice>>) -> Option<Seq<ChoiceV>> {
    match o {
        Some(v) => Some(v@.map_values(|c: Choice| c@)),
        None => None,
    }
}

fn response_members_exec<'a>(
    s: &'a [char],
    id: Option<String>,
    object: Option<String>,
    created: Option<i64>,
    model: Option<String>,
    choices: Option<Vec<Choice>>,
    usage: Option<Option<Usage>>,
) -> (r: Option<
    (
        Option<String>,
        Option<String>,
        Option<i64>,
        Option<String>,
        Option<Vec<Choice>>,
        Option<Option<Usage>>,
        &'a [char],
    ),
>)
    ensures
        ({
            let out = spec_response_members(
                s@,
                ResponseAcc {
                    id: view_opt_str(id),
                    object: view_opt_str(object),
                    created,
                    model: view_opt_str(model),
                    choices: view_opt_choices(choices),
                    usage,
                },
            );
            &&& out is Some ==> r is Some && view_opt_str((r->0).0) == (out->0).0.id
                && view_opt_str((r->0).1) == (out->0).0.object && (r->0).2 == (
            out->0).0.created && view_opt_str((r->0).3) == (out->0).0.model && view_opt_choices(
                (r->0).4,
            ) == (out->0).0.choices && (r->0).5 == (out->0).0.usage && (r->0).6@ == (out->0).1
            &&& out is None ==> r is None
        }),
    decreases s@.len(),
{
    if !(s.len() > 0 && *slice_index_get(s, 0) == '"') {
        return None;
    }
    let (key, r1) = match parse_string_exec(drop1(s)) {
        Some(x) => x,
        None => {
            return None;
        },
    };
    let t = skip_ws_exec(r1);
    if !(t.len() > 0 && *slice_index_get(t, 0) == ':') {
        return None;
    }
    let u = skip_ws_exec(drop1(t));
    if !(u.len() < s.len()) {
        return None;
    }
    let mut id2 = id;
    let mut object2 = object;
    let mut created2 = created;
    let mut model2 = model;
    let mut choices2 = choices;
    let mut usage2 = usage;
    let r2: &[char];
    if str_eq(key.as_str(), "id") {
        if id2.is_some() {
            return None;
        }
        let (v, rr) = match parse_quoted_exec(u) {
            Some(x) => x,
            None => {
                return None;
            },
        };
        id2 = Some(v);
        r2 = rr;
    } else if str_eq(key.as_str(), "object") {
        if object2.is_some() {
            return None;
        }
        let (v, rr) = match parse_quoted_exec(u) {
            Some(x) => x,
            None => {
                return None;
            },
        };
        object2 = Some(v);
        r2 = rr;
    } else if str_eq(key.as_str(), "created") {
        if created2.is_some() {
            return None;
        }
        let (v, rr) = match parse_i64_exec(u) {
            Some(x) => x,
            None => {
                return None;
            },
        };
        created2 = Some(v);
        r2 = rr;
    } else if str_eq(key.as_str(), "model") {
        if model2.is_some() {
            return None;
        }
        let (v, rr) = match parse_quoted_exec(u) {
            Some(x) => x,
            None => {
                return None;
            },
        };
        model2 = Some(v);
        r2 = rr;
    } else if str_eq(key.as_str(), "choices") {
        if choices2.is_some() {
            return None;
        }
        let (v, rr) = match parse_choices_arr_exec(u) {
            Some(x) => x,
            None => {
                return None;
            },
        };
        choices2 = Some(v);
        r2 = rr;
    } else if str_eq(key.as_str(), "usage") {
        if usage2.is_some() {
            return None;
        }
        if u.len() > 0 && *slice_index_get(u, 0) == 'n' {
            let rr = match expect_lit(u, "null") {
                Some(x) => x,
                None => {
                    return None;
                },
            };
            usage2 = Some(None);
            r2 = rr;
        } else {
            let (v, rr) = match parse_usage_obj_exec(u) {
                Some(x) => x,
                None => {
                    return None;
                },
            };
            usage2 = Some(Some(v));
            r2 = rr;
        }
    } else {
        let rr = match skip_value_exec(u) {
            Some(x) => x,
            None => {
                return None;
            },
        };
        r2 = rr;
    }
    let w = skip_ws_exec(r2);
    if w.len() == 0 {
        return None;
    }
    let ch = *slice_index_get(w, 0);
    if ch == '}' {
        Some((id2, object2, created2, model2, choices2, usage2, drop1(w)))
    } else if ch == ',' {
        let x = skip_ws_exec(drop1(w));
        if x.len() < s.len() {
            response_members_exec(x, id2, object2, created2, model2, choices2, usage2)
        } else {
            None
        }
    } else {
        None
    }
}

/// Parses a success reply body; `None` exactly when the text is not a
/// success reply of the grammar.
pub fn parse_response(s: &str) -> (r: Option<Response>)
    ensures
        spec_parse_response(s@) is Some ==> r is Some && r->0@ == spec_parse_response(s@)->0,
        spec_parse_response(s@) is None ==> r is None,
{
    let chars = chars_of(s);
    let t0 = skip_ws_exec(chars.as_slice());
    if !(t0.len() > 0 && *slice_index_get(t0, 0) == '{') {
        return None;
    }
    let t1 = skip_ws_exec(drop1(t0));
    if t1.len() > 0 && *slice_index_get(t1, 0) == '}' {
        return None;
    }
    let (id, object, created, model, choices, usage, rest) = match response_members_exec(
        t1,
        None,
        None,
        None,
        None,
        None,
        None,
    ) {
        Some(x) => x,
        None => {
            return None;
        },
    };
    if skip_ws_exec(rest).len() != 0 {
        return None;
    }
    match (id, object, created, model, choices) {
        (Some(id), Some(object), Some(created), Some(model), Some(choices)) => Some(
            Response {
                id,
                object,
                created,
                model,
                choices,
                usage: match usage {
                    Some(u) => u,
                    None => None,
                },
            },
        ),
        _ => None,
    }
}

fn error_members_exec<'a>(
    s: &'a [char],
    message: Option<String>,
    type_field: Option<String>,
    param: Option<Option<String>>,
    code: Option<Option<String>>,
) -> (r: Option<
    (Option<String>, Option<String>, Option<Option<String>>, Option<Option<String>>, &'a [char]),
>)
    ensures
        ({
            let out = spec_error_members(
                s@,
                ErrorAcc {
                    message: view_opt_str(message),
                    type_field: view_opt_str(type_field),
                    param: view_opt_opt_str(param),
                    code: view_opt_opt_str(code),
                },
            );
            &&& out is Some ==> r is Some && view_opt_str((r->0).0) == (out->0).0.message
                && view_opt_str((r->0).1) == (out->0).0.type_field && view_opt_opt_str(
                (r->0).2,
            ) == (out->0).0.param && view_opt_opt_str((r->0).3) == (out->0).0.code && (
            r->0).4@ == (out->0).1
            &&& out is None ==> r is None
        }),
    decreases s@.len(),
{
    if !(s.len() > 0 && *slice_index_get(s, 0) == '"') {
        return None;
    }
    let (key, r1) = match parse_string_exec(drop1(s)) {
        Some(x) => x,
        None => {
            return None;
        },
    };
    let t = skip_ws_exec(r1);
    if !(t.len() > 0 && *slice_index_get(t, 0) == ':') {
        return None;
    }
    let u = skip_ws_exec(drop1(t));
    if !(u.len() < s.len()) {
        return None;
    }
    let mut message2 = message;
    let mut type2 = type_field;
    let mut param2 = param;
    let mut code2 = code;
    let r2: &[char];
    if str_eq(key.as_str(), "message") {
        if message2.is_some() {
            return None;
        }
        let (v, rr) = match parse_quoted_exec(u) {
            Some(x) => x,
            None => {
                return None;
            },
        };
        message2 = Some(v);
        r2 = rr;
    } else if str_eq(key.as_str(), "type") {
        if type2.is_some() {
            return None;
        }
        let (v, rr) = match parse_quoted_exec(u) {
            Some(x) => x,
            None => {
                return None;
            },
        };
        type2 = Some(v);
        r2 = rr;
    } else if str_eq(key.as_str(), "param") {
        if param2.is_some() {
            return None;
        }
        let (v, rr) = match parse_opt_string_exec(u) {
            Some(x) => x,
            None => {
                return None;
            },
        };
        param2 = Some(v);
        r2 = rr;
    } else if str_eq(key.as_str(), "code") {
        if code2.is_some() {
            return None;
        }
        let (v, rr) = match parse_opt_string_exec(u) {
            Some(x) => x,
            None => {
                return None;
            },
        };
        code2 = Some(v);
        r2 = rr;
    } else {
        let rr = match skip_value_exec(u) {
            Some(x) => x,
            None => {
                return None;
            },
        };
        r2 = rr;
    }
    let w = skip_ws_exec(r2);
    if w.len() == 0 {
        return None;
    }
    let ch = *slice_index_get(w, 0);
    if ch == '}' {
        Some((message2, type2, param2, code2, drop1(w)))
    } else if ch == ',' {
        let x = skip_ws_exec(drop1(w));
        if x.len() < s.len() {
            error_members_exec(x, message2, type2, param2, code2)
        } else {
            None
        }
    } else {
        None
    }
}

fn parse_error_obj_exec<'a>(s: &'a [char]) -> (r: Option<(Error, &'a [char])>)
    ensures
        spec_parse_error_obj(s@) is Some ==> r is Some && (r->0).0@ == (spec_parse_error_obj(
            s@,
        )->0).0 && (r->0).1@ == (spec_parse_error_obj(s@)->0).1,
        spec_parse_error_obj(s@) is None ==> r is None,
{
    if !(s.len() > 0 && *slice_index_get(s, 0) == '{') {
        return None;
    }
    let t = skip_ws_exec(drop1(s));
    if !(t.len() < s.len()) {
        return None;
    }
    if t.len() > 0 && *slice_index_get(t, 0) == '}' {
        return None;
    }
    match error_members_exec(t, None, None, None, None) {
        Some((Some(message), Some(type_field), param, code, rest)) => Some(
            (
                Error {
                    message,
                    type_field,
                    param: match param {
                        Some(p) => p,
                        None => None,
                    },
                    code: match code {
                        Some(c) => c,
                        None => None,
                    },
                },
                rest,
            ),
        ),
        Some(_) => None,
        None => None,
    }
}

fn error_root_members_exec<'a>(s: &'a [char], acc: Option<Error>) -> (r: Option<
    (Option<Error>, &'a [char]),
>)
    ensures
        ({
            let out = spec_error_root_members(
                s@,
                match acc {
                    Some(ref e) => Some(e@),
                    None => None,
                },
            );
            &&& out is Some ==> r is Some && (match (r->0).0 {
                Some(e) => (out->0).0 == Some(e@),
                None => (out->0).0 is None,
            }) && (r->0).1@ == (out->0).1
            &&& out is None ==> r is None
        }),
    decreases s@.len(),
{
    if !(s.len() > 0 && *slice_index_get(s, 0) == '"') {
        return None;
    }
    let (key, r1) = match parse_string_exec(drop1(s)) {
        Some(x) => x,
        None => {
            return None;
        },
    };
    let t = skip_ws_exec(r1);
    if !(t.len() > 0 && *slice_index_get(t, 0) == ':') {
        return None;
    }
    let u = skip_ws_exec(drop1(t));
    if !(u.len() < s.len()) {
        return None;
    }
    let acc2: Option<Error>;
    let r2: &[char];
    if str_eq(key.as_str(), "error") {
        if acc.is_some() {
            return None;
        }
        let (e, rr) = match parse_error_obj_exec(u) {
            Some(x) => x,
            None => {
                return None;
            },
        };
        acc2 = Some(e);
        r2 = rr;
    } else {
        let rr = match skip_value_exec(u) {
            Some(x) => x,
            None => {
                return None;
            },
        };
        acc2 = acc;
        r2 = rr;
    }
    let w = skip_ws_exec(r2);
    if w.len() == 0 {
        return None;
    }
    let ch = *slice_index_get(w, 0);
    if ch == '}' {
        Some((acc2, drop1(w)))
    } else if ch == ',' {
        let x = skip_ws_exec(drop1(w));
        if x.len() < s.len() {
            error_root_members_exec(x, acc2)
        } else {
            None
        }
    } else {
        None
    }
}

/// Parses an error-envelope body; `None` exactly when the text is not an
/// error envelope of the grammar.
pub fn parse_error_root(s: &str) -> (r: Option<ErrorRoot>)
    ensures
        spec_parse_error_root(s@) is Some ==> r is Some && r->0@ == spec_parse_error_root(
            s@,
        )->0,
        spec_parse_error_root(s@) is None ==> r is None,
{
    let chars = chars_of(s);
    let t0 = skip_ws_exec(chars.as_slice());
    if !(t0.len() > 0 && *slice_index_get(t0, 0) == '{') {
        return None;
    }
    let t1 = skip_ws_exec(drop1(t0));
    if t1.len() > 0 && *slice_index_get(t1, 0) == '}' {
        return None;
    }
    let (acc, rest) = match error_root_members_exec(t1, None) {
        Some(x) => x,
        None => {
            return None;
        },
    };
    if skip_ws_exec(rest).len() != 0 {
        return None;
    }
    match acc {
        Some(error) => Some(ErrorRoot { error }),
        None => None,
    }
}
/// What a reply body turned out to be: the success shape, the error envelope,
/// or neither.
#[derive(Debug)]
pub enum Reply {
    Success(Response),
    ApiError(Error),
    Unparsable,
}

/// Classifies a reply body: the success shape is tried first, then the error
/// envelope, and a body that is neither is unparsable.
pub fn parse_reply(s: &str) -> (r: Reply)
    ensures
        spec_parse_response(s@) is Some ==> r is Success && r->Success_0@ == spec_parse_response(
            s@,
        )->0,
        spec_parse_response(s@) is None && spec_parse_error_root(s@) is Some ==> r is ApiError
            && r->ApiError_0@ == spec_parse_error_root(s@)->0,
        spec_parse_response(s@) is None && spec_parse_error_root(s@) is None ==> r is Unparsable,
{
    match parse_response(s) {
        Some(resp) => Reply::Success(resp),
        None => match parse_error_root(s) {
            Some(root) => Reply::ApiError(root.error),
            None => Reply::Unparsable,
        },
    }
}

} // verus!
