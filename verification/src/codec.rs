//! The flat transcript format: an ordered array of `{"role": r, "content": c}`
//! records. `encode_transcript` writes it in canonical form, no padding
//! between tokens; `decode_transcript` reads it back, tolerating ordinary
//! whitespace and unknown record fields. The round trip is proved in
//! `lemma_transcript_round_trip`.

use vstd::prelude::*;
use crate::json::{
    chars_eq_str, esc_char, esc_str, is_ws, lemma_parse_escaped, opt_view, parse_str_chars,
    parse_string_at, push_escaped, skip_value, skip_value_at, skip_ws, skip_ws_at,
};
use crate::turn::RecordModel;
use crate::turn::ChatMessage;
use crate::util::{chars_of, string_from_chars};

verus! {

// ---------------------------------------------------------------------------
// The grammar
// ---------------------------------------------------------------------------
/// Text up to and including the quote that opens the role name.
pub open spec fn lit_role() -> Seq<char> {
    "{\"role\":\""@
}

/// Text between the role name's closing quote and the content's opening one.
pub open spec fn lit_content() -> Seq<char> {
    ",\"content\":\""@
}

pub open spec fn lit_quote() -> Seq<char> {
    "\""@
}

pub open spec fn lit_rbrace() -> Seq<char> {
    "}"@
}

/// One record in canonical form.
pub open spec fn enc_record(m: RecordModel) -> Seq<char> {
    lit_role() + esc_str(m.role) + lit_quote() + lit_content() + esc_str(m.content) + lit_quote()
        + lit_rbrace()
}

/// The records joined by commas.
pub open spec fn enc_items(ms: Seq<RecordModel>) -> Seq<char>
    decreases ms.len(),
{
    if ms.len() == 0 {
        Seq::empty()
    } else if ms.len() == 1 {
        enc_record(ms[0])
    } else {
        enc_record(ms[0]) + seq![','] + enc_items(ms.skip(1))
    }
}

/// A whole transcript in canonical form.
pub open spec fn enc_transcript(ms: Seq<RecordModel>) -> Seq<char> {
    seq!['['] + enc_items(ms) + seq![']']
}

/// Reads one `{role, content}` record: leading whitespace, an opening
/// brace, then its members.
pub open spec fn parse_record_elem(s: Seq<char>, fuel: nat) -> Option<(RecordModel, Seq<char>)> {
    let s0 = skip_ws(s);
    if s0.len() > 0 && s0[0] == '{' {
        parse_msg_members(s0.skip(1), None, None, fuel)
    } else {
        None
    }
}

/// Reads one or more comma-separated records up to and including the closing
/// bracket. `fuel` bounds the recursion; the input length is always fuel
/// enough.
pub open spec fn parse_records_list(s: Seq<char>, fuel: nat) -> Option<
    (Seq<RecordModel>, Seq<char>),
>
    decreases fuel,
{
    if fuel == 0 {
        None
    } else {
        match parse_record_elem(s, (fuel - 1) as nat) {
            None => None,
            Some(p) => {
                let s2 = skip_ws(p.1);
                if s2.len() == 0 {
                    None
                } else if s2[0] == ',' {
                    match parse_records_list(s2.skip(1), (fuel - 1) as nat) {
                        Some(q) => Some((seq![p.0] + q.0, q.1)),
                        None => None,
                    }
                } else if s2[0] == ']' {
                    Some((seq![p.0], s2.skip(1)))
                } else {
                    None
                }
            },
        }
    }
}

/// Reads a whole transcript: a bracketed list of records, whitespace allowed
/// between tokens, and nothing but whitespace after it.
pub open spec fn parse_transcript(s: Seq<char>) -> Option<Seq<RecordModel>> {
    let s0 = skip_ws(s);
    if s0.len() > 0 && s0[0] == '[' {
        let s1 = skip_ws(s0.skip(1));
        if s1.len() > 0 && s1[0] == ']' {
            if skip_ws(s1.skip(1)).len() == 0 {
                Some(Seq::empty())
            } else {
                None
            }
        } else {
            match parse_records_list(s0.skip(1), s.len() as nat) {
                Some(p) => if skip_ws(p.1).len() == 0 {
                    Some(p.0)
                } else {
                    None
                },
                None => None,
            }
        }
    } else {
        None
    }
}

/// The views of the records in `ms`, in order.
pub open spec fn records_of(ms: Seq<ChatMessage>) -> Seq<RecordModel> {
    ms.map_values(|m: ChatMessage| m@)
}

// ---------------------------------------------------------------------------
// Encoding
// ---------------------------------------------------------------------------
/// Appends the characters of `s` to `out`.
pub fn push_str_chars(out: &mut Vec<char>, s: &str)
    ensures
        final(out)@ == old(out)@ + s@,
{
    let mut cs = chars_of(s);
    out.append(&mut cs);
}

/// Appends one record in canonical form.
fn push_record(out: &mut Vec<char>, m: &ChatMessage)
    ensures
        final(out)@ == old(out)@ + enc_record(m@),
{
    let ghost base = out@;
    push_str_chars(out, "{\"role\":\"");
    let rc = chars_of(m.role.as_str());
    push_escaped(out, &rc);
    push_str_chars(out, "\"");
    push_str_chars(out, ",\"content\":\"");
    let cc = chars_of(m.content.as_str());
    push_escaped(out, &cc);
    push_str_chars(out, "\"");
    push_str_chars(out, "}");
    proof {
        assert(out@ =~= base + enc_record(m@));
    }
}

/// Appending one more record to a non-empty list appends a comma and its
/// encoding.
proof fn lemma_enc_items_push(ms: Seq<RecordModel>, m: RecordModel)
    ensures
        enc_items(ms.push(m)) == if ms.len() == 0 {
            enc_record(m)
        } else {
            enc_items(ms) + seq![','] + enc_record(m)
        },
    decreases ms.len(),
{
    let p = ms.push(m);
    if ms.len() == 0 {
        assert(p.len() == 1);
        assert(p[0] == m);
        assert(enc_items(p) == enc_record(m));
    } else if ms.len() == 1 {
        assert(p.len() == 2);
        assert(p.skip(1) =~= seq![m]);
        assert(enc_items(p.skip(1)) == enc_record(m));
        assert(enc_items(ms) == enc_record(ms[0]));
        assert(enc_items(p) =~= enc_items(ms) + seq![','] + enc_record(m));
    } else {
        assert(p.skip(1) =~= ms.skip(1).push(m));
        lemma_enc_items_push(ms.skip(1), m);
        assert(enc_items(p) == enc_record(ms[0]) + seq![','] + enc_items(ms.skip(1).push(m)));
        assert(enc_items(p) =~= enc_items(ms) + seq![','] + enc_record(m));
    }
}

/// Writes the whole transcript in canonical form.
pub fn encode_transcript(ms: &Vec<ChatMessage>) -> (r: Vec<char>)
    ensures
        r@ == enc_transcript(records_of(ms@)),
{
    let mut out: Vec<char> = Vec::new();
    out.push('[');
    let ghost models = records_of(ms@);
    let mut i: usize = 0;
    proof {
        assert(models.take(0) =~= Seq::<RecordModel>::empty());
        assert(out@ =~= seq!['['] + enc_items(models.take(0)));
    }
    while i < ms.len()
        invariant
            i <= ms.len(),
            models == records_of(ms@),
            models.len() == ms.len(),
            out@ == seq!['['] + enc_items(models.take(i as int)),
        decreases ms.len() - i,
    {
        if i > 0 {
            out.push(',');
        }
        push_record(&mut out, &ms[i]);
        proof {
            assert(models[i as int] == ms@[i as int]@);
            assert(models.take(i as int).push(models[i as int]) =~= models.take(i as int + 1));
            lemma_enc_items_push(models.take(i as int), models[i as int]);
            assert(out@ =~= seq!['['] + enc_items(models.take(i as int + 1)));
        }
        i = i + 1;
    }
    out.push(']');
    proof {
        assert(models.take(ms@.len() as int) =~= models);
        assert(out@ =~= enc_transcript(models));
    }
    out
}

// ---------------------------------------------------------------------------
// Decoding
// ---------------------------------------------------------------------------
/// Reads the members of one `{"role": ..., "content": ...}` object after its
/// opening brace: a transcript record, or the message inside a chat
/// completion candidate. Both fields must appear, in any order; members the
/// schema does not know are skipped; on a repeated member the last value
/// wins.
pub open spec fn parse_msg_members(
    s: Seq<char>,
    role: Option<Seq<char>>,
    content: Option<Seq<char>>,
    fuel: nat,
) -> Option<(RecordModel, Seq<char>)>
    decreases fuel,
{
    if fuel == 0 {
        None
    } else {
        let s0 = skip_ws(s);
        if s0.len() == 0 {
            None
        } else if s0[0] == '}' {
            match (role, content) {
                (Some(r), Some(c)) => Some((RecordModel { role: r, content: c }, s0.skip(1))),
                _ => None,
            }
        } else if s0[0] != '"' {
            None
        } else {
            match parse_str_chars(s0.skip(1)) {
                None => None,
                Some(key_p) => {
                    let s2 = skip_ws(key_p.1);
                    if s2.len() == 0 || s2[0] != ':' {
                        None
                    } else {
                        let after = if key_p.0 == "role"@ || key_p.0 == "content"@ {
                            let sv = skip_ws(s2.skip(1));
                            if sv.len() > 0 && sv[0] == '"' {
                                match parse_str_chars(sv.skip(1)) {
                                    Some(p) => if key_p.0 == "role"@ {
                                        Some((Some(p.0), content, p.1))
                                    } else {
                                        Some((role, Some(p.0), p.1))
                                    },
                                    None => None,
                                }
                            } else {
                                None
                            }
                        } else {
                            match skip_value(s2.skip(1), (fuel - 1) as nat) {
                                Some(r) => Some((role, content, r)),
                                None => None,
                            }
                        };
                        match after {
                            None => None,
                            Some(vp) => {
                                let s4 = skip_ws(vp.2);
                                if s4.len() == 0 {
                                    None
                                } else if s4[0] == ',' {
                                    parse_msg_members(s4.skip(1), vp.0, vp.1, (fuel - 1) as nat)
                                } else if s4[0] == '}' {
                                    match (vp.0, vp.1) {
                                        (Some(r), Some(c)) => Some(
                                            (RecordModel { role: r, content: c }, s4.skip(1)),
                                        ),
                                        _ => None,
                                    }
                                } else {
                                    None
                                }
                            },
                        }
                    }
                },
            }
        }
    }
}

pub(crate) fn parse_msg_members_at(
    v: &Vec<char>,
    i: usize,
    role: Option<Vec<char>>,
    content: Option<Vec<char>>,
    fuel: usize,
) -> (r: Option<(ChatMessage, usize)>)
    requires
        i <= v@.len(),
    ensures
        match r {
            Some(p) => i <= p.1 <= v@.len() && parse_msg_members(
                v@.skip(i as int),
                opt_view(role),
                opt_view(content),
                fuel as nat,
            ) == Some((p.0@, v@.skip(p.1 as int))),
            None => parse_msg_members(
                v@.skip(i as int),
                opt_view(role),
                opt_view(content),
                fuel as nat,
            ) == None::<(RecordModel, Seq<char>)>,
        },
    decreases fuel,
{
    if fuel == 0 {
        return None;
    }
    let j0 = skip_ws_at(v, i);
    if j0 >= v.len() {
        proof {
            assert(v@.skip(j0 as int).len() == 0);
        }
        return None;
    }
    proof {
        assert(v@.skip(j0 as int)[0] == v@[j0 as int]);
        assert(v@.skip(j0 as int).skip(1) =~= v@.skip(j0 as int + 1));
    }
    let c = v[j0];
    if c == '}' {
        return match (role, content) {
            (Some(r), Some(ct)) => Some(
                (
                    ChatMessage::from(string_from_chars(&r), string_from_chars(&ct)),
                    j0 + 1,
                ),
            ),
            _ => None,
        };
    }
    if c != '"' {
        return None;
    }
    let key = match parse_string_at(v, j0 + 1) {
        Some(p) => p,
        None => {
            return None;
        },
    };
    let j2 = skip_ws_at(v, key.1);
    if j2 >= v.len() {
        proof {
            assert(v@.skip(j2 as int).len() == 0);
        }
        return None;
    }
    proof {
        assert(v@.skip(j2 as int)[0] == v@[j2 as int]);
        assert(v@.skip(j2 as int).skip(1) =~= v@.skip(j2 as int + 1));
    }
    if v[j2] != ':' {
        return None;
    }
    let is_role = chars_eq_str(&key.0, "role");
    let is_content = chars_eq_str(&key.0, "content");
    let (new_role, new_content, after_pos): (Option<Vec<char>>, Option<Vec<char>>, usize) =
        if is_role || is_content {
        let jv = skip_ws_at(v, j2 + 1);
        if jv >= v.len() {
            proof {
                assert(v@.skip(jv as int).len() == 0);
            }
            return None;
        }
        proof {
            assert(v@.skip(jv as int)[0] == v@[jv as int]);
            assert(v@.skip(jv as int).skip(1) =~= v@.skip(jv as int + 1));
        }
        if v[jv] != '"' {
            return None;
        }
        match parse_string_at(v, jv + 1) {
            Some(p) => if is_role {
                (Some(p.0), content, p.1)
            } else {
                (role, Some(p.0), p.1)
            },
            None => {
                return None;
            },
        }
    } else {
        match skip_value_at(v, j2 + 1, fuel - 1) {
            Some(j) => (role, content, j),
            None => {
                return None;
            },
        }
    };
    let j4 = skip_ws_at(v, after_pos);
    if j4 >= v.len() {
        proof {
            assert(v@.skip(j4 as int).len() == 0);
        }
        return None;
    }
    proof {
        assert(v@.skip(j4 as int)[0] == v@[j4 as int]);
        assert(v@.skip(j4 as int).skip(1) =~= v@.skip(j4 as int + 1));
    }
    let c4 = v[j4];
    if c4 == ',' {
        parse_msg_members_at(v, j4 + 1, new_role, new_content, fuel - 1)
    } else if c4 == '}' {
        match (new_role, new_content) {
            (Some(r), Some(ct)) => Some(
                (
                    ChatMessage::from(string_from_chars(&r), string_from_chars(&ct)),
                    j4 + 1,
                ),
            ),
            _ => None,
        }
    } else {
        None
    }
}


/// Reads one record starting at `v[i]`.
fn parse_record_elem_at(v: &Vec<char>, i: usize, fuel: usize) -> (r: Option<(ChatMessage, usize)>)
    requires
        i <= v@.len(),
    ensures
        match r {
            Some(p) => i <= p.1 <= v@.len() && parse_record_elem(v@.skip(i as int), fuel as nat)
                == Some((p.0@, v@.skip(p.1 as int))),
            None => parse_record_elem(v@.skip(i as int), fuel as nat) == None::<
                (RecordModel, Seq<char>),
            >,
        },
{
    let j0 = skip_ws_at(v, i);
    if j0 >= v.len() {
        proof {
            assert(v@.skip(j0 as int).len() == 0);
        }
        return None;
    }
    proof {
        assert(v@.skip(j0 as int)[0] == v@[j0 as int]);
        assert(v@.skip(j0 as int).skip(1) =~= v@.skip(j0 as int + 1));
    }
    if v[j0] != '{' {
        return None;
    }
    parse_msg_members_at(v, j0 + 1, None, None, fuel)
}

/// Reads the comma-separated records up to and including the closing
/// bracket.
fn parse_records_at(v: &Vec<char>, i: usize, fuel: usize) -> (r: Option<(Vec<ChatMessage>, usize)>)
    requires
        i <= v@.len(),
    ensures
        match r {
            Some(p) => i <= p.1 <= v@.len() && parse_records_list(v@.skip(i as int), fuel as nat)
                == Some((records_of(p.0@), v@.skip(p.1 as int))),
            None => parse_records_list(v@.skip(i as int), fuel as nat) == None::<
                (Seq<RecordModel>, Seq<char>),
            >,
        },
    decreases fuel,
{
    if fuel == 0 {
        return None;
    }
    let p = match parse_record_elem_at(v, i, fuel - 1) {
        Some(p) => p,
        None => {
            return None;
        },
    };
    let j2 = skip_ws_at(v, p.1);
    if j2 >= v.len() {
        proof {
            assert(v@.skip(j2 as int).len() == 0);
        }
        return None;
    }
    proof {
        assert(v@.skip(j2 as int)[0] == v@[j2 as int]);
        assert(v@.skip(j2 as int).skip(1) =~= v@.skip(j2 as int + 1));
    }
    let c2 = v[j2];
    let ghost first_view = p.0@;
    let first = p.0;
    if c2 == ',' {
        match parse_records_at(v, j2 + 1, fuel - 1) {
            Some(q) => {
                let (mut rest, jr) = q;
                let ghost rest_views = records_of(rest@);
                rest.insert(0, first);
                proof {
                    assert(records_of(rest@) =~= seq![first_view] + rest_views);
                }
                Some((rest, jr))
            },
            None => None,
        }
    } else if c2 == ']' {
        let mut out: Vec<ChatMessage> = Vec::new();
        out.push(first);
        proof {
            assert(records_of(out@) =~= seq![first_view]);
        }
        Some((out, j2 + 1))
    } else {
        None
    }
}

/// Reads a whole transcript, `None` where the text does not follow the
/// grammar.
pub fn decode_transcript(v: &Vec<char>) -> (r: Option<Vec<ChatMessage>>)
    ensures
        match r {
            Some(ms) => parse_transcript(v@) == Some(records_of(ms@)),
            None => parse_transcript(v@) == None::<Seq<RecordModel>>,
        },
{
    proof {
        assert(v@.skip(0) =~= v@);
    }
    let j0 = skip_ws_at(v, 0);
    if j0 >= v.len() {
        proof {
            assert(v@.skip(j0 as int).len() == 0);
        }
        return None;
    }
    proof {
        assert(v@.skip(j0 as int)[0] == v@[j0 as int]);
        assert(v@.skip(j0 as int).skip(1) =~= v@.skip(j0 as int + 1));
    }
    if v[j0] != '[' {
        return None;
    }
    let j1 = skip_ws_at(v, j0 + 1);
    if j1 < v.len() {
        proof {
            assert(v@.skip(j1 as int)[0] == v@[j1 as int]);
            assert(v@.skip(j1 as int).skip(1) =~= v@.skip(j1 as int + 1));
        }
        if v[j1] == ']' {
            let je = skip_ws_at(v, j1 + 1);
            if je >= v.len() {
                proof {
                    assert(skip_ws(v@.skip(j1 as int + 1)).len() == 0);
                }
                let ms: Vec<ChatMessage> = Vec::new();
                proof {
                    assert(records_of(ms@) =~= Seq::<RecordModel>::empty());
                }
                return Some(ms);
            } else {
                proof {
                    assert(skip_ws(v@.skip(j1 as int + 1)).len() > 0);
                }
                return None;
            }
        }
    } else {
        proof {
            assert(v@.skip(j1 as int).len() == 0);
        }
    }
    let n = v.len();
    match parse_records_at(v, j0 + 1, n) {
        None => None,
        Some((ms, j)) => {
            let je = skip_ws_at(v, j);
            if je >= v.len() {
                proof {
                    assert(skip_ws(v@.skip(j as int)).len() == 0);
                }
                Some(ms)
            } else {
                proof {
                    assert(skip_ws(v@.skip(j as int)).len() > 0);
                }
                None
            }
        },
    }
}

// ---------------------------------------------------------------------------
// Round trip
// ---------------------------------------------------------------------------
/// The canonical encoder writes no whitespace, so reading its output never
/// skips anything.
proof fn lemma_skip_ws_id(s: Seq<char>)
    requires
        s.len() > 0,
        !is_ws(s[0]),
    ensures
        skip_ws(s) == s,
{
}

/// Escaping text that holds no character in need of escaping leaves it as it
/// is.
proof fn lemma_esc_plain(s: Seq<char>)
    requires
        forall|i: int| 0 <= i < s.len() ==> #[trigger] esc_char(s[i]) == seq![s[i]],
    ensures
        esc_str(s) == s,
    decreases s.len(),
{
    if s.len() == 0 {
        assert(esc_str(s) =~= s);
    } else {
        assert(esc_char(s[0]) == seq![s[0]]);
        assert(forall|i: int|
            0 <= i < s.skip(1).len() ==> #[trigger] esc_char(s.skip(1)[i]) == seq![s.skip(1)[i]]);
        lemma_esc_plain(s.skip(1));
        assert(esc_str(s) =~= s);
    }
}

proof fn lemma_role_key_plain()
    ensures
        esc_str("role"@) == "role"@,
        "role"@.len() == 4,
    decreases 0int,
{
    reveal_strlit("role");
    assert forall|i: int| 0 <= i < "role"@.len() implies #[trigger] esc_char("role"@[i]) == seq![
        "role"@[i],
    ] by {
        assert(esc_char('r') =~= seq!['r']);
        assert(esc_char('o') =~= seq!['o']);
        assert(esc_char('l') =~= seq!['l']);
        assert(esc_char('e') =~= seq!['e']);
    }
    lemma_esc_plain("role"@);
}

proof fn lemma_content_key_plain()
    ensures
        esc_str("content"@) == "content"@,
        "content"@.len() == 7,
    decreases 0int,
{
    reveal_strlit("content");
    assert forall|i: int| 0 <= i < "content"@.len() implies #[trigger] esc_char("content"@[i])
        == seq!["content"@[i]] by {
        assert(esc_char('c') =~= seq!['c']);
        assert(esc_char('o') =~= seq!['o']);
        assert(esc_char('n') =~= seq!['n']);
        assert(esc_char('t') =~= seq!['t']);
        assert(esc_char('e') =~= seq!['e']);
    }
    lemma_esc_plain("content"@);
}

/// One `"key":"value"` member in canonical form.
pub open spec fn member_text(key: Seq<char>, value: Seq<char>) -> Seq<char> {
    seq!['"'] + key + seq!['"', ':', '"'] + esc_str(value) + seq!['"']
}

/// A canonical record is an opening brace, the two members, a closing brace.
proof fn lemma_enc_record_shape(m: RecordModel)
    ensures
        enc_record(m) == seq!['{'] + member_text("role"@, m.role) + seq![','] + member_text(
            "content"@,
            m.content,
        ) + seq!['}'],
{
    reveal_strlit("{\"role\":\"");
    reveal_strlit(",\"content\":\"");
    reveal_strlit("\"");
    reveal_strlit("}");
    reveal_strlit("role");
    reveal_strlit("content");
    assert(enc_record(m) =~= seq!['{'] + member_text("role"@, m.role) + seq![','] + member_text(
        "content"@,
        m.content,
    ) + seq!['}']);
}

/// Reading one canonical member parses its key and value exactly. `key` must
/// be one of the two the grammar knows and must read back as itself.
#[verifier::rlimit(60)]
proof fn lemma_parse_member_content(role: Seq<char>, content: Seq<char>, rest: Seq<char>, fuel: nat)
    requires
        fuel >= 1,
    ensures
        parse_msg_members(
            member_text("content"@, content) + seq!['}'] + rest,
            Some(role),
            None,
            fuel,
        ) == Some((RecordModel { role, content }, rest)),
{
    lemma_role_key_plain();
    lemma_content_key_plain();
    let s = member_text("content"@, content) + seq!['}'] + rest;
    let tail = seq!['}'] + rest;
    let tail_k = seq![':', '"'] + esc_str(content) + seq!['"'] + tail;
    assert(s[0] == '"');
    lemma_skip_ws_id(s);
    assert(s.skip(1) =~= esc_str("content"@) + seq!['"'] + tail_k);
    lemma_parse_escaped("content"@, tail_k);
    assert(parse_str_chars(s.skip(1)) == Some(("content"@, tail_k)));
    assert("content"@ != "role"@);
    assert(tail_k[0] == ':');
    lemma_skip_ws_id(tail_k);
    let sv0 = tail_k.skip(1);
    assert(sv0 =~= seq!['"'] + (esc_str(content) + seq!['"'] + tail));
    assert(sv0[0] == '"');
    lemma_skip_ws_id(sv0);
    assert(sv0.skip(1) =~= esc_str(content) + seq!['"'] + tail);
    lemma_parse_escaped(content, tail);
    assert(parse_str_chars(sv0.skip(1)) == Some((content, tail)));
    assert(tail[0] == '}');
    lemma_skip_ws_id(tail);
    assert(tail.skip(1) =~= rest);
}

/// Reading the two canonical members of a record parses both fields.
#[verifier::rlimit(60)]
proof fn lemma_parse_msg_members_enc(m: RecordModel, rest: Seq<char>, fuel: nat)
    requires
        fuel >= 2,
    ensures
        parse_msg_members(
            member_text("role"@, m.role) + seq![','] + member_text("content"@, m.content)
                + seq!['}'] + rest,
            None,
            None,
            fuel,
        ) == Some((m, rest)),
{
    lemma_role_key_plain();
    lemma_content_key_plain();
    let s = member_text("role"@, m.role) + seq![','] + member_text("content"@, m.content)
        + seq!['}'] + rest;
    let tail = seq![','] + member_text("content"@, m.content) + seq!['}'] + rest;
    let tail_k = seq![':', '"'] + esc_str(m.role) + seq!['"'] + tail;
    assert(s[0] == '"');
    lemma_skip_ws_id(s);
    assert(s.skip(1) =~= esc_str("role"@) + seq!['"'] + tail_k);
    lemma_parse_escaped("role"@, tail_k);
    assert(parse_str_chars(s.skip(1)) == Some(("role"@, tail_k)));
    assert(tail_k[0] == ':');
    lemma_skip_ws_id(tail_k);
    let sv0 = tail_k.skip(1);
    assert(sv0 =~= seq!['"'] + (esc_str(m.role) + seq!['"'] + tail));
    assert(sv0[0] == '"');
    lemma_skip_ws_id(sv0);
    assert(sv0.skip(1) =~= esc_str(m.role) + seq!['"'] + tail);
    lemma_parse_escaped(m.role, tail);
    assert(parse_str_chars(sv0.skip(1)) == Some((m.role, tail)));
    assert(tail[0] == ',');
    lemma_skip_ws_id(tail);
    assert(tail.skip(1) =~= member_text("content"@, m.content) + seq!['}'] + rest);
    lemma_parse_member_content(m.role, m.content, rest, (fuel - 1) as nat);
    assert(m == (RecordModel { role: m.role, content: m.content }));
}

/// Reading one canonical record parses it exactly, leaving the tail.
proof fn lemma_parse_record_enc(m: RecordModel, rest: Seq<char>, fuel: nat)
    requires
        fuel >= 2,
    ensures
        parse_record_elem(enc_record(m) + rest, fuel) == Some((m, rest)),
{
    lemma_enc_record_shape(m);
    let s = enc_record(m) + rest;
    let body = member_text("role"@, m.role) + seq![','] + member_text("content"@, m.content)
        + seq!['}'] + rest;
    assert(s[0] == '{');
    lemma_skip_ws_id(s);
    assert(s.skip(1) =~= body);
    lemma_parse_msg_members_enc(m, rest, fuel);
}

proof fn lemma_enc_record_len(m: RecordModel)
    ensures
        enc_record(m).len() >= 24,
{
    reveal_strlit("{\"role\":\"");
    reveal_strlit(",\"content\":\"");
    reveal_strlit("\"");
    reveal_strlit("}");
}

proof fn lemma_enc_items_ge(ms: Seq<RecordModel>)
    ensures
        enc_items(ms).len() >= 3 * ms.len(),
    decreases ms.len(),
{
    if ms.len() == 0 {
    } else if ms.len() == 1 {
        lemma_enc_record_len(ms[0]);
    } else {
        lemma_enc_record_len(ms[0]);
        lemma_enc_items_ge(ms.skip(1));
    }
}

/// Reading a canonical record list parses every record, in order.
proof fn lemma_parse_records_list_enc(ms: Seq<RecordModel>, rest: Seq<char>, fuel: nat)
    requires
        ms.len() >= 1,
        fuel >= 3 * ms.len(),
    ensures
        parse_records_list(enc_items(ms) + seq![']'] + rest, fuel) == Some((ms, rest)),
    decreases ms.len(),
{
    let s = enc_items(ms) + seq![']'] + rest;
    if ms.len() == 1 {
        let tail = seq![']'] + rest;
        assert(s =~= enc_record(ms[0]) + tail);
        lemma_parse_record_enc(ms[0], tail, (fuel - 1) as nat);
        assert(tail[0] == ']');
        lemma_skip_ws_id(tail);
        assert(tail.skip(1) =~= rest);
        assert(seq![ms[0]] =~= ms);
    } else {
        let tail = seq![','] + (enc_items(ms.skip(1)) + seq![']'] + rest);
        assert(s =~= enc_record(ms[0]) + tail);
        lemma_parse_record_enc(ms[0], tail, (fuel - 1) as nat);
        assert(tail[0] == ',');
        lemma_skip_ws_id(tail);
        assert(tail.skip(1) =~= enc_items(ms.skip(1)) + seq![']'] + rest);
        lemma_parse_records_list_enc(ms.skip(1), rest, (fuel - 1) as nat);
        assert(seq![ms[0]] + ms.skip(1) =~= ms);
    }
}

/// Round trip of the transcript format: decoding what was encoded yields the
/// records that were written, in order, roles and contents alike.
pub proof fn lemma_transcript_round_trip(ms: Seq<RecordModel>)
    ensures
        parse_transcript(enc_transcript(ms)) == Some(ms),
{
    let s = enc_transcript(ms);
    assert(s[0] == '[');
    lemma_skip_ws_id(s);
    if ms.len() == 0 {
        assert(enc_items(ms) =~= Seq::<char>::empty());
        assert(s =~= seq!['[', ']']);
        assert(s.skip(1) =~= seq![']']);
        lemma_skip_ws_id(s.skip(1));
        assert(s.skip(1).skip(1) =~= Seq::<char>::empty());
        assert(ms =~= Seq::<RecordModel>::empty());
    } else {
        lemma_enc_items_ge(ms);
        lemma_enc_record_len(ms[0]);
        let inner = enc_items(ms) + seq![']'] + Seq::<char>::empty();
        assert(s.skip(1) =~= inner);
        reveal_strlit("{\"role\":\"");
        assert(enc_record(ms[0])[0] == '{');
        assert(enc_items(ms)[0] == '{');
        assert(inner[0] == '{');
        lemma_skip_ws_id(inner);
        lemma_parse_records_list_enc(ms, Seq::<char>::empty(), s.len() as nat);
        assert(parse_records_list(s.skip(1), s.len() as nat) == Some(
            (ms, Seq::<char>::empty()),
        ));
    }
}

} // verus!
