//! Provider dispatch: the wire types of the two completion backends, the
//! request payloads built from the conversation, the response decoders, and
//! the gateway that turns every outcome — success, transport failure, decode
//! failure — into a well-formed turn.

use vstd::prelude::*;
use vstd::string::*;
use crate::json::{
    chars_eq_str, dec_str, dec_str_int, esc_str, opt_view, parse_str_chars, parse_string_at,
    push_dec_i64, push_dec_u64, push_escaped, skip_value, skip_value_at, skip_ws, skip_ws_at,
};
use crate::turn::{
    error_sender, ChatMessage, DisplayMessage, DisplayModel, MessageType, RecordModel, Role, Turn,
    TurnModel,
};
use crate::codec::{
    enc_transcript, encode_transcript, parse_msg_members, parse_msg_members_at, push_str_chars,
    records_of,
};
use crate::store::{records_from_turns, records_of_log, turn_views, visible_pred, ConversationLog};
use crate::util::{chars_of, string_from_chars};

verus! {

// ---------------------------------------------------------------------------
// Wire types of the single-turn backend
// ---------------------------------------------------------------------------
/// One completion candidate of the single-turn backend.
#[derive(Debug)]
pub struct Choices {
    pub text: String,
}

impl View for Choices {
    type V = Seq<char>;

    open spec fn view(&self) -> Seq<char> {
        self.text@
    }
}

impl Clone for Choices {
    fn clone(&self) -> (res: Self)
        ensures
            res == *self,
    {
        Choices { text: self.text.clone() }
    }
}

impl Choices {
    pub fn get_answer(&self) -> (r: String)
        ensures
            r@ == self@,
    {
        self.text.clone()
    }
}

/// The views of the candidates in `cs`, in order.
pub open spec fn choice_views(cs: Seq<Choices>) -> Seq<Seq<char>> {
    cs.map_values(|c: Choices| c@)
}

/// Mathematical value of a `TextApiResponse`.
pub ghost struct TextRespModel {
    pub model: Seq<char>,
    pub choices: Seq<Seq<char>>,
}

/// A decoded single-turn completion response.
#[derive(Debug)]
pub struct TextApiResponse {
    pub model: String,
    pub choices: Vec<Choices>,
}

impl View for TextApiResponse {
    type V = TextRespModel;

    open spec fn view(&self) -> TextRespModel {
        TextRespModel { model: self.model@, choices: choice_views(self.choices@) }
    }
}

impl TextApiResponse {
    pub fn choices(&self) -> (r: &Vec<Choices>)
        ensures
            choice_views(r@) == self@.choices,
    {
        &self.choices
    }

    pub fn get_model(&self) -> (r: String)
        ensures
            r@ == self@.model,
    {
        self.model.clone()
    }
}

// ---------------------------------------------------------------------------
// Decoding the single-turn response
// ---------------------------------------------------------------------------
/// Partial knowledge while the members of a response object are read.
pub ghost struct TextAcc {
    pub model: Option<Seq<char>>,
    pub choices: Option<Seq<Seq<char>>>,
}

/// Reads the members of one `{"text": ...}` candidate object after its
/// opening brace; `acc` is the text seen so far, and the candidate needs one.
pub open spec fn parse_text_choice_members(
    s: Seq<char>,
    acc: Option<Seq<char>>,
    fuel: nat,
) -> Option<(Seq<char>, Seq<char>)>
    decreases fuel,
{
    if fuel == 0 {
        None
    } else {
        let s0 = skip_ws(s);
        if s0.len() == 0 {
            None
        } else if s0[0] == '}' {
            match acc {
                Some(t) => Some((t, s0.skip(1))),
                None => None,
            }
        } else if s0[0] != '"' {
            None
        } else {
            match parse_str_chars(s0.skip(1)) {
                None => None,
                Some(key_p) => {
                    let s2 = skip_ws(key_p.1);
                    if s2.len() == 0 || s2[0] != ':' {
                        None
                    } else {
                        let after = if key_p.0 == "text"@ {
                            let sv = skip_ws(s2.skip(1));
                            if sv.len() > 0 && sv[0] == '"' {
                                match parse_str_chars(sv.skip(1)) {
                                    Some(p) => Some((Some(p.0), p.1)),
                                    None => None,
                                }
                            } else {
                                None
                            }
                        } else {
                            match skip_value(s2.skip(1), (fuel - 1) as nat) {
                                Some(r) => Some((acc, r)),
                                None => None,
                            }
                        };
                        match after {
                            None => None,
                            Some(vp) => {
                                let s4 = skip_ws(vp.1);
                                if s4.len() == 0 {
                                    None
                                } else if s4[0] == ',' {
                                    parse_text_choice_members(s4.skip(1), vp.0, (fuel - 1) as nat)
                                } else if s4[0] == '}' {
                                    match vp.0 {
                                        Some(t) => Some((t, s4.skip(1))),
                                        None => None,
                                    }
                                } else {
                                    None
                                }
                            },
                        }
                    }
                },
            }
        }
    }
}

/// Reads one candidate object: its text, and what follows the brace.
pub open spec fn parse_text_choice(s: Seq<char>, fuel: nat) -> Option<(Seq<char>, Seq<char>)> {
    let s0 = skip_ws(s);
    if s0.len() > 0 && s0[0] == '{' {
        parse_text_choice_members(s0.skip(1), None, fuel)
    } else {
        None
    }
}

/// Reads one or more comma-separated candidates up to and including the
/// closing bracket.
pub open spec fn parse_text_choice_list(s: Seq<char>, fuel: nat) -> Option<
    (Seq<Seq<char>>, Seq<char>),
>
    decreases fuel,
{
    if fuel == 0 {
        None
    } else {
        match parse_text_choice(s, (fuel - 1) as nat) {
            None => None,
            Some(p) => {
                let s2 = skip_ws(p.1);
                if s2.len() == 0 {
                    None
                } else if s2[0] == ',' {
                    match parse_text_choice_list(s2.skip(1), (fuel - 1) as nat) {
                        Some(q) => Some((seq![p.0] + q.0, q.1)),
                        None => None,
                    }
                } else if s2[0] == ']' {
                    Some((seq![p.0], s2.skip(1)))
                } else {
                    None
                }
            },
        }
    }
}

/// Reads the whole `choices` array, empty or not.
pub open spec fn parse_text_choices(s: Seq<char>, fuel: nat) -> Option<(Seq<Seq<char>>, Seq<char>)> {
    let s0 = skip_ws(s);
    if s0.len() > 0 && s0[0] == '[' {
        let s1 = skip_ws(s0.skip(1));
        if s1.len() > 0 && s1[0] == ']' {
            Some((Seq::empty(), s1.skip(1)))
        } else {
            parse_text_choice_list(s0.skip(1), fuel)
        }
    } else {
        None
    }
}

/// Reads the members of the response object after its opening brace. Both
/// `model` and `choices` must appear; members the schema does not know are
/// skipped; on a repeated member the last value wins.
pub open spec fn parse_text_members(s: Seq<char>, acc: TextAcc, fuel: nat) -> Option<
    (TextAcc, Seq<char>),
>
    decreases fuel,
{
    if fuel == 0 {
        None
    } else {
        let s0 = skip_ws(s);
        if s0.len() == 0 {
            None
        } else if s0[0] == '}' {
            Some((acc, s0.skip(1)))
        } else if s0[0] != '"' {
            None
        } else {
            match parse_str_chars(s0.skip(1)) {
                None => None,
                Some(key_p) => {
                    let s2 = skip_ws(key_p.1);
                    if s2.len() == 0 || s2[0] != ':' {
                        None
                    } else {
                        let after = if key_p.0 == "model"@ {
                            let sv = skip_ws(s2.skip(1));
                            if sv.len() > 0 && sv[0] == '"' {
                                match parse_str_chars(sv.skip(1)) {
                                    Some(p) => Some(
                                        (TextAcc { model: Some(p.0), choices: acc.choices }, p.1),
                                    ),
                                    None => None,
                                }
                            } else {
                                None
                            }
                        } else if key_p.0 == "choices"@ {
                            match parse_text_choices(s2.skip(1), (fuel - 1) as nat) {
                                Some(p) => Some(
                                    (TextAcc { model: acc.model, choices: Some(p.0) }, p.1),
                                ),
                                None => None,
                            }
                        } else {
                            match skip_value(s2.skip(1), (fuel - 1) as nat) {
                                Some(r) => Some((acc, r)),
                                None => None,
                            }
                        };
                        match after {
                            None => None,
                            Some(vp) => {
                                let s4 = skip_ws(vp.1);
                                if s4.len() == 0 {
                                    None
                                } else if s4[0] == ',' {
                                    parse_text_members(s4.skip(1), vp.0, (fuel - 1) as nat)
                                } else if s4[0] == '}' {
                                    Some((vp.0, s4.skip(1)))
                                } else {
                                    None
                                }
                            },
                        }
                    }
                },
            }
        }
    }
}

/// The single-turn response a body decodes to: one object, nothing but
/// whitespace after it, `model` and `choices` both present.
pub open spec fn parse_text_response(s: Seq<char>) -> Option<TextRespModel> {
    let s0 = skip_ws(s);
    if s0.len() > 0 && s0[0] == '{' {
        match parse_text_members(
            s0.skip(1),
            TextAcc { model: None, choices: None },
            s.len() as nat,
        ) {
            Some(p) => if skip_ws(p.1).len() == 0 {
                match (p.0.model, p.0.choices) {
                    (Some(m), Some(cs)) => Some(TextRespModel { model: m, choices: cs }),
                    _ => None,
                }
            } else {
                None
            },
            None => None,
        }
    } else {
        None
    }
}

fn parse_text_choice_members_at(
    v: &Vec<char>,
    i: usize,
    acc: Option<Vec<char>>,
    fuel: usize,
) -> (r: Option<(Vec<char>, usize)>)
    requires
        i <= v@.len(),
    ensures
        match r {
            Some(p) => i <= p.1 <= v@.len() && parse_text_choice_members(
                v@.skip(i as int),
                opt_view(acc),
                fuel as nat,
            ) == Some((p.0@, v@.skip(p.1 as int))),
            None => parse_text_choice_members(v@.skip(i as int), opt_view(acc), fuel as nat)
                == None::<(Seq<char>, Seq<char>)>,
        },
    decreases fuel,
{
    if fuel == 0 {
        return None;
    }
    let j0 = skip_ws_at(v, i);
    if j0 >= v.len() {
        proof {
            assert(v@.skip(j0 as int).len() == 0);
        }
        return None;
    }
    proof {
        assert(v@.skip(j0 as int)[0] == v@[j0 as int]);
        assert(v@.skip(j0 as int).skip(1) =~= v@.skip(j0 as int + 1));
    }
    let c = v[j0];
    if c == '}' {
        return match acc {
            Some(t) => Some((t, j0 + 1)),
            None => None,
        };
    }
    if c != '"' {
        return None;
    }
    let key = match parse_string_at(v, j0 + 1) {
        Some(p) => p,
        None => {
            return None;
        },
    };
    let j2 = skip_ws_at(v, key.1);
    if j2 >= v.len() {
        proof {
            assert(v@.skip(j2 as int).len() == 0);
        }
        return None;
    }
    proof {
        assert(v@.skip(j2 as int)[0] == v@[j2 as int]);
        assert(v@.skip(j2 as int).skip(1) =~= v@.skip(j2 as int + 1));
    }
    if v[j2] != ':' {
        return None;
    }
    let is_text = chars_eq_str(&key.0, "text");
    let (new_acc, after_pos): (Option<Vec<char>>, usize) = if is_text {
        let jv = skip_ws_at(v, j2 + 1);
        if jv >= v.len() {
            proof {
                assert(v@.skip(jv as int).len() == 0);
            }
            return None;
        }
        proof {
            assert(v@.skip(jv as int)[0] == v@[jv as int]);
            assert(v@.skip(jv as int).skip(1) =~= v@.skip(jv as int + 1));
        }
        if v[jv] != '"' {
            return None;
        }
        match parse_string_at(v, jv + 1) {
            Some(p) => (Some(p.0), p.1),
            None => {
                return None;
            },
        }
    } else {
        match skip_value_at(v, j2 + 1, fuel - 1) {
            Some(j) => (acc, j),
            None => {
                return None;
            },
        }
    };
    let j4 = skip_ws_at(v, after_pos);
    if j4 >= v.len() {
        proof {
            assert(v@.skip(j4 as int).len() == 0);
        }
        return None;
    }
    proof {
        assert(v@.skip(j4 as int)[0] == v@[j4 as int]);
        assert(v@.skip(j4 as int).skip(1) =~= v@.skip(j4 as int + 1));
    }
    let c4 = v[j4];
    if c4 == ',' {
        parse_text_choice_members_at(v, j4 + 1, new_acc, fuel - 1)
    } else if c4 == '}' {
        match new_acc {
            Some(t) => Some((t, j4 + 1)),
            None => None,
        }
    } else {
        None
    }
}

fn parse_text_choice_at(v: &Vec<char>, i: usize, fuel: usize) -> (r: Option<(Vec<char>, usize)>)
    requires
        i <= v@.len(),
    ensures
        match r {
            Some(p) => i <= p.1 <= v@.len() && parse_text_choice(v@.skip(i as int), fuel as nat)
                == Some((p.0@, v@.skip(p.1 as int))),
            None => parse_text_choice(v@.skip(i as int), fuel as nat) == None::<
                (Seq<char>, Seq<char>),
            >,
        },
{
    let j0 = skip_ws_at(v, i);
    if j0 >= v.len() {
        proof {
            assert(v@.skip(j0 as int).len() == 0);
        }
        return None;
    }
    proof {
        assert(v@.skip(j0 as int)[0] == v@[j0 as int]);
        assert(v@.skip(j0 as int).skip(1) =~= v@.skip(j0 as int + 1));
    }
    if v[j0] != '{' {
        return None;
    }
    parse_text_choice_members_at(v, j0 + 1, None, fuel)
}

fn parse_text_choice_list_at(v: &Vec<char>, i: usize, fuel: usize) -> (r: Option<
    (Vec<Choices>, usize),
>)
    requires
        i <= v@.len(),
    ensures
        match r {
            Some(p) => i <= p.1 <= v@.len() && parse_text_choice_list(
                v@.skip(i as int),
                fuel as nat,
            ) == Some((choice_views(p.0@), v@.skip(p.1 as int))),
            None => parse_text_choice_list(v@.skip(i as int), fuel as nat) == None::<
                (Seq<Seq<char>>, Seq<char>),
            >,
        },
    decreases fuel,
{
    if fuel == 0 {
        return None;
    }
    let p = match parse_text_choice_at(v, i, fuel - 1) {
        Some(p) => p,
        None => {
            return None;
        },
    };
    let j2 = skip_ws_at(v, p.1);
    if j2 >= v.len() {
        proof {
            assert(v@.skip(j2 as int).len() == 0);
        }
        return None;
    }
    proof {
        assert(v@.skip(j2 as int)[0] == v@[j2 as int]);
        assert(v@.skip(j2 as int).skip(1) =~= v@.skip(j2 as int + 1));
    }
    let c2 = v[j2];
    let first = Choices { text: string_from_chars(&p.0) };
    if c2 == ',' {
        match parse_text_choice_list_at(v, j2 + 1, fuel - 1) {
            Some(q) => {
                let (mut rest, jr) = q;
                let ghost rest_views = choice_views(rest@);
                rest.insert(0, first);
                proof {
                    assert(choice_views(rest@) =~= seq![p.0@] + rest_views);
                }
                Some((rest, jr))
            },
            None => None,
        }
    } else if c2 == ']' {
        let mut out: Vec<Choices> = Vec::new();
        out.push(first);
        proof {
            assert(choice_views(out@) =~= seq![p.0@]);
        }
        Some((out, j2 + 1))
    } else {
        None
    }
}

fn parse_text_choices_at(v: &Vec<char>, i: usize, fuel: usize) -> (r: Option<(Vec<Choices>, usize)>)
    requires
        i <= v@.len(),
    ensures
        match r {
            Some(p) => i <= p.1 <= v@.len() && parse_text_choices(v@.skip(i as int), fuel as nat)
                == Some((choice_views(p.0@), v@.skip(p.1 as int))),
            None => parse_text_choices(v@.skip(i as int), fuel as nat) == None::<
                (Seq<Seq<char>>, Seq<char>),
            >,
        },
{
    let j0 = skip_ws_at(v, i);
    if j0 >= v.len() {
        proof {
            assert(v@.skip(j0 as int).len() == 0);
        }
        return None;
    }
    proof {
        assert(v@.skip(j0 as int)[0] == v@[j0 as int]);
        assert(v@.skip(j0 as int).skip(1) =~= v@.skip(j0 as int + 1));
    }
    if v[j0] != '[' {
        return None;
    }
    let j1 = skip_ws_at(v, j0 + 1);
    if j1 < v.len() {
        proof {
            assert(v@.skip(j1 as int)[0] == v@[j1 as int]);
            assert(v@.skip(j1 as int).skip(1) =~= v@.skip(j1 as int + 1));
        }
        if v[j1] == ']' {
            let out: Vec<Choices> = Vec::new();
            proof {
                assert(choice_views(out@) =~= Seq::<Seq<char>>::empty());
            }
            return Some((out, j1 + 1));
        }
    } else {
        proof {
            assert(v@.skip(j1 as int).len() == 0);
        }
    }
    parse_text_choice_list_at(v, j0 + 1, fuel)
}

fn parse_text_members_at(
    v: &Vec<char>,
    i: usize,
    acc_model: Option<Vec<char>>,
    acc_choices: Option<Vec<Choices>>,
    fuel: usize,
) -> (r: Option<(Option<Vec<char>>, Option<Vec<Choices>>, usize)>)
    requires
        i <= v@.len(),
    ensures
        match r {
            Some(p) => i <= p.2 <= v@.len() && parse_text_members(
                v@.skip(i as int),
                text_acc_view(acc_model, acc_choices),
                fuel as nat,
            ) == Some((text_acc_view(p.0, p.1), v@.skip(p.2 as int))),
            None => parse_text_members(
                v@.skip(i as int),
                text_acc_view(acc_model, acc_choices),
                fuel as nat,
            ) == None::<(TextAcc, Seq<char>)>,
        },
    decreases fuel,
{
    if fuel == 0 {
        return None;
    }
    let j0 = skip_ws_at(v, i);
    if j0 >= v.len() {
        proof {
            assert(v@.skip(j0 as int).len() == 0);
        }
        return None;
    }
    proof {
        assert(v@.skip(j0 as int)[0] == v@[j0 as int]);
        assert(v@.skip(j0 as int).skip(1) =~= v@.skip(j0 as int + 1));
    }
    let c = v[j0];
    if c == '}' {
        return Some((acc_model, acc_choices, j0 + 1));
    }
    if c != '"' {
        return None;
    }
    let key = match parse_string_at(v, j0 + 1) {
        Some(p) => p,
        None => {
            return None;
        },
    };
    let j2 = skip_ws_at(v, key.1);
    if j2 >= v.len() {
        proof {
            assert(v@.skip(j2 as int).len() == 0);
        }
        return None;
    }
    proof {
        assert(v@.skip(j2 as int)[0] == v@[j2 as int]);
        assert(v@.skip(j2 as int).skip(1) =~= v@.skip(j2 as int + 1));
    }
    if v[j2] != ':' {
        return None;
    }
    let is_model = chars_eq_str(&key.0, "model");
    let is_choices = chars_eq_str(&key.0, "choices");
    let (new_model, new_choices, after_pos): (Option<Vec<char>>, Option<Vec<Choices>>, usize) =
        if is_model {
        let jv = skip_ws_at(v, j2 + 1);
        if jv >= v.len() {
            proof {
                assert(v@.skip(jv as int).len() == 0);
            }
            return None;
        }
        proof {
            assert(v@.skip(jv as int)[0] == v@[jv as int]);
            assert(v@.skip(jv as int).skip(1) =~= v@.skip(jv as int + 1));
        }
        if v[jv] != '"' {
            return None;
        }
        match parse_string_at(v, jv + 1) {
            Some(p) => (Some(p.0), acc_choices, p.1),
            None => {
                return None;
            },
        }
    } else if is_choices {
        match parse_text_choices_at(v, j2 + 1, fuel - 1) {
            Some(p) => (acc_model, Some(p.0), p.1),
            None => {
                return None;
            },
        }
    } else {
        match skip_value_at(v, j2 + 1, fuel - 1) {
            Some(j) => (acc_model, acc_choices, j),
            None => {
                return None;
            },
        }
    };
    let j4 = skip_ws_at(v, after_pos);
    if j4 >= v.len() {
        proof {
            assert(v@.skip(j4 as int).len() == 0);
        }
        return None;
    }
    proof {
        assert(v@.skip(j4 as int)[0] == v@[j4 as int]);
        assert(v@.skip(j4 as int).skip(1) =~= v@.skip(j4 as int + 1));
    }
    let c4 = v[j4];
    if c4 == ',' {
        parse_text_members_at(v, j4 + 1, new_model, new_choices, fuel - 1)
    } else if c4 == '}' {
        Some((new_model, new_choices, j4 + 1))
    } else {
        None
    }
}

/// The accumulator the two optional buffers stand for.
pub open spec fn text_acc_view(m: Option<Vec<char>>, c: Option<Vec<Choices>>) -> TextAcc {
    TextAcc {
        model: opt_view(m),
        choices: match c {
            Some(cs) => Some(choice_views(cs@)),
            None => None,
        },
    }
}

/// Decodes a single-turn completion response body, `None` where it does not
/// follow the response schema.
pub fn decode_text_response(body: &str) -> (r: Option<TextApiResponse>)
    ensures
        match r {
            Some(resp) => parse_text_response(body@) == Some(resp@),
            None => parse_text_response(body@) == None::<TextRespModel>,
        },
{
    let cs = chars_of(body);
    proof {
        assert(cs@.skip(0) =~= cs@);
    }
    let j0 = skip_ws_at(&cs, 0);
    if j0 >= cs.len() {
        proof {
            assert(cs@.skip(j0 as int).len() == 0);
        }
        return None;
    }
    proof {
        assert(cs@.skip(j0 as int)[0] == cs@[j0 as int]);
        assert(cs@.skip(j0 as int).skip(1) =~= cs@.skip(j0 as int + 1));
    }
    if cs[j0] != '{' {
        return None;
    }
    let n = cs.len();
    match parse_text_members_at(&cs, j0 + 1, None, None, n) {
        None => None,
        Some((m, c, j)) => {
            let je = skip_ws_at(&cs, j);
            if je < cs.len() {
                proof {
                    assert(skip_ws(cs@.skip(j as int)).len() > 0);
                }
                return None;
            }
            proof {
                assert(skip_ws(cs@.skip(j as int)).len() == 0);
            }
            match (m, c) {
                (Some(mv), Some(cv)) => Some(
                    TextApiResponse { model: string_from_chars(&mv), choices: cv },
                ),
                _ => None,
            }
        },
    }
}

// ---------------------------------------------------------------------------
// Wire types of the multi-turn backend
// ---------------------------------------------------------------------------
/// One completion candidate of the multi-turn backend: the message it
/// carries.
#[derive(Debug)]
pub struct ChatChoice {
    pub message: ChatMessage,
}

impl View for ChatChoice {
    type V = RecordModel;

    open spec fn view(&self) -> RecordModel {
        self.message@
    }
}

impl Clone for ChatChoice {
    fn clone(&self) -> (res: Self)
        ensures
            res == *self,
    {
        ChatChoice { message: self.message.clone() }
    }
}

impl ChatChoice {
    pub fn get_message(&self) -> (r: ChatMessage)
        ensures
            r@ == self@,
    {
        self.message.clone()
    }
}

/// The views of the candidates in `cs`, in order.
pub open spec fn chat_choice_views(cs: Seq<ChatChoice>) -> Seq<RecordModel> {
    cs.map_values(|c: ChatChoice| c@)
}

/// A decoded multi-turn completion response: its candidates.
#[derive(Debug)]
pub struct ChatApiResponse {
    pub choices: Vec<ChatChoice>,
}

impl View for ChatApiResponse {
    type V = Seq<RecordModel>;

    open spec fn view(&self) -> Seq<RecordModel> {
        chat_choice_views(self.choices@)
    }
}

impl ChatApiResponse {
    /// The one candidate the client consumes. A response without candidates
    /// is treated as a decode failure before this is ever called.
    pub fn get_first_choice(&self) -> (r: ChatChoice)
        requires
            self@.len() > 0,
        ensures
            r@ == self@[0],
    {
        self.choices[0].clone()
    }
}

// ---------------------------------------------------------------------------
// Decoding the multi-turn response
// ---------------------------------------------------------------------------
/// Reads the members of one candidate object after its opening brace; the
/// candidate needs a `message`.
pub open spec fn parse_chat_choice_members(
    s: Seq<char>,
    acc: Option<RecordModel>,
    fuel: nat,
) -> Option<(RecordModel, Seq<char>)>
    decreases fuel,
{
    if fuel == 0 {
        None
    } else {
        let s0 = skip_ws(s);
        if s0.len() == 0 {
            None
        } else if s0[0] == '}' {
            match acc {
                Some(m) => Some((m, s0.skip(1))),
                None => None,
            }
        } else if s0[0] != '"' {
            None
        } else {
            match parse_str_chars(s0.skip(1)) {
                None => None,
                Some(key_p) => {
                    let s2 = skip_ws(key_p.1);
                    if s2.len() == 0 || s2[0] != ':' {
                        None
                    } else {
                        let after = if key_p.0 == "message"@ {
                            let sv = skip_ws(s2.skip(1));
                            if sv.len() > 0 && sv[0] == '{' {
                                match parse_msg_members(sv.skip(1), None, None, (fuel - 1) as nat) {
                                    Some(p) => Some((Some(p.0), p.1)),
                                    None => None,
                                }
                            } else {
                                None
                            }
                        } else {
                            match skip_value(s2.skip(1), (fuel - 1) as nat) {
                                Some(r) => Some((acc, r)),
                                None => None,
                            }
                        };
                        match after {
                            None => None,
                            Some(vp) => {
                                let s4 = skip_ws(vp.1);
                                if s4.len() == 0 {
                                    None
                                } else if s4[0] == ',' {
                                    parse_chat_choice_members(s4.skip(1), vp.0, (fuel - 1) as nat)
                                } else if s4[0] == '}' {
                                    match vp.0 {
                                        Some(m) => Some((m, s4.skip(1))),
                                        None => None,
                                    }
                                } else {
                                    None
                                }
                            },
                        }
                    }
                },
            }
        }
    }
}

/// Reads one candidate object.
pub open spec fn parse_chat_choice(s: Seq<char>, fuel: nat) -> Option<(RecordModel, Seq<char>)> {
    let s0 = skip_ws(s);
    if s0.len() > 0 && s0[0] == '{' {
        parse_chat_choice_members(s0.skip(1), None, fuel)
    } else {
        None
    }
}

/// Reads one or more comma-separated candidates up to and including the
/// closing bracket.
pub open spec fn parse_chat_choice_list(s: Seq<char>, fuel: nat) -> Option<
    (Seq<RecordModel>, Seq<char>),
>
    decreases fuel,
{
    if fuel == 0 {
        None
    } else {
        match parse_chat_choice(s, (fuel - 1) as nat) {
            None => None,
            Some(p) => {
                let s2 = skip_ws(p.1);
                if s2.len() == 0 {
                    None
                } else if s2[0] == ',' {
                    match parse_chat_choice_list(s2.skip(1), (fuel - 1) as nat) {
                        Some(q) => Some((seq![p.0] + q.0, q.1)),
                        None => None,
                    }
                } else if s2[0] == ']' {
                    Some((seq![p.0], s2.skip(1)))
                } else {
                    None
                }
            },
        }
    }
}

/// Reads the whole `choices` array, empty or not.
pub open spec fn parse_chat_choices(s: Seq<char>, fuel: nat) -> Option<
    (Seq<RecordModel>, Seq<char>),
> {
    let s0 = skip_ws(s);
    if s0.len() > 0 && s0[0] == '[' {
        let s1 = skip_ws(s0.skip(1));
        if s1.len() > 0 && s1[0] == ']' {
            Some((Seq::empty(), s1.skip(1)))
        } else {
            parse_chat_choice_list(s0.skip(1), fuel)
        }
    } else {
        None
    }
}

/// Reads the members of the response object after its opening brace;
/// `choices` must appear, everything else is skipped.
pub open spec fn parse_chat_members(
    s: Seq<char>,
    acc: Option<Seq<RecordModel>>,
    fuel: nat,
) -> Option<(Option<Seq<RecordModel>>, Seq<char>)>
    decreases fuel,
{
    if fuel == 0 {
        None
    } else {
        let s0 = skip_ws(s);
        if s0.len() == 0 {
            None
        } else if s0[0] == '}' {
            Some((acc, s0.skip(1)))
        } else if s0[0] != '"' {
            None
        } else {
            match parse_str_chars(s0.skip(1)) {
                None => None,
                Some(key_p) => {
                    let s2 = skip_ws(key_p.1);
                    if s2.len() == 0 || s2[0] != ':' {
                        None
                    } else {
                        let after = if key_p.0 == "choices"@ {
                            match parse_chat_choices(s2.skip(1), (fuel - 1) as nat) {
                                Some(p) => Some((Some(p.0), p.1)),
                                None => None,
                            }
                        } else {
                            match skip_value(s2.skip(1), (fuel - 1) as nat) {
                                Some(r) => Some((acc, r)),
                                None => None,
                            }
                        };
                        match after {
                            None => None,
                            Some(vp) => {
                                let s4 = skip_ws(vp.1);
                                if s4.len() == 0 {
                                    None
                                } else if s4[0] == ',' {
                                    parse_chat_members(s4.skip(1), vp.0, (fuel - 1) as nat)
                                } else if s4[0] == '}' {
                                    Some((vp.0, s4.skip(1)))
                                } else {
                                    None
                                }
                            },
                        }
                    }
                },
            }
        }
    }
}

/// The multi-turn response a body decodes to: one object, nothing but
/// whitespace after it, `choices` present.
pub open spec fn parse_chat_response(s: Seq<char>) -> Option<Seq<RecordModel>> {
    let s0 = skip_ws(s);
    if s0.len() > 0 && s0[0] == '{' {
        match parse_chat_members(s0.skip(1), None, s.len() as nat) {
            Some(p) => if skip_ws(p.1).len() == 0 {
                match p.0 {
                    Some(cs) => Some(cs),
                    None => None,
                }
            } else {
                None
            },
            None => None,
        }
    } else {
        None
    }
}

/// The view of an optional message.
pub open spec fn msg_opt_view(o: Option<ChatMessage>) -> Option<RecordModel> {
    match o {
        Some(m) => Some(m@),
        None => None,
    }
}

fn parse_chat_choice_members_at(
    v: &Vec<char>,
    i: usize,
    acc: Option<ChatMessage>,
    fuel: usize,
) -> (r: Option<(ChatMessage, usize)>)
    requires
        i <= v@.len(),
    ensures
        match r {
            Some(p) => i <= p.1 <= v@.len() && parse_chat_choice_members(
                v@.skip(i as int),
                msg_opt_view(acc),
                fuel as nat,
            ) == Some((p.0@, v@.skip(p.1 as int))),
            None => parse_chat_choice_members(v@.skip(i as int), msg_opt_view(acc), fuel as nat)
                == None::<(RecordModel, Seq<char>)>,
        },
    decreases fuel,
{
    if fuel == 0 {
        return None;
    }
    let j0 = skip_ws_at(v, i);
    if j0 >= v.len() {
        proof {
            assert(v@.skip(j0 as int).len() == 0);
        }
        return None;
    }
    proof {
        assert(v@.skip(j0 as int)[0] == v@[j0 as int]);
        assert(v@.skip(j0 as int).skip(1) =~= v@.skip(j0 as int + 1));
    }
    let c = v[j0];
    if c == '}' {
        return match acc {
            Some(m) => Some((m, j0 + 1)),
            None => None,
        };
    }
    if c != '"' {
        return None;
    }
    let key = match parse_string_at(v, j0 + 1) {
        Some(p) => p,
        None => {
            return None;
        },
    };
    let j2 = skip_ws_at(v, key.1);
    if j2 >= v.len() {
        proof {
            assert(v@.skip(j2 as int).len() == 0);
        }
        return None;
    }
    proof {
        assert(v@.skip(j2 as int)[0] == v@[j2 as int]);
        assert(v@.skip(j2 as int).skip(1) =~= v@.skip(j2 as int + 1));
    }
    if v[j2] != ':' {
        return None;
    }
    let is_message = chars_eq_str(&key.0, "message");
    let (new_acc, after_pos): (Option<ChatMessage>, usize) = if is_message {
        let jv = skip_ws_at(v, j2 + 1);
        if jv >= v.len() {
            proof {
                assert(v@.skip(jv as int).len() == 0);
            }
            return None;
        }
        proof {
            assert(v@.skip(jv as int)[0] == v@[jv as int]);
            assert(v@.skip(jv as int).skip(1) =~= v@.skip(jv as int + 1));
        }
        if v[jv] != '{' {
            return None;
        }
        match parse_msg_members_at(v, jv + 1, None, None, fuel - 1) {
            Some(p) => (Some(p.0), p.1),
            None => {
                return None;
            },
        }
    } else {
        match skip_value_at(v, j2 + 1, fuel - 1) {
            Some(j) => (acc, j),
            None => {
                return None;
            },
        }
    };
    let j4 = skip_ws_at(v, after_pos);
    if j4 >= v.len() {
        proof {
            assert(v@.skip(j4 as int).len() == 0);
        }
        return None;
    }
    proof {
        assert(v@.skip(j4 as int)[0] == v@[j4 as int]);
        assert(v@.skip(j4 as int).skip(1) =~= v@.skip(j4 as int + 1));
    }
    let c4 = v[j4];
    if c4 == ',' {
        parse_chat_choice_members_at(v, j4 + 1, new_acc, fuel - 1)
    } else if c4 == '}' {
        match new_acc {
            Some(m) => Some((m, j4 + 1)),
            None => None,
        }
    } else {
        None
    }
}

fn parse_chat_choice_at(v: &Vec<char>, i: usize, fuel: usize) -> (r: Option<(ChatMessage, usize)>)
    requires
        i <= v@.len(),
    ensures
        match r {
            Some(p) => i <= p.1 <= v@.len() && parse_chat_choice(v@.skip(i as int), fuel as nat)
                == Some((p.0@, v@.skip(p.1 as int))),
            None => parse_chat_choice(v@.skip(i as int), fuel as nat) == None::<
                (RecordModel, Seq<char>),
            >,
        },
{
    let j0 = skip_ws_at(v, i);
    if j0 >= v.len() {
        proof {
            assert(v@.skip(j0 as int).len() == 0);
        }
        return None;
    }
    proof {
        assert(v@.skip(j0 as int)[0] == v@[j0 as int]);
        assert(v@.skip(j0 as int).skip(1) =~= v@.skip(j0 as int + 1));
    }
    if v[j0] != '{' {
        return None;
    }
    parse_chat_choice_members_at(v, j0 + 1, None, fuel)
}

fn parse_chat_choice_list_at(v: &Vec<char>, i: usize, fuel: usize) -> (r: Option<
    (Vec<ChatChoice>, usize),
>)
    requires
        i <= v@.len(),
    ensures
        match r {
            Some(p) => i <= p.1 <= v@.len() && parse_chat_choice_list(
                v@.skip(i as int),
                fuel as nat,
            ) == Some((chat_choice_views(p.0@), v@.skip(p.1 as int))),
            None => parse_chat_choice_list(v@.skip(i as int), fuel as nat) == None::<
                (Seq<RecordModel>, Seq<char>),
            >,
        },
    decreases fuel,
{
    if fuel == 0 {
        return None;
    }
    let p = match parse_chat_choice_at(v, i, fuel - 1) {
        Some(p) => p,
        None => {
            return None;
        },
    };
    let j2 = skip_ws_at(v, p.1);
    if j2 >= v.len() {
        proof {
            assert(v@.skip(j2 as int).len() == 0);
        }
        return None;
    }
    proof {
        assert(v@.skip(j2 as int)[0] == v@[j2 as int]);
        assert(v@.skip(j2 as int).skip(1) =~= v@.skip(j2 as int + 1));
    }
    let c2 = v[j2];
    let ghost first_view = p.0@;
    let first = ChatChoice { message: p.0 };
    if c2 == ',' {
        match parse_chat_choice_list_at(v, j2 + 1, fuel - 1) {
            Some(q) => {
                let (mut rest, jr) = q;
                let ghost rest_views = chat_choice_views(rest@);
                rest.insert(0, first);
                proof {
                    assert(chat_choice_views(rest@) =~= seq![first_view] + rest_views);
                }
                Some((rest, jr))
            },
            None => None,
        }
    } else if c2 == ']' {
        let mut out: Vec<ChatChoice> = Vec::new();
        out.push(first);
        proof {
            assert(chat_choice_views(out@) =~= seq![first_view]);
        }
        Some((out, j2 + 1))
    } else {
        None
    }
}

fn parse_chat_choices_at(v: &Vec<char>, i: usize, fuel: usize) -> (r: Option<
    (Vec<ChatChoice>, usize),
>)
    requires
        i <= v@.len(),
    ensures
        match r {
            Some(p) => i <= p.1 <= v@.len() && parse_chat_choices(v@.skip(i as int), fuel as nat)
                == Some((chat_choice_views(p.0@), v@.skip(p.1 as int))),
            None => parse_chat_choices(v@.skip(i as int), fuel as nat) == None::<
                (Seq<RecordModel>, Seq<char>),
            >,
        },
{
    let j0 = skip_ws_at(v, i);
    if j0 >= v.len() {
        proof {
            assert(v@.skip(j0 as int).len() == 0);
        }
        return None;
    }
    proof {
        assert(v@.skip(j0 as int)[0] == v@[j0 as int]);
        assert(v@.skip(j0 as int).skip(1) =~= v@.skip(j0 as int + 1));
    }
    if v[j0] != '[' {
        return None;
    }
    let j1 = skip_ws_at(v, j0 + 1);
    if j1 < v.len() {
        proof {
            assert(v@.skip(j1 as int)[0] == v@[j1 as int]);
            assert(v@.skip(j1 as int).skip(1) =~= v@.skip(j1 as int + 1));
        }
        if v[j1] == ']' {
            let out: Vec<ChatChoice> = Vec::new();
            proof {
                assert(chat_choice_views(out@) =~= Seq::<RecordModel>::empty());
            }
            return Some((out, j1 + 1));
        }
    } else {
        proof {
            assert(v@.skip(j1 as int).len() == 0);
        }
    }
    parse_chat_choice_list_at(v, j0 + 1, fuel)
}

/// The view of optionally-found candidates.
pub open spec fn choices_opt_view(o: Option<Vec<ChatChoice>>) -> Option<Seq<RecordModel>> {
    match o {
        Some(cs) => Some(chat_choice_views(cs@)),
        None => None,
    }
}

fn parse_chat_members_at(
    v: &Vec<char>,
    i: usize,
    acc: Option<Vec<ChatChoice>>,
    fuel: usize,
) -> (r: Option<(Option<Vec<ChatChoice>>, usize)>)
    requires
        i <= v@.len(),
    ensures
        match r {
            Some(p) => i <= p.1 <= v@.len() && parse_chat_members(
                v@.skip(i as int),
                choices_opt_view(acc),
                fuel as nat,
            ) == Some((choices_opt_view(p.0), v@.skip(p.1 as int))),
            None => parse_chat_members(v@.skip(i as int), choices_opt_view(acc), fuel as nat)
                == None::<(Option<Seq<RecordModel>>, Seq<char>)>,
        },
    decreases fuel,
{
    if fuel == 0 {
        return None;
    }
    let j0 = skip_ws_at(v, i);
    if j0 >= v.len() {
        proof {
            assert(v@.skip(j0 as int).len() == 0);
        }
        return None;
    }
    proof {
        assert(v@.skip(j0 as int)[0] == v@[j0 as int]);
        assert(v@.skip(j0 as int).skip(1) =~= v@.skip(j0 as int + 1));
    }
    let c = v[j0];
    if c == '}' {
        return Some((acc, j0 + 1));
    }
    if c != '"' {
        return None;
    }
    let key = match parse_string_at(v, j0 + 1) {
        Some(p) => p,
        None => {
            return None;
        },
    };
    let j2 = skip_ws_at(v, key.1);
    if j2 >= v.len() {
        proof {
            assert(v@.skip(j2 as int).len() == 0);
        }
        return None;
    }
    proof {
        assert(v@.skip(j2 as int)[0] == v@[j2 as int]);
        assert(v@.skip(j2 as int).skip(1) =~= v@.skip(j2 as int + 1));
    }
    if v[j2] != ':' {
        return None;
    }
    let is_choices = chars_eq_str(&key.0, "choices");
    let (new_acc, after_pos): (Option<Vec<ChatChoice>>, usize) = if is_choices {
        match parse_chat_choices_at(v, j2 + 1, fuel - 1) {
            Some(p) => (Some(p.0), p.1),
            None => {
                return None;
            },
        }
    } else {
        match skip_value_at(v, j2 + 1, fuel - 1) {
            Some(j) => (acc, j),
            None => {
                return None;
            },
        }
    };
    let j4 = skip_ws_at(v, after_pos);
    if j4 >= v.len() {
        proof {
            assert(v@.skip(j4 as int).len() == 0);
        }
        return None;
    }
    proof {
        assert(v@.skip(j4 as int)[0] == v@[j4 as int]);
        assert(v@.skip(j4 as int).skip(1) =~= v@.skip(j4 as int + 1));
    }
    let c4 = v[j4];
    if c4 == ',' {
        parse_chat_members_at(v, j4 + 1, new_acc, fuel - 1)
    } else if c4 == '}' {
        Some((new_acc, j4 + 1))
    } else {
        None
    }
}

/// Decodes a multi-turn completion response body, `None` where it does not
/// follow the response schema.
pub fn decode_chat_response(body: &str) -> (r: Option<ChatApiResponse>)
    ensures
        match r {
            Some(resp) => parse_chat_response(body@) == Some(resp@),
            None => parse_chat_response(body@) == None::<Seq<RecordModel>>,
        },
{
    let cs = chars_of(body);
    proof {
        assert(cs@.skip(0) =~= cs@);
    }
    let j0 = skip_ws_at(&cs, 0);
    if j0 >= cs.len() {
        proof {
            assert(cs@.skip(j0 as int).len() == 0);
        }
        return None;
    }
    proof {
        assert(cs@.skip(j0 as int)[0] == cs@[j0 as int]);
        assert(cs@.skip(j0 as int).skip(1) =~= cs@.skip(j0 as int + 1));
    }
    if cs[j0] != '{' {
        return None;
    }
    let n = cs.len();
    match parse_chat_members_at(&cs, j0 + 1, None, n) {
        None => None,
        Some((acc, j)) => {
            let je = skip_ws_at(&cs, j);
            if je < cs.len() {
                proof {
                    assert(skip_ws(cs@.skip(j as int)).len() > 0);
                }
                return None;
            }
            proof {
                assert(skip_ws(cs@.skip(j as int)).len() == 0);
            }
            match acc {
                Some(cv) => Some(ChatApiResponse { choices: cv }),
                None => None,
            }
        },
    }
}

// ---------------------------------------------------------------------------
// Request payloads
// ---------------------------------------------------------------------------
/// Mathematical value of an `ApiCall`.
pub ghost struct ApiCallModel {
    pub model: Seq<char>,
    pub prompt: Seq<char>,
    pub temperature: int,
    pub max_tokens: int,
}

/// The fixed parameters and prompt of one single-turn completion request.
#[derive(Debug)]
pub struct ApiCall {
    pub model: String,
    pub prompt: String,
    pub temperature: u8,
    pub max_tokens: i32,
}

impl View for ApiCall {
    type V = ApiCallModel;

    open spec fn view(&self) -> ApiCallModel {
        ApiCallModel {
            model: self.model@,
            prompt: self.prompt@,
            temperature: self.temperature as int,
            max_tokens: self.max_tokens as int,
        }
    }
}

/// The single-turn request payload in canonical form.
pub open spec fn enc_text_call(c: ApiCallModel) -> Seq<char> {
    "{\"model\":\""@ + esc_str(c.model) + "\",\"prompt\":\""@ + esc_str(c.prompt)
        + "\",\"temperature\":"@ + dec_str(c.temperature as nat) + ",\"max_tokens\":"@
        + dec_str_int(c.max_tokens) + "}"@
}

impl ApiCall {
    pub fn from(model: String, prompt: String, temperature: u8, max_tokens: i32) -> (r: ApiCall)
        ensures
            r@ == (ApiCallModel {
                model: model@,
                prompt: prompt@,
                temperature: temperature as int,
                max_tokens: max_tokens as int,
            }),
    {
        ApiCall { model, prompt, temperature, max_tokens }
    }

    pub fn get_prompt(&self) -> (r: String)
        ensures
            r@ == self@.prompt,
    {
        self.prompt.clone()
    }

    pub fn get_model(&self) -> (r: String)
        ensures
            r@ == self@.model,
    {
        self.model.clone()
    }

    /// The request body this call is sent as.
    pub fn payload(&self) -> (r: String)
        ensures
            r@ == enc_text_call(self@),
    {
        let mut out: Vec<char> = Vec::new();
        push_str_chars(&mut out, "{\"model\":\"");
        let mc = chars_of(self.model.as_str());
        push_escaped(&mut out, &mc);
        push_str_chars(&mut out, "\",\"prompt\":\"");
        let pc = chars_of(self.prompt.as_str());
        push_escaped(&mut out, &pc);
        push_str_chars(&mut out, "\",\"temperature\":");
        push_dec_u64(&mut out, self.temperature as u64);
        push_str_chars(&mut out, ",\"max_tokens\":");
        push_dec_i64(&mut out, self.max_tokens as i64);
        push_str_chars(&mut out, "}");
        proof {
            assert(out@ =~= enc_text_call(self@));
        }
        string_from_chars(&out)
    }
}

/// Mathematical value of a `ChatApiRequest`.
pub ghost struct ChatReqModel {
    pub model: Seq<char>,
    pub messages: Seq<RecordModel>,
}

/// A multi-turn completion request: the model and the whole conversation so
/// far.
#[derive(Debug)]
pub struct ChatApiRequest {
    pub model: String,
    pub messages: Vec<ChatMessage>,
}

impl View for ChatApiRequest {
    type V = ChatReqModel;

    open spec fn view(&self) -> ChatReqModel {
        ChatReqModel { model: self.model@, messages: records_of(self.messages@) }
    }
}

/// The multi-turn request payload in canonical form: the messages are written
/// exactly as the transcript format writes them.
pub open spec fn enc_chat_request(r: ChatReqModel) -> Seq<char> {
    "{\"model\":\""@ + esc_str(r.model) + "\",\"messages\":"@ + enc_transcript(r.messages) + "}"@
}

impl ChatApiRequest {
    pub fn from(model: String, messages: Vec<ChatMessage>) -> (r: Self)
        ensures
            r@ == (ChatReqModel { model: model@, messages: records_of(messages@) }),
    {
        ChatApiRequest { model, messages }
    }

    /// The request body this request is sent as.
    pub fn payload(&self) -> (r: String)
        ensures
            r@ == enc_chat_request(self@),
    {
        let mut out: Vec<char> = Vec::new();
        push_str_chars(&mut out, "{\"model\":\"");
        let mc = chars_of(self.model.as_str());
        push_escaped(&mut out, &mc);
        push_str_chars(&mut out, "\",\"messages\":");
        let mut body = encode_transcript(&self.messages);
        out.append(&mut body);
        push_str_chars(&mut out, "}");
        proof {
            assert(out@ =~= enc_chat_request(self@));
        }
        string_from_chars(&out)
    }
}

// ---------------------------------------------------------------------------
// The gateway
// ---------------------------------------------------------------------------
/// Which backend variant a session talks to.
#[derive(Clone, Copy, PartialEq, Eq, Structural, Debug)]
pub enum CallType {
    Chat,
    Text,
}

/// The body of the turn synthesized when a request fails in transport or in
/// decoding.
pub open spec fn fallback_text() -> Seq<char> {
    "something went wrong in the request (probably problem parsing the response), try again"@
}

/// The turn synthesized when a request fails: a model-side answer with a
/// fixed body.
pub open spec fn fallback_turn() -> TurnModel {
    TurnModel { role: Role::Assistant, body: fallback_text(), origin: MessageType::Answer }
}

/// The view of an optional response body.
pub open spec fn opt_str_view(o: Option<&str>) -> Option<Seq<char>> {
    match o {
        Some(s) => Some(s@),
        None => None,
    }
}

/// Did the outcome carry a well-formed response with at least one
/// candidate?
pub open spec fn completion_ok(ct: CallType, outcome: Option<Seq<char>>) -> bool {
    match outcome {
        None => false,
        Some(body) => match ct {
            CallType::Text => match parse_text_response(body) {
                Some(m) => m.choices.len() > 0,
                None => false,
            },
            CallType::Chat => match parse_chat_response(body) {
                Some(cs) => cs.len() > 0,
                None => false,
            },
        },
    }
}

/// The sender-labelled form one request outcome is shown in: a successful
/// single-turn completion under the model the response itself names, a
/// successful multi-turn one under the selected model, and any failure under
/// the fixed error label.
pub open spec fn completion_display(
    ct: CallType,
    model_name: Seq<char>,
    outcome: Option<Seq<char>>,
) -> DisplayModel {
    if completion_ok(ct, outcome) {
        let sender = match ct {
            CallType::Text => match outcome {
                Some(body) => match parse_text_response(body) {
                    Some(m) => m.model,
                    None => model_name,
                },
                None => model_name,
            },
            CallType::Chat => model_name,
        };
        DisplayModel {
            sender,
            body: completion_turn(ct, outcome).body,
            message_type: MessageType::Answer,
        }
    } else {
        DisplayModel {
            sender: error_sender(),
            body: fallback_text(),
            message_type: MessageType::Answer,
        }
    }
}

/// The turn one request outcome resolves to: the first candidate's text as a
/// model answer, or the fixed fallback turn on a transport failure (`None`),
/// on a body that does not decode, and on a response without candidates.
pub open spec fn completion_turn(ct: CallType, outcome: Option<Seq<char>>) -> TurnModel {
    match outcome {
        None => fallback_turn(),
        Some(body) => match ct {
            CallType::Text => match parse_text_response(body) {
                Some(m) => if m.choices.len() > 0 {
                    TurnModel {
                        role: Role::Assistant,
                        body: m.choices[0],
                        origin: MessageType::Answer,
                    }
                } else {
                    fallback_turn()
                },
                None => fallback_turn(),
            },
            CallType::Chat => match parse_chat_response(body) {
                Some(cs) => if cs.len() > 0 {
                    TurnModel {
                        role: Role::Assistant,
                        body: cs[0].content,
                        origin: MessageType::Answer,
                    }
                } else {
                    fallback_turn()
                },
                None => fallback_turn(),
            },
        },
    }
}

/// Builds provider requests from the conversation and resolves every request
/// outcome into a well-formed turn. It performs no transport itself: the
/// caller hands it the response body, or `None` for a transport failure.
pub struct ApiManager {
    pub call_type: CallType,
    pub token: String,
    pub selected_model: String,
    pub text_model: String,
    pub temperature: u8,
    pub max_tokens: i32,
}

impl ApiManager {
    pub fn new(token: String) -> (r: ApiManager)
        ensures
            r.call_type == CallType::Chat,
            r.token@ == token@,
            r.selected_model@ == "gpt-3.5-turbo"@,
            r.text_model@ == "text-davinci-003"@,
            r.temperature == 0,
            r.max_tokens == 1000,
    {
        ApiManager {
            call_type: CallType::Chat,
            token,
            selected_model: String::from_str("gpt-3.5-turbo"),
            text_model: String::from_str("text-davinci-003"),
            temperature: 0,
            max_tokens: 1000,
        }
    }

    pub fn get_token(&self) -> (r: String)
        ensures
            r@ == self.token@,
    {
        self.token.clone()
    }

    /// The request body for one completion call: the whole snapshot for the
    /// multi-turn backend, the query text alone for the single-turn one.
    pub fn build_request(&self, snapshot: &Vec<Turn>, query: &String) -> (r: String)
        ensures
            r@ == match self.call_type {
                CallType::Chat => enc_chat_request(
                    ChatReqModel {
                        model: self.selected_model@,
                        messages: records_of_log(turn_views(snapshot@)),
                    },
                ),
                CallType::Text => enc_text_call(
                    ApiCallModel {
                        model: self.text_model@,
                        prompt: query@,
                        temperature: self.temperature as int,
                        max_tokens: self.max_tokens as int,
                    },
                ),
            },
    {
        match self.call_type {
            CallType::Chat => {
                let records = records_from_turns(snapshot);
                let req = ChatApiRequest::from(self.selected_model.clone(), records);
                req.payload()
            },
            CallType::Text => {
                let call = ApiCall::from(
                    self.text_model.clone(),
                    query.clone(),
                    self.temperature,
                    self.max_tokens,
                );
                call.payload()
            },
        }
    }

    /// Resolves one request outcome into the turn that is appended to the
    /// log. `None` stands for a transport failure; a body that does not
    /// decode, or decodes to a response without candidates, counts as a
    /// decode failure. Either failure yields the fixed fallback turn — this
    /// function never fails.
    pub fn complete(&self, outcome: Option<&str>) -> (t: Turn)
        ensures
            t@ == completion_turn(self.call_type, opt_str_view(outcome)),
            outcome is None ==> t@ == fallback_turn(),
            t@.role == Role::Assistant,
            t@.origin == MessageType::Answer,
    {
        let (t, _) = self.complete_shown(outcome);
        t
    }

    /// As `complete`, and also says how the turn is shown: a single-turn
    /// answer under the model the response names, a multi-turn answer under
    /// the selected model, a synthesized one under the fixed error label.
    pub fn complete_shown(&self, outcome: Option<&str>) -> (r: (Turn, DisplayMessage))
        ensures
            r.0@ == completion_turn(self.call_type, opt_str_view(outcome)),
            r.1@ == completion_display(
                self.call_type,
                self.selected_model@,
                opt_str_view(outcome),
            ),
    {
        match outcome {
            None => fallback_pair(),
            Some(body) => match self.call_type {
                CallType::Text => match decode_text_response(body) {
                    Some(resp) => if resp.choices.len() > 0 {
                        let t = Turn::new(
                            Role::Assistant,
                            resp.choices[0].get_answer(),
                            MessageType::Answer,
                        );
                        let shown = DisplayMessage::from(
                            resp.get_model(),
                            resp.choices[0].get_answer(),
                            MessageType::Answer,
                        );
                        (t, shown)
                    } else {
                        fallback_pair()
                    },
                    None => fallback_pair(),
                },
                CallType::Chat => match decode_chat_response(body) {
                    Some(resp) => if resp.choices.len() > 0 {
                        let msg = resp.get_first_choice().get_message();
                        let t = Turn::new(Role::Assistant, msg.content, MessageType::Answer);
                        let shown = self.translate_to_display(&t);
                        (t, shown)
                    } else {
                        fallback_pair()
                    },
                    None => fallback_pair(),
                },
            },
        }
    }

    /// The sender-labelled form one turn is rendered in: queries under the
    /// plain `user` label, answers under the selected model's name, system
    /// turns blanked (the display drops them anyway).
    pub fn translate_to_display(&self, t: &Turn) -> (m: DisplayMessage)
        ensures
            m@ == translated(self.selected_model@, t@),
    {
        match t.role {
            Role::User => DisplayMessage::from(
                String::from_str("user"),
                t.body.clone(),
                MessageType::Query,
            ),
            Role::System => DisplayMessage::from(
                String::from_str("system"),
                String::from_str(""),
                MessageType::Query,
            ),
            Role::Assistant => DisplayMessage::from(
                self.selected_model.clone(),
                t.body.clone(),
                MessageType::Answer,
            ),
        }
    }
}

/// The sender-labelled form a turn with the given role and body is rendered
/// in, under the given model name.
pub open spec fn translated(model_name: Seq<char>, t: TurnModel) -> DisplayModel {
    match t.role {
        Role::User => DisplayModel {
            sender: "user"@,
            body: t.body,
            message_type: MessageType::Query,
        },
        Role::System => DisplayModel {
            sender: "system"@,
            body: ""@,
            message_type: MessageType::Query,
        },
        Role::Assistant => DisplayModel {
            sender: model_name,
            body: t.body,
            message_type: MessageType::Answer,
        },
    }
}

impl ApiManager {
    /// The whole shown conversation: every non-system turn of the log,
    /// translated to its sender-labelled form, in order.
    pub fn get_display_chat(&self, log: &ConversationLog) -> (r: Vec<DisplayMessage>)
        ensures
            r@.len() == log@.filter(visible_pred()).len(),
            forall|j: int|
                0 <= j < r@.len() ==> #[trigger] r@[j]@ == translated(
                    self.selected_model@,
                    log@.filter(visible_pred())[j],
                ),
    {
        let visible = log.visible_turns();
        let ghost shown = log@.filter(visible_pred());
        let mut r: Vec<DisplayMessage> = Vec::new();
        let mut i: usize = 0;
        while i < visible.len()
            invariant
                i <= visible@.len(),
                turn_views(visible@) == shown,
                shown.len() == visible@.len(),
                r@.len() == i,
                forall|j: int|
                    0 <= j < i ==> #[trigger] r@[j]@ == translated(self.selected_model@, shown[j]),
            decreases visible@.len() - i,
        {
            proof {
                assert(shown[i as int] == visible@[i as int]@);
            }
            let m = self.translate_to_display(&visible[i]);
            r.push(m);
            i = i + 1;
        }
        r
    }
}

/// The fixed turn every failed request resolves to, with the form it is
/// shown in.
fn fallback_pair() -> (r: (Turn, DisplayMessage))
    ensures
        r.0@ == fallback_turn(),
        r.1@ == (DisplayModel {
            sender: error_sender(),
            body: fallback_text(),
            message_type: MessageType::Answer,
        }),
{
    let t = fallback_answer();
    let shown = DisplayMessage::error(t.body.clone());
    (t, shown)
}

/// The fixed turn every failed request resolves to.
fn fallback_answer() -> (t: Turn)
    ensures
        t@ == fallback_turn(),
{
    Turn::new(
        Role::Assistant,
        String::from_str(
            "something went wrong in the request (probably problem parsing the response), try again",
        ),
        MessageType::Answer,
    )
}

} // verus!
