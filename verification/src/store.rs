//! The ordered, append-only message store, and its whole-file load and save
//! in the flat transcript format.

use vstd::prelude::*;
use vstd::string::*;
use crate::codec::{
    decode_transcript, enc_transcript, encode_transcript, parse_transcript, records_of,
    lemma_transcript_round_trip,
};
use crate::turn::{
    origin_for_role, role_name, role_of_name, ChatMessage, RecordModel, Role, Turn, TurnModel,
};
use crate::util::{chars_of, string_from_chars};

verus! {

/// Why a transcript source could not be loaded. `NotFound` is reported by the
/// caller that reads the source; parsing itself can only find the content
/// `Malformed`.
#[derive(Clone, Copy, PartialEq, Eq, Structural, Debug)]
pub enum LoadError {
    NotFound,
    Malformed,
}

/// The record a turn is persisted as.
pub open spec fn record_of_turn(t: TurnModel) -> RecordModel {
    RecordModel { role: role_name(t.role), content: t.body }
}

/// The records a whole log is persisted as.
pub open spec fn records_of_log(log: Seq<TurnModel>) -> Seq<RecordModel> {
    log.map_values(|t: TurnModel| record_of_turn(t))
}

/// The turn a loaded record is rehydrated to: its role decides the display
/// origin again.
pub open spec fn turn_of_record(r: RecordModel) -> TurnModel {
    TurnModel {
        role: role_of_name(r.role),
        body: r.content,
        origin: origin_for_role(role_of_name(r.role)),
    }
}

pub open spec fn turns_of_records(rs: Seq<RecordModel>) -> Seq<TurnModel> {
    rs.map_values(|r: RecordModel| turn_of_record(r))
}

/// The views of the turns in `ts`, in order.
pub open spec fn turn_views(ts: Seq<Turn>) -> Seq<TurnModel> {
    ts.map_values(|t: Turn| t@)
}

/// Keeps every turn the display shows: all but the system ones.
pub open spec fn visible_pred() -> spec_fn(TurnModel) -> bool {
    |t: TurnModel| t.role != Role::System
}

/// Ordered sequence of conversation turns, insertion order being
/// chronological and protocol order. Turns are only ever appended; `load`
/// replaces the sequence wholesale.
pub struct ConversationLog {
    pub turns: Vec<Turn>,
}

impl View for ConversationLog {
    type V = Seq<TurnModel>;

    open spec fn view(&self) -> Seq<TurnModel> {
        turn_views(self.turns@)
    }
}

proof fn lemma_turn_views_push(ts: Seq<Turn>, t: Turn)
    ensures
        turn_views(ts.push(t)) == turn_views(ts).push(t@),
{
    assert(turn_views(ts.push(t)) =~= turn_views(ts).push(t@));
}

/// The turns as the `{role, content}` records they are persisted and sent
/// as, roles under their canonical names.
pub fn records_from_turns(ts: &Vec<Turn>) -> (r: Vec<ChatMessage>)
    ensures
        records_of(r@) == records_of_log(turn_views(ts@)),
{
    let ghost log = turn_views(ts@);
    let mut records: Vec<ChatMessage> = Vec::new();
    let mut i: usize = 0;
    proof {
        assert(records_of(records@) =~= records_of_log(log.take(0)));
    }
    while i < ts.len()
        invariant
            i <= ts@.len(),
            log == turn_views(ts@),
            log.len() == ts@.len(),
            records_of(records@) == records_of_log(log.take(i as int)),
        decreases ts@.len() - i,
    {
        proof {
            assert(log[i as int] == ts@[i as int]@);
        }
        let t = &ts[i];
        let name: String = match t.role {
            Role::System => String::from_str("system"),
            Role::User => String::from_str("user"),
            Role::Assistant => String::from_str("assistant"),
        };
        let rec = ChatMessage::from(name, t.body.clone());
        proof {
            assert(rec@ == record_of_turn(log[i as int]));
        }
        let ghost old_records = records@;
        records.push(rec);
        proof {
            assert(log.take(i as int + 1) =~= log.take(i as int).push(log[i as int]));
            assert(records@ == old_records.push(rec));
            assert(records_of(records@) =~= records_of(old_records).push(rec@));
            assert(records_of(records@) =~= records_of_log(log.take(i as int + 1)));
        }
        i = i + 1;
    }
    proof {
        assert(log.take(ts@.len() as int) =~= log);
    }
    records
}

impl ConversationLog {
    /// An empty log.
    pub fn new() -> (log: ConversationLog)
        ensures
            log@ == Seq::<TurnModel>::empty(),
    {
        let log = ConversationLog { turns: Vec::new() };
        proof {
            assert(log@ =~= Seq::<TurnModel>::empty());
        }
        log
    }

    pub fn len(&self) -> (n: usize)
        ensures
            n == self@.len(),
    {
        self.turns.len()
    }

    /// Adds a turn at the tail; everything already in the log stays where it
    /// was.
    pub fn append(&mut self, t: Turn)
        ensures
            final(self)@ == old(self)@.push(t@),
    {
        proof {
            lemma_turn_views_push(self.turns@, t);
        }
        self.turns.push(t);
    }

    /// The whole log, system turns included, for building outgoing requests.
    pub fn snapshot(&self) -> (r: &Vec<Turn>)
        ensures
            turn_views(r@) == self@,
    {
        &self.turns
    }

    /// All turns except the system ones, in original order, recomputed from
    /// the log as it is now.
    pub fn visible_turns(&self) -> (r: Vec<Turn>)
        ensures
            turn_views(r@) == self@.filter(visible_pred()),
    {
        let mut r: Vec<Turn> = Vec::new();
        let mut i: usize = 0;
        proof {
            reveal(Seq::filter);
            assert(self@.take(0) =~= Seq::<TurnModel>::empty());
            assert(turn_views(r@) =~= self@.take(0).filter(visible_pred()));
        }
        while i < self.turns.len()
            invariant
                i <= self.turns@.len(),
                self@.len() == self.turns@.len(),
                turn_views(r@) == self@.take(i as int).filter(visible_pred()),
            decreases self.turns@.len() - i,
        {
            let ghost prefix = self@.take(i as int);
            let ghost t_model = self@[i as int];
            proof {
                assert(t_model == self.turns@[i as int]@);
                assert(self@.take(i as int + 1) =~= prefix.push(t_model));
                assert(prefix.push(t_model).drop_last() =~= prefix);
                assert(prefix.push(t_model).last() == t_model);
            }
            proof {
                reveal(Seq::filter);
                assert(visible_pred()(t_model) == (t_model.role != Role::System));
                assert(self@.take(i as int + 1).filter(visible_pred()) == if visible_pred()(
                    t_model,
                ) {
                    prefix.filter(visible_pred()).push(t_model)
                } else {
                    prefix.filter(visible_pred())
                });
            }
            let keep = match self.turns[i].role {
                Role::System => false,
                _ => true,
            };
            if keep {
                let ghost old_r = r@;
                r.push(self.turns[i].clone());
                proof {
                    lemma_turn_views_push(old_r, self.turns@[i as int]);
                    assert(visible_pred()(t_model));
                    assert(turn_views(r@) == turn_views(old_r).push(t_model));
                }
            } else {
                proof {
                    assert(!visible_pred()(t_model));
                }
            }
            proof {
                assert(turn_views(r@) == self@.take(i as int + 1).filter(visible_pred()));
            }
            i = i + 1;
        }
        proof {
            assert(self@.take(self.turns@.len() as int) =~= self@);
        }
        r
    }

    /// Writes the whole log in the transcript format, system turns included.
    pub fn save(&self) -> (r: String)
        ensures
            r@ == enc_transcript(records_of_log(self@)),
    {
        let records = records_from_turns(&self.turns);
        let encoded = encode_transcript(&records);
        string_from_chars(&encoded)
    }

    /// Replaces the whole log with the parsed contents of `content`, or — on
    /// content that does not follow the transcript grammar — reports it
    /// `Malformed` and leaves the log untouched.
    pub fn load(&mut self, content: &str) -> (r: Result<(), LoadError>)
        ensures
            match r {
                Ok(()) => {
                    &&& parse_transcript(content@) matches Some(records)
                    &&& final(self)@ == turns_of_records(records)
                },
                Err(e) => {
                    &&& e == LoadError::Malformed
                    &&& parse_transcript(content@) == None::<Seq<RecordModel>>
                    &&& final(self)@ == old(self)@
                },
            },
    {
        let cs = chars_of(content);
        let decoded = match decode_transcript(&cs) {
            Some(ms) => ms,
            None => {
                return Err(LoadError::Malformed);
            },
        };
        let ghost records = records_of(decoded@);
        let user_name = String::from_str("user");
        let system_name = String::from_str("system");
        let mut turns: Vec<Turn> = Vec::new();
        let mut i: usize = 0;
        proof {
            assert(turn_views(turns@) =~= turns_of_records(records.take(0)));
        }
        while i < decoded.len()
            invariant
                i <= decoded@.len(),
                records == records_of(decoded@),
                records.len() == decoded@.len(),
                user_name@ == "user"@,
                system_name@ == "system"@,
                turn_views(turns@) == turns_of_records(records.take(i as int)),
            decreases decoded@.len() - i,
        {
            proof {
                assert(records[i as int] == decoded@[i as int]@);
            }
            let m = &decoded[i];
            let role: Role = if m.role == user_name {
                Role::User
            } else if m.role == system_name {
                Role::System
            } else {
                Role::Assistant
            };
            proof {
                assert(role == role_of_name(records[i as int].role));
            }
            let t = Turn::of_record(role, m.content.clone());
            let ghost old_turns = turns@;
            turns.push(t);
            proof {
                lemma_turn_views_push(old_turns, t);
                assert(records.take(i as int + 1) =~= records.take(i as int).push(
                    records[i as int],
                ));
                assert(turn_views(turns@) =~= turns_of_records(records.take(i as int + 1)));
            }
            i = i + 1;
        }
        proof {
            assert(records.take(decoded@.len() as int) =~= records);
        }
        self.turns = turns;
        Ok(())
    }
}

/// A role survives the trip through its persisted name.
pub proof fn lemma_role_round_trip(r: Role)
    ensures
        role_of_name(role_name(r)) == r,
{
    reveal_strlit("user");
    reveal_strlit("system");
    reveal_strlit("assistant");
    assert("user"@.len() == 4);
    assert("system"@.len() == 6);
    assert("assistant"@.len() == 9);
}

/// Round trip of persistence: saving a log and loading the result yields a
/// log with the same ordered `(role, body)` pairs, system turns included.
/// Display origins are derived from the roles again.
pub proof fn lemma_save_load_round_trip(log: Seq<TurnModel>)
    ensures
        parse_transcript(enc_transcript(records_of_log(log))) == Some(records_of_log(log)),
        turns_of_records(records_of_log(log)).len() == log.len(),
        forall|i: int|
            0 <= i < log.len() ==> #[trigger] turns_of_records(records_of_log(log))[i].record()
                == log[i].record(),
{
    lemma_transcript_round_trip(records_of_log(log));
    assert forall|i: int| 0 <= i < log.len() implies #[trigger] turns_of_records(
        records_of_log(log),
    )[i].record() == log[i].record() by {
        lemma_role_round_trip(log[i].role);
    }
}

} // verus!
