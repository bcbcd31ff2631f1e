//! Conversation data model: one `Turn` per message, the `{role, content}`
//! record shape it is persisted and sent in, and the sender-labelled form the
//! interface renders.

use vstd::prelude::*;
use vstd::string::*;

verus! {

/// Protocol-facing part a turn is spoken in. `System` turns are never
/// rendered.
#[derive(Clone, Copy, PartialEq, Eq, Structural, Debug)]
pub enum Role {
    System,
    User,
    Assistant,
}

/// Display-facing origin of a message, independent of its role.
#[derive(Clone, Copy, PartialEq, Eq, Structural, Debug)]
pub enum MessageType {
    Query,
    Answer,
}

/// Mathematical value of a `Turn`.
pub ghost struct TurnModel {
    pub role: Role,
    pub body: Seq<char>,
    pub origin: MessageType,
}

impl TurnModel {
    /// The part of a turn that persistence keeps: display styling is derived
    /// again on load.
    pub open spec fn record(self) -> (Role, Seq<char>) {
        (self.role, self.body)
    }
}

/// One conversational entry, immutable once created.
#[derive(Debug)]
pub struct Turn {
    pub role: Role,
    pub body: String,
    pub origin: MessageType,
}

impl View for Turn {
    type V = TurnModel;

    open spec fn view(&self) -> TurnModel {
        TurnModel { role: self.role, body: self.body@, origin: self.origin }
    }
}

/// The canonical name a role is persisted and sent under.
pub open spec fn role_name(r: Role) -> Seq<char> {
    match r {
        Role::System => "system"@,
        Role::User => "user"@,
        Role::Assistant => "assistant"@,
    }
}

/// The role a persisted name maps back to. Any name other than the two
/// reserved ones counts as a model answer, as the display translation always
/// did.
pub open spec fn role_of_name(s: Seq<char>) -> Role {
    if s == "user"@ {
        Role::User
    } else if s == "system"@ {
        Role::System
    } else {
        Role::Assistant
    }
}

/// The display origin a role implies when a transcript is rehydrated.
pub open spec fn origin_for_role(r: Role) -> MessageType {
    match r {
        Role::Assistant => MessageType::Answer,
        _ => MessageType::Query,
    }
}

impl Clone for Turn {
    fn clone(&self) -> (res: Self)
        ensures
            res == *self,
    {
        Turn { role: self.role, body: self.body.clone(), origin: self.origin }
    }
}

impl Turn {
    pub fn new(role: Role, body: String, origin: MessageType) -> (t: Turn)
        ensures
            t@ == (TurnModel { role, body: body@, origin }),
    {
        Turn { role, body, origin }
    }

    /// The turn a loaded `{role, content}` record stands for.
    pub fn of_record(role: Role, body: String) -> (t: Turn)
        ensures
            t@ == (TurnModel { role, body: body@, origin: origin_for_role(role) }),
    {
        let origin = match role {
            Role::Assistant => MessageType::Answer,
            _ => MessageType::Query,
        };
        Turn { role, body, origin }
    }
}

/// Mathematical value of a `ChatMessage`.
pub ghost struct RecordModel {
    pub role: Seq<char>,
    pub content: Seq<char>,
}

/// The flat `{role, content}` record of the transcript file and of the chat
/// request payload.
#[derive(Debug)]
pub struct ChatMessage {
    pub role: String,
    pub content: String,
}

impl View for ChatMessage {
    type V = RecordModel;

    open spec fn view(&self) -> RecordModel {
        RecordModel { role: self.role@, content: self.content@ }
    }
}

impl Clone for ChatMessage {
    fn clone(&self) -> (res: Self)
        ensures
            res == *self,
    {
        ChatMessage { role: self.role.clone(), content: self.content.clone() }
    }
}

impl ChatMessage {
    pub fn from(role: String, content: String) -> (m: ChatMessage)
        ensures
            m@ == (RecordModel { role: role@, content: content@ }),
    {
        ChatMessage { role, content }
    }

    pub fn get_role(&self) -> (r: &String)
        ensures
            r@ == self@.role,
    {
        &self.role
    }

    pub fn get_content(&self) -> (r: &String)
        ensures
            r@ == self@.content,
    {
        &self.content
    }
}

/// Mathematical value of a `DisplayMessage`.
pub ghost struct DisplayModel {
    pub sender: Seq<char>,
    pub body: Seq<char>,
    pub message_type: MessageType,
}

/// A turn as the interface shows it: a sender label, a body, and the origin
/// that picks its styling.
#[derive(Debug)]
pub struct DisplayMessage {
    pub sender: String,
    pub body: String,
    pub message_type: MessageType,
}

impl View for DisplayMessage {
    type V = DisplayModel;

    open spec fn view(&self) -> DisplayModel {
        DisplayModel {
            sender: self.sender@,
            body: self.body@,
            message_type: self.message_type,
        }
    }
}

impl Clone for DisplayMessage {
    fn clone(&self) -> (res: Self)
        ensures
            res == *self,
    {
        DisplayMessage {
            sender: self.sender.clone(),
            body: self.body.clone(),
            message_type: self.message_type,
        }
    }
}

impl DisplayMessage {
    pub fn from(sender: String, body: String, message_type: MessageType) -> (m: DisplayMessage)
        ensures
            m@ == (DisplayModel { sender: sender@, body: body@, message_type }),
    {
        DisplayMessage { sender, body, message_type }
    }

    pub fn get_sender(&self) -> (r: &String)
        ensures
            r@ == self@.sender,
    {
        &self.sender
    }

    pub fn get_body(&self) -> (r: &String)
        ensures
            r@ == self@.body,
    {
        &self.body
    }

    /// The label errors are reported under.
    pub fn error(arg: String) -> (m: DisplayMessage)
        ensures
            m@ == (DisplayModel {
                sender: error_sender(),
                body: arg@,
                message_type: MessageType::Answer,
            }),
    {
        DisplayMessage::from(String::from_str("YAS - your average system"), arg, MessageType::Answer)
    }
}

/// The sender label of locally synthesized messages.
pub open spec fn error_sender() -> Seq<char> {
    "YAS - your average system"@
}

} // verus!
