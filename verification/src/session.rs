//! The session controller: the input-mode state machine over
//! `{Normal, Insert, Command}`, the compose and command buffers, the scroll
//! position, and the sequencing of one submit — append the query, hand the
//! request out, resolve the outcome into a turn, append it, scroll to the
//! bottom.

use vstd::prelude::*;
use vstd::string::*;
use crate::layout::{max_offset_of, recompute_scroll, views_of};
use crate::provider::{ApiManager, CallType};
use crate::store::ConversationLog;
use crate::turn::{DisplayMessage, DisplayModel, MessageType, Role, Turn, TurnModel};
use crate::util::{string_pop, string_push};

verus! {

/// The three input modes of the interface.
#[derive(Clone, Copy, PartialEq, Eq, Structural, Debug)]
pub enum InputMode {
    Normal,
    Insert,
    Command,
}

/// Whether the last command dispatch succeeded.
#[derive(Clone, Copy, PartialEq, Eq, Structural, Debug)]
pub enum CommandStatus {
    Okay,
    Error,
}

/// One discrete input event, as the interface loop hands it over. Which key
/// maps to which event is the loop's affair; what each event does in each
/// mode is decided here.
#[derive(Clone, Copy, PartialEq, Eq, Structural, Debug)]
pub enum UiEvent {
    Key(char),
    Backspace,
    Enter,
    Esc,
    Resize(u16, u16),
}

/// What the interface loop must do after an event is handled.
#[derive(Clone, Copy, PartialEq, Eq, Structural, Debug)]
pub enum SessionAction {
    /// Nothing beyond redrawing.
    Nothing,
    /// A query was appended: build the request, perform the call, and hand
    /// the outcome to `apply_completion`.
    Submit,
    /// Leave the session.
    Quit,
}

/// The whole session state, owned by the event loop and passed explicitly.
pub struct App {
    pub username: String,
    /// Text being typed in insert mode.
    pub display_input: String,
    /// The query of the submit in flight.
    pub internal_input: String,
    pub input_mode: InputMode,
    /// Protocol-facing store of the conversation.
    pub log: ConversationLog,
    /// Render-facing history, one entry per shown turn.
    pub content: Vec<DisplayMessage>,
    pub scroll: usize,
    pub max_offset: usize,
    pub command: String,
    pub command_status: CommandStatus,
    /// Terminal cells available to the transcript: `(width, height)`.
    pub size: (u16, u16),
    pub api_manager: Option<ApiManager>,
}

impl App {
    /// The standing invariant: the scroll offset never passes the recorded
    /// bound, and the viewport is at least one column wide.
    pub open spec fn wf(self) -> bool {
        &&& self.scroll <= self.max_offset
        &&& self.size.0 >= 1
    }

    pub fn new(width: u16, height: u16) -> (app: App)
        requires
            width >= 1,
        ensures
            app.wf(),
            app.username@ == Seq::<char>::empty(),
            app.display_input@ == Seq::<char>::empty(),
            app.internal_input@ == Seq::<char>::empty(),
            app.input_mode == InputMode::Normal,
            app.log@ == Seq::<TurnModel>::empty(),
            app.content@ == Seq::<DisplayMessage>::empty(),
            app.scroll == 0,
            app.max_offset == 0,
            app.command@ == Seq::<char>::empty(),
            app.command_status == CommandStatus::Okay,
            app.size == (width, height),
            app.api_manager is None,
    {
        let app = App {
            username: String::new(),
            display_input: String::new(),
            internal_input: String::new(),
            input_mode: InputMode::Normal,
            log: ConversationLog::new(),
            content: Vec::new(),
            scroll: 0,
            max_offset: 0,
            command: String::new(),
            command_status: CommandStatus::Okay,
            size: (width, height),
            api_manager: None,
        };
        proof {
            assert(app.content@ =~= Seq::<DisplayMessage>::empty());
        }
        app
    }

    /// Is a command being shown or typed?
    pub fn command_active(&self) -> (r: bool)
        ensures
            r == (self.command@.len() != 0),
    {
        !self.command.as_str().is_empty()
    }

    /// Gives the session a gateway holding this access token.
    pub fn set_api_manager(&mut self, token: String)
        ensures
            *final(self) == (App { api_manager: final(self).api_manager, ..*old(self) }),
            final(self).api_manager matches Some(m) && m.token@ == token@ && m.call_type
                == CallType::Chat,
    {
        self.api_manager = Some(ApiManager::new(token));
    }

    /// Moves the composed text into the immutable query slot.
    pub fn update_input(&mut self)
        ensures
            *final(self) == (App {
                display_input: final(self).display_input,
                internal_input: final(self).internal_input,
                ..*old(self)
            }),
            final(self).internal_input@ == old(self).display_input@,
            final(self).display_input@ == Seq::<char>::empty(),
    {
        self.internal_input = self.display_input.clone();
        self.display_input = String::new();
    }

    pub fn input_mode(&self) -> (m: InputMode)
        ensures
            m == self.input_mode,
    {
        self.input_mode
    }

    /// Enters a mode; entering command mode opens a fresh `:` buffer.
    pub fn set_input_mode(&mut self, mode: InputMode)
        ensures
            mode == InputMode::Command ==> *final(self) == (App {
                input_mode: mode,
                command: final(self).command,
                command_status: CommandStatus::Okay,
                ..*old(self)
            }) && final(self).command@ == ":"@,
            mode != InputMode::Command ==> *final(self) == (App {
                input_mode: mode,
                ..*old(self)
            }),
    {
        match mode {
            InputMode::Command => {
                self.command_status = CommandStatus::Okay;
                self.command = String::from_str(":");
            },
            _ => {},
        }
        self.input_mode = mode;
    }

    pub fn get_scroll(&self) -> (r: usize)
        ensures
            r == self.scroll,
    {
        self.scroll
    }

    /// One step towards the bottom of the scrollback.
    pub fn scroll_down(&mut self)
        ensures
            *final(self) == (App { scroll: final(self).scroll, ..*old(self) }),
            final(self).scroll == if old(self).scroll == 0 {
                0usize
            } else {
                (old(self).scroll - 1) as usize
            },
    {
        if self.scroll != 0 {
            self.scroll = self.scroll - 1;
        }
    }

    /// One step towards the top, never past the recorded bound.
    pub fn scroll_up(&mut self)
        ensures
            *final(self) == (App { scroll: final(self).scroll, ..*old(self) }),
            final(self).scroll == if old(self).scroll < old(self).max_offset {
                (old(self).scroll + 1) as usize
            } else {
                old(self).scroll
            },
    {
        if self.scroll < self.max_offset {
            self.scroll = self.scroll + 1;
        }
    }

    pub fn get_display_input(&self) -> (r: String)
        ensures
            r@ == self.display_input@,
    {
        self.display_input.clone()
    }

    pub fn get_input(&self) -> (r: String)
        ensures
            r@ == self.internal_input@,
    {
        self.internal_input.clone()
    }

    pub fn push_input(&mut self, c: char)
        ensures
            *final(self) == (App { display_input: final(self).display_input, ..*old(self) }),
            final(self).display_input@ == old(self).display_input@.push(c),
    {
        string_push(&mut self.display_input, c);
    }

    pub fn pop_input(&mut self)
        ensures
            *final(self) == (App { display_input: final(self).display_input, ..*old(self) }),
            final(self).display_input@ == if old(self).display_input@.len() == 0 {
                old(self).display_input@
            } else {
                old(self).display_input@.drop_last()
            },
    {
        let _ = string_pop(&mut self.display_input);
    }

    /// Appends an answer to the render history and closes the submit in
    /// flight.
    pub fn push_answer(&mut self, message: DisplayMessage)
        ensures
            *final(self) == (App {
                content: final(self).content,
                internal_input: final(self).internal_input,
                ..*old(self)
            }),
            final(self).content@ == old(self).content@.push(message),
            final(self).internal_input@ == Seq::<char>::empty(),
    {
        self.content.push(message);
        self.internal_input = String::new();
    }

    /// Appends one message to the render history.
    pub fn push_content(&mut self, sender: String, message_type: MessageType, message: String)
        ensures
            *final(self) == (App { content: final(self).content, ..*old(self) }),
            final(self).content@.len() == old(self).content@.len() + 1,
            final(self).content@ == old(self).content@.push(final(self).content@.last()),
            final(self).content@.last()@ == (DisplayModel {
                sender: sender@,
                body: message@,
                message_type,
            }),
    {
        let m = DisplayMessage { sender, body: message, message_type };
        self.content.push(m);
    }

    pub fn set_username(&mut self, name: String)
        ensures
            *final(self) == (App { username: final(self).username, ..*old(self) }),
            final(self).username@ == name@,
    {
        self.username = name;
    }

    pub fn get_username(&self) -> (r: String)
        ensures
            r@ == self.username@,
    {
        self.username.clone()
    }

    pub fn get_command(&self) -> (r: String)
        ensures
            r@ == self.command@,
    {
        self.command.clone()
    }

    /// Dispatches the typed command. The known-command set is empty, so
    /// every submission is reported as not found.
    pub fn send_command(&mut self)
        ensures
            *final(self) == (App {
                command: final(self).command,
                command_status: CommandStatus::Error,
                input_mode: InputMode::Normal,
                ..*old(self)
            }),
            final(self).command@ == "Error: Command not found"@,
    {
        self.command = String::from_str("Error: Command not found");
        self.set_input_mode(InputMode::Normal);
        self.command_status = CommandStatus::Error;
    }

    pub fn push_command(&mut self, c: char)
        ensures
            *final(self) == (App { command: final(self).command, ..*old(self) }),
            final(self).command@ == old(self).command@.push(c),
    {
        string_push(&mut self.command, c);
    }

    pub fn pop_command(&mut self)
        ensures
            *final(self) == (App { command: final(self).command, ..*old(self) }),
            final(self).command@ == if old(self).command@.len() == 0 {
                old(self).command@
            } else {
                old(self).command@.drop_last()
            },
    {
        let _ = string_pop(&mut self.command);
    }

    pub fn reset_command(&mut self)
        ensures
            *final(self) == (App {
                command: final(self).command,
                command_status: CommandStatus::Okay,
                ..*old(self)
            }),
            final(self).command@ == Seq::<char>::empty(),
    {
        self.command = String::new();
        self.command_status = CommandStatus::Okay;
    }

    pub fn command_status(&self) -> (r: CommandStatus)
        ensures
            r == self.command_status,
    {
        self.command_status
    }

    /// Recomputes the scroll bound from the render history and the current
    /// size, clamps the offset, and returns the bound.
    pub fn get_max_offset(&mut self) -> (r: usize)
        requires
            old(self).wf(),
        ensures
            *final(self) == (App {
                scroll: final(self).scroll,
                max_offset: final(self).max_offset,
                ..*old(self)
            }),
            final(self).max_offset == r,
            r == max_offset_of(
                views_of(old(self).content@),
                old(self).size.0 as int,
                old(self).size.1 as int,
            ),
            final(self).scroll == if old(self).scroll <= r {
                old(self).scroll
            } else {
                r
            },
            final(self).wf(),
    {
        let (max_offset, clamped) = recompute_scroll(
            &self.content,
            self.size.0,
            self.size.1 as usize,
            self.scroll,
        );
        self.max_offset = max_offset;
        self.scroll = clamped;
        max_offset
    }

    /// Scrolls to the newest content, re-establishing the invariant first.
    pub fn scroll_to_bottom(&mut self)
        requires
            old(self).wf(),
        ensures
            *final(self) == (App {
                scroll: final(self).scroll,
                max_offset: final(self).max_offset,
                ..*old(self)
            }),
            final(self).max_offset == max_offset_of(
                views_of(old(self).content@),
                old(self).size.0 as int,
                old(self).size.1 as int,
            ),
            final(self).scroll == final(self).max_offset,
            final(self).wf(),
    {
        let max_offset = self.get_max_offset();
        self.scroll = max_offset;
    }

    /// Records a new terminal size and re-establishes the scroll invariant.
    /// A width of zero cannot be laid out and is ignored.
    pub fn update_size(&mut self, width: u16, height: u16)
        requires
            old(self).wf(),
        ensures
            width == 0 ==> *final(self) == *old(self),
            width >= 1 ==> {
                &&& *final(self) == (App {
                    size: (width, height),
                    scroll: final(self).scroll,
                    max_offset: final(self).max_offset,
                    ..*old(self)
                })
                &&& final(self).max_offset == max_offset_of(
                    views_of(old(self).content@),
                    width as int,
                    height as int,
                )
                &&& final(self).scroll == if old(self).scroll <= final(self).max_offset {
                    old(self).scroll
                } else {
                    final(self).max_offset
                }
            },
            final(self).wf(),
    {
        if width == 0 {
            return ;
        }
        self.size = (width, height);
        let _ = self.get_max_offset();
    }
}

// ---------------------------------------------------------------------------
// The input-mode state machine
// ---------------------------------------------------------------------------
/// The mode the session is in after one event: `i` and `:` leave normal
/// mode, enter and escape leave the two editing modes, everything else stays
/// put.
pub open spec fn mode_after(m: InputMode, e: UiEvent) -> InputMode {
    match e {
        UiEvent::Key(c) => if m == InputMode::Normal && c == 'i' {
            InputMode::Insert
        } else if m == InputMode::Normal && c == ':' {
            InputMode::Command
        } else {
            m
        },
        UiEvent::Enter => if m == InputMode::Normal {
            m
        } else {
            InputMode::Normal
        },
        UiEvent::Esc => if m == InputMode::Normal {
            m
        } else {
            InputMode::Normal
        },
        _ => m,
    }
}

/// What the loop must do after one event: quit on `q` in normal mode,
/// submit on enter in insert mode, nothing otherwise.
pub open spec fn action_for(m: InputMode, e: UiEvent) -> SessionAction {
    match e {
        UiEvent::Key(c) => if m == InputMode::Normal && c == 'q' {
            SessionAction::Quit
        } else {
            SessionAction::Nothing
        },
        UiEvent::Enter => if m == InputMode::Insert {
            SessionAction::Submit
        } else {
            SessionAction::Nothing
        },
        _ => SessionAction::Nothing,
    }
}

/// The turn one submitted query becomes.
pub open spec fn user_turn(q: Seq<char>) -> TurnModel {
    TurnModel { role: Role::User, body: q, origin: MessageType::Query }
}

/// State change of one submit: the query leaves the compose buffer, enters
/// the log and the render history, and the session returns to normal mode.
pub open spec fn submit_post(pre: App, post: App) -> bool {
    &&& post == (App {
        log: post.log,
        content: post.content,
        display_input: post.display_input,
        internal_input: post.internal_input,
        input_mode: InputMode::Normal,
        ..pre
    })
    &&& post.log@ == pre.log@.push(user_turn(pre.display_input@))
    &&& post.content@.len() == pre.content@.len() + 1
    &&& post.content@ == pre.content@.push(post.content@.last())
    &&& post.content@.last()@ == (DisplayModel {
        sender: pre.username@,
        body: pre.display_input@,
        message_type: MessageType::Query,
    })
    &&& post.internal_input@ == pre.display_input@
    &&& post.display_input@ == Seq::<char>::empty()
}

/// State change of one resize: a zero width cannot be laid out and is
/// ignored; otherwise the size is recorded and the scroll invariant
/// re-established.
pub open spec fn resize_post(pre: App, post: App, w: u16, h: u16) -> bool {
    if w == 0 {
        post == pre
    } else {
        &&& post == (App {
            size: (w, h),
            scroll: post.scroll,
            max_offset: post.max_offset,
            ..pre
        })
        &&& post.max_offset == max_offset_of(views_of(pre.content@), w as int, h as int)
        &&& post.scroll == if pre.scroll <= post.max_offset {
            pre.scroll
        } else {
            post.max_offset
        }
    }
}

/// State change of one event in normal mode.
pub open spec fn normal_post(pre: App, post: App, e: UiEvent) -> bool {
    match e {
        UiEvent::Key(c) => if c == 'i' {
            post == (App { input_mode: InputMode::Insert, ..pre })
        } else if c == ':' {
            &&& post == (App {
                input_mode: InputMode::Command,
                command: post.command,
                command_status: CommandStatus::Okay,
                ..pre
            })
            &&& post.command@ == ":"@
        } else if c == 'k' {
            &&& post == (App { scroll: post.scroll, ..pre })
            &&& post.scroll == if pre.scroll < pre.max_offset {
                (pre.scroll + 1) as usize
            } else {
                pre.scroll
            }
        } else if c == 'j' {
            &&& post == (App { scroll: post.scroll, ..pre })
            &&& post.scroll == if pre.scroll == 0 {
                0usize
            } else {
                (pre.scroll - 1) as usize
            }
        } else {
            post == pre
        },
        _ => post == pre,
    }
}

/// State change of one event in insert mode.
pub open spec fn insert_post(pre: App, post: App, e: UiEvent) -> bool {
    match e {
        UiEvent::Key(c) => {
            &&& post == (App { display_input: post.display_input, ..pre })
            &&& post.display_input@ == pre.display_input@.push(c)
        },
        UiEvent::Backspace => {
            &&& post == (App { display_input: post.display_input, ..pre })
            &&& post.display_input@ == if pre.display_input@.len() == 0 {
                pre.display_input@
            } else {
                pre.display_input@.drop_last()
            }
        },
        UiEvent::Enter => submit_post(pre, post),
        UiEvent::Esc => post == (App { input_mode: InputMode::Normal, ..pre }),
        _ => post == pre,
    }
}

/// State change of one event in command mode.
pub open spec fn command_post(pre: App, post: App, e: UiEvent) -> bool {
    match e {
        UiEvent::Key(c) => {
            &&& post == (App { command: post.command, ..pre })
            &&& post.command@ == pre.command@.push(c)
        },
        UiEvent::Backspace => {
            &&& post == (App { command: post.command, ..pre })
            &&& post.command@ == if pre.command@.len() == 0 {
                pre.command@
            } else {
                pre.command@.drop_last()
            }
        },
        UiEvent::Enter => {
            &&& post == (App {
                command: post.command,
                command_status: CommandStatus::Error,
                input_mode: InputMode::Normal,
                ..pre
            })
            &&& post.command@ == "Error: Command not found"@
        },
        UiEvent::Esc => {
            &&& post == (App {
                command: post.command,
                command_status: CommandStatus::Okay,
                input_mode: InputMode::Normal,
                ..pre
            })
            &&& post.command@ == Seq::<char>::empty()
        },
        _ => post == pre,
    }
}

/// The full state change of one handled event.
pub open spec fn handle_event_post(pre: App, post: App, e: UiEvent) -> bool {
    match e {
        UiEvent::Resize(w, h) => resize_post(pre, post, w, h),
        _ => match pre.input_mode {
            InputMode::Normal => normal_post(pre, post, e),
            InputMode::Insert => insert_post(pre, post, e),
            InputMode::Command => command_post(pre, post, e),
        },
    }
}

impl App {
    /// Appends the composed query to the log and the render history, moves
    /// it into the query slot, and returns to normal mode. The request for
    /// it is built and sent by the caller.
    pub fn submit_query(&mut self)
        ensures
            submit_post(*old(self), *final(self)),
            final(self).wf() == old(self).wf(),
    {
        let query = self.get_display_input();
        let uname = self.get_username();
        self.push_content(uname, MessageType::Query, query);
        let t = Turn::new(Role::User, self.get_display_input(), MessageType::Query);
        self.log.append(t);
        self.update_input();
        self.set_input_mode(InputMode::Normal);
    }

    /// Handles one input event. Total: every `(mode, event)` pair resolves
    /// to a defined next state, unrecognized events being no-ops.
    pub fn handle_event(&mut self, e: UiEvent) -> (r: SessionAction)
        requires
            old(self).wf(),
        ensures
            final(self).wf(),
            final(self).input_mode == mode_after(old(self).input_mode, e),
            r == action_for(old(self).input_mode, e),
            handle_event_post(*old(self), *final(self), e),
    {
        if let UiEvent::Resize(w, h) = e {
            self.update_size(w, h);
            return SessionAction::Nothing;
        }
        let mode = self.input_mode;
        match mode {
            InputMode::Normal => {
                match e {
                    UiEvent::Key(c) => {
                        if c == 'i' {
                            self.set_input_mode(InputMode::Insert);
                            SessionAction::Nothing
                        } else if c == ':' {
                            self.set_input_mode(InputMode::Command);
                            SessionAction::Nothing
                        } else if c == 'k' {
                            self.scroll_up();
                            SessionAction::Nothing
                        } else if c == 'j' {
                            self.scroll_down();
                            SessionAction::Nothing
                        } else if c == 'q' {
                            SessionAction::Quit
                        } else {
                            SessionAction::Nothing
                        }
                    },
                    _ => SessionAction::Nothing,
                }
            },
            InputMode::Insert => {
                match e {
                    UiEvent::Key(c) => {
                        self.push_input(c);
                        SessionAction::Nothing
                    },
                    UiEvent::Backspace => {
                        self.pop_input();
                        SessionAction::Nothing
                    },
                    UiEvent::Enter => {
                        self.submit_query();
                        SessionAction::Submit
                    },
                    UiEvent::Esc => {
                        self.set_input_mode(InputMode::Normal);
                        SessionAction::Nothing
                    },
                    UiEvent::Resize(_, _) => SessionAction::Nothing,
                }
            },
            InputMode::Command => {
                match e {
                    UiEvent::Key(c) => {
                        self.push_command(c);
                        SessionAction::Nothing
                    },
                    UiEvent::Backspace => {
                        self.pop_command();
                        SessionAction::Nothing
                    },
                    UiEvent::Enter => {
                        self.send_command();
                        SessionAction::Nothing
                    },
                    UiEvent::Esc => {
                        self.reset_command();
                        self.set_input_mode(InputMode::Normal);
                        SessionAction::Nothing
                    },
                    UiEvent::Resize(_, _) => SessionAction::Nothing,
                }
            },
        }
    }

    /// The request body for the submit in flight: the whole snapshot for the
    /// multi-turn backend, the query alone for the single-turn one.
    pub fn build_request(&self) -> (r: String)
        requires
            self.api_manager is Some,
        ensures
            self.api_manager matches Some(m) && r@ == match m.call_type {
                CallType::Chat => crate::provider::enc_chat_request(
                    crate::provider::ChatReqModel {
                        model: m.selected_model@,
                        messages: crate::store::records_of_log(self.log@),
                    },
                ),
                CallType::Text => crate::provider::enc_text_call(
                    crate::provider::ApiCallModel {
                        model: m.text_model@,
                        prompt: self.internal_input@,
                        temperature: m.temperature as int,
                        max_tokens: m.max_tokens as int,
                    },
                ),
            },
    {
        let manager = self.api_manager.as_ref().unwrap();
        manager.build_request(self.log.snapshot(), &self.internal_input)
    }

    /// Applies one request outcome: resolves it into a turn — the fixed
    /// fallback turn on any failure — appends that turn to the log and the
    /// render history unconditionally, closes the submit in flight, and
    /// scrolls to the bottom.
    pub fn apply_completion(&mut self, outcome: Option<&str>)
        requires
            old(self).wf(),
            old(self).api_manager is Some,
        ensures
            final(self).wf(),
            *final(self) == (App {
                log: final(self).log,
                content: final(self).content,
                internal_input: final(self).internal_input,
                scroll: final(self).scroll,
                max_offset: final(self).max_offset,
                ..*old(self)
            }),
            old(self).api_manager matches Some(m) && {
                let t = crate::provider::completion_turn(
                    m.call_type,
                    crate::provider::opt_str_view(outcome),
                );
                &&& final(self).log@ == old(self).log@.push(t)
                &&& final(self).content@.len() == old(self).content@.len() + 1
                &&& final(self).content@ == old(self).content@.push(final(self).content@.last())
                &&& final(self).content@.last()@ == crate::provider::completion_display(
                    m.call_type,
                    m.selected_model@,
                    crate::provider::opt_str_view(outcome),
                )
            },
            final(self).internal_input@ == Seq::<char>::empty(),
            final(self).scroll == final(self).max_offset,
            final(self).max_offset == max_offset_of(
                views_of(final(self).content@),
                old(self).size.0 as int,
                old(self).size.1 as int,
            ),
    {
        let (t, shown) = self.api_manager.as_ref().unwrap().complete_shown(outcome);
        self.log.append(t);
        self.push_answer(shown);
        self.scroll_to_bottom();
    }

    /// The render-ready lines of the transcript: for each shown message its
    /// separator rule, its sender label, and its body lines.
    pub fn get_content(&self) -> (r: Vec<String>)
        ensures
            crate::layout::string_views(r@) == crate::layout::render_lines(
                views_of(self.content@),
                self.size.0 as int,
            ),
    {
        crate::layout::render_content(&self.content, self.size.0)
    }
}

// ---------------------------------------------------------------------------
// Laws
// ---------------------------------------------------------------------------
/// The log after a run of submit cycles, each appending the user's query and
/// then the turn its outcome resolved to.
pub open spec fn run_submits(log: Seq<TurnModel>, cycles: Seq<(Seq<char>, TurnModel)>) -> Seq<
    TurnModel,
>
    decreases cycles.len(),
{
    if cycles.len() == 0 {
        log
    } else {
        run_submits(log.push(user_turn(cycles[0].0)).push(cycles[0].1), cycles.skip(1))
    }
}

/// Append-order law: any run of submit cycles grows the log by exactly two
/// turns per cycle — the query, then its answer, in submit order — and never
/// moves or removes a turn that was already there.
pub proof fn lemma_append_order(log: Seq<TurnModel>, cycles: Seq<(Seq<char>, TurnModel)>)
    ensures
        run_submits(log, cycles).len() == log.len() + 2 * cycles.len(),
        forall|i: int| 0 <= i < log.len() ==> #[trigger] run_submits(log, cycles)[i] == log[i],
        forall|k: int|
            0 <= k < cycles.len() ==> #[trigger] run_submits(log, cycles)[log.len() + 2 * k]
                == user_turn(cycles[k].0) && run_submits(log, cycles)[log.len() + 2 * k + 1]
                == cycles[k].1,
    decreases cycles.len(),
{
    if cycles.len() == 0 {
    } else {
        let log2 = log.push(user_turn(cycles[0].0)).push(cycles[0].1);
        lemma_append_order(log2, cycles.skip(1));
        assert(run_submits(log, cycles) == run_submits(log2, cycles.skip(1)));
        assert forall|k: int| 0 <= k < cycles.len() implies #[trigger] run_submits(
            log,
            cycles,
        )[log.len() + 2 * k] == user_turn(cycles[k].0) && run_submits(log, cycles)[log.len() + 2 * k
            + 1] == cycles[k].1 by {
            if k == 0 {
                assert(run_submits(log, cycles)[log2.len() - 2] == log2[log2.len() - 2]);
                assert(run_submits(log, cycles)[log2.len() - 1] == log2[log2.len() - 1]);
            } else {
                assert(cycles.skip(1)[k - 1] == cycles[k]);
                assert(run_submits(log2, cycles.skip(1))[log2.len() + 2 * (k - 1)] == user_turn(
                    cycles.skip(1)[k - 1].0,
                ));
                assert(run_submits(log2, cycles.skip(1))[log2.len() + 2 * (k - 1) + 1]
                    == cycles.skip(1)[k - 1].1);
            }
        }
    }
}

/// Mode-totality law: the transition function is defined on every
/// `(mode, event)` pair — the table below is the whole of it, and every
/// entry lands in one of the three modes.
pub proof fn lemma_mode_totality(m: InputMode, e: UiEvent)
    ensures
        mode_after(InputMode::Normal, UiEvent::Key('i')) == InputMode::Insert,
        mode_after(InputMode::Normal, UiEvent::Key(':')) == InputMode::Command,
        mode_after(InputMode::Insert, UiEvent::Enter) == InputMode::Normal,
        mode_after(InputMode::Insert, UiEvent::Esc) == InputMode::Normal,
        mode_after(InputMode::Command, UiEvent::Enter) == InputMode::Normal,
        mode_after(InputMode::Command, UiEvent::Esc) == InputMode::Normal,
        forall|c: char|
            c != 'i' && c != ':' ==> #[trigger] mode_after(InputMode::Normal, UiEvent::Key(c))
                == InputMode::Normal,
        forall|c: char| #[trigger]
            mode_after(InputMode::Insert, UiEvent::Key(c)) == InputMode::Insert,
        forall|c: char| #[trigger]
            mode_after(InputMode::Command, UiEvent::Key(c)) == InputMode::Command,
        mode_after(m, UiEvent::Backspace) == m,
        forall|w: u16, h: u16| #[trigger] mode_after(m, UiEvent::Resize(w, h)) == m,
        mode_after(m, e) == InputMode::Normal || mode_after(m, e) == InputMode::Insert
            || mode_after(m, e) == InputMode::Command,
{
}

} // verus!
