use vstd::prelude::*;

use crate::message::{
    CompletionRequest, Message, MessageView, UserMessageContent, UserMessagePart, messages_view,
};

verus! {

/// The state of a chat as the terminal front end shows it.
pub struct Chat {
    /// The conversation so far.
    pub messages: Vec<Message>,
    /// Whether the user may type the next message.
    pub user_input: bool,
    /// How many lines the view is scrolled up from the bottom.
    pub scroll: usize,
}

/// What the chat front end is asked to do.
#[derive(Clone, Copy, Debug, PartialEq, Eq, Structural)]
pub enum ChatCommand {
    /// Send the typed message and ask for a completion.
    Submit,
    /// Let the user type again.
    WaitForUser,
}

/// A key press, as far as the chat front end tells them apart.
#[derive(Clone, Copy, Debug, PartialEq, Eq, Structural)]
pub enum KeyPress {
    /// Control-C.
    Interrupt,
    /// Enter, without modifiers.
    Enter,
    /// Any other key or terminal event.
    Other,
}

/// What the chat front end does with a key press.
#[derive(Clone, Copy, Debug, PartialEq, Eq, Structural)]
pub enum InputAction {
    /// Stop the application.
    Quit,
    /// Submit the typed message.
    Submit,
    /// Hand the event to the input line.
    Edit,
    /// Do nothing.
    Ignore,
}

impl Default for Chat {
    fn default() -> (r: Self)
        ensures
            r.messages@.len() == 0,
            r.user_input,
            r.scroll == 0,
    {
        Chat { messages: Vec::new(), user_input: true, scroll: 0 }
    }
}

impl Chat {
    /// Appends the user's input as a one-part text message; the user waits for
    /// the answer.
    pub fn submit_user_input(&mut self, input: &str)
        ensures
            final(self).messages@.drop_last() == old(self).messages@,
            final(self).messages@.len() == old(self).messages@.len() + 1,
            final(self).messages@.last()@ == (MessageView::User { parts: seq![input@] }),
            !final(self).user_input,
            final(self).scroll == old(self).scroll,
    {
        let mut parts: Vec<UserMessagePart> = Vec::new();
        parts.push(UserMessagePart { content: UserMessageContent::Text { text: input.to_owned() } });
        let ghost pv = parts@;
        self.messages.push(Message::User { parts });
        self.user_input = false;
        proof {
            assert(self.messages@.drop_last() =~= old(self).messages@);
            assert(crate::message::user_parts_view(pv) =~= seq![input@]);
        }
    }

    /// What a key press does: Control-C always quits; while the user may type,
    /// Enter submits and any other event edits the input line; otherwise the
    /// event is ignored.
    pub fn input_action(&self, key: KeyPress) -> (r: InputAction)
        ensures
            r == (match key {
                KeyPress::Interrupt => InputAction::Quit,
                KeyPress::Enter => if self.user_input {
                    InputAction::Submit
                } else {
                    InputAction::Ignore
                },
                KeyPress::Other => if self.user_input {
                    InputAction::Edit
                } else {
                    InputAction::Ignore
                },
            }),
    {
        match key {
            KeyPress::Interrupt => InputAction::Quit,
            KeyPress::Enter => if self.user_input {
                InputAction::Submit
            } else {
                InputAction::Ignore
            },
            KeyPress::Other => if self.user_input {
                InputAction::Edit
            } else {
                InputAction::Ignore
            },
        }
    }

    /// Lets the user type again.
    pub fn wait_for_user(&mut self)
        ensures
            final(self).user_input,
            final(self).messages == old(self).messages,
            final(self).scroll == old(self).scroll,
    {
        self.user_input = true;
    }

    /// Scrolls up by `amount` lines, stopping at the largest offset.
    pub fn scroll_up(&mut self, amount: usize)
        ensures
            final(self).scroll == (if old(self).scroll + amount > usize::MAX {
                usize::MAX as int
            } else {
                old(self).scroll + amount
            }),
            final(self).messages == old(self).messages,
            final(self).user_input == old(self).user_input,
    {
        self.scroll = self.scroll.saturating_add(amount);
    }

    /// Scrolls down by `amount` lines, stopping at the bottom.
    pub fn scroll_down(&mut self, amount: usize)
        ensures
            final(self).scroll == (if old(self).scroll < amount {
                0
            } else {
                old(self).scroll - amount
            }),
            final(self).messages == old(self).messages,
            final(self).user_input == old(self).user_input,
    {
        self.scroll = self.scroll.saturating_sub(amount);
    }

    /// The request for a completion of the conversation so far, without system
    /// prompts.
    pub fn completion_request(&self) -> (r: CompletionRequest)
        ensures
            r.system@.len() == 0,
            messages_view(r.messages@) == messages_view(self.messages@),
    {
        let messages = self.messages.clone();
        proof {
            assert(messages_view(messages@) =~= messages_view(self.messages@));
        }
        CompletionRequest { system: Vec::new(), messages }
    }

    /// Shows the conversation as it was sent, followed by the answer so far.
    pub fn show_response(&mut self, sent: &Vec<Message>, response: Vec<Message>)
        ensures
            messages_view(final(self).messages@) == messages_view(sent@) + messages_view(
                response@,
            ),
            final(self).user_input == old(self).user_input,
            final(self).scroll == old(self).scroll,
    {
        let mut messages = sent.clone();
        let mut answer = response;
        let ghost sent_view = messages@;
        let ghost answer_view = answer@;
        messages.append(&mut answer);
        proof {
            assert(messages_view(sent_view) =~= messages_view(sent@));
            assert(messages_view(messages@) =~= messages_view(sent_view) + messages_view(
                answer_view,
            ));
        }
        self.messages = messages;
    }
}

/// The value of the counter of the template front end.
pub struct Count {
    pub count: usize,
}

/// What the counter is asked to do.
#[derive(Clone, Copy, Debug, PartialEq, Eq, Structural)]
pub enum UpdateCountCommand {
    Increase,
    Decrease,
}

impl Default for Count {
    fn default() -> (r: Self)
        ensures
            r.count == 0,
    {
        Count { count: 0 }
    }
}

impl Count {
    /// Counts one up or down, staying within the bounds of `usize`.
    pub fn update(&mut self, command: UpdateCountCommand)
        ensures
            command == UpdateCountCommand::Increase ==> final(self).count == (if old(self).count
                == usize::MAX {
                usize::MAX
            } else {
                (old(self).count + 1) as usize
            }),
            command == UpdateCountCommand::Decrease ==> final(self).count == (if old(self).count
                == 0 {
                0
            } else {
                (old(self).count - 1) as usize
            }),
    {
        match command {
            UpdateCountCommand::Increase => self.count = self.count.saturating_add(1),
            UpdateCountCommand::Decrease => self.count = self.count.saturating_sub(1),
        }
    }
}

} // verus!
