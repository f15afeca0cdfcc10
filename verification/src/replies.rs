//! The fixed texts of the server and the shapes of its replies.

use vstd::prelude::*;
use crate::protocol::{Message, MessageView, PromptMode, PromptModeView};

verus! {

/// The list of commands shown on request and after a name is accepted.
pub open spec fn help_text() -> Seq<char> {
    "Commands: /create group <name>, /join <group> [password], /invite <username>, /promote <username>, /demote <username>, /group block <username>, /group unblock <username>, /kick <username>, /ban <username>, /unban <username>, /group pw <password>, /group who, /group <message>, /block <username>, /unblock <username>, /who, /anon, /send <username> <message>, /help, /quit."@
}

/// The list of commands.
pub fn help_display() -> (r: &'static str)
    ensures
        r@ == help_text(),
{
    "Commands: /create group <name>, /join <group> [password], /invite <username>, /promote <username>, /demote <username>, /group block <username>, /group unblock <username>, /kick <username>, /ban <username>, /unban <username>, /group pw <password>, /group who, /group <message>, /block <username>, /unblock <username>, /who, /anon, /send <username> <message>, /help, /quit."
}

/// The greeting of a client whose name was accepted.
pub open spec fn accepted_text() -> Seq<char> {
    "Username accepted. Welcome!"@
}

/// The greeting of a client whose name was accepted.
pub fn username_accepted_message() -> (r: &'static str)
    ensures
        r@ == accepted_text(),
{
    "Username accepted. Welcome!"
}

/// The text of a notice from the server.
pub open spec fn server_text(text: Seq<char>) -> Seq<char> {
    "[Server@you]: "@ + text
}

/// A notice from the server, as a message.
pub open spec fn notice(text: Seq<char>) -> MessageView {
    MessageView::Say(server_text(text))
}

/// A notice from the server carrying `text`.
pub fn server_message(text: &str) -> (m: Message)
    ensures
        m@ == notice(text@),
{
    let mut s = String::from_str("[Server@you]: ");
    s.append(text);
    Message::Say(s)
}

/// The prompt a client shows in `mode`.
pub open spec fn prompt_of(username: Seq<char>, mode: PromptModeView) -> Seq<char> {
    match mode {
        PromptModeView::Plain => "["@ + username + "]: "@,
        PromptModeView::Group(g) => "["@ + username + "@"@ + g + "]: "@,
        PromptModeView::Direct(g) => "["@ + username + "@"@ + g + "]: "@,
        PromptModeView::PendingUsername => "> "@,
    }
}

/// The prompt a client named `username` shows in `mode`.
pub fn prompt_text(username: &str, mode: &PromptMode) -> (r: String)
    ensures
        r@ == prompt_of(username@, mode@),
{
    match mode {
        PromptMode::Plain => {
            let mut s = String::from_str("[");
            s.append(username);
            s.append("]: ");
            s
        },
        PromptMode::Group(g) | PromptMode::Direct(g) => {
            let mut s = String::from_str("[");
            s.append(username);
            s.append("@");
            s.append(g.as_str());
            s.append("]: ");
            s
        },
        PromptMode::PendingUsername => String::from_str("> "),
    }
}

/// The prompt message a client named `username` is sent for `mode`.
pub open spec fn prompt_message(username: Seq<char>, mode: PromptModeView) -> MessageView {
    MessageView::Prompt { text: prompt_of(username, mode), mode }
}

} // verus!
