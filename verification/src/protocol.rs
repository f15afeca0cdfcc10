//! The messages that client and server exchange.

use vstd::prelude::*;

verus! {

/// The state of the prompt that a client shows.
#[derive(Debug)]
pub enum PromptMode {
    /// Neither a group nor a direct conversation is selected.
    Plain,
    Group(String),
    Direct(String),
    PendingUsername,
}

/// A request of a client or a reply of the server.
#[derive(Debug)]
pub enum Message {
    Username(String),
    CreateGroup(String),
    Join { group: String, password: Option<String> },
    Invite(String),
    Promote(String),
    Kick(String),
    Ban(String),
    Unban(String),
    GroupPassword(Option<String>),
    Demote(String),
    GroupSay(String),
    GroupWho,
    Who,
    AnonToggle,
    Block(String),
    Unblock(String),
    GroupBlock(String),
    GroupUnblock(String),
    Say(String),
    Send(String, String),
    Quit,
    Help,
    Prompt { text: String, mode: PromptMode },
}

/// A `PromptMode` with its texts taken as character sequences.
pub enum PromptModeView {
    Plain,
    Group(Seq<char>),
    Direct(Seq<char>),
    PendingUsername,
}

/// A `Message` with its texts taken as character sequences.
pub enum MessageView {
    Username(Seq<char>),
    CreateGroup(Seq<char>),
    Join { group: Seq<char>, password: Option<Seq<char>> },
    Invite(Seq<char>),
    Promote(Seq<char>),
    Kick(Seq<char>),
    Ban(Seq<char>),
    Unban(Seq<char>),
    GroupPassword(Option<Seq<char>>),
    Demote(Seq<char>),
    GroupSay(Seq<char>),
    GroupWho,
    Who,
    AnonToggle,
    Block(Seq<char>),
    Unblock(Seq<char>),
    GroupBlock(Seq<char>),
    GroupUnblock(Seq<char>),
    Say(Seq<char>),
    Send(Seq<char>, Seq<char>),
    Quit,
    Help,
    Prompt { text: Seq<char>, mode: PromptModeView },
}

/// An optional text taken as an optional character sequence.
pub open spec fn opt_view(o: Option<String>) -> Option<Seq<char>> {
    match o {
        Some(s) => Some(s@),
        None => None,
    }
}

impl View for PromptMode {
    type V = PromptModeView;

    open spec fn view(&self) -> PromptModeView {
        match self {
            PromptMode::Plain => PromptModeView::Plain,
            PromptMode::Group(g) => PromptModeView::Group(g@),
            PromptMode::Direct(u) => PromptModeView::Direct(u@),
            PromptMode::PendingUsername => PromptModeView::PendingUsername,
        }
    }
}

impl View for Message {
    type V = MessageView;

    open spec fn view(&self) -> MessageView {
        match self {
            Message::Username(s) => MessageView::Username(s@),
            Message::CreateGroup(s) => MessageView::CreateGroup(s@),
            Message::Join { group, password } => MessageView::Join {
                group: group@,
                password: opt_view(*password),
            },
            Message::Invite(s) => MessageView::Invite(s@),
            Message::Promote(s) => MessageView::Promote(s@),
            Message::Kick(s) => MessageView::Kick(s@),
            Message::Ban(s) => MessageView::Ban(s@),
            Message::Unban(s) => MessageView::Unban(s@),
            Message::GroupPassword(p) => MessageView::GroupPassword(opt_view(*p)),
            Message::Demote(s) => MessageView::Demote(s@),
            Message::GroupSay(s) => MessageView::GroupSay(s@),
            Message::GroupWho => MessageView::GroupWho,
            Message::Who => MessageView::Who,
            Message::AnonToggle => MessageView::AnonToggle,
            Message::Block(s) => MessageView::Block(s@),
            Message::Unblock(s) => MessageView::Unblock(s@),
            Message::GroupBlock(s) => MessageView::GroupBlock(s@),
            Message::GroupUnblock(s) => MessageView::GroupUnblock(s@),
            Message::Say(s) => MessageView::Say(s@),
            Message::Send(to, text) => MessageView::Send(to@, text@),
            Message::Quit => MessageView::Quit,
            Message::Help => MessageView::Help,
            Message::Prompt { text, mode } => MessageView::Prompt { text: text@, mode: mode@ },
        }
    }
}

} // verus!
