//! What the server does with one request: the session of a connection, the
//! effects a request has, and, for each request, the registry, session and
//! effects that follow.

use vstd::prelude::*;
use crate::protocol::{opt_view, Message, MessageView, PromptModeView};
use crate::replies::{accepted_text, help_text, notice, prompt_message};
use crate::state::{fresh_client, fresh_group, in_group, is_admin_of, ClientView, GroupView, ServerView};
use crate::text::{join, trimmed};

verus! {

/// What the server remembers of one connection.
pub struct Session {
    /// The name the client chose, once it is accepted.
    pub username: Option<String>,
    /// The group the connection is chatting in.
    pub group: Option<String>,
}

/// A `Session` taken as mathematical values.
pub struct SessionView {
    pub username: Option<Seq<char>>,
    pub group: Option<Seq<char>>,
}

impl View for Session {
    type V = SessionView;

    open spec fn view(&self) -> SessionView {
        SessionView { username: opt_view(self.username), group: opt_view(self.group) }
    }
}

/// Something the server is to do after deciding on a request.
pub enum Effect {
    /// Send the message to the client that made the request.
    Reply(Message),
    /// Send `message` to the client named `to`, if it is still connected.
    Deliver { to: String, message: Message },
    /// Send `message` to every client in `group` other than `sender`.
    Broadcast { group: String, sender: String, message: Message },
    /// End the connection.
    Close,
}

/// An `Effect` taken as mathematical values.
pub enum EffectView {
    Reply(MessageView),
    Deliver { to: Seq<char>, message: MessageView },
    Broadcast { group: Seq<char>, sender: Seq<char>, message: MessageView },
    Close,
}

impl View for Effect {
    type V = EffectView;

    open spec fn view(&self) -> EffectView {
        match self {
            Effect::Reply(m) => EffectView::Reply(m@),
            Effect::Deliver { to, message } => EffectView::Deliver { to: to@, message: message@ },
            Effect::Broadcast { group, sender, message } => EffectView::Broadcast {
                group: group@,
                sender: sender@,
                message: message@,
            },
            Effect::Close => EffectView::Close,
        }
    }
}

/// A list of effects taken as mathematical values.
pub open spec fn effects_view(v: Seq<Effect>) -> Seq<EffectView> {
    v.map_values(|e: Effect| e@)
}

/// The registry, session and effects after a request.
pub struct Outcome {
    pub server: ServerView,
    pub session: SessionView,
    pub effects: Seq<EffectView>,
}

pub open spec fn reply(m: MessageView) -> EffectView {
    EffectView::Reply(m)
}

/// Nothing changes; the client is told `text`.
pub open spec fn told(s: ServerView, sess: SessionView, text: Seq<char>) -> Outcome {
    Outcome { server: s, session: sess, effects: seq![reply(notice(text))] }
}

/// The prompt of a connection that has no name yet.
pub open spec fn pending_prompt() -> MessageView {
    MessageView::Prompt { text: "> "@, mode: PromptModeView::PendingUsername }
}

/// What a new connection is sent.
pub open spec fn greeting_effects() -> Seq<EffectView> {
    seq![reply(notice("Enter a username to join the chat."@)), reply(pending_prompt())]
}

/// The clients with the group of client `name` set to `group`, if `name` is a client.
pub open spec fn with_client_group(
    clients: Map<Seq<char>, ClientView>,
    name: Seq<char>,
    group: Option<Seq<char>>,
) -> Map<Seq<char>, ClientView> {
    if clients.contains_key(name) {
        clients.insert(name, ClientView { group, ..clients[name] })
    } else {
        clients
    }
}

/// The session with its group taken again from the registry: a client's group
/// may have been changed by requests of other connections.
pub open spec fn synced(s: ServerView, sess: SessionView) -> SessionView {
    match sess.username {
        Some(n) => SessionView {
            username: sess.username,
            group: if s.clients.contains_key(n) { s.clients[n].group } else { None },
        },
        None => sess,
    }
}

/// The name of the sender in a group message.
pub open spec fn group_line(name: Seq<char>, group: Seq<char>, text: Seq<char>) -> MessageView {
    MessageView::Say("["@ + name + "@"@ + group + "]: "@ + text)
}

pub open spec fn username_step(s: ServerView, sess: SessionView, name: Seq<char>) -> Outcome {
    match sess.username {
        Some(current) => told(
            s,
            sess,
            if current == name {
                "Username already set."@
            } else {
                "Username already set. Please reconnect to change it."@
            },
        ),
        None => if s.clients.contains_key(name) {
            Outcome {
                server: s,
                session: sess,
                effects: seq![reply(notice("Username already taken"@)), reply(pending_prompt())],
            }
        } else {
            Outcome {
                server: ServerView { clients: s.clients.insert(name, fresh_client()), groups: s.groups },
                session: SessionView { username: Some(name), group: None },
                effects: seq![
                    reply(notice(accepted_text())),
                    reply(notice(help_text())),
                    reply(prompt_message(name, PromptModeView::Plain)),
                ],
            }
        },
    }
}

pub open spec fn create_group_step(s: ServerView, sess: SessionView, raw: Seq<char>) -> Outcome {
    match sess.username {
        None => told(s, sess, "Enter a username before creating a group."@),
        Some(creator) => {
            let name = trimmed(raw);
            if name.len() == 0 {
                told(s, sess, "Group name cannot be empty."@)
            } else if s.groups.contains_key(name) {
                told(s, sess, "A group with that name already exists."@)
            } else {
                Outcome {
                    server: ServerView {
                        clients: with_client_group(s.clients, creator, Some(name)),
                        groups: s.groups.insert(name, fresh_group(creator)),
                    },
                    session: SessionView { username: sess.username, group: Some(name) },
                    effects: seq![
                        reply(notice("Group '"@ + name + "' created. You are the admin."@)),
                        reply(prompt_message(creator, PromptModeView::Group(name))),
                    ],
                }
            }
        },
    }
}

/// Whether `given` opens a group whose password is `password`.
pub open spec fn password_ok(password: Option<Seq<char>>, given: Option<Seq<char>>) -> bool {
    match password {
        None => true,
        Some(pw) => given == Some(pw),
    }
}

pub open spec fn join_step(
    s: ServerView,
    sess: SessionView,
    requested: Seq<char>,
    given: Option<Seq<char>>,
) -> Outcome {
    let target = trimmed(requested);
    if target.len() == 0 {
        told(s, sess, "Group name cannot be empty."@)
    } else {
        match sess.username {
            None => told(s, sess, "Enter a username before joining a group."@),
            Some(name) => if !s.groups.contains_key(target) {
                told(s, sess, "Group does not exist. Create it with /create group <name>."@)
            } else {
                let info = s.groups[target];
                if info.banned.contains(name) {
                    told(s, sess, "You are banned from this group."@)
                } else {
                    let groups = s.groups.insert(
                        target,
                        GroupView { invites: info.invites.remove(name), ..info },
                    );
                    if info.invites.contains(name) || password_ok(info.password, given)
                        || is_admin_of(info, name) {
                        Outcome {
                            server: ServerView {
                                clients: with_client_group(s.clients, name, Some(target)),
                                groups,
                            },
                            session: SessionView { username: sess.username, group: Some(target) },
                            effects: seq![
                                reply(notice("Joined group '"@ + target + "'."@)),
                                reply(prompt_message(name, PromptModeView::Group(target))),
                                EffectView::Broadcast {
                                    group: target,
                                    sender: name,
                                    message: notice(name + " joined '"@ + target + "'."@),
                                },
                            ],
                        }
                    } else if info.password is Some {
                        told(ServerView { clients: s.clients, groups }, sess, "Incorrect password."@)
                    } else {
                        told(
                            ServerView { clients: s.clients, groups },
                            sess,
                            "You must be invited to join this group."@,
                        )
                    }
                }
            },
        }
    }
}

pub open spec fn invite_step(s: ServerView, sess: SessionView, target: Seq<char>) -> Outcome {
    match sess.username {
        None => told(s, sess, "Enter a username before inviting others."@),
        Some(inviter) => match sess.group {
            None => told(s, sess, "Join a group before inviting others."@),
            Some(cg) => {
                let t = trimmed(target);
                if t.len() == 0 {
                    told(s, sess, "Provide a username to invite."@)
                } else if !s.groups.contains_key(cg) {
                    told(s, sess, "Current group no longer exists."@)
                } else {
                    let info = s.groups[cg];
                    let first = seq![reply(notice("Invited '"@ + t + "' to join '"@ + cg + "'."@))];
                    Outcome {
                        server: ServerView {
                            clients: s.clients,
                            groups: s.groups.insert(
                                cg,
                                GroupView {
                                    invites: info.invites.insert(t),
                                    banned: info.banned.remove(t),
                                    ..info
                                },
                            ),
                        },
                        session: sess,
                        effects: if s.clients.contains_key(t) {
                            first.push(
                                EffectView::Deliver {
                                    to: t,
                                    message: notice(
                                        inviter + " invited you to join '"@ + cg + "'. Use /join "@ + cg
                                            + " to accept."@,
                                    ),
                                },
                            )
                        } else {
                            first
                        },
                    }
                }
            },
        },
    }
}

pub open spec fn promote_step(s: ServerView, sess: SessionView, target: Seq<char>) -> Outcome {
    match sess.username {
        None => told(s, sess, "Enter a username before promoting users."@),
        Some(me) => match sess.group {
            None => told(s, sess, "You must be in a group to promote members."@),
            Some(cg) => {
                let t = trimmed(target);
                if t.len() == 0 {
                    told(s, sess, "Provide a username to promote."@)
                } else if !in_group(s, t, cg) {
                    told(s, sess, "User must be in the group to be promoted."@)
                } else if !s.groups.contains_key(cg) {
                    told(s, sess, "Current group no longer exists."@)
                } else {
                    let info = s.groups[cg];
                    if info.owner != me {
                        told(s, sess, "Only the group owner can promote members."@)
                    } else if info.owner == t {
                        told(s, sess, "Owner has full privileges already."@)
                    } else if info.admins.contains(t) {
                        told(s, sess, "User is already an admin."@)
                    } else {
                        Outcome {
                            server: ServerView {
                                clients: s.clients,
                                groups: s.groups.insert(cg, GroupView { admins: info.admins.insert(t), ..info }),
                            },
                            session: sess,
                            effects: seq![
                                reply(notice("'"@ + t + "' has been promoted to admin."@)),
                                EffectView::Deliver {
                                    to: t,
                                    message: notice("You have been promoted to admin of '"@ + cg + "'."@),
                                },
                            ],
                        }
                    }
                }
            },
        },
    }
}

pub open spec fn demote_step(s: ServerView, sess: SessionView, target: Seq<char>) -> Outcome {
    match sess.username {
        None => told(s, sess, "Enter a username before demoting users."@),
        Some(me) => match sess.group {
            None => told(s, sess, "You must be in a group to demote members."@),
            Some(cg) => {
                let t = trimmed(target);
                if t.len() == 0 {
                    told(s, sess, "Provide a username to demote."@)
                } else if !s.groups.contains_key(cg) {
                    told(s, sess, "Current group no longer exists."@)
                } else {
                    let info = s.groups[cg];
                    if info.owner != me {
                        told(s, sess, "Only the group owner can demote admins."@)
                    } else if info.owner == t {
                        told(s, sess, "Owner cannot be demoted."@)
                    } else if !info.admins.contains(t) {
                        told(s, sess, "User is not an admin."@)
                    } else {
                        let first = seq![reply(notice("'"@ + t + "' has been demoted."@))];
                        Outcome {
                            server: ServerView {
                                clients: s.clients,
                                groups: s.groups.insert(cg, GroupView { admins: info.admins.remove(t), ..info }),
                            },
                            session: sess,
                            effects: if in_group(s, t, cg) {
                                first.push(
                                    EffectView::Deliver {
                                        to: t,
                                        message: notice("You have been demoted from admin in '"@ + cg + "'."@),
                                    },
                                )
                            } else {
                                first
                            },
                        }
                    }
                }
            },
        },
    }
}

pub open spec fn kick_step(s: ServerView, sess: SessionView, target: Seq<char>) -> Outcome {
    match sess.username {
        None => told(s, sess, "Enter a username before kicking users."@),
        Some(me) => match sess.group {
            None => told(s, sess, "You must be in a group to kick members."@),
            Some(cg) => {
                let t = trimmed(target);
                if t.len() == 0 {
                    told(s, sess, "Provide a username to kick."@)
                } else if t == me {
                    told(s, sess, "You cannot kick yourself."@)
                } else if !s.groups.contains_key(cg) {
                    told(s, sess, "Current group no longer exists."@)
                } else {
                    let info = s.groups[cg];
                    if !is_admin_of(info, me) {
                        told(s, sess, "Only a group admin can kick members."@)
                    } else if info.owner == t {
                        told(s, sess, "Owner cannot be kicked."@)
                    } else if !s.clients.contains_key(t) {
                        told(s, sess, "User not found."@)
                    } else if s.clients[t].group != Some(cg) {
                        told(s, sess, "User is not in this group."@)
                    } else {
                        Outcome {
                            server: ServerView {
                                clients: with_client_group(s.clients, t, None),
                                groups: s.groups.insert(cg, GroupView { admins: info.admins.remove(t), ..info }),
                            },
                            session: sess,
                            effects: seq![
                                reply(notice("'"@ + t + "' has been kicked from '"@ + cg + "'."@)),
                                EffectView::Deliver {
                                    to: t,
                                    message: notice("You have been removed from '"@ + cg + "'."@),
                                },
                                EffectView::Deliver { to: t, message: prompt_message(t, PromptModeView::Plain) },
                                EffectView::Broadcast {
                                    group: cg,
                                    sender: me,
                                    message: notice(t + " was removed from '"@ + cg + "'."@),
                                },
                            ],
                        }
                    }
                }
            },
        },
    }
}

pub open spec fn ban_step(s: ServerView, sess: SessionView, target: Seq<char>) -> Outcome {
    match sess.username {
        None => told(s, sess, "Enter a username before banning users."@),
        Some(me) => match sess.group {
            None => told(s, sess, "You must be in a group to ban members."@),
            Some(cg) => {
                let t = trimmed(target);
                if t.len() == 0 {
                    told(s, sess, "Provide a username to ban."@)
                } else if !s.groups.contains_key(cg) {
                    told(s, sess, "Current group no longer exists."@)
                } else {
                    let info = s.groups[cg];
                    if !is_admin_of(info, me) {
                        told(s, sess, "Only a group admin can ban members."@)
                    } else if info.owner == t {
                        told(s, sess, "Owner cannot be banned."@)
                    } else {
                        let member = in_group(s, t, cg);
                        let first = seq![reply(notice("'"@ + t + "' has been banned from '"@ + cg + "'."@))];
                        let told_target = if member {
                            first + seq![
                                EffectView::Deliver {
                                    to: t,
                                    message: notice("You have been banned from '"@ + cg + "'."@),
                                },
                                EffectView::Deliver { to: t, message: prompt_message(t, PromptModeView::Plain) },
                            ]
                        } else {
                            first
                        };
                        Outcome {
                            server: ServerView {
                                clients: if member { with_client_group(s.clients, t, None) } else { s.clients },
                                groups: s.groups.insert(
                                    cg,
                                    GroupView {
                                        admins: info.admins.remove(t),
                                        banned: info.banned.insert(t),
                                        invites: info.invites.remove(t),
                                        ..info
                                    },
                                ),
                            },
                            session: sess,
                            effects: told_target.push(
                                EffectView::Broadcast {
                                    group: cg,
                                    sender: me,
                                    message: notice(t + " was banned from '"@ + cg + "'."@),
                                },
                            ),
                        }
                    }
                }
            },
        },
    }
}

pub open spec fn unban_step(s: ServerView, sess: SessionView, target: Seq<char>) -> Outcome {
    match sess.username {
        None => told(s, sess, "Enter a username before unbanning users."@),
        Some(me) => match sess.group {
            None => told(s, sess, "You must be in a group to unban members."@),
            Some(cg) => if !s.groups.contains_key(cg) {
                told(s, sess, "Current group no longer exists."@)
            } else {
                let info = s.groups[cg];
                if !is_admin_of(info, me) {
                    told(s, sess, "Only a group admin can unban members."@)
                } else {
                    let first = seq![reply(notice("User unbanned."@))];
                    let told_target = if s.clients.contains_key(target) {
                        first + seq![
                            EffectView::Deliver {
                                to: target,
                                message: notice("You have been unbanned from '"@ + cg + "'."@),
                            },
                            EffectView::Deliver { to: target, message: prompt_message(target, PromptModeView::Plain) },
                        ]
                    } else {
                        first
                    };
                    Outcome {
                        server: ServerView {
                            clients: s.clients,
                            groups: s.groups.insert(cg, GroupView { banned: info.banned.remove(target), ..info }),
                        },
                        session: sess,
                        effects: told_target.push(
                            EffectView::Broadcast {
                                group: cg,
                                sender: me,
                                message: notice(target + " was unbanned in '"@ + cg + "'."@),
                            },
                        ),
                    }
                }
            },
        },
    }
}

pub open spec fn block_step(s: ServerView, sess: SessionView, target: Seq<char>) -> Outcome {
    match sess.username {
        None => told(s, sess, "Enter a username before blocking users."@),
        Some(me) => {
            let t = trimmed(target);
            if t.len() == 0 {
                told(s, sess, "Provide a username to block."@)
            } else if t == me {
                told(s, sess, "You cannot block yourself."@)
            } else if !s.clients.contains_key(me) {
                told(s, sess, "User already blocked."@)
            } else {
                let info = s.clients[me];
                let server = ServerView {
                    clients: s.clients.insert(me, ClientView { blocked_users: info.blocked_users.insert(t), ..info }),
                    groups: s.groups,
                };
                if info.blocked_users.contains(t) {
                    told(server, sess, "User already blocked."@)
                } else {
                    let first = seq![reply(notice("You blocked '"@ + t + "'."@))];
                    Outcome {
                        server,
                        session: sess,
                        effects: if s.clients.contains_key(t) {
                            first.push(EffectView::Deliver { to: t, message: notice(me + " has blocked you."@) })
                        } else {
                            first
                        },
                    }
                }
            }
        },
    }
}

pub open spec fn unblock_step(s: ServerView, sess: SessionView, target: Seq<char>) -> Outcome {
    match sess.username {
        None => told(s, sess, "Enter a username before unblocking users."@),
        Some(me) => {
            let t = trimmed(target);
            if t.len() == 0 {
                told(s, sess, "Provide a username to unblock."@)
            } else if !s.clients.contains_key(me) {
                told(s, sess, "User was not blocked."@)
            } else {
                let info = s.clients[me];
                let server = ServerView {
                    clients: s.clients.insert(me, ClientView { blocked_users: info.blocked_users.remove(t), ..info }),
                    groups: s.groups,
                };
                if !info.blocked_users.contains(t) {
                    told(server, sess, "User was not blocked."@)
                } else {
                    let first = seq![reply(notice("You unblocked '"@ + t + "'."@))];
                    Outcome {
                        server,
                        session: sess,
                        effects: if s.clients.contains_key(t) {
                            first.push(EffectView::Deliver { to: t, message: notice(me + " has unblocked you."@) })
                        } else {
                            first
                        },
                    }
                }
            }
        },
    }
}

pub open spec fn group_block_step(s: ServerView, sess: SessionView, target: Seq<char>) -> Outcome {
    match sess.username {
        None => told(s, sess, "Enter a username before blocking group members."@),
        Some(me) => match sess.group {
            None => told(s, sess, "Join a group before blocking its members."@),
            Some(cg) => {
                let t = trimmed(target);
                if t.len() == 0 {
                    told(s, sess, "Provide a username to block."@)
                } else if !s.groups.contains_key(cg) {
                    told(s, sess, "Current group no longer exists."@)
                } else {
                    let info = s.groups[cg];
                    if !is_admin_of(info, me) {
                        told(s, sess, "Only a group admin can block members from chatting."@)
                    } else if info.owner == t {
                        told(s, sess, "Owner cannot be blocked."@)
                    } else if info.group_blocked.contains(t) {
                        told(s, sess, "User is already blocked in this group."@)
                    } else if !in_group(s, t, cg) {
                        told(s, sess, "User must be in the group to be blocked."@)
                    } else {
                        Outcome {
                            server: ServerView {
                                clients: s.clients,
                                groups: s.groups.insert(
                                    cg,
                                    GroupView { group_blocked: info.group_blocked.insert(t), ..info },
                                ),
                            },
                            session: sess,
                            effects: seq![
                                reply(notice("'"@ + t + "' has been blocked from speaking in '"@ + cg + "'."@)),
                                EffectView::Deliver {
                                    to: t,
                                    message: notice("You have been blocked from speaking in '"@ + cg + "'."@),
                                },
                                EffectView::Broadcast {
                                    group: cg,
                                    sender: me,
                                    message: notice(t + " was muted in '"@ + cg + "'."@),
                                },
                            ],
                        }
                    }
                }
            },
        },
    }
}

pub open spec fn group_unblock_step(s: ServerView, sess: SessionView, target: Seq<char>) -> Outcome {
    match sess.username {
        None => told(s, sess, "Enter a username before unblocking group members."@),
        Some(me) => match sess.group {
            None => told(s, sess, "Join a group before unblocking its members."@),
            Some(cg) => {
                let t = trimmed(target);
                if t.len() == 0 {
                    told(s, sess, "Provide a username to unblock."@)
                } else if !s.groups.contains_key(cg) {
                    told(s, sess, "Current group no longer exists."@)
                } else {
                    let info = s.groups[cg];
                    if !is_admin_of(info, me) {
                        told(s, sess, "Only a group admin can unblock members."@)
                    } else if !info.group_blocked.contains(t) {
                        told(s, sess, "User is not blocked in this group."@)
                    } else {
                        let first = seq![reply(notice("'"@ + t + "' has been unblocked in '"@ + cg + "'."@))];
                        let told_target = if s.clients.contains_key(t) {
                            first.push(
                                EffectView::Deliver { to: t, message: notice("You can speak again in '"@ + cg + "'."@) },
                            )
                        } else {
                            first
                        };
                        Outcome {
                            server: ServerView {
                                clients: s.clients,
                                groups: s.groups.insert(
                                    cg,
                                    GroupView { group_blocked: info.group_blocked.remove(t), ..info },
                                ),
                            },
                            session: sess,
                            effects: told_target.push(
                                EffectView::Broadcast {
                                    group: cg,
                                    sender: me,
                                    message: notice(t + " was unmuted in '"@ + cg + "'."@),
                                },
                            ),
                        }
                    }
                }
            },
        },
    }
}

pub open spec fn group_password_step(s: ServerView, sess: SessionView, password: Option<Seq<char>>) -> Outcome {
    match sess.username {
        None => told(s, sess, "Enter a username before setting a password."@),
        Some(me) => match sess.group {
            None => told(s, sess, "Join a group before setting a password."@),
            Some(cg) => if !s.groups.contains_key(cg) {
                told(s, sess, "Current group no longer exists."@)
            } else {
                let info = s.groups[cg];
                if !is_admin_of(info, me) {
                    told(s, sess, "Only a group admin can set a password."@)
                } else {
                    told(
                        ServerView {
                            clients: s.clients,
                            groups: s.groups.insert(cg, GroupView { password, ..info }),
                        },
                        sess,
                        if password is Some {
                            "Password updated for '"@ + cg + "'."@
                        } else {
                            "Password cleared for '"@ + cg + "'."@
                        },
                    )
                }
            },
        },
    }
}

pub open spec fn group_say_step(s: ServerView, sess: SessionView, text: Seq<char>) -> Outcome {
    match sess.username {
        None => told(s, sess, "Enter a username before chatting."@),
        Some(me) => match sess.group {
            None => told(s, sess, "Join a group before chatting."@),
            Some(cg) => {
                let t = trimmed(text);
                if t.len() == 0 {
                    Outcome { server: s, session: sess, effects: seq![] }
                } else if !s.groups.contains_key(cg) {
                    told(s, sess, "Current group no longer exists."@)
                } else if s.groups[cg].group_blocked.contains(me) {
                    told(s, sess, "You are blocked from speaking in this group."@)
                } else {
                    let line = group_line(me, cg, t);
                    Outcome {
                        server: s,
                        session: sess,
                        effects: seq![reply(line), EffectView::Broadcast { group: cg, sender: me, message: line }],
                    }
                }
            },
        },
    }
}

/// How a member is shown in a listing of its group.
pub open spec fn role_of(info: GroupView, user: Seq<char>) -> Seq<char> {
    if user == info.owner {
        "owner"@
    } else if info.admins.contains(user) {
        "admin"@
    } else {
        "member"@
    }
}

/// The clients of `group` that are not anonymous.
pub open spec fn visible_members(s: ServerView, group: Seq<char>) -> Set<Seq<char>> {
    Set::new(|n: Seq<char>| in_group(s, n, group) && !s.clients[n].is_anon)
}

/// The clients that are not anonymous.
pub open spec fn visible_users(s: ServerView) -> Set<Seq<char>> {
    Set::new(|n: Seq<char>| s.clients.contains_key(n) && !s.clients[n].is_anon)
}

/// The entries of a group listing, for members listed in the order `listing`.
pub open spec fn member_entries(info: GroupView, listing: Seq<Seq<char>>) -> Seq<Seq<char>> {
    listing.map_values(|u: Seq<char>| u + " "@ + role_of(info, u))
}

/// The reply to `/group who` when the members are walked in the order `listing`.
pub open spec fn group_who_step(s: ServerView, sess: SessionView, listing: Seq<Seq<char>>) -> Outcome {
    match sess.username {
        None => told(s, sess, "Enter a username before using /group who."@),
        Some(me) => match sess.group {
            None => told(s, sess, "Join a group before using /group who."@),
            Some(cg) => if !s.groups.contains_key(cg) {
                told(s, sess, "Current group no longer exists."@)
            } else if listing.len() == 0 {
                told(s, sess, "No visible members in '"@ + cg + "'."@)
            } else {
                told(s, sess, "Members of '"@ + cg + "': "@ + join(member_entries(s.groups[cg], listing), ", "@))
            },
        },
    }
}

/// The reply to `/who` when the clients are walked in the order `listing`.
pub open spec fn who_step(s: ServerView, sess: SessionView, listing: Seq<Seq<char>>) -> Outcome {
    let first = seq![reply(notice(
        if listing.len() == 0 {
            "No visible users online."@
        } else {
            "Online users: "@ + join(listing, ", "@)
        },
    ))];
    let anon_self = match sess.username {
        Some(n) => s.clients.contains_key(n) && s.clients[n].is_anon,
        None => false,
    };
    Outcome {
        server: s,
        session: sess,
        effects: if anon_self {
            first.push(reply(notice("You are currently anonymous; others cannot see or message you."@)))
        } else {
            first
        },
    }
}

pub open spec fn anon_toggle_step(s: ServerView, sess: SessionView) -> Outcome {
    match sess.username {
        None => told(s, sess, "Enter a username before toggling anonymity."@),
        Some(me) => if s.clients.contains_key(me) {
            let now = !s.clients[me].is_anon;
            told(
                ServerView {
                    clients: s.clients.insert(me, ClientView { is_anon: now, ..s.clients[me] }),
                    groups: s.groups,
                },
                sess,
                if now {
                    "You are now anonymous. Others cannot see or message you."@
                } else {
                    "You are visible again."@
                },
            )
        } else {
            told(s, sess, "You are visible again."@)
        },
    }
}

pub open spec fn say_step(s: ServerView, sess: SessionView, text: Seq<char>) -> Outcome {
    match sess.username {
        None => told(s, sess, "Enter a username before chatting."@),
        Some(me) => match sess.group {
            None => told(
                s,
                sess,
                "Join a group with /join <group> to chat, or use /send <username> <message> for direct messages."@,
            ),
            Some(g) => if s.groups.contains_key(g) {
                Outcome {
                    server: s,
                    session: sess,
                    effects: seq![EffectView::Broadcast { group: g, sender: me, message: group_line(me, g, text) }],
                }
            } else {
                told(s, sess, "Current group no longer exists."@)
            },
        },
    }
}

pub open spec fn send_step(s: ServerView, sess: SessionView, to: Seq<char>, text: Seq<char>) -> Outcome {
    match sess.username {
        None => told(s, sess, "Enter a username before sending direct messages."@),
        Some(me) => if me == to {
            told(s, sess, "You cannot send direct messages to yourself."@)
        } else if s.clients.contains_key(me) && s.clients[me].blocked_users.contains(to) {
            told(s, sess, "You have blocked this user."@)
        } else if !s.clients.contains_key(to) {
            told(s, sess, "User '"@ + to + "' not found"@)
        } else if s.clients[to].is_anon {
            told(s, sess, "User is not accepting direct messages."@)
        } else if s.clients[to].blocked_users.contains(me) {
            told(s, sess, "User has blocked you."@)
        } else {
            Outcome {
                server: s,
                session: sess,
                effects: seq![
                    EffectView::Deliver { to, message: MessageView::Say("\n["@ + me + "@you]: "@ + text) },
                    reply(prompt_message(me, PromptModeView::Direct(to))),
                ],
            }
        },
    }
}

/// The registry, session and effects after request `m` on a connection with
/// session `sess0`, where listings walk the clients in the order `listing`.
pub open spec fn step(s: ServerView, sess0: SessionView, m: MessageView, listing: Seq<Seq<char>>) -> Outcome {
    let sess = synced(s, sess0);
    match m {
        MessageView::Username(name) => username_step(s, sess, name),
        MessageView::CreateGroup(raw) => create_group_step(s, sess, raw),
        MessageView::Join { group, password } => join_step(s, sess, group, password),
        MessageView::Invite(t) => invite_step(s, sess, t),
        MessageView::Promote(t) => promote_step(s, sess, t),
        MessageView::Demote(t) => demote_step(s, sess, t),
        MessageView::Kick(t) => kick_step(s, sess, t),
        MessageView::Ban(t) => ban_step(s, sess, t),
        MessageView::Unban(t) => unban_step(s, sess, t),
        MessageView::Block(t) => block_step(s, sess, t),
        MessageView::Unblock(t) => unblock_step(s, sess, t),
        MessageView::GroupBlock(t) => group_block_step(s, sess, t),
        MessageView::GroupUnblock(t) => group_unblock_step(s, sess, t),
        MessageView::GroupPassword(p) => group_password_step(s, sess, p),
        MessageView::GroupSay(t) => group_say_step(s, sess, t),
        MessageView::GroupWho => group_who_step(s, sess, listing),
        MessageView::Who => who_step(s, sess, listing),
        MessageView::AnonToggle => anon_toggle_step(s, sess),
        MessageView::Say(t) => say_step(s, sess, t),
        MessageView::Send(to, t) => send_step(s, sess, to, t),
        MessageView::Quit => Outcome {
            server: s,
            session: sess,
            effects: seq![reply(notice("Disconnecting..."@)), EffectView::Close],
        },
        MessageView::Help => told(s, sess, help_text()),
        MessageView::Prompt { .. } => Outcome { server: s, session: sess, effects: seq![] },
    }
}

/// The clients that a listing for request `m` walks: the visible clients for
/// `/who`, the visible members of the current group for `/group who`.
pub open spec fn listed(s: ServerView, sess0: SessionView, m: MessageView) -> Set<Seq<char>> {
    match m {
        MessageView::Who => visible_users(s),
        MessageView::GroupWho => match synced(s, sess0).group {
            Some(g) => visible_members(s, g),
            None => Set::empty(),
        },
        _ => Set::empty(),
    }
}

/// Whether `listing` walks the clients of `set`, each once.
pub open spec fn walks(listing: Seq<Seq<char>>, set: Set<Seq<char>>) -> bool {
    listing.no_duplicates() && listing.to_set() == set
}

/// Whether a request `m` may take the registry from `s` to `post`, the session
/// from `sess` to `sess_post`, with effects `effects`: the outcome of `step` for
/// some walk of the listed clients.
pub open spec fn handles(
    s: ServerView,
    sess: SessionView,
    m: MessageView,
    post: ServerView,
    sess_post: SessionView,
    effects: Seq<EffectView>,
) -> bool {
    exists|listing: Seq<Seq<char>>|
        walks(listing, listed(s, sess, m)) && #[trigger] step(s, sess, m, listing) == (Outcome {
            server: post,
            session: sess_post,
            effects,
        })
}

/// The registry after the connection of `sess` ends: its client is forgotten.
pub open spec fn disconnected(s: ServerView, sess: SessionView) -> ServerView {
    match sess.username {
        Some(n) => ServerView { clients: s.clients.remove(n), groups: s.groups },
        None => s,
    }
}

} // verus!
