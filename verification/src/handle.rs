//! The server's handling of requests, verified against `model`.

use vstd::prelude::*;
use crate::model::{
    anon_toggle_step, ban_step, block_step, create_group_step, demote_step, disconnected,
    effects_view, greeting_effects, group_block_step, group_password_step, group_say_step,
    group_unblock_step, group_who_step, handles, invite_step, join_step, kick_step,
    member_entries, pending_prompt, promote_step, reply, role_of, say_step, send_step, step,
    synced, unban_step, unblock_step, username_step, visible_members, visible_users, walks,
    who_step, Effect, Outcome, Session,
};
use crate::model::EffectView;
use crate::names::{name_seq, str_eq};
use crate::protocol::{opt_view, Message, PromptMode, PromptModeView};
use crate::replies::{help_display, notice, prompt_text, server_message, username_accepted_message};
use crate::state::{is_group_admin, selection, ClientInfo, ClientView, GroupInfo, GroupView, Server};
use crate::text::{cat2, cat3, cat4, cat5, cat6, join, lemma_join_push, trim};

verus! {

/// What a new connection is sent: an invitation to choose a name and the
/// prompt for it.
pub fn greeting() -> (r: Vec<Effect>)
    ensures
        effects_view(r@) == greeting_effects(),
{
    let r = vec![
        Effect::Reply(server_message("Enter a username to join the chat.")),
        Effect::Reply(Message::Prompt { text: String::from_str("> "), mode: PromptMode::PendingUsername }),
    ];
    assert(effects_view(r@) =~= greeting_effects());
    r
}

impl Session {
    /// The session of a connection that has just opened.
    pub fn new() -> (s: Session)
        ensures
            s@.username is None,
            s@.group is None,
    {
        Session { username: None, group: None }
    }
}

/// The effects of telling the requesting client `text`.
fn tell(text: &str) -> (r: Vec<Effect>)
    ensures
        effects_view(r@) == seq![reply(notice(text@))],
{
    let r = vec![Effect::Reply(server_message(text))];
    assert(effects_view(r@) =~= seq![reply(notice(text@))]);
    r
}

/// The names, separated by commas.
fn join_names(names: &Vec<String>) -> (r: String)
    ensures
        r@ == join(name_seq(names@), ", "@),
{
    let mut out = String::new();
    let mut i: usize = 0;
    assert(name_seq(names@).take(0) =~= Seq::<Seq<char>>::empty());
    while i < names.len()
        invariant
            i <= names@.len(),
            out@ == join(name_seq(names@).take(i as int), ", "@),
        decreases names@.len() - i,
    {
        proof {
            lemma_join_push(name_seq(names@).take(i as int), ", "@, names@[i as int]@);
            assert(name_seq(names@).take(i + 1) =~= name_seq(names@).take(i as int).push(names@[i as int]@));
        }
        if i > 0 {
            out.append(", ");
        }
        out.append(names[i].as_str());
        i = i + 1;
    }
    assert(name_seq(names@).take(names@.len() as int) =~= name_seq(names@));
    out
}

/// How `user` is shown in a listing of the group `info`.
fn role(info: &GroupInfo, user: &str) -> (r: &'static str)
    ensures
        r@ == role_of(info@, user@),
{
    if str_eq(user, info.owner.as_str()) {
        "owner"
    } else if info.admins.contains(user) {
        "admin"
    } else {
        "member"
    }
}

/// The names with their roles in the group `info`, separated by commas.
fn join_entries(names: &Vec<String>, info: &GroupInfo) -> (r: String)
    ensures
        r@ == join(member_entries(info@, name_seq(names@)), ", "@),
{
    let mut out = String::new();
    let mut i: usize = 0;
    let ghost all = member_entries(info@, name_seq(names@));
    assert(all.take(0) =~= Seq::<Seq<char>>::empty());
    while i < names.len()
        invariant
            i <= names@.len(),
            all == member_entries(info@, name_seq(names@)),
            out@ == join(all.take(i as int), ", "@),
        decreases names@.len() - i,
    {
        let r = role(info, names[i].as_str());
        proof {
            assert(all[i as int] == names@[i as int]@ + " "@ + r@);
            lemma_join_push(all.take(i as int), ", "@, all[i as int]);
            assert(all.take(i + 1) =~= all.take(i as int).push(all[i as int]));
        }
        if i > 0 {
            out.append(", ");
        }
        out.append(names[i].as_str());
        out.append(" ");
        out.append(r);
        i = i + 1;
    }
    assert(all.take(names@.len() as int) =~= all);
    out
}

impl Server {
    fn on_username(&mut self, sess: &mut Session, name: String) -> (r: Vec<Effect>)
        requires
            old(self).wf(),
        ensures
            final(self).wf(),
            username_step(old(self)@, old(sess)@, name@) == (Outcome {
                server: final(self)@,
                session: final(sess)@,
                effects: effects_view(r@),
            }),
    {
        match &sess.username {
            Some(current) => {
                if str_eq(current.as_str(), name.as_str()) {
                    tell("Username already set.")
                } else {
                    tell("Username already set. Please reconnect to change it.")
                }
            },
            None => {
                if self.clients.contains(name.as_str()) {
                    let r = vec![
                        Effect::Reply(server_message("Username already taken")),
                        Effect::Reply(Message::Prompt { text: String::from_str("> "), mode: PromptMode::PendingUsername }),
                    ];
                    assert(effects_view(r@) =~= seq![reply(notice("Username already taken"@)), reply(pending_prompt())]);
                    r
                } else {
                    self.clients.insert_new(name.clone(), ClientInfo::new());
                    sess.username = Some(name.clone());
                    sess.group = None;
                    let prompt = prompt_text(name.as_str(), &PromptMode::Plain);
                    let r = vec![
                        Effect::Reply(server_message(username_accepted_message())),
                        Effect::Reply(server_message(help_display())),
                        Effect::Reply(Message::Prompt { text: prompt, mode: PromptMode::Plain }),
                    ];
                    assert(effects_view(r@) =~= seq![
                        reply(notice(crate::replies::accepted_text())),
                        reply(notice(crate::replies::help_text())),
                        reply(crate::replies::prompt_message(name@, PromptModeView::Plain)),
                    ]);
                    r
                }
            },
        }
    }

    fn on_create_group(&mut self, sess: &mut Session, raw: String) -> (r: Vec<Effect>)
        requires
            old(self).wf(),
        ensures
            final(self).wf(),
            create_group_step(old(self)@, old(sess)@, raw@) == (Outcome {
                server: final(self)@,
                session: final(sess)@,
                effects: effects_view(r@),
            }),
    {
        let creator = match &sess.username {
            None => {
                return tell("Enter a username before creating a group.");
            },
            Some(c) => c.clone(),
        };
        let name = trim(raw.as_str());
        if name.as_str().unicode_len() == 0 {
            return tell("Group name cannot be empty.");
        }
        if self.groups.contains(name.as_str()) {
            return tell("A group with that name already exists.");
        }
        self.groups.insert_new(name.clone(), GroupInfo::new(creator.clone()));
        self.set_client_group(creator.as_str(), Some(name.clone()));
        sess.group = Some(name.clone());
        let text = cat3("Group '", name.as_str(), "' created. You are the admin.");
        let mode = PromptMode::Group(name.clone());
        let prompt = prompt_text(creator.as_str(), &mode);
        let r = vec![
            Effect::Reply(server_message(text.as_str())),
            Effect::Reply(Message::Prompt { text: prompt, mode }),
        ];
        assert(effects_view(r@) =~= create_group_step(old(self)@, old(sess)@, raw@).effects);
        r
    }

    fn on_join(&mut self, sess: &mut Session, requested: String, password: Option<String>) -> (r: Vec<Effect>)
        requires
            old(self).wf(),
        ensures
            final(self).wf(),
            join_step(old(self)@, old(sess)@, requested@, opt_view(password)) == (Outcome {
                server: final(self)@,
                session: final(sess)@,
                effects: effects_view(r@),
            }),
    {
        let target = trim(requested.as_str());
        if target.as_str().unicode_len() == 0 {
            return tell("Group name cannot be empty.");
        }
        let name = match &sess.username {
            None => {
                return tell("Enter a username before joining a group.");
            },
            Some(n) => n.clone(),
        };
        let gi = match self.groups.find(target.as_str()) {
            None => {
                return tell("Group does not exist. Create it with /create group <name>.");
            },
            Some(i) => i,
        };
        let info = self.groups.value_at(gi);
        if info.banned.contains(name.as_str()) {
            return tell("You are banned from this group.");
        }
        let admin = is_group_admin(info, name.as_str());
        let pw_ok = match &info.password {
            None => true,
            Some(pw) => match &password {
                Some(given) => str_eq(given.as_str(), pw.as_str()),
                None => false,
            },
        };
        let has_password = info.password.is_some();
        let ghost before = self@;
        let ghost old_info = self@.groups[target@];
        let mut taken = self.take_group(gi);
        let invited = taken.invites.remove(name.as_str());
        self.put_group(gi, taken);
        proof {
            assert(self@.groups =~= before.groups.insert(
                target@,
                GroupView { invites: old_info.invites.remove(name@), ..old_info },
            ));
        }
        if invited || pw_ok || admin {
            self.set_client_group(name.as_str(), Some(target.clone()));
            sess.group = Some(target.clone());
            let joined = cat3("Joined group '", target.as_str(), "'.");
            let mode = PromptMode::Group(target.clone());
            let prompt = prompt_text(name.as_str(), &mode);
            let announce = cat4(name.as_str(), " joined '", target.as_str(), "'.");
            let r = vec![
                Effect::Reply(server_message(joined.as_str())),
                Effect::Reply(Message::Prompt { text: prompt, mode }),
                Effect::Broadcast {
                    group: target.clone(),
                    sender: name.clone(),
                    message: server_message(announce.as_str()),
                },
            ];
            assert(effects_view(r@) =~= join_step(old(self)@, old(sess)@, requested@, opt_view(password)).effects);
            r
        } else if has_password {
            tell("Incorrect password.")
        } else {
            tell("You must be invited to join this group.")
        }
    }

    fn on_invite(&mut self, sess: &Session, target: String) -> (r: Vec<Effect>)
        requires
            old(self).wf(),
        ensures
            final(self).wf(),
            invite_step(old(self)@, sess@, target@) == (Outcome {
                server: final(self)@,
                session: sess@,
                effects: effects_view(r@),
            }),
    {
        let inviter = match &sess.username {
            None => {
                return tell("Enter a username before inviting others.");
            },
            Some(n) => n,
        };
        let cg = match &sess.group {
            None => {
                return tell("Join a group before inviting others.");
            },
            Some(g) => g,
        };
        let t = trim(target.as_str());
        if t.as_str().unicode_len() == 0 {
            return tell("Provide a username to invite.");
        }
        let gi = match self.groups.find(cg.as_str()) {
            None => {
                return tell("Current group no longer exists.");
            },
            Some(i) => i,
        };
        let ghost before = self@;
        let ghost old_info = self@.groups[cg@];
        let mut info = self.take_group(gi);
        info.invites.insert(t.clone());
        info.banned.remove(t.as_str());
        self.put_group(gi, info);
        proof {
            assert(self@.groups =~= before.groups.insert(
                cg@,
                GroupView { invites: old_info.invites.insert(t@), banned: old_info.banned.remove(t@), ..old_info },
            ));
        }
        let text = cat5("Invited '", t.as_str(), "' to join '", cg.as_str(), "'.");
        let mut r = vec![Effect::Reply(server_message(text.as_str()))];
        if self.clients.contains(t.as_str()) {
            let note = cat6(inviter.as_str(), " invited you to join '", cg.as_str(), "'. Use /join ", cg.as_str(), " to accept.");
            r.push(Effect::Deliver { to: t.clone(), message: server_message(note.as_str()) });
        }
        assert(effects_view(r@) =~= invite_step(old(self)@, sess@, target@).effects);
        r
    }

    fn on_promote(&mut self, sess: &Session, target: String) -> (r: Vec<Effect>)
        requires
            old(self).wf(),
        ensures
            final(self).wf(),
            promote_step(old(self)@, sess@, target@) == (Outcome {
                server: final(self)@,
                session: sess@,
                effects: effects_view(r@),
            }),
    {
        let me = match &sess.username {
            None => {
                return tell("Enter a username before promoting users.");
            },
            Some(n) => n,
        };
        let cg = match &sess.group {
            None => {
                return tell("You must be in a group to promote members.");
            },
            Some(g) => g,
        };
        let t = trim(target.as_str());
        if t.as_str().unicode_len() == 0 {
            return tell("Provide a username to promote.");
        }
        if !self.client_in_group(t.as_str(), cg.as_str()) {
            return tell("User must be in the group to be promoted.");
        }
        let gi = match self.groups.find(cg.as_str()) {
            None => {
                return tell("Current group no longer exists.");
            },
            Some(i) => i,
        };
        let info = self.groups.value_at(gi);
        if !str_eq(info.owner.as_str(), me.as_str()) {
            return tell("Only the group owner can promote members.");
        }
        if str_eq(info.owner.as_str(), t.as_str()) {
            return tell("Owner has full privileges already.");
        }
        if info.admins.contains(t.as_str()) {
            return tell("User is already an admin.");
        }
        let ghost before = self@;
        let ghost old_info = self@.groups[cg@];
        let mut info = self.take_group(gi);
        info.admins.insert(t.clone());
        self.put_group(gi, info);
        proof {
            assert(self@.groups =~= before.groups.insert(cg@, GroupView { admins: old_info.admins.insert(t@), ..old_info }));
        }
        let text = cat3("'", t.as_str(), "' has been promoted to admin.");
        let note = cat3("You have been promoted to admin of '", cg.as_str(), "'.");
        let r = vec![
            Effect::Reply(server_message(text.as_str())),
            Effect::Deliver { to: t.clone(), message: server_message(note.as_str()) },
        ];
        assert(effects_view(r@) =~= promote_step(old(self)@, sess@, target@).effects);
        r
    }

    fn on_demote(&mut self, sess: &Session, target: String) -> (r: Vec<Effect>)
        requires
            old(self).wf(),
        ensures
            final(self).wf(),
            demote_step(old(self)@, sess@, target@) == (Outcome {
                server: final(self)@,
                session: sess@,
                effects: effects_view(r@),
            }),
    {
        let me = match &sess.username {
            None => {
                return tell("Enter a username before demoting users.");
            },
            Some(n) => n,
        };
        let cg = match &sess.group {
            None => {
                return tell("You must be in a group to demote members.");
            },
            Some(g) => g,
        };
        let t = trim(target.as_str());
        if t.as_str().unicode_len() == 0 {
            return tell("Provide a username to demote.");
        }
        let member = self.client_in_group(t.as_str(), cg.as_str());
        let gi = match self.groups.find(cg.as_str()) {
            None => {
                return tell("Current group no longer exists.");
            },
            Some(i) => i,
        };
        let info = self.groups.value_at(gi);
        if !str_eq(info.owner.as_str(), me.as_str()) {
            return tell("Only the group owner can demote admins.");
        }
        if str_eq(info.owner.as_str(), t.as_str()) {
            return tell("Owner cannot be demoted.");
        }
        if !info.admins.contains(t.as_str()) {
            return tell("User is not an admin.");
        }
        let ghost before = self@;
        let ghost old_info = self@.groups[cg@];
        let mut info = self.take_group(gi);
        info.admins.remove(t.as_str());
        self.put_group(gi, info);
        proof {
            assert(self@.groups =~= before.groups.insert(cg@, GroupView { admins: old_info.admins.remove(t@), ..old_info }));
        }
        let text = cat3("'", t.as_str(), "' has been demoted.");
        let mut r = vec![Effect::Reply(server_message(text.as_str()))];
        if member {
            let note = cat3("You have been demoted from admin in '", cg.as_str(), "'.");
            r.push(Effect::Deliver { to: t.clone(), message: server_message(note.as_str()) });
        }
        assert(effects_view(r@) =~= demote_step(old(self)@, sess@, target@).effects);
        r
    }

    fn on_kick(&mut self, sess: &Session, target: String) -> (r: Vec<Effect>)
        requires
            old(self).wf(),
        ensures
            final(self).wf(),
            kick_step(old(self)@, sess@, target@) == (Outcome {
                server: final(self)@,
                session: sess@,
                effects: effects_view(r@),
            }),
    {
        let me = match &sess.username {
            None => {
                return tell("Enter a username before kicking users.");
            },
            Some(n) => n,
        };
        let cg = match &sess.group {
            None => {
                return tell("You must be in a group to kick members.");
            },
            Some(g) => g,
        };
        let t = trim(target.as_str());
        if t.as_str().unicode_len() == 0 {
            return tell("Provide a username to kick.");
        }
        if str_eq(t.as_str(), me.as_str()) {
            return tell("You cannot kick yourself.");
        }
        let gi = match self.groups.find(cg.as_str()) {
            None => {
                return tell("Current group no longer exists.");
            },
            Some(i) => i,
        };
        let info = self.groups.value_at(gi);
        if !is_group_admin(info, me.as_str()) {
            return tell("Only a group admin can kick members.");
        }
        if str_eq(info.owner.as_str(), t.as_str()) {
            return tell("Owner cannot be kicked.");
        }
        if !self.clients.contains(t.as_str()) {
            return tell("User not found.");
        }
        if !self.client_in_group(t.as_str(), cg.as_str()) {
            return tell("User is not in this group.");
        }
        let ghost before = self@;
        let ghost old_info = self@.groups[cg@];
        let mut info = self.take_group(gi);
        info.admins.remove(t.as_str());
        self.put_group(gi, info);
        self.set_client_group(t.as_str(), None);
        proof {
            assert(self@.groups =~= before.groups.insert(cg@, GroupView { admins: old_info.admins.remove(t@), ..old_info }));
        }
        let text = cat5("'", t.as_str(), "' has been kicked from '", cg.as_str(), "'.");
        let note = cat3("You have been removed from '", cg.as_str(), "'.");
        let prompt = prompt_text(t.as_str(), &PromptMode::Plain);
        let notice_text = cat4(t.as_str(), " was removed from '", cg.as_str(), "'.");
        let r = vec![
            Effect::Reply(server_message(text.as_str())),
            Effect::Deliver { to: t.clone(), message: server_message(note.as_str()) },
            Effect::Deliver { to: t.clone(), message: Message::Prompt { text: prompt, mode: PromptMode::Plain } },
            Effect::Broadcast { group: cg.clone(), sender: me.clone(), message: server_message(notice_text.as_str()) },
        ];
        assert(effects_view(r@) =~= kick_step(old(self)@, sess@, target@).effects);
        r
    }

    fn on_ban(&mut self, sess: &Session, target: String) -> (r: Vec<Effect>)
        requires
            old(self).wf(),
        ensures
            final(self).wf(),
            ban_step(old(self)@, sess@, target@) == (Outcome {
                server: final(self)@,
                session: sess@,
                effects: effects_view(r@),
            }),
    {
        let me = match &sess.username {
            None => {
                return tell("Enter a username before banning users.");
            },
            Some(n) => n,
        };
        let cg = match &sess.group {
            None => {
                return tell("You must be in a group to ban members.");
            },
            Some(g) => g,
        };
        let t = trim(target.as_str());
        if t.as_str().unicode_len() == 0 {
            return tell("Provide a username to ban.");
        }
        let gi = match self.groups.find(cg.as_str()) {
            None => {
                return tell("Current group no longer exists.");
            },
            Some(i) => i,
        };
        let info = self.groups.value_at(gi);
        if !is_group_admin(info, me.as_str()) {
            return tell("Only a group admin can ban members.");
        }
        if str_eq(info.owner.as_str(), t.as_str()) {
            return tell("Owner cannot be banned.");
        }
        let member = self.client_in_group(t.as_str(), cg.as_str());
        let ghost before = self@;
        let ghost old_info = self@.groups[cg@];
        let mut info = self.take_group(gi);
        info.admins.remove(t.as_str());
        info.banned.insert(t.clone());
        info.invites.remove(t.as_str());
        self.put_group(gi, info);
        if member {
            self.set_client_group(t.as_str(), None);
        }
        proof {
            assert(self@.groups =~= before.groups.insert(
                cg@,
                GroupView {
                    admins: old_info.admins.remove(t@),
                    banned: old_info.banned.insert(t@),
                    invites: old_info.invites.remove(t@),
                    ..old_info
                },
            ));
        }
        let text = cat5("'", t.as_str(), "' has been banned from '", cg.as_str(), "'.");
        let mut r = vec![Effect::Reply(server_message(text.as_str()))];
        if member {
            let note = cat3("You have been banned from '", cg.as_str(), "'.");
            let prompt = prompt_text(t.as_str(), &PromptMode::Plain);
            r.push(Effect::Deliver { to: t.clone(), message: server_message(note.as_str()) });
            r.push(Effect::Deliver { to: t.clone(), message: Message::Prompt { text: prompt, mode: PromptMode::Plain } });
        }
        let notice_text = cat4(t.as_str(), " was banned from '", cg.as_str(), "'.");
        r.push(Effect::Broadcast { group: cg.clone(), sender: me.clone(), message: server_message(notice_text.as_str()) });
        assert(effects_view(r@) =~= ban_step(old(self)@, sess@, target@).effects);
        r
    }

    fn on_unban(&mut self, sess: &Session, target: String) -> (r: Vec<Effect>)
        requires
            old(self).wf(),
        ensures
            final(self).wf(),
            unban_step(old(self)@, sess@, target@) == (Outcome {
                server: final(self)@,
                session: sess@,
                effects: effects_view(r@),
            }),
    {
        let me = match &sess.username {
            None => {
                return tell("Enter a username before unbanning users.");
            },
            Some(n) => n,
        };
        let cg = match &sess.group {
            None => {
                return tell("You must be in a group to unban members.");
            },
            Some(g) => g,
        };
        let gi = match self.groups.find(cg.as_str()) {
            None => {
                return tell("Current group no longer exists.");
            },
            Some(i) => i,
        };
        let info = self.groups.value_at(gi);
        if !is_group_admin(info, me.as_str()) {
            return tell("Only a group admin can unban members.");
        }
        let ghost before = self@;
        let ghost old_info = self@.groups[cg@];
        let mut info = self.take_group(gi);
        info.banned.remove(target.as_str());
        self.put_group(gi, info);
        proof {
            assert(self@.groups =~= before.groups.insert(cg@, GroupView { banned: old_info.banned.remove(target@), ..old_info }));
        }
        let mut r = vec![Effect::Reply(server_message("User unbanned."))];
        if self.clients.contains(target.as_str()) {
            let note = cat3("You have been unbanned from '", cg.as_str(), "'.");
            let prompt = prompt_text(target.as_str(), &PromptMode::Plain);
            r.push(Effect::Deliver { to: target.clone(), message: server_message(note.as_str()) });
            r.push(Effect::Deliver { to: target.clone(), message: Message::Prompt { text: prompt, mode: PromptMode::Plain } });
        }
        let notice_text = cat4(target.as_str(), " was unbanned in '", cg.as_str(), "'.");
        r.push(Effect::Broadcast { group: cg.clone(), sender: me.clone(), message: server_message(notice_text.as_str()) });
        assert(effects_view(r@) =~= unban_step(old(self)@, sess@, target@).effects);
        r
    }

    fn on_block(&mut self, sess: &Session, target: String) -> (r: Vec<Effect>)
        requires
            old(self).wf(),
        ensures
            final(self).wf(),
            block_step(old(self)@, sess@, target@) == (Outcome {
                server: final(self)@,
                session: sess@,
                effects: effects_view(r@),
            }),
    {
        let me = match &sess.username {
            None => {
                return tell("Enter a username before blocking users.");
            },
            Some(n) => n,
        };
        let t = trim(target.as_str());
        if t.as_str().unicode_len() == 0 {
            return tell("Provide a username to block.");
        }
        if str_eq(t.as_str(), me.as_str()) {
            return tell("You cannot block yourself.");
        }
        let ci = match self.clients.find(me.as_str()) {
            None => {
                return tell("User already blocked.");
            },
            Some(i) => i,
        };
        let target_exists = self.clients.contains(t.as_str());
        let ghost before = self@;
        let ghost old_info = self@.clients[me@];
        let mut info = self.take_client(ci);
        let added = info.blocked_users.insert(t.clone());
        self.put_client(ci, info);
        proof {
            assert(self@.clients =~= before.clients.insert(
                me@,
                ClientView { blocked_users: old_info.blocked_users.insert(t@), ..old_info },
            ));
        }
        if !added {
            return tell("User already blocked.");
        }
        let text = cat3("You blocked '", t.as_str(), "'.");
        let mut r = vec![Effect::Reply(server_message(text.as_str()))];
        if target_exists {
            let note = cat2(me.as_str(), " has blocked you.");
            r.push(Effect::Deliver { to: t.clone(), message: server_message(note.as_str()) });
        }
        assert(effects_view(r@) =~= block_step(old(self)@, sess@, target@).effects);
        r
    }

    fn on_unblock(&mut self, sess: &Session, target: String) -> (r: Vec<Effect>)
        requires
            old(self).wf(),
        ensures
            final(self).wf(),
            unblock_step(old(self)@, sess@, target@) == (Outcome {
                server: final(self)@,
                session: sess@,
                effects: effects_view(r@),
            }),
    {
        let me = match &sess.username {
            None => {
                return tell("Enter a username before unblocking users.");
            },
            Some(n) => n,
        };
        let t = trim(target.as_str());
        if t.as_str().unicode_len() == 0 {
            return tell("Provide a username to unblock.");
        }
        let ci = match self.clients.find(me.as_str()) {
            None => {
                return tell("User was not blocked.");
            },
            Some(i) => i,
        };
        let ghost before = self@;
        let ghost old_info = self@.clients[me@];
        let mut info = self.take_client(ci);
        let removed = info.blocked_users.remove(t.as_str());
        self.put_client(ci, info);
        proof {
            assert(self@.clients =~= before.clients.insert(
                me@,
                ClientView { blocked_users: old_info.blocked_users.remove(t@), ..old_info },
            ));
        }
        if !removed {
            return tell("User was not blocked.");
        }
        let text = cat3("You unblocked '", t.as_str(), "'.");
        let mut r = vec![Effect::Reply(server_message(text.as_str()))];
        if self.clients.contains(t.as_str()) {
            let note = cat2(me.as_str(), " has unblocked you.");
            r.push(Effect::Deliver { to: t.clone(), message: server_message(note.as_str()) });
        }
        assert(effects_view(r@) =~= unblock_step(old(self)@, sess@, target@).effects);
        r
    }

    fn on_group_block(&mut self, sess: &Session, target: String) -> (r: Vec<Effect>)
        requires
            old(self).wf(),
        ensures
            final(self).wf(),
            group_block_step(old(self)@, sess@, target@) == (Outcome {
                server: final(self)@,
                session: sess@,
                effects: effects_view(r@),
            }),
    {
        let me = match &sess.username {
            None => {
                return tell("Enter a username before blocking group members.");
            },
            Some(n) => n,
        };
        let cg = match &sess.group {
            None => {
                return tell("Join a group before blocking its members.");
            },
            Some(g) => g,
        };
        let t = trim(target.as_str());
        if t.as_str().unicode_len() == 0 {
            return tell("Provide a username to block.");
        }
        let gi = match self.groups.find(cg.as_str()) {
            None => {
                return tell("Current group no longer exists.");
            },
            Some(i) => i,
        };
        let info = self.groups.value_at(gi);
        if !is_group_admin(info, me.as_str()) {
            return tell("Only a group admin can block members from chatting.");
        }
        if str_eq(info.owner.as_str(), t.as_str()) {
            return tell("Owner cannot be blocked.");
        }
        if info.group_blocked.contains(t.as_str()) {
            return tell("User is already blocked in this group.");
        }
        if !self.client_in_group(t.as_str(), cg.as_str()) {
            return tell("User must be in the group to be blocked.");
        }
        let ghost before = self@;
        let ghost old_info = self@.groups[cg@];
        let mut info = self.take_group(gi);
        info.group_blocked.insert(t.clone());
        self.put_group(gi, info);
        proof {
            assert(self@.groups =~= before.groups.insert(
                cg@,
                GroupView { group_blocked: old_info.group_blocked.insert(t@), ..old_info },
            ));
        }
        let text = cat5("'", t.as_str(), "' has been blocked from speaking in '", cg.as_str(), "'.");
        let note = cat3("You have been blocked from speaking in '", cg.as_str(), "'.");
        let notice_text = cat4(t.as_str(), " was muted in '", cg.as_str(), "'.");
        let r = vec![
            Effect::Reply(server_message(text.as_str())),
            Effect::Deliver { to: t.clone(), message: server_message(note.as_str()) },
            Effect::Broadcast { group: cg.clone(), sender: me.clone(), message: server_message(notice_text.as_str()) },
        ];
        assert(effects_view(r@) =~= group_block_step(old(self)@, sess@, target@).effects);
        r
    }

    fn on_group_unblock(&mut self, sess: &Session, target: String) -> (r: Vec<Effect>)
        requires
            old(self).wf(),
        ensures
            final(self).wf(),
            group_unblock_step(old(self)@, sess@, target@) == (Outcome {
                server: final(self)@,
                session: sess@,
                effects: effects_view(r@),
            }),
    {
        let me = match &sess.username {
            None => {
                return tell("Enter a username before unblocking group members.");
            },
            Some(n) => n,
        };
        let cg = match &sess.group {
            None => {
                return tell("Join a group before unblocking its members.");
            },
            Some(g) => g,
        };
        let t = trim(target.as_str());
        if t.as_str().unicode_len() == 0 {
            return tell("Provide a username to unblock.");
        }
        let gi = match self.groups.find(cg.as_str()) {
            None => {
                return tell("Current group no longer exists.");
            },
            Some(i) => i,
        };
        let info = self.groups.value_at(gi);
        if !is_group_admin(info, me.as_str()) {
            return tell("Only a group admin can unblock members.");
        }
        if !info.group_blocked.contains(t.as_str()) {
            return tell("User is not blocked in this group.");
        }
        let ghost before = self@;
        let ghost old_info = self@.groups[cg@];
        let mut info = self.take_group(gi);
        info.group_blocked.remove(t.as_str());
        self.put_group(gi, info);
        proof {
            assert(self@.groups =~= before.groups.insert(
                cg@,
                GroupView { group_blocked: old_info.group_blocked.remove(t@), ..old_info },
            ));
        }
        let text = cat5("'", t.as_str(), "' has been unblocked in '", cg.as_str(), "'.");
        let mut r = vec![Effect::Reply(server_message(text.as_str()))];
        if self.clients.contains(t.as_str()) {
            let note = cat3("You can speak again in '", cg.as_str(), "'.");
            r.push(Effect::Deliver { to: t.clone(), message: server_message(note.as_str()) });
        }
        let notice_text = cat4(t.as_str(), " was unmuted in '", cg.as_str(), "'.");
        r.push(Effect::Broadcast { group: cg.clone(), sender: me.clone(), message: server_message(notice_text.as_str()) });
        assert(effects_view(r@) =~= group_unblock_step(old(self)@, sess@, target@).effects);
        r
    }

    fn on_group_password(&mut self, sess: &Session, password: Option<String>) -> (r: Vec<Effect>)
        requires
            old(self).wf(),
        ensures
            final(self).wf(),
            group_password_step(old(self)@, sess@, opt_view(password)) == (Outcome {
                server: final(self)@,
                session: sess@,
                effects: effects_view(r@),
            }),
    {
        let me = match &sess.username {
            None => {
                return tell("Enter a username before setting a password.");
            },
            Some(n) => n,
        };
        let cg = match &sess.group {
            None => {
                return tell("Join a group before setting a password.");
            },
            Some(g) => g,
        };
        let gi = match self.groups.find(cg.as_str()) {
            None => {
                return tell("Current group no longer exists.");
            },
            Some(i) => i,
        };
        let info = self.groups.value_at(gi);
        if !is_group_admin(info, me.as_str()) {
            return tell("Only a group admin can set a password.");
        }
        let set = password.is_some();
        let ghost pv = opt_view(password);
        let ghost before = self@;
        let ghost old_info = self@.groups[cg@];
        let mut info = self.take_group(gi);
        info.password = password;
        self.put_group(gi, info);
        proof {
            assert(self@.groups =~= before.groups.insert(cg@, GroupView { password: pv, ..old_info }));
        }
        if set {
            let text = cat3("Password updated for '", cg.as_str(), "'.");
            tell(text.as_str())
        } else {
            let text = cat3("Password cleared for '", cg.as_str(), "'.");
            tell(text.as_str())
        }
    }

    fn on_group_say(&self, sess: &Session, text: String) -> (r: Vec<Effect>)
        requires
            self.wf(),
        ensures
            group_say_step(self@, sess@, text@) == (Outcome {
                server: self@,
                session: sess@,
                effects: effects_view(r@),
            }),
    {
        let me = match &sess.username {
            None => {
                return tell("Enter a username before chatting.");
            },
            Some(n) => n,
        };
        let cg = match &sess.group {
            None => {
                return tell("Join a group before chatting.");
            },
            Some(g) => g,
        };
        let t = trim(text.as_str());
        if t.as_str().unicode_len() == 0 {
            let r: Vec<Effect> = Vec::new();
            assert(effects_view(r@) =~= Seq::<EffectView>::empty());
            return r;
        }
        let info = match self.groups.get(cg.as_str()) {
            None => {
                return tell("Current group no longer exists.");
            },
            Some(info) => info,
        };
        if info.group_blocked.contains(me.as_str()) {
            return tell("You are blocked from speaking in this group.");
        }
        let line = cat6("[", me.as_str(), "@", cg.as_str(), "]: ", t.as_str());
        let r = vec![
            Effect::Reply(Message::Say(line.clone())),
            Effect::Broadcast { group: cg.clone(), sender: me.clone(), message: Message::Say(line) },
        ];
        assert(effects_view(r@) =~= group_say_step(self@, sess@, text@).effects);
        r
    }

    fn on_group_who(&self, sess: &Session) -> (r: (Vec<Effect>, Ghost<Seq<Seq<char>>>))
        requires
            self.wf(),
        ensures
            walks(r.1@, match sess@.group { Some(g) => visible_members(self@, g), None => Set::empty() }),
            group_who_step(self@, sess@, r.1@) == (Outcome {
                server: self@,
                session: sess@,
                effects: effects_view(r.0@),
            }),
    {
        let ghost nobody = Seq::<Seq<char>>::empty();
        proof {
            assert(nobody.to_set() =~= Set::<Seq<char>>::empty());
        }
        let cg = match &sess.group {
            None => {
                if sess.username.is_none() {
                    return (tell("Enter a username before using /group who."), Ghost(nobody));
                }
                return (tell("Join a group before using /group who."), Ghost(nobody));
            },
            Some(g) => g,
        };
        let names = self.select(Some(cg.as_str()), None, true);
        let ghost listing = name_seq(names@);
        proof {
            assert(selection(self@, Some(cg@), None, true) =~= visible_members(self@, cg@));
        }
        if sess.username.is_none() {
            return (tell("Enter a username before using /group who."), Ghost(listing));
        }
        let info = match self.groups.get(cg.as_str()) {
            None => {
                return (tell("Current group no longer exists."), Ghost(listing));
            },
            Some(info) => info,
        };
        if names.len() == 0 {
            let text = cat3("No visible members in '", cg.as_str(), "'.");
            return (tell(text.as_str()), Ghost(listing));
        }
        let entries = join_entries(&names, info);
        let text = cat4("Members of '", cg.as_str(), "': ", entries.as_str());
        (tell(text.as_str()), Ghost(listing))
    }

    fn on_who(&self, sess: &Session) -> (r: (Vec<Effect>, Ghost<Seq<Seq<char>>>))
        requires
            self.wf(),
        ensures
            walks(r.1@, visible_users(self@)),
            who_step(self@, sess@, r.1@) == (Outcome {
                server: self@,
                session: sess@,
                effects: effects_view(r.0@),
            }),
    {
        let names = self.select(None, None, true);
        let ghost listing = name_seq(names@);
        proof {
            assert(selection(self@, None, None, true) =~= visible_users(self@));
        }
        let first = if names.len() == 0 {
            server_message("No visible users online.")
        } else {
            let joined = join_names(&names);
            let text = cat2("Online users: ", joined.as_str());
            server_message(text.as_str())
        };
        let anon_self = match &sess.username {
            Some(n) => match self.clients.get(n.as_str()) {
                Some(info) => info.is_anon,
                None => false,
            },
            None => false,
        };
        let mut r = vec![Effect::Reply(first)];
        if anon_self {
            r.push(Effect::Reply(server_message("You are currently anonymous; others cannot see or message you.")));
        }
        assert(effects_view(r@) =~= who_step(self@, sess@, listing).effects);
        (r, Ghost(listing))
    }

    fn on_anon_toggle(&mut self, sess: &Session) -> (r: Vec<Effect>)
        requires
            old(self).wf(),
        ensures
            final(self).wf(),
            anon_toggle_step(old(self)@, sess@) == (Outcome {
                server: final(self)@,
                session: sess@,
                effects: effects_view(r@),
            }),
    {
        let me = match &sess.username {
            None => {
                return tell("Enter a username before toggling anonymity.");
            },
            Some(n) => n,
        };
        let ci = match self.clients.find(me.as_str()) {
            None => {
                return tell("You are visible again.");
            },
            Some(i) => i,
        };
        let ghost before = self@;
        let ghost old_info = self@.clients[me@];
        let mut info = self.take_client(ci);
        info.is_anon = !info.is_anon;
        let now = info.is_anon;
        self.put_client(ci, info);
        proof {
            assert(self@.clients =~= before.clients.insert(me@, ClientView { is_anon: now, ..old_info }));
        }
        if now {
            tell("You are now anonymous. Others cannot see or message you.")
        } else {
            tell("You are visible again.")
        }
    }

    fn on_say(&self, sess: &Session, text: String) -> (r: Vec<Effect>)
        requires
            self.wf(),
        ensures
            say_step(self@, sess@, text@) == (Outcome {
                server: self@,
                session: sess@,
                effects: effects_view(r@),
            }),
    {
        let me = match &sess.username {
            None => {
                return tell("Enter a username before chatting.");
            },
            Some(n) => n,
        };
        let g = match &sess.group {
            None => {
                return tell("Join a group with /join <group> to chat, or use /send <username> <message> for direct messages.");
            },
            Some(g) => g,
        };
        if !self.groups.contains(g.as_str()) {
            return tell("Current group no longer exists.");
        }
        let line = cat6("[", me.as_str(), "@", g.as_str(), "]: ", text.as_str());
        let r = vec![Effect::Broadcast { group: g.clone(), sender: me.clone(), message: Message::Say(line) }];
        assert(effects_view(r@) =~= say_step(self@, sess@, text@).effects);
        r
    }

    fn on_send(&self, sess: &Session, to: String, text: String) -> (r: Vec<Effect>)
        requires
            self.wf(),
        ensures
            send_step(self@, sess@, to@, text@) == (Outcome {
                server: self@,
                session: sess@,
                effects: effects_view(r@),
            }),
    {
        let me = match &sess.username {
            None => {
                return tell("Enter a username before sending direct messages.");
            },
            Some(n) => n,
        };
        if str_eq(me.as_str(), to.as_str()) {
            return tell("You cannot send direct messages to yourself.");
        }
        let sender_blocked = match self.clients.get(me.as_str()) {
            Some(info) => info.blocked_users.contains(to.as_str()),
            None => false,
        };
        if sender_blocked {
            return tell("You have blocked this user.");
        }
        let target = match self.clients.get(to.as_str()) {
            None => {
                let text = cat3("User '", to.as_str(), "' not found");
                return tell(text.as_str());
            },
            Some(info) => info,
        };
        if target.is_anon {
            return tell("User is not accepting direct messages.");
        }
        if target.blocked_users.contains(me.as_str()) {
            return tell("User has blocked you.");
        }
        let line = cat4("\n[", me.as_str(), "@you]: ", text.as_str());
        let mode = PromptMode::Direct(to.clone());
        let prompt = prompt_text(me.as_str(), &mode);
        let r = vec![
            Effect::Deliver { to: to.clone(), message: Message::Say(line) },
            Effect::Reply(Message::Prompt { text: prompt, mode }),
        ];
        assert(effects_view(r@) =~= send_step(self@, sess@, to@, text@).effects);
        r
    }

    /// Decides on request `msg` of the connection with session `session`:
    /// updates the registry and the session and returns what is to be sent.
    /// The registry, session and effects are those of `step` in `model`, where
    /// the order in which `/who` and `/group who` list the clients is the
    /// order of the registry.
    pub fn handle(&mut self, session: &mut Session, msg: Message) -> (effects: Vec<Effect>)
        requires
            old(self).wf(),
        ensures
            final(self).wf(),
            handles(old(self)@, old(session)@, msg@, final(self)@, final(session)@, effects_view(effects@)),
    {
        let ghost s0 = self@;
        let ghost sess0 = session@;
        let ghost m = msg@;
        let ghost nobody = Seq::<Seq<char>>::empty();
        proof {
            assert(nobody.to_set() =~= Set::<Seq<char>>::empty());
        }
        let current = match &session.username {
            Some(n) => Some(self.group_of(n.as_str())),
            None => None,
        };
        match current {
            Some(g) => {
                session.group = g;
            },
            None => {},
        }
        assert(session@ == synced(s0, sess0));
        match msg {
            Message::Username(name) => {
                let r = self.on_username(session, name);
                assert(step(s0, sess0, m, nobody) == (Outcome { server: self@, session: session@, effects: effects_view(r@) }));
                r
            },
            Message::CreateGroup(raw) => {
                let r = self.on_create_group(session, raw);
                assert(step(s0, sess0, m, nobody) == (Outcome { server: self@, session: session@, effects: effects_view(r@) }));
                r
            },
            Message::Join { group, password } => {
                let r = self.on_join(session, group, password);
                assert(step(s0, sess0, m, nobody) == (Outcome { server: self@, session: session@, effects: effects_view(r@) }));
                r
            },
            Message::Invite(t) => {
                let r = self.on_invite(session, t);
                assert(step(s0, sess0, m, nobody) == (Outcome { server: self@, session: session@, effects: effects_view(r@) }));
                r
            },
            Message::Promote(t) => {
                let r = self.on_promote(session, t);
                assert(step(s0, sess0, m, nobody) == (Outcome { server: self@, session: session@, effects: effects_view(r@) }));
                r
            },
            Message::Demote(t) => {
                let r = self.on_demote(session, t);
                assert(step(s0, sess0, m, nobody) == (Outcome { server: self@, session: session@, effects: effects_view(r@) }));
                r
            },
            Message::Kick(t) => {
                let r = self.on_kick(session, t);
                assert(step(s0, sess0, m, nobody) == (Outcome { server: self@, session: session@, effects: effects_view(r@) }));
                r
            },
            Message::Ban(t) => {
                let r = self.on_ban(session, t);
                assert(step(s0, sess0, m, nobody) == (Outcome { server: self@, session: session@, effects: effects_view(r@) }));
                r
            },
            Message::Unban(t) => {
                let r = self.on_unban(session, t);
                assert(step(s0, sess0, m, nobody) == (Outcome { server: self@, session: session@, effects: effects_view(r@) }));
                r
            },
            Message::Block(t) => {
                let r = self.on_block(session, t);
                assert(step(s0, sess0, m, nobody) == (Outcome { server: self@, session: session@, effects: effects_view(r@) }));
                r
            },
            Message::Unblock(t) => {
                let r = self.on_unblock(session, t);
                assert(step(s0, sess0, m, nobody) == (Outcome { server: self@, session: session@, effects: effects_view(r@) }));
                r
            },
            Message::GroupBlock(t) => {
                let r = self.on_group_block(session, t);
                assert(step(s0, sess0, m, nobody) == (Outcome { server: self@, session: session@, effects: effects_view(r@) }));
                r
            },
            Message::GroupUnblock(t) => {
                let r = self.on_group_unblock(session, t);
                assert(step(s0, sess0, m, nobody) == (Outcome { server: self@, session: session@, effects: effects_view(r@) }));
                r
            },
            Message::GroupPassword(p) => {
                let r = self.on_group_password(session, p);
                assert(step(s0, sess0, m, nobody) == (Outcome { server: self@, session: session@, effects: effects_view(r@) }));
                r
            },
            Message::GroupSay(t) => {
                let r = self.on_group_say(session, t);
                assert(step(s0, sess0, m, nobody) == (Outcome { server: self@, session: session@, effects: effects_view(r@) }));
                r
            },
            Message::GroupWho => {
                let (r, listing) = self.on_group_who(session);
                assert(step(s0, sess0, m, listing@) == (Outcome { server: self@, session: session@, effects: effects_view(r@) }));
                r
            },
            Message::Who => {
                let (r, listing) = self.on_who(session);
                assert(step(s0, sess0, m, listing@) == (Outcome { server: self@, session: session@, effects: effects_view(r@) }));
                r
            },
            Message::AnonToggle => {
                let r = self.on_anon_toggle(session);
                assert(step(s0, sess0, m, nobody) == (Outcome { server: self@, session: session@, effects: effects_view(r@) }));
                r
            },
            Message::Say(t) => {
                let r = self.on_say(session, t);
                assert(step(s0, sess0, m, nobody) == (Outcome { server: self@, session: session@, effects: effects_view(r@) }));
                r
            },
            Message::Send(to, t) => {
                let r = self.on_send(session, to, t);
                assert(step(s0, sess0, m, nobody) == (Outcome { server: self@, session: session@, effects: effects_view(r@) }));
                r
            },
            Message::Quit => {
                let r = vec![Effect::Reply(server_message("Disconnecting...")), Effect::Close];
                assert(effects_view(r@) =~= step(s0, sess0, m, nobody).effects);
                assert(step(s0, sess0, m, nobody) == (Outcome { server: self@, session: session@, effects: effects_view(r@) }));
                r
            },
            Message::Help => {
                let r = tell(help_display());
                assert(step(s0, sess0, m, nobody) == (Outcome { server: self@, session: session@, effects: effects_view(r@) }));
                r
            },
            Message::Prompt { .. } => {
                let r: Vec<Effect> = Vec::new();
                assert(effects_view(r@) =~= Seq::<EffectView>::empty());
                assert(step(s0, sess0, m, nobody) == (Outcome { server: self@, session: session@, effects: effects_view(r@) }));
                r
            },
        }
    }

    /// Forgets the client of a connection that ends.
    pub fn disconnect(&mut self, session: &Session)
        requires
            old(self).wf(),
        ensures
            final(self).wf(),
            final(self)@ == disconnected(old(self)@, session@),
    {
        match &session.username {
            Some(n) => self.clients.remove(n.as_str()),
            None => {},
        }
    }
}

} // verus!
