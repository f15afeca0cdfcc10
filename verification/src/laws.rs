//! Properties of the server that hold across requests.

use vstd::prelude::*;
use crate::framing::{be_value, frame, lemma_be_roundtrip, written_length};
use crate::model::{disconnected, member_entries, step, synced, EffectView, SessionView};
use crate::protocol::MessageView;
use crate::replies::notice;
use crate::state::{fresh_client, in_group, is_admin_of, ServerView};
use crate::text::{join, trimmed};

verus! {

/// A frame announces the length of its payload, and the payload follows the
/// four header bytes, whatever comes after the frame; for payloads shorter
/// than 2^32 bytes.
pub proof fn law_frame_roundtrip(payload: Seq<u8>, rest: Seq<u8>)
    requires
        payload.len() < 0x1_0000_0000,
    ensures
        (frame(payload) + rest).len() >= 4,
        be_value(frame(payload) + rest) == payload.len(),
        (frame(payload) + rest).subrange(4, 4 + payload.len() as int) == payload,
{
    lemma_be_roundtrip(written_length(payload.len()));
    let f = frame(payload) + rest;
    assert(f[0] == frame(payload)[0] && f[1] == frame(payload)[1] && f[2] == frame(payload)[2] && f[3] == frame(payload)[3]);
    assert(f.subrange(4, 4 + payload.len() as int) =~= payload);
}

/// Once a connection has a name, no request changes it.
pub proof fn law_name_is_kept(s: ServerView, sess: SessionView, m: MessageView, listing: Seq<Seq<char>>)
    requires
        sess.username is Some,
    ensures
        step(s, sess, m, listing).session.username == sess.username,
{
}

/// Groups are never removed and their owners never change.
pub proof fn law_groups_persist(s: ServerView, sess: SessionView, m: MessageView, listing: Seq<Seq<char>>, g: Seq<char>)
    requires
        s.groups.contains_key(g),
    ensures
        step(s, sess, m, listing).server.groups.contains_key(g),
        step(s, sess, m, listing).server.groups[g].owner == s.groups[g].owner,
{
}


/// A connection gets a name only by asking for one that no client has; the
/// client then starts in no group, visible, blocking nobody.
pub proof fn law_names_are_unique(s: ServerView, sess: SessionView, m: MessageView, listing: Seq<Seq<char>>)
    requires
        sess.username is None,
        step(s, sess, m, listing).session.username is Some,
    ensures
        ({
            let n = step(s, sess, m, listing).session.username->0;
            &&& m == MessageView::Username(n)
            &&& !s.clients.contains_key(n)
            &&& step(s, sess, m, listing).server.clients.contains_key(n)
            &&& step(s, sess, m, listing).server.clients[n] == fresh_client()
        }),
{
}

/// A request of a connection without a name changes nothing in the registry,
/// unless it asks for a name.
pub proof fn law_unnamed_changes_nothing(s: ServerView, sess: SessionView, m: MessageView, listing: Seq<Seq<char>>)
    requires
        sess.username is None,
        !(m is Username),
    ensures
        step(s, sess, m, listing).server == s,
{
}

/// Only an administrator of a group changes its admins, its password, its
/// muted members, or bans someone new; only its owner makes someone an admin.
pub proof fn law_only_admins_administer(
    s: ServerView,
    sess: SessionView,
    m: MessageView,
    listing: Seq<Seq<char>>,
    g: Seq<char>,
)
    requires
        s.groups.contains_key(g),
    ensures
        ({
            let post = step(s, sess, m, listing).server.groups[g];
            let pre = s.groups[g];
            let who = synced(s, sess).username;
            &&& (post.admins != pre.admins || post.password != pre.password
                || post.group_blocked != pre.group_blocked || !post.banned.subset_of(pre.banned))
                ==> (who matches Some(u) && is_admin_of(pre, u))
            &&& !post.admins.subset_of(pre.admins) ==> who == Some(pre.owner)
        }),
{
    let post = step(s, sess, m, listing).server.groups[g];
    let pre = s.groups[g];
    assert(pre.banned.subset_of(pre.banned));
    assert(pre.admins.subset_of(pre.admins));
    assert(pre.banned.remove(synced(s, sess).username->0).subset_of(pre.banned));
    match m {
        MessageView::Invite(t) => {
            assert(pre.banned.remove(trimmed(t)).subset_of(pre.banned));
        },
        MessageView::Unban(t) => {
            assert(pre.banned.remove(t).subset_of(pre.banned));
        },
        MessageView::Demote(t) => {
            assert(pre.admins.remove(trimmed(t)).subset_of(pre.admins));
        },
        MessageView::Kick(t) => {
            assert(pre.admins.remove(trimmed(t)).subset_of(pre.admins));
        },
        MessageView::Ban(t) => {
            assert(pre.admins.remove(trimmed(t)).subset_of(pre.admins));
        },
        _ => {},
    }
}

/// Nobody is both invited to and banned from a group.
pub open spec fn invites_exclude_bans(s: ServerView) -> bool {
    forall|g: Seq<char>, n: Seq<char>|
        #![trigger s.groups[g].invites.contains(n), s.groups[g].banned.contains(n)]
        s.groups.contains_key(g) ==> !(s.groups[g].invites.contains(n) && s.groups[g].banned.contains(n))
}

/// Every request keeps invitations and bans apart: inviting lifts a ban, and
/// banning withdraws an invitation.
pub proof fn law_invites_exclude_bans(s: ServerView, sess: SessionView, m: MessageView, listing: Seq<Seq<char>>)
    requires
        invites_exclude_bans(s),
    ensures
        invites_exclude_bans(step(s, sess, m, listing).server),
{
    let post = step(s, sess, m, listing).server;
    assert forall|g: Seq<char>, n: Seq<char>|
        #![trigger post.groups[g].invites.contains(n), post.groups[g].banned.contains(n)]
        post.groups.contains_key(g) implies !(post.groups[g].invites.contains(n) && post.groups[g].banned.contains(n)) by {
        if s.groups.contains_key(g) {
            assert(!(s.groups[g].invites.contains(n) && s.groups[g].banned.contains(n)));
        }
    }
}

/// A banned user who asks to join the group is refused, and nothing changes.
pub proof fn law_banned_cannot_join(
    s: ServerView,
    sess: SessionView,
    requested: Seq<char>,
    given: Option<Seq<char>>,
    listing: Seq<Seq<char>>,
)
    requires
        synced(s, sess).username is Some,
        trimmed(requested).len() > 0,
        s.groups.contains_key(trimmed(requested)),
        s.groups[trimmed(requested)].banned.contains(synced(s, sess).username->0),
    ensures
        ({
            let o = step(s, sess, MessageView::Join { group: requested, password: given }, listing);
            &&& o.server == s
            &&& o.session == synced(s, sess)
            &&& o.effects == seq![EffectView::Reply(notice("You are banned from this group."@))]
        }),
{
}

/// An invitation serves for one join: after a join request, the requester is
/// no longer invited to that group (given that nobody is both invited and banned).
pub proof fn law_invitation_used_once(
    s: ServerView,
    sess: SessionView,
    requested: Seq<char>,
    given: Option<Seq<char>>,
    listing: Seq<Seq<char>>,
)
    requires
        invites_exclude_bans(s),
        synced(s, sess).username is Some,
        trimmed(requested).len() > 0,
        s.groups.contains_key(trimmed(requested)),
    ensures
        !step(s, sess, MessageView::Join { group: requested, password: given }, listing)
            .server.groups[trimmed(requested)].invites.contains(synced(s, sess).username->0),
{
    let t = trimmed(requested);
    let n = synced(s, sess).username->0;
    assert(!(s.groups[t].invites.contains(n) && s.groups[t].banned.contains(n)));
}

/// A muted member's group messages reach nobody.
pub proof fn law_muted_are_not_heard(s: ServerView, sess: SessionView, text: Seq<char>, listing: Seq<Seq<char>>)
    requires
        synced(s, sess).username is Some,
        synced(s, sess).group is Some,
        s.groups.contains_key(synced(s, sess).group->0),
        s.groups[synced(s, sess).group->0].group_blocked.contains(synced(s, sess).username->0),
    ensures
        forall|i: int|
            0 <= i < step(s, sess, MessageView::GroupSay(text), listing).effects.len()
                ==> !(#[trigger] step(s, sess, MessageView::GroupSay(text), listing).effects[i] is Broadcast),
{
}

/// A direct message is delivered only to the addressee, only when the
/// addressee is visible and has not blocked the sender, and the sender has not
/// blocked the addressee.
pub proof fn law_direct_messages_respect_blocks(
    s: ServerView,
    sess: SessionView,
    to: Seq<char>,
    text: Seq<char>,
    listing: Seq<Seq<char>>,
)
    ensures
        forall|i: int|
            0 <= i < step(s, sess, MessageView::Send(to, text), listing).effects.len()
                && #[trigger] step(s, sess, MessageView::Send(to, text), listing).effects[i] is Deliver
                ==> ({
                    let e = step(s, sess, MessageView::Send(to, text), listing).effects[i];
                    let me = synced(s, sess).username->0;
                    &&& synced(s, sess).username is Some
                    &&& e->Deliver_to == to
                    &&& s.clients.contains_key(to)
                    &&& !s.clients[to].is_anon
                    &&& !s.clients[to].blocked_users.contains(me)
                    &&& !(s.clients.contains_key(me) && s.clients[me].blocked_users.contains(to))
                }),
{
}

/// The owner of a group stays in it unless the owner's own connection asks
/// otherwise: nobody else can kick or ban the owner.
pub proof fn law_owner_stays(s: ServerView, sess: SessionView, m: MessageView, listing: Seq<Seq<char>>, g: Seq<char>)
    requires
        s.groups.contains_key(g),
        in_group(s, s.groups[g].owner, g),
        synced(s, sess).username != Some(s.groups[g].owner),
    ensures
        in_group(step(s, sess, m, listing).server, s.groups[g].owner, g),
{
}

/// Turning anonymity on and off again leaves the registry as it was.
pub proof fn law_anonymity_toggle_twice(s: ServerView, sess: SessionView, l1: Seq<Seq<char>>, l2: Seq<Seq<char>>)
    requires
        synced(s, sess).username is Some,
        s.clients.contains_key(synced(s, sess).username->0),
    ensures
        ({
            let o1 = step(s, sess, MessageView::AnonToggle, l1);
            step(o1.server, o1.session, MessageView::AnonToggle, l2).server == s
        }),
{
    let me = synced(s, sess).username->0;
    let o1 = step(s, sess, MessageView::AnonToggle, l1);
    let o2 = step(o1.server, o1.session, MessageView::AnonToggle, l2);
    assert(o2.server.clients =~= s.clients);
}

/// Blocking a user and unblocking them again leaves the registry as it was.
pub proof fn law_block_then_unblock(
    s: ServerView,
    sess: SessionView,
    target: Seq<char>,
    l1: Seq<Seq<char>>,
    l2: Seq<Seq<char>>,
)
    requires
        synced(s, sess).username is Some,
        s.clients.contains_key(synced(s, sess).username->0),
        !s.clients[synced(s, sess).username->0].blocked_users.contains(trimmed(target)),
    ensures
        ({
            let o1 = step(s, sess, MessageView::Block(target), l1);
            step(o1.server, o1.session, MessageView::Unblock(target), l2).server == s
        }),
{
    let me = synced(s, sess).username->0;
    let t = trimmed(target);
    let o1 = step(s, sess, MessageView::Block(target), l1);
    let o2 = step(o1.server, o1.session, MessageView::Unblock(target), l2);
    if t.len() > 0 && t != me {
        assert(s.clients[me].blocked_users.insert(t).remove(t) =~= s.clients[me].blocked_users);
        assert(o2.server.clients =~= s.clients);
    } else if t.len() > 0 {
        assert(s.clients[me].blocked_users.remove(t) =~= s.clients[me].blocked_users);
        assert(o2.server.clients =~= s.clients);
    }
}

/// When a connection ends its name is free again: a new connection that asks
/// for it gets it.
pub proof fn law_disconnect_frees_name(s: ServerView, sess: SessionView, listing: Seq<Seq<char>>)
    requires
        sess.username is Some,
    ensures
        ({
            let n = sess.username->0;
            let fresh = SessionView { username: None, group: None };
            &&& !disconnected(s, sess).clients.contains_key(n)
            &&& step(disconnected(s, sess), fresh, MessageView::Username(n), listing).session.username == Some(n)
        }),
{
}


/// The owner or an admin of a group who is not banned from it joins it on
/// request, whatever password is given (or none).
pub proof fn law_admins_join_without_password(
    s: ServerView,
    sess: SessionView,
    requested: Seq<char>,
    given: Option<Seq<char>>,
    listing: Seq<Seq<char>>,
)
    requires
        synced(s, sess).username is Some,
        s.clients.contains_key(synced(s, sess).username->0),
        trimmed(requested).len() > 0,
        s.groups.contains_key(trimmed(requested)),
        s.groups[trimmed(requested)].owner == synced(s, sess).username->0
            || s.groups[trimmed(requested)].admins.contains(synced(s, sess).username->0),
        !s.groups[trimmed(requested)].banned.contains(synced(s, sess).username->0),
    ensures
        ({
            let o = step(s, sess, MessageView::Join { group: requested, password: given }, listing);
            let u = synced(s, sess).username->0;
            &&& o.session.group == Some(trimmed(requested))
            &&& o.server.clients.contains_key(u)
            &&& o.server.clients[u].group == Some(trimmed(requested))
        }),
{
}

/// The owner or an admin of the current group who kicks another member of it,
/// not its owner, takes that member out of every group.
pub proof fn law_admins_kick_members(s: ServerView, sess: SessionView, target: Seq<char>, listing: Seq<Seq<char>>)
    requires
        synced(s, sess).username is Some,
        synced(s, sess).group is Some,
        s.groups.contains_key(synced(s, sess).group->0),
        s.groups[synced(s, sess).group->0].owner == synced(s, sess).username->0
            || s.groups[synced(s, sess).group->0].admins.contains(synced(s, sess).username->0),
        trimmed(target).len() > 0,
        trimmed(target) != synced(s, sess).username->0,
        trimmed(target) != s.groups[synced(s, sess).group->0].owner,
        s.clients.contains_key(trimmed(target)),
        s.clients[trimmed(target)].group == synced(s, sess).group,
    ensures
        ({
            let post = step(s, sess, MessageView::Kick(target), listing).server;
            &&& post.clients.contains_key(trimmed(target))
            &&& post.clients[trimmed(target)].group is None
            &&& !post.groups[synced(s, sess).group->0].admins.contains(trimmed(target))
        }),
{
}

/// A ban by the owner or an admin of the current group, of anyone but its
/// owner, bans the user and leaves them neither an admin nor invited, nor in
/// the group.
pub proof fn law_ban_strips_rights(s: ServerView, sess: SessionView, target: Seq<char>, listing: Seq<Seq<char>>)
    requires
        synced(s, sess).username is Some,
        synced(s, sess).group is Some,
        s.groups.contains_key(synced(s, sess).group->0),
        s.groups[synced(s, sess).group->0].owner == synced(s, sess).username->0
            || s.groups[synced(s, sess).group->0].admins.contains(synced(s, sess).username->0),
        trimmed(target).len() > 0,
        trimmed(target) != s.groups[synced(s, sess).group->0].owner,
    ensures
        ({
            let post = step(s, sess, MessageView::Ban(target), listing).server;
            let g = synced(s, sess).group->0;
            let t = trimmed(target);
            &&& post.groups.contains_key(g)
            &&& post.groups[g].banned.contains(t)
            &&& !post.groups[g].admins.contains(t)
            &&& !post.groups[g].invites.contains(t)
            &&& !(post.clients.contains_key(t) && post.clients[t].group == Some(g))
        }),
{
}

/// In a listing of the current group, each listed member is followed by its
/// role: "owner" for the owner, "admin" for an admin, "member" for anyone else.
pub proof fn law_group_listing_roles(s: ServerView, sess: SessionView, listing: Seq<Seq<char>>)
    requires
        synced(s, sess).username is Some,
        synced(s, sess).group is Some,
        s.groups.contains_key(synced(s, sess).group->0),
        listing.len() > 0,
    ensures
        exists|entries: Seq<Seq<char>>| #![trigger join(entries, ", "@)] {
            let g = synced(s, sess).group->0;
            let info = s.groups[g];
            &&& entries.len() == listing.len()
            &&& step(s, sess, MessageView::GroupWho, listing).effects == seq![
                EffectView::Reply(MessageView::Say("[Server@you]: "@ + ("Members of '"@ + g + "': "@ + join(entries, ", "@)))),
            ]
            &&& forall|i: int| 0 <= i < listing.len() ==> {
                &&& listing[i] == info.owner ==> #[trigger] entries[i] == listing[i] + " owner"@
                &&& (listing[i] != info.owner && info.admins.contains(listing[i])) ==> entries[i] == listing[i] + " admin"@
                &&& (listing[i] != info.owner && !info.admins.contains(listing[i])) ==> entries[i] == listing[i] + " member"@
            }
        },
{
    let g = synced(s, sess).group->0;
    let entries = member_entries(s.groups[g], listing);
    assert(entries.len() == listing.len());
    assert forall|i: int| 0 <= i < listing.len() implies entries[i] == listing[i] + " "@ + crate::model::role_of(s.groups[g], listing[i]) by {}
    assert(" "@ + "owner"@ =~= " owner"@) by { reveal_strlit(" "); reveal_strlit("owner"); reveal_strlit(" owner"); }
    assert(" "@ + "admin"@ =~= " admin"@) by { reveal_strlit(" "); reveal_strlit("admin"); reveal_strlit(" admin"); }
    assert(" "@ + "member"@ =~= " member"@) by { reveal_strlit(" "); reveal_strlit("member"); reveal_strlit(" member"); }
    assert forall|i: int| 0 <= i < listing.len() implies {
        &&& listing[i] == s.groups[g].owner ==> #[trigger] entries[i] == listing[i] + " owner"@
        &&& (listing[i] != s.groups[g].owner && s.groups[g].admins.contains(listing[i])) ==> entries[i] == listing[i] + " admin"@
        &&& (listing[i] != s.groups[g].owner && !s.groups[g].admins.contains(listing[i])) ==> entries[i] == listing[i] + " member"@
    } by {
        assert(listing[i] + " "@ + "owner"@ =~= listing[i] + (" "@ + "owner"@));
        assert(listing[i] + " "@ + "admin"@ =~= listing[i] + (" "@ + "admin"@));
        assert(listing[i] + " "@ + "member"@ =~= listing[i] + (" "@ + "member"@));
    }
    assert(step(s, sess, MessageView::GroupWho, listing).effects == seq![
        EffectView::Reply(MessageView::Say("[Server@you]: "@ + ("Members of '"@ + g + "': "@ + join(entries, ", "@)))),
    ]);
}

/// Any client in an existing group may invite a user to it: the user is then
/// invited and no longer banned, admin or not.
pub proof fn law_members_invite(s: ServerView, sess: SessionView, target: Seq<char>, listing: Seq<Seq<char>>)
    requires
        synced(s, sess).username is Some,
        synced(s, sess).group is Some,
        s.groups.contains_key(synced(s, sess).group->0),
        trimmed(target).len() > 0,
    ensures
        ({
            let post = step(s, sess, MessageView::Invite(target), listing).server;
            let g = synced(s, sess).group->0;
            &&& post.groups[g].invites.contains(trimmed(target))
            &&& !post.groups[g].banned.contains(trimmed(target))
        }),
{
}

} // verus!
