use groupchat::handle::greeting;
use groupchat::model::{Effect, Session};
use groupchat::protocol::{Message, PromptMode};
use groupchat::replies::help_display;
use groupchat::state::Server;

const HELP: &str = "Commands: /create group <name>, /join <group> [password], /invite <username>, /promote <username>, /demote <username>, /group block <username>, /group unblock <username>, /kick <username>, /ban <username>, /unban <username>, /group pw <password>, /group who, /group <message>, /block <username>, /unblock <username>, /who, /anon, /send <username> <message>, /help, /quit.";

fn mode_name(m: &PromptMode) -> String {
    match m {
        PromptMode::Plain => "plain".to_string(),
        PromptMode::Group(g) => format!("group {}", g),
        PromptMode::Direct(u) => format!("direct {}", u),
        PromptMode::PendingUsername => "pending".to_string(),
    }
}

fn show_message(m: &Message) -> String {
    match m {
        Message::Say(t) => t.clone(),
        Message::Prompt { text, mode } => format!("prompt({}) {}", mode_name(mode), text),
        other => panic!("unexpected message {:?}", other),
    }
}

fn show(effects: &[Effect]) -> Vec<String> {
    effects
        .iter()
        .map(|e| match e {
            Effect::Reply(m) => format!("reply {}", show_message(m)),
            Effect::Deliver { to, message } => format!("to {}: {}", to, show_message(message)),
            Effect::Broadcast { group, sender, message } => {
                format!("group {} from {}: {}", group, sender, show_message(message))
            }
            Effect::Close => "close".to_string(),
        })
        .collect()
}

fn s(x: &str) -> String {
    x.to_string()
}

fn connect(server: &mut Server, name: &str) -> Session {
    let mut session = Session::new();
    server.handle(&mut session, Message::Username(s(name)));
    assert_eq!(session.username.as_deref(), Some(name));
    session
}

fn ask(server: &mut Server, session: &mut Session, m: Message) -> Vec<String> {
    show(&server.handle(session, m))
}

fn group_of(server: &Server, name: &str) -> Option<String> {
    server.clients.get(name).and_then(|c| c.group.clone())
}

/// alice owns "rust", bob is a member, carol is online in no group.
fn setup() -> (Server, Session, Session, Session) {
    let mut server = Server::new();
    let mut alice = connect(&mut server, "alice");
    let mut bob = connect(&mut server, "bob");
    let carol = connect(&mut server, "carol");
    ask(&mut server, &mut alice, Message::CreateGroup(s("rust")));
    ask(&mut server, &mut bob, Message::Join { group: s("rust"), password: None });
    (server, alice, bob, carol)
}

#[test]
fn greeting_asks_for_a_name() {
    assert_eq!(
        show(&greeting()),
        vec![s("reply [Server@you]: Enter a username to join the chat."), s("reply prompt(pending) > ")]
    );
}

#[test]
fn username_is_accepted() {
    let mut server = Server::new();
    let mut session = Session::new();
    let out = ask(&mut server, &mut session, Message::Username(s("alice")));
    assert_eq!(
        out,
        vec![
            s("reply [Server@you]: Username accepted. Welcome!"),
            format!("reply [Server@you]: {}", HELP),
            s("reply prompt(plain) [alice]: "),
        ]
    );
    assert!(server.clients.contains("alice"));
    assert_eq!(session.group, None);
}

#[test]
fn username_taken_or_already_set() {
    let mut server = Server::new();
    let mut alice = connect(&mut server, "alice");
    let mut other = Session::new();
    assert_eq!(
        ask(&mut server, &mut other, Message::Username(s("alice"))),
        vec![s("reply [Server@you]: Username already taken"), s("reply prompt(pending) > ")]
    );
    assert_eq!(other.username, None);
    assert_eq!(
        ask(&mut server, &mut alice, Message::Username(s("alice"))),
        vec![s("reply [Server@you]: Username already set.")]
    );
    assert_eq!(
        ask(&mut server, &mut alice, Message::Username(s("zed"))),
        vec![s("reply [Server@you]: Username already set. Please reconnect to change it.")]
    );
    assert!(!server.clients.contains("zed"));
}

#[test]
fn requests_before_a_name_are_refused() {
    let mut server = Server::new();
    let mut session = Session::new();
    let cases = vec![
        (Message::CreateGroup(s("g")), "Enter a username before creating a group."),
        (Message::Join { group: s("g"), password: None }, "Enter a username before joining a group."),
        (Message::Invite(s("x")), "Enter a username before inviting others."),
        (Message::Promote(s("x")), "Enter a username before promoting users."),
        (Message::Demote(s("x")), "Enter a username before demoting users."),
        (Message::Kick(s("x")), "Enter a username before kicking users."),
        (Message::Ban(s("x")), "Enter a username before banning users."),
        (Message::Unban(s("x")), "Enter a username before unbanning users."),
        (Message::Block(s("x")), "Enter a username before blocking users."),
        (Message::Unblock(s("x")), "Enter a username before unblocking users."),
        (Message::GroupBlock(s("x")), "Enter a username before blocking group members."),
        (Message::GroupUnblock(s("x")), "Enter a username before unblocking group members."),
        (Message::GroupPassword(None), "Enter a username before setting a password."),
        (Message::GroupSay(s("hi")), "Enter a username before chatting."),
        (Message::GroupWho, "Enter a username before using /group who."),
        (Message::AnonToggle, "Enter a username before toggling anonymity."),
        (Message::Say(s("hi")), "Enter a username before chatting."),
        (Message::Send(s("x"), s("hi")), "Enter a username before sending direct messages."),
    ];
    for (m, text) in cases {
        assert_eq!(ask(&mut server, &mut session, m), vec![format!("reply [Server@you]: {}", text)]);
    }
    assert!(server.clients.get("x").is_none());
    assert!(server.groups.get("g").is_none());
}

#[test]
fn create_group_trims_and_moves_the_creator() {
    let mut server = Server::new();
    let mut alice = connect(&mut server, "alice");
    assert_eq!(
        ask(&mut server, &mut alice, Message::CreateGroup(s("   "))),
        vec![s("reply [Server@you]: Group name cannot be empty.")]
    );
    assert_eq!(
        ask(&mut server, &mut alice, Message::CreateGroup(s("  rust \t"))),
        vec![
            s("reply [Server@you]: Group 'rust' created. You are the admin."),
            s("reply prompt(group rust) [alice@rust]: "),
        ]
    );
    assert_eq!(alice.group.as_deref(), Some("rust"));
    assert_eq!(group_of(&server, "alice").as_deref(), Some("rust"));
    assert_eq!(server.groups.get("rust").unwrap().owner, "alice");
    assert_eq!(
        ask(&mut server, &mut alice, Message::CreateGroup(s("rust"))),
        vec![s("reply [Server@you]: A group with that name already exists.")]
    );
}

#[test]
fn join_paths() {
    let (mut server, mut alice, mut bob, mut carol) = setup();
    assert_eq!(group_of(&server, "bob").as_deref(), Some("rust"));
    assert_eq!(
        ask(&mut server, &mut carol, Message::Join { group: s(" "), password: None }),
        vec![s("reply [Server@you]: Group name cannot be empty.")]
    );
    assert_eq!(
        ask(&mut server, &mut carol, Message::Join { group: s("go"), password: None }),
        vec![s("reply [Server@you]: Group does not exist. Create it with /create group <name>.")]
    );
    ask(&mut server, &mut alice, Message::GroupPassword(Some(s("pw"))));
    assert_eq!(
        ask(&mut server, &mut carol, Message::Join { group: s("rust"), password: Some(s("nope")) }),
        vec![s("reply [Server@you]: Incorrect password.")]
    );
    assert_eq!(
        ask(&mut server, &mut carol, Message::Join { group: s(" rust "), password: Some(s("pw")) }),
        vec![
            s("reply [Server@you]: Joined group 'rust'."),
            s("reply prompt(group rust) [carol@rust]: "),
            s("group rust from carol: [Server@you]: carol joined 'rust'."),
        ]
    );
    assert_eq!(carol.group.as_deref(), Some("rust"));
    let _ = &mut bob;
}

#[test]
fn invitation_opens_a_locked_group_once() {
    let (mut server, mut alice, _bob, mut carol) = setup();
    ask(&mut server, &mut alice, Message::GroupPassword(Some(s("pw"))));
    assert_eq!(
        ask(&mut server, &mut alice, Message::Invite(s(" carol "))),
        vec![
            s("reply [Server@you]: Invited 'carol' to join 'rust'."),
            s("to carol: [Server@you]: alice invited you to join 'rust'. Use /join rust to accept."),
        ]
    );
    assert!(server.groups.get("rust").unwrap().invites.contains("carol"));
    let out = ask(&mut server, &mut carol, Message::Join { group: s("rust"), password: None });
    assert_eq!(out[0], "reply [Server@you]: Joined group 'rust'.");
    assert!(!server.groups.get("rust").unwrap().invites.contains("carol"));
    ask(&mut server, &mut carol, Message::CreateGroup(s("other")));
    assert_eq!(
        ask(&mut server, &mut carol, Message::Join { group: s("rust"), password: None }),
        vec![s("reply [Server@you]: Incorrect password.")]
    );
}

#[test]
fn invite_of_offline_user_and_outside_group() {
    let (mut server, mut alice, _bob, mut carol) = setup();
    assert_eq!(
        ask(&mut server, &mut alice, Message::Invite(s("dave"))),
        vec![s("reply [Server@you]: Invited 'dave' to join 'rust'.")]
    );
    assert_eq!(
        ask(&mut server, &mut alice, Message::Invite(s("  "))),
        vec![s("reply [Server@you]: Provide a username to invite.")]
    );
    assert_eq!(
        ask(&mut server, &mut carol, Message::Invite(s("dave"))),
        vec![s("reply [Server@you]: Join a group before inviting others.")]
    );
}

#[test]
fn promote_and_demote() {
    let (mut server, mut alice, mut bob, mut carol) = setup();
    assert_eq!(
        ask(&mut server, &mut alice, Message::Promote(s("carol"))),
        vec![s("reply [Server@you]: User must be in the group to be promoted.")]
    );
    assert_eq!(
        ask(&mut server, &mut bob, Message::Promote(s("alice"))),
        vec![s("reply [Server@you]: Only the group owner can promote members.")]
    );
    assert_eq!(
        ask(&mut server, &mut alice, Message::Promote(s("alice"))),
        vec![s("reply [Server@you]: Owner has full privileges already.")]
    );
    assert_eq!(
        ask(&mut server, &mut alice, Message::Promote(s("bob"))),
        vec![
            s("reply [Server@you]: 'bob' has been promoted to admin."),
            s("to bob: [Server@you]: You have been promoted to admin of 'rust'."),
        ]
    );
    assert_eq!(
        ask(&mut server, &mut alice, Message::Promote(s("bob"))),
        vec![s("reply [Server@you]: User is already an admin.")]
    );
    assert_eq!(
        ask(&mut server, &mut bob, Message::Demote(s("bob"))),
        vec![s("reply [Server@you]: Only the group owner can demote admins.")]
    );
    assert_eq!(
        ask(&mut server, &mut alice, Message::Demote(s("alice"))),
        vec![s("reply [Server@you]: Owner cannot be demoted.")]
    );
    assert_eq!(
        ask(&mut server, &mut alice, Message::Demote(s("bob"))),
        vec![
            s("reply [Server@you]: 'bob' has been demoted."),
            s("to bob: [Server@you]: You have been demoted from admin in 'rust'."),
        ]
    );
    assert_eq!(
        ask(&mut server, &mut alice, Message::Demote(s("bob"))),
        vec![s("reply [Server@you]: User is not an admin.")]
    );
    assert_eq!(
        ask(&mut server, &mut carol, Message::Promote(s("bob"))),
        vec![s("reply [Server@you]: You must be in a group to promote members.")]
    );
    assert_eq!(
        ask(&mut server, &mut carol, Message::Demote(s("bob"))),
        vec![s("reply [Server@you]: You must be in a group to demote members.")]
    );
}

#[test]
fn kick_paths() {
    let (mut server, mut alice, mut bob, mut carol) = setup();
    assert_eq!(
        ask(&mut server, &mut alice, Message::Kick(s("alice"))),
        vec![s("reply [Server@you]: You cannot kick yourself.")]
    );
    assert_eq!(
        ask(&mut server, &mut bob, Message::Kick(s("alice"))),
        vec![s("reply [Server@you]: Only a group admin can kick members.")]
    );
    assert_eq!(
        ask(&mut server, &mut alice, Message::Kick(s("carol"))),
        vec![s("reply [Server@you]: User is not in this group.")]
    );
    assert_eq!(
        ask(&mut server, &mut alice, Message::Kick(s("dave"))),
        vec![s("reply [Server@you]: User not found.")]
    );
    ask(&mut server, &mut alice, Message::Promote(s("bob")));
    assert_eq!(
        ask(&mut server, &mut bob, Message::Kick(s("alice"))),
        vec![s("reply [Server@you]: Owner cannot be kicked.")]
    );
    assert_eq!(
        ask(&mut server, &mut alice, Message::Kick(s(" bob "))),
        vec![
            s("reply [Server@you]: 'bob' has been kicked from 'rust'."),
            s("to bob: [Server@you]: You have been removed from 'rust'."),
            s("to bob: prompt(plain) [bob]: "),
            s("group rust from alice: [Server@you]: bob was removed from 'rust'."),
        ]
    );
    assert_eq!(group_of(&server, "bob"), None);
    assert!(!server.groups.get("rust").unwrap().admins.contains("bob"));
    assert_eq!(
        ask(&mut server, &mut carol, Message::Kick(s("bob"))),
        vec![s("reply [Server@you]: You must be in a group to kick members.")]
    );
    assert_eq!(
        ask(&mut server, &mut alice, Message::Kick(s(""))),
        vec![s("reply [Server@you]: Provide a username to kick.")]
    );
}

#[test]
fn ban_and_unban() {
    let (mut server, mut alice, mut bob, mut carol) = setup();
    assert_eq!(
        ask(&mut server, &mut bob, Message::Ban(s("carol"))),
        vec![s("reply [Server@you]: Only a group admin can ban members.")]
    );
    assert_eq!(
        ask(&mut server, &mut alice, Message::Ban(s("alice"))),
        vec![s("reply [Server@you]: Owner cannot be banned.")]
    );
    assert_eq!(
        ask(&mut server, &mut alice, Message::Ban(s("bob"))),
        vec![
            s("reply [Server@you]: 'bob' has been banned from 'rust'."),
            s("to bob: [Server@you]: You have been banned from 'rust'."),
            s("to bob: prompt(plain) [bob]: "),
            s("group rust from alice: [Server@you]: bob was banned from 'rust'."),
        ]
    );
    assert_eq!(group_of(&server, "bob"), None);
    assert_eq!(
        ask(&mut server, &mut bob, Message::Join { group: s("rust"), password: None }),
        vec![s("reply [Server@you]: You are banned from this group.")]
    );
    assert_eq!(
        ask(&mut server, &mut alice, Message::Ban(s("carol"))),
        vec![
            s("reply [Server@you]: 'carol' has been banned from 'rust'."),
            s("group rust from alice: [Server@you]: carol was banned from 'rust'."),
        ]
    );
    assert_eq!(
        ask(&mut server, &mut alice, Message::Unban(s("bob"))),
        vec![
            s("reply [Server@you]: User unbanned."),
            s("to bob: [Server@you]: You have been unbanned from 'rust'."),
            s("to bob: prompt(plain) [bob]: "),
            s("group rust from alice: [Server@you]: bob was unbanned in 'rust'."),
        ]
    );
    assert!(!server.groups.get("rust").unwrap().banned.contains("bob"));
    assert_eq!(
        ask(&mut server, &mut alice, Message::Unban(s("ghost"))),
        vec![
            s("reply [Server@you]: User unbanned."),
            s("group rust from alice: [Server@you]: ghost was unbanned in 'rust'."),
        ]
    );
    assert_eq!(
        ask(&mut server, &mut carol, Message::Unban(s("bob"))),
        vec![s("reply [Server@you]: You must be in a group to unban members.")]
    );
    assert_eq!(
        ask(&mut server, &mut bob, Message::Ban(s("x"))),
        vec![s("reply [Server@you]: You must be in a group to ban members.")]
    );
}

#[test]
fn unban_needs_an_admin() {
    let (mut server, _alice, mut bob, _carol) = setup();
    assert_eq!(
        ask(&mut server, &mut bob, Message::Unban(s("x"))),
        vec![s("reply [Server@you]: Only a group admin can unban members.")]
    );
}

#[test]
fn personal_blocks() {
    let (mut server, mut alice, _bob, _carol) = setup();
    assert_eq!(
        ask(&mut server, &mut alice, Message::Block(s("alice"))),
        vec![s("reply [Server@you]: You cannot block yourself.")]
    );
    assert_eq!(
        ask(&mut server, &mut alice, Message::Block(s(" "))),
        vec![s("reply [Server@you]: Provide a username to block.")]
    );
    assert_eq!(
        ask(&mut server, &mut alice, Message::Block(s("bob"))),
        vec![s("reply [Server@you]: You blocked 'bob'."), s("to bob: [Server@you]: alice has blocked you.")]
    );
    assert_eq!(
        ask(&mut server, &mut alice, Message::Block(s("bob"))),
        vec![s("reply [Server@you]: User already blocked.")]
    );
    assert_eq!(
        ask(&mut server, &mut alice, Message::Block(s("nobody"))),
        vec![s("reply [Server@you]: You blocked 'nobody'.")]
    );
    assert_eq!(
        ask(&mut server, &mut alice, Message::Unblock(s("bob"))),
        vec![s("reply [Server@you]: You unblocked 'bob'."), s("to bob: [Server@you]: alice has unblocked you.")]
    );
    assert_eq!(
        ask(&mut server, &mut alice, Message::Unblock(s("bob"))),
        vec![s("reply [Server@you]: User was not blocked.")]
    );
    assert_eq!(
        ask(&mut server, &mut alice, Message::Unblock(s(""))),
        vec![s("reply [Server@you]: Provide a username to unblock.")]
    );
}

#[test]
fn group_mute_and_unmute() {
    let (mut server, mut alice, mut bob, mut carol) = setup();
    assert_eq!(
        ask(&mut server, &mut bob, Message::GroupBlock(s("alice"))),
        vec![s("reply [Server@you]: Only a group admin can block members from chatting.")]
    );
    assert_eq!(
        ask(&mut server, &mut alice, Message::GroupBlock(s("alice"))),
        vec![s("reply [Server@you]: Owner cannot be blocked.")]
    );
    assert_eq!(
        ask(&mut server, &mut alice, Message::GroupBlock(s("carol"))),
        vec![s("reply [Server@you]: User must be in the group to be blocked.")]
    );
    assert!(!server.groups.get("rust").unwrap().group_blocked.contains("carol"));
    assert_eq!(
        ask(&mut server, &mut alice, Message::GroupBlock(s("bob"))),
        vec![
            s("reply [Server@you]: 'bob' has been blocked from speaking in 'rust'."),
            s("to bob: [Server@you]: You have been blocked from speaking in 'rust'."),
            s("group rust from alice: [Server@you]: bob was muted in 'rust'."),
        ]
    );
    assert_eq!(
        ask(&mut server, &mut alice, Message::GroupBlock(s("bob"))),
        vec![s("reply [Server@you]: User is already blocked in this group.")]
    );
    assert_eq!(
        ask(&mut server, &mut bob, Message::GroupSay(s("hello"))),
        vec![s("reply [Server@you]: You are blocked from speaking in this group.")]
    );
    assert_eq!(
        ask(&mut server, &mut alice, Message::GroupUnblock(s("bob"))),
        vec![
            s("reply [Server@you]: 'bob' has been unblocked in 'rust'."),
            s("to bob: [Server@you]: You can speak again in 'rust'."),
            s("group rust from alice: [Server@you]: bob was unmuted in 'rust'."),
        ]
    );
    assert_eq!(
        ask(&mut server, &mut alice, Message::GroupUnblock(s("bob"))),
        vec![s("reply [Server@you]: User is not blocked in this group.")]
    );
    assert_eq!(
        ask(&mut server, &mut bob, Message::GroupUnblock(s("bob"))),
        vec![s("reply [Server@you]: Only a group admin can unblock members.")]
    );
    assert_eq!(
        ask(&mut server, &mut carol, Message::GroupBlock(s("bob"))),
        vec![s("reply [Server@you]: Join a group before blocking its members.")]
    );
    assert_eq!(
        ask(&mut server, &mut carol, Message::GroupUnblock(s("bob"))),
        vec![s("reply [Server@you]: Join a group before unblocking its members.")]
    );
}

#[test]
fn group_password_set_and_cleared() {
    let (mut server, mut alice, mut bob, mut carol) = setup();
    assert_eq!(
        ask(&mut server, &mut bob, Message::GroupPassword(Some(s("x")))),
        vec![s("reply [Server@you]: Only a group admin can set a password.")]
    );
    assert_eq!(
        ask(&mut server, &mut alice, Message::GroupPassword(Some(s("x")))),
        vec![s("reply [Server@you]: Password updated for 'rust'.")]
    );
    assert_eq!(server.groups.get("rust").unwrap().password.as_deref(), Some("x"));
    assert_eq!(
        ask(&mut server, &mut alice, Message::GroupPassword(None)),
        vec![s("reply [Server@you]: Password cleared for 'rust'.")]
    );
    assert_eq!(server.groups.get("rust").unwrap().password, None);
    assert_eq!(
        ask(&mut server, &mut carol, Message::GroupPassword(None)),
        vec![s("reply [Server@you]: Join a group before setting a password.")]
    );
}

#[test]
fn group_chat() {
    let (mut server, mut alice, _bob, mut carol) = setup();
    assert_eq!(
        ask(&mut server, &mut alice, Message::GroupSay(s("  hi all  "))),
        vec![
            s("reply [alice@rust]: hi all"),
            s("group rust from alice: [alice@rust]: hi all"),
        ]
    );
    assert!(ask(&mut server, &mut alice, Message::GroupSay(s("   "))).is_empty());
    assert_eq!(
        ask(&mut server, &mut alice, Message::Say(s(" raw "))),
        vec![s("group rust from alice: [alice@rust]:  raw ")]
    );
    assert_eq!(
        ask(&mut server, &mut carol, Message::GroupSay(s("hi"))),
        vec![s("reply [Server@you]: Join a group before chatting.")]
    );
    assert_eq!(
        ask(&mut server, &mut carol, Message::Say(s("hi"))),
        vec![s("reply [Server@you]: Join a group with /join <group> to chat, or use /send <username> <message> for direct messages.")]
    );
}

#[test]
fn listings() {
    let (mut server, mut alice, mut bob, mut carol) = setup();
    ask(&mut server, &mut alice, Message::Promote(s("bob")));
    assert_eq!(
        ask(&mut server, &mut alice, Message::GroupWho),
        vec![s("reply [Server@you]: Members of 'rust': alice owner, bob admin")]
    );
    assert_eq!(
        ask(&mut server, &mut carol, Message::Who),
        vec![s("reply [Server@you]: Online users: alice, bob, carol")]
    );
    assert_eq!(
        ask(&mut server, &mut bob, Message::AnonToggle),
        vec![s("reply [Server@you]: You are now anonymous. Others cannot see or message you.")]
    );
    assert_eq!(
        ask(&mut server, &mut bob, Message::Who),
        vec![
            s("reply [Server@you]: Online users: alice, carol"),
            s("reply [Server@you]: You are currently anonymous; others cannot see or message you."),
        ]
    );
    assert_eq!(
        ask(&mut server, &mut alice, Message::GroupWho),
        vec![s("reply [Server@you]: Members of 'rust': alice owner")]
    );
    assert_eq!(
        ask(&mut server, &mut carol, Message::GroupWho),
        vec![s("reply [Server@you]: Join a group before using /group who.")]
    );
    assert_eq!(
        ask(&mut server, &mut bob, Message::AnonToggle),
        vec![s("reply [Server@you]: You are visible again.")]
    );
}

#[test]
fn empty_listings() {
    let mut server = Server::new();
    let mut nobody = Session::new();
    assert_eq!(
        ask(&mut server, &mut nobody, Message::Who),
        vec![s("reply [Server@you]: No visible users online.")]
    );
    let mut alice = connect(&mut server, "alice");
    ask(&mut server, &mut alice, Message::CreateGroup(s("g")));
    ask(&mut server, &mut alice, Message::AnonToggle);
    assert_eq!(
        ask(&mut server, &mut alice, Message::GroupWho),
        vec![s("reply [Server@you]: No visible members in 'g'.")]
    );
}

#[test]
fn direct_messages() {
    let (mut server, mut alice, mut bob, mut carol) = setup();
    assert_eq!(
        ask(&mut server, &mut alice, Message::Send(s("carol"), s("psst"))),
        vec![s("to carol: \n[alice@you]: psst"), s("reply prompt(direct carol) [alice@carol]: ")]
    );
    assert_eq!(
        ask(&mut server, &mut alice, Message::Send(s("alice"), s("x"))),
        vec![s("reply [Server@you]: You cannot send direct messages to yourself.")]
    );
    assert_eq!(
        ask(&mut server, &mut alice, Message::Send(s("dave"), s("x"))),
        vec![s("reply [Server@you]: User 'dave' not found")]
    );
    ask(&mut server, &mut carol, Message::Block(s("alice")));
    assert_eq!(
        ask(&mut server, &mut alice, Message::Send(s("carol"), s("x"))),
        vec![s("reply [Server@you]: User has blocked you.")]
    );
    assert_eq!(
        ask(&mut server, &mut carol, Message::Send(s("alice"), s("x"))),
        vec![s("reply [Server@you]: You have blocked this user.")]
    );
    ask(&mut server, &mut bob, Message::AnonToggle);
    assert_eq!(
        ask(&mut server, &mut alice, Message::Send(s("bob"), s("x"))),
        vec![s("reply [Server@you]: User is not accepting direct messages.")]
    );
}

#[test]
fn quit_help_and_prompt() {
    let mut server = Server::new();
    let mut session = Session::new();
    assert_eq!(
        ask(&mut server, &mut session, Message::Quit),
        vec![s("reply [Server@you]: Disconnecting..."), s("close")]
    );
    assert_eq!(ask(&mut server, &mut session, Message::Help), vec![format!("reply [Server@you]: {}", HELP)]);
    assert!(ask(&mut server, &mut session, Message::Prompt { text: s("x"), mode: PromptMode::Plain }).is_empty());
    assert_eq!(help_display(), HELP);
}

#[test]
fn session_group_follows_the_registry() {
    let (mut server, mut alice, mut bob, _carol) = setup();
    ask(&mut server, &mut alice, Message::Kick(s("bob")));
    assert_eq!(bob.group.as_deref(), Some("rust"));
    assert_eq!(
        ask(&mut server, &mut bob, Message::GroupSay(s("still here?"))),
        vec![s("reply [Server@you]: Join a group before chatting.")]
    );
    assert_eq!(bob.group, None);
}

#[test]
fn broadcast_recipients() {
    let (mut server, _alice, _bob, mut carol) = setup();
    ask(&mut server, &mut carol, Message::Join { group: s("rust"), password: None });
    let mut to = server.members_except("alice", "rust");
    to.sort();
    assert_eq!(to, vec![s("bob"), s("carol")]);
    assert!(server.members_except("alice", "none").is_empty());
}

#[test]
fn disconnect_frees_the_name() {
    let (mut server, _alice, bob, _carol) = setup();
    server.disconnect(&bob);
    assert!(!server.clients.contains("bob"));
    assert!(server.members_except("alice", "rust").is_empty());
    let mut again = Session::new();
    let out = ask(&mut server, &mut again, Message::Username(s("bob")));
    assert_eq!(out[0], "reply [Server@you]: Username accepted. Welcome!");
}

#[test]
fn owner_stays_when_others_try() {
    let (mut server, mut alice, mut bob, _carol) = setup();
    ask(&mut server, &mut alice, Message::Promote(s("bob")));
    ask(&mut server, &mut bob, Message::Kick(s("alice")));
    ask(&mut server, &mut bob, Message::Ban(s("alice")));
    assert_eq!(group_of(&server, "alice").as_deref(), Some("rust"));
    assert_eq!(server.groups.get("rust").unwrap().owner, "alice");
}

#[test]
fn banning_withdraws_invitation_and_invite_lifts_ban() {
    let (mut server, mut alice, _bob, _carol) = setup();
    ask(&mut server, &mut alice, Message::Invite(s("dave")));
    ask(&mut server, &mut alice, Message::Ban(s("dave")));
    let g = server.groups.get("rust").unwrap();
    assert!(g.banned.contains("dave") && !g.invites.contains("dave"));
    ask(&mut server, &mut alice, Message::Invite(s("dave")));
    let g = server.groups.get("rust").unwrap();
    assert!(!g.banned.contains("dave") && g.invites.contains("dave"));
}

#[test]
fn anonymity_and_blocks_round_trip() {
    let (mut server, mut alice, _bob, _carol) = setup();
    ask(&mut server, &mut alice, Message::AnonToggle);
    ask(&mut server, &mut alice, Message::AnonToggle);
    assert!(!server.clients.get("alice").unwrap().is_anon);
    ask(&mut server, &mut alice, Message::Block(s("bob")));
    ask(&mut server, &mut alice, Message::Unblock(s("bob")));
    assert!(!server.clients.get("alice").unwrap().blocked_users.contains("bob"));
}

#[test]
fn group_disappears_under_a_session() {
    // A session whose group vanished from the registry is told so.
    let mut server = Server::new();
    let mut alice = connect(&mut server, "alice");
    alice.group = Some(s("gone"));
    server.set_client_group("alice", Some(s("gone")));
    for m in [
        Message::Invite(s("x")),
        Message::Promote(s("alice")),
        Message::GroupSay(s("x")),
        Message::GroupWho,
        Message::Say(s("x")),
        Message::GroupPassword(None),
    ] {
        assert_eq!(ask(&mut server, &mut alice, m), vec![s("reply [Server@you]: Current group no longer exists.")]);
    }
}
