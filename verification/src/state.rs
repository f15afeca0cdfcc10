//! The registry of the server: the named clients and the groups.

use vstd::prelude::*;
use crate::names::{NameSet, name_seq, str_eq};
use crate::protocol::opt_view;
use crate::registry::NameMap;

verus! {

/// What the server keeps of a named client.
pub struct ClientInfo {
    /// The group the client is in, if any.
    pub group: Option<String>,
    /// Whether the client hides from listings and direct messages.
    pub is_anon: bool,
    /// The users this client has blocked.
    pub blocked_users: NameSet,
}

/// A `ClientInfo` taken as mathematical values.
pub struct ClientView {
    pub group: Option<Seq<char>>,
    pub is_anon: bool,
    pub blocked_users: Set<Seq<char>>,
}

impl View for ClientInfo {
    type V = ClientView;

    open spec fn view(&self) -> ClientView {
        ClientView {
            group: opt_view(self.group),
            is_anon: self.is_anon,
            blocked_users: self.blocked_users@,
        }
    }
}

impl ClientInfo {
    /// A client that has just chosen its name: in no group, visible, blocking nobody.
    pub fn new() -> (c: ClientInfo)
        ensures
            c@ == fresh_client(),
    {
        ClientInfo { group: None, is_anon: false, blocked_users: NameSet::new() }
    }
}

/// The view of a client that has just chosen its name.
pub open spec fn fresh_client() -> ClientView {
    ClientView { group: None, is_anon: false, blocked_users: Set::empty() }
}

/// What the server keeps of a group.
pub struct GroupInfo {
    /// The creator of the group.
    pub owner: String,
    /// The members the owner has promoted.
    pub admins: NameSet,
    /// The password that lets anyone join, if one is set.
    pub password: Option<String>,
    /// The users who may not join.
    pub banned: NameSet,
    /// The users invited to join, each for one join.
    pub invites: NameSet,
    /// The members who may not speak in the group.
    pub group_blocked: NameSet,
}

/// A `GroupInfo` taken as mathematical values.
pub struct GroupView {
    pub owner: Seq<char>,
    pub admins: Set<Seq<char>>,
    pub password: Option<Seq<char>>,
    pub banned: Set<Seq<char>>,
    pub invites: Set<Seq<char>>,
    pub group_blocked: Set<Seq<char>>,
}

impl View for GroupInfo {
    type V = GroupView;

    open spec fn view(&self) -> GroupView {
        GroupView {
            owner: self.owner@,
            admins: self.admins@,
            password: opt_view(self.password),
            banned: self.banned@,
            invites: self.invites@,
            group_blocked: self.group_blocked@,
        }
    }
}

impl GroupInfo {
    /// A new group of `owner`: no admins, no password, nobody banned, invited or muted.
    pub fn new(owner: String) -> (g: GroupInfo)
        ensures
            g@ == fresh_group(owner@),
    {
        GroupInfo {
            owner,
            admins: NameSet::new(),
            password: None,
            banned: NameSet::new(),
            invites: NameSet::new(),
            group_blocked: NameSet::new(),
        }
    }
}

/// The view of a group that `owner` has just created.
pub open spec fn fresh_group(owner: Seq<char>) -> GroupView {
    GroupView {
        owner,
        admins: Set::empty(),
        password: None,
        banned: Set::empty(),
        invites: Set::empty(),
        group_blocked: Set::empty(),
    }
}

/// Whether `user` may administer the group: its owner or one of its admins.
pub open spec fn is_admin_of(info: GroupView, user: Seq<char>) -> bool {
    info.owner == user || info.admins.contains(user)
}

/// Whether `user` may administer the group described by `info`.
pub fn is_group_admin(info: &GroupInfo, user: &str) -> (b: bool)
    ensures
        b == is_admin_of(info@, user@),
{
    str_eq(info.owner.as_str(), user) || info.admins.contains(user)
}

/// The registry: named clients and groups, each under its name.
pub struct Server {
    pub clients: NameMap<ClientInfo>,
    pub groups: NameMap<GroupInfo>,
}

/// The registry taken as two maps.
pub struct ServerView {
    pub clients: Map<Seq<char>, ClientView>,
    pub groups: Map<Seq<char>, GroupView>,
}

impl View for Server {
    type V = ServerView;

    open spec fn view(&self) -> ServerView {
        ServerView { clients: self.clients@, groups: self.groups@ }
    }
}

/// Whether `name` is a client in `group`.
pub open spec fn in_group(s: ServerView, name: Seq<char>, group: Seq<char>) -> bool {
    s.clients.contains_key(name) && s.clients[name].group == Some(group)
}

/// The clients of `group` other than `sender`: those a message to the group reaches.
pub open spec fn recipients(s: ServerView, sender: Seq<char>, group: Seq<char>) -> Set<Seq<char>> {
    Set::new(|n: Seq<char>| in_group(s, n, group) && n != sender)
}

impl Server {
    pub open spec fn wf(&self) -> bool {
        self.clients.wf() && self.groups.wf()
    }

    /// An empty registry.
    pub fn new() -> (s: Server)
        ensures
            s.wf(),
            s@.clients == Map::<Seq<char>, ClientView>::empty(),
            s@.groups == Map::<Seq<char>, GroupView>::empty(),
    {
        Server { clients: NameMap::new(), groups: NameMap::new() }
    }

    /// Whether `name` is a client in `group`.
    pub fn client_in_group(&self, name: &str, group: &str) -> (b: bool)
        requires
            self.wf(),
        ensures
            b == in_group(self@, name@, group@),
    {
        match self.clients.get(name) {
            Some(info) => match &info.group {
                Some(g) => str_eq(g.as_str(), group),
                None => false,
            },
            None => false,
        }
    }

    /// The group of client `name`; none when there is no such client.
    pub fn group_of(&self, name: &str) -> (g: Option<String>)
        requires
            self.wf(),
        ensures
            opt_view(g) == (if self@.clients.contains_key(name@) {
                self@.clients[name@].group
            } else {
                None
            }),
    {
        match self.clients.get(name) {
            Some(info) => match &info.group {
                Some(g) => Some(g.clone()),
                None => None,
            },
            None => None,
        }
    }

    /// Sets the group of client `name`, if there is such a client.
    pub fn set_client_group(&mut self, name: &str, group: Option<String>)
        requires
            old(self).wf(),
        ensures
            final(self).wf(),
            final(self).groups == old(self).groups,
            final(self)@.groups == old(self)@.groups,
            final(self)@.clients == (if old(self)@.clients.contains_key(name@) {
                old(self)@.clients.insert(
                    name@,
                    ClientView { group: opt_view(group), ..old(self)@.clients[name@] },
                )
            } else {
                old(self)@.clients
            }),
    {
        match self.clients.find(name) {
            Some(i) => {
                let mut info = self.clients.replace_at(i, ClientInfo::new());
                info.group = group;
                self.clients.replace_at(i, info);
            },
            None => {},
        }
    }


    /// Takes out the group at position `i`, leaving an empty group there.
    pub(crate) fn take_group(&mut self, i: usize) -> (info: GroupInfo)
        requires
            old(self).wf(),
            i < old(self).groups.key_views().len(),
        ensures
            final(self).wf(),
            final(self).groups.key_views() == old(self).groups.key_views(),
            final(self).clients == old(self).clients,
            final(self)@.clients == old(self)@.clients,
            info@ == old(self)@.groups[old(self).groups.key_views()[i as int]],
            final(self)@.groups == old(self)@.groups.insert(old(self).groups.key_views()[i as int], fresh_group(Seq::empty())),
    {
        self.groups.replace_at(i, GroupInfo::new(String::new()))
    }

    /// Puts `info` as the group at position `i`.
    pub(crate) fn put_group(&mut self, i: usize, info: GroupInfo)
        requires
            old(self).wf(),
            i < old(self).groups.key_views().len(),
        ensures
            final(self).wf(),
            final(self).groups.key_views() == old(self).groups.key_views(),
            final(self).clients == old(self).clients,
            final(self)@.clients == old(self)@.clients,
            final(self)@.groups == old(self)@.groups.insert(old(self).groups.key_views()[i as int], info@),
    {
        self.groups.replace_at(i, info);
    }

    /// Takes out the client at position `i`, leaving a fresh client there.
    pub(crate) fn take_client(&mut self, i: usize) -> (info: ClientInfo)
        requires
            old(self).wf(),
            i < old(self).clients.key_views().len(),
        ensures
            final(self).wf(),
            final(self).clients.key_views() == old(self).clients.key_views(),
            final(self).groups == old(self).groups,
            final(self)@.groups == old(self)@.groups,
            info@ == old(self)@.clients[old(self).clients.key_views()[i as int]],
            final(self)@.clients == old(self)@.clients.insert(old(self).clients.key_views()[i as int], fresh_client()),
    {
        self.clients.replace_at(i, ClientInfo::new())
    }

    /// Puts `info` as the client at position `i`.
    pub(crate) fn put_client(&mut self, i: usize, info: ClientInfo)
        requires
            old(self).wf(),
            i < old(self).clients.key_views().len(),
        ensures
            final(self).wf(),
            final(self).clients.key_views() == old(self).clients.key_views(),
            final(self).groups == old(self).groups,
            final(self)@.groups == old(self)@.groups,
            final(self)@.clients == old(self)@.clients.insert(old(self).clients.key_views()[i as int], info@),
    {
        self.clients.replace_at(i, info);
    }

    /// The names of the clients that a message to `group` from `sender` reaches,
    /// each once, in the order of the registry.
    pub fn members_except(&self, sender: &str, group: &str) -> (r: Vec<String>)
        requires
            self.wf(),
        ensures
            name_seq(r@).no_duplicates(),
            name_seq(r@).to_set() == recipients(self@, sender@, group@),
    {
        let r = self.select(Some(group), Some(sender), false);
        assert(selection(self@, Some(group@), Some(sender@), false) =~= recipients(self@, sender@, group@));
        r
    }

    /// The names of the clients in `group` (any group if none is given), other
    /// than `except` (if given), and not anonymous (if `visible_only`), each once,
    /// in the order of the registry.
    pub fn select(&self, group: Option<&str>, except: Option<&str>, visible_only: bool) -> (r: Vec<String>)
        requires
            self.wf(),
        ensures
            name_seq(r@).no_duplicates(),
            name_seq(r@).to_set() == selection(
                self@,
                match group { Some(g) => Some(g@), None => None },
                match except { Some(e) => Some(e@), None => None },
                visible_only,
            ),
    {
        let n = self.clients.len();
        let mut out: Vec<String> = Vec::new();
        let mut i: usize = 0;
        let ghost keys = self.clients.key_views();
        let ghost rs = selection(
            self@,
            match group { Some(g) => Some(g@), None => None },
            match except { Some(e) => Some(e@), None => None },
            visible_only,
        );
        proof { self.clients.lemma_entries(); }
        while i < n
            invariant
                self.wf(),
                keys == self.clients.key_views(),
                keys.no_duplicates(),
                rs == selection(
                    self@,
                    match group { Some(g) => Some(g@), None => None },
                    match except { Some(e) => Some(e@), None => None },
                    visible_only,
                ),
                forall|x: Seq<char>| #[trigger] self@.clients.contains_key(x) <==> keys.contains(x),
                n == keys.len(),
                i <= n,
                name_seq(out@).no_duplicates(),
                forall|x: Seq<char>|
                    #![trigger name_seq(out@).contains(x)]
                    #![trigger rs.contains(x)]
                    name_seq(out@).contains(x) <==> (seen(keys, i as int, x) && rs.contains(x)),
            decreases n - i,
        {
            let key = self.clients.key_at(i);
            let info = self.clients.value_at(i);
            let in_g = match group {
                Some(g) => match &info.group {
                    Some(h) => str_eq(h.as_str(), g),
                    None => false,
                },
                None => true,
            };
            let not_except = match except {
                Some(e) => !str_eq(key.as_str(), e),
                None => true,
            };
            let ghost before = name_seq(out@);
            let take = in_g && not_except && (!visible_only || !info.is_anon);
            proof {
                assert(keys.contains(key@));
                assert(take == rs.contains(key@));
            }
            if take {
                out.push(key.clone());
            }
            proof {
                let s1 = name_seq(out@);
                if take {
                    assert(s1 =~= before.push(key@));
                    assert(!before.contains(key@)) by {
                        if before.contains(key@) {
                            assert(seen(keys, i as int, key@));
                            let j = choose|j: int| 0 <= j < i && keys[j] == key@;
                            assert(keys[j] == keys[i as int]);
                        }
                    }
                    assert forall|a: int, b: int| 0 <= a < b < s1.len() implies s1[a] != s1[b] by {
                        if b == before.len() { assert(s1[a] == before[a]); assert(before.contains(before[a])); }
                        else { assert(s1[a] == before[a] && s1[b] == before[b]); }
                    }
                } else {
                    assert(s1 =~= before);
                }
                assert forall|x: Seq<char>|
                    #![trigger s1.contains(x)]
                    #![trigger rs.contains(x)]
                    s1.contains(x) <==> (seen(keys, i + 1, x) && rs.contains(x)) by {
                    if seen(keys, i + 1, x) {
                        let j = choose|j: int| 0 <= j < i + 1 && keys[j] == x;
                        if j < i { assert(seen(keys, i as int, x)); }
                    }
                    if seen(keys, i as int, x) {
                        let j = choose|j: int| 0 <= j < i && keys[j] == x;
                        assert(seen(keys, i + 1, x));
                    }
                    if take && x == key@ {
                        assert(s1[s1.len() - 1] == x);
                        assert(keys[i as int] == x);
                        assert(seen(keys, i + 1, x));
                    }
                    if s1.contains(x) && !before.contains(x) {
                        let k = choose|k: int| 0 <= k < s1.len() && s1[k] == x;
                        if k < before.len() { assert(before[k] == x); }
                    }
                    if before.contains(x) {
                        let k = choose|k: int| 0 <= k < before.len() && before[k] == x;
                        assert(s1[k] == x);
                    }
                    if seen(keys, i + 1, x) && !seen(keys, i as int, x) {
                        let j = choose|j: int| 0 <= j < i + 1 && keys[j] == x;
                        assert(j == i);
                    }
                }
            }
            i = i + 1;
        }
        proof {
            assert forall|x: Seq<char>| #[trigger] name_seq(out@).to_set().contains(x) <==> rs.contains(x) by {
                if rs.contains(x) {
                    assert(keys.contains(x));
                    let j = choose|j: int| 0 <= j < keys.len() && keys[j] == x;
                    assert(seen(keys, n as int, x));
                }
            }
            assert(name_seq(out@).to_set() =~= rs);
        }
        out
    }
}

/// The clients in `group` (any group if none is given), other than `except`
/// (if given), and not anonymous (if `visible_only`).
pub open spec fn selection(
    s: ServerView,
    group: Option<Seq<char>>,
    except: Option<Seq<char>>,
    visible_only: bool,
) -> Set<Seq<char>> {
    Set::new(|n: Seq<char>|
        s.clients.contains_key(n)
        && (group matches Some(g) ==> s.clients[n].group == Some(g))
        && (except matches Some(e) ==> n != e)
        && (visible_only ==> !s.clients[n].is_anon))
}

/// Whether `x` is among the first `i` elements of `s`.
pub open spec fn seen(s: Seq<Seq<char>>, i: int, x: Seq<char>) -> bool {
    exists|j: int| 0 <= j < i && s[j] == x
}

} // verus!
