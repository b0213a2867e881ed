//! The accounts in the range of the lab's users.

use vstd::prelude::*;

use crate::exchange::{
    args2, ask, command, finish, list0, make_command, turn_ask, turn_finish, with, Captured,
    CapturedView, CommandView, Op, OpView, Reply, ReplyKind, ReplyView, Turn, TurnView,
};
use crate::order;
use crate::order::{in_order, inserted, le, lemma_inserted_at, not_after};
use crate::text::{lines, lines_of, texts, trim, trimmed};
use crate::users::{
    bashrc_of, bashrc_path, groups_command, infer_role, is_bashrc_configured, launcher_sourced,
    make_groups_command, role_of, user_views, LabUser, LabUserView,
};
use crate::vnc::{is_vnc_configured, vnc_configured};
use crate::vnc_grant::{or_empty, text_or_empty, users_file};

verus! {

/// The names in a listing: its lines, without white space around them, that are not
/// empty.
pub open spec fn names_in(ls: Seq<Seq<char>>) -> Seq<Seq<char>>
    decreases ls.len(),
{
    if ls.len() == 0 {
        seq![]
    } else {
        let front = names_in(ls.drop_last());
        let name = trimmed(ls.last());
        if name.len() == 0 {
            front
        } else {
            front.push(name)
        }
    }
}

/// The names in a listing.
pub fn lab_usernames(listing: &str) -> (r: Vec<String>)
    ensures
        texts(r@) == names_in(lines_of(listing@)),
{
    let ls = lines(listing);
    let ghost all = lines_of(listing@);
    let mut r: Vec<String> = Vec::new();
    let mut i: usize = 0;
    assert(texts(r@) =~= names_in(all.take(0)));
    while i < ls.len()
        invariant
            i <= ls@.len(),
            texts(ls@) == all,
            texts(r@) == names_in(all.take(i as int)),
        decreases ls.len() - i,
    {
        assert(all.take(i + 1).drop_last() =~= all.take(i as int));
        assert(all.take(i + 1).last() == ls@[i as int]@);
        let name = trim(ls[i].as_str());
        if name.as_str().unicode_len() > 0 {
            r = with(r, name);
        }
        i += 1;
    }
    assert(all.take(i as int) =~= all);
    r
}

/// A user's name as a key to sort by.
pub open spec fn by_name() -> spec_fn(LabUserView) -> Seq<char> {
    |u: LabUserView| u.username
}

fn put_user(v: &mut Vec<LabUser>, x: LabUser)
    ensures
        user_views(final(v)@) == inserted(user_views(old(v)@), x@, by_name()),
{
    let mut p: usize = v.len();
    let ghost all = user_views(v@);
    while p > 0 && !not_after(v[p - 1].username.as_str(), x.username.as_str())
        invariant
            p <= v@.len(),
            all == user_views(v@),
            forall|j: int| p <= j < all.len() ==> !le((#[trigger] all[j]).username, x@.username),
        decreases p,
    {
        assert(all[p - 1] == v@[p - 1]@);
        p -= 1;
    }
    proof {
        if p > 0 {
            assert(all[p - 1] == v@[p - 1]@);
        }
        let key = by_name();
        assert forall|j: int| p <= j < all.len() implies !le(key(#[trigger] all[j]), key(x@)) by {}
        lemma_inserted_at(all, x@, by_name(), p as int);
    }
    let ghost xv = x@;
    v.insert(p, x);
    assert(user_views(v@) =~= all.insert(p as int, xv));
}

/// The command that prints the names of the accounts with user numbers from 1000 up
/// to 59999.
pub open spec fn names_command() -> CommandView {
    command(
        "sh"@,
        seq!["-c"@, "getent passwd | awk -F: '$3 >= 1000 && $3 < 60000 {print $1}'"@],
    )
}

/// Where the listing of users stands.
#[derive(Debug, Clone, Copy, PartialEq, Eq, Structural)]
pub enum ListAt {
    Start,
    Named,
    Grouped,
    FileFound,
    FileRead,
    VncRead,
    Over,
}

/// Lists the lab's users with what is set up for them.
#[derive(Debug)]
pub struct ListUsers {
    names: Vec<String>,
    next: usize,
    role: String,
    bashrc: bool,
    users: Vec<LabUser>,
    at: ListAt,
}

/// The model of a `ListUsers`.
pub struct ListUsersView {
    /// The names of all users, once they are known.
    pub names: Seq<Seq<char>>,
    /// The position of the user who is being looked at.
    pub next: int,
    /// That user's role, once it is known.
    pub role: Seq<char>,
    /// Whether that user has the environment, once that is known.
    pub bashrc: bool,
    /// The users in front of them, in order.
    pub users: Seq<LabUserView>,
    pub at: ListAt,
}

impl View for ListUsers {
    type V = ListUsersView;

    closed spec fn view(&self) -> ListUsersView {
        ListUsersView {
            names: texts(self.names@),
            next: self.next as int,
            role: self.role@,
            bashrc: self.bashrc,
            users: user_views(self.users@),
            at: self.at,
        }
    }
}

/// The names of users.
pub open spec fn usernames(users: Seq<LabUserView>) -> Seq<Seq<char>> {
    users.map_values(|u: LabUserView| u.username)
}

impl ListUsersView {
    /// What holds of every listing: the users so far are in order, and they are those
    /// that have been looked at.
    pub open spec fn wf(self) -> bool {
        &&& 0 <= self.next <= self.names.len()
        &&& self.at == ListAt::Grouped || self.at == ListAt::FileFound || self.at
            == ListAt::FileRead || self.at == ListAt::VncRead ==> self.next < self.names.len()
        &&& self.at == ListAt::Start || self.at == ListAt::Named ==> self.next == 0
            && self.users.len() == 0
        &&& in_order(self.users, by_name())
        &&& usernames(self.users).to_multiset() == self.names.take(self.next).to_multiset()
    }

    /// The shape of the reply that is waited for.
    pub open spec fn waits(self) -> ReplyKind {
        match self.at {
            ListAt::Start => ReplyKind::Start,
            ListAt::Named => ReplyKind::Captured,
            ListAt::Grouped => ReplyKind::Captured,
            ListAt::FileFound => ReplyKind::Flag,
            ListAt::FileRead => ReplyKind::Text,
            ListAt::VncRead => ReplyKind::Text,
            ListAt::Over => ReplyKind::Never,
        }
    }

    /// The user who is being looked at.
    pub open spec fn name(self) -> Seq<char> {
        self.names[self.next]
    }

    /// On to another state with a request.
    pub open spec fn go(self, at: ListAt, op: OpView) -> (ListUsersView, TurnView) {
        (ListUsersView { at, ..self }, ask(seq![], op))
    }

    /// On to the next user; the listing ends behind the last.
    pub open spec fn proceed(self) -> (ListUsersView, TurnView) {
        if self.next >= self.names.len() {
            (
                ListUsersView { at: ListAt::Over, ..self },
                finish(seq![], ReplyView::Users(self.users)),
            )
        } else {
            self.go(ListAt::Grouped, OpView::Capture(groups_command(self.name())))
        }
    }

    /// All that is known of the user who is being looked at.
    pub open spec fn described(self, vnc: bool) -> LabUserView {
        LabUserView {
            username: self.name(),
            role: self.role,
            identifier: "-"@,
            exists: true,
            bashrc_configured: self.bashrc,
            vnc_configured: vnc,
        }
    }

    /// The turn that `reply` leads to, and the state behind it.
    pub open spec fn after(self, reply: ReplyView) -> (ListUsersView, TurnView) {
        match self.at {
            ListAt::Start => self.go(ListAt::Named, OpView::Capture(names_command())),
            ListAt::Named => match reply->Captured_0 {
                CapturedView::Failed(_) => (ListUsersView { names: seq![], ..self }).proceed(),
                CapturedView::Exited { stdout, .. } => (ListUsersView {
                    names: names_in(lines_of(stdout)),
                    ..self
                }).proceed(),
            },
            ListAt::Grouped => (ListUsersView {
                role: role_of(reply->Captured_0, self.name()),
                ..self
            }).go(ListAt::FileFound, OpView::Exists(bashrc_path(self.name()))),
            ListAt::FileFound => if reply->Flag_0 {
                self.go(ListAt::FileRead, OpView::ReadText(bashrc_path(self.name())))
            } else {
                (ListUsersView { bashrc: false, ..self }).go(
                    ListAt::VncRead,
                    OpView::ReadText(users_file()),
                )
            },
            ListAt::FileRead => (ListUsersView {
                bashrc: launcher_sourced(reply->Text_0.ok()),
                ..self
            }).go(ListAt::VncRead, OpView::ReadText(users_file())),
            _ => {
                let user = self.described(vnc_configured(or_empty(reply->Text_0), self.name()));
                (ListUsersView {
                    users: inserted(self.users, user, by_name()),
                    next: self.next + 1,
                    ..self
                }).proceed()
            },
        }
    }
}

/// The lab's users, in the order of their names.
pub fn list_lab_users() -> (r: ListUsers)
    ensures
        r@ == (ListUsersView {
            names: seq![],
            next: 0,
            role: seq![],
            bashrc: false,
            users: seq![],
            at: ListAt::Start,
        }),
        r@.wf(),
{
    let r = ListUsers {
        names: Vec::new(),
        next: 0,
        role: String::new(),
        bashrc: false,
        users: Vec::new(),
        at: ListAt::Start,
    };
    proof {
        assert(r@.names =~= seq![]);
        assert(r@.users =~= seq![]);
        assert(usernames(r@.users) =~= r@.names.take(0));
    }
    r
}

/// A user who has been looked at joins the list, which stays in order.
proof fn lemma_user_joins(v: ListUsersView, user: LabUserView)
    requires
        v.wf(),
        v.next < v.names.len(),
        user.username == v.name(),
    ensures
        in_order(inserted(v.users, user, by_name()), by_name()),
        usernames(inserted(v.users, user, by_name())).to_multiset() == v.names.take(
            v.next + 1,
        ).to_multiset(),
{
    broadcast use vstd::seq_lib::group_to_multiset_ensures;

    order::law_insertion_keeps_order(v.users, user, by_name());
    lemma_usernames_inserted(v.users, user);
    assert(v.names.take(v.next + 1) =~= v.names.take(v.next).push(v.name()));
}

proof fn lemma_usernames_inserted(users: Seq<LabUserView>, user: LabUserView)
    ensures
        usernames(inserted(users, user, by_name())).to_multiset() == usernames(
            users,
        ).to_multiset().insert(user.username),
    decreases users.len(),
{
    broadcast use vstd::seq_lib::group_to_multiset_ensures;

    if users.len() == 0 || le(users.last().username, user.username) {
        assert(usernames(users.push(user)) =~= usernames(users).push(user.username));
    } else {
        let front = users.drop_last();
        lemma_usernames_inserted(front, user);
        let with_user = inserted(front, user, by_name());
        assert(usernames(with_user.push(users.last())) =~= usernames(with_user).push(
            users.last().username,
        ));
        assert(usernames(users) =~= usernames(front).push(users.last().username));
        assert(usernames(front).to_multiset().insert(user.username).insert(users.last().username)
            =~= usernames(front).to_multiset().insert(users.last().username).insert(user.username));
    }
}

impl ListUsers {
    /// The shape of the reply that is waited for.
    pub fn waits(&self) -> (k: ReplyKind)
        ensures
            k == self@.waits(),
    {
        match self.at {
            ListAt::Start => ReplyKind::Start,
            ListAt::Named => ReplyKind::Captured,
            ListAt::Grouped => ReplyKind::Captured,
            ListAt::FileFound => ReplyKind::Flag,
            ListAt::FileRead => ReplyKind::Text,
            ListAt::VncRead => ReplyKind::Text,
            ListAt::Over => ReplyKind::Never,
        }
    }

    fn go(self, at: ListAt, op: Op) -> (r: (ListUsers, Turn))
        ensures
            (r.0@, r.1@) == self@.go(at, op@),
    {
        (ListUsers { at, ..self }, turn_ask(list0(), op))
    }

    fn proceed(self) -> (r: (ListUsers, Turn))
        requires
            0 <= self@.next <= self@.names.len(),
        ensures
            (r.0@, r.1@) == self@.proceed(),
    {
        if self.next >= self.names.len() {
            let ListUsers { names, next, role, bashrc, users, at } = self;
            let out = copy_users(&users);
            (
                ListUsers { names, next, role, bashrc, users, at: ListAt::Over },
                turn_finish(list0(), Reply::Users(out)),
            )
        } else {
            let c = make_groups_command(self.names[self.next].as_str());
            self.go(ListAt::Grouped, Op::Capture(c))
        }
    }

    /// Takes the reply that is waited for.
    pub fn step(self, reply: Reply) -> (r: (ListUsers, Turn))
        requires
            self@.wf(),
            self@.waits() == reply@.kind(),
        ensures
            (r.0@, r.1@) == self@.after(reply@),
            r.1@.leads_to(r.0@.waits()),
            r.0@.wf(),
    {
        match self.at {
            ListAt::Start => {
                let args = args2(
                    "-c",
                    "getent passwd | awk -F: '$3 >= 1000 && $3 < 60000 {print $1}'",
                );
                self.go(ListAt::Named, Op::Capture(make_command("sh", args)))
            },
            ListAt::Named => {
                let names: Vec<String> = match reply.captured() {
                    Captured::Failed(_) => list0(),
                    Captured::Exited { stdout, .. } => lab_usernames(stdout.as_str()),
                };
                assert(texts(names@).take(0) =~= self@.names.take(0));
                (ListUsers { names, ..self }).proceed()
            },
            ListAt::Grouped => {
                let name = self.names[self.next].clone();
                let role = infer_role(&reply.captured(), name.as_str());
                let file = bashrc_of(name.as_str());
                (ListUsers { role, ..self }).go(ListAt::FileFound, Op::Exists(file))
            },
            ListAt::FileFound => if reply.flag() {
                let file = bashrc_of(self.names[self.next].as_str());
                self.go(ListAt::FileRead, Op::ReadText(file))
            } else {
                (ListUsers { bashrc: false, ..self }).go(
                    ListAt::VncRead,
                    Op::ReadText("/etc/tigervnc/vncserver.users".to_owned()),
                )
            },
            ListAt::FileRead => {
                let content: Option<String> = match reply.text() {
                    Ok(c) => Some(c),
                    Err(_) => None,
                };
                let bashrc = is_bashrc_configured(&content);
                (ListUsers { bashrc, ..self }).go(
                    ListAt::VncRead,
                    Op::ReadText("/etc/tigervnc/vncserver.users".to_owned()),
                )
            },
            _ => {
                let content = text_or_empty(reply.text());
                let username = self.names[self.next].clone();
                let vnc = is_vnc_configured(content.as_str(), username.as_str());
                let ghost before = self@;
                let ListUsers { names, next, role, bashrc, users, at } = self;
                let user = LabUser {
                    username,
                    role: role.clone(),
                    identifier: "-".to_owned(),
                    exists: true,
                    bashrc_configured: bashrc,
                    vnc_configured: vnc,
                };
                proof {
                    lemma_user_joins(before, user@);
                }
                let mut users = users;
                put_user(&mut users, user);
                assert(next < names.len());
                (ListUsers { names, next: next + 1, role, bashrc, users, at }).proceed()
            },
        }
    }
}

fn copy_users(v: &Vec<LabUser>) -> (r: Vec<LabUser>)
    ensures
        user_views(r@) == user_views(v@),
{
    let mut r: Vec<LabUser> = Vec::new();
    let mut i: usize = 0;
    let ghost all = user_views(v@);
    while i < v.len()
        invariant
            i <= v@.len(),
            r@.len() == i,
            all == user_views(v@),
            user_views(r@) == all.take(i as int),
        decreases v.len() - i,
    {
        let ghost shown = r@;
        r.push(
            LabUser {
                username: v[i].username.clone(),
                role: v[i].role.clone(),
                identifier: v[i].identifier.clone(),
                exists: v[i].exists,
                bashrc_configured: v[i].bashrc_configured,
                vnc_configured: v[i].vnc_configured,
            },
        );
        assert(r@[i as int]@ == all[i as int]);
        assert(user_views(r@) =~= user_views(shown).push(all[i as int]));
        assert(user_views(r@) =~= all.take(i + 1));
        i += 1;
    }
    assert(all.take(i as int) =~= all);
    r
}

/// The list that comes out is in the order of the names and holds each name that the
/// system gave, as often as it gave it.
pub proof fn law_list_is_complete_and_in_order(v: ListUsersView, reply: ReplyView)
    requires
        v.wf(),
        v.waits() == reply.kind(),
        v.after(reply).1.next is Finish,
    ensures
        ({
            let users = v.after(reply).1.next->Finish_0->Users_0;
            &&& in_order(users, by_name())
            &&& usernames(users).to_multiset() == v.after(reply).0.names.to_multiset()
        }),
{
    let state = v.after(reply).0;
    match v.at {
        ListAt::Named => {
            assert(state.names =~= seq![]);
            assert(usernames(v.users) =~= seq![]);
            assert(v.names.take(0) =~= seq![]);
        },
        _ => {
            lemma_user_joins(
                v,
                v.described(vnc_configured(or_empty(reply->Text_0), v.name())),
            );
            assert(state.names.take(state.next) =~= state.names);
        },
    }
}

} // verus!
