//! The collaborators of the user application kept in the memory of the
//! process: a repository of users, an outbox and a log of events.

use vstd::prelude::*;
use crate::assoc::{
    as_map, lemma_map_absent, lemma_map_get, lemma_map_push, lemma_map_remove, lemma_map_update,
    unique,
};
use crate::result::Error;
use crate::text::same_text;
use crate::user::application::{
    ambiguous_name, has_email, has_name, is_named, users_wf, EventService, EventView, MailService,
    MailView, UserRepository, Users,
};
use crate::user::domain::{Email, User, UserView};

verus! {

/// The identifiers of `users`, in their order.
pub open spec fn user_ids(users: Seq<User>) -> Seq<i64> {
    Seq::new(users.len(), |i: int| users[i].id)
}

/// The addresses of `users`, in their order.
pub open spec fn user_emails(users: Seq<User>) -> Seq<Seq<char>> {
    Seq::new(users.len(), |i: int| users[i].credentials.email@)
}

/// The values of `users`, in their order.
pub open spec fn user_views(users: Seq<User>) -> Seq<UserView> {
    Seq::new(users.len(), |i: int| users[i]@)
}

/// What the repository keeps true of its users: no identifier and no
/// address occurs twice, and every identifier lies between zero and the
/// next one to give out.
pub open spec fn users_kept(users: Seq<User>, next_id: i64) -> bool {
    &&& unique(user_ids(users))
    &&& unique(user_emails(users))
    &&& forall|i: int| 0 <= i < users.len() ==> 0 < #[trigger] users[i].id < next_id
}

/// The map of `users`.
pub open spec fn users_map(users: Seq<User>) -> Users {
    as_map(user_ids(users), user_views(users))
}

/// Every user of the map stands somewhere in the sequence.
proof fn lemma_user_at(users: Seq<User>, id: i64) -> (i: int)
    requires
        unique(user_ids(users)),
        users_map(users).contains_key(id),
    ensures
        0 <= i < users.len(),
        users[i].id == id,
        users_map(users)[id] == users[i]@,
{
    let ids = user_ids(users);
    assert(ids.contains(id));
    let i = choose|i: int| 0 <= i < ids.len() && ids[i] == id;
    lemma_map_get(ids, user_views(users), i);
    i
}

/// Every user of the sequence is in the map.
proof fn lemma_user_in(users: Seq<User>, i: int)
    requires
        unique(user_ids(users)),
        0 <= i < users.len(),
    ensures
        users_map(users).contains_key(users[i].id),
        users_map(users)[users[i].id] == users[i]@,
{
    lemma_map_get(user_ids(users), user_views(users), i);
}

/// What the repository keeps true of its sequence holds of its map.
proof fn lemma_users_wf(users: Seq<User>, next_id: i64)
    requires
        users_kept(users, next_id),
    ensures
        users_wf(users_map(users)),
{
    let m = users_map(users);
    assert forall|id: i64| #[trigger] m.contains_key(id) implies id != 0 && m[id].id == id by {
        let i = lemma_user_at(users, id);
    }
    assert forall|a: i64, b: i64|
        #[trigger] m.contains_key(a) && #[trigger] m.contains_key(b) && m[a].credentials.email
            == m[b].credentials.email implies a == b by {
        let i = lemma_user_at(users, a);
        let j = lemma_user_at(users, b);
        let emails = user_emails(users);
        assert(emails[i] == emails[j]);
        if i < j {
            assert(emails[i] != emails[j]);
        } else if j < i {
            assert(emails[j] != emails[i]);
        }
    }
}

/// An address that stands nowhere in the sequence is nobody's.
proof fn lemma_no_email(users: Seq<User>, email: Seq<char>)
    requires
        unique(user_ids(users)),
        forall|i: int| 0 <= i < users.len() ==> #[trigger] users[i].credentials.email@ != email,
    ensures
        !has_email(users_map(users), email),
{
    let m = users_map(users);
    if has_email(m, email) {
        let id = choose|id: i64| #[trigger] m.contains_key(id) && m[id].credentials.email == email;
        let i = lemma_user_at(users, id);
        assert(users[i].credentials.email@ != email);
    }
}

/// A repository of users in the memory of the process. It can be taken
/// offline, after which every operation fails with `Debug`.
pub struct InMemoryUserRepository {
    users: Vec<User>,
    next_id: i64,
    offline: bool,
}

impl InMemoryUserRepository {
    #[verifier::type_invariant]
    spec fn inv(self) -> bool {
        users_kept(self.users@, self.next_id) && 1 <= self.next_id
    }

    /// An empty repository.
    pub fn new() -> (repo: InMemoryUserRepository)
        ensures
            repo.users() == Map::<i64, UserView>::empty(),
            repo.reliable(),
    {
        let repo = InMemoryUserRepository { users: Vec::new(), next_id: 1, offline: false };
        proof {
            assert(repo.users() =~= Map::<i64, UserView>::empty());
        }
        repo
    }

    /// Takes the repository offline or online again; its users stay.
    pub fn set_offline(&mut self, offline: bool)
        ensures
            final(self).users() == old(self).users(),
            !offline ==> final(self).reliable() == old(self).has_room(),
            offline ==> !final(self).reliable(),
    {
        proof {
            use_type_invariant(&*self);
        }
        self.offline = offline;
    }

    /// Are there identifiers left to give out?
    pub closed spec fn has_room(&self) -> bool {
        self.next_id < i64::MAX
    }

    /// How many users the repository holds.
    pub fn len(&self) -> (n: usize)
        ensures
            n == self.users().dom().len(),
    {
        proof {
            use_type_invariant(self);
            let ids = user_ids(self.users@);
            crate::assoc::lemma_map_finite(ids, user_views(self.users@));
            ids.unique_seq_to_set();
        }
        self.users.len()
    }

    /// Puts `user` into the repository under the identifier that it
    /// brings, as a store would hold it from before. The identifier must
    /// be positive, leave room for the next one and, like the address, not
    /// be in use.
    pub fn seed(&mut self, user: User) -> (r: Result<(), Error>)
        ensures
            users_wf(final(self).users()),
            r is Ok <==> 0 < user@.id < i64::MAX - 1 && !old(self).users().contains_key(user@.id)
                && !has_email(old(self).users(), user@.credentials.email),
            r is Ok ==> final(self).users() == old(self).users().insert(user@.id, user@),
            r is Ok ==> final(self).reliable() == old(self).reliable(),
            r is Err ==> final(self).users() == old(self).users(),
            r matches Err(e) ==> e == Error::AlreadyExists,
    {
        proof {
            use_type_invariant(&*self);
            lemma_users_wf(self.users@, self.next_id);
        }
        let at = self.position(user.id);
        let taken = self.email_position(user.credentials.email.as_str(), self.users.len());
        if user.id <= 0 || user.id >= i64::MAX - 1 || at < self.users.len() || taken
            < self.users.len() {
            proof {
                if taken < self.users.len() {
                    lemma_user_in(self.users@, taken as int);
                }
            }
            return Err(Error::AlreadyExists);
        }
        let ghost before = self.users@;
        proof {
            lemma_no_email(before, user@.credentials.email);
            lemma_map_push(user_ids(before), user_views(before), user.id, user@);
        }
        if self.next_id <= user.id {
            self.next_id = user.id + 1;
        }
        let mut users: Vec<User> = Vec::new();
        core::mem::swap(&mut users, &mut self.users);
        users.push(user);
        proof {
            assert(user_ids(users@) =~= user_ids(before).push(user.id));
            assert(user_views(users@) =~= user_views(before).push(user@));
            let emails = user_emails(users@);
            assert forall|i: int, j: int| 0 <= i < j < emails.len() implies emails[i]
                != emails[j] by {
                if j < before.len() {
                    assert(user_emails(before)[i] != user_emails(before)[j]);
                } else {
                    assert(before[i].credentials.email@ != user@.credentials.email);
                }
            }
        }
        self.users = users;
        proof {
            lemma_users_wf(self.users@, self.next_id);
        }
        Ok(())
    }

    /// Where the user `id` stands, or the number of users where it does
    /// not.
    fn position(&self, id: i64) -> (at: usize)
        ensures
            at <= self.users@.len(),
            at < self.users@.len() ==> self.users@[at as int].id == id && self.users().contains_key(
                id,
            ) && self.users()[id] == self.users@[at as int]@,
            at == self.users@.len() ==> !self.users().contains_key(id),
    {
        let mut i: usize = 0;
        while i < self.users.len()
            invariant
                i <= self.users@.len(),
                forall|k: int| 0 <= k < i ==> self.users@[k].id != id,
            decreases self.users@.len() - i,
        {
            if self.users[i].id == id {
                proof {
                    use_type_invariant(self);
                    lemma_user_in(self.users@, i as int);
                }
                return i;
            }
            i = i + 1;
        }
        proof {
            let ids = user_ids(self.users@);
            assert forall|k: int| 0 <= k < ids.len() implies ids[k] != id by {
                assert(ids[k] == self.users@[k].id);
            }
            lemma_map_absent(ids, user_views(self.users@), id);
        }
        i
    }

    /// Where a user other than the one at `except` has the address
    /// `email`, or the number of users where none has.
    fn email_position(&self, email: &str, except: usize) -> (at: usize)
        ensures
            at <= self.users@.len(),
            at < self.users@.len() ==> at != except && self.users@[at as int].credentials.email@
                == email@,
            at == self.users@.len() ==> forall|k: int|
                0 <= k < self.users@.len() && k != except ==> #[trigger] self.users@[k].credentials.email@
                    != email@,
    {
        let mut i: usize = 0;
        while i < self.users.len()
            invariant
                i <= self.users@.len(),
                forall|k: int|
                    0 <= k < i && k != except ==> #[trigger] self.users@[k].credentials.email@
                        != email@,
            decreases self.users@.len() - i,
        {
            if i != except && same_text(self.users[i].credentials.email.as_str(), email) {
                return i;
            }
            i = i + 1;
        }
        i
    }
}

impl UserRepository for InMemoryUserRepository {
    open spec fn modelled(&self) -> bool {
        true
    }

    closed spec fn users(&self) -> Users {
        users_map(self.users@)
    }

    closed spec fn reliable(&self) -> bool {
        !self.offline && self.next_id < i64::MAX
    }

    fn find(&self, id: i64) -> (r: Result<User, Error>)
    {
        proof {
            use_type_invariant(self);
            lemma_users_wf(self.users@, self.next_id);
        }
        if self.offline {
            return Err(Error::Debug);
        }
        let at = self.position(id);
        if at < self.users.len() {
            Ok(self.users[at].duplicate())
        } else {
            Err(Error::NotFound)
        }
    }

    fn find_by_email(&self, email: &Email) -> (r: Result<User, Error>)
    {
        proof {
            use_type_invariant(self);
            lemma_users_wf(self.users@, self.next_id);
        }
        if self.offline {
            return Err(Error::Debug);
        }
        let at = self.email_position(email.as_str(), self.users.len());
        if at < self.users.len() {
            proof {
                lemma_user_in(self.users@, at as int);
            }
            Ok(self.users[at].duplicate())
        } else {
            proof {
                lemma_no_email(self.users@, email@);
            }
            Err(Error::NotFound)
        }
    }

    fn find_by_name(&self, name: &str) -> (r: Result<User, Error>)
    {
        proof {
            use_type_invariant(self);
            lemma_users_wf(self.users@, self.next_id);
        }
        if self.offline {
            return Err(Error::Debug);
        }
        let n = self.users.len();
        let mut first: usize = n;
        let mut second: usize = n;
        let mut i: usize = 0;
        while i < n
            invariant
                n == self.users@.len(),
                i <= n,
                first <= n,
                second <= n,
                first < n ==> first < i && self.users@[first as int]@.name() == name@,
                second < n ==> first < second < i && self.users@[second as int]@.name() == name@,
                second == n ==> forall|k: int|
                    0 <= k < i && k != first ==> #[trigger] self.users@[k]@.name() != name@,
            decreases n - i,
        {
            let owner = self.users[i].credentials.email.name();
            if same_text(owner.as_str(), name) {
                if first == n {
                    first = i;
                } else if second == n {
                    second = i;
                }
            }
            i = i + 1;
        }
        let ghost m = self.users();
        if first == n {
            proof {
                if has_name(m, name@) {
                    let id = choose|id: i64| #[trigger] is_named(m, id, name@);
                    let k = lemma_user_at(self.users@, id);
                    assert(self.users@[k]@.name() != name@);
                }
            }
            Err(Error::NotFound)
        } else if second == n {
            proof {
                lemma_user_in(self.users@, first as int);
                if ambiguous_name(m, name@) {
                    let (a, b) = choose|a: i64, b: i64|
                        a != b && #[trigger] is_named(m, a, name@) && #[trigger] is_named(
                            m,
                            b,
                            name@,
                        );
                    let ka = lemma_user_at(self.users@, a);
                    let kb = lemma_user_at(self.users@, b);
                    if ka != first {
                        assert(self.users@[ka]@.name() != name@);
                    }
                    if kb != first {
                        assert(self.users@[kb]@.name() != name@);
                    }
                }
            }
            Ok(self.users[first].duplicate())
        } else {
            proof {
                lemma_user_in(self.users@, first as int);
                lemma_user_in(self.users@, second as int);
                let ids = user_ids(self.users@);
                assert(ids[first as int] != ids[second as int]);
                assert(is_named(m, self.users@[first as int].id, name@));
                assert(is_named(m, self.users@[second as int].id, name@));
            }
            Err(Error::AlreadyExists)
        }
    }

    fn create(&mut self, user: &mut User) -> (r: Result<(), Error>)
    {
        proof {
            use_type_invariant(&*self);
            lemma_users_wf(self.users@, self.next_id);
        }
        if self.offline || self.next_id == i64::MAX {
            return Err(Error::Debug);
        }
        let taken = self.email_position(user.credentials.email.as_str(), self.users.len());
        if taken < self.users.len() {
            proof {
                lemma_user_in(self.users@, taken as int);
            }
            return Err(Error::AlreadyExists);
        }
        let ghost before = self.users@;
        let id = self.next_id;
        user.id = id;
        let stored = user.duplicate();
        proof {
            lemma_no_email(before, user@.credentials.email);
            let ids = user_ids(before);
            assert forall|k: int| 0 <= k < ids.len() implies ids[k] != id by {
                assert(ids[k] == before[k].id);
            }
            lemma_map_absent(ids, user_views(before), id);
            lemma_map_push(ids, user_views(before), id, stored@);
        }
        self.next_id = id + 1;
        let mut users: Vec<User> = Vec::new();
        core::mem::swap(&mut users, &mut self.users);
        users.push(stored);
        proof {
            assert(user_ids(users@) =~= user_ids(before).push(id));
            assert(user_views(users@) =~= user_views(before).push(stored@));
            let emails = user_emails(users@);
            assert forall|i: int, j: int| 0 <= i < j < emails.len() implies emails[i]
                != emails[j] by {
                if j < before.len() {
                    assert(user_emails(before)[i] != user_emails(before)[j]);
                } else {
                    assert(before[i].credentials.email@ != stored@.credentials.email);
                }
            }
        }
        self.users = users;
        proof {
            lemma_users_wf(self.users@, self.next_id);
        }
        Ok(())
    }

    fn save(&mut self, user: &User) -> (r: Result<(), Error>)
    {
        proof {
            use_type_invariant(&*self);
            lemma_users_wf(self.users@, self.next_id);
        }
        if self.offline {
            return Err(Error::Debug);
        }
        let at = self.position(user.id);
        if at >= self.users.len() {
            return Err(Error::NotFound);
        }
        let taken = self.email_position(user.credentials.email.as_str(), at);
        if taken < self.users.len() {
            proof {
                lemma_user_in(self.users@, taken as int);
                let ids = user_ids(self.users@);
                if taken < at {
                    assert(ids[taken as int] != ids[at as int]);
                } else {
                    assert(ids[at as int] != ids[taken as int]);
                }
            }
            return Err(Error::AlreadyExists);
        }
        let ghost before = self.users@;
        let stored = user.duplicate();
        proof {
            lemma_map_update(user_ids(before), user_views(before), at as int, stored@);
            assert forall|id: i64| #[trigger]
                self.users().contains_key(id) && self.users()[id].credentials.email
                    == user@.credentials.email implies id == user@.id by {
                let k = lemma_user_at(before, id);
                if k != at {
                    assert(before[k].credentials.email@ != user@.credentials.email);
                }
            }
        }
        let mut users: Vec<User> = Vec::new();
        core::mem::swap(&mut users, &mut self.users);
        users.set(at, stored);
        proof {
            assert(user_ids(users@) =~= user_ids(before));
            assert(user_views(users@) =~= user_views(before).update(at as int, stored@));
            let emails = user_emails(users@);
            assert forall|i: int, j: int| 0 <= i < j < emails.len() implies emails[i]
                != emails[j] by {
                if i != at && j != at {
                    assert(user_emails(before)[i] != user_emails(before)[j]);
                } else if i == at {
                    assert(before[j].credentials.email@ != user@.credentials.email);
                } else {
                    assert(before[i].credentials.email@ != user@.credentials.email);
                }
            }
            assert forall|i: int| 0 <= i < users@.len() implies 0 < #[trigger] users@[i].id
                < self.next_id by {
                assert(users@[i].id == before[i].id);
            }
        }
        self.users = users;
        proof {
            lemma_users_wf(self.users@, self.next_id);
        }
        Ok(())
    }

    fn delete(&mut self, user: &User) -> (r: Result<(), Error>)
    {
        proof {
            use_type_invariant(&*self);
            lemma_users_wf(self.users@, self.next_id);
        }
        if self.offline {
            return Err(Error::Debug);
        }
        let at = self.position(user.id);
        if at >= self.users.len() {
            return Err(Error::NotFound);
        }
        let ghost before = self.users@;
        proof {
            lemma_map_remove(user_ids(before), user_views(before), at as int);
        }
        let mut users: Vec<User> = Vec::new();
        core::mem::swap(&mut users, &mut self.users);
        users.remove(at);
        proof {
            assert(user_ids(users@) =~= user_ids(before).remove(at as int));
            assert(user_views(users@) =~= user_views(before).remove(at as int));
            let emails = user_emails(users@);
            assert forall|i: int, j: int| 0 <= i < j < emails.len() implies emails[i]
                != emails[j] by {
                let i1 = if i < at {
                    i
                } else {
                    i + 1
                };
                let j1 = if j < at {
                    j
                } else {
                    j + 1
                };
                assert(user_emails(before)[i1] != user_emails(before)[j1]);
            }
            assert forall|i: int| 0 <= i < users@.len() implies 0 < #[trigger] users@[i].id
                < self.next_id by {
                let i1 = if i < at {
                    i
                } else {
                    i + 1
                };
                assert(users@[i].id == before[i1].id);
            }
        }
        self.users = users;
        proof {
            lemma_users_wf(self.users@, self.next_id);
        }
        Ok(())
    }
}

/// The kinds of message that the outbox holds.
#[derive(Clone, Copy, Debug, PartialEq, Eq, Structural)]
pub enum MailKind {
    Verification,
    Reset,
}

/// A message in the outbox.
#[derive(Debug)]
pub struct Mail {
    pub kind: MailKind,
    pub to: String,
    pub token: String,
}

impl View for Mail {
    type V = MailView;

    open spec fn view(&self) -> MailView {
        match self.kind {
            MailKind::Verification => MailView::Verification { to: self.to@, token: self.token@ },
            MailKind::Reset => MailView::Reset { to: self.to@, token: self.token@ },
        }
    }
}

/// The values of `mails`, in their order.
pub open spec fn mail_views(mails: Seq<Mail>) -> Seq<MailView> {
    Seq::new(mails.len(), |i: int| mails[i]@)
}

/// A mail service that keeps what it is given instead of sending it.
pub struct Outbox {
    pub mails: Vec<Mail>,
    pub offline: bool,
}

impl Outbox {
    /// An empty outbox.
    pub fn new() -> (outbox: Outbox)
        ensures
            outbox.sent() == Seq::<MailView>::empty(),
            outbox.reliable(),
    {
        let outbox = Outbox { mails: Vec::new(), offline: false };
        proof {
            assert(outbox.sent() =~= Seq::<MailView>::empty());
        }
        outbox
    }
}

impl MailService for Outbox {
    open spec fn modelled(&self) -> bool {
        true
    }

    open spec fn sent(&self) -> Seq<MailView> {
        mail_views(self.mails@)
    }

    open spec fn reliable(&self) -> bool {
        !self.offline
    }

    fn send_credentials_verification_email(&mut self, email: &Email, token: &str) -> (r: Result<
        (),
        Error,
    >)
    {
        if self.offline {
            return Err(Error::Debug);
        }
        self.mails.push(
            Mail {
                kind: MailKind::Verification,
                to: email.as_str().to_owned(),
                token: token.to_owned(),
            },
        );
        proof {
            assert(mail_views(self.mails@) =~= mail_views(old(self).mails@).push(
                MailView::Verification { to: email@, token: token@ },
            ));
        }
        Ok(())
    }

    fn send_reset_email(&mut self, email: &Email, token: &str) -> (r: Result<(), Error>)
    {
        if self.offline {
            return Err(Error::Debug);
        }
        self.mails.push(
            Mail { kind: MailKind::Reset, to: email.as_str().to_owned(), token: token.to_owned() },
        );
        proof {
            assert(mail_views(self.mails@) =~= mail_views(old(self).mails@).push(
                MailView::Reset { to: email@, token: token@ },
            ));
        }
        Ok(())
    }
}

/// What happened to a user.
#[derive(Debug)]
pub enum Event {
    Created(User),
    Deleted(User),
}

impl View for Event {
    type V = EventView;

    open spec fn view(&self) -> EventView {
        match self {
            Event::Created(user) => EventView::Created(user@),
            Event::Deleted(user) => EventView::Deleted(user@),
        }
    }
}

/// The values of `events`, in their order.
pub open spec fn event_views(events: Seq<Event>) -> Seq<EventView> {
    Seq::new(events.len(), |i: int| events[i]@)
}

/// An event service that keeps what it is given instead of publishing it.
pub struct EventLog {
    pub events: Vec<Event>,
    pub offline: bool,
}

impl EventLog {
    /// An empty log.
    pub fn new() -> (log: EventLog)
        ensures
            log.emitted() == Seq::<EventView>::empty(),
            log.reliable(),
    {
        let log = EventLog { events: Vec::new(), offline: false };
        proof {
            assert(log.emitted() =~= Seq::<EventView>::empty());
        }
        log
    }
}

impl EventService for EventLog {
    open spec fn modelled(&self) -> bool {
        true
    }

    open spec fn emitted(&self) -> Seq<EventView> {
        event_views(self.events@)
    }

    open spec fn reliable(&self) -> bool {
        !self.offline
    }

    fn emit_user_created(&mut self, user: &User) -> (r: Result<(), Error>)
    {
        if self.offline {
            return Err(Error::Debug);
        }
        self.events.push(Event::Created(user.duplicate()));
        proof {
            assert(event_views(self.events@) =~= event_views(old(self).events@).push(
                EventView::Created(user@),
            ));
        }
        Ok(())
    }

    fn emit_user_deleted(&mut self, user: &User) -> (r: Result<(), Error>)
    {
        if self.offline {
            return Err(Error::Debug);
        }
        self.events.push(Event::Deleted(user.duplicate()));
        proof {
            assert(event_views(self.events@) =~= event_views(old(self).events@).push(
                EventView::Deleted(user@),
            ));
        }
        Ok(())
    }
}

} // verus!
