//! What the user application consumes and what it offers: the interfaces
//! of the stores and services around it, and the flows of signup, login,
//! password reset, deletion and multi-factor enrolment.

pub mod delete;
pub mod login;
pub mod mfa;
pub mod reset;
pub mod signup;

use vstd::prelude::*;
use crate::cache::{Cache, Entries};
use crate::mfa::service::MfaService;
use crate::result::Error;
use crate::secret::domain::{SecretRepository, Secrets};
use crate::token::service::TokenService;
use crate::user::domain::{Email, User, UserView};

verus! {

/// The users of a store, by identifier.
pub type Users = Map<i64, UserView>;

/// Is there a user with the address `email`?
pub open spec fn has_email(users: Users, email: Seq<char>) -> bool {
    exists|id: i64| #[trigger] users.contains_key(id) && users[id].credentials.email == email
}

/// Is `id` a user with the name `name`?
pub open spec fn is_named(users: Users, id: i64, name: Seq<char>) -> bool {
    users.contains_key(id) && users[id].name() == name
}

/// Is there a user with the name `name`?
pub open spec fn has_name(users: Users, name: Seq<char>) -> bool {
    exists|id: i64| #[trigger] is_named(users, id, name)
}

/// Is there more than one user with the name `name`?
pub open spec fn ambiguous_name(users: Users, name: Seq<char>) -> bool {
    exists|a: i64, b: i64| a != b && #[trigger] is_named(users, a, name) && #[trigger] is_named(
        users,
        b,
        name,
    )
}

/// What holds of the users of every store: each is kept under its
/// identifier, which is not zero, and no two have the same address.
pub open spec fn users_wf(users: Users) -> bool {
    &&& forall|id: i64| #[trigger] users.contains_key(id) ==> id != 0 && users[id].id == id
    &&& forall|a: i64, b: i64|
        #[trigger] users.contains_key(a) && #[trigger] users.contains_key(b)
            && users[a].credentials.email == users[b].credentials.email ==> a == b
}

/// The store went from `before` to `after` by creating `given` as
/// `stored`: the user got a fresh identifier that is not zero, and nobody
/// had the address.
pub open spec fn user_created(before: Users, given: UserView, after: Users, stored: UserView) -> bool {
    &&& stored == (UserView { id: stored.id, ..given })
    &&& stored.id != 0
    &&& !before.contains_key(stored.id)
    &&& !has_email(before, given.credentials.email)
    &&& after == before.insert(stored.id, stored)
}

/// Can `user` be saved over what `users` holds? Its identifier must be
/// known and its address must be nobody else's.
pub open spec fn can_save_user(users: Users, user: UserView) -> bool {
    &&& users.contains_key(user.id)
    &&& forall|id: i64| #[trigger]
        users.contains_key(id) && users[id].credentials.email == user.credentials.email ==> id
            == user.id
}

/// Where users are kept. There is exactly one user for an address.
///
/// The contracts speak of a store that says what it holds (`modelled`):
/// they state what holds of each outcome, and are exact for a store that
/// is reliable, which nothing but its contents makes fail.
pub trait UserRepository {
    /// Does the store say what it holds? Of a store that does not, the
    /// contracts below promise nothing.
    open spec fn modelled(&self) -> bool {
        false
    }

    /// The users in the store.
    open spec fn users(&self) -> Users {
        Map::empty()
    }

    /// Does nothing but its contents make the store fail?
    open spec fn reliable(&self) -> bool {
        false
    }

    /// The user with the identifier `id`.
    fn find(&self, id: i64) -> (r: Result<User, Error>)
        ensures
            self.modelled() ==> ({
                &&& users_wf(self.users())
                &&& r matches Ok(u) ==> self.users().contains_key(id) && u@ == self.users()[id]
                &&& r matches Err(e) ==> (e == Error::NotFound ==> !self.users().contains_key(id))
                &&& self.reliable() ==> (r matches Err(e) ==> e == Error::NotFound)
            }),
    ;

    /// The user with the address `email`.
    fn find_by_email(&self, email: &Email) -> (r: Result<User, Error>)
        ensures
            self.modelled() ==> ({
                &&& users_wf(self.users())
                &&& r matches Ok(u) ==> u@.credentials.email == email@
                    && self.users().contains_key(u@.id)
                    && self.users()[u@.id] == u@
                &&& r matches Err(e) ==> (e == Error::NotFound ==> !has_email(self.users(), email@))
                &&& self.reliable() ==> (r matches Err(e) ==> e == Error::NotFound)
            }),
    ;

    /// The one user with the name `name`. Where several have it, a
    /// reliable store says `AlreadyExists`.
    fn find_by_name(&self, name: &str) -> (r: Result<User, Error>)
        ensures
            self.modelled() ==> ({
                &&& users_wf(self.users())
                &&& r matches Ok(u) ==> is_named(self.users(), u@.id, name@)
                    && self.users()[u@.id] == u@
                    && !ambiguous_name(self.users(), name@)
                &&& r matches Err(e) ==> (e == Error::NotFound ==> !has_name(self.users(), name@))
                &&& self.reliable() ==> (r matches Err(e) ==> (e == Error::NotFound || (e
                    == Error::AlreadyExists && ambiguous_name(self.users(), name@))))
            }),
    ;

    /// Stores a new user and gives it its identifier. A second user with
    /// the same address is refused with `AlreadyExists`.
    fn create(&mut self, user: &mut User) -> (r: Result<(), Error>)
        ensures
            final(self).modelled() == old(self).modelled(),
            old(self).modelled() ==> ({
                &&& users_wf(final(self).users())
                &&& r is Ok
                    ==> user_created(old(self).users(), old(user)@, final(self).users(), final(user)@)
                &&& r is Err ==> final(self).users() == old(self).users()
                    && final(user)@ == old(user)@
                &&& r matches Err(e) ==> (e == Error::AlreadyExists ==> has_email(
                        old(self).users(),
                        old(user)@.credentials.email,
                    ))
                &&& old(self).reliable() ==> (r matches Err(e) ==> e == Error::AlreadyExists)
            }),
    ;

    /// Stores the state of a user that the store holds. An unknown user
    /// is refused with `NotFound`, an address of another user with
    /// `AlreadyExists`.
    fn save(&mut self, user: &User) -> (r: Result<(), Error>)
        ensures
            final(self).reliable() == old(self).reliable(),
            final(self).modelled() == old(self).modelled(),
            old(self).modelled() ==> ({
                &&& users_wf(final(self).users())
                &&& r is Ok ==> can_save_user(old(self).users(), user@) && final(self).users() == old(
                        self,
                    ).users().insert(user@.id, user@)
                &&& r is Err ==> final(self).users() == old(self).users()
                &&& r matches Err(e) ==> (e == Error::NotFound
                    ==> !old(self).users().contains_key(user@.id))
                &&& old(self).reliable() ==> (r matches Err(e)
                    ==> !can_save_user(old(self).users(), user@)
                    && (e == Error::NotFound || e == Error::AlreadyExists))
            }),
    ;

    /// Removes a user from the store.
    fn delete(&mut self, user: &User) -> (r: Result<(), Error>)
        ensures
            final(self).reliable() == old(self).reliable(),
            final(self).modelled() == old(self).modelled(),
            old(self).modelled() ==> ({
                &&& users_wf(final(self).users())
                &&& r is Ok ==> old(self).users().contains_key(user@.id) && final(self).users() == old(
                        self,
                    ).users().remove(user@.id)
                &&& r is Err ==> final(self).users() == old(self).users()
                &&& r matches Err(e) ==> (e == Error::NotFound
                    ==> !old(self).users().contains_key(user@.id))
                &&& old(self).reliable() ==> (r matches Err(e) ==> e == Error::NotFound)
            }),
    ;
}

/// A message to a user, as a mathematical value.
pub enum MailView {
    /// Asks to confirm an address with the verification token `token`.
    Verification { to: Seq<char>, token: Seq<char> },
    /// Carries the reset token `token`.
    Reset { to: Seq<char>, token: Seq<char> },
}

/// The outbound mail. Delivery is best-effort; a failure is reported.
pub trait MailService {
    /// Does the service say what it was handed? Of a service that does
    /// not, the contracts below promise nothing.
    open spec fn modelled(&self) -> bool {
        false
    }

    /// The messages handed over for delivery, oldest first.
    open spec fn sent(&self) -> Seq<MailView> {
        Seq::empty()
    }

    /// Does the service never fail?
    open spec fn reliable(&self) -> bool {
        false
    }

    /// Sends the token that confirms the address `email` to it.
    fn send_credentials_verification_email(&mut self, email: &Email, token: &str) -> (r: Result<
        (),
        Error,
    >)
        ensures
            final(self).reliable() == old(self).reliable(),
            final(self).modelled() == old(self).modelled(),
            old(self).modelled() ==> ({
                &&& r is Ok ==> final(self).sent() == old(self).sent().push(
                        MailView::Verification { to: email@, token: token@ },
                    )
                &&& r is Err ==> final(self).sent() == old(self).sent()
                &&& old(self).reliable() ==> r is Ok
            }),
    ;

    /// Sends the token that resets the password to the address `email`.
    fn send_reset_email(&mut self, email: &Email, token: &str) -> (r: Result<(), Error>)
        ensures
            final(self).reliable() == old(self).reliable(),
            final(self).modelled() == old(self).modelled(),
            old(self).modelled() ==> ({
                &&& r is Ok ==> final(self).sent() == old(self).sent().push(
                        MailView::Reset { to: email@, token: token@ },
                    )
                &&& r is Err ==> final(self).sent() == old(self).sent()
                &&& old(self).reliable() ==> r is Ok
            }),
    ;
}

/// What happened to a user, as a mathematical value.
pub enum EventView {
    Created(UserView),
    Deleted(UserView),
}

/// The publication of what happens to users.
pub trait EventService {
    /// Does the service say what it published? Of a service that does
    /// not, the contracts below promise nothing.
    open spec fn modelled(&self) -> bool {
        false
    }

    /// The events published, oldest first.
    open spec fn emitted(&self) -> Seq<EventView> {
        Seq::empty()
    }

    /// Does the service never fail?
    open spec fn reliable(&self) -> bool {
        false
    }

    /// Publishes that `user` was created.
    fn emit_user_created(&mut self, user: &User) -> (r: Result<(), Error>)
        ensures
            final(self).reliable() == old(self).reliable(),
            final(self).modelled() == old(self).modelled(),
            old(self).modelled() ==> ({
                &&& r is Ok
                    ==> final(self).emitted() == old(self).emitted().push(EventView::Created(user@))
                &&& r is Err ==> final(self).emitted() == old(self).emitted()
                &&& old(self).reliable() ==> r is Ok
            }),
    ;

    /// Publishes that `user` was deleted.
    fn emit_user_deleted(&mut self, user: &User) -> (r: Result<(), Error>)
        ensures
            final(self).reliable() == old(self).reliable(),
            final(self).modelled() == old(self).modelled(),
            old(self).modelled() ==> ({
                &&& r is Ok
                    ==> final(self).emitted() == old(self).emitted().push(EventView::Deleted(user@))
                &&& r is Err ==> final(self).emitted() == old(self).emitted()
                &&& old(self).reliable() ==> r is Ok
            }),
    ;
}

/// The user with the address `email`, where there is one.
pub open spec fn user_by_email(users: Users, email: Seq<char>) -> UserView {
    users[choose|id: i64| #[trigger] users.contains_key(id) && users[id].credentials.email == email]
}

/// The user with the name `name`, where there is one.
pub open spec fn user_by_name(users: Users, name: Seq<char>) -> UserView {
    users[choose|id: i64| #[trigger] is_named(users, id, name)]
}

/// A user that is found by its address is the user with that address.
pub proof fn lemma_user_by_email(users: Users, found: UserView)
    requires
        users_wf(users),
        users.contains_key(found.id),
        users[found.id] == found,
    ensures
        has_email(users, found.credentials.email),
        user_by_email(users, found.credentials.email) == found,
{
    let email = found.credentials.email;
    let id = choose|id: i64| #[trigger] users.contains_key(id) && users[id].credentials.email == email;
    assert(users.contains_key(found.id));
}

/// A user that is found by its name, where no other has it, is the user
/// with that name.
pub proof fn lemma_user_by_name(users: Users, found: UserView, name: Seq<char>)
    requires
        is_named(users, found.id, name),
        users[found.id] == found,
        !ambiguous_name(users, name),
    ensures
        has_name(users, name),
        user_by_name(users, name) == found,
{
    let id = choose|id: i64| #[trigger] is_named(users, id, name);
    if id != found.id {
        assert(is_named(users, id, name) && is_named(users, found.id, name));
    }
}

/// Everything that the user application keeps or hands on, as one
/// mathematical value.
pub struct World {
    /// The users in the repository.
    pub users: Users,
    /// The secrets in the repository.
    pub secrets: Secrets,
    /// The liveness records of the token service.
    pub tokens: Entries,
    /// The records that wait in the cache to be committed.
    pub pending: Entries,
    /// The mails handed over for delivery.
    pub sent: Seq<MailView>,
    /// The events published.
    pub emitted: Seq<EventView>,
}

/// The user application: the flows of signup, login, password reset,
/// deletion and multi-factor enrolment over the collaborators that it is
/// given.
pub struct UserApplication<
    U: UserRepository,
    S: SecretRepository,
    C: Cache,
    M: MailService,
    B: EventService,
> {
    pub user_repo: U,
    pub secret_repo: S,
    pub token_srv: TokenService<C>,
    pub mfa_srv: MfaService,
    pub mail_srv: M,
    pub event_srv: B,
    /// Where credentials and reset intents wait to be committed.
    pub cache: C,
    /// How many random bytes a salt has.
    pub hash_length: usize,
    /// The pepper: a suffix that every password gets before it is hashed.
    pub pwd_sufix: String,
}

impl<
    U: UserRepository,
    S: SecretRepository,
    C: Cache,
    M: MailService,
    B: EventService,
> UserApplication<U, S, C, M, B> {
    /// Everything that the application keeps or hands on.
    pub open spec fn world(&self) -> World {
        World {
            users: self.user_repo.users(),
            secrets: self.secret_repo.secrets(),
            tokens: self.token_srv.cache.entries(),
            pending: self.cache.entries(),
            sent: self.mail_srv.sent(),
            emitted: self.event_srv.emitted(),
        }
    }

    /// Do all the collaborators say what they hold? The contracts of the flows
    /// speak of an application whose collaborators do.
    pub open spec fn modelled(&self) -> bool {
        &&& self.user_repo.modelled()
        &&& self.secret_repo.modelled()
        &&& self.token_srv.cache.modelled()
        &&& self.cache.modelled()
        &&& self.mail_srv.modelled()
        &&& self.event_srv.modelled()
    }

    /// Does nothing but their contents make the collaborators fail?
    pub open spec fn reliable(&self) -> bool {
        &&& self.user_repo.reliable()
        &&& self.secret_repo.reliable()
        &&& self.token_srv.cache.reliable()
        &&& self.cache.reliable()
        &&& self.mail_srv.reliable()
        &&& self.event_srv.reliable()
    }

    /// Is the application set up as `other` is: the same keys, lifetimes,
    /// pepper and lengths, and caches and services that are as reliable?
    pub open spec fn same_setup(&self, other: &Self) -> bool {
        &&& self.token_srv.key == other.token_srv.key
        &&& self.token_srv.timeouts == other.token_srv.timeouts
        &&& self.mfa_srv.seed_length == other.mfa_srv.seed_length
        &&& self.hash_length == other.hash_length
        &&& self.pwd_sufix@ == other.pwd_sufix@
        &&& self.token_srv.cache.reliable() == other.token_srv.cache.reliable()
        &&& self.cache.reliable() == other.cache.reliable()
        &&& self.mail_srv.reliable() == other.mail_srv.reliable()
        &&& self.event_srv.reliable() == other.event_srv.reliable()
    }
}

} // verus!
