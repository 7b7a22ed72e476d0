//! The deletion of a user by the user: the secrets go first, then the
//! user, then the news of it.

use vstd::prelude::*;
use crate::cache::Cache;
use crate::mfa::service::{mfa_enabled, otp_view};
use crate::result::Error;
use crate::secret::domain::{
    has_secret, is_secret_of, lemma_secret_of, secret_of, secrets_wf, SecretKind,
    SecretRepository, Secrets,
};
use crate::user::application::login::{
    authenticate, authentication, credentials_hold, identified, lemma_removed_is_not_identified,
};
use crate::user::application::{
    EventService, EventView, MailService, UserApplication, UserRepository, World,
};
use crate::user::domain::UserView;

verus! {

/// The secrets without those of the user `owner`.
pub open spec fn without_secrets_of(secrets: Secrets, owner: i64) -> Secrets {
    if has_secret(secrets, owner, SecretKind::Totp) {
        secrets.remove(secret_of(secrets, owner, SecretKind::Totp).id)
    } else {
        secrets
    }
}

/// Where an owner has at most one secret of a kind, none is left once
/// those of the owner are taken out.
pub proof fn lemma_without_secrets_of(secrets: Secrets, owner: i64)
    requires
        secrets_wf(secrets),
    ensures
        forall|kind: SecretKind| !has_secret(without_secrets_of(secrets, owner), owner, kind),
{
    let after = without_secrets_of(secrets, owner);
    assert forall|kind: SecretKind| !has_secret(after, owner, kind) by {
        if has_secret(after, owner, kind) {
            let id = choose|id: Seq<char>| is_secret_of(after, id, owner, kind);
            assert(kind == SecretKind::Totp);
            assert(is_secret_of(secrets, id, owner, kind));
            let id0 = choose|id: Seq<char>| is_secret_of(secrets, id, owner, SecretKind::Totp);
            assert(secrets.contains_key(id) && secrets.contains_key(id0));
            assert(id == id0);
            assert(secrets[id0].id == id0);
        }
    }
}

impl<
    U: UserRepository,
    S: SecretRepository,
    C: Cache,
    M: MailService,
    B: EventService,
> UserApplication<U, S, C, M, B> {
    /// Everything after `user` was deleted: the user and the secrets of
    /// the user are gone, and that is published.
    pub open spec fn after_delete(&self, user: UserView) -> World {
        World {
            users: self.world().users.remove(user.id),
            secrets: without_secrets_of(self.world().secrets, user.id),
            emitted: self.world().emitted.push(EventView::Deleted(user)),
            ..self.world()
        }
    }

    /// What deleting the user that `ident` identifies at `now` comes to:
    /// the outcome `r` and the world `after`. Tokens, pending records and
    /// mails stay; a failed authentication changes nothing; a success
    /// leaves neither the user nor a secret of the user; and with
    /// reliable collaborators the outcome is that of the authentication.
    pub open spec fn delete_comes_to(
        &self,
        ident: Seq<char>,
        password: Seq<char>,
        otp: Option<Seq<char>>,
        now: u64,
        r: Result<(), Error>,
        after: World,
    ) -> bool {
        let who = authentication(
            self.world().users,
            self.world().secrets,
            self.pwd_sufix@,
            ident,
            password,
            otp,
            now,
        );
        &&& after.tokens == self.world().tokens
        &&& after.pending == self.world().pending
        &&& after.sent == self.world().sent
        &&& r is Ok ==> {
            &&& who is Ok
            &&& after == self.after_delete(who->Ok_0)
            &&& !after.users.contains_key(who->Ok_0.id)
            &&& identified(after.users, ident) is None
            &&& forall|kind: SecretKind| !has_secret(after.secrets, who->Ok_0.id, kind)
        }
        &&& (r matches Err(e) && e != Error::Debug) ==> after == self.world()
        &&& self.reliable() ==> match who {
            Ok(_) => r is Ok,
            Err(e) => r == Err::<(), Error>(e),
        }
    }

    /// Deletes, at `now`, the user that `ident` identifies, who must bring
    /// the password and, where one is asked for, the one-time password:
    /// first the secrets of the user, then the user, then the event.
    ///
    /// Session tokens of the user are not revoked: the cache is not
    /// indexed by subject, and they expire with their lifetime. A failed
    /// authentication changes nothing; every other failure is `Debug`.
    pub fn delete_at(&mut self, ident: &str, password: &str, otp: Option<&str>, now: u64) -> (r: Result<
        (),
        Error,
    >)
        ensures
            final(self).same_setup(old(self)),
            final(self).reliable() == old(self).reliable(),
            r matches Err(e) ==> e == Error::WrongCredentials || e == Error::Unauthorized || e
                == Error::Debug,
            final(self).modelled() == old(self).modelled(),
            old(self).modelled() ==> old(self).delete_comes_to(
                ident@,
                password@,
                otp_view(otp),
                now,
                r,
                final(self).world(),
            ),
    {
        let user = match authenticate(
            &self.user_repo,
            &self.secret_repo,
            self.pwd_sufix.as_str(),
            ident,
            password,
            otp,
            now,
        ) {
            Ok(user) => user,
            Err(e) => {
                return Err(e);
            },
        };
        match self.secret_repo.find_by_owner_and_kind(user.id, SecretKind::Totp) {
            Ok(secret) => {
                proof {
                    if old(self).modelled() {
                        lemma_secret_of(self.secret_repo.secrets(), secret@);
                        lemma_without_secrets_of(self.secret_repo.secrets(), user.id);
                    }
                }
                match self.secret_repo.delete(&secret) {
                    Ok(()) => {},
                    Err(_) => {
                        return Err(Error::Debug);
                    },
                }
            },
            Err(e) => {
                if !e.not_found() {
                    return Err(Error::Debug);
                }
                proof {
                    if old(self).modelled() {
                        lemma_without_secrets_of(self.secret_repo.secrets(), user.id);
                    }
                }
            },
        }
        proof {
            if old(self).modelled() {
                lemma_removed_is_not_identified(old(self).world().users, ident@, user@);
            }
        }
        match self.user_repo.delete(&user) {
            Ok(()) => {},
            Err(_) => {
                return Err(Error::Debug);
            },
        }
        match self.event_srv.emit_user_deleted(&user) {
            Ok(()) => Ok(()),
            Err(_) => Err(Error::Debug),
        }
    }

    /// Deletes, now, the user that `ident` identifies. Whatever the time,
    /// who does not bring the password of a user is refused with
    /// `WrongCredentials`, and a user of whom no second factor is asked
    /// is deleted.
    pub fn delete(&mut self, ident: &str, password: &str, otp: Option<&str>) -> (r: Result<(), Error>)
        ensures
            final(self).same_setup(old(self)),
            final(self).reliable() == old(self).reliable(),
            r matches Err(e) ==> e == Error::WrongCredentials || e == Error::Unauthorized || e
                == Error::Debug,
            final(self).modelled() == old(self).modelled(),
            old(self).modelled() ==> ({
                &&& exists|now: u64|
                    old(self).delete_comes_to(
                        ident@,
                        password@,
                        otp_view(otp),
                        now,
                        r,
                        final(self).world(),
                    )
                &&& old(self).reliable() && !credentials_hold(
                        old(self).world().users,
                        old(self).pwd_sufix@,
                        ident@,
                        password@,
                    ) ==> r == Err::<(), Error>(Error::WrongCredentials)
                &&& old(self).reliable() && credentials_hold(
                        old(self).world().users,
                        old(self).pwd_sufix@,
                        ident@,
                        password@,
                    ) && !mfa_enabled(
                        old(self).world().secrets,
                        identified(old(self).world().users, ident@)->0,
                    ) ==> r is Ok
            }),
    {
        let now = crate::time::now();
        let r = self.delete_at(ident, password, otp, now);
        proof {
            if old(self).modelled() {
                assert(old(self).delete_comes_to(
                    ident@,
                    password@,
                    otp_view(otp),
                    now,
                    r,
                    self.world(),
                ));
            }
        }
        r
    }
}

} // verus!
