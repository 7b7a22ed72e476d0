//! A secret: opaque cryptographic material that belongs to a user, such as
//! the seed of a one-time password.

use vstd::prelude::*;
use crate::result::Error;

verus! {

/// What a secret is for.
#[derive(Clone, Copy, Debug, PartialEq, Eq, Structural)]
pub enum SecretKind {
    /// The seed of a time-based one-time password.
    Totp,
}

/// A secret, as a mathematical value.
pub struct SecretView {
    pub id: Seq<char>,
    pub owner: i64,
    pub kind: SecretKind,
    pub data: Seq<u8>,
}

/// A secret. The identifier is empty until a repository has created it.
#[derive(Debug)]
pub struct Secret {
    pub id: String,
    pub owner: i64,
    pub kind: SecretKind,
    pub data: Vec<u8>,
}

impl View for Secret {
    type V = SecretView;

    open spec fn view(&self) -> SecretView {
        SecretView { id: self.id@, owner: self.owner, kind: self.kind, data: self.data@ }
    }
}

/// Where secrets are kept. There is at most one secret of a kind for an
/// owner.
///
/// The contracts speak of a store that says what it holds (`modelled`):
/// they state what holds of each outcome, and are exact for a store that
/// is reliable, which nothing but its contents makes fail.
pub trait SecretRepository {
    /// Does the store say what it holds? Of a store that does not, the
    /// contracts below promise nothing.
    open spec fn modelled(&self) -> bool {
        false
    }

    /// The secrets in the store, by identifier.
    open spec fn secrets(&self) -> Map<Seq<char>, SecretView> {
        Map::empty()
    }

    /// Does nothing but its contents make the store fail?
    open spec fn reliable(&self) -> bool {
        false
    }

    /// The secret with the identifier `id`.
    fn find(&self, id: &str) -> (r: Result<Secret, Error>)
        ensures
            self.modelled() ==> ({
                &&& secrets_wf(self.secrets())
                &&& r matches Ok(s) ==> self.secrets().contains_key(id@)
                    && s@ == self.secrets()[id@]
                &&& r matches Err(e) ==> (e == Error::NotFound
                    ==> !self.secrets().contains_key(id@))
                &&& self.reliable() ==> (r matches Err(e) ==> e == Error::NotFound)
            }),
    ;

    /// The secret of `kind` that belongs to `owner`.
    fn find_by_owner_and_kind(&self, owner: i64, kind: SecretKind) -> (r: Result<Secret, Error>)
        ensures
            self.modelled() ==> ({
                &&& secrets_wf(self.secrets())
                &&& r matches Ok(s) ==> s@.owner == owner && s@.kind == kind && self.secrets().contains_key(
                        s@.id,
                    ) && self.secrets()[s@.id] == s@
                &&& r matches Err(e) ==> (e == Error::NotFound
                    ==> !has_secret(self.secrets(), owner, kind))
                &&& self.reliable() ==> (r matches Err(e) ==> e == Error::NotFound)
            }),
    ;

    /// Stores a new secret and gives it its identifier. A second secret of
    /// the same kind for the same owner is refused with `AlreadyExists`.
    fn create(&mut self, secret: &mut Secret) -> (r: Result<(), Error>)
        ensures
            final(self).reliable() == old(self).reliable(),
            final(self).modelled() == old(self).modelled(),
            old(self).modelled() ==> ({
                &&& secrets_wf(final(self).secrets())
                &&& r is Ok
                    ==> created(old(self).secrets(), old(secret)@, final(self).secrets(), final(secret)@)
                &&& r is Err ==> final(self).secrets() == old(self).secrets() && final(secret)@ == old(
                        secret,
                    )@
                &&& r matches Err(e) ==> (e == Error::AlreadyExists ==> has_secret(
                        old(self).secrets(),
                        old(secret)@.owner,
                        old(secret)@.kind,
                    ))
                &&& old(self).reliable() ==> (r matches Err(e) ==> e == Error::AlreadyExists)
            }),
    ;

    /// Stores the data of a secret that the store holds.
    fn save(&mut self, secret: &Secret) -> (r: Result<(), Error>)
        ensures
            final(self).reliable() == old(self).reliable(),
            final(self).modelled() == old(self).modelled(),
            old(self).modelled() ==> ({
                &&& secrets_wf(final(self).secrets())
                &&& r is Ok ==> saved(old(self).secrets(), secret@, final(self).secrets())
                &&& r is Err ==> final(self).secrets() == old(self).secrets()
                &&& r matches Err(e) ==> (e == Error::NotFound
                    ==> !can_save(old(self).secrets(), secret@))
                &&& old(self).reliable() ==> (r matches Err(e) ==> e == Error::NotFound)
            }),
    ;

    /// Removes a secret from the store.
    fn delete(&mut self, secret: &Secret) -> (r: Result<(), Error>)
        ensures
            final(self).reliable() == old(self).reliable(),
            final(self).modelled() == old(self).modelled(),
            old(self).modelled() ==> ({
                &&& secrets_wf(final(self).secrets())
                &&& r is Ok ==> old(self).secrets().contains_key(secret@.id) && final(self).secrets() == old(
                        self,
                    ).secrets().remove(secret@.id)
                &&& r is Err ==> final(self).secrets() == old(self).secrets()
                &&& r matches Err(e) ==> (e == Error::NotFound ==> !old(self).secrets().contains_key(
                        secret@.id,
                    ))
                &&& old(self).reliable() ==> (r matches Err(e) ==> e == Error::NotFound)
            }),
    ;
}

/// The secrets of a store, by identifier.
pub type Secrets = Map<Seq<char>, SecretView>;

/// Is `id` the secret of `kind` of `owner`?
pub open spec fn is_secret_of(secrets: Secrets, id: Seq<char>, owner: i64, kind: SecretKind) -> bool {
    secrets.contains_key(id) && secrets[id].owner == owner && secrets[id].kind == kind
}

/// What holds of the secrets of every store: each is kept under its
/// identifier, which is not empty, and an owner has at most one of a kind.
pub open spec fn secrets_wf(secrets: Secrets) -> bool {
    &&& forall|id: Seq<char>| #[trigger]
        secrets.contains_key(id) ==> id.len() > 0 && secrets[id].id == id
    &&& forall|a: Seq<char>, b: Seq<char>|
        #[trigger] secrets.contains_key(a) && #[trigger] secrets.contains_key(b) && secrets[a].owner
            == secrets[b].owner && secrets[a].kind == secrets[b].kind ==> a == b
}

/// The secret of `kind` of `owner`, where there is one.
pub open spec fn secret_of(secrets: Secrets, owner: i64, kind: SecretKind) -> SecretView {
    secrets[choose|id: Seq<char>| is_secret_of(secrets, id, owner, kind)]
}

/// Where no owner has two secrets of a kind, the secret of a kind of an
/// owner is the one that is found.
pub proof fn lemma_secret_of(secrets: Secrets, found: SecretView)
    requires
        secrets_wf(secrets),
        secrets.contains_key(found.id),
        secrets[found.id] == found,
    ensures
        has_secret(secrets, found.owner, found.kind),
        secret_of(secrets, found.owner, found.kind) == found,
{
    assert(is_secret_of(secrets, found.id, found.owner, found.kind));
    let id = choose|id: Seq<char>| is_secret_of(secrets, id, found.owner, found.kind);
    assert(secrets.contains_key(id) && secrets.contains_key(found.id));
}

/// Where no owner has two secrets of a kind, an owner whose secret of a
/// kind is removed has none of that kind.
pub proof fn lemma_secret_removed(secrets: Secrets, owner: i64, kind: SecretKind)
    requires
        secrets_wf(secrets),
        has_secret(secrets, owner, kind),
    ensures
        !has_secret(secrets.remove(secret_of(secrets, owner, kind).id), owner, kind),
{
    let id = choose|id: Seq<char>| is_secret_of(secrets, id, owner, kind);
    let after = secrets.remove(secret_of(secrets, owner, kind).id);
    assert(secrets.contains_key(id) && secrets[id].id == id);
    if has_secret(after, owner, kind) {
        let other = choose|other: Seq<char>| is_secret_of(after, other, owner, kind);
        assert(secrets.contains_key(other) && secrets.contains_key(id));
    }
}

/// Does `owner` have a secret of `kind` among `secrets`?
pub open spec fn has_secret(secrets: Secrets, owner: i64, kind: SecretKind) -> bool {
    exists|id: Seq<char>| is_secret_of(secrets, id, owner, kind)
}

/// The store went from `before` to `after` by creating `given` as `stored`:
/// the secret got a fresh identifier that is not empty, and its owner had
/// none of its kind.
pub open spec fn created(
    before: Secrets,
    given: SecretView,
    after: Secrets,
    stored: SecretView,
) -> bool {
    &&& stored == (SecretView { id: stored.id, ..given })
    &&& stored.id.len() > 0
    &&& !before.contains_key(stored.id)
    &&& !has_secret(before, given.owner, given.kind)
    &&& after == before.insert(stored.id, stored)
}

/// Can `secret` be saved over what `secrets` holds? Its identifier must be
/// known, with the same owner and kind.
pub open spec fn can_save(secrets: Secrets, secret: SecretView) -> bool {
    &&& secrets.contains_key(secret.id)
    &&& secrets[secret.id].owner == secret.owner
    &&& secrets[secret.id].kind == secret.kind
}

/// The store went from `before` to `after` by saving `secret`.
pub open spec fn saved(
    before: Secrets,
    secret: SecretView,
    after: Secrets,
) -> bool {
    can_save(before, secret) && after == before.insert(secret.id, secret)
}

impl Secret {
    /// A secret that holds `data`; it has no identifier and no owner yet.
    pub fn new(data: &[u8]) -> (secret: Secret)
        ensures
            secret@ == (SecretView {
                id: Seq::empty(),
                owner: 0,
                kind: SecretKind::Totp,
                data: data@,
            }),
    {
        Secret {
            id: String::new(),
            owner: 0,
            kind: SecretKind::Totp,
            data: vstd::slice::slice_to_vec(data),
        }
    }

    /// The same secret as the secret of `kind` of `owner`.
    pub fn with_owner(self, owner: i64, kind: SecretKind) -> (secret: Secret)
        ensures
            secret@ == (SecretView { owner, kind, ..self@ }),
    {
        Secret { id: self.id, owner, kind, data: self.data }
    }

    pub fn get_data(&self) -> (data: &[u8])
        ensures
            data@ == self@.data,
    {
        self.data.as_slice()
    }

    pub fn get_id(&self) -> (id: &str)
        ensures
            id@ == self@.id,
    {
        self.id.as_str()
    }

    /// A copy of this secret.
    pub fn duplicate(&self) -> (secret: Secret)
        ensures
            secret@ == self@,
    {
        Secret { id: self.id.clone(), owner: self.owner, kind: self.kind, data: self.data.clone() }
    }

    /// Inserts the secret into `repo`. A secret that has an identifier is
    /// in a repository already and is refused with `AlreadyExists`, the
    /// secret and the repository untouched.
    pub fn insert<R: SecretRepository>(&mut self, repo: &mut R) -> (r: Result<(), Error>)
        ensures
            old(self)@.id.len() != 0 ==> r == Err::<(), Error>(Error::AlreadyExists) && final(self)@
                == old(self)@ && *final(repo) == *old(repo),
            final(repo).modelled() == old(repo).modelled(),
            old(repo).modelled() ==> ({
                &&& r is Ok ==> old(self)@.id.len() == 0 && created(
                        old(repo).secrets(),
                        old(self)@,
                        final(repo).secrets(),
                        final(self)@,
                    )
                &&& r is Err ==> final(repo).secrets() == old(repo).secrets()
                    && final(self)@ == old(self)@
                &&& old(repo).reliable() ==> (r is Ok <==> old(self)@.id.len() == 0 && !has_secret(
                        old(repo).secrets(),
                        old(self)@.owner,
                        old(self)@.kind,
                    ))
                &&& old(repo).reliable() ==> (r matches Err(e) ==> e == Error::AlreadyExists)
            }),
    {
        if self.id.as_str().unicode_len() != 0 {
            return Err(Error::AlreadyExists);
        }
        repo.create(self)
    }

    /// Updates the secret in `repo`.
    pub fn _save<R: SecretRepository>(&self, repo: &mut R) -> (r: Result<(), Error>)
        ensures
            final(repo).reliable() == old(repo).reliable(),
            final(repo).modelled() == old(repo).modelled(),
            old(repo).modelled() ==> ({
                &&& r is Ok ==> saved(old(repo).secrets(), self@, final(repo).secrets())
                &&& r is Err ==> final(repo).secrets() == old(repo).secrets()
                &&& old(repo).reliable() ==> (r is Ok <==> can_save(old(repo).secrets(), self@))
                &&& old(repo).reliable() ==> (r matches Err(e) ==> e == Error::NotFound)
            }),
    {
        repo.save(self)
    }

    /// Deletes the secret from `repo`.
    pub fn delete<R: SecretRepository>(&self, repo: &mut R) -> (r: Result<(), Error>)
        ensures
            final(repo).reliable() == old(repo).reliable(),
            final(repo).modelled() == old(repo).modelled(),
            old(repo).modelled() ==> ({
                &&& r is Ok ==> old(repo).secrets().contains_key(self@.id) && final(repo).secrets() == old(
                        repo,
                    ).secrets().remove(self@.id)
                &&& r is Err ==> final(repo).secrets() == old(repo).secrets()
                &&& old(repo).reliable()
                    ==> (r is Ok <==> old(repo).secrets().contains_key(self@.id))
                &&& old(repo).reliable() ==> (r matches Err(e) ==> e == Error::NotFound)
            }),
    {
        repo.delete(self)
    }
}

} // verus!
