//! A repository of secrets in the memory of the process.

use vstd::prelude::*;
use crate::assoc::{
    as_map, lemma_map_absent, lemma_map_get, lemma_map_push, lemma_map_remove, lemma_map_update,
    unique,
};
use crate::result::Error;
use crate::secret::domain::{
    has_secret, is_secret_of, secrets_wf, Secret, SecretKind, SecretRepository, SecretView,
    Secrets,
};
use crate::text::{i64_to_string, integer_text, lemma_integer_text, same_text};

verus! {

/// The identifiers of `secrets`, in their order.
pub open spec fn secret_ids(secrets: Seq<Secret>) -> Seq<Seq<char>> {
    Seq::new(secrets.len(), |i: int| secrets[i].id@)
}

/// The values of `secrets`, in their order.
pub open spec fn secret_views(secrets: Seq<Secret>) -> Seq<SecretView> {
    Seq::new(secrets.len(), |i: int| secrets[i]@)
}

/// Is `id` the identifier that the repository gives the secret of
/// `owner`: the numeral of the owner, who has one secret of the one kind
/// there is?
pub open spec fn is_key(id: Seq<char>, owner: i64) -> bool {
    id == integer_text(owner as int)
}

/// What the repository keeps true of its secrets: no identifier occurs
/// twice, each is the one that the repository gives, and an owner has at
/// most one secret of a kind.
pub open spec fn secrets_kept(secrets: Seq<Secret>) -> bool {
    &&& unique(secret_ids(secrets))
    &&& forall|i: int| 0 <= i < secrets.len() ==> is_key(#[trigger] secrets[i].id@, secrets[i].owner)
    &&& forall|i: int, j: int|
        0 <= i < j < secrets.len() ==> !(#[trigger] secrets[i].owner == #[trigger] secrets[j].owner
            && secrets[i].kind == secrets[j].kind)
}

/// The map of `secrets`.
pub open spec fn secrets_map(secrets: Seq<Secret>) -> Secrets {
    as_map(secret_ids(secrets), secret_views(secrets))
}

/// Every secret of the map stands somewhere in the sequence.
proof fn lemma_secret_at(secrets: Seq<Secret>, id: Seq<char>) -> (i: int)
    requires
        unique(secret_ids(secrets)),
        secrets_map(secrets).contains_key(id),
    ensures
        0 <= i < secrets.len(),
        secrets[i].id@ == id,
        secrets_map(secrets)[id] == secrets[i]@,
{
    let ids = secret_ids(secrets);
    assert(ids.contains(id));
    let i = choose|i: int| 0 <= i < ids.len() && ids[i] == id;
    lemma_map_get(ids, secret_views(secrets), i);
    i
}

/// Every secret of the sequence is in the map.
proof fn lemma_secret_in(secrets: Seq<Secret>, i: int)
    requires
        unique(secret_ids(secrets)),
        0 <= i < secrets.len(),
    ensures
        secrets_map(secrets).contains_key(secrets[i].id@),
        secrets_map(secrets)[secrets[i].id@] == secrets[i]@,
{
    lemma_map_get(secret_ids(secrets), secret_views(secrets), i);
}

/// What the repository keeps true of its sequence holds of its map.
proof fn lemma_secrets_wf(secrets: Seq<Secret>)
    requires
        secrets_kept(secrets),
    ensures
        secrets_wf(secrets_map(secrets)),
{
    let m = secrets_map(secrets);
    assert forall|id: Seq<char>| #[trigger] m.contains_key(id) implies id.len() > 0 && m[id].id
        == id by {
        let i = lemma_secret_at(secrets, id);
        assert(is_key(secrets[i].id@, secrets[i].owner));
        lemma_integer_text(secrets[i].owner as int);
    }
    assert forall|a: Seq<char>, b: Seq<char>|
        #[trigger] m.contains_key(a) && #[trigger] m.contains_key(b) && m[a].owner == m[b].owner
            && m[a].kind == m[b].kind implies a == b by {
        let i = lemma_secret_at(secrets, a);
        let j = lemma_secret_at(secrets, b);
        if i < j {
            assert(!(secrets[i].owner == secrets[j].owner && secrets[i].kind == secrets[j].kind));
        } else if j < i {
            assert(!(secrets[j].owner == secrets[i].owner && secrets[j].kind == secrets[i].kind));
        }
    }
}

/// An owner whose secret of a kind stands nowhere in the sequence has none.
proof fn lemma_no_secret(secrets: Seq<Secret>, owner: i64, kind: SecretKind)
    requires
        unique(secret_ids(secrets)),
        forall|i: int|
            0 <= i < secrets.len() ==> !(#[trigger] secrets[i].owner == owner && secrets[i].kind
                == kind),
    ensures
        !has_secret(secrets_map(secrets), owner, kind),
{
    let m = secrets_map(secrets);
    if has_secret(m, owner, kind) {
        let id = choose|id: Seq<char>| is_secret_of(m, id, owner, kind);
        let i = lemma_secret_at(secrets, id);
        assert(!(secrets[i].owner == owner && secrets[i].kind == kind));
    }
}

/// Are the two kinds the same?
fn same_kind(a: SecretKind, b: SecretKind) -> (same: bool)
    ensures
        same == (a == b),
{
    match (a, b) {
        (SecretKind::Totp, SecretKind::Totp) => true,
    }
}

/// A repository of secrets in the memory of the process. It can be taken
/// offline, after which every operation fails with `Debug`.
pub struct InMemorySecretRepository {
    secrets: Vec<Secret>,
    offline: bool,
}

impl InMemorySecretRepository {
    #[verifier::type_invariant]
    spec fn inv(self) -> bool {
        secrets_kept(self.secrets@)
    }

    /// An empty repository.
    pub fn new() -> (repo: InMemorySecretRepository)
        ensures
            repo.secrets() == Map::<Seq<char>, SecretView>::empty(),
            repo.reliable(),
    {
        let repo = InMemorySecretRepository { secrets: Vec::new(), offline: false };
        proof {
            assert(repo.secrets() =~= Map::<Seq<char>, SecretView>::empty());
        }
        repo
    }

    /// Takes the repository offline or online again; its secrets stay.
    pub fn set_offline(&mut self, offline: bool)
        ensures
            final(self).secrets() == old(self).secrets(),
            final(self).reliable() == !offline,
    {
        proof {
            use_type_invariant(&*self);
        }
        self.offline = offline;
    }

    /// How many secrets the repository holds.
    pub fn len(&self) -> (n: usize)
        ensures
            n == self.secrets().dom().len(),
    {
        proof {
            use_type_invariant(self);
            let ids = secret_ids(self.secrets@);
            crate::assoc::lemma_map_finite(ids, secret_views(self.secrets@));
            ids.unique_seq_to_set();
        }
        self.secrets.len()
    }

    /// Where the secret `id` stands, or the number of secrets where it
    /// does not.
    fn position(&self, id: &str) -> (at: usize)
        ensures
            at <= self.secrets@.len(),
            at < self.secrets@.len() ==> self.secrets@[at as int].id@ == id@
                && self.secrets().contains_key(id@) && self.secrets()[id@]
                == self.secrets@[at as int]@,
            at == self.secrets@.len() ==> !self.secrets().contains_key(id@),
    {
        let mut i: usize = 0;
        while i < self.secrets.len()
            invariant
                i <= self.secrets@.len(),
                forall|k: int| 0 <= k < i ==> self.secrets@[k].id@ != id@,
            decreases self.secrets@.len() - i,
        {
            if same_text(self.secrets[i].id.as_str(), id) {
                proof {
                    use_type_invariant(self);
                    lemma_secret_in(self.secrets@, i as int);
                }
                return i;
            }
            i = i + 1;
        }
        proof {
            let ids = secret_ids(self.secrets@);
            assert forall|k: int| 0 <= k < ids.len() implies ids[k] != id@ by {
                assert(ids[k] == self.secrets@[k].id@);
            }
            lemma_map_absent(ids, secret_views(self.secrets@), id@);
        }
        i
    }

    /// Where the secret of `kind` of `owner` stands, or the number of
    /// secrets where there is none.
    fn owner_position(&self, owner: i64, kind: SecretKind) -> (at: usize)
        ensures
            at <= self.secrets@.len(),
            at < self.secrets@.len() ==> self.secrets@[at as int].owner == owner
                && self.secrets@[at as int].kind == kind,
            at == self.secrets@.len() ==> forall|k: int|
                0 <= k < self.secrets@.len() ==> !(#[trigger] self.secrets@[k].owner == owner
                    && self.secrets@[k].kind == kind),
    {
        let mut i: usize = 0;
        while i < self.secrets.len()
            invariant
                i <= self.secrets@.len(),
                forall|k: int|
                    0 <= k < i ==> !(#[trigger] self.secrets@[k].owner == owner
                        && self.secrets@[k].kind == kind),
            decreases self.secrets@.len() - i,
        {
            if self.secrets[i].owner == owner && same_kind(self.secrets[i].kind, kind) {
                return i;
            }
            i = i + 1;
        }
        i
    }
}

impl SecretRepository for InMemorySecretRepository {
    open spec fn modelled(&self) -> bool {
        true
    }

    closed spec fn secrets(&self) -> Secrets {
        secrets_map(self.secrets@)
    }

    closed spec fn reliable(&self) -> bool {
        !self.offline
    }

    fn find(&self, id: &str) -> (r: Result<Secret, Error>)
    {
        proof {
            use_type_invariant(self);
            lemma_secrets_wf(self.secrets@);
        }
        if self.offline {
            return Err(Error::Debug);
        }
        let at = self.position(id);
        if at < self.secrets.len() {
            Ok(self.secrets[at].duplicate())
        } else {
            Err(Error::NotFound)
        }
    }

    fn find_by_owner_and_kind(&self, owner: i64, kind: SecretKind) -> (r: Result<Secret, Error>)
    {
        proof {
            use_type_invariant(self);
            lemma_secrets_wf(self.secrets@);
        }
        if self.offline {
            return Err(Error::Debug);
        }
        let at = self.owner_position(owner, kind);
        if at < self.secrets.len() {
            proof {
                lemma_secret_in(self.secrets@, at as int);
            }
            Ok(self.secrets[at].duplicate())
        } else {
            proof {
                lemma_no_secret(self.secrets@, owner, kind);
            }
            Err(Error::NotFound)
        }
    }

    fn create(&mut self, secret: &mut Secret) -> (r: Result<(), Error>)
    {
        proof {
            use_type_invariant(&*self);
            lemma_secrets_wf(self.secrets@);
        }
        if self.offline {
            return Err(Error::Debug);
        }
        let taken = self.owner_position(secret.owner, secret.kind);
        if taken < self.secrets.len() {
            proof {
                lemma_secret_in(self.secrets@, taken as int);
                assert(is_secret_of(
                    self.secrets(),
                    self.secrets@[taken as int].id@,
                    secret.owner,
                    secret.kind,
                ));
            }
            return Err(Error::AlreadyExists);
        }
        let ghost before = self.secrets@;
        secret.id = i64_to_string(secret.owner);
        let stored = secret.duplicate();
        proof {
            lemma_integer_text(secret.owner as int);
            lemma_no_secret(before, secret.owner, secret.kind);
            let ids = secret_ids(before);
            assert forall|k: int| 0 <= k < ids.len() implies ids[k] != stored@.id by {
                assert(is_key(before[k].id@, before[k].owner));
                assert(!(before[k].owner == secret.owner && before[k].kind == secret.kind));
                assert(before[k].kind == secret.kind) by {
                    assert(before[k].kind is Totp && secret.kind is Totp);
                }
                lemma_integer_text(before[k].owner as int);
            }
            lemma_map_absent(ids, secret_views(before), stored@.id);
            lemma_map_push(ids, secret_views(before), stored@.id, stored@);
        }
        let mut secrets: Vec<Secret> = Vec::new();
        core::mem::swap(&mut secrets, &mut self.secrets);
        secrets.push(stored);
        proof {
            assert(secret_ids(secrets@) =~= secret_ids(before).push(stored@.id));
            assert(secret_views(secrets@) =~= secret_views(before).push(stored@));
            assert forall|i: int| 0 <= i < secrets@.len() implies is_key(
                #[trigger] secrets@[i].id@,
                secrets@[i].owner,
            ) by {
                if i < before.len() {
                    assert(is_key(before[i].id@, before[i].owner));
                }
            }
            assert forall|i: int, j: int| 0 <= i < j < secrets@.len() implies !(
            #[trigger] secrets@[i].owner == #[trigger] secrets@[j].owner && secrets@[i].kind
                == secrets@[j].kind) by {
                if j < before.len() {
                    assert(!(before[i].owner == before[j].owner && before[i].kind
                        == before[j].kind));
                } else {
                    assert(!(before[i].owner == stored.owner && before[i].kind == stored.kind));
                }
            }
        }
        self.secrets = secrets;
        proof {
            lemma_secrets_wf(self.secrets@);
        }
        Ok(())
    }

    fn save(&mut self, secret: &Secret) -> (r: Result<(), Error>)
    {
        proof {
            use_type_invariant(&*self);
            lemma_secrets_wf(self.secrets@);
        }
        if self.offline {
            return Err(Error::Debug);
        }
        let at = self.position(secret.id.as_str());
        if at >= self.secrets.len() {
            return Err(Error::NotFound);
        }
        if self.secrets[at].owner != secret.owner || !same_kind(self.secrets[at].kind, secret.kind) {
            return Err(Error::NotFound);
        }
        let ghost before = self.secrets@;
        let stored = secret.duplicate();
        proof {
            lemma_map_update(secret_ids(before), secret_views(before), at as int, stored@);
        }
        let mut secrets: Vec<Secret> = Vec::new();
        core::mem::swap(&mut secrets, &mut self.secrets);
        secrets.set(at, stored);
        proof {
            assert(secret_ids(secrets@) =~= secret_ids(before));
            assert(secret_views(secrets@) =~= secret_views(before).update(at as int, stored@));
            assert forall|i: int| 0 <= i < secrets@.len() implies is_key(
                #[trigger] secrets@[i].id@,
                secrets@[i].owner,
            ) by {
                assert(secrets@[i].id@ == before[i].id@);
                assert(is_key(before[i].id@, before[i].owner));
                assert(secrets@[i].owner == before[i].owner);
            }
            assert forall|i: int, j: int| 0 <= i < j < secrets@.len() implies !(
            #[trigger] secrets@[i].owner == #[trigger] secrets@[j].owner && secrets@[i].kind
                == secrets@[j].kind) by {
                assert(secrets@[i].owner == before[i].owner && secrets@[i].kind == before[i].kind);
                assert(secrets@[j].owner == before[j].owner && secrets@[j].kind == before[j].kind);
                assert(!(before[i].owner == before[j].owner && before[i].kind == before[j].kind));
            }
        }
        self.secrets = secrets;
        proof {
            lemma_secrets_wf(self.secrets@);
        }
        Ok(())
    }

    fn delete(&mut self, secret: &Secret) -> (r: Result<(), Error>)
    {
        proof {
            use_type_invariant(&*self);
            lemma_secrets_wf(self.secrets@);
        }
        if self.offline {
            return Err(Error::Debug);
        }
        let at = self.position(secret.id.as_str());
        if at >= self.secrets.len() {
            return Err(Error::NotFound);
        }
        let ghost before = self.secrets@;
        proof {
            lemma_map_remove(secret_ids(before), secret_views(before), at as int);
        }
        let mut secrets: Vec<Secret> = Vec::new();
        core::mem::swap(&mut secrets, &mut self.secrets);
        secrets.remove(at);
        proof {
            assert(secret_ids(secrets@) =~= secret_ids(before).remove(at as int));
            assert(secret_views(secrets@) =~= secret_views(before).remove(at as int));
            assert forall|i: int| 0 <= i < secrets@.len() implies is_key(
                #[trigger] secrets@[i].id@,
                secrets@[i].owner,
            ) by {
                let i1 = if i < at {
                    i
                } else {
                    i + 1
                };
                assert(secrets@[i].id@ == before[i1].id@);
                assert(is_key(before[i1].id@, before[i1].owner));
                assert(secrets@[i].owner == before[i1].owner);
            }
            assert forall|i: int, j: int| 0 <= i < j < secrets@.len() implies !(
            #[trigger] secrets@[i].owner == #[trigger] secrets@[j].owner && secrets@[i].kind
                == secrets@[j].kind) by {
                let i1 = if i < at {
                    i
                } else {
                    i + 1
                };
                let j1 = if j < at {
                    j
                } else {
                    j + 1
                };
                assert(secrets@[i] == before[i1] && secrets@[j] == before[j1]);
                assert(!(before[i1].owner == before[j1].owner && before[i1].kind
                    == before[j1].kind));
            }
        }
        self.secrets = secrets;
        proof {
            lemma_secrets_wf(self.secrets@);
        }
        Ok(())
    }
}

} // verus!
