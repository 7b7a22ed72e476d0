//! Sessions kept in the memory of the process, by identifier, and the
//! identifiers of the sessions of each application.

use vstd::prelude::*;
use crate::cache::Cache;
use crate::secret::domain::SecretRepository;
use crate::session::application::{token_view, SessionApplication};
use crate::status::{answers, refused_for_header, reply, status_of, Status, TokenHeader};
use crate::user::application::UserRepository;
use crate::assoc::{
    as_map, lemma_map_absent, lemma_map_get, lemma_map_push, lemma_map_remove, lemma_map_update,
    unique,
};
use crate::crypto::{is_random_id, random_hex};
use crate::result::Error;
use crate::session::domain::{lemma_without_again, texts, without, Session, SessionView};
use crate::text::{hex_text, is_hex_char, lemma_hex_text, same_text};
use crate::token::domain::TokenKind;
use crate::token::jwt::token_payload;
use crate::user::application::login::{credentials_hold, logged_out, logout_comes_to};

verus! {

/// A call that logs a user in.
#[derive(Debug)]
pub struct LoginRequest {
    pub ident: String,
    pub pwd: String,
    pub totp: String,
    pub app: String,
}

/// The answer to a login: the session token.
#[derive(Debug)]
pub struct LoginResponse {
    pub token: String,
}

/// The answer to a login whose work came to `r`.
pub fn login_reply(r: Result<String, Error>) -> (answer: Result<LoginResponse, Status>)
    ensures
        login_answers(token_view(r), answer),
{
    match reply(r) {
        Ok(token) => Ok(LoginResponse { token }),
        Err(status) => Err(status),
    }
}

/// Is `answer` the answer to a login whose work came to `r`? The token
/// goes out as it is, an error as its status.
pub open spec fn login_answers(r: Result<Seq<char>, Error>, answer: Result<LoginResponse, Status>) -> bool {
    match r {
        Ok(token) => answer matches Ok(response) && response.token@ == token,
        Err(e) => answer matches Err(status) && status@ == status_of(e),
    }
}

/// The session service as remote callers see it: it takes calls apart,
/// hands them to the session application and puts the answers together.
pub struct SessionServiceImplementation<U: UserRepository, S: SecretRepository, C: Cache> {
    pub app: SessionApplication<U, S, C>,
}

impl<U: UserRepository, S: SecretRepository, C: Cache> SessionServiceImplementation<U, S, C> {
    pub fn new(app: SessionApplication<U, S, C>) -> (service: Self)
        ensures
            service.app == app,
    {
        SessionServiceImplementation { app }
    }

    /// Answers a login: the session token, or that the call was aborted
    /// for the reason that the application gives. The answer is that to
    /// what the login comes to at some time and under some identifier;
    /// whatever these are, who does not bring the password of a user is
    /// refused.
    pub fn login(&mut self, request: &LoginRequest) -> (answer: Result<LoginResponse, Status>)
        ensures
            answer matches Ok(response) ==> ({
                let payload = token_payload(old(self).app.token_app.key.public(), response.token@);
                &&& payload is Some
                &&& payload->0.knd == TokenKind::Session
                &&& payload->0.exp == payload->0.iat + old(self).app.token_app.timeouts.of(
                    TokenKind::Session,
                )
            }),
            answer matches Err(status) ==> status@ == status_of(Error::WrongCredentials) || status@
                == status_of(Error::Unauthorized) || status@ == status_of(Error::Debug),
            final(self).app.modelled() == old(self).app.modelled(),
            old(self).app.modelled() ==> ({
                &&& final(self).app.user_repo.users() == old(self).app.user_repo.users()
                &&& final(self).app.secret_repo.secrets() == old(self).app.secret_repo.secrets()
                &&& answer is Err ==> final(self).app.token_app.entries() == old(
                    self,
                ).app.token_app.entries()
                &&& (answer matches Err(status) && status@ == status_of(Error::Debug)) || exists|
                    now: u64,
                    jti: Seq<char>,
                    r: Result<Seq<char>, Error>,
                |
                    is_random_id(jti) && login_answers(r, answer) && old(self).app.login_comes_to(
                        request.ident@,
                        request.pwd@,
                        request.totp@,
                        now,
                        jti,
                        r,
                        final(self).app.token_app.entries(),
                    )
                &&& old(self).app.user_repo.reliable() && old(self).app.secret_repo.reliable()
                    && !credentials_hold(
                    old(self).app.user_repo.users(),
                    old(self).app.pwd_sufix@,
                    request.ident@,
                    request.pwd@,
                ) ==> (answer matches Err(status) && status@ == status_of(Error::WrongCredentials))
            }),
    {
        let r = self.app.login(
            request.ident.as_str(),
            request.pwd.as_str(),
            request.totp.as_str(),
        );
        let ghost came = token_view(r);
        let answer = login_reply(r);
        proof {
            if old(self).app.modelled() && !(came matches Err(e) && e == Error::Debug) {
                let (now, jti) = choose|now: u64, jti: Seq<char>|
                    is_random_id(jti) && old(self).app.login_comes_to(
                        request.ident@,
                        request.pwd@,
                        request.totp@,
                        now,
                        jti,
                        came,
                        self.app.token_app.entries(),
                    );
                assert(is_random_id(jti) && login_answers(came, answer) && old(
                    self,
                ).app.login_comes_to(
                    request.ident@,
                    request.pwd@,
                    request.totp@,
                    now,
                    jti,
                    came,
                    self.app.token_app.entries(),
                ));
            }
        }
        answer
    }

    /// Answers a logout. A call without the header fails its
    /// precondition; any other failure aborts it for its reason. With the
    /// header, the answer is that to what the logout with its token comes
    /// to. Nothing changes unless the call succeeds.
    pub fn logout(&mut self, header: &TokenHeader) -> (answer: Result<(), Status>)
        ensures
            answer is Ok ==> header is Text,
            refused_for_header(*header, answer),
            final(self).app.modelled() == old(self).app.modelled(),
            old(self).app.modelled() ==> ({
                &&& final(self).app.user_repo.users() == old(self).app.user_repo.users()
                &&& final(self).app.secret_repo.secrets() == old(self).app.secret_repo.secrets()
                &&& answer is Err ==> final(self).app.token_app.entries() == old(
                        self,
                    ).app.token_app.entries()
                &&& header matches TokenHeader::Text(token) ==> exists|r: Result<(), Error>|
                    answers(r, answer) && logged_out(
                        old(self).app.token_app.entries(),
                        old(self).app.token_app.key.public(),
                        old(self).app.token_app.cache.reliable(),
                        token@,
                        r,
                        final(self).app.token_app.entries(),
                    ) && exists|now: u64|
                        logout_comes_to(
                            old(self).app.token_app.entries(),
                            old(self).app.token_app.key.public(),
                            old(self).app.token_app.cache.reliable(),
                            token@,
                            now,
                            r,
                            final(self).app.token_app.entries(),
                        )
            }),
    {
        let token = match header.token() {
            Ok(token) => token,
            Err(status) => {
                return Err(status);
            },
        };
        let r = self.app.logout(token);
        let answer = reply(r);
        proof {
            if old(self).app.modelled() {
                let now = choose|now: u64|
                    logout_comes_to(
                        old(self).app.token_app.entries(),
                        old(self).app.token_app.key.public(),
                        old(self).app.token_app.cache.reliable(),
                        token@,
                        now,
                        r,
                        self.app.token_app.entries(),
                    );
                assert(answers(r, answer) && logged_out(
                    old(self).app.token_app.entries(),
                    old(self).app.token_app.key.public(),
                    old(self).app.token_app.cache.reliable(),
                    token@,
                    r,
                    self.app.token_app.entries(),
                ) && logout_comes_to(
                    old(self).app.token_app.entries(),
                    old(self).app.token_app.key.public(),
                    old(self).app.token_app.cache.reliable(),
                    token@,
                    now,
                    r,
                    self.app.token_app.entries(),
                ));
            }
        }
        answer
    }
}

/// How many random bytes make the identifier of a session.
pub const SID_BYTES: usize = 4;

/// Has `sid` the form of the identifier of a session: eight lower-case
/// hexadecimal digits?
pub open spec fn is_session_id(sid: Seq<char>) -> bool {
    sid.len() == 8 && forall|i: int| 0 <= i < sid.len() ==> is_hex_char(#[trigger] sid[i])
}

/// How often a fresh identifier is drawn for a session before giving up.
pub const SID_ATTEMPTS: usize = 16;

/// The identifiers of the sessions of one application.
pub struct Group {
    pub url: String,
    pub sids: Vec<String>,
}

/// The sessions by identifier.
pub type Sessions = Map<Seq<char>, SessionView>;

/// The identifiers of the sessions of each application, by its address.
pub type Groups = Map<Seq<char>, Seq<Seq<char>>>;

/// The identifiers of `sessions`, in their order.
pub open spec fn session_ids(sessions: Seq<Session>) -> Seq<Seq<char>> {
    Seq::new(sessions.len(), |i: int| sessions[i].sid@)
}

/// The values of `sessions`, in their order.
pub open spec fn session_views(sessions: Seq<Session>) -> Seq<SessionView> {
    Seq::new(sessions.len(), |i: int| sessions[i]@)
}

/// The addresses of `groups`, in their order.
pub open spec fn group_urls(groups: Seq<Group>) -> Seq<Seq<char>> {
    Seq::new(groups.len(), |i: int| groups[i].url@)
}

/// The lists of `groups`, in their order.
pub open spec fn group_lists(groups: Seq<Group>) -> Seq<Seq<Seq<char>>> {
    Seq::new(groups.len(), |i: int| texts(groups[i].sids@))
}

/// Is there a session of the user with the address `email`?
pub open spec fn has_session_of(sessions: Sessions, email: Seq<char>) -> bool {
    exists|sid: Seq<char>| #[trigger] sessions.contains_key(sid) && sessions[sid].email == email
}

/// The groups after `sid` was stored for the application `url`.
pub open spec fn after_store(groups: Groups, url: Seq<char>, sid: Seq<char>) -> Groups {
    if !groups.contains_key(url) {
        groups.insert(url, seq![sid])
    } else if groups[url].contains(sid) {
        groups
    } else {
        groups.insert(url, groups[url].push(sid))
    }
}

/// The groups after the group of the application `url` was destroyed,
/// which happens only to a group that is empty.
pub open spec fn after_destroy(groups: Groups, url: Seq<char>) -> Groups {
    if groups.contains_key(url) && groups[url].len() > 0 {
        groups
    } else {
        groups.remove(url)
    }
}

/// The groups after `sid` was removed for the application `url`; a group
/// that is left empty is destroyed.
pub open spec fn after_remove(groups: Groups, url: Seq<char>, sid: Seq<char>) -> Groups {
    if !groups.contains_key(url) {
        groups
    } else if without(groups[url], sid).len() == 0 {
        groups.remove(url)
    } else {
        groups.insert(url, without(groups[url], sid))
    }
}

/// Where the session `sid` stands in `sessions`, or their number where it
/// does not.
fn session_position(sessions: &Vec<Session>, sid: &str) -> (at: usize)
    ensures
        at <= sessions@.len(),
        at < sessions@.len() ==> sessions@[at as int].sid@ == sid@,
        at == sessions@.len() ==> forall|k: int|
            0 <= k < sessions@.len() ==> #[trigger] sessions@[k].sid@ != sid@,
{
    let mut i: usize = 0;
    while i < sessions.len()
        invariant
            i <= sessions@.len(),
            forall|k: int| 0 <= k < i ==> #[trigger] sessions@[k].sid@ != sid@,
        decreases sessions@.len() - i,
    {
        if same_text(sessions[i].sid.as_str(), sid) {
            return i;
        }
        i = i + 1;
    }
    i
}

/// Where a session of the user with the address `email` stands in
/// `sessions`, or their number where there is none.
fn email_position(sessions: &Vec<Session>, email: &str) -> (at: usize)
    ensures
        at <= sessions@.len(),
        at < sessions@.len() ==> sessions@[at as int].email@ == email@,
        at == sessions@.len() ==> forall|k: int|
            0 <= k < sessions@.len() ==> #[trigger] sessions@[k].email@ != email@,
{
    let mut i: usize = 0;
    while i < sessions.len()
        invariant
            i <= sessions@.len(),
            forall|k: int| 0 <= k < i ==> #[trigger] sessions@[k].email@ != email@,
        decreases sessions@.len() - i,
    {
        if same_text(sessions[i].email.as_str(), email) {
            return i;
        }
        i = i + 1;
    }
    i
}

/// Where the group of the application `url` stands in `groups`, or their
/// number where there is none.
fn group_position(groups: &Vec<Group>, url: &str) -> (at: usize)
    ensures
        at <= groups@.len(),
        at < groups@.len() ==> groups@[at as int].url@ == url@,
        at == groups@.len() ==> forall|k: int|
            0 <= k < groups@.len() ==> #[trigger] groups@[k].url@ != url@,
{
    let mut i: usize = 0;
    while i < groups.len()
        invariant
            i <= groups@.len(),
            forall|k: int| 0 <= k < i ==> #[trigger] groups@[k].url@ != url@,
        decreases groups@.len() - i,
    {
        if same_text(groups[i].url.as_str(), url) {
            return i;
        }
        i = i + 1;
    }
    i
}

/// Does `sid` stand in `sids`?
fn lists(sids: &Vec<String>, sid: &str) -> (b: bool)
    ensures
        b == texts(sids@).contains(sid@),
{
    let mut i: usize = 0;
    while i < sids.len()
        invariant
            i <= sids@.len(),
            forall|k: int| 0 <= k < i ==> #[trigger] texts(sids@)[k] != sid@,
        decreases sids@.len() - i,
    {
        if same_text(sids[i].as_str(), sid) {
            proof {
                assert(texts(sids@)[i as int] == sid@);
            }
            return true;
        }
        i = i + 1;
    }
    false
}

/// A copy of `sids`.
fn copy_of(sids: &Vec<String>) -> (copy: Vec<String>)
    ensures
        texts(copy@) == texts(sids@),
{
    let mut copy: Vec<String> = Vec::new();
    let mut i: usize = 0;
    while i < sids.len()
        invariant
            i <= sids@.len(),
            copy@.len() == i,
            forall|k: int| 0 <= k < i ==> #[trigger] copy@[k]@ == sids@[k]@,
        decreases sids@.len() - i,
    {
        copy.push(sids[i].clone());
        i = i + 1;
    }
    proof {
        assert(texts(copy@) =~= texts(sids@));
    }
    copy
}

/// `sids` without every occurrence of `sid`.
fn dropping(sids: &Vec<String>, sid: &str) -> (kept: Vec<String>)
    ensures
        texts(kept@) == without(texts(sids@), sid@),
{
    let mut kept: Vec<String> = Vec::new();
    let mut i: usize = 0;
    proof {
        assert(texts(sids@).subrange(0, 0) =~= Seq::<Seq<char>>::empty());
        assert(texts(kept@) =~= Seq::<Seq<char>>::empty());
    }
    while i < sids.len()
        invariant
            i <= sids@.len(),
            texts(kept@) == without(texts(sids@).subrange(0, i as int), sid@),
        decreases sids@.len() - i,
    {
        let ghost all = texts(sids@);
        let ghost before = texts(kept@);
        proof {
            let longer = all.subrange(0, i + 1);
            assert(longer.drop_last() =~= all.subrange(0, i as int));
            assert(longer.last() == sids@[i as int]@);
        }
        if !same_text(sids[i].as_str(), sid) {
            kept.push(sids[i].clone());
            proof {
                assert(texts(kept@) =~= before.push(sids@[i as int]@));
            }
        }
        i = i + 1;
    }
    proof {
        let all = texts(sids@);
        assert(all.subrange(0, all.len() as int) =~= all);
    }
    kept
}

/// The sessions of the process and, for each application, the
/// identifiers of the sessions that hold a directory for it.
pub struct InMemorySessionRepository {
    all_instances: Vec<Session>,
    group_by_app: Vec<Group>,
}

impl InMemorySessionRepository {
    #[verifier::type_invariant]
    spec fn inv(self) -> bool {
        unique(session_ids(self.all_instances@)) && unique(group_urls(self.group_by_app@))
    }

    /// The sessions by identifier.
    pub closed spec fn sessions(&self) -> Sessions {
        as_map(session_ids(self.all_instances@), session_views(self.all_instances@))
    }

    /// The identifiers of the sessions of each application.
    pub closed spec fn groups(&self) -> Groups {
        as_map(group_urls(self.group_by_app@), group_lists(self.group_by_app@))
    }

    /// A repository without sessions.
    pub fn new() -> (repo: InMemorySessionRepository)
        ensures
            repo.sessions() == Map::<Seq<char>, SessionView>::empty(),
            repo.groups() == Map::<Seq<char>, Seq<Seq<char>>>::empty(),
    {
        let repo = InMemorySessionRepository { all_instances: Vec::new(), group_by_app: Vec::new() };
        proof {
            assert(repo.sessions() =~= Map::<Seq<char>, SessionView>::empty());
            assert(repo.groups() =~= Map::<Seq<char>, Seq<Seq<char>>>::empty());
        }
        repo
    }

    /// What stands at `at` in the sessions is in the map; what stands
    /// nowhere is not.
    proof fn lemma_sessions(self, sid: Seq<char>, at: int)
        requires
            self.inv(),
            0 <= at <= self.all_instances@.len(),
            at < self.all_instances@.len() ==> self.all_instances@[at].sid@ == sid,
            at == self.all_instances@.len() ==> forall|k: int|
                0 <= k < self.all_instances@.len() ==> #[trigger] self.all_instances@[k].sid@ != sid,
        ensures
            self.sessions().contains_key(sid) == (at < self.all_instances@.len()),
            at < self.all_instances@.len() ==> self.sessions()[sid] == self.all_instances@[at]@,
    {
        let ids = session_ids(self.all_instances@);
        let views = session_views(self.all_instances@);
        if at < ids.len() {
            lemma_map_get(ids, views, at);
        } else {
            assert forall|k: int| 0 <= k < ids.len() implies ids[k] != sid by {
                assert(ids[k] == self.all_instances@[k].sid@);
            }
            lemma_map_absent(ids, views, sid);
        }
    }

    /// What stands at `at` in the groups is in the map; what stands
    /// nowhere is not.
    proof fn lemma_groups(self, url: Seq<char>, at: int)
        requires
            self.inv(),
            0 <= at <= self.group_by_app@.len(),
            at < self.group_by_app@.len() ==> self.group_by_app@[at].url@ == url,
            at == self.group_by_app@.len() ==> forall|k: int|
                0 <= k < self.group_by_app@.len() ==> #[trigger] self.group_by_app@[k].url@ != url,
        ensures
            self.groups().contains_key(url) == (at < self.group_by_app@.len()),
            at < self.group_by_app@.len() ==> self.groups()[url] == texts(
                self.group_by_app@[at].sids@,
            ),
    {
        let urls = group_urls(self.group_by_app@);
        let lists = group_lists(self.group_by_app@);
        if at < urls.len() {
            lemma_map_get(urls, lists, at);
        } else {
            assert forall|k: int| 0 <= k < urls.len() implies urls[k] != url by {
                assert(urls[k] == self.group_by_app@[k].url@);
            }
            lemma_map_absent(urls, lists, url);
        }
    }

    /// The session with the identifier `token`.
    pub fn find(&self, token: &str) -> (r: Result<Session, Error>)
        ensures
            r is Ok <==> self.sessions().contains_key(token@),
            r matches Ok(session) ==> session@ == self.sessions()[token@],
            r matches Err(e) ==> e == Error::NotFound,
    {
        let at = session_position(&self.all_instances, token);
        proof {
            use_type_invariant(self);
            self.lemma_sessions(token@, at as int);
        }
        if at < self.all_instances.len() {
            Ok(self.all_instances[at].duplicate())
        } else {
            Err(Error::NotFound)
        }
    }

    /// A session of the user with the address `email`.
    pub fn find_by_email(&self, email: &str) -> (r: Result<Session, Error>)
        ensures
            r is Ok <==> has_session_of(self.sessions(), email@),
            r matches Ok(session) ==> session@.email == email@ && self.sessions().contains_key(
                session@.sid,
            ) && self.sessions()[session@.sid] == session@,
            r matches Err(e) ==> e == Error::NotFound,
    {
        let at = email_position(&self.all_instances, email);
        proof {
            use_type_invariant(self);
            self.lemma_email(email@, at as int);
        }
        if at < self.all_instances.len() {
            Ok(self.all_instances[at].duplicate())
        } else {
            Err(Error::NotFound)
        }
    }

    /// A user whose session stands at `at` has a session; one whose
    /// session stands nowhere has none.
    proof fn lemma_email(self, email: Seq<char>, at: int)
        requires
            self.inv(),
            0 <= at <= self.all_instances@.len(),
            at < self.all_instances@.len() ==> self.all_instances@[at].email@ == email,
            at == self.all_instances@.len() ==> forall|k: int|
                0 <= k < self.all_instances@.len() ==> #[trigger] self.all_instances@[k].email@
                    != email,
        ensures
            has_session_of(self.sessions(), email) == (at < self.all_instances@.len()),
            at < self.all_instances@.len() ==> self.sessions().contains_key(
                self.all_instances@[at].sid@,
            ) && self.sessions()[self.all_instances@[at].sid@] == self.all_instances@[at]@,
    {
        let ids = session_ids(self.all_instances@);
        let views = session_views(self.all_instances@);
        let m = self.sessions();
        if at < ids.len() {
            lemma_map_get(ids, views, at);
            assert(m.contains_key(ids[at]) && m[ids[at]].email == email);
        } else if has_session_of(m, email) {
            let sid = choose|sid: Seq<char>| #[trigger] m.contains_key(sid) && m[sid].email == email;
            assert(ids.contains(sid));
            let k = choose|k: int| 0 <= k < ids.len() && ids[k] == sid;
            lemma_map_get(ids, views, k);
            assert(self.all_instances@[k].email@ != email);
        }
    }

    /// Is no session stored under `sid`?
    pub fn is_free(&self, sid: &str) -> (b: bool)
        ensures
            b == !self.sessions().contains_key(sid@),
    {
        let at = session_position(&self.all_instances, sid);
        proof {
            use_type_invariant(self);
            self.lemma_sessions(sid@, at as int);
        }
        at == self.all_instances.len()
    }

    /// Stores `session` under the identifier `sid`. A session that is
    /// stored already, a user who has a session, and an identifier that is
    /// in use are refused with `AlreadyExists`.
    pub fn save_as(&mut self, session: Session, sid: String) -> (r: Result<Session, Error>)
        ensures
            final(self).groups() == old(self).groups(),
            r is Ok <==> !old(self).sessions().contains_key(session@.sid) && !has_session_of(
                old(self).sessions(),
                session@.email,
            ) && !old(self).sessions().contains_key(sid@),
            r matches Ok(stored) ==> stored@ == (SessionView { sid: sid@, ..session@ })
                && final(self).sessions() == old(self).sessions().insert(sid@, stored@),
            r is Err ==> final(self).sessions() == old(self).sessions(),
            r matches Err(e) ==> e == Error::AlreadyExists,
    {
        let known = session_position(&self.all_instances, session.sid.as_str());
        let logged = email_position(&self.all_instances, session.email.as_str());
        let taken = session_position(&self.all_instances, sid.as_str());
        proof {
            use_type_invariant(&*self);
            self.lemma_sessions(session@.sid, known as int);
            self.lemma_email(session@.email, logged as int);
            self.lemma_sessions(sid@, taken as int);
        }
        let n = self.all_instances.len();
        if known < n || logged < n || taken < n {
            return Err(Error::AlreadyExists);
        }
        let ghost before = self.all_instances@;
        let mut stored = session;
        stored.sid = sid;
        let copy = stored.duplicate();
        proof {
            lemma_map_push(session_ids(before), session_views(before), stored@.sid, stored@);
        }
        let mut sessions: Vec<Session> = Vec::new();
        core::mem::swap(&mut sessions, &mut self.all_instances);
        sessions.push(stored);
        proof {
            assert(session_ids(sessions@) =~= session_ids(before).push(copy@.sid));
            assert(session_views(sessions@) =~= session_views(before).push(copy@));
        }
        self.all_instances = sessions;
        Ok(copy)
    }

    /// Stores `session` under a random identifier of eight hexadecimal
    /// digits that is not in use. A session that is stored already and a
    /// user who has a session are refused with `AlreadyExists`; where no
    /// fresh identifier comes up, the failure is `Debug`.
    pub fn save(&mut self, session: Session) -> (r: Result<Session, Error>)
        ensures
            final(self).groups() == old(self).groups(),
            r matches Ok(stored) ==> !old(self).sessions().contains_key(session@.sid)
                && !has_session_of(old(self).sessions(), session@.email) && !old(
                self,
            ).sessions().contains_key(stored@.sid) && stored@ == (SessionView {
                sid: stored@.sid,
                ..session@
            }) && final(self).sessions() == old(self).sessions().insert(stored@.sid, stored@),
            r matches Ok(stored) ==> is_session_id(stored@.sid),
            r is Err ==> final(self).sessions() == old(self).sessions(),
            r matches Err(e) ==> e == Error::AlreadyExists || e == Error::Debug,
            r matches Err(e) ==> (e == Error::AlreadyExists <==> old(self).sessions().contains_key(
                session@.sid,
            ) || has_session_of(old(self).sessions(), session@.email)),
    {
        let known = session_position(&self.all_instances, session.sid.as_str());
        let logged = email_position(&self.all_instances, session.email.as_str());
        proof {
            use_type_invariant(&*self);
            self.lemma_sessions(session@.sid, known as int);
            self.lemma_email(session@.email, logged as int);
        }
        if known < self.all_instances.len() || logged < self.all_instances.len() {
            return Err(Error::AlreadyExists);
        }
        let mut attempts: usize = SID_ATTEMPTS;
        while attempts > 0
            invariant
                *self == *old(self),
                !old(self).sessions().contains_key(session@.sid),
                !has_session_of(old(self).sessions(), session@.email),
            decreases attempts,
        {
            attempts = attempts - 1;
            match random_hex(SID_BYTES) {
                Ok(sid) => {
                    proof {
                        let bytes = choose|bytes: Seq<u8>|
                            bytes.len() == SID_BYTES && sid@ == hex_text(bytes);
                        lemma_hex_text(bytes);
                    }
                    if self.is_free(sid.as_str()) {
                        return self.save_as(session, sid);
                    }
                },
                Err(e) => {
                    return Err(e);
                },
            }
        }
        Err(Error::Debug)
    }

    /// Removes `session`.
    pub fn delete(&mut self, session: &Session) -> (r: Result<(), Error>)
        ensures
            final(self).groups() == old(self).groups(),
            r is Ok <==> old(self).sessions().contains_key(session@.sid),
            r is Ok ==> final(self).sessions() == old(self).sessions().remove(session@.sid),
            r is Err ==> final(self).sessions() == old(self).sessions(),
            r matches Err(e) ==> e == Error::NotFound,
    {
        let at = session_position(&self.all_instances, session.sid.as_str());
        proof {
            use_type_invariant(&*self);
            self.lemma_sessions(session@.sid, at as int);
        }
        if at >= self.all_instances.len() {
            return Err(Error::NotFound);
        }
        let ghost before = self.all_instances@;
        proof {
            lemma_map_remove(session_ids(before), session_views(before), at as int);
        }
        let mut sessions: Vec<Session> = Vec::new();
        core::mem::swap(&mut sessions, &mut self.all_instances);
        sessions.remove(at);
        proof {
            assert(session_ids(sessions@) =~= session_ids(before).remove(at as int));
            assert(session_views(sessions@) =~= session_views(before).remove(at as int));
        }
        self.all_instances = sessions;
        Ok(())
    }

    /// The identifiers of the sessions of the application `url`.
    pub fn get(&self, url: &str) -> (r: Result<Vec<String>, Error>)
        ensures
            r is Ok <==> self.groups().contains_key(url@),
            r matches Ok(sids) ==> texts(sids@) == self.groups()[url@],
            r matches Err(e) ==> e == Error::NotFound,
    {
        let at = group_position(&self.group_by_app, url);
        proof {
            use_type_invariant(self);
            self.lemma_groups(url@, at as int);
        }
        if at < self.group_by_app.len() {
            Ok(copy_of(&self.group_by_app[at].sids))
        } else {
            Err(Error::NotFound)
        }
    }

    /// Puts `sids` in the place of the group of the application `url`,
    /// which must stand at `at`, or appends it as a new group where `at`
    /// is the number of groups.
    fn put_group(&mut self, url: &str, sids: Vec<String>, at: usize)
        requires
            at <= old(self).group_by_app@.len(),
            at < old(self).group_by_app@.len() ==> old(self).group_by_app@[at as int].url@ == url@,
            at == old(self).group_by_app@.len() ==> forall|k: int|
                0 <= k < old(self).group_by_app@.len() ==> #[trigger] old(
                    self,
                ).group_by_app@[k].url@ != url@,
        ensures
            final(self).sessions() == old(self).sessions(),
            final(self).groups() == old(self).groups().insert(url@, texts(sids@)),
    {
        proof {
            use_type_invariant(&*self);
        }
        let ghost before = self.group_by_app@;
        let ghost list = texts(sids@);
        let mut groups: Vec<Group> = Vec::new();
        core::mem::swap(&mut groups, &mut self.group_by_app);
        if at < groups.len() {
            proof {
                lemma_map_update(group_urls(before), group_lists(before), at as int, list);
            }
            groups.set(at, Group { url: url.to_owned(), sids });
            proof {
                assert(group_urls(groups@) =~= group_urls(before));
                assert(group_lists(groups@) =~= group_lists(before).update(at as int, list));
            }
        } else {
            proof {
                let urls = group_urls(before);
                assert forall|k: int| 0 <= k < urls.len() implies urls[k] != url@ by {
                    assert(urls[k] == before[k].url@);
                }
                lemma_map_absent(urls, group_lists(before), url@);
                lemma_map_push(urls, group_lists(before), url@, list);
            }
            groups.push(Group { url: url.to_owned(), sids });
            proof {
                assert(group_urls(groups@) =~= group_urls(before).push(url@));
                assert(group_lists(groups@) =~= group_lists(before).push(list));
            }
        }
        self.group_by_app = groups;
    }

    /// Makes the group of the application `url` the one session `sid`,
    /// whatever the group held.
    pub fn create_group(&mut self, url: &str, sid: &str)
        ensures
            final(self).sessions() == old(self).sessions(),
            final(self).groups() == old(self).groups().insert(url@, seq![sid@]),
    {
        let at = group_position(&self.group_by_app, url);
        let mut sids: Vec<String> = Vec::new();
        sids.push(sid.to_owned());
        proof {
            assert(texts(sids@) =~= seq![sid@]);
        }
        self.put_group(url, sids, at);
    }

    /// Destroys the group of the application `url` if it is empty; a
    /// group that holds sessions stays.
    pub fn destroy_group(&mut self, url: &str)
        ensures
            final(self).sessions() == old(self).sessions(),
            final(self).groups() == after_destroy(old(self).groups(), url@),
    {
        let at = group_position(&self.group_by_app, url);
        proof {
            use_type_invariant(&*self);
            self.lemma_groups(url@, at as int);
        }
        if at < self.group_by_app.len() && self.group_by_app[at].sids.len() == 0 {
            let ghost before = self.group_by_app@;
            proof {
                lemma_map_remove(group_urls(before), group_lists(before), at as int);
            }
            let mut groups: Vec<Group> = Vec::new();
            core::mem::swap(&mut groups, &mut self.group_by_app);
            groups.remove(at);
            proof {
                assert(group_urls(groups@) =~= group_urls(before).remove(at as int));
                assert(group_lists(groups@) =~= group_lists(before).remove(at as int));
            }
            self.group_by_app = groups;
        } else {
            proof {
                if at == self.group_by_app@.len() {
                    assert(self.groups().remove(url@) =~= self.groups());
                }
            }
        }
    }

    /// Notes that the session `sid` holds a directory for the application
    /// `url`; the first session of an application makes its group.
    pub fn store(&mut self, url: &str, sid: &str)
        ensures
            final(self).sessions() == old(self).sessions(),
            final(self).groups() == after_store(old(self).groups(), url@, sid@),
    {
        let at = group_position(&self.group_by_app, url);
        proof {
            use_type_invariant(&*self);
            self.lemma_groups(url@, at as int);
        }
        if at < self.group_by_app.len() {
            if !lists(&self.group_by_app[at].sids, sid) {
                let mut sids = copy_of(&self.group_by_app[at].sids);
                let ghost before = texts(sids@);
                sids.push(sid.to_owned());
                proof {
                    assert(texts(sids@) =~= before.push(sid@));
                }
                self.put_group(url, sids, at);
            }
        } else {
            self.create_group(url, sid);
        }
    }

    /// Notes that the session `sid` no longer holds a directory for the
    /// application `url`; a group that is left empty is destroyed.
    pub fn remove(&mut self, url: &str, sid: &str)
        ensures
            final(self).sessions() == old(self).sessions(),
            final(self).groups() == after_remove(old(self).groups(), url@, sid@),
    {
        let at = group_position(&self.group_by_app, url);
        proof {
            use_type_invariant(&*self);
            self.lemma_groups(url@, at as int);
        }
        if at < self.group_by_app.len() {
            let sids = dropping(&self.group_by_app[at].sids, sid);
            let left = sids.len();
            self.put_group(url, sids, at);
            if left == 0 {
                let ghost middle = self.groups();
                self.destroy_group(url);
                proof {
                    assert(middle.remove(url@) =~= old(self).groups().remove(url@));
                }
            }
        } else {
            proof {
                assert(self.groups().remove(url@) =~= self.groups());
            }
            self.destroy_group(url);
        }
    }

    /// Takes the directory for the application `url` from every session
    /// of its group, then destroys the group if it is empty. An
    /// application without a group is refused with `NotFound`.
    pub fn delete_all_by_app(&mut self, url: &str) -> (r: Result<(), Error>)
        ensures
            r is Ok <==> old(self).groups().contains_key(url@),
            r is Ok ==> final(self).sessions().dom() == old(self).sessions().dom() && forall|
                sid: Seq<char>,
            | #[trigger]
                final(self).sessions().contains_key(sid) ==> final(self).sessions()[sid] == (
                if old(self).groups()[url@].contains(sid) {
                    old(self).sessions()[sid].without_directory(url@)
                } else {
                    old(self).sessions()[sid]
                }),
            r is Ok ==> final(self).groups() == after_destroy(old(self).groups(), url@),
            r is Err ==> final(self).sessions() == old(self).sessions() && final(self).groups()
                == old(self).groups(),
            r matches Err(e) ==> e == Error::NotFound,
    {
        let sids = match self.get(url) {
            Ok(sids) => sids,
            Err(e) => {
                return Err(e);
            },
        };
        proof {
            use_type_invariant(&*self);
        }
        let ghost before = self.all_instances@;
        let ghost listed = texts(sids@);
        let mut sessions: Vec<Session> = Vec::new();
        core::mem::swap(&mut sessions, &mut self.all_instances);
        let mut i: usize = 0;
        proof {
            assert(listed.subrange(0, 0) =~= Seq::<Seq<char>>::empty());
        }
        while i < sids.len()
            invariant
                i <= sids@.len(),
                listed == texts(sids@),
                sessions@.len() == before.len(),
                unique(session_ids(before)),
                forall|k: int|
                    0 <= k < before.len() ==> (#[trigger] sessions@[k])@ == (if listed.subrange(
                        0,
                        i as int,
                    ).contains(before[k].sid@) {
                        before[k]@.without_directory(url@)
                    } else {
                        before[k]@
                    }),
            decreases sids@.len() - i,
        {
            let ghost done = listed.subrange(0, i as int);
            let ghost next = listed.subrange(0, i + 1);
            let ghost current = sessions@;
            proof {
                assert(next =~= done.push(listed[i as int]));
                assert forall|x: Seq<char>| next.contains(x) <==> (done.contains(x) || x
                    == listed[i as int]) by {
                    if done.contains(x) {
                        let j = choose|j: int| 0 <= j < done.len() && done[j] == x;
                        assert(next[j] == x);
                    }
                    if x == listed[i as int] {
                        assert(next[i as int] == x);
                    }
                    if next.contains(x) {
                        let j = choose|j: int| 0 <= j < next.len() && next[j] == x;
                        if j < i {
                            assert(done[j] == x);
                        }
                    }
                }
            }
            let at = session_position(&sessions, sids[i].as_str());
            if at < sessions.len() {
                let mut session = sessions[at].duplicate();
                session.delete_directory(url);
                proof {
                    lemma_without_again(before[at as int]@.directories, url@);
                    assert(current[at as int]@.sid == before[at as int].sid@);
                }
                sessions.set(at, session);
                proof {
                    assert forall|k: int| 0 <= k < before.len() implies (#[trigger] sessions@[k])@
                        == (if next.contains(before[k].sid@) {
                        before[k]@.without_directory(url@)
                    } else {
                        before[k]@
                    }) by {
                        assert(current[k]@.sid == before[k].sid@);
                        if k != at {
                            assert(sessions@[k] == current[k]);
                            let ids = session_ids(before);
                            assert(ids[k] == before[k].sid@ && ids[at as int] == before[at as int].sid@);
                            if k < at {
                                assert(ids[k] != ids[at as int]);
                            } else {
                                assert(ids[at as int] != ids[k]);
                            }
                            assert(current[k].sid@ != listed[i as int]);
                        }
                    }
                }
            } else {
                proof {
                    assert forall|k: int| 0 <= k < before.len() implies (#[trigger] sessions@[k])@
                        == (if next.contains(before[k].sid@) {
                        before[k]@.without_directory(url@)
                    } else {
                        before[k]@
                    }) by {
                        assert(current[k]@.sid == before[k].sid@);
                        assert(current[k].sid@ != listed[i as int]);
                    }
                }
            }
            i = i + 1;
        }
        proof {
            assert(listed.subrange(0, listed.len() as int) =~= listed);
            assert(session_ids(sessions@) =~= session_ids(before)) by {
                assert forall|k: int| 0 <= k < before.len() implies sessions@[k].sid@
                    == before[k].sid@ by {
                    assert(sessions@[k]@.sid == before[k]@.sid);
                }
            }
        }
        self.all_instances = sessions;
        proof {
            let ids = session_ids(before);
            let after = self.sessions();
            let old_map = old(self).sessions();
            assert(after.dom() =~= old_map.dom());
            assert forall|sid: Seq<char>| #[trigger] after.contains_key(sid) implies after[sid] == (
            if listed.contains(sid) {
                old_map[sid].without_directory(url@)
            } else {
                old_map[sid]
            }) by {
                assert(ids.contains(sid));
                let k = choose|k: int| 0 <= k < ids.len() && ids[k] == sid;
                lemma_map_get(ids, session_views(before), k);
                lemma_map_get(session_ids(self.all_instances@), session_views(self.all_instances@), k);
            }
        }
        self.destroy_group(url);
        Ok(())
    }
}

} // verus!
