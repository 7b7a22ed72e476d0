//! A session: who is logged in, under which identifier, and for which
//! applications the session holds a directory.

use vstd::prelude::*;
use crate::text::same_text;

verus! {

/// The texts of `v`, in their order.
pub open spec fn texts(v: Seq<String>) -> Seq<Seq<char>> {
    Seq::new(v.len(), |i: int| v[i]@)
}

/// `s` without every occurrence of `x`.
pub open spec fn without(s: Seq<Seq<char>>, x: Seq<char>) -> Seq<Seq<char>>
    decreases s.len(),
{
    if s.len() == 0 {
        Seq::empty()
    } else if s.last() == x {
        without(s.drop_last(), x)
    } else {
        without(s.drop_last(), x).push(s.last())
    }
}

/// Where there is no `x`, nothing is taken out; so taking `x` out twice
/// is taking it out once.
pub proof fn lemma_without_again(s: Seq<Seq<char>>, x: Seq<char>)
    ensures
        !s.contains(x) ==> without(s, x) == s,
        without(without(s, x), x) == without(s, x),
    decreases s.len(),
{
    if s.len() > 0 {
        let head = s.drop_last();
        lemma_without_again(head, x);
        if !s.contains(x) {
            assert(s[s.len() - 1] != x);
            assert forall|i: int| 0 <= i < head.len() implies head[i] != x by {
                assert(s[i] == head[i]);
            }
            assert(!head.contains(x));
            assert(without(s, x) =~= s);
        }
        if s.last() != x {
            let w = without(head, x);
            assert(w.push(s.last()).drop_last() =~= w);
        }
    } else {
        assert(without(s, x) =~= s);
    }
}

/// A session, as a mathematical value.
pub struct SessionView {
    pub sid: Seq<char>,
    pub email: Seq<char>,
    pub directories: Seq<Seq<char>>,
}

impl SessionView {
    /// The same session without a directory for the application `url`.
    pub open spec fn without_directory(self, url: Seq<char>) -> SessionView {
        SessionView { directories: without(self.directories, url), ..self }
    }
}

/// A session. The identifier is empty until a repository has stored it.
#[derive(Debug)]
pub struct Session {
    /// The identifier of the session.
    pub sid: String,
    /// The address of the user who is logged in.
    pub email: String,
    /// The addresses of the applications that the session holds a
    /// directory for.
    pub directories: Vec<String>,
}

impl View for Session {
    type V = SessionView;

    open spec fn view(&self) -> SessionView {
        SessionView { sid: self.sid@, email: self.email@, directories: texts(self.directories@) }
    }
}

impl Session {
    /// A session of the user with the address `email`, without an
    /// identifier and without directories.
    pub fn new(email: &str) -> (session: Session)
        ensures
            session@ == (SessionView {
                sid: Seq::empty(),
                email: email@,
                directories: Seq::empty(),
            }),
    {
        let session = Session { sid: String::new(), email: email.to_owned(), directories: Vec::new() };
        proof {
            assert(texts(session.directories@) =~= Seq::<Seq<char>>::empty());
        }
        session
    }

    /// Notes that the session holds a directory for the application `url`.
    pub fn set_directory(&mut self, url: &str)
        ensures
            final(self)@ == (SessionView {
                directories: old(self)@.directories.push(url@),
                ..old(self)@
            }),
    {
        self.directories.push(url.to_owned());
        proof {
            assert(texts(self.directories@) =~= texts(old(self).directories@).push(url@));
        }
    }

    /// Forgets the directory for the application `url`, if the session
    /// holds one.
    pub fn delete_directory(&mut self, url: &str)
        ensures
            final(self)@ == old(self)@.without_directory(url@),
    {
        let mut kept: Vec<String> = Vec::new();
        let mut i: usize = 0;
        proof {
            assert(texts(self.directories@).subrange(0, 0) =~= Seq::<Seq<char>>::empty());
            assert(texts(kept@) =~= Seq::<Seq<char>>::empty());
        }
        while i < self.directories.len()
            invariant
                i <= self.directories@.len(),
                texts(kept@) == without(texts(self.directories@).subrange(0, i as int), url@),
            decreases self.directories@.len() - i,
        {
            let ghost all = texts(self.directories@);
            let ghost before = texts(kept@);
            proof {
                let longer = all.subrange(0, i + 1);
                assert(longer.drop_last() =~= all.subrange(0, i as int));
                assert(longer.last() == self.directories@[i as int]@);
            }
            if !same_text(self.directories[i].as_str(), url) {
                kept.push(self.directories[i].clone());
                proof {
                    assert(texts(kept@) =~= before.push(self.directories@[i as int]@));
                }
            }
            i = i + 1;
        }
        proof {
            let all = texts(self.directories@);
            assert(all.subrange(0, all.len() as int) =~= all);
        }
        self.directories = kept;
    }

    /// A copy of this session.
    pub fn duplicate(&self) -> (session: Session)
        ensures
            session@ == self@,
    {
        let mut directories: Vec<String> = Vec::new();
        let mut i: usize = 0;
        while i < self.directories.len()
            invariant
                i <= self.directories@.len(),
                texts(directories@) == texts(self.directories@).subrange(0, i as int),
            decreases self.directories@.len() - i,
        {
            let ghost before = texts(directories@);
            directories.push(self.directories[i].clone());
            proof {
                assert(texts(directories@) =~= before.push(self.directories@[i as int]@));
                assert(texts(self.directories@).subrange(0, i + 1) =~= texts(
                    self.directories@,
                ).subrange(0, i as int).push(self.directories@[i as int]@));
            }
            i = i + 1;
        }
        proof {
            let all = texts(self.directories@);
            assert(all.subrange(0, all.len() as int) =~= all);
        }
        Session { sid: self.sid.clone(), email: self.email.clone(), directories }
    }
}

} // verus!
