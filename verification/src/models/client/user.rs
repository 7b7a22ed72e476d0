//! A user as a row of the relational store: a client with an email
//! address.

use vstd::prelude::*;
use crate::models::client::Extension;
use crate::result::Error;

verus! {

/// What controls a user: it has an address.
pub trait Controller {
    fn get_addr(&self) -> &str;
}

/// A row of the table of users, as a mathematical value.
pub struct UserView {
    pub id: i32,
    pub client_id: i32,
    pub email: Seq<char>,
}

/// A row of the table of users.
#[derive(Debug)]
pub struct User {
    pub id: i32,
    pub client_id: i32,
    pub email: String,
}

impl View for User {
    type V = UserView;

    open spec fn view(&self) -> UserView {
        UserView { id: self.id, client_id: self.client_id, email: self.email@ }
    }
}

/// A row of the table of users that is about to be inserted.
#[derive(Debug)]
pub struct NewUser<'a> {
    pub client_id: i32,
    pub email: &'a str,
}

impl User {
    /// The row to insert for a user of the client `client_id` with the
    /// address `email`.
    pub fn to_insert<'a>(client_id: i32, email: &'a str) -> (row: NewUser<'a>)
        ensures
            row.client_id == client_id,
            row.email@ == email@,
    {
        NewUser { client_id, email }
    }

    /// The user that a query for one user found: the first of `results`,
    /// or `NotFound` where there is none.
    pub fn first(results: &Vec<User>) -> (r: Result<User, Error>)
        ensures
            r is Ok <==> results@.len() > 0,
            r matches Ok(user) ==> user@ == results@[0]@,
            r matches Err(e) ==> e == Error::NotFound,
    {
        if results.len() > 0 {
            Ok(results[0].duplicate())
        } else {
            Err(Error::NotFound)
        }
    }

    /// A copy of this row.
    pub fn duplicate(&self) -> (user: User)
        ensures
            user@ == self@,
    {
        User { id: self.id, client_id: self.client_id, email: self.email.clone() }
    }

    /// The user as an extension of its client.
    pub fn build(&self) -> (wrapper: Wrapper)
        ensures
            wrapper.data() == self@,
            wrapper.addr() == self@.email,
    {
        Wrapper::new(self.duplicate())
    }
}

/// The relation between a client and a user that extends it.
pub struct Wrapper {
    data: User,
}

impl Wrapper {
    /// The user that is wrapped.
    pub closed spec fn data(&self) -> UserView {
        self.data@
    }

    pub fn new(data: User) -> (wrapper: Wrapper)
        ensures
            wrapper.data() == data@,
            wrapper.addr() == data@.email,
    {
        Wrapper { data }
    }
}

impl Extension for Wrapper {
    closed spec fn addr(&self) -> Seq<char> {
        self.data.email@
    }

    fn get_addr(&self) -> (addr: String)
    {
        self.data.email.clone()
    }
}

} // verus!
