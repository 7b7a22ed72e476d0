//! The clients of the service and what extends them.

pub mod user;

use vstd::prelude::*;

verus! {

/// What extends a client: it has an address.
pub trait Extension {
    /// The address.
    spec fn addr(&self) -> Seq<char>;

    /// The address.
    fn get_addr(&self) -> (addr: String)
        ensures
            addr@ == self.addr(),
    ;
}

} // verus!
