//! A password read from the operator, kept out of debug output.
use vstd::prelude::*;

verus! {

/// A password; its text leaves it only through `take`.
#[derive(Clone)]
pub struct Password(String);

impl Password {
    pub fn new(inner: String) -> (r: Password)
        ensures
            r.text() == inner@,
    {
        Password(inner)
    }

    pub closed spec fn text(&self) -> Seq<char> {
        self.0@
    }

    /// The text of the password.
    pub fn take(self) -> (r: String)
        ensures
            r@ == self.text(),
    {
        self.0
    }
}

} // verus!
