//! The basic failure value shared by the lexical components: a reason text
//! attached to nothing else, enough to build a diagnostic message.

use vstd::prelude::*;

verus! {

/// A typed failure carrying the reason it was raised.
#[derive(Debug, PartialEq)]
pub struct BaseErr<'a> {
    reason: &'a str,
}

impl<'a> View for BaseErr<'a> {
    type V = Seq<char>;

    closed spec fn view(&self) -> Seq<char> {
        self.reason@
    }
}

impl<'a> BaseErr<'a> {
    pub fn new(reason: &'a str) -> (r: Self)
        ensures
            r@ == reason@,
    {
        Self { reason }
    }

    /// The reason this failure was raised with.
    pub fn reason(&self) -> (r: &'a str)
        ensures
            r@ == self@,
    {
        self.reason
    }
}

} // verus!
