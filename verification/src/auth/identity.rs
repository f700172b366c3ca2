//! Subjects of the identity provider.
use vstd::prelude::*;

verus! {

/// The opaque identifier that the identity provider gives to a user.
#[derive(Debug, PartialEq, Eq, Hash, Ord, PartialOrd)]
pub struct Subject(String);

impl View for Subject {
    type V = Seq<char>;

    closed spec fn view(&self) -> Seq<char> {
        self.0@
    }
}

impl DeepView for Subject {
    type V = Seq<char>;

    open spec fn deep_view(&self) -> Seq<char> {
        self@
    }
}

impl Clone for Subject {
    fn clone(&self) -> (r: Self)
        ensures
            r@ == self@,
    {
        Subject(self.0.clone())
    }
}

impl Subject {
    pub fn new(value: String) -> (r: Self)
        ensures
            r@ == value@,
    {
        Subject(value)
    }

    pub fn as_str(&self) -> (r: &str)
        ensures
            r@ == self@,
    {
        self.0.as_str()
    }

    pub fn into_string(self) -> (r: String)
        ensures
            r@ == self@,
    {
        self.0
    }
}

} // verus!
