//! Types that validate their inputs.
use vstd::prelude::*;

verus! {

/// A URL.
#[derive(Debug, PartialEq)]
pub struct Url(String);

impl View for Url {
    type V = Seq<char>;

    closed spec fn view(&self) -> Seq<char> {
        self.0@
    }
}

impl Url {
    /// A URL holding `unvalidated_url`; every string is accepted for now.
    pub fn new(unvalidated_url: &str) -> (r: Result<Url, String>)
        ensures
            r is Ok && r->Ok_0@ == unvalidated_url@,
    {
        Ok(Url(String::from_str(unvalidated_url)))
    }

    /// The URL's text.
    pub fn value(&self) -> (r: String)
        ensures
            r@ == self@,
    {
        self.0.clone()
    }
}

} // verus!
